//! A small path model over plain strings: the file name is everything after
//! the last separator (`/` or `\`), and the extension is everything after the
//! last dot of the file name, provided that dot is not its first character.

use vstd::prelude::*;
use crate::text::{lower_spec, lit_string};

verus! {

/// Path separators recognized by the library.
pub open spec fn is_sep(c: char) -> bool {
    c == '/' || c == '\\'
}

/// The file name of a path: the suffix after the last separator.
pub open spec fn file_name_spec(p: Seq<char>) -> Seq<char>
    decreases p.len(),
{
    if p.len() == 0 {
        Seq::empty()
    } else if is_sep(p.last()) {
        Seq::empty()
    } else {
        file_name_spec(p.drop_last()).push(p.last())
    }
}

/// The extension of a file name: the suffix after its last dot, provided the
/// dot is neither the whole name's first character nor absent.
pub open spec fn ext_rec(f: Seq<char>) -> Option<Seq<char>>
    decreases f.len(),
{
    if f.len() == 0 {
        None
    } else if f.last() == '.' {
        if f.len() == 1 {
            None
        } else {
            Some(Seq::empty())
        }
    } else {
        match ext_rec(f.drop_last()) {
            None => None,
            Some(e) => Some(e.push(f.last())),
        }
    }
}

/// The extension of a path, if any.
pub open spec fn extension_spec(p: Seq<char>) -> Option<Seq<char>> {
    ext_rec(file_name_spec(p))
}

/// The lowercased extension of a path; empty when there is none.
pub open spec fn path_ext_lower(p: Seq<char>) -> Seq<char> {
    match extension_spec(p) {
        None => Seq::empty(),
        Some(e) => lower_spec(e),
    }
}

proof fn lemma_file_name(p: Seq<char>, start: int)
    requires
        0 <= start <= p.len(),
        forall|j: int| start <= j < p.len() ==> !is_sep(p[j]),
        start > 0 ==> is_sep(p[start - 1]),
    ensures
        file_name_spec(p) =~= p.subrange(start, p.len() as int),
    decreases p.len(),
{
    if p.len() == 0 {
    } else if is_sep(p.last()) {
        assert(start == p.len());
    } else {
        assert(start < p.len());
        lemma_file_name(p.drop_last(), start);
        assert(p.drop_last().subrange(start, p.len() - 1) =~= p.subrange(start, p.len() - 1));
    }
}

proof fn lemma_ext_none(f: Seq<char>)
    requires
        forall|j: int| 0 < j < f.len() ==> f[j] != '.',
    ensures
        ext_rec(f) is None,
    decreases f.len(),
{
    if f.len() == 0 {
    } else if f.last() == '.' {
        assert(f.len() == 1);
    } else {
        lemma_ext_none(f.drop_last());
    }
}

proof fn lemma_ext_at(f: Seq<char>, d: int)
    requires
        0 < d < f.len(),
        f[d] == '.',
        forall|j: int| d < j < f.len() ==> f[j] != '.',
    ensures
        ext_rec(f) == Some(f.subrange(d + 1, f.len() as int)),
    decreases f.len(),
{
    if d == f.len() - 1 {
        assert(f.subrange(d + 1, f.len() as int) =~= Seq::<char>::empty());
    } else {
        lemma_ext_at(f.drop_last(), d);
        assert(f.drop_last().subrange(d + 1, f.len() - 1) =~= f.subrange(d + 1, f.len() - 1));
        assert(f.subrange(d + 1, f.len() - 1).push(f.last()) =~= f.subrange(
            d + 1,
            f.len() as int,
        ));
    }
}

/// The lowercased extension of a path, as characters; empty when the path
/// has no extension.
pub fn ext_lower_chars(p: &Vec<char>) -> (r: Vec<char>)
    ensures
        r@ == path_ext_lower(p@),
{
    let n = p.len();
    // scan backward for the last separator; the file name starts after it
    let mut start: usize = n;
    while start > 0 && !(p[start - 1] == '/' || p[start - 1] == '\\')
        invariant
            n == p@.len(),
            0 <= start <= n,
            forall|j: int| start <= j < n ==> !is_sep(p@[j]),
        decreases start,
    {
        start = start - 1;
    }
    proof {
        lemma_file_name(p@, start as int);
    }
    let ghost f = file_name_spec(p@);
    // scan backward for the last dot of the file name
    let mut dot: usize = n;
    let mut i: usize = n;
    while i > start
        invariant
            n == p@.len(),
            start <= i <= n,
            dot <= n,
            dot == n ==> forall|j: int| i <= j < n ==> p@[j] != '.',
            dot < n ==> i <= dot && p@[dot as int] == '.',
            dot < n ==> forall|j: int| dot < j < n ==> p@[j] != '.',
        decreases i,
    {
        i = i - 1;
        if p[i] == '.' && dot == n {
            dot = i;
        }
    }
    let mut out: Vec<char> = Vec::new();
    if dot == n || dot == start {
        // no dot, or the dot is the first character of the file name
        proof {
            assert forall|j: int| 0 < j < f.len() implies f[j] != '.' by {
                assert(f[j] == p@[start + j]);
            }
            lemma_ext_none(f);
        }
        return out;
    }
    proof {
        assert(start < dot < n);
        assert(f.len() == n - start);
        assert(f[dot - start] == p@[dot as int]);
        assert forall|j: int| dot - start < j < f.len() implies f[j] != '.' by {
            assert(f[j] == p@[start + j]);
        }
        lemma_ext_at(f, dot - start);
    }
    let mut k = dot + 1;
    while k < n
        invariant
            n == p@.len(),
            dot < k <= n,
            f == file_name_spec(p@),
            start <= dot,
            f =~= p@.subrange(start as int, n as int),
            out@.len() == k - dot - 1,
            forall|j: int|
                0 <= j < out@.len() ==> out@[j] == crate::text::lower_char(p@[dot + 1 + j]),
        decreases n - k,
    {
        out.push(crate::text::exec_lower_char(p[k]));
        k = k + 1;
    }
    proof {
        let e = f.subrange(dot - start + 1, f.len() as int);
        assert(out@ =~= lower_spec(e));
    }
    out
}

/// Whether a path carries one of the Matroska extensions, in any case.
pub open spec fn is_matroska_path(p: Seq<char>) -> bool {
    path_ext_lower(p) == "mkv"@ || path_ext_lower(p) == "mka"@ || path_ext_lower(p) == "mks"@
}

/// The analyzer backend a probe uses for a file.
#[derive(PartialEq, Eq, Structural, Debug, Clone, Copy)]
pub enum ProbeBackend {
    Matroska,
    Generic,
}

/// Select the analyzer backend for a path: the Matroska analyzer for the
/// `mkv`, `mka` and `mks` extensions (any case), the generic one otherwise.
pub fn select_backend(path: &str) -> (r: ProbeBackend)
    ensures
        r == ProbeBackend::Matroska <==> is_matroska_path(path@),
{
    let pv = crate::text::str_chars(path);
    let ext = ext_lower_chars(&pv);
    if crate::text::chars_eq(&ext, "mkv") || crate::text::chars_eq(&ext, "mka")
        || crate::text::chars_eq(&ext, "mks") {
        ProbeBackend::Matroska
    } else {
        ProbeBackend::Generic
    }
}

/// Append a default `.mkv` extension when the path has none.
pub fn ensure_mkv_extension(path: &str) -> (r: String)
    ensures
        extension_spec(path@) is Some ==> r@ == path@,
        extension_spec(path@) is None ==> r@ == path@ + ".mkv"@,
{
    let pv = crate::text::str_chars(path);
    let n = pv.len();
    let mut start: usize = n;
    while start > 0 && !(pv[start - 1] == '/' || pv[start - 1] == '\\')
        invariant
            n == pv@.len(),
            0 <= start <= n,
            forall|j: int| start <= j < n ==> !is_sep(pv@[j]),
        decreases start,
    {
        start = start - 1;
    }
    proof {
        lemma_file_name(pv@, start as int);
    }
    let ghost f = file_name_spec(path@);
    let mut dot: usize = n;
    let mut i: usize = n;
    while i > start
        invariant
            n == pv@.len(),
            start <= i <= n,
            dot <= n,
            dot == n ==> forall|j: int| i <= j < n ==> pv@[j] != '.',
            dot < n ==> i <= dot && pv@[dot as int] == '.',
            dot < n ==> forall|j: int| dot < j < n ==> pv@[j] != '.',
        decreases i,
    {
        i = i - 1;
        if pv[i] == '.' && dot == n {
            dot = i;
        }
    }
    if dot == n || dot == start {
        proof {
            assert forall|j: int| 0 < j < f.len() implies f[j] != '.' by {
                assert(f[j] == pv@[start + j]);
            }
            lemma_ext_none(f);
        }
        let mut out = pv;
        let suffix = crate::text::str_chars(".mkv");
        let mut k: usize = 0;
        let ghost base = path@;
        while k < suffix.len()
            invariant
                suffix@ == ".mkv"@,
                0 <= k <= suffix@.len(),
                out@ =~= base + ".mkv"@.take(k as int),
            decreases suffix@.len() - k,
        {
            out.push(suffix[k]);
            assert(out@ =~= base + ".mkv"@.take(k + 1));
            k = k + 1;
        }
        proof {
            assert(out@ =~= path@ + ".mkv"@);
        }
        crate::text::chars_to_string(&out)
    } else {
        proof {
            assert(start < dot < n);
            assert(f.len() == n - start);
            assert(f[dot - start] == pv@[dot as int]);
            lemma_ext_at(f, dot - start);
        }
        lit_string(path)
    }
}

} // verus!
