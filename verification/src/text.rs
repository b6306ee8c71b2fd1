//! Character-level string utilities shared by the whole library: ASCII
//! trimming and lowercasing, equality and containment tests, and joining.
//!
//! All functions work on the character sequences (`Seq<char>`) that Verus
//! gives as the view of `&str` and `String`. Trimming removes the Unicode
//! white-space code points; lowercasing is deliberately ASCII-only, since
//! the values it normalizes are language codes and track kinds.

use vstd::prelude::*;

verus! {

/// The Unicode white-space code points (the `White_Space` property).
pub open spec fn is_ws_char(c: char) -> bool {
    ('\u{9}' <= c && c <= '\u{d}') || c == ' ' || c == '\u{85}' || c == '\u{a0}'
        || c == '\u{1680}' || ('\u{2000}' <= c && c <= '\u{200a}') || c == '\u{2028}'
        || c == '\u{2029}' || c == '\u{202f}' || c == '\u{205f}' || c == '\u{3000}'
}

/// Lowercase an ASCII letter; any other character is unchanged.
pub open spec fn lower_char(c: char) -> char {
    if 'A' <= c && c <= 'Z' {
        (((c as u8) + 32) as char)
    } else {
        c
    }
}

/// Character-wise ASCII lowercasing.
pub open spec fn lower_spec(s: Seq<char>) -> Seq<char> {
    s.map_values(|c: char| lower_char(c))
}

/// Number of leading white-space characters.
pub open spec fn ws_prefix_len(s: Seq<char>) -> nat
    decreases s.len(),
{
    if s.len() == 0 {
        0
    } else if is_ws_char(s[0]) {
        1 + ws_prefix_len(s.drop_first())
    } else {
        0
    }
}

/// Number of trailing whitespace characters.
pub open spec fn ws_suffix_len(s: Seq<char>) -> nat
    decreases s.len(),
{
    if s.len() == 0 {
        0
    } else if is_ws_char(s.last()) {
        1 + ws_suffix_len(s.drop_last())
    } else {
        0
    }
}

/// The sequence with leading and trailing ASCII whitespace removed.
pub open spec fn trim_spec(s: Seq<char>) -> Seq<char> {
    let a = ws_prefix_len(s) as int;
    let b = s.len() - ws_suffix_len(s) as int;
    if a <= b {
        s.subrange(a, b)
    } else {
        Seq::empty()
    }
}

fn exec_is_ws(c: char) -> (r: bool)
    ensures
        r == is_ws_char(c),
{
    ('\u{9}' <= c && c <= '\u{d}') || c == ' ' || c == '\u{85}' || c == '\u{a0}'
        || c == '\u{1680}' || ('\u{2000}' <= c && c <= '\u{200a}') || c == '\u{2028}'
        || c == '\u{2029}' || c == '\u{202f}' || c == '\u{205f}' || c == '\u{3000}'
}

/// Lowercase an ASCII letter; any other character is unchanged.
pub fn exec_lower_char(c: char) -> (r: char)
    ensures
        r == lower_char(c),
{
    if 'A' <= c && c <= 'Z' {
        ((c as u8) + 32) as char
    } else {
        c
    }
}

/// Relies on `String::from_iter` over `char`s (via `Iterator::collect`),
/// which std documents as concatenating the characters in order.
#[verifier::external_body]
pub(crate) fn chars_to_string(v: &Vec<char>) -> (r: String)
    ensures
        r@ == v@,
{
    v.iter().collect()
}

/// The characters of a string slice, as a vector.
pub fn str_chars(s: &str) -> (r: Vec<char>)
    ensures
        r@ == s@,
{
    let n = s.unicode_len();
    let mut r: Vec<char> = Vec::new();
    for i in 0..n
        invariant
            n == s@.len(),
            r@ =~= s@.take(i as int),
    {
        r.push(s.get_char(i));
        assert(r@ =~= s@.take(i + 1));
    }
    assert(r@ =~= s@);
    r
}

proof fn lemma_ws_prefix(s: Seq<char>, a: int)
    requires
        0 <= a <= s.len(),
        forall|j: int| 0 <= j < a ==> is_ws_char(s[j]),
        a < s.len() ==> !is_ws_char(s[a]),
    ensures
        ws_prefix_len(s) == a,
    decreases s.len(),
{
    if s.len() == 0 {
    } else if is_ws_char(s[0]) {
        assert(a >= 1);
        lemma_ws_prefix(s.drop_first(), a - 1);
    } else {
        assert(a == 0);
    }
}

proof fn lemma_ws_suffix(s: Seq<char>, b: int)
    requires
        0 <= b <= s.len(),
        forall|j: int| b <= j < s.len() ==> is_ws_char(s[j]),
        b > 0 ==> !is_ws_char(s[b - 1]),
    ensures
        ws_suffix_len(s) == s.len() - b,
    decreases s.len(),
{
    if s.len() == 0 {
    } else if is_ws_char(s.last()) {
        assert(b < s.len());
        lemma_ws_suffix(s.drop_last(), b);
    } else {
        assert(b == s.len());
    }
}

/// Remove leading and trailing ASCII whitespace from a character vector.
pub fn trim_chars(v: &Vec<char>) -> (r: Vec<char>)
    ensures
        r@ == trim_spec(v@),
{
    let n = v.len();
    let mut a: usize = 0;
    while a < n && exec_is_ws(v[a])
        invariant
            n == v@.len(),
            0 <= a <= n,
            forall|j: int| 0 <= j < a ==> is_ws_char(v@[j]),
        decreases n - a,
    {
        a = a + 1;
    }
    proof {
        lemma_ws_prefix(v@, a as int);
    }
    let mut b: usize = n;
    while b > a && exec_is_ws(v[b - 1])
        invariant
            n == v@.len(),
            a <= b <= n,
            forall|j: int| b <= j < n ==> is_ws_char(v@[j]),
        decreases b,
    {
        b = b - 1;
    }
    let mut r: Vec<char> = Vec::new();
    let mut i = a;
    while i < b
        invariant
            n == v@.len(),
            a <= i <= b <= n,
            r@ =~= v@.subrange(a as int, i as int),
        decreases b - i,
    {
        r.push(v[i]);
        assert(r@ =~= v@.subrange(a as int, i + 1));
        i = i + 1;
    }
    proof {
        if b == a {
            // the suffix scan met the prefix scan, so the whole vector is
            // whitespace and the trimmed result is empty
            assert(a == n);
            lemma_ws_suffix(v@, 0);
            assert(r@ =~= trim_spec(v@));
        } else {
            lemma_ws_suffix(v@, b as int);
            assert(r@ =~= trim_spec(v@));
        }
    }
    r
}

/// Remove leading and trailing ASCII whitespace from a string.
pub fn trim_string(s: &str) -> (r: String)
    ensures
        r@ == trim_spec(s@),
{
    let v = str_chars(s);
    let t = trim_chars(&v);
    chars_to_string(&t)
}

/// Lowercase the ASCII letters of a string.
pub fn lower_string(s: &str) -> (r: String)
    ensures
        r@ == lower_spec(s@),
{
    let v = str_chars(s);
    let n = v.len();
    let mut out: Vec<char> = Vec::new();
    for i in 0..n
        invariant
            n == v@.len(),
            v@ == s@,
            out@.len() == i,
            forall|j: int| 0 <= j < i ==> out@[j] == lower_char(s@[j]),
    {
        out.push(exec_lower_char(v[i]));
    }
    proof {
        assert(out@ =~= lower_spec(s@));
    }
    chars_to_string(&out)
}

/// Whether `p` is a prefix of `s`.
pub open spec fn starts_with_spec(s: Seq<char>, p: Seq<char>) -> bool {
    p.len() <= s.len() && s.subrange(0, p.len() as int) == p
}

/// Prefix test on character sequences.
pub fn chars_start_with(v: &Vec<char>, p: &str) -> (r: bool)
    ensures
        r == starts_with_spec(v@, p@),
{
    let pn = p.unicode_len();
    if pn > v.len() {
        return false;
    }
    for i in 0..pn
        invariant
            pn == p@.len(),
            pn <= v@.len(),
            forall|j: int| 0 <= j < i ==> v@[j] == p@[j],
    {
        if v[i] != p.get_char(i) {
            assert(v@.subrange(0, p@.len() as int)[i as int] != p@[i as int]);
            return false;
        }
    }
    proof {
        assert(v@.subrange(0, p@.len() as int) =~= p@);
    }
    true
}

/// Equality of a character vector and a string slice.
pub fn chars_eq(v: &Vec<char>, p: &str) -> (r: bool)
    ensures
        r == (v@ == p@),
{
    let pn = p.unicode_len();
    if pn != v.len() {
        return false;
    }
    let sw = chars_start_with(v, p);
    proof {
        assert(v@.subrange(0, p@.len() as int) =~= v@);
    }
    sw
}

/// An owned copy of a string slice.
pub fn lit_string(s: &str) -> (r: String)
    ensures
        r@ == s@,
{
    String::from_str(s)
}

/// Whether `n` occurs as a contiguous subsequence of `h`.
pub open spec fn contains_seq(h: Seq<char>, n: Seq<char>) -> bool {
    exists|i: int| 0 <= i && i + n.len() <= h.len() && #[trigger] h.subrange(i, i + n.len()) == n
}

/// Substring search, by checking every starting position.
pub fn string_contains(h: &str, n: &str) -> (r: bool)
    ensures
        r == contains_seq(h@, n@),
{
    let hv = str_chars(h);
    let hvn = hv.len();
    let nn = n.unicode_len();
    if nn > hvn {
        assert(!contains_seq(h@, n@));
        return false;
    }
    if nn == 0 {
        proof {
            assert(h@.subrange(0, 0 + n@.len() as int) =~= n@);
        }
        return true;
    }
    let last_start = hvn - nn;
    let mut i: usize = 0;
    while i <= last_start
        invariant
            nn == n@.len(),
            hv@ == h@,
            hvn == hv@.len(),
            1 <= nn <= hvn,
            last_start == hvn - nn,
            0 <= i,
            forall|k: int| 0 <= k < i ==> #[trigger] h@.subrange(k, k + n@.len()) != n@,
        decreases last_start - i + 1,
    {
        let mut ok = true;
        let mut j: usize = 0;
        while j < nn
            invariant
                nn == n@.len(),
                hv@ == h@,
                hvn == hv@.len(),
                i + nn <= hvn,
                0 <= j <= nn,
                ok ==> forall|t: int| 0 <= t < j ==> h@[i + t] == n@[t],
                !ok ==> h@.subrange(i as int, i + n@.len()) != n@,
            decreases nn - j,
        {
            if hv[i + j] != n.get_char(j) {
                proof {
                    assert(h@.subrange(i as int, i + n@.len())[j as int] != n@[j as int]);
                }
                ok = false;
                j = nn;
            } else {
                j = j + 1;
            }
        }
        if ok {
            proof {
                assert(h@.subrange(i as int, i + n@.len()) =~= n@);
            }
            return true;
        }
        i = i + 1;
    }
    proof {
        assert forall|k: int| 0 <= k && k + n@.len() <= h@.len() implies #[trigger] h@.subrange(
            k,
            k + n@.len(),
        ) != n@ by {
            assert(k < i);
        }
    }
    false
}

/// Concatenation of `parts` with `sep` between consecutive elements.
pub open spec fn join_spec(parts: Seq<Seq<char>>, sep: Seq<char>) -> Seq<char>
    decreases parts.len(),
{
    if parts.len() == 0 {
        Seq::empty()
    } else if parts.len() == 1 {
        parts[0]
    } else {
        join_spec(parts.drop_last(), sep) + sep + parts.last()
    }
}

/// The views of a vector of strings.
pub open spec fn strings_view(v: Seq<String>) -> Seq<Seq<char>> {
    v.map_values(|s: String| s@)
}

/// Join strings with a separator.
pub fn join_strings(parts: &Vec<String>, sep: &str) -> (r: String)
    ensures
        r@ == join_spec(strings_view(parts@), sep@),
{
    let mut out: Vec<char> = Vec::new();
    let n = parts.len();
    for i in 0..n
        invariant
            n == parts@.len(),
            out@ =~= join_spec(strings_view(parts@).take(i as int), sep@),
    {
        if i > 0 {
            let sv = str_chars(sep);
            let mut k: usize = 0;
            let ghost base = out@;
            while k < sv.len()
                invariant
                    sv@ == sep@,
                    0 <= k <= sv@.len(),
                    out@ =~= base + sep@.take(k as int),
                decreases sv@.len() - k,
            {
                out.push(sv[k]);
                assert(out@ =~= base + sep@.take(k + 1));
                k = k + 1;
            }
            assert(out@ =~= base + sep@);
        }
        let pv = str_chars(&parts[i]);
        let mut k: usize = 0;
        let ghost base2 = out@;
        while k < pv.len()
            invariant
                pv@ == strings_view(parts@)[i as int],
                0 <= k <= pv@.len(),
                out@ =~= base2 + pv@.take(k as int),
            decreases pv@.len() - k,
        {
            out.push(pv[k]);
            assert(out@ =~= base2 + pv@.take(k + 1));
            k = k + 1;
        }
        proof {
            assert(out@ =~= base2 + pv@);
            assert(strings_view(parts@).take(i + 1).drop_last() =~= strings_view(parts@).take(
                i as int,
            ));
            assert(strings_view(parts@).take(i + 1).last() == strings_view(parts@)[i as int]);
        }
    }
    proof {
        assert(strings_view(parts@).take(n as int) =~= strings_view(parts@));
    }
    chars_to_string(&out)
}

/// Equality of two string slices, decided character by character.
pub fn str_eq(a: &str, b: &str) -> (r: bool)
    ensures
        r == (a@ == b@),
{
    let an = a.unicode_len();
    let bn = b.unicode_len();
    if an != bn {
        assert(a@.len() != b@.len());
        return false;
    }
    for i in 0..an
        invariant
            an == a@.len(),
            an == b@.len(),
            forall|j: int| 0 <= j < i ==> a@[j] == b@[j],
    {
        if a.get_char(i) != b.get_char(i) {
            return false;
        }
    }
    proof {
        assert(a@ =~= b@);
    }
    true
}

/// Each string trimmed, with the blanks dropped.
pub open spec fn trimmed_nonblank(ids: Seq<Seq<char>>) -> Seq<Seq<char>> {
    ids.filter_map(
        |id: Seq<char>|
            if trim_spec(id).len() > 0 {
                Some(trim_spec(id))
            } else {
                None
            },
    )
}

/// Append the elements of `xs` to `base` in order, skipping those already
/// present.
pub open spec fn dedup_append(base: Seq<Seq<char>>, xs: Seq<Seq<char>>) -> Seq<Seq<char>>
    decreases xs.len(),
{
    if xs.len() == 0 {
        base
    } else {
        dedup_append(
            if base.contains(xs[0]) {
                base
            } else {
                base.push(xs[0])
            },
            xs.drop_first(),
        )
    }
}

/// Trim each string and drop the blanks.
pub fn trimmed_nonblank_exec(ids: &Vec<String>) -> (r: Vec<String>)
    ensures
        strings_view(r@) == trimmed_nonblank(strings_view(ids@)),
{
    let ghost f = |id: Seq<char>|
        if trim_spec(id).len() > 0 {
            Some(trim_spec(id))
        } else {
            None
        };
    let ghost iv = strings_view(ids@);
    let mut out: Vec<String> = Vec::new();
    let n = ids.len();
    for i in 0..n
        invariant
            n == ids@.len(),
            iv == strings_view(ids@),
            f == (|id: Seq<char>|
                if trim_spec(id).len() > 0 {
                    Some(trim_spec(id))
                } else {
                    None
                }),
            strings_view(out@) =~= iv.take(i as int).filter_map(f),
    {
        let t = trim_string(ids[i].as_str());
        if t.as_str().unicode_len() > 0 {
            out.push(t);
        }
        proof {
            iv.lemma_filter_map_take_succ(f, i as int);
            assert(strings_view(out@) =~= iv.take(i + 1).filter_map(f));
        }
    }
    proof {
        assert(iv.take(n as int) =~= iv);
    }
    out
}

/// Whether a string with this view is one of the vector's elements.
pub fn contains_str(v: &Vec<String>, x: &str) -> (r: bool)
    ensures
        r == strings_view(v@).contains(x@),
{
    let n = v.len();
    for i in 0..n
        invariant
            n == v@.len(),
            forall|j: int| 0 <= j < i ==> strings_view(v@)[j] != x@,
    {
        if str_eq(v[i].as_str(), x) {
            assert(strings_view(v@)[i as int] == x@);
            return true;
        }
    }
    false
}

/// The views of a vector of string pairs.
pub open spec fn pairs_view(v: Seq<(String, String)>) -> Seq<(Seq<char>, Seq<char>)> {
    v.map_values(|p: (String, String)| (p.0@, p.1@))
}

} // verus!
