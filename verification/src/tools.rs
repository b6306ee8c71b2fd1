//! Resolution of the external tool executables.
//!
//! Candidate paths are generated in a fixed order — the packaged resource
//! binary directory (with the Windows executable suffix first on that
//! platform), then, in development mode only, the local development tools
//! directory — and the first candidate that exists on disk wins. Whether a
//! candidate exists is a fact about the outside world, so the caller passes
//! one flag per candidate.

use vstd::prelude::*;
use crate::text::{lit_string, strings_view};

verus! {

/// The candidate paths for a tool, in the order they are tried.
pub open spec fn candidates_spec(
    resource_dir: Seq<char>,
    name: Seq<char>,
    windows: bool,
    dev: bool,
) -> Seq<Seq<char>> {
    let packaged: Seq<Seq<char>> = (if windows {
        seq![resource_dir + "/bin/"@ + name + ".exe"@]
    } else {
        Seq::empty()
    }) + seq![resource_dir + "/bin/"@ + name];
    let development: Seq<Seq<char>> = if dev {
        (if windows {
            seq!["../public/tools/"@ + name + ".exe"@]
        } else {
            Seq::empty()
        }) + seq!["../public/tools/"@ + name]
    } else {
        Seq::empty()
    };
    packaged + development
}

fn concat3(a: &str, b: &str, c: &str) -> (r: String)
    ensures
        r@ == a@ + b@ + c@,
{
    let s = lit_string(a);
    let s = s.concat(b);
    s.concat(c)
}

/// Generate the candidate paths for a tool, in the order they are tried.
pub fn tool_candidates(resource_dir: &str, name: &str, windows: bool, dev: bool) -> (r: Vec<
    String,
>)
    ensures
        strings_view(r@) == candidates_spec(resource_dir@, name@, windows, dev),
{
    let mut out: Vec<String> = Vec::new();
    if windows {
        let mut p = concat3(resource_dir, "/bin/", name);
        p = p.concat(".exe");
        out.push(p);
    }
    out.push(concat3(resource_dir, "/bin/", name));
    if dev {
        if windows {
            let mut p = concat3("../public/tools/", name, ".exe");
            out.push(p);
        }
        out.push(lit_string("../public/tools/").concat(name));
    }
    proof {
        assert(strings_view(out@) =~= candidates_spec(resource_dir@, name@, windows, dev));
    }
    out
}

/// The index of the first existing candidate, or -1 when none exists.
pub open spec fn first_existing(exists_flags: Seq<bool>) -> int
    decreases exists_flags.len(),
{
    if exists_flags.len() == 0 {
        -1
    } else if exists_flags[0] {
        0
    } else {
        let r = first_existing(exists_flags.drop_first());
        if r < 0 {
            -1
        } else {
            r + 1
        }
    }
}

proof fn lemma_first_existing(exists_flags: Seq<bool>)
    ensures
        ({
            let fi = first_existing(exists_flags);
            &&& fi >= 0 ==> fi < exists_flags.len() && exists_flags[fi] && (forall|j: int|
                0 <= j < fi ==> !(#[trigger] exists_flags[j]))
            &&& fi < 0 ==> fi == -1 && (forall|j: int|
                0 <= j < exists_flags.len() ==> !(#[trigger] exists_flags[j]))
        }),
    decreases exists_flags.len(),
{
    if exists_flags.len() == 0 {
    } else if exists_flags[0] {
    } else {
        let rest = exists_flags.drop_first();
        lemma_first_existing(rest);
        let fi = first_existing(exists_flags);
        if fi >= 0 {
            assert(exists_flags[fi] == rest[fi - 1]);
            assert forall|j: int| 0 <= j < fi implies !(#[trigger] exists_flags[j]) by {
                if j >= 1 {
                    assert(exists_flags[j] == rest[j - 1]);
                }
            }
        } else {
            assert forall|j: int|
                0 <= j < exists_flags.len() implies !(#[trigger] exists_flags[j]) by {
                if j >= 1 {
                    assert(exists_flags[j] == rest[j - 1]);
                }
            }
        }
    }
}

/// Pick the first candidate that exists; when none does, fail with a
/// message naming the missing tool. `exists_flags[i]` states whether the
/// `i`-th candidate is present on disk.
pub fn resolve_tool(candidates: &Vec<String>, exists_flags: &Vec<bool>, name: &str) -> (r: Result<
    String,
    String,
>)
    requires
        candidates@.len() == exists_flags@.len(),
    ensures
        ({
            let fi = first_existing(exists_flags@);
            match r {
                Ok(p) => fi >= 0 && p@ == strings_view(candidates@)[fi],
                Err(m) => fi == -1 && m@ == "未找到内置工具 "@ + name@
                    + "，请检查打包资源是否包含对应文件"@,
            }
        }),
{
    let n = candidates.len();
    for i in 0..n
        invariant
            n == candidates@.len(),
            n == exists_flags@.len(),
            forall|j: int| 0 <= j < i ==> !(#[trigger] exists_flags@[j]),
    {
        if exists_flags[i] {
            proof {
                lemma_first_existing(exists_flags@);
                let fi = first_existing(exists_flags@);
                if fi < 0 {
                    assert(!exists_flags@[i as int]);
                } else if fi < i {
                    assert(!exists_flags@[fi]);
                } else if fi > i {
                    assert(!exists_flags@[i as int]);
                }
            }
            return Ok(candidates[i].clone());
        }
    }
    proof {
        lemma_first_existing(exists_flags@);
        let fi = first_existing(exists_flags@);
        if fi >= 0 {
            assert(!exists_flags@[fi]);
        }
    }
    Err(concat3("未找到内置工具 ", name, "，请检查打包资源是否包含对应文件"))
}

} // verus!
