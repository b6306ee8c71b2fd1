//! Mapping of track language codes to human-readable display names.
//!
//! A code is first normalized (ASCII-trimmed and lowercased). Chinese script
//! variants are recognized by prefix, every other known code by an exact
//! table lookup; unknown codes yield no display name, which is not an error.

use vstd::prelude::*;
use crate::text::{
    chars_eq,
    chars_start_with,
    lit_string,
    lower_spec,
    lower_string,
    starts_with_spec,
    str_chars,
    trim_spec,
    trim_string,
};

verus! {

/// The normalized form of a language code: trimmed, then lowercased.
pub open spec fn normalize_code_spec(s: Seq<char>) -> Seq<char> {
    lower_spec(trim_spec(s))
}

/// The display name that belongs to a normalized code, if any.
pub open spec fn display_name_spec(n: Seq<char>) -> Option<Seq<char>> {
    if starts_with_spec(n, "zh-hans"@) {
        Some("简体中文"@)
    } else if starts_with_spec(n, "zh-hant"@) || starts_with_spec(n, "zh-hk"@)
        || starts_with_spec(n, "zh-mo"@) {
        Some("繁体中文"@)
    } else if n == "jpn"@ || n == "ja"@ {
        Some("日语"@)
    } else if n == "eng"@ || n == "en"@ {
        Some("英语"@)
    } else if n == "chi"@ || n == "zho"@ || n == "zh"@ {
        Some("中文"@)
    } else if n == "chs"@ || n == "zh-cn"@ || n == "cmn"@ {
        Some("简体中文"@)
    } else if n == "cht"@ || n == "zh-tw"@ {
        Some("繁体中文"@)
    } else if n == "kor"@ || n == "ko"@ {
        Some("韩语"@)
    } else if n == "fra"@ || n == "fr"@ {
        Some("法语"@)
    } else if n == "deu"@ || n == "ger"@ || n == "de"@ {
        Some("德语"@)
    } else if n == "spa"@ || n == "es"@ {
        Some("西班牙语"@)
    } else {
        None
    }
}

/// The display name for a raw (unnormalized) language code, if any.
pub open spec fn language_name_spec(code: Seq<char>) -> Option<Seq<char>> {
    display_name_spec(normalize_code_spec(code))
}

/// Map a language code to its display name; `None` for unmapped codes.
pub fn map_language_name(code: &str) -> (r: Option<String>)
    ensures
        r is Some <==> language_name_spec(code@) is Some,
        r is Some ==> r->0@ == language_name_spec(code@)->0,
{
    let trimmed = trim_string(code);
    let norm = lower_string(trimmed.as_str());
    let nv = str_chars(norm.as_str());
    proof {
        assert(nv@ == normalize_code_spec(code@));
    }
    if chars_start_with(&nv, "zh-hans") {
        Some(lit_string("简体中文"))
    } else if chars_start_with(&nv, "zh-hant") || chars_start_with(&nv, "zh-hk")
        || chars_start_with(&nv, "zh-mo") {
        Some(lit_string("繁体中文"))
    } else if chars_eq(&nv, "jpn") || chars_eq(&nv, "ja") {
        Some(lit_string("日语"))
    } else if chars_eq(&nv, "eng") || chars_eq(&nv, "en") {
        Some(lit_string("英语"))
    } else if chars_eq(&nv, "chi") || chars_eq(&nv, "zho") || chars_eq(&nv, "zh") {
        Some(lit_string("中文"))
    } else if chars_eq(&nv, "chs") || chars_eq(&nv, "zh-cn") || chars_eq(&nv, "cmn") {
        Some(lit_string("简体中文"))
    } else if chars_eq(&nv, "cht") || chars_eq(&nv, "zh-tw") {
        Some(lit_string("繁体中文"))
    } else if chars_eq(&nv, "kor") || chars_eq(&nv, "ko") {
        Some(lit_string("韩语"))
    } else if chars_eq(&nv, "fra") || chars_eq(&nv, "fr") {
        Some(lit_string("法语"))
    } else if chars_eq(&nv, "deu") || chars_eq(&nv, "ger") || chars_eq(&nv, "de") {
        Some(lit_string("德语"))
    } else if chars_eq(&nv, "spa") || chars_eq(&nv, "es") {
        Some(lit_string("西班牙语"))
    } else {
        None
    }
}

/// The display-name mapping is a pure function of the normalized code: two
/// codes with the same normalized form always map to the same optional name.
pub proof fn lemma_name_depends_only_on_normalized_code(a: Seq<char>, b: Seq<char>)
    requires
        normalize_code_spec(a) == normalize_code_spec(b),
    ensures
        language_name_spec(a) == language_name_spec(b),
{
}

} // verus!
