//! Text-language classification and the pure rules of the translation
//! flow: deciding whether a summary needs translation at all, decoding the
//! translation service's response payload, and judging the outcome.

use vstd::prelude::*;
use crate::bangumi::SubjectSummaryResponse;
use crate::json::{JsonValue, json_lookup};
use crate::text::{contains_seq, lit_string, str_eq, string_contains, trim_spec, trim_string};

verus! {

/// Whether a character is Japanese kana.
pub open spec fn is_kana(c: char) -> bool {
    (0x3040 <= c as u32 && c as u32 <= 0x30FF) || (0x31F0 <= c as u32 && c as u32 <= 0x31FF)
}

/// Whether a character is a CJK ideograph.
pub open spec fn is_cjk(c: char) -> bool {
    (0x4E00 <= c as u32 && c as u32 <= 0x9FFF) || (0x3400 <= c as u32 && c as u32 <= 0x4DBF)
}

/// Whether any character of the text is kana.
pub open spec fn contains_kana_spec(s: Seq<char>) -> bool {
    exists|i: int| 0 <= i < s.len() && is_kana(#[trigger] s[i])
}

/// Whether any character of the text is a CJK ideograph.
pub open spec fn contains_cjk_spec(s: Seq<char>) -> bool {
    exists|i: int| 0 <= i < s.len() && is_cjk(#[trigger] s[i])
}

/// Whether a text looks Chinese: it has ideographs but no kana.
pub open spec fn is_chinese_spec(s: Seq<char>) -> bool {
    contains_cjk_spec(s) && !contains_kana_spec(s)
}

/// Whether the text holds any Japanese kana.
pub fn contains_kana(text: &str) -> (r: bool)
    ensures
        r == contains_kana_spec(text@),
{
    let v = crate::text::str_chars(text);
    let n = v.len();
    for i in 0..n
        invariant
            n == v@.len(),
            v@ == text@,
            forall|j: int| 0 <= j < i ==> !is_kana(#[trigger] text@[j]),
    {
        let c = v[i] as u32;
        if (0x3040 <= c && c <= 0x30FF) || (0x31F0 <= c && c <= 0x31FF) {
            assert(is_kana(text@[i as int]));
            return true;
        }
    }
    false
}

/// Whether the text holds any CJK ideograph.
pub fn contains_cjk(text: &str) -> (r: bool)
    ensures
        r == contains_cjk_spec(text@),
{
    let v = crate::text::str_chars(text);
    let n = v.len();
    for i in 0..n
        invariant
            n == v@.len(),
            v@ == text@,
            forall|j: int| 0 <= j < i ==> !is_cjk(#[trigger] text@[j]),
    {
        let c = v[i] as u32;
        if (0x4E00 <= c && c <= 0x9FFF) || (0x3400 <= c && c <= 0x4DBF) {
            assert(is_cjk(text@[i as int]));
            return true;
        }
    }
    false
}

/// Whether a text looks Chinese: it has ideographs but no kana.
pub fn is_chinese_text(text: &str) -> (r: bool)
    ensures
        r == is_chinese_spec(text@),
{
    contains_cjk(text) && !contains_kana(text)
}

/// A structured translation-service error: its code and message.
#[derive(Debug)]
pub struct TranslateError {
    pub code: String,
    pub msg: String,
}

/// The value under a key, when the value is an object.
pub open spec fn field_of(v: JsonValue, key: Seq<char>) -> Option<JsonValue> {
    match v {
        JsonValue::Object(fields) => json_lookup(fields@, key),
        _ => None,
    }
}

/// The text under a key, when it is text.
pub open spec fn text_field(v: JsonValue, key: Seq<char>) -> Option<Seq<char>> {
    match field_of(v, key) {
        Some(JsonValue::Text(s)) => Some(s@),
        _ => None,
    }
}

/// The concatenated `dst` texts of a result list's elements from `i` on.
pub open spec fn dst_concat(items: Seq<JsonValue>, i: int) -> Seq<char>
    decreases items.len() - i,
{
    if i < 0 || i >= items.len() {
        Seq::empty()
    } else {
        (match items[i] {
            JsonValue::Object(fields) => match json_lookup(fields@, "dst"@) {
                Some(JsonValue::Text(s)) => s@,
                _ => Seq::empty(),
            },
            _ => Seq::empty(),
        }) + dst_concat(items, i + 1)
    }
}

/// The translated text a result list yields: the concatenated `dst` texts
/// of an array's elements, unless that is blank or the value is no array.
pub open spec fn extract_list_spec(v: JsonValue) -> Option<Seq<char>> {
    match v {
        JsonValue::Array(items) => {
            let out = dst_concat(items@, 0);
            if trim_spec(out).len() > 0 {
                Some(out)
            } else {
                None
            }
        },
        _ => None,
    }
}

/// The translated text one field yields, if any.
pub open spec fn list_under(v: JsonValue, key: Seq<char>) -> Option<Seq<char>> {
    match field_of(v, key) {
        Some(x) => extract_list_spec(x),
        None => None,
    }
}

/// What decoding a translation response yields: a service error when an
/// `error_code` text is present (with the `error_msg` text, or nothing);
/// else the first translated text among `trans_result`, `data`,
/// `result.trans_result` and `result.data`; else nothing.
pub open spec fn parse_translation_spec(v: JsonValue) -> Result<
    Option<Seq<char>>,
    (Seq<char>, Seq<char>),
> {
    match text_field(v, "error_code"@) {
        Some(code) => Err(
            (
                code,
                match text_field(v, "error_msg"@) {
                    Some(m) => m,
                    None => Seq::empty(),
                },
            ),
        ),
        None => {
            if list_under(v, "trans_result"@) is Some {
                Ok(list_under(v, "trans_result"@))
            } else if list_under(v, "data"@) is Some {
                Ok(list_under(v, "data"@))
            } else {
                match field_of(v, "result"@) {
                    Some(res) => if list_under(res, "trans_result"@) is Some {
                        Ok(list_under(res, "trans_result"@))
                    } else if list_under(res, "data"@) is Some {
                        Ok(list_under(res, "data"@))
                    } else {
                        Ok(None)
                    },
                    None => Ok(None),
                }
            }
        },
    }
}

fn get_field<'a>(v: &'a JsonValue, key: &str) -> (r: Option<&'a JsonValue>)
    ensures
        match r {
            Some(x) => field_of(*v, key@) == Some(*x),
            None => field_of(*v, key@) is None,
        },
{
    match v {
        JsonValue::Object(fields) => {
            let n = fields.len();
            let ghost fv = fields@;
            proof {
                assert(fv.skip(0) =~= fv);
            }
            for i in 0..n
                invariant
                    n == fields@.len(),
                    fv == fields@,
                    v == JsonValue::Object(*fields),
                    json_lookup(fv.skip(i as int), key@) == json_lookup(fv, key@),
            {
                proof {
                    assert(fv.skip(i as int)[0] == fv[i as int]);
                    assert(fv.skip(i as int).drop_first() =~= fv.skip(i + 1));
                }
                if str_eq(fields[i].0.as_str(), key) {
                    proof {
                        assert(json_lookup(fv.skip(i as int), key@) == Some(fv[i as int].1));
                    }
                    return Some(&fields[i].1);
                }
            }
            proof {
                assert(fv.skip(n as int) =~= Seq::<(String, JsonValue)>::empty());
            }
            None
        },
        _ => None,
    }
}

fn get_text_field(v: &JsonValue, key: &str) -> (r: Option<String>)
    ensures
        match r {
            Some(s) => text_field(*v, key@) == Some(s@),
            None => text_field(*v, key@) is None,
        },
{
    match get_field(v, key) {
        Some(x) => match x {
            JsonValue::Text(s) => Some(s.clone()),
            _ => None,
        },
        None => None,
    }
}

fn extract_list(v: &JsonValue) -> (r: Option<String>)
    ensures
        match r {
            Some(s) => extract_list_spec(*v) == Some(s@),
            None => extract_list_spec(*v) is None,
        },
{
    match v {
        JsonValue::Array(items) => {
            let mut out = String::new();
            let n = items.len();
            proof {
                assert(out@ =~= Seq::<char>::empty());
            }
            for i in 0..n
                invariant
                    n == items@.len(),
                    dst_concat(items@, 0) =~= out@ + dst_concat(items@, i as int),
            {
                let piece: Option<String> = match &items[i] {
                    JsonValue::Object(fields) => {
                        match get_text_field(&items[i], "dst") {
                            Some(s) => Some(s),
                            None => None,
                        }
                    },
                    _ => None,
                };
                match piece {
                    Some(s) => {
                        out = out.concat(s.as_str());
                    },
                    None => {},
                }
            }
            let t = trim_string(out.as_str());
            if t.as_str().unicode_len() > 0 {
                Some(out)
            } else {
                None
            }
        },
        _ => None,
    }
}

/// Decode a translation response; see [`parse_translation_spec`].
pub fn parse_translation(v: &JsonValue) -> (r: Result<Option<String>, TranslateError>)
    ensures
        match r {
            Ok(Some(s)) => parse_translation_spec(*v) == Ok::<Option<Seq<char>>, (Seq<char>, Seq<char>)>(
                Some(s@),
            ),
            Ok(None) => parse_translation_spec(*v) == Ok::<Option<Seq<char>>, (Seq<char>, Seq<char>)>(
                None,
            ),
            Err(e) => parse_translation_spec(*v) == Err::<Option<Seq<char>>, (Seq<char>, Seq<char>)>(
                (e.code@, e.msg@),
            ),
        },
{
    match get_text_field(v, "error_code") {
        Some(code) => {
            let msg = match get_text_field(v, "error_msg") {
                Some(m) => m,
                None => lit_string(""),
            };
            proof {
                if text_field(*v, "error_msg"@) is None {
                    reveal_strlit("");
                    assert(""@ =~= Seq::<char>::empty());
                }
            }
            return Err(TranslateError { code, msg });
        },
        None => {},
    }
    match get_field(v, "trans_result") {
        Some(x) => {
            match extract_list(x) {
                Some(s) => {
                    return Ok(Some(s));
                },
                None => {},
            }
        },
        None => {},
    }
    match get_field(v, "data") {
        Some(x) => {
            match extract_list(x) {
                Some(s) => {
                    return Ok(Some(s));
                },
                None => {},
            }
        },
        None => {},
    }
    match get_field(v, "result") {
        Some(res) => {
            match get_field(res, "trans_result") {
                Some(x) => {
                    match extract_list(x) {
                        Some(s) => {
                            return Ok(Some(s));
                        },
                        None => {},
                    }
                },
                None => {},
            }
            match get_field(res, "data") {
                Some(x) => {
                    match extract_list(x) {
                        Some(s) => {
                            return Ok(Some(s));
                        },
                        None => {},
                    }
                },
                None => {},
            }
        },
        None => {},
    }
    Ok(None)
}

/// The report of a translation-service error.
pub open spec fn translate_error_message_spec(code: Seq<char>, msg: Seq<char>) -> Seq<char> {
    "百度翻译错误: "@ + code + " "@ + msg
}

impl TranslateError {
    /// The error's report text.
    pub fn message(&self) -> (r: String)
        ensures
            r@ == translate_error_message_spec(self.code@, self.msg@),
    {
        let mut m = lit_string("百度翻译错误: ");
        m = m.concat(self.code.as_str());
        m = m.concat(" ");
        m.concat(self.msg.as_str())
    }

    /// Whether the error may be ignored and the fetch continued: its report
    /// mentions the transient quota code.
    pub fn is_ignorable(&self) -> (r: bool)
        ensures
            r == contains_seq(
                translate_error_message_spec(self.code@, self.msg@),
                "52003"@,
            ),
    {
        let m = self.message();
        string_contains(m.as_str(), "52003")
    }
}

/// Judge a finished translation: the result is accepted when, trimmed, it
/// is neither blank, nor identical to the original, nor non-Chinese;
/// otherwise the original is kept with a failure note.
pub fn evaluate_translation(id: u32, raw: String, result: &str) -> (r: SubjectSummaryResponse)
    ensures
        r.id == id,
        ({
            let normalized = trim_spec(result@);
            if normalized.len() == 0 || normalized == raw@ || !is_chinese_spec(normalized) {
                r.summary@ == raw@ && !r.translated && r.error is Some && r.error->0@
                    == "翻译失败或未产出中文结果"@
            } else {
                r.summary@ == normalized && r.translated && r.error is None
            }
        }),
{
    let normalized = trim_string(result);
    if normalized.as_str().unicode_len() == 0 || str_eq(normalized.as_str(), raw.as_str())
        || !is_chinese_text(normalized.as_str()) {
        SubjectSummaryResponse {
            id,
            summary: raw,
            translated: false,
            error: Some(lit_string("翻译失败或未产出中文结果")),
        }
    } else {
        SubjectSummaryResponse { id, summary: normalized, translated: true, error: None }
    }
}

/// Decide what a summary request does before any translation: a blank
/// summary is returned empty, a Chinese one unchanged; `None` means a
/// translation is needed.
pub fn summary_preflight(id: u32, raw: &str) -> (r: Option<SubjectSummaryResponse>)
    ensures
        trim_spec(raw@).len() == 0 ==> r is Some && r->0.id == id && r->0.summary@
            == Seq::<char>::empty() && !r->0.translated && r->0.error is None,
        trim_spec(raw@).len() > 0 && is_chinese_spec(raw@) ==> r is Some && r->0.id == id
            && r->0.summary@ == raw@ && !r->0.translated && r->0.error is None,
        trim_spec(raw@).len() > 0 && !is_chinese_spec(raw@) ==> r is None,
{
    let t = trim_string(raw);
    if t.as_str().unicode_len() == 0 {
        let empty = lit_string("");
        proof {
            reveal_strlit("");
            assert(""@ =~= Seq::<char>::empty());
        }
        Some(SubjectSummaryResponse { id, summary: empty, translated: false, error: None })
    } else if is_chinese_text(raw) {
        Some(
            SubjectSummaryResponse {
                id,
                summary: lit_string(raw),
                translated: false,
                error: None,
            },
        )
    } else {
        None
    }
}

/// Trim the credentials read from the verifier library; `None` when either
/// is blank.
pub fn normalize_credentials(app_id: &str, api_key: &str) -> (r: Option<(String, String)>)
    ensures
        trim_spec(app_id@).len() == 0 || trim_spec(api_key@).len() == 0 ==> r is None,
        trim_spec(app_id@).len() > 0 && trim_spec(api_key@).len() > 0 ==> (r matches Some(p)
            && p.0@ == trim_spec(app_id@) && p.1@ == trim_spec(api_key@)),
{
    let a = trim_string(app_id);
    let k = trim_string(api_key);
    if a.as_str().unicode_len() == 0 || k.as_str().unicode_len() == 0 {
        None
    } else {
        Some((a, k))
    }
}

} // verus!
