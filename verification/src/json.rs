//! A plain model of decoded JSON data.
//!
//! The metadata extraction logic reads structured API payloads; this tree
//! holds, as plain values, exactly what that logic inspects: strings,
//! arrays, and objects as ordered key/value lists (a decoder collapses
//! duplicate keys, so lookup takes the first match). Numbers carry their
//! rendered text; the extraction functions never read them.

use vstd::prelude::*;
use crate::text::{join_spec, join_strings, str_eq, trim_spec, trim_string};

verus! {

/// One decoded JSON value.
pub enum JsonValue {
    Null,
    Bool(bool),
    Number(String),
    Text(String),
    Array(Vec<JsonValue>),
    Object(Vec<(String, JsonValue)>),
}

/// The value under a key, by first match.
pub open spec fn json_lookup(fields: Seq<(String, JsonValue)>, key: Seq<char>) -> Option<JsonValue>
    decreases fields.len(),
{
    if fields.len() == 0 {
        None
    } else if fields[0].0@ == key {
        Some(fields[0].1)
    } else {
        json_lookup(fields.drop_first(), key)
    }
}

/// The text a key holds, when it holds text that is not blank.
pub open spec fn key_text(fields: Seq<(String, JsonValue)>, key: Seq<char>) -> Option<Seq<char>> {
    match json_lookup(fields, key) {
        Some(JsonValue::Text(s)) => if trim_spec(s@).len() > 0 {
            Some(s@)
        } else {
            None
        },
        _ => None,
    }
}

/// The most likely text field of an object: the first of the keys `v`,
/// `value`, `name`, `text` that holds non-blank text.
pub open spec fn object_text_spec(fields: Seq<(String, JsonValue)>) -> Option<Seq<char>> {
    if key_text(fields, "v"@) is Some {
        key_text(fields, "v"@)
    } else if key_text(fields, "value"@) is Some {
        key_text(fields, "value"@)
    } else if key_text(fields, "name"@) is Some {
        key_text(fields, "name"@)
    } else {
        key_text(fields, "text"@)
    }
}

/// The readable text of a JSON value: trimmed text from a string, the most
/// likely text field of an object, or the non-blank texts of an array's
/// elements joined with " / "; anything else yields nothing.
pub open spec fn infobox_value_spec(v: JsonValue) -> Option<Seq<char>>
    decreases v, 0int,
{
    match v {
        JsonValue::Text(s) => if trim_spec(s@).len() > 0 {
            Some(trim_spec(s@))
        } else {
            None
        },
        JsonValue::Object(fields) => object_text_spec(fields@),
        JsonValue::Array(items) => {
            let parts = infobox_parts_spec(items@, 0);
            if parts.len() == 0 {
                None
            } else {
                Some(join_spec(parts, " / "@))
            }
        },
        _ => None,
    }
}

/// The non-blank texts of an array's elements, from index `i` on. An
/// object element contributes its text field; any other element its
/// readable text; blank contributions are dropped.
pub open spec fn infobox_parts_spec(items: Seq<JsonValue>, i: int) -> Seq<Seq<char>>
    decreases items, items.len() - i,
{
    if i < 0 || i >= items.len() {
        Seq::empty()
    } else {
        let extracted = match items[i] {
            JsonValue::Object(fields) => object_text_spec(fields@),
            _ => infobox_value_spec(items[i]),
        };
        let head: Seq<Seq<char>> = match extracted {
            Some(t) => if trim_spec(t).len() > 0 {
                seq![t]
            } else {
                Seq::empty()
            },
            None => Seq::empty(),
        };
        head + infobox_parts_spec(items, i + 1)
    }
}

fn find_key(fields: &Vec<(String, JsonValue)>, key: &str) -> (r: Option<usize>)
    ensures
        match r {
            Some(i) => i < fields@.len() && fields@[i as int].0@ == key@ && json_lookup(
                fields@,
                key@,
            ) == Some(fields@[i as int].1),
            None => json_lookup(fields@, key@) is None,
        },
{
    let n = fields.len();
    let ghost fv = fields@;
    proof {
        assert(fv.skip(0) =~= fv);
    }
    for i in 0..n
        invariant
            n == fields@.len(),
            fv == fields@,
            json_lookup(fv.skip(i as int), key@) == json_lookup(fv, key@),
            forall|j: int| 0 <= j < i ==> (#[trigger] fv[j]).0@ != key@,
    {
        proof {
            assert(fv.skip(i as int)[0] == fv[i as int]);
            assert(fv.skip(i as int).drop_first() =~= fv.skip(i + 1));
        }
        if str_eq(fields[i].0.as_str(), key) {
            return Some(i);
        }
    }
    proof {
        assert(fv.skip(n as int) =~= Seq::<(String, JsonValue)>::empty());
    }
    None
}

/// Extract the most likely text field of an object: the first of the keys
/// `v`, `value`, `name`, `text` whose value is non-blank text.
pub fn extract_value_from_object(fields: &Vec<(String, JsonValue)>) -> (r: Option<String>)
    ensures
        match r {
            Some(s) => object_text_spec(fields@) == Some(s@),
            None => object_text_spec(fields@) is None,
        },
{
    match try_key_text(fields, "v") {
        Some(s) => {
            return Some(s);
        },
        None => {},
    }
    match try_key_text(fields, "value") {
        Some(s) => {
            return Some(s);
        },
        None => {},
    }
    match try_key_text(fields, "name") {
        Some(s) => {
            return Some(s);
        },
        None => {},
    }
    try_key_text(fields, "text")
}

fn try_key_text(fields: &Vec<(String, JsonValue)>, key: &str) -> (r: Option<String>)
    ensures
        match r {
            Some(s) => key_text(fields@, key@) == Some(s@),
            None => key_text(fields@, key@) is None,
        },
{
    match find_key(fields, key) {
        Some(i) => {
            match &fields[i].1 {
                JsonValue::Text(s) => {
                    let t = trim_string(s.as_str());
                    if t.as_str().unicode_len() > 0 {
                        Some(s.clone())
                    } else {
                        None
                    }
                },
                _ => None,
            }
        },
        None => None,
    }
}

/// Extract the readable text of a JSON value; see [`infobox_value_spec`].
pub fn extract_infobox_value(v: &JsonValue) -> (r: Option<String>)
    ensures
        match r {
            Some(s) => infobox_value_spec(*v) == Some(s@),
            None => infobox_value_spec(*v) is None,
        },
    decreases *v, 0int,
{
    match v {
        JsonValue::Text(s) => {
            let t = trim_string(s.as_str());
            if t.as_str().unicode_len() > 0 {
                Some(t)
            } else {
                None
            }
        },
        JsonValue::Object(fields) => extract_value_from_object(fields),
        JsonValue::Array(items) => {
            let mut parts: Vec<String> = Vec::new();
            let n = items.len();
            proof {
                assert(crate::text::strings_view(parts@) =~= Seq::<Seq<char>>::empty());
            }
            for i in 0..n
                invariant
                    n == items@.len(),
                    v == JsonValue::Array(*items),
                    infobox_parts_spec(items@, 0) =~= crate::text::strings_view(parts@)
                        + infobox_parts_spec(items@, i as int),
                decreases *v, n - i,
            {
                proof {
                    assert(decreases_to!(*v => v->Array_0));
                    assert(decreases_to!(v->Array_0 => v->Array_0@[i as int]));
                    assert(decreases_to!(*v => items@[i as int]));
                }
                let extracted: Option<String> = match &items[i] {
                    JsonValue::Object(fields) => extract_value_from_object(fields),
                    _ => extract_infobox_value(&items[i]),
                };
                let ghost before = crate::text::strings_view(parts@);
                match extracted {
                    Some(text) => {
                        let t = trim_string(text.as_str());
                        if t.as_str().unicode_len() > 0 {
                            parts.push(text);
                            proof {
                                assert(crate::text::strings_view(parts@) =~= before.push(
                                    parts@.last()@,
                                ));
                            }
                        }
                    },
                    None => {},
                }
            }
            if parts.len() == 0 {
                proof {
                    assert(infobox_parts_spec(items@, 0).len() == 0) by {
                        assert(infobox_parts_spec(items@, n as int) =~= Seq::<Seq<char>>::empty());
                        assert(crate::text::strings_view(parts@).len() == 0);
                    }
                }
                None
            } else {
                proof {
                    assert(infobox_parts_spec(items@, n as int) =~= Seq::<Seq<char>>::empty());
                    assert(infobox_parts_spec(items@, 0) =~= crate::text::strings_view(parts@));
                    assert(infobox_parts_spec(items@, 0).len() > 0);
                }
                Some(join_strings(&parts, " / "))
            }
        },
        JsonValue::Null => None,
        JsonValue::Bool(_) => None,
        JsonValue::Number(_) => None,
    }
}

} // verus!
