//! Extraction and normalization of subject metadata: splitting loosely
//! formatted infobox values into terms, de-duplicating and normalizing
//! tags, and mapping free-form labels onto the official filter vocabulary.

use vstd::prelude::*;
use crate::bangumi::{InfoboxItem, SubjectFiltersResponse, SubjectTag};
use crate::json::{JsonValue, extract_value_from_object, extract_infobox_value, infobox_value_spec,
    object_text_spec};
use crate::text::{contains_seq, contains_str, dedup_append, lower_spec, lower_string, pairs_view,
    str_eq, string_contains, strings_view, trim_spec, trim_string, trimmed_nonblank,
    trimmed_nonblank_exec};

verus! {

/// The separators a multi-valued infobox text is split on.
pub open spec fn is_term_sep(c: char) -> bool {
    c == '/' || c == '／' || c == '、' || c == ',' || c == '，' || c == '|'
}

fn exec_is_term_sep(c: char) -> (r: bool)
    ensures
        r == is_term_sep(c),
{
    c == '/' || c == '／' || c == '、' || c == ',' || c == '，' || c == '|'
}

/// A pending chunk's contribution: its trimmed text, unless blank.
pub open spec fn emit_term(cur: Seq<char>) -> Seq<Seq<char>> {
    if trim_spec(cur).len() > 0 {
        seq![trim_spec(cur)]
    } else {
        Seq::empty()
    }
}

/// The terms of a text from position `i` on, with `cur` the chunk read so
/// far: chunks between separators, trimmed, blanks dropped.
pub open spec fn split_terms_from(s: Seq<char>, i: int, cur: Seq<char>) -> Seq<Seq<char>>
    decreases s.len() - i,
{
    if i < 0 || i >= s.len() {
        emit_term(cur)
    } else if is_term_sep(s[i]) {
        emit_term(cur) + split_terms_from(s, i + 1, Seq::empty())
    } else {
        split_terms_from(s, i + 1, cur.push(s[i]))
    }
}

/// The terms of a text: the chunks between separators, trimmed, with the
/// blanks dropped.
pub open spec fn split_terms(s: Seq<char>) -> Seq<Seq<char>> {
    split_terms_from(s, 0, Seq::empty())
}

/// Split a text into its terms; see [`split_terms`].
pub fn split_infobox_terms(value: &str) -> (r: Vec<String>)
    ensures
        strings_view(r@) == split_terms(value@),
{
    let v = crate::text::str_chars(value);
    let n = v.len();
    let mut out: Vec<String> = Vec::new();
    let mut cur: Vec<char> = Vec::new();
    proof {
        assert(strings_view(out@) =~= Seq::<Seq<char>>::empty());
    }
    for i in 0..n
        invariant
            n == v@.len(),
            v@ == value@,
            split_terms(value@) =~= strings_view(out@) + split_terms_from(value@, i as int, cur@),
    {
        let ghost before = strings_view(out@);
        if exec_is_term_sep(v[i]) {
            let t = crate::text::trim_chars(&cur);
            if t.len() > 0 {
                out.push(crate::text::chars_to_string(&t));
                proof {
                    assert(strings_view(out@) =~= before.push(trim_spec(cur@)));
                }
            }
            cur = Vec::new();
            proof {
                assert(cur@ =~= Seq::<char>::empty());
            }
        } else {
            cur.push(v[i]);
        }
    }
    let t = crate::text::trim_chars(&cur);
    let ghost before = strings_view(out@);
    if t.len() > 0 {
        out.push(crate::text::chars_to_string(&t));
        proof {
            assert(strings_view(out@) =~= before.push(trim_spec(cur@)));
        }
    }
    proof {
        assert(strings_view(out@) =~= before + emit_term(cur@));
        assert(strings_view(out@) =~= split_terms(value@));
    }
    out
}

/// A tag's normalized form: trimmed, then lowercased.
pub open spec fn normalize_tag_spec(s: Seq<char>) -> Seq<char> {
    lower_spec(trim_spec(s))
}

/// Normalize a tag for comparison: trim it and lowercase it.
pub fn normalize_tag(value: &str) -> (r: String)
    ensures
        r@ == normalize_tag_spec(value@),
{
    let t = trim_string(value);
    lower_string(t.as_str())
}

/// Drop duplicate terms, keeping the first occurrence of each and the
/// original order.
pub fn dedupe_terms(values: Vec<String>) -> (r: Vec<String>)
    ensures
        strings_view(r@) == dedup_append(Seq::empty(), strings_view(values@)),
{
    let ghost all = strings_view(values@);
    let mut out: Vec<String> = Vec::new();
    let n = values.len();
    proof {
        assert(all.skip(0) =~= all);
        assert(strings_view(out@) =~= Seq::<Seq<char>>::empty());
    }
    for i in 0..n
        invariant
            n == values@.len(),
            all == strings_view(values@),
            dedup_append(strings_view(out@), all.skip(i as int)) == dedup_append(
                Seq::empty(),
                all,
            ),
    {
        proof {
            assert(all.skip(i as int)[0] == values@[i as int]@);
            assert(all.skip(i as int).drop_first() =~= all.skip(i + 1));
        }
        let ghost before = strings_view(out@);
        if !contains_str(&out, values[i].as_str()) {
            out.push(values[i].clone());
            proof {
                assert(strings_view(out@) =~= before.push(values@[i as int]@));
            }
        }
    }
    proof {
        assert(all.skip(n as int) =~= Seq::<Seq<char>>::empty());
    }
    out
}

/// Collect a subject's tags: the tag names, then the meta tags, each
/// trimmed with blanks dropped, de-duplicated in order.
pub open spec fn collect_tags_spec(
    tags: Option<Vec<SubjectTag>>,
    meta_tags: Option<Vec<String>>,
) -> Seq<Seq<char>> {
    let names: Seq<Seq<char>> = match tags {
        Some(ts) => ts@.map_values(|t: SubjectTag| t.name@),
        None => Seq::empty(),
    };
    let metas: Seq<Seq<char>> = match meta_tags {
        Some(ms) => strings_view(ms@),
        None => Seq::empty(),
    };
    dedup_append(Seq::empty(), trimmed_nonblank(names + metas))
}

/// Collect and de-duplicate a subject's tags and meta tags.
pub fn collect_subject_tags(
    tags: Option<Vec<SubjectTag>>,
    meta_tags: Option<Vec<String>>,
) -> (r: Vec<String>)
    ensures
        strings_view(r@) == collect_tags_spec(tags, meta_tags),
{
    let ghost names: Seq<Seq<char>> = match tags {
        Some(ref ts) => ts@.map_values(|t: SubjectTag| t.name@),
        None => Seq::empty(),
    };
    let ghost metas: Seq<Seq<char>> = match meta_tags {
        Some(ref ms) => strings_view(ms@),
        None => Seq::empty(),
    };
    let mut raw: Vec<String> = Vec::new();
    proof {
        assert(strings_view(raw@) =~= Seq::<Seq<char>>::empty());
    }
    match &tags {
        Some(ts) => {
            let n = ts.len();
            for i in 0..n
                invariant
                    n == ts@.len(),
                    names == ts@.map_values(|t: SubjectTag| t.name@),
                    strings_view(raw@) =~= names.take(i as int),
            {
                let ghost before = strings_view(raw@);
                raw.push(ts[i].name.clone());
                proof {
                    assert(strings_view(raw@) =~= before.push(names[i as int]));
                    assert(strings_view(raw@) =~= names.take(i + 1));
                }
            }
            proof {
                assert(names.take(n as int) =~= names);
            }
        },
        None => {},
    }
    proof {
        assert(strings_view(raw@) =~= names);
    }
    match &meta_tags {
        Some(ms) => {
            let n = ms.len();
            for i in 0..n
                invariant
                    n == ms@.len(),
                    metas == strings_view(ms@),
                    strings_view(raw@) =~= names + metas.take(i as int),
            {
                let ghost before = strings_view(raw@);
                raw.push(ms[i].clone());
                proof {
                    assert(strings_view(raw@) =~= before.push(metas[i as int]));
                    assert(strings_view(raw@) =~= names + metas.take(i + 1));
                }
            }
            proof {
                assert(metas.take(n as int) =~= metas);
            }
        },
        None => {},
    }
    proof {
        assert(strings_view(raw@) =~= names + metas);
    }
    let cleaned = trimmed_nonblank_exec(&raw);
    dedupe_terms(cleaned)
}

/// The last pair whose key equals `key`, by value.
pub open spec fn assoc_last(pairs: Seq<(Seq<char>, Seq<char>)>, key: Seq<char>) -> Option<
    Seq<char>,
>
    decreases pairs.len(),
{
    if pairs.len() == 0 {
        None
    } else if pairs.last().0 == key {
        Some(pairs.last().1)
    } else {
        assoc_last(pairs.drop_last(), key)
    }
}

fn assoc_last_exec(pairs: &Vec<(String, String)>, key: &str) -> (r: Option<String>)
    ensures
        match r {
            Some(v) => assoc_last(pairs_view(pairs@), key@) == Some(v@),
            None => assoc_last(pairs_view(pairs@), key@) is None,
        },
{
    let ghost pv = pairs_view(pairs@);
    let mut i = pairs.len();
    proof {
        assert(pv.take(pairs@.len() as int) =~= pv);
    }
    while i > 0
        invariant
            pv == pairs_view(pairs@),
            0 <= i <= pairs@.len(),
            assoc_last(pv.take(i as int), key@) == assoc_last(pv, key@),
        decreases i,
    {
        proof {
            assert(pv.take(i as int).last() == pv[i - 1]);
            assert(pv.take(i as int).drop_last() =~= pv.take(i - 1));
        }
        if str_eq(pairs[i - 1].0.as_str(), key) {
            return Some(pairs[i - 1].1.clone());
        }
        i = i - 1;
    }
    proof {
        assert(pv.take(0) =~= Seq::<(Seq<char>, Seq<char>)>::empty());
    }
    None
}

/// The official lookup table of a vocabulary: each label keyed by its
/// normalized form, mapping to itself.
pub open spec fn official_pairs(official: Seq<Seq<char>>) -> Seq<(Seq<char>, Seq<char>)> {
    official.map_values(|o: Seq<char>| (normalize_tag_spec(o), o))
}

/// The alias lookup table: each alias keyed by its normalized form,
/// mapping to its official label.
pub open spec fn alias_pairs(aliases: Seq<(Seq<char>, Seq<char>)>) -> Seq<(Seq<char>, Seq<char>)> {
    aliases.map_values(|p: (Seq<char>, Seq<char>)| (normalize_tag_spec(p.0), p.1))
}

/// Map tags onto the official vocabulary, from index `i` on: each tag is
/// normalized and looked up among the official labels first, then among
/// the aliases; matches are collected in order without duplicates.
pub open spec fn map_tags_from(
    tags: Seq<Seq<char>>,
    i: int,
    officials: Seq<(Seq<char>, Seq<char>)>,
    aliases: Seq<(Seq<char>, Seq<char>)>,
    out: Seq<Seq<char>>,
) -> Seq<Seq<char>>
    decreases tags.len() - i,
{
    if i < 0 || i >= tags.len() {
        out
    } else {
        let n = normalize_tag_spec(tags[i]);
        let picked = match assoc_last(officials, n) {
            Some(v) => Some(v),
            None => assoc_last(aliases, n),
        };
        let out2 = match picked {
            Some(v) => if out.contains(v) {
                out
            } else {
                out.push(v)
            },
            None => out,
        };
        map_tags_from(tags, i + 1, officials, aliases, out2)
    }
}

/// What mapping a tag list onto a vocabulary returns.
pub open spec fn map_tags_spec(
    tags: Seq<Seq<char>>,
    official: Seq<Seq<char>>,
    aliases: Seq<(Seq<char>, Seq<char>)>,
) -> Seq<Seq<char>> {
    map_tags_from(tags, 0, official_pairs(official), alias_pairs(aliases), Seq::empty())
}

/// Map a tag list onto an official vocabulary, with alias translation; the
/// result keeps tag order and holds no duplicates.
pub fn map_tags_to_official(
    tags: &Vec<String>,
    official: &Vec<String>,
    aliases: &Vec<(String, String)>,
) -> (r: Vec<String>)
    ensures
        strings_view(r@) == map_tags_spec(
            strings_view(tags@),
            strings_view(official@),
            pairs_view(aliases@),
        ),
{
    let ghost ov = official_pairs(strings_view(official@));
    let mut off: Vec<(String, String)> = Vec::new();
    let on = official.len();
    proof {
        assert(pairs_view(off@) =~= Seq::<(Seq<char>, Seq<char>)>::empty());
    }
    for i in 0..on
        invariant
            on == official@.len(),
            ov == official_pairs(strings_view(official@)),
            pairs_view(off@) =~= ov.take(i as int),
    {
        let ghost before = pairs_view(off@);
        off.push((normalize_tag(official[i].as_str()), official[i].clone()));
        proof {
            assert(pairs_view(off@) =~= before.push(ov[i as int]));
            assert(pairs_view(off@) =~= ov.take(i + 1));
        }
    }
    proof {
        assert(ov.take(on as int) =~= ov);
        assert(pairs_view(off@) =~= ov);
    }
    let ghost av = alias_pairs(pairs_view(aliases@));
    let mut al: Vec<(String, String)> = Vec::new();
    let an = aliases.len();
    proof {
        assert(pairs_view(al@) =~= Seq::<(Seq<char>, Seq<char>)>::empty());
    }
    for i in 0..an
        invariant
            an == aliases@.len(),
            av == alias_pairs(pairs_view(aliases@)),
            pairs_view(al@) =~= av.take(i as int),
    {
        let ghost before = pairs_view(al@);
        al.push((normalize_tag(aliases[i].0.as_str()), aliases[i].1.clone()));
        proof {
            assert(pairs_view(al@) =~= before.push(av[i as int]));
            assert(pairs_view(al@) =~= av.take(i + 1));
        }
    }
    proof {
        assert(av.take(an as int) =~= av);
        assert(pairs_view(al@) =~= av);
    }
    let ghost tv = strings_view(tags@);
    let mut out: Vec<String> = Vec::new();
    let tn = tags.len();
    proof {
        assert(strings_view(out@) =~= Seq::<Seq<char>>::empty());
    }
    for i in 0..tn
        invariant
            tn == tags@.len(),
            tv == strings_view(tags@),
            pairs_view(off@) == ov,
            pairs_view(al@) == av,
            ov == official_pairs(strings_view(official@)),
            av == alias_pairs(pairs_view(aliases@)),
            map_tags_from(tv, i as int, ov, av, strings_view(out@)) == map_tags_from(
                tv,
                0,
                ov,
                av,
                Seq::empty(),
            ),
    {
        let n = normalize_tag(tags[i].as_str());
        let picked: Option<String> = match assoc_last_exec(&off, n.as_str()) {
            Some(v) => Some(v),
            None => assoc_last_exec(&al, n.as_str()),
        };
        let ghost before = strings_view(out@);
        match picked {
            Some(v) => {
                if !contains_str(&out, v.as_str()) {
                    let ghost vv = v@;
                    out.push(v);
                    proof {
                        assert(strings_view(out@) =~= before.push(vv));
                    }
                }
            },
            None => {},
        }
    }
    out
}

/// The terms of a JSON value: a text splits into terms; an object
/// contributes the terms of its text field; an array the terms of each of
/// its elements; anything else none.
pub open spec fn infobox_values_spec(v: JsonValue) -> Seq<Seq<char>>
    decreases v, 0int,
{
    match v {
        JsonValue::Text(s) => split_terms(s@),
        JsonValue::Object(fields) => match object_text_spec(fields@) {
            Some(t) => split_terms(t),
            None => Seq::empty(),
        },
        JsonValue::Array(items) => infobox_values_from(items@, 0),
        _ => Seq::empty(),
    }
}

/// The terms of an array's elements from index `i` on.
pub open spec fn infobox_values_from(items: Seq<JsonValue>, i: int) -> Seq<Seq<char>>
    decreases items, items.len() - i,
{
    if i < 0 || i >= items.len() {
        Seq::empty()
    } else {
        (match items[i] {
            JsonValue::Object(fields) => match object_text_spec(fields@) {
                Some(t) => split_terms(t),
                None => Seq::empty(),
            },
            _ => infobox_values_spec(items[i]),
        }) + infobox_values_from(items, i + 1)
    }
}

fn append_strings(dst: &mut Vec<String>, src: Vec<String>)
    ensures
        strings_view(final (dst)@) == strings_view(old(dst)@) + strings_view(src@),
{
    let n = src.len();
    let ghost base = strings_view(dst@);
    let ghost sv = strings_view(src@);
    for i in 0..n
        invariant
            n == src@.len(),
            sv == strings_view(src@),
            base == strings_view(old(dst)@),
            strings_view(dst@) =~= base + sv.take(i as int),
    {
        let ghost before = strings_view(dst@);
        dst.push(src[i].clone());
        proof {
            assert(strings_view(dst@) =~= before.push(sv[i as int]));
            assert(strings_view(dst@) =~= base + sv.take(i + 1));
        }
    }
    proof {
        assert(sv.take(n as int) =~= sv);
    }
}

/// Extract the terms of a JSON value; see [`infobox_values_spec`].
pub fn extract_infobox_values(v: &JsonValue) -> (r: Vec<String>)
    ensures
        strings_view(r@) == infobox_values_spec(*v),
    decreases *v, 0int,
{
    match v {
        JsonValue::Text(s) => split_infobox_terms(s.as_str()),
        JsonValue::Object(fields) => {
            match extract_value_from_object(fields) {
                Some(t) => split_infobox_terms(t.as_str()),
                None => Vec::new(),
            }
        },
        JsonValue::Array(items) => {
            let mut out: Vec<String> = Vec::new();
            let n = items.len();
            proof {
                assert(strings_view(out@) =~= Seq::<Seq<char>>::empty());
            }
            for i in 0..n
                invariant
                    n == items@.len(),
                    v == JsonValue::Array(*items),
                    infobox_values_from(items@, 0) =~= strings_view(out@) + infobox_values_from(
                        items@,
                        i as int,
                    ),
                decreases *v, n - i,
            {
                proof {
                    assert(decreases_to!(*v => v->Array_0));
                    assert(decreases_to!(v->Array_0 => v->Array_0@[i as int]));
                    assert(decreases_to!(*v => items@[i as int]));
                }
                let extracted: Vec<String> = match &items[i] {
                    JsonValue::Object(fields) => {
                        match extract_value_from_object(fields) {
                            Some(t) => split_infobox_terms(t.as_str()),
                            None => Vec::new(),
                        }
                    },
                    _ => extract_infobox_values(&items[i]),
                };
                append_strings(&mut out, extracted);
            }
            out
        },
        JsonValue::Null => Vec::new(),
        JsonValue::Bool(_) => Vec::new(),
        JsonValue::Number(_) => Vec::new(),
    }
}

/// The infobox keys that classify a subject's type.
pub open spec fn is_type_key(k: Seq<char>) -> bool {
    k == "类型"@ || k == "题材"@ || k == "动画类型"@ || k == "分类"@ || k == "类别"@
}

/// The infobox keys that classify a subject's region.
pub open spec fn is_region_key(k: Seq<char>) -> bool {
    k == "地区"@ || k == "国家/地区"@ || k == "国家地区"@ || k == "国家"@ || k == "发行地区"@
}

/// The infobox keys that classify a subject's audience.
pub open spec fn is_audience_key(k: Seq<char>) -> bool {
    k == "受众"@ || k == "对象"@ || k == "读者对象"@
}

/// Fold the infobox entries from index `i` on into the three label lists.
pub open spec fn filter_groups_from(
    items: Seq<InfoboxItem>,
    i: int,
    ts: Seq<Seq<char>>,
    rs: Seq<Seq<char>>,
    aus: Seq<Seq<char>>,
) -> (Seq<Seq<char>>, Seq<Seq<char>>, Seq<Seq<char>>)
    decreases items.len() - i,
{
    if i < 0 || i >= items.len() {
        (ts, rs, aus)
    } else {
        let vs = infobox_values_spec(items[i].value);
        if vs.len() == 0 {
            filter_groups_from(items, i + 1, ts, rs, aus)
        } else if is_type_key(items[i].key@) {
            filter_groups_from(items, i + 1, ts + vs, rs, aus)
        } else if is_region_key(items[i].key@) {
            filter_groups_from(items, i + 1, ts, rs + vs, aus)
        } else if is_audience_key(items[i].key@) {
            filter_groups_from(items, i + 1, ts, rs, aus + vs)
        } else {
            filter_groups_from(items, i + 1, ts, rs, aus)
        }
    }
}

/// The type, region and audience labels of an infobox, each list
/// de-duplicated in order.
pub open spec fn filter_groups_spec(infobox: Option<Vec<InfoboxItem>>) -> (
    Seq<Seq<char>>,
    Seq<Seq<char>>,
    Seq<Seq<char>>,
) {
    let folded = match infobox {
        Some(items) => filter_groups_from(
            items@,
            0,
            Seq::empty(),
            Seq::empty(),
            Seq::empty(),
        ),
        None => (Seq::<Seq<char>>::empty(), Seq::<Seq<char>>::empty(), Seq::<Seq<char>>::empty()),
    };
    (
        dedup_append(Seq::empty(), folded.0),
        dedup_append(Seq::empty(), folded.1),
        dedup_append(Seq::empty(), folded.2),
    )
}

/// Extract a subject's type, region and audience labels from its infobox.
pub fn extract_filter_groups(infobox: Option<Vec<InfoboxItem>>) -> (r: (
    Vec<String>,
    Vec<String>,
    Vec<String>,
))
    ensures
        (strings_view(r.0@), strings_view(r.1@), strings_view(r.2@)) == filter_groups_spec(
            infobox,
        ),
{
    let items: Vec<InfoboxItem> = match infobox {
        Some(items) => items,
        None => Vec::new(),
    };
    proof {
        assert(items@.len() == 0 ==> filter_groups_from(
            items@,
            0,
            Seq::empty(),
            Seq::empty(),
            Seq::empty(),
        ) == (Seq::<Seq<char>>::empty(), Seq::<Seq<char>>::empty(), Seq::<Seq<char>>::empty()));
    }
    let mut ts: Vec<String> = Vec::new();
    let mut rs: Vec<String> = Vec::new();
    let mut aus: Vec<String> = Vec::new();
    let n = items.len();
    proof {
        assert(strings_view(ts@) =~= Seq::<Seq<char>>::empty());
        assert(strings_view(rs@) =~= Seq::<Seq<char>>::empty());
        assert(strings_view(aus@) =~= Seq::<Seq<char>>::empty());
    }
    for i in 0..n
        invariant
            n == items@.len(),
            filter_groups_from(items@, i as int, strings_view(ts@), strings_view(rs@), strings_view(aus@))
                == filter_groups_from(
                items@,
                0,
                Seq::empty(),
                Seq::empty(),
                Seq::empty(),
            ),
    {
        let item = &items[i];
        let values = extract_infobox_values(&item.value);
        if values.len() > 0 {
            proof {
                assert(infobox_values_spec(items@[i as int].value).len() > 0) by {
                    assert(strings_view(values@).len() == values@.len());
                }
            }
            let k = item.key.as_str();
            if str_eq(k, "类型") || str_eq(k, "题材") || str_eq(k, "动画类型") || str_eq(k, "分类")
                || str_eq(k, "类别") {
                append_strings(&mut ts, values);
            } else if str_eq(k, "地区") || str_eq(k, "国家/地区") || str_eq(k, "国家地区")
                || str_eq(k, "国家") || str_eq(k, "发行地区") {
                append_strings(&mut rs, values);
            } else if str_eq(k, "受众") || str_eq(k, "对象") || str_eq(k, "读者对象") {
                append_strings(&mut aus, values);
            }
        } else {
            proof {
                assert(infobox_values_spec(items@[i as int].value).len() == 0) by {
                    assert(strings_view(values@).len() == values@.len());
                }
            }
        }
    }
    (dedupe_terms(ts), dedupe_terms(rs), dedupe_terms(aus))
}

/// The original-work field of an infobox: the readable text of the first
/// entry keyed "原作" that has one.
pub open spec fn origin_from(items: Seq<InfoboxItem>, i: int) -> Option<Seq<char>>
    decreases items.len() - i,
{
    if i < 0 || i >= items.len() {
        None
    } else if items[i].key@ == "原作"@ && infobox_value_spec(items[i].value) is Some {
        infobox_value_spec(items[i].value)
    } else {
        origin_from(items, i + 1)
    }
}

/// What extracting the original work returns.
pub open spec fn origin_spec(infobox: Option<Vec<InfoboxItem>>) -> Option<Seq<char>> {
    match infobox {
        Some(items) => origin_from(items@, 0),
        None => None,
    }
}

/// Extract the original-work field of a subject's infobox.
pub fn extract_origin(infobox: Option<Vec<InfoboxItem>>) -> (r: Option<String>)
    ensures
        match r {
            Some(s) => origin_spec(infobox) == Some(s@),
            None => origin_spec(infobox) is None,
        },
{
    let items: Vec<InfoboxItem> = match infobox {
        Some(items) => items,
        None => {
            return None;
        },
    };
    let n = items.len();
    for i in 0..n
        invariant
            n == items@.len(),
            infobox == Some::<Vec<InfoboxItem>>(items),
            origin_from(items@, i as int) == origin_from(items@, 0),
    {
        let item = &items[i];
        if str_eq(item.key.as_str(), "原作") {
            match extract_infobox_value(&item.value) {
                Some(value) => {
                    proof {
                        assert(origin_from(items@, i as int) == Some(value@));
                        assert(origin_spec(infobox) == Some(value@));
                    }
                    return Some(value);
                },
                None => {},
            }
        }
    }
    None
}

/// Whether an infobox key names an alias field: it mentions an alias
/// keyword, or equals "romaji" or "english" in any ASCII case.
pub open spec fn is_alias_key(k: Seq<char>) -> bool {
    contains_seq(k, "别名"@) || contains_seq(k, "又名"@) || contains_seq(k, "英文"@)
        || contains_seq(k, "罗马"@) || lower_spec(k) == "romaji"@ || lower_spec(k) == "english"@
}

/// Fold the alias terms of the infobox entries from index `i` on.
pub open spec fn aliases_from(items: Seq<InfoboxItem>, i: int, acc: Seq<Seq<char>>) -> Seq<
    Seq<char>,
>
    decreases items.len() - i,
{
    if i < 0 || i >= items.len() {
        acc
    } else if is_alias_key(items[i].key@) {
        aliases_from(items, i + 1, acc + infobox_values_spec(items[i].value))
    } else {
        aliases_from(items, i + 1, acc)
    }
}

/// The aliases of a subject: the terms of every alias-keyed infobox entry,
/// de-duplicated in order.
pub open spec fn aliases_spec(infobox: Option<Vec<InfoboxItem>>) -> Seq<Seq<char>> {
    match infobox {
        Some(items) => dedup_append(Seq::empty(), aliases_from(items@, 0, Seq::empty())),
        None => Seq::empty(),
    }
}

/// Extract the aliases of a subject from its infobox.
pub fn extract_aliases(infobox: Option<Vec<InfoboxItem>>) -> (r: Vec<String>)
    ensures
        strings_view(r@) == aliases_spec(infobox),
{
    let items: Vec<InfoboxItem> = match infobox {
        Some(items) => items,
        None => {
            let out: Vec<String> = Vec::new();
            proof {
                assert(strings_view(out@) =~= Seq::<Seq<char>>::empty());
            }
            return out;
        },
    };
    let mut out: Vec<String> = Vec::new();
    let n = items.len();
    proof {
        assert(strings_view(out@) =~= Seq::<Seq<char>>::empty());
    }
    for i in 0..n
        invariant
            n == items@.len(),
            aliases_from(items@, i as int, strings_view(out@)) == aliases_from(
                items@,
                0,
                Seq::empty(),
            ),
    {
        let item = &items[i];
        let k = item.key.as_str();
        let alias_key = string_contains(k, "别名") || string_contains(k, "又名")
            || string_contains(k, "英文") || string_contains(k, "罗马") || {
            let lk = lower_string(k);
            let lv = crate::text::str_chars(lk.as_str());
            crate::text::chars_eq(&lv, "romaji") || crate::text::chars_eq(&lv, "english")
        };
        proof {
            assert(alias_key == is_alias_key(items@[i as int].key@));
        }
        if alias_key {
            let values = extract_infobox_values(&item.value);
            append_strings(&mut out, values);
        }
    }
    dedupe_terms(out)
}

/// The official type vocabulary.
pub open spec fn official_types() -> Seq<Seq<char>> {
    seq![
        "科幻"@, "喜剧"@, "同人"@, "百合"@, "校园"@, "惊悚"@, "后宫"@, "机战"@, "悬疑"@, "恋爱"@,
        "奇幻"@, "推理"@, "运动"@, "耽美"@, "音乐"@, "战斗"@, "冒险"@, "萌系"@, "穿越"@, "玄幻"@,
        "乙女"@, "恐怖"@, "历史"@, "日常"@, "剧情"@, "武侠"@, "美食"@, "职场"@,
    ]
}

/// The official region vocabulary.
pub open spec fn official_regions() -> Seq<Seq<char>> {
    seq![
        "日本"@, "欧美"@, "中国"@, "美国"@, "韩国"@, "法国"@, "中国香港"@, "英国"@, "俄罗斯"@,
        "苏联"@, "捷克"@, "中国台湾"@, "马来西亚"@,
    ]
}

/// The official audience vocabulary.
pub open spec fn official_audiences() -> Seq<Seq<char>> {
    seq!["BL"@, "GL"@, "子供向"@, "女性向"@, "少女向"@, "少年向"@, "青年向"@]
}

/// The alias table for types.
pub open spec fn type_aliases() -> Seq<(Seq<char>, Seq<char>)> {
    seq![
        ("搞笑"@, "喜剧"@),
        ("恋愛"@, "恋爱"@),
        ("日常系"@, "日常"@),
        ("熱血"@, "战斗"@),
        ("机甲"@, "机战"@),
        ("萌"@, "萌系"@),
    ]
}

/// The alias table for regions.
pub open spec fn region_aliases() -> Seq<(Seq<char>, Seq<char>)> {
    seq![
        ("大陆"@, "中国"@),
        ("中国大陆"@, "中国"@),
        ("香港"@, "中国香港"@),
        ("台湾"@, "中国台湾"@),
        ("欧美动画"@, "欧美"@),
        ("欧洲"@, "欧美"@),
        ("俄国"@, "俄罗斯"@),
    ]
}

/// The alias table for audiences.
pub open spec fn audience_aliases() -> Seq<(Seq<char>, Seq<char>)> {
    seq![
        ("少年"@, "少年向"@),
        ("少女"@, "少女向"@),
        ("青年"@, "青年向"@),
        ("儿童"@, "子供向"@),
        ("儿童向"@, "子供向"@),
        ("女性向"@, "女性向"@),
        ("男性向"@, "男性向"@),
        ("男向"@, "男性向"@),
        ("女向"@, "女性向"@),
        ("百合"@, "GL"@),
        ("耽美"@, "BL"@),
        ("腐向"@, "BL"@),
    ]
}

fn official_types_vec() -> (r: Vec<String>)
    ensures
        strings_view(r@) == official_types(),
{
    let mut v: Vec<String> = Vec::new();
    v.push(crate::text::lit_string("科幻"));
    v.push(crate::text::lit_string("喜剧"));
    v.push(crate::text::lit_string("同人"));
    v.push(crate::text::lit_string("百合"));
    v.push(crate::text::lit_string("校园"));
    v.push(crate::text::lit_string("惊悚"));
    v.push(crate::text::lit_string("后宫"));
    v.push(crate::text::lit_string("机战"));
    v.push(crate::text::lit_string("悬疑"));
    v.push(crate::text::lit_string("恋爱"));
    v.push(crate::text::lit_string("奇幻"));
    v.push(crate::text::lit_string("推理"));
    v.push(crate::text::lit_string("运动"));
    v.push(crate::text::lit_string("耽美"));
    v.push(crate::text::lit_string("音乐"));
    v.push(crate::text::lit_string("战斗"));
    v.push(crate::text::lit_string("冒险"));
    v.push(crate::text::lit_string("萌系"));
    v.push(crate::text::lit_string("穿越"));
    v.push(crate::text::lit_string("玄幻"));
    v.push(crate::text::lit_string("乙女"));
    v.push(crate::text::lit_string("恐怖"));
    v.push(crate::text::lit_string("历史"));
    v.push(crate::text::lit_string("日常"));
    v.push(crate::text::lit_string("剧情"));
    v.push(crate::text::lit_string("武侠"));
    v.push(crate::text::lit_string("美食"));
    v.push(crate::text::lit_string("职场"));
    proof {
        assert(strings_view(v@) =~= official_types());
    }
    v
}

fn official_regions_vec() -> (r: Vec<String>)
    ensures
        strings_view(r@) == official_regions(),
{
    let mut v: Vec<String> = Vec::new();
    v.push(crate::text::lit_string("日本"));
    v.push(crate::text::lit_string("欧美"));
    v.push(crate::text::lit_string("中国"));
    v.push(crate::text::lit_string("美国"));
    v.push(crate::text::lit_string("韩国"));
    v.push(crate::text::lit_string("法国"));
    v.push(crate::text::lit_string("中国香港"));
    v.push(crate::text::lit_string("英国"));
    v.push(crate::text::lit_string("俄罗斯"));
    v.push(crate::text::lit_string("苏联"));
    v.push(crate::text::lit_string("捷克"));
    v.push(crate::text::lit_string("中国台湾"));
    v.push(crate::text::lit_string("马来西亚"));
    proof {
        assert(strings_view(v@) =~= official_regions());
    }
    v
}

fn official_audiences_vec() -> (r: Vec<String>)
    ensures
        strings_view(r@) == official_audiences(),
{
    let mut v: Vec<String> = Vec::new();
    v.push(crate::text::lit_string("BL"));
    v.push(crate::text::lit_string("GL"));
    v.push(crate::text::lit_string("子供向"));
    v.push(crate::text::lit_string("女性向"));
    v.push(crate::text::lit_string("少女向"));
    v.push(crate::text::lit_string("少年向"));
    v.push(crate::text::lit_string("青年向"));
    proof {
        assert(strings_view(v@) =~= official_audiences());
    }
    v
}

fn type_aliases_vec() -> (r: Vec<(String, String)>)
    ensures
        pairs_view(r@) == type_aliases(),
{
    let mut v: Vec<(String, String)> = Vec::new();
    v.push((crate::text::lit_string("搞笑"), crate::text::lit_string("喜剧")));
    v.push((crate::text::lit_string("恋愛"), crate::text::lit_string("恋爱")));
    v.push((crate::text::lit_string("日常系"), crate::text::lit_string("日常")));
    v.push((crate::text::lit_string("熱血"), crate::text::lit_string("战斗")));
    v.push((crate::text::lit_string("机甲"), crate::text::lit_string("机战")));
    v.push((crate::text::lit_string("萌"), crate::text::lit_string("萌系")));
    proof {
        assert(pairs_view(v@) =~= type_aliases());
    }
    v
}

fn region_aliases_vec() -> (r: Vec<(String, String)>)
    ensures
        pairs_view(r@) == region_aliases(),
{
    let mut v: Vec<(String, String)> = Vec::new();
    v.push((crate::text::lit_string("大陆"), crate::text::lit_string("中国")));
    v.push((crate::text::lit_string("中国大陆"), crate::text::lit_string("中国")));
    v.push((crate::text::lit_string("香港"), crate::text::lit_string("中国香港")));
    v.push((crate::text::lit_string("台湾"), crate::text::lit_string("中国台湾")));
    v.push((crate::text::lit_string("欧美动画"), crate::text::lit_string("欧美")));
    v.push((crate::text::lit_string("欧洲"), crate::text::lit_string("欧美")));
    v.push((crate::text::lit_string("俄国"), crate::text::lit_string("俄罗斯")));
    proof {
        assert(pairs_view(v@) =~= region_aliases());
    }
    v
}

fn audience_aliases_vec() -> (r: Vec<(String, String)>)
    ensures
        pairs_view(r@) == audience_aliases(),
{
    let mut v: Vec<(String, String)> = Vec::new();
    v.push((crate::text::lit_string("少年"), crate::text::lit_string("少年向")));
    v.push((crate::text::lit_string("少女"), crate::text::lit_string("少女向")));
    v.push((crate::text::lit_string("青年"), crate::text::lit_string("青年向")));
    v.push((crate::text::lit_string("儿童"), crate::text::lit_string("子供向")));
    v.push((crate::text::lit_string("儿童向"), crate::text::lit_string("子供向")));
    v.push((crate::text::lit_string("女性向"), crate::text::lit_string("女性向")));
    v.push((crate::text::lit_string("男性向"), crate::text::lit_string("男性向")));
    v.push((crate::text::lit_string("男向"), crate::text::lit_string("男性向")));
    v.push((crate::text::lit_string("女向"), crate::text::lit_string("女性向")));
    v.push((crate::text::lit_string("百合"), crate::text::lit_string("GL")));
    v.push((crate::text::lit_string("耽美"), crate::text::lit_string("BL")));
    v.push((crate::text::lit_string("腐向"), crate::text::lit_string("BL")));
    proof {
        assert(pairs_view(v@) =~= audience_aliases());
    }
    v
}

/// The filter labels of a subject: its collected tags and infobox labels,
/// mapped onto the official type, region and audience vocabularies.
pub open spec fn subject_filters_spec(
    infobox: Option<Vec<InfoboxItem>>,
    tags: Option<Vec<SubjectTag>>,
    meta_tags: Option<Vec<String>>,
) -> (Seq<Seq<char>>, Seq<Seq<char>>, Seq<Seq<char>>) {
    let groups = filter_groups_spec(infobox);
    let all = collect_tags_spec(tags, meta_tags) + groups.0 + groups.1 + groups.2;
    (
        map_tags_spec(all, official_types(), type_aliases()),
        map_tags_spec(all, official_regions(), region_aliases()),
        map_tags_spec(all, official_audiences(), audience_aliases()),
    )
}

/// Derive a subject's filter labels from its infobox, tags and meta tags.
pub fn build_subject_filters(
    id: u32,
    infobox: Option<Vec<InfoboxItem>>,
    tags: Option<Vec<SubjectTag>>,
    meta_tags: Option<Vec<String>>,
) -> (r: SubjectFiltersResponse)
    ensures
        r.id == id,
        (strings_view(r.types@), strings_view(r.regions@), strings_view(r.audiences@))
            == subject_filters_spec(infobox, tags, meta_tags),
{
    let groups = extract_filter_groups(infobox);
    let mut all = collect_subject_tags(tags, meta_tags);
    append_strings(&mut all, groups.0);
    append_strings(&mut all, groups.1);
    append_strings(&mut all, groups.2);
    let types = map_tags_to_official(&all, &official_types_vec(), &type_aliases_vec());
    let regions = map_tags_to_official(&all, &official_regions_vec(), &region_aliases_vec());
    let audiences = map_tags_to_official(&all, &official_audiences_vec(), &audience_aliases_vec());
    SubjectFiltersResponse { id, types, regions, audiences }
}

/// Assemble the original-work answer of a subject from its infobox.
pub fn subject_origin(id: u32, infobox: Option<Vec<InfoboxItem>>) -> (r:
    crate::bangumi::SubjectOriginResponse)
    ensures
        r.id == id,
        match r.origin {
            Some(s) => origin_spec(infobox) == Some(s@),
            None => origin_spec(infobox) is None,
        },
{
    crate::bangumi::SubjectOriginResponse { id, origin: extract_origin(infobox) }
}

/// Assemble the alias answer of a subject from its infobox.
pub fn subject_aliases(id: u32, infobox: Option<Vec<InfoboxItem>>) -> (r:
    crate::bangumi::SubjectAliasesResponse)
    ensures
        r.id == id,
        strings_view(r.aliases@) == aliases_spec(infobox),
{
    crate::bangumi::SubjectAliasesResponse { id, aliases: extract_aliases(infobox) }
}

} // verus!
