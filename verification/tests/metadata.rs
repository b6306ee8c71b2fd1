use hanamirip::bangumi::{
    build_staff_groups, map_characters, next_page_offset, person_url, resolve_image,
    season_months, subject_url, Episode, Images, InfoboxItem, SubjectCharacterItem,
    SubjectPersonItem, SubjectTag,
};
use hanamirip::dates::{count_aired, date_le, is_aired, parse_airdate, Date};
use hanamirip::decimal::{i64_to_dec, parse_u64, u64_to_dec};
use hanamirip::filters::{
    build_subject_filters, collect_subject_tags, dedupe_terms, extract_aliases,
    extract_filter_groups, extract_origin, map_tags_to_official, normalize_tag,
    split_infobox_terms,
};
use hanamirip::json::{extract_infobox_value, extract_value_from_object, JsonValue};
use hanamirip::language::map_language_name;
use hanamirip::translate::{
    contains_cjk, contains_kana, evaluate_translation, is_chinese_text, normalize_credentials,
    parse_translation, summary_preflight,
};

fn obj(fields: &[(&str, JsonValue)]) -> JsonValue {
    JsonValue::Object(
        fields
            .iter()
            .map(|(k, v)| (k.to_string(), clone_json(v)))
            .collect(),
    )
}

fn clone_json(v: &JsonValue) -> JsonValue {
    match v {
        JsonValue::Null => JsonValue::Null,
        JsonValue::Bool(b) => JsonValue::Bool(*b),
        JsonValue::Number(s) => JsonValue::Number(s.clone()),
        JsonValue::Text(s) => JsonValue::Text(s.clone()),
        JsonValue::Array(items) => JsonValue::Array(items.iter().map(clone_json).collect()),
        JsonValue::Object(fields) => JsonValue::Object(
            fields.iter().map(|(k, x)| (k.clone(), clone_json(x))).collect(),
        ),
    }
}

fn text(s: &str) -> JsonValue {
    JsonValue::Text(s.to_string())
}

#[test]
fn language_names_follow_the_fixed_table() {
    assert_eq!(map_language_name("jpn").as_deref(), Some("日语"));
    assert_eq!(map_language_name(" JA ").as_deref(), Some("日语"));
    assert_eq!(map_language_name("zh-Hans-CN").as_deref(), Some("简体中文"));
    assert_eq!(map_language_name("ZH-HK").as_deref(), Some("繁体中文"));
    assert_eq!(map_language_name("zh").as_deref(), Some("中文"));
    assert_eq!(map_language_name("cmn").as_deref(), Some("简体中文"));
    assert_eq!(map_language_name("zh-tw").as_deref(), Some("繁体中文"));
    assert_eq!(map_language_name("ko").as_deref(), Some("韩语"));
    assert_eq!(map_language_name("fra").as_deref(), Some("法语"));
    assert_eq!(map_language_name("GER").as_deref(), Some("德语"));
    assert_eq!(map_language_name("es").as_deref(), Some("西班牙语"));
    assert_eq!(map_language_name("xx"), None);
    assert_eq!(map_language_name(""), None);
}

#[test]
fn language_mapping_depends_only_on_the_normalized_code() {
    // two spellings with one normalized form always agree
    assert_eq!(map_language_name("ENG"), map_language_name("  eng "));
    assert_eq!(map_language_name("Zh-Hans"), map_language_name("zh-hans"));
    assert_eq!(map_language_name("unknown-x"), map_language_name("UNKNOWN-X"));
}

#[test]
fn decimal_rendering_and_parsing() {
    assert_eq!(u64_to_dec(0), "0");
    assert_eq!(u64_to_dec(90210), "90210");
    assert_eq!(i64_to_dec(-42), "-42");
    assert_eq!(i64_to_dec(i64::MIN), "-9223372036854775808");
    assert_eq!(parse_u64("123"), Some(123));
    assert_eq!(parse_u64("+7"), Some(7));
    assert_eq!(parse_u64(""), None);
    assert_eq!(parse_u64("12a"), None);
    assert_eq!(parse_u64("18446744073709551615"), Some(u64::MAX));
    assert_eq!(parse_u64("18446744073709551616"), None);
}

#[test]
fn seasons_map_to_their_months() {
    assert_eq!(season_months("winter").unwrap(), vec![1, 2, 3]);
    assert_eq!(season_months("spring").unwrap(), vec![4, 5, 6]);
    assert_eq!(season_months("summer").unwrap(), vec![7, 8, 9]);
    assert_eq!(season_months("autumn").unwrap(), vec![10, 11, 12]);
    assert_eq!(season_months("fall").unwrap_err(), "invalid season");
}

#[test]
fn image_fallback_prefers_common_then_medium_then_large() {
    let full = Images {
        common: Some("c".to_string()),
        medium: Some("m".to_string()),
        large: Some("l".to_string()),
    };
    assert_eq!(resolve_image(Some(full)), "c");
    let medium_only = Images {
        common: None,
        medium: Some("m".to_string()),
        large: Some("l".to_string()),
    };
    assert_eq!(resolve_image(Some(medium_only)), "m");
    let none = Images { common: None, medium: None, large: None };
    assert_eq!(
        resolve_image(Some(none)),
        "https://lain.bgm.tv/img/no_icon_subject.png"
    );
    assert_eq!(
        resolve_image(None),
        "https://lain.bgm.tv/img/no_icon_subject.png"
    );
}

#[test]
fn entry_urls_name_the_subject() {
    assert_eq!(subject_url(42), "https://bgm.tv/subject/42");
    assert_eq!(person_url(7), "https://bgm.tv/person/7");
}

#[test]
fn pagination_steps_by_the_larger_page_size() {
    assert_eq!(next_page_offset(0, 50, 50, 120, 50), Some(50));
    assert_eq!(next_page_offset(50, 30, 50, 120, 50), Some(100));
    assert_eq!(next_page_offset(100, 50, 50, 120, 20), None);
    assert_eq!(next_page_offset(0, 50, 50, 120, 0), None);
    assert_eq!(next_page_offset(0, 80, 50, 80, 80), None);
}

#[test]
fn characters_prefer_the_chinese_name() {
    let items = vec![
        SubjectCharacterItem {
            id: 5,
            name: "ハナ".to_string(),
            name_cn: Some("花".to_string()),
            relation: Some("主角".to_string()),
        },
        SubjectCharacterItem {
            id: 6,
            name: "Rin".to_string(),
            name_cn: None,
            relation: None,
        },
    ];
    let r = map_characters(9, items);
    assert_eq!(r.id, 9);
    assert_eq!(r.characters[0].name, "花");
    assert_eq!(r.characters[0].url, "https://bgm.tv/character/5");
    assert_eq!(r.characters[1].name, "Rin");
    assert_eq!(r.characters[1].relation, None);
}

#[test]
fn staff_groups_keep_preferred_order_then_sort_the_rest() {
    let person = |id: u32, name: &str, rel: &str| SubjectPersonItem {
        id,
        name: name.to_string(),
        relation: Some(rel.to_string()),
    };
    let items = vec![
        person(1, "B", "zz-custom"),
        person(2, "A", "脚本"),
        person(3, "C", "导演"),
        person(4, "D", "aa-custom"),
        person(5, "E", "脚本"),
        SubjectPersonItem { id: 6, name: "F".to_string(), relation: Some("  ".to_string()) },
        SubjectPersonItem { id: 7, name: "G".to_string(), relation: None },
    ];
    let groups = build_staff_groups(items);
    let roles: Vec<&str> = groups.iter().map(|g| g.role.as_str()).collect();
    assert_eq!(roles, vec!["导演", "脚本", "aa-custom", "zz-custom"]);
    assert_eq!(groups[1].people.len(), 2);
    assert_eq!(groups[1].people[0].name, "A");
    assert_eq!(groups[1].people[1].name, "E");
    assert_eq!(groups[0].people[0].url, "https://bgm.tv/person/3");
}

#[test]
fn infobox_terms_split_on_the_known_separators() {
    assert_eq!(split_infobox_terms("动作/冒险"), vec!["动作", "冒险"]);
    assert_eq!(split_infobox_terms("a 、 b， c | d"), vec!["a", "b", "c", "d"]);
    assert_eq!(split_infobox_terms("  "), Vec::<String>::new());
    assert_eq!(split_infobox_terms("one"), vec!["one"]);
}

#[test]
fn tags_are_trimmed_deduplicated_and_normalized() {
    let tags = vec![
        SubjectTag { name: " 科幻 ".to_string() },
        SubjectTag { name: "".to_string() },
        SubjectTag { name: "科幻".to_string() },
    ];
    let metas = vec!["热血".to_string(), "科幻".to_string()];
    let collected = collect_subject_tags(Some(tags), Some(metas));
    assert_eq!(collected, vec!["科幻", "热血"]);
    assert_eq!(normalize_tag("  SciFi "), "scifi");
    // the ideographic space counts as white space too
    assert_eq!(normalize_tag("\u{3000}热血\u{3000}"), "热血");
    assert_eq!(
        dedupe_terms(vec!["a".to_string(), "b".to_string(), "a".to_string()]),
        vec!["a", "b"]
    );
}

#[test]
fn tags_map_onto_the_official_vocabulary() {
    let tags = vec!["  机甲 ".to_string(), "科幻".to_string(), "机战".to_string()];
    let official = vec!["科幻".to_string(), "机战".to_string()];
    let aliases = vec![("机甲".to_string(), "机战".to_string())];
    let mapped = map_tags_to_official(&tags, &official, &aliases);
    assert_eq!(mapped, vec!["机战", "科幻"]);
}

#[test]
fn infobox_values_come_from_strings_objects_and_arrays() {
    assert_eq!(
        extract_infobox_value(&text("  文本  ")).as_deref(),
        Some("文本")
    );
    assert_eq!(extract_infobox_value(&text("   ")), None);
    let o = obj(&[("v", text("值"))]);
    assert_eq!(extract_infobox_value(&o).as_deref(), Some("值"));
    let o2 = obj(&[("x", text("忽略")), ("name", text("名"))]);
    assert_eq!(extract_value_from_object(&match o2 {
        JsonValue::Object(f) => f,
        _ => unreachable!(),
    })
    .as_deref(), Some("名"));
    let arr = JsonValue::Array(vec![text("a"), obj(&[("value", text("b"))]), JsonValue::Null]);
    assert_eq!(extract_infobox_value(&arr).as_deref(), Some("a / b"));
    assert_eq!(extract_infobox_value(&JsonValue::Number("3".to_string())), None);
}

#[test]
fn filter_groups_and_origin_and_aliases_read_the_infobox() {
    let infobox = vec![
        InfoboxItem { key: "类型".to_string(), value: text("科幻/冒险") },
        InfoboxItem { key: "地区".to_string(), value: text("日本") },
        InfoboxItem { key: "受众".to_string(), value: text("少年") },
        InfoboxItem { key: "原作".to_string(), value: text("小说") },
        InfoboxItem { key: "别名".to_string(), value: text("Alias A / Alias B") },
        InfoboxItem { key: "英文名".to_string(), value: text("Alias A") },
        InfoboxItem { key: "其他".to_string(), value: text("忽略") },
    ];
    let (ts, rs, aus) = extract_filter_groups(Some(infobox.iter().map(|i| InfoboxItem {
        key: i.key.clone(),
        value: clone_json(&i.value),
    }).collect()));
    assert_eq!(ts, vec!["科幻", "冒险"]);
    assert_eq!(rs, vec!["日本"]);
    assert_eq!(aus, vec!["少年"]);
    let origin = extract_origin(Some(infobox.iter().map(|i| InfoboxItem {
        key: i.key.clone(),
        value: clone_json(&i.value),
    }).collect()));
    assert_eq!(origin.as_deref(), Some("小说"));
    let aliases = extract_aliases(Some(infobox.iter().map(|i| InfoboxItem {
        key: i.key.clone(),
        value: clone_json(&i.value),
    }).collect()));
    assert_eq!(aliases, vec!["Alias A", "Alias B"]);
    assert_eq!(extract_origin(None), None);
    assert_eq!(extract_aliases(None), Vec::<String>::new());
}

#[test]
fn subject_filters_combine_tags_and_infobox_labels() {
    let infobox = vec![
        InfoboxItem { key: "类型".to_string(), value: text("搞笑") },
        InfoboxItem { key: "地区".to_string(), value: text("大陆") },
    ];
    let tags = vec![SubjectTag { name: "百合".to_string() }];
    let r = build_subject_filters(3, Some(infobox), Some(tags), Some(vec!["少女".to_string()]));
    assert_eq!(r.id, 3);
    assert_eq!(r.types, vec!["百合", "喜剧"]);
    assert_eq!(r.regions, vec!["中国"]);
    assert_eq!(r.audiences, vec!["GL", "少女向"]);
}

#[test]
fn chinese_text_detection_needs_ideographs_without_kana() {
    assert!(contains_cjk("中文"));
    assert!(!contains_cjk("abc"));
    assert!(contains_kana("テスト"));
    assert!(!contains_kana("中文"));
    assert!(is_chinese_text("简介内容"));
    assert!(!is_chinese_text("中文のテスト"));
    assert!(!is_chinese_text("plain"));
}

#[test]
fn translation_payloads_decode_like_the_service_sends_them() {
    let ok = obj(&[(
        "trans_result",
        JsonValue::Array(vec![
            obj(&[("dst", text("你好"))]),
            obj(&[("dst", text("世界"))]),
        ]),
    )]);
    assert_eq!(parse_translation(&ok).unwrap().as_deref(), Some("你好世界"));

    let nested = obj(&[(
        "result",
        obj(&[("data", JsonValue::Array(vec![obj(&[("dst", text("嵌套"))])]))]),
    )]);
    assert_eq!(parse_translation(&nested).unwrap().as_deref(), Some("嵌套"));

    let err = obj(&[("error_code", text("52003")), ("error_msg", text("quota"))]);
    let e = parse_translation(&err).unwrap_err();
    assert_eq!(e.code, "52003");
    assert_eq!(e.msg, "quota");
    assert_eq!(e.message(), "百度翻译错误: 52003 quota");
    assert!(e.is_ignorable());

    let other = obj(&[("error_code", text("54001")), ("error_msg", text("sig"))]);
    let e2 = parse_translation(&other).unwrap_err();
    assert!(!e2.is_ignorable());

    let empty = obj(&[("data", JsonValue::Array(vec![]))]);
    assert_eq!(parse_translation(&empty).unwrap(), None);
}

#[test]
fn summary_decisions_follow_the_flow() {
    let early = summary_preflight(1, "   ").unwrap();
    assert_eq!(early.summary, "");
    assert!(!early.translated);
    assert_eq!(early.error, None);

    let chinese = summary_preflight(1, "已是中文").unwrap();
    assert_eq!(chinese.summary, "已是中文");
    assert!(!chinese.translated);

    assert!(summary_preflight(1, "english text").is_none());

    let good = evaluate_translation(1, "raw".to_string(), " 翻译结果 ");
    assert!(good.translated);
    assert_eq!(good.summary, "翻译结果");
    assert_eq!(good.error, None);

    let bad = evaluate_translation(1, "raw".to_string(), "  ");
    assert!(!bad.translated);
    assert_eq!(bad.summary, "raw");
    assert_eq!(bad.error.as_deref(), Some("翻译失败或未产出中文结果"));

    let not_chinese = evaluate_translation(1, "raw".to_string(), "still english");
    assert!(!not_chinese.translated);

    let unchanged = evaluate_translation(1, "中文".to_string(), "中文");
    assert!(!unchanged.translated);
}

#[test]
fn credentials_must_be_non_blank() {
    assert_eq!(normalize_credentials(" id ", " key "), Some(("id".to_string(), "key".to_string())));
    assert_eq!(normalize_credentials("  ", "key"), None);
    assert_eq!(normalize_credentials("id", ""), None);
}

#[test]
fn air_dates_parse_and_compare() {
    assert_eq!(
        parse_airdate(&Some("2024-02-29".to_string())),
        Some(Date { year: 2024, month: 2, day: 29 })
    );
    assert_eq!(parse_airdate(&Some("2023-02-29".to_string())), None);
    assert_eq!(
        parse_airdate(&Some("2023-7-5".to_string())),
        Some(Date { year: 2023, month: 7, day: 5 })
    );
    assert_eq!(parse_airdate(&Some("2023-13-01".to_string())), None);
    assert_eq!(parse_airdate(&Some("not a date".to_string())), None);
    assert_eq!(parse_airdate(&Some("2023-07-05x".to_string())), None);
    assert_eq!(parse_airdate(&None), None);

    let a = Date { year: 2023, month: 7, day: 5 };
    let b = Date { year: 2023, month: 7, day: 6 };
    assert!(date_le(&a, &b));
    assert!(!date_le(&b, &a));
    assert!(date_le(&a, &a));
}

#[test]
fn aired_episodes_are_counted_against_a_day() {
    let today = Date { year: 2024, month: 1, day: 15 };
    let eps = vec![
        Episode { airdate: Some("2024-01-10".to_string()), status: None },
        Episode { airdate: Some("2024-01-20".to_string()), status: None },
        Episode { airdate: None, status: Some("air".to_string()) },
        Episode { airdate: Some("bad".to_string()), status: None },
    ];
    assert!(is_aired(&eps[0], today));
    assert!(!is_aired(&eps[1], today));
    assert!(is_aired(&eps[2], today));
    assert!(!is_aired(&eps[3], today));
    assert_eq!(count_aired(&eps, today), 2);
}
