use seo_yonetici::backup::{backup_table, backup_text, export_doc, parse_backup, row_int, row_num, row_text, rows_of, BACKUP_TABLE_COUNT};
use seo_yonetici::generation::{answer_fault_message, model_answer, model_count, model_sections, model_strings, AnswerFault};
use seo_yonetici::health::analyzed_at_of;
use seo_yonetici::ideasoft::search_hits;
use seo_yonetici::validation::{meta_badge, MetaBadge, MetaInput};
use seo_yonetici::ideasoft::remote_product;
use seo_yonetici::json::{parse_json, write_json, Json};

#[test]
fn json_tree_reads_values() {
    match parse_json(r#"{"b": [1, 2.5, "x", null, true], "a": {"k": "v"}}"#).unwrap() {
        Json::Obj(es) => {
            assert_eq!(es.len(), 2);
            assert_eq!(es[0].0, "a");
            assert_eq!(es[1].0, "b");
            match &es[1].1 {
                Json::Arr(a) => {
                    assert!(matches!(&a[0], Json::Num(n) if n == "1"));
                    assert!(matches!(&a[1], Json::Num(n) if n == "2.5"));
                    assert!(matches!(&a[2], Json::Str(s) if s == "x"));
                    assert!(matches!(&a[3], Json::Null));
                    assert!(matches!(&a[4], Json::Bool(true)));
                }
                other => panic!("{other:?}"),
            }
        }
        other => panic!("{other:?}"),
    }
    assert!(parse_json("{bozuk").is_err());
    let text = write_json(&Json::Obj(vec![("n".into(), Json::Num("3".into())), ("s".into(), Json::Str("ç".into()))]));
    let expected: serde_json::Value = serde_json::from_str(r#"{"n": 3, "s": "ç"}"#).unwrap();
    assert_eq!(serde_json::from_str::<serde_json::Value>(&text).unwrap(), expected);
}

#[test]
fn model_answer_takes_the_first_part_text() {
    let body = r#"{"candidates":[{"content":{"parts":[{"text":"{\"title\":\"x\"}"}]}}]}"#;
    assert_eq!(model_answer(body).unwrap(), r#"{"title":"x"}"#);
    assert!(matches!(model_answer(r#"{"candidates":[]}"#), Err(AnswerFault::Unexpected)));
    assert!(matches!(model_answer(r#"{"candidates":[{"content":{"parts":[{"text":5}]}}]}"#), Err(AnswerFault::Unexpected)));
    let fault = model_answer("oops").unwrap_err();
    let msg = answer_fault_message("oops", fault);
    assert!(msg.starts_with("Yanıt çözümlenemedi: "), "{msg}");
    assert_eq!(answer_fault_message("  {} ", AnswerFault::Unexpected), "Beklenmeyen yanıt biçimi: {}");
}

#[test]
fn store_product_reads_nested_detail() {
    let r = remote_product(
        r#"{"id": 119894, "sku": "X", "name": "Ürün", "pageTitle": "T",
            "detail": {"details": "<p>a</p>", "extraDetails": "<table>t</table>"},
            "seoTotalRuleCount": 7}"#,
    )
    .unwrap();
    assert_eq!(r.id, 119894);
    assert_eq!((r.sku.as_str(), r.name.as_str(), r.page_title.as_str()), ("X", "Ürün", "T"));
    assert_eq!(r.details, "<p>a</p>");
    assert_eq!(r.extra_details, "<table>t</table>");
    assert_eq!(r.seo_rule_count, Some(7));
    assert_eq!(r.meta_description, "");
    let bare = remote_product(r#"{"id": 1.5}"#).unwrap();
    assert_eq!((bare.id, bare.seo_rule_count), (0, None));
    assert!(remote_product("<html>").unwrap_err().starts_with("IdeaSoft yanıtı okunamadı: "));
}

#[test]
fn backup_text_needs_an_object_with_products() {
    assert!(parse_backup("[1]").unwrap_err() == "Beklenmeyen JSON biçimi.");
    assert_eq!(parse_backup(r#"{"settings": []}"#).unwrap_err(), "Bu dosya geçerli bir SEO Yöneticisi yedeği değil.");
    assert!(parse_backup("{").unwrap_err().starts_with("JSON çözümlenemedi: "));
    let doc = parse_backup(
        r#"{"products": [{"sku": "A", "quantity": 3, "name": "Ad"}], "quotes": [{"fx_rate": 47.5911, "cost": null}]}"#,
    )
    .unwrap();
    let products = rows_of(&doc, "products");
    assert_eq!(products.len(), 1);
    assert_eq!(row_text(&products[0], "sku").as_deref(), Some("A"));
    assert_eq!(row_int(&products[0], "quantity"), Some(3));
    assert_eq!(row_text(&products[0], "quantity"), None);
    assert_eq!(row_int(&products[0], "missing"), None);
    let quotes = rows_of(&doc, "quotes");
    assert_eq!(row_num(&quotes[0], "fx_rate").as_deref(), Some("47.5911"));
    assert_eq!(row_int(&quotes[0], "fx_rate"), None);
    assert_eq!(row_num(&quotes[0], "cost"), None);
    assert!(rows_of(&doc, "chat_sessions").is_empty());
}

#[test]
fn written_backup_reads_back() {
    let mut tables: Vec<Vec<Json>> = (0..BACKUP_TABLE_COUNT).map(|_| Vec::new()).collect();
    tables[0].push(Json::Obj(vec![
        ("sku".into(), Json::Str("A".into())),
        ("quantity".into(), Json::Num("-9223372036854775808".into())),
    ]));
    let doc = export_doc("2026-08-01T10:00:00".into(), tables);
    let text = backup_text(&doc);
    let back = parse_backup(&text).unwrap();
    let rows = rows_of(&back, backup_table(0));
    assert_eq!(row_text(&rows[0], "sku").as_deref(), Some("A"));
    assert_eq!(row_int(&rows[0], "quantity"), Some(i64::MIN));
    let v: serde_json::Value = serde_json::from_str(&text).unwrap();
    assert_eq!(v["app"], "seo-yoneticisi");
    assert_eq!(v["exported_at"], "2026-08-01T10:00:00");
    assert!(v["gemini_calls"].as_array().unwrap().is_empty());
    assert_eq!(backup_table(15), "gemini_calls");
}

#[test]
fn whole_numbers_read_like_str_parse() {
    let doc = parse_backup(
        r#"{"products": [{"a": 9223372036854775807, "b": 9223372036854775808, "c": -12, "d": 1e3, "e": 0}]}"#,
    )
    .unwrap();
    let r = &rows_of(&doc, "products")[0];
    assert_eq!(row_int(r, "a"), Some(i64::MAX));
    assert_eq!(row_int(r, "b"), None);
    assert_eq!(row_int(r, "c"), Some(-12));
    assert_eq!(row_int(r, "d"), None);
    assert_eq!(row_int(r, "e"), Some(0));
}

#[test]
fn model_arrays_are_read() {
    assert_eq!(model_strings(r#"["a", "b"]"#).unwrap(), vec!["a".to_string(), "b".to_string()]);
    assert!(model_strings(r#"[1]"#).unwrap_err().starts_with("Üretilen dizi okunamadı: "));
    let s = model_sections(r#"[{"h2": "Başlık", "p": "Metin"}, {"h2": 3}, "x"]"#).unwrap();
    assert_eq!(
        s,
        vec![("Başlık".to_string(), "Metin".to_string()), (String::new(), String::new()), (String::new(), String::new())]
    );
    assert!(model_sections(r#"{"h2": "x"}"#).unwrap_err().starts_with("Üretilen dizi okunamadı: "));
    assert_eq!(model_count(r#"{"models": [{}, {}, {}]}"#), Ok(3));
    assert_eq!(model_count(r#"{}"#), Ok(0));
    assert!(model_count("nope").unwrap_err().starts_with("Yanıt çözümlenemedi: "));
}

#[test]
fn search_results_are_read() {
    let hits = search_hits(r#"[{"id": 1, "sku": "ABC-123-XL"}, {"id": 2, "sku": "ABC-123", "seoTotalRuleCount": 13}]"#).unwrap();
    assert_eq!(hits.len(), 2);
    assert_eq!((hits[1].sku.as_str(), hits[1].id, hits[1].seo_rule_count), ("ABC-123", Some(2), Some(13)));
    assert_eq!(hits[0].seo_rule_count, None);
    assert!(search_hits(r#"{"id": 1}"#).unwrap_err().starts_with("IdeaSoft yanıtı okunamadı: "));
}

#[test]
fn analysis_stamp_comes_from_the_report() {
    assert_eq!(analyzed_at_of(Some(r#"{"analyzed_at": "2026-07-01T10:00:00"}"#)).as_deref(), Some("2026-07-01T10:00:00"));
    assert_eq!(analyzed_at_of(Some("bozuk")), None);
    assert_eq!(analyzed_at_of(Some(r#"{"analyzed_at": 5}"#)), None);
    assert_eq!(analyzed_at_of(None), None);
}

#[test]
fn badge_ignores_space_and_a_dropped_keyword() {
    let title = "Bluetooth kulaklık kablosuz model";
    let desc = "Bluetooth kulaklık ile kablosuz müzik keyfi; uzun pil ömrü ve net ses sunar.";
    let m = |t: &str, d: &str, k: &str| {
        meta_badge(&MetaInput { title: t, descriptions: d, target_keyword: k, meta_done: false })
    };
    assert_eq!(m(title, desc, "bluetooth kulaklık"), MetaBadge::Uygun);
    assert_eq!(m(title, desc, ""), MetaBadge::Uygun);
    assert_eq!(m(&format!("  {title}\t"), desc, "bluetooth kulaklık"), MetaBadge::Uygun);
    assert_eq!(m("  kısa ", desc, ""), m("kısa", desc, ""));
}
