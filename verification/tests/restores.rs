use chrono::{Datelike, NaiveDate};
use seo_yonetici::backup::{backup_table, export_doc, row_int_or, row_text_or, rows_of, BACKUP_TABLE_COUNT, STATUS_DEFAULT};
use seo_yonetici::json::Json;
use seo_yonetici::queue::{age_days, in_flight_events, review_due, undecided_pages, urgent_conditions};
use seo_yonetici::research::order_by_volume;
use seo_yonetici::validation::word_count;
use seo_yonetici::versions::{restore_details, restore_meta, restore_tech, DetailsVersion, MetaVersion};

fn meta(at: &str, title: &str, desc: &str) -> MetaVersion {
    MetaVersion {
        at: at.into(),
        title: title.into(),
        descriptions: desc.into(),
        keywords: "k".into(),
        search_keywords: "s".into(),
        target_keyword: "t".into(),
        model: "m".into(),
    }
}

fn day(y: i32, m: u32, d: u32) -> i64 {
    NaiveDate::from_ymd_opt(y, m, d).unwrap().num_days_from_ce() as i64
}

#[test]
fn meta_restore_swaps_and_undoes() {
    let h = vec![meta("2", "B", "b"), meta("1", "A", "a")];
    let (now, h2) = restore_meta(h, 1, meta("3", "C", "c")).unwrap();
    assert_eq!(now.title, "A");
    assert_eq!(h2.iter().map(|v| v.title.as_str()).collect::<Vec<_>>(), vec!["C", "B"]);
    let (back, h3) = restore_meta(h2, 0, now).unwrap();
    assert_eq!(back.title, "C");
    assert_eq!(h3.iter().map(|v| v.title.as_str()).collect::<Vec<_>>(), vec!["A", "B"]);
}

#[test]
fn blank_meta_is_not_kept() {
    let h = vec![meta("1", "A", "a")];
    let (now, h2) = restore_meta(h, 0, meta("2", "  ", "\n")).unwrap();
    assert_eq!(now.title, "A");
    assert!(h2.is_empty());
    let h = vec![meta("1", "A", "a")];
    let (_, h2) = restore_meta(h, 0, meta("2", " ", "only description")).unwrap();
    assert_eq!(h2.len(), 1);
    assert_eq!(h2[0].descriptions, "only description");
}

#[test]
fn restore_past_the_end_is_refused() {
    let h = vec![meta("1", "A", "a")];
    assert_eq!(restore_meta(h, 1, meta("2", "B", "b")).unwrap_err(), "Bu sürüm artık mevcut değil.");
    let d: Vec<DetailsVersion> = Vec::new();
    let cur = DetailsVersion { at: "x".into(), html: "<p>a</p>".into(), model: "m".into() };
    assert_eq!(restore_details(d, 0, cur).unwrap_err(), "Bu sürüm artık mevcut değil.");
}

#[test]
fn details_and_tech_restores_keep_only_real_content() {
    let old = DetailsVersion { at: "1".into(), html: "<p>eski</p>".into(), model: "m".into() };
    let blank = DetailsVersion { at: "2".into(), html: "   ".into(), model: "m".into() };
    let (now, h) = restore_details(vec![old.clone()], 0, blank).unwrap();
    assert_eq!(now.html, "<p>eski</p>");
    assert!(h.is_empty());
    let cur = DetailsVersion { at: "3".into(), html: "<p>yeni</p>".into(), model: "m".into() };
    let (_, h) = restore_details(vec![old], 0, cur).unwrap();
    assert_eq!(h[0].html, "<p>yeni</p>");
    let (t, h) = restore_tech(vec!["v1".to_string()], 0, "empty".to_string(), 0).unwrap();
    assert_eq!(t, "v1");
    assert!(h.is_empty());
    let (_, h) = restore_tech(vec!["v1".to_string()], 0, "full".to_string(), 2).unwrap();
    assert_eq!(h, vec!["full".to_string()]);
}

#[test]
fn ages_count_days_to_today() {
    let today = day(2026, 8, 10);
    assert_eq!(age_days("2026-08-01T10:00:00", today), 9);
    assert_eq!(age_days("2026-08-10", today), 0);
    assert_eq!(age_days("dün", today), 0);
}

#[test]
fn review_bucket_takes_first_old_event_per_sku() {
    let today = day(2026, 8, 30);
    let ev = vec![
        ("A".to_string(), "2026-08-28T00:00:00".to_string()),
        ("B".to_string(), "2026-08-01T00:00:00".to_string()),
        ("A".to_string(), "2026-08-02T00:00:00".to_string()),
        ("B".to_string(), "2026-07-01T00:00:00".to_string()),
        ("C".to_string(), "2026-08-16T00:00:00".to_string()),
    ];
    assert_eq!(review_due(&ev, today, 14), vec![1, 2, 4]);
    assert_eq!(in_flight_events(&ev, today, 14), vec![0]);
    assert!(review_due(&[], today, 14).is_empty());
}

#[test]
fn leak_bucket_leaves_out_decided_pages() {
    let slugs = vec!["a".to_string(), "b".to_string(), "c".to_string()];
    assert_eq!(undecided_pages(&slugs, &vec!["b".to_string()]), vec![0, 2]);
    assert_eq!(undecided_pages(&slugs, &Vec::new()), vec![0, 1, 2]);
}

#[test]
fn urgent_when_stale_or_never_pushed() {
    assert_eq!(urgent_conditions(true, true, "done", "done"), (true, false));
    assert_eq!(urgent_conditions(false, true, "done", "done"), (false, true));
    assert_eq!(urgent_conditions(false, false, "done", "pending"), (false, false));
    assert_eq!(urgent_conditions(true, false, "done", "done"), (false, false));
}

#[test]
fn ideas_order_by_volume_stably() {
    assert_eq!(order_by_volume(&[10, 50, 10, 70, 50]), vec![3, 1, 4, 0, 2]);
    assert!(order_by_volume(&[]).is_empty());
    assert_eq!(order_by_volume(&[5, 5, 5]), vec![0, 1, 2]);
}

#[test]
fn missing_cells_take_defaults() {
    let row = Json::Obj(vec![
        ("status".into(), Json::Str("done".into())),
        ("n".into(), Json::Num("4".into())),
        ("x".into(), Json::Null),
    ]);
    assert_eq!(row_text_or(&row, "status", STATUS_DEFAULT), "done");
    assert_eq!(row_text_or(&row, "other", STATUS_DEFAULT), "pending");
    assert_eq!(row_text_or(&row, "x", "USD"), "USD");
    assert_eq!(row_int_or(&row, "n", 7), 4);
    assert_eq!(row_int_or(&row, "status", 7), 7);
}

#[test]
fn each_written_table_is_read_back() {
    let mut tables: Vec<Vec<Json>> = (0..BACKUP_TABLE_COUNT).map(|_| Vec::new()).collect();
    tables[3].push(Json::Str("three".into()));
    tables[15].push(Json::Num("15".into()));
    tables[15].push(Json::Bool(true));
    let doc = export_doc("t".into(), tables);
    for i in 0..BACKUP_TABLE_COUNT {
        let rows = rows_of(&doc, backup_table(i));
        let want = if i == 3 { 1 } else if i == 15 { 2 } else { 0 };
        assert_eq!(rows.len(), want);
    }
    assert!(matches!(&rows_of(&doc, backup_table(3))[0], Json::Str(s) if s == "three"));
    assert!(matches!(&rows_of(&doc, backup_table(15))[1], Json::Bool(true)));
}

#[test]
fn paragraph_word_counts_add_up() {
    let a = "bir iki  üç";
    let b = "dört beş";
    assert_eq!(word_count(&format!("<p>{a}</p><p>{b}</p>")), word_count(a) + word_count(b));
    assert_eq!(word_count(&format!("<p>{a}</p><p>{b}</p>")), 5);
    assert_eq!(word_count("<p>bir</p><p>iki</p>"), 2);
}

fn gm(kw: &str, title: &str, desc: &str) -> seo_yonetici::gemini::GeneratedMeta {
    seo_yonetici::gemini::GeneratedMeta {
        target_keyword: kw.into(),
        title: title.into(),
        descriptions: desc.into(),
        keywords: String::new(),
        search_keywords: String::new(),
    }
}

#[test]
fn no_violation_exactly_when_no_correction() {
    let title = "Çelik Termos 500 ml Siyah Model";
    let desc = "Çelik termos, içeceğinizi saatlerce sıcak tutar; 500 ml hacimli siyah modeldir.";
    let cases = [
        gm("termos", title, desc),
        gm("", title, desc),
        gm("  ", title, desc),
        gm("kupa", title, desc),
        gm("termos", "Kısa", desc),
        gm("termos", "", ""),
    ];
    for m in cases.iter() {
        let none = seo_yonetici::generation::correction_for(m).is_none();
        assert_eq!(seo_yonetici::gemini::violation_count(m) == 0, none);
    }
    assert_eq!(seo_yonetici::gemini::violation_count(&cases[0]), 0);
    assert_eq!(seo_yonetici::gemini::violation_count(&cases[3]), 2);
    assert_eq!(seo_yonetici::gemini::violation_count(&cases[5]), 4);
    assert_eq!(seo_yonetici::validation::grapheme_len(""), 0);
}
