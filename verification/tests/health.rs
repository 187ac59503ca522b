use seo_yonetici::health::{days_between, gun_gecti, tazelik};

fn gun_once(n: i64) -> String {
    (chrono::Local::now() - chrono::Duration::days(n)).format("%Y-%m-%dT%H:%M:%S").to_string()
}

#[test]
fn tazelik_esige_gore_karar_veriyor() {
    let t = |g: i64| tazelik("k", "L", Some(gun_once(g)), 3, "a", "hiç").state;
    assert_eq!(t(0), "ok");
    assert_eq!(t(3), "ok", "eşik dahil");
    assert_eq!(t(4), "stale");
}

#[test]
fn hic_calismamis_bayat_sayiliyor() {
    let c = tazelik("k", "L", None, 3, "a", "hiç senkronlanmadı");
    assert_eq!(c.state, "stale");
    assert_eq!(c.detail, "hiç senkronlanmadı");
    assert!(!c.action.is_empty(), "yapılacak eylem sunulmalı");
}

#[test]
fn bozuk_tarih_cokertmiyor() {
    assert_eq!(tazelik("k", "L", Some("bozuk".into()), 3, "a", "hiç").state, "stale");
    assert_eq!(tazelik("k", "L", Some(String::new()), 3, "a", "hiç").state, "stale");
    assert_eq!(gun_gecti("2026-13-45"), None);
    assert_eq!(gun_gecti(&gun_once(0)), Some(0));
}

#[test]
fn bugun_ayri_yaziliyor() {
    assert_eq!(tazelik("k", "L", Some(gun_once(0)), 3, "a", "h").detail, "bugün");
    assert_eq!(tazelik("k", "L", Some(gun_once(2)), 3, "a", "h").detail, "2 gün önce");
}

#[test]
fn stale_detail_names_both_numbers() {
    let c = tazelik("feed", "Ürün feed'i", Some(gun_once(10)), 3, "sync_feed", "hiç");
    assert_eq!(c.state, "stale");
    assert_eq!(c.detail, "10 gün önce — 3 günden eski");
    assert_eq!((c.key.as_str(), c.label.as_str(), c.action.as_str()), ("feed", "Ürün feed'i", "sync_feed"));
}

#[test]
fn days_between_counts_calendar_days() {
    // 2026-01-01 is day 739617 from the common era; one day later is day 739618.
    let d = days_between("2026-01-01T10:00:00", 739618);
    assert_eq!(d, Some(1));
    assert_eq!(days_between("2026-01", 739618), None);
}
