use seo_yonetici::assistant::{save_check, title_message};
use seo_yonetici::decisions::{csv_header, redirect_csv_row, EolDecision};
use seo_yonetici::focus::{display_title, pick_next, setting_i64};
use seo_yonetici::quotes::{closes, gun_ay_yil, neden, status_event};
use seo_yonetici::usage::chain_setting;

fn decision(slug: &str, action: &str, target: Option<&str>) -> EolDecision {
    EolDecision {
        slug: slug.into(),
        url: format!("https://x/{slug}"),
        action: action.into(),
        target_slug: target.map(|t| t.to_string()),
        target_sku: None,
        source: "manual".into(),
        decided_at: "2026-07-29T10:00:00".into(),
        exported_at: None,
    }
}

#[test]
fn redirect_rows_follow_the_decisions() {
    let ds = vec![
        decision("eski-urun", "redirect_301", Some("yeni-urun")),
        decision("tutulan", "keep", None),
    ];
    let (line, decided) = redirect_csv_row(&ds, "eski-urun", false, "12", "4.5", Some(("Aday".into(), "0.80".into()))).unwrap();
    assert!(decided);
    assert_eq!(line, "eski-urun,yeni-urun,12,4.5,redirect_301,manual,2026-07-29,,\n");
    assert!(redirect_csv_row(&ds, "tutulan", true, "99", "1.0", None).is_none());
    assert!(redirect_csv_row(&ds, "kararsiz", false, "1", "9.0", None).is_none());
    let (line, decided) = redirect_csv_row(&ds, "a,b", true, "7", "3.0", Some(("Ürün \"X\"".into(), "0.42".into()))).unwrap();
    assert!(!decided);
    assert_eq!(line, "\"a,b\",,7,3.0,,,,\"Ürün \"\"X\"\"\",0.42\n");
    assert!(csv_header().starts_with("# 301 is listesi"));
    assert!(csv_header().ends_with("kaynak_yol,hedef_yol,tiklama,konum,karar,kaynak,karar_tarihi,aday,benzerlik\n"));
}

#[test]
fn next_lockable_skips_done_and_touched() {
    let items = vec![
        ("product".to_string(), "A".to_string(), true),
        ("product".to_string(), "B".to_string(), false),
        ("page".to_string(), "C".to_string(), false),
    ];
    assert_eq!(pick_next(&items, &[]), Some(1));
    assert_eq!(pick_next(&items, &[("product".to_string(), "B".to_string())]), Some(2));
    let all = vec![("product".to_string(), "B".to_string()), ("page".to_string(), "C".to_string())];
    assert_eq!(pick_next(&items, &all), None);
    assert_eq!(display_title(String::new(), &"SKU-1".to_string()), "SKU-1");
    assert_eq!(display_title("Başlık".into(), &"SKU-1".to_string()), "Başlık");
}

#[test]
fn numeric_settings_fall_back() {
    assert_eq!(setting_i64(Some("30"), 25), 30);
    assert_eq!(setting_i64(Some("+7"), 25), 7);
    assert_eq!(setting_i64(Some("0"), 25), 25);
    assert_eq!(setting_i64(Some("-3"), 25), 25);
    assert_eq!(setting_i64(Some("abc"), 5), 5);
    assert_eq!(setting_i64(Some(" 3"), 5), 5);
    assert_eq!(setting_i64(None, 5), 5);
}

#[test]
fn quote_texts() {
    assert_eq!(gun_ay_yil("2026-08-20T10:00:00"), "20.08.2026");
    assert_eq!(gun_ay_yil(""), "");
    assert_eq!(gun_ay_yil("20260820"), "");
    assert_eq!(neden("  fiyat  "), " · fiyat");
    assert_eq!(neden("   "), "");
    assert_eq!(status_event("sent", "T-1", "100.00", "USD", ""), ("quote_sent", "T-1 gönderildi · 100.00 USD".to_string()));
    assert_eq!(status_event("lost", "T-1", "0", "USD", " pahalı "), ("quote_lost", "T-1 kaybedildi · pahalı".to_string()));
    assert_eq!(status_event("draft", "T-1", "0", "USD", ""), ("note", "T-1 taslağa alındı".to_string()));
    assert!(closes("won") && closes("expired") && !closes("sent"));
}

#[test]
fn chats_need_messages_and_take_title_from_user() {
    assert!(save_check(0).is_err());
    assert!(save_check(2).is_ok());
    let roles = vec!["model".to_string(), "user".to_string(), "user".to_string()];
    assert_eq!(title_message(&roles), Some(1));
    assert_eq!(title_message(&["model".to_string()]), None);
}

#[test]
fn chains_are_stored_one_per_line() {
    assert_eq!(chain_setting(&["a".to_string(), "b".to_string()]), "a\nb");
    assert_eq!(chain_setting(&[]), "");
}
