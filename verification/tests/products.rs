use seo_yonetici::products::{
    details_version_due, diff_with_snapshot, diff_without_snapshot, feed_change_note, filter_keeps,
    has_tech, image_count, matches_search, meta_badge_of, meta_version_due, pick_draft, split_note, tech_badge,
    OverallStatus,
};
use seo_yonetici::validation::MetaBadge;

fn images(v: &[&str]) -> Vec<String> {
    v.iter().map(|s| s.to_string()).collect()
}

#[test]
fn eski_ve_yeni_deger_birlikte_donuyor() {
    let changed = images(&["ad", "açıklama"]);
    let texts = vec![
        Some(("Lenovo ThinkPad E16".to_string(), "Lenovo ThinkPad E16 Gen 2".to_string())),
        Some(("<p>Güçlü performans</p>".to_string(), "<p>Yenilenmiş açıklama</p>".to_string())),
    ];
    let imgs = images(&["https://cdn/a.jpg", "https://cdn/b.jpg"]);
    let d = diff_with_snapshot(&changed, &texts, &imgs, &imgs);
    assert!(d.has_snapshot);
    assert_eq!(d.changed_fields, vec!["ad", "açıklama"]);
    let ad = d.fields.iter().find(|f| f.field == "ad").expect("ad farkı yok");
    assert_eq!(ad.old, "Lenovo ThinkPad E16");
    assert_eq!(ad.new, "Lenovo ThinkPad E16 Gen 2");
    let ac = d.fields.iter().find(|f| f.field == "açıklama").unwrap();
    assert_eq!(ac.old, "Güçlü performans");
    assert!(!ac.new.contains('<'), "HTML etiketleri ayıklanmadı: {}", ac.new);
}

#[test]
fn gorsel_degisikligi_iki_liste_olarak_doner() {
    let changed = images(&["görseller"]);
    let d = diff_with_snapshot(
        &changed,
        &vec![None],
        &images(&["https://cdn/a.jpg", "https://cdn/b.jpg"]),
        &images(&["https://cdn/a.jpg", "https://cdn/c.jpg"]),
    );
    assert_eq!(d.changed_fields, vec!["görseller"]);
    assert!(d.fields.is_empty(), "görsel için metin farkı üretildi");
    assert_eq!(d.images_old.len(), 2);
    assert_eq!(d.images_new, vec!["https://cdn/a.jpg", "https://cdn/c.jpg"]);
}

#[test]
fn onay_kaydi_yoksa_yalnizca_alan_adlari_doner() {
    let d = diff_without_snapshot(
        Some("görseller, açıklama".into()),
        &images(&["https://cdn/a.jpg", "https://cdn/b.jpg"]),
    );
    assert!(!d.has_snapshot);
    assert_eq!(d.changed_fields, vec!["görseller", "açıklama"]);
    assert!(d.fields.is_empty());
    assert!(d.images_old.is_empty(), "olmayan geçmiş uydurulmuş");
    assert_eq!(d.images_new.len(), 2, "şu anki görseller yine de gösterilmeli");
}

#[test]
fn bos_gorsel_alanlari_listeye_girmez() {
    let d = diff_with_snapshot(
        &images(&["görseller"]),
        &vec![None],
        &images(&["https://cdn/a.jpg", "", "  "]),
        &images(&["https://cdn/z.jpg", "", ""]),
    );
    assert_eq!(d.images_old, vec!["https://cdn/a.jpg"]);
    assert_eq!(d.images_new, vec!["https://cdn/z.jpg"]);
}

#[test]
fn note_split_drops_blank_pieces() {
    assert_eq!(split_note(Some("ad, , açıklama, ".into())), vec!["ad", "açıklama"]);
    assert!(split_note(None).is_empty());
    assert_eq!(split_note(Some("a,b".into())), vec!["a,b"]);
}

#[test]
fn change_flag_needs_an_approval_stamp() {
    assert_eq!(feed_change_note(Some("x".into()), None, Some("ad".into())), None);
    assert_eq!(feed_change_note(Some("x".into()), Some("x".into()), Some("ad".into())), None);
    assert_eq!(feed_change_note(Some("y".into()), Some("x".into()), Some("ad".into())).as_deref(), Some("ad"));
    assert_eq!(feed_change_note(Some("y".into()), Some("x".into()), None).as_deref(), Some("feed verisi"));
    assert_eq!(feed_change_note(None, Some("x".into()), None), None);
}

#[test]
fn search_matches_name_or_sku_ignoring_case() {
    assert!(matches_search("Lenovo ThinkPad", "LN-1", None));
    assert!(matches_search("Lenovo ThinkPad", "LN-1", Some("  ")));
    assert!(matches_search("Lenovo ThinkPad", "LN-1", Some("thinkpad")));
    assert!(matches_search("Lenovo ThinkPad", "LN-1", Some(" ln-1 ")));
    assert!(!matches_search("Lenovo ThinkPad", "LN-1", Some("asus")));
}

#[test]
fn status_filters() {
    assert_eq!(filter_keeps("", OverallStatus::Tamamlandi, false), Ok(true));
    assert_eq!(filter_keeps("tumu", OverallStatus::Tamamlandi, false), Ok(false));
    assert_eq!(filter_keeps("eksik", OverallStatus::Eksik, false), Ok(true));
    assert_eq!(filter_keeps("uygun", OverallStatus::Hatali, false), Ok(false));
    assert_eq!(filter_keeps("degisti", OverallStatus::Uygun, true), Ok(true));
    assert_eq!(filter_keeps("garip", OverallStatus::Uygun, true), Err("Bilinmeyen filtre: garip".to_string()));
}

#[test]
fn images_and_tech_table_presence() {
    assert_eq!(image_count(&[Some("a".into()), None, Some("  ".into()), Some("b".into())]), 2);
    assert!(has_tech(Some(" [{\"g\":1}] ")));
    assert!(!has_tech(Some(" [] ")));
    assert!(!has_tech(Some("  ")));
    assert!(!has_tech(None));
}

#[test]
fn drafts_win_over_feed_values() {
    assert_eq!(pick_draft(Some("taslak"), Some("feed")), "taslak");
    assert_eq!(pick_draft(None, Some("feed")), "feed");
    assert_eq!(pick_draft(None, None), "");
}

#[test]
fn version_is_kept_only_for_real_changes() {
    assert!(!meta_version_due("", " ", "Yeni", "Yeni açıklama"));
    assert!(!meta_version_due(" Başlık ", "Açıklama", "Başlık", " Açıklama "));
    assert!(meta_version_due("Başlık", "Açıklama", "Başlık 2", "Açıklama"));
    assert!(!details_version_due("  ", "<p>x</p>"));
    assert!(!details_version_due("<p>x</p> ", "<p>x</p>"));
    assert!(details_version_due("<p>x</p>", "<p>y</p>"));
}

#[test]
fn detail_badges_read_drafts_first() {
    let title = "Çelik Termos 500 ml Siyah Model";
    let desc = "Çelik termos, içeceğinizi saatlerce sıcak tutar; 500 ml hacimli siyah modeldir.";
    assert_eq!(meta_badge_of(Some(title), Some("x"), Some(desc), None, Some("termos"), "pending"), MetaBadge::Uygun);
    assert_eq!(meta_badge_of(None, Some("x"), Some(desc), None, None, "pending"), MetaBadge::Hatali);
    assert_eq!(meta_badge_of(None, None, None, None, None, "pending"), MetaBadge::Eksik);
    assert_eq!(meta_badge_of(None, None, None, None, None, "done"), MetaBadge::Tamamlandi);
    assert_eq!(tech_badge("done", false), MetaBadge::Tamamlandi);
    assert_eq!(tech_badge("pending", true), MetaBadge::Uygun);
    assert_eq!(tech_badge("pending", false), MetaBadge::Eksik);
}
