use seo_yonetici::ideasoft::{pull_keyword, pull_message, pull_ready, tech_pull, TechPull};
use seo_yonetici::queue::days_since;
use seo_yonetici::generation::{details_check, optimize_check};
use seo_yonetici::ideasoft::{build_payload, push_ready, LocalContent};
use seo_yonetici::crm::{contact_fields, followup_done, import_summary, is_same_person, merge_field};
use seo_yonetici::health::{gemini_check, ideasoft_check, local_checks};
use seo_yonetici::images::dims_from_bytes;
use seo_yonetici::research::{choose_seed, host_of, research_failure, sources_of};
use seo_yonetici::products::toggle_status;
use seo_yonetici::settings::{backup_shape, export_format, import_format, BackupFormat};
use seo_yonetici::versions::{push_version, restore_version, HISTORY_MAX};

#[test]
fn contact_needs_a_name_and_is_trimmed() {
    assert_eq!(contact_fields("   ", "Firma", "", "").unwrap_err(), "Kişi adı boş olamaz.");
    let (n, c, e, p) = contact_fields("  Ayşe Yılmaz ", " ACME ", " a@b.com ", " 0555 ").unwrap();
    assert_eq!((n.as_str(), c.as_str(), e.as_str(), p.as_str()), ("Ayşe Yılmaz", "ACME", "a@b.com", "0555"));
}

#[test]
fn import_matches_by_email_or_phone() {
    assert!(is_same_person("Ali@Firma.com", "", "ali@firma.com", "111"));
    assert!(is_same_person("", "0555", "x@y.z", "0555"));
    assert!(!is_same_person("", "", "", ""));
    assert!(!is_same_person("a@b.c", "1", "d@e.f", "2"));
    assert_eq!(merge_field("eski".into(), String::new()), "eski");
    assert_eq!(merge_field("eski".into(), "yeni".into()), "yeni");
    let s = import_summary(3, 1, 2);
    assert_eq!((s.added, s.updated, s.skipped), (3, 1, 2));
    assert_eq!(s.skip_reason, "2 satırda ad boştu");
    assert_eq!(import_summary(1, 0, 0).skip_reason, "");
    let (kind, next, text) = followup_done();
    assert_eq!(kind, "followup_done");
    assert!(next.is_none() && text.is_empty());
}

#[test]
fn local_checks_turn_off_unconnected_modules() {
    let r = local_checks(None, None, "", None, "  ");
    assert_eq!(r.len(), 3);
    assert_eq!((r[0].key.as_str(), r[0].state.as_str(), r[0].detail.as_str()), ("feed", "stale", "hiç senkronlanmadı"));
    assert_eq!((r[1].state.as_str(), r[1].detail.as_str(), r[1].action.as_str()), ("off", "GSC bağlanmamış", ""));
    assert_eq!((r[2].state.as_str(), r[2].detail.as_str(), r[2].action.as_str()), ("off", "IdeaSoft bağlanmamış", ""));
    let r = local_checks(None, None, "{json}", None, "tok");
    assert_eq!((r[1].state.as_str(), r[1].detail.as_str(), r[1].action.as_str()), ("stale", "hiç çalıştırılmadı", "run_analysis"));
    assert_eq!((r[2].state.as_str(), r[2].detail.as_str(), r[2].action.as_str()), ("stale", "hiç çekilmedi", "sync_store_pages"));
}

#[test]
fn connection_rows_report_the_outcome() {
    let off = gemini_check("  ", None);
    assert_eq!((off.state.as_str(), off.detail.as_str()), ("off", "anahtar girilmemiş"));
    let ok = gemini_check("key", Some(Ok(12)));
    assert_eq!((ok.state.as_str(), ok.detail.as_str(), ok.action.as_str()), ("ok", "12 model erişilebilir", ""));
    let err = gemini_check("key", Some(Err("403".into())));
    assert_eq!((err.state.as_str(), err.detail.as_str(), err.action.as_str()), ("error", "403", "open_settings"));
    let off = ideasoft_check("", "tok", None);
    assert_eq!((off.key.as_str(), off.state.as_str(), off.detail.as_str()), ("ideasoft", "off", "bağlanmamış (opsiyonel)"));
    let ok = ideasoft_check("magaza.com", "tok", Some(Ok("Bağlantı başarılı".into())));
    assert_eq!((ok.state.as_str(), ok.detail.as_str()), ("ok", "Bağlantı başarılı"));
    let err = ideasoft_check("magaza.com", "tok", Some(Err("401".into())));
    assert_eq!((err.state.as_str(), err.detail.as_str(), err.action.as_str()), ("error", "401", "open_settings"));
}

#[test]
fn history_is_newest_first_and_capped() {
    let mut h: Vec<u32> = Vec::new();
    for v in 1..=7u32 {
        h = push_version(h, v);
    }
    assert_eq!(h, vec![7, 6, 5, 4, 3]);
    assert_eq!(h.len(), HISTORY_MAX);
}

#[test]
fn restore_swaps_with_current_and_can_be_undone() {
    let h = vec![30u32, 20, 10];
    let (x, h2) = restore_version(h.clone(), 1, Some(99)).unwrap();
    assert_eq!(x, 20);
    assert_eq!(h2, vec![99, 30, 10]);
    let (y, h3) = restore_version(h2, 0, Some(x)).unwrap();
    assert_eq!(y, 99);
    assert_eq!(h3, vec![20, 30, 10]);
    assert_eq!(restore_version(h.clone(), 3, Some(1)).unwrap_err(), "Bu sürüm artık mevcut değil.");
    let (z, h4) = restore_version(h, 0, None).unwrap();
    assert_eq!((z, h4), (30, vec![20, 10]));
}

#[test]
fn backup_formats() {
    assert_eq!(export_format("db"), Ok(BackupFormat::Db));
    assert_eq!(export_format("json"), Ok(BackupFormat::Json));
    assert_eq!(export_format("xml"), Err("Bilinmeyen format: xml".to_string()));
    assert_eq!(import_format("/yedek/Son.JSON"), BackupFormat::Json);
    assert_eq!(import_format("/yedek/son.db"), BackupFormat::Db);
    assert!(backup_shape(true, true).is_ok());
    assert_eq!(backup_shape(false, true).unwrap_err(), "Beklenmeyen JSON biçimi.");
    assert_eq!(backup_shape(true, false).unwrap_err(), "Bu dosya geçerli bir SEO Yöneticisi yedeği değil.");
}

#[test]
fn research_needs_a_source() {
    assert!(sources_of("", " ", "site").unwrap_err().starts_with("Araştırma için Ayarlar'dan"));
    assert_eq!(sources_of("key", "", ""), Ok((true, false)));
    assert_eq!(sources_of("", "{}", "sc-domain:x"), Ok((false, true)));
    assert_eq!(sources_of("k", "{}", ""), Ok((true, false)));
}

#[test]
fn seed_keyword_precedence() {
    assert_eq!(choose_seed(Some("  verilen "), "onaylı", Some("kategori"), "Ad"), "verilen");
    assert_eq!(choose_seed(Some("  "), " onaylı ", Some("kategori"), "Ad"), "onaylı");
    assert_eq!(choose_seed(None, "", Some(" kategori "), "Ad"), "kategori");
    assert_eq!(choose_seed(None, "", None, "Bir  iki üç dört beş"), "Bir iki üç dört");
}

#[test]
fn host_drops_www_prefix() {
    assert_eq!(host_of("https://www.magaza.com/urun/1").as_deref(), Some("magaza.com"));
    assert_eq!(host_of("https://shop.magaza.com").as_deref(), Some("shop.magaza.com"));
    assert_eq!(host_of("magaza.com/urun"), None);
}

#[test]
fn research_failure_message_and_toggle() {
    let notes = vec!["GSC: yetki yok".chars().collect::<Vec<char>>(), "CapSolver: kota".chars().collect()];
    assert_eq!(research_failure(&notes), "GSC: yetki yok CapSolver: kota");
    assert_eq!(research_failure(&Vec::new()), "Araştırma verisi alınamadı.");
    assert_eq!(toggle_status("done"), "pending");
    assert_eq!(toggle_status("pending"), "done");
    assert_eq!(toggle_status(toggle_status("done")), "done");
}

#[test]
fn image_size_is_read_from_the_header() {
    let mut png: Vec<u8> = vec![0x89, b'P', b'N', b'G', 0x0D, 0x0A, 0x1A, 0x0A, 0, 0, 0, 13];
    png.extend_from_slice(b"IHDR");
    png.extend_from_slice(&1200u32.to_be_bytes());
    png.extend_from_slice(&800u32.to_be_bytes());
    png.extend_from_slice(&[8, 6, 0, 0, 0, 0, 0, 0, 0]);
    assert_eq!(dims_from_bytes(&png), Ok((1200, 800)));
    let bad = dims_from_bytes(b"not an image at all");
    assert!(bad.unwrap_err().starts_with("Boyut okunamadı: "));
}

#[test]
fn generation_prechecks() {
    let html = "<section class=\"yeni-aciklama center\"><h2>Başlık</h2><p>Metin</p></section>";
    assert_eq!(details_check("  ", html).unwrap_err(), "Gemini API anahtarı ayarlı değil. Ayarlar'dan ekleyin.");
    assert_eq!(details_check(" k ", html).unwrap(), "k");
    assert_eq!(details_check("k", "<div>yok</div>").unwrap_err(), "Bu üründe yeniden yazılacak açıklama metni bulunamadı.");
    assert!(optimize_check("", html).is_err());
    let (k, blocks) = optimize_check("k", html).unwrap().unwrap();
    assert_eq!(k, "k");
    assert_eq!(blocks.len(), 1);
    assert_eq!(blocks[0].h2, "Başlık");
    assert!(optimize_check("k", "<div>düz</div>").unwrap().is_none());
}

#[test]
fn push_needs_content() {
    let empty = build_payload(&[], &LocalContent::default());
    assert_eq!(push_ready(&empty).unwrap_err(), "Gönderilecek içerik yok — önce üretim yapın.");
    let local = LocalContent { target_keyword: "hedef".into(), ..Default::default() };
    assert!(push_ready(&build_payload(&["keyword".to_string()], &local)).is_ok());
}

#[test]
fn days_since_counts_to_today_or_zero() {
    let two_days_ago = (chrono::Local::now() - chrono::Duration::days(2)).format("%Y-%m-%dT%H:%M:%S").to_string();
    assert_eq!(days_since(&two_days_ago), 2);
    assert_eq!(days_since("bozuk"), 0);
    assert_eq!(days_since(""), 0);
}

#[test]
fn pulling_from_the_store_reports_what_came() {
    assert_eq!(pull_ready(" ", "tok").unwrap_err(), "IdeaSoft bağlantısı ayarlı değil.");
    assert!(pull_ready("magaza.com", "tok").is_ok());
    assert_eq!(
        pull_keyword("  ", true).unwrap_err(),
        "IdeaSoft'ta bu ürün için hedef kelime ve teknik tablo tanımlı değil."
    );
    assert_eq!(pull_keyword(" kulaklık ", true).unwrap(), "kulaklık");
    assert_eq!(pull_keyword("", false).unwrap(), "");
    assert_eq!(tech_pull(true, 1), TechPull::Absent);
    assert_eq!(tech_pull(false, 1), TechPull::Written);
    assert_eq!(tech_pull(false, 0), TechPull::Kept);
    assert_eq!(pull_message("kulaklık", TechPull::Written), "Hedef kelime ve teknik tablo getirildi: \"kulaklık\"");
    assert_eq!(
        pull_message("kulaklık", TechPull::Kept),
        "Hedef kelime getirildi: \"kulaklık\" · teknik tablo alanı zaten dolu olduğu için değiştirilmedi"
    );
    assert_eq!(pull_message("kulaklık", TechPull::Absent), "Hedef kelime getirildi: \"kulaklık\" · IdeaSoft'ta teknik tablo yok");
    assert_eq!(pull_message("", TechPull::Written), "Teknik tablo getirildi · IdeaSoft'ta hedef kelime tanımlı değil");
    assert_eq!(pull_message("", TechPull::Kept), "Teknik tablo alanı zaten dolu · IdeaSoft'ta hedef kelime tanımlı değil");
    assert_eq!(pull_message("", TechPull::Absent), "IdeaSoft'ta getirilecek bilgi bulunamadı");
}

fn versions_pushed(n: u32) -> Vec<String> {
    let mut h: Vec<String> = Vec::new();
    for i in 1..=n {
        h = push_version(h, format!("v{i}"));
    }
    h
}

#[test]
fn commands_push_history_keeps_newest_first_and_caps() {
    let h = versions_pushed(7);
    assert_eq!(h.len(), HISTORY_MAX);
    assert_eq!(h[0], "v7");
    assert_eq!(h[HISTORY_MAX - 1], "v3");
}

#[test]
fn mod_push_history_keeps_newest_first_and_caps() {
    let h = versions_pushed(7);
    assert_eq!(h.len(), HISTORY_MAX);
    assert_eq!(h[0], "v7");
    assert_eq!(h[HISTORY_MAX - 1], "v3");
}

#[test]
fn gallery_keeps_present_non_blank_addresses() {
    let urls = vec![Some("a.jpg".to_string()), None, Some("  ".to_string()), Some("d.jpg".to_string())];
    assert_eq!(seo_yonetici::products::gallery(&urls), vec!["a.jpg".to_string(), "d.jpg".to_string()]);
}
