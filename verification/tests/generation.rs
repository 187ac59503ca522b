use seo_yonetici::blocks::extract_blocks;
use seo_yonetici::gemini::{extract_segments, GeneratedMeta};
use seo_yonetici::generation::{
    after_model_failure, api_key_of, build_prompt, clamp_lengths, correction_for, details_prompt_for,
    exact_texts, finish_details, finish_meta, finish_optimized, finish_scratch, key_check,
    key_test_result, model_at, model_error, more_sections, retry_prompt_for, scratch_check,
    scratch_prompt_for, ProductContext,
};

const SAMPLE: &str = r#"<section class="yeni-aciklama center"><img src="https://cdn/a.jpg" /><h2>Eski Başlık</h2><p>Eski <b>paragraf</b>.</p></section>"#;

fn ctx<'a>() -> ProductContext<'a> {
    ProductContext {
        name: "Sony WH-1000XM5",
        brand: Some("Sony"),
        category: None,
        main_category: Some("Ses"),
        target_keyword: Some("  kablosuz kulaklık "),
        insights: None,
    }
}

fn meta(title: &str, desc: &str, kw: &str) -> GeneratedMeta {
    GeneratedMeta {
        target_keyword: kw.into(),
        title: title.into(),
        descriptions: desc.into(),
        keywords: "k".into(),
        search_keywords: "s".into(),
    }
}

#[test]
fn model_chain_is_in_order() {
    assert_eq!(model_at(0), Some("gemini-2.0-flash"));
    assert_eq!(model_at(2), Some("gemini-1.5-flash"));
    assert_eq!(model_at(3), None);
}

#[test]
fn quota_failures_move_on_others_stop() {
    assert_eq!(after_model_failure(1, true, "kota".into(), "Tüm: "), Ok(1));
    assert_eq!(after_model_failure(1, false, "anahtar".into(), "Tüm: "), Err("anahtar".into()));
    assert_eq!(after_model_failure(3, true, "kota".into(), "Tüm: "), Err("Tüm: kota".into()));
}

#[test]
fn model_errors_are_readable() {
    assert_eq!(model_error("m", 429, "x"), (true, "m kotası/limiti doldu (HTTP 429).".to_string()));
    assert_eq!(model_error("m", 400, "API_KEY_INVALID"), (false, "Gemini API anahtarı geçersiz.".to_string()));
    assert_eq!(model_error("m", 500, "  iç hata "), (false, "Gemini hatası (HTTP 500): iç hata".to_string()));
}

#[test]
fn api_key_is_trimmed_and_required() {
    assert_eq!(api_key_of("  abc "), Ok("abc".to_string()));
    assert!(api_key_of("   ").unwrap_err().contains("ayarlı değil"));
    assert_eq!(key_check("kısa"), Err("Anahtar çok kısa görünüyor.".to_string()));
    assert!(key_check("  0123456789abcdefghij  ").is_ok());
    assert!(key_test_result(true, 200).is_ok());
    assert_eq!(key_test_result(false, 403), Err("Anahtar reddedildi · geçersiz veya yetkisiz.".to_string()));
    assert_eq!(key_test_result(false, 500), Err("Beklenmeyen yanıt: HTTP 500".to_string()));
}

#[test]
fn meta_prompt_lists_facts_keyword_and_correction() {
    let p = build_prompt(&ctx(), Some("title çok kısa."));
    assert!(p.starts_with("Ürün adı: Sony WH-1000XM5\nMarka: Sony\nKategori: -\nÜst kategori: Ses\n"));
    assert!(p.contains("\nOnaylı HEDEF KELIME: kablosuz kulaklık\n"));
    assert!(p.ends_with("\nÖNEMLİ DÜZELTME: title çok kısa. Kuralları bu kez kesinlikle sağla."));
    let mut c = ctx();
    c.target_keyword = Some("   ");
    assert!(!build_prompt(&c, None).contains("HEDEF KELIME"));
}

#[test]
fn correction_names_each_broken_rule() {
    let bad = meta("Kısa", "Çok kısa açıklama", "kulaklık");
    let c = correction_for(&bad).unwrap();
    assert_eq!(
        c,
        "title 4 karakter, çok kısa; 20-60 arasına uzat. descriptions 17 karakter, çok kısa; 50-155 arasına uzat. title hedef kelimeyi içermeli. descriptions hedef kelimeyi içermeli."
    );
    let good = meta(
        "Sony Kablosuz Kulaklık WH-1000XM5",
        "Sony WH-1000XM5 kablosuz kulaklık ile gürültü engelleme ve uzun pil ömrü bir arada.",
        "kablosuz kulaklık",
    );
    assert_eq!(correction_for(&good), None);
}

#[test]
fn better_retry_is_kept_and_clamped() {
    let first = meta("Kısa", "Kısa", "");
    let retry = meta(
        "  Sony Kablosuz Kulaklık WH-1000XM5  ",
        "Sony WH-1000XM5 kablosuz kulaklık ile gürültü engelleme ve uzun pil ömrü bir arada.",
        "",
    );
    let m = finish_meta(first.clone(), Some(retry));
    assert_eq!(m.title, "Sony Kablosuz Kulaklık WH-1000XM5");
    let m = finish_meta(first.clone(), None);
    assert_eq!(m.title, "Kısa");
    let c = clamp_lengths(meta(&"a ".repeat(40), "d", ""));
    assert!(c.title.chars().count() <= 60);
    assert!(!c.title.ends_with(' '));
}

#[test]
fn rewrite_replaces_only_texts() {
    let segs = extract_segments(SAMPLE);
    let arr = vec!["Yeni <script>x</script>Başlık".to_string(), "   ".to_string()];
    let out = finish_details(SAMPLE, &segs, &arr);
    assert!(out.contains("<h2>Yeni xBaşlık</h2>"));
    assert!(out.contains("<p>Eski <b>paragraf</b>.</p>"));
    assert!(out.contains("https://cdn/a.jpg"));
    let p = details_prompt_for(&ctx(), SAMPLE, &segs, "kulaklık");
    assert!(p.contains("\nHedef kelime: kulaklık\n\nParçalar (sırayla): ["));
    assert!(p.contains("\"tag\":\"h2\""));
    assert!(p.contains("\"text\":\"Eski paragraf .\""));
}

#[test]
fn rewrite_that_loses_an_image_keeps_the_original() {
    let segs = extract_segments(SAMPLE);
    let arr = vec!["Başlık".to_string(), "<img src=\"https://evil/x.jpg\">".to_string()];
    let out = finish_details(SAMPLE, &segs, &arr);
    assert!(!out.contains("evil"));
}

#[test]
fn scratch_needs_images_and_sections() {
    assert!(scratch_check("anahtar", &[]).unwrap_err().contains("görseli gerekli"));
    assert_eq!(scratch_check(" anahtar ", &["x".to_string()]), Ok("anahtar".to_string()));
    assert_eq!(finish_scratch("Ürün", &[], &[]), Err("Model boş içerik döndürdü.".to_string()));
    let s = vec![("H".to_string(), "P".to_string())];
    assert!(finish_scratch("Ürün", &s, &["https://cdn/1.png".to_string()]).unwrap().contains("<h2>H</h2>"));
    let first = vec![("a".to_string(), "b".to_string())];
    let more = vec![("a".to_string(), "b".to_string()), ("c".to_string(), "d".to_string())];
    assert_eq!(more_sections(first.clone(), Some(more.clone())).len(), 2);
    assert_eq!(more_sections(more.clone(), Some(first.clone())).len(), 2);
    assert_eq!(exact_texts(first.clone(), Some(more.clone()), 1).len(), 1);
    assert_eq!(exact_texts(first.clone(), Some(more), 2).len(), 2);
}

#[test]
fn prompts_state_counts() {
    let s = scratch_prompt_for(&ctx(), "kw", 3);
    assert!(s.ends_with("\n\nİstenen bölüm sayısı: 3 (her bölüm bir ürün görseline eşlik edecek)."));
    assert_eq!(retry_prompt_for("P", 4, true), "P\n\nÖNEMLİ: Tam olarak 4 parça döndür, ne eksik ne fazla.");
    assert_eq!(retry_prompt_for("P", 2, false), "P\n\nÖNEMLİ: Tam olarak 2 bölüm döndür.");
}

#[test]
fn optimisation_keeps_images_or_gives_up() {
    let html = r#"<section class="yeni-aciklama center"><img src="https://cdn/a.jpg" /><h2>A</h2><p>B</p></section>"#;
    let blocks = extract_blocks(html).unwrap();
    let texts = vec![("Yeni A".to_string(), "Yeni B".to_string())];
    let out = finish_optimized("Ürün", &blocks, &texts, html).unwrap();
    assert!(out.contains("Yeni B"));
    assert!(finish_optimized("Ürün", &blocks, &texts, "<img src=\"https://cdn/z.jpg\">").is_none());
}
