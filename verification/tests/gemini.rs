use seo_yonetici::blocks::extract_blocks;
use seo_yonetici::gemini::{
    assemble_optimized, assemble_scratch, class_for, extract_img_srcs, extract_segments,
    sanitize_inline, violation_count, Block, GeneratedMeta,
};
use seo_yonetici::generation::{clamp_to, splice};
use seo_yonetici::validation::grapheme_len;

const SAMPLE_DETAILS: &str = r#"<section class="yeni-aciklama center"><section class="container"><section class="row align-items-center"><section class="col-md-4"><img loading="lazy" class="img-big-size" alt="image" src="https://cdn.example/a.jpg" /></section><section class="col-md-8 text-center"><h2>Güçlü Performans</h2><p class="des-new-boyut">Bu ürün üstün performans sunar.</p></section></section></section></section><section class="yeni-aciklama left"><section class="col-md-4"><img src="https://cdn.example/b.jpg" /></section><h2>Net Ekran</h2><p>27 inç ekranı ile net görüntü.</p></section>"#;

const REAL_DETAILS: &str = r#"<section class="yeni-aciklama center"><section class="container"><section class="row align-items-center"><section class="col-md-4"><img loading="lazy" class="img-big-size imgRadius" alt="image" src="https://cdn/a.jpg" /></section><section class="col-md-8 text-center"><h2>Güçlü Performans</h2><p class="des-new-boyut">Eski metin bir.</p></section></section></section></section><section class="yeni-aciklama left"><section class="container"><section class="row align-items-center"><section class="col-md-4"><img src="https://cdn/b.jpg" /></section><section class="col-md-8 text-center"><h2>Net Ekran</h2><p>Eski metin iki.</p></section></section></section></section>"#;

#[test]
fn clamp_trims_long_at_word_boundary() {
    let long = "Lenovo ThinkCentre Neo 50a ile iş yükünüzü hafifletin ve verimliliğinizi artırın. \
                27 inç ekranı ve güçlü i7 işlemcisiyle hem şık hem de son derece performanslı bir masaüstü deneyimi yaşayın bugün.";
    let out = clamp_to(long, 155);
    assert!(grapheme_len(&out) <= 155, "kırpılmadı: {}", grapheme_len(&out));
    assert!(!out.ends_with(' '));
    assert_eq!(clamp_to("kısa metin", 155), "kısa metin");
}

#[test]
fn violation_count_flags_length_and_keyword() {
    let bad = GeneratedMeta {
        target_keyword: "kulaklık".into(),
        title: "Kısa".into(),
        descriptions: "Çok kısa açıklama".into(),
        keywords: "".into(),
        search_keywords: "".into(),
    };
    assert_eq!(violation_count(&bad), 4);
}

#[test]
fn extract_segments_finds_h2_and_p_in_order() {
    let segs = extract_segments(SAMPLE_DETAILS);
    assert_eq!(segs.len(), 4);
    let texts: Vec<&str> = segs.iter().map(|(s, e)| &SAMPLE_DETAILS[*s..*e]).collect();
    assert_eq!(texts[0], "Güçlü Performans");
    assert_eq!(texts[1], "Bu ürün üstün performans sunar.");
    assert_eq!(texts[2], "Net Ekran");
    assert_eq!(texts[3], "27 inç ekranı ile net görüntü.");
}

#[test]
fn extract_img_srcs_collects_all() {
    let imgs = extract_img_srcs(SAMPLE_DETAILS);
    assert_eq!(imgs, vec!["https://cdn.example/a.jpg", "https://cdn.example/b.jpg"]);
}

#[test]
fn splice_preserves_structure_and_imgs() {
    let segs = extract_segments(SAMPLE_DETAILS);
    let reps: Vec<String> = vec![
        "Yeni Başlık".into(),
        "Yeni <strong>hedef</strong> paragraf.".into(),
        "İkinci Başlık".into(),
        "İkinci yeni paragraf metni.".into(),
    ];
    let out = splice(SAMPLE_DETAILS, &segs, &reps);
    assert!(out.contains("Yeni Başlık"));
    assert!(out.contains("Yeni <strong>hedef</strong> paragraf."));
    assert!(!out.contains("Güçlü Performans"));
    assert!(out.contains(r#"<section class="col-md-8 text-center">"#));
    assert_eq!(extract_img_srcs(&out), extract_img_srcs(SAMPLE_DETAILS));
    assert_eq!(out.matches("<h2>").count(), 2);
    assert_eq!(out.matches("<img").count(), 2);
}

#[test]
fn splice_ignores_unpaired_segments() {
    let segs = extract_segments(SAMPLE_DETAILS);
    let reps: Vec<String> = vec!["Tek Başlık".into()];
    let out = splice(SAMPLE_DETAILS, &segs, &reps);
    assert!(out.contains("<h2>Tek Başlık</h2>"));
    assert!(out.contains("Bu ürün üstün performans sunar."));
    assert!(out.contains("Net Ekran"));
}

#[test]
fn assemble_scratch_is_semantic() {
    let sections = vec![
        ("Güçlü Performans".to_string(), "Bu ürün <strong>hızlı</strong> çalışır.".to_string()),
        ("Şık Tasarım".to_string(), "Zarif görünüm.".to_string()),
        ("Uzun Ömür".to_string(), "Dayanıklı yapı.".to_string()),
    ];
    let imgs = vec![
        "https://cdn/1.png".to_string(),
        "https://cdn/2.png".to_string(),
        "https://cdn/3.png".to_string(),
    ];
    let html = assemble_scratch("Lenovo Neo 50a", &sections, &imgs);
    assert_eq!(html.matches("<section").count(), 3);
    assert!(html.contains(r#"<div class="container">"#));
    assert!(html.contains(r#"<div class="col-md-4">"#));
    assert!(!html.contains("<section class=\"container\""));
    assert!(!html.contains("<section class=\"col-md-4\""));
    assert!(html.contains("https://cdn/1.png"));
    assert!(html.contains("https://cdn/3.png"));
    assert!(html.contains(r#"alt="Lenovo Neo 50a — Güçlü Performans""#));
    assert!(html.contains("<h2>Güçlü Performans</h2>"));
    assert!(html.contains("<strong>hızlı</strong>"));
    assert!(html.contains("yeni-aciklama center"));
    assert!(html.contains("yeni-aciklama left"));
    assert!(html.contains("yeni-aciklama right"));
}

#[test]
fn class_cycle_is_center_then_alternating() {
    assert_eq!(class_for(0), "center");
    assert_eq!(class_for(1), "left");
    assert_eq!(class_for(2), "right");
    assert_eq!(class_for(3), "left");
    assert_eq!(class_for(4), "right");
}

#[test]
fn extract_blocks_reads_real_structure() {
    let blocks = extract_blocks(REAL_DETAILS).expect("bloklar çıkarılmalı");
    assert_eq!(blocks.len(), 2);
    assert_eq!(blocks[0].h2, "Güçlü Performans");
    assert_eq!(blocks[0].p, "Eski metin bir.");
    assert_eq!(blocks[0].images, vec!["https://cdn/a.jpg"]);
    assert!(blocks[0].special_class.is_none());
    assert_eq!(blocks[1].images, vec!["https://cdn/b.jpg"]);
}

#[test]
fn extract_blocks_rejects_irregular() {
    let bad = r#"<section class="yeni-aciklama center"><section class="col-md-12"><h2>A</h2><h2>B</h2><p>x</p></section></section>"#;
    assert!(extract_blocks(bad).is_none());
    assert!(extract_blocks("<p>düz metin</p>").is_none());
}

#[test]
fn extract_blocks_keeps_special_class_and_joins_paragraphs() {
    let html = r#"  <SECTION class="yeni-aciklama pre-order center"><h2> Ön Sipariş </h2><p>Bir.</p><p>İki.</p></SECTION>
"#;
    let blocks = extract_blocks(html).expect("tek blok");
    assert_eq!(blocks.len(), 1);
    assert_eq!(blocks[0].special_class.as_deref(), Some("pre-order"));
    assert_eq!(blocks[0].h2, "Ön Sipariş");
    assert_eq!(blocks[0].p, "Bir. İki.");
    assert!(blocks[0].images.is_empty());
}

#[test]
fn extract_blocks_rejects_broken_nesting() {
    assert!(extract_blocks(r#"<section class="yeni-aciklama"><h2>A</h2><p>b</p>"#).is_none());
    assert!(extract_blocks(r#"</section><section class="yeni-aciklama"><h2>A</h2><p>b</p></section>"#).is_none());
    assert!(extract_blocks(r#"<section class="baska"><h2>A</h2><p>b</p></section>"#).is_none());
}

#[test]
fn optimize_assembly_is_semantic_and_keeps_images() {
    let blocks = extract_blocks(REAL_DETAILS).unwrap();
    let texts = vec![
        ("Üstün Performans".to_string(), "Yeni optimize metin bir.".to_string()),
        ("Berrak Ekran".to_string(), "Yeni optimize metin iki.".to_string()),
    ];
    let out = assemble_optimized("Lenovo Neo 50a", &blocks, &texts);
    assert_eq!(out.matches("<section").count(), 2);
    assert!(out.contains(r#"<div class="container">"#));
    assert!(!out.contains(r#"<section class="container""#));
    assert!(!out.contains(r#"<section class="col-md-4""#));
    assert_eq!(extract_img_srcs(&out), extract_img_srcs(REAL_DETAILS));
    assert!(!out.contains(r#"alt="image""#));
    assert!(out.contains(r#"alt="Lenovo Neo 50a — Üstün Performans""#));
    assert!(out.contains("Yeni optimize metin bir."));
    assert!(!out.contains("Eski metin bir."));
    assert!(out.contains("yeni-aciklama center"));
    assert!(out.contains("yeni-aciklama left"));
}

#[test]
fn assemble_optimized_preserves_special_class_and_textonly() {
    let blocks = vec![Block {
        special_class: Some("pre-order".to_string()),
        images: vec![],
        h2: "Ön Sipariş".to_string(),
        p: "Bilgi".to_string(),
    }];
    let texts = vec![("Ön Sipariş".to_string(), "Yeni bilgi".to_string())];
    let out = assemble_optimized("Ürün", &blocks, &texts);
    assert!(out.contains("yeni-aciklama pre-order"));
    assert!(out.contains(r#"<div class="col-md-12 text-center">"#));
    assert!(!out.contains("<img"));
}

#[test]
fn sanitize_inline_strips_disallowed_tags() {
    let dirty = "İyi <strong>hedef</strong> <script>alert(1)</script> \
                 <img src='x'> ürün <em>güzel</em> <p>yeni</p>";
    let clean = sanitize_inline(dirty);
    assert!(clean.contains("<strong>hedef</strong>"));
    assert!(clean.contains("<em>güzel</em>"));
    assert!(!clean.contains("<script"));
    assert!(!clean.contains("<img"));
    assert!(!clean.contains("<p>"));
    assert!(clean.contains("ürün"));
}

#[test]
fn splice_length_is_text_less_segments_plus_replacements() {
    let segs = extract_segments(SAMPLE_DETAILS);
    let reps: Vec<String> = segs.iter().enumerate().map(|(i, _)| format!("yeni {i} ğ")).collect();
    let out = splice(SAMPLE_DETAILS, &segs, &reps);
    let removed: usize = segs.iter().map(|(a, b)| b - a).sum();
    let added: usize = reps.iter().map(|r| r.len()).sum();
    assert_eq!(out.len(), SAMPLE_DETAILS.len() - removed + added);
}
