use seo_yonetici::validation::{
    grapheme_len, html_strip, keyword_density_terms, meta_badge, word_count, DensityTerms, MetaBadge,
    MetaInput,
};

fn badge(title: &str, desc: &str, kw: &str, done: bool) -> MetaBadge {
    meta_badge(&MetaInput { title, descriptions: desc, target_keyword: kw, meta_done: done })
}

const GOOD_DESC: &str =
    "Sony WH-1000XM5 kablosuz kulaklık ile üstün ses kalitesi, aktif gürültü engelleme ve uzun pil ömrü.";

#[test]
fn grapheme_counts_turkish_chars() {
    assert_eq!(grapheme_len("ığüşöçİĞÜŞÖÇ"), 12);
    assert_eq!(grapheme_len(""), 0);
    assert_eq!(grapheme_len("ığüşöç"), 6);
}

#[test]
fn badge_done_wins() {
    assert_eq!(badge("", "", "", true), MetaBadge::Tamamlandi);
}

#[test]
fn badge_empty_is_eksik() {
    assert_eq!(badge("", GOOD_DESC, "", false), MetaBadge::Eksik);
    assert_eq!(badge("Sony WH-1000XM5 Kablosuz Kulaklık", "  ", "", false), MetaBadge::Eksik);
}

#[test]
fn badge_length_rules() {
    assert_eq!(badge("Kısa başlık", GOOD_DESC, "", false), MetaBadge::Hatali);
    assert_eq!(badge("Sony WH-1000XM5 Kablosuz Kulaklık", GOOD_DESC, "", false), MetaBadge::Uygun);
}

#[test]
fn badge_keyword_case_insensitive() {
    assert_eq!(
        badge("Sony WH-1000XM5 Kablosuz Kulaklık", GOOD_DESC, "KABLOSUZ KULAKLIK", false),
        MetaBadge::Hatali,
    );
    assert_eq!(
        badge("Sony WH-1000XM5 Kablosuz Kulaklık", GOOD_DESC, "kablosuz kulaklık", false),
        MetaBadge::Uygun,
    );
}

#[test]
fn html_strip_and_word_count() {
    let html = "<section><h2>Başlık</h2><p>Bir iki üç &amp; dört</p></section>";
    assert_eq!(html_strip(html), "Başlık Bir iki üç & dört");
    assert_eq!(word_count(html), 6);
    assert_eq!(word_count(""), 0);
}

#[test]
fn density_counts_phrase() {
    let html = "<p>kablosuz kulaklık iyidir. Bu kablosuz kulaklık rahattır ve şıktır ve uygundur.</p>";
    let t = keyword_density_terms(html, "kablosuz kulaklık");
    let d = (t.occurrences * t.phrase_words) as f64 / t.total_words as f64 * 100.0;
    assert!((d - 36.36).abs() < 0.1, "beklenmedik yoğunluk: {d}");
    let e = keyword_density_terms(html, "");
    assert_eq!(e.occurrences * e.phrase_words, 0);
}

#[test]
fn density_terms_are_exact() {
    let html = "<p>kablosuz kulaklık iyidir. Bu kablosuz kulaklık rahattır ve şıktır ve uygundur.</p>";
    assert_eq!(
        keyword_density_terms(html, "  Kablosuz Kulaklık "),
        DensityTerms { occurrences: 2, phrase_words: 2, total_words: 11 }
    );
    assert_eq!(
        keyword_density_terms("", "x"),
        DensityTerms { occurrences: 0, phrase_words: 0, total_words: 0 }
    );
}

#[test]
fn html_strip_decodes_entities_and_collapses_space() {
    assert_eq!(html_strip("a&nbsp;b &lt;c&gt; &quot;d&quot;"), "a b <c> \"d\"");
    assert_eq!(html_strip("  <br/>x\n\t y  "), "x y");
    assert_eq!(html_strip("<a href='x'>link"), "link");
}

#[test]
fn badge_desc_too_long_is_faulty() {
    let long = "a".repeat(156);
    assert_eq!(badge("Sony WH-1000XM5 Kablosuz Kulaklık", &long, "", false), MetaBadge::Hatali);
    let ok = "a".repeat(155);
    assert_eq!(badge("Sony WH-1000XM5 Kablosuz Kulaklık", &ok, "", false), MetaBadge::Uygun);
}
