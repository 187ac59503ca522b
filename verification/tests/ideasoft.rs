use seo_yonetici::ideasoft::{
    base_url, build_payload, canonical_path, count_matched_eol, fill_detail_from_remote, live_product_match,
    local_content, map_status, pick_exact_sku, LocalContent, RemoteProduct, SearchHit, StoredContent,
};

fn local() -> LocalContent {
    LocalContent {
        page_title: "Başlık".into(),
        meta_description: "Açıklama".into(),
        meta_keywords: "a, b".into(),
        search_keywords: "c, d".into(),
        target_keyword: "hedef kelime".into(),
        details_html: "<section>açıklama</section>".into(),
        tech_html: "<table class=\"teknik-tablo\"></table>".into(),
    }
}

fn rows(urls: &[(&str, &str)]) -> Vec<(String, String)> {
    urls.iter().map(|(sku, url)| (format!("Ürün {sku}"), url.to_string())).collect()
}

#[test]
fn base_url_normalizes() {
    assert_eq!(base_url("3ekurumsal.myideasoft.com").unwrap(), "https://3ekurumsal.myideasoft.com");
    assert_eq!(base_url("https://x.com/").unwrap(), "https://x.com");
    assert_eq!(base_url("https://x.com/admin-api").unwrap(), "https://x.com");
    assert!(base_url("  ").is_err());
}

#[test]
fn payload_meta_only() {
    let p = build_payload(&["meta".into()], &local());
    assert_eq!(p.page_title.as_deref(), Some("Başlık"));
    assert_eq!(p.target_keyword.as_deref(), Some("hedef kelime"));
    assert!(p.detail.is_none());
}

#[test]
fn payload_details_and_tech_merge_into_one_detail() {
    let p = build_payload(&["details".into(), "tech".into()], &local());
    let d = p.detail.as_ref().unwrap();
    assert!(d.details.is_some());
    assert!(d.extra_details.is_some());
    assert!(p.page_title.is_none());
}

#[test]
fn payload_omits_empty_fields() {
    let mut l = local();
    l.meta_keywords = "  ".into();
    l.tech_html = "".into();
    let p = build_payload(&["meta".into(), "tech".into()], &l);
    assert!(p.meta_keywords.is_none());
    assert!(p.detail.is_none());
}

#[test]
fn payload_keyword_only_sends_target_keyword() {
    let p = build_payload(&["keyword".into()], &local());
    assert_eq!(p.target_keyword.as_deref(), Some("hedef kelime"));
    assert!(p.page_title.is_none());
    assert!(p.meta_description.is_none());
    assert!(p.meta_keywords.is_none());
    assert!(p.search_keywords.is_none());
    assert!(p.detail.is_none());
}

#[test]
fn payload_empty_when_nothing_selected() {
    let p = build_payload(&[], &local());
    assert!(p.is_empty());
}

#[test]
fn pick_exact_sku_ignores_partial_matches() {
    let arr = vec![
        SearchHit { sku: "ABC-123-XL".into(), id: Some(1), seo_rule_count: None },
        SearchHit { sku: "ABC-123".into(), id: Some(2), seo_rule_count: Some(13) },
    ];
    assert_eq!(pick_exact_sku(&arr, "ABC-123").unwrap().id, 2);
    assert_eq!(pick_exact_sku(&arr, "abc-123").unwrap().id, 2);
    assert_eq!(pick_exact_sku(&arr, "ABC-123").unwrap().seo_rule_count, Some(13));
    assert!(pick_exact_sku(&arr, "YOK").is_none());
}

#[test]
fn fill_detail_keeps_untouched_side() {
    let remote = RemoteProduct {
        details: "<p>mevcut açıklama</p>".into(),
        extra_details: "<table>mevcut tablo</table>".into(),
        ..Default::default()
    };
    let mut p = build_payload(&["tech".into()], &local());
    fill_detail_from_remote(&mut p, &remote);
    let d = p.detail.as_ref().unwrap();
    assert_eq!(d.details.as_deref(), Some("<p>mevcut açıklama</p>"));
    assert!(d.extra_details.as_deref().unwrap().contains("teknik-tablo"));
    let mut only_meta = build_payload(&["meta".into()], &local());
    fill_detail_from_remote(&mut only_meta, &remote);
    assert!(only_meta.detail.is_none());
}

#[test]
fn status_messages_are_actionable() {
    assert!(map_status(401, "").contains("süresi dolmuş"));
    assert!(map_status(404, "").contains("bulunamadı"));
    assert!(map_status(429, "").contains("hız sınırı"));
}

#[test]
fn hedef_yalnizca_satistaki_urun_olabilir() {
    let r = rows(&[
        ("A1", "https://magaza.com/urun/satistaki-urun"),
        ("A2", "https://magaza.com/urun/ikinci-urun/"),
    ]);
    assert_eq!(live_product_match(&r, "satistaki-urun").as_deref(), Some("Ürün A1"));
    assert_eq!(live_product_match(&r, "/İKİNCİ-URUN/".to_lowercase().as_str()).as_deref(), None);
    assert_eq!(live_product_match(&r, "ikinci-urun").as_deref(), Some("Ürün A2"));
    assert_eq!(live_product_match(&r, "asus-zenbook-17-fold"), None);
    assert_eq!(live_product_match(&r, ""), None);
}

#[test]
fn alt_cizgi_joker_gibi_davranmamali() {
    let r = rows(&[("B1", "https://magaza.com/urun/abc-x-def")]);
    assert_eq!(live_product_match(&r, "abc_x_def"), None);
    assert_eq!(live_product_match(&r, "abc-x-def").as_deref(), Some("Ürün B1"));
}

#[test]
fn canonical_value_is_lower_case_product_path() {
    assert_eq!(canonical_path(" /Yeni-Urun/ "), "urun/yeni-urun");
}

#[test]
fn local_content_prefers_drafts_and_never_leaves_keywords_empty() {
    let c = StoredContent {
        title: Some("Feed başlık".into()),
        descriptions: Some("Feed açıklama".into()),
        keywords: None,
        search_keywords: Some("feed arama".into()),
        details: Some("<p>feed</p>".into()),
        draft_title: Some("Taslak başlık".into()),
        draft_descriptions: None,
        draft_keywords: None,
        draft_search_keywords: Some("taslak arama".into()),
        draft_details: None,
        target_keyword: None,
    };
    let l = local_content(&c, String::new());
    assert_eq!(l.page_title, "Taslak başlık");
    assert_eq!(l.meta_description, "Feed açıklama");
    assert_eq!(l.meta_keywords, "taslak arama");
    assert_eq!(l.search_keywords, "taslak arama");
    assert_eq!(l.target_keyword, "");
    assert_eq!(l.details_html, "<p>feed</p>");
}

#[test]
fn catalog_match_ignores_case_of_listed_slug() {
    let eol = vec!["Eski-Urun".to_string(), "yok".to_string(), "ikinci".to_string()];
    let cat = vec!["eski-urun".to_string(), "ikinci".to_string()];
    assert_eq!(count_matched_eol(&eol, &cat), 2);
}
