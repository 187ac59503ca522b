use seo_yonetici::opportunities::{analysis_check, first_words, norm_url, split_by_visibility};

#[test]
fn urls_compare_without_harmless_differences() {
    assert_eq!(norm_url("  https://X.com/Urun/A/// "), "https://x.com/urun/a");
    assert_eq!(norm_url("/"), "");
}

#[test]
fn seed_keyword_is_first_words() {
    assert_eq!(first_words("Lenovo  ThinkPad E16 Gen 2", 3), "Lenovo ThinkPad E16");
    assert_eq!(first_words("Tek", 3), "Tek");
    assert_eq!(first_words("   ", 2), "");
}

#[test]
fn products_without_pages_are_invisible() {
    let products = vec![
        ("A".to_string(), "Ürün A".to_string(), "https://x.com/a/".to_string()),
        ("B".to_string(), "Ürün B".to_string(), "https://x.com/b".to_string()),
    ];
    let pages = vec!["https://X.com/A".to_string()];
    let (matched, invisible) = split_by_visibility(&products, &pages);
    assert_eq!(matched, vec![0]);
    assert_eq!(invisible.len(), 1);
    assert_eq!(invisible[0].sku, "B");
    assert_eq!(invisible[0].url, "https://x.com/b");
}

#[test]
fn analysis_needs_connection_and_products() {
    assert!(analysis_check(" ", "site", 3).unwrap_err().contains("Search Console"));
    assert_eq!(analysis_check("{}", "site", 0), Err("Önce ürünleri senkronize edin.".to_string()));
    assert_eq!(analysis_check("{}", "site", 1), Ok(()));
}
