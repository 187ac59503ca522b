use seo_yonetici::decisions::{csv, validate};

#[test]
fn csv_alani_virgul_ve_tirnagi_kaciriyor() {
    assert_eq!(csv("basit"), "basit");
    assert_eq!(csv("a,b"), "\"a,b\"");
    assert_eq!(csv("14\" ekran"), "\"14\"\" ekran\"");
    assert_eq!(csv("iki\nsatir"), "\"iki\nsatir\"");
}

#[test]
fn hedefsiz_301_reddediliyor_keep_hedefi_temizliyor() {
    assert!(validate("redirect_301", None, None).is_err());
    assert!(validate("redirect_301", Some("   ".into()), None).is_err());
    assert!(validate("bilinmeyen", Some("x".into()), None).is_err());
    assert_eq!(
        validate("redirect_301", Some("yeni-urun".into()), Some("SKU1".into())).unwrap(),
        (Some("yeni-urun".to_string()), Some("SKU1".to_string()))
    );
    assert_eq!(
        validate("keep", Some("yanlislikla".into()), Some("SKU1".into())).unwrap(),
        (None, None)
    );
}

#[test]
fn validation_messages_are_exact() {
    assert_eq!(validate("sil", None, None).unwrap_err(), "Bilinmeyen karar türü: sil");
    assert_eq!(
        validate("canonical", Some(" ".into()), None).unwrap_err(),
        "Hedef seçilmeden karar kaydedilemez."
    );
    assert_eq!(csv("\r"), "\"\r\"");
    assert_eq!(csv(""), "");
}
