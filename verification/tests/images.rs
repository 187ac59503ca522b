use seo_yonetici::images::{check_from_dims, evaluate, MIN_DIM};

#[test]
fn evaluate_rules() {
    assert_eq!(evaluate(1000, 1000), (true, true, true));
    assert_eq!(evaluate(1080, 1080), (true, true, true));
    assert_eq!(evaluate(800, 800), (true, false, false));
    assert_eq!(evaluate(1200, 800), (false, false, false));
    assert_eq!(evaluate(0, 0), (false, false, false));
}

#[test]
fn evaluate_square_tolerance() {
    assert!(evaluate(1015, 1000).0);
    assert!(!evaluate(1050, 1000).0);
}

#[test]
fn min_dim_is_inclusive() {
    assert_eq!(MIN_DIM, 1000);
    assert_eq!(evaluate(999, 1000), (true, false, false));
    assert_eq!(evaluate(1000, 1019), (true, true, true));
}

#[test]
fn failed_read_becomes_failed_check() {
    let c = check_from_dims("https://cdn/a.jpg", Err("Görsel indirilemedi".to_string()));
    assert_eq!(c.url, "https://cdn/a.jpg");
    assert_eq!((c.width, c.height, c.is_square, c.meets_min, c.ok), (0, 0, false, false, false));
    assert_eq!(c.error.as_deref(), Some("Görsel indirilemedi"));
    let d = check_from_dims("https://cdn/b.jpg", Ok((1200, 1200)));
    assert!(d.ok && d.error.is_none());
}
