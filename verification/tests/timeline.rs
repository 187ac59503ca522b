use seo_yonetici::metrics::{kind_label, outcome_marks, timeline_item};
use seo_yonetici::queue::{is_listed, ref_from, ref_key, ItemRef};

#[test]
fn event_kinds_have_readable_names() {
    assert_eq!(kind_label("ideasoft_push"), "IdeaSoft'a gönderildi");
    assert_eq!(kind_label("feed_ack"), "Feed değişikliği onaylandı");
    assert_eq!(kind_label("bilinmeyen"), "İşlem");
}

#[test]
fn only_newest_store_event_shows_outcome() {
    let evs = vec![(9, false), (8, true), (7, true), (6, false)];
    let (has, marks) = outcome_marks(&evs);
    assert!(has);
    assert_eq!(marks, vec![false, true, false, false]);
    let (has, marks) = outcome_marks(&[(1, false)]);
    assert!(!has);
    assert_eq!(marks, vec![false]);
}

#[test]
fn timeline_item_carries_label_and_outcome() {
    let it = timeline_item("2026-01-01".into(), "meta_done".into(), None);
    assert_eq!(it.label, "Meta tamamlandı");
    assert!(it.outcome_label.is_none());
    let it = timeline_item(
        "2026-01-02".into(),
        "ideasoft_push".into(),
        Some(("İyileşti".into(), "good".into(), "ipucu".into())),
    );
    assert_eq!(it.outcome_tone.as_deref(), Some("good"));
}

#[test]
fn stored_pair_round_trips() {
    for r in [ItemRef::Product("A".into()), ItemRef::Page("q:x".into()), ItemRef::Contact("7".into())] {
        let (k, v) = ref_key(&r);
        assert_eq!(ref_from(k, v), r);
    }
    assert_eq!(ref_from("garip", "Z".into()), ItemRef::Product("Z".into()));
}

#[test]
fn listed_pairs_match_kind_and_reference() {
    let pairs = vec![("product".to_string(), "A".to_string()), ("page".to_string(), "B".to_string())];
    assert!(is_listed(&pairs, "page", "B"));
    assert!(!is_listed(&pairs, "product", "B"));
}
