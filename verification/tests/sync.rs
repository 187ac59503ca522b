use seo_yonetici::sync::{plan_sync, summary_of};

fn skus(v: &[&str]) -> Vec<Option<String>> {
    v.iter().map(|s| Some(s.to_string())).collect()
}

fn stored(v: &[&str]) -> Vec<String> {
    v.iter().map(|s| s.to_string()).collect()
}

#[test]
fn first_sync_inserts_all() {
    let p = plan_sync(&skus(&["A", "B"]), &[]);
    assert_eq!(p.added + p.updated, 2);
    let s = summary_of(&p, "2026-01-01T00:00:00".into(), 2);
    assert_eq!((s.added, s.updated, s.deleted, s.duplicate_skipped, s.active), (2, 0, 0, 0, 2));
    assert_eq!(s.run_at, "2026-01-01T00:00:00");
    assert!(p.steps.iter().all(|st| st.insert));
}

#[test]
fn second_sync_updates_and_preserves_seo_status() {
    let p = plan_sync(&skus(&["A", "B"]), &stored(&["A", "B"]));
    assert_eq!((p.added, p.updated, p.delete.len()), (0, 2, 0));
    assert!(p.steps.iter().all(|st| !st.insert));
}

#[test]
fn dropped_product_is_deleted_with_cascade() {
    let p = plan_sync(&skus(&["A"]), &stored(&["A", "B"]));
    assert_eq!(p.delete, vec!["B".to_string()]);
    assert_eq!((p.added, p.updated), (0, 1));
    assert_eq!(summary_of(&p, String::new(), 1).deleted, 1);
}

#[test]
fn duplicate_sku_keeps_first_and_counts() {
    let p = plan_sync(&skus(&["A", "A", "B"]), &[]);
    assert_eq!((p.added, p.duplicate_skipped), (2, 1));
    assert_eq!(p.steps[0].index, 0);
    assert_eq!(p.steps[0].sku, "A");
    assert_eq!(p.steps[1].index, 2);
}

#[test]
fn entries_without_sku_are_skipped() {
    let feed = vec![None, Some(String::new()), Some("C".to_string())];
    let p = plan_sync(&feed, &stored(&["X"]));
    assert_eq!(p.steps.len(), 1);
    assert_eq!(p.steps[0].index, 2);
    assert_eq!((p.added, p.updated, p.duplicate_skipped), (1, 0, 0));
    assert_eq!(p.delete, vec!["X".to_string()]);
}

#[test]
fn syncing_again_only_updates() {
    let feed = skus(&["A", "B", "A"]);
    let first = plan_sync(&feed, &stored(&["Z"]));
    assert_eq!((first.added, first.updated, first.duplicate_skipped), (2, 0, 1));
    let now: Vec<String> = first.steps.iter().map(|s| s.sku.clone()).collect();
    let again = plan_sync(&feed, &now);
    assert_eq!((again.added, again.updated, again.delete.len()), (0, 2, 0));
}
