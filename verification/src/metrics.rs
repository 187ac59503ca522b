//! The measurement side of the product timeline: event names, which event carries the
//! outcome badge, and the records the screens show.

use vstd::prelude::*;
use crate::text::{chars_of, str_eq, string_of};

verus! {

/// The outcome column of the opportunities table: the label and tone of a product's
/// latest store-reaching change, with the tooltip text.
#[derive(Debug, Clone)]
pub struct OutcomeBadge {
    pub sku: String,
    pub label: String,
    pub tone: String,
    pub tip: String,
}

/// One row of a product's timeline; the outcome fields are filled only on the event that
/// carries the outcome.
#[derive(Debug, Clone)]
pub struct TimelineItem {
    pub at: String,
    pub kind: String,
    pub label: String,
    pub outcome_label: Option<String>,
    pub outcome_tone: Option<String>,
    pub outcome_tip: Option<String>,
}

#[derive(Debug, Clone)]
pub struct ProductTimeline {
    pub items: Vec<TimelineItem>,
    /// Whether anything ever reached the store (the screen says so when nothing did).
    pub has_store_event: bool,
}

/// Outcome of seeding the metric history and back-filling push events.
#[derive(Debug, Clone)]
pub struct SeedResult {
    pub snapshots_added: i64,
    pub rows_written: i64,
    pub events_backfilled: i64,
    pub skipped_existing: i64,
}

/// The user-facing name of an event kind.
pub open spec fn kind_name(kind: Seq<char>) -> Seq<char> {
    if kind == "ideasoft_push"@ {
        "IdeaSoft'a gönderildi"@
    } else if kind == "canonical_set"@ {
        "Canonical yazıldı"@
    } else if kind == "meta_done"@ {
        "Meta tamamlandı"@
    } else if kind == "details_done"@ {
        "Açıklama tamamlandı"@
    } else if kind == "tech_done"@ {
        "Teknik tablo tamamlandı"@
    } else if kind == "feed_ack"@ {
        "Feed değişikliği onaylandı"@
    } else {
        "İşlem"@
    }
}

pub fn kind_label(kind: &str) -> (r: &'static str)
    ensures
        r@ == kind_name(kind@),
{
    if str_eq(kind, "ideasoft_push") {
        "IdeaSoft'a gönderildi"
    } else if str_eq(kind, "canonical_set") {
        "Canonical yazıldı"
    } else if str_eq(kind, "meta_done") {
        "Meta tamamlandı"
    } else if str_eq(kind, "details_done") {
        "Açıklama tamamlandı"
    } else if str_eq(kind, "tech_done") {
        "Teknik tablo tamamlandı"
    } else if str_eq(kind, "feed_ack") {
        "Feed değişikliği onaylandı"
    } else {
        "İşlem"
    }
}

/// The id of the newest store-reaching event (events come newest first).
pub open spec fn first_store(evs: Seq<(i64, bool)>) -> Option<i64>
    decreases evs.len(),
{
    if evs.len() == 0 {
        None
    } else if evs[0].1 {
        Some(evs[0].0)
    } else {
        first_store(evs.drop_first())
    }
}

/// Only the newest store-reaching event shows the outcome: an older push's effect is
/// overwritten by the newer one.
pub open spec fn shows_outcome(evs: Seq<(i64, bool)>, k: int) -> bool {
    evs[k].1 && first_store(evs) == Some(evs[k].0)
}

pub open spec fn any_store(evs: Seq<(i64, bool)>) -> bool {
    exists|k: int| 0 <= k < evs.len() && (#[trigger] evs[k]).1
}

proof fn lemma_first_store(evs: Seq<(i64, bool)>)
    ensures
        first_store(evs) is Some <==> any_store(evs),
        first_store(evs) matches Some(id) ==> exists|k: int|
            0 <= k < evs.len() && (#[trigger] evs[k]).1 && evs[k].0 == id && forall|j: int|
                0 <= j < k ==> !evs[j].1,
    decreases evs.len(),
{
    if evs.len() > 0 {
        let rest = evs.drop_first();
        lemma_first_store(rest);
        if evs[0].1 {
            assert(evs[0].1 && evs[0].0 == evs[0].0);
        } else {
            if any_store(evs) {
                let k = choose|k: int| 0 <= k < evs.len() && (#[trigger] evs[k]).1;
                assert(rest[k - 1] == evs[k]);
            }
            if any_store(rest) {
                let k = choose|k: int| 0 <= k < rest.len() && (#[trigger] rest[k]).1;
                assert(evs[k + 1] == rest[k]);
            }
            if first_store(rest) is Some {
                let id = first_store(rest)->0;
                let k = choose|k: int|
                    0 <= k < rest.len() && (#[trigger] rest[k]).1 && rest[k].0 == id && forall|j: int|
                        0 <= j < k ==> !rest[j].1;
                assert(evs[k + 1] == rest[k]);
                assert forall|j: int| 0 <= j < k + 1 implies !evs[j].1 by {
                    if j > 0 {
                        assert(evs[j] == rest[j - 1]);
                    }
                }
            }
        }
    }
}

fn first_store_exec(evs: &[(i64, bool)]) -> (r: Option<i64>)
    ensures
        r == first_store(evs@),
{
    proof {
        lemma_first_store(evs@);
    }
    let mut i: usize = 0;
    while i < evs.len()
        invariant
            i <= evs@.len(),
            forall|j: int| 0 <= j < i ==> !(#[trigger] evs@[j]).1,
        decreases evs@.len() - i,
    {
        if evs[i].1 {
            proof {
                lemma_first_store_at(evs@, i as int);
            }
            return Some(evs[i].0);
        }
        i = i + 1;
    }
    None
}

/// Which events carry the outcome, and whether any event reached the store.
pub fn outcome_marks(evs: &[(i64, bool)]) -> (r: (bool, Vec<bool>))
    ensures
        r.0 == any_store(evs@),
        r.1@.len() == evs@.len(),
        forall|k: int| 0 <= k < evs@.len() ==> r.1@[k] == shows_outcome(evs@, k),
{
    proof {
        lemma_first_store(evs@);
    }
    let newest = first_store_exec(evs);
    proof {
        if newest is None {
            assert(!any_store(evs@));
        }
    }
    let mut marks: Vec<bool> = Vec::new();
    let mut k: usize = 0;
    while k < evs.len()
        invariant
            k <= evs@.len(),
            newest is None <==> first_store(evs@) is None,
            newest matches Some(id) ==> first_store(evs@) == Some(id),
            marks@.len() == k,
            forall|t: int| 0 <= t < k ==> marks@[t] == shows_outcome(evs@, t),
        decreases evs@.len() - k,
    {
        let m = match newest {
            Some(id) => evs[k].1 && evs[k].0 == id,
            None => false,
        };
        marks.push(m);
        k = k + 1;
    }
    (newest.is_some(), marks)
}

proof fn lemma_first_store_at(evs: Seq<(i64, bool)>, i: int)
    requires
        0 <= i < evs.len(),
        evs[i].1,
        forall|j: int| 0 <= j < i ==> !(#[trigger] evs[j]).1,
    ensures
        first_store(evs) == Some(evs[i].0),
    decreases i,
{
    if i > 0 {
        let rest = evs.drop_first();
        assert forall|j: int| 0 <= j < i - 1 implies !(#[trigger] rest[j]).1 by {
            assert(rest[j] == evs[j + 1]);
        }
        assert(!evs[0].1);
        lemma_first_store_at(rest, i - 1);
    }
}

/// With distinct event ids, exactly one event shows the outcome when any reached the store
/// (the newest such), and none otherwise.
pub proof fn law_single_outcome(evs: Seq<(i64, bool)>)
    requires
        forall|a: int, b: int| 0 <= a < b < evs.len() ==> (#[trigger] evs[a]).0 != (#[trigger] evs[b]).0,
    ensures
        forall|a: int, b: int|
            0 <= a < evs.len() && 0 <= b < evs.len() && shows_outcome(evs, a) && shows_outcome(evs, b)
                ==> a == b,
        any_store(evs) ==> exists|k: int| 0 <= k < evs.len() && #[trigger] shows_outcome(evs, k),
        !any_store(evs) ==> forall|k: int| 0 <= k < evs.len() ==> !#[trigger] shows_outcome(evs, k),
{
    lemma_first_store(evs);
    assert forall|a: int, b: int|
        0 <= a < evs.len() && 0 <= b < evs.len() && shows_outcome(evs, a) && shows_outcome(evs, b)
        implies a == b by {
        if a < b {
            assert(evs[a].0 != evs[b].0);
        } else if b < a {
            assert(evs[b].0 != evs[a].0);
        }
    }
    if any_store(evs) {
        let id = first_store(evs)->0;
        let k = choose|k: int|
            0 <= k < evs.len() && (#[trigger] evs[k]).1 && evs[k].0 == id && forall|j: int|
                0 <= j < k ==> !evs[j].1;
        assert(shows_outcome(evs, k));
    }
}

/// A timeline row: the event's time and kind, its readable name, and the outcome when the
/// row carries it.
pub fn timeline_item(at: String, kind: String, outcome: Option<(String, String, String)>) -> (r: TimelineItem)
    ensures
        r.at == at,
        r.kind == kind,
        r.label@ == kind_name(kind@),
        r.outcome_label == (match outcome {
            Some(o) => Some(o.0),
            None => None::<String>,
        }),
        r.outcome_tone == (match outcome {
            Some(o) => Some(o.1),
            None => None::<String>,
        }),
        r.outcome_tip == (match outcome {
            Some(o) => Some(o.2),
            None => None::<String>,
        }),
{
    let label = string_of(chars_of(kind_label(kind.as_str())).as_slice());
    let (l, t, p) = match outcome {
        Some((a, b, c)) => (Some(a), Some(b), Some(c)),
        None => (None, None, None),
    };
    TimelineItem { at, kind, label, outcome_label: l, outcome_tone: t, outcome_tip: p }
}

} // verus!
