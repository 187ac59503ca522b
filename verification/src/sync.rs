//! Feed synchronisation planning: which feed entries are inserted or updated, which stored
//! products are dropped, and the counts the sync log records.
//!
//! The plan is computed from the feed's skus (in feed order) and the skus already stored;
//! the database work that carries it out is done by the caller inside one transaction.

use vstd::prelude::*;
use crate::text::str_eq;

verus! {

/// Outcome of a sync run, as recorded in the sync log.
#[derive(Debug, Clone)]
pub struct SyncSummary {
    pub run_at: String,
    pub active: i64,
    pub added: i64,
    pub updated: i64,
    pub deleted: i64,
    pub duplicate_skipped: i64,
}

/// One feed entry to write: its position in the feed, its sku, and whether it is new.
#[derive(Debug, Clone)]
pub struct SyncStep {
    pub index: usize,
    pub sku: String,
    pub insert: bool,
}

/// What a sync does: the writes in feed order, the stored skus to delete, and the counts.
#[derive(Debug, Clone)]
pub struct SyncPlan {
    pub steps: Vec<SyncStep>,
    pub delete: Vec<String>,
    pub added: i64,
    pub updated: i64,
    pub duplicate_skipped: i64,
}

/// An entry can be matched only with a non-empty sku.
pub open spec fn usable(o: Option<String>) -> bool {
    match o {
        Some(s) => s@.len() > 0,
        None => false,
    }
}

pub open spec fn key(o: Option<String>) -> Seq<char> {
    match o {
        Some(s) => s@,
        None => Seq::empty(),
    }
}

/// `s` is the sku of a usable entry among the first `n` feed entries.
pub open spec fn seen_in(feed: Seq<Option<String>>, n: int, s: Seq<char>) -> bool {
    exists|j: int| 0 <= j < n && usable(#[trigger] feed[j]) && key(feed[j]) == s
}

/// Entry `i` is the first occurrence of its sku: the one that is written.
pub open spec fn first_at(feed: Seq<Option<String>>, i: int) -> bool {
    usable(feed[i]) && !seen_in(feed, i, key(feed[i]))
}

pub open spec fn string_views(v: Seq<String>) -> Seq<Seq<char>> {
    v.map_values(|s: String| s@)
}

pub open spec fn step_views(v: Seq<SyncStep>) -> Seq<(int, Seq<char>, bool)> {
    v.map_values(|s: SyncStep| (s.index as int, s.sku@, s.insert))
}

/// The writes for the first `n` entries: each first occurrence, inserted when the sku is
/// not stored yet, updated otherwise.
pub open spec fn planned(feed: Seq<Option<String>>, stored: Seq<Seq<char>>, n: int) -> Seq<
    (int, Seq<char>, bool),
>
    decreases n,
{
    if n <= 0 {
        Seq::empty()
    } else {
        let p = planned(feed, stored, n - 1);
        if first_at(feed, n - 1) {
            p.push((n - 1, key(feed[n - 1]), !stored.contains(key(feed[n - 1]))))
        } else {
            p
        }
    }
}

/// Usable entries among the first `n` whose sku occurred before.
pub open spec fn duplicates(feed: Seq<Option<String>>, n: int) -> int
    decreases n,
{
    if n <= 0 {
        0
    } else {
        duplicates(feed, n - 1) + if usable(feed[n - 1]) && !first_at(feed, n - 1) {
            1int
        } else {
            0int
        }
    }
}

/// Usable entries among the first `n`.
pub open spec fn usable_count(feed: Seq<Option<String>>, n: int) -> int
    decreases n,
{
    if n <= 0 {
        0
    } else {
        usable_count(feed, n - 1) + if usable(feed[n - 1]) {
            1int
        } else {
            0int
        }
    }
}

pub open spec fn inserts(steps: Seq<(int, Seq<char>, bool)>) -> int
    decreases steps.len(),
{
    if steps.len() == 0 {
        0
    } else {
        inserts(steps.drop_last()) + if steps.last().2 {
            1int
        } else {
            0int
        }
    }
}

/// The stored skus that the whole feed does not mention, in stored order.
pub open spec fn unseen(stored: Seq<Seq<char>>, feed: Seq<Option<String>>) -> Seq<Seq<char>>
    decreases stored.len(),
{
    if stored.len() == 0 {
        Seq::empty()
    } else {
        let p = unseen(stored.drop_last(), feed);
        if seen_in(feed, feed.len() as int, stored.last()) {
            p
        } else {
            p.push(stored.last())
        }
    }
}

fn contains_string(v: &[String], s: &str) -> (r: bool)
    ensures
        r == string_views(v@).contains(s@),
{
    let mut i: usize = 0;
    while i < v.len()
        invariant
            i <= v@.len(),
            forall|k: int| 0 <= k < i ==> v@[k]@ != s@,
        decreases v@.len() - i,
    {
        if str_eq(v[i].as_str(), s) {
            assert(string_views(v@)[i as int] == s@);
            return true;
        }
        i = i + 1;
    }
    proof {
        if string_views(v@).contains(s@) {
            let k = choose|k: int| 0 <= k < string_views(v@).len() && string_views(v@)[k] == s@;
            assert(v@[k]@ == s@);
        }
    }
    false
}

fn step_has_sku(steps: &Vec<SyncStep>, s: &str) -> (r: bool)
    ensures
        r == exists|k: int| 0 <= k < steps@.len() && #[trigger] steps@[k].sku@ == s@,
{
    let mut i: usize = 0;
    while i < steps.len()
        invariant
            i <= steps@.len(),
            forall|k: int| 0 <= k < i ==> steps@[k].sku@ != s@,
        decreases steps@.len() - i,
    {
        if str_eq(steps[i].sku.as_str(), s) {
            return true;
        }
        i = i + 1;
    }
    false
}

proof fn lemma_inserts_push(steps: Seq<(int, Seq<char>, bool)>, x: (int, Seq<char>, bool))
    ensures
        inserts(steps.push(x)) == inserts(steps) + if x.2 {
            1int
        } else {
            0int
        },
{
    assert(steps.push(x).drop_last() == steps);
}

proof fn lemma_inserts_bounds(steps: Seq<(int, Seq<char>, bool)>)
    ensures
        0 <= inserts(steps) <= steps.len(),
    decreases steps.len(),
{
    if steps.len() > 0 {
        lemma_inserts_bounds(steps.drop_last());
    }
}

proof fn lemma_counts_bounded(feed: Seq<Option<String>>, stored: Seq<Seq<char>>, n: int)
    requires
        0 <= n <= feed.len(),
    ensures
        planned(feed, stored, n).len() + duplicates(feed, n) == usable_count(feed, n),
        0 <= duplicates(feed, n),
        usable_count(feed, n) <= n,
    decreases n,
{
    if n > 0 {
        lemma_counts_bounded(feed, stored, n - 1);
    }
}

/// Plans a sync of the feed's skus against the stored skus.
///
/// An entry without a sku is skipped; of entries sharing a sku the first is written and
/// the others are counted as duplicates; a written sku already stored is updated, otherwise
/// inserted; stored skus absent from the feed are deleted.
pub fn plan_sync(feed: &[Option<String>], stored: &[String]) -> (r: SyncPlan)
    requires
        feed@.len() <= i64::MAX,
    ensures
        step_views(r.steps@) == planned(feed@, string_views(stored@), feed@.len() as int),
        r.added == inserts(planned(feed@, string_views(stored@), feed@.len() as int)),
        r.updated == planned(feed@, string_views(stored@), feed@.len() as int).len() - inserts(
            planned(feed@, string_views(stored@), feed@.len() as int),
        ),
        r.duplicate_skipped == duplicates(feed@, feed@.len() as int),
        string_views(r.delete@) == unseen(string_views(stored@), feed@),
{
    let ghost sv = string_views(stored@);
    let mut steps: Vec<SyncStep> = Vec::new();
    let mut added: i64 = 0;
    let mut updated: i64 = 0;
    let mut dups: i64 = 0;
    let mut i: usize = 0;
    while i < feed.len()
        invariant
            i <= feed@.len(),
            feed@.len() <= i64::MAX,
            sv == string_views(stored@),
            step_views(steps@) == planned(feed@, sv, i as int),
            added == inserts(planned(feed@, sv, i as int)),
            updated == planned(feed@, sv, i as int).len() - inserts(planned(feed@, sv, i as int)),
            dups == duplicates(feed@, i as int),
            forall|s: Seq<char>|
                seen_in(feed@, i as int, s) <==> exists|k: int|
                    0 <= k < steps@.len() && #[trigger] steps@[k].sku@ == s,
        decreases feed@.len() - i,
    {
        proof {
            lemma_counts_bounded(feed@, sv, i as int);
            lemma_inserts_bounds(planned(feed@, sv, i as int));
        }
        let ghost old_steps = steps@;
        match &feed[i] {
            Some(s) if !s.as_str().is_empty() => {
                let st: &str = s.as_str();
                assert(usable(feed@[i as int]) && key(feed@[i as int]) == st@);
                if step_has_sku(&steps, st) {
                    dups = dups + 1;
                    assert(!first_at(feed@, i as int));
                    assert forall|x: Seq<char>| #[trigger] seen_in(feed@, i + 1, x) implies exists|k: int|
                        0 <= k < steps@.len() && #[trigger] steps@[k].sku@ == x by {
                        let j = choose|j: int|
                            0 <= j < i + 1 && usable(#[trigger] feed@[j]) && key(feed@[j]) == x;
                        if j < i {
                            assert(seen_in(feed@, i as int, x));
                        }
                    }
                    assert forall|x: Seq<char>|
                        (exists|k: int| 0 <= k < steps@.len() && #[trigger] steps@[k].sku@ == x)
                        implies #[trigger] seen_in(feed@, i + 1, x) by {
                        assert(seen_in(feed@, i as int, x));
                        let j = choose|j: int|
                            0 <= j < i && usable(#[trigger] feed@[j]) && key(feed@[j]) == x;
                        assert(0 <= j < i + 1);
                    }
                } else {
                    let fresh = !contains_string(stored, st);
                    assert(first_at(feed@, i as int));
                    let step = SyncStep { index: i, sku: s.clone(), insert: fresh };
                    steps.push(step);
                    proof {
                        lemma_inserts_push(
                            planned(feed@, sv, i as int),
                            (i as int, key(feed@[i as int]), !sv.contains(key(feed@[i as int]))),
                        );
                        assert(step_views(steps@) == step_views(old_steps).push(
                            (i as int, st@, fresh),
                        ));
                    }
                    if fresh {
                        added = added + 1;
                    } else {
                        updated = updated + 1;
                    }
                    assert forall|x: Seq<char>| #[trigger] seen_in(feed@, i + 1, x) implies exists|k: int|
                        0 <= k < steps@.len() && #[trigger] steps@[k].sku@ == x by {
                        let j = choose|j: int|
                            0 <= j < i + 1 && usable(#[trigger] feed@[j]) && key(feed@[j]) == x;
                        if j < i {
                            assert(seen_in(feed@, i as int, x));
                            let k = choose|k: int|
                                0 <= k < old_steps.len() && #[trigger] old_steps[k].sku@ == x;
                            assert(steps@[k] == old_steps[k]);
                        } else {
                            assert(steps@[old_steps.len() as int].sku@ == x);
                        }
                    }
                    assert forall|x: Seq<char>|
                        (exists|k: int| 0 <= k < steps@.len() && #[trigger] steps@[k].sku@ == x)
                        implies #[trigger] seen_in(feed@, i + 1, x) by {
                        let k = choose|k: int| 0 <= k < steps@.len() && #[trigger] steps@[k].sku@ == x;
                        if k < old_steps.len() {
                            assert(old_steps[k] == steps@[k]);
                            assert(seen_in(feed@, i as int, x));
                            let j = choose|j: int|
                                0 <= j < i && usable(#[trigger] feed@[j]) && key(feed@[j]) == x;
                            assert(0 <= j < i + 1);
                        } else {
                            assert(usable(feed@[i as int]));
                        }
                    }
                }
            },
            _ => {
                assert(!usable(feed@[i as int]));
                assert forall|x: Seq<char>| #[trigger] seen_in(feed@, i + 1, x) implies exists|k: int|
                    0 <= k < steps@.len() && #[trigger] steps@[k].sku@ == x by {
                    let j = choose|j: int|
                        0 <= j < i + 1 && usable(#[trigger] feed@[j]) && key(feed@[j]) == x;
                    assert(j < i);
                    assert(seen_in(feed@, i as int, x));
                }
                assert forall|x: Seq<char>|
                    (exists|k: int| 0 <= k < steps@.len() && #[trigger] steps@[k].sku@ == x)
                    implies #[trigger] seen_in(feed@, i + 1, x) by {
                    assert(seen_in(feed@, i as int, x));
                    let j = choose|j: int|
                        0 <= j < i && usable(#[trigger] feed@[j]) && key(feed@[j]) == x;
                    assert(0 <= j < i + 1);
                }
            },
        }
        i = i + 1;
    }
    let ghost n = feed@.len() as int;
    let mut delete: Vec<String> = Vec::new();
    let mut d: usize = 0;
    while d < stored.len()
        invariant
            d <= stored@.len(),
            sv == string_views(stored@),
            i == feed@.len(),
            n == feed@.len(),
            string_views(delete@) == unseen(sv.take(d as int), feed@),
            forall|s: Seq<char>|
                seen_in(feed@, n, s) <==> exists|k: int|
                    0 <= k < steps@.len() && #[trigger] steps@[k].sku@ == s,
        decreases stored@.len() - d,
    {
        assert(sv.take(d + 1).drop_last() == sv.take(d as int));
        assert(sv.take(d + 1).last() == stored@[d as int]@);
        let ghost before = delete@;
        if !step_has_sku(&steps, stored[d].as_str()) {
            delete.push(stored[d].clone());
            assert(string_views(delete@) == string_views(before).push(stored@[d as int]@));
        }
        d = d + 1;
    }
    assert(sv.take(stored@.len() as int) == sv);
    SyncPlan { steps, delete, added, updated, duplicate_skipped: dups }
}

proof fn lemma_planned_entries(feed: Seq<Option<String>>, stored: Seq<Seq<char>>, n: int)
    requires
        0 <= n <= feed.len(),
    ensures
        forall|k: int|
            0 <= k < planned(feed, stored, n).len() ==> {
                let e = #[trigger] planned(feed, stored, n)[k];
                &&& 0 <= e.0 < n
                &&& first_at(feed, e.0)
                &&& e.1 == key(feed[e.0])
                &&& e.2 == !stored.contains(e.1)
            },
        forall|k1: int, k2: int|
            0 <= k1 < k2 < planned(feed, stored, n).len() ==> planned(feed, stored, n)[k1].0
                < planned(feed, stored, n)[k2].0,
        forall|j: int|
            0 <= j < n && first_at(feed, j) ==> exists|k: int|
                0 <= k < planned(feed, stored, n).len() && (#[trigger] planned(feed, stored, n)[k]).0
                    == j,
    decreases n,
{
    if n > 0 {
        lemma_planned_entries(feed, stored, n - 1);
        let p = planned(feed, stored, n - 1);
        let q = planned(feed, stored, n);
        assert forall|j: int| 0 <= j < n && first_at(feed, j) implies exists|k: int|
            0 <= k < q.len() && (#[trigger] q[k]).0 == j by {
            if j < n - 1 {
                let k = choose|k: int| 0 <= k < p.len() && (#[trigger] p[k]).0 == j;
                assert(q[k] == p[k]);
            } else {
                assert(q[p.len() as int].0 == j);
            }
        }
    }
}

proof fn lemma_first_occurrence(feed: Seq<Option<String>>, j: int)
    requires
        0 <= j < feed.len(),
        usable(feed[j]),
    ensures
        exists|i: int| 0 <= i <= j && first_at(feed, i) && #[trigger] key(feed[i]) == key(feed[j]),
    decreases j,
{
    if !first_at(feed, j) {
        let i = choose|i: int| 0 <= i < j && usable(#[trigger] feed[i]) && key(feed[i]) == key(feed[j]);
        lemma_first_occurrence(feed, i);
        let i2 = choose|i2: int| 0 <= i2 <= i && first_at(feed, i2) && #[trigger] key(feed[i2]) == key(feed[i]);
        assert(0 <= i2 <= j && first_at(feed, i2) && key(feed[i2]) == key(feed[j]));
    } else {
        assert(first_at(feed, j) && key(feed[j]) == key(feed[j]));
    }
}

proof fn lemma_unseen_contains(stored: Seq<Seq<char>>, feed: Seq<Option<String>>, s: Seq<char>)
    ensures
        unseen(stored, feed).contains(s) <==> (stored.contains(s) && !seen_in(
            feed,
            feed.len() as int,
            s,
        )),
    decreases stored.len(),
{
    if stored.len() > 0 {
        let init = stored.drop_last();
        lemma_unseen_contains(init, feed, s);
        let p = unseen(init, feed);
        if stored.contains(s) && !(init.contains(s)) {
            let k = choose|k: int| 0 <= k < stored.len() && stored[k] == s;
            if k < stored.len() - 1 {
                assert(init[k] == s);
            }
            assert(stored.last() == s);
        }
        if init.contains(s) {
            let k = choose|k: int| 0 <= k < init.len() && init[k] == s;
            assert(stored[k] == s);
        }
        if !seen_in(feed, feed.len() as int, stored.last()) {
            assert(p.push(stored.last()).last() == stored.last());
            if p.push(stored.last()).contains(s) && !p.contains(s) {
                let k = choose|k: int| 0 <= k < p.len() + 1 && p.push(stored.last())[k] == s;
                if k < p.len() {
                    assert(p[k] == s);
                }
            }
            if p.contains(s) {
                let k = choose|k: int| 0 <= k < p.len() && p[k] == s;
                assert(p.push(stored.last())[k] == s);
            }
            if stored.last() == s {
                assert(p.push(stored.last())[p.len() as int] == s);
            }
        }
    }
}

/// Each usable feed sku is written exactly once, at its first occurrence in the feed, and
/// a write is an insert exactly when the sku is not stored yet.
pub proof fn law_sync_writes_each_sku_once(feed: Seq<Option<String>>, stored: Seq<Seq<char>>)
    ensures
        forall|k1: int, k2: int|
            0 <= k1 < k2 < planned(feed, stored, feed.len() as int).len() ==> (#[trigger] planned(
                feed,
                stored,
                feed.len() as int,
            )[k1]).1 != (#[trigger] planned(feed, stored, feed.len() as int)[k2]).1,
        forall|j: int|
            0 <= j < feed.len() && usable(#[trigger] feed[j]) ==> exists|k: int|
                0 <= k < planned(feed, stored, feed.len() as int).len() && (#[trigger] planned(
                    feed,
                    stored,
                    feed.len() as int,
                )[k]).1 == key(feed[j]),
        forall|k: int|
            0 <= k < planned(feed, stored, feed.len() as int).len() ==> {
                let e = #[trigger] planned(feed, stored, feed.len() as int)[k];
                &&& first_at(feed, e.0)
                &&& e.1 == key(feed[e.0])
                &&& e.2 == !stored.contains(e.1)
            },
{
    let n = feed.len() as int;
    let p = planned(feed, stored, n);
    lemma_planned_entries(feed, stored, n);
    assert forall|k1: int, k2: int| 0 <= k1 < k2 < p.len() implies (#[trigger] p[k1]).1 != (
    #[trigger] p[k2]).1 by {
        let a = p[k1].0;
        let b = p[k2].0;
        assert(a < b);
        if p[k1].1 == p[k2].1 {
            assert(usable(feed[a]) && key(feed[a]) == key(feed[b]));
            assert(seen_in(feed, b, key(feed[b])));
        }
    }
    assert forall|j: int| 0 <= j < n && usable(#[trigger] feed[j]) implies exists|k: int|
        0 <= k < p.len() && (#[trigger] p[k]).1 == key(feed[j]) by {
        lemma_first_occurrence(feed, j);
        let i = choose|i: int| 0 <= i <= j && first_at(feed, i) && #[trigger] key(feed[i]) == key(feed[j]);
        let k = choose|k: int| 0 <= k < p.len() && (#[trigger] p[k]).0 == i;
        assert(p[k].1 == key(feed[j]));
    }
}

/// Every usable entry is either written or counted as a duplicate:
/// added + updated + duplicates equals the number of entries with a sku.
pub proof fn law_sync_counts(feed: Seq<Option<String>>, stored: Seq<Seq<char>>)
    ensures
        ({
            let p = planned(feed, stored, feed.len() as int);
            &&& 0 <= inserts(p) <= p.len()
            &&& inserts(p) + (p.len() - inserts(p)) + duplicates(feed, feed.len() as int)
                == usable_count(feed, feed.len() as int)
            &&& usable_count(feed, feed.len() as int) <= feed.len()
        }),
{
    lemma_counts_bounded(feed, stored, feed.len() as int);
    lemma_inserts_bounds(planned(feed, stored, feed.len() as int));
}

/// After the plan is carried out the store holds exactly the feed's skus: a sku remains or
/// is written if and only if the feed mentions it.
pub proof fn law_sync_result(feed: Seq<Option<String>>, stored: Seq<Seq<char>>, s: Seq<char>)
    ensures
        ((stored.contains(s) && !unseen(stored, feed).contains(s)) || exists|k: int|
            0 <= k < planned(feed, stored, feed.len() as int).len() && (#[trigger] planned(
                feed,
                stored,
                feed.len() as int,
            )[k]).1 == s) <==> seen_in(feed, feed.len() as int, s),
{
    let n = feed.len() as int;
    let p = planned(feed, stored, n);
    lemma_unseen_contains(stored, feed, s);
    law_sync_writes_each_sku_once(feed, stored);
    if seen_in(feed, n, s) {
        let j = choose|j: int| 0 <= j < n && usable(#[trigger] feed[j]) && key(feed[j]) == s;
        assert(usable(feed[j]));
    }
    if exists|k: int| 0 <= k < p.len() && (#[trigger] p[k]).1 == s {
        let k = choose|k: int| 0 <= k < p.len() && (#[trigger] p[k]).1 == s;
        let i = p[k].0;
        lemma_planned_entries(feed, stored, n);
        assert(0 <= i < n && usable(feed[i]) && key(feed[i]) == s);
    }
}

/// Syncing a feed into a store that already holds exactly its skus inserts nothing and
/// deletes nothing: every written entry is an update.
pub proof fn law_sync_again(feed: Seq<Option<String>>, stored: Seq<Seq<char>>)
    requires
        forall|s: Seq<char>| stored.contains(s) <==> seen_in(feed, feed.len() as int, s),
    ensures
        inserts(planned(feed, stored, feed.len() as int)) == 0,
        unseen(stored, feed).len() == 0,
{
    let n = feed.len() as int;
    let p = planned(feed, stored, n);
    law_sync_writes_each_sku_once(feed, stored);
    lemma_planned_entries(feed, stored, n);
    assert forall|k: int| 0 <= k < p.len() implies !(#[trigger] p[k]).2 by {
        let i = p[k].0;
        assert(usable(feed[i]) && key(feed[i]) == p[k].1);
        assert(seen_in(feed, n, p[k].1));
    }
    lemma_no_inserts(p);
    if unseen(stored, feed).len() > 0 {
        let s = unseen(stored, feed)[0];
        lemma_unseen_contains(stored, feed, s);
        assert(unseen(stored, feed).contains(s));
    }
}

proof fn lemma_no_inserts(p: Seq<(int, Seq<char>, bool)>)
    requires
        forall|k: int| 0 <= k < p.len() ==> !(#[trigger] p[k]).2,
    ensures
        inserts(p) == 0,
    decreases p.len(),
{
    if p.len() > 0 {
        assert forall|k: int| 0 <= k < p.drop_last().len() implies !(#[trigger] p.drop_last()[k]).2 by {
            assert(p.drop_last()[k] == p[k]);
        }
        lemma_no_inserts(p.drop_last());
    }
}

/// The sync log record of a carried-out plan; `active` is the product count afterwards.
pub fn summary_of(plan: &SyncPlan, run_at: String, active: i64) -> (r: SyncSummary)
    requires
        plan.delete@.len() <= i64::MAX,
    ensures
        r.run_at == run_at,
        r.active == active,
        r.added == plan.added,
        r.updated == plan.updated,
        r.deleted == plan.delete@.len(),
        r.duplicate_skipped == plan.duplicate_skipped,
{
    SyncSummary {
        run_at,
        active,
        added: plan.added,
        updated: plan.updated,
        deleted: plan.delete.len() as i64,
        duplicate_skipped: plan.duplicate_skipped,
    }
}

/// The feed's distinct usable skus.
pub open spec fn feed_skus(feed: Seq<Option<String>>) -> Set<Seq<char>> {
    Set::new(|s: Seq<char>| seen_in(feed, feed.len() as int, s))
}

/// The counts as set sizes: the written skus are the feed's distinct usable skus, each once, so
/// added + updated is their number, and the duplicates are the usable entries beyond it; the
/// deleted skus are the stored ones the feed does not hold.
pub proof fn law_sync_counts_distinct(feed: Seq<Option<String>>, stored: Seq<Seq<char>>)
    ensures
        ({
            let p = planned(feed, stored, feed.len() as int);
            let w = p.map_values(|e: (int, Seq<char>, bool)| e.1);
            &&& w.no_duplicates()
            &&& w.to_set() == feed_skus(feed)
            &&& p.len() == feed_skus(feed).len()
            &&& duplicates(feed, feed.len() as int) == usable_count(feed, feed.len() as int) - feed_skus(feed).len()
        }),
        forall|s: Seq<char>| #[trigger] unseen(stored, feed).contains(s) <==> stored.contains(s) && !feed_skus(feed).contains(s),
{
    assert forall|s: Seq<char>| #[trigger] unseen(stored, feed).contains(s) <==> stored.contains(s) && !feed_skus(feed).contains(s) by {
        lemma_unseen_contains(stored, feed, s);
    }
    let n = feed.len() as int;
    let p = planned(feed, stored, n);
    let w = p.map_values(|e: (int, Seq<char>, bool)| e.1);
    law_sync_writes_each_sku_once(feed, stored);
    lemma_planned_entries(feed, stored, n);
    lemma_counts_bounded(feed, stored, n);
    assert forall|a: int, b: int| 0 <= a < w.len() && 0 <= b < w.len() && a != b implies w[a] != w[b] by {
        if a < b {
            assert(p[a].1 != p[b].1);
        } else {
            assert(p[b].1 != p[a].1);
        }
    }
    assert(w.no_duplicates());
    assert forall|s: Seq<char>| w.to_set().contains(s) <==> feed_skus(feed).contains(s) by {
        if w.to_set().contains(s) {
            assert(w.contains(s));
            let k = choose|k: int| 0 <= k < w.len() && w[k] == s;
            assert(p[k].1 == s);
            let i = p[k].0;
            assert(0 <= i < n && usable(feed[i]) && key(feed[i]) == s);
        }
        if feed_skus(feed).contains(s) {
            let j = choose|j: int| 0 <= j < n && usable(#[trigger] feed[j]) && key(feed[j]) == s;
            let k = choose|k: int| 0 <= k < p.len() && (#[trigger] p[k]).1 == key(feed[j]);
            assert(w[k] == s);
            assert(w.contains(s));
        }
    }
    assert(w.to_set() =~= feed_skus(feed));
    w.unique_seq_to_set();
}

} // verus!
