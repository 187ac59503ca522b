//! Identities of the items of the daily work queue, and how they are stored as a
//! `(kind, ref)` pair of texts.

use vstd::prelude::*;
use crate::text::{chars_of, str_eq, string_of};

verus! {

/// A queue item: a product (by sku), a page (by slug or query key), or a contact (by id).
#[derive(Debug, Clone, PartialEq, Eq)]
pub enum ItemRef {
    Product(String),
    Page(String),
    Contact(String),
}

/// The stored pair of an item: its kind and its reference.
pub open spec fn key_of(r: ItemRef) -> (Seq<char>, Seq<char>) {
    match r {
        ItemRef::Product(s) => ("product"@, s@),
        ItemRef::Page(s) => ("page"@, s@),
        ItemRef::Contact(s) => ("contact"@, s@),
    }
}

/// The item a stored pair stands for: `page` and `contact` by name, anything else a product.
pub open spec fn ref_from_spec(kind: Seq<char>, r: Seq<char>) -> (Seq<char>, Seq<char>) {
    if kind == "page"@ {
        ("page"@, r)
    } else if kind == "contact"@ {
        ("contact"@, r)
    } else {
        ("product"@, r)
    }
}

pub fn ref_key(r: &ItemRef) -> (k: (&'static str, String))
    ensures
        (k.0@, k.1@) == key_of(*r),
{
    match r {
        ItemRef::Product(s) => ("product", string_of(chars_of(s.as_str()).as_slice())),
        ItemRef::Page(s) => ("page", string_of(chars_of(s.as_str()).as_slice())),
        ItemRef::Contact(s) => ("contact", string_of(chars_of(s.as_str()).as_slice())),
    }
}

/// The item of a stored pair; the inverse of [`ref_key`].
pub fn ref_from(kind: &str, r: String) -> (it: ItemRef)
    ensures
        key_of(it) == ref_from_spec(kind@, r@),
        kind@ == "page"@ ==> it == ItemRef::Page(r),
        kind@ == "contact"@ ==> it == ItemRef::Contact(r),
        kind@ != "page"@ && kind@ != "contact"@ ==> it == ItemRef::Product(r),
{
    assert("page"@ != "contact"@) by {
        reveal_strlit("page");
        reveal_strlit("contact");
        assert("page"@.len() == 4);
        assert("contact"@.len() == 7);
    }
    if str_eq(kind, "page") {
        ItemRef::Page(r)
    } else if str_eq(kind, "contact") {
        ItemRef::Contact(r)
    } else {
        ItemRef::Product(r)
    }
}

/// Storing an item and reading it back gives the same item.
pub proof fn law_ref_round_trip(r: ItemRef)
    ensures
        ref_from_spec(key_of(r).0, key_of(r).1) == key_of(r),
{
    reveal_strlit("page");
    reveal_strlit("contact");
    reveal_strlit("product");
}

/// A stored pair read as an item and stored again keeps its reference, and its kind unless
/// the kind was not one of the three.
pub proof fn law_ref_from_keeps_reference(kind: Seq<char>, r: Seq<char>)
    ensures
        ref_from_spec(kind, r).1 == r,
        (kind == "product"@ || kind == "page"@ || kind == "contact"@) ==> ref_from_spec(kind, r).0
            == kind,
{
}

/// The pair is among the listed pairs.
pub open spec fn listed(pairs: Seq<(String, String)>, kind: Seq<char>, r: Seq<char>) -> bool {
    exists|i: int| 0 <= i < pairs.len() && (#[trigger] pairs[i]).0@ == kind && pairs[i].1@ == r
}

/// Whether an item's pair is among the hidden (or completed) pairs.
pub fn is_listed(pairs: &[(String, String)], kind: &str, r: &str) -> (b: bool)
    ensures
        b == listed(pairs@, kind@, r@),
{
    let mut i: usize = 0;
    while i < pairs.len()
        invariant
            i <= pairs@.len(),
            forall|t: int| 0 <= t < i ==> !((#[trigger] pairs@[t]).0@ == kind@ && pairs@[t].1@ == r@),
        decreases pairs@.len() - i,
    {
        if str_eq(pairs[i].0.as_str(), kind) && str_eq(pairs[i].1.as_str(), r) {
            assert(pairs@[i as int].0@ == kind@ && pairs@[i as int].1@ == r@);
            return true;
        }
        i = i + 1;
    }
    false
}

/// Days since the date at the start of `at`, counted to today; 0 when it is not a date (an
/// unreadable stamp never keeps an item out of the queue).
pub fn days_since(at: &str) -> (r: i64)
    ensures
        crate::health::elapsed_days(at@, 0) is None ==> r == 0,
        crate::health::elapsed_days(at@, 0) is Some ==> exists|t: int|
            i32::MIN <= t <= i32::MAX && crate::health::elapsed_days(at@, t) == Some(r as int),
{
    match crate::health::gun_gecti(at) {
        Some(d) => d,
        None => 0,
    }
}

/// Age in days of a time stamp, counted to day `today`; 0 when it is not a date.
pub open spec fn age_of(at: Seq<char>, today: int) -> int {
    match crate::health::elapsed_days(at, today) {
        Some(d) => d,
        None => 0,
    }
}

pub fn age_days(at: &str, today: i64) -> (r: i64)
    requires
        i32::MIN <= today <= i32::MAX,
    ensures
        r == age_of(at@, today as int),
{
    match crate::health::days_between(at, today) {
        Some(d) => d,
        None => 0,
    }
}

/// Store event `k` (a sku and the time of its latest push) has waited long enough for its
/// outcome to be checked.
pub open spec fn waited(events: Seq<(String, String)>, today: int, after: int, k: int) -> bool {
    age_of(events[k].1@, today) >= after
}

/// A waited event for sku `s` lies among the first `n` events.
pub open spec fn waited_before(events: Seq<(String, String)>, today: int, after: int, n: int, s: Seq<char>) -> bool {
    exists|j: int| 0 <= j < n && #[trigger] waited(events, today, after, j) && events[j].0@ == s
}

/// A waited event for the same sku comes before `k`.
pub open spec fn earlier_waited(events: Seq<(String, String)>, today: int, after: int, k: int) -> bool {
    waited_before(events, today, after, k, events[k].0@)
}

pub open spec fn in_seen(seen: Seq<String>, s: Seq<char>) -> bool {
    exists|k: int| 0 <= k < seen.len() && #[trigger] seen[k]@ == s
}

/// The outcome-check items among the first `n` events, in order: each event old enough
/// whose sku has not been picked before.
pub open spec fn review_picks(events: Seq<(String, String)>, today: int, after: int, n: int) -> Seq<int>
    decreases n,
{
    if n <= 0 {
        seq![]
    } else {
        let p = review_picks(events, today, after, n - 1);
        if waited(events, today, after, n - 1) && !earlier_waited(events, today, after, n - 1) {
            p.push(n - 1)
        } else {
            p
        }
    }
}

pub open spec fn index_view(v: Seq<usize>) -> Seq<int> {
    v.map_values(|i: usize| i as int)
}

fn listed_sku(seen: &Vec<String>, s: &str) -> (r: bool)
    ensures
        r == exists|k: int| 0 <= k < seen@.len() && #[trigger] seen@[k]@ == s@,
{
    let mut k: usize = 0;
    while k < seen.len()
        invariant
            k <= seen@.len(),
            forall|t: int| 0 <= t < k ==> seen@[t]@ != s@,
        decreases seen@.len() - k,
    {
        if str_eq(seen[k].as_str(), s) {
            return true;
        }
        k = k + 1;
    }
    false
}

/// The outcome-check bucket: for each sku, its first store event that is at least `after`
/// days old, in event order.
pub fn review_due(events: &[(String, String)], today: i64, after: i64) -> (r: Vec<usize>)
    requires
        i32::MIN <= today <= i32::MAX,
    ensures
        index_view(r@) == review_picks(events@, today as int, after as int, events@.len() as int),
{
    let mut out: Vec<usize> = Vec::new();
    let mut seen: Vec<String> = Vec::new();
    let mut i: usize = 0;
    while i < events.len()
        invariant
            i <= events@.len(),
            i32::MIN <= today <= i32::MAX,
            index_view(out@) == review_picks(events@, today as int, after as int, i as int),
            forall|s: Seq<char>| #[trigger] in_seen(seen@, s) <==> waited_before(events@, today as int, after as int, i as int, s),
        decreases events@.len() - i,
    {
        let age = age_days(events[i].1.as_str(), today);
        let ghost before_seen = seen@;
        let ghost before_out = out@;
        let ghost ev = events@;
        let ghost t = today as int;
        let ghost af = after as int;
        if age >= after {
            let known = listed_sku(&seen, events[i].0.as_str());
            assert(known == in_seen(before_seen, ev[i as int].0@));
            if !known {
                out.push(i);
                assert(index_view(out@) =~= index_view(before_out).push(i as int));
            }
            seen.push(string_of(chars_of(events[i].0.as_str()).as_slice()));
            assert forall|s: Seq<char>| #[trigger] in_seen(seen@, s) <==> waited_before(ev, t, af, i + 1, s) by {
                if in_seen(seen@, s) {
                    let k = choose|k: int| 0 <= k < seen@.len() && #[trigger] seen@[k]@ == s;
                    if k < before_seen.len() {
                        assert(before_seen[k]@ == s);
                        assert(in_seen(before_seen, s));
                    } else {
                        assert(waited(ev, t, af, i as int));
                    }
                }
                if waited_before(ev, t, af, i + 1, s) {
                    let j = choose|j: int| 0 <= j < i + 1 && #[trigger] waited(ev, t, af, j) && ev[j].0@ == s;
                    if j < i {
                        assert(waited_before(ev, t, af, i as int, s));
                        assert(in_seen(before_seen, s));
                        let k = choose|k: int| 0 <= k < before_seen.len() && #[trigger] before_seen[k]@ == s;
                        assert(seen@[k] == before_seen[k]);
                    } else {
                        assert(seen@[before_seen.len() as int]@ == s);
                    }
                }
            }
        } else {
            assert forall|s: Seq<char>| #[trigger] in_seen(seen@, s) <==> waited_before(ev, t, af, i + 1, s) by {
                if waited_before(ev, t, af, i + 1, s) {
                    let j = choose|j: int| 0 <= j < i + 1 && #[trigger] waited(ev, t, af, j) && ev[j].0@ == s;
                    assert(j < i);
                    assert(waited_before(ev, t, af, i as int, s));
                }
            }
        }
        i = i + 1;
    }
    out
}

/// The store events still in flight (younger than `after` days), whose products the other
/// buckets leave out until their outcome can be measured.
pub open spec fn flight_picks(events: Seq<(String, String)>, today: int, after: int, n: int) -> Seq<int>
    decreases n,
{
    if n <= 0 {
        seq![]
    } else {
        let p = flight_picks(events, today, after, n - 1);
        if !waited(events, today, after, n - 1) {
            p.push(n - 1)
        } else {
            p
        }
    }
}

pub fn in_flight_events(events: &[(String, String)], today: i64, after: i64) -> (r: Vec<usize>)
    requires
        i32::MIN <= today <= i32::MAX,
    ensures
        index_view(r@) == flight_picks(events@, today as int, after as int, events@.len() as int),
{
    let mut out: Vec<usize> = Vec::new();
    let mut i: usize = 0;
    while i < events.len()
        invariant
            i <= events@.len(),
            i32::MIN <= today <= i32::MAX,
            index_view(out@) == flight_picks(events@, today as int, after as int, i as int),
        decreases events@.len() - i,
    {
        let ghost before = out@;
        if age_days(events[i].1.as_str(), today) < after {
            out.push(i);
            assert(index_view(out@) =~= index_view(before).push(i as int));
        }
        i = i + 1;
    }
    out
}

/// The leak bucket: the not-on-sale pages with no decision yet (a kept page counts as
/// decided), in order.
pub open spec fn undecided_picks(slugs: Seq<String>, decided: Seq<String>, n: int) -> Seq<int>
    decreases n,
{
    if n <= 0 {
        seq![]
    } else {
        let p = undecided_picks(slugs, decided, n - 1);
        if exists|k: int| 0 <= k < decided.len() && #[trigger] decided[k]@ == slugs[n - 1]@ {
            p
        } else {
            p.push(n - 1)
        }
    }
}

pub fn undecided_pages(slugs: &[String], decided: &Vec<String>) -> (r: Vec<usize>)
    ensures
        index_view(r@) == undecided_picks(slugs@, decided@, slugs@.len() as int),
{
    let mut out: Vec<usize> = Vec::new();
    let mut i: usize = 0;
    while i < slugs.len()
        invariant
            i <= slugs@.len(),
            index_view(out@) == undecided_picks(slugs@, decided@, i as int),
        decreases slugs@.len() - i,
    {
        let ghost before = out@;
        if !listed_sku(decided, slugs[i].as_str()) {
            out.push(i);
            assert(index_view(out@) =~= index_view(before).push(i as int));
        }
        i = i + 1;
    }
    out
}

/// The two urgent conditions of a product: its content reached the store and a text field of
/// the feed changed since (the live text is stale); or its meta and description are done but
/// never pushed.
pub fn urgent_conditions(pushed: bool, text_changed: bool, meta_status: &str, details_status: &str) -> (r: (bool, bool))
    ensures
        r.0 == (pushed && text_changed),
        r.1 == (meta_status@ == "done"@ && details_status@ == "done"@ && !pushed),
{
    (pushed && text_changed, str_eq(meta_status, "done") && str_eq(details_status, "done") && !pushed)
}

} // verus!
