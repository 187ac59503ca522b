//! Focus sessions: one locked piece of work at a time, with measured durations per bucket.

use vstd::prelude::*;
use vstd::string::StrSliceExecFns;
use crate::text::{chars_of, string_of};

verus! {

/// The session bar's state.
#[derive(Debug, Clone)]
pub struct FocusState {
    pub session_id: Option<i64>,
    pub started_at: String,
    pub planned_minutes: i64,
    pub break_minutes: i64,
    /// The locked item; none means the queue ran out.
    pub locked: Option<LockedItem>,
    pub done_count: i64,
    pub skipped_count: i64,
}

/// The piece of work locked for the session.
#[derive(Debug, Clone)]
pub struct LockedItem {
    pub kind: String,
    pub reference: String,
    pub bucket: String,
    pub title: String,
    pub reason: String,
    pub page: String,
    pub focus_id: String,
    /// When it was locked.
    pub started_at: String,
}

/// Measured samples of a bucket and their calibrated minutes (none without enough samples).
#[derive(Debug, Clone)]
pub struct CalibrationRow {
    pub bucket: String,
    pub samples: i64,
    pub minutes: Option<u32>,
}

pub open spec fn clamp_spec(v: int, lo: int, hi: int) -> int {
    if v < lo {
        lo
    } else if v > hi {
        hi
    } else {
        v
    }
}

/// Session and break lengths kept in a sensible range: 5 to 90 minutes of work,
/// 1 to 30 minutes of break.
pub fn focus_durations(work: i64, brk: i64) -> (r: (i64, i64))
    ensures
        r.0 == clamp_spec(work as int, 5, 90),
        r.1 == clamp_spec(brk as int, 1, 30),
{
    let w = if work < 5 { 5 } else if work > 90 { 90 } else { work };
    let b = if brk < 1 { 1 } else if brk > 30 { 30 } else { brk };
    (w, b)
}

/// The default session and break lengths (minutes).
pub const DEFAULT_WORK: i64 = 25;
pub const DEFAULT_BREAK: i64 = 5;

/// The value of a decimal digit string.
pub open spec fn digits_value(d: Seq<char>) -> int
    decreases d.len(),
{
    if d.len() == 0 {
        0
    } else {
        digits_value(d.drop_last()) * 10 + (d.last() as int - 48)
    }
}

pub open spec fn all_digits(d: Seq<char>) -> bool {
    forall|i: int| 0 <= i < d.len() ==> '0' <= #[trigger] d[i] <= '9'
}

/// What `str::parse::<i64>` accepts: an optional sign and at least one decimal digit, with
/// the value in range.
pub open spec fn i64_text(s: Seq<char>) -> Option<int> {
    let neg = s.len() > 0 && s[0] == '-';
    let d = if s.len() > 0 && (s[0] == '-' || s[0] == '+') {
        s.drop_first()
    } else {
        s
    };
    if d.len() == 0 || !all_digits(d) {
        None
    } else {
        let v = if neg {
            -digits_value(d)
        } else {
            digits_value(d)
        };
        if i64::MIN <= v <= i64::MAX {
            Some(v)
        } else {
            None
        }
    }
}

/// The magnitude of a digit prefix, capped just past the largest `i64` magnitude.
pub open spec fn capped(v: int) -> int {
    if v > 9223372036854775808 {
        9223372036854775809
    } else {
        v
    }
}

/// Reads a whole number as `str::parse::<i64>` does: an optional `+` or `-`, then at least one
/// decimal digit, the value in range; anything else is refused.
pub(crate) fn parse_i64(s: &str) -> (r: Option<i64>)
    ensures
        match r {
            Some(v) => i64_text(s@) == Some(v as int),
            None => i64_text(s@) is None,
        },
{
    let v = chars_of(s);
    let neg = v.len() > 0 && v[0] == '-';
    let start: usize = if v.len() > 0 && (v[0] == '-' || v[0] == '+') { 1 } else { 0 };
    let ghost d = if v@.len() > 0 && (v@[0] == '-' || v@[0] == '+') {
        v@.drop_first()
    } else {
        v@
    };
    assert(d == v@.skip(start as int));
    if start == v.len() {
        return None;
    }
    let mut acc: u128 = 0;
    let mut k: usize = start;
    while k < v.len()
        invariant
            start <= k <= v@.len(),
            d == v@.skip(start as int),
            v@ == s@,
            d == (if s@.len() > 0 && (s@[0] == '-' || s@[0] == '+') {
                s@.drop_first()
            } else {
                s@
            }),
            all_digits(d.take(k - start)),
            acc == capped(digits_value(d.take(k - start))),
            0 <= digits_value(d.take(k - start)),
        decreases v@.len() - k,
    {
        let c = v[k];
        assert(d.take(k + 1 - start).drop_last() == d.take(k - start));
        assert(d.take(k + 1 - start).last() == c);
        if !('0' <= c && c <= '9') {
            assert(!all_digits(d)) by {
                assert(d[k - start] == c);
                assert(!('0' <= d[k - start] <= '9'));
            }
            return None;
        }
        let dig = (c as u32 - 48) as u128;
        assert(dig == c as int - 48);
        if acc <= 9223372036854775808 {
            acc = acc * 10 + dig;
            if acc > 9223372036854775808 {
                acc = 9223372036854775809;
            }
        }
        k = k + 1;
    }
    assert(d.take(k - start) == d);
    if neg {
        if acc <= 9223372036854775808 {
            let m = acc as i128;
            Some((-m) as i64)
        } else {
            None
        }
    } else {
        if acc <= 9223372036854775807 {
            Some(acc as i64)
        } else {
            None
        }
    }
}

/// A numeric setting: the stored text when it is a positive whole number, else the fallback.
pub open spec fn setting_value(stored: Option<Seq<char>>, fallback: i64) -> i64 {
    match stored {
        Some(t) => match i64_text(t) {
            Some(v) => if v > 0 {
                v as i64
            } else {
                fallback
            },
            None => fallback,
        },
        None => fallback,
    }
}

pub fn setting_i64(stored: Option<&str>, fallback: i64) -> (r: i64)
    ensures
        r == setting_value(
            match stored {
                Some(t) => Some(t@),
                None => None,
            },
            fallback,
        ),
{
    match stored {
        Some(t) => match parse_i64(t) {
            Some(v) => if v > 0 {
                v
            } else {
                fallback
            },
            None => fallback,
        },
        None => fallback,
    }
}

/// A queue item as the session sees it: its stored pair and whether it is marked done.
pub type QueueEntry = (String, String, bool);

pub open spec fn touched_in(touched: Seq<(String, String)>, kind: Seq<char>, r: Seq<char>) -> bool {
    exists|i: int| 0 <= i < touched.len() && (#[trigger] touched[i]).0@ == kind && touched[i].1@ == r
}

/// An item can be locked when it is not marked done and was not touched in this session.
pub open spec fn lockable(e: QueueEntry, touched: Seq<(String, String)>) -> bool {
    !e.2 && !touched_in(touched, e.0@, e.1@)
}

/// The first lockable item of the queue.
pub open spec fn next_lockable(items: Seq<QueueEntry>, touched: Seq<(String, String)>) -> Option<int>
    decreases items.len(),
{
    if items.len() == 0 {
        None
    } else {
        match next_lockable(items.drop_last(), touched) {
            Some(i) => Some(i),
            None => if lockable(items.last(), touched) {
                Some(items.len() - 1)
            } else {
                None
            },
        }
    }
}

proof fn lemma_next_lockable_prefix(items: Seq<QueueEntry>, touched: Seq<(String, String)>, k: int)
    requires
        0 <= k <= items.len(),
        next_lockable(items.take(k), touched) is Some,
    ensures
        next_lockable(items, touched) == next_lockable(items.take(k), touched),
    decreases items.len(),
{
    if k < items.len() {
        assert(items.drop_last().take(k) == items.take(k));
        lemma_next_lockable_prefix(items.drop_last(), touched, k);
    } else {
        assert(items.take(k) == items);
    }
}

/// Picks the next item to lock: the first one neither done nor already touched (done,
/// skipped or dismissed) in this session.
pub fn pick_next(items: &[QueueEntry], touched: &[(String, String)]) -> (r: Option<usize>)
    ensures
        match r {
            Some(i) => next_lockable(items@, touched@) == Some(i as int) && i < items@.len(),
            None => next_lockable(items@, touched@) is None,
        },
{
    let mut i: usize = 0;
    while i < items.len()
        invariant
            i <= items@.len(),
            next_lockable(items@.take(i as int), touched@) is None,
        decreases items@.len() - i,
    {
        assert(items@.take(i + 1).drop_last() == items@.take(i as int));
        assert(items@.take(i + 1).last() == items@[i as int]);
        let (k, rf, done) = &items[i];
        if !*done && !crate::queue::is_listed(touched, k.as_str(), rf.as_str()) {
            proof {
                assert(!crate::queue::listed(touched@, k@, rf@));
                assert(!touched_in(touched@, k@, rf@));
                lemma_next_lockable_prefix(items@, touched@, i + 1);
            }
            return Some(i);
        }
        proof {
            if !*done {
                assert(crate::queue::listed(touched@, k@, rf@));
                assert(touched_in(touched@, k@, rf@));
            }
        }
        i = i + 1;
    }
    assert(items@.take(items@.len() as int) == items@);
    None
}

/// A locked item never repeats within a session and is never one already marked done.
pub proof fn law_locked_item_is_fresh(items: Seq<QueueEntry>, touched: Seq<(String, String)>)
    ensures
        next_lockable(items, touched) matches Some(i) ==> 0 <= i < items.len() && lockable(items[i], touched),
    decreases items.len(),
{
    if items.len() > 0 {
        law_locked_item_is_fresh(items.drop_last(), touched);
        if next_lockable(items.drop_last(), touched) is Some {
            let i = next_lockable(items.drop_last(), touched)->0;
            assert(items.drop_last()[i] == items[i]);
        }
    }
}

/// A locked item shown without a queue title shows its reference instead.
pub fn display_title(title: String, reference: &String) -> (r: String)
    ensures
        r@ == (if title@.len() == 0 {
            reference@
        } else {
            title@
        }),
{
    if title.as_str().unicode_len() == 0 {
        string_of(chars_of(reference.as_str()).as_slice())
    } else {
        title
    }
}

} // verus!
