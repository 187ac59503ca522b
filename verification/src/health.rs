//! Start-up freshness checks: how long ago a maintenance job last ran, against its threshold.

use vstd::prelude::*;
use chrono::Datelike;
use crate::text::{byte_prefix, chars_of, extend_str, get_prefix, int_digits, push_i64, string_of};

verus! {

/// Feed sync is stale after this many days.
pub const FEED_STALE_DAYS: i64 = 3;
/// The Search Console analysis is stale after this many days.
pub const ANALYSIS_STALE_DAYS: i64 = 7;
/// The store page inventory is stale after this many days.
pub const INVENTORY_STALE_DAYS: i64 = 14;

/// One check row. `state` is `ok`, `stale`, `error` or `off`.
pub struct HealthCheck {
    pub key: String,
    pub label: String,
    pub state: String,
    pub detail: String,
    /// The action that fixes this row; empty when there is nothing to do.
    pub action: String,
}

/// Day number (days from the common era) of a calendar date parsed with a `chrono` format
/// (what `NaiveDate::parse_from_str(s, fmt)` then `num_days_from_ce` gives; `None` when the
/// text does not parse).
pub uninterp spec fn day_number(s: Seq<char>, fmt: Seq<char>) -> Option<int>;

/// Calls `chrono::NaiveDate::parse_from_str` and `Datelike::num_days_from_ce`; the result is
/// a function of the text and format alone, named `day_number`, and fits in an `i32`.
#[verifier::external_body]
fn parse_day_number(s: &str, fmt: &str) -> (r: Option<i64>)
    ensures
        r matches Some(d) ==> day_number(s@, fmt@) == Some(d as int) && i32::MIN <= d <= i32::MAX,
        r is None ==> day_number(s@, fmt@) is None,
{
    chrono::NaiveDate::parse_from_str(s, fmt).ok().map(|d| d.num_days_from_ce() as i64)
}

/// Calls `chrono::Local::now()` and returns today's day number (days from the common era).
/// It depends on the clock and the time zone; only its `i32` range is stated.
#[verifier::external_body]
pub(crate) fn today_day_number() -> (r: i64)
    ensures
        i32::MIN <= r <= i32::MAX,
{
    chrono::Local::now().date_naive().num_days_from_ce() as i64
}

/// Days from the date in the first ten bytes of `at` (`YYYY-MM-DD`) to day `today`;
/// `None` when that prefix is missing or is not a date.
pub open spec fn elapsed_days(at: Seq<char>, today: int) -> Option<int> {
    match byte_prefix(at, 10) {
        Some(p) => match day_number(p, "%Y-%m-%d"@) {
            Some(d) => Some(today - d),
            None => None,
        },
        None => None,
    }
}

/// Days since the date at the start of `at`, counted to day `today`.
pub fn days_between(at: &str, today: i64) -> (r: Option<i64>)
    requires
        i32::MIN <= today <= i32::MAX,
    ensures
        r matches Some(g) ==> elapsed_days(at@, today as int) == Some(g as int),
        r is None ==> elapsed_days(at@, today as int) is None,
{
    let p = match get_prefix(at, 10) {
        Some(p) => p,
        None => return None,
    };
    let ps = string_of(p.as_slice());
    match parse_day_number(ps.as_str(), "%Y-%m-%d") {
        Some(d) => Some(today - d),
        None => None,
    }
}

/// Days since the date at the start of `at`, counted to today; `None` when it is not a date.
pub fn gun_gecti(at: &str) -> (r: Option<i64>)
    ensures
        r is None <==> elapsed_days(at@, 0) is None,
        r matches Some(g) ==> exists|t: int|
            i32::MIN <= t <= i32::MAX && elapsed_days(at@, t) == Some(g as int),
{
    let today = today_day_number();
    let r = days_between(at, today);
    r
}

/// State and detail of a freshness row: never run is stale with the given sentence; beyond
/// the threshold is stale with both numbers; today is `bugün`; otherwise the day count.
pub open spec fn freshness(days: Option<int>, esik: int, never: Seq<char>) -> (Seq<char>, Seq<char>) {
    match days {
        None => ("stale"@, never),
        Some(g) => if g > esik {
            ("stale"@, int_digits(g) + " gün önce — "@ + int_digits(esik) + " günden eski"@)
        } else if g == 0 {
            ("ok"@, "bugün"@)
        } else {
            ("ok"@, int_digits(g) + " gün önce"@)
        },
    }
}

/// State and detail for a given day count.
pub fn freshness_of(days: Option<i64>, esik: i64, hic_yok: &str) -> (r: (String, String))
    ensures
        (r.0@, r.1@) == freshness(
            match days {
                Some(g) => Some(g as int),
                None => None,
            },
            esik as int,
            hic_yok@,
        ),
{
    match days {
        None => (string_of(chars_of("stale").as_slice()), string_of(chars_of(hic_yok).as_slice())),
        Some(g) => if g > esik {
            let mut d: Vec<char> = Vec::new();
            push_i64(&mut d, g);
            extend_str(&mut d, " gün önce — ");
            push_i64(&mut d, esik);
            extend_str(&mut d, " günden eski");
            (string_of(chars_of("stale").as_slice()), string_of(d.as_slice()))
        } else if g == 0 {
            (string_of(chars_of("ok").as_slice()), string_of(chars_of("bugün").as_slice()))
        } else {
            let mut d: Vec<char> = Vec::new();
            push_i64(&mut d, g);
            extend_str(&mut d, " gün önce");
            (string_of(chars_of("ok").as_slice()), string_of(d.as_slice()))
        },
    }
}

/// A freshness row: its key, label and action as given, and the state and detail of the
/// days elapsed since `at` (counted to some day of the calendar, today at the time of the
/// check) against the threshold, or of `never` without a run.
pub open spec fn fresh_row(
    c: HealthCheck,
    key: Seq<char>,
    label: Seq<char>,
    at: Option<String>,
    esik: int,
    action: Seq<char>,
    never: Seq<char>,
) -> bool {
    &&& c.key@ == key
    &&& c.label@ == label
    &&& c.action@ == action
    &&& match at {
        None => (c.state@, c.detail@) == freshness(None, esik, never),
        Some(a) => exists|t: int|
            i32::MIN <= t <= i32::MAX && (c.state@, c.detail@) == freshness(elapsed_days(a@, t), esik, never),
    }
}

/// A row switched off: key and label as given, state `off`, the detail, no action.
pub open spec fn off_row(c: HealthCheck, key: Seq<char>, label: Seq<char>, detail: Seq<char>) -> bool {
    &&& c.key@ == key
    &&& c.label@ == label
    &&& c.state@ == "off"@
    &&& c.detail@ == detail
    &&& c.action@.len() == 0
}

/// A freshness check row for the job last run at `at` (none: never run).
pub fn tazelik(
    key: &str,
    label: &str,
    at: Option<String>,
    esik: i64,
    action: &str,
    hic_yok: &str,
) -> (r: HealthCheck)
    ensures
        fresh_row(r, key@, label@, at, esik as int, action@, hic_yok@),
{
    let days = match &at {
        Some(a) => gun_gecti(a.as_str()),
        None => None,
    };
    let (state, detail) = freshness_of(days, esik, hic_yok);
    HealthCheck {
        key: string_of(chars_of(key).as_slice()),
        label: string_of(chars_of(label).as_slice()),
        state,
        detail,
        action: string_of(chars_of(action).as_slice()),
    }
}

/// A row for a module that is not connected: not an error, so shown as `off`, with no action.
pub fn turned_off(c: HealthCheck, detail: &str) -> (r: HealthCheck)
    ensures
        r.key == c.key && r.label == c.label,
        r.state@ == "off"@,
        r.detail@ == detail@,
        r.action@.len() == 0,
{
    HealthCheck {
        key: c.key,
        label: c.label,
        state: string_of(chars_of("off").as_slice()),
        detail: string_of(chars_of(detail).as_slice()),
        action: String::new(),
    }
}

pub open spec fn blank(s: Seq<char>) -> bool {
    crate::text::trim(s).len() == 0
}

/// The checks that only read: feed sync, Search Console analysis (off without a service
/// account) and page inventory (off without a store token), in that order.
pub fn local_checks(
    last_sync: Option<String>,
    analyzed_at: Option<String>,
    gsc_account: &str,
    inventory_at: Option<String>,
    ideasoft_token: &str,
) -> (r: Vec<HealthCheck>)
    ensures
        r@.len() == 3,
        fresh_row(r@[0], "feed"@, "Ürün feed'i"@, last_sync, FEED_STALE_DAYS as int, "sync_feed"@, "hiç senkronlanmadı"@),
        blank(gsc_account@) ==> off_row(r@[1], "analysis"@, "GSC analizi"@, "GSC bağlanmamış"@),
        !blank(gsc_account@) ==> fresh_row(
            r@[1],
            "analysis"@,
            "GSC analizi"@,
            analyzed_at,
            ANALYSIS_STALE_DAYS as int,
            "run_analysis"@,
            "hiç çalıştırılmadı"@,
        ),
        blank(ideasoft_token@) ==> off_row(r@[2], "inventory"@, "Sayfa envanteri"@, "IdeaSoft bağlanmamış"@),
        !blank(ideasoft_token@) ==> fresh_row(
            r@[2],
            "inventory"@,
            "Sayfa envanteri"@,
            inventory_at,
            INVENTORY_STALE_DAYS as int,
            "sync_store_pages"@,
            "hiç çekilmedi"@,
        ),
{
    let mut out: Vec<HealthCheck> = Vec::new();
    let feed = tazelik("feed", "Ürün feed'i", last_sync, FEED_STALE_DAYS, "sync_feed", "hiç senkronlanmadı");
    out.push(feed);
    let mut analysis = tazelik(
        "analysis",
        "GSC analizi",
        analyzed_at,
        ANALYSIS_STALE_DAYS,
        "run_analysis",
        "hiç çalıştırılmadı",
    );
    if crate::text::trim_str(gsc_account).len() == 0 {
        analysis = turned_off(analysis, "GSC bağlanmamış");
    }
    out.push(analysis);
    let mut inventory = tazelik(
        "inventory",
        "Sayfa envanteri",
        inventory_at,
        INVENTORY_STALE_DAYS,
        "sync_store_pages",
        "hiç çekilmedi",
    );
    if crate::text::trim_str(ideasoft_token).len() == 0 {
        inventory = turned_off(inventory, "IdeaSoft bağlanmamış");
    }
    out.push(inventory);
    out
}

fn check_row(key: &str, label: &str, state: &str, detail: String, action: &str) -> (r: HealthCheck)
    ensures
        r.key@ == key@ && r.label@ == label@ && r.state@ == state@ && r.detail == detail && r.action@
            == action@,
{
    HealthCheck {
        key: string_of(chars_of(key).as_slice()),
        label: string_of(chars_of(label).as_slice()),
        state: string_of(chars_of(state).as_slice()),
        detail,
        action: string_of(chars_of(action).as_slice()),
    }
}

/// The AI connection row: off without a key; otherwise the model listing's outcome
/// (`listed` is the number of models listed, or the error).
pub fn gemini_check(key: &str, listed: Option<Result<usize, String>>) -> (r: HealthCheck)
    requires
        !blank(key@) ==> listed is Some,
    ensures
        r.key@ == "gemini"@ && r.label@ == "Yapay zekâ bağlantısı"@,
        blank(key@) ==> r.state@ == "off"@ && r.detail@ == "anahtar girilmemiş"@ && r.action@.len() == 0,
        !blank(key@) ==> match listed {
            Some(Ok(n)) => r.state@ == "ok"@ && r.detail@ == int_digits(n as int) + " model erişilebilir"@
                && r.action@.len() == 0,
            Some(Err(e)) => r.state@ == "error"@ && r.detail@ == e@ && r.action@ == "open_settings"@,
            None => false,
        },
{
    proof {
        reveal_strlit("");
    }
    if crate::text::trim_str(key).len() == 0 {
        return check_row("gemini", "Yapay zekâ bağlantısı", "off", string_of(chars_of("anahtar girilmemiş").as_slice()), "");
    }
    match listed {
        Some(Ok(n)) => {
            let mut d: Vec<char> = Vec::new();
            crate::text::push_u64(&mut d, n as u64);
            extend_str(&mut d, " model erişilebilir");
            check_row("gemini", "Yapay zekâ bağlantısı", "ok", string_of(d.as_slice()), "")
        },
        Some(Err(e)) => check_row("gemini", "Yapay zekâ bağlantısı", "error", e, "open_settings"),
        None => check_row("gemini", "Yapay zekâ bağlantısı", "error", String::new(), "open_settings"),
    }
}

/// The store connection row: off (optional) without domain and token; otherwise the
/// connection test's message or error.
pub fn ideasoft_check(domain: &str, token: &str, tested: Option<Result<String, String>>) -> (r: HealthCheck)
    requires
        !crate::ideasoft::creds_missing(domain@, token@) ==> tested is Some,
    ensures
        r.key@ == "ideasoft"@ && r.label@ == "IdeaSoft bağlantısı"@,
        crate::ideasoft::creds_missing(domain@, token@) ==> r.state@ == "off"@ && r.detail@
            == "bağlanmamış (opsiyonel)"@ && r.action@.len() == 0,
        !crate::ideasoft::creds_missing(domain@, token@) ==> match tested {
            Some(Ok(m)) => r.state@ == "ok"@ && r.detail == m && r.action@.len() == 0,
            Some(Err(e)) => r.state@ == "error"@ && r.detail == e && r.action@ == "open_settings"@,
            None => false,
        },
{
    proof {
        reveal_strlit("");
    }
    if crate::ideasoft::creds_missing_exec(domain, token) {
        return check_row("ideasoft", "IdeaSoft bağlantısı", "off", string_of(chars_of("bağlanmamış (opsiyonel)").as_slice()), "");
    }
    match tested {
        Some(Ok(m)) => check_row("ideasoft", "IdeaSoft bağlantısı", "ok", m, ""),
        Some(Err(e)) => check_row("ideasoft", "IdeaSoft bağlantısı", "error", e, "open_settings"),
        None => check_row("ideasoft", "IdeaSoft bağlantısı", "error", String::new(), "open_settings"),
    }
}

/// When the stored opportunity report was made: its `analyzed_at` text, none without a report,
/// when the report is not JSON, or when the stamp is not a string.
pub open spec fn analysis_stamp(report: Option<Seq<char>>) -> Option<Seq<char>> {
    match report {
        None => None,
        Some(t) => match crate::json::json_tree(t) {
            Ok(j) => crate::json::str_of(crate::json::field(j, "analyzed_at"@)),
            Err(_) => None,
        },
    }
}

pub fn analyzed_at_of(report: Option<&str>) -> (r: Option<String>)
    ensures
        match r {
            Some(s) => analysis_stamp(
                match report {
                    Some(t) => Some(t@),
                    None => None,
                },
            ) == Some(s@),
            None => analysis_stamp(
                match report {
                    Some(t) => Some(t@),
                    None => None,
                },
            ) is None,
        },
{
    let t = match report {
        Some(t) => t,
        None => return None,
    };
    let j = match crate::json::parse_json(t) {
        Ok(j) => j,
        Err(_) => return None,
    };
    match crate::json::get_field(&j, "analyzed_at") {
        Some(crate::json::Json::Str(s)) => Some(string_of(chars_of(s.as_str()).as_slice())),
        _ => None,
    }
}

} // verus!
