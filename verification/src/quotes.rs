//! Quote documents and the contact timeline notes written when a quote changes state.

use vstd::prelude::*;
use crate::text::{byte_prefix, chars_of, extend_chars, extend_str, get_prefix, str_eq, string_of, trim, trim_str};

verus! {

/// A rendered quote: the same document as HTML and as plain text.
#[derive(Debug, Clone)]
pub struct QuoteDoc {
    pub html: String,
    pub text: String,
}

/// Quote defaults, read and written on the settings screen.
#[derive(Debug, Clone)]
pub struct QuoteDefaults {
    /// VAT rate of manual lines (catalogue lines carry their product's own rate).
    pub tax_rate: i64,
    /// Days a new quote stays valid.
    pub valid_days: i64,
    /// The seller name at the top of the document.
    pub seller: String,
    /// The fixed note at the bottom (payment terms, delivery time).
    pub footer: String,
}

/// A closing reason as appended to a note: ` · reason`, or nothing when blank.
pub open spec fn reason_suffix(r: Seq<char>) -> Seq<char> {
    if trim(r).len() == 0 {
        seq![]
    } else {
        " · "@ + trim(r)
    }
}

pub fn neden(r: &str) -> (s: String)
    ensures
        s@ == reason_suffix(r@),
{
    let t = trim_str(r);
    if t.len() == 0 {
        return String::new();
    }
    let mut out = chars_of(" · ");
    extend_chars(&mut out, t.as_slice());
    string_of(out.as_slice())
}

/// The pieces of `s` between `-` characters, from `start` on.
pub open spec fn dash_pieces(s: Seq<char>, start: int, i: int) -> Seq<Seq<char>>
    decreases s.len() - i,
{
    if i < start || i >= s.len() {
        seq![s.subrange(start, s.len() as int)]
    } else if s[i] == '-' {
        seq![s.subrange(start, i)] + dash_pieces(s, i + 1, i + 1)
    } else {
        dash_pieces(s, start, i + 1)
    }
}

/// `YYYY-MM-DD` as `DD.MM.YYYY`, read from the first ten bytes; empty unless they split into
/// exactly three parts at `-`.
pub open spec fn day_month_year(s: Seq<char>) -> Seq<char> {
    let head = match byte_prefix(s, 10) {
        Some(p) => p,
        None => seq![],
    };
    let p = dash_pieces(head, 0, 0);
    if p.len() == 3 {
        p[2] + "."@ + p[1] + "."@ + p[0]
    } else {
        seq![]
    }
}

pub fn gun_ay_yil(s: &str) -> (r: String)
    ensures
        r@ == day_month_year(s@),
{
    let head: Vec<char> = match get_prefix(s, 10) {
        Some(p) => p,
        None => Vec::new(),
    };
    let ghost hv = head@;
    let n = head.len();
    let mut parts: Vec<Vec<char>> = Vec::new();
    let mut start: usize = 0;
    let mut i: usize = 0;
    while i < n
        invariant
            head@ == hv,
            n == hv.len(),
            start <= i <= n,
            crate::text::views(parts@) + dash_pieces(hv, start as int, i as int) == dash_pieces(hv, 0, 0),
        decreases n - i,
    {
        if head[i] == '-' {
            let ghost before = crate::text::views(parts@);
            let piece = crate::text::slice_to_vec_range(head.as_slice(), start, i);
            parts.push(piece);
            assert(crate::text::views(parts@) =~= before.push(piece@));
            assert(before + dash_pieces(hv, start as int, i as int) == before + (seq![piece@] + dash_pieces(hv, i + 1, i + 1)));
            assert(before.push(piece@) + dash_pieces(hv, i + 1, i + 1) =~= before + (seq![piece@] + dash_pieces(hv, i + 1, i + 1)));
            start = i + 1;
        }
        i = i + 1;
    }
    let ghost before = crate::text::views(parts@);
    let last = crate::text::slice_to_vec_range(head.as_slice(), start, n);
    parts.push(last);
    assert(crate::text::views(parts@) =~= before.push(last@));
    assert(before + dash_pieces(hv, start as int, n as int) =~= before.push(last@));
    if parts.len() == 3 {
        assert(crate::text::views(parts@)[0] == parts@[0]@);
        assert(crate::text::views(parts@)[1] == parts@[1]@);
        assert(crate::text::views(parts@)[2] == parts@[2]@);
        let mut out: Vec<char> = Vec::new();
        extend_chars(&mut out, parts[2].as_slice());
        extend_str(&mut out, ".");
        extend_chars(&mut out, parts[1].as_slice());
        extend_str(&mut out, ".");
        extend_chars(&mut out, parts[0].as_slice());
        string_of(out.as_slice())
    } else {
        String::new()
    }
}

/// A status that closes the quote.
pub open spec fn closing_status(status: Seq<char>) -> bool {
    status == "won"@ || status == "lost"@ || status == "expired"@
}

pub fn closes(status: &str) -> (r: bool)
    ensures
        r == closing_status(status@),
{
    str_eq(status, "won") || str_eq(status, "lost") || str_eq(status, "expired")
}

/// The contact timeline note of a status change: its kind and text (`total` is the grand
/// total with two decimals, `currency` its currency).
pub open spec fn status_note(status: Seq<char>, no: Seq<char>, total: Seq<char>, currency: Seq<char>, reason: Seq<char>) -> (Seq<char>, Seq<char>) {
    if status == "sent"@ {
        ("quote_sent"@, no + " gönderildi · "@ + total + " "@ + currency)
    } else if status == "won"@ {
        ("quote_won"@, no + " KAZANILDI · "@ + total + " "@ + currency)
    } else if status == "lost"@ {
        ("quote_lost"@, no + " kaybedildi"@ + reason_suffix(reason))
    } else if status == "expired"@ {
        ("note"@, no + " süresi doldu"@)
    } else {
        ("note"@, no + " taslağa alındı"@)
    }
}

pub fn status_event(status: &str, no: &str, total: &str, currency: &str, reason: &str) -> (r: (&'static str, String))
    ensures
        (r.0@, r.1@) == status_note(status@, no@, total@, currency@, reason@),
{
    let mut out = chars_of(no);
    if str_eq(status, "sent") {
        extend_str(&mut out, " gönderildi · ");
        extend_str(&mut out, total);
        extend_str(&mut out, " ");
        extend_str(&mut out, currency);
        ("quote_sent", string_of(out.as_slice()))
    } else if str_eq(status, "won") {
        extend_str(&mut out, " KAZANILDI · ");
        extend_str(&mut out, total);
        extend_str(&mut out, " ");
        extend_str(&mut out, currency);
        ("quote_won", string_of(out.as_slice()))
    } else if str_eq(status, "lost") {
        extend_str(&mut out, " kaybedildi");
        let n = neden(reason);
        extend_str(&mut out, n.as_str());
        ("quote_lost", string_of(out.as_slice()))
    } else if str_eq(status, "expired") {
        extend_str(&mut out, " süresi doldu");
        ("note", string_of(out.as_slice()))
    } else {
        extend_str(&mut out, " taslağa alındı");
        ("note", string_of(out.as_slice()))
    }
}

} // verus!
