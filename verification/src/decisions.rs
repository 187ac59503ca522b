//! Decisions for pages no longer on sale (301 redirect, canonical, or keep), and the CSV
//! field escaping of the redirect work list.

use vstd::prelude::*;
use crate::text::{
    byte_prefix, chars_of, extend_chars, extend_str, get_prefix, join, join_words, replace_all,
    replace_chars, str_eq, string_of, trim, views,
};

verus! {

/// The three decision kinds.
pub open spec fn known_action(a: Seq<char>) -> bool {
    a == "redirect_301"@ || a == "canonical"@ || a == "keep"@
}

pub open spec fn opt_view(o: Option<String>) -> Seq<char> {
    match o {
        Some(s) => s@,
        None => Seq::empty(),
    }
}

/// Validation of a decision: an unknown kind is refused; `keep` carries no target;
/// any other kind needs a non-blank target slug.
pub open spec fn decision_outcome(
    action: Seq<char>,
    target_slug: Option<String>,
    target_sku: Option<String>,
) -> Result<(Option<String>, Option<String>), Seq<char>> {
    if !known_action(action) {
        Err("Bilinmeyen karar türü: "@ + action)
    } else if action == "keep"@ {
        Ok((None, None))
    } else if trim(opt_view(target_slug)).len() == 0 {
        Err("Hedef seçilmeden karar kaydedilemez."@)
    } else {
        Ok((target_slug, target_sku))
    }
}

/// Validates a decision and returns the target to store.
pub fn validate(
    action: &str,
    target_slug: Option<String>,
    target_sku: Option<String>,
) -> (r: Result<(Option<String>, Option<String>), String>)
    ensures
        match (r, decision_outcome(action@, target_slug, target_sku)) {
            (Ok(v), Ok(w)) => v == w,
            (Err(e), Err(m)) => e@ == m,
            _ => false,
        },
{
    let keep = str_eq(action, "keep");
    if !(str_eq(action, "redirect_301") || str_eq(action, "canonical") || keep) {
        let mut m: Vec<char> = Vec::new();
        extend_str(&mut m, "Bilinmeyen karar türü: ");
        extend_str(&mut m, action);
        return Err(string_of(m.as_slice()));
    }
    if keep {
        return Ok((None, None));
    }
    let blank = match &target_slug {
        Some(s) => crate::text::trim_str(s.as_str()).len() == 0,
        None => {
            assert(trim(Seq::<char>::empty()) == Seq::<char>::empty());
            true
        },
    };
    if blank {
        return Err(string_of(chars_of("Hedef seçilmeden karar kaydedilemez.").as_slice()));
    }
    Ok((target_slug, target_sku))
}

/// Characters that force a CSV field into quotes.
pub open spec fn csv_special(c: char) -> bool {
    c == ',' || c == '"' || c == '\n' || c == '\r'
}

/// A CSV field: quoted, with inner quotes doubled, when it holds a comma, quote or line break.
pub open spec fn csv_field(v: Seq<char>) -> Seq<char> {
    if exists|i: int| 0 <= i < v.len() && csv_special(#[trigger] v[i]) {
        seq!['"'] + replace_all(v, seq!['"'], seq!['"', '"']) + seq!['"']
    } else {
        v
    }
}

/// Escapes one CSV field.
pub fn csv(v: &str) -> (r: String)
    ensures
        r@ == csv_field(v@),
{
    let s = chars_of(v);
    let mut i: usize = 0;
    let mut special = false;
    while i < s.len() && !special
        invariant
            i <= s@.len(),
            special ==> exists|t: int| 0 <= t < s@.len() && csv_special(#[trigger] s@[t]),
            !special ==> forall|t: int| 0 <= t < i ==> !csv_special(#[trigger] s@[t]),
        decreases s@.len() - i,
    {
        let c = s[i];
        if c == ',' || c == '"' || c == '\n' || c == '\r' {
            assert(csv_special(s@[i as int]));
            special = true;
        }
        i = i + 1;
    }
    if special {
        let mut q: Vec<char> = Vec::new();
        q.push('"');
        let mut qq: Vec<char> = Vec::new();
        qq.push('"');
        qq.push('"');
        assert(q@ =~= seq!['"']);
        assert(qq@ =~= seq!['"', '"']);
        let inner = replace_chars(s.as_slice(), q.as_slice(), qq.as_slice());
        let mut out: Vec<char> = Vec::new();
        out.push('"');
        extend_chars(&mut out, inner.as_slice());
        out.push('"');
        assert(out@ =~= seq!['"'] + inner@ + seq!['"']);
        string_of(out.as_slice())
    } else {
        string_of(s.as_slice())
    }
}

/// A decision on a page no longer on sale.
#[derive(Debug, Clone)]
pub struct EolDecision {
    pub slug: String,
    pub url: String,
    /// `redirect_301`, `canonical` or `keep`.
    pub action: String,
    pub target_slug: Option<String>,
    pub target_sku: Option<String>,
    /// `ai` or `manual`: who proposed the target.
    pub source: String,
    pub decided_at: String,
    pub exported_at: Option<String>,
}

/// What an export wrote, so that the screen can say it.
#[derive(Debug, Clone)]
pub struct ExportSummary {
    pub decided_rows: usize,
    pub undecided_rows: usize,
    pub bytes: usize,
    pub path: String,
}

/// The explanation lines and the column header that open the redirect work list.
pub open spec fn csv_header_text() -> Seq<char> {
    "# 301 is listesi — SEO Yoneticisi\n"@
        + "# Karar verilmis satirlarda hedef_yol DOLU. Kararsiz satirlarda hedef_yol BOS birakildi:\n"@
        + "# aday sutunu yalnizca bilgi amaclidir, dogrulanmadan yonlendirme tanimlamayin.\n"@
        + "kaynak_yol,hedef_yol,tiklama,konum,karar,kaynak,karar_tarihi,aday,benzerlik\n"@
}

pub fn csv_header() -> (r: String)
    ensures
        r@ == csv_header_text(),
{
    let mut out: Vec<char> = Vec::new();
    extend_str(&mut out, "# 301 is listesi — SEO Yoneticisi\n");
    extend_str(
        &mut out,
        "# Karar verilmis satirlarda hedef_yol DOLU. Kararsiz satirlarda hedef_yol BOS birakildi:\n",
    );
    extend_str(&mut out, "# aday sutunu yalnizca bilgi amaclidir, dogrulanmadan yonlendirme tanimlamayin.\n");
    extend_str(&mut out, "kaynak_yol,hedef_yol,tiklama,konum,karar,kaynak,karar_tarihi,aday,benzerlik\n");
    string_of(out.as_slice())
}

/// Position of the first decision on `slug`.
pub open spec fn first_decision(ds: Seq<EolDecision>, slug: Seq<char>) -> Option<int>
    decreases ds.len(),
{
    if ds.len() == 0 {
        None
    } else {
        match first_decision(ds.drop_last(), slug) {
            Some(i) => Some(i),
            None => if ds.last().slug@ == slug {
                Some(ds.len() - 1)
            } else {
                None
            },
        }
    }
}

pub fn find_decision(ds: &[EolDecision], slug: &str) -> (r: Option<usize>)
    ensures
        match r {
            Some(i) => first_decision(ds@, slug@) == Some(i as int) && i < ds@.len(),
            None => first_decision(ds@, slug@) is None,
        },
{
    let mut i: usize = 0;
    while i < ds.len()
        invariant
            i <= ds@.len(),
            first_decision(ds@.take(i as int), slug@) is None,
        decreases ds@.len() - i,
    {
        assert(ds@.take(i + 1).drop_last() == ds@.take(i as int));
        if str_eq(ds[i].slug.as_str(), slug) {
            proof {
                lemma_first_decision_prefix(ds@, slug@, i + 1);
            }
            return Some(i);
        }
        i = i + 1;
    }
    assert(ds@.take(ds@.len() as int) == ds@);
    None
}

proof fn lemma_first_decision_prefix(ds: Seq<EolDecision>, slug: Seq<char>, k: int)
    requires
        0 <= k <= ds.len(),
        first_decision(ds.take(k), slug) is Some,
    ensures
        first_decision(ds, slug) == first_decision(ds.take(k), slug),
    decreases ds.len(),
{
    if k < ds.len() {
        assert(ds.drop_last().take(k) == ds.take(k));
        lemma_first_decision_prefix(ds.drop_last(), slug, k);
    } else {
        assert(ds.take(k) == ds);
    }
}

/// The nine fields of a row, escaped: source path, target (only with a decision), clicks,
/// position, decision, source, decision date (its first ten bytes), and the suggested
/// candidate with its similarity (only without a decision).
pub open spec fn row_fields(
    slug: Seq<char>,
    decision: Option<EolDecision>,
    clicks: Seq<char>,
    position: Seq<char>,
    candidate: Option<(Seq<char>, Seq<char>)>,
) -> Seq<Seq<char>> {
    let (target, action, source, date) = match decision {
        Some(d) => (
            match d.target_slug {
                Some(t) => t@,
                None => seq![],
            },
            d.action@,
            d.source@,
            match byte_prefix(d.decided_at@, 10) {
                Some(p) => p,
                None => seq![],
            },
        ),
        None => (seq![], seq![], seq![], seq![]),
    };
    let (cand, score) = match decision {
        Some(_) => (seq![], seq![]),
        None => match candidate {
            Some(c) => c,
            None => (seq![], seq![]),
        },
    };
    seq![
        csv_field(slug),
        csv_field(target),
        clicks,
        position,
        csv_field(action),
        csv_field(source),
        csv_field(date),
        csv_field(cand),
        score,
    ]
}

/// The row of a page in the redirect work list, and whether it is decided: pages kept on
/// purpose are left out, and so are undecided pages below the click threshold.
pub open spec fn redirect_row(
    ds: Seq<EolDecision>,
    slug: Seq<char>,
    meets_min: bool,
    clicks: Seq<char>,
    position: Seq<char>,
    candidate: Option<(Seq<char>, Seq<char>)>,
) -> Option<(Seq<char>, bool)> {
    let d = match first_decision(ds, slug) {
        Some(i) => Some(ds[i]),
        None => None,
    };
    match d {
        Some(x) => if x.action@ == "keep"@ {
            None
        } else {
            Some((join(row_fields(slug, d, clicks, position, candidate), ","@) + "\n"@, true))
        },
        None => if !meets_min {
            None
        } else {
            Some((join(row_fields(slug, d, clicks, position, candidate), ","@) + "\n"@, false))
        },
    }
}

fn opt_chars(o: &Option<String>) -> (r: Vec<char>)
    ensures
        r@ == match *o {
            Some(s) => s@,
            None => Seq::<char>::empty(),
        },
{
    match o {
        Some(s) => chars_of(s.as_str()),
        None => Vec::new(),
    }
}

/// Builds the row of one page (numbers come formatted: clicks rounded, position with one
/// decimal; the candidate is the best-matching live product and its similarity).
pub fn redirect_csv_row(
    ds: &[EolDecision],
    slug: &str,
    meets_min: bool,
    clicks: &str,
    position: &str,
    candidate: Option<(String, String)>,
) -> (r: Option<(String, bool)>)
    ensures
        match r {
            Some((line, decided)) => redirect_row(
                ds@,
                slug@,
                meets_min,
                clicks@,
                position@,
                match candidate {
                    Some(c) => Some((c.0@, c.1@)),
                    None => None,
                },
            ) == Some((line@, decided)),
            None => redirect_row(
                ds@,
                slug@,
                meets_min,
                clicks@,
                position@,
                match candidate {
                    Some(c) => Some((c.0@, c.1@)),
                    None => None,
                },
            ) is None,
        },
{
    let ghost cv = match &candidate {
        Some(c) => Some((c.0@, c.1@)),
        None => None,
    };
    let found = find_decision(ds, slug);
    let (target, action, source, date, decided): (Vec<char>, Vec<char>, Vec<char>, Vec<char>, bool) =
        match found {
        Some(i) => {
            let d = &ds[i];
            if str_eq(d.action.as_str(), "keep") {
                return None;
            }
            let date = match get_prefix(d.decided_at.as_str(), 10) {
                Some(p) => p,
                None => Vec::new(),
            };
            (opt_chars(&d.target_slug), chars_of(d.action.as_str()), chars_of(d.source.as_str()), date, true)
        },
        None => {
            if !meets_min {
                return None;
            }
            (Vec::new(), Vec::new(), Vec::new(), Vec::new(), false)
        },
    };
    let (cand, score): (Vec<char>, Vec<char>) = if decided {
        (Vec::new(), Vec::new())
    } else {
        match candidate {
            Some((a, b)) => (chars_of(a.as_str()), chars_of(b.as_str())),
            None => (Vec::new(), Vec::new()),
        }
    };
    let mut fields: Vec<Vec<char>> = Vec::new();
    fields.push(chars_of(csv(slug).as_str()));
    fields.push(chars_of(csv(string_of(target.as_slice()).as_str()).as_str()));
    fields.push(chars_of(clicks));
    fields.push(chars_of(position));
    fields.push(chars_of(csv(string_of(action.as_slice()).as_str()).as_str()));
    fields.push(chars_of(csv(string_of(source.as_slice()).as_str()).as_str()));
    fields.push(chars_of(csv(string_of(date.as_slice()).as_str()).as_str()));
    fields.push(chars_of(csv(string_of(cand.as_slice()).as_str()).as_str()));
    fields.push(score);
    let ghost d = match first_decision(ds@, slug@) {
        Some(i) => Some(ds@[i]),
        None => None,
    };
    assert(views(fields@) =~= row_fields(slug@, d, clicks@, position@, cv));
    let comma: [char; 1] = [','];
    assert(comma@ == ","@) by {
        reveal_strlit(",");
    }
    let mut out = join_words(&fields, &comma);
    out.push('\n');
    assert(out@ =~= join(row_fields(slug@, d, clicks@, position@, cv), ","@) + "\n"@) by {
        reveal_strlit("\n");
    }
    Some((string_of(out.as_slice()), decided))
}

/// A page kept on purpose never enters the work list.
pub proof fn law_kept_pages_are_left_out(
    ds: Seq<EolDecision>,
    slug: Seq<char>,
    meets_min: bool,
    clicks: Seq<char>,
    position: Seq<char>,
    candidate: Option<(Seq<char>, Seq<char>)>,
)
    requires
        first_decision(ds, slug) matches Some(i) && ds[i].action@ == "keep"@,
    ensures
        redirect_row(ds, slug, meets_min, clicks, position, candidate) is None,
{
}

/// An undecided row never carries a target or a decision: those columns stay empty, and
/// the candidate appears only in the information columns.
pub proof fn law_undecided_rows_have_no_target(
    slug: Seq<char>,
    clicks: Seq<char>,
    position: Seq<char>,
    candidate: Option<(Seq<char>, Seq<char>)>,
)
    ensures
        row_fields(slug, None, clicks, position, candidate)[1].len() == 0,
        row_fields(slug, None, clicks, position, candidate)[4].len() == 0,
{
    assert(csv_field(seq![]) == Seq::<char>::empty());
}

/// A decided row never carries a candidate: the information columns stay empty.
pub proof fn law_decided_rows_have_no_candidate(
    slug: Seq<char>,
    d: EolDecision,
    clicks: Seq<char>,
    position: Seq<char>,
    candidate: Option<(Seq<char>, Seq<char>)>,
)
    ensures
        row_fields(slug, Some(d), clicks, position, candidate)[7].len() == 0,
        row_fields(slug, Some(d), clicks, position, candidate)[8].len() == 0,
{
    assert(csv_field(seq![]) == Seq::<char>::empty());
}

} // verus!
