//! Product list rules: search and status filters, the feed-change flag raised after an
//! approval, what changed in the feed, and when a regeneration keeps the previous version.

use vstd::prelude::*;
use crate::gemini::string_views;
use crate::text::{chars_of, contains, contains_chars, lowercase, lowercase_chars, str_eq, string_of, trim, trim_str};
use crate::validation::{badge_of, html_strip, meta_badge, plain_text, MetaBadge, MetaInput};

verus! {

/// One field that differs between the approved and the current feed data.
#[derive(Debug, Clone)]
pub struct FeedFieldDiff {
    pub field: String,
    /// The approved value (descriptions without markup: the user compares texts).
    pub old: String,
    pub new: String,
}

/// The answer to "what changed?".
#[derive(Debug, Clone)]
pub struct FeedDiff {
    /// Whether the approved values were recorded (not for approvals older than the record).
    pub has_snapshot: bool,
    /// The names of the changed fields, known even without a record.
    pub changed_fields: Vec<String>,
    pub fields: Vec<FeedFieldDiff>,
    pub images_old: Vec<String>,
    pub images_new: Vec<String>,
}

pub open spec fn opt_seq(o: Option<String>) -> Option<Seq<char>> {
    match o {
        Some(s) => Some(s@),
        None => None,
    }
}

/// The feed changed after the user approved the product: there is an approval stamp and it
/// differs from the current fingerprint. The note names the changed fields, or says "feed
/// verisi" when no list was written.
pub open spec fn change_note(feed_fp: Option<Seq<char>>, reviewed_fp: Option<Seq<char>>, changed: Option<Seq<char>>) -> Option<Seq<char>> {
    match (reviewed_fp, feed_fp) {
        (Some(r), Some(c)) => if r == c {
            None
        } else {
            match changed {
                Some(x) => Some(x),
                None => Some("feed verisi"@),
            }
        },
        _ => None,
    }
}

pub fn feed_change_note(feed_fp: Option<String>, reviewed_fp: Option<String>, changed: Option<String>) -> (r: Option<String>)
    ensures
        opt_seq(r) == change_note(opt_seq(feed_fp), opt_seq(reviewed_fp), opt_seq(changed)),
{
    let reviewed = match reviewed_fp {
        Some(x) => x,
        None => return None,
    };
    let current = match feed_fp {
        Some(x) => x,
        None => return None,
    };
    if str_eq(reviewed.as_str(), current.as_str()) {
        return None;
    }
    match changed {
        Some(c) => Some(c),
        None => Some(string_of(chars_of("feed verisi").as_slice())),
    }
}

/// Without an approval stamp there is no flag: a product never approved is simply pending.
pub proof fn law_no_flag_without_approval(feed_fp: Option<Seq<char>>, changed: Option<Seq<char>>)
    ensures
        change_note(feed_fp, None, changed) is None,
{
}

/// The flag is raised exactly when the stamp and the current fingerprint differ, even when
/// no changed field was written down.
pub proof fn law_flag_iff_fingerprint_differs(r: Seq<char>, c: Seq<char>, changed: Option<Seq<char>>)
    ensures
        change_note(Some(c), Some(r), changed) is Some <==> r != c,
{
}

/// The pieces of `s` between occurrences of `", "`, scanning from `start` (matched left to
/// right, without overlap), as `str::split(", ")` yields them.
pub open spec fn comma_pieces(s: Seq<char>, start: int, i: int) -> Seq<Seq<char>>
    decreases s.len() - i,
{
    if i < start || i >= s.len() {
        seq![s.subrange(start, s.len() as int)]
    } else if i + 1 < s.len() && s[i] == ',' && s[i + 1] == ' ' {
        seq![s.subrange(start, i)] + comma_pieces(s, i + 2, i + 2)
    } else {
        comma_pieces(s, start, i + 1)
    }
}

pub open spec fn non_blank(s: Seq<char>) -> bool {
    trim(s).len() > 0
}

pub open spec fn not_blank() -> spec_fn(Seq<char>) -> bool {
    |p: Seq<char>| non_blank(p)
}

/// The changed field names of a note: its comma-separated pieces that are not blank.
pub open spec fn note_fields(note: Option<Seq<char>>) -> Seq<Seq<char>> {
    let s = match note {
        Some(x) => x,
        None => seq![],
    };
    comma_pieces(s, 0, 0).filter(not_blank())
}

fn push_if_non_blank(out: &mut Vec<String>, piece: Vec<char>)
    ensures
        string_views(final(out)@) == string_views(old(out)@) + seq![piece@].filter(not_blank()),
{
    let ghost before = string_views(out@);
    let t = trim_str(string_of(piece.as_slice()).as_str());
    proof {
        seq![piece@].lemma_filter_push(piece@, not_blank());
        assert(Seq::<Seq<char>>::empty().push(piece@) == seq![piece@]);
        Seq::<Seq<char>>::empty().lemma_filter_push(piece@, not_blank());
        assert(Seq::<Seq<char>>::empty().filter(not_blank()) =~= Seq::<Seq<char>>::empty());
    }
    if t.len() > 0 {
        out.push(string_of(piece.as_slice()));
        assert(string_views(out@) =~= before + seq![piece@]);
    } else {
        assert(string_views(out@) =~= before);
    }
}

/// The changed field names a note lists.
pub fn split_note(note: Option<String>) -> (r: Vec<String>)
    ensures
        string_views(r@) == note_fields(opt_seq(note)),
{
    let s: Vec<char> = match &note {
        Some(x) => chars_of(x.as_str()),
        None => Vec::new(),
    };
    let ghost sv = s@;
    let ghost all = comma_pieces(sv, 0, 0);
    let n = s.len();
    let mut out: Vec<String> = Vec::new();
    let mut start: usize = 0;
    let mut i: usize = 0;
    let ghost done: Seq<Seq<char>> = seq![];
    while i < n
        invariant
            s@ == sv,
            n == sv.len(),
            start <= i <= n,
            all == comma_pieces(sv, 0, 0),
            all == done + comma_pieces(sv, start as int, i as int),
            string_views(out@) == done.filter(not_blank()),
        decreases n - i,
    {
        if i + 1 < n && s[i] == ',' && s[i + 1] == ' ' {
            let piece = crate::text::slice_to_vec_range(s.as_slice(), start, i);
            proof {
                (done + seq![piece@]).lemma_filter_push(piece@, not_blank());
                Seq::<Seq<char>>::filter_distributes_over_add(done, seq![piece@], not_blank());
                assert(done + seq![piece@] + comma_pieces(sv, i + 2, i + 2) == done + (seq![piece@]
                    + comma_pieces(sv, i + 2, i + 2)));
                done = done + seq![piece@];
            }
            push_if_non_blank(&mut out, piece);
            start = i + 2;
            i = i + 2;
        } else {
            i = i + 1;
        }
    }
    let piece = crate::text::slice_to_vec_range(s.as_slice(), start, n);
    proof {
        Seq::<Seq<char>>::filter_distributes_over_add(done, seq![piece@], not_blank());
    }
    push_if_non_blank(&mut out, piece);
    out
}

pub open spec fn blank_free(v: Seq<String>) -> Seq<Seq<char>> {
    string_views(v).filter(not_blank())
}

/// The image addresses that are not blank, in order.
pub fn clean_images(v: &Vec<String>) -> (r: Vec<String>)
    ensures
        string_views(r@) == blank_free(v@),
{
    let mut out: Vec<String> = Vec::new();
    let mut i: usize = 0;
    while i < v.len()
        invariant
            i <= v@.len(),
            string_views(out@) == string_views(v@.take(i as int)).filter(not_blank()),
        decreases v@.len() - i,
    {
        let ghost before = string_views(out@);
        assert(string_views(v@.take(i + 1)) == string_views(v@.take(i as int)).push(v@[i as int]@));
        proof {
            string_views(v@.take(i as int)).lemma_filter_push(v@[i as int]@, not_blank());
        }
        let t = trim_str(v[i].as_str());
        if t.len() > 0 {
            out.push(string_of(chars_of(v[i].as_str()).as_slice()));
            assert(string_views(out@) =~= before.push(v@[i as int]@));
        }
        i = i + 1;
    }
    assert(v@.take(v@.len() as int) == v@);
    out
}

/// The diff when the approved values were not recorded: only the field names from the
/// note, and the current images.
pub fn diff_without_snapshot(note: Option<String>, images_now: &Vec<String>) -> (r: FeedDiff)
    ensures
        !r.has_snapshot,
        string_views(r.changed_fields@) == note_fields(opt_seq(note)),
        r.fields@.len() == 0,
        r.images_old@.len() == 0,
        string_views(r.images_new@) == blank_free(images_now@),
{
    FeedDiff {
        has_snapshot: false,
        changed_fields: split_note(note),
        fields: Vec::new(),
        images_old: Vec::new(),
        images_new: clean_images(images_now),
    }
}

pub open spec fn diff_view(d: FeedFieldDiff) -> (Seq<char>, Seq<char>, Seq<char>) {
    (d.field@, d.old@, d.new@)
}

/// The text fields among the changed ones, old and new compared without markup.
pub open spec fn text_diffs(changed: Seq<String>, texts: Seq<Option<(String, String)>>, n: int) -> Seq<(Seq<char>, Seq<char>, Seq<char>)>
    decreases n,
{
    if n <= 0 {
        seq![]
    } else {
        let p = text_diffs(changed, texts, n - 1);
        match texts[n - 1] {
            Some((a, b)) => p.push((changed[n - 1]@, plain_text(a@), plain_text(b@))),
            None => p,
        }
    }
}

/// The diff against the recorded approval: the changed field names, the changed text fields
/// (given with their approved and current texts; `None` for fields that are not text), and
/// both image lists without blanks.
pub fn diff_with_snapshot(
    changed: &Vec<String>,
    texts: &Vec<Option<(String, String)>>,
    images_old: &Vec<String>,
    images_new: &Vec<String>,
) -> (r: FeedDiff)
    requires
        changed@.len() == texts@.len(),
    ensures
        r.has_snapshot,
        string_views(r.changed_fields@) == string_views(changed@),
        r.fields@.map_values(|d: FeedFieldDiff| diff_view(d)) == text_diffs(changed@, texts@, changed@.len() as int),
        string_views(r.images_old@) == blank_free(images_old@),
        string_views(r.images_new@) == blank_free(images_new@),
{
    let mut names: Vec<String> = Vec::new();
    let mut fields: Vec<FeedFieldDiff> = Vec::new();
    let mut i: usize = 0;
    while i < changed.len()
        invariant
            i <= changed@.len() == texts@.len(),
            string_views(names@) == string_views(changed@.take(i as int)),
            fields@.map_values(|d: FeedFieldDiff| diff_view(d)) == text_diffs(changed@, texts@, i as int),
        decreases changed@.len() - i,
    {
        let ghost n0 = names@;
        let ghost f0 = fields@;
        let nm = string_of(chars_of(changed[i].as_str()).as_slice());
        assert(nm@ == changed@[i as int]@);
        names.push(nm);
        assert(string_views(n0).len() == n0.len());
        assert(string_views(names@).len() == names@.len());
        assert(changed@.take(i + 1) == changed@.take(i as int).push(changed@[i as int]));
        assert forall|t: int| 0 <= t < i + 1 implies #[trigger] string_views(names@)[t] == string_views(
            changed@.take(i + 1),
        )[t] by {
            if t < i {
                assert(names@[t] == n0[t]);
                assert(string_views(n0)[t] == string_views(changed@.take(i as int))[t]);
                assert(changed@.take(i as int)[t] == changed@.take(i + 1)[t]);
            } else {
                assert(names@[t] == nm);
                assert(changed@.take(i + 1)[t] == changed@[i as int]);
            }
        }
        assert(string_views(names@) =~= string_views(changed@.take(i + 1)));
        match &texts[i] {
            Some((a, b)) => {
                let d = FeedFieldDiff {
                    field: string_of(chars_of(changed[i].as_str()).as_slice()),
                    old: html_strip(a.as_str()),
                    new: html_strip(b.as_str()),
                };
                fields.push(d);
                assert(fields@.map_values(|d: FeedFieldDiff| diff_view(d)) =~= f0.map_values(
                    |d: FeedFieldDiff| diff_view(d),
                ).push((changed@[i as int]@, plain_text(a@), plain_text(b@))));
            },
            None => {},
        }
        i = i + 1;
    }
    assert(changed@.take(changed@.len() as int) == changed@);
    FeedDiff {
        has_snapshot: true,
        changed_fields: names,
        fields,
        images_old: clean_images(images_old),
        images_new: clean_images(images_new),
    }
}

/// The overall state of a product in the list.
#[derive(Debug, Clone, Copy, PartialEq, Eq, Structural)]
pub enum OverallStatus {
    Eksik,
    Hatali,
    Bekliyor,
    Uygun,
    Tamamlandi,
}

/// The list's search: a blank query keeps everything, otherwise the product name or sku
/// must contain it, ignoring case.
pub open spec fn search_keeps(name: Seq<char>, sku: Seq<char>, search: Option<Seq<char>>) -> bool {
    let q = lowercase(
        trim(
            match search {
                Some(s) => s,
                None => seq![],
            },
        ),
    );
    q.len() == 0 || contains(lowercase(name), q) || contains(lowercase(sku), q)
}

pub fn matches_search(name: &str, sku: &str, search: Option<&str>) -> (r: bool)
    ensures
        r == search_keeps(
            name@,
            sku@,
            match search {
                Some(s) => Some(s@),
                None => None,
            },
        ),
{
    let raw: Vec<char> = match search {
        Some(s) => trim_str(s),
        None => {
            assert(trim(Seq::<char>::empty()) =~= Seq::<char>::empty());
            Vec::new()
        },
    };
    let q = lowercase_chars(raw.as_slice());
    if q.len() == 0 {
        return true;
    }
    let n = lowercase_chars(chars_of(name).as_slice());
    if contains_chars(n.as_slice(), q.as_slice()) {
        return true;
    }
    let k = lowercase_chars(chars_of(sku).as_slice());
    contains_chars(k.as_slice(), q.as_slice())
}

/// The list's status filter; an unknown filter is an error.
pub open spec fn filter_rule(filter: Seq<char>, overall: OverallStatus, feed_changed: bool) -> Result<bool, Seq<char>> {
    if filter == ""@ || filter == "hepsi"@ {
        Ok(true)
    } else if filter == "tumu"@ {
        Ok(overall != OverallStatus::Tamamlandi)
    } else if filter == "eksik"@ {
        Ok(overall == OverallStatus::Eksik)
    } else if filter == "hatali"@ {
        Ok(overall == OverallStatus::Hatali)
    } else if filter == "bekliyor"@ {
        Ok(overall == OverallStatus::Bekliyor)
    } else if filter == "uygun"@ {
        Ok(overall == OverallStatus::Uygun)
    } else if filter == "tamamlandi"@ {
        Ok(overall == OverallStatus::Tamamlandi)
    } else if filter == "degisti"@ {
        Ok(feed_changed)
    } else {
        Err("Bilinmeyen filtre: "@ + filter)
    }
}

pub fn filter_keeps(filter: &str, overall: OverallStatus, feed_changed: bool) -> (r: Result<bool, String>)
    ensures
        match r {
            Ok(b) => filter_rule(filter@, overall, feed_changed) == Ok::<bool, Seq<char>>(b),
            Err(e) => filter_rule(filter@, overall, feed_changed) == Err::<bool, Seq<char>>(e@),
        },
{
    if str_eq(filter, "") || str_eq(filter, "hepsi") {
        Ok(true)
    } else if str_eq(filter, "tumu") {
        Ok(overall != OverallStatus::Tamamlandi)
    } else if str_eq(filter, "eksik") {
        Ok(overall == OverallStatus::Eksik)
    } else if str_eq(filter, "hatali") {
        Ok(overall == OverallStatus::Hatali)
    } else if str_eq(filter, "bekliyor") {
        Ok(overall == OverallStatus::Bekliyor)
    } else if str_eq(filter, "uygun") {
        Ok(overall == OverallStatus::Uygun)
    } else if str_eq(filter, "tamamlandi") {
        Ok(overall == OverallStatus::Tamamlandi)
    } else if str_eq(filter, "degisti") {
        Ok(feed_changed)
    } else {
        let mut m = chars_of("Bilinmeyen filtre: ");
        crate::text::extend_str(&mut m, filter);
        Err(string_of(m.as_slice()))
    }
}

/// The name of the list filter that shows the products of one overall status.
pub open spec fn status_filter(o: OverallStatus) -> Seq<char> {
    match o {
        OverallStatus::Eksik => "eksik"@,
        OverallStatus::Hatali => "hatali"@,
        OverallStatus::Bekliyor => "bekliyor"@,
        OverallStatus::Uygun => "uygun"@,
        OverallStatus::Tamamlandi => "tamamlandi"@,
    }
}

/// Each status filter keeps exactly the products of its own status (so no product shows
/// under two status filters); `hepsi` and the empty filter keep everything, `tumu` keeps
/// everything not done, `degisti` keeps the products whose feed changed, whatever their status.
pub proof fn law_status_filters_partition(overall: OverallStatus, status: OverallStatus, feed_changed: bool)
    ensures
        filter_rule(status_filter(status), overall, feed_changed) == Ok::<bool, Seq<char>>(overall == status),
        filter_rule("hepsi"@, overall, feed_changed) == Ok::<bool, Seq<char>>(true),
        filter_rule(""@, overall, feed_changed) == Ok::<bool, Seq<char>>(true),
        filter_rule("tumu"@, overall, feed_changed) == Ok::<bool, Seq<char>>(overall != OverallStatus::Tamamlandi),
        filter_rule("degisti"@, overall, feed_changed) == Ok::<bool, Seq<char>>(feed_changed),
{
    reveal_strlit("");
    reveal_strlit("hepsi");
    reveal_strlit("tumu");
    reveal_strlit("eksik");
    reveal_strlit("hatali");
    reveal_strlit("bekliyor");
    reveal_strlit("uygun");
    reveal_strlit("tamamlandi");
    reveal_strlit("degisti");
    // the filter names differ in length, or in their first letter
    assert(""@.len() == 0 && "hepsi"@.len() == 5 && "tumu"@.len() == 4 && "eksik"@.len() == 5);
    assert("hatali"@.len() == 6 && "bekliyor"@.len() == 8 && "uygun"@.len() == 5);
    assert("tamamlandi"@.len() == 10 && "degisti"@.len() == 7);
    assert("hepsi"@[0] != "eksik"@[0] && "hepsi"@[0] != "uygun"@[0] && "eksik"@[0] != "uygun"@[0]);
    assert("hepsi"@ != "eksik"@ && "hepsi"@ != "uygun"@ && "eksik"@ != "uygun"@);
}

/// Number of image addresses that are present and not blank.
pub open spec fn image_total(urls: Seq<Option<String>>, n: int) -> int
    decreases n,
{
    if n <= 0 {
        0
    } else {
        image_total(urls, n - 1) + match urls[n - 1] {
            Some(u) => if non_blank(u@) {
                1int
            } else {
                0int
            },
            None => 0int,
        }
    }
}

/// The gallery of a product: its image addresses that are present and not blank, in order.
pub open spec fn gallery_of(urls: Seq<Option<String>>, n: int) -> Seq<Seq<char>>
    decreases n,
{
    if n <= 0 {
        seq![]
    } else {
        gallery_of(urls, n - 1) + match urls[n - 1] {
            Some(u) => if non_blank(u@) {
                seq![u@]
            } else {
                seq![]
            },
            None => seq![],
        }
    }
}

pub fn gallery(urls: &[Option<String>]) -> (r: Vec<String>)
    ensures
        string_views(r@) == gallery_of(urls@, urls@.len() as int),
{
    let mut out: Vec<String> = Vec::new();
    let mut i: usize = 0;
    while i < urls.len()
        invariant
            i <= urls@.len(),
            string_views(out@) == gallery_of(urls@, i as int),
        decreases urls@.len() - i,
    {
        let ghost before = out@;
        match &urls[i] {
            Some(u) => {
                if trim_str(u.as_str()).len() > 0 {
                    out.push(string_of(chars_of(u.as_str()).as_slice()));
                    assert(string_views(out@) =~= string_views(before).push(u@));
                }
            },
            None => {},
        }
        assert(string_views(out@) =~= gallery_of(urls@, i + 1));
        i = i + 1;
    }
    out
}

pub fn image_count(urls: &[Option<String>]) -> (r: usize)
    ensures
        r == image_total(urls@, urls@.len() as int),
{
    let mut c: usize = 0;
    let mut i: usize = 0;
    while i < urls.len()
        invariant
            i <= urls@.len(),
            c == image_total(urls@, i as int),
            c <= i,
        decreases urls@.len() - i,
    {
        match &urls[i] {
            Some(u) => {
                if trim_str(u.as_str()).len() > 0 {
                    c = c + 1;
                }
            },
            None => {},
        }
        i = i + 1;
    }
    c
}

/// A technical table exists when its stored JSON is neither blank nor an empty array.
pub open spec fn tech_present(json: Option<Seq<char>>) -> bool {
    match json {
        Some(j) => trim(j).len() > 0 && trim(j) != "[]"@,
        None => false,
    }
}

pub fn has_tech(json: Option<&str>) -> (r: bool)
    ensures
        r == tech_present(
            match json {
                Some(j) => Some(j@),
                None => None,
            },
        ),
{
    match json {
        Some(j) => {
            let t = string_of(trim_str(j).as_slice());
            t.as_str().unicode_len() > 0 && !str_eq(t.as_str(), "[]")
        },
        None => false,
    }
}

/// A field as the badges read it: the draft when there is one, the feed value otherwise.
pub open spec fn draft_or_feed(draft: Option<Seq<char>>, feed: Option<Seq<char>>) -> Seq<char> {
    match draft {
        Some(d) => d,
        None => match feed {
            Some(f) => f,
            None => seq![],
        },
    }
}

pub fn pick_draft<'a>(draft: Option<&'a str>, feed: Option<&'a str>) -> (r: &'a str)
    ensures
        r@ == draft_or_feed(
            match draft {
                Some(d) => Some(d@),
                None => None,
            },
            match feed {
                Some(f) => Some(f@),
                None => None,
            },
        ),
{
    proof {
        reveal_strlit("");
    }
    match draft {
        Some(d) => d,
        None => match feed {
            Some(f) => f,
            None => "",
        },
    }
}

/// A regeneration keeps the previous meta as a version only when there was one (title or
/// description not blank) and the new one differs from it (trimmed title or description).
pub open spec fn keeps_meta_version(cur_title: Seq<char>, cur_desc: Seq<char>, new_title: Seq<char>, new_desc: Seq<char>) -> bool {
    !(trim(cur_title).len() == 0 && trim(cur_desc).len() == 0) && !(trim(cur_title) == trim(new_title)
        && trim(cur_desc) == trim(new_desc))
}

pub fn meta_version_due(cur_title: &str, cur_desc: &str, new_title: &str, new_desc: &str) -> (r: bool)
    ensures
        r == keeps_meta_version(cur_title@, cur_desc@, new_title@, new_desc@),
{
    let ct = trim_str(cur_title);
    let cd = trim_str(cur_desc);
    if ct.len() == 0 && cd.len() == 0 {
        return false;
    }
    let nt = trim_str(new_title);
    let nd = trim_str(new_desc);
    !(crate::text::eq_chars(ct.as_slice(), nt.as_slice()) && crate::text::eq_chars(cd.as_slice(), nd.as_slice()))
}

/// The same rule for the description: a non-blank previous one that differs from the new.
pub open spec fn keeps_details_version(cur: Seq<char>, new: Seq<char>) -> bool {
    trim(cur).len() > 0 && trim(cur) != trim(new)
}

pub fn details_version_due(cur: &str, new: &str) -> (r: bool)
    ensures
        r == keeps_details_version(cur@, new@),
{
    let c = trim_str(cur);
    if c.len() == 0 {
        return false;
    }
    let n = trim_str(new);
    !crate::text::eq_chars(c.as_slice(), n.as_slice())
}

/// Regenerating the same content never opens a version, so the history holds only real
/// earlier states.
pub proof fn law_same_content_keeps_no_version(title: Seq<char>, desc: Seq<char>, html: Seq<char>)
    ensures
        !keeps_meta_version(title, desc, title, desc),
        !keeps_details_version(html, html),
{
}

/// Marking a product's meta, description or technical table done toggles its status: done
/// becomes pending, anything else becomes done.
pub open spec fn toggled(current: Seq<char>) -> Seq<char> {
    if current == "done"@ {
        "pending"@
    } else {
        "done"@
    }
}

pub fn toggle_status(current: &str) -> (r: &'static str)
    ensures
        r@ == toggled(current@),
{
    if str_eq(current, "done") {
        "pending"
    } else {
        "done"
    }
}

/// Toggling twice gives back a done or pending status.
pub proof fn law_toggle_twice(current: Seq<char>)
    requires
        current == "done"@ || current == "pending"@,
    ensures
        toggled(toggled(current)) == current,
{
    reveal_strlit("done");
    reveal_strlit("pending");
}


pub open spec fn opt_str(o: Option<&str>) -> Option<Seq<char>> {
    match o {
        Some(x) => Some(x@),
        None => None,
    }
}

/// The meta badge of a product: over the draft fields when there are drafts, the feed fields
/// otherwise; a missing keyword is an empty one.
pub fn meta_badge_of(
    draft_title: Option<&str>,
    title: Option<&str>,
    draft_descriptions: Option<&str>,
    descriptions: Option<&str>,
    target_keyword: Option<&str>,
    meta_status: &str,
) -> (r: MetaBadge)
    ensures
        r == badge_of(
            draft_or_feed(opt_str(draft_title), opt_str(title)),
            draft_or_feed(opt_str(draft_descriptions), opt_str(descriptions)),
            draft_or_feed(opt_str(target_keyword), None),
            meta_status@ == "done"@,
        ),
{
    meta_badge(
        &MetaInput {
            title: pick_draft(draft_title, title),
            descriptions: pick_draft(draft_descriptions, descriptions),
            target_keyword: pick_draft(target_keyword, None),
            meta_done: str_eq(meta_status, "done"),
        },
    )
}

/// The technical table badge: done wins, a table with at least one group is suitable, no
/// table is missing.
pub open spec fn tech_badge_of(tech_status: Seq<char>, has_groups: bool) -> MetaBadge {
    if tech_status == "done"@ {
        MetaBadge::Tamamlandi
    } else if has_groups {
        MetaBadge::Uygun
    } else {
        MetaBadge::Eksik
    }
}

pub fn tech_badge(tech_status: &str, has_groups: bool) -> (r: MetaBadge)
    ensures
        r == tech_badge_of(tech_status@, has_groups),
{
    if str_eq(tech_status, "done") {
        MetaBadge::Tamamlandi
    } else if has_groups {
        MetaBadge::Uygun
    } else {
        MetaBadge::Eksik
    }
}

} // verus!
