//! Earlier versions of generated content, kept before regeneration, and their light summaries
//! for the version list.

use vstd::prelude::*;
use crate::validation::{word_count, word_total};

verus! {

/// A stored meta version.
#[derive(Debug, Clone)]
pub struct MetaVersion {
    pub at: String,
    pub title: String,
    pub descriptions: String,
    pub keywords: String,
    pub search_keywords: String,
    pub target_keyword: String,
    pub model: String,
}

/// A stored description version.
#[derive(Debug, Clone)]
pub struct DetailsVersion {
    pub at: String,
    pub html: String,
    pub model: String,
}

/// Summary of a meta version: the title is the quickest way to recognise it.
#[derive(Debug, Clone)]
pub struct MetaVersionMeta {
    pub at: String,
    pub title: String,
    pub model: String,
}

/// Summary of a description version: its word count.
#[derive(Debug, Clone)]
pub struct DetailsVersionMeta {
    pub at: String,
    pub words: usize,
    pub model: String,
}

/// Summary of a technical table version.
#[derive(Debug, Clone)]
pub struct TechVersionMeta {
    pub at: String,
    pub rows: usize,
    pub groups: usize,
}

pub fn meta_version_meta(v: MetaVersion) -> (r: MetaVersionMeta)
    ensures
        r.at == v.at && r.title == v.title && r.model == v.model,
{
    MetaVersionMeta { at: v.at, title: v.title, model: v.model }
}

pub fn details_version_meta(v: DetailsVersion) -> (r: DetailsVersionMeta)
    ensures
        r.at == v.at && r.model == v.model,
        r.words == word_total(v.html@),
{
    let words = word_count(v.html.as_str());
    DetailsVersionMeta { at: v.at, words, model: v.model }
}

/// Sum of the row counts of the groups.
pub open spec fn total_rows(rows: Seq<usize>) -> int
    decreases rows.len(),
{
    if rows.len() == 0 {
        0
    } else {
        total_rows(rows.drop_last()) + rows.last()
    }
}

/// A technical table version summary: total rows over all groups, and the group count.
pub fn tech_version_meta(at: String, group_rows: &[usize]) -> (r: TechVersionMeta)
    requires
        total_rows(group_rows@) <= usize::MAX,
    ensures
        r.at == at,
        r.rows == total_rows(group_rows@),
        r.groups == group_rows@.len(),
{
    let mut sum: usize = 0;
    let mut i: usize = 0;
    proof {
        lemma_total_rows_prefix_le(group_rows@, 0);
    }
    while i < group_rows.len()
        invariant
            i <= group_rows@.len(),
            sum == total_rows(group_rows@.take(i as int)),
            total_rows(group_rows@) <= usize::MAX,
        decreases group_rows@.len() - i,
    {
        assert(group_rows@.take(i + 1).drop_last() == group_rows@.take(i as int));
        proof {
            lemma_total_rows_prefix_le(group_rows@, i + 1);
        }
        sum = sum + group_rows[i];
        i = i + 1;
    }
    assert(group_rows@.take(group_rows@.len() as int) == group_rows@);
    TechVersionMeta { at, rows: sum, groups: group_rows.len() }
}

proof fn lemma_total_rows_prefix_le(rows: Seq<usize>, k: int)
    requires
        0 <= k <= rows.len(),
    ensures
        total_rows(rows.take(k)) <= total_rows(rows),
        0 <= total_rows(rows.take(k)),
    decreases rows.len(),
{
    if k == rows.len() {
        assert(rows.take(k) == rows);
        lemma_total_rows_nonneg(rows);
    } else {
        assert(rows.take(k) == rows.drop_last().take(k));
        lemma_total_rows_prefix_le(rows.drop_last(), k);
    }
}

proof fn lemma_total_rows_nonneg(rows: Seq<usize>)
    ensures
        0 <= total_rows(rows),
    decreases rows.len(),
{
    if rows.len() > 0 {
        lemma_total_rows_nonneg(rows.drop_last());
    }
}

/// Most earlier versions kept per field.
pub const HISTORY_MAX: usize = 5;

/// A history with a new entry: newest first, the oldest dropped beyond the limit.
pub open spec fn pushed<T>(h: Seq<T>, v: T) -> Seq<T> {
    let s = h.insert(0, v);
    if s.len() > HISTORY_MAX {
        s.take(HISTORY_MAX as int)
    } else {
        s
    }
}

pub fn push_version<T>(h: Vec<T>, v: T) -> (r: Vec<T>)
    ensures
        r@ == pushed(h@, v),
{
    let mut h = h;
    h.insert(0, v);
    if h.len() > HISTORY_MAX {
        h.truncate(HISTORY_MAX);
    }
    h
}

/// Restoring version `index` swaps it with the current content: the chosen version leaves
/// the history and becomes current, and the current content (when there is one) enters the
/// history; an index past the end is refused.
pub open spec fn restored<T>(h: Seq<T>, index: int, current: Option<T>) -> Result<(T, Seq<T>), Seq<char>> {
    if index < 0 || index >= h.len() {
        Err("Bu sürüm artık mevcut değil."@)
    } else {
        let rest = h.remove(index);
        Ok((
            h[index],
            match current {
                Some(c) => pushed(rest, c),
                None => rest,
            },
        ))
    }
}

pub fn restore_version<T>(h: Vec<T>, index: usize, current: Option<T>) -> (r: Result<(T, Vec<T>), String>)
    ensures
        match r {
            Ok((x, v)) => restored(h@, index as int, current) == Ok::<(T, Seq<T>), Seq<char>>((x, v@)),
            Err(e) => restored(h@, index as int, current) == Err::<(T, Seq<T>), Seq<char>>(e@),
        },
{
    if index >= h.len() {
        return Err(crate::text::string_of(crate::text::chars_of("Bu sürüm artık mevcut değil.").as_slice()));
    }
    let mut h = h;
    let x = h.remove(index);
    let rest = match current {
        Some(c) => push_version(h, c),
        None => h,
    };
    Ok((x, rest))
}

/// A restore can be undone: restoring the newest history entry right after a restore
/// brings back the content that was current before, and the history then holds the
/// version restored first, newest first.
pub proof fn law_restore_can_be_undone<T>(h: Seq<T>, index: int, current: T)
    requires
        h.len() <= HISTORY_MAX,
        0 <= index < h.len(),
    ensures
        ({
            let (r, h2) = restored(h, index, Some(current))->Ok_0;
            &&& restored(h, index, Some(current)) is Ok
            &&& restored(h2, 0, Some(r)) == Ok::<(T, Seq<T>), Seq<char>>((current, pushed(h.remove(index), r)))
        }),
{
    let rest = h.remove(index);
    let h2 = pushed(rest, current);
    assert(rest.insert(0, current).len() <= HISTORY_MAX);
    assert(h2 == rest.insert(0, current));
    assert(h2[0] == current);
    assert(h2.remove(0) =~= rest);
}

/// The history never grows beyond its limit.
pub proof fn law_history_is_capped<T>(h: Seq<T>, v: T)
    requires
        h.len() <= HISTORY_MAX,
    ensures
        pushed(h, v).len() <= HISTORY_MAX,
        pushed(h, v)[0] == v,
{
}

/// The current meta content enters the history on a restore when its title or description is
/// not blank.
pub open spec fn meta_current(cur: MetaVersion) -> Option<MetaVersion> {
    if crate::text::trim(cur.title@).len() > 0 || crate::text::trim(cur.descriptions@).len() > 0 {
        Some(cur)
    } else {
        None
    }
}

/// Restores meta version `index`: it becomes current, and the current content (stamped by
/// the caller) enters the history unless its title and description are both blank.
pub fn restore_meta(h: Vec<MetaVersion>, index: usize, cur: MetaVersion) -> (r: Result<(MetaVersion, Vec<MetaVersion>), String>)
    ensures
        match r {
            Ok((x, v)) => restored(h@, index as int, meta_current(cur)) == Ok::<(MetaVersion, Seq<MetaVersion>), Seq<char>>((x, v@)),
            Err(e) => restored(h@, index as int, meta_current(cur)) == Err::<(MetaVersion, Seq<MetaVersion>), Seq<char>>(e@),
        },
{
    let keep = crate::text::trim_str(cur.title.as_str()).len() > 0 || crate::text::trim_str(cur.descriptions.as_str()).len() > 0;
    let c = if keep { Some(cur) } else { None };
    restore_version(h, index, c)
}

/// The current description enters the history on a restore when it is not blank.
pub open spec fn details_current(cur: DetailsVersion) -> Option<DetailsVersion> {
    if crate::text::trim(cur.html@).len() > 0 {
        Some(cur)
    } else {
        None
    }
}

/// Restores description version `index`, with the same exchange as [`restore_meta`].
pub fn restore_details(h: Vec<DetailsVersion>, index: usize, cur: DetailsVersion) -> (r: Result<(DetailsVersion, Vec<DetailsVersion>), String>)
    ensures
        match r {
            Ok((x, v)) => restored(h@, index as int, details_current(cur)) == Ok::<(DetailsVersion, Seq<DetailsVersion>), Seq<char>>((x, v@)),
            Err(e) => restored(h@, index as int, details_current(cur)) == Err::<(DetailsVersion, Seq<DetailsVersion>), Seq<char>>(e@),
        },
{
    let keep = crate::text::trim_str(cur.html.as_str()).len() > 0;
    let c = if keep { Some(cur) } else { None };
    restore_version(h, index, c)
}

/// Restores technical table version `index`: the current table (with `cur_groups` groups)
/// enters the history unless it has no group.
pub fn restore_tech<T>(h: Vec<T>, index: usize, cur: T, cur_groups: usize) -> (r: Result<(T, Vec<T>), String>)
    ensures
        match r {
            Ok((x, v)) => restored(h@, index as int, if cur_groups > 0 { Some(cur) } else { None }) == Ok::<(T, Seq<T>), Seq<char>>((x, v@)),
            Err(e) => restored(h@, index as int, if cur_groups > 0 { Some(cur) } else { None }) == Err::<(T, Seq<T>), Seq<char>>(e@),
        },
{
    let c = if cur_groups > 0 { Some(cur) } else { None };
    restore_version(h, index, c)
}

/// A meta restore can be undone: restoring the newest history entry right after brings the
/// content that was current back, whenever that content had a title or a description.
pub proof fn law_meta_restore_undo(h: Seq<MetaVersion>, index: int, cur: MetaVersion)
    requires
        h.len() <= HISTORY_MAX,
        0 <= index < h.len(),
        meta_current(cur) is Some,
    ensures
        ({
            let (r, h2) = restored(h, index, meta_current(cur))->Ok_0;
            &&& restored(h, index, meta_current(cur)) is Ok
            &&& restored(h2, 0, meta_current(r)) matches Ok((x, _)) && x == cur
        }),
{
    law_restore_can_be_undone(h, index, cur);
    let rest = h.remove(index);
    let h2 = pushed(rest, cur);
    assert(rest.insert(0, cur).len() <= HISTORY_MAX);
    assert(h2 == rest.insert(0, cur));
    assert(h2[0] == cur);
}

} // verus!
