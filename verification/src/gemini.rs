//! Rules around the generated content: meta rule violations and corrections, the model
//! fallback chain, and the structure-preserving rewriting of product description HTML.

use vstd::prelude::*;
use vstd::string::StringSliceAdditionalSpecFns;
use crate::text::{
    at_boundary, byte_slice_chars, byte_text, chars_of, collapse_ws, collapse_ws_chars, contains,
    contains_chars, eq_chars, extend_chars, extend_str, lowercase, lowercase_chars, occurs_at, pair_view,
    replace_all, splice_spans, spans_ok, spliced, string_of, trim, trim_bounds, trim_str, views,
};
use crate::validation::{badge_of, desc_len_ok, grapheme_count, grapheme_len, title_len_ok, MetaBadge};

verus! {

/// The five meta fields a model returns.
#[derive(Debug, Clone)]
pub struct GeneratedMeta {
    pub target_keyword: String,
    pub title: String,
    pub descriptions: String,
    pub keywords: String,
    pub search_keywords: String,
}

pub open spec fn flag(b: bool) -> nat {
    if b {
        1
    } else {
        0
    }
}

/// Number of broken meta rules: title length, description length, and (with a keyword)
/// the keyword missing from the title and from the description.
pub open spec fn violations(title: Seq<char>, desc: Seq<char>, keyword: Seq<char>) -> nat {
    let kw = lowercase(trim(keyword));
    flag(!title_len_ok(grapheme_count(trim(title)))) + flag(!desc_len_ok(grapheme_count(trim(desc))))
        + if kw.len() > 0 {
        flag(!contains(lowercase(title), kw)) + flag(!contains(lowercase(desc), kw))
    } else {
        0
    }
}

fn trimmed_graphemes(s: &str) -> (r: usize)
    ensures
        r == grapheme_count(trim(s@)),
        r == 0 <==> trim(s@).len() == 0,
{
    let t = string_of(trim_str(s).as_slice());
    grapheme_len(t.as_str())
}

fn lower_contains(text: &str, kw: &[char]) -> (r: bool)
    ensures
        r == contains(lowercase(text@), kw@),
{
    let v = chars_of(text);
    let l = lowercase_chars(v.as_slice());
    contains_chars(l.as_slice(), kw)
}

/// Counts the broken meta rules (to pick the better of two attempts). For a title and a
/// description without surrounding space, no rule is broken exactly when the badge is
/// suitable, that is exactly when no correction is asked.
pub fn violation_count(meta: &GeneratedMeta) -> (r: u32)
    ensures
        r == violations(meta.title@, meta.descriptions@, meta.target_keyword@),
        meta.title@ == trim(meta.title@) && meta.descriptions@ == trim(meta.descriptions@) ==> (r == 0
            <==> badge_of(meta.title@, meta.descriptions@, meta.target_keyword@, false) == MetaBadge::Uygun),
        meta.title@ == trim(meta.title@) && meta.descriptions@ == trim(meta.descriptions@) ==> (r == 0
            <==> crate::generation::correction(meta.title@, meta.descriptions@, meta.target_keyword@) is None),
{
    let tl = trimmed_graphemes(meta.title.as_str());
    let dl = trimmed_graphemes(meta.descriptions.as_str());
    let kt = trim_str(meta.target_keyword.as_str());
    let kw = lowercase_chars(kt.as_slice());
    let mut n: u32 = 0;
    if !(20 <= tl && tl <= 60) {
        n = n + 1;
    }
    if !(50 <= dl && dl <= 155) {
        n = n + 1;
    }
    if kw.len() > 0 {
        if !lower_contains(meta.title.as_str(), kw.as_slice()) {
            n = n + 1;
        }
        if !lower_contains(meta.descriptions.as_str(), kw.as_slice()) {
            n = n + 1;
        }
    }
    proof {
        let t = meta.title@;
        let d = meta.descriptions@;
        let kl = lowercase(trim(meta.target_keyword@));
        if kl.len() == 0 {
            // an empty pattern occurs at the start of any text
            assert(lowercase(trim(t)).subrange(0, 0) =~= kl);
            assert(occurs_at(lowercase(trim(t)), kl, 0));
            assert(lowercase(trim(d)).subrange(0, 0) =~= kl);
            assert(occurs_at(lowercase(trim(d)), kl, 0));
        }
    }
    n
}

/// Block class cycle: the first block is `center`, then `left` and `right` alternate.
pub open spec fn block_class(i: nat) -> Seq<char> {
    if i == 0 {
        "center"@
    } else if i % 2 == 1 {
        "left"@
    } else {
        "right"@
    }
}

pub fn class_for(i: usize) -> (r: &'static str)
    ensures
        r@ == block_class(i as nat),
{
    if i == 0 {
        "center"
    } else if i % 2 == 1 {
        "left"
    } else {
        "right"
    }
}

/// HTML escaping for attribute values and text: `&`, `<`, `>`, `"` in this order.
pub open spec fn escaped(s: Seq<char>) -> Seq<char> {
    crate::text::replace_all(
        crate::text::replace_all(
            crate::text::replace_all(crate::text::replace_all(s, "&"@, "&amp;"@), "<"@, "&lt;"@),
            ">"@,
            "&gt;"@,
        ),
        "\""@,
        "&quot;"@,
    )
}

fn replace_lit(s: Vec<char>, pat: &str, rep: &str) -> (r: Vec<char>)
    requires
        pat@.len() > 0,
    ensures
        r@ == crate::text::replace_all(s@, pat@, rep@),
{
    let p = chars_of(pat);
    let q = chars_of(rep);
    crate::text::replace_chars(s.as_slice(), p.as_slice(), q.as_slice())
}

/// Escapes HTML special characters.
pub fn esc(s: &str) -> (r: String)
    ensures
        r@ == escaped(s@),
{
    proof {
        reveal_strlit("&");
        reveal_strlit("<");
        reveal_strlit(">");
        reveal_strlit("\"");
    }
    let v = chars_of(s);
    let a = replace_lit(v, "&", "&amp;");
    let b = replace_lit(a, "<", "&lt;");
    let c = replace_lit(b, ">", "&gt;");
    let d = replace_lit(c, "\"", "&quot;");
    string_of(d.as_slice())
}

// ---------------------------------------------------------------------------------------
// Rewritable segments: the inner text ranges of `<h2>` and `<p>` elements, found on an
// ASCII-lower-cased byte copy so that the ranges index the original HTML.

/// ASCII lower-casing of one byte.
pub open spec fn ascii_lower(b: u8) -> u8 {
    if 65 <= b <= 90 {
        (b + 32) as u8
    } else {
        b
    }
}

pub open spec fn ascii_lower_seq(s: Seq<u8>) -> Seq<u8> {
    Seq::new(s.len(), |i: int| ascii_lower(s[i]))
}

/// An ASCII letter or digit.
pub open spec fn is_alnum(b: u8) -> bool {
    (48 <= b <= 57) || (65 <= b <= 90) || (97 <= b <= 122)
}

/// Copy of the UTF-8 bytes with ASCII letters lower-cased (same length, so indices align).
pub fn ascii_lower_bytes(s: &str) -> (r: Vec<u8>)
    ensures
        r@ == ascii_lower_seq(s.spec_bytes()),
{
    let b = s.as_bytes();
    let mut out: Vec<u8> = Vec::new();
    let mut i: usize = 0;
    while i < b.len()
        invariant
            i <= b@.len(),
            b@ == s.spec_bytes(),
            out@ == ascii_lower_seq(b@.take(i as int)),
        decreases b@.len() - i,
    {
        let c = b[i];
        let l = if 65 <= c && c <= 90 { c + 32 } else { c };
        out.push(l);
        assert(out@ =~= ascii_lower_seq(b@.take(i + 1)));
        i = i + 1;
    }
    assert(b@.take(b@.len() as int) == b@);
    out
}

/// First position `p >= from` where `needle` occurs in `hay`; none for an empty needle or a
/// start at or past the end.
pub open spec fn find_from(hay: Seq<u8>, needle: Seq<u8>, from: int) -> Option<int>
    decreases hay.len() - from,
{
    if needle.len() == 0 || from < 0 || from >= hay.len() {
        None
    } else if from + needle.len() <= hay.len() && hay.subrange(from, from + needle.len()) == needle {
        Some(from)
    } else {
        find_from(hay, needle, from + 1)
    }
}

pub proof fn lemma_find_from_bounds(hay: Seq<u8>, needle: Seq<u8>, from: int)
    ensures
        find_from(hay, needle, from) matches Some(p) ==> from <= p && p + needle.len() <= hay.len()
            && hay.subrange(p, p + needle.len()) == needle,
    decreases hay.len() - from,
{
    if needle.len() == 0 || from < 0 || from >= hay.len() {
    } else if from + needle.len() <= hay.len() && hay.subrange(from, from + needle.len()) == needle {
    } else {
        lemma_find_from_bounds(hay, needle, from + 1);
    }
}

/// Finds `needle` in `hay` at or after `from`.
pub fn find_bytes(hay: &[u8], needle: &[u8], from: usize) -> (r: Option<usize>)
    ensures
        match r {
            Some(p) => find_from(hay@, needle@, from as int) == Some(p as int),
            None => find_from(hay@, needle@, from as int) is None,
        },
{
    if needle.len() == 0 || from >= hay.len() {
        return None;
    }
    let mut p = from;
    loop
        invariant
            from <= p < hay@.len(),
            needle@.len() > 0,
            find_from(hay@, needle@, from as int) == find_from(hay@, needle@, p as int),
        decreases hay@.len() - p,
    {
        if needle.len() <= hay.len() - p {
            let mut k: usize = 0;
            while k < needle.len()
                invariant
                    p + needle@.len() <= hay@.len(),
                    hay@.len() == hay.len(),
                    k <= needle@.len(),
                    forall|t: int| 0 <= t < k ==> hay@[p + t] == needle@[t],
                ensures
                    k <= needle@.len(),
                    forall|t: int| 0 <= t < k ==> hay@[p + t] == needle@[t],
                    k < needle@.len() ==> hay@[p + k] != needle@[k as int],
                decreases needle@.len() - k,
            {
                if hay[p + k] != needle[k] {
                    break;
                }
                k = k + 1;
            }
            if k == needle.len() {
                assert(hay@.subrange(p as int, p + needle@.len()) =~= needle@);
                return Some(p);
            }
            assert(hay@.subrange(p as int, p + needle@.len())[k as int] != needle@[k as int]);
        }
        assert(find_from(hay@, needle@, p as int) == find_from(hay@, needle@, p + 1));
        if p + 1 >= hay.len() {
            assert(find_from(hay@, needle@, p + 1) is None);
            return None;
        }
        p = p + 1;
    }
}

pub open spec fn lit_h2() -> Seq<u8> {
    seq![104u8, 50u8]
}

pub open spec fn lit_p() -> Seq<u8> {
    seq![112u8]
}

pub open spec fn lit_close_h2() -> Seq<u8> {
    seq![60u8, 47u8, 104u8, 50u8, 62u8]
}

pub open spec fn lit_close_p() -> Seq<u8> {
    seq![60u8, 47u8, 112u8, 62u8]
}

pub open spec fn lit_gt() -> Seq<u8> {
    seq![62u8]
}

/// End of the run of ASCII letters and digits starting at `j`.
pub open spec fn name_end(lb: Seq<u8>, j: int) -> int
    decreases lb.len() - j,
{
    if 0 <= j < lb.len() && is_alnum(lb[j]) {
        name_end(lb, j + 1)
    } else {
        j
    }
}

proof fn lemma_name_end(lb: Seq<u8>, j: int)
    requires
        0 <= j,
    ensures
        j <= name_end(lb, j),
        j <= lb.len() ==> name_end(lb, j) <= lb.len(),
    decreases lb.len() - j,
{
    if 0 <= j < lb.len() && is_alnum(lb[j]) {
        lemma_name_end(lb, j + 1);
    }
}

/// The closing tag for an element name: `</h2>` for `h2`, `</p>` for `p`, none otherwise.
pub open spec fn closing_for(name: Seq<u8>) -> Option<Seq<u8>> {
    if name == lit_h2() {
        Some(lit_close_h2())
    } else if name == lit_p() {
        Some(lit_close_p())
    } else {
        None
    }
}

/// If an `<h2>` or `<p>` element with a closing tag opens at `i`: its inner range and the
/// position just after the closing tag.
pub open spec fn segment_at(lb: Seq<u8>, i: int) -> Option<(int, int, int)> {
    if 0 <= i && i + 1 < lb.len() && lb[i] == 60u8 && lb[i + 1] != 47u8 {
        let j = name_end(lb, i + 1);
        match closing_for(lb.subrange(i + 1, j)) {
            Some(close) => match find_from(lb, lit_gt(), j) {
                Some(gt) => match find_from(lb, close, gt + 1) {
                    Some(ce) => Some((gt + 1, ce, ce + close.len())),
                    None => None,
                },
                None => None,
            },
            None => None,
        }
    } else {
        None
    }
}

/// The inner ranges of `<h2>`/`<p>` elements from position `i` on, in document order; after a
/// segment the scan resumes past its closing tag.
pub open spec fn segments_from(lb: Seq<u8>, i: int) -> Seq<(int, int)>
    decreases lb.len() - i,
{
    if i < 0 || i >= lb.len() {
        seq![]
    } else {
        match segment_at(lb, i) {
            Some((s, e, next)) => if i < next <= lb.len() {
                seq![(s, e)] + segments_from(lb, next)
            } else {
                seq![]
            },
            None => segments_from(lb, i + 1),
        }
    }
}

/// The rewritable segments of an HTML text (byte ranges of the inner texts).
pub open spec fn html_segments(html: &str) -> Seq<(int, int)> {
    segments_from(ascii_lower_seq(html.spec_bytes()), 0)
}

proof fn lemma_segment_at_bounds(lb: Seq<u8>, i: int)
    ensures
        segment_at(lb, i) matches Some((s, e, next)) ==> i < s <= e < next <= lb.len(),
{
    if 0 <= i && i + 1 < lb.len() && lb[i] == 60u8 && lb[i + 1] != 47u8 {
        let j = name_end(lb, i + 1);
        lemma_name_end(lb, i + 1);
        match closing_for(lb.subrange(i + 1, j)) {
            Some(close) => {
                lemma_find_from_bounds(lb, lit_gt(), j);
                match find_from(lb, lit_gt(), j) {
                    Some(gt) => {
                        lemma_find_from_bounds(lb, close, gt + 1);
                    },
                    None => {},
                }
            },
            None => {},
        }
    }
}

fn byte_vec2(a: u8, b: u8) -> (r: Vec<u8>)
    ensures
        r@ == seq![a, b],
{
    let mut v: Vec<u8> = Vec::new();
    v.push(a);
    v.push(b);
    assert(v@ =~= seq![a, b]);
    v
}

fn lit_vec(which: u8) -> (r: Vec<u8>)
    ensures
        which == 0 ==> r@ == lit_close_h2(),
        which == 1 ==> r@ == lit_close_p(),
        which == 2 ==> r@ == lit_gt(),
        which == 3 ==> r@ == lit_h2(),
        which == 4 ==> r@ == lit_p(),
{
    let mut v: Vec<u8> = Vec::new();
    if which == 0 {
        v.push(60u8);
        v.push(47u8);
        v.push(104u8);
        v.push(50u8);
        v.push(62u8);
        assert(v@ =~= lit_close_h2());
    } else if which == 1 {
        v.push(60u8);
        v.push(47u8);
        v.push(112u8);
        v.push(62u8);
        assert(v@ =~= lit_close_p());
    } else if which == 2 {
        v.push(62u8);
        assert(v@ =~= lit_gt());
    } else if which == 3 {
        v = byte_vec2(104u8, 50u8);
        assert(v@ =~= lit_h2());
    } else if which == 4 {
        v.push(112u8);
        assert(v@ =~= lit_p());
    }
    v
}

fn eq_bytes_range(lb: &[u8], a: usize, b: usize, lit: &[u8]) -> (r: bool)
    requires
        a <= b <= lb@.len(),
    ensures
        r == (lb@.subrange(a as int, b as int) == lit@),
{
    if b - a != lit.len() {
        return false;
    }
    let mut k: usize = 0;
    while k < lit.len()
        invariant
            a <= b <= lb@.len(),
            b - a == lit@.len(),
            k <= lit@.len(),
            forall|t: int| 0 <= t < k ==> lb@[a + t] == lit@[t],
        decreases lit@.len() - k,
    {
        if lb[a + k] != lit[k] {
            assert(lb@.subrange(a as int, b as int)[k as int] != lit@[k as int]);
            return false;
        }
        k = k + 1;
    }
    assert(lb@.subrange(a as int, b as int) =~= lit@);
    true
}

/// Checks whether an element with a rewritable inner text opens at `i`.
fn segment_at_exec(lb: &[u8], i: usize) -> (r: Option<(usize, usize, usize)>)
    ensures
        match r {
            Some((s, e, n)) => segment_at(lb@, i as int) == Some((s as int, e as int, n as int)),
            None => segment_at(lb@, i as int) is None,
        },
{
    let n = lb.len();
    if !(i < n && i + 1 < n && lb[i] == 60u8 && lb[i + 1] != 47u8) {
        return None;
    }
    let mut j = i + 1;
    while j < n && ((48u8 <= lb[j] && lb[j] <= 57u8) || (65u8 <= lb[j] && lb[j] <= 90u8) || (97u8 <= lb[j] && lb[j] <= 122u8))
        invariant
            i + 1 <= j <= n == lb@.len(),
            name_end(lb@, i + 1) == name_end(lb@, j as int),
        decreases n - j,
    {
        j = j + 1;
    }
    let h2 = lit_vec(3);
    let p = lit_vec(4);
    let close = if eq_bytes_range(lb, i + 1, j, h2.as_slice()) {
        lit_vec(0)
    } else if eq_bytes_range(lb, i + 1, j, p.as_slice()) {
        lit_vec(1)
    } else {
        return None;
    };
    let gtv = lit_vec(2);
    let gt = match find_bytes(lb, gtv.as_slice(), j) {
        Some(g) => g,
        None => return None,
    };
    proof {
        lemma_find_from_bounds(lb@, lit_gt(), j as int);
    }
    let ce = match find_bytes(lb, close.as_slice(), gt + 1) {
        Some(c) => c,
        None => return None,
    };
    proof {
        lemma_find_from_bounds(lb@, close@, gt + 1);
    }
    Some((gt + 1, ce, ce + close.len()))
}

proof fn lemma_segments_shape(lb: Seq<u8>, i: int)
    requires
        0 <= i,
    ensures
        forall|k: int|
            0 <= k < segments_from(lb, i).len() ==> {
                let sg = #[trigger] segments_from(lb, i)[k];
                &&& i < sg.0 <= sg.1 < lb.len()
                &&& lb[sg.0 - 1] == 62u8
                &&& lb[sg.1] == 60u8
            },
        forall|k: int|
            0 <= k < segments_from(lb, i).len() - 1 ==> (#[trigger] segments_from(lb, i)[k]).1
                < segments_from(lb, i)[k + 1].0,
    decreases lb.len() - i,
{
    if i < 0 || i >= lb.len() {
    } else {
        lemma_segment_at_bounds(lb, i);
        match segment_at(lb, i) {
            Some((s, e, next)) => {
                if i < next <= lb.len() {
                    lemma_segments_shape(lb, next);
                    let j = name_end(lb, i + 1);
                    lemma_name_end(lb, i + 1);
                    let close = closing_for(lb.subrange(i + 1, j)).unwrap();
                    let gt = find_from(lb, lit_gt(), j).unwrap();
                    lemma_find_from_bounds(lb, lit_gt(), j);
                    lemma_find_from_bounds(lb, close, gt + 1);
                    assert(lb.subrange(gt, gt + 1)[0] == lb[gt]);
                    assert(lb.subrange(e, e + close.len())[0] == lb[e]);
                    let segs = segments_from(lb, i);
                    let rest = segments_from(lb, next);
                    assert(segs == seq![(s, e)] + rest);
                    assert forall|k: int| 0 <= k < segs.len() implies {
                        let sg = #[trigger] segs[k];
                        &&& i < sg.0 <= sg.1 < lb.len()
                        &&& lb[sg.0 - 1] == 62u8
                        &&& lb[sg.1] == 60u8
                    } by {
                        if k > 0 {
                            assert(segs[k] == rest[k - 1]);
                        }
                    }
                    assert forall|k: int| 0 <= k < segs.len() - 1 implies (#[trigger] segs[k]).1
                        < segs[k + 1].0 by {
                        assert(segs[k + 1] == rest[k]);
                        if k > 0 {
                            assert(segs[k] == rest[k - 1]);
                        }
                    }
                }
            },
            None => {
                lemma_segments_shape(lb, i + 1);
                assert(segments_from(lb, i) == segments_from(lb, i + 1));
            },
        }
    }
}

/// The rewritable segments are ordered byte ranges between characters.
pub proof fn lemma_segments_ok(html: &str)
    ensures
        spans_ok(html@, html_segments(html)),
{
    let bytes = html.spec_bytes();
    let lb = ascii_lower_seq(bytes);
    let segs = html_segments(html);
    lemma_segments_shape(lb, 0);
    vstd::utf8::encode_utf8_valid_utf8(html@);
    assert forall|k: int| 0 <= k < segs.len() implies {
        &&& (#[trigger] segs[k]).0 <= segs[k].1
        &&& at_boundary(html@, segs[k].0)
        &&& at_boundary(html@, segs[k].1)
    } by {
        let (s, e) = segs[k];
        assert(ascii_lower(bytes[s - 1]) == 62u8);
        assert(bytes[s - 1] == 62u8);
        assert(ascii_lower(bytes[e]) == 60u8);
        assert(bytes[e] == 60u8);
        crate::blocks::lemma_ascii_boundaries(bytes, s - 1);
        crate::blocks::lemma_ascii_boundaries(bytes, e);
    }
    assert forall|k: int| 0 <= k < segs.len() - 1 implies (#[trigger] segs[k]).1 <= segs[k + 1].0 by {
    }
}

/// Inner byte ranges of the `<h2>` and `<p>` elements, in document order.
pub fn extract_segments(html: &str) -> (r: Vec<(usize, usize)>)
    ensures
        pair_view(r@) == html_segments(html),
{
    let lb = ascii_lower_bytes(html);
    let n = lb.len();
    let mut segs: Vec<(usize, usize)> = Vec::new();
    let mut i: usize = 0;
    while i < n
        invariant
            i <= n == lb@.len(),
            lb@ == ascii_lower_seq(html.spec_bytes()),
            segments_from(lb@, 0) == pair_view(segs@) + segments_from(lb@, i as int),
        decreases n - i,
    {
        proof {
            lemma_segment_at_bounds(lb@, i as int);
        }
        match segment_at_exec(lb.as_slice(), i) {
            Some((s, e, next)) => {
                let ghost before = segs@;
                segs.push((s, e));
                assert(pair_view(segs@) =~= pair_view(before) + seq![(s as int, e as int)]);
                i = next;
            },
            None => {
                i = i + 1;
            },
        }
    }
    assert(pair_view(segs@) + segments_from(lb@, i as int) == pair_view(segs@));
    segs
}

/// Whether the HTML has rewritable text (`<h2>`/`<p>`); without it, writing from scratch fits.
pub fn has_rewritable_content(html: &str) -> (r: bool)
    ensures
        r == (html_segments(html).len() > 0),
{
    let s = extract_segments(html);
    assert(pair_view(s@).len() == s@.len());
    s.len() > 0
}

} // verus!

verus! {

/// One regex match: byte span of the whole match and of capture group 1 (if it took part).
pub type CaptureSpan = (usize, usize, Option<(usize, usize)>);

/// The matches of a regular expression, left to right and non-overlapping (what
/// `Regex::new(pattern)` then `captures_iter(text)` yields); `None` when the pattern does
/// not compile.
pub uninterp spec fn regex_captures(pattern: Seq<char>, text: Seq<char>) -> Option<Seq<CaptureSpan>>;

/// Each span lies in the text on character boundaries, the group inside its match, and the
/// matches follow each other without overlap.
pub open spec fn captures_ok(text: Seq<char>, caps: Seq<CaptureSpan>) -> bool {
    &&& forall|i: int|
        0 <= i < caps.len() ==> {
            &&& (#[trigger] caps[i]).0 <= caps[i].1
            &&& at_boundary(text, caps[i].0 as int)
            &&& at_boundary(text, caps[i].1 as int)
            &&& caps[i].2 matches Some((a, b)) ==> caps[i].0 <= a <= b <= caps[i].1 && at_boundary(
                text,
                a as int,
            ) && at_boundary(text, b as int)
        }
    &&& forall|i: int| 0 <= i < caps.len() - 1 ==> (#[trigger] caps[i]).1 <= caps[i + 1].0
}

/// Calls `regex::Regex::new(pattern)` and `Regex::captures_iter(text)`, keeping the byte spans
/// of each match and of its group 1. The result is a function of pattern and text, named
/// `regex_captures`; the documented guarantees (offsets on UTF-8 boundaries, successive
/// non-overlapping matches in order, groups within their match) are `captures_ok`.
#[verifier::external_body]
pub(crate) fn captures_of(pattern: &str, text: &str) -> (r: Option<Vec<CaptureSpan>>)
    ensures
        match r {
            Some(v) => regex_captures(pattern@, text@) == Some(v@) && captures_ok(text@, v@),
            None => regex_captures(pattern@, text@) is None,
        },
{
    regex::Regex::new(pattern).ok().map(|re| {
        re.captures_iter(text).map(|c| {
            let m = c.get(0).unwrap();
            (m.start(), m.end(), c.get(1).map(|g| (g.start(), g.end())))
        }).collect()
    })
}

pub open spec fn match_spans(caps: Seq<CaptureSpan>) -> Seq<(int, int)> {
    caps.map_values(|c: CaptureSpan| (c.0 as int, c.1 as int))
}

/// The text of group 1 of a match (empty when the group did not take part).
pub open spec fn group_text(text: Seq<char>, c: CaptureSpan) -> Seq<char> {
    match c.2 {
        Some((a, b)) => byte_text(text, a as int, b as int),
        None => seq![],
    }
}

pub proof fn lemma_match_spans_ok(text: Seq<char>, caps: Seq<CaptureSpan>)
    requires
        captures_ok(text, caps),
    ensures
        spans_ok(text, match_spans(caps)),
{
    let sp = match_spans(caps);
    assert forall|i: int| 0 <= i < sp.len() implies {
        &&& (#[trigger] sp[i]).0 <= sp[i].1
        &&& at_boundary(text, sp[i].0)
        &&& at_boundary(text, sp[i].1)
    } by {
        assert(caps[i].0 <= caps[i].1);
    }
    assert forall|i: int| 0 <= i < sp.len() - 1 implies (#[trigger] sp[i]).1 <= sp[i + 1].0 by {
        assert(caps[i].1 <= caps[i + 1].0);
    }
}

pub(crate) fn group_text_exec(text: &str, c: CaptureSpan) -> (r: Vec<char>)
    requires
        c.2 matches Some((a, b)) ==> a <= b && at_boundary(text@, a as int) && at_boundary(text@, b as int),
    ensures
        r@ == group_text(text@, c),
{
    match c.2 {
        Some((a, b)) => byte_slice_chars(text, a, b),
        None => Vec::new(),
    }
}

/// The `src` values of `<img>` tags, in order (for the image invariant).
pub open spec fn img_pattern() -> Seq<char> {
    "(?is)<img[^>]*?\\bsrc\\s*=\\s*[\"']([^\"']*)[\"']"@
}

pub open spec fn img_srcs(html: Seq<char>) -> Seq<Seq<char>> {
    match regex_captures(img_pattern(), html) {
        Some(caps) => caps.map_values(|c: CaptureSpan| group_text(html, c)),
        None => seq![],
    }
}

pub open spec fn string_views(v: Seq<String>) -> Seq<Seq<char>> {
    v.map_values(|s: String| s@)
}

/// Collects the `src` attribute values of the `<img>` tags.
pub fn extract_img_srcs(html: &str) -> (r: Vec<String>)
    ensures
        string_views(r@) == img_srcs(html@),
{
    let caps = match captures_of("(?is)<img[^>]*?\\bsrc\\s*=\\s*[\"']([^\"']*)[\"']", html) {
        Some(c) => c,
        None => return Vec::new(),
    };
    let mut out: Vec<String> = Vec::new();
    let mut i: usize = 0;
    while i < caps.len()
        invariant
            i <= caps@.len(),
            regex_captures(img_pattern(), html@) == Some(caps@),
            captures_ok(html@, caps@),
            out@.len() == i,
            forall|k: int| 0 <= k < i ==> (#[trigger] out@[k])@ == group_text(html@, caps@[k]),
        decreases caps@.len() - i,
    {
        let g = group_text_exec(html, caps[i]);
        out.push(string_of(g.as_slice()));
        i = i + 1;
    }
    assert(string_views(out@) =~= caps@.map_values(|c: CaptureSpan| group_text(html@, c)));
    out
}

/// ASCII lower-casing of a character.
pub open spec fn ascii_lower_char(c: char) -> char {
    if 65 <= c as int <= 90 {
        ((c as int) + 32) as char
    } else {
        c
    }
}

pub open spec fn ascii_lower_chars(s: Seq<char>) -> Seq<char> {
    s.map_values(|c: char| ascii_lower_char(c))
}

fn ascii_lower_vec(v: &[char]) -> (r: Vec<char>)
    ensures
        r@ == ascii_lower_chars(v@),
{
    let mut out: Vec<char> = Vec::new();
    let mut i: usize = 0;
    while i < v.len()
        invariant
            i <= v@.len(),
            out@ == ascii_lower_chars(v@.take(i as int)),
        decreases v@.len() - i,
    {
        let c = v[i];
        let l = if 'A' <= c && c <= 'Z' { ((c as u8) + 32) as char } else { c };
        assert(l == ascii_lower_char(c));
        out.push(l);
        assert(out@ =~= ascii_lower_chars(v@.take(i + 1)));
        i = i + 1;
    }
    assert(v@.take(v@.len() as int) == v@);
    out
}

/// A tag normalised for the allow-list: ASCII lower-cased, white space collapsed, and no
/// space after `<` or before `>`.
pub open spec fn normalized_tag(m: Seq<char>) -> Seq<char> {
    replace_all(replace_all(collapse_ws(ascii_lower_chars(m)), "< "@, "<"@), " >"@, ">"@)
}

/// Inline tags that may stay in rewritten text.
pub open spec fn tag_allowed(m: Seq<char>) -> bool {
    let t = normalized_tag(m);
    ||| t == "<strong>"@
    ||| t == "</strong>"@
    ||| t == "<b>"@
    ||| t == "</b>"@
    ||| t == "<em>"@
    ||| t == "</em>"@
    ||| t == "<br>"@
    ||| t == "<br/>"@
    ||| t == "<br />"@
}

pub open spec fn tag_pattern() -> Seq<char> {
    "(?is)<[^>]+>"@
}

/// What replaces a tag: the tag itself when allowed, nothing otherwise.
pub open spec fn tag_replacement(text: Seq<char>, c: CaptureSpan) -> Seq<char> {
    let m = byte_text(text, c.0 as int, c.1 as int);
    if tag_allowed(m) {
        m
    } else {
        seq![]
    }
}

/// Rewritten text keeps only `<strong>`, `<b>`, `<em>` and `<br>` tags; every other tag
/// (img, script, section, h2, p, ...) is removed; the result is trimmed.
pub open spec fn sanitized(text: Seq<char>) -> Seq<char> {
    match regex_captures(tag_pattern(), text) {
        Some(caps) => trim(
            spliced(text, match_spans(caps), caps.map_values(|c: CaptureSpan| tag_replacement(text, c))),
        ),
        None => trim(text),
    }
}

fn lit_chars(s: &str) -> (r: Vec<char>)
    ensures
        r@ == s@,
{
    chars_of(s)
}

fn is_allowed_tag(m: &[char]) -> (r: bool)
    ensures
        r == tag_allowed(m@),
{
    let a = ascii_lower_vec(m);
    let b = collapse_ws_chars(a.as_slice());
    proof {
        reveal_strlit("< ");
        reveal_strlit(" >");
    }
    let c = crate::text::replace_chars(b.as_slice(), lit_chars("< ").as_slice(), lit_chars("<").as_slice());
    let t = crate::text::replace_chars(c.as_slice(), lit_chars(" >").as_slice(), lit_chars(">").as_slice());
    let ts = t.as_slice();
    eq_chars(ts, lit_chars("<strong>").as_slice()) || eq_chars(ts, lit_chars("</strong>").as_slice())
        || eq_chars(ts, lit_chars("<b>").as_slice()) || eq_chars(ts, lit_chars("</b>").as_slice())
        || eq_chars(ts, lit_chars("<em>").as_slice()) || eq_chars(ts, lit_chars("</em>").as_slice())
        || eq_chars(ts, lit_chars("<br>").as_slice()) || eq_chars(ts, lit_chars("<br/>").as_slice())
        || eq_chars(ts, lit_chars("<br />").as_slice())
}

/// Cleans rewritten text down to the allowed inline tags.
pub fn sanitize_inline(text: &str) -> (r: String)
    ensures
        r@ == sanitized(text@),
{
    let caps = match captures_of("(?is)<[^>]+>", text) {
        Some(c) => c,
        None => return string_of(trim_str(text).as_slice()),
    };
    let mut spans: Vec<(usize, usize)> = Vec::new();
    let mut reps: Vec<Vec<char>> = Vec::new();
    let mut i: usize = 0;
    while i < caps.len()
        invariant
            i <= caps@.len(),
            regex_captures(tag_pattern(), text@) == Some(caps@),
            captures_ok(text@, caps@),
            spans@.len() == i,
            reps@.len() == i,
            forall|k: int| 0 <= k < i ==> #[trigger] spans@[k] == (caps@[k].0, caps@[k].1),
            forall|k: int| 0 <= k < i ==> (#[trigger] reps@[k])@ == tag_replacement(text@, caps@[k]),
        decreases caps@.len() - i,
    {
        let (a, b, _g) = caps[i];
        let m = byte_slice_chars(text, a, b);
        let rep = if is_allowed_tag(m.as_slice()) { m } else { Vec::new() };
        spans.push((a, b));
        reps.push(rep);
        i = i + 1;
    }
    assert(pair_view(spans@) =~= match_spans(caps@));
    assert(views(reps@) =~= caps@.map_values(|c: CaptureSpan| tag_replacement(text@, c)));
    proof {
        lemma_match_spans_ok(text@, caps@);
    }
    let out = splice_spans(text, spans.as_slice(), &reps);
    let (x, y) = trim_bounds(out.as_slice());
    string_of(crate::text::slice_to_vec_range(out.as_slice(), x, y).as_slice())
}

} // verus!

verus! {

/// `<img>` tag of a description block.
pub open spec fn img_tag(alt: Seq<char>, src: Seq<char>) -> Seq<char> {
    "<img class=\"img-big-size imgRadius\" loading=\"lazy\" alt=\""@ + alt + "\" src=\""@ + escaped(src)
        + "\" />"@
}

/// Concatenated `<img>` tags for all sources.
pub open spec fn img_tags(alt: Seq<char>, srcs: Seq<Seq<char>>) -> Seq<char>
    decreases srcs.len(),
{
    if srcs.len() == 0 {
        seq![]
    } else {
        img_tags(alt, srcs.drop_last()) + img_tag(alt, srcs.last())
    }
}

/// Image column of a block.
pub open spec fn img_col(alt: Seq<char>, srcs: Seq<Seq<char>>) -> Seq<char> {
    "<div class=\"col-md-4\">"@ + img_tags(alt, srcs) + "</div>"@
}

/// Text column of a block.
pub open spec fn text_col(col: Seq<char>, h2: Seq<char>, p: Seq<char>) -> Seq<char> {
    "<div class=\""@ + col + " text-center\"><h2>"@ + h2 + "</h2><p class=\"des-new-boyut\">"@ + p
        + "</p></div>"@
}

/// Outer block: one themed `<section>`, layout in `<div>`s.
pub open spec fn section_block(class: Seq<char>, inner: Seq<char>) -> Seq<char> {
    "<section class=\"yeni-aciklama "@ + class
        + "\"><div class=\"container\"><div class=\"row align-items-center\">"@ + inner
        + "</div></div></section>"@
}

/// Meaningful `alt` text: product name and block heading.
pub open spec fn block_alt(name: Seq<char>, h2c: Seq<char>) -> Seq<char> {
    escaped(name + " — "@ + crate::validation::plain_text(h2c))
}

/// Image column first on even blocks, text first on odd ones.
pub open spec fn arrange(i: nat, ic: Seq<char>, tc: Seq<char>) -> Seq<char> {
    if i % 2 == 0 {
        ic + tc
    } else {
        tc + ic
    }
}

/// One block written from scratch: section `i`, its heading and paragraph, one image.
pub open spec fn scratch_block(name: Seq<char>, h2: Seq<char>, p: Seq<char>, img: Seq<char>, i: nat) -> Seq<char> {
    let h2c = sanitized(h2);
    let pc = sanitized(p);
    section_block(
        block_class(i),
        arrange(i, img_col(block_alt(name, h2c), seq![img]), text_col("col-md-8"@, h2c, pc)),
    )
}

pub open spec fn scratch_prefix(
    name: Seq<char>,
    sections: Seq<(String, String)>,
    images: Seq<String>,
    k: nat,
) -> Seq<char>
    decreases k,
{
    if k == 0 {
        seq![]
    } else {
        scratch_prefix(name, sections, images, (k - 1) as nat) + scratch_block(
            name,
            sections[k - 1].0@,
            sections[k - 1].1@,
            images[k - 1]@,
            (k - 1) as nat,
        )
    }
}

/// Semantic description HTML from section texts and gallery images: as many blocks as there
/// are both sections and images.
pub open spec fn scratch_html(name: Seq<char>, sections: Seq<(String, String)>, images: Seq<String>) -> Seq<char> {
    let n = if sections.len() <= images.len() {
        sections.len()
    } else {
        images.len()
    };
    scratch_prefix(name, sections, images, n)
}

/// What block `k` of a description written from scratch holds: section `k`'s heading and
/// paragraph, image `k` with an `alt` of the product name and that same heading, the cycle
/// class of position `k`, image first on even positions.
pub open spec fn scratch_piece(name: Seq<char>, sections: Seq<(String, String)>, images: Seq<String>, k: int) -> Seq<char> {
    let h2c = sanitized(sections[k].0@);
    section_block(
        block_class(k as nat),
        arrange(
            k as nat,
            img_col(escaped(name + " — "@ + crate::validation::plain_text(h2c)), seq![images[k]@]),
            text_col("col-md-8"@, h2c, sanitized(sections[k].1@)),
        ),
    )
}

proof fn lemma_scratch_pieces(name: Seq<char>, sections: Seq<(String, String)>, images: Seq<String>, k: nat)
    ensures
        scratch_prefix(name, sections, images, k) == crate::generation::concat(
            Seq::new(k, |i: int| scratch_piece(name, sections, images, i)),
        ),
    decreases k,
{
    let s = Seq::new(k, |i: int| scratch_piece(name, sections, images, i));
    if k > 0 {
        lemma_scratch_pieces(name, sections, images, (k - 1) as nat);
        assert(s.drop_last() =~= Seq::new((k - 1) as nat, |i: int| scratch_piece(name, sections, images, i)));
        assert(s.last() == scratch_piece(name, sections, images, k - 1));
    }
}

/// A description written from scratch is its blocks in order, one per section that has an
/// image: block `k` carries section `k`'s texts and image `k`, whose `alt` names the product
/// and section `k`'s own heading.
pub proof fn law_scratch_blocks_in_order(name: Seq<char>, sections: Seq<(String, String)>, images: Seq<String>)
    ensures
        ({
            let n = if sections.len() <= images.len() { sections.len() } else { images.len() };
            scratch_html(name, sections, images) == crate::generation::concat(
                Seq::new(n, |k: int| scratch_piece(name, sections, images, k)),
            )
        }),
        forall|k: int|
            0 <= k < sections.len() && k < images.len() ==> #[trigger] scratch_piece(name, sections, images, k)
                == section_block(
                block_class(k as nat),
                arrange(
                    k as nat,
                    img_col(
                        escaped(name + " — "@ + crate::validation::plain_text(sanitized(sections[k].0@))),
                        seq![images[k]@],
                    ),
                    text_col("col-md-8"@, sanitized(sections[k].0@), sanitized(sections[k].1@)),
                ),
            ),
{
    let n = if sections.len() <= images.len() { sections.len() } else { images.len() };
    lemma_scratch_pieces(name, sections, images, n);
}

fn alt_text(name: &str, h2c: &String) -> (r: Vec<char>)
    ensures
        r@ == block_alt(name@, h2c@),
{
    let mut a: Vec<char> = Vec::new();
    extend_str(&mut a, name);
    extend_str(&mut a, " — ");
    let plain = crate::validation::html_strip(h2c.as_str());
    extend_str(&mut a, plain.as_str());
    let s = string_of(a.as_slice());
    let e = esc(s.as_str());
    chars_of(e.as_str())
}

fn push_img_tag(out: &mut Vec<char>, alt: &[char], src: &str)
    ensures
        final(out)@ == old(out)@ + img_tag(alt@, src@),
{
    extend_str(out, "<img class=\"img-big-size imgRadius\" loading=\"lazy\" alt=\"");
    extend_chars(out, alt);
    extend_str(out, "\" src=\"");
    let e = esc(src);
    extend_str(out, e.as_str());
    extend_str(out, "\" />");
}

fn img_col_exec(alt: &[char], srcs: &[String]) -> (r: Vec<char>)
    ensures
        r@ == img_col(alt@, string_views(srcs@)),
{
    let mut out: Vec<char> = Vec::new();
    extend_str(&mut out, "<div class=\"col-md-4\">");
    let ghost start = out@;
    let mut i: usize = 0;
    while i < srcs.len()
        invariant
            i <= srcs@.len(),
            start == "<div class=\"col-md-4\">"@,
            out@ == start + img_tags(alt@, string_views(srcs@).take(i as int)),
        decreases srcs@.len() - i,
    {
        assert(string_views(srcs@).take(i + 1).drop_last() =~= string_views(srcs@).take(i as int));
        push_img_tag(&mut out, alt, srcs[i].as_str());
        i = i + 1;
    }
    assert(string_views(srcs@).take(srcs@.len() as int) =~= string_views(srcs@));
    extend_str(&mut out, "</div>");
    out
}

fn text_col_exec(col: &str, h2c: &String, pc: &String) -> (r: Vec<char>)
    ensures
        r@ == text_col(col@, h2c@, pc@),
{
    let mut out: Vec<char> = Vec::new();
    extend_str(&mut out, "<div class=\"");
    extend_str(&mut out, col);
    extend_str(&mut out, " text-center\"><h2>");
    extend_str(&mut out, h2c.as_str());
    extend_str(&mut out, "</h2><p class=\"des-new-boyut\">");
    extend_str(&mut out, pc.as_str());
    extend_str(&mut out, "</p></div>");
    out
}

fn push_section(out: &mut Vec<char>, class: &str, a: &[char], b: &[char])
    ensures
        final(out)@ == old(out)@ + section_block(class@, a@ + b@),
{
    extend_str(out, "<section class=\"yeni-aciklama ");
    extend_str(out, class);
    extend_str(out, "\"><div class=\"container\"><div class=\"row align-items-center\">");
    extend_chars(out, a);
    extend_chars(out, b);
    extend_str(out, "</div></div></section>");
}

/// Assembles semantic HTML from section texts and gallery images.
pub fn assemble_scratch(name: &str, sections: &[(String, String)], images: &[String]) -> (r: String)
    ensures
        r@ == scratch_html(name@, sections@, images@),
{
    let n = if sections.len() <= images.len() { sections.len() } else { images.len() };
    let mut out: Vec<char> = Vec::new();
    let mut i: usize = 0;
    while i < n
        invariant
            i <= n <= sections@.len(),
            n <= images@.len(),
            n == if sections@.len() <= images@.len() { sections@.len() } else { images@.len() },
            out@ == scratch_prefix(name@, sections@, images@, i as nat),
        decreases n - i,
    {
        let h2c = sanitize_inline(sections[i].0.as_str());
        let pc = sanitize_inline(sections[i].1.as_str());
        let alt = alt_text(name, &h2c);
        let one = vec![images[i].clone()];
        assert(string_views(one@) =~= seq![images@[i as int]@]);
        let ic = img_col_exec(alt.as_slice(), one.as_slice());
        let tc = text_col_exec("col-md-8", &h2c, &pc);
        let class = class_for(i);
        if i % 2 == 0 {
            push_section(&mut out, class, ic.as_slice(), tc.as_slice());
        } else {
            push_section(&mut out, class, tc.as_slice(), ic.as_slice());
        }
        i = i + 1;
    }
    string_of(out.as_slice())
}

/// A top-level block of an existing description.
#[derive(Debug, Clone)]
pub struct Block {
    /// A class besides `yeni-aciklama` and the cycle classes (such as `pre-order`), kept.
    pub special_class: Option<String>,
    pub images: Vec<String>,
    pub h2: String,
    pub p: String,
}

/// One optimised block: new texts (or the old ones when missing), kept special class or
/// the cycle class, image column only when the block had images.
pub open spec fn optimized_block(name: Seq<char>, b: Block, h2: Seq<char>, p: Seq<char>, i: nat) -> Seq<char> {
    let h2c = sanitized(h2);
    let pc = sanitized(p);
    let class = match b.special_class {
        Some(c) => c@,
        None => block_class(i),
    };
    let imgs = string_views(b.images@);
    if imgs.len() == 0 {
        section_block(class, text_col("col-md-12"@, h2c, pc))
    } else {
        section_block(class, arrange(i, img_col(block_alt(name, h2c), imgs), text_col("col-md-8"@, h2c, pc)))
    }
}

pub open spec fn optimized_prefix(
    name: Seq<char>,
    blocks: Seq<Block>,
    texts: Seq<(String, String)>,
    k: nat,
) -> Seq<char>
    decreases k,
{
    if k == 0 {
        seq![]
    } else {
        let i = (k - 1) as nat;
        let (h2, p) = if i < texts.len() {
            (texts[i as int].0@, texts[i as int].1@)
        } else {
            (blocks[i as int].h2@, blocks[i as int].p@)
        };
        optimized_prefix(name, blocks, texts, i) + optimized_block(name, blocks[i as int], h2, p, i)
    }
}

/// Rebuilt description: one block per existing block, in order.
pub open spec fn optimized_html(name: Seq<char>, blocks: Seq<Block>, texts: Seq<(String, String)>) -> Seq<char> {
    optimized_prefix(name, blocks, texts, blocks.len())
}

/// Assembles the optimised texts with the original images into semantic HTML.
pub fn assemble_optimized(name: &str, blocks: &[Block], texts: &[(String, String)]) -> (r: String)
    ensures
        r@ == optimized_html(name@, blocks@, texts@),
{
    let mut out: Vec<char> = Vec::new();
    let mut i: usize = 0;
    while i < blocks.len()
        invariant
            i <= blocks@.len(),
            out@ == optimized_prefix(name@, blocks@, texts@, i as nat),
        decreases blocks@.len() - i,
    {
        let b = &blocks[i];
        let (h2_raw, p_raw) = if i < texts.len() {
            (texts[i].0.clone(), texts[i].1.clone())
        } else {
            (b.h2.clone(), b.p.clone())
        };
        let h2c = sanitize_inline(h2_raw.as_str());
        let pc = sanitize_inline(p_raw.as_str());
        let class: String = match &b.special_class {
            Some(c) => c.clone(),
            None => string_of(chars_of(class_for(i)).as_slice()),
        };
        if b.images.len() == 0 {
            let tc = text_col_exec("col-md-12", &h2c, &pc);
            let empty: Vec<char> = Vec::new();
            assert(tc@ + empty@ =~= tc@);
            push_section(&mut out, class.as_str(), tc.as_slice(), empty.as_slice());
        } else {
            let alt = alt_text(name, &h2c);
            let ic = img_col_exec(alt.as_slice(), b.images.as_slice());
            let tc = text_col_exec("col-md-8", &h2c, &pc);
            if i % 2 == 0 {
                push_section(&mut out, class.as_str(), ic.as_slice(), tc.as_slice());
            } else {
                push_section(&mut out, class.as_str(), tc.as_slice(), ic.as_slice());
            }
        }
        i = i + 1;
    }
    string_of(out.as_slice())
}

} // verus!
