//! The block structure of an existing description: top-level `<section>` ranges found by
//! depth counting, and the blocks read out of them for optimisation.

use vstd::prelude::*;
use vstd::string::StringSliceAdditionalSpecFns;
use crate::gemini::{
    ascii_lower, ascii_lower_bytes, ascii_lower_seq, captures_of, extract_img_srcs, find_bytes, find_from,
    captures_ok, group_text, group_text_exec, img_srcs, lemma_find_from_bounds, lit_gt, regex_captures, string_views, Block,
    CaptureSpan,
};
use crate::text::{
    at_boundary, byte_slice_chars, byte_text, chars_of, contains, contains_chars, gap_start, join, join_words,
    pair_view, spans_ok, split_words, str_eq, string_of, trim, trim_bounds, trim_str, views, words,
};

verus! {

/// `<section`, lower case.
pub open spec fn lit_open_section() -> Seq<u8> {
    seq![60u8, 115u8, 101u8, 99u8, 116u8, 105u8, 111u8, 110u8]
}

/// `</section`, lower case.
pub open spec fn lit_close_section() -> Seq<u8> {
    seq![60u8, 47u8, 115u8, 101u8, 99u8, 116u8, 105u8, 111u8, 110u8]
}

pub open spec fn starts_at(lb: Seq<u8>, i: int, lit: Seq<u8>) -> bool {
    0 <= i && i + lit.len() <= lb.len() && lb.subrange(i, i + lit.len()) == lit
}

/// Depth-counting scan from position `i`: an opening tag at depth 0 starts a block, a
/// closing tag back to depth 0 ends it after its `>`; a closing tag below depth 0, a block
/// left open, a closing tag without `>`, or no block at all gives nothing.
pub open spec fn section_scan(
    lb: Seq<u8>,
    i: int,
    depth: int,
    start: int,
    spans: Seq<(int, int)>,
) -> Option<Seq<(int, int)>>
    decreases lb.len() - i,
{
    if i < 0 || i >= lb.len() {
        if depth != 0 || spans.len() == 0 {
            None
        } else {
            Some(spans)
        }
    } else if starts_at(lb, i, lit_close_section()) {
        if depth - 1 < 0 {
            None
        } else if depth - 1 == 0 {
            match find_from(lb, lit_gt(), i) {
                Some(gt) => if i <= gt < lb.len() {
                    section_scan(lb, gt + 1, 0, start, spans.push((start, gt + 1)))
                } else {
                    None
                },
                None => None,
            }
        } else {
            section_scan(lb, i + 1, depth - 1, start, spans)
        }
    } else if starts_at(lb, i, lit_open_section()) {
        section_scan(lb, i + 1, depth + 1, if depth == 0 { i } else { start }, spans)
    } else {
        section_scan(lb, i + 1, depth, start, spans)
    }
}

/// Only whitespace stands between range `k` and the one before it (or the start).
pub open spec fn gap_blank(html: Seq<char>, spans: Seq<(int, int)>, k: int) -> bool {
    trim(byte_text(html, gap_start(spans, k), spans[k].0)).len() == 0
}

/// Only whitespace stands before, between and after the ranges.
pub open spec fn blank_between(html: Seq<char>, spans: Seq<(int, int)>) -> bool {
    &&& forall|k: int| 0 <= k < spans.len() ==> #[trigger] gap_blank(html, spans, k)
    &&& trim(
        byte_text(
            html,
            gap_start(spans, spans.len() as int),
            vstd::utf8::encode_utf8(html).len() as int,
        ),
    ).len() == 0
}

/// The top-level section ranges of `html`, when its structure is regular.
pub open spec fn top_sections(html: Seq<char>) -> Option<Seq<(int, int)>> {
    match section_scan(ascii_lower_seq(vstd::utf8::encode_utf8(html)), 0, 0, 0, seq![]) {
        Some(sp) => if blank_between(html, sp) {
            Some(sp)
        } else {
            None
        },
        None => None,
    }
}

/// An ASCII byte lies between characters, and so does the position right after it.
pub proof fn lemma_ascii_boundaries(bytes: Seq<u8>, i: int)
    requires
        vstd::utf8::valid_utf8(bytes),
        0 <= i < bytes.len(),
        bytes[i] < 0x80,
    ensures
        vstd::utf8::is_char_boundary(bytes, i),
        vstd::utf8::is_char_boundary(bytes, i + 1),
{
    vstd::utf8::is_char_boundary_iff_not_is_continuation_byte(bytes, i);
    vstd::utf8::valid_utf8_split(bytes, i);
    let s = bytes.subrange(i, bytes.len() as int);
    assert(s[0] == bytes[i]);
    if i + 1 == bytes.len() {
        vstd::utf8::is_char_boundary_start_end_of_seq(bytes);
    } else {
        reveal_with_fuel(vstd::utf8::is_char_boundary, 2);
        assert(vstd::utf8::is_char_boundary(s, 1));
        vstd::utf8::is_char_boundary_iff_not_is_continuation_byte(s, 1);
        assert(s[1] == bytes[i + 1]);
        vstd::utf8::is_char_boundary_iff_not_is_continuation_byte(bytes, i + 1);
    }
}

proof fn lemma_lower_ascii(b: u8, c: u8)
    requires
        c < 0x80,
        !(97 <= c <= 122),
        ascii_lower(b) == c,
    ensures
        b == c,
{
}

fn starts_at_exec(lb: &[u8], i: usize, close: bool) -> (r: bool)
    ensures
        r == starts_at(lb@, i as int, if close { lit_close_section() } else { lit_open_section() }),
{
    let lit: [u8; 9] = [60u8, 47u8, 115u8, 101u8, 99u8, 116u8, 105u8, 111u8, 110u8];
    let ghost want = if close { lit_close_section() } else { lit_open_section() };
    let len: usize = if close { 9 } else { 8 };
    if i > lb.len() || len > lb.len() - i {
        return false;
    }
    let mut k: usize = 0;
    while k < len
        invariant
            k <= len,
            len == want.len(),
            i + len <= lb.len(),
            lit@ == lit_close_section(),
            want == if close { lit_close_section() } else { lit_open_section() },
            forall|t: int| 0 <= t < k ==> lb@[i + t] == want[t],
        decreases len - k,
    {
        let expect: u8 = if close {
            lit[k]
        } else if k == 0 {
            60u8
        } else {
            lit[k + 1]
        };
        assert(expect == want[k as int]);
        assert(i + k < lb@.len());
        if lb[i + k] != expect {
            assert(lb@.subrange(i as int, i + len)[k as int] != want[k as int]);
            return false;
        }
        k = k + 1;
    }
    assert(lb@.subrange(i as int, i + len) =~= want);
    true
}

fn blank_gaps(html: &str, spans: &Vec<(usize, usize)>) -> (r: bool)
    requires
        spans_ok(html@, pair_view(spans@)),
    ensures
        r == blank_between(html@, pair_view(spans@)),
{
    let ghost sp = pair_view(spans@);
    let mut cursor: usize = 0;
    let mut k: usize = 0;
    proof {
        vstd::utf8::encode_utf8_valid_utf8(html@);
        vstd::utf8::is_char_boundary_start_end_of_seq(html.spec_bytes());
    }
    while k < spans.len()
        invariant
            sp == pair_view(spans@),
            spans_ok(html@, sp),
            k <= spans@.len(),
            cursor as int == gap_start(sp, k as int),
            at_boundary(html@, cursor as int),
            k < spans@.len() ==> cursor <= spans@[k as int].0,
            forall|t: int| 0 <= t < k ==> #[trigger] gap_blank(html@, sp, t),
        decreases spans@.len() - k,
    {
        let (s, e) = spans[k];
        assert(sp[k as int] == (s as int, e as int));
        let gap = byte_slice_chars(html, cursor, s);
        let (a, b) = trim_bounds(gap.as_slice());
        if a < b {
            assert(!gap_blank(html@, sp, k as int));
            return false;
        }
        assert(gap_blank(html@, sp, k as int));
        cursor = e;
        k = k + 1;
        proof {
            if k < spans@.len() {
                assert(sp[(k - 1) as int].1 <= sp[k as int].0);
            }
        }
    }
    let tail = byte_slice_chars(html, cursor, html.as_bytes().len());
    let (a, b) = trim_bounds(tail.as_slice());
    assert(forall|t: int| 0 <= t < sp.len() ==> #[trigger] gap_blank(html@, sp, t));
    a >= b
}

/// Finds the top-level `<section>` ranges by depth counting (ASCII case-insensitive). None
/// when the nesting is broken, no block is found, or anything but whitespace stands
/// outside the blocks.
pub fn split_top_sections(html: &str) -> (r: Option<Vec<(usize, usize)>>)
    ensures
        r matches Some(v) ==> spans_ok(html@, pair_view(v@)),
        match r {
            Some(v) => top_sections(html@) == Some(pair_view(v@)),
            None => top_sections(html@) is None,
        },
{
    let lb = ascii_lower_bytes(html);
    let ghost bytes = html.spec_bytes();
    let n = lb.len();
    let mut spans: Vec<(usize, usize)> = Vec::new();
    let mut i: usize = 0;
    let mut depth: usize = 0;
    let mut start: usize = 0;
    proof {
        vstd::utf8::encode_utf8_valid_utf8(html@);
    }
    let ghost whole = section_scan(lb@, 0, 0, 0, seq![]);
    assert(pair_view(spans@) =~= seq![]);
    let gt_lit: [u8; 1] = [62u8];
    assert(gt_lit@ == lit_gt());
    while i < n
        invariant
            lb@ == ascii_lower_seq(bytes),
            bytes == html.spec_bytes(),
            bytes == vstd::utf8::encode_utf8(html@),
            vstd::utf8::valid_utf8(bytes),
            n == lb@.len(),
            i <= n,
            depth <= i,
            gt_lit@ == lit_gt(),
            whole == section_scan(lb@, 0, 0, 0, seq![]),
            whole == section_scan(lb@, i as int, depth as int, start as int, pair_view(spans@)),
            spans_ok(html@, pair_view(spans@)),
            spans@.len() > 0 ==> spans@.last().1 <= i,
            depth > 0 ==> {
                &&& start < i
                &&& at_boundary(html@, start as int)
                &&& (spans@.len() > 0 ==> spans@.last().1 <= start)
            },
        decreases n - i,
    {
        let ghost sp = pair_view(spans@);
        if starts_at_exec(lb.as_slice(), i, true) {
            if depth == 0 {
                return None;
            }
            if depth == 1 {
                let gt = match find_bytes(lb.as_slice(), &gt_lit, i) {
                    Some(g) => g,
                    None => {
                        return None;
                    },
                };
                proof {
                    lemma_find_from_bounds(lb@, lit_gt(), i as int);
                    assert(lb@.subrange(gt as int, gt + 1)[0] == 62u8);
                    assert(lb@[gt as int] == 62u8);
                    lemma_lower_ascii(bytes[gt as int], 62u8);
                    lemma_ascii_boundaries(bytes, gt as int);
                }
                spans.push((start, gt + 1));
                proof {
                    assert(pair_view(spans@) =~= sp.push((start as int, gt + 1)));
                    let np = pair_view(spans@);
                    assert forall|k: int| 0 <= k < np.len() implies {
                        &&& (#[trigger] np[k]).0 <= np[k].1
                        &&& at_boundary(html@, np[k].0)
                        &&& at_boundary(html@, np[k].1)
                    } by {
                        if k < sp.len() {
                            assert(np[k] == sp[k]);
                        }
                    }
                    assert forall|k: int| 0 <= k < np.len() - 1 implies (#[trigger] np[k]).1
                        <= np[k + 1].0 by {
                        assert(np[k] == sp[k]);
                        if k + 1 < sp.len() {
                            assert(np[k + 1] == sp[k + 1]);
                        }
                    }
                }
                depth = 0;
                i = gt + 1;
                continue;
            }
            depth = depth - 1;
        } else if starts_at_exec(lb.as_slice(), i, false) {
            if depth == 0 {
                proof {
                    assert(lb@.subrange(i as int, i + 8)[0] == 60u8);
                    lemma_lower_ascii(bytes[i as int], 60u8);
                    lemma_ascii_boundaries(bytes, i as int);
                }
                start = i;
            }
            depth = depth + 1;
        }
        i = i + 1;
    }
    if depth != 0 || spans.len() == 0 {
        return None;
    }
    let ghost sp = pair_view(spans@);
    assert(whole == Some(sp));
    if !blank_gaps(html, &spans) {
        return None;
    }
    Some(spans)
}

/// First capture of `^<section ... class="...">`: the block's class list.
pub open spec fn class_pattern() -> Seq<char> {
    "(?is)^<section[^>]*class\\s*=\\s*[\"']([^\"']*)[\"']"@
}

pub open spec fn h2_pattern() -> Seq<char> {
    "(?is)<h2[^>]*>(.*?)</h2>"@
}

pub open spec fn p_pattern() -> Seq<char> {
    "(?is)<p[^>]*>(.*?)</p>"@
}

/// The class list of a block (group 1 of the first class match), empty without a match.
pub open spec fn block_classes(seg: Seq<char>) -> Seq<char> {
    match regex_captures(class_pattern(), seg) {
        Some(caps) => if caps.len() > 0 {
            group_text(seg, caps[0])
        } else {
            seq![]
        },
        None => seq![],
    }
}

/// The classes every block carries: the marker class and the layout cycle.
pub open spec fn is_cycle_class(c: Seq<char>) -> bool {
    c == "yeni-aciklama"@ || c == "center"@ || c == "left"@ || c == "right"@
}

/// The first class that is not a cycle class.
pub open spec fn first_special(ws: Seq<Seq<char>>) -> Option<Seq<char>>
    decreases ws.len(),
{
    if ws.len() == 0 {
        None
    } else if !is_cycle_class(ws[0]) {
        Some(ws[0])
    } else {
        first_special(ws.drop_first())
    }
}

/// The trimmed group-1 texts of every match of `pattern`.
pub open spec fn group_texts(pattern: Seq<char>, seg: Seq<char>) -> Seq<Seq<char>> {
    match regex_captures(pattern, seg) {
        Some(caps) => caps.map_values(|c: CaptureSpan| trim(group_text(seg, c))),
        None => seq![],
    }
}

/// A block as values: special class, image sources, heading, joined paragraphs.
pub type BlockView = (Option<Seq<char>>, Seq<Seq<char>>, Seq<char>, Seq<char>);

pub open spec fn block_view(b: Block) -> BlockView {
    (
        match b.special_class {
            Some(c) => Some(c@),
            None => None,
        },
        string_views(b.images@),
        b.h2@,
        b.p@,
    )
}

/// One block read from its section text: it must carry the marker class, exactly one
/// heading and at least one paragraph.
pub open spec fn block_of(seg: Seq<char>) -> Option<BlockView> {
    let classes = block_classes(seg);
    let h2s = group_texts(h2_pattern(), seg);
    let ps = group_texts(p_pattern(), seg);
    if !contains(classes, "yeni-aciklama"@) {
        None
    } else if h2s.len() != 1 || ps.len() == 0 {
        None
    } else {
        Some((first_special(words(classes)), img_srcs(seg), h2s[0], join(ps, " "@)))
    }
}

/// The blocks of the first `k` sections; none as soon as one is irregular.
pub open spec fn blocks_of(html: Seq<char>, spans: Seq<(int, int)>, k: int) -> Option<Seq<BlockView>>
    decreases k,
{
    if k <= 0 {
        Some(seq![])
    } else {
        match blocks_of(html, spans, k - 1) {
            Some(p) => match block_of(byte_text(html, spans[k - 1].0, spans[k - 1].1)) {
                Some(b) => Some(p.push(b)),
                None => None,
            },
            None => None,
        }
    }
}

pub open spec fn extracted_blocks(html: Seq<char>) -> Option<Seq<BlockView>> {
    match top_sections(html) {
        Some(sp) => blocks_of(html, sp, sp.len() as int),
        None => None,
    }
}

fn block_classes_exec(seg: &str) -> (r: Vec<char>)
    ensures
        r@ == block_classes(seg@),
{
    match captures_of("(?is)^<section[^>]*class\\s*=\\s*[\"']([^\"']*)[\"']", seg) {
        Some(caps) => {
            if caps.len() > 0 {
                group_text_exec(seg, caps[0])
            } else {
                Vec::new()
            }
        },
        None => Vec::new(),
    }
}

fn is_cycle_exec(c: &Vec<char>) -> (r: bool)
    ensures
        r == is_cycle_class(c@),
{
    let s = string_of(c.as_slice());
    str_eq(s.as_str(), "yeni-aciklama") || str_eq(s.as_str(), "center") || str_eq(s.as_str(), "left")
        || str_eq(s.as_str(), "right")
}

fn first_special_exec(ws: &Vec<Vec<char>>) -> (r: Option<String>)
    ensures
        match r {
            Some(s) => first_special(views(ws@)) == Some(s@),
            None => first_special(views(ws@)) is None,
        },
{
    let mut i: usize = 0;
    assert(views(ws@).skip(0) == views(ws@));
    while i < ws.len()
        invariant
            i <= ws@.len(),
            first_special(views(ws@)) == first_special(views(ws@).skip(i as int)),
        decreases ws@.len() - i,
    {
        assert(views(ws@).skip(i as int)[0] == ws@[i as int]@);
        assert(views(ws@).skip(i as int).drop_first() == views(ws@).skip(i + 1));
        if !is_cycle_exec(&ws[i]) {
            return Some(string_of(ws[i].as_slice()));
        }
        i = i + 1;
    }
    assert(views(ws@).skip(i as int).len() == 0);
    None
}

fn group_texts_exec(h2: bool, seg: &str) -> (r: Vec<Vec<char>>)
    ensures
        views(r@) == group_texts(if h2 { h2_pattern() } else { p_pattern() }, seg@),
{
    let found = if h2 {
        captures_of("(?is)<h2[^>]*>(.*?)</h2>", seg)
    } else {
        captures_of("(?is)<p[^>]*>(.*?)</p>", seg)
    };
    let ghost pat = if h2 { h2_pattern() } else { p_pattern() };
    let caps = match found {
        Some(c) => c,
        None => return Vec::new(),
    };
    let mut out: Vec<Vec<char>> = Vec::new();
    let mut i: usize = 0;
    while i < caps.len()
        invariant
            i <= caps@.len(),
            regex_captures(pat, seg@) == Some(caps@),
            captures_ok(seg@, caps@),
            out@.len() == i,
            forall|k: int| 0 <= k < i ==> (#[trigger] out@[k])@ == trim(group_text(seg@, caps@[k])),
        decreases caps@.len() - i,
    {
        let g = group_text_exec(seg, caps[i]);
        let t = string_of(g.as_slice());
        out.push(trim_str(t.as_str()));
        i = i + 1;
    }
    assert(views(out@) =~= caps@.map_values(|c: CaptureSpan| trim(group_text(seg@, c))));
    out
}

fn block_of_exec(seg: &str) -> (r: Option<Block>)
    ensures
        match r {
            Some(b) => block_of(seg@) == Some(block_view(b)),
            None => block_of(seg@) is None,
        },
{
    let classes = block_classes_exec(seg);
    let marker = chars_of("yeni-aciklama");
    if !contains_chars(classes.as_slice(), marker.as_slice()) {
        return None;
    }
    let h2s = group_texts_exec(true, seg);
    let ps = group_texts_exec(false, seg);
    if h2s.len() != 1 || ps.len() == 0 {
        return None;
    }
    let ws = split_words(classes.as_slice());
    let special = first_special_exec(&ws);
    let space: [char; 1] = [' '];
    let p = join_words(&ps, &space);
    assert(space@ == " "@) by {
        reveal_strlit(" ");
    }
    let b = Block {
        special_class: special,
        images: extract_img_srcs(seg),
        h2: string_of(h2s[0].as_slice()),
        p: string_of(p.as_slice()),
    };
    assert(views(h2s@)[0] == h2s@[0]@);
    Some(b)
}

fn blocks_from(html: &str, spans: &Vec<(usize, usize)>) -> (r: Option<Vec<Block>>)
    requires
        spans_ok(html@, pair_view(spans@)),
    ensures
        match r {
            Some(v) => blocks_of(html@, pair_view(spans@), spans@.len() as int) == Some(
                v@.map_values(|b: Block| block_view(b)),
            ),
            None => blocks_of(html@, pair_view(spans@), spans@.len() as int) is None,
        },
{
    let ghost sp = pair_view(spans@);
    let mut blocks: Vec<Block> = Vec::new();
    let mut i: usize = 0;
    assert(blocks@.map_values(|b: Block| block_view(b)) =~= seq![]);
    while i < spans.len()
        invariant
            i <= spans@.len(),
            sp == pair_view(spans@),
            spans_ok(html@, sp),
            blocks_of(html@, sp, i as int) == Some(blocks@.map_values(|b: Block| block_view(b))),
        decreases spans@.len() - i,
    {
        let (s, e) = spans[i];
        assert(sp[i as int] == (s as int, e as int));
        let seg = string_of(byte_slice_chars(html, s, e).as_slice());
        let ghost before = blocks@;
        match block_of_exec(seg.as_str()) {
            Some(b) => {
                blocks.push(b);
                assert(blocks@.map_values(|b: Block| block_view(b)) =~= before.map_values(
                    |b: Block| block_view(b),
                ).push(block_view(b)));
            },
            None => {
                proof {
                    assert(blocks_of(html@, sp, i + 1) is None);
                    lemma_blocks_none_stays(html@, sp, i + 1, spans@.len() as int);
                }
                return None;
            },
        }
        i = i + 1;
    }
    Some(blocks)
}

proof fn lemma_blocks_none_stays(html: Seq<char>, sp: Seq<(int, int)>, i: int, j: int)
    requires
        i <= j,
        blocks_of(html, sp, i) is None,
    ensures
        blocks_of(html, sp, j) is None,
    decreases j - i,
{
    if i < j {
        lemma_blocks_none_stays(html, sp, i, j - 1);
    }
}

/// Reads the blocks of an existing description: each top-level section must carry the
/// `yeni-aciklama` class, exactly one `<h2>` and at least one `<p>`; otherwise none (the
/// caller then keeps to the structure-preserving rewrite).
pub fn extract_blocks(html: &str) -> (r: Option<Vec<Block>>)
    ensures
        match r {
            Some(v) => extracted_blocks(html@) == Some(v@.map_values(|b: Block| block_view(b))),
            None => extracted_blocks(html@) is None,
        },
{
    match split_top_sections(html) {
        Some(spans) => blocks_from(html, &spans),
        None => None,
    }
}

} // verus!
