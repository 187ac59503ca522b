//! Meta field rules (the badge), and plain-text helpers over product description HTML.

use vstd::prelude::*;
use unicode_segmentation::UnicodeSegmentation;
use crate::text::{
    chars_of, collapse_ws, collapse_ws_chars, contains, contains_chars, count_chars_matches,
    count_matches, lowercase, lowercase_chars, occurs_at, replace_all, replace_chars, split_words, string_of,
    trim, trim_str, views, words,
};

verus! {

/// The grapheme clusters of a text, in order (what `UnicodeSegmentation::graphemes(true)` yields).
pub uninterp spec fn grapheme_clusters(s: Seq<char>) -> Seq<Seq<char>>;

/// Number of user-perceived characters (extended grapheme clusters) of `s`.
pub open spec fn grapheme_count(s: Seq<char>) -> nat {
    grapheme_clusters(s).len()
}

/// Calls `UnicodeSegmentation::graphemes(s, true)` and collects the clusters; the segmentation
/// (UAX #29) is a function of the text alone, named `grapheme_clusters`. The iterator yields
/// nothing exactly when the text is empty (it stops at once when its front and back cursors
/// meet).
#[verifier::external_body]
pub(crate) fn graphemes_of(s: &str) -> (r: Vec<String>)
    ensures
        r@.map_values(|g: String| g@) == grapheme_clusters(s@),
        r@.len() == 0 <==> s@.len() == 0,
{
    s.graphemes(true).map(|g| g.to_string()).collect()
}

/// Counts graphemes rather than bytes, so that Turkish letters count once each.
pub fn grapheme_len(s: &str) -> (r: usize)
    ensures
        r == grapheme_count(s@),
        r == 0 <==> s@.len() == 0,
{
    let g = graphemes_of(s);
    assert(g@.map_values(|x: String| x@).len() == g@.len());
    g.len()
}

/// The keyword rule has three outcomes: an empty keyword leaves it undecided (`None`).
pub open spec fn keyword_rule(text: Seq<char>, keyword: Seq<char>) -> Option<bool> {
    let kw = trim(keyword);
    if kw.len() == 0 {
        None
    } else {
        Some(contains(lowercase(text), lowercase(kw)))
    }
}

pub fn contains_keyword(text: &str, keyword: &str) -> (r: Option<bool>)
    ensures
        r == keyword_rule(text@, keyword@),
{
    let kw = trim_str(keyword);
    if kw.len() == 0 {
        return None;
    }
    let t = chars_of(text);
    let tl = lowercase_chars(t.as_slice());
    let kl = lowercase_chars(kw.as_slice());
    Some(contains_chars(tl.as_slice(), kl.as_slice()))
}

#[derive(Debug, Clone, Copy, PartialEq, Eq, Structural)]
pub enum MetaBadge {
    Eksik,
    Hatali,
    Uygun,
    Tamamlandi,
}

pub struct MetaInput<'a> {
    pub title: &'a str,
    pub descriptions: &'a str,
    pub target_keyword: &'a str,
    pub meta_done: bool,
}

/// An undecided keyword rule does not fail.
pub open spec fn keyword_ok(text: Seq<char>, keyword: Seq<char>) -> bool {
    match keyword_rule(text, keyword) {
        None => true,
        Some(b) => b,
    }
}

/// Title length rule: 20 to 60 graphemes.
pub open spec fn title_len_ok(n: nat) -> bool {
    20 <= n <= 60
}

/// Description length rule: 50 to 155 graphemes.
pub open spec fn desc_len_ok(n: nat) -> bool {
    50 <= n <= 155
}

/// The badge: done wins; an empty (blank) title or description is missing; any failing
/// length or keyword rule is faulty; otherwise suitable.
pub open spec fn badge_of(title: Seq<char>, desc: Seq<char>, keyword: Seq<char>, done: bool) -> MetaBadge {
    if done {
        MetaBadge::Tamamlandi
    } else if trim(title).len() == 0 || trim(desc).len() == 0 {
        MetaBadge::Eksik
    } else if title_len_ok(grapheme_count(trim(title))) && desc_len_ok(grapheme_count(trim(desc)))
        && keyword_ok(trim(title), keyword) && keyword_ok(trim(desc), keyword) {
        MetaBadge::Uygun
    } else {
        MetaBadge::Hatali
    }
}

pub fn meta_badge(m: &MetaInput) -> (r: MetaBadge)
    ensures
        r == badge_of(m.title@, m.descriptions@, m.target_keyword@, m.meta_done),
{
    if m.meta_done {
        return MetaBadge::Tamamlandi;
    }
    let title = string_of(trim_str(m.title).as_slice());
    let desc = string_of(trim_str(m.descriptions).as_slice());
    if title.as_str().unicode_len() == 0 || desc.as_str().unicode_len() == 0 {
        return MetaBadge::Eksik;
    }
    let tl = grapheme_len(title.as_str());
    let dl = grapheme_len(desc.as_str());
    let title_len = 20 <= tl && tl <= 60;
    let desc_len = 50 <= dl && dl <= 155;
    let title_kw = match contains_keyword(title.as_str(), m.target_keyword) {
        Some(b) => b,
        None => true,
    };
    let desc_kw = match contains_keyword(desc.as_str(), m.target_keyword) {
        Some(b) => b,
        None => true,
    };
    if title_len && desc_len && title_kw && desc_kw {
        MetaBadge::Uygun
    } else {
        MetaBadge::Hatali
    }
}

/// Scanning state of tag removal: text kept so far and whether the scan is inside a tag.
/// `<` opens a tag, `>` closes it and leaves a space in its place.
pub open spec fn strip_state(s: Seq<char>) -> (Seq<char>, bool)
    decreases s.len(),
{
    if s.len() == 0 {
        (seq![], false)
    } else {
        let (out, in_tag) = strip_state(s.drop_last());
        let c = s.last();
        if c == '<' {
            (out, true)
        } else if c == '>' {
            (out.push(' '), false)
        } else if !in_tag {
            (out.push(c), in_tag)
        } else {
            (out, in_tag)
        }
    }
}

/// The five entities the plain-text view decodes, in this order.
pub open spec fn decode_entities(s: Seq<char>) -> Seq<char> {
    replace_all(
        replace_all(
            replace_all(
                replace_all(replace_all(s, "&nbsp;"@, " "@), "&amp;"@, "&"@),
                "&lt;"@,
                "<"@,
            ),
            "&gt;"@,
            ">"@,
        ),
        "&quot;"@,
        "\""@,
    )
}

/// Plain text of an HTML fragment: tags removed, entities decoded, white space collapsed.
pub open spec fn plain_text(html: Seq<char>) -> Seq<char> {
    collapse_ws(decode_entities(strip_state(html).0))
}

fn replace_lit(s: Vec<char>, pat: &str, rep: &str) -> (r: Vec<char>)
    requires
        pat@.len() > 0,
    ensures
        r@ == replace_all(s@, pat@, rep@),
{
    let p = chars_of(pat);
    let q = chars_of(rep);
    replace_chars(s.as_slice(), p.as_slice(), q.as_slice())
}

/// Strips tags and entities and returns plain text.
pub fn html_strip(html: &str) -> (r: String)
    ensures
        r@ == plain_text(html@),
{
    let v = chars_of(html);
    let mut out: Vec<char> = Vec::new();
    let mut in_tag = false;
    let mut i: usize = 0;
    assert(v@.take(0) =~= Seq::<char>::empty());
    while i < v.len()
        invariant
            i <= v@.len(),
            (out@, in_tag) == strip_state(v@.take(i as int)),
        decreases v@.len() - i,
    {
        assert(v@.take(i + 1).drop_last() == v@.take(i as int));
        let c = v[i];
        if c == '<' {
            in_tag = true;
        } else if c == '>' {
            in_tag = false;
            out.push(' ');
        } else if !in_tag {
            out.push(c);
        }
        i = i + 1;
    }
    assert(v@.take(v@.len() as int) == v@);
    proof {
        reveal_strlit("&nbsp;");
        reveal_strlit("&amp;");
        reveal_strlit("&lt;");
        reveal_strlit("&gt;");
        reveal_strlit("&quot;");
    }
    let a = replace_lit(out, "&nbsp;", " ");
    let b = replace_lit(a, "&amp;", "&");
    let c = replace_lit(b, "&lt;", "<");
    let d = replace_lit(c, "&gt;", ">");
    let e = replace_lit(d, "&quot;", "\"");
    let f = collapse_ws_chars(e.as_slice());
    string_of(f.as_slice())
}

/// Number of words of the plain text.
pub open spec fn word_total(html: Seq<char>) -> nat {
    if plain_text(html).len() == 0 {
        0
    } else {
        words(plain_text(html)).len()
    }
}

pub fn word_count(html: &str) -> (r: usize)
    ensures
        r == word_total(html@),
{
    let text = html_strip(html);
    let t = chars_of(text.as_str());
    if t.len() == 0 {
        0
    } else {
        let ws = split_words(t.as_slice());
        assert(views(ws@).len() == ws@.len());
        ws.len()
    }
}

/// The integer terms of the keyword density: density (%) is
/// `occurrences * phrase_words / total_words * 100`, and 0 when either side is empty.
#[derive(Debug, Clone, Copy, PartialEq, Eq, Structural)]
pub struct DensityTerms {
    pub occurrences: usize,
    pub phrase_words: usize,
    pub total_words: usize,
}

pub open spec fn density_terms(html: Seq<char>, keyword: Seq<char>) -> DensityTerms {
    let kw = lowercase(trim(keyword));
    if word_total(html) == 0 || kw.len() == 0 {
        DensityTerms { occurrences: 0, phrase_words: 0, total_words: word_total(html) as usize }
    } else {
        DensityTerms {
            occurrences: count_matches(lowercase(plain_text(html)), kw) as usize,
            phrase_words: words(kw).len() as usize,
            total_words: word_total(html) as usize,
        }
    }
}

/// Phrase occurrences, phrase word count and total word count of the keyword density.
pub fn keyword_density_terms(html: &str, keyword: &str) -> (r: DensityTerms)
    ensures
        r == density_terms(html@, keyword@),
{
    let words_n = word_count(html);
    let kw_trim = trim_str(keyword);
    let kw = lowercase_chars(kw_trim.as_slice());
    if words_n == 0 || kw.len() == 0 {
        return DensityTerms { occurrences: 0, phrase_words: 0, total_words: words_n };
    }
    let text = html_strip(html);
    let tv = chars_of(text.as_str());
    let tl = lowercase_chars(tv.as_slice());
    let occ = count_chars_matches(tl.as_slice(), kw.as_slice());
    let kws = split_words(kw.as_slice());
    assert(views(kws@).len() == kws@.len());
    DensityTerms { occurrences: occ, phrase_words: kws.len(), total_words: words_n }
}

/// A field marked done shows the done badge whatever its texts are.
pub proof fn law_done_badge_wins(title: Seq<char>, desc: Seq<char>, keyword: Seq<char>)
    ensures
        badge_of(title, desc, keyword, true) == MetaBadge::Tamamlandi,
{
}

/// Not done and a blank title or description: the badge says missing, never suitable.
pub proof fn law_blank_field_is_missing(title: Seq<char>, desc: Seq<char>, keyword: Seq<char>)
    requires
        trim(title).len() == 0 || trim(desc).len() == 0,
    ensures
        badge_of(title, desc, keyword, false) == MetaBadge::Eksik,
{
}

/// The suitable badge means every rule holds: both lengths and the keyword in both texts.
pub proof fn law_suitable_means_all_rules(title: Seq<char>, desc: Seq<char>, keyword: Seq<char>)
    requires
        badge_of(title, desc, keyword, false) == MetaBadge::Uygun,
    ensures
        title_len_ok(grapheme_count(trim(title))),
        desc_len_ok(grapheme_count(trim(desc))),
        keyword_ok(trim(title), keyword) && keyword_ok(trim(desc), keyword),
{
}

/// Without the keyword a suitable title and description stay suitable: dropping the keyword
/// never makes the badge worse.
pub proof fn law_dropping_keyword_keeps_suitable(title: Seq<char>, desc: Seq<char>, keyword: Seq<char>)
    requires
        badge_of(title, desc, keyword, false) == MetaBadge::Uygun,
    ensures
        badge_of(title, desc, Seq::<char>::empty(), false) == MetaBadge::Uygun,
{
    assert(trim(Seq::<char>::empty()) =~= Seq::<char>::empty());
}

/// White space around the title or the description does not change the badge.
pub proof fn law_badge_ignores_surrounding_space(
    title: Seq<char>,
    desc: Seq<char>,
    keyword: Seq<char>,
    done: bool,
    a: Seq<char>,
    b: Seq<char>,
)
    requires
        forall|i: int| 0 <= i < a.len() ==> crate::text::is_ws(#[trigger] a[i]),
        forall|i: int| 0 <= i < b.len() ==> crate::text::is_ws(#[trigger] b[i]),
    ensures
        badge_of(a + title + b, desc, keyword, done) == badge_of(title, desc, keyword, done),
        badge_of(title, a + desc + b, keyword, done) == badge_of(title, desc, keyword, done),
{
    crate::text::lemma_trim_surrounded(title, a, b);
    crate::text::lemma_trim_surrounded(desc, a, b);
}

/// Stripped HTML text has no white space at either end and none repeated: only single spaces
/// between words.
pub proof fn law_plain_text_is_tidy(html: Seq<char>)
    ensures
        crate::text::tidy(plain_text(html)),
{
    crate::text::law_collapse_ws_is_tidy(decode_entities(strip_state(html).0));
}

/// A plain text: no tag bracket and no entity start.
pub open spec fn plain_chars(a: Seq<char>) -> bool {
    forall|i: int| 0 <= i < a.len() ==> #[trigger] a[i] != '<' && a[i] != '>' && a[i] != '&'
}

proof fn lemma_no_amp_replace(s: Seq<char>, pat: Seq<char>, rep: Seq<char>)
    requires
        forall|i: int| 0 <= i < s.len() ==> #[trigger] s[i] != '&',
        pat.len() > 0,
        pat[0] == '&',
    ensures
        replace_all(s, pat, rep) == s,
    decreases s.len(),
{
    if s.len() > 0 {
        if occurs_at(s, pat, 0) {
            assert(s.subrange(0, pat.len() as int)[0] == s[0]);
        }
        assert forall|i: int| 0 <= i < s.drop_first().len() implies #[trigger] s.drop_first()[i] != '&' by {
            assert(s.drop_first()[i] == s[i + 1]);
        }
        lemma_no_amp_replace(s.drop_first(), pat, rep);
        assert(seq![s[0]] + s.drop_first() =~= s);
    }
}

proof fn lemma_no_amp_decode(s: Seq<char>)
    requires
        forall|i: int| 0 <= i < s.len() ==> #[trigger] s[i] != '&',
    ensures
        decode_entities(s) == s,
{
    reveal_strlit("&nbsp;");
    reveal_strlit("&amp;");
    reveal_strlit("&lt;");
    reveal_strlit("&gt;");
    reveal_strlit("&quot;");
    lemma_no_amp_replace(s, "&nbsp;"@, " "@);
    lemma_no_amp_replace(s, "&amp;"@, "&"@);
    lemma_no_amp_replace(s, "&lt;"@, "<"@);
    lemma_no_amp_replace(s, "&gt;"@, ">"@);
    lemma_no_amp_replace(s, "&quot;"@, "\""@);
}

proof fn lemma_strip_plain(x: Seq<char>, a: Seq<char>)
    requires
        !strip_state(x).1,
        plain_chars(a),
    ensures
        strip_state(x + a) == (strip_state(x).0 + a, false),
    decreases a.len(),
{
    if a.len() == 0 {
        assert(x + a =~= x);
        assert(strip_state(x).0 + a =~= strip_state(x).0);
    } else {
        assert((x + a).drop_last() =~= x + a.drop_last());
        assert((x + a).last() == a.last());
        assert forall|i: int| 0 <= i < a.drop_last().len() implies #[trigger] a.drop_last()[i] != '<' && a.drop_last()[i] != '>' && a.drop_last()[i] != '&' by {
            assert(a.drop_last()[i] == a[i]);
        }
        lemma_strip_plain(x, a.drop_last());
        assert(a[a.len() - 1] != '<' && a[a.len() - 1] != '>');
        assert((strip_state(x).0 + a.drop_last()).push(a.last()) =~= strip_state(x).0 + a);
    }
}

proof fn lemma_strip_tag_inside(x: Seq<char>, inner: Seq<char>)
    requires
        forall|i: int| 0 <= i < inner.len() ==> #[trigger] inner[i] != '<' && inner[i] != '>',
    ensures
        strip_state(x + seq!['<'] + inner) == (strip_state(x).0, true),
    decreases inner.len(),
{
    if inner.len() == 0 {
        assert(x + seq!['<'] + inner =~= x.push('<'));
        assert(x.push('<').drop_last() =~= x);
    } else {
        assert((x + seq!['<'] + inner).drop_last() =~= x + seq!['<'] + inner.drop_last());
        assert((x + seq!['<'] + inner).last() == inner.last());
        assert forall|i: int| 0 <= i < inner.drop_last().len() implies #[trigger] inner.drop_last()[i] != '<' && inner.drop_last()[i] != '>' by {
            assert(inner.drop_last()[i] == inner[i]);
        }
        lemma_strip_tag_inside(x, inner.drop_last());
        assert(inner[inner.len() - 1] != '<' && inner[inner.len() - 1] != '>');
    }
}

/// A tag leaves one space in the stripped text, whatever came before.
proof fn lemma_strip_tag(x: Seq<char>, inner: Seq<char>)
    requires
        forall|i: int| 0 <= i < inner.len() ==> #[trigger] inner[i] != '<' && inner[i] != '>',
    ensures
        strip_state(x + (seq!['<'] + inner + seq!['>'])) == (strip_state(x).0.push(' '), false),
{
    lemma_strip_tag_inside(x, inner);
    let y = x + (seq!['<'] + inner + seq!['>']);
    assert(y.drop_last() =~= x + seq!['<'] + inner);
    assert(y.last() == '>');
}

/// The words counted in an HTML text are the words of its stripped, decoded text.
proof fn lemma_word_total_words(h: Seq<char>)
    ensures
        word_total(h) == words(decode_entities(strip_state(h).0)).len(),
{
    crate::text::lemma_collapse_words(decode_entities(strip_state(h).0));
}

/// Two plain texts wrapped in paragraphs count the words of both: tags add no words, and a
/// tag always separates words.
pub proof fn law_word_count_adds_over_paragraphs(a: Seq<char>, b: Seq<char>)
    requires
        plain_chars(a),
        plain_chars(b),
    ensures
        word_total(seq!['<', 'p', '>'] + a + seq!['<', '/', 'p', '>', '<', 'p', '>'] + b + seq!['<', '/', 'p', '>'])
            == word_total(a) + word_total(b),
{
    let open = seq!['<', 'p', '>'];
    let close = seq!['<', '/', 'p', '>'];
    let e = Seq::<char>::empty();
    let pi = seq!['p'];
    let ci = seq!['/', 'p'];
    assert(forall|i: int| 0 <= i < pi.len() ==> #[trigger] pi[i] != '<' && pi[i] != '>');
    assert(forall|i: int| 0 <= i < ci.len() ==> #[trigger] ci[i] != '<' && ci[i] != '>');
    assert(open =~= seq!['<'] + pi + seq!['>']);
    assert(close =~= seq!['<'] + ci + seq!['>']);
    // the stripped text, piece by piece
    lemma_strip_tag(e, pi);
    assert(e + open =~= open);
    assert(strip_state(e).0.push(' ') =~= seq![' ']);
    let x1 = open + a;
    lemma_strip_plain(open, a);
    let x2 = x1 + close;
    lemma_strip_tag(x1, ci);
    let x3 = x2 + open;
    lemma_strip_tag(x2, pi);
    let x4 = x3 + b;
    lemma_strip_plain(x3, b);
    let x5 = x4 + close;
    lemma_strip_tag(x4, ci);
    let html = open + a + (close + open) + b + close;
    assert(html =~= x5);
    assert(seq!['<', '/', 'p', '>', '<', 'p', '>'] =~= close + open);
    let t = seq![' '] + a + seq![' ', ' '] + b + seq![' '];
    assert(strip_state(x5).0 =~= t);
    // no entity
    assert forall|i: int| 0 <= i < t.len() implies #[trigger] t[i] != '&' by {
        if 1 <= i < 1 + a.len() {
            assert(t[i] == a[i - 1]);
        } else if 3 + a.len() <= i < 3 + a.len() + b.len() {
            assert(t[i] == b[i - 3 - a.len()]);
        }
    }
    lemma_no_amp_decode(t);
    lemma_no_amp_decode(a);
    lemma_no_amp_decode(b);
    lemma_strip_plain(e, a);
    lemma_strip_plain(e, b);
    assert(e + a =~= a);
    assert(e + b =~= b);
    assert(strip_state(e).0 + a =~= a);
    assert(strip_state(e).0 + b =~= b);
    lemma_word_total_words(x5);
    lemma_word_total_words(a);
    lemma_word_total_words(b);
    // the words of the stripped text
    let sp = seq![' '];
    let left = sp + a + seq![' ', ' '];
    let right = b + seq![' '];
    assert(t =~= left + right);
    crate::text::lemma_split_after_ws(left);
    crate::text::lemma_words_concat(left, right);
    crate::text::lemma_split_after_ws(right);
    assert(right.drop_last() =~= b);
    let l1 = sp + a + seq![' '];
    assert(left.drop_last() =~= l1);
    crate::text::lemma_split_after_ws(l1);
    assert(l1.drop_last() =~= sp + a);
    crate::text::lemma_split_after_ws(sp);
    crate::text::lemma_words_concat(sp, a);
    assert(sp.drop_last() =~= e);
    assert(words(e) =~= Seq::<Seq<char>>::empty());
    assert(words(sp) + words(a) =~= words(a));
}

} // verus!
