//! Character-sequence helpers shared by the rule modules.

use vstd::prelude::*;
use vstd::string::StringSliceAdditionalSpecFns;
use vstd::string::StrSliceExecFns;

verus! {

/// `String::push` appends one character at the end of the string; the contract says that the
/// new contents are the old ones followed by that character.
pub assume_specification[ String::push ](s: &mut String, ch: char)
    ensures
        final(s)@ == old(s)@.push(ch),
;

/// Copies the characters of a string slice into a vector.
pub fn chars_of(s: &str) -> (v: Vec<char>)
    ensures
        v@ == s@,
{
    let mut v: Vec<char> = Vec::new();
    for c in it: s.chars()
        invariant
            v@ == it.seq().take(it.index() as int),
            it.seq() == s@,
    {
        v.push(c);
    }
    v
}

/// Builds a string from a slice of characters.
pub fn string_of(v: &[char]) -> (s: String)
    ensures
        s@ == v@,
{
    let mut s = String::new();
    let mut i: usize = 0;
    while i < v.len()
        invariant
            i <= v@.len(),
            s@ == v@.take(i as int),
        decreases v@.len() - i,
    {
        s.push(v[i]);
        assert(v@.take(i + 1) == v@.take(i as int).push(v@[i as int]));
        i = i + 1;
    }
    assert(v@.take(v@.len() as int) == v@);
    s
}

} // verus!

verus! {

/// Unicode `White_Space` characters (the set `char::is_whitespace` accepts).
pub open spec fn is_ws(c: char) -> bool {
    ||| ('\u{9}' <= c && c <= '\u{d}')
    ||| c == ' '
    ||| c == '\u{85}'
    ||| c == '\u{a0}'
    ||| c == '\u{1680}'
    ||| ('\u{2000}' <= c && c <= '\u{200a}')
    ||| c == '\u{2028}'
    ||| c == '\u{2029}'
    ||| c == '\u{202f}'
    ||| c == '\u{205f}'
    ||| c == '\u{3000}'
}

pub fn is_ws_char(c: char) -> (r: bool)
    ensures
        r == is_ws(c),
{
    ('\u{9}' <= c && c <= '\u{d}') || c == ' ' || c == '\u{85}' || c == '\u{a0}' || c == '\u{1680}'
        || ('\u{2000}' <= c && c <= '\u{200a}') || c == '\u{2028}' || c == '\u{2029}'
        || c == '\u{202f}' || c == '\u{205f}' || c == '\u{3000}'
}

/// `s` without its leading white space.
pub open spec fn trim_start(s: Seq<char>) -> Seq<char>
    decreases s.len(),
{
    if s.len() > 0 && is_ws(s[0]) {
        trim_start(s.drop_first())
    } else {
        s
    }
}

/// `s` without its trailing white space.
pub open spec fn trim_end(s: Seq<char>) -> Seq<char>
    decreases s.len(),
{
    if s.len() > 0 && is_ws(s.last()) {
        trim_end(s.drop_last())
    } else {
        s
    }
}

/// `s` without leading and trailing white space (what `str::trim` gives).
pub open spec fn trim(s: Seq<char>) -> Seq<char> {
    trim_end(trim_start(s))
}

proof fn lemma_trim_start_head(s: Seq<char>)
    ensures
        trim_start(s).len() > 0 ==> !is_ws(trim_start(s)[0]),
    decreases s.len(),
{
    if s.len() > 0 && is_ws(s[0]) {
        lemma_trim_start_head(s.drop_first());
    }
}

proof fn lemma_trim_end_shape(s: Seq<char>)
    ensures
        trim_end(s).len() <= s.len(),
        trim_end(s) == s.take(trim_end(s).len() as int),
        trim_end(s).len() > 0 ==> !is_ws(trim_end(s).last()),
    decreases s.len(),
{
    if s.len() > 0 && is_ws(s.last()) {
        lemma_trim_end_shape(s.drop_last());
        assert(s.drop_last().take(trim_end(s).len() as int) == s.take(trim_end(s).len() as int));
    } else {
        assert(s.take(s.len() as int) == s);
    }
}

/// Leading white space of a concatenation: the first part's, or (when the first part is all
/// white space) the second part's.
pub proof fn lemma_trim_start_concat(s: Seq<char>, u: Seq<char>)
    ensures
        trim_start(s + u) == (if trim_start(s).len() > 0 {
            trim_start(s) + u
        } else {
            trim_start(u)
        }),
    decreases s.len(),
{
    if s.len() == 0 {
        assert(s + u == u);
    } else if is_ws(s[0]) {
        assert((s + u).drop_first() == s.drop_first() + u);
        lemma_trim_start_concat(s.drop_first(), u);
    } else {
        assert((s + u)[0] == s[0]);
    }
}

/// Trailing white space of a concatenation: the second part's, or (when the second part is
/// all white space) the first part's.
pub proof fn lemma_trim_end_concat(s: Seq<char>, u: Seq<char>)
    ensures
        trim_end(s + u) == (if trim_end(u).len() > 0 {
            s + trim_end(u)
        } else {
            trim_end(s)
        }),
    decreases u.len(),
{
    if u.len() == 0 {
        assert(s + u == s);
    } else if is_ws(u.last()) {
        assert((s + u).drop_last() == s + u.drop_last());
        lemma_trim_end_concat(s, u.drop_last());
    } else {
        assert((s + u).last() == u.last());
    }
}

/// Surrounding a text with white space does not change its trimmed form.
pub proof fn lemma_trim_surrounded(t: Seq<char>, a: Seq<char>, b: Seq<char>)
    requires
        forall|i: int| 0 <= i < a.len() ==> is_ws(#[trigger] a[i]),
        forall|i: int| 0 <= i < b.len() ==> is_ws(#[trigger] b[i]),
    ensures
        trim(a + t + b) == trim(t),
{
    lemma_all_ws_start(a);
    lemma_all_ws_end(b);
    lemma_all_ws_start(b);
    lemma_trim_start_concat(a, t + b);
    assert(a + t + b == a + (t + b));
    lemma_trim_start_concat(t, b);
    if trim_start(t).len() > 0 {
        lemma_trim_end_concat(trim_start(t), b);
    } else {
        lemma_all_ws_end(b);
    }
}

proof fn lemma_all_ws_start(a: Seq<char>)
    requires
        forall|i: int| 0 <= i < a.len() ==> is_ws(#[trigger] a[i]),
    ensures
        trim_start(a).len() == 0,
    decreases a.len(),
{
    if a.len() > 0 {
        assert forall|i: int| 0 <= i < a.drop_first().len() implies is_ws(#[trigger] a.drop_first()[i]) by {
            assert(a.drop_first()[i] == a[i + 1]);
        }
        lemma_all_ws_start(a.drop_first());
    }
}

proof fn lemma_all_ws_end(a: Seq<char>)
    requires
        forall|i: int| 0 <= i < a.len() ==> is_ws(#[trigger] a[i]),
    ensures
        trim_end(a).len() == 0,
    decreases a.len(),
{
    if a.len() > 0 {
        assert forall|i: int| 0 <= i < a.drop_last().len() implies is_ws(#[trigger] a.drop_last()[i]) by {
            assert(a.drop_last()[i] == a[i]);
        }
        lemma_all_ws_end(a.drop_last());
    }
}

/// Trimming twice is trimming once.
pub proof fn lemma_trim_fixed(s: Seq<char>)
    ensures
        trim(trim(s)) == trim(s),
{
    let a = trim_start(s);
    let t = trim_end(a);
    lemma_trim_start_head(s);
    lemma_trim_end_shape(a);
    if t.len() > 0 {
        assert(t[0] == a[0]);
        assert(trim_start(t) == t);
        lemma_trim_end_shape(t);
        assert(trim_end(t) == t);
    } else {
        assert(trim_start(t) == t);
        assert(trim_end(t) == t);
    }
}

/// Bounds of the trimmed part of `v`.
pub fn trim_bounds(v: &[char]) -> (r: (usize, usize))
    ensures
        r.0 <= r.1 <= v@.len(),
        v@.subrange(r.0 as int, r.1 as int) == trim(v@),
{
    let n = v.len();
    let mut i: usize = 0;
    assert(v@.skip(0) == v@);
    while i < n && is_ws_char(v[i])
        invariant
            i <= n == v@.len(),
            trim_start(v@) == trim_start(v@.skip(i as int)),
        decreases n - i,
    {
        assert(v@.skip(i as int).drop_first() == v@.skip(i + 1));
        i = i + 1;
    }
    assert(trim_start(v@) == v@.skip(i as int));
    let mut j: usize = n;
    assert(v@.skip(i as int) == v@.subrange(i as int, n as int));
    while j > i && is_ws_char(v[j - 1])
        invariant
            i <= j <= n == v@.len(),
            trim(v@) == trim_end(v@.subrange(i as int, j as int)),
        decreases j,
    {
        assert(v@.subrange(i as int, j as int).drop_last() == v@.subrange(i as int, j - 1));
        j = j - 1;
    }
    (i, j)
}

/// The trimmed characters of a string slice.
pub fn trim_str(s: &str) -> (r: Vec<char>)
    ensures
        r@ == trim(s@),
{
    let v = chars_of(s);
    let (a, b) = trim_bounds(v.as_slice());
    slice_to_vec_range(v.as_slice(), a, b)
}

/// Copies `v[a..b]`.
pub fn slice_to_vec_range(v: &[char], a: usize, b: usize) -> (r: Vec<char>)
    requires
        a <= b <= v@.len(),
    ensures
        r@ == v@.subrange(a as int, b as int),
{
    let mut r: Vec<char> = Vec::new();
    let mut k = a;
    while k < b
        invariant
            a <= k <= b <= v@.len(),
            r@ == v@.subrange(a as int, k as int),
        decreases b - k,
    {
        r.push(v[k]);
        assert(v@.subrange(a as int, k + 1) == v@.subrange(a as int, k as int).push(v@[k as int]));
        k = k + 1;
    }
    r
}

/// Appends all of `src` to `out`.
pub fn extend_chars(out: &mut Vec<char>, src: &[char])
    ensures
        final(out)@ == old(out)@ + src@,
{
    let mut k: usize = 0;
    while k < src.len()
        invariant
            k <= src@.len(),
            out@ == old(out)@ + src@.take(k as int),
        decreases src@.len() - k,
    {
        out.push(src[k]);
        assert(src@.take(k + 1) == src@.take(k as int).push(src@[k as int]));
        k = k + 1;
    }
    assert(src@.take(src@.len() as int) == src@);
}

/// Appends the characters of a string slice to `out`.
pub fn extend_str(out: &mut Vec<char>, s: &str)
    ensures
        final(out)@ == old(out)@ + s@,
{
    let v = chars_of(s);
    extend_chars(out, v.as_slice());
}

/// `p` occurs in `s` starting at position `i`.
pub open spec fn occurs_at(s: Seq<char>, p: Seq<char>, i: int) -> bool {
    0 <= i && i + p.len() <= s.len() && s.subrange(i, i + p.len()) == p
}

/// `p` occurs somewhere in `s` (what `str::contains` with a string pattern decides).
pub open spec fn contains(s: Seq<char>, p: Seq<char>) -> bool {
    exists|i: int| #[trigger] occurs_at(s, p, i)
}

/// Whether `p` occurs in `s` at position `i`.
pub fn matches_at(s: &[char], p: &[char], i: usize) -> (r: bool)
    ensures
        r == occurs_at(s@, p@, i as int),
{
    if i > s.len() || p.len() > s.len() - i {
        return false;
    }
    let mut k: usize = 0;
    while k < p.len()
        invariant
            i + p@.len() <= s@.len(),
            s@.len() == s.len(),
            k <= p@.len(),
            forall|t: int| 0 <= t < k ==> s@[i + t] == p@[t],
        decreases p@.len() - k,
    {
        if s[i + k] != p[k] {
            assert(s@.subrange(i as int, i + p@.len())[k as int] != p@[k as int]);
            return false;
        }
        k = k + 1;
    }
    assert(s@.subrange(i as int, i + p@.len()) =~= p@);
    true
}

/// Whether `p` occurs in `s`.
pub fn contains_chars(s: &[char], p: &[char]) -> (r: bool)
    ensures
        r == contains(s@, p@),
{
    if p.len() > s.len() {
        assert forall|i: int| !occurs_at(s@, p@, i) by {}
        return false;
    }
    let last = s.len() - p.len();
    let mut i: usize = 0;
    loop
        invariant
            i <= last,
            last == s@.len() - p@.len(),
            forall|t: int| 0 <= t < i ==> !#[trigger] occurs_at(s@, p@, t),
        ensures
            forall|t: int| 0 <= t <= last ==> !#[trigger] occurs_at(s@, p@, t),
        decreases last - i,
    {
        if matches_at(s, p, i) {
            return true;
        }
        if i == last {
            break;
        }
        i = i + 1;
    }
    assert forall|t: int| !#[trigger] occurs_at(s@, p@, t) by {
        if t > last {
        }
    }
    false
}

} // verus!

verus! {

/// What `str::to_lowercase` gives for a character sequence (Unicode lower-case mapping).
pub uninterp spec fn lowercase(s: Seq<char>) -> Seq<char>;

/// Calls `str::to_lowercase`; its result is the Unicode lower-case mapping of the input,
/// a function of the input alone, named `lowercase`. Each character maps to one or more
/// characters, so the empty text maps to the empty text.
#[verifier::external_body]
pub(crate) fn to_lowercase(s: &str) -> (r: String)
    ensures
        r@ == lowercase(s@),
        s@.len() == 0 ==> r@.len() == 0,
{
    s.to_lowercase()
}

/// Lower-cases a character vector (through `to_lowercase`).
pub fn lowercase_chars(v: &[char]) -> (r: Vec<char>)
    ensures
        r@ == lowercase(v@),
        v@.len() == 0 ==> r@.len() == 0,
{
    let s = string_of(v);
    let l = to_lowercase(s.as_str());
    chars_of(l.as_str())
}

/// Left-to-right, non-overlapping replacement of `pat` by `rep` (what `str::replace` gives).
pub open spec fn replace_all(s: Seq<char>, pat: Seq<char>, rep: Seq<char>) -> Seq<char>
    decreases s.len(),
{
    if pat.len() == 0 || s.len() == 0 {
        s
    } else if occurs_at(s, pat, 0) {
        rep + replace_all(s.skip(pat.len() as int), pat, rep)
    } else {
        seq![s[0]] + replace_all(s.drop_first(), pat, rep)
    }
}

/// Number of left-to-right, non-overlapping occurrences of `pat` (what `str::matches(..).count()` gives).
pub open spec fn count_matches(s: Seq<char>, pat: Seq<char>) -> nat
    decreases s.len(),
{
    if pat.len() == 0 || s.len() == 0 {
        0
    } else if occurs_at(s, pat, 0) {
        1 + count_matches(s.skip(pat.len() as int), pat)
    } else {
        count_matches(s.drop_first(), pat)
    }
}

proof fn lemma_occurs_skip(s: Seq<char>, p: Seq<char>, i: int)
    requires
        0 <= i <= s.len(),
    ensures
        occurs_at(s.skip(i), p, 0) == occurs_at(s, p, i),
{
    if occurs_at(s, p, i) {
        assert(s.skip(i).subrange(0, p.len() as int) =~= s.subrange(i, i + p.len()));
    }
    if occurs_at(s.skip(i), p, 0) {
        assert(s.skip(i).subrange(0, p.len() as int) =~= s.subrange(i, i + p.len()));
    }
}

/// Replaces every occurrence of `pat` by `rep`, scanning left to right.
pub fn replace_chars(s: &[char], pat: &[char], rep: &[char]) -> (r: Vec<char>)
    requires
        pat@.len() > 0,
    ensures
        r@ == replace_all(s@, pat@, rep@),
{
    let n = s.len();
    let mut out: Vec<char> = Vec::new();
    let mut i: usize = 0;
    assert(s@.skip(0) == s@);
    while i < n
        invariant
            i <= n == s@.len(),
            pat@.len() > 0,
            replace_all(s@, pat@, rep@) == out@ + replace_all(s@.skip(i as int), pat@, rep@),
        decreases n - i,
    {
        proof {
            lemma_occurs_skip(s@, pat@, i as int);
        }
        if matches_at(s, pat, i) {
            assert(s@.skip(i as int).skip(pat@.len() as int) == s@.skip(i + pat@.len()));
            extend_chars(&mut out, rep);
            i = i + pat.len();
        } else {
            assert(s@.skip(i as int).drop_first() == s@.skip(i + 1));
            assert(s@.skip(i as int)[0] == s@[i as int]);
            out.push(s[i]);
            i = i + 1;
        }
    }
    assert(s@.skip(i as int).len() == 0);
    out
}

/// Counts the non-overlapping occurrences of `pat` in `s`.
pub fn count_chars_matches(s: &[char], pat: &[char]) -> (r: usize)
    requires
        pat@.len() > 0,
    ensures
        r == count_matches(s@, pat@),
{
    let n = s.len();
    let mut c: usize = 0;
    let mut i: usize = 0;
    assert(s@.skip(0) == s@);
    while i < n
        invariant
            i <= n == s@.len(),
            pat@.len() > 0,
            c <= i,
            count_matches(s@, pat@) == c + count_matches(s@.skip(i as int), pat@),
        decreases n - i,
    {
        proof {
            lemma_occurs_skip(s@, pat@, i as int);
        }
        if matches_at(s, pat, i) {
            assert(s@.skip(i as int).skip(pat@.len() as int) == s@.skip(i + pat@.len()));
            c = c + 1;
            i = i + pat.len();
        } else {
            assert(s@.skip(i as int).drop_first() == s@.skip(i + 1));
            i = i + 1;
        }
    }
    assert(s@.skip(i as int).len() == 0);
    c
}

/// Scanning state of white-space splitting: the finished words and the word in progress.
pub open spec fn split_state(s: Seq<char>) -> (Seq<Seq<char>>, Seq<char>)
    decreases s.len(),
{
    if s.len() == 0 {
        (seq![], seq![])
    } else {
        let (ws, cur) = split_state(s.drop_last());
        if is_ws(s.last()) {
            if cur.len() > 0 {
                (ws.push(cur), seq![])
            } else {
                (ws, cur)
            }
        } else {
            (ws, cur.push(s.last()))
        }
    }
}

/// The maximal white-space-free runs of `s`, in order (what `str::split_whitespace` yields).
pub open spec fn words(s: Seq<char>) -> Seq<Seq<char>> {
    let (ws, cur) = split_state(s);
    if cur.len() > 0 {
        ws.push(cur)
    } else {
        ws
    }
}

/// The pieces of `ws` joined by `sep` (what `join` on a slice of strings gives).
pub open spec fn join(ws: Seq<Seq<char>>, sep: Seq<char>) -> Seq<char>
    decreases ws.len(),
{
    if ws.len() == 0 {
        seq![]
    } else if ws.len() == 1 {
        ws[0]
    } else {
        join(ws.drop_last(), sep) + sep + ws.last()
    }
}

pub open spec fn views(v: Seq<Vec<char>>) -> Seq<Seq<char>> {
    v.map_values(|w: Vec<char>| w@)
}

/// Splits `s` at white space into its words.
pub fn split_words(s: &[char]) -> (r: Vec<Vec<char>>)
    ensures
        views(r@) == words(s@),
{
    let n = s.len();
    let mut out: Vec<Vec<char>> = Vec::new();
    let mut cur: Vec<char> = Vec::new();
    let mut i: usize = 0;
    assert(s@.take(0) =~= Seq::<char>::empty());
    assert(views(out@) =~= Seq::<Seq<char>>::empty());
    while i < n
        invariant
            i <= n == s@.len(),
            (views(out@), cur@) == split_state(s@.take(i as int)),
        decreases n - i,
    {
        assert(s@.take(i + 1).drop_last() == s@.take(i as int));
        assert(s@.take(i + 1).last() == s@[i as int]);
        let c = s[i];
        if is_ws_char(c) {
            if cur.len() > 0 {
                let ghost old_out = out@;
                let w = cur;
                out.push(w);
                assert(views(out@) =~= views(old_out).push(w@));
                cur = Vec::new();
            }
        } else {
            cur.push(c);
        }
        i = i + 1;
    }
    assert(s@.take(n as int) == s@);
    if cur.len() > 0 {
        let ghost old_out = out@;
        let w = cur;
        out.push(w);
        assert(views(out@) =~= views(old_out).push(w@));
    }
    out
}

/// Joins the words with `sep` in between.
pub fn join_words(ws: &Vec<Vec<char>>, sep: &[char]) -> (r: Vec<char>)
    ensures
        r@ == join(views(ws@), sep@),
{
    let mut out: Vec<char> = Vec::new();
    let mut i: usize = 0;
    while i < ws.len()
        invariant
            i <= ws@.len(),
            out@ == join(views(ws@).take(i as int), sep@),
        decreases ws@.len() - i,
    {
        let ghost before = views(ws@).take(i as int);
        assert(views(ws@).take(i + 1).drop_last() == before);
        assert(views(ws@).take(i + 1).last() == ws@[i as int]@);
        if i > 0 {
            extend_chars(&mut out, sep);
        } else {
            assert(views(ws@).take(1) =~= seq![ws@[0]@]);
        }
        extend_chars(&mut out, ws[i].as_slice());
        i = i + 1;
    }
    assert(views(ws@).take(ws@.len() as int) == views(ws@));
    out
}

/// Collapses white space: the words of `s` joined by single spaces.
pub open spec fn collapse_ws(s: Seq<char>) -> Seq<char> {
    join(words(s), seq![' '])
}

pub fn collapse_ws_chars(s: &[char]) -> (r: Vec<char>)
    ensures
        r@ == collapse_ws(s@),
{
    let ws = split_words(s);
    let mut sep: Vec<char> = Vec::new();
    sep.push(' ');
    assert(sep@ =~= seq![' ']);
    join_words(&ws, sep.as_slice())
}

/// The decimal digit character of `d < 10`.
pub open spec fn digit_char(d: int) -> char {
    (d + 48) as char
}

/// Decimal notation of a natural number.
pub open spec fn nat_digits(n: nat) -> Seq<char>
    decreases n,
{
    if n < 10 {
        seq![digit_char(n as int)]
    } else {
        nat_digits(n / 10).push(digit_char((n % 10) as int))
    }
}

/// Decimal notation of an integer (what `Display` writes for integers).
pub open spec fn int_digits(n: int) -> Seq<char> {
    if n < 0 {
        seq!['-'] + nat_digits((-n) as nat)
    } else {
        nat_digits(n as nat)
    }
}

/// Appends the decimal notation of `n`.
pub fn push_u64(out: &mut Vec<char>, n: u64)
    ensures
        final(out)@ == old(out)@ + nat_digits(n as nat),
    decreases n,
{
    if n >= 10 {
        push_u64(out, n / 10);
    }
    let d = (n % 10) as u8;
    let c = (48u8 + d) as char;
    assert(c == digit_char((n % 10) as int));
    out.push(c);
}

/// Appends the decimal notation of `n`.
pub fn push_i64(out: &mut Vec<char>, n: i64)
    ensures
        final(out)@ == old(out)@ + int_digits(n as int),
{
    if n < 0 {
        out.push('-');
        let m: u64 = (-(n as i128)) as u64;
        push_u64(out, m);
    } else {
        push_u64(out, n as u64);
    }
}

} // verus!

verus! {

/// Whether two character slices are equal.
pub fn eq_chars(a: &[char], b: &[char]) -> (r: bool)
    ensures
        r == (a@ == b@),
{
    if a.len() != b.len() {
        return false;
    }
    let mut k: usize = 0;
    while k < a.len()
        invariant
            a@.len() == b@.len(),
            k <= a@.len(),
            forall|t: int| 0 <= t < k ==> a@[t] == b@[t],
        decreases a@.len() - k,
    {
        if a[k] != b[k] {
            return false;
        }
        k = k + 1;
    }
    assert(a@ =~= b@);
    true
}

/// Whether two string slices hold the same characters.
pub fn str_eq(a: &str, b: &str) -> (r: bool)
    ensures
        r == (a@ == b@),
{
    let x = chars_of(a);
    let y = chars_of(b);
    eq_chars(x.as_slice(), y.as_slice())
}

/// `p` is a prefix of `s`.
pub open spec fn starts_with(s: Seq<char>, p: Seq<char>) -> bool {
    p.len() <= s.len() && s.take(p.len() as int) == p
}

/// `p` is a suffix of `s`.
pub open spec fn ends_with(s: Seq<char>, p: Seq<char>) -> bool {
    p.len() <= s.len() && s.skip(s.len() - p.len()) == p
}

/// `s` with every trailing repetition of `suf` removed (what `trim_end_matches` gives).
pub open spec fn strip_suffix_all(s: Seq<char>, suf: Seq<char>) -> Seq<char>
    decreases s.len(),
{
    if suf.len() > 0 && ends_with(s, suf) {
        strip_suffix_all(s.take(s.len() - suf.len()), suf)
    } else {
        s
    }
}

/// `s` with every leading repetition of `pre` removed (what `trim_start_matches` gives).
pub open spec fn strip_prefix_all(s: Seq<char>, pre: Seq<char>) -> Seq<char>
    decreases s.len(),
{
    if pre.len() > 0 && starts_with(s, pre) {
        strip_prefix_all(s.skip(pre.len() as int), pre)
    } else {
        s
    }
}

pub fn starts_with_chars(s: &[char], p: &[char]) -> (r: bool)
    ensures
        r == starts_with(s@, p@),
{
    let r = matches_at(s, p, 0);
    proof {
        if r {
            assert(s@.take(p@.len() as int) == s@.subrange(0, p@.len() as int));
        }
        if starts_with(s@, p@) {
            assert(s@.take(p@.len() as int) == s@.subrange(0, p@.len() as int));
        }
    }
    r
}

pub fn ends_with_chars(s: &[char], p: &[char]) -> (r: bool)
    ensures
        r == ends_with(s@, p@),
{
    if p.len() > s.len() {
        return false;
    }
    let r = matches_at(s, p, s.len() - p.len());
    proof {
        assert(s@.skip(s@.len() - p@.len()) == s@.subrange(s@.len() - p@.len(), s@.len() as int));
    }
    r
}

/// Removes every trailing repetition of `suf`.
pub fn strip_suffix_all_chars(s: &[char], suf: &[char]) -> (r: Vec<char>)
    ensures
        r@ == strip_suffix_all(s@, suf@),
{
    let mut end = s.len();
    assert(s@.take(end as int) == s@);
    if suf.len() == 0 {
        return slice_to_vec_range(s, 0, end);
    }
    loop
        invariant
            end <= s@.len(),
            suf@.len() > 0,
            strip_suffix_all(s@, suf@) == strip_suffix_all(s@.take(end as int), suf@),
        decreases end,
    {
        let t = slice_to_vec_range(s, 0, end);
        assert(t@ == s@.take(end as int));
        if ends_with_chars(t.as_slice(), suf) {
            assert(s@.take(end as int).take(end - suf@.len()) == s@.take(end - suf@.len()));
            end = end - suf.len();
        } else {
            return t;
        }
    }
}

/// Removes every leading repetition of `pre`.
pub fn strip_prefix_all_chars(s: &[char], pre: &[char]) -> (r: Vec<char>)
    ensures
        r@ == strip_prefix_all(s@, pre@),
{
    let n = s.len();
    let mut start: usize = 0;
    assert(s@.skip(0) == s@);
    if pre.len() == 0 {
        return slice_to_vec_range(s, 0, n);
    }
    loop
        invariant
            start <= n == s@.len(),
            pre@.len() > 0,
            strip_prefix_all(s@, pre@) == strip_prefix_all(s@.skip(start as int), pre@),
        decreases n - start,
    {
        let t = slice_to_vec_range(s, start, n);
        assert(t@ == s@.skip(start as int));
        if starts_with_chars(t.as_slice(), pre) {
            assert(s@.skip(start as int).skip(pre@.len() as int) == s@.skip(start + pre@.len()));
            start = start + pre.len();
        } else {
            return t;
        }
    }
}

/// The UTF-8 encoding of a string slice decodes back to its characters.
pub proof fn lemma_bytes_decode(s: &str)
    ensures
        vstd::utf8::decode_utf8(s.spec_bytes()) == s@,
{
    vstd::utf8::encode_utf8_decode_utf8(s@);
}

/// The characters of the first `n` bytes (what `s.get(..n)` gives), when `n` is a
/// character boundary within `s`.
pub open spec fn byte_prefix(s: Seq<char>, n: int) -> Option<Seq<char>> {
    let b = vstd::utf8::encode_utf8(s);
    if n <= b.len() && vstd::utf8::is_char_boundary(b, n) {
        Some(vstd::utf8::decode_utf8(b.take(n)))
    } else {
        None
    }
}

/// `s.get(..n)`: the first `n` bytes, unless `n` is out of range or inside a character.
pub fn get_prefix(s: &str, n: usize) -> (r: Option<Vec<char>>)
    ensures
        r matches Some(p) ==> byte_prefix(s@, n as int) == Some(p@),
        r is None ==> byte_prefix(s@, n as int) is None,
{
    if n <= s.as_bytes().len() && s.is_char_boundary(n) {
        let (a, _b) = s.split_at(n);
        proof {
            lemma_bytes_decode(a);
            assert(a.spec_bytes() =~= s.spec_bytes().take(n as int));
        }
        Some(chars_of(a))
    } else {
        None
    }
}

/// Trimmed `s`, cut to its first `max` bytes with an ellipsis appended when longer.
pub open spec fn shorten(s: Seq<char>, max: nat) -> Seq<char> {
    let t = trim(s);
    let b = vstd::utf8::encode_utf8(t);
    if b.len() > max {
        vstd::utf8::decode_utf8(b.take(max as int)) + seq!['…']
    } else {
        t
    }
}

/// The cut of [`shorten`] falls on a character boundary (otherwise the slicing panics).
pub open spec fn shorten_ok(s: Seq<char>, max: nat) -> bool {
    let b = vstd::utf8::encode_utf8(trim(s));
    b.len() > max ==> vstd::utf8::is_char_boundary(b, max as int)
}

/// Trims `s` and cuts it to `max` bytes, marking the cut with `…`.
pub fn shorten_str(s: &str, max: usize) -> (r: Vec<char>)
    requires
        shorten_ok(s@, max as nat),
    ensures
        r@ == shorten(s@, max as nat),
{
    let t = string_of(trim_str(s).as_slice());
    if t.as_str().as_bytes().len() > max {
        let mut p = match get_prefix(t.as_str(), max) {
            Some(p) => p,
            None => {
                assert(false);
                Vec::new()
            },
        };
        p.push('…');
        p
    } else {
        chars_of(t.as_str())
    }
}

} // verus!

verus! {

pub open spec fn pair_view(v: Seq<(usize, usize)>) -> Seq<(int, int)> {
    v.map_values(|p: (usize, usize)| (p.0 as int, p.1 as int))
}

/// The characters between byte offsets `a` and `b` of the UTF-8 encoding of `s`.
pub open spec fn byte_text(s: Seq<char>, a: int, b: int) -> Seq<char> {
    vstd::utf8::decode_utf8(vstd::utf8::encode_utf8(s).subrange(a, b))
}

/// Byte offset `k` of `s` falls between characters and within the text.
pub open spec fn at_boundary(s: Seq<char>, k: int) -> bool {
    let b = vstd::utf8::encode_utf8(s);
    0 <= k <= b.len() && vstd::utf8::is_char_boundary(b, k)
}

proof fn lemma_prefix_boundary(bytes: Seq<u8>, b: int, a: int)
    requires
        vstd::utf8::valid_utf8(bytes),
        0 <= a <= b <= bytes.len(),
        vstd::utf8::is_char_boundary(bytes, a),
        vstd::utf8::is_char_boundary(bytes, b),
    ensures
        vstd::utf8::valid_utf8(bytes.subrange(0, b)),
        vstd::utf8::is_char_boundary(bytes.subrange(0, b), a),
{
    vstd::utf8::valid_utf8_split(bytes, b);
    let x = bytes.subrange(0, b);
    if a == 0 {
    } else if a == b {
        vstd::utf8::is_char_boundary_start_end_of_seq(x);
    } else {
        vstd::utf8::is_char_boundary_iff_not_is_continuation_byte(bytes, a);
        vstd::utf8::is_char_boundary_iff_not_is_continuation_byte(x, a);
    }
}

/// The characters between two byte offsets that fall between characters.
pub fn byte_slice_chars(s: &str, a: usize, b: usize) -> (r: Vec<char>)
    requires
        a <= b,
        at_boundary(s@, a as int),
        at_boundary(s@, b as int),
    ensures
        r@ == byte_text(s@, a as int, b as int),
{
    proof {
        vstd::utf8::encode_utf8_valid_utf8(s@);
        lemma_prefix_boundary(s.spec_bytes(), b as int, a as int);
    }
    let (pre, _rest) = s.split_at(b);
    proof {
        assert(pre.spec_bytes() =~= s.spec_bytes().subrange(0, b as int));
    }
    let (_head, mid) = pre.split_at(a);
    proof {
        assert(mid.spec_bytes() =~= s.spec_bytes().subrange(a as int, b as int));
        lemma_bytes_decode(mid);
    }
    chars_of(mid)
}

/// Byte ranges that are in order, do not overlap, and fall between characters.
pub open spec fn spans_ok(s: Seq<char>, spans: Seq<(int, int)>) -> bool {
    &&& forall|i: int|
        0 <= i < spans.len() ==> {
            &&& (#[trigger] spans[i]).0 <= spans[i].1
            &&& at_boundary(s, spans[i].0)
            &&& at_boundary(s, spans[i].1)
        }
    &&& forall|i: int| 0 <= i < spans.len() - 1 ==> (#[trigger] spans[i]).1 <= spans[i + 1].0
}

/// Where the text before span `i` starts: after span `i - 1`, or at the start.
pub open spec fn gap_start(spans: Seq<(int, int)>, i: int) -> int {
    if i <= 0 {
        0
    } else {
        spans[i - 1].1
    }
}

/// The text with the first `k` spans replaced, up to the end of span `k - 1`.
pub open spec fn spliced_prefix(s: Seq<char>, spans: Seq<(int, int)>, reps: Seq<Seq<char>>, k: int) -> Seq<char>
    decreases k,
{
    if k <= 0 {
        seq![]
    } else {
        spliced_prefix(s, spans, reps, k - 1) + byte_text(s, gap_start(spans, k - 1), spans[k - 1].0)
            + reps[k - 1]
    }
}

/// The text with each span replaced by its replacement.
pub open spec fn spliced(s: Seq<char>, spans: Seq<(int, int)>, reps: Seq<Seq<char>>) -> Seq<char> {
    spliced_prefix(s, spans, reps, spans.len() as int) + byte_text(
        s,
        gap_start(spans, spans.len() as int),
        vstd::utf8::encode_utf8(s).len() as int,
    )
}

/// Replaces each byte span of `s` by its replacement.
pub fn splice_spans(s: &str, spans: &[(usize, usize)], reps: &Vec<Vec<char>>) -> (r: Vec<char>)
    requires
        spans@.len() == reps@.len(),
        spans_ok(s@, pair_view(spans@)),
    ensures
        r@ == spliced(s@, pair_view(spans@), views(reps@)),
{
    let ghost sp = pair_view(spans@);
    let mut out: Vec<char> = Vec::new();
    let mut last: usize = 0;
    let mut i: usize = 0;
    proof {
        vstd::utf8::encode_utf8_valid_utf8(s@);
        vstd::utf8::is_char_boundary_start_end_of_seq(s.spec_bytes());
    }
    while i < spans.len()
        invariant
            i <= spans@.len() == reps@.len(),
            sp == pair_view(spans@),
            spans_ok(s@, sp),
            last as int == gap_start(sp, i as int),
            at_boundary(s@, last as int),
            i < spans@.len() ==> last <= spans@[i as int].0,
            out@ == spliced_prefix(s@, sp, views(reps@), i as int),
        decreases spans@.len() - i,
    {
        let (a, b) = spans[i];
        assert(sp[i as int] == (a as int, b as int));
        let gap = byte_slice_chars(s, last, a);
        extend_chars(&mut out, gap.as_slice());
        extend_chars(&mut out, reps[i].as_slice());
        last = b;
        i = i + 1;
        proof {
            if i < spans@.len() {
                assert(sp[(i - 1) as int].1 <= sp[i as int].0);
            }
        }
    }
    let n = s.as_bytes().len();
    let tail = byte_slice_chars(s, last, n);
    extend_chars(&mut out, tail.as_slice());
    out
}

} // verus!

verus! {

/// The text between offsets `a` and `c` is the text up to `b` followed by the text after it.
pub proof fn lemma_byte_text_concat(s: Seq<char>, a: int, b: int, c: int)
    requires
        0 <= a <= b <= c,
        at_boundary(s, a),
        at_boundary(s, b),
        at_boundary(s, c),
    ensures
        byte_text(s, a, b) + byte_text(s, b, c) == byte_text(s, a, c),
{
    let bs = vstd::utf8::encode_utf8(s);
    vstd::utf8::encode_utf8_valid_utf8(s);
    let pc = bs.subrange(0, c);
    let pb = bs.subrange(0, b);
    lemma_prefix_boundary(bs, c, a);
    lemma_prefix_boundary(bs, c, b);
    lemma_prefix_boundary(bs, b, a);
    vstd::utf8::decode_utf8_split(pc, a);
    vstd::utf8::decode_utf8_split(pc, b);
    vstd::utf8::decode_utf8_split(pb, a);
    assert(pc.subrange(0, a) == bs.subrange(0, a));
    assert(pc.subrange(a, c) == bs.subrange(a, c));
    assert(pc.subrange(0, b) == pb);
    assert(pc.subrange(b, c) == bs.subrange(b, c));
    assert(pb.subrange(0, a) == bs.subrange(0, a));
    assert(pb.subrange(a, b) == bs.subrange(a, b));
    let x = vstd::utf8::decode_utf8(bs.subrange(0, a));
    let y = byte_text(s, a, c);
    let z = byte_text(s, a, b) + byte_text(s, b, c);
    assert(x + y == x + z);
    assert forall|i: int| 0 <= i < y.len() implies y[i] == z[i] by {
        assert((x + y)[x.len() + i] == (x + z)[x.len() + i]);
    }
    assert(y =~= z);
}

/// The segments' own texts put back into their places.
pub open spec fn own_texts(s: Seq<char>, spans: Seq<(int, int)>) -> Seq<Seq<char>> {
    Seq::new(spans.len(), |i: int| byte_text(s, spans[i].0, spans[i].1))
}

proof fn lemma_spliced_prefix_identity(s: Seq<char>, spans: Seq<(int, int)>, k: int)
    requires
        spans_ok(s, spans),
        0 <= k <= spans.len(),
    ensures
        spliced_prefix(s, spans, own_texts(s, spans), k) == byte_text(s, 0, gap_start(spans, k)),
        at_boundary(s, gap_start(spans, k)),
        0 <= gap_start(spans, k),
        k < spans.len() ==> gap_start(spans, k) <= spans[k].0,
    decreases k,
{
    vstd::utf8::encode_utf8_valid_utf8(s);
    vstd::utf8::is_char_boundary_start_end_of_seq(vstd::utf8::encode_utf8(s));
    if k == 0 {
        assert(vstd::utf8::encode_utf8(s).subrange(0, 0) =~= Seq::<u8>::empty());
        assert(byte_text(s, 0, 0) =~= Seq::<char>::empty()) by {
            reveal_with_fuel(vstd::utf8::decode_utf8, 1);
        }
        if spans.len() > 0 {
            assert(0 <= spans[0].0) by {
                assert(at_boundary(s, spans[0].0));
            }
        }
    } else {
        lemma_spliced_prefix_identity(s, spans, k - 1);
        let g = gap_start(spans, k - 1);
        let (a, b) = spans[k - 1];
        assert(spans[k - 1].0 <= spans[k - 1].1);
        lemma_byte_text_concat(s, 0, g, a);
        lemma_byte_text_concat(s, 0, a, b);
        assert(own_texts(s, spans)[k - 1] == byte_text(s, a, b));
        if k < spans.len() {
            assert(spans[k - 1].1 <= spans[k].0);
        }
    }
}

/// Putting each segment's own text back gives the text unchanged: splicing keeps everything
/// outside the segments exactly as it was.
pub proof fn law_splice_identity(s: Seq<char>, spans: Seq<(int, int)>)
    requires
        spans_ok(s, spans),
    ensures
        spliced(s, spans, own_texts(s, spans)) == s,
{
    let n = spans.len() as int;
    let bs = vstd::utf8::encode_utf8(s);
    lemma_spliced_prefix_identity(s, spans, n);
    vstd::utf8::encode_utf8_valid_utf8(s);
    vstd::utf8::is_char_boundary_start_end_of_seq(bs);
    lemma_byte_text_concat(s, 0, gap_start(spans, n), bs.len() as int);
    assert(bs.subrange(0, bs.len() as int) == bs);
    vstd::utf8::encode_utf8_decode_utf8(s);
}

/// The UTF-8 bytes of a concatenation are the two parts' bytes, one after the other.
pub proof fn lemma_encode_concat(a: Seq<char>, b: Seq<char>)
    ensures
        vstd::utf8::encode_utf8(a + b) == vstd::utf8::encode_utf8(a) + vstd::utf8::encode_utf8(b),
    decreases a.len(),
{
    if a.len() == 0 {
        assert(a + b == b);
        assert(vstd::utf8::encode_utf8(a) =~= Seq::<u8>::empty());
        assert(Seq::<u8>::empty() + vstd::utf8::encode_utf8(b) =~= vstd::utf8::encode_utf8(b));
    } else {
        assert((a + b)[0] == a[0]);
        assert((a + b).drop_first() == a.drop_first() + b);
        lemma_encode_concat(a.drop_first(), b);
        let h = vstd::utf8::encode_scalar(a[0] as u32);
        assert(h + (vstd::utf8::encode_utf8(a.drop_first()) + vstd::utf8::encode_utf8(b)) =~= (h
            + vstd::utf8::encode_utf8(a.drop_first())) + vstd::utf8::encode_utf8(b));
    }
}

/// The text between two character boundaries has as many bytes as lie between them.
pub proof fn lemma_byte_text_len(s: Seq<char>, x: int, y: int)
    requires
        0 <= x <= y,
        at_boundary(s, x),
        at_boundary(s, y),
    ensures
        vstd::utf8::encode_utf8(byte_text(s, x, y)).len() == y - x,
{
    let bs = vstd::utf8::encode_utf8(s);
    vstd::utf8::encode_utf8_valid_utf8(s);
    lemma_prefix_boundary(bs, y, x);
    let pb = bs.subrange(0, y);
    vstd::utf8::valid_utf8_split(pb, x);
    assert(pb.subrange(x, pb.len() as int) == bs.subrange(x, y));
    vstd::utf8::decode_utf8_encode_utf8(bs.subrange(x, y));
}

/// Bytes taken out by the first `k` segments.
pub open spec fn removed_bytes(spans: Seq<(int, int)>, k: int) -> int
    decreases k,
{
    if k <= 0 {
        0
    } else {
        removed_bytes(spans, k - 1) + (spans[k - 1].1 - spans[k - 1].0)
    }
}

/// Bytes put in by the first `k` replacements.
pub open spec fn added_bytes(reps: Seq<Seq<char>>, k: int) -> int
    decreases k,
{
    if k <= 0 {
        0
    } else {
        added_bytes(reps, k - 1) + vstd::utf8::encode_utf8(reps[k - 1]).len()
    }
}

proof fn lemma_spliced_prefix_len(s: Seq<char>, spans: Seq<(int, int)>, reps: Seq<Seq<char>>, k: int)
    requires
        spans_ok(s, spans),
        0 <= k <= spans.len(),
    ensures
        vstd::utf8::encode_utf8(spliced_prefix(s, spans, reps, k)).len() == gap_start(spans, k)
            - removed_bytes(spans, k) + added_bytes(reps, k),
    decreases k,
{
    if k == 0 {
        assert(vstd::utf8::encode_utf8(Seq::<char>::empty()) =~= Seq::<u8>::empty());
    } else {
        lemma_spliced_prefix_len(s, spans, reps, k - 1);
        lemma_spliced_prefix_identity(s, spans, k - 1);
        let g = gap_start(spans, k - 1);
        let (a, b) = spans[k - 1];
        assert(at_boundary(s, a) && at_boundary(s, b) && a <= b);
        lemma_byte_text_len(s, g, a);
        let p = spliced_prefix(s, spans, reps, k - 1);
        let t = byte_text(s, g, a);
        lemma_encode_concat(p, t);
        lemma_encode_concat(p + t, reps[k - 1]);
    }
}

/// A splice keeps every byte outside the segments: its UTF-8 length is the text's, less the
/// segments' bytes, plus the replacements' bytes.
pub proof fn law_splice_length(s: Seq<char>, spans: Seq<(int, int)>, reps: Seq<Seq<char>>)
    requires
        spans_ok(s, spans),
        reps.len() == spans.len(),
    ensures
        vstd::utf8::encode_utf8(spliced(s, spans, reps)).len() == vstd::utf8::encode_utf8(s).len()
            - removed_bytes(spans, spans.len() as int) + added_bytes(reps, spans.len() as int),
{
    let n = spans.len() as int;
    let bs = vstd::utf8::encode_utf8(s);
    lemma_spliced_prefix_len(s, spans, reps, n);
    lemma_spliced_prefix_identity(s, spans, n);
    vstd::utf8::encode_utf8_valid_utf8(s);
    vstd::utf8::is_char_boundary_start_end_of_seq(bs);
    lemma_byte_text_len(s, gap_start(spans, n), bs.len() as int);
    lemma_encode_concat(spliced_prefix(s, spans, reps, n), byte_text(s, gap_start(spans, n), bs.len() as int));
}

/// A tidy text: white space occurs only as single spaces between other characters.
pub open spec fn tidy(t: Seq<char>) -> bool {
    forall|i: int|
        0 <= i < t.len() && is_ws(#[trigger] t[i]) ==> t[i] == ' ' && 0 < i && i + 1 < t.len() && !is_ws(t[i + 1])
}

/// A word: not empty and without white space.
pub open spec fn solid(w: Seq<char>) -> bool {
    w.len() > 0 && forall|i: int| 0 <= i < w.len() ==> !is_ws(#[trigger] w[i])
}

proof fn lemma_split_state_solid(s: Seq<char>)
    ensures
        forall|k: int| 0 <= k < split_state(s).0.len() ==> solid(#[trigger] split_state(s).0[k]),
        forall|i: int| 0 <= i < split_state(s).1.len() ==> !is_ws(#[trigger] split_state(s).1[i]),
    decreases s.len(),
{
    if s.len() > 0 {
        lemma_split_state_solid(s.drop_last());
        let (ws, cur) = split_state(s.drop_last());
        if !is_ws(s.last()) {
            assert forall|i: int| 0 <= i < cur.push(s.last()).len() implies !is_ws(#[trigger] cur.push(s.last())[i]) by {
                if i < cur.len() {
                    assert(cur.push(s.last())[i] == cur[i]);
                }
            }
        } else if cur.len() > 0 {
            assert forall|k: int| 0 <= k < ws.push(cur).len() implies solid(#[trigger] ws.push(cur)[k]) by {
                if k < ws.len() {
                    assert(ws.push(cur)[k] == ws[k]);
                }
            }
        }
    }
}

proof fn lemma_words_solid(s: Seq<char>)
    ensures
        forall|k: int| 0 <= k < words(s).len() ==> solid(#[trigger] words(s)[k]),
{
    lemma_split_state_solid(s);
    let (ws, cur) = split_state(s);
    if cur.len() > 0 {
        assert forall|k: int| 0 <= k < ws.push(cur).len() implies solid(#[trigger] ws.push(cur)[k]) by {
            if k < ws.len() {
                assert(ws.push(cur)[k] == ws[k]);
            }
        }
    }
}

proof fn lemma_join_tidy(ws: Seq<Seq<char>>)
    requires
        forall|k: int| 0 <= k < ws.len() ==> solid(#[trigger] ws[k]),
    ensures
        tidy(join(ws, seq![' '])),
        ws.len() > 0 ==> join(ws, seq![' ']).len() > 0,
    decreases ws.len(),
{
    if ws.len() == 1 {
        assert(solid(ws[0]));
    } else if ws.len() > 1 {
        let p = ws.drop_last();
        assert forall|k: int| 0 <= k < p.len() implies solid(#[trigger] p[k]) by {
            assert(p[k] == ws[k]);
        }
        lemma_join_tidy(p);
        let j = join(p, seq![' ']);
        let w = ws.last();
        assert(solid(ws[ws.len() - 1]));
        let t = j + seq![' '] + w;
        assert(join(ws, seq![' ']) == t);
        assert forall|i: int| 0 <= i < t.len() && is_ws(#[trigger] t[i]) implies t[i] == ' ' && 0 < i && i + 1
            < t.len() && !is_ws(t[i + 1]) by {
            if i < j.len() {
                assert(t[i] == j[i]);
                if i + 1 < j.len() {
                    assert(t[i + 1] == j[i + 1]);
                }
            } else if i == j.len() {
                assert(t[i + 1] == w[0]);
            } else {
                assert(t[i] == w[i - j.len() - 1]);
            }
        }
    }
}

/// Collapsed white space is tidy: no white space at either end, only single spaces inside.
pub proof fn law_collapse_ws_is_tidy(s: Seq<char>)
    ensures
        tidy(collapse_ws(s)),
{
    lemma_words_solid(s);
    lemma_join_tidy(words(s));
}

proof fn lemma_split_concat(s: Seq<char>, t: Seq<char>)
    requires
        split_state(s).1.len() == 0,
    ensures
        split_state(s + t) == (split_state(s).0 + split_state(t).0, split_state(t).1),
    decreases t.len(),
{
    if t.len() == 0 {
        assert(s + t =~= s);
        assert(split_state(s).0 + split_state(t).0 =~= split_state(s).0);
    } else {
        assert((s + t).drop_last() =~= s + t.drop_last());
        assert((s + t).last() == t.last());
        lemma_split_concat(s, t.drop_last());
        let (ws, cur) = split_state(t.drop_last());
        assert((split_state(s).0 + ws).push(cur) =~= split_state(s).0 + ws.push(cur));
    }
}

/// Words of a concatenation whose first part ends between words.
pub proof fn lemma_words_concat(s: Seq<char>, t: Seq<char>)
    requires
        split_state(s).1.len() == 0,
    ensures
        words(s + t) == words(s) + words(t),
{
    lemma_split_concat(s, t);
    let (ws, cur) = split_state(t);
    if cur.len() > 0 {
        assert((split_state(s).0 + ws).push(cur) =~= split_state(s).0 + ws.push(cur));
    }
}

/// A text ending in white space ends between words.
pub proof fn lemma_split_after_ws(s: Seq<char>)
    requires
        s.len() > 0,
        is_ws(s.last()),
    ensures
        split_state(s).1.len() == 0,
        words(s) == words(s.drop_last()),
{
}

proof fn lemma_solid_split(w: Seq<char>)
    requires
        forall|i: int| 0 <= i < w.len() ==> !is_ws(#[trigger] w[i]),
    ensures
        split_state(w) == (Seq::<Seq<char>>::empty(), w),
    decreases w.len(),
{
    if w.len() > 0 {
        assert forall|i: int| 0 <= i < w.drop_last().len() implies !is_ws(#[trigger] w.drop_last()[i]) by {
            assert(w.drop_last()[i] == w[i]);
        }
        lemma_solid_split(w.drop_last());
        assert(!is_ws(w[w.len() - 1]));
        assert(w.drop_last().push(w.last()) =~= w);
    }
}

/// Collapsing white space keeps the words.
proof fn lemma_words_join(ws: Seq<Seq<char>>)
    requires
        forall|k: int| 0 <= k < ws.len() ==> solid(#[trigger] ws[k]),
    ensures
        words(join(ws, seq![' '])) == ws,
    decreases ws.len(),
{
    if ws.len() == 0 {
        assert(split_state(Seq::<char>::empty()) == (Seq::<Seq<char>>::empty(), Seq::<char>::empty()));
        assert(words(join(ws, seq![' '])) =~= ws);
    } else if ws.len() == 1 {
        assert(solid(ws[0]));
        lemma_solid_split(ws[0]);
        assert(words(ws[0]) =~= seq![ws[0]]);
        assert(ws =~= seq![ws[0]]);
    } else {
        let p = ws.drop_last();
        assert forall|k: int| 0 <= k < p.len() implies solid(#[trigger] p[k]) by {
            assert(p[k] == ws[k]);
        }
        lemma_words_join(p);
        let w = ws.last();
        assert(solid(ws[ws.len() - 1]));
        let x = join(p, seq![' ']) + seq![' '];
        assert(x.drop_last() =~= join(p, seq![' ']));
        lemma_split_after_ws(x);
        lemma_words_concat(x, w);
        lemma_solid_split(w);
        assert(words(w) =~= seq![w]);
        assert(join(ws, seq![' ']) == x + w);
        assert(p + seq![w] =~= ws);
    }
}

/// The words of a collapsed text are the text's words; it is empty exactly when there are none.
pub proof fn lemma_collapse_words(t: Seq<char>)
    ensures
        words(collapse_ws(t)) == words(t),
        collapse_ws(t).len() == 0 <==> words(t).len() == 0,
{
    lemma_words_solid(t);
    lemma_words_join(words(t));
    lemma_join_tidy(words(t));
    if words(t).len() == 0 {
        assert(collapse_ws(t) =~= Seq::<char>::empty());
    }
}

} // verus!
