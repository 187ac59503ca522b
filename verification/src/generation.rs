//! The decisions around content generation: the model fallback chain, prompts, the
//! one-shot corrective retry for meta fields, length clamping, and the checks applied to
//! what a model returns before it replaces anything.

use vstd::prelude::*;
use crate::gemini::{
    assemble_optimized, assemble_scratch, extract_img_srcs, img_srcs, optimized_html, sanitize_inline,
    sanitized, scratch_html, string_views, violation_count, violations, Block, GeneratedMeta,
};
use crate::text::{
    at_boundary, byte_slice_chars, byte_text, chars_of, contains, contains_chars, extend_chars,
    extend_str, join, join_words, lowercase, lowercase_chars, nat_digits, pair_view, push_u64,
    shorten, shorten_ok, shorten_str, splice_spans, spans_ok, spliced, str_eq, string_of, trim,
    trim_str, views,
};
use crate::json::{
    element_of, field, field_of, field_str, field_text, get_element, get_field, json_array, json_strings, json_tree,
    parse_json, parse_json_array, parse_string_array, str_of, Json,
};
use crate::validation::{
    badge_of, grapheme_count, grapheme_len, html_strip, meta_badge, plain_text, MetaBadge, MetaInput,
};

verus! {

/// What a prompt says about the product. `insights` is the prompt block of the research
/// data (search volumes, queries) when the user has run the research.
pub struct ProductContext<'a> {
    pub name: &'a str,
    pub brand: Option<&'a str>,
    pub category: Option<&'a str>,
    pub main_category: Option<&'a str>,
    /// The keyword the user approved; the model then uses it instead of deriving one.
    pub target_keyword: Option<&'a str>,
    pub insights: Option<&'a str>,
}

/// The models tried in order; the next one is used only when the previous hit its quota.
pub open spec fn model_name(i: int) -> Option<Seq<char>> {
    if i == 0 {
        Some("gemini-2.0-flash"@)
    } else if i == 1 {
        Some("gemini-2.5-flash"@)
    } else if i == 2 {
        Some("gemini-1.5-flash"@)
    } else {
        None
    }
}

pub fn model_at(i: usize) -> (r: Option<&'static str>)
    ensures
        match r {
            Some(m) => model_name(i as int) == Some(m@),
            None => model_name(i as int) is None,
        },
{
    if i == 0 {
        Some("gemini-2.0-flash")
    } else if i == 1 {
        Some("gemini-2.5-flash")
    } else if i == 2 {
        Some("gemini-1.5-flash")
    } else {
        None
    }
}

/// A usable API key is the trimmed key when it is not empty.
pub open spec fn api_key_result(key: Seq<char>) -> Result<Seq<char>, Seq<char>> {
    if trim(key).len() == 0 {
        Err("Gemini API anahtarı ayarlı değil. Ayarlar'dan ekleyin."@)
    } else {
        Ok(trim(key))
    }
}

pub fn api_key_of(key: &str) -> (r: Result<String, String>)
    ensures
        match r {
            Ok(k) => api_key_result(key@) == Ok::<Seq<char>, Seq<char>>(k@),
            Err(e) => api_key_result(key@) == Err::<Seq<char>, Seq<char>>(e@),
        },
{
    let k = trim_str(key);
    if k.len() == 0 {
        Err(string_of(chars_of("Gemini API anahtarı ayarlı değil. Ayarlar'dan ekleyin.").as_slice()))
    } else {
        Ok(string_of(k.as_slice()))
    }
}

pub open spec fn or_dash(o: Option<&str>) -> Seq<char> {
    match o {
        Some(s) => s@,
        None => "-"@,
    }
}

fn push_or_dash(out: &mut Vec<char>, o: Option<&str>)
    ensures
        final(out)@ == old(out)@ + or_dash(o),
{
    match o {
        Some(s) => extend_str(out, s),
        None => extend_str(out, "-"),
    }
}

/// The meta prompt: product facts, the approved keyword when there is a non-blank one, the
/// research block, and the correction of a previous attempt.
pub open spec fn meta_prompt(ctx: ProductContext, correction: Option<&str>) -> Seq<char> {
    let facts = "Ürün adı: "@ + ctx.name@ + "\nMarka: "@ + or_dash(ctx.brand) + "\nKategori: "@
        + or_dash(ctx.category) + "\nÜst kategori: "@ + or_dash(ctx.main_category) + "\n"@;
    let kw = match ctx.target_keyword {
        Some(k) => trim(k@),
        None => seq![],
    };
    let approved = if kw.len() > 0 {
        "\nOnaylı HEDEF KELIME: "@ + kw
            + "\n(Bunu aynen target_keyword olarak kullan; yeniden türetme.)\n"@
    } else {
        seq![]
    };
    let research = match ctx.insights {
        Some(b) => b@,
        None => seq![],
    };
    let fix = match correction {
        Some(c) => "\nÖNEMLİ DÜZELTME: "@ + c@ + " Kuralları bu kez kesinlikle sağla."@,
        None => seq![],
    };
    facts + approved + research + fix
}

pub fn build_prompt(ctx: &ProductContext, correction: Option<&str>) -> (r: String)
    ensures
        r@ == meta_prompt(*ctx, correction),
{
    let mut p: Vec<char> = Vec::new();
    extend_str(&mut p, "Ürün adı: ");
    extend_str(&mut p, ctx.name);
    extend_str(&mut p, "\nMarka: ");
    push_or_dash(&mut p, ctx.brand);
    extend_str(&mut p, "\nKategori: ");
    push_or_dash(&mut p, ctx.category);
    extend_str(&mut p, "\nÜst kategori: ");
    push_or_dash(&mut p, ctx.main_category);
    extend_str(&mut p, "\n");
    let ghost facts = p@;
    if let Some(k) = ctx.target_keyword {
        let kw = trim_str(k);
        if kw.len() > 0 {
            extend_str(&mut p, "\nOnaylı HEDEF KELIME: ");
            extend_chars(&mut p, kw.as_slice());
            extend_str(&mut p, "\n(Bunu aynen target_keyword olarak kullan; yeniden türetme.)\n");
        }
    }
    let ghost with_kw = p@;
    if let Some(b) = ctx.insights {
        extend_str(&mut p, b);
    }
    let ghost with_research = p@;
    if let Some(c) = correction {
        extend_str(&mut p, "\nÖNEMLİ DÜZELTME: ");
        extend_str(&mut p, c);
        extend_str(&mut p, " Kuralları bu kez kesinlikle sağla.");
    }
    assert(p@ =~= meta_prompt(*ctx, correction));
    string_of(p.as_slice())
}

/// How a failed model call is reported: HTTP 429 and 503 are quota failures (the chain
/// moves on); an invalid key, a quota message naming the model, or the shortened body.
pub open spec fn model_failure(model: Seq<char>, code: u16, body: Seq<char>) -> (bool, Seq<char>) {
    let quota = code == 429 || code == 503;
    (
        quota,
        if code == 400 && contains(body, "API_KEY_INVALID"@) {
            "Gemini API anahtarı geçersiz."@
        } else if quota {
            model + " kotası/limiti doldu (HTTP "@ + nat_digits(code as nat) + ")."@
        } else {
            "Gemini hatası (HTTP "@ + nat_digits(code as nat) + "): "@ + shorten(body, 240)
        },
    )
}

/// The body is shortened only in the last case, and its cut must fall between characters.
pub open spec fn model_failure_ok(code: u16, body: Seq<char>) -> bool {
    (code == 400 && contains(body, "API_KEY_INVALID"@)) || code == 429 || code == 503 || shorten_ok(
        body,
        240,
    )
}

pub fn model_error(model: &str, code: u16, body: &str) -> (r: (bool, String))
    requires
        model_failure_ok(code, body@),
    ensures
        (r.0, r.1@) == model_failure(model@, code, body@),
{
    let quota = code == 429 || code == 503;
    let b = chars_of(body);
    let marker = chars_of("API_KEY_INVALID");
    let mut out: Vec<char> = Vec::new();
    if code == 400 && contains_chars(b.as_slice(), marker.as_slice()) {
        extend_str(&mut out, "Gemini API anahtarı geçersiz.");
    } else if quota {
        extend_str(&mut out, model);
        extend_str(&mut out, " kotası/limiti doldu (HTTP ");
        push_u64(&mut out, code as u64);
        extend_str(&mut out, ").");
    } else {
        extend_str(&mut out, "Gemini hatası (HTTP ");
        push_u64(&mut out, code as u64);
        extend_str(&mut out, "): ");
        let s = shorten_str(body, 240);
        extend_chars(&mut out, s.as_slice());
    }
    (quota, string_of(out.as_slice()))
}

/// After model `next - 1` failed: a quota failure moves on to model `next` while one is
/// left; any other failure stops with its message; when no model is left the last message
/// is reported after `exhausted`.
pub open spec fn after_failure(next: int, quota: bool, msg: Seq<char>, exhausted: Seq<char>) -> Result<
    int,
    Seq<char>,
> {
    if !quota {
        Err(msg)
    } else if model_name(next) is Some {
        Ok(next)
    } else {
        Err(exhausted + msg)
    }
}

pub fn after_model_failure(next: usize, quota: bool, msg: String, exhausted: &str) -> (r: Result<
    usize,
    String,
>)
    ensures
        match r {
            Ok(i) => after_failure(next as int, quota, msg@, exhausted@) == Ok::<int, Seq<char>>(
                i as int,
            ),
            Err(e) => after_failure(next as int, quota, msg@, exhausted@) == Err::<int, Seq<char>>(
                e@,
            ),
        },
{
    if !quota {
        return Err(msg);
    }
    if model_at(next).is_some() {
        Ok(next)
    } else {
        let mut out: Vec<char> = Vec::new();
        extend_str(&mut out, exhausted);
        extend_str(&mut out, msg.as_str());
        Err(string_of(out.as_slice()))
    }
}

/// The connection test: a key shorter than 20 bytes is refused before any request; a
/// successful listing confirms it, HTTP 400 and 403 reject it.
pub open spec fn key_test_outcome(success: bool, code: u16) -> Result<Seq<char>, Seq<char>> {
    if success {
        Ok("Anahtar geçerli · Gemini bağlantısı doğrulandı."@)
    } else if code == 400 || code == 403 {
        Err("Anahtar reddedildi · geçersiz veya yetkisiz."@)
    } else {
        Err("Beklenmeyen yanıt: HTTP "@ + nat_digits(code as nat))
    }
}

pub open spec fn key_too_short(key: Seq<char>) -> bool {
    vstd::utf8::encode_utf8(trim(key)).len() < 20
}

pub fn key_check(key: &str) -> (r: Result<String, String>)
    ensures
        match r {
            Ok(k) => !key_too_short(key@) && k@ == trim(key@),
            Err(e) => key_too_short(key@) && e@ == "Anahtar çok kısa görünüyor."@,
        },
{
    let k = string_of(trim_str(key).as_slice());
    if k.as_str().as_bytes().len() < 20 {
        Err(string_of(chars_of("Anahtar çok kısa görünüyor.").as_slice()))
    } else {
        Ok(k)
    }
}

pub fn key_test_result(success: bool, code: u16) -> (r: Result<String, String>)
    ensures
        match r {
            Ok(m) => key_test_outcome(success, code) == Ok::<Seq<char>, Seq<char>>(m@),
            Err(e) => key_test_outcome(success, code) == Err::<Seq<char>, Seq<char>>(e@),
        },
{
    if success {
        Ok(string_of(chars_of("Anahtar geçerli · Gemini bağlantısı doğrulandı.").as_slice()))
    } else if code == 400 || code == 403 {
        Err(string_of(chars_of("Anahtar reddedildi · geçersiz veya yetkisiz.").as_slice()))
    } else {
        let mut out: Vec<char> = Vec::new();
        extend_str(&mut out, "Beklenmeyen yanıt: HTTP ");
        push_u64(&mut out, code as u64);
        Err(string_of(out.as_slice()))
    }
}

/// The pieces joined end to end.
pub open spec fn concat(gs: Seq<Seq<char>>) -> Seq<char>
    decreases gs.len(),
{
    if gs.len() == 0 {
        seq![]
    } else {
        concat(gs.drop_last()) + gs.last()
    }
}

/// Characters dropped from the end of a clamped field.
pub open spec fn clamp_trail(c: char) -> bool {
    c == ' ' || c == ',' || c == ';' || c == ':' || c == '-' || c == '.' || c == '…'
}

pub open spec fn trim_trail(s: Seq<char>) -> Seq<char>
    decreases s.len(),
{
    if s.len() > 0 && clamp_trail(s.last()) {
        trim_trail(s.drop_last())
    } else {
        s
    }
}

/// Byte position of the last space.
pub open spec fn last_space(b: Seq<u8>) -> Option<int>
    decreases b.len(),
{
    if b.len() == 0 {
        None
    } else if b.last() == 32u8 {
        Some(b.len() - 1)
    } else {
        last_space(b.drop_last())
    }
}

/// A field cut to `max` graphemes: kept when short enough; otherwise the first `max`
/// graphemes, rewound to the last space when that lies in the second half (counting the
/// space's byte position against `max / 2`), with trailing punctuation and spaces removed.
pub open spec fn clamped(s: Seq<char>, max: nat) -> Seq<char> {
    let gs = crate::validation::grapheme_clusters(s);
    if gs.len() <= max {
        s
    } else {
        let cut = concat(gs.take(max as int));
        let b = vstd::utf8::encode_utf8(cut);
        let rewound = match last_space(b) {
            Some(idx) => if idx >= max / 2 {
                vstd::utf8::decode_utf8(b.take(idx))
            } else {
                cut
            },
            None => cut,
        };
        trim_trail(rewound)
    }
}

fn last_space_exec(b: &[u8]) -> (r: Option<usize>)
    ensures
        match r {
            Some(i) => last_space(b@) == Some(i as int),
            None => last_space(b@) is None,
        },
{
    let mut j: usize = b.len();
    assert(b@.take(j as int) == b@);
    while j > 0
        invariant
            j <= b@.len(),
            last_space(b@) == last_space(b@.take(j as int)),
        decreases j,
    {
        assert(b@.take(j as int).last() == b@[j - 1]);
        if b[j - 1] == 32u8 {
            return Some(j - 1);
        }
        assert(b@.take(j as int).drop_last() == b@.take(j - 1));
        j = j - 1;
    }
    None
}

fn is_trail_char(c: char) -> (r: bool)
    ensures
        r == clamp_trail(c),
{
    c == ' ' || c == ',' || c == ';' || c == ':' || c == '-' || c == '.' || c == '…'
}

fn trim_trail_exec(v: &[char]) -> (r: Vec<char>)
    ensures
        r@ == trim_trail(v@),
{
    let mut j: usize = v.len();
    assert(v@.take(j as int) == v@);
    while j > 0 && is_trail_char(v[j - 1])
        invariant
            j <= v@.len(),
            trim_trail(v@) == trim_trail(v@.take(j as int)),
        decreases j,
    {
        assert(v@.take(j as int).last() == v@[j - 1]);
        assert(v@.take(j as int).drop_last() == v@.take(j - 1));
        j = j - 1;
    }
    if j > 0 {
        assert(v@.take(j as int).last() == v@[j - 1]);
    }
    crate::text::slice_to_vec_range(v, 0, j)
}

/// Cuts an over-long field at a word boundary, counting graphemes.
pub fn clamp_to(s: &str, max: usize) -> (r: String)
    ensures
        r@ == clamped(s@, max as nat),
{
    let gs = crate::validation::graphemes_of(s);
    if gs.len() <= max {
        return string_of(chars_of(s).as_slice());
    }
    let ghost gv = gs@.map_values(|g: String| g@);
    let mut cut: Vec<char> = Vec::new();
    let mut i: usize = 0;
    while i < max
        invariant
            i <= max < gs@.len(),
            gv == gs@.map_values(|g: String| g@),
            cut@ == concat(gv.take(i as int)),
        decreases max - i,
    {
        assert(gv.take(i + 1).drop_last() == gv.take(i as int));
        assert(gv.take(i + 1).last() == gs@[i as int]@);
        extend_str(&mut cut, gs[i].as_str());
        i = i + 1;
    }
    let cs = string_of(cut.as_slice());
    let ghost b = vstd::utf8::encode_utf8(cut@);
    let rewound: Vec<char> = match last_space_exec(cs.as_str().as_bytes()) {
        Some(idx) => {
            if idx >= max / 2 {
                proof {
                    vstd::utf8::encode_utf8_valid_utf8(cut@);
                    lemma_last_space_bounds(b);
                    crate::blocks::lemma_ascii_boundaries(b, idx as int);
                }
                match crate::text::get_prefix(cs.as_str(), idx) {
                    Some(p) => p,
                    None => {
                        assert(false);
                        Vec::new()
                    },
                }
            } else {
                cut
            }
        },
        None => cut,
    };
    string_of(trim_trail_exec(rewound.as_slice()).as_slice())
}

proof fn lemma_last_space_bounds(b: Seq<u8>)
    ensures
        last_space(b) matches Some(i) ==> 0 <= i < b.len() && b[i] == 32u8,
    decreases b.len(),
{
    if b.len() > 0 && b.last() != 32u8 {
        lemma_last_space_bounds(b.drop_last());
    }
}

proof fn lemma_last_space_is_last(b: Seq<u8>, j: int)
    requires
        0 <= j < b.len(),
        b[j] == 32u8,
    ensures
        last_space(b) matches Some(i) && j <= i < b.len() && b[i] == 32u8,
    decreases b.len(),
{
    if b.last() != 32u8 {
        assert(b.drop_last()[j] == b[j]);
        lemma_last_space_is_last(b.drop_last(), j);
    }
}

/// Trimming the tail only drops trailing punctuation and spaces: what stays is a prefix,
/// and everything dropped is such a character.
proof fn lemma_trim_trail_prefix(s: Seq<char>)
    ensures
        trim_trail(s).len() <= s.len(),
        trim_trail(s) == s.take(trim_trail(s).len() as int),
        forall|i: int| trim_trail(s).len() <= i < s.len() ==> clamp_trail(#[trigger] s[i]),
        trim_trail(s).len() == 0 || !clamp_trail(trim_trail(s).last()),
    decreases s.len(),
{
    if s.len() > 0 && clamp_trail(s.last()) {
        lemma_trim_trail_prefix(s.drop_last());
        let r = trim_trail(s.drop_last());
        assert(s.take(r.len() as int) =~= s.drop_last().take(r.len() as int));
        assert forall|i: int| r.len() <= i < s.len() implies clamp_trail(#[trigger] s[i]) by {
            if i < s.len() - 1 {
                assert(s.drop_last()[i] == s[i]);
            }
        }
    } else {
        assert(s.take(s.len() as int) =~= s);
    }
}

/// A byte 32 in valid UTF-8 is the character `' '`.
proof fn lemma_space_byte_decodes(t: Seq<u8>)
    requires
        vstd::utf8::valid_utf8(t),
        t.len() > 0,
        t[0] == 32u8,
    ensures
        vstd::utf8::decode_utf8(t).len() > 0,
        vstd::utf8::decode_utf8(t)[0] == ' ',
{
    let b0 = t[0];
    assert((b0 & 0x7Fu8) as u32 == 32u32) by (bit_vector)
        requires
            b0 == 32u8,
    ;
    assert(vstd::utf8::decode_first_scalar(t) == 32u32);
    vstd::utf8::char_u32_cast(' ', 32u32);
}

/// A field longer than `max` graphemes whose first `max` graphemes hold a space at a byte
/// position of at least `max / 2` is cut at a word boundary: the result is a prefix of those
/// graphemes that stops before a space, with only spaces and punctuation between its end and
/// that space, and it does not end in a space or punctuation.
pub proof fn law_clamp_cuts_at_word_boundary(s: Seq<char>, max: nat, j: int)
    requires
        grapheme_count(s) > max,
        max / 2 <= j,
        j < vstd::utf8::encode_utf8(concat(crate::validation::grapheme_clusters(s).take(max as int))).len(),
        vstd::utf8::encode_utf8(concat(crate::validation::grapheme_clusters(s).take(max as int)))[j] == 32u8,
    ensures
        ({
            let cut = concat(crate::validation::grapheme_clusters(s).take(max as int));
            let r = clamped(s, max);
            &&& r.len() < cut.len()
            &&& r == cut.take(r.len() as int)
            &&& exists|k: int|
                r.len() <= k < cut.len() && #[trigger] cut[k] == ' ' && forall|i: int|
                    r.len() <= i < k ==> clamp_trail(#[trigger] cut[i])
            &&& r.len() == 0 || !clamp_trail(r.last())
        }),
{
    let cut = concat(crate::validation::grapheme_clusters(s).take(max as int));
    let b = vstd::utf8::encode_utf8(cut);
    lemma_last_space_is_last(b, j);
    let idx = last_space(b)->Some_0;
    vstd::utf8::encode_utf8_valid_utf8(cut);
    vstd::utf8::encode_utf8_decode_utf8(cut);
    crate::blocks::lemma_ascii_boundaries(b, idx);
    vstd::utf8::valid_utf8_split(b, idx);
    vstd::utf8::decode_utf8_split(b, idx);
    let head = b.subrange(0, idx);
    let t = b.subrange(idx, b.len() as int);
    assert(b.take(idx) =~= head);
    assert(t[0] == b[idx]);
    lemma_space_byte_decodes(t);
    let rewound = vstd::utf8::decode_utf8(head);
    let rest = vstd::utf8::decode_utf8(t);
    assert(cut == rewound + rest);
    assert(clamped(s, max) == trim_trail(rewound));
    lemma_trim_trail_prefix(rewound);
    let r = trim_trail(rewound);
    let k = rewound.len() as int;
    assert(cut[k] == rest[0]);
    assert(r =~= cut.take(r.len() as int)) by {
        assert forall|i: int| 0 <= i < r.len() implies r[i] == cut[i] by {
            assert(r[i] == rewound.take(r.len() as int)[i]);
        }
    }
    assert forall|i: int| r.len() <= i < k implies clamp_trail(#[trigger] cut[i]) by {
        assert(cut[i] == rewound[i]);
    }
}

/// Over-long title and description are cut at a word boundary (60 and 155 graphemes);
/// short fields are left as they are, trimmed.
pub fn clamp_lengths(meta: GeneratedMeta) -> (r: GeneratedMeta)
    ensures
        r.title@ == clamped(trim(meta.title@), 60),
        r.descriptions@ == clamped(trim(meta.descriptions@), 155),
        r.target_keyword == meta.target_keyword,
        r.keywords == meta.keywords,
        r.search_keywords == meta.search_keywords,
{
    let t = string_of(trim_str(meta.title.as_str()).as_slice());
    let d = string_of(trim_str(meta.descriptions.as_str()).as_slice());
    GeneratedMeta {
        target_keyword: meta.target_keyword,
        title: clamp_to(t.as_str(), 60),
        descriptions: clamp_to(d.as_str(), 155),
        keywords: meta.keywords,
        search_keywords: meta.search_keywords,
    }
}

/// The length messages of one field.
pub open spec fn length_msgs(field: Seq<char>, n: nat, lo: nat, hi: nat, range: Seq<char>) -> Seq<Seq<char>> {
    if n < lo {
        seq![field + " "@ + nat_digits(n) + " karakter, çok kısa; "@ + range + " arasına uzat."@]
    } else if n > hi {
        seq![field + " "@ + nat_digits(n) + " karakter, çok uzun; "@ + range + " arasına kısalt."@]
    } else {
        seq![]
    }
}

/// What a retry is told: the length problems and the missing keyword, in that order.
pub open spec fn correction_msgs(title: Seq<char>, desc: Seq<char>, keyword: Seq<char>) -> Seq<Seq<char>> {
    let kw = lowercase(trim(keyword));
    length_msgs("title"@, grapheme_count(trim(title)), 20, 60, "20-60"@) + length_msgs(
        "descriptions"@,
        grapheme_count(trim(desc)),
        50,
        155,
        "50-155"@,
    ) + if kw.len() > 0 {
        (if !contains(lowercase(title), kw) {
            seq!["title hedef kelimeyi içermeli."@]
        } else {
            seq![]
        }) + (if !contains(lowercase(desc), kw) {
            seq!["descriptions hedef kelimeyi içermeli."@]
        } else {
            seq![]
        })
    } else {
        seq![]
    }
}

/// No correction when the badge is suitable; otherwise the messages joined by spaces, or
/// a general reminder when no single rule is named.
pub open spec fn correction(title: Seq<char>, desc: Seq<char>, keyword: Seq<char>) -> Option<Seq<char>> {
    if badge_of(title, desc, keyword, false) == MetaBadge::Uygun {
        None
    } else {
        let msgs = correction_msgs(title, desc, keyword);
        if msgs.len() == 0 {
            Some("Kurallara tam uy."@)
        } else {
            Some(join(msgs, " "@))
        }
    }
}

fn push_length_msg(msgs: &mut Vec<Vec<char>>, field: &str, n: usize, lo: usize, hi: usize, range: &str)
    ensures
        views(final(msgs)@) == views(old(msgs)@) + length_msgs(field@, n as nat, lo as nat, hi as nat, range@),
{
    let ghost before = views(msgs@);
    if n < lo || n > hi {
        let mut m: Vec<char> = Vec::new();
        extend_str(&mut m, field);
        extend_str(&mut m, " ");
        push_u64(&mut m, n as u64);
        if n < lo {
            extend_str(&mut m, " karakter, çok kısa; ");
            extend_str(&mut m, range);
            extend_str(&mut m, " arasına uzat.");
        } else {
            extend_str(&mut m, " karakter, çok uzun; ");
            extend_str(&mut m, range);
            extend_str(&mut m, " arasına kısalt.");
        }
        msgs.push(m);
        assert(views(msgs@) =~= before + length_msgs(field@, n as nat, lo as nat, hi as nat, range@));
    } else {
        assert(views(msgs@) =~= before + length_msgs(field@, n as nat, lo as nat, hi as nat, range@));
    }
}

fn push_msg(msgs: &mut Vec<Vec<char>>, text: &str)
    ensures
        views(final(msgs)@) == views(old(msgs)@).push(text@),
{
    let ghost before = views(msgs@);
    msgs.push(chars_of(text));
    assert(views(msgs@) =~= before.push(text@));
}

/// Checks the meta rules; on a failure, the correction text for the retry.
pub fn correction_for(meta: &GeneratedMeta) -> (r: Option<String>)
    ensures
        match r {
            Some(c) => correction(meta.title@, meta.descriptions@, meta.target_keyword@) == Some(c@),
            None => correction(meta.title@, meta.descriptions@, meta.target_keyword@) is None,
        },
{
    let badge = meta_badge(
        &MetaInput {
            title: meta.title.as_str(),
            descriptions: meta.descriptions.as_str(),
            target_keyword: meta.target_keyword.as_str(),
            meta_done: false,
        },
    );
    if badge == MetaBadge::Uygun {
        return None;
    }
    let t = string_of(trim_str(meta.title.as_str()).as_slice());
    let d = string_of(trim_str(meta.descriptions.as_str()).as_slice());
    let tl = grapheme_len(t.as_str());
    let dl = grapheme_len(d.as_str());
    let mut msgs: Vec<Vec<char>> = Vec::new();
    push_length_msg(&mut msgs, "title", tl, 20, 60, "20-60");
    push_length_msg(&mut msgs, "descriptions", dl, 50, 155, "50-155");
    let ghost after_lengths = views(msgs@);
    let kt = trim_str(meta.target_keyword.as_str());
    let kw = lowercase_chars(kt.as_slice());
    if kw.len() > 0 {
        let tv = chars_of(meta.title.as_str());
        let dv = chars_of(meta.descriptions.as_str());
        if !contains_chars(lowercase_chars(tv.as_slice()).as_slice(), kw.as_slice()) {
            push_msg(&mut msgs, "title hedef kelimeyi içermeli.");
        }
        let ghost mid = views(msgs@);
        if !contains_chars(lowercase_chars(dv.as_slice()).as_slice(), kw.as_slice()) {
            push_msg(&mut msgs, "descriptions hedef kelimeyi içermeli.");
        }
    }
    assert(views(msgs@) =~= correction_msgs(meta.title@, meta.descriptions@, meta.target_keyword@));
    if msgs.len() == 0 {
        Some(string_of(chars_of("Kurallara tam uy.").as_slice()))
    } else {
        let space: [char; 1] = [' '];
        assert(space@ == " "@) by {
            reveal_strlit(" ");
        }
        Some(string_of(join_words(&msgs, &space).as_slice()))
    }
}

/// The meta that is kept: the retry when it breaks no more rules than the first attempt,
/// then clamped.
pub open spec fn better_meta(first: GeneratedMeta, retry: Option<GeneratedMeta>) -> GeneratedMeta {
    match retry {
        Some(m) => if violations(m.title@, m.descriptions@, m.target_keyword@) <= violations(
            first.title@,
            first.descriptions@,
            first.target_keyword@,
        ) {
            m
        } else {
            first
        },
        None => first,
    }
}

pub fn finish_meta(first: GeneratedMeta, retry: Option<GeneratedMeta>) -> (r: GeneratedMeta)
    ensures
        r.title@ == clamped(trim(better_meta(first, retry).title@), 60),
        r.descriptions@ == clamped(trim(better_meta(first, retry).descriptions@), 155),
        r.target_keyword == better_meta(first, retry).target_keyword,
        r.keywords == better_meta(first, retry).keywords,
        r.search_keywords == better_meta(first, retry).search_keywords,
{
    let best = match retry {
        Some(m) => {
            if violation_count(&m) <= violation_count(&first) {
                m
            } else {
                first
            }
        },
        None => first,
    };
    clamp_lengths(best)
}

/// The items sent to a model, as JSON: an array of objects with the two given keys (what
/// `serde_json::to_string` gives for them). A function of its arguments, named `json_pairs`.
pub uninterp spec fn json_pairs(k1: Seq<char>, k2: Seq<char>, pairs: Seq<(Seq<char>, Seq<char>)>) -> Seq<char>;

pub open spec fn pair_views(v: Seq<(String, String)>) -> Seq<(Seq<char>, Seq<char>)> {
    v.map_values(|p: (String, String)| (p.0@, p.1@))
}

/// Calls `serde_json::to_string` on an array of two-key objects built from `pairs`.
#[verifier::external_body]
pub(crate) fn pairs_json(k1: &str, k2: &str, pairs: &[(String, String)]) -> (r: String)
    ensures
        r@ == json_pairs(k1@, k2@, pair_views(pairs@)),
{
    let arr: Vec<serde_json::Value> = pairs.iter().map(|(a, b)| {
        let mut m = serde_json::Map::new();
        m.insert(k1.to_string(), serde_json::Value::String(a.clone()));
        m.insert(k2.to_string(), serde_json::Value::String(b.clone()));
        serde_json::Value::Object(m)
    }).collect();
    serde_json::to_string(&arr).unwrap_or_default()
}

/// The product lines every description prompt starts with.
pub open spec fn product_head(ctx: ProductContext, keyword: Seq<char>) -> Seq<char> {
    "Ürün adı: "@ + ctx.name@ + "\nMarka: "@ + or_dash(ctx.brand) + "\nKategori: "@ + or_dash(
        ctx.category,
    ) + "\nHedef kelime: "@ + keyword + match ctx.insights {
        Some(b) => b@,
        None => seq![],
    }
}

fn push_head(out: &mut Vec<char>, ctx: &ProductContext, keyword: &str)
    ensures
        final(out)@ == old(out)@ + product_head(*ctx, keyword@),
{
    let ghost before = out@;
    extend_str(out, "Ürün adı: ");
    extend_str(out, ctx.name);
    extend_str(out, "\nMarka: ");
    push_or_dash(out, ctx.brand);
    extend_str(out, "\nKategori: ");
    push_or_dash(out, ctx.category);
    extend_str(out, "\nHedef kelime: ");
    extend_str(out, keyword);
    if let Some(b) = ctx.insights {
        extend_str(out, b);
    }
    assert(out@ =~= before + product_head(*ctx, keyword@));
}

/// The tag of a segment: `h2` when its closing tag is `</h2`, `p` otherwise.
pub open spec fn segment_tag(html: Seq<char>, e: int) -> Seq<char> {
    let lb = crate::gemini::ascii_lower_seq(vstd::utf8::encode_utf8(html));
    if crate::blocks::starts_at(lb, e, seq![60u8, 47u8, 104u8, 50u8]) {
        "h2"@
    } else {
        "p"@
    }
}

/// What the model is given for each segment: its tag and its plain text.
pub open spec fn segment_items(html: Seq<char>, segs: Seq<(int, int)>) -> Seq<(Seq<char>, Seq<char>)> {
    Seq::new(
        segs.len(),
        |k: int| (segment_tag(html, segs[k].1), plain_text(byte_text(html, segs[k].0, segs[k].1))),
    )
}

fn segment_items_exec(html: &str, segs: &Vec<(usize, usize)>) -> (r: Vec<(String, String)>)
    requires
        spans_ok(html@, pair_view(segs@)),
    ensures
        pair_views(r@) == segment_items(html@, pair_view(segs@)),
{
    let lb = crate::gemini::ascii_lower_bytes(html);
    let ghost sp = pair_view(segs@);
    let mut out: Vec<(String, String)> = Vec::new();
    let mut k: usize = 0;
    while k < segs.len()
        invariant
            k <= segs@.len(),
            sp == pair_view(segs@),
            spans_ok(html@, sp),
            lb@ == crate::gemini::ascii_lower_seq(vstd::utf8::encode_utf8(html@)),
            out@.len() == k,
            forall|t: int| 0 <= t < k ==> #[trigger] pair_views(out@)[t] == segment_items(html@, sp)[t],
        decreases segs@.len() - k,
    {
        let (s, e) = segs[k];
        assert(sp[k as int] == (s as int, e as int));
        let is_h2 = e <= lb.len() && lb.len() - e >= 4 && lb[e] == 60u8 && lb[e + 1] == 47u8 && lb[e
            + 2] == 104u8 && lb[e + 3] == 50u8;
        proof {
            let want: Seq<u8> = seq![60u8, 47u8, 104u8, 50u8];
            if is_h2 {
                assert(lb@.subrange(e as int, e + 4) =~= want);
            } else if e + 4 <= lb@.len() {
                if lb@.subrange(e as int, e + 4) == want {
                    assert(lb@.subrange(e as int, e + 4)[0] == lb@[e as int]);
                    assert(lb@.subrange(e as int, e + 4)[1] == lb@[e + 1]);
                    assert(lb@.subrange(e as int, e + 4)[2] == lb@[e + 2]);
                    assert(lb@.subrange(e as int, e + 4)[3] == lb@[e + 3]);
                }
            }
        }
        let tag = if is_h2 {
            string_of(chars_of("h2").as_slice())
        } else {
            string_of(chars_of("p").as_slice())
        };
        let inner = string_of(byte_slice_chars(html, s, e).as_slice());
        let text = html_strip(inner.as_str());
        let ghost before = out@;
        assert(tag@ == segment_tag(html@, e as int));
        assert(text@ == plain_text(byte_text(html@, s as int, e as int)));
        out.push((tag, text));
        proof {
            assert forall|t: int| 0 <= t < k + 1 implies #[trigger] pair_views(out@)[t] == segment_items(
                html@,
                sp,
            )[t] by {
                if t < k {
                    assert(out@[t] == before[t]);
                    assert(pair_views(out@)[t] == pair_views(before)[t]);
                }
            }
        }
        k = k + 1;
    }
    assert(pair_views(out@) =~= segment_items(html@, sp));
    out
}

/// The description rewrite prompt.
pub open spec fn details_prompt(ctx: ProductContext, keyword: Seq<char>, items: Seq<char>) -> Seq<char> {
    product_head(ctx, keyword) + "\n\nParçalar (sırayla): "@ + items
}

/// Builds the rewrite prompt from the segments of the description.
pub fn details_prompt_for(ctx: &ProductContext, html: &str, segs: &Vec<(usize, usize)>, keyword: &str) -> (r: String)
    requires
        spans_ok(html@, pair_view(segs@)),
    ensures
        r@ == details_prompt(
            *ctx,
            keyword@,
            json_pairs("tag"@, "text"@, segment_items(html@, pair_view(segs@))),
        ),
{
    let items = segment_items_exec(html, segs);
    let json = pairs_json("tag", "text", items.as_slice());
    let mut out: Vec<char> = Vec::new();
    push_head(&mut out, ctx, keyword);
    extend_str(&mut out, "\n\nParçalar (sırayla): ");
    extend_str(&mut out, json.as_str());
    string_of(out.as_slice())
}

/// What replaces a segment: the model's text for it, cleaned of disallowed tags, unless it is
/// missing or blank, when the original inner HTML stays.
pub open spec fn rewrite_of(html: Seq<char>, seg: (int, int), t: Option<Seq<char>>) -> Seq<char> {
    match t {
        Some(x) => if trim(x).len() > 0 {
            sanitized(x)
        } else {
            byte_text(html, seg.0, seg.1)
        },
        None => byte_text(html, seg.0, seg.1),
    }
}

pub open spec fn rewrites(html: Seq<char>, segs: Seq<(int, int)>, arr: Seq<String>) -> Seq<Seq<char>> {
    Seq::new(
        segs.len(),
        |k: int| rewrite_of(html, segs[k], if k < arr.len() { Some(arr[k]@) } else { None }),
    )
}

/// The rewritten description, unless its image sources differ from the original's, when
/// the original is kept.
pub open spec fn details_result(html: Seq<char>, segs: Seq<(int, int)>, arr: Seq<String>) -> Seq<char> {
    let result = spliced(html, segs, rewrites(html, segs, arr));
    if img_srcs(result) == img_srcs(html) {
        result
    } else {
        html
    }
}

fn same_strings(a: &Vec<String>, b: &Vec<String>) -> (r: bool)
    ensures
        r == (string_views(a@) == string_views(b@)),
{
    if a.len() != b.len() {
        assert(string_views(a@).len() != string_views(b@).len());
        return false;
    }
    let mut i: usize = 0;
    while i < a.len()
        invariant
            i <= a@.len() == b@.len(),
            forall|k: int| 0 <= k < i ==> a@[k]@ == b@[k]@,
        decreases a@.len() - i,
    {
        if !str_eq(a[i].as_str(), b[i].as_str()) {
            assert(string_views(a@)[i as int] != string_views(b@)[i as int]);
            return false;
        }
        i = i + 1;
    }
    assert(string_views(a@) =~= string_views(b@));
    true
}

/// Puts the model's texts into the description in place of the segments' inner HTML; the
/// structure and the images stay as they were.
pub fn finish_details(html: &str, segs: &Vec<(usize, usize)>, arr: &[String]) -> (r: String)
    requires
        spans_ok(html@, pair_view(segs@)),
    ensures
        r@ == details_result(html@, pair_view(segs@), arr@),
{
    let ghost sp = pair_view(segs@);
    let mut reps: Vec<Vec<char>> = Vec::new();
    let mut k: usize = 0;
    while k < segs.len()
        invariant
            k <= segs@.len(),
            sp == pair_view(segs@),
            spans_ok(html@, sp),
            reps@.len() == k,
            forall|t: int| 0 <= t < k ==> (#[trigger] reps@[t])@ == rewrites(html@, sp, arr@)[t],
        decreases segs@.len() - k,
    {
        let (s, e) = segs[k];
        assert(sp[k as int] == (s as int, e as int));
        let mut use_model = false;
        if k < arr.len() {
            let t = trim_str(arr[k].as_str());
            use_model = t.len() > 0;
        }
        let rep: Vec<char> = if use_model {
            chars_of(sanitize_inline(arr[k].as_str()).as_str())
        } else {
            byte_slice_chars(html, s, e)
        };
        reps.push(rep);
        k = k + 1;
    }
    assert(views(reps@) =~= rewrites(html@, sp, arr@));
    let result = string_of(splice_spans(html, segs.as_slice(), &reps).as_slice());
    let before = extract_img_srcs(html);
    let after = extract_img_srcs(result.as_str());
    if same_strings(&after, &before) {
        result
    } else {
        string_of(chars_of(html).as_slice())
    }
}

pub open spec fn min_len(a: nat, b: nat) -> nat {
    if a <= b {
        a
    } else {
        b
    }
}

/// Replaces the segments by the replacements, pairing them in order; segments or
/// replacements left without a partner are ignored.
pub fn splice(html: &str, segs: &[(usize, usize)], reps: &[String]) -> (r: String)
    requires
        spans_ok(html@, pair_view(segs@)),
    ensures
        r@ == spliced(
            html@,
            pair_view(segs@).take(min_len(segs@.len(), reps@.len()) as int),
            string_views(reps@).take(min_len(segs@.len(), reps@.len()) as int),
        ),
{
    let n = if segs.len() <= reps.len() { segs.len() } else { reps.len() };
    let ghost sp = pair_view(segs@);
    let mut sv: Vec<(usize, usize)> = Vec::new();
    let mut rv: Vec<Vec<char>> = Vec::new();
    let mut k: usize = 0;
    while k < n
        invariant
            k <= n <= segs@.len(),
            n <= reps@.len(),
            sp == pair_view(segs@),
            pair_view(sv@) == sp.take(k as int),
            views(rv@) == string_views(reps@).take(k as int),
        decreases n - k,
    {
        let ghost s0 = sv@;
        let ghost r0 = rv@;
        let sg = segs[k];
        let rc = chars_of(reps[k].as_str());
        sv.push(sg);
        rv.push(rc);
        assert(sv@ == s0.push(sg));
        assert(rv@ == r0.push(rc));
        assert(pair_view(s0).len() == s0.len());
        assert(pair_view(sv@).len() == sv@.len());
        assert(views(r0).len() == r0.len());
        assert(views(rv@).len() == rv@.len());
        assert forall|i: int| 0 <= i < k + 1 implies #[trigger] pair_view(sv@)[i] == sp.take(k + 1)[i] by {
            if i < k {
                assert(pair_view(sv@)[i] == pair_view(s0)[i]);
            }
        }
        assert(pair_view(sv@) =~= sp.take(k + 1));
        assert forall|i: int| 0 <= i < k + 1 implies #[trigger] views(rv@)[i] == string_views(reps@).take(k + 1)[i] by {
            if i < k {
                assert(views(rv@)[i] == views(r0)[i]);
            }
        }
        assert(views(rv@) =~= string_views(reps@).take(k + 1));
        k = k + 1;
    }
    proof {
        let tk = sp.take(n as int);
        assert forall|i: int| 0 <= i < tk.len() implies {
            &&& (#[trigger] tk[i]).0 <= tk[i].1
            &&& at_boundary(html@, tk[i].0)
            &&& at_boundary(html@, tk[i].1)
        } by {
            assert(tk[i] == sp[i]);
        }
        assert forall|i: int| 0 <= i < tk.len() - 1 implies (#[trigger] tk[i]).1 <= tk[i + 1].0 by {
            assert(tk[i] == sp[i]);
            assert(tk[i + 1] == sp[i + 1]);
        }
    }
    string_of(splice_spans(html, sv.as_slice(), &rv).as_slice())
}

/// The scratch prompt: the product lines and the number of sections wanted.
pub open spec fn scratch_prompt(ctx: ProductContext, keyword: Seq<char>, sections: nat) -> Seq<char> {
    product_head(ctx, keyword) + "\n\nİstenen bölüm sayısı: "@ + nat_digits(sections)
        + " (her bölüm bir ürün görseline eşlik edecek)."@
}

pub fn scratch_prompt_for(ctx: &ProductContext, keyword: &str, sections: usize) -> (r: String)
    ensures
        r@ == scratch_prompt(*ctx, keyword@, sections as nat),
{
    let mut out: Vec<char> = Vec::new();
    push_head(&mut out, ctx, keyword);
    extend_str(&mut out, "\n\nİstenen bölüm sayısı: ");
    push_u64(&mut out, sections as u64);
    extend_str(&mut out, " (her bölüm bir ürün görseline eşlik edecek).");
    string_of(out.as_slice())
}

/// The optimisation prompt: the product lines, the instructions with the block count, and
/// the blocks' plain texts.
pub open spec fn optimize_prompt(ctx: ProductContext, keyword: Seq<char>, count: nat, items: Seq<char>) -> Seq<char> {
    product_head(ctx, keyword)
        + "\n\nAşağıda ürünün MEVCUT açıklama bölümleri var. Her bölümün başlığını (h2) ve paragrafını (p) anlamını KORUYARAK SEO için optimize et: daha akıcı, özgün ve satışa yönelik yaz, teknik bilgileri kaybetme. Tam olarak "@
        + nat_digits(count) + " bölüm döndür (aynı sırada).\n\nMevcut bölümler: "@ + items
}

pub open spec fn block_items(blocks: Seq<Block>) -> Seq<(Seq<char>, Seq<char>)> {
    blocks.map_values(|b: Block| (plain_text(b.h2@), plain_text(b.p@)))
}

pub fn optimize_prompt_for(ctx: &ProductContext, keyword: &str, blocks: &[Block]) -> (r: String)
    ensures
        r@ == optimize_prompt(*ctx, keyword@, blocks@.len(), json_pairs("h2"@, "p"@, block_items(blocks@))),
{
    let mut items: Vec<(String, String)> = Vec::new();
    let mut k: usize = 0;
    while k < blocks.len()
        invariant
            k <= blocks@.len(),
            pair_views(items@) == block_items(blocks@).take(k as int),
        decreases blocks@.len() - k,
    {
        let h = html_strip(blocks[k].h2.as_str());
        let p = html_strip(blocks[k].p.as_str());
        let ghost i0 = items@;
        items.push((h, p));
        assert(pair_views(i0).len() == i0.len());
        assert(pair_views(items@).len() == items@.len());
        assert forall|i: int| 0 <= i < k + 1 implies #[trigger] pair_views(items@)[i] == block_items(blocks@).take(k + 1)[i] by {
            if i < k {
                assert(pair_views(items@)[i] == pair_views(i0)[i]);
            }
        }
        assert(pair_views(items@) =~= block_items(blocks@).take(k + 1));
        k = k + 1;
    }
    assert(block_items(blocks@).take(blocks@.len() as int) == block_items(blocks@));
    let json = pairs_json("h2", "p", items.as_slice());
    let mut out: Vec<char> = Vec::new();
    push_head(&mut out, ctx, keyword);
    extend_str(
        &mut out,
        "\n\nAşağıda ürünün MEVCUT açıklama bölümleri var. Her bölümün başlığını (h2) ve paragrafını (p) anlamını KORUYARAK SEO için optimize et: daha akıcı, özgün ve satışa yönelik yaz, teknik bilgileri kaybetme. Tam olarak ",
    );
    push_u64(&mut out, blocks.len() as u64);
    extend_str(&mut out, " bölüm döndür (aynı sırada).\n\nMevcut bölümler: ");
    extend_str(&mut out, json.as_str());
    string_of(out.as_slice())
}

/// The retry prompt when a model returned the wrong number of parts or sections.
pub open spec fn retry_prompt(prompt: Seq<char>, count: nat, parts: bool) -> Seq<char> {
    if parts {
        prompt + "\n\nÖNEMLİ: Tam olarak "@ + nat_digits(count) + " parça döndür, ne eksik ne fazla."@
    } else {
        prompt + "\n\nÖNEMLİ: Tam olarak "@ + nat_digits(count) + " bölüm döndür."@
    }
}

pub fn retry_prompt_for(prompt: &str, count: usize, parts: bool) -> (r: String)
    ensures
        r@ == retry_prompt(prompt@, count as nat, parts),
{
    let mut out: Vec<char> = Vec::new();
    extend_str(&mut out, prompt);
    extend_str(&mut out, "\n\nÖNEMLİ: Tam olarak ");
    push_u64(&mut out, count as u64);
    if parts {
        extend_str(&mut out, " parça döndür, ne eksik ne fazla.");
    } else {
        extend_str(&mut out, " bölüm döndür.");
    }
    string_of(out.as_slice())
}

/// Writing from scratch needs a usable key and at least one product image.
pub open spec fn scratch_precheck(key: Seq<char>, images: nat) -> Result<Seq<char>, Seq<char>> {
    match api_key_result(key) {
        Err(e) => Err(e),
        Ok(k) => if images == 0 {
            Err("Sıfırdan açıklama için ürün görseli gerekli."@)
        } else {
            Ok(k)
        },
    }
}

pub fn scratch_check(key: &str, images: &[String]) -> (r: Result<String, String>)
    ensures
        match r {
            Ok(k) => scratch_precheck(key@, images@.len()) == Ok::<Seq<char>, Seq<char>>(k@),
            Err(e) => scratch_precheck(key@, images@.len()) == Err::<Seq<char>, Seq<char>>(e@),
        },
{
    let k = api_key_of(key)?;
    if images.len() == 0 {
        return Err(string_of(chars_of("Sıfırdan açıklama için ürün görseli gerekli.").as_slice()));
    }
    Ok(k)
}

/// Why a successful response carried no answer: its body was not JSON (with the reader's
/// error), or it lacked the answer text.
#[derive(Debug)]
pub enum AnswerFault {
    Unreadable(String),
    Unexpected,
}

/// The answer text of a model response: `candidates[0].content.parts[0].text` of the JSON body.
pub open spec fn answer_path(t: Json) -> Option<Seq<char>> {
    str_of(field_of(element_of(field_of(field_of(element_of(field(t, "candidates"@), 0), "content"@), "parts"@), 0), "text"@))
}

/// Reads the answer text out of a successful response body.
pub fn model_answer(body: &str) -> (r: Result<String, AnswerFault>)
    ensures
        match json_tree(body@) {
            Err(e) => r matches Err(AnswerFault::Unreadable(m)) && m@ == e,
            Ok(t) => match answer_path(t) {
                Some(a) => r matches Ok(x) && x@ == a,
                None => r matches Err(AnswerFault::Unexpected),
            },
        },
{
    let t = match parse_json(body) {
        Ok(t) => t,
        Err(e) => return Err(AnswerFault::Unreadable(e)),
    };
    let a = match get_field(&t, "candidates") {
        Some(c) => get_element(c, 0),
        None => None,
    };
    let b = match a {
        Some(x) => get_field(x, "content"),
        None => None,
    };
    let c = match b {
        Some(x) => get_field(x, "parts"),
        None => None,
    };
    let d = match c {
        Some(x) => get_element(x, 0),
        None => None,
    };
    let e = match d {
        Some(x) => get_field(x, "text"),
        None => None,
    };
    match e {
        Some(Json::Str(s)) => Ok(string_of(chars_of(s.as_str()).as_slice())),
        _ => Err(AnswerFault::Unexpected),
    }
}

/// The message of a response without an answer (the body cut to 240 bytes).
pub fn answer_fault_message(body: &str, fault: AnswerFault) -> (r: String)
    requires
        fault is Unexpected ==> shorten_ok(body@, 240),
    ensures
        match fault {
            AnswerFault::Unreadable(e) => r@ == "Yanıt çözümlenemedi: "@ + e@,
            AnswerFault::Unexpected => r@ == "Beklenmeyen yanıt biçimi: "@ + shorten(body@, 240),
        },
{
    match fault {
        AnswerFault::Unreadable(e) => {
            let mut m = chars_of("Yanıt çözümlenemedi: ");
            extend_str(&mut m, e.as_str());
            string_of(m.as_slice())
        },
        AnswerFault::Unexpected => {
            let mut m = chars_of("Beklenmeyen yanıt biçimi: ");
            let s = shorten_str(body, 240);
            extend_chars(&mut m, s.as_slice());
            string_of(m.as_slice())
        },
    }
}

/// Reads the rewritten texts a model returned: a JSON array of strings.
pub fn model_strings(inner: &str) -> (r: Result<Vec<String>, String>)
    ensures
        match json_strings(inner@) {
            Ok(v) => r matches Ok(x) && x@.map_values(|s: String| s@) == v,
            Err(e) => r matches Err(m) && m@ == "Üretilen dizi okunamadı: "@ + e,
        },
{
    match parse_string_array(inner) {
        Ok(v) => Ok(v),
        Err(e) => {
            let mut m = chars_of("Üretilen dizi okunamadı: ");
            extend_str(&mut m, e.as_str());
            Err(string_of(m.as_slice()))
        },
    }
}

/// The sections a model returned: for each element of the JSON array its `h2` and `p` texts
/// (empty when missing).
pub open spec fn sections_from(items: Seq<Json>) -> Seq<(Seq<char>, Seq<char>)> {
    items.map_values(|e: Json| (field_str(e, "h2"@), field_str(e, "p"@)))
}

pub fn model_sections(inner: &str) -> (r: Result<Vec<(String, String)>, String>)
    ensures
        match json_array(inner@) {
            Ok(items) => r matches Ok(x) && pair_views(x@) == sections_from(items),
            Err(e) => r matches Err(m) && m@ == "Üretilen dizi okunamadı: "@ + e,
        },
{
    let items = match parse_json_array(inner) {
        Ok(v) => v,
        Err(e) => {
            let mut m = chars_of("Üretilen dizi okunamadı: ");
            extend_str(&mut m, e.as_str());
            return Err(string_of(m.as_slice()));
        },
    };
    let mut out: Vec<(String, String)> = Vec::new();
    let mut i: usize = 0;
    while i < items.len()
        invariant
            i <= items@.len(),
            out@.len() == i,
            pair_views(out@) == sections_from(items@.take(i as int)),
        decreases items@.len() - i,
    {
        let h = field_text(&items[i], "h2");
        let p = field_text(&items[i], "p");
        let ghost before = out@;
        out.push((h, p));
        assert(items@.take(i + 1) == items@.take(i as int).push(items@[i as int]));
        assert forall|k: int| 0 <= k < i + 1 implies #[trigger] pair_views(out@)[k] == sections_from(items@.take(i + 1))[k] by {
            if k < i {
                assert(out@[k] == before[k]);
                assert(pair_views(before)[k] == sections_from(items@.take(i as int))[k]);
            }
        }
        assert(pair_views(out@) =~= sections_from(items@.take(i + 1)));
        i = i + 1;
    }
    assert(items@.take(items@.len() as int) == items@);
    Ok(out)
}

/// How many models a model listing names: the length of its `models` array (0 without one).
pub open spec fn listed_models(t: Json) -> nat {
    match field(t, "models"@) {
        Some(Json::Arr(a)) => a@.len(),
        _ => 0,
    }
}

/// Reads a model listing's body.
pub fn model_count(body: &str) -> (r: Result<usize, String>)
    ensures
        match json_tree(body@) {
            Err(e) => r matches Err(m) && m@ == "Yanıt çözümlenemedi: "@ + e,
            Ok(t) => r == Ok::<usize, String>(listed_models(t) as usize),
        },
{
    let t = match parse_json(body) {
        Ok(t) => t,
        Err(e) => {
            let mut m = chars_of("Yanıt çözümlenemedi: ");
            extend_str(&mut m, e.as_str());
            return Err(string_of(m.as_slice()));
        },
    };
    match get_field(&t, "models") {
        Some(Json::Arr(a)) => Ok(a.len()),
        _ => Ok(0),
    }
}

/// Rewriting a description needs a usable key and at least one `<h2>`/`<p>` text.
pub open spec fn details_precheck(key: Seq<char>, segments: nat) -> Result<Seq<char>, Seq<char>> {
    match api_key_result(key) {
        Err(e) => Err(e),
        Ok(k) => if segments == 0 {
            Err("Bu üründe yeniden yazılacak açıklama metni bulunamadı."@)
        } else {
            Ok(k)
        },
    }
}

pub fn details_check(key: &str, html: &str) -> (r: Result<String, String>)
    ensures
        match r {
            Ok(k) => details_precheck(key@, crate::gemini::html_segments(html).len()) == Ok::<
                Seq<char>,
                Seq<char>,
            >(k@),
            Err(e) => details_precheck(key@, crate::gemini::html_segments(html).len()) == Err::<
                Seq<char>,
                Seq<char>,
            >(e@),
        },
{
    let k = api_key_of(key)?;
    if !crate::gemini::has_rewritable_content(html) {
        return Err(string_of(chars_of("Bu üründe yeniden yazılacak açıklama metni bulunamadı.").as_slice()));
    }
    Ok(k)
}

/// Optimising a description needs a usable key; a description whose blocks cannot be read
/// (or has none) is not optimised, and the caller keeps to the structure-preserving rewrite.
pub fn optimize_check(key: &str, html: &str) -> (r: Result<Option<(String, Vec<Block>)>, String>)
    ensures
        match r {
            Err(e) => api_key_result(key@) == Err::<Seq<char>, Seq<char>>(e@),
            Ok(None) => api_key_result(key@) is Ok && (crate::blocks::extracted_blocks(html@) matches Some(
                v,
            ) ==> v.len() == 0),
            Ok(Some((k, bs))) => api_key_result(key@) == Ok::<Seq<char>, Seq<char>>(k@) && bs@.len()
                > 0 && crate::blocks::extracted_blocks(html@) == Some(
                bs@.map_values(|b: Block| crate::blocks::block_view(b)),
            ),
        },
{
    let k = api_key_of(key)?;
    match crate::blocks::extract_blocks(html) {
        Some(bs) => {
            if bs.len() == 0 {
                Ok(None)
            } else {
                Ok(Some((k, bs)))
            }
        },
        None => Ok(None),
    }
}

/// The messages that end a model chain in which every model ran out of quota; the last
/// model's message follows.
pub const META_EXHAUSTED: &'static str = "Tüm modeller denendi, üretim başarısız. Son hata: ";

pub const DETAILS_EXHAUSTED: &'static str = "Tüm modeller denendi, açıklama üretilemedi. Son hata: ";

pub const OPTIMIZE_EXHAUSTED: &'static str = "Tüm modeller denendi, açıklama optimize edilemedi. Son hata: ";

/// The sections kept after a retry for too few sections: the retry's when it has more.
pub fn more_sections(first: Vec<(String, String)>, retry: Option<Vec<(String, String)>>) -> (r: Vec<(String, String)>)
    ensures
        r@ == match retry {
            Some(s) => if s@.len() > first@.len() {
                s@
            } else {
                first@
            },
            None => first@,
        },
{
    match retry {
        Some(s) => if s.len() > first.len() {
            s
        } else {
            first
        },
        None => first,
    }
}

/// The scratch description from the model's sections and the product images; an empty
/// answer is an error.
pub fn finish_scratch(name: &str, sections: &[(String, String)], images: &[String]) -> (r: Result<String, String>)
    ensures
        match r {
            Ok(h) => sections@.len() > 0 && h@ == scratch_html(name@, sections@, images@),
            Err(e) => sections@.len() == 0 && e@ == "Model boş içerik döndürdü."@,
        },
{
    if sections.len() == 0 {
        return Err(string_of(chars_of("Model boş içerik döndürdü.").as_slice()));
    }
    Ok(assemble_scratch(name, sections, images))
}

/// The texts kept after a retry for a wrong count: the retry's when it has exactly `want`.
pub fn exact_texts(first: Vec<(String, String)>, retry: Option<Vec<(String, String)>>, want: usize) -> (r: Vec<(String, String)>)
    ensures
        r@ == match retry {
            Some(t) => if t@.len() == want {
                t@
            } else {
                first@
            },
            None => first@,
        },
{
    match retry {
        Some(t) => if t.len() == want {
            t
        } else {
            first
        },
        None => first,
    }
}

/// The optimised description, or none when its image sources differ from the original's
/// (the caller then keeps to the structure-preserving rewrite).
pub open spec fn optimized_result(name: Seq<char>, blocks: Seq<Block>, texts: Seq<(String, String)>, html: Seq<char>) -> Option<Seq<char>> {
    let result = optimized_html(name, blocks, texts);
    if img_srcs(result) == img_srcs(html) {
        Some(result)
    } else {
        None
    }
}

pub fn finish_optimized(name: &str, blocks: &[Block], texts: &[(String, String)], html: &str) -> (r: Option<String>)
    ensures
        match r {
            Some(h) => optimized_result(name@, blocks@, texts@, html@) == Some(h@),
            None => optimized_result(name@, blocks@, texts@, html@) is None,
        },
{
    let result = assemble_optimized(name, blocks, texts);
    let a = extract_img_srcs(result.as_str());
    let b = extract_img_srcs(html);
    if same_strings(&a, &b) {
        Some(result)
    } else {
        None
    }
}

/// The rewritable segments of a description, as ordered byte ranges between characters.
pub fn segments_of(html: &str) -> (r: Vec<(usize, usize)>)
    ensures
        pair_view(r@) == crate::gemini::html_segments(html),
        spans_ok(html@, pair_view(r@)),
{
    let segs = crate::gemini::extract_segments(html);
    proof {
        crate::gemini::lemma_segments_ok(html);
    }
    segs
}

/// Rewrites a description with the model's texts for its segments (see [`finish_details`]).
pub fn rewrite_details(html: &str, arr: &[String]) -> (r: String)
    ensures
        r@ == details_result(html@, crate::gemini::html_segments(html), arr@),
{
    let segs = segments_of(html);
    finish_details(html, &segs, arr)
}

/// The rewrite prompt of a description (see [`details_prompt_for`]).
pub fn details_prompt_of(ctx: &ProductContext, html: &str, keyword: &str) -> (r: String)
    ensures
        r@ == details_prompt(
            *ctx,
            keyword@,
            json_pairs("tag"@, "text"@, segment_items(html@, crate::gemini::html_segments(html))),
        ),
{
    let segs = segments_of(html);
    details_prompt_for(ctx, html, &segs, keyword)
}

/// A rewrite never changes the description's image sources: either they come out the same
/// or the original description is kept.
pub proof fn law_rewrite_keeps_images(html: Seq<char>, segs: Seq<(int, int)>, arr: Seq<String>)
    ensures
        img_srcs(details_result(html, segs, arr)) == img_srcs(html),
{
}

/// An optimised description, when one is given, has exactly the original's image sources.
pub proof fn law_optimize_keeps_images(name: Seq<char>, blocks: Seq<Block>, texts: Seq<(String, String)>, html: Seq<char>)
    ensures
        optimized_result(name, blocks, texts, html) matches Some(h) ==> img_srcs(h) == img_srcs(html),
{
}

/// A field within its limit is left exactly as it is by clamping.
pub proof fn law_clamp_keeps_short(s: Seq<char>, max: nat)
    requires
        grapheme_count(s) <= max,
    ensures
        clamped(s, max) == s,
{
}

/// Without a key no request is made: every generation starts with the key check.
pub proof fn law_blank_key_is_refused(key: Seq<char>)
    requires
        trim(key).len() == 0,
    ensures
        api_key_result(key) is Err,
        scratch_precheck(key, 1) is Err,
{
}

/// A quota failure moves on to the next model of the chain, in order, and the chain ends
/// after its last model with the exhausted message; any other failure ends it at once with
/// its own message.
pub proof fn law_quota_moves_on(msg: Seq<char>, exhausted: Seq<char>, next: int)
    ensures
        after_failure(1, true, msg, exhausted) == Ok::<int, Seq<char>>(1),
        after_failure(2, true, msg, exhausted) == Ok::<int, Seq<char>>(2),
        after_failure(3, true, msg, exhausted) == Err::<int, Seq<char>>(exhausted + msg),
        after_failure(next, false, msg, exhausted) == Err::<int, Seq<char>>(msg),
{
}

/// The corrective retry never makes the result worse: the kept attempt breaks no more rules
/// than the first one.
pub proof fn law_retry_never_worse(first: GeneratedMeta, retry: Option<GeneratedMeta>)
    ensures
        violations(better_meta(first, retry).title@, better_meta(first, retry).descriptions@, better_meta(
            first,
            retry,
        ).target_keyword@) <= violations(first.title@, first.descriptions@, first.target_keyword@),
{
}

/// No corrective retry exactly when the fields are suitable; otherwise the correction names
/// each broken rule, or asks to follow the rules when the badge is faulty for a reason no
/// sentence names.
pub proof fn law_correction_iff_unsuitable(title: Seq<char>, desc: Seq<char>, keyword: Seq<char>)
    ensures
        correction(title, desc, keyword) is None <==> badge_of(title, desc, keyword, false) == MetaBadge::Uygun,
        correction(title, desc, keyword) matches Some(m) ==> m == (if correction_msgs(title, desc, keyword).len() == 0 {
            "Kurallara tam uy."@
        } else {
            join(correction_msgs(title, desc, keyword), " "@)
        }),
{
}

} // verus!
