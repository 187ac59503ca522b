//! Store (IdeaSoft) integration rules: address normalisation, readable HTTP errors, choosing
//! the exact SKU among search hits, and building the partial update body.

use vstd::prelude::*;
use crate::text::{
    chars_of, eq_chars, extend_chars, extend_str, lowercase, lowercase_chars, push_u64, shorten,
    shorten_ok, shorten_str, starts_with, starts_with_chars, str_eq, string_of,
    strip_prefix_all, strip_prefix_all_chars, strip_suffix_all, strip_suffix_all_chars, trim,
    trim_str, nat_digits,
};

use crate::json::{field, field_of, get_field, json_array, json_tree, parse_json, parse_json_array, Json};

verus! {

/// The remote product's fields used for the difference preview.
#[derive(Debug, Clone, Default, PartialEq)]
pub struct RemoteProduct {
    pub id: i64,
    pub sku: String,
    pub name: String,
    pub page_title: String,
    pub meta_description: String,
    pub meta_keywords: String,
    pub search_keywords: String,
    pub target_keyword: String,
    pub details: String,
    pub extra_details: String,
    /// The store's own SEO rule score (informative).
    pub seo_rule_count: Option<i64>,
}

/// The local content to send.
#[derive(Debug, Clone, Default)]
pub struct LocalContent {
    pub page_title: String,
    pub meta_description: String,
    pub meta_keywords: String,
    pub search_keywords: String,
    pub target_keyword: String,
    pub details_html: String,
    pub tech_html: String,
}

/// A product id found by SKU search, with the store's SEO rule score (only the list
/// endpoint fills it).
#[derive(Debug, Clone, Copy, PartialEq, Eq, Structural)]
pub struct Resolved {
    pub id: i64,
    pub seo_rule_count: Option<i64>,
}

/// One row of a product search result, as far as the SKU choice reads it.
#[derive(Debug, Clone)]
pub struct SearchHit {
    pub sku: String,
    pub id: Option<i64>,
    pub seo_rule_count: Option<i64>,
}

/// The `detail` part of an update body.
#[derive(Debug, Clone, PartialEq)]
pub struct DetailPayload {
    pub details: Option<String>,
    pub extra_details: Option<String>,
}

/// A partial product update: only present fields are written to the store.
#[derive(Debug, Clone, PartialEq)]
pub struct Payload {
    pub page_title: Option<String>,
    pub meta_description: Option<String>,
    pub meta_keywords: Option<String>,
    pub search_keywords: Option<String>,
    pub target_keyword: Option<String>,
    pub detail: Option<DetailPayload>,
}

pub open spec fn ov(o: Option<String>) -> Option<Seq<char>> {
    match o {
        Some(s) => Some(s@),
        None => None,
    }
}

/// The normalised store base address, or the error for an empty address: trimmed, trailing
/// `/` removed, `https://` added when no scheme is given, trailing `/admin-api` and `/` removed.
pub open spec fn base_of(domain: Seq<char>) -> Result<Seq<char>, Seq<char>> {
    let d = strip_suffix_all(trim(domain), seq!['/']);
    if d.len() == 0 {
        Err("IdeaSoft mağaza adresi ayarlı değil."@)
    } else {
        let full = if starts_with(d, "http://"@) || starts_with(d, "https://"@) {
            d
        } else {
            "https://"@ + d
        };
        Ok(strip_suffix_all(strip_suffix_all(full, "/admin-api"@), seq!['/']))
    }
}

pub open spec fn res_view(r: Result<String, String>) -> Result<Seq<char>, Seq<char>> {
    match r {
        Ok(s) => Ok(s@),
        Err(e) => Err(e@),
    }
}

fn slash() -> (r: Vec<char>)
    ensures
        r@ == seq!['/'],
{
    let mut v: Vec<char> = Vec::new();
    v.push('/');
    assert(v@ =~= seq!['/']);
    v
}

/// Normalises the store address the user typed.
pub fn base_url(domain: &str) -> (r: Result<String, String>)
    ensures
        res_view(r) == base_of(domain@),
{
    let t = trim_str(domain);
    let sl = slash();
    let d = strip_suffix_all_chars(t.as_slice(), sl.as_slice());
    if d.len() == 0 {
        return Err(string_of(chars_of("IdeaSoft mağaza adresi ayarlı değil.").as_slice()));
    }
    let http = chars_of("http://");
    let https = chars_of("https://");
    let full = if starts_with_chars(d.as_slice(), http.as_slice()) || starts_with_chars(
        d.as_slice(),
        https.as_slice(),
    ) {
        d
    } else {
        let mut f = https.clone();
        extend_chars(&mut f, d.as_slice());
        f
    };
    let admin = chars_of("/admin-api");
    let a = strip_suffix_all_chars(full.as_slice(), admin.as_slice());
    let b = strip_suffix_all_chars(a.as_slice(), sl.as_slice());
    Ok(string_of(b.as_slice()))
}

/// Readable message for a failed HTTP status.
pub open spec fn status_message(code: u16, body: Seq<char>) -> Seq<char> {
    if code == 401 || code == 403 {
        "IdeaSoft token'ı geçersiz veya süresi dolmuş. Ayarlar'dan yenileyin."@
    } else if code == 404 {
        "Ürün IdeaSoft'ta bulunamadı."@
    } else if code == 429 {
        "IdeaSoft hız sınırına takıldı, biraz bekleyip tekrar deneyin."@
    } else {
        "IdeaSoft hatası (HTTP "@ + nat_digits(code as nat) + "): "@ + shorten(body, 200)
    }
}

/// The body excerpt of a message is cut at 200 bytes, which must fall between characters.
pub open spec fn status_message_ok(code: u16, body: Seq<char>) -> bool {
    code == 401 || code == 403 || code == 404 || code == 429 || shorten_ok(body, 200)
}

/// Trims a response body and cuts it to 200 bytes.
pub fn short(s: &str) -> (r: String)
    requires
        shorten_ok(s@, 200),
    ensures
        r@ == shorten(s@, 200),
{
    string_of(shorten_str(s, 200).as_slice())
}

/// Turns a failed HTTP status into a message the user can act on.
pub fn map_status(code: u16, body: &str) -> (r: String)
    requires
        status_message_ok(code, body@),
    ensures
        r@ == status_message(code, body@),
{
    if code == 401 || code == 403 {
        string_of(chars_of("IdeaSoft token'ı geçersiz veya süresi dolmuş. Ayarlar'dan yenileyin.").as_slice())
    } else if code == 404 {
        string_of(chars_of("Ürün IdeaSoft'ta bulunamadı.").as_slice())
    } else if code == 429 {
        string_of(chars_of("IdeaSoft hız sınırına takıldı, biraz bekleyip tekrar deneyin.").as_slice())
    } else {
        let mut m: Vec<char> = Vec::new();
        extend_str(&mut m, "IdeaSoft hatası (HTTP ");
        push_u64(&mut m, code as u64);
        extend_str(&mut m, "): ");
        let s = shorten_str(body, 200);
        extend_chars(&mut m, s.as_slice());
        string_of(m.as_slice())
    }
}

/// A response status is a success when it is in `200..300`; otherwise the readable message.
pub fn status_result(code: u16, body: &str) -> (r: Result<(), String>)
    requires
        200 <= code < 300 || status_message_ok(code, body@),
    ensures
        r is Ok <==> 200 <= code < 300,
        r matches Err(m) ==> m@ == status_message(code, body@),
{
    if 200 <= code && code < 300 {
        Ok(())
    } else {
        Err(map_status(code, body))
    }
}

/// The comparison key of a SKU: trimmed and lower-cased.
pub open spec fn sku_key(s: Seq<char>) -> Seq<char> {
    lowercase(trim(s))
}

/// `i` is the first hit whose SKU has the wanted key.
pub open spec fn is_first_hit(hits: Seq<SearchHit>, key: Seq<char>, i: int) -> bool {
    &&& 0 <= i < hits.len()
    &&& sku_key(hits[i].sku@) == key
    &&& forall|j: int| 0 <= j < i ==> sku_key(#[trigger] hits[j].sku@) != key
}

fn sku_key_of(s: &str) -> (r: Vec<char>)
    ensures
        r@ == sku_key(s@),
{
    let t = trim_str(s);
    lowercase_chars(t.as_slice())
}

/// Picks the hit whose SKU matches exactly (case-insensitive, trimmed); partial matches are
/// ignored. The first exact hit decides; without an id it yields nothing.
pub fn pick_exact_sku(arr: &[SearchHit], sku: &str) -> (r: Option<Resolved>)
    ensures
        r matches Some(res) ==> exists|i: int| #[trigger] is_first_hit(arr@, sku_key(sku@), i)
            && arr@[i].id == Some(res.id) && arr@[i].seo_rule_count == res.seo_rule_count,
        r is None ==> forall|i: int| #[trigger] is_first_hit(arr@, sku_key(sku@), i) ==> arr@[i].id is None,
{
    let want = sku_key_of(sku);
    let mut i: usize = 0;
    while i < arr.len()
        invariant
            i <= arr@.len(),
            want@ == sku_key(sku@),
            forall|j: int| 0 <= j < i ==> sku_key(#[trigger] arr@[j].sku@) != want@,
        decreases arr@.len() - i,
    {
        let k = sku_key_of(arr[i].sku.as_str());
        if eq_chars(k.as_slice(), want.as_slice()) {
            assert(is_first_hit(arr@, sku_key(sku@), i as int));
            assert forall|t: int| #[trigger] is_first_hit(arr@, sku_key(sku@), t) implies t == i by {
                if t < i {
                } else if t > i {
                    assert(sku_key(arr@[i as int].sku@) != want@);
                }
            }
            return match arr[i].id {
                Some(id) => Some(Resolved { id, seo_rule_count: arr[i].seo_rule_count }),
                None => None,
            };
        }
        i = i + 1;
    }
    assert forall|t: int| #[trigger] is_first_hit(arr@, sku_key(sku@), t) implies arr@[t].id is None by {
    }
    None
}

/// `parts` names the piece `p`.
pub open spec fn has_part(parts: Seq<String>, p: Seq<char>) -> bool {
    exists|i: int| 0 <= i < parts.len() && #[trigger] parts[i]@ == p
}

/// A trimmed field, sent only when selected and not blank (so a blank local field never
/// erases a filled remote one).
pub open spec fn trimmed_field(on: bool, v: Seq<char>) -> Option<Seq<char>> {
    if on && trim(v).len() > 0 {
        Some(trim(v))
    } else {
        None
    }
}

/// An HTML field, sent as it is when selected and not blank.
pub open spec fn html_field(on: bool, v: Seq<char>) -> Option<Seq<char>> {
    if on && trim(v).len() > 0 {
        Some(v)
    } else {
        None
    }
}

/// The update body: `meta` selects the five meta fields, `keyword` the target keyword alone,
/// `details` and `tech` the two halves of one `detail` object.
pub open spec fn payload_matches(p: Payload, parts: Seq<String>, local: LocalContent) -> bool {
    let meta = has_part(parts, "meta"@);
    let kw = has_part(parts, "keyword"@);
    let d = html_field(has_part(parts, "details"@), local.details_html@);
    let e = html_field(has_part(parts, "tech"@), local.tech_html@);
    &&& ov(p.page_title) == trimmed_field(meta, local.page_title@)
    &&& ov(p.meta_description) == trimmed_field(meta, local.meta_description@)
    &&& ov(p.meta_keywords) == trimmed_field(meta, local.meta_keywords@)
    &&& ov(p.search_keywords) == trimmed_field(meta, local.search_keywords@)
    &&& ov(p.target_keyword) == trimmed_field(meta || kw, local.target_keyword@)
    &&& match p.detail {
        Some(dp) => (d is Some || e is Some) && ov(dp.details) == d && ov(dp.extra_details) == e,
        None => d is None && e is None,
    }
}

fn has_part_exec(parts: &[String], p: &str) -> (r: bool)
    ensures
        r == has_part(parts@, p@),
{
    let mut i: usize = 0;
    while i < parts.len()
        invariant
            i <= parts@.len(),
            forall|j: int| 0 <= j < i ==> parts@[j]@ != p@,
        decreases parts@.len() - i,
    {
        if str_eq(parts[i].as_str(), p) {
            assert(parts@[i as int]@ == p@);
            return true;
        }
        i = i + 1;
    }
    false
}

fn trimmed_opt(on: bool, v: &String) -> (r: Option<String>)
    ensures
        ov(r) == trimmed_field(on, v@),
{
    if !on {
        return None;
    }
    let t = trim_str(v.as_str());
    if t.len() == 0 {
        None
    } else {
        Some(string_of(t.as_slice()))
    }
}

fn html_opt(on: bool, v: &String) -> (r: Option<String>)
    ensures
        ov(r) == html_field(on, v@),
{
    if !on {
        return None;
    }
    let t = trim_str(v.as_str());
    if t.len() == 0 {
        None
    } else {
        Some(v.clone())
    }
}

/// Builds the update body from the selected parts.
pub fn build_payload(parts: &[String], local: &LocalContent) -> (r: Payload)
    ensures
        payload_matches(r, parts@, *local),
{
    let meta = has_part_exec(parts, "meta");
    let kw = has_part_exec(parts, "keyword");
    let d = html_opt(has_part_exec(parts, "details"), &local.details_html);
    let e = html_opt(has_part_exec(parts, "tech"), &local.tech_html);
    let detail = if d.is_some() || e.is_some() {
        Some(DetailPayload { details: d, extra_details: e })
    } else {
        None
    };
    Payload {
        page_title: trimmed_opt(meta, &local.page_title),
        meta_description: trimmed_opt(meta, &local.meta_description),
        meta_keywords: trimmed_opt(meta, &local.meta_keywords),
        search_keywords: trimmed_opt(meta, &local.search_keywords),
        target_keyword: trimmed_opt(meta || kw, &local.target_keyword),
        detail,
    }
}

impl Payload {
    /// No field at all: nothing to send.
    pub open spec fn spec_is_empty(&self) -> bool {
        &&& self.page_title is None
        &&& self.meta_description is None
        &&& self.meta_keywords is None
        &&& self.search_keywords is None
        &&& self.target_keyword is None
        &&& self.detail is None
    }

    pub fn is_empty(&self) -> (r: bool)
        ensures
            r == self.spec_is_empty(),
    {
        self.page_title.is_none() && self.meta_description.is_none() && self.meta_keywords.is_none()
            && self.search_keywords.is_none() && self.target_keyword.is_none()
            && self.detail.is_none()
    }
}

/// The store refuses a `detail` object with a missing half, so a partial update fills the
/// missing half with the remote value (which leaves it untouched).
pub fn fill_detail_from_remote(payload: &mut Payload, remote: &RemoteProduct)
    ensures
        final(payload).page_title == old(payload).page_title,
        final(payload).meta_description == old(payload).meta_description,
        final(payload).meta_keywords == old(payload).meta_keywords,
        final(payload).search_keywords == old(payload).search_keywords,
        final(payload).target_keyword == old(payload).target_keyword,
        match old(payload).detail {
            None => final(payload).detail is None,
            Some(d) => (final(payload).detail matches Some(n) && {
                &&& ov(n.details) == match d.details {
                    Some(x) => Some(x@),
                    None => Some(remote.details@),
                }
                &&& ov(n.extra_details) == match d.extra_details {
                    Some(x) => Some(x@),
                    None => Some(remote.extra_details@),
                }
            }),
        },
{
    match payload.detail.take() {
        None => {},
        Some(mut d) => {
            if d.details.is_none() {
                d.details = Some(remote.details.clone());
            }
            if d.extra_details.is_none() {
                d.extra_details = Some(remote.extra_details.clone());
            }
            payload.detail = Some(d);
        },
    }
}

/// Before a connection test: a blank token is refused first, then the address is normalised.
pub fn connection_target(domain: &str, token: &str) -> (r: Result<String, String>)
    ensures
        trim(token@).len() == 0 ==> (r matches Err(e) && e@ == "IdeaSoft token'ı ayarlı değil."@),
        trim(token@).len() > 0 ==> res_view(r) == base_of(domain@),
{
    if trim_str(token).len() == 0 {
        return Err(string_of(chars_of("IdeaSoft token'ı ayarlı değil.").as_slice()));
    }
    base_url(domain)
}

/// A push of the selected parts needs something to send: with every selected field empty the
/// user is told to generate content first.
pub fn push_ready(payload: &Payload) -> (r: Result<(), String>)
    ensures
        r is Err <==> payload.spec_is_empty(),
        r matches Err(e) ==> e@ == "Gönderilecek içerik yok — önce üretim yapın."@,
{
    if payload.is_empty() {
        return Err(string_of(chars_of("Gönderilecek içerik yok — önce üretim yapın.").as_slice()));
    }
    Ok(())
}

/// Before a push: an empty body is refused first, then the address is normalised.
pub fn push_target(domain: &str, payload: &Payload) -> (r: Result<String, String>)
    ensures
        payload.spec_is_empty() ==> (r matches Err(e) && e@ == "Gönderilecek içerik yok."@),
        !payload.spec_is_empty() ==> res_view(r) == base_of(domain@),
{
    if payload.is_empty() {
        return Err(string_of(chars_of("Gönderilecek içerik yok.").as_slice()));
    }
    base_url(domain)
}

/// The last path segment of a URL (after trimming and dropping trailing `/`).
pub open spec fn last_segment(url: Seq<char>) -> Seq<char> {
    let u = strip_suffix_all(trim(url), seq!['/']);
    if exists|i: int| 0 <= i < u.len() && u[i] == '/' {
        let k = choose|i: int| 0 <= i < u.len() && u[i] == '/' && forall|j: int| i < j < u.len() ==> u[j] != '/';
        u.skip(k + 1)
    } else {
        u
    }
}

/// The slug key: trimmed, `/` removed at both ends, lower-cased.
pub open spec fn slug_key(slug: Seq<char>) -> Seq<char> {
    lowercase(strip_suffix_all(strip_prefix_all(trim(slug), seq!['/']), seq!['/']))
}

/// `i` is the first live product whose URL ends in the slug.
pub open spec fn is_first_live(rows: Seq<(String, String)>, key: Seq<char>, i: int) -> bool {
    &&& 0 <= i < rows.len()
    &&& lowercase(last_segment(rows[i].1@)) == key
    &&& forall|j: int| 0 <= j < i ==> lowercase(last_segment(#[trigger] rows[j].1@)) != key
}

fn last_segment_exec(url: &str) -> (r: Vec<char>)
    ensures
        r@ == last_segment(url@),
{
    let t = trim_str(url);
    let sl = slash();
    let u = strip_suffix_all_chars(t.as_slice(), sl.as_slice());
    let mut k: usize = u.len();
    while k > 0 && u[k - 1] != '/'
        invariant
            k <= u@.len(),
            forall|j: int| k <= j < u@.len() ==> u@[j] != '/',
        decreases k,
    {
        k = k - 1;
    }
    if k == 0 {
        assert(!exists|i: int| 0 <= i < u@.len() && u@[i] == '/');
        u
    } else {
        let ghost kk = (k - 1) as int;
        assert(0 <= kk < u@.len() && u@[kk] == '/' && forall|j: int| kk < j < u@.len() ==> u@[j] != '/');
        let ghost c = choose|i: int| 0 <= i < u@.len() && u@[i] == '/' && forall|j: int| i < j < u@.len() ==> u@[j] != '/';
        assert(c == kk) by {
            if c < kk {
                assert(u@[kk] != '/');
            } else if c > kk {
                assert(u@[c] != '/');
            }
        }
        crate::text::slice_to_vec_range(u.as_slice(), k, u.len())
    }
}

/// Whether a slug belongs to a product on sale: the name of the first product whose URL's
/// last segment equals the slug (case-insensitive); none for a blank slug.
pub fn live_product_match(rows: &[(String, String)], slug: &str) -> (r: Option<String>)
    ensures
        slug_key(slug@).len() == 0 ==> r is None,
        slug_key(slug@).len() > 0 ==> match r {
            Some(name) => exists|i: int| #[trigger] is_first_live(rows@, slug_key(slug@), i) && name@ == rows@[i].0@,
            None => forall|i: int| !#[trigger] is_first_live(rows@, slug_key(slug@), i),
        },
{
    let t = trim_str(slug);
    let sl = slash();
    let a = strip_prefix_all_chars(t.as_slice(), sl.as_slice());
    let b = strip_suffix_all_chars(a.as_slice(), sl.as_slice());
    let s = lowercase_chars(b.as_slice());
    if s.len() == 0 {
        return None;
    }
    let mut i: usize = 0;
    while i < rows.len()
        invariant
            i <= rows@.len(),
            s@ == slug_key(slug@),
            s@.len() > 0,
            forall|j: int| 0 <= j < i ==> lowercase(last_segment(#[trigger] rows@[j].1@)) != s@,
        decreases rows@.len() - i,
    {
        let last = last_segment_exec(rows[i].1.as_str());
        let l = lowercase_chars(last.as_slice());
        if eq_chars(l.as_slice(), s.as_slice()) {
            assert(is_first_live(rows@, slug_key(slug@), i as int));
            return Some(rows[i].0.clone());
        }
        i = i + 1;
    }
    assert forall|t: int| !#[trigger] is_first_live(rows@, slug_key(slug@), t) by {
    }
    None
}

/// A text field of the store's product JSON, empty when missing or not a string.
pub open spec fn text_field(j: Option<Json>, key: Seq<char>) -> Seq<char> {
    match field_of(j, key) {
        Some(Json::Str(s)) => s@,
        _ => seq![],
    }
}

/// A whole-number field (what `serde_json::Value::as_i64` accepts).
pub open spec fn int_field(j: Option<Json>, key: Seq<char>) -> Option<int> {
    match field_of(j, key) {
        Some(Json::Num(t)) => crate::focus::i64_text(t@),
        _ => None,
    }
}

/// The product the store returns, read from its JSON: `id` (0 when missing), the texts, the
/// two halves of `detail`, and the SEO rule score.
pub open spec fn remote_from(r: RemoteProduct, t: Json) -> bool {
    &&& r.id == (match int_field(Some(t), "id"@) {
        Some(v) => v,
        None => 0,
    })
    &&& r.sku@ == text_field(Some(t), "sku"@)
    &&& r.name@ == text_field(Some(t), "name"@)
    &&& r.page_title@ == text_field(Some(t), "pageTitle"@)
    &&& r.meta_description@ == text_field(Some(t), "metaDescription"@)
    &&& r.meta_keywords@ == text_field(Some(t), "metaKeywords"@)
    &&& r.search_keywords@ == text_field(Some(t), "searchKeywords"@)
    &&& r.target_keyword@ == text_field(Some(t), "targetKeyword"@)
    &&& r.details@ == text_field(field(t, "detail"@), "details"@)
    &&& r.extra_details@ == text_field(field(t, "detail"@), "extraDetails"@)
    &&& match r.seo_rule_count {
        Some(v) => int_field(Some(t), "seoTotalRuleCount"@) == Some(v as int),
        None => int_field(Some(t), "seoTotalRuleCount"@) is None,
    }
}

fn text_at(j: Option<&Json>, key: &str) -> (r: String)
    ensures
        r@ == text_field(
            match j {
                Some(x) => Some(*x),
                None => None,
            },
            key@,
        ),
{
    let f = match j {
        Some(x) => get_field(x, key),
        None => None,
    };
    match f {
        Some(Json::Str(s)) => string_of(chars_of(s.as_str()).as_slice()),
        _ => String::new(),
    }
}

fn int_at(j: &Json, key: &str) -> (r: Option<i64>)
    ensures
        match r {
            Some(v) => int_field(Some(*j), key@) == Some(v as int),
            None => int_field(Some(*j), key@) is None,
        },
{
    match get_field(j, key) {
        Some(Json::Num(t)) => crate::focus::parse_i64(t.as_str()),
        _ => None,
    }
}

/// Reads the store's product response body.
pub fn remote_product(body: &str) -> (r: Result<RemoteProduct, String>)
    ensures
        match json_tree(body@) {
            Err(e) => r matches Err(m) && m@ == "IdeaSoft yanıtı okunamadı: "@ + e,
            Ok(t) => r matches Ok(p) && remote_from(p, t),
        },
{
    let t = match parse_json(body) {
        Ok(t) => t,
        Err(e) => {
            let mut m = chars_of("IdeaSoft yanıtı okunamadı: ");
            extend_str(&mut m, e.as_str());
            return Err(string_of(m.as_slice()));
        },
    };
    let d = get_field(&t, "detail");
    Ok(RemoteProduct {
        id: match int_at(&t, "id") {
            Some(v) => v,
            None => 0,
        },
        sku: text_at(Some(&t), "sku"),
        name: text_at(Some(&t), "name"),
        page_title: text_at(Some(&t), "pageTitle"),
        meta_description: text_at(Some(&t), "metaDescription"),
        meta_keywords: text_at(Some(&t), "metaKeywords"),
        search_keywords: text_at(Some(&t), "searchKeywords"),
        target_keyword: text_at(Some(&t), "targetKeyword"),
        details: text_at(d, "details"),
        extra_details: text_at(d, "extraDetails"),
        seo_rule_count: int_at(&t, "seoTotalRuleCount"),
    })
}

/// One search result row read from its JSON: its sku (empty when missing), id and SEO rule
/// score.
pub open spec fn hit_from(h: SearchHit, e: Json) -> bool {
    &&& h.sku@ == text_field(Some(e), "sku"@)
    &&& match h.id {
        Some(v) => int_field(Some(e), "id"@) == Some(v as int),
        None => int_field(Some(e), "id"@) is None,
    }
    &&& match h.seo_rule_count {
        Some(v) => int_field(Some(e), "seoTotalRuleCount"@) == Some(v as int),
        None => int_field(Some(e), "seoTotalRuleCount"@) is None,
    }
}

/// Reads the store's product search response body: a JSON array of products.
pub fn search_hits(body: &str) -> (r: Result<Vec<SearchHit>, String>)
    ensures
        match json_array(body@) {
            Err(e) => r matches Err(m) && m@ == "IdeaSoft yanıtı okunamadı: "@ + e,
            Ok(items) => r matches Ok(v) && v@.len() == items.len() && forall|i: int|
                0 <= i < items.len() ==> #[trigger] hit_from(v@[i], items[i]),
        },
{
    let items = match parse_json_array(body) {
        Ok(v) => v,
        Err(e) => {
            let mut m = chars_of("IdeaSoft yanıtı okunamadı: ");
            extend_str(&mut m, e.as_str());
            return Err(string_of(m.as_slice()));
        },
    };
    let mut out: Vec<SearchHit> = Vec::new();
    let mut i: usize = 0;
    while i < items.len()
        invariant
            i <= items@.len(),
            out@.len() == i,
            forall|k: int| 0 <= k < i ==> #[trigger] hit_from(out@[k], items@[k]),
        decreases items@.len() - i,
    {
        let e = &items[i];
        let h = SearchHit { sku: text_at(Some(e), "sku"), id: int_at(e, "id"), seo_rule_count: int_at(e, "seoTotalRuleCount") };
        out.push(h);
        i = i + 1;
    }
    Ok(out)
}

/// Store credentials are usable only when both domain and token are not blank.
pub open spec fn creds_missing(domain: Seq<char>, token: Seq<char>) -> bool {
    trim(domain).len() == 0 || trim(token).len() == 0
}

pub fn creds_missing_exec(domain: &str, token: &str) -> (r: bool)
    ensures
        r == creds_missing(domain@, token@),
{
    trim_str(domain).len() == 0 || trim_str(token).len() == 0
}

/// Pulling the keyword and technical table from the store needs a connection.
pub fn pull_ready(domain: &str, token: &str) -> (r: Result<(), String>)
    ensures
        r is Err <==> creds_missing(domain@, token@),
        r matches Err(e) ==> e@ == "IdeaSoft bağlantısı ayarlı değil."@,
{
    if creds_missing_exec(domain, token) {
        return Err(string_of(chars_of("IdeaSoft bağlantısı ayarlı değil.").as_slice()));
    }
    Ok(())
}

/// What became of the store's technical table in a pull: there was none, it was written into
/// the empty source field, or the field already held text and was kept (it may be pasted raw
/// data that cannot be recovered).
#[derive(Debug, Clone, Copy, PartialEq, Eq, Structural)]
pub enum TechPull {
    Absent,
    Written,
    Kept,
}

/// The technical table's fate from its text and the number of rows the guarded write changed.
pub fn tech_pull(tech_text_empty: bool, rows_written: usize) -> (r: TechPull)
    ensures
        r == (if tech_text_empty {
            TechPull::Absent
        } else if rows_written > 0 {
            TechPull::Written
        } else {
            TechPull::Kept
        }),
{
    if tech_text_empty {
        TechPull::Absent
    } else if rows_written > 0 {
        TechPull::Written
    } else {
        TechPull::Kept
    }
}

/// A pull brings the store's target keyword (trimmed); with neither a keyword nor a technical
/// table there is nothing to bring.
pub fn pull_keyword(remote_keyword: &str, tech_text_empty: bool) -> (r: Result<String, String>)
    ensures
        r is Err <==> trim(remote_keyword@).len() == 0 && tech_text_empty,
        r matches Ok(k) ==> k@ == trim(remote_keyword@),
        r matches Err(e) ==> e@ == "IdeaSoft'ta bu ürün için hedef kelime ve teknik tablo tanımlı değil."@,
{
    let k = trim_str(remote_keyword);
    if k.len() == 0 && tech_text_empty {
        return Err(string_of(chars_of("IdeaSoft'ta bu ürün için hedef kelime ve teknik tablo tanımlı değil.").as_slice()));
    }
    Ok(string_of(k.as_slice()))
}

/// The message of a pull: what was brought, what was kept, what the store lacks.
pub open spec fn pull_message_of(kw: Seq<char>, tech: TechPull) -> Seq<char> {
    if kw.len() > 0 {
        match tech {
            TechPull::Written => "Hedef kelime ve teknik tablo getirildi: \""@ + kw + "\""@,
            TechPull::Kept => "Hedef kelime getirildi: \""@ + kw
                + "\" · teknik tablo alanı zaten dolu olduğu için değiştirilmedi"@,
            TechPull::Absent => "Hedef kelime getirildi: \""@ + kw + "\" · IdeaSoft'ta teknik tablo yok"@,
        }
    } else {
        match tech {
            TechPull::Written => "Teknik tablo getirildi · IdeaSoft'ta hedef kelime tanımlı değil"@,
            TechPull::Kept => "Teknik tablo alanı zaten dolu · IdeaSoft'ta hedef kelime tanımlı değil"@,
            TechPull::Absent => "IdeaSoft'ta getirilecek bilgi bulunamadı"@,
        }
    }
}

pub fn pull_message(kw: &str, tech: TechPull) -> (r: String)
    ensures
        r@ == pull_message_of(kw@, tech),
{
    let mut m: Vec<char> = Vec::new();
    if kw.unicode_len() > 0 {
        match tech {
            TechPull::Written => {
                extend_str(&mut m, "Hedef kelime ve teknik tablo getirildi: \"");
                extend_str(&mut m, kw);
                extend_str(&mut m, "\"");
            },
            TechPull::Kept => {
                extend_str(&mut m, "Hedef kelime getirildi: \"");
                extend_str(&mut m, kw);
                extend_str(&mut m, "\" · teknik tablo alanı zaten dolu olduğu için değiştirilmedi");
            },
            TechPull::Absent => {
                extend_str(&mut m, "Hedef kelime getirildi: \"");
                extend_str(&mut m, kw);
                extend_str(&mut m, "\" · IdeaSoft'ta teknik tablo yok");
            },
        }
    } else {
        match tech {
            TechPull::Written => extend_str(&mut m, "Teknik tablo getirildi · IdeaSoft'ta hedef kelime tanımlı değil"),
            TechPull::Kept => extend_str(&mut m, "Teknik tablo alanı zaten dolu · IdeaSoft'ta hedef kelime tanımlı değil"),
            TechPull::Absent => extend_str(&mut m, "IdeaSoft'ta getirilecek bilgi bulunamadı"),
        }
    }
    string_of(m.as_slice())
}

/// A product's stored texts: drafts, feed values, the approved keyword.
#[derive(Debug, Clone)]
pub struct StoredContent {
    pub title: Option<String>,
    pub descriptions: Option<String>,
    pub keywords: Option<String>,
    pub search_keywords: Option<String>,
    pub details: Option<String>,
    pub draft_title: Option<String>,
    pub draft_descriptions: Option<String>,
    pub draft_keywords: Option<String>,
    pub draft_search_keywords: Option<String>,
    pub draft_details: Option<String>,
    pub target_keyword: Option<String>,
}

pub open spec fn first_of(a: Option<String>, b: Option<String>) -> Seq<char> {
    match a {
        Some(x) => x@,
        None => match b {
            Some(y) => y@,
            None => seq![],
        },
    }
}

/// What is sent to the store: each draft over its feed value; the meta keywords fall back
/// further to the generated search keywords so that they are never left empty when any exist.
pub open spec fn local_matches(l: LocalContent, c: StoredContent, tech_html: Seq<char>) -> bool {
    &&& l.page_title@ == first_of(c.draft_title, c.title)
    &&& l.meta_description@ == first_of(c.draft_descriptions, c.descriptions)
    &&& l.meta_keywords@ == match c.draft_keywords {
        Some(x) => x@,
        None => first_of(c.keywords, c.draft_search_keywords),
    }
    &&& l.search_keywords@ == first_of(c.draft_search_keywords, c.search_keywords)
    &&& l.target_keyword@ == first_of(c.target_keyword, None)
    &&& l.details_html@ == first_of(c.draft_details, c.details)
    &&& l.tech_html@ == tech_html
}

fn first_of_exec(a: &Option<String>, b: &Option<String>) -> (r: String)
    ensures
        r@ == first_of(*a, *b),
{
    match a {
        Some(x) => string_of(chars_of(x.as_str()).as_slice()),
        None => match b {
            Some(y) => string_of(chars_of(y.as_str()).as_slice()),
            None => String::new(),
        },
    }
}

/// The local content of a product for a store push (`tech_html` is the assembled table,
/// empty without one).
pub fn local_content(c: &StoredContent, tech_html: String) -> (r: LocalContent)
    ensures
        local_matches(r, *c, tech_html@),
{
    let meta_keywords = match &c.draft_keywords {
        Some(x) => string_of(chars_of(x.as_str()).as_slice()),
        None => first_of_exec(&c.keywords, &c.draft_search_keywords),
    };
    let none: Option<String> = None;
    LocalContent {
        page_title: first_of_exec(&c.draft_title, &c.title),
        meta_description: first_of_exec(&c.draft_descriptions, &c.descriptions),
        meta_keywords,
        search_keywords: first_of_exec(&c.draft_search_keywords, &c.search_keywords),
        target_keyword: first_of_exec(&c.target_keyword, &none),
        details_html: first_of_exec(&c.draft_details, &c.details),
        tech_html,
    }
}

/// Outcome of a catalogue sync.
#[derive(Debug, Clone)]
pub struct CatalogSyncResult {
    pub fetched: usize,
    pub synced_at: String,
    /// How many pages of the not-on-sale list were found in the catalogue.
    pub matched_eol: usize,
}

/// What a canonical write would do, shown before it is done.
#[derive(Debug, Clone)]
pub struct CanonicalPreview {
    pub product_id: i64,
    pub product_name: String,
    pub target_name: String,
    /// The canonical set now (empty when none).
    pub current: String,
    /// The value to write (`urun/<slug>`).
    pub proposed: String,
    /// No setting exists yet, so one would be created.
    pub will_create: bool,
}

/// The canonical value for a target slug.
pub open spec fn canonical_value(target_slug: Seq<char>) -> Seq<char> {
    "urun/"@ + slug_key(target_slug)
}

pub fn canonical_path(target_slug: &str) -> (r: String)
    ensures
        r@ == canonical_value(target_slug@),
{
    let t = trim_str(target_slug);
    let sl = slash();
    let a = strip_prefix_all_chars(t.as_slice(), sl.as_slice());
    let b = strip_suffix_all_chars(a.as_slice(), sl.as_slice());
    let low = lowercase_chars(b.as_slice());
    let mut out = chars_of("urun/");
    extend_chars(&mut out, low.as_slice());
    string_of(out.as_slice())
}

/// The preview of a canonical write, once the target is known to be on sale.
pub fn canonical_preview(
    product_id: i64,
    product_name: String,
    target_name: String,
    current: String,
    target_slug: &str,
    has_setting: bool,
) -> (r: CanonicalPreview)
    ensures
        r.product_id == product_id,
        r.product_name == product_name,
        r.target_name == target_name,
        r.current == current,
        r.proposed@ == canonical_value(target_slug@),
        r.will_create == !has_setting,
{
    CanonicalPreview {
        product_id,
        product_name,
        target_name,
        current,
        proposed: canonical_path(target_slug),
        will_create: !has_setting,
    }
}

pub open spec fn catalog_has(catalog: Seq<String>, s: Seq<char>) -> bool {
    exists|i: int| 0 <= i < catalog.len() && (#[trigger] catalog[i])@ == s
}

/// How many listed pages the catalogue holds, comparing lower-cased slugs.
pub open spec fn matched_count(eol: Seq<String>, catalog: Seq<String>, n: int) -> int
    decreases n,
{
    if n <= 0 {
        0
    } else {
        matched_count(eol, catalog, n - 1) + if catalog_has(catalog, lowercase(eol[n - 1]@)) {
            1int
        } else {
            0int
        }
    }
}

pub fn count_matched_eol(eol: &[String], catalog: &[String]) -> (r: usize)
    ensures
        r == matched_count(eol@, catalog@, eol@.len() as int),
{
    let mut c: usize = 0;
    let mut i: usize = 0;
    while i < eol.len()
        invariant
            i <= eol@.len(),
            c == matched_count(eol@, catalog@, i as int),
            c <= i,
        decreases eol@.len() - i,
    {
        let low = crate::text::to_lowercase(eol[i].as_str());
        let mut found = false;
        let mut j: usize = 0;
        while j < catalog.len()
            invariant
                j <= catalog@.len(),
                !found ==> forall|t: int| 0 <= t < j ==> catalog@[t]@ != low@,
                found ==> catalog_has(catalog@, low@),
            decreases catalog@.len() - j,
        {
            if str_eq(catalog[j].as_str(), low.as_str()) {
                found = true;
            }
            j = j + 1;
        }
        if found {
            c = c + 1;
        }
        i = i + 1;
    }
    c
}

/// An update body never carries a blank field (a blank local value never erases a filled
/// store value), and carries the detail object only with a non-blank half.
pub proof fn law_payload_never_blank(p: Payload, parts: Seq<String>, local: LocalContent)
    requires
        payload_matches(p, parts, local),
    ensures
        ov(p.page_title) matches Some(v) ==> trim(v).len() > 0,
        ov(p.meta_description) matches Some(v) ==> trim(v).len() > 0,
        ov(p.meta_keywords) matches Some(v) ==> trim(v).len() > 0,
        ov(p.search_keywords) matches Some(v) ==> trim(v).len() > 0,
        ov(p.target_keyword) matches Some(v) ==> trim(v).len() > 0,
        p.detail matches Some(d) ==> (ov(d.details) is Some || ov(d.extra_details) is Some),
        p.detail matches Some(d) ==> (ov(d.details) matches Some(v) ==> trim(v).len() > 0),
        p.detail matches Some(d) ==> (ov(d.extra_details) matches Some(v) ==> trim(v).len() > 0),
{
    lemma_trim_idempotent(local.page_title@);
    lemma_trim_idempotent(local.meta_description@);
    lemma_trim_idempotent(local.meta_keywords@);
    lemma_trim_idempotent(local.search_keywords@);
    lemma_trim_idempotent(local.target_keyword@);
}

proof fn lemma_trim_idempotent(s: Seq<char>)
    ensures
        trim(s).len() > 0 ==> trim(trim(s)).len() > 0,
{
    crate::text::lemma_trim_fixed(s);
}

/// Each field of an update body carries its own local field, trimmed: with `meta` selected,
/// a non-blank page title, meta description, meta keywords or search keywords is sent as
/// itself; the target keyword goes with `meta` or `keyword`; the description and the
/// technical table go as they are in the two halves of `detail`. Nothing unselected is sent.
pub proof fn law_fields_carry_their_own_values(p: Payload, parts: Seq<String>, local: LocalContent)
    requires
        payload_matches(p, parts, local),
    ensures
        has_part(parts, "meta"@) && trim(local.page_title@).len() > 0 ==> ov(p.page_title) == Some(trim(local.page_title@)),
        has_part(parts, "meta"@) && trim(local.meta_description@).len() > 0 ==> ov(p.meta_description) == Some(
            trim(local.meta_description@),
        ),
        has_part(parts, "meta"@) && trim(local.meta_keywords@).len() > 0 ==> ov(p.meta_keywords) == Some(
            trim(local.meta_keywords@),
        ),
        has_part(parts, "meta"@) && trim(local.search_keywords@).len() > 0 ==> ov(p.search_keywords) == Some(
            trim(local.search_keywords@),
        ),
        (has_part(parts, "meta"@) || has_part(parts, "keyword"@)) && trim(local.target_keyword@).len() > 0 ==> ov(
            p.target_keyword,
        ) == Some(trim(local.target_keyword@)),
        !has_part(parts, "meta"@) ==> p.page_title is None && p.meta_description is None && p.meta_keywords is None
            && p.search_keywords is None,
        !has_part(parts, "meta"@) && !has_part(parts, "keyword"@) ==> p.target_keyword is None,
        has_part(parts, "details"@) && trim(local.details_html@).len() > 0 ==> (p.detail matches Some(d) && ov(
            d.details,
        ) == Some(local.details_html@)),
        has_part(parts, "tech"@) && trim(local.tech_html@).len() > 0 ==> (p.detail matches Some(d) && ov(
            d.extra_details,
        ) == Some(local.tech_html@)),
        !has_part(parts, "details"@) && !has_part(parts, "tech"@) ==> p.detail is None,
{
}

} // verus!
