//! Matching the catalogue against Search Console pages: which products Google shows at all,
//! and the URL normalisation that makes the match tolerant of harmless differences.

use vstd::prelude::*;
use crate::gemini::string_views;
use crate::text::{
    chars_of, join, join_words, lowercase, lowercase_chars, split_words, string_of, trim, trim_str,
    views, words,
};

verus! {

/// A product that has no row in Search Console at all (an indexing or visibility problem,
/// which new meta texts do not solve).
#[derive(Debug, Clone)]
pub struct InvisibleProduct {
    pub sku: String,
    pub name: String,
    pub url: String,
}

pub open spec fn strip_slashes(s: Seq<char>) -> Seq<char>
    decreases s.len(),
{
    if s.len() > 0 && s.last() == '/' {
        strip_slashes(s.drop_last())
    } else {
        s
    }
}

/// A URL as compared: trimmed, without trailing slashes, lower-cased.
pub open spec fn normalized_url(u: Seq<char>) -> Seq<char> {
    lowercase(strip_slashes(trim(u)))
}

pub fn norm_url(u: &str) -> (r: String)
    ensures
        r@ == normalized_url(u@),
{
    let t = trim_str(u);
    let mut j: usize = t.len();
    assert(t@.take(j as int) == t@);
    while j > 0 && t[j - 1] == '/'
        invariant
            j <= t@.len(),
            strip_slashes(t@) == strip_slashes(t@.take(j as int)),
        decreases j,
    {
        assert(t@.take(j as int).drop_last() == t@.take(j - 1));
        j = j - 1;
    }
    if j > 0 {
        assert(t@.take(j as int).last() == t@[j - 1]);
    }
    let s = crate::text::slice_to_vec_range(t.as_slice(), 0, j);
    string_of(lowercase_chars(s.as_slice()).as_slice())
}

/// The first `n` words of a name joined by spaces: the seed keyword of the research.
pub open spec fn first_words_spec(name: Seq<char>, n: nat) -> Seq<char> {
    join(words(name).take(if n <= words(name).len() { n as int } else { words(name).len() as int }), " "@)
}

pub fn first_words(name: &str, n: usize) -> (r: String)
    ensures
        r@ == first_words_spec(name@, n as nat),
{
    let v = chars_of(name);
    let ws = split_words(v.as_slice());
    let k = if n <= ws.len() { n } else { ws.len() };
    let mut take: Vec<Vec<char>> = Vec::new();
    let mut i: usize = 0;
    while i < k
        invariant
            i <= k <= ws@.len(),
            views(take@) == views(ws@).take(i as int),
        decreases k - i,
    {
        let ghost before = take@;
        take.push(chars_of(string_of(ws[i].as_slice()).as_str()));
        assert(views(before).len() == before.len());
        assert(views(take@).len() == take@.len());
        assert forall|t: int| 0 <= t < i + 1 implies #[trigger] views(take@)[t] == views(ws@).take(i + 1)[t] by {
            if t < i {
                assert(take@[t] == before[t]);
            }
        }
        assert(views(take@) =~= views(ws@).take(i + 1));
        i = i + 1;
    }
    let space: [char; 1] = [' '];
    assert(space@ == " "@) by {
        reveal_strlit(" ");
    }
    string_of(join_words(&take, &space).as_slice())
}

pub open spec fn url_views(pages: Seq<String>) -> Seq<Seq<char>> {
    pages.map_values(|p: String| normalized_url(p@))
}

/// A product is visible when its normalised URL is among the normalised page URLs.
pub open spec fn visible(url: Seq<char>, pages: Seq<String>) -> bool {
    url_views(pages).contains(normalized_url(url))
}

pub open spec fn product_views(ps: Seq<(String, String, String)>) -> Seq<(Seq<char>, Seq<char>, Seq<char>)> {
    ps.map_values(|p: (String, String, String)| (p.0@, p.1@, p.2@))
}

pub open spec fn invisible_view(v: Seq<InvisibleProduct>) -> Seq<(Seq<char>, Seq<char>, Seq<char>)> {
    v.map_values(|p: InvisibleProduct| (p.sku@, p.name@, p.url@))
}

pub open spec fn unseen_by(pages: Seq<String>) -> spec_fn((Seq<char>, Seq<char>, Seq<char>)) -> bool {
    |p: (Seq<char>, Seq<char>, Seq<char>)| !visible(p.2, pages)
}

/// The products with no page row, in catalogue order.
pub open spec fn invisible_of(ps: Seq<(Seq<char>, Seq<char>, Seq<char>)>, pages: Seq<String>) -> Seq<(Seq<char>, Seq<char>, Seq<char>)> {
    ps.filter(unseen_by(pages))
}

/// The positions of the products that have a page row, in catalogue order.
pub open spec fn matched_of(ps: Seq<(Seq<char>, Seq<char>, Seq<char>)>, pages: Seq<String>, n: int) -> Seq<int>
    decreases n,
{
    if n <= 0 {
        seq![]
    } else if visible(ps[n - 1].2, pages) {
        matched_of(ps, pages, n - 1).push(n - 1)
    } else {
        matched_of(ps, pages, n - 1)
    }
}

fn contains_string(v: &Vec<String>, s: &str) -> (r: bool)
    ensures
        r == string_views(v@).contains(s@),
{
    let mut i: usize = 0;
    while i < v.len()
        invariant
            i <= v@.len(),
            forall|k: int| 0 <= k < i ==> v@[k]@ != s@,
        decreases v@.len() - i,
    {
        if crate::text::str_eq(v[i].as_str(), s) {
            assert(string_views(v@)[i as int] == s@);
            return true;
        }
        i = i + 1;
    }
    proof {
        let mv = string_views(v@);
        if mv.contains(s@) {
            let k = choose|k: int| 0 <= k < mv.len() && #[trigger] mv[k] == s@;
            assert(v@[k]@ == s@);
        }
    }
    false
}

/// Splits the catalogue into products with a Search Console page (their positions) and
/// products without one.
pub fn split_by_visibility(products: &[(String, String, String)], pages: &[String]) -> (r: (Vec<usize>, Vec<InvisibleProduct>))
    ensures
        r.0@.map_values(|i: usize| i as int) == matched_of(product_views(products@), pages@, products@.len() as int),
        invisible_view(r.1@) == invisible_of(product_views(products@), pages@),
{
    let mut normal: Vec<String> = Vec::new();
    let mut k: usize = 0;
    while k < pages.len()
        invariant
            k <= pages@.len(),
            string_views(normal@) == url_views(pages@).take(k as int),
        decreases pages@.len() - k,
    {
        let ghost before = normal@;
        normal.push(norm_url(pages[k].as_str()));
        assert(string_views(before).len() == before.len());
        assert(string_views(normal@).len() == normal@.len());
        assert forall|t: int| 0 <= t < k + 1 implies #[trigger] string_views(normal@)[t]
            == url_views(pages@).take(k + 1)[t] by {
            if t < k {
                assert(normal@[t] == before[t]);
            }
        }
        assert(string_views(normal@) =~= url_views(pages@).take(k + 1));
        k = k + 1;
    }
    assert(url_views(pages@).take(pages@.len() as int) == url_views(pages@));
    let ghost pv = product_views(products@);
    let mut matched: Vec<usize> = Vec::new();
    let mut invisible: Vec<InvisibleProduct> = Vec::new();
    let mut i: usize = 0;
    while i < products.len()
        invariant
            i <= products@.len(),
            pv == product_views(products@),
            string_views(normal@) == url_views(pages@),
            matched@.map_values(|i: usize| i as int) == matched_of(pv, pages@, i as int),
            invisible_view(invisible@) == pv.take(i as int).filter(unseen_by(pages@)),
        decreases products@.len() - i,
    {
        let (sku, name, url) = &products[i];
        let nu = norm_url(url.as_str());
        let ghost m0 = matched@;
        let ghost inv0 = invisible@;
        assert(pv.take(i + 1) == pv.take(i as int).push(pv[i as int]));
        proof {
            pv.take(i as int).lemma_filter_push(pv[i as int], unseen_by(pages@));
        }
        assert(pv[i as int].2 == url@);
        if contains_string(&normal, nu.as_str()) {
            matched.push(i);
            assert(m0.map_values(|i: usize| i as int).len() == m0.len());
            assert(matched@.map_values(|i: usize| i as int) =~= m0.map_values(|i: usize| i as int).push(i as int));
        } else {
            let p = InvisibleProduct {
                sku: string_of(chars_of(sku.as_str()).as_slice()),
                name: string_of(chars_of(name.as_str()).as_slice()),
                url: string_of(chars_of(url.as_str()).as_slice()),
            };
            invisible.push(p);
            assert(invisible_view(inv0).len() == inv0.len());
            assert(invisible_view(invisible@) =~= invisible_view(inv0).push((sku@, name@, url@)));
        }
        i = i + 1;
    }
    assert(pv.take(products@.len() as int) == pv);
    (matched, invisible)
}

/// Every product is either matched to a page or listed as invisible, never both.
pub proof fn law_visibility_partitions(ps: Seq<(Seq<char>, Seq<char>, Seq<char>)>, pages: Seq<String>)
    ensures
        matched_of(ps, pages, ps.len() as int).len() + invisible_of(ps, pages).len() == ps.len(),
{
    lemma_partition_counts(ps, pages, ps.len() as int);
    assert(ps.take(ps.len() as int) == ps);
}

proof fn lemma_partition_counts(ps: Seq<(Seq<char>, Seq<char>, Seq<char>)>, pages: Seq<String>, n: int)
    requires
        0 <= n <= ps.len(),
    ensures
        matched_of(ps, pages, n).len() + ps.take(n).filter(unseen_by(pages)).len() == n,
    decreases n,
{
    let f = unseen_by(pages);
    if n == 0 {
        assert(ps.take(0) =~= Seq::<(Seq<char>, Seq<char>, Seq<char>)>::empty());
        assert(ps.take(0).filter(f) =~= Seq::<(Seq<char>, Seq<char>, Seq<char>)>::empty());
    } else {
        lemma_partition_counts(ps, pages, n - 1);
        assert(ps.take(n).drop_last() == ps.take(n - 1));
        ps.take(n - 1).lemma_filter_push(ps[n - 1], f);
        assert(ps.take(n) == ps.take(n - 1).push(ps[n - 1]));
    }
}

/// The analysis needs a Search Console connection and a synchronised catalogue.
pub open spec fn analysis_precheck(gsc_json: Seq<char>, gsc_site: Seq<char>, products: nat) -> Option<Seq<char>> {
    if trim(gsc_json).len() == 0 || trim(gsc_site).len() == 0 {
        Some("Google Search Console bağlantısı kurulmamış. Ayarlar'dan service-account dosyasını yükleyip mülk adresini girin."@)
    } else if products == 0 {
        Some("Önce ürünleri senkronize edin."@)
    } else {
        None
    }
}

pub fn analysis_check(gsc_json: &str, gsc_site: &str, products: usize) -> (r: Result<(), String>)
    ensures
        match r {
            Ok(_) => analysis_precheck(gsc_json@, gsc_site@, products as nat) is None,
            Err(e) => analysis_precheck(gsc_json@, gsc_site@, products as nat) == Some(e@),
        },
{
    if trim_str(gsc_json).len() == 0 || trim_str(gsc_site).len() == 0 {
        return Err(string_of(chars_of("Google Search Console bağlantısı kurulmamış. Ayarlar'dan service-account dosyasını yükleyip mülk adresini girin.").as_slice()));
    }
    if products == 0 {
        return Err(string_of(chars_of("Önce ürünleri senkronize edin.").as_slice()));
    }
    Ok(())
}

} // verus!
