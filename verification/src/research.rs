//! Keyword research set-up: which sources are usable, the seed keyword and the product's
//! domain.

use vstd::prelude::*;
use crate::text::{chars_of, join, join_words, string_of, strip_prefix_all, strip_prefix_all_chars, trim, trim_str, views};

verus! {

/// Research needs the scraping key or a Search Console connection (account and property).
pub open spec fn research_sources(capsolver: Seq<char>, gsc_json: Seq<char>, gsc_site: Seq<char>) -> Result<(bool, bool), Seq<char>> {
    let has_capsolver = trim(capsolver).len() > 0;
    let has_gsc = trim(gsc_json).len() > 0 && trim(gsc_site).len() > 0;
    if !has_capsolver && !has_gsc {
        Err("Araştırma için Ayarlar'dan CapSolver anahtarı ve/veya GSC service-account + mülk ekleyin."@)
    } else {
        Ok((has_capsolver, has_gsc))
    }
}

pub fn sources_of(capsolver: &str, gsc_json: &str, gsc_site: &str) -> (r: Result<(bool, bool), String>)
    ensures
        match r {
            Ok(p) => research_sources(capsolver@, gsc_json@, gsc_site@) == Ok::<(bool, bool), Seq<char>>(p),
            Err(e) => research_sources(capsolver@, gsc_json@, gsc_site@) == Err::<(bool, bool), Seq<char>>(e@),
        },
{
    let has_capsolver = trim_str(capsolver).len() > 0;
    let has_gsc = trim_str(gsc_json).len() > 0 && trim_str(gsc_site).len() > 0;
    if !has_capsolver && !has_gsc {
        return Err(string_of(chars_of("Araştırma için Ayarlar'dan CapSolver anahtarı ve/veya GSC service-account + mülk ekleyin.").as_slice()));
    }
    Ok((has_capsolver, has_gsc))
}

/// The seed keyword: the one given, else the approved keyword, else the category, else the
/// first four words of the product name (each trimmed, blanks skipped).
pub open spec fn seed_of(seed: Option<Seq<char>>, target: Seq<char>, category: Option<Seq<char>>, name: Seq<char>) -> Seq<char> {
    if seed is Some && trim(seed->0).len() > 0 {
        trim(seed->0)
    } else if trim(target).len() > 0 {
        trim(target)
    } else if category is Some && trim(category->0).len() > 0 {
        trim(category->0)
    } else {
        crate::opportunities::first_words_spec(name, 4)
    }
}

pub fn choose_seed(seed: Option<&str>, target: &str, category: Option<&str>, name: &str) -> (r: String)
    ensures
        r@ == seed_of(
            match seed {
                Some(s) => Some(s@),
                None => None,
            },
            target@,
            match category {
                Some(c) => Some(c@),
                None => None,
            },
            name@,
        ),
{
    if let Some(s) = seed {
        let t = trim_str(s);
        if t.len() > 0 {
            return string_of(t.as_slice());
        }
    }
    let t = trim_str(target);
    if t.len() > 0 {
        return string_of(t.as_slice());
    }
    if let Some(c) = category {
        let t = trim_str(c);
        if t.len() > 0 {
            return string_of(t.as_slice());
        }
    }
    crate::opportunities::first_words(name, 4)
}

/// The host of a URL as the `url` crate parses it (`Url::parse`, then `host_str`); none when
/// the text is not an absolute URL or has no host. A function of the text alone.
pub uninterp spec fn url_host(url: Seq<char>) -> Option<Seq<char>>;

/// Calls `url::Url::parse` (re-exported by reqwest as `reqwest::Url`) and `Url::host_str`.
#[verifier::external_body]
fn parse_host(url: &str) -> (r: Option<String>)
    ensures
        match r {
            Some(h) => url_host(url@) == Some(h@),
            None => url_host(url@) is None,
        },
{
    reqwest::Url::parse(url).ok().and_then(|u| u.host_str().map(|h| h.to_string()))
}

/// The site of a product URL without leading `www.` prefixes.
pub fn host_of(url: &str) -> (r: Option<String>)
    ensures
        match url_host(url@) {
            Some(h) => r matches Some(x) && x@ == strip_prefix_all(h, "www."@),
            None => r is None,
        },
{
    match parse_host(url) {
        Some(h) => {
            let v = chars_of(h.as_str());
            let w = chars_of("www.");
            Some(string_of(strip_prefix_all_chars(v.as_slice(), w.as_slice()).as_slice()))
        },
        None => None,
    }
}

/// When no source returned anything: the collected notes joined, or a general message.
pub fn research_failure(notes: &Vec<Vec<char>>) -> (r: String)
    ensures
        join(views(notes@), " "@).len() > 0 ==> r@ == join(views(notes@), " "@),
        join(views(notes@), " "@).len() == 0 ==> r@ == "Araştırma verisi alınamadı."@,
{
    let space: [char; 1] = [' '];
    assert(space@ == " "@) by {
        reveal_strlit(" ");
    }
    let d = join_words(notes, &space);
    if d.len() == 0 {
        string_of(chars_of("Araştırma verisi alınamadı.").as_slice())
    } else {
        string_of(d.as_slice())
    }
}

/// Idea `a` comes before idea `b`: a larger search volume first, and among equal volumes the
/// earlier one first.
pub open spec fn ranked_before(vols: Seq<u64>, a: int, b: int) -> bool {
    vols[a] > vols[b] || (vols[a] == vols[b] && a < b)
}

/// The keyword ideas ordered by search volume, largest first, keeping the given order among
/// equal volumes: the positions of the ideas, each once, in that order.
pub fn order_by_volume(vols: &[u64]) -> (r: Vec<usize>)
    ensures
        r@.len() == vols@.len(),
        forall|k: int| 0 <= k < r@.len() ==> (#[trigger] r@[k]) < vols@.len(),
        forall|a: int, b: int| 0 <= a < b < r@.len() ==> #[trigger] ranked_before(vols@, r@[a] as int, r@[b] as int),
{
    let mut out: Vec<usize> = Vec::new();
    let mut i: usize = 0;
    while i < vols.len()
        invariant
            i <= vols@.len(),
            out@.len() == i,
            forall|k: int| 0 <= k < out@.len() ==> (#[trigger] out@[k]) < i,
            forall|a: int, b: int| 0 <= a < b < out@.len() ==> #[trigger] ranked_before(vols@, out@[a] as int, out@[b] as int),
        decreases vols@.len() - i,
    {
        let v = vols[i];
        let mut p: usize = 0;
        while p < out.len() && vols[out[p]] >= v
            invariant
                p <= out@.len(),
                out@.len() == i,
                i < vols@.len(),
                v == vols@[i as int],
                forall|k: int| 0 <= k < out@.len() ==> (#[trigger] out@[k]) < i,
                forall|k: int| 0 <= k < p ==> vols@[#[trigger] out@[k] as int] >= v,
            decreases out@.len() - p,
        {
            p = p + 1;
        }
        let ghost before = out@;
        proof {
            if p < before.len() {
                assert(vols@[before[p as int] as int] < v);
            }
        }
        out.insert(p, i);
        assert forall|a: int, b: int| 0 <= a < b < out@.len() implies #[trigger] ranked_before(vols@, out@[a] as int, out@[b] as int) by {
            if b < p {
                assert(out@[a] == before[a] && out@[b] == before[b]);
            } else if b == p {
                assert(out@[a] == before[a]);
                assert(vols@[before[a] as int] >= v);
            } else if a == p {
                assert(out@[b] == before[b - 1]);
                if b - 1 == p {
                    assert(vols@[before[p as int] as int] < v);
                } else {
                    assert(ranked_before(vols@, before[p as int] as int, before[b - 1] as int));
                    assert(vols@[before[p as int] as int] < v);
                }
            } else if a < p {
                assert(out@[a] == before[a] && out@[b] == before[b - 1]);
                if a < b - 1 {
                    assert(ranked_before(vols@, before[a] as int, before[b - 1] as int));
                }
            } else {
                assert(out@[a] == before[a - 1] && out@[b] == before[b - 1]);
                assert(ranked_before(vols@, before[a - 1] as int, before[b - 1] as int));
            }
        }
        assert forall|k: int| 0 <= k < out@.len() implies (#[trigger] out@[k]) < i + 1 by {
            if k < p {
                assert(out@[k] == before[k]);
            } else if k > p {
                assert(out@[k] == before[k - 1]);
            }
        }
        i = i + 1;
    }
    out
}

} // verus!
