//! Model chains as the settings screen edits them, and the request counts it shows.

use vstd::prelude::*;
use crate::text::{extend_chars, extend_str, join, string_of, views};

verus! {

/// The two chains (generation and chat) with their defaults, so that the screen can offer
/// "back to default".
#[derive(Debug, Clone)]
pub struct ModelChains {
    pub uretim: Vec<String>,
    pub sohbet: Vec<String>,
    pub uretim_varsayilan: Vec<String>,
    pub sohbet_varsayilan: Vec<String>,
}

/// Requests made today per model; quota failures (HTTP 429) counted apart. These are only
/// this application's requests: no remaining allowance is claimed.
#[derive(Debug, Clone)]
pub struct ModelKullanim {
    pub model: String,
    pub istek: i64,
    pub kota_hatasi: i64,
}

/// One day's totals for the history chart.
#[derive(Debug, Clone)]
pub struct GunlukKullanim {
    pub gun: String,
    pub istek: i64,
    pub kota_hatasi: i64,
}

/// A chain as stored: the model names one per line.
pub fn chain_setting(models: &[String]) -> (r: String)
    ensures
        r@ == join(models@.map_values(|m: String| m@), "\n"@),
{
    let mut out: Vec<char> = Vec::new();
    let mut i: usize = 0;
    proof {
        reveal_strlit("\n");
    }
    while i < models.len()
        invariant
            i <= models@.len(),
            out@ == join(models@.map_values(|m: String| m@).take(i as int), "\n"@),
            "\n"@ == seq!['\n'],
        decreases models@.len() - i,
    {
        let ghost mv = models@.map_values(|m: String| m@);
        assert(mv.take(i + 1).drop_last() == mv.take(i as int));
        assert(mv.take(i + 1).last() == models@[i as int]@);
        if i > 0 {
            out.push('\n');
        } else {
            assert(mv.take(1) =~= seq![models@[0]@]);
        }
        extend_str(&mut out, models[i].as_str());
        i = i + 1;
    }
    assert(models@.map_values(|m: String| m@).take(models@.len() as int) == models@.map_values(|m: String| m@));
    string_of(out.as_slice())
}

} // verus!
