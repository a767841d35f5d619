//! Choosing a cover photo among the addresses a photo search returned.
use rand::Rng;
use vstd::prelude::*;

verus! {

/// Relies on rand's `thread_rng` and `Rng::gen_range`: a number drawn from
/// `0..n`. `gen_range` panics on an empty range, so `n` must be positive.
#[verifier::external_body]
fn random_below(n: usize) -> (r: usize)
    requires
        n > 0,
    ensures
        r < n,
{
    rand::thread_rng().gen_range(0..n)
}

/// The address at `index` among the search results, if there is one.
pub fn cover_at(urls: &Vec<String>, index: usize) -> (r: Option<String>)
    ensures
        index < urls@.len() ==> r == Some(urls@[index as int]),
        index >= urls@.len() ==> r is None,
{
    if index < urls.len() {
        Some(urls[index].clone())
    } else {
        None
    }
}

/// A cover photo drawn at random from the search results: none when there
/// are no results, otherwise one of the results as it was returned.
pub fn pick_cover(urls: &Vec<String>) -> (r: Option<String>)
    ensures
        r is None <==> urls@.len() == 0,
        r matches Some(u) ==> urls@.contains(u),
{
    if urls.len() == 0 {
        return None;
    }
    let i = random_below(urls.len());
    let r = cover_at(urls, i);
    proof {
        assert(urls@[i as int] == r->0);
    }
    r
}

} // verus!
