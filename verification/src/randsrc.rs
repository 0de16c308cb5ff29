//! The source of randomness of the pipeline: drawing random lowercase
//! letters for synthetic tokens, and shuffling a candidate pool in place.
//! Both calls go to the `rand` crate; nothing more is promised of them than
//! holds of every outcome.

use vstd::prelude::*;
use rand::seq::SliceRandom;
use rand::Rng;

verus! {

/// Relies on `rand::Rng::gen_range` over the inclusive range `b'a'..=b'z'`:
/// the sample lies within the range. The range is non-empty, so the call
/// does not panic.
#[verifier::external_body]
pub fn random_lowercase_char() -> (c: char)
    ensures
        'a' <= c && c <= 'z',
{
    rand::thread_rng().gen_range(b'a'..=b'z') as char
}

/// Relies on `rand::seq::SliceRandom::shuffle`: a Fisher-Yates pass that
/// permutes the slice in place by swaps, so the new contents are exactly the
/// old contents in some order. Which order comes out is left open.
#[verifier::external_body]
pub fn shuffle_words(v: &mut Vec<String>)
    ensures
        final(v)@.len() == old(v)@.len(),
        final(v)@.to_multiset() == old(v)@.to_multiset(),
{
    v.shuffle(&mut rand::thread_rng());
}

} // verus!
