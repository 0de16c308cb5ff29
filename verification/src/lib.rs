//! Turns a binary payload into a sequence of word tokens drawn from a
//! 256-entry word table (a bijective byte-to-token substitution), and renders
//! the token sequence together with the table as source text for one of a
//! small set of output dialects. The generated text embeds both the table and
//! the token sequence so that a decoder can recover the payload byte-for-byte.

use vstd::prelude::*;

pub mod chunk;
pub mod codec;
pub mod config;
pub mod errors;
pub mod pipeline;
pub mod randsrc;
pub mod render;
pub mod text;
pub mod words;

verus! {

/// The character sequences of a vector of tokens, position by position.
pub open spec fn views_of(ts: Seq<String>) -> Seq<Seq<char>> {
    ts.map_values(|t: String| t@)
}

/// Distinct token contents: no two positions hold the same character sequence.
pub open spec fn tokens_distinct(ts: Seq<Seq<char>>) -> bool {
    forall|i: int, j: int|
        0 <= i < ts.len() && 0 <= j < ts.len() && i != j ==> ts[i] != ts[j]
}

/// A well-formed word table: exactly 256 entries, pairwise distinct, so that
/// position `b` is the unique token standing for byte value `b`.
pub open spec fn table_wf(ts: Seq<Seq<char>>) -> bool {
    ts.len() == 256 && tokens_distinct(ts)
}

} // verus!
