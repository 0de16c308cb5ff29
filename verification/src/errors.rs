//! The error taxonomy of the pipeline. Every error is terminal for a run;
//! none is retried, and each carries the data a caller needs to report a
//! human-readable cause.

use vstd::prelude::*;

verus! {

/// Why a pipeline run failed.
#[derive(Clone, Copy, Debug, PartialEq, Eq, Structural)]
pub enum LexiError {
    /// Mutually exclusive word-source options were supplied together.
    Config,
    /// Fewer than 256 unique candidate tokens were available; `found` is the
    /// actual number of unique candidates.
    Cardinality { found: usize },
    /// A token of an encoded sequence is absent from the word table;
    /// `position` is the first offending index.
    TokenNotInTable { position: usize },
    /// The round-trip self-check recovered a wrong byte; `position` is the
    /// first mismatching index. This indicates a defect in table
    /// construction, never bad input.
    VerifyMismatch { position: usize },
    /// The requested output dialect is not one of the known set.
    UnsupportedDialect,
}

} // verus!
