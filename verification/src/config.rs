//! Word-source selection: exactly one of three mutually exclusive
//! strategies, chosen from the configuration flags. Conflicting flags are a
//! configuration error, never a silent precedence choice.

use vstd::prelude::*;
use crate::errors::LexiError;

verus! {

/// Which word source a run draws its candidate tokens from.
#[derive(Clone, Copy, Debug, PartialEq, Eq, Structural)]
pub enum SourceStrategy {
    /// Synthesize random candidate tokens.
    Random,
    /// Read candidate tokens from the override path, one per line.
    OverrideFile,
    /// Enumerate regular files of the override directory.
    OverrideDirectory,
    /// Enumerate regular files of the platform's default binaries directory.
    DefaultDirectory,
}

/// The strategy the flags select when they do not conflict.
pub open spec fn strategy_spec(
    random: bool,
    override_supplied: bool,
    override_is_dir: bool,
) -> SourceStrategy {
    if random {
        SourceStrategy::Random
    } else if override_supplied && override_is_dir {
        SourceStrategy::OverrideDirectory
    } else if override_supplied {
        SourceStrategy::OverrideFile
    } else {
        SourceStrategy::DefaultDirectory
    }
}

/// Selects the word source from the configuration: the random flag, whether
/// an override path was supplied, and whether that path is a directory.
/// Supplying the random flag together with an override path fails with a
/// configuration error before any payload or output work is done.
pub fn select_strategy(random: bool, override_supplied: bool, override_is_dir: bool) -> (r: Result<
    SourceStrategy,
    LexiError,
>)
    ensures
        r is Err <==> random && override_supplied,
        r matches Err(e) ==> e == LexiError::Config,
        r matches Ok(s) ==> s == strategy_spec(random, override_supplied, override_is_dir),
{
    if random && override_supplied {
        Err(LexiError::Config)
    } else if random {
        Ok(SourceStrategy::Random)
    } else if override_supplied {
        if override_is_dir {
            Ok(SourceStrategy::OverrideDirectory)
        } else {
            Ok(SourceStrategy::OverrideFile)
        }
    } else {
        Ok(SourceStrategy::DefaultDirectory)
    }
}

} // verus!
