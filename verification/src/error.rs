//! What can end a run inside the library.

use vstd::prelude::*;

verus! {

/// Why a run cannot go on.
#[derive(Clone, Copy, Debug, PartialEq, Eq, Structural)]
pub enum ExtractError {
    /// No schema is registered for the requested event code.
    UnknownEventKind,
    /// The tabular output could not be written in full.
    Io,
}

} // verus!
