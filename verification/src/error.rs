//! Why loading a codon usage table can fail.

use vstd::prelude::*;

verus! {

/// The ways in which loading a usage table fails. A codon that a table does
/// not hold is no failure: lookups answer it with an absent result.
#[derive(Debug, Clone, Copy, PartialEq, Eq, Structural)]
pub enum LoadError {
    /// The source file is missing or cannot be read.
    Io,
    /// The source is not JSON, or its JSON is not a usage document.
    Format,
}

} // verus!
