//! What can go wrong outside the tokenizer.

use vstd::prelude::*;

verus! {

/// A failure that the caller can recover from.
#[derive(Debug, Clone, PartialEq, Eq)]
pub enum Error {
    /// Something that came over the network could not be understood; the
    /// string says what.
    Network(String),
}

} // verus!
