//! Errors of positional access.
use vstd::prelude::*;

verus! {

/// A failed positional access, carrying the textual form of the object that
/// was indexed and the position that was asked for.
#[derive(Clone, Debug, PartialEq, Eq)]
pub enum Error {
    /// A block has no argument at the position.
    BlockArgumentPosition(String, usize),
    /// An operation has no result at the position.
    OperationResultPosition(String, usize),
}

} // verus!
