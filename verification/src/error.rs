use vstd::prelude::*;

verus! {

/// Failure of the packet codec.
#[derive(Clone, Copy, Debug, PartialEq, Eq, Structural)]
pub enum Error {
    /// The buffer handed to `decode` held fewer valid bytes than one
    /// whole header: expected byte count, then actual byte count.
    UnexpectedSize(usize, usize),
}

} // verus!
