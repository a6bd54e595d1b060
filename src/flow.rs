use vstd::prelude::*;

verus! {

/// The direction in which a stream reads: from the start of the file, or so
/// that it ends at the end of the file.
#[derive(Clone, Copy, Debug, PartialEq, Eq, Structural)]
pub enum StreamFlow {
    Forward,
    Backward,
}

} // verus!
