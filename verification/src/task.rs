use vstd::prelude::*;

verus! {

/// The identity of a task inside one executor.
///
/// The value `0` is reserved for the root future driven by `block_on`;
/// spawned tasks always get a non-zero identity.
#[derive(Debug, Clone, Copy, PartialEq, Eq, Hash, Structural)]
pub struct Id(pub u64);

impl Id {
    /// Makes the identity of a spawned task from a non-zero integer.
    pub fn new(integer: u64) -> (id: Id)
        requires
            integer != 0,
        ensures
            id.0 == integer,
    {
        Id(integer)
    }

    /// The identity reserved for the root future of `block_on`.
    pub fn root() -> (id: Id)
        ensures
            id.0 == 0,
    {
        Id(0)
    }

    /// The integer behind this identity.
    pub fn value(&self) -> (v: u64)
        ensures
            v == self.0,
    {
        self.0
    }
}

} // verus!
