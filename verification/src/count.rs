//! Resource counts of the cost model.

use vstd::prelude::*;

verus! {

/// The resources that an operation consumes in the constraint system: how
/// many constants, public variables and private variables it allocates, and
/// how many constraints it adds.
#[derive(Clone, Copy, Debug, PartialEq, Eq, Structural)]
pub struct Count {
    pub num_constants: u64,
    pub num_public: u64,
    pub num_private: u64,
    pub num_constraints: u64,
}

impl Count {
    /// The count of an operation that consumes nothing.
    pub fn zero() -> (r: Count)
        ensures
            r == (Count { num_constants: 0, num_public: 0, num_private: 0, num_constraints: 0 }),
    {
        Count { num_constants: 0, num_public: 0, num_private: 0, num_constraints: 0 }
    }

    /// The count of an operation that consumes exactly the given resources.
    pub fn is(num_constants: u64, num_public: u64, num_private: u64, num_constraints: u64) -> (r:
        Count)
        ensures
            r == (Count { num_constants, num_public, num_private, num_constraints }),
    {
        Count { num_constants, num_public, num_private, num_constraints }
    }

    /// Whether measured tallies are exactly the predicted ones.
    pub fn matches(
        &self,
        num_constants: u64,
        num_public: u64,
        num_private: u64,
        num_constraints: u64,
    ) -> (r: bool)
        ensures
            r == (*self == (Count { num_constants, num_public, num_private, num_constraints })),
    {
        self.num_constants == num_constants && self.num_public == num_public && self.num_private
            == num_private && self.num_constraints == num_constraints
    }
}

} // verus!
