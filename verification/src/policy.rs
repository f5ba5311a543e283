//! The capacity policy: where a payload of a given length is kept.

use vstd::prelude::*;

verus! {

/// Where a container keeps its payload.
#[derive(Clone, Copy, Debug, PartialEq, Eq, Structural)]
pub enum Placement {
    /// Inside the value itself; nothing is allocated.
    Inline,
    /// In an allocation that the value owns.
    Heap,
}

/// The placement of a payload of `length` items under an inline capacity of
/// `inline_capacity` items: inline exactly when it fits, the boundary included.
pub open spec fn placement_for(length: nat, inline_capacity: nat) -> Placement {
    if length <= inline_capacity {
        Placement::Inline
    } else {
        Placement::Heap
    }
}

/// Decides where a payload of `length` items is kept.
pub fn decide(length: usize, inline_capacity: usize) -> (placement: Placement)
    ensures
        placement == placement_for(length as nat, inline_capacity as nat),
        placement is Inline <==> length <= inline_capacity,
        placement is Heap <==> length > inline_capacity,
{
    if length <= inline_capacity {
        Placement::Inline
    } else {
        Placement::Heap
    }
}

impl Placement {
    /// The placement of a container that is at `self` and has to hold `required` items:
    /// the heap is never left, and inline storage is left as soon as it is too small.
    pub open spec fn grown_to(self, required: nat, inline_capacity: nat) -> Placement {
        match self {
            Placement::Heap => Placement::Heap,
            Placement::Inline => placement_for(required, inline_capacity),
        }
    }

    /// The one transition of the representation: from `self` to the placement that
    /// holds `required` items.
    pub fn grow(self, required: usize, inline_capacity: usize) -> (next: Placement)
        ensures
            next == self.grown_to(required as nat, inline_capacity as nat),
            self is Heap ==> next is Heap,
    {
        match self {
            Placement::Heap => Placement::Heap,
            Placement::Inline => decide(required, inline_capacity),
        }
    }
}

/// An empty payload is always kept inline.
pub proof fn lemma_empty_is_inline(inline_capacity: nat)
    ensures
        placement_for(0, inline_capacity) == Placement::Inline,
{
}

} // verus!
