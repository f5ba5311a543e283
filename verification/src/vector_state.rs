//! What a small vector is to its contracts, and what holds of every course of changes
//! to one.

use vstd::prelude::*;
use crate::policy::{placement_for, Placement};

verus! {

/// What a small vector is to its contracts: its elements, in order, and where they are
/// kept.
pub struct State<T> {
    pub items: Seq<T>,
    pub placement: Placement,
}

/// One change to a small vector.
pub enum Step<T> {
    /// Append one element.
    Push(T),
    /// Append several elements at once.
    Extend(Seq<T>),
    /// Remove the last element, if there is one.
    Pop,
    /// Remove every element.
    Clear,
}

impl<T> State<T> {
    /// Whether the state is one that a vector with an inline capacity of `cap` can be in:
    /// what is inline fits.
    pub open spec fn wf(self, cap: nat) -> bool {
        self.placement is Inline ==> self.items.len() <= cap
    }

    /// The state of a new vector.
    pub open spec fn empty() -> Self {
        State { items: Seq::empty(), placement: Placement::Inline }
    }

    /// The state after `item` was appended, under an inline capacity of `cap`.
    pub open spec fn push(self, item: T, cap: nat) -> Self {
        State {
            items: self.items.push(item),
            placement: self.placement.grown_to(self.items.len() + 1, cap),
        }
    }

    /// The state after `more` was appended in one go.
    pub open spec fn extend(self, more: Seq<T>, cap: nat) -> Self {
        State {
            items: self.items + more,
            placement: self.placement.grown_to(self.items.len() + more.len(), cap),
        }
    }

    /// The state after the last element, if any, was removed.
    pub open spec fn pop(self) -> Self {
        State {
            items: if self.items.len() > 0 {
                self.items.drop_last()
            } else {
                self.items
            },
            placement: self.placement,
        }
    }

    /// The state after every element was removed.
    pub open spec fn clear(self) -> Self {
        State { items: Seq::empty(), placement: self.placement }
    }

    /// The state after `step`.
    pub open spec fn apply(self, step: Step<T>, cap: nat) -> Self {
        match step {
            Step::Push(item) => self.push(item, cap),
            Step::Extend(more) => self.extend(more, cap),
            Step::Pop => self.pop(),
            Step::Clear => self.clear(),
        }
    }

    /// The state after each of `steps` in turn.
    pub open spec fn run(self, steps: Seq<Step<T>>, cap: nat) -> Self
        decreases steps.len(),
    {
        if steps.len() == 0 {
            self
        } else {
            self.run(steps.drop_last(), cap).apply(steps.last(), cap)
        }
    }

    /// The state after each of `more` was appended on its own, one after the other.
    pub open spec fn push_all(self, more: Seq<T>, cap: nat) -> Self
        decreases more.len(),
    {
        if more.len() == 0 {
            self
        } else {
            self.push_all(more.drop_last(), cap).push(more.last(), cap)
        }
    }
}

/// Appending elements one by one and appending them in one go lead to the same state.
pub proof fn lemma_push_all_is_extend<T>(state: State<T>, more: Seq<T>, cap: nat)
    requires
        state.wf(cap),
    ensures
        state.push_all(more, cap) == state.extend(more, cap),
        state.push_all(more, cap).wf(cap),
    decreases more.len(),
{
    if more.len() == 0 {
        assert(state.items + more =~= state.items);
    } else {
        lemma_push_all_is_extend(state, more.drop_last(), cap);
        assert((state.items + more.drop_last()).push(more.last()) =~= state.items + more);
    }
}

/// After any number of pushes onto an empty vector, the elements are the pushed ones in
/// the order of the pushes, and they are inline exactly when there are at most `cap`.
pub proof fn lemma_pushes_from_empty<T>(pushed: Seq<T>, cap: nat)
    ensures
        State::<T>::empty().push_all(pushed, cap).items == pushed,
        State::<T>::empty().push_all(pushed, cap).items.len() == pushed.len(),
        State::<T>::empty().push_all(pushed, cap).placement == placement_for(pushed.len(), cap),
        State::<T>::empty().push_all(pushed, cap).placement is Inline <==> pushed.len() <= cap,
{
    lemma_push_all_is_extend(State::<T>::empty(), pushed, cap);
    assert(Seq::<T>::empty() + pushed =~= pushed);
}

/// The heap is never left: whatever is done to a vector that is on the heap, it stays
/// there, also when it is emptied and filled again with less than its inline capacity.
pub proof fn lemma_heap_is_kept<T>(state: State<T>, steps: Seq<Step<T>>, cap: nat)
    requires
        state.placement is Heap,
    ensures
        state.run(steps, cap).placement is Heap,
    decreases steps.len(),
{
    if steps.len() > 0 {
        lemma_heap_is_kept(state, steps.drop_last(), cap);
    }
}

} // verus!
