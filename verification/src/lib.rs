//! Small-buffer-optimised containers.
//!
//! A [`small_string::SmallString`] keeps short text inside the value itself, borrows text
//! that lives for the whole program, and owns an allocation only for long text. A
//! [`small_vector::SmallVector`] keeps up to `N` elements inside the value and moves to an
//! allocation, for good, once it has to hold more. Both take the decision from
//! [`policy::decide`].

pub mod byte_order;
pub mod policy;
pub mod small_string;
pub mod small_vector;
pub mod vector_state;
