//! A growable sequence that keeps up to `N` elements inside the value.

use vstd::prelude::*;
use vstd::slice::slice_subrange;
use vstd::std_specs::iter::IteratorSpec;
use crate::policy::{placement_for, Placement};
use crate::vector_state::{lemma_pushes_from_empty, State};

verus! {

/// The two representations of a small vector.
#[derive(Debug)]
enum Storage<T, const N: usize> {
    /// The first `len` slots of `buf` are the elements; the rest is filler.
    Inline { buf: [T; N], len: usize },
    /// The elements, in an allocation of their own.
    Heap(Vec<T>),
}

impl<T: Copy, const N: usize> Storage<T, N> {
    spec fn wf(&self) -> bool {
        match *self {
            Storage::Inline { buf, len } => len <= N,
            Storage::Heap(items) => true,
        }
    }

    spec fn items(&self) -> Seq<T> {
        match *self {
            Storage::Inline { buf, len } => buf@.subrange(0, len as int),
            Storage::Heap(items) => items@,
        }
    }

    spec fn placement(&self) -> Placement {
        match *self {
            Storage::Inline { .. } => Placement::Inline,
            Storage::Heap(_) => Placement::Heap,
        }
    }

    fn len(&self) -> (n: usize)
        requires
            self.wf(),
        ensures
            n == self.items().len(),
    {
        match self {
            Storage::Inline { len, .. } => *len,
            Storage::Heap(items) => items.len(),
        }
    }

    fn current(&self) -> (p: Placement)
        ensures
            p == self.placement(),
    {
        match self {
            Storage::Inline { .. } => Placement::Inline,
            Storage::Heap(_) => Placement::Heap,
        }
    }

    /// Makes room for `additional` more elements. This is the only place where the
    /// representation changes: inline storage that cannot hold them all is copied, once,
    /// into an allocation.
    fn reserve(&mut self, additional: usize)
        requires
            old(self).wf(),
        ensures
            final(self).wf(),
            final(self).items() == old(self).items(),
            final(self).placement() == old(self).placement().grown_to(
                old(self).items().len() + additional as nat,
                N as nat,
            ),
    {
        let required = self.len().checked_add(additional);
        let next = match required {
            Some(total) => self.current().grow(total, N),
            // More than any inline capacity.
            None => Placement::Heap,
        };
        match self {
            Storage::Heap(_) => {},
            Storage::Inline { buf, len } => {
                match next {
                    Placement::Inline => {},
                    Placement::Heap => {
                        let mut items: Vec<T> = match required {
                            Some(total) => Vec::with_capacity(total),
                            None => Vec::new(),
                        };
                        let mut i: usize = 0;
                        while i < *len
                            invariant
                                i <= *len <= N,
                                items@ == buf@.subrange(0, i as int),
                            decreases *len - i,
                        {
                            items.push(buf[i]);
                            i = i + 1;
                        }
                        *self = Storage::Heap(items);
                    },
                }
            },
        }
    }

    /// Appends `item` where there is room for it.
    fn append(&mut self, item: T)
        requires
            old(self).wf(),
            old(self).placement() is Inline ==> old(self).items().len() < N,
        ensures
            final(self).wf(),
            final(self).items() == old(self).items().push(item),
            final(self).placement() == old(self).placement(),
    {
        match self {
            Storage::Heap(items) => {
                items.push(item);
            },
            Storage::Inline { buf, len } => {
                buf[*len] = item;
                *len = *len + 1;
            },
        }
    }
}

/// A growable ordered sequence with an inline capacity of `N` elements.
#[derive(Debug)]
pub struct SmallVector<T: Copy + Default, const N: usize> {
    storage: Storage<T, N>,
}

impl<T: Copy + Default, const N: usize> View for SmallVector<T, N> {
    type V = Seq<T>;

    closed spec fn view(&self) -> Seq<T> {
        self.storage.items()
    }
}

impl<T: Copy + Default, const N: usize> SmallVector<T, N> {
    /// What every value of the type satisfies: an inline vector holds at most `N` elements.
    #[verifier::type_invariant]
    pub closed spec fn wf(&self) -> bool {
        self.storage.wf()
    }

    /// The representation that the vector is in.
    pub closed spec fn spec_placement(&self) -> Placement {
        self.storage.placement()
    }

    /// The elements together with the representation.
    pub open spec fn state(&self) -> State<T> {
        State { items: self@, placement: self.spec_placement() }
    }

    /// The state of a vector is one that its inline capacity allows.
    pub proof fn lemma_state_is_wf(self)
        requires
            self.wf(),
        ensures
            self.state().wf(N as nat),
    {
    }

    /// An empty vector: inline, nothing allocated.
    pub fn new() -> (v: Self)
        ensures
            v@ == Seq::<T>::empty(),
            v.spec_placement() == Placement::Inline,
            v.state() == State::<T>::empty(),
    {
        SmallVector { storage: Storage::Inline { buf: [T::default(); N], len: 0 } }
    }

    /// Takes the storage out, leaving an empty allocation-free vector behind, so that it
    /// can change while the vector itself is never seen half-updated.
    fn take_storage(&mut self) -> (storage: Storage<T, N>)
        ensures
            storage == old(self).storage,
            storage.wf(),
    {
        proof {
            use_type_invariant(&*self);
        }
        let mut storage = Storage::Heap(Vec::new());
        core::mem::swap(&mut storage, &mut self.storage);
        storage
    }

    /// The representation that the vector is in.
    #[verifier::when_used_as_spec(spec_placement)]
    pub fn placement(&self) -> (p: Placement)
        ensures
            p == self.spec_placement(),
            p is Inline ==> self@.len() <= N,
    {
        proof {
            use_type_invariant(self);
        }
        self.storage.current()
    }

    /// The number of elements.
    pub fn len(&self) -> (n: usize)
        ensures
            n == self@.len(),
    {
        proof {
            use_type_invariant(self);
        }
        self.storage.len()
    }

    /// Appends `item`, moving to the heap first if the inline storage is full.
    pub fn push(&mut self, item: T)
        ensures
            final(self)@ == old(self)@.push(item),
            final(self).placement() == old(self).placement().grown_to(
                old(self)@.len() + 1,
                N as nat,
            ),
            final(self).state() == old(self).state().push(item, N as nat),
    {
        let mut storage = self.take_storage();
        storage.reserve(1);
        storage.append(item);
        self.storage = storage;
    }

    /// Appends every element of `items`, in order. The representation is decided once,
    /// for the length that results.
    pub fn extend_from_slice(&mut self, items: &[T])
        ensures
            final(self)@ == old(self)@ + items@,
            final(self).placement() == old(self).placement().grown_to(
                old(self)@.len() + items@.len(),
                N as nat,
            ),
            final(self).state() == old(self).state().extend(items@, N as nat),
    {
        let mut storage = self.take_storage();
        storage.reserve(items.len());
        let mut i: usize = 0;
        while i < items.len()
            invariant
                i <= items@.len(),
                storage.wf(),
                storage.items() == old(self)@ + items@.subrange(0, i as int),
                storage.placement() == old(self).storage.placement().grown_to(
                    old(self)@.len() + items@.len(),
                    N as nat,
                ),
            decreases items@.len() - i,
        {
            storage.append(items[i]);
            i = i + 1;
        }
        self.storage = storage;
        assert(self@ =~= old(self)@ + items@);
    }

    /// A vector of the elements of `items`, in order: inline if they fit, on the heap
    /// otherwise.
    pub fn from_slice(items: &[T]) -> (v: Self)
        ensures
            v@ == items@,
            v.placement() == placement_for(items@.len(), N as nat),
            v.state() == State::<T>::empty().extend(items@, N as nat),
    {
        let mut v = Self::new();
        v.extend_from_slice(items);
        assert(v@ =~= items@);
        v
    }

    /// A vector of the items that `items` yields, in order. Nothing is known of their
    /// number ahead of time: the vector starts inline and moves to the heap with the
    /// item that no longer fits.
    pub fn from_iter<I: Iterator<Item = T>>(items: I) -> (v: Self)
        requires
            items.obeys_prophetic_iter_laws(),
            items.decrease() is Some,
        ensures
            v@ == items.remaining(),
            v.placement() == placement_for(items.remaining().len(), N as nat),
            v.state() == State::<T>::empty().push_all(items.remaining(), N as nat),
    {
        let ghost all = items.remaining();
        let mut items = items;
        let mut v = Self::new();
        proof {
            lemma_pushes_from_empty(all, N as nat);
        }
        loop
            invariant
                items.obeys_prophetic_iter_laws(),
                v@ + items.remaining() == all,
                v.placement() == placement_for(v@.len(), N as nat),
                items.decrease() is Some,
            ensures
                items.remaining().len() == 0,
            decreases items.decrease()->0,
        {
            match items.next() {
                Some(item) => {
                    v.push(item);
                },
                None => {
                    break ;
                },
            }
        }
        v
    }

    /// Removes the last element and returns it, or returns `None` if there is none. The
    /// representation stays as it is.
    pub fn pop(&mut self) -> (last: Option<T>)
        ensures
            old(self)@.len() == 0 ==> {
                &&& last is None
                &&& final(self)@ == old(self)@
            },
            old(self)@.len() > 0 ==> {
                &&& last == Some(old(self)@.last())
                &&& final(self)@ == old(self)@.drop_last()
            },
            final(self).placement() == old(self).placement(),
            final(self).state() == old(self).state().pop(),
    {
        let mut storage = self.take_storage();
        let last = match &mut storage {
            Storage::Heap(items) => items.pop(),
            Storage::Inline { buf, len } => {
                if *len == 0 {
                    None
                } else {
                    *len = *len - 1;
                    Some(buf[*len])
                }
            },
        };
        self.storage = storage;
        assert(old(self)@.len() > 0 ==> self@ =~= old(self)@.drop_last());
        last
    }

    /// Removes every element. The representation, and with it any allocation, stays.
    pub fn clear(&mut self)
        ensures
            final(self)@ == Seq::<T>::empty(),
            final(self).placement() == old(self).placement(),
            final(self).state() == old(self).state().clear(),
    {
        let mut storage = self.take_storage();
        match &mut storage {
            Storage::Heap(items) => {
                items.clear();
            },
            Storage::Inline { buf, len } => {
                *len = 0;
            },
        }
        self.storage = storage;
    }

    /// Whether the vector holds no element.
    pub fn is_empty(&self) -> (empty: bool)
        ensures
            empty == (self@.len() == 0),
    {
        self.len() == 0
    }

    /// The elements, in order.
    pub fn as_slice(&self) -> (items: &[T])
        ensures
            items@ == self@,
    {
        proof {
            use_type_invariant(self);
        }
        match &self.storage {
            Storage::Inline { buf, len } => slice_subrange(buf.as_slice(), 0, *len),
            Storage::Heap(items) => items.as_slice(),
        }
    }

    /// A pass over the elements, by reference, that starts at the first. Any number of
    /// passes can be started on one vector.
    pub fn iter(&self) -> (cursor: Cursor<'_, T, N>)
        ensures
            cursor.remaining() == self@,
    {
        Cursor { vector: self, position: 0 }
    }

    /// The element at position `index`, or the error that says how far out `index` is.
    pub fn get(&self, index: usize) -> (found: Result<T, IndexError>)
        ensures
            index < self@.len() ==> found == Ok::<T, IndexError>(self@[index as int]),
            index >= self@.len() ==> found == Err::<T, IndexError>(
                IndexError { index, len: self@.len() as usize },
            ),
    {
        let items = self.as_slice();
        if index < items.len() {
            Ok(items[index])
        } else {
            Err(IndexError { index, len: items.len() })
        }
    }
}

impl<T: Copy + Default, const N: usize> Clone for SmallVector<T, N> {
    /// A vector of the same elements in the same representation. A heap vector gets an
    /// allocation of its own.
    fn clone(&self) -> (copy: Self)
        ensures
            copy@ == self@,
            copy.placement() == self.placement(),
    {
        proof {
            use_type_invariant(self);
        }
        match &self.storage {
            Storage::Inline { buf, len } => SmallVector {
                storage: Storage::Inline { buf: *buf, len: *len },
            },
            Storage::Heap(items) => {
                let mut copies: Vec<T> = Vec::with_capacity(items.len());
                let mut i: usize = 0;
                while i < items.len()
                    invariant
                        i <= items@.len(),
                        copies@ == items@.subrange(0, i as int),
                    decreases items@.len() - i,
                {
                    copies.push(items[i]);
                    i = i + 1;
                }
                SmallVector { storage: Storage::Heap(copies) }
            },
        }
    }
}

impl<T: Copy + Default, const N: usize, const M: usize> From<[T; M]> for SmallVector<T, N> {
    /// A vector of the elements of `items`, in order: inline if `M <= N`, on the heap
    /// otherwise.
    fn from(items: [T; M]) -> (v: Self)
        ensures
            v@ == items@,
            v.placement() == placement_for(M as nat, N as nat),
    {
        Self::from_slice(items.as_slice())
    }
}

/// The storage that a conversion makes is not a function of the elements alone, so no
/// value is named ahead of the call: what `from` returns is stated on `from` itself.
impl<T: Copy + Default, const N: usize, const M: usize> vstd::std_specs::convert::FromSpecImpl<[T; M]> for SmallVector<T, N> {
    open spec fn obeys_from_spec() -> bool {
        false
    }

    open spec fn from_spec(items: [T; M]) -> Self {
        arbitrary()
    }
}

/// A pass over the elements of a small vector, from the first to the last.
pub struct Cursor<'a, T: Copy + Default, const N: usize> {
    vector: &'a SmallVector<T, N>,
    position: usize,
}

impl<'a, T: Copy + Default, const N: usize> Cursor<'a, T, N> {
    /// What every cursor satisfies: it stands at or before the end of its vector.
    #[verifier::type_invariant]
    pub closed spec fn wf(&self) -> bool {
        self.position <= self.vector@.len()
    }

    /// The elements that the pass has yet to yield, in order.
    pub closed spec fn remaining(&self) -> Seq<T> {
        self.vector@.skip(self.position as int)
    }

    /// The next element of the pass, or `None` once all have been yielded.
    pub fn next(&mut self) -> (item: Option<&'a T>)
        ensures
            old(self).remaining().len() == 0 ==> {
                &&& item is None
                &&& final(self).remaining() == old(self).remaining()
            },
            old(self).remaining().len() > 0 ==> {
                &&& item == Some(&old(self).remaining()[0])
                &&& final(self).remaining() == old(self).remaining().drop_first()
            },
    {
        proof {
            use_type_invariant(&*self);
        }
        let items = self.vector.as_slice();
        if self.position < items.len() {
            let item = &items[self.position];
            self.position = self.position + 1;
            Some(item)
        } else {
            None
        }
    }
}

/// An index that is not below the length of the vector it was used on.
#[derive(Clone, Copy, Debug, PartialEq, Eq, Structural)]
pub struct IndexError {
    /// The index that was asked for.
    pub index: usize,
    /// The length of the vector at that time.
    pub len: usize,
}

} // verus!
