//! An immutable string that keeps short text inside the value.

use core::cmp::Ordering;
use core::hash::Hasher;
use std::collections::hash_map::DefaultHasher;
use vstd::prelude::*;
use vstd::slice::slice_subrange;
use vstd::std_specs::cmp::{PartialEqSpec, PartialOrdSpec};
use vstd::std_specs::hash::DefaultHasherAdditionalSpecFns;
use vstd::string::StringSliceAdditionalSpecFns;
use vstd::utf8::*;
use crate::byte_order::{byte_order, common_prefix};
use crate::policy::{decide, placement_for, Placement};

verus! {

/// The longest text, in bytes, that is kept inside the value.
pub const INLINE_CAPACITY: usize = 23;

/// How a small string holds its text.
#[derive(Clone, Copy, Debug, PartialEq, Eq, Structural)]
pub enum Representation {
    /// The bytes are part of the value.
    Inline,
    /// The text is borrowed from storage that lives as long as the program.
    Static,
    /// The text is in an allocation that the value owns.
    Heap,
}

/// The representation that the capacity policy gives to text of `length` bytes which is
/// not borrowed for the whole program.
pub open spec fn representation_for(length: nat) -> Representation {
    match placement_for(length, INLINE_CAPACITY as nat) {
        Placement::Inline => Representation::Inline,
        Placement::Heap => Representation::Heap,
    }
}

/// The three representations of a small string.
#[derive(Debug)]
enum Repr {
    /// The first `len` bytes of `buf` are the text, in UTF-8; the rest is filler.
    Inline { buf: [u8; INLINE_CAPACITY], len: u8 },
    /// Text that the caller promised to keep alive; it is neither copied nor freed.
    Static(&'static str),
    /// Text longer than the inline capacity.
    Heap(String),
}

/// An immutable string with value semantics: what it is equal to, how it is ordered and
/// what it hashes to depend on its text alone, never on how the text is held.
#[derive(Debug)]
pub struct SmallString {
    repr: Repr,
}

impl View for SmallString {
    type V = Seq<char>;

    closed spec fn view(&self) -> Seq<char> {
        match self.repr {
            Repr::Inline { buf, len } => decode_utf8(buf@.subrange(0, len as int)),
            Repr::Static(text) => text@,
            Repr::Heap(text) => text@,
        }
    }
}

/// `core::str::from_utf8`: the bytes are accepted exactly when they are well-formed
/// UTF-8, and the text that comes back is those same bytes, read as a string.
#[verifier::external_body]
fn str_from_utf8(bytes: &[u8]) -> (text: Option<&str>)
    ensures
        text is Some <==> valid_utf8(bytes@),
        text is Some ==> text->0.spec_bytes() == bytes@,
{
    core::str::from_utf8(bytes).ok()
}

impl SmallString {
    /// What every value of the type satisfies: inline bytes are well-formed UTF-8 within
    /// the inline capacity, and only text beyond that capacity is on the heap.
    #[verifier::type_invariant]
    pub closed spec fn wf(&self) -> bool {
        match self.repr {
            Repr::Inline { buf, len } => {
                &&& len <= INLINE_CAPACITY
                &&& valid_utf8(buf@.subrange(0, len as int))
            },
            Repr::Static(text) => true,
            Repr::Heap(text) => encode_utf8(text@).len() > INLINE_CAPACITY,
        }
    }

    /// The text as bytes: its UTF-8 encoding.
    pub open spec fn spec_bytes(&self) -> Seq<u8> {
        encode_utf8(self@)
    }

    /// How the text is held.
    pub closed spec fn spec_representation(&self) -> Representation {
        match self.repr {
            Repr::Inline { .. } => Representation::Inline,
            Repr::Static(_) => Representation::Static,
            Repr::Heap(_) => Representation::Heap,
        }
    }

    /// Copies `bytes` into a buffer of the inline capacity.
    fn inline_buffer(bytes: &[u8]) -> (buf: [u8; INLINE_CAPACITY])
        requires
            bytes@.len() <= INLINE_CAPACITY,
        ensures
            buf@.subrange(0, bytes@.len() as int) == bytes@,
    {
        let mut buf = [0u8; INLINE_CAPACITY];
        let mut i: usize = 0;
        while i < bytes.len()
            invariant
                i <= bytes@.len() <= INLINE_CAPACITY,
                buf@.subrange(0, i as int) == bytes@.subrange(0, i as int),
            decreases bytes@.len() - i,
        {
            buf[i] = bytes[i];
            i = i + 1;
            assert(buf@.subrange(0, i as int) =~= bytes@.subrange(0, i as int));
        }
        assert(bytes@.subrange(0, bytes@.len() as int) =~= bytes@);
        buf
    }

    /// A small string with a copy of `text`: inline if its bytes fit, on the heap
    /// otherwise.
    pub fn from_str(text: &str) -> (s: SmallString)
        ensures
            s@ == text@,
            s.spec_bytes() == text.spec_bytes(),
            s.spec_representation() == representation_for(text.spec_bytes().len()),
            s.spec_representation() is Inline <==> text.spec_bytes().len() <= INLINE_CAPACITY,
            s.spec_representation() is Heap <==> text.spec_bytes().len() > INLINE_CAPACITY,
    {
        let bytes = text.as_bytes();
        match decide(bytes.len(), INLINE_CAPACITY) {
            Placement::Inline => {
                let buf = Self::inline_buffer(bytes);
                proof {
                    encode_utf8_valid_utf8(text@);
                    encode_utf8_decode_utf8(text@);
                }
                SmallString { repr: Repr::Inline { buf, len: bytes.len() as u8 } }
            },
            Placement::Heap => SmallString { repr: Repr::Heap(text.to_owned()) },
        }
    }

    /// A small string that borrows `text`, whatever its length. Nothing is copied.
    pub fn from_static(text: &'static str) -> (s: SmallString)
        ensures
            s@ == text@,
            s.spec_bytes() == text.spec_bytes(),
            s.spec_representation() == Representation::Static,
    {
        SmallString { repr: Repr::Static(text) }
    }

    /// A small string of `text`: short text is copied into the value and its allocation
    /// released, long text keeps the allocation it came with.
    pub fn from_owned(text: String) -> (s: SmallString)
        ensures
            s@ == text@,
            s.spec_bytes() == encode_utf8(text@),
            s.spec_representation() == representation_for(encode_utf8(text@).len()),
            s.spec_representation() is Inline <==> encode_utf8(text@).len() <= INLINE_CAPACITY,
            s.spec_representation() is Heap <==> encode_utf8(text@).len() > INLINE_CAPACITY,
    {
        let bytes = text.as_str().as_bytes();
        match decide(bytes.len(), INLINE_CAPACITY) {
            Placement::Inline => {
                let buf = Self::inline_buffer(bytes);
                proof {
                    encode_utf8_valid_utf8(text@);
                    encode_utf8_decode_utf8(text@);
                }
                SmallString { repr: Repr::Inline { buf, len: bytes.len() as u8 } }
            },
            Placement::Heap => SmallString { repr: Repr::Heap(text) },
        }
    }

    /// How the text is held.
    #[verifier::when_used_as_spec(spec_representation)]
    pub fn representation(&self) -> (r: Representation)
        ensures
            r == self.spec_representation(),
            r is Inline ==> self.spec_bytes().len() <= INLINE_CAPACITY,
            r is Heap ==> self.spec_bytes().len() > INLINE_CAPACITY,
    {
        proof {
            use_type_invariant(self);
        }
        match &self.repr {
            Repr::Inline { buf, len } => {
                proof {
                    decode_utf8_encode_utf8(buf@.subrange(0, *len as int));
                }
                Representation::Inline
            },
            Repr::Static(_) => Representation::Static,
            Repr::Heap(_) => Representation::Heap,
        }
    }

    /// The text as bytes. Inline and heap text is read from the value's own storage,
    /// static text from the storage it was borrowed from.
    pub fn as_bytes(&self) -> (bytes: &[u8])
        ensures
            bytes@ == self.spec_bytes(),
    {
        proof {
            use_type_invariant(self);
        }
        match &self.repr {
            Repr::Inline { buf, len } => {
                proof {
                    decode_utf8_encode_utf8(buf@.subrange(0, *len as int));
                }
                slice_subrange(buf.as_slice(), 0, *len as usize)
            },
            Repr::Static(text) => text.as_bytes(),
            Repr::Heap(text) => text.as_str().as_bytes(),
        }
    }

    /// The text.
    pub fn as_str(&self) -> (text: &str)
        ensures
            text@ == self@,
    {
        proof {
            use_type_invariant(self);
        }
        match &self.repr {
            Repr::Inline { buf, len } => {
                let bytes = slice_subrange(buf.as_slice(), 0, *len as usize);
                match str_from_utf8(bytes) {
                    Some(text) => {
                        proof {
                            encode_utf8_decode_utf8(text@);
                        }
                        text
                    },
                    None => vstd::pervasive::unreached(),
                }
            },
            Repr::Static(text) => text,
            Repr::Heap(text) => text.as_str(),
        }
    }

    /// The length of the text in bytes.
    pub fn len(&self) -> (n: usize)
        ensures
            n == self.spec_bytes().len(),
    {
        self.as_bytes().len()
    }

    /// Whether the text is empty.
    pub fn is_empty(&self) -> (empty: bool)
        ensures
            empty == (self@.len() == 0),
    {
        self.as_str().is_empty()
    }

    /// An owned copy of the text.
    pub fn to_owned_string(&self) -> (text: String)
        ensures
            text@ == self@,
            text@ == decode_utf8(self.spec_bytes()),
    {
        proof {
            encode_utf8_decode_utf8(self@);
        }
        self.as_str().to_owned()
    }
}

/// What hashing the bytes of a text gives: the digest of the standard library's default
/// hasher after one write of those bytes.
pub open spec fn content_hash(bytes: Seq<u8>) -> u64 {
    DefaultHasher::spec_finish(seq![bytes])
}

/// Text is determined by its bytes: two texts with the same UTF-8 encoding are the same.
pub proof fn lemma_text_of_bytes(a: Seq<char>, b: Seq<char>)
    requires
        encode_utf8(a) == encode_utf8(b),
    ensures
        a == b,
{
    encode_utf8_decode_utf8(a);
    encode_utf8_decode_utf8(b);
}

impl SmallString {
    /// How the text is ordered against the text of `other`, byte by byte.
    pub fn compare(&self, other: &SmallString) -> (order: Ordering)
        ensures
            order == byte_order(self.spec_bytes(), other.spec_bytes()),
    {
        let a = self.as_bytes();
        let b = other.as_bytes();
        let k = common_prefix(a, b);
        if k == a.len() {
            if k == b.len() {
                Ordering::Equal
            } else {
                Ordering::Less
            }
        } else if k == b.len() {
            Ordering::Greater
        } else if a[k] < b[k] {
            Ordering::Less
        } else {
            Ordering::Greater
        }
    }

    /// A hash of the text: equal text gives equal hashes, however it is held.
    pub fn hash_value(&self) -> (hash: u64)
        ensures
            hash == content_hash(self.spec_bytes()),
    {
        let mut hasher = DefaultHasher::new();
        hasher.write(self.as_bytes());
        hasher.finish()
    }
}

impl Clone for SmallString {
    /// A small string of the same text, held the same way. Inline text is copied with
    /// the value, static text stays borrowed, and heap text is copied into an allocation
    /// of its own.
    fn clone(&self) -> (copy: Self)
        ensures
            copy@ == self@,
            copy.representation() == self.representation(),
    {
        proof {
            use_type_invariant(self);
        }
        match &self.repr {
            Repr::Inline { buf, len } => SmallString { repr: Repr::Inline { buf: *buf, len: *len } },
            Repr::Static(text) => SmallString { repr: Repr::Static(*text) },
            Repr::Heap(text) => SmallString { repr: Repr::Heap(text.clone()) },
        }
    }
}

impl PartialEq for SmallString {
    fn eq(&self, other: &SmallString) -> (equal: bool) {
        let a = self.as_bytes();
        let b = other.as_bytes();
        a.len() == b.len() && common_prefix(a, b) == a.len()
    }
}

impl vstd::std_specs::cmp::PartialEqSpecImpl for SmallString {
    open spec fn obeys_eq_spec() -> bool {
        true
    }

    open spec fn eq_spec(&self, other: &SmallString) -> bool {
        self.spec_bytes() == other.spec_bytes()
    }
}

impl Eq for SmallString {

}

impl PartialOrd for SmallString {
    fn partial_cmp(&self, other: &SmallString) -> (order: Option<Ordering>) {
        Some(self.compare(other))
    }
}

impl vstd::std_specs::cmp::PartialOrdSpecImpl for SmallString {
    open spec fn obeys_partial_cmp_spec() -> bool {
        true
    }

    open spec fn partial_cmp_spec(&self, other: &SmallString) -> Option<Ordering> {
        Some(byte_order(self.spec_bytes(), other.spec_bytes()))
    }
}

/// Text that was put into a small string comes out of it unchanged: a small string whose
/// bytes are the encoding of `text` holds `text`, and that is what its bytes decode to.
pub proof fn lemma_round_trip(s: SmallString, text: Seq<char>)
    requires
        s.spec_bytes() == encode_utf8(text),
    ensures
        s@ == text,
        decode_utf8(s.spec_bytes()) == text,
{
    lemma_text_of_bytes(s@, text);
    encode_utf8_decode_utf8(text);
}

/// Small strings of equal bytes hold the same text, are equal, are ordered as equal and
/// hash alike, however each of them holds its text; and only those are equal.
pub proof fn lemma_equal_content(a: SmallString, b: SmallString)
    ensures
        a.spec_bytes() == b.spec_bytes() <==> a@ == b@,
        a.spec_bytes() == b.spec_bytes() <==> a.eq_spec(&b),
        a.spec_bytes() == b.spec_bytes() <==> a.partial_cmp_spec(&b) == Some(Ordering::Equal),
        a.spec_bytes() == b.spec_bytes() ==> content_hash(a.spec_bytes()) == content_hash(
            b.spec_bytes(),
        ),
{
    if a.spec_bytes() == b.spec_bytes() {
        lemma_text_of_bytes(a@, b@);
    }
}

} // verus!
