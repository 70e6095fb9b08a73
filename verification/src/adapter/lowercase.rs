//! Adapters for formatting [`Ulid`](crate::Ulid)s as lowercase strings.

use crate::parser::Case;
use crate::parser::encode_chars;
use crate::Ulid;
use vstd::prelude::*;

verus! {

/// An adapter for formatting a [`Ulid`] as a lowercase string.
#[derive(Clone, Copy, Debug, Default, Eq, Hash, Ord, PartialEq, PartialOrd)]
pub struct Lowercase(Ulid);

/// An adapter for formatting a borrowed [`Ulid`] as a lowercase string.
#[derive(Clone, Copy, Debug, Eq, Hash, Ord, PartialEq, PartialOrd)]
pub struct LowercaseRef<'a>(&'a Ulid);

impl View for Lowercase {
    type V = Seq<u8>;

    closed spec fn view(&self) -> Seq<u8> {
        self.0@
    }
}

impl<'a> View for LowercaseRef<'a> {
    type V = Seq<u8>;

    closed spec fn view(&self) -> Seq<u8> {
        self.0@
    }
}

impl Ulid {
    /// Creates a [`Lowercase`] instance from a [`Ulid`].
    pub fn to_lowercase(self) -> (r: Lowercase)
        ensures
            r@ == self@,
    {
        Lowercase::from_ulid(self)
    }

    /// Creates a [`LowercaseRef`] instance from a [`Ulid`].
    pub fn to_lowercase_ref(&self) -> (r: LowercaseRef)
        ensures
            r@ == self@,
    {
        LowercaseRef::from_ulid(self)
    }
}

impl Lowercase {
    /// Creates a [`Lowercase`] instance from a [`Ulid`].
    pub fn from_ulid(ulid: Ulid) -> (r: Self)
        ensures
            r@ == ulid@,
    {
        Lowercase(ulid)
    }

    /// The 26-character lowercase base32 string of the wrapped [`Ulid`].
    pub fn encode(self) -> (r: String)
        ensures
            r@ == encode_chars(self@, false),
            r@.len() == 26,
    {
        broadcast use crate::lemma_ulid_len;

        crate::parser::encode(Case::Lower, self.0.as_bytes().as_slice())
    }
}

impl<'a> LowercaseRef<'a> {
    /// Creates a [`LowercaseRef`] instance from a [`Ulid`].
    pub fn from_ulid(ulid: &'a Ulid) -> (r: Self)
        ensures
            r@ == ulid@,
    {
        LowercaseRef(ulid)
    }

    /// The 26-character lowercase base32 string of the wrapped [`Ulid`].
    pub fn encode(self) -> (r: String)
        ensures
            r@ == encode_chars(self@, false),
            r@.len() == 26,
    {
        broadcast use crate::lemma_ulid_len;

        crate::parser::encode(Case::Lower, self.0.as_bytes().as_slice())
    }
}

} // verus!
