//! Adapters for formatting [`Ulid`](crate::Ulid)s as uppercase strings.

use crate::parser::Case;
use crate::parser::encode_chars;
use crate::Ulid;
use vstd::prelude::*;

verus! {

/// An adapter for formatting a [`Ulid`] as an uppercase string.
#[derive(Clone, Copy, Debug, Default, Eq, Hash, Ord, PartialEq, PartialOrd)]
pub struct Uppercase(Ulid);

/// An adapter for formatting a borrowed [`Ulid`] as an uppercase string.
#[derive(Clone, Copy, Debug, Eq, Hash, Ord, PartialEq, PartialOrd)]
pub struct UppercaseRef<'a>(&'a Ulid);

impl View for Uppercase {
    type V = Seq<u8>;

    closed spec fn view(&self) -> Seq<u8> {
        self.0@
    }
}

impl<'a> View for UppercaseRef<'a> {
    type V = Seq<u8>;

    closed spec fn view(&self) -> Seq<u8> {
        self.0@
    }
}

impl Ulid {
    /// Creates an [`Uppercase`] instance from a [`Ulid`].
    pub fn to_uppercase(self) -> (r: Uppercase)
        ensures
            r@ == self@,
    {
        Uppercase::from_ulid(self)
    }

    /// Creates an [`UppercaseRef`] instance from a [`Ulid`].
    pub fn to_uppercase_ref(&self) -> (r: UppercaseRef)
        ensures
            r@ == self@,
    {
        UppercaseRef::from_ulid(self)
    }
}

impl Uppercase {
    /// Creates an [`Uppercase`] instance from a [`Ulid`].
    pub fn from_ulid(ulid: Ulid) -> (r: Self)
        ensures
            r@ == ulid@,
    {
        Uppercase(ulid)
    }

    /// The 26-character uppercase base32 string of the wrapped [`Ulid`].
    pub fn encode(self) -> (r: String)
        ensures
            r@ == encode_chars(self@, true),
            r@.len() == 26,
    {
        broadcast use crate::lemma_ulid_len;

        crate::parser::encode(Case::Upper, self.0.as_bytes().as_slice())
    }
}

impl<'a> UppercaseRef<'a> {
    /// Creates an [`UppercaseRef`] instance from a [`Ulid`].
    pub fn from_ulid(ulid: &'a Ulid) -> (r: Self)
        ensures
            r@ == ulid@,
    {
        UppercaseRef(ulid)
    }

    /// The 26-character uppercase base32 string of the wrapped [`Ulid`].
    pub fn encode(self) -> (r: String)
        ensures
            r@ == encode_chars(self@, true),
            r@.len() == 26,
    {
        broadcast use crate::lemma_ulid_len;

        crate::parser::encode(Case::Upper, self.0.as_bytes().as_slice())
    }
}

} // verus!
