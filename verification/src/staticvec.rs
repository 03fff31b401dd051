//! A vector whose length is part of its type.
//!
//! It stands wherever a message embeds an array of fixed size: the length is
//! known at both ends of a connection, so it is never written.

use crate::array::{
    all_encodable, lemma_bytes_parse, lemma_bytes_wire, lemma_parse_n_len, lemma_round_trip_all,
    parse_n, read_array, wire_all, write_array,
};
use crate::error::{DecodeError, EncodeError};
use crate::serial::{self_delimiting, views, Serial};
use vstd::prelude::*;

verus! {

/// Exactly `N` elements of `T`.
#[derive(Debug)]
pub struct StaticVec<T: Clone, const N: usize> {
    vec: Vec<T>,
}

impl<T: Clone, const N: usize> StaticVec<T, N> {
    #[verifier::type_invariant]
    spec fn full(self) -> bool {
        self.vec@.len() == N
    }

    /// The elements, in order.
    pub closed spec fn elems(self) -> Seq<T> {
        self.vec@
    }

    /// A container whose every element is a clone of `d`.
    pub fn with_value(d: &T) -> (r: Self)
        ensures
            r.elems().len() == N,
            forall|i: int| 0 <= i < N ==> cloned(*d, #[trigger] r.elems()[i]),
    {
        let mut vec: Vec<T> = Vec::new();
        let mut i: usize = 0;
        while i < N
            invariant
                i <= N,
                vec@.len() == i,
                forall|j: int| 0 <= j < i ==> cloned(*d, #[trigger] vec@[j]),
            decreases N - i,
        {
            vec.push(d.clone());
            i = i + 1;
        }
        StaticVec { vec }
    }

    /// A container that holds the elements of `vec`, or `None` where their
    /// number is not `N`.
    pub fn from_vec(vec: Vec<T>) -> (r: Option<Self>)
        ensures
            vec@.len() == N <==> r is Some,
            r matches Some(c) ==> c.elems() == vec@,
    {
        if vec.len() == N {
            Some(StaticVec { vec })
        } else {
            None
        }
    }

    /// The number of elements, which is `N`.
    pub fn len(&self) -> (n: usize)
        ensures
            n == N,
            self.elems().len() == N,
    {
        proof {
            use_type_invariant(self);
        }
        self.vec.len()
    }

    /// The elements as a slice.
    pub fn as_slice(&self) -> (s: &[T])
        ensures
            s@ == self.elems(),
            s@.len() == N,
    {
        proof {
            use_type_invariant(self);
        }
        self.vec.as_slice()
    }

    /// The element at `i`.
    pub fn get(&self, i: usize) -> (e: &T)
        requires
            i < N,
        ensures
            *e == self.elems()[i as int],
            self.elems().len() == N,
    {
        proof {
            use_type_invariant(self);
        }
        &self.vec[i]
    }

    /// Puts `value` at `i` and leaves every other element as it was.
    pub fn set(&mut self, i: usize, value: T)
        requires
            i < N,
        ensures
            final(self).elems() == old(self).elems().update(i as int, value),
            final(self).elems().len() == N,
    {
        proof {
            use_type_invariant(&*self);
        }
        self.vec[i] = value;
    }
}

impl<T: Clone, const N: usize> core::ops::Deref for StaticVec<T, N> {
    type Target = [T];

    fn deref(&self) -> (s: &[T])
        ensures
            s@ == self.elems(),
            s@.len() == N,
    {
        self.as_slice()
    }
}

impl<T: Clone, const N: usize> Clone for StaticVec<T, N> {
    fn clone(&self) -> (r: Self)
        ensures
            r.elems().len() == N,
            self.elems().len() == N,
            forall|i: int| 0 <= i < N ==> cloned(self.elems()[i], #[trigger] r.elems()[i]),
    {
        proof {
            use_type_invariant(self);
        }
        StaticVec { vec: self.vec.clone() }
    }
}

impl<T: Clone + Default, const N: usize> Default for StaticVec<T, N> {
    /// A container whose every element is a clone of one default value.
    fn default() -> (r: Self)
        ensures
            r.elems().len() == N,
            exists|d: T|
                call_ensures(T::default, (), d) && forall|i: int|
                    0 <= i < N ==> cloned(d, #[trigger] r.elems()[i]),
    {
        let d = T::default();
        Self::with_value(&d)
    }
}

impl<T: View + Clone, const N: usize> View for StaticVec<T, N> {
    type V = Seq<T::V>;

    open spec fn view(&self) -> Seq<T::V> {
        views(self.elems())
    }
}

impl<T: Serial + Clone, const N: usize> Serial for StaticVec<T, N> {
    open spec fn encodable(v: Seq<T::V>) -> bool {
        v.len() == N && all_encodable::<T>(v)
    }

    open spec fn wire(v: Seq<T::V>) -> Seq<u8> {
        wire_all::<T>(v)
    }

    open spec fn parse(s: Seq<u8>) -> Result<(Seq<T::V>, int), DecodeError> {
        parse_n::<T>(s, N as nat)
    }

    open spec fn may_follow(tail: Seq<u8>) -> bool {
        self_delimiting::<T>()
    }

    proof fn lemma_round_trip(v: Seq<T::V>, tail: Seq<u8>) {
        lemma_round_trip_all::<T>(v, tail);
    }

    fn serialize(&self, dst: &mut Vec<u8>) -> (r: Result<(), EncodeError>)
        ensures
            self@.len() == N,
    {
        proof {
            use_type_invariant(self);
        }
        let items = self.vec.as_slice();
        let r = write_array(items, dst);
        assert(r is Ok <==> Self::encodable(self@));
        assert(r is Ok ==> dst@ == old(dst)@ + Self::wire(self@));
        r
    }

    fn deserialize(src: &[u8]) -> (r: Result<(Self, usize), DecodeError>)
        ensures
            r matches Ok((val, _)) ==> val@.len() == N,
    {
        match read_array::<T>(src, N) {
            Err(e) => Err(e),
            Ok((vec, used)) => Ok((StaticVec { vec }, used)),
        }
    }
}

/// What is read as a container has exactly `N` elements.
pub proof fn lemma_parse_len<T: Serial + Clone, const N: usize>(s: Seq<u8>)
    ensures
        StaticVec::<T, N>::parse(s) matches Ok((v, used)) ==> v.len() == N,
{
    lemma_parse_n_len::<T>(s, N as nat);
}

/// A container of bytes is read exactly where `N` bytes are there: it takes
/// the first `N` of them, and what stands behind them plays no part.
pub proof fn lemma_parse_bytes<const N: usize>(s: Seq<u8>)
    ensures
        StaticVec::<u8, N>::parse(s) == (if s.len() >= N {
            Ok::<(Seq<u8>, int), DecodeError>((s.take(N as int), N as int))
        } else {
            Err::<(Seq<u8>, int), DecodeError>(DecodeError::UnexpectedEof)
        }),
        StaticVec::<u8, N>::wire(s) == s,
{
    lemma_bytes_parse(s, N as nat);
    lemma_bytes_wire(s);
}

} // verus!
