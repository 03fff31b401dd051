//! The contract between a value and its bytes.

use crate::error::{DecodeError, EncodeError};
use crate::wire::{
    from_le_u16, from_le_u32, from_le_u64, le_u16, le_u32, le_u64, lemma_read_write_u16,
    lemma_read_write_u32, lemma_read_write_u64,
};
use vstd::prelude::*;
use vstd::slice::slice_subrange;

verus! {

/// A type with a fixed byte image.
///
/// The view of a value is its mathematical content; `wire` and `parse` say,
/// over views, what is written and what is read. `serialize` appends exactly
/// `wire`, `deserialize` computes exactly `parse`, and `lemma_round_trip`
/// ties the two together.
pub trait Serial: View + Sized {
    /// Whether `v` has a byte image at all: every count in it fits the field
    /// that carries it.
    spec fn encodable(v: Self::V) -> bool;

    /// The bytes of `v`.
    spec fn wire(v: Self::V) -> Seq<u8>;

    /// The value at the front of `s` and the number of bytes it takes up, or
    /// the reason why there is none.
    spec fn parse(s: Seq<u8>) -> Result<(Self::V, int), DecodeError>;

    /// Whether `tail` may stand behind a value without being read as part of
    /// it. Only a value that ends in an uncounted list is particular here.
    spec fn may_follow(tail: Seq<u8>) -> bool;

    /// Reading what was written gives the value back, and takes exactly the
    /// bytes that were written.
    proof fn lemma_round_trip(v: Self::V, tail: Seq<u8>)
        requires
            Self::encodable(v),
            Self::may_follow(tail),
        ensures
            Self::parse(Self::wire(v) + tail) == Ok::<(Self::V, int), DecodeError>(
                (v, Self::wire(v).len() as int),
            ),
    ;

    /// Appends the bytes of `self` to `dst`, or leaves `dst` as it was where
    /// `self` has no byte image.
    fn serialize(&self, dst: &mut Vec<u8>) -> (r: Result<(), EncodeError>)
        ensures
            r is Ok <==> Self::encodable(self@),
            r is Ok ==> final(dst)@ == old(dst)@ + Self::wire(self@),
            r is Err ==> final(dst)@ == old(dst)@ && r == Err::<(), EncodeError>(
                EncodeError::CountOverflow,
            ),
    ;

    /// Reads one value from the front of `src` and says how many bytes it
    /// took.
    fn deserialize(src: &[u8]) -> (r: Result<(Self, usize), DecodeError>)
        ensures
            match Self::parse(src@) {
                Ok((v, n)) => r matches Ok((val, used)) && val@ == v && used == n && used
                    <= src@.len(),
                Err(e) => r == Err::<(Self, usize), DecodeError>(e),
            },
    ;
}

/// Reading exactly the bytes of a value gives the value back.
pub proof fn lemma_decode_encode<T: Serial>(v: T::V)
    requires
        T::encodable(v),
        T::may_follow(Seq::<u8>::empty()),
    ensures
        T::parse(T::wire(v)) == Ok::<(T::V, int), DecodeError>((v, T::wire(v).len() as int)),
{
    T::lemma_round_trip(v, Seq::<u8>::empty());
}

/// Two values with the same bytes are the same value.
pub proof fn lemma_wire_injective<T: Serial>(a: T::V, b: T::V)
    requires
        T::encodable(a),
        T::encodable(b),
        T::may_follow(Seq::<u8>::empty()),
        T::wire(a) == T::wire(b),
    ensures
        a == b,
{
    lemma_decode_encode::<T>(a);
    lemma_decode_encode::<T>(b);
}

/// Whether a value of `T` ends where its bytes end, whatever comes next.
pub open spec fn self_delimiting<T: Serial>() -> bool {
    forall|tail: Seq<u8>| #[trigger] T::may_follow(tail)
}

/// The mathematical contents of a run of values.
pub open spec fn views<T: View>(items: Seq<T>) -> Seq<T::V> {
    items.map_values(|t: T| t@)
}

impl Serial for u8 {
    open spec fn encodable(v: u8) -> bool {
        true
    }

    open spec fn wire(v: u8) -> Seq<u8> {
        seq![v]
    }

    open spec fn parse(s: Seq<u8>) -> Result<(u8, int), DecodeError> {
        if s.len() >= 1 {
            Ok((s[0], 1))
        } else {
            Err(DecodeError::UnexpectedEof)
        }
    }

    open spec fn may_follow(tail: Seq<u8>) -> bool {
        true
    }

    proof fn lemma_round_trip(v: u8, tail: Seq<u8>) {
    }

    fn serialize(&self, dst: &mut Vec<u8>) -> (r: Result<(), EncodeError>) {
        dst.push(*self);
        Ok(())
    }

    fn deserialize(src: &[u8]) -> (r: Result<(u8, usize), DecodeError>) {
        if src.len() >= 1 {
            Ok((src[0], 1))
        } else {
            Err(DecodeError::UnexpectedEof)
        }
    }
}

impl Serial for u16 {
    open spec fn encodable(v: u16) -> bool {
        true
    }

    open spec fn wire(v: u16) -> Seq<u8> {
        le_u16(v)
    }

    open spec fn parse(s: Seq<u8>) -> Result<(u16, int), DecodeError> {
        if s.len() >= 2 {
            Ok((from_le_u16(s), 2))
        } else {
            Err(DecodeError::UnexpectedEof)
        }
    }

    open spec fn may_follow(tail: Seq<u8>) -> bool {
        true
    }

    proof fn lemma_round_trip(v: u16, tail: Seq<u8>) {
        lemma_read_write_u16(v, tail);
    }

    fn serialize(&self, dst: &mut Vec<u8>) -> (r: Result<(), EncodeError>) {
        let n: u16 = *self;
        dst.push((n % 0x100) as u8);
        dst.push((n / 0x100) as u8);
        Ok(())
    }

    fn deserialize(src: &[u8]) -> (r: Result<(u16, usize), DecodeError>) {
        if src.len() >= 2 {
            let n: u16 = src[0] as u16 + 0x100 * (src[1] as u16);
            Ok((n, 2))
        } else {
            Err(DecodeError::UnexpectedEof)
        }
    }
}

impl Serial for u32 {
    open spec fn encodable(v: u32) -> bool {
        true
    }

    open spec fn wire(v: u32) -> Seq<u8> {
        le_u32(v)
    }

    open spec fn parse(s: Seq<u8>) -> Result<(u32, int), DecodeError> {
        if s.len() >= 4 {
            Ok((from_le_u32(s), 4))
        } else {
            Err(DecodeError::UnexpectedEof)
        }
    }

    open spec fn may_follow(tail: Seq<u8>) -> bool {
        true
    }

    proof fn lemma_round_trip(v: u32, tail: Seq<u8>) {
        lemma_read_write_u32(v, tail);
    }

    fn serialize(&self, dst: &mut Vec<u8>) -> (r: Result<(), EncodeError>) {
        let n: u32 = *self;
        dst.push((n % 0x100) as u8);
        dst.push((n / 0x100 % 0x100) as u8);
        dst.push((n / 0x1_0000 % 0x100) as u8);
        dst.push((n / 0x100_0000) as u8);
        Ok(())
    }

    fn deserialize(src: &[u8]) -> (r: Result<(u32, usize), DecodeError>) {
        if src.len() >= 4 {
            let n: u32 = src[0] as u32 + 0x100 * (src[1] as u32) + 0x1_0000 * (src[2] as u32)
                + 0x100_0000 * (src[3] as u32);
            Ok((n, 4))
        } else {
            Err(DecodeError::UnexpectedEof)
        }
    }
}

impl Serial for u64 {
    open spec fn encodable(v: u64) -> bool {
        true
    }

    open spec fn wire(v: u64) -> Seq<u8> {
        le_u64(v)
    }

    open spec fn parse(s: Seq<u8>) -> Result<(u64, int), DecodeError> {
        if s.len() >= 8 {
            Ok((from_le_u64(s), 8))
        } else {
            Err(DecodeError::UnexpectedEof)
        }
    }

    open spec fn may_follow(tail: Seq<u8>) -> bool {
        true
    }

    proof fn lemma_round_trip(v: u64, tail: Seq<u8>) {
        lemma_read_write_u64(v, tail);
    }

    fn serialize(&self, dst: &mut Vec<u8>) -> (r: Result<(), EncodeError>) {
        let n: u64 = *self;
        dst.push((n % 0x100) as u8);
        dst.push((n / 0x100 % 0x100) as u8);
        dst.push((n / 0x1_0000 % 0x100) as u8);
        dst.push((n / 0x100_0000 % 0x100) as u8);
        dst.push((n / 0x1_0000_0000 % 0x100) as u8);
        dst.push((n / 0x100_0000_0000 % 0x100) as u8);
        dst.push((n / 0x1_0000_0000_0000 % 0x100) as u8);
        dst.push((n / 0x100_0000_0000_0000) as u8);
        Ok(())
    }

    fn deserialize(src: &[u8]) -> (r: Result<(u64, usize), DecodeError>) {
        if src.len() >= 8 {
            let low: u64 = src[0] as u64 + 0x100 * (src[1] as u64) + 0x1_0000 * (src[2] as u64)
                + 0x100_0000 * (src[3] as u64);
            let high: u64 = src[4] as u64 + 0x100 * (src[5] as u64) + 0x1_0000 * (src[6] as u64)
                + 0x100_0000 * (src[7] as u64);
            let n: u64 = low + 0x1_0000_0000 * high;
            Ok((n, 8))
        } else {
            Err(DecodeError::UnexpectedEof)
        }
    }
}

/// Appends the bytes of `a` and then those of `b`, or leaves `dst` as it was
/// where either has no byte image.
pub fn serialize_pair<A: Serial, B: Serial>(a: &A, b: &B, dst: &mut Vec<u8>) -> (r: Result<
    (),
    EncodeError,
>)
    ensures
        r is Ok <==> A::encodable(a@) && B::encodable(b@),
        r is Ok ==> final(dst)@ == old(dst)@ + (A::wire(a@) + B::wire(b@)),
        r is Err ==> final(dst)@ == old(dst)@ && r == Err::<(), EncodeError>(
            EncodeError::CountOverflow,
        ),
{
    let mark: usize = dst.len();
    match a.serialize(dst) {
        Ok(()) => {},
        Err(e) => {
            return Err(e);
        },
    }
    match b.serialize(dst) {
        Ok(()) => {
            Ok(())
        },
        Err(e) => {
            dst.truncate(mark);
            Err(e)
        },
    }
}

/// Two values, one after the other: the layout of a structure is the nesting
/// of such pairs over its fields, in the order in which they are declared.
impl<A: Serial, B: Serial> Serial for (A, B) {
    open spec fn encodable(v: (A::V, B::V)) -> bool {
        A::encodable(v.0) && B::encodable(v.1)
    }

    open spec fn wire(v: (A::V, B::V)) -> Seq<u8> {
        A::wire(v.0) + B::wire(v.1)
    }

    open spec fn parse(s: Seq<u8>) -> Result<((A::V, B::V), int), DecodeError> {
        match A::parse(s) {
            Err(e) => Err(e),
            Ok((a, used)) => match B::parse(s.skip(used)) {
                Err(e) => Err(e),
                Ok((b, more)) => Ok(((a, b), used + more)),
            },
        }
    }

    open spec fn may_follow(tail: Seq<u8>) -> bool {
        self_delimiting::<A>() && B::may_follow(tail)
    }

    proof fn lemma_round_trip(v: (A::V, B::V), tail: Seq<u8>) {
        let all = Self::wire(v) + tail;
        assert(all =~= A::wire(v.0) + (B::wire(v.1) + tail));
        A::lemma_round_trip(v.0, B::wire(v.1) + tail);
        assert(all.skip(A::wire(v.0).len() as int) =~= B::wire(v.1) + tail);
        B::lemma_round_trip(v.1, tail);
    }

    fn serialize(&self, dst: &mut Vec<u8>) -> (r: Result<(), EncodeError>) {
        serialize_pair(&self.0, &self.1, dst)
    }

    fn deserialize(src: &[u8]) -> (r: Result<((A, B), usize), DecodeError>) {
        match A::deserialize(src) {
            Err(e) => Err(e),
            Ok((a, used)) => match B::deserialize(slice_subrange(src, used, src.len())) {
                Err(e) => Err(e),
                Ok((b, more)) => Ok(((a, b), used + more)),
            },
        }
    }
}

} // verus!
