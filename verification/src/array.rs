//! Runs of values: one after the other, with nothing between them.
//!
//! A run is written without a count. How many values are read back is
//! either known beforehand, as for an array of fixed size, or it is as many
//! as there are, as for a list that ends where the payload ends.

use crate::error::{DecodeError, EncodeError};
use crate::serial::{self_delimiting, views, Serial};
use vstd::prelude::*;
use vstd::slice::slice_subrange;

verus! {

/// The bytes of the values of `vs`, one after the other, with nothing
/// between them and no count in front.
pub open spec fn wire_all<T: Serial>(vs: Seq<T::V>) -> Seq<u8>
    decreases vs.len(),
{
    if vs.len() == 0 {
        Seq::empty()
    } else {
        T::wire(vs[0]) + wire_all::<T>(vs.drop_first())
    }
}

/// Exactly `n` values read one after the other from the front of `s`, and
/// the number of bytes they take up together; the first failure is the
/// failure of the whole.
pub open spec fn parse_n<T: Serial>(s: Seq<u8>, n: nat) -> Result<(Seq<T::V>, int), DecodeError>
    decreases n,
{
    if n == 0 {
        Ok((Seq::empty(), 0))
    } else {
        match T::parse(s) {
            Err(e) => Err(e),
            Ok((v, used)) => match parse_n::<T>(s.skip(used), (n - 1) as nat) {
                Err(e) => Err(e),
                Ok((rest, more)) => Ok((seq![v] + rest, used + more)),
            },
        }
    }
}

/// Whether every value of `vs` has a byte image.
pub open spec fn all_encodable<T: Serial>(vs: Seq<T::V>) -> bool {
    forall|i: int| 0 <= i < vs.len() ==> T::encodable(#[trigger] vs[i])
}

/// The bytes of a list with one more value are the bytes of the list and
/// then those of the value.
pub proof fn lemma_wire_all_push<T: Serial>(vs: Seq<T::V>, v: T::V)
    ensures
        wire_all::<T>(vs.push(v)) == wire_all::<T>(vs) + T::wire(v),
    decreases vs.len(),
{
    if vs.len() == 0 {
        assert(vs.push(v).drop_first() =~= Seq::<T::V>::empty());
        assert(wire_all::<T>(Seq::<T::V>::empty()) =~= Seq::<u8>::empty());
    } else {
        lemma_wire_all_push::<T>(vs.drop_first(), v);
        assert(vs.push(v).drop_first() =~= vs.drop_first().push(v));
    }
}

/// Reading a counted run of values that were written one after the other
/// gives them back, and takes exactly their bytes.
pub proof fn lemma_round_trip_all<T: Serial>(vs: Seq<T::V>, tail: Seq<u8>)
    requires
        all_encodable::<T>(vs),
        self_delimiting::<T>(),
    ensures
        parse_n::<T>(wire_all::<T>(vs) + tail, vs.len()) == Ok::<(Seq<T::V>, int), DecodeError>(
            (vs, wire_all::<T>(vs).len() as int),
        ),
    decreases vs.len(),
{
    if vs.len() == 0 {
        assert(vs =~= Seq::<T::V>::empty());
    } else {
        let head = T::wire(vs[0]);
        let rest = vs.drop_first();
        let all = wire_all::<T>(vs) + tail;
        assert(all =~= head + (wire_all::<T>(rest) + tail));
        T::lemma_round_trip(vs[0], wire_all::<T>(rest) + tail);
        assert(all.skip(head.len() as int) =~= wire_all::<T>(rest) + tail);
        lemma_round_trip_all::<T>(rest, tail);
        assert(seq![vs[0]] + rest =~= vs);
    }
}

/// One step of reading a run from the front: where `done` values took the
/// first `pos` bytes, the run as a whole is those values and then the rest
/// of the run, read from `pos` on.
spec fn parse_n_from<T: Serial>(
    s: Seq<u8>,
    done: Seq<T::V>,
    pos: int,
    left: nat,
) -> Result<(Seq<T::V>, int), DecodeError> {
    match parse_n::<T>(s.skip(pos), left) {
        Err(e) => Err(e),
        Ok((rest, more)) => Ok((done + rest, pos + more)),
    }
}

/// Reading one more value moves a run one step on.
proof fn lemma_parse_n_step<T: Serial>(s: Seq<u8>, done: Seq<T::V>, pos: int, left: nat)
    requires
        0 <= pos <= s.len(),
        left > 0,
    ensures
        match T::parse(s.skip(pos)) {
            Err(e) => parse_n_from::<T>(s, done, pos, left) == Err::<(Seq<T::V>, int), DecodeError>(
                e,
            ),
            Ok((v, used)) => 0 <= used <= s.len() - pos ==> parse_n_from::<T>(s, done, pos, left)
                == parse_n_from::<T>(s, done.push(v), pos + used, (left - 1) as nat),
        },
{
    match T::parse(s.skip(pos)) {
        Err(e) => {},
        Ok((v, used)) => {
            if 0 <= used <= s.len() - pos {
                assert(s.skip(pos).skip(used) =~= s.skip(pos + used));
                match parse_n::<T>(s.skip(pos + used), (left - 1) as nat) {
                    Err(e) => {},
                    Ok((rest, more)) => {
                        assert(done + (seq![v] + rest) =~= done.push(v) + rest);
                    },
                }
            }
        },
    }
}

/// What is read as a run of `n` values has `n` values.
pub proof fn lemma_parse_n_len<T: Serial>(s: Seq<u8>, n: nat)
    ensures
        parse_n::<T>(s, n) matches Ok((vs, used)) ==> vs.len() == n,
    decreases n,
{
    if n > 0 {
        match T::parse(s) {
            Err(e) => {},
            Ok((v, used)) => {
                lemma_parse_n_len::<T>(s.skip(used), (n - 1) as nat);
            },
        }
    }
}

/// Appends the bytes of every element of `items`, in order and with no
/// count, or leaves `dst` as it was where one of them has no byte image.
pub fn write_array<T: Serial>(items: &[T], dst: &mut Vec<u8>) -> (r: Result<(), EncodeError>)
    ensures
        r is Ok <==> all_encodable::<T>(views(items@)),
        r is Ok ==> final(dst)@ == old(dst)@ + wire_all::<T>(views(items@)),
        r is Err ==> final(dst)@ == old(dst)@ && r == Err::<(), EncodeError>(
            EncodeError::CountOverflow,
        ),
{
    let ghost all = views(items@);
    let mark: usize = dst.len();
    let mut i: usize = 0;
    while i < items.len()
        invariant
            i <= items@.len(),
            all == views(items@),
            mark == old(dst)@.len(),
            dst@ == old(dst)@ + wire_all::<T>(all.take(i as int)),
            all_encodable::<T>(all.take(i as int)),
        decreases items@.len() - i,
    {
        match items[i].serialize(dst) {
            Ok(()) => {
                proof {
                    lemma_wire_all_push::<T>(all.take(i as int), all[i as int]);
                    assert(all.take(i + 1) =~= all.take(i as int).push(all[i as int]));
                }
            },
            Err(e) => {
                dst.truncate(mark);
                return Err(e);
            },
        }
        i = i + 1;
    }
    assert(all.take(items@.len() as int) =~= all);
    Ok(())
}

/// Reads exactly `n` values from the front of `src`, one after the other,
/// and says how many bytes they took together.
pub fn read_array<T: Serial>(src: &[u8], n: usize) -> (r: Result<(Vec<T>, usize), DecodeError>)
    ensures
        match parse_n::<T>(src@, n as nat) {
            Ok((vs, used)) => r matches Ok((items, k)) && views(items@) == vs && items@.len() == n
                && k == used && k <= src@.len(),
            Err(e) => r == Err::<(Vec<T>, usize), DecodeError>(e),
        },
{
    let mut items: Vec<T> = Vec::new();
    let mut pos: usize = 0;
    let mut i: usize = 0;
    assert(src@.skip(0) =~= src@);
    while i < n
        invariant
            i <= n,
            pos <= src@.len(),
            items@.len() == i,
            parse_n::<T>(src@, n as nat) == parse_n_from::<T>(
                src@,
                views(items@),
                pos as int,
                (n - i) as nat,
            ),
        decreases n - i,
    {
        proof {
            lemma_parse_n_step::<T>(src@, views(items@), pos as int, (n - i) as nat);
        }
        match T::deserialize(slice_subrange(src, pos, src.len())) {
            Err(e) => {
                return Err(e);
            },
            Ok((val, used)) => {
                proof {
                    assert(views(items@.push(val)) =~= views(items@).push(val@));
                }
                items.push(val);
                pos = pos + used;
            },
        }
        i = i + 1;
    }
    Ok((items, pos))
}

/// As many values as can be read one after the other from the front of `s`,
/// and the number of bytes they take up together. The run ends at the first
/// value that cannot be read, or that would take no bytes at all.
pub open spec fn parse_many<T: Serial>(s: Seq<u8>) -> (Seq<T::V>, int)
    decreases s.len(),
{
    match T::parse(s) {
        Ok((v, used)) => if 0 < used <= s.len() {
            let (rest, more) = parse_many::<T>(s.skip(used));
            (seq![v] + rest, used + more)
        } else {
            (Seq::empty(), 0)
        },
        Err(_) => (Seq::empty(), 0),
    }
}

/// Where `done` values took the first `pos` bytes, the uncounted run as a
/// whole is those values and then the run read from `pos` on.
spec fn parse_many_from<T: Serial>(s: Seq<u8>, done: Seq<T::V>, pos: int) -> (
    Seq<T::V>,
    int,
) {
    let (rest, more) = parse_many::<T>(s.skip(pos));
    (done + rest, pos + more)
}

/// Reading an uncounted run of values that were written one after the other
/// gives them back, provided each takes at least one byte and nothing that
/// reads as a further value stands behind them.
pub proof fn lemma_round_trip_many<T: Serial>(vs: Seq<T::V>, tail: Seq<u8>)
    requires
        all_encodable::<T>(vs),
        self_delimiting::<T>(),
        forall|i: int| 0 <= i < vs.len() ==> (#[trigger] T::wire(vs[i])).len() > 0,
        T::parse(tail) is Err,
    ensures
        parse_many::<T>(wire_all::<T>(vs) + tail) == (vs, wire_all::<T>(vs).len() as int),
    decreases vs.len(),
{
    if vs.len() > 0 {
        let head = T::wire(vs[0]);
        let rest = vs.drop_first();
        let all = wire_all::<T>(vs) + tail;
        assert(all =~= head + (wire_all::<T>(rest) + tail));
        T::lemma_round_trip(vs[0], wire_all::<T>(rest) + tail);
        assert(all.skip(head.len() as int) =~= wire_all::<T>(rest) + tail);
        assert forall|i: int| 0 <= i < rest.len() implies (#[trigger] T::wire(rest[i])).len()
            > 0 by {
            assert(rest[i] == vs[i + 1]);
        }
        lemma_round_trip_many::<T>(rest, tail);
    }
}

/// Reads values from the front of `src` for as long as one can be read, and
/// says how many bytes they took together.
pub fn read_many<T: Serial>(src: &[u8]) -> (r: (Vec<T>, usize))
    ensures
        (views(r.0@), r.1 as int) == parse_many::<T>(src@),
        r.1 <= src@.len(),
{
    let mut items: Vec<T> = Vec::new();
    let mut pos: usize = 0;
    assert(src@.skip(0) =~= src@);
    loop
        invariant
            pos <= src@.len(),
            parse_many::<T>(src@) == parse_many_from::<T>(src@, views(items@), pos as int),
        ensures
            pos <= src@.len(),
            (views(items@), pos as int) == parse_many::<T>(src@),
        decreases src@.len() - pos,
    {
        match T::deserialize(slice_subrange(src, pos, src.len())) {
            Ok((val, used)) => {
                if used == 0 {
                    break ;
                }
                assert(src@.skip(pos as int).skip(used as int) =~= src@.skip(pos + used));
                items.push(val);
                pos = pos + used;
            },
            Err(_) => {
                break ;
            },
        }
    }
    (items, pos)
}

/// The bytes of a run of bytes are the run itself.
pub proof fn lemma_bytes_wire(b: Seq<u8>)
    ensures
        wire_all::<u8>(b) == b,
    decreases b.len(),
{
    if b.len() > 0 {
        lemma_bytes_wire(b.drop_first());
    }
}

/// Reading `n` bytes succeeds exactly where `n` bytes are there, and gives
/// the first `n` of them.
pub proof fn lemma_bytes_parse(s: Seq<u8>, n: nat)
    ensures
        parse_n::<u8>(s, n) == (if s.len() >= n {
            Ok::<(Seq<u8>, int), DecodeError>((s.take(n as int), n as int))
        } else {
            Err::<(Seq<u8>, int), DecodeError>(DecodeError::UnexpectedEof)
        }),
    decreases n,
{
    if n == 0 {
        assert(s.take(0) =~= Seq::<u8>::empty());
    } else if s.len() >= 1 {
        lemma_bytes_parse(s.skip(1), (n - 1) as nat);
        if s.len() >= n {
            assert(seq![s[0]] + s.skip(1).take(n - 1) =~= s.take(n as int));
        }
    }
}

} // verus!
