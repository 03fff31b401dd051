//! Strings on the wire: a 32-bit count of UTF-16 code units, then the units.

use crate::array::{lemma_round_trip_all, parse_n, read_array, wire_all, write_array};
use crate::error::{DecodeError, EncodeError};
use crate::serial::{views, Serial};
use crate::wire::{from_le_u32, le_u32, lemma_read_write_u32};
use vstd::prelude::*;
use vstd::slice::slice_subrange;

verus! {

/// Whether `u` is the first unit of a surrogate pair.
pub open spec fn is_lead(u: u16) -> bool {
    0xD800 <= u < 0xDC00
}

/// Whether `u` is the second unit of a surrogate pair.
pub open spec fn is_trail(u: u16) -> bool {
    0xDC00 <= u < 0xE000
}

/// The code point that a surrogate pair stands for.
pub open spec fn pair_value(lead: u16, trail: u16) -> int {
    0x1_0000 + (lead - 0xD800) * 0x400 + (trail - 0xDC00)
}

/// The one or two UTF-16 code units of `c`.
pub open spec fn utf16_of_char(c: char) -> Seq<u16> {
    let v = c as int;
    if v < 0x1_0000 {
        seq![v as u16]
    } else {
        seq![(0xD800 + (v - 0x1_0000) / 0x400) as u16, (0xDC00 + (v - 0x1_0000) % 0x400) as u16]
    }
}

/// The UTF-16 code units of a text.
pub open spec fn utf16_units(s: Seq<char>) -> Seq<u16>
    decreases s.len(),
{
    if s.len() == 0 {
        Seq::empty()
    } else {
        utf16_of_char(s[0]) + utf16_units(s.drop_first())
    }
}

/// The text that code units spell, or `None` where they are not well-formed
/// UTF-16: a lead surrogate without its trail, or a trail on its own.
pub open spec fn utf16_chars(u: Seq<u16>) -> Option<Seq<char>>
    decreases u.len(),
{
    if u.len() == 0 {
        Some(Seq::empty())
    } else if !is_lead(u[0]) && !is_trail(u[0]) {
        match utf16_chars(u.skip(1)) {
            Some(rest) => Some(seq![u[0] as char] + rest),
            None => None,
        }
    } else if is_lead(u[0]) && u.len() >= 2 && is_trail(u[1]) {
        match utf16_chars(u.skip(2)) {
            Some(rest) => Some(seq![pair_value(u[0], u[1]) as char] + rest),
            None => None,
        }
    } else {
        None
    }
}

/// A character is a code point that is no surrogate.
pub proof fn lemma_char_range(c: char)
    ensures
        0 <= c as int <= 0x10_FFFF,
        !(0xD800 <= c as int && (c as int) < 0xE000),
{
}

/// The units of a text with one more character are the units of the text
/// and then those of the character.
pub proof fn lemma_units_push(s: Seq<char>, c: char)
    ensures
        utf16_units(s.push(c)) == utf16_units(s) + utf16_of_char(c),
    decreases s.len(),
{
    if s.len() == 0 {
        assert(s.push(c).drop_first() =~= Seq::<char>::empty());
        assert(utf16_units(Seq::<char>::empty()) =~= Seq::<u16>::empty());
    } else {
        lemma_units_push(s.drop_first(), c);
        assert(s.push(c).drop_first() =~= s.drop_first().push(c));
    }
}

/// The code units of a text spell that text.
pub proof fn lemma_utf16_round_trip(s: Seq<char>)
    ensures
        utf16_chars(utf16_units(s)) == Some(s),
    decreases s.len(),
{
    if s.len() > 0 {
        let rest = s.drop_first();
        let u = utf16_units(s);
        lemma_utf16_round_trip(rest);
        lemma_char_range(s[0]);
        if (s[0] as int) < 0x1_0000 {
            assert(u.skip(1) =~= utf16_units(rest));
        } else {
            assert(u.skip(2) =~= utf16_units(rest));
        }
    }
}

/// `char::from_u32` of the standard library: the character with code point
/// `i`, or `None` where `i` is a surrogate or lies beyond the last code
/// point.
pub assume_specification[ char::from_u32 ](i: u32) -> (r: Option<char>)
    ensures
        r == (if i < 0xD800 || (0xE000 <= i && i <= 0x10_FFFF) {
            Some(i as char)
        } else {
            None
        }),
;

/// `String::push` of the standard library: it appends one character.
pub assume_specification[ String::push ](s: &mut String, c: char)
    ensures
        final(s)@ == old(s)@.push(c),
;

/// The UTF-16 code units of `s`.
pub fn encode_utf16(s: &str) -> (units: Vec<u16>)
    ensures
        units@ == utf16_units(s@),
{
    let mut units: Vec<u16> = Vec::new();
    for c in it: s.chars()
        invariant
            it.seq() == s@,
            units@ == utf16_units(s@.take(it.index() as int)),
    {
        proof {
            lemma_char_range(c);
            lemma_units_push(s@.take(it.index() as int), c);
            assert(s@.take(it.index() + 1) =~= s@.take(it.index() as int).push(c));
        }
        let v: u32 = c as u32;
        if v < 0x1_0000 {
            units.push(v as u16);
        } else {
            let w: u32 = v - 0x1_0000;
            units.push((0xD800 + w / 0x400) as u16);
            units.push((0xDC00 + w % 0x400) as u16);
        }
    }
    assert(s@.take(s@.len() as int) =~= s@);
    units
}

/// Where `done` spells the first `pos` units, the whole spells `done` and
/// then what the units from `pos` on spell.
spec fn utf16_chars_from(u: Seq<u16>, done: Seq<char>, pos: int) -> Option<Seq<char>> {
    match utf16_chars(u.skip(pos)) {
        Some(rest) => Some(done + rest),
        None => None,
    }
}

/// The text that `units` spell, or `None` where they are not well-formed
/// UTF-16.
pub fn decode_utf16(units: &[u16]) -> (r: Option<String>)
    ensures
        match utf16_chars(units@) {
            Some(cs) => r matches Some(s) && s@ == cs,
            None => r is None,
        },
{
    let mut out = String::new();
    let mut i: usize = 0;
    assert(units@.skip(0) =~= units@);
    while i < units.len()
        invariant
            i <= units@.len(),
            utf16_chars(units@) == utf16_chars_from(units@, out@, i as int),
        decreases units@.len() - i,
    {
        let ghost here = units@.skip(i as int);
        let ghost done = out@;
        let u: u16 = units[i];
        if u < 0xD800 || u >= 0xE000 {
            match char::from_u32(u as u32) {
                Some(c) => {
                    out.push(c);
                },
                None => {
                    assert(false);
                },
            }
            proof {
                assert(here.skip(1) =~= units@.skip(i + 1));
                match utf16_chars(here.skip(1)) {
                    Some(rest) => {
                        assert(done + (seq![u as char] + rest) =~= done.push(u as char) + rest);
                    },
                    None => {},
                }
            }
            i = i + 1;
        } else if u < 0xDC00 && i + 1 < units.len() && 0xDC00 <= units[i + 1] && units[i + 1]
            < 0xE000 {
            let t: u16 = units[i + 1];
            let v: u32 = 0x1_0000 + (u as u32 - 0xD800) * 0x400 + (t as u32 - 0xDC00);
            match char::from_u32(v) {
                Some(c) => {
                    out.push(c);
                },
                None => {
                    assert(false);
                },
            }
            proof {
                assert(here.skip(2) =~= units@.skip(i + 2));
                match utf16_chars(here.skip(2)) {
                    Some(rest) => {
                        assert(done + (seq![pair_value(u, t) as char] + rest) =~= done.push(
                            pair_value(u, t) as char,
                        ) + rest);
                    },
                    None => {},
                }
            }
            i = i + 2;
        } else {
            return None;
        }
    }
    Some(out)
}

impl Serial for String {
    open spec fn encodable(v: Seq<char>) -> bool {
        utf16_units(v).len() <= u32::MAX
    }

    open spec fn wire(v: Seq<char>) -> Seq<u8> {
        le_u32(utf16_units(v).len() as u32) + wire_all::<u16>(utf16_units(v))
    }

    open spec fn parse(s: Seq<u8>) -> Result<(Seq<char>, int), DecodeError> {
        if s.len() < 4 {
            Err(DecodeError::UnexpectedEof)
        } else {
            match parse_n::<u16>(s.skip(4), from_le_u32(s) as nat) {
                Err(e) => Err(e),
                Ok((units, used)) => match utf16_chars(units) {
                    Some(text) => Ok((text, 4 + used)),
                    None => Err(DecodeError::InvalidUtf16),
                },
            }
        }
    }

    open spec fn may_follow(tail: Seq<u8>) -> bool {
        true
    }

    proof fn lemma_round_trip(v: Seq<char>, tail: Seq<u8>) {
        let units = utf16_units(v);
        let all = Self::wire(v) + tail;
        lemma_read_write_u32(units.len() as u32, wire_all::<u16>(units) + tail);
        assert(all.skip(4) =~= wire_all::<u16>(units) + tail);
        lemma_round_trip_all::<u16>(units, tail);
        lemma_utf16_round_trip(v);
    }

    fn serialize(&self, dst: &mut Vec<u8>) -> (r: Result<(), EncodeError>) {
        let units = encode_utf16(self.as_str());
        if units.len() > 0xFFFF_FFFF {
            return Err(EncodeError::CountOverflow);
        }
        let count: u32 = units.len() as u32;
        let _ = count.serialize(dst);
        let _ = write_array(units.as_slice(), dst);
        assert(views(units@) =~= units@);
        Ok(())
    }

    fn deserialize(src: &[u8]) -> (r: Result<(String, usize), DecodeError>) {
        match u32::deserialize(src) {
            Err(e) => Err(e),
            Ok((count, _)) => {
                match read_array::<u16>(slice_subrange(src, 4, src.len()), count as usize) {
                    Err(e) => Err(e),
                    Ok((units, used)) => {
                        assert(views(units@) =~= units@);
                        match decode_utf16(units.as_slice()) {
                            Some(text) => Ok((text, 4 + used)),
                            None => Err(DecodeError::InvalidUtf16),
                        }
                    },
                }
            },
        }
    }
}

} // verus!
