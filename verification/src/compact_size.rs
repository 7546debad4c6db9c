//! The variable-length unsigned integer that prefixes counts and lengths.

use vstd::prelude::*;
use crate::error::BitcoinError;
use crate::wire::{
    le_u16, le_u32, le_u64, lemma_u16_le_round_trip, lemma_u32_le_round_trip,
    lemma_u64_le_round_trip, push_u16_le, push_u32_le, push_u64_le, read_u16_le, read_u32_le,
    read_u64_le, u16_le, u32_le, u64_le,
};

verus! {

/// An unsigned 64-bit number that is written in one, three, five or nine
/// bytes, the fewest that hold it.
#[derive(Debug, PartialEq, Eq, Clone, Copy, Structural)]
pub struct CompactSize {
    pub value: u64,
}

/// The canonical encoding of `v`: the value itself up to 252, else a marker
/// byte and the value in two, four or eight little-endian bytes, in the
/// smallest class that holds it.
pub open spec fn compact_size_encoding(v: u64) -> Seq<u8> {
    if v <= 0xfc {
        seq![v as u8]
    } else if v <= 0xffff {
        seq![0xfdu8] + u16_le(v as u16)
    } else if v <= 0xffff_ffff {
        seq![0xfeu8] + u32_le(v as u32)
    } else {
        seq![0xffu8] + u64_le(v)
    }
}

/// The number that stands at the start of `s` and the count of bytes it
/// takes, or `None` where `s` is empty or ends before the class that its
/// first byte selects is complete. A value in a wider class than it needs is
/// read all the same.
pub open spec fn compact_size_parse(s: Seq<u8>) -> Option<(u64, nat)> {
    if s.len() == 0 {
        None
    } else if s[0] <= 0xfc {
        Some((s[0] as u64, 1nat))
    } else if s[0] == 0xfd {
        if s.len() < 3 {
            None
        } else {
            Some((le_u16(s.skip(1)) as u64, 3nat))
        }
    } else if s[0] == 0xfe {
        if s.len() < 5 {
            None
        } else {
            Some((le_u32(s.skip(1)) as u64, 5nat))
        }
    } else {
        if s.len() < 9 {
            None
        } else {
            Some((le_u64(s.skip(1)), 9nat))
        }
    }
}

/// Parsing the encoding of a number gives the number back and takes exactly
/// the bytes of the encoding.
pub proof fn lemma_compact_size_round_trip(v: u64)
    ensures
        compact_size_parse(compact_size_encoding(v)) == Some((v, compact_size_encoding(v).len())),
{
    lemma_compact_size_round_trip_followed(v, Seq::empty());
    assert(compact_size_encoding(v) + Seq::empty() =~= compact_size_encoding(v));
}

/// The same holds with any bytes behind the encoding: they are left alone.
pub proof fn lemma_compact_size_round_trip_followed(v: u64, rest: Seq<u8>)
    ensures
        compact_size_parse(compact_size_encoding(v) + rest) == Some(
            (v, compact_size_encoding(v).len()),
        ),
{
    let enc = compact_size_encoding(v);
    let s = enc + rest;
    if v <= 0xfc {
    } else if v <= 0xffff {
        lemma_u16_le_round_trip(v as u16, rest);
        assert(s.skip(1) =~= u16_le(v as u16) + rest);
    } else if v <= 0xffff_ffff {
        lemma_u32_le_round_trip(v as u32, rest);
        assert(s.skip(1) =~= u32_le(v as u32) + rest);
    } else {
        lemma_u64_le_round_trip(v, rest);
        assert(s.skip(1) =~= u64_le(v) + rest);
    }
}

/// The encoding is one, three, five or nine bytes long, by the range the
/// value falls in.
pub proof fn lemma_compact_size_encoding_len(v: u64)
    ensures
        compact_size_encoding(v).len() == if v <= 0xfc {
            1nat
        } else if v <= 0xffff {
            3nat
        } else if v <= 0xffff_ffff {
            5nat
        } else {
            9nat
        },
{
    lemma_u16_le_round_trip(v as u16, Seq::empty());
    lemma_u32_le_round_trip(v as u32, Seq::empty());
    lemma_u64_le_round_trip(v, Seq::empty());
}

/// The encoding is canonical: no byte sequence that reads as `v` does so in
/// fewer bytes than the encoding of `v` has.
pub proof fn lemma_compact_size_encoding_is_shortest(v: u64, s: Seq<u8>)
    requires
        compact_size_parse(s) matches Some((w, _)) && w == v,
    ensures
        compact_size_parse(s) matches Some((_, n)) && compact_size_encoding(v).len() <= n,
{
    lemma_compact_size_encoding_len(v);
}

/// A parse never takes more bytes than there are, and always takes one,
/// three, five or nine.
pub proof fn lemma_compact_size_parse_bounds(s: Seq<u8>)
    ensures
        match compact_size_parse(s) {
            Some((_, n)) => n <= s.len() && (n == 1 || n == 3 || n == 5 || n == 9),
            None => true,
        },
{
}

impl CompactSize {
    /// The compact size that holds `value`.
    pub fn new(value: u64) -> (size: Self)
        ensures
            size.value == value,
    {
        Self { value }
    }

    /// The canonical encoding of the value.
    pub fn to_bytes(&self) -> (bytes: Vec<u8>)
        ensures
            bytes@ == compact_size_encoding(self.value),
    {
        let mut bytes: Vec<u8> = Vec::new();
        if self.value <= 0xfc {
            bytes.push(self.value as u8);
        } else if self.value <= 0xffff {
            bytes.push(0xfd);
            push_u16_le(&mut bytes, self.value as u16);
        } else if self.value <= 0xffff_ffff {
            bytes.push(0xfe);
            push_u32_le(&mut bytes, self.value as u32);
        } else {
            bytes.push(0xff);
            push_u64_le(&mut bytes, self.value);
        }
        bytes
    }

    /// Reads the number at the start of `bytes`, with the count of bytes it
    /// takes. Fails exactly where the buffer is empty or shorter than its
    /// first byte announces.
    pub fn from_bytes(bytes: &[u8]) -> (parsed: Result<(Self, usize), BitcoinError>)
        ensures
            parsed == match compact_size_parse(bytes@) {
                Some((v, n)) => Ok::<(CompactSize, usize), BitcoinError>(
                    (CompactSize { value: v }, n as usize),
                ),
                None => Err(BitcoinError::InsufficientBytes),
            },
    {
        if bytes.len() == 0 {
            return Err(BitcoinError::InsufficientBytes);
        }
        let first: u8 = bytes[0];
        if first <= 0xfc {
            Ok((Self::new(first as u64), 1))
        } else if first == 0xfd {
            if bytes.len() < 3 {
                return Err(BitcoinError::InsufficientBytes);
            }
            Ok((Self::new(read_u16_le(bytes, 1) as u64), 3))
        } else if first == 0xfe {
            if bytes.len() < 5 {
                return Err(BitcoinError::InsufficientBytes);
            }
            Ok((Self::new(read_u32_le(bytes, 1) as u64), 5))
        } else {
            if bytes.len() < 9 {
                return Err(BitcoinError::InsufficientBytes);
            }
            Ok((Self::new(read_u64_le(bytes, 1)), 9))
        }
    }
}

} // verus!
