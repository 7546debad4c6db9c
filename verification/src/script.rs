//! An opaque byte payload with its length in front.

use vstd::prelude::*;
use vstd::slice::{slice_subrange, slice_to_vec};
use crate::compact_size::{
    CompactSize, compact_size_encoding, compact_size_parse, lemma_compact_size_parse_bounds,
    lemma_compact_size_round_trip_followed,
};
use crate::error::BitcoinError;
use crate::hextext::{from_hex, hex_bytes, hex_text, to_hex};

verus! {

/// The unlocking data of an input: any number of bytes.
#[derive(Debug, PartialEq, Eq, Clone)]
pub struct Script {
    pub bytes: Vec<u8>,
}

impl View for Script {
    type V = Seq<u8>;

    open spec fn view(&self) -> Seq<u8> {
        self.bytes@
    }
}

/// A payload whose length a 64-bit prefix can hold.
pub open spec fn script_well_formed(payload: Seq<u8>) -> bool {
    payload.len() <= u64::MAX
}

/// The encoding of a script: the length of the payload as a compact size,
/// then the payload.
pub open spec fn script_encoding(payload: Seq<u8>) -> Seq<u8> {
    compact_size_encoding(payload.len() as u64) + payload
}

/// The payload of the script at the start of `s` and the bytes that prefix
/// and payload take together, or `None` where the prefix is incomplete or
/// announces more bytes than follow it.
pub open spec fn script_parse(s: Seq<u8>) -> Option<(Seq<u8>, nat)> {
    match compact_size_parse(s) {
        None => None,
        Some((len, n)) => if s.len() < n + len {
            None
        } else {
            Some((s.subrange(n as int, n + len), (n + len) as nat))
        },
    }
}

/// Parsing the encoding of a script gives the payload back and takes
/// exactly the bytes of the encoding.
pub proof fn lemma_script_round_trip(payload: Seq<u8>)
    requires
        script_well_formed(payload),
    ensures
        script_parse(script_encoding(payload)) == Some((payload, script_encoding(payload).len())),
{
    lemma_script_round_trip_followed(payload, Seq::empty());
    assert(script_encoding(payload) + Seq::empty() =~= script_encoding(payload));
}

/// The same holds with any bytes behind the encoding: they are left alone.
pub proof fn lemma_script_round_trip_followed(payload: Seq<u8>, rest: Seq<u8>)
    requires
        script_well_formed(payload),
    ensures
        script_parse(script_encoding(payload) + rest) == Some(
            (payload, script_encoding(payload).len()),
        ),
{
    let prefix = compact_size_encoding(payload.len() as u64);
    let s = script_encoding(payload) + rest;
    lemma_compact_size_round_trip_followed(payload.len() as u64, payload + rest);
    assert(s =~= prefix + (payload + rest));
}

/// A parse never takes more bytes than there are, and the payload is as
/// long as what was taken after the prefix.
pub proof fn lemma_script_parse_bounds(s: Seq<u8>)
    ensures
        match script_parse(s) {
            Some((payload, n)) => 1 <= n <= s.len() && payload.len() < n,
            None => true,
        },
{
    lemma_compact_size_parse_bounds(s);
}

/// Every script value is well formed.
pub proof fn lemma_script_well_formed(script: Script)
    ensures
        script_well_formed(script@),
{
    assert(script.bytes.len() == script@.len());
}

impl Script {
    /// The script with this payload.
    pub fn new(bytes: Vec<u8>) -> (script: Self)
        ensures
            script.bytes == bytes,
    {
        Self { bytes }
    }

    /// The payload, read-only.
    pub fn as_bytes(&self) -> (bytes: &Vec<u8>)
        ensures
            bytes@ == self@,
    {
        &self.bytes
    }

    /// The payload as lowercase hexadecimal text.
    pub fn to_hex(&self) -> (text: String)
        ensures
            text@ == hex_text(self@),
    {
        to_hex(self.bytes.as_slice())
    }

    /// The script whose payload `text` stands for. Fails with
    /// `InvalidFormat` exactly where the text is not hexadecimal.
    pub fn from_hex(text: &str) -> (parsed: Result<Self, BitcoinError>)
        ensures
            match hex_bytes(text@) {
                Some(payload) => parsed matches Ok(script) && script@ == payload,
                None => parsed == Err::<Script, BitcoinError>(BitcoinError::InvalidFormat),
            },
    {
        match from_hex(text) {
            Ok(bytes) => Ok(Script { bytes }),
            Err(e) => Err(e),
        }
    }

    /// The length prefix followed by the payload.
    pub fn to_bytes(&self) -> (bytes: Vec<u8>)
        ensures
            bytes@ == script_encoding(self@),
    {
        let len = CompactSize::new(self.bytes.len() as u64);
        let mut result = len.to_bytes();
        let mut payload = slice_to_vec(self.bytes.as_slice());
        result.append(&mut payload);
        result
    }

    /// Reads the script at the start of `bytes`. Fails exactly where the
    /// length prefix is incomplete or the buffer holds fewer bytes after it
    /// than it announces; the announced length is compared with what is
    /// there before anything is copied.
    pub fn from_bytes(bytes: &[u8]) -> (parsed: Result<(Self, usize), BitcoinError>)
        ensures
            match script_parse(bytes@) {
                Some((payload, n)) => parsed matches Ok((script, used)) && script@ == payload
                    && used == n,
                None => parsed == Err::<(Script, usize), BitcoinError>(
                    BitcoinError::InsufficientBytes,
                ),
            },
    {
        proof {
            lemma_compact_size_parse_bounds(bytes@);
        }
        match CompactSize::from_bytes(bytes) {
            Err(e) => Err(e),
            Ok((len, len_bytes)) => {
                let available: usize = bytes.len() - len_bytes;
                if (available as u64) < len.value {
                    return Err(BitcoinError::InsufficientBytes);
                }
                let len_script: usize = len.value as usize;
                let total_needed: usize = len_bytes + len_script;
                let script_bytes = slice_to_vec(slice_subrange(bytes, len_bytes, total_needed));
                Ok((Script::new(script_bytes), total_needed))
            },
        }
    }
}

} // verus!
