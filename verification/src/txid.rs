//! The 32-byte identifier of a transaction.

use vstd::prelude::*;
use crate::error::BitcoinError;
use crate::hextext::{from_hex, hex_bytes, hex_text, lemma_hex_round_trip, to_hex};

verus! {

/// A transaction identifier: exactly 32 bytes, kept in the order in which
/// they are transmitted.
#[derive(Debug, PartialEq, Eq, Clone, Copy)]
pub struct Txid(pub [u8; 32]);

impl View for Txid {
    type V = Seq<u8>;

    open spec fn view(&self) -> Seq<u8> {
        self.0@
    }
}

/// The identifier at the start of `s` and the 32 bytes it takes, or `None`
/// where `s` is shorter.
pub open spec fn txid_parse(s: Seq<u8>) -> Option<(Seq<u8>, nat)> {
    if s.len() < 32 {
        None
    } else {
        Some((s.take(32), 32nat))
    }
}

/// An identifier always holds 32 bytes.
pub proof fn lemma_txid_len(id: Txid)
    ensures
        id@.len() == 32,
{
}

/// Parsing the bytes of an identifier gives them back, alone and with
/// anything behind them.
pub proof fn lemma_txid_round_trip(id: Txid, rest: Seq<u8>)
    ensures
        txid_parse(id@) == Some((id@, 32nat)),
        txid_parse(id@ + rest) == Some((id@, 32nat)),
{
    assert(id@.take(32) =~= id@);
    assert((id@ + rest).take(32) =~= id@);
}

/// The text form of an identifier: its bytes in reverse order, as lowercase
/// hexadecimal. The order in which an identifier is displayed is the reverse
/// of the order in which it is transmitted.
pub open spec fn txid_text(id: Seq<u8>) -> Seq<char> {
    hex_text(id.reverse())
}

/// The identifier that `text` displays: the bytes that the text stands for,
/// put back into the order of transmission. `None` where the text is not
/// hexadecimal or does not stand for exactly 32 bytes.
pub open spec fn txid_from_text(text: Seq<char>) -> Option<Seq<u8>> {
    match hex_bytes(text) {
        Some(bytes) => if bytes.len() == 32 {
            Some(bytes.reverse())
        } else {
            None
        },
        None => None,
    }
}

/// Reading the text form of an identifier gives the identifier back.
pub proof fn lemma_txid_text_round_trip(id: Seq<u8>)
    requires
        id.len() == 32,
    ensures
        txid_from_text(txid_text(id)) == Some(id),
{
    lemma_hex_round_trip(id.reverse());
}

impl Txid {
    /// The identifier as text: 64 lowercase hexadecimal digits, the last
    /// byte first.
    pub fn to_hex(&self) -> (text: String)
        ensures
            text@ == txid_text(self@),
    {
        let mut turned: Vec<u8> = Vec::new();
        let mut i: usize = 32;
        while i > 0
            invariant
                i <= 32,
                turned@.len() == 32 - i,
                forall|j: int| 0 <= j < turned@.len() ==> turned@[j] == self@[31 - j],
            decreases i,
        {
            i -= 1;
            turned.push(self.0[i]);
        }
        to_hex(turned.as_slice())
    }

    /// Reads an identifier from its text form. Fails with `InvalidFormat`
    /// exactly where the text is not hexadecimal or does not stand for 32
    /// bytes.
    pub fn from_hex(text: &str) -> (parsed: Result<Self, BitcoinError>)
        ensures
            match txid_from_text(text@) {
                Some(id) => parsed matches Ok(t) && t@ == id,
                None => parsed == Err::<Txid, BitcoinError>(BitcoinError::InvalidFormat),
            },
    {
        let bytes = match from_hex(text) {
            Ok(found) => found,
            Err(e) => {
                return Err(e);
            },
        };
        if bytes.len() != 32 {
            return Err(BitcoinError::InvalidFormat);
        }
        let mut id: [u8; 32] = [0u8; 32];
        let mut i: usize = 0;
        while i < 32
            invariant
                i <= 32,
                bytes@.len() == 32,
                forall|j: int| 0 <= j < i ==> id@[j] == bytes@[31 - j],
            decreases 32 - i,
        {
            id[i] = bytes[31 - i];
            i += 1;
        }
        Ok(Txid(id))
    }

    /// The 32 bytes as they are, with no length in front.
    pub fn to_bytes(&self) -> (bytes: Vec<u8>)
        ensures
            bytes@ == self@,
    {
        let mut bytes: Vec<u8> = Vec::new();
        let mut i: usize = 0;
        while i < 32
            invariant
                i <= 32,
                bytes@ == self@.take(i as int),
            decreases 32 - i,
        {
            bytes.push(self.0[i]);
            i += 1;
        }
        bytes
    }

    /// Copies the first 32 bytes of `bytes`. Fails exactly where there are
    /// fewer.
    pub fn from_bytes(bytes: &[u8]) -> (parsed: Result<(Self, usize), BitcoinError>)
        ensures
            match txid_parse(bytes@) {
                Some((id, n)) => parsed matches Ok((t, used)) && t@ == id && used == n,
                None => parsed == Err::<(Txid, usize), BitcoinError>(
                    BitcoinError::InsufficientBytes,
                ),
            },
    {
        if bytes.len() < 32 {
            return Err(BitcoinError::InsufficientBytes);
        }
        let mut id: [u8; 32] = [0u8; 32];
        let mut i: usize = 0;
        while i < 32
            invariant
                i <= 32,
                bytes@.len() >= 32,
                forall|j: int| 0 <= j < i ==> id@[j] == bytes@[j],
            decreases 32 - i,
        {
            id[i] = bytes[i];
            i += 1;
        }
        Ok((Txid(id), 32))
    }
}

} // verus!
