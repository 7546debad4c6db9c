//! A reference to an output of an earlier transaction.

use vstd::prelude::*;
use crate::error::BitcoinError;
use crate::txid::Txid;
use crate::wire::{le_u32, lemma_u32_le_round_trip, push_u32_le, read_u32_le, u32_le};

verus! {

/// The output `vout` of the transaction `txid`.
#[derive(Debug, PartialEq, Eq, Clone)]
pub struct OutPoint {
    pub txid: Txid,
    pub vout: u32,
}

/// What an [`OutPoint`] holds, as mathematical values.
pub struct OutPointModel {
    pub txid: Seq<u8>,
    pub vout: u32,
}

impl OutPointModel {
    /// The identifier has its 32 bytes.
    pub open spec fn well_formed(self) -> bool {
        self.txid.len() == 32
    }
}

impl View for OutPoint {
    type V = OutPointModel;

    open spec fn view(&self) -> OutPointModel {
        OutPointModel { txid: self.txid@, vout: self.vout }
    }
}

/// The 36 bytes of an outpoint: the identifier, then the index in
/// little-endian order.
pub open spec fn outpoint_encoding(p: OutPointModel) -> Seq<u8> {
    p.txid + u32_le(p.vout)
}

/// The outpoint at the start of `s` and the 36 bytes it takes, or `None`
/// where `s` is shorter.
pub open spec fn outpoint_parse(s: Seq<u8>) -> Option<(OutPointModel, nat)> {
    if s.len() < 36 {
        None
    } else {
        Some((OutPointModel { txid: s.take(32), vout: le_u32(s.skip(32)) }, 36nat))
    }
}

/// Parsing the encoding of an outpoint gives the outpoint back and takes
/// exactly the bytes of the encoding, of which there are 36.
pub proof fn lemma_outpoint_round_trip(p: OutPointModel)
    requires
        p.well_formed(),
    ensures
        outpoint_encoding(p).len() == 36,
        outpoint_parse(outpoint_encoding(p)) == Some((p, outpoint_encoding(p).len())),
{
    lemma_outpoint_round_trip_followed(p, Seq::empty());
    assert(outpoint_encoding(p) + Seq::empty() =~= outpoint_encoding(p));
}

/// The same holds with any bytes behind the encoding: they are left alone.
pub proof fn lemma_outpoint_round_trip_followed(p: OutPointModel, rest: Seq<u8>)
    requires
        p.well_formed(),
    ensures
        outpoint_encoding(p).len() == 36,
        outpoint_parse(outpoint_encoding(p) + rest) == Some((p, outpoint_encoding(p).len())),
{
    let s = outpoint_encoding(p) + rest;
    lemma_u32_le_round_trip(p.vout, rest);
    assert(s.take(32) =~= p.txid);
    assert(s.skip(32) =~= u32_le(p.vout) + rest);
}

/// Every outpoint value is well formed.
pub proof fn lemma_outpoint_well_formed(p: OutPoint)
    ensures
        p@.well_formed(),
{
}

impl OutPoint {
    /// The outpoint for output `vout` of the transaction whose identifier has
    /// the bytes `txid`, in the order of transmission.
    pub fn new(txid: [u8; 32], vout: u32) -> (point: Self)
        ensures
            point@ == (OutPointModel { txid: txid@, vout }),
            point.txid.0 == txid,
    {
        Self { vout, txid: Txid(txid) }
    }

    /// The 36 bytes of the outpoint.
    pub fn to_bytes(&self) -> (bytes: Vec<u8>)
        ensures
            bytes@ == outpoint_encoding(self@),
    {
        let mut bytes = self.txid.to_bytes();
        push_u32_le(&mut bytes, self.vout);
        bytes
    }

    /// Reads the outpoint at the start of `bytes`. Fails exactly where there
    /// are fewer than 36 bytes.
    pub fn from_bytes(bytes: &[u8]) -> (parsed: Result<(Self, usize), BitcoinError>)
        ensures
            match outpoint_parse(bytes@) {
                Some((p, n)) => parsed matches Ok((point, used)) && point@ == p && used == n,
                None => parsed == Err::<(OutPoint, usize), BitcoinError>(
                    BitcoinError::InsufficientBytes,
                ),
            },
    {
        if bytes.len() < 36 {
            return Err(BitcoinError::InsufficientBytes);
        }
        match Txid::from_bytes(bytes) {
            Ok((txid, _)) => {
                let vout = read_u32_le(bytes, 32);
                Ok((OutPoint { txid, vout }, 36))
            },
            Err(e) => Err(e),
        }
    }
}

} // verus!
