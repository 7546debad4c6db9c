//! One input of a transaction.

use vstd::prelude::*;
use vstd::slice::slice_subrange;
use crate::error::BitcoinError;
use crate::outpoint::{
    OutPoint, OutPointModel, lemma_outpoint_round_trip_followed, outpoint_encoding, outpoint_parse,
};
use crate::script::{
    Script, lemma_script_parse_bounds, lemma_script_round_trip_followed, script_encoding,
    script_parse,
    script_well_formed,
};
use crate::wire::{le_u32, lemma_u32_le_round_trip, push_u32_le, read_u32_le, u32_le};

verus! {

/// An input: the output it spends, the script that unlocks it, and a
/// sequence number that is carried through unchanged.
#[derive(Debug, PartialEq, Eq, Clone)]
pub struct TransactionInput {
    pub previous_output: OutPoint,
    pub script_sig: Script,
    pub sequence: u32,
}

/// What a [`TransactionInput`] holds, as mathematical values.
pub struct InputModel {
    pub previous_output: OutPointModel,
    pub script_sig: Seq<u8>,
    pub sequence: u32,
}

impl InputModel {
    /// The outpoint is well formed and the script's length fits its prefix.
    pub open spec fn well_formed(self) -> bool {
        self.previous_output.well_formed() && script_well_formed(self.script_sig)
    }
}

impl View for TransactionInput {
    type V = InputModel;

    open spec fn view(&self) -> InputModel {
        InputModel {
            previous_output: self.previous_output@,
            script_sig: self.script_sig@,
            sequence: self.sequence,
        }
    }
}

/// The encoding of an input: outpoint, script and the sequence number in
/// little-endian order, with nothing between them.
pub open spec fn input_encoding(x: InputModel) -> Seq<u8> {
    outpoint_encoding(x.previous_output) + script_encoding(x.script_sig) + u32_le(x.sequence)
}

/// The input at the start of `s` and the bytes it takes, or `None` where
/// the outpoint, the script or the four bytes of the sequence number are
/// not all there.
pub open spec fn input_parse(s: Seq<u8>) -> Option<(InputModel, nat)> {
    match outpoint_parse(s) {
        None => None,
        Some((previous_output, a)) => match script_parse(s.skip(a as int)) {
            None => None,
            Some((script_sig, b)) => if s.len() < a + b + 4 {
                None
            } else {
                Some(
                    (
                        InputModel {
                            previous_output,
                            script_sig,
                            sequence: le_u32(s.skip((a + b) as int)),
                        },
                        (a + b + 4) as nat,
                    ),
                )
            },
        },
    }
}

/// Parsing the encoding of an input gives the input back and takes exactly
/// the bytes of the encoding.
pub proof fn lemma_input_round_trip(x: InputModel)
    requires
        x.well_formed(),
    ensures
        input_parse(input_encoding(x)) == Some((x, input_encoding(x).len())),
{
    lemma_input_round_trip_followed(x, Seq::empty());
    assert(input_encoding(x) + Seq::empty() =~= input_encoding(x));
}

/// The same holds with any bytes behind the encoding: they are left alone.
pub proof fn lemma_input_round_trip_followed(x: InputModel, rest: Seq<u8>)
    requires
        x.well_formed(),
    ensures
        input_parse(input_encoding(x) + rest) == Some((x, input_encoding(x).len())),
{
    let op = outpoint_encoding(x.previous_output);
    let sc = script_encoding(x.script_sig);
    let sq = u32_le(x.sequence);
    let s = input_encoding(x) + rest;
    lemma_outpoint_round_trip_followed(x.previous_output, sc + sq + rest);
    assert(s =~= op + (sc + sq + rest));
    lemma_script_round_trip_followed(x.script_sig, sq + rest);
    assert(s.skip(36) =~= sc + (sq + rest));
    lemma_u32_le_round_trip(x.sequence, rest);
    assert(s.skip(36 + sc.len() as int) =~= sq + rest);
}

/// A parse never takes more bytes than there are, and an input takes at
/// least 41.
pub proof fn lemma_input_parse_bounds(s: Seq<u8>)
    ensures
        match input_parse(s) {
            Some((_, n)) => 41 <= n <= s.len(),
            None => true,
        },
{
    if s.len() >= 36 {
        lemma_script_parse_bounds(s.skip(36));
    }
}

/// Every input value is well formed.
pub proof fn lemma_input_well_formed(x: TransactionInput)
    ensures
        x@.well_formed(),
{
    assert(x.script_sig.bytes.len() == x.script_sig@.len());
}

impl TransactionInput {
    /// The input made of these three parts.
    pub fn new(previous_output: OutPoint, script_sig: Script, sequence: u32) -> (input: Self)
        ensures
            input.previous_output == previous_output,
            input.script_sig == script_sig,
            input.sequence == sequence,
    {
        Self { previous_output, script_sig, sequence }
    }

    /// Outpoint, script and sequence number, in that order.
    pub fn to_bytes(&self) -> (bytes: Vec<u8>)
        ensures
            bytes@ == input_encoding(self@),
    {
        let mut bytes = self.previous_output.to_bytes();
        let mut script_bytes = self.script_sig.to_bytes();
        bytes.append(&mut script_bytes);
        push_u32_le(&mut bytes, self.sequence);
        bytes
    }

    /// Reads the input at the start of `bytes`: the outpoint, the script
    /// behind it, and four bytes of sequence number behind that. Fails
    /// exactly where one of the three is not all there.
    pub fn from_bytes(bytes: &[u8]) -> (parsed: Result<(Self, usize), BitcoinError>)
        ensures
            match input_parse(bytes@) {
                Some((x, n)) => parsed matches Ok((input, used)) && input@ == x && used == n,
                None => parsed == Err::<(TransactionInput, usize), BitcoinError>(
                    BitcoinError::InsufficientBytes,
                ),
            },
    {
        let mut cursor: usize = 0;
        let (previous_output, outpoint_len) = match OutPoint::from_bytes(bytes) {
            Ok(found) => found,
            Err(e) => {
                return Err(e);
            },
        };
        cursor += outpoint_len;
        proof {
            lemma_script_parse_bounds(bytes@.skip(cursor as int));
        }
        let (script_sig, script_len) = match Script::from_bytes(
            slice_subrange(bytes, cursor, bytes.len()),
        ) {
            Ok(found) => found,
            Err(e) => {
                return Err(e);
            },
        };
        cursor += script_len;
        if bytes.len() - cursor < 4 {
            return Err(BitcoinError::InsufficientBytes);
        }
        let sequence = read_u32_le(bytes, cursor);
        cursor += 4;
        Ok((TransactionInput::new(previous_output, script_sig, sequence), cursor))
    }
}

} // verus!
