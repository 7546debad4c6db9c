//! A transaction: a version, a counted list of inputs, and a lock time.

use vstd::prelude::*;
use vstd::slice::slice_subrange;
use crate::compact_size::{
    CompactSize, compact_size_encoding, compact_size_parse, lemma_compact_size_parse_bounds,
    lemma_compact_size_round_trip_followed,
};
use crate::error::BitcoinError;
use crate::input::{
    InputModel, TransactionInput, input_encoding, input_parse, lemma_input_parse_bounds,
    lemma_input_round_trip_followed, lemma_input_well_formed,
};
use crate::wire::{le_u32, lemma_u32_le_round_trip, push_u32_le, read_u32_le, u32_le};

verus! {

/// A transaction of this format: it models inputs only.
#[derive(Debug, PartialEq, Eq, Clone)]
pub struct BitcoinTransaction {
    pub version: u32,
    pub inputs: Vec<TransactionInput>,
    pub lock_time: u32,
}

/// What a [`BitcoinTransaction`] holds, as mathematical values.
pub struct TransactionModel {
    pub version: u32,
    pub inputs: Seq<InputModel>,
    pub lock_time: u32,
}

impl TransactionModel {
    /// The number of inputs fits the count field and each input is well
    /// formed.
    pub open spec fn well_formed(self) -> bool {
        &&& self.inputs.len() <= u64::MAX
        &&& forall|i: int| 0 <= i < self.inputs.len() ==> (#[trigger] self.inputs[i]).well_formed()
    }
}

/// The models of a list of inputs, in the same order.
pub open spec fn input_models(inputs: Seq<TransactionInput>) -> Seq<InputModel> {
    inputs.map_values(|x: TransactionInput| x@)
}

impl View for BitcoinTransaction {
    type V = TransactionModel;

    open spec fn view(&self) -> TransactionModel {
        TransactionModel {
            version: self.version,
            inputs: input_models(self.inputs@),
            lock_time: self.lock_time,
        }
    }
}

/// The encodings of the inputs one after the other, in list order.
pub open spec fn inputs_encoding(xs: Seq<InputModel>) -> Seq<u8>
    decreases xs.len(),
{
    if xs.len() == 0 {
        Seq::empty()
    } else {
        inputs_encoding(xs.drop_last()) + input_encoding(xs.last())
    }
}

/// The first `count` inputs that stand one after the other at the start of
/// `s`, with the bytes they take together, or `None` where `s` ends before
/// the last of them is complete.
pub open spec fn inputs_parse(s: Seq<u8>, count: nat) -> Option<(Seq<InputModel>, nat)>
    decreases count,
{
    if count == 0 {
        Some((Seq::empty(), 0nat))
    } else {
        match inputs_parse(s, (count - 1) as nat) {
            None => None,
            Some((xs, n)) => match input_parse(s.skip(n as int)) {
                None => None,
                Some((x, m)) => Some((xs.push(x), n + m)),
            },
        }
    }
}

/// The encoding of a transaction: the version in little-endian order, the
/// number of inputs as a compact size, the inputs, and the lock time in
/// little-endian order.
pub open spec fn transaction_encoding(t: TransactionModel) -> Seq<u8> {
    u32_le(t.version) + compact_size_encoding(t.inputs.len() as u64) + inputs_encoding(t.inputs)
        + u32_le(t.lock_time)
}

/// The transaction at the start of `s` and the bytes it takes, or `None`
/// where the version, the count, one of the inputs that the count announces
/// or the lock time is not all there.
pub open spec fn transaction_parse(s: Seq<u8>) -> Option<(TransactionModel, nat)> {
    if s.len() < 4 {
        None
    } else {
        match compact_size_parse(s.skip(4)) {
            None => None,
            Some((count, c)) => match inputs_parse(s.skip((4 + c) as int), count as nat) {
                None => None,
                Some((inputs, n)) => if s.len() < 4 + c + n + 4 {
                    None
                } else {
                    Some(
                        (
                            TransactionModel {
                                version: le_u32(s),
                                inputs,
                                lock_time: le_u32(s.skip((4 + c + n) as int)),
                            },
                            (4 + c + n + 4) as nat,
                        ),
                    )
                },
            },
        }
    }
}

/// Where `count` inputs are found, there are exactly `count` of them, they
/// lie within `s`, and each took at least 41 bytes.
pub proof fn lemma_inputs_parse_bounds(s: Seq<u8>, count: nat)
    ensures
        match inputs_parse(s, count) {
            Some((xs, n)) => xs.len() == count && 41 * count <= n <= s.len(),
            None => true,
        },
    decreases count,
{
    if count > 0 {
        lemma_inputs_parse_bounds(s, (count - 1) as nat);
        match inputs_parse(s, (count - 1) as nat) {
            None => {},
            Some((xs, n)) => {
                lemma_input_parse_bounds(s.skip(n as int));
            },
        }
    }
}

/// Where the buffer does not hold `present` inputs, it holds no larger
/// number of them either.
pub proof fn lemma_inputs_parse_short(s: Seq<u8>, present: nat, count: nat)
    requires
        present <= count,
        inputs_parse(s, present) is None,
    ensures
        inputs_parse(s, count) is None,
    decreases count,
{
    if present < count {
        lemma_inputs_parse_short(s, present, (count - 1) as nat);
    }
}

/// A transaction whose count field announces more inputs than its buffer
/// holds does not parse: no shorter list is ever given out.
pub proof fn lemma_transaction_short_of_inputs(s: Seq<u8>, present: nat)
    requires
        s.len() >= 4,
        match compact_size_parse(s.skip(4)) {
            Some((count, c)) => {
                &&& present <= count
                &&& inputs_parse(s.skip((4 + c) as int), present) is None
            },
            None => false,
        },
    ensures
        transaction_parse(s) is None,
{
    match compact_size_parse(s.skip(4)) {
        Some((count, c)) => {
            lemma_inputs_parse_short(s.skip((4 + c) as int), present, count as nat);
        },
        None => {},
    }
}

/// A transaction that parses holds exactly as many inputs as its count
/// field announces, and lies within the buffer.
pub proof fn lemma_transaction_parse_bounds(s: Seq<u8>)
    ensures
        match transaction_parse(s) {
            Some((t, n)) => {
                &&& n <= s.len()
                &&& compact_size_parse(s.skip(4)) matches Some((count, _))
                &&& t.inputs.len() == count
            },
            None => true,
        },
{
    if s.len() >= 4 {
        match compact_size_parse(s.skip(4)) {
            None => {},
            Some((count, c)) => {
                lemma_inputs_parse_bounds(s.skip((4 + c) as int), count as nat);
            },
        }
    }
}

/// Parsing the encodings of a list of inputs gives the list back and takes
/// exactly the bytes of the encodings, whatever follows them.
pub proof fn lemma_inputs_round_trip_followed(xs: Seq<InputModel>, rest: Seq<u8>)
    requires
        forall|i: int| 0 <= i < xs.len() ==> (#[trigger] xs[i]).well_formed(),
    ensures
        inputs_parse(inputs_encoding(xs) + rest, xs.len()) == Some(
            (xs, inputs_encoding(xs).len()),
        ),
    decreases xs.len(),
{
    if xs.len() > 0 {
        let front = xs.drop_last();
        let last = input_encoding(xs.last());
        let s = inputs_encoding(xs) + rest;
        lemma_inputs_round_trip_followed(front, last + rest);
        assert(s =~= inputs_encoding(front) + (last + rest));
        lemma_input_round_trip_followed(xs.last(), rest);
        assert(s.skip(inputs_encoding(front).len() as int) =~= last + rest);
        assert(front.push(xs.last()) =~= xs);
    }
}

/// Parsing the encoding of a transaction gives the transaction back and
/// takes exactly the bytes of the encoding.
pub proof fn lemma_transaction_round_trip(t: TransactionModel)
    requires
        t.well_formed(),
    ensures
        transaction_parse(transaction_encoding(t)) == Some((t, transaction_encoding(t).len())),
{
    lemma_transaction_round_trip_followed(t, Seq::empty());
    assert(transaction_encoding(t) + Seq::empty() =~= transaction_encoding(t));
}

/// The same holds with any bytes behind the encoding: they are left alone.
pub proof fn lemma_transaction_round_trip_followed(t: TransactionModel, rest: Seq<u8>)
    requires
        t.well_formed(),
    ensures
        transaction_parse(transaction_encoding(t) + rest) == Some(
            (t, transaction_encoding(t).len()),
        ),
{
    let ver = u32_le(t.version);
    let cnt = compact_size_encoding(t.inputs.len() as u64);
    let ins = inputs_encoding(t.inputs);
    let lock = u32_le(t.lock_time);
    let s = transaction_encoding(t) + rest;
    lemma_u32_le_round_trip(t.version, cnt + ins + lock + rest);
    assert(s =~= ver + (cnt + ins + lock + rest));
    lemma_compact_size_round_trip_followed(t.inputs.len() as u64, ins + lock + rest);
    assert(s.skip(4) =~= cnt + (ins + lock + rest));
    lemma_inputs_round_trip_followed(t.inputs, lock + rest);
    assert(s.skip((4 + cnt.len()) as int) =~= ins + (lock + rest));
    lemma_u32_le_round_trip(t.lock_time, rest);
    assert(s.skip((4 + cnt.len() + ins.len()) as int) =~= lock + rest);
}

/// Every transaction value is well formed.
pub proof fn lemma_transaction_well_formed(t: BitcoinTransaction)
    ensures
        t@.well_formed(),
{
    assert(t.inputs.len() == t.inputs@.len());
    assert forall|i: int| 0 <= i < t@.inputs.len() implies (#[trigger] t@.inputs[i]).well_formed(
    ) by {
        lemma_input_well_formed(t.inputs@[i]);
    }
}

impl BitcoinTransaction {
    /// The transaction made of these parts, with the inputs in this order.
    pub fn new(version: u32, inputs: Vec<TransactionInput>, lock_time: u32) -> (tx: Self)
        ensures
            tx.version == version,
            tx.inputs == inputs,
            tx.lock_time == lock_time,
    {
        Self { version, inputs, lock_time }
    }

    /// Version, input count, the inputs in list order, lock time.
    pub fn to_bytes(&self) -> (bytes: Vec<u8>)
        ensures
            bytes@ == transaction_encoding(self@),
    {
        let input_count = CompactSize::new(self.inputs.len() as u64);
        let mut input_count_bytes = input_count.to_bytes();
        let mut bytes: Vec<u8> = Vec::new();
        push_u32_le(&mut bytes, self.version);
        bytes.append(&mut input_count_bytes);
        let ghost head = bytes@;
        let mut i: usize = 0;
        while i < self.inputs.len()
            invariant
                i <= self.inputs.len(),
                bytes@ == head + inputs_encoding(self@.inputs.take(i as int)),
            decreases self.inputs.len() - i,
        {
            let mut input_bytes = self.inputs[i].to_bytes();
            bytes.append(&mut input_bytes);
            proof {
                let next = self@.inputs.take(i + 1);
                assert(next.drop_last() =~= self@.inputs.take(i as int));
            }
            i += 1;
        }
        assert(self@.inputs.take(i as int) =~= self@.inputs);
        push_u32_le(&mut bytes, self.lock_time);
        bytes
    }

    /// Reads the transaction at the start of `bytes`: the version, the count
    /// of inputs, that many inputs, and the lock time. Fails exactly where
    /// one of them is not all there, in particular where the count
    /// announces more inputs than follow; no part of a transaction is ever
    /// given out.
    pub fn from_bytes(bytes: &[u8]) -> (parsed: Result<(Self, usize), BitcoinError>)
        ensures
            match transaction_parse(bytes@) {
                Some((t, n)) => parsed matches Ok((tx, used)) && tx@ == t && used == n,
                None => parsed == Err::<(BitcoinTransaction, usize), BitcoinError>(
                    BitcoinError::InsufficientBytes,
                ),
            },
    {
        let mut cursor: usize = 0;
        if bytes.len() < 4 {
            return Err(BitcoinError::InsufficientBytes);
        }
        let version = read_u32_le(bytes, 0);
        assert(bytes@.skip(0) =~= bytes@);
        cursor += 4;
        proof {
            lemma_compact_size_parse_bounds(bytes@.skip(4));
        }
        let (input_count, count_len) = match CompactSize::from_bytes(
            slice_subrange(bytes, cursor, bytes.len()),
        ) {
            Ok(found) => found,
            Err(e) => {
                return Err(e);
            },
        };
        cursor += count_len;
        let start: usize = cursor;
        let ghost body = bytes@.skip(start as int);
        let mut inputs: Vec<TransactionInput> = Vec::new();
        let mut i: u64 = 0;
        while i < input_count.value
            invariant
                i <= input_count.value,
                start <= cursor <= bytes.len(),
                body == bytes@.skip(start as int),
                bytes@.len() >= 4,
                start == 4 + count_len,
                compact_size_parse(bytes@.skip(4)) == Some((input_count.value, count_len as nat)),
                inputs_parse(body, i as nat) == Some(
                    (input_models(inputs@), (cursor - start) as nat),
                ),
            decreases input_count.value - i,
        {
            proof {
                assert(body.skip(cursor - start) =~= bytes@.skip(cursor as int));
                lemma_input_parse_bounds(bytes@.skip(cursor as int));
            }
            match TransactionInput::from_bytes(slice_subrange(bytes, cursor, bytes.len())) {
                Ok((input, input_len)) => {
                    proof {
                        assert(input_models(inputs@.push(input)) =~= input_models(inputs@).push(
                            input@,
                        ));
                    }
                    inputs.push(input);
                    cursor += input_len;
                },
                Err(e) => {
                    proof {
                        lemma_inputs_parse_short(body, (i + 1) as nat, input_count.value as nat);
                    }
                    return Err(e);
                },
            }
            i += 1;
        }
        if bytes.len() - cursor < 4 {
            return Err(BitcoinError::InsufficientBytes);
        }
        let lock_time = read_u32_le(bytes, cursor);
        cursor += 4;
        Ok((BitcoinTransaction::new(version, inputs, lock_time), cursor))
    }
}

} // verus!
