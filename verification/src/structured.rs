//! The structured form of a transaction: a tree of objects, lists, text and
//! numbers that is independent of the binary layout.
//!
//! An outpoint is an object with the fields `txid` (text, the identifier in
//! its display order) and `vout` (number). An input is an object with the
//! fields `previous_output` (an outpoint), `script_sig` (text, hexadecimal)
//! and `sequence` (number). A transaction is an object with the fields
//! `version` (number), `inputs` (a list of inputs) and `lock_time` (number).
//! Reading looks a field up by its name, takes the first of that name and
//! passes over fields that it does not know.

use vstd::prelude::*;
use vstd::string::StringExecFns;
use crate::error::BitcoinError;
use crate::hextext::{hex_bytes, hex_text, lemma_hex_round_trip};
use crate::input::{InputModel, TransactionInput};
use crate::outpoint::{OutPoint, OutPointModel};
use crate::script::Script;
use crate::transaction::{BitcoinTransaction, TransactionModel, input_models};
use crate::txid::{Txid, lemma_txid_text_round_trip, txid_from_text, txid_text};

verus! {

/// A node of structured data.
#[derive(Debug, PartialEq, Eq)]
pub enum Value {
    Number(u64),
    Text(String),
    List(Vec<Value>),
    Object(Vec<Field>),
}

/// A named member of an object.
#[derive(Debug, PartialEq, Eq)]
pub struct Field {
    pub name: String,
    pub value: Value,
}

/// The value of the first field called `name`, if there is one.
pub open spec fn field_value(fields: Seq<Field>, name: Seq<char>) -> Option<Value>
    decreases fields.len(),
{
    if fields.len() == 0 {
        None
    } else if fields[0].name@ == name {
        Some(fields[0].value)
    } else {
        field_value(fields.drop_first(), name)
    }
}

/// The text of the first field called `name`, if there is one and it holds
/// text.
pub open spec fn field_text(fields: Seq<Field>, name: Seq<char>) -> Option<Seq<char>> {
    match field_value(fields, name) {
        Some(Value::Text(text)) => Some(text@),
        _ => None,
    }
}

/// The number of the first field called `name`, if there is one and it
/// holds a number that fits 32 bits.
pub open spec fn field_u32(fields: Seq<Field>, name: Seq<char>) -> Option<u32> {
    match field_value(fields, name) {
        Some(Value::Number(n)) => if n <= u32::MAX {
            Some(n as u32)
        } else {
            None
        },
        _ => None,
    }
}

/// `v` is the structured form of the outpoint `p`.
pub open spec fn is_outpoint_value(v: Value, p: OutPointModel) -> bool {
    &&& v matches Value::Object(fields)
    &&& fields@.len() == 2
    &&& fields@[0].name@ == "txid"@
    &&& fields@[0].value matches Value::Text(text)
    &&& text@ == txid_text(p.txid)
    &&& fields@[1].name@ == "vout"@
    &&& fields@[1].value == Value::Number(p.vout as u64)
}

/// `v` is the structured form of the input `x`.
pub open spec fn is_input_value(v: Value, x: InputModel) -> bool {
    &&& v matches Value::Object(fields)
    &&& fields@.len() == 3
    &&& fields@[0].name@ == "previous_output"@
    &&& is_outpoint_value(fields@[0].value, x.previous_output)
    &&& fields@[1].name@ == "script_sig"@
    &&& fields@[1].value matches Value::Text(text)
    &&& text@ == hex_text(x.script_sig)
    &&& fields@[2].name@ == "sequence"@
    &&& fields@[2].value == Value::Number(x.sequence as u64)
}

/// `v` is the structured form of the transaction `t`.
pub open spec fn is_transaction_value(v: Value, t: TransactionModel) -> bool {
    &&& v matches Value::Object(fields)
    &&& fields@.len() == 3
    &&& fields@[0].name@ == "version"@
    &&& fields@[0].value == Value::Number(t.version as u64)
    &&& fields@[1].name@ == "inputs"@
    &&& fields@[1].value matches Value::List(items)
    &&& items@.len() == t.inputs.len()
    &&& forall|i: int| 0 <= i < items@.len() ==> is_input_value(#[trigger] items@[i], t.inputs[i])
    &&& fields@[2].name@ == "lock_time"@
    &&& fields@[2].value == Value::Number(t.lock_time as u64)
}

/// The outpoint that `v` is the structured form of, or `None` where `v` is
/// no object, a field is missing or of the wrong kind, the index does not
/// fit 32 bits, or the identifier's text is malformed.
pub open spec fn outpoint_of_value(v: Value) -> Option<OutPointModel> {
    match v {
        Value::Object(fields) => match (
            field_text(fields@, "txid"@),
            field_u32(fields@, "vout"@),
        ) {
            (Some(text), Some(vout)) => match txid_from_text(text) {
                Some(txid) => Some(OutPointModel { txid, vout }),
                None => None,
            },
            _ => None,
        },
        _ => None,
    }
}

/// The input that `v` is the structured form of, or `None` where `v` is no
/// object, a field is missing or of the wrong kind, the outpoint does not
/// read, the script's text is not hexadecimal, or the sequence number does
/// not fit 32 bits.
pub open spec fn input_of_value(v: Value) -> Option<InputModel> {
    match v {
        Value::Object(fields) => match (
            field_value(fields@, "previous_output"@),
            field_text(fields@, "script_sig"@),
            field_u32(fields@, "sequence"@),
        ) {
            (Some(point), Some(text), Some(sequence)) => match (
                outpoint_of_value(point),
                hex_bytes(text),
            ) {
                (Some(previous_output), Some(script_sig)) => Some(
                    InputModel { previous_output, script_sig, sequence },
                ),
                _ => None,
            },
            _ => None,
        },
        _ => None,
    }
}

/// The inputs that the items are the structured forms of, in the same
/// order, or `None` where one of them does not read.
pub open spec fn inputs_of_values(items: Seq<Value>) -> Option<Seq<InputModel>> {
    if forall|i: int| 0 <= i < items.len() ==> (#[trigger] input_of_value(items[i])) is Some {
        Some(Seq::new(items.len(), |i: int| input_of_value(items[i]).unwrap()))
    } else {
        None
    }
}

/// The transaction that `v` is the structured form of, or `None` where `v`
/// is no object, a field is missing or of the wrong kind, a number does not
/// fit 32 bits, or one of the inputs does not read.
pub open spec fn transaction_of_value(v: Value) -> Option<TransactionModel> {
    match v {
        Value::Object(fields) => match (
            field_u32(fields@, "version"@),
            field_value(fields@, "inputs"@),
            field_u32(fields@, "lock_time"@),
        ) {
            (Some(version), Some(Value::List(items)), Some(lock_time)) => match inputs_of_values(
                items@,
            ) {
                Some(inputs) => Some(TransactionModel { version, inputs, lock_time }),
                None => None,
            },
            _ => None,
        },
        _ => None,
    }
}

/// Reading the structured form of an outpoint gives the outpoint back.
pub proof fn lemma_outpoint_value_round_trip(v: Value, p: OutPointModel)
    requires
        p.well_formed(),
        is_outpoint_value(v, p),
    ensures
        outpoint_of_value(v) == Some(p),
{
    reveal_strlit("txid");
    reveal_strlit("vout");
    reveal_with_fuel(field_value, 3);
    lemma_txid_text_round_trip(p.txid);
    assert("txid"@ != "vout"@) by {
        assert("txid"@[0] != "vout"@[0]);
    }
}

/// Reading the structured form of an input gives the input back.
pub proof fn lemma_input_value_round_trip(v: Value, x: InputModel)
    requires
        x.well_formed(),
        is_input_value(v, x),
    ensures
        input_of_value(v) == Some(x),
{
    reveal_strlit("previous_output");
    reveal_strlit("script_sig");
    reveal_strlit("sequence");
    reveal_with_fuel(field_value, 4);
    let fields = v->Object_0@;
    lemma_outpoint_value_round_trip(fields[0].value, x.previous_output);
    lemma_hex_round_trip(x.script_sig);
    assert("previous_output"@ != "script_sig"@) by {
        assert("previous_output"@[0] != "script_sig"@[0]);
    }
    assert("previous_output"@ != "sequence"@) by {
        assert("previous_output"@[0] != "sequence"@[0]);
    }
    assert("script_sig"@ != "sequence"@) by {
        assert("script_sig"@[1] != "sequence"@[1]);
    }
}

/// Reading the structured form of a transaction gives the transaction back.
pub proof fn lemma_transaction_value_round_trip(v: Value, t: TransactionModel)
    requires
        t.well_formed(),
        is_transaction_value(v, t),
    ensures
        transaction_of_value(v) == Some(t),
{
    reveal_strlit("version");
    reveal_strlit("inputs");
    reveal_strlit("lock_time");
    reveal_with_fuel(field_value, 4);
    let fields = v->Object_0@;
    let items = fields[1].value->List_0@;
    assert("version"@ != "inputs"@) by {
        assert("version"@[0] != "inputs"@[0]);
    }
    assert("version"@ != "lock_time"@) by {
        assert("version"@[0] != "lock_time"@[0]);
    }
    assert("inputs"@ != "lock_time"@) by {
        assert("inputs"@[0] != "lock_time"@[0]);
    }
    assert forall|i: int| 0 <= i < items.len() implies #[trigger] input_of_value(items[i]) == Some(
        t.inputs[i],
    ) by {
        lemma_input_value_round_trip(items[i], t.inputs[i]);
    }
    assert(inputs_of_values(items).unwrap() =~= t.inputs);
}

/// The field called `name` that holds `value`.
pub fn named(name: &str, value: Value) -> (field: Field)
    ensures
        field.name@ == name@,
        field.value == value,
{
    Field { name: String::from_str(name), value }
}

/// The value of the first field called `name`.
pub fn find_field<'a>(fields: &'a Vec<Field>, name: &str) -> (found: Option<&'a Value>)
    ensures
        match field_value(fields@, name@) {
            Some(v) => found == Some(&v),
            None => found is None,
        },
{
    let key = String::from_str(name);
    let mut i: usize = 0;
    assert(fields@.skip(0) =~= fields@);
    while i < fields.len()
        invariant
            i <= fields.len(),
            key@ == name@,
            field_value(fields@, name@) == field_value(fields@.skip(i as int), name@),
        decreases fields.len() - i,
    {
        assert(fields@.skip(i as int).drop_first() =~= fields@.skip(i + 1));
        if fields[i].name == key {
            return Some(&fields[i].value);
        }
        i += 1;
    }
    None
}

/// The 32-bit number in the first field called `name`.
pub fn find_u32(fields: &Vec<Field>, name: &str) -> (found: Option<u32>)
    ensures
        found == field_u32(fields@, name@),
{
    match find_field(fields, name) {
        Some(Value::Number(n)) => if *n <= 0xffff_ffff {
            Some(*n as u32)
        } else {
            None
        },
        _ => None,
    }
}

/// The text in the first field called `name`.
pub fn find_text<'a>(fields: &'a Vec<Field>, name: &str) -> (found: Option<&'a String>)
    ensures
        match field_text(fields@, name@) {
            Some(text) => found matches Some(s) && s@ == text,
            None => found is None,
        },
{
    match find_field(fields, name) {
        Some(Value::Text(text)) => Some(text),
        _ => None,
    }
}

/// Reads a list of inputs from their structured forms, in order. Fails with
/// `InvalidFormat` exactly where one of the items is not the form of an
/// input.
pub fn inputs_from_values(items: &Vec<Value>) -> (parsed: Result<
    Vec<TransactionInput>,
    BitcoinError,
>)
    ensures
        match inputs_of_values(items@) {
            Some(xs) => parsed matches Ok(inputs) && input_models(inputs@) == xs,
            None => parsed == Err::<Vec<TransactionInput>, BitcoinError>(
                BitcoinError::InvalidFormat,
            ),
        },
{
    let mut inputs: Vec<TransactionInput> = Vec::new();
    let mut i: usize = 0;
    while i < items.len()
        invariant
            i <= items.len(),
            inputs@.len() == i,
            forall|j: int|
                0 <= j < i ==> #[trigger] input_of_value(items@[j]) == Some(inputs@[j]@),
        decreases items.len() - i,
    {
        match TransactionInput::from_value(&items[i]) {
            Ok(input) => {
                inputs.push(input);
            },
            Err(e) => {
                assert(input_of_value(items@[i as int]) is None);
                return Err(e);
            },
        }
        i += 1;
    }
    assert(inputs_of_values(items@).unwrap() =~= input_models(inputs@));
    Ok(inputs)
}

impl OutPoint {
    /// The structured form of the outpoint.
    pub fn to_value(&self) -> (v: Value)
        ensures
            is_outpoint_value(v, self@),
    {
        let mut fields: Vec<Field> = Vec::new();
        fields.push(named("txid", Value::Text(self.txid.to_hex())));
        fields.push(named("vout", Value::Number(self.vout as u64)));
        Value::Object(fields)
    }

    /// Reads an outpoint from its structured form. Fails with
    /// `InvalidFormat` exactly where `v` is not the form of an outpoint.
    pub fn from_value(v: &Value) -> (parsed: Result<Self, BitcoinError>)
        ensures
            match outpoint_of_value(*v) {
                Some(p) => parsed matches Ok(point) && point@ == p,
                None => parsed == Err::<OutPoint, BitcoinError>(BitcoinError::InvalidFormat),
            },
    {
        match v {
            Value::Object(fields) => {
                let text = find_text(fields, "txid");
                let vout = find_u32(fields, "vout");
                match (text, vout) {
                    (Some(text), Some(vout)) => match Txid::from_hex(text.as_str()) {
                        Ok(txid) => Ok(OutPoint { txid, vout }),
                        Err(e) => Err(e),
                    },
                    _ => Err(BitcoinError::InvalidFormat),
                }
            },
            _ => Err(BitcoinError::InvalidFormat),
        }
    }
}

impl TransactionInput {
    /// The structured form of the input.
    pub fn to_value(&self) -> (v: Value)
        ensures
            is_input_value(v, self@),
    {
        let mut fields: Vec<Field> = Vec::new();
        fields.push(named("previous_output", self.previous_output.to_value()));
        fields.push(named("script_sig", Value::Text(self.script_sig.to_hex())));
        fields.push(named("sequence", Value::Number(self.sequence as u64)));
        Value::Object(fields)
    }

    /// Reads an input from its structured form. Fails with `InvalidFormat`
    /// exactly where `v` is not the form of an input.
    pub fn from_value(v: &Value) -> (parsed: Result<Self, BitcoinError>)
        ensures
            match input_of_value(*v) {
                Some(x) => parsed matches Ok(input) && input@ == x,
                None => parsed == Err::<TransactionInput, BitcoinError>(
                    BitcoinError::InvalidFormat,
                ),
            },
    {
        match v {
            Value::Object(fields) => {
                let point = find_field(fields, "previous_output");
                let text = find_text(fields, "script_sig");
                let sequence = find_u32(fields, "sequence");
                match (point, text, sequence) {
                    (Some(point), Some(text), Some(sequence)) => {
                        let previous_output = match OutPoint::from_value(point) {
                            Ok(found) => found,
                            Err(e) => {
                                return Err(e);
                            },
                        };
                        let script_sig = match Script::from_hex(text.as_str()) {
                            Ok(found) => found,
                            Err(e) => {
                                return Err(e);
                            },
                        };
                        Ok(TransactionInput { previous_output, script_sig, sequence })
                    },
                    _ => Err(BitcoinError::InvalidFormat),
                }
            },
            _ => Err(BitcoinError::InvalidFormat),
        }
    }
}

impl BitcoinTransaction {
    /// The structured form of the transaction.
    pub fn to_value(&self) -> (v: Value)
        ensures
            is_transaction_value(v, self@),
    {
        let mut items: Vec<Value> = Vec::new();
        let mut i: usize = 0;
        while i < self.inputs.len()
            invariant
                i <= self.inputs.len(),
                items@.len() == i,
                forall|j: int|
                    0 <= j < i ==> is_input_value(#[trigger] items@[j], self.inputs@[j]@),
            decreases self.inputs.len() - i,
        {
            items.push(self.inputs[i].to_value());
            i += 1;
        }
        let mut fields: Vec<Field> = Vec::new();
        fields.push(named("version", Value::Number(self.version as u64)));
        fields.push(named("inputs", Value::List(items)));
        fields.push(named("lock_time", Value::Number(self.lock_time as u64)));
        Value::Object(fields)
    }

    /// Reads a transaction from its structured form. Fails with
    /// `InvalidFormat` exactly where `v` is not the form of a transaction.
    pub fn from_value(v: &Value) -> (parsed: Result<Self, BitcoinError>)
        ensures
            match transaction_of_value(*v) {
                Some(t) => parsed matches Ok(tx) && tx@ == t,
                None => parsed == Err::<BitcoinTransaction, BitcoinError>(
                    BitcoinError::InvalidFormat,
                ),
            },
    {
        match v {
            Value::Object(fields) => {
                let version = find_u32(fields, "version");
                let list = find_field(fields, "inputs");
                let lock_time = find_u32(fields, "lock_time");
                match (version, list, lock_time) {
                    (Some(version), Some(Value::List(items)), Some(lock_time)) => {
                        match inputs_from_values(items) {
                            Ok(inputs) => Ok(BitcoinTransaction { version, inputs, lock_time }),
                            Err(e) => Err(e),
                        }
                    },
                    _ => Err(BitcoinError::InvalidFormat),
                }
            },
            _ => Err(BitcoinError::InvalidFormat),
        }
    }
}

} // verus!
