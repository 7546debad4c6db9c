use bitcoin_codec::hextext::{from_hex, to_hex};
use bitcoin_codec::structured::{find_field, find_text, find_u32, inputs_from_values, named};
use bitcoin_codec::{
    BitcoinError, BitcoinTransaction, Field, OutPoint, Script, TransactionInput, Txid, Value,
};

fn dummy_txid(val: u8) -> [u8; 32] {
    let mut txid = [0u8; 32];
    txid[31] = val;
    txid
}

fn to_json(v: &Value) -> serde_json::Value {
    match v {
        Value::Number(n) => serde_json::Value::from(*n),
        Value::Text(s) => serde_json::Value::String(s.clone()),
        Value::List(items) => serde_json::Value::Array(items.iter().map(to_json).collect()),
        Value::Object(fields) => {
            let mut map = serde_json::Map::new();
            for field in fields {
                map.insert(field.name.clone(), to_json(&field.value));
            }
            serde_json::Value::Object(map)
        }
    }
}

fn from_json(v: &serde_json::Value) -> Value {
    match v {
        serde_json::Value::Number(n) => Value::Number(n.as_u64().unwrap()),
        serde_json::Value::String(s) => Value::Text(s.clone()),
        serde_json::Value::Array(items) => Value::List(items.iter().map(from_json).collect()),
        serde_json::Value::Object(map) => Value::Object(
            map.iter().map(|(k, v)| Field { name: k.clone(), value: from_json(v) }).collect(),
        ),
        _ => panic!("no such node in a transaction"),
    }
}

fn field(name: &str, value: Value) -> Field {
    Field { name: name.to_string(), value }
}

fn text(s: &str) -> Value {
    Value::Text(s.to_string())
}

#[test]
fn test_bitcoin_tx_json_serialization() {
    let input = TransactionInput::new(
        OutPoint::new(dummy_txid(0xab), 3),
        Script::new(vec![0xde, 0xad, 0xbe, 0xef]),
        0xabcdef01,
    );
    let tx = BitcoinTransaction::new(1, vec![input], 999);

    let json = serde_json::to_string_pretty(&to_json(&tx.to_value())).unwrap();
    let tree: serde_json::Value = serde_json::from_str(&json).unwrap();
    let parsed = BitcoinTransaction::from_value(&from_json(&tree)).unwrap();
    assert_eq!(tx, parsed);

    assert!(json.contains("\"version\": 1"));
    assert!(json.contains("\"lock_time\": 999"));
}

#[test]
fn hex_text_is_lowercase_with_two_digits_a_byte() {
    assert_eq!(to_hex(&[]), "");
    assert_eq!(to_hex(&[0x00, 0x0f, 0xa0, 0xff]), "000fa0ff");
    assert_eq!(to_hex(&[1, 2, 3, 15, 16]), "0102030f10");
}

#[test]
fn hex_text_reads_both_cases() {
    assert_eq!(from_hex(""), Ok(vec![]));
    assert_eq!(from_hex("000fa0ff"), Ok(vec![0x00, 0x0f, 0xa0, 0xff]));
    assert_eq!(from_hex("DeAdBEef"), Ok(vec![0xde, 0xad, 0xbe, 0xef]));
}

#[test]
fn hex_text_rejects_what_is_not_hexadecimal() {
    assert_eq!(from_hex("abc"), Err(BitcoinError::InvalidFormat));
    assert_eq!(from_hex("zz"), Err(BitcoinError::InvalidFormat));
    assert_eq!(from_hex("0g"), Err(BitcoinError::InvalidFormat));
    assert_eq!(from_hex("é"), Err(BitcoinError::InvalidFormat));
    assert_eq!(from_hex("0é1"), Err(BitcoinError::InvalidFormat));
    assert_eq!(from_hex(" 00"), Err(BitcoinError::InvalidFormat));
}

#[test]
fn hex_text_round_trips_every_byte() {
    let all: Vec<u8> = (0..=255u8).collect();
    assert_eq!(from_hex(&to_hex(&all)), Ok(all));
}

#[test]
fn txid_text_is_in_display_order() {
    let id = Txid(dummy_txid(0xab));
    let shown = id.to_hex();
    assert_eq!(shown.len(), 64);
    assert_eq!(&shown[..2], "ab");
    assert_eq!(&shown[2..], "0".repeat(62));
    assert_eq!(Txid::from_hex(&shown), Ok(id));
    let mut raw = [0u8; 32];
    for (i, b) in raw.iter_mut().enumerate() {
        *b = i as u8;
    }
    let counted = Txid(raw);
    assert_eq!(
        counted.to_hex(),
        "1f1e1d1c1b1a191817161514131211100f0e0d0c0b0a09080706050403020100"
    );
    assert_eq!(Txid::from_hex(&counted.to_hex()), Ok(counted));
}

#[test]
fn txid_text_of_the_wrong_length_or_kind() {
    assert_eq!(Txid::from_hex(""), Err(BitcoinError::InvalidFormat));
    assert_eq!(Txid::from_hex(&"00".repeat(31)), Err(BitcoinError::InvalidFormat));
    assert_eq!(Txid::from_hex(&"00".repeat(33)), Err(BitcoinError::InvalidFormat));
    assert_eq!(Txid::from_hex(&"0g".repeat(32)), Err(BitcoinError::InvalidFormat));
    assert_eq!(Txid::from_hex(&"0".repeat(63)), Err(BitcoinError::InvalidFormat));
    assert_eq!(Txid::from_hex(&"AB".repeat(32)), Ok(Txid([0xab; 32])));
}

#[test]
fn script_text() {
    let script = Script::new(vec![0xde, 0xad, 0xbe, 0xef]);
    assert_eq!(script.to_hex(), "deadbeef");
    assert_eq!(Script::from_hex("deadbeef"), Ok(script));
    assert_eq!(Script::from_hex(""), Ok(Script::new(vec![])));
    assert_eq!(Script::from_hex("dea"), Err(BitcoinError::InvalidFormat));
}

#[test]
fn structured_form_of_a_transaction() {
    let input = TransactionInput::new(
        OutPoint::new(dummy_txid(0xab), 3),
        Script::new(vec![0xde, 0xad]),
        0xabcdef01,
    );
    let tx = BitcoinTransaction::new(1, vec![input], 999);
    let txid_text = format!("ab{}", "0".repeat(62));
    let expected = Value::Object(vec![
        field("version", Value::Number(1)),
        field(
            "inputs",
            Value::List(vec![Value::Object(vec![
                field(
                    "previous_output",
                    Value::Object(vec![
                        field("txid", text(&txid_text)),
                        field("vout", Value::Number(3)),
                    ]),
                ),
                field("script_sig", text("dead")),
                field("sequence", Value::Number(0xabcdef01)),
            ])]),
        ),
        field("lock_time", Value::Number(999)),
    ]);
    assert_eq!(tx.to_value(), expected);
    assert_eq!(BitcoinTransaction::from_value(&expected), Ok(tx));
}

#[test]
fn structured_round_trip_of_each_entity() {
    let outpoint = OutPoint::new(dummy_txid(7), u32::MAX);
    assert_eq!(OutPoint::from_value(&outpoint.to_value()), Ok(outpoint.clone()));
    let input = TransactionInput::new(outpoint, Script::new(vec![]), 0);
    assert_eq!(TransactionInput::from_value(&input.to_value()), Ok(input.clone()));
    let empty = BitcoinTransaction::new(0, vec![], u32::MAX);
    assert_eq!(BitcoinTransaction::from_value(&empty.to_value()), Ok(empty));
    let two = BitcoinTransaction::new(2, vec![input.clone(), input], 5);
    assert_eq!(BitcoinTransaction::from_value(&two.to_value()), Ok(two));
}

#[test]
fn structured_reading_goes_by_field_names() {
    let txid_text = "11".repeat(32);
    let shuffled = Value::Object(vec![
        field("note", text("not part of an outpoint")),
        field("vout", Value::Number(4)),
        field("txid", text(&txid_text)),
        field("vout", Value::Number(5)),
    ]);
    assert_eq!(OutPoint::from_value(&shuffled), Ok(OutPoint::new([0x11; 32], 4)));
}

#[test]
fn structured_reading_rejects_malformed_trees() {
    let txid_text = "11".repeat(32);
    let bad = Err(BitcoinError::InvalidFormat);
    assert_eq!(OutPoint::from_value(&Value::Number(1)), bad);
    assert_eq!(OutPoint::from_value(&Value::Object(vec![])), bad);
    assert_eq!(
        OutPoint::from_value(&Value::Object(vec![field("txid", text(&txid_text))])),
        bad
    );
    assert_eq!(
        OutPoint::from_value(&Value::Object(vec![
            field("txid", text(&txid_text)),
            field("vout", Value::Number(1 << 32)),
        ])),
        bad
    );
    assert_eq!(
        OutPoint::from_value(&Value::Object(vec![
            field("txid", text("1234")),
            field("vout", Value::Number(1)),
        ])),
        bad
    );
    assert_eq!(
        OutPoint::from_value(&Value::Object(vec![
            field("txid", Value::Number(0)),
            field("vout", Value::Number(1)),
        ])),
        bad
    );
    let point = || {
        Value::Object(vec![field("txid", text(&txid_text)), field("vout", Value::Number(1))])
    };
    assert_eq!(
        TransactionInput::from_value(&Value::Object(vec![
            field("previous_output", point()),
            field("script_sig", text("xyz")),
            field("sequence", Value::Number(1)),
        ])),
        Err(BitcoinError::InvalidFormat)
    );
    assert_eq!(
        TransactionInput::from_value(&Value::Object(vec![
            field("previous_output", point()),
            field("script_sig", text("00")),
        ])),
        Err(BitcoinError::InvalidFormat)
    );
    assert_eq!(
        TransactionInput::from_value(&Value::List(vec![])),
        Err(BitcoinError::InvalidFormat)
    );
    assert_eq!(
        BitcoinTransaction::from_value(&Value::Object(vec![
            field("version", Value::Number(1)),
            field("inputs", Value::List(vec![Value::Number(3)])),
            field("lock_time", Value::Number(1)),
        ])),
        Err(BitcoinError::InvalidFormat)
    );
    assert_eq!(
        BitcoinTransaction::from_value(&Value::Object(vec![
            field("version", Value::Number(1)),
            field("inputs", text("none")),
            field("lock_time", Value::Number(1)),
        ])),
        Err(BitcoinError::InvalidFormat)
    );
    assert_eq!(BitcoinTransaction::from_value(&text("tx")), Err(BitcoinError::InvalidFormat));
}

#[test]
fn field_lookup_takes_the_first_of_a_name() {
    let fields = vec![
        field("a", Value::Number(1)),
        field("b", text("x")),
        field("a", Value::Number(2)),
        field("big", Value::Number(u64::MAX)),
    ];
    assert_eq!(find_field(&fields, "a"), Some(&Value::Number(1)));
    assert_eq!(find_field(&fields, "c"), None);
    assert_eq!(find_u32(&fields, "a"), Some(1));
    assert_eq!(find_u32(&fields, "b"), None);
    assert_eq!(find_u32(&fields, "big"), None);
    assert_eq!(find_text(&fields, "b"), Some(&"x".to_string()));
    assert_eq!(find_text(&fields, "a"), None);
    assert_eq!(named("a", Value::Number(1)), field("a", Value::Number(1)));
}

#[test]
fn a_list_of_inputs_reads_in_order_or_not_at_all() {
    let first = TransactionInput::new(OutPoint::new(dummy_txid(1), 1), Script::new(vec![1]), 1);
    let second = TransactionInput::new(OutPoint::new(dummy_txid(2), 2), Script::new(vec![]), 2);
    let items = vec![first.to_value(), second.to_value()];
    assert_eq!(inputs_from_values(&items), Ok(vec![first.clone(), second]));
    let broken = vec![first.to_value(), Value::Number(0)];
    assert_eq!(inputs_from_values(&broken), Err(BitcoinError::InvalidFormat));
    assert_eq!(inputs_from_values(&vec![]), Ok(vec![]));
}
