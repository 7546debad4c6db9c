use bitcoin_codec::{
    BitcoinError, BitcoinTransaction, CompactSize, OutPoint, Script, TransactionInput, Txid,
};

fn dummy_txid(val: u8) -> [u8; 32] {
    let mut txid = [0u8; 32];
    txid[31] = val;
    txid
}

fn sample_input() -> TransactionInput {
    TransactionInput::new(
        OutPoint::new(dummy_txid(1), 0),
        Script::new(vec![0x01, 0x02]),
        0xffffffff,
    )
}

#[test]
fn test_compact_size_serialization() {
    let tests = vec![
        (0u64, vec![0x00]),
        (252u64, vec![0xfc]),
        (253u64, vec![0xfd, 0xfd, 0x00]),
        (65535u64, vec![0xfd, 0xff, 0xff]),
        (65536u64, vec![0xfe, 0x00, 0x00, 0x01, 0x00]),
        (4294967295u64, vec![0xfe, 0xff, 0xff, 0xff, 0xff]),
        (4294967296u64, vec![0xff, 0x00, 0x00, 0x00, 0x00, 0x01, 0x00, 0x00, 0x00]),
    ];

    for (value, bytes) in tests {
        let cs = CompactSize::new(value);
        assert_eq!(cs.to_bytes(), bytes);
        let (decoded, consumed) = CompactSize::from_bytes(&bytes).unwrap();
        assert_eq!(decoded.value, value);
        assert_eq!(consumed, bytes.len());
    }
}

#[test]
fn test_outpoint_roundtrip() {
    let txid = dummy_txid(0xcc);
    let vout = 2;
    let outpoint = OutPoint::new(txid, vout);
    let bytes = outpoint.to_bytes();
    let (parsed, consumed) = OutPoint::from_bytes(&bytes).unwrap();
    assert_eq!(parsed, outpoint);
    assert_eq!(consumed, bytes.len());
}

#[test]
fn test_script_roundtrip() {
    let script_data = vec![0x76, 0xa9, 0x14, 0x88, 0xac];
    let script = Script::new(script_data.clone());
    let bytes = script.to_bytes();
    let (parsed, consumed) = Script::from_bytes(&bytes).unwrap();
    assert_eq!(parsed, script);
    assert_eq!(consumed, bytes.len());
}

#[test]
fn test_tx_input_roundtrip() {
    let outpoint = OutPoint::new(dummy_txid(1), 0);
    let script = Script::new(vec![0x01, 0x02]);
    let input = TransactionInput::new(outpoint.clone(), script.clone(), 0xffffffff);
    let bytes = input.to_bytes();
    let (parsed, consumed) = TransactionInput::from_bytes(&bytes).unwrap();
    assert_eq!(parsed, input);
    assert_eq!(consumed, bytes.len());
}

#[test]
fn test_bitcoin_tx_roundtrip() {
    let inputs = vec![TransactionInput::new(
        OutPoint::new(dummy_txid(1), 0),
        Script::new(vec![0x01, 0x02]),
        0xffffffff,
    )];
    let tx = BitcoinTransaction::new(2, inputs.clone(), 1000);
    let bytes = tx.to_bytes();
    let (parsed, consumed) = BitcoinTransaction::from_bytes(&bytes).unwrap();
    assert_eq!(parsed, tx);
    assert_eq!(consumed, bytes.len());
}

#[test]
fn compact_size_round_trips_at_every_class_boundary() {
    for v in [0u64, 252, 253, 65535, 65536, 4294967295, 4294967296, u64::MAX] {
        let bytes = CompactSize::new(v).to_bytes();
        assert_eq!(CompactSize::from_bytes(&bytes), Ok((CompactSize::new(v), bytes.len())));
    }
}

#[test]
fn compact_size_encodings_are_the_smallest() {
    assert_eq!(CompactSize::new(0).to_bytes(), vec![0x00]);
    assert_eq!(CompactSize::new(252).to_bytes(), vec![0xfc]);
    assert_eq!(CompactSize::new(253).to_bytes(), vec![0xfd, 0xfd, 0x00]);
    assert_eq!(CompactSize::new(65536).to_bytes(), vec![0xfe, 0x00, 0x00, 0x01, 0x00]);
    assert_eq!(
        CompactSize::new(4294967296).to_bytes(),
        vec![0xff, 0x00, 0x00, 0x00, 0x00, 0x01, 0x00, 0x00, 0x00]
    );
    assert_eq!(
        CompactSize::new(u64::MAX).to_bytes(),
        vec![0xff, 0xff, 0xff, 0xff, 0xff, 0xff, 0xff, 0xff, 0xff]
    );
    assert_eq!(
        CompactSize::new(0x0102030405060708).to_bytes(),
        vec![0xff, 0x08, 0x07, 0x06, 0x05, 0x04, 0x03, 0x02, 0x01]
    );
}

#[test]
fn compact_size_rejects_short_buffers() {
    assert_eq!(CompactSize::from_bytes(&[]), Err(BitcoinError::InsufficientBytes));
    assert_eq!(CompactSize::from_bytes(&[0xfd, 0x01]), Err(BitcoinError::InsufficientBytes));
    assert_eq!(CompactSize::from_bytes(&[0xfe, 1, 2, 3]), Err(BitcoinError::InsufficientBytes));
    assert_eq!(
        CompactSize::from_bytes(&[0xff, 1, 2, 3, 4, 5, 6, 7]),
        Err(BitcoinError::InsufficientBytes)
    );
}

#[test]
fn compact_size_reads_a_wider_class_than_needed() {
    assert_eq!(CompactSize::from_bytes(&[0xfd, 0x05, 0x00]), Ok((CompactSize::new(5), 3)));
    assert_eq!(CompactSize::from_bytes(&[0xfe, 0x05, 0, 0, 0]), Ok((CompactSize::new(5), 5)));
    assert_eq!(
        CompactSize::from_bytes(&[0xff, 0x05, 0, 0, 0, 0, 0, 0, 0]),
        Ok((CompactSize::new(5), 9))
    );
}

#[test]
fn compact_size_leaves_what_follows() {
    assert_eq!(CompactSize::from_bytes(&[0x07, 0xaa, 0xbb]), Ok((CompactSize::new(7), 1)));
    assert_eq!(
        CompactSize::from_bytes(&[0xfd, 0x34, 0x12, 0xaa]),
        Ok((CompactSize::new(0x1234), 3))
    );
    assert_eq!(
        CompactSize::from_bytes(&[0xfe, 0x78, 0x56, 0x34, 0x12, 0xaa]),
        Ok((CompactSize::new(0x12345678), 5))
    );
}

#[test]
fn txid_bytes_are_copied_as_they_are() {
    let mut raw = [0u8; 32];
    for (i, b) in raw.iter_mut().enumerate() {
        *b = i as u8;
    }
    let id = Txid(raw);
    assert_eq!(id.to_bytes(), raw.to_vec());
    let mut longer = raw.to_vec();
    longer.push(0xff);
    assert_eq!(Txid::from_bytes(&longer), Ok((id, 32)));
    assert_eq!(Txid::from_bytes(&raw[..31]), Err(BitcoinError::InsufficientBytes));
}

#[test]
fn outpoint_layout() {
    let outpoint = OutPoint::new(dummy_txid(0xcc), 0x01020304);
    let bytes = outpoint.to_bytes();
    assert_eq!(bytes.len(), 36);
    assert_eq!(&bytes[..32], &dummy_txid(0xcc)[..]);
    assert_eq!(&bytes[32..], &[0x04, 0x03, 0x02, 0x01]);
    assert_eq!(OutPoint::from_bytes(&bytes[..35]), Err(BitcoinError::InsufficientBytes));
    let mut longer = bytes.clone();
    longer.extend_from_slice(&[9, 9, 9]);
    assert_eq!(OutPoint::from_bytes(&longer), Ok((outpoint, 36)));
}

#[test]
fn script_layout() {
    let script = Script::new(vec![0xaa; 300]);
    let bytes = script.to_bytes();
    assert_eq!(&bytes[..3], &[0xfd, 0x2c, 0x01]);
    assert_eq!(bytes.len(), 303);
    assert_eq!(Script::from_bytes(&bytes), Ok((script.clone(), 303)));
    assert_eq!(script.as_bytes(), &vec![0xaa; 300]);
    assert_eq!(Script::new(vec![]).to_bytes(), vec![0x00]);
    assert_eq!(Script::from_bytes(&[0x00, 0x55]), Ok((Script::new(vec![]), 1)));
}

#[test]
fn script_rejects_a_length_beyond_the_buffer() {
    assert_eq!(Script::from_bytes(&[]), Err(BitcoinError::InsufficientBytes));
    assert_eq!(Script::from_bytes(&[0x03, 1, 2]), Err(BitcoinError::InsufficientBytes));
    assert_eq!(Script::from_bytes(&[0xfd, 0x03]), Err(BitcoinError::InsufficientBytes));
    let mut huge = vec![0xff];
    huge.extend_from_slice(&u64::MAX.to_le_bytes());
    huge.extend_from_slice(&[1, 2, 3]);
    assert_eq!(Script::from_bytes(&huge), Err(BitcoinError::InsufficientBytes));
    let mut large = vec![0xff];
    large.extend_from_slice(&(u64::MAX - 8).to_le_bytes());
    assert_eq!(Script::from_bytes(&large), Err(BitcoinError::InsufficientBytes));
}

#[test]
fn input_layout() {
    let input = TransactionInput::new(
        OutPoint::new(dummy_txid(1), 5),
        Script::new(vec![0x01, 0x02]),
        0x11223344,
    );
    let bytes = input.to_bytes();
    assert_eq!(bytes.len(), 43);
    assert_eq!(&bytes[32..36], &[5, 0, 0, 0]);
    assert_eq!(&bytes[36..39], &[2, 1, 2]);
    assert_eq!(&bytes[39..], &[0x44, 0x33, 0x22, 0x11]);
    for cut in 0..bytes.len() {
        assert_eq!(
            TransactionInput::from_bytes(&bytes[..cut]),
            Err(BitcoinError::InsufficientBytes)
        );
    }
    let mut longer = bytes.clone();
    longer.push(0);
    assert_eq!(TransactionInput::from_bytes(&longer), Ok((input, 43)));
}

#[test]
fn transaction_end_to_end() {
    let tx = BitcoinTransaction::new(2, vec![sample_input()], 1000);
    let bytes = tx.to_bytes();
    assert_eq!(bytes.len(), 52);
    assert_eq!(&bytes[..5], &[2, 0, 0, 0, 1]);
    assert_eq!(&bytes[48..], &[0xe8, 0x03, 0, 0]);
    assert_eq!(BitcoinTransaction::from_bytes(&bytes), Ok((tx, 52)));
}

#[test]
fn transaction_with_more_inputs_announced_than_present() {
    let tx = BitcoinTransaction::new(2, vec![sample_input()], 1000);
    let mut bytes = tx.to_bytes();
    bytes[4] = 2;
    assert_eq!(BitcoinTransaction::from_bytes(&bytes), Err(BitcoinError::InsufficientBytes));
    bytes[4] = 0xfc;
    assert_eq!(BitcoinTransaction::from_bytes(&bytes), Err(BitcoinError::InsufficientBytes));
    let mut huge = vec![1, 0, 0, 0, 0xff];
    huge.extend_from_slice(&u64::MAX.to_le_bytes());
    huge.extend_from_slice(&sample_input().to_bytes());
    huge.extend_from_slice(&[0, 0, 0, 0]);
    assert_eq!(BitcoinTransaction::from_bytes(&huge), Err(BitcoinError::InsufficientBytes));
}

#[test]
fn transaction_rejects_every_truncation() {
    let second = TransactionInput::new(OutPoint::new(dummy_txid(9), 1), Script::new(vec![]), 7);
    let tx = BitcoinTransaction::new(1, vec![sample_input(), second], 0);
    let bytes = tx.to_bytes();
    assert_eq!(bytes.len(), 4 + 1 + 43 + 41 + 4);
    for cut in 0..bytes.len() {
        assert_eq!(
            BitcoinTransaction::from_bytes(&bytes[..cut]),
            Err(BitcoinError::InsufficientBytes)
        );
    }
    let mut longer = bytes.clone();
    longer.extend_from_slice(&[1, 2, 3]);
    assert_eq!(BitcoinTransaction::from_bytes(&longer), Ok((tx, bytes.len())));
}

#[test]
fn transaction_without_inputs() {
    let tx = BitcoinTransaction::new(7, vec![], 9);
    let bytes = tx.to_bytes();
    assert_eq!(bytes, vec![7, 0, 0, 0, 0, 9, 0, 0, 0]);
    assert_eq!(BitcoinTransaction::from_bytes(&bytes), Ok((tx, 9)));
}

#[test]
fn transaction_keeps_the_order_of_its_inputs() {
    let inputs: Vec<TransactionInput> = (0..5u8)
        .map(|i| {
            TransactionInput::new(
                OutPoint::new(dummy_txid(i), i as u32),
                Script::new(vec![i; i as usize]),
                i as u32,
            )
        })
        .collect();
    let tx = BitcoinTransaction::new(1, inputs.clone(), 0);
    let (parsed, _) = BitcoinTransaction::from_bytes(&tx.to_bytes()).unwrap();
    assert_eq!(parsed.inputs, inputs);
}
