use bitcoin::{consensus::serialize, constants::genesis_block, Network};
use bitcoincore_zmq::{Hash256, Message, MessageError, SequenceMessage, Topic};

fn hash(first: u8) -> Hash256 {
    let mut bytes = [0u8; 32];
    for (i, b) in bytes.iter_mut().enumerate() {
        *b = first.wrapping_add(i as u8);
    }
    Hash256::from_byte_array(bytes)
}

fn decode_vecs(frames: &[Vec<u8>; 3]) -> Result<Message, MessageError> {
    let refs: [&[u8]; 3] = [&frames[0], &frames[1], &frames[2]];
    Message::from_fixed_size_multipart(&refs)
}

#[test]
fn hashblock_reverses_wire_bytes() {
    let wire: Vec<u8> = (0u8..32).collect();
    let msg = Message::from_parts(b"hashblock", &wire, [1, 0, 0, 0]).unwrap();
    let mut expected = [0u8; 32];
    for i in 0..32 {
        expected[i] = 31 - i as u8;
    }
    assert_eq!(msg, Message::HashBlock(Hash256::from_byte_array(expected), 1));
    assert_eq!(msg.serialize_data_to_vec(), wire);
}

#[test]
fn sequence_number_is_little_endian() {
    let wire = [7u8; 32];
    let msg = Message::from_parts(b"hashtx", &wire, [0x01, 0x02, 0x03, 0x04]).unwrap();
    assert_eq!(msg.sequence(), 0x04030201);
    let frames = msg.serialize_to_vecs();
    assert_eq!(frames[2], vec![0x01, 0x02, 0x03, 0x04]);
    assert_eq!(frames[0], b"hashtx".to_vec());
}

#[test]
fn round_trip_hash_messages() {
    for msg in [
        Message::HashBlock(hash(3), 0),
        Message::HashTx(hash(200), u32::MAX),
        Message::HashWTx(hash(9), "wallet".to_string(), 17),
        Message::HashWTx(hash(9), String::new(), 18),
    ] {
        let frames = msg.serialize_to_vecs();
        assert_eq!(decode_vecs(&frames).unwrap(), msg);
    }
}

#[test]
fn round_trip_sequence_messages() {
    for sm in [
        SequenceMessage::BlockConnect { blockhash: hash(1) },
        SequenceMessage::BlockDisconnect { blockhash: hash(2) },
        SequenceMessage::MempoolAcceptance { txid: hash(3), mempool_sequence: 0x0102030405060708 },
        SequenceMessage::MempoolRemoval { txid: hash(4), mempool_sequence: 5 },
    ] {
        let msg = Message::Sequence(sm.clone(), 12);
        let frames = msg.serialize_to_vecs();
        assert_eq!(frames[0], b"sequence".to_vec());
        assert_eq!(decode_vecs(&frames).unwrap(), msg);
    }
}

#[test]
fn round_trip_block_and_tx() {
    let block = genesis_block(Network::Bitcoin);
    let tx = block.txdata[0].clone();
    for msg in [Message::Block(block, 1), Message::Tx(tx, 2)] {
        let frames = msg.serialize_to_vecs();
        assert_eq!(decode_vecs(&frames).unwrap(), msg);
    }
}

#[test]
fn sequence_message_wire_form() {
    let sm = SequenceMessage::MempoolAcceptance { txid: hash(0), mempool_sequence: 0x0100 };
    let bytes = sm.serialize_to_vec();
    assert_eq!(bytes.len(), 41);
    assert_eq!(bytes[0], 31);
    assert_eq!(bytes[31], 0);
    assert_eq!(bytes[32], b'A');
    assert_eq!(&bytes[33..], &[0x00, 0x01, 0, 0, 0, 0, 0, 0]);
    let connect = SequenceMessage::BlockConnect { blockhash: hash(0) }.serialize_to_vec();
    assert_eq!(connect.len(), 33);
    assert_eq!(connect[32], b'C');
}

#[test]
fn sequence_message_errors() {
    let mut bytes = vec![0u8; 33];
    bytes[32] = b'X';
    assert!(matches!(
        SequenceMessage::from_byte_slice(&bytes),
        Err(MessageError::InvalidSequenceMessageLabel(b'X'))
    ));
    bytes[32] = b'A';
    assert!(matches!(
        SequenceMessage::from_byte_slice(&bytes),
        Err(MessageError::InvalidSequenceMessageLength(33))
    ));
    bytes[32] = b'D';
    bytes.push(0);
    assert!(matches!(
        SequenceMessage::from_byte_slice(&bytes),
        Err(MessageError::InvalidSequenceMessageLength(34))
    ));
}

#[test]
fn wallet_hash_pads_label_to_32_bytes() {
    let msg = Message::HashWTx(hash(0), "ab".to_string(), 5);
    let data = msg.serialize_data_to_vec();
    assert_eq!(data.len(), 64);
    assert_eq!(data[0], 31);
    assert_eq!(data[31], 0);
    assert_eq!(&data[32..34], b"ab");
    assert!(data[34..].iter().all(|b| *b == 0));
}

#[test]
fn wallet_hash_long_label_is_written_whole() {
    let label = "a wallet label that is longer than thirty-two bytes";
    let msg = Message::HashWTx(hash(4), label.to_string(), 6);
    let data = msg.serialize_data_to_vec();
    assert_eq!(data.len(), 32 + label.len());
    assert_eq!(decode_vecs(&msg.serialize_to_vecs()).unwrap(), msg);
}

#[test]
fn wallet_hash_invalid_utf8_is_replaced() {
    let mut data = vec![0u8; 32];
    data.extend_from_slice(&[b'o', b'k', 0xff, 0, 0]);
    let msg = Message::from_parts(b"hashwtx", &data, [0, 0, 0, 0]).unwrap();
    match msg {
        Message::HashWTx(_, label, _) => assert_eq!(label, "ok\u{FFFD}"),
        other => panic!("unexpected {:?}", other),
    }
}

#[test]
fn wallet_hash_too_short() {
    assert!(matches!(
        Message::from_parts(b"hashwtx", &[0u8; 31], [0, 0, 0, 0]),
        Err(MessageError::Invalid256BitHashLength(31))
    ));
}

#[test]
fn rawblock_garbage_is_a_consensus_error() {
    let expected = bitcoin::consensus::deserialize::<bitcoin::Block>(b"garbage").unwrap_err();
    match Message::from_parts(b"rawblock", b"garbage", [0, 0, 0, 0]) {
        Err(MessageError::BitcoinDeserialization(e)) => {
            assert_eq!(format!("{:?}", e), format!("{:?}", expected))
        }
        other => panic!("unexpected {:?}", other),
    }
    let expected_tx =
        bitcoin::consensus::deserialize::<bitcoin::Transaction>(&[1, 2, 3]).unwrap_err();
    match Message::from_parts(b"rawtx", &[1, 2, 3], [0, 0, 0, 0]) {
        Err(MessageError::BitcoinDeserialization(e)) => {
            assert_eq!(format!("{:?}", e), format!("{:?}", expected_tx))
        }
        other => panic!("unexpected {:?}", other),
    }
    let block = genesis_block(Network::Bitcoin);
    let msg = Message::from_parts(b"rawblock", &serialize(&block), [2, 0, 0, 0]).unwrap();
    assert_eq!(msg, Message::Block(block, 2));
}

#[test]
fn topics_and_their_names() {
    for (topic, name) in [
        (Topic::HashBlock, "hashblock"),
        (Topic::HashTx, "hashtx"),
        (Topic::HashWTx, "hashwtx"),
        (Topic::RawBlock, "rawblock"),
        (Topic::RawTx, "rawtx"),
        (Topic::Sequence, "sequence"),
    ] {
        assert_eq!(topic.as_str(), name);
        assert_eq!(Topic::from_bytes(name.as_bytes()), Some(topic));
    }
    assert_eq!(Topic::from_bytes(b"hashblocks"), None);
    let msg = Message::HashTx(hash(1), 0);
    assert_eq!(msg.topic(), b"hashtx");
}

#[test]
fn invalid_topic_keeps_zero_padded_snapshot() {
    match Message::from_parts(b"abc", &[], [0, 0, 0, 0]) {
        Err(MessageError::InvalidTopic(len, buf)) => {
            assert_eq!(len, 3);
            assert_eq!(buf, [b'a', b'b', b'c', 0, 0, 0, 0, 0, 0]);
        }
        other => panic!("unexpected {:?}", other),
    }
    assert_eq!(MessageError::InvalidSequenceLength(3).invalid_topic_data(), None);
}

#[test]
fn sequence_frame_checked_before_topic() {
    assert!(matches!(
        Message::from_multipart(&[b"hashtx" as &[u8], &[0u8; 32], &[1, 2, 3]]),
        Err(MessageError::InvalidSequenceLength(3))
    ));
}

#[test]
fn wallet_label_ending_in_nul_loses_it() {
    let msg = Message::HashWTx(hash(2), "a\0".to_string(), 3);
    let decoded = decode_vecs(&msg.serialize_to_vecs()).unwrap();
    assert_eq!(decoded, Message::HashWTx(hash(2), "a".to_string(), 3));
}
