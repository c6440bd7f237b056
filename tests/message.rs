use bitcoin::{consensus::serialize, constants::genesis_block, Network};
use bitcoincore_zmq::{Hash256, Message, MessageError as Error};

#[test]
fn test_deserialize_rawtx() {
    let genesis_block = genesis_block(Network::Bitcoin);

    let tx = &genesis_block.txdata[0];
    let tx_bytes = serialize(tx);
    let txid = tx.txid();
    let mut txid_bytes = bitcoin::hashes::Hash::to_byte_array(txid);
    txid_bytes.reverse();

    let to_deserialize = [
        b"rawtx" as &[u8],
        &tx_bytes,
        &[0x03, 0x00, 0x00, 0x00],
        b"garbage",
    ];

    let msg = Message::from_multipart(&to_deserialize[..3]).unwrap();

    assert_eq!(msg, Message::Tx(tx.clone(), 3));

    assert_eq!(msg.topic_str(), "rawtx");
    assert_eq!(msg.serialize_data_to_vec(), tx_bytes);
    assert_eq!(msg.sequence(), 3);

    assert_eq!(msg.serialize_to_vecs(), to_deserialize[0..3]);

    assert!(matches!(
        Message::from_multipart(&to_deserialize[..0]),
        Err(Error::InvalidMutlipartLength(0))
    ));
    assert!(matches!(
        Message::from_multipart(&to_deserialize[..1]),
        Err(Error::InvalidMutlipartLength(1))
    ));
    assert!(matches!(
        Message::from_multipart(&to_deserialize[..2]),
        Err(Error::InvalidMutlipartLength(2))
    ));
    assert!(matches!(
        Message::from_multipart(&to_deserialize[..4]),
        Err(Error::InvalidMutlipartLength(4))
    ));
}

#[test]
fn test_deserialize_hashtx() {
    let genesis_block = genesis_block(Network::Bitcoin);

    let txid = genesis_block.txdata[0].txid();
    let mut txid_bytes = bitcoin::hashes::Hash::to_byte_array(txid);
    txid_bytes.reverse();

    let to_deserialize = [b"hashtx" as &[u8], &txid_bytes, &[0x04, 0x00, 0x00, 0x00]];

    let msg = Message::from_multipart(&to_deserialize).unwrap();

    assert_eq!(
        msg,
        Message::HashTx(Hash256::from_byte_array(bitcoin::hashes::Hash::to_byte_array(txid)), 4)
    );

    assert_eq!(msg.topic_str(), "hashtx");
    assert_eq!(msg.serialize_data_to_vec(), txid_bytes);
    assert_eq!(msg.sequence(), 4);

    assert_eq!(msg.serialize_to_vecs(), to_deserialize);
}

#[test]
fn test_deserialization_error_mp_len() {
    let to_deserialize = [
        b"sequence" as &[u8],
        &[],
        &[0x05, 0x00, 0x00, 0x00],
        b"garbage",
    ];

    assert!(matches!(
        Message::from_multipart(&to_deserialize[..0]),
        Err(Error::InvalidMutlipartLength(0))
    ));
    assert!(matches!(
        Message::from_multipart(&to_deserialize[..1]),
        Err(Error::InvalidMutlipartLength(1))
    ));
    assert!(matches!(
        Message::from_multipart(&to_deserialize[..2]),
        Err(Error::InvalidMutlipartLength(2))
    ));
    assert!(matches!(
        Message::from_multipart(&to_deserialize[..4]),
        Err(Error::InvalidMutlipartLength(4))
    ));
}

#[test]
fn test_deserialization_error_topic() {
    assert_eq!(
        Message::from_multipart(&[b"" as &[u8], &[], &[0x06, 0x00, 0x00, 0x00]])
            .expect_err("expected invalid topic")
            .invalid_topic_data(),
        Some((b"" as &[u8], 0))
    );

    assert_eq!(
        Message::from_multipart(&[b"abc" as &[u8], &[], &[0x07, 0x00, 0x00, 0x00]])
            .expect_err("expected invalid topic")
            .invalid_topic_data(),
        Some((b"abc" as &[u8], 3))
    );

    assert_eq!(
        Message::from_multipart(&[b"hashblock!" as &[u8], &[], &[0x08, 0x00, 0x00, 0x00]])
            .expect_err("expected invalid topic")
            .invalid_topic_data(),
        Some((b"hashblock" as &[u8], 10))
    );

    assert_eq!(
        Message::from_multipart(&[
            b"too long so gets truncated" as &[u8],
            &[],
            &[0x09, 0x00, 0x00, 0x00]
        ])
        .expect_err("expected invalid topic")
        .invalid_topic_data(),
        Some((b"too long " as &[u8], 26))
    );
}

#[test]
fn test_deserialization_error_element_len() {
    assert!(matches!(
        Message::from_multipart(&[b"something" as &[u8], &[], b"not 4 bytes"]),
        Err(Error::InvalidSequenceLength(11))
    ));

    assert!(matches!(
        Message::from_multipart(&[b"hashtx" as &[u8], &[], &[0x0a, 0x00, 0x00, 0x00]]),
        Err(Error::Invalid256BitHashLength(0))
    ));

    assert!(matches!(
        Message::from_multipart(&[b"hashblock" as &[u8], &[0; 20], &[0x0b, 0x00, 0x00, 0x00]]),
        Err(Error::Invalid256BitHashLength(20))
    ));

    assert!(matches!(
        Message::from_multipart(&[b"sequence" as &[u8], &[0; 32], &[0x0c, 0x00, 0x00, 0x00]]),
        Err(Error::InvalidSequenceMessageLength(32))
    ));
}
