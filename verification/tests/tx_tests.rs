use ledgerdb::tx::TxError;
use ledgerdb::Tx;

#[test]
fn round_trip_recovers_the_record() {
    let tx = Tx::new(1234567890123, b"some payload".to_vec());
    let bytes = tx.get_bytes();
    let back = Tx::from_bytes(bytes).unwrap();
    assert_eq!(back.timestamp(), 1234567890123);
    assert_eq!(back.data(), b"some payload");
}

#[test]
fn round_trip_empty_payload() {
    let tx = Tx::new(u64::MAX, Vec::new());
    let back = Tx::from_bytes(tx.get_bytes()).unwrap();
    assert_eq!(back.timestamp(), u64::MAX);
    assert!(back.data().is_empty());
}

#[test]
fn wire_form_is_big_endian_timestamp_then_payload() {
    let tx = Tx::new(1, b"a".to_vec());
    assert_eq!(tx.get_bytes(), vec![0, 0, 0, 0, 0, 0, 0, 1, b'a']);

    let tx = Tx::new(0x0102030405060708, b"xy".to_vec());
    assert_eq!(tx.get_bytes(), vec![1, 2, 3, 4, 5, 6, 7, 8, b'x', b'y']);
}

#[test]
fn from_bytes_rejects_short_input() {
    for n in 0..8 {
        let r = Tx::from_bytes(vec![0u8; n]);
        assert!(matches!(r, Err(TxError::MalformedRecord)));
    }
    // Exactly 8 bytes is the shortest valid wire form.
    let tx = Tx::from_bytes(vec![0u8; 8]).unwrap();
    assert_eq!(tx.timestamp(), 0);
    assert!(tx.data().is_empty());
}

#[test]
fn content_hash_is_a_digest_of_the_wire_form() {
    let tx = Tx::new(5, b"abc".to_vec());
    let h = tx.get_hash();
    assert_eq!(h.len(), 32);
    // A different record hashes differently.
    let other = Tx::new(6, b"abc".to_vec());
    assert_ne!(h, other.get_hash());
    // The digest is not the wire form itself.
    assert_ne!(h.to_vec(), tx.get_bytes());
}
