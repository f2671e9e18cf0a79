use et::crypto::CryptoHandler;
use et::packet::Packet;

#[test]
fn packet_test_packet_serialization() {
    let packet = Packet::new(42, b"Hello".to_vec());
    let serialized = packet.serialize();

    assert_eq!(serialized[0], 0); // not encrypted
    assert_eq!(serialized[1], 42); // header
    assert_eq!(&serialized[2..], b"Hello");

    let deserialized = Packet::from_bytes(&serialized).unwrap();
    assert_eq!(deserialized.header(), 42);
    assert_eq!(deserialized.payload(), b"Hello");
    assert!(!deserialized.is_encrypted());
}

#[test]
fn packet_test_packet_encryption() {
    let key = CryptoHandler::generate_key();
    let mut crypto = CryptoHandler::new(&key, 0).unwrap();

    let mut packet = Packet::new(42, b"Secret message".to_vec());
    packet.encrypt(&mut crypto).unwrap();

    assert!(packet.is_encrypted());
    assert_ne!(packet.payload(), b"Secret message");

    // Create a new crypto handler for decryption (same key, same nonce MSB)
    let mut crypto_decrypt = CryptoHandler::new(&key, 0).unwrap();
    packet.decrypt(&mut crypto_decrypt).unwrap();

    assert!(!packet.is_encrypted());
    assert_eq!(packet.payload(), b"Secret message");
}

#[test]
fn test_packet_length() {
    let packet = Packet::new(0, vec![1, 2, 3, 4, 5]);
    assert_eq!(packet.len(), 7); // 2 header + 5 payload
}

#[test]
fn test_packet_creation() {
    let packet = Packet::new(42, b"Hello".to_vec());
    assert_eq!(packet.header(), 42);
    assert_eq!(packet.payload(), b"Hello");
    assert!(!packet.is_encrypted());
}

#[test]
fn lib_test_packet_serialization() {
    let packet = Packet::new(42, b"Hello".to_vec());
    let serialized = packet.serialize();

    assert_eq!(serialized[0], 0); // Not encrypted
    assert_eq!(serialized[1], 42); // Header
    assert_eq!(&serialized[2..], b"Hello"); // Payload

    let deserialized = Packet::from_bytes(&serialized).unwrap();
    assert_eq!(deserialized.header(), 42);
    assert_eq!(deserialized.payload(), b"Hello");
}

#[test]
fn lib_test_packet_encryption() {
    let key = CryptoHandler::generate_key();
    let mut crypto = CryptoHandler::new(&key, 0).unwrap();

    let mut packet = Packet::new(42, b"Secret".to_vec());
    packet.encrypt(&mut crypto).unwrap();

    assert!(packet.is_encrypted());
    assert_ne!(packet.payload(), b"Secret");

    // Decrypt with same key
    let mut crypto_decrypt = CryptoHandler::new(&key, 0).unwrap();
    packet.decrypt(&mut crypto_decrypt).unwrap();

    assert!(!packet.is_encrypted());
    assert_eq!(packet.payload(), b"Secret");
}

#[test]
fn test_packet_double_encrypt_fails() {
    let key = CryptoHandler::generate_key();
    let mut crypto = CryptoHandler::new(&key, 0).unwrap();

    let mut packet = Packet::new(42, b"Secret".to_vec());
    packet.encrypt(&mut crypto).unwrap();

    // Second encryption should fail
    assert!(packet.encrypt(&mut crypto).is_err());
}

#[test]
fn test_packet_decrypt_unencrypted_fails() {
    let key = CryptoHandler::generate_key();
    let mut crypto = CryptoHandler::new(&key, 0).unwrap();

    let mut packet = Packet::new(42, b"Not encrypted".to_vec());

    // Decrypting unencrypted packet should fail
    assert!(packet.decrypt(&mut crypto).is_err());
}

#[test]
fn a_packet_needs_two_bytes() {
    let error = Packet::from_bytes(&[1]).err().unwrap();
    assert_eq!(error.to_string(), "Invalid packet: Packet too short");
    let smallest = Packet::from_bytes(&[1, 9]).unwrap();
    assert!(smallest.is_encrypted());
    assert_eq!(smallest.header(), 9);
    assert!(smallest.is_empty());
}

#[test]
fn any_flag_but_zero_means_encrypted() {
    assert!(!Packet::from_bytes(&[0, 1, 2]).unwrap().is_encrypted());
    assert!(Packet::from_bytes(&[255, 1, 2]).unwrap().is_encrypted());
}

#[test]
fn a_text_becomes_its_bytes() {
    let packet = Packet::from_str(3, "h\u{e9}");
    assert_eq!(packet.payload(), &[0x68, 0xc3, 0xa9]);
    assert_eq!(packet.len(), 5);
    assert_eq!(packet.into_payload(), vec![0x68, 0xc3, 0xa9]);
}

#[test]
fn the_default_packet_is_empty() {
    let packet = Packet::default();
    assert_eq!(packet.header(), 255);
    assert!(packet.is_empty());
    assert!(!packet.is_encrypted());
}

#[test]
fn an_encrypted_packet_survives_the_wire() {
    let mut sender = CryptoHandler::new(&[9u8; 32], 0).unwrap();
    let mut receiver = CryptoHandler::new(&[9u8; 32], 0).unwrap();
    let mut packet = Packet::new(7, b"payload".to_vec());
    packet.encrypt(&mut sender).unwrap();
    let mut arrived = Packet::from_bytes(&packet.serialize()).unwrap();
    arrived.decrypt(&mut receiver).unwrap();
    assert_eq!(arrived.header(), 7);
    assert_eq!(arrived.payload(), b"payload");
}

#[test]
fn any_flag_other_than_zero_is_written_as_one() {
    assert_eq!(Packet::from_bytes(&[7, 9, 1, 2]).unwrap().serialize(), vec![1, 9, 1, 2]);
    assert_eq!(Packet::from_bytes(&[0, 9]).unwrap().serialize(), vec![0, 9]);
}

#[test]
fn a_packet_can_be_made_as_an_encrypted_one() {
    let packet = Packet::with_encrypted(true, 4, vec![1, 2]);
    assert!(packet.is_encrypted());
    assert_eq!(packet.serialize(), vec![1, 4, 1, 2]);
}
