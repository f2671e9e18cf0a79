use et::crypto::{CryptoHandler, KEYBYTES, MACBYTES};
use et::error::Error;

#[test]
fn test_encrypt_decrypt() {
    let key = CryptoHandler::generate_key();
    let mut crypto_client = CryptoHandler::new(&key, 0).unwrap();
    let mut crypto_server = CryptoHandler::new(&key, 0).unwrap();

    let plaintext = b"Hello, World!";
    let ciphertext = crypto_client.encrypt(plaintext);

    // Ciphertext should be larger due to MAC
    assert_eq!(ciphertext.len(), plaintext.len() + MACBYTES);

    let decrypted = crypto_server.decrypt(&ciphertext).unwrap();
    assert_eq!(decrypted, plaintext);
}

#[test]
fn test_nonce_mismatch() {
    let key = CryptoHandler::generate_key();
    let mut crypto1 = CryptoHandler::new(&key, 0).unwrap();
    let mut crypto2 = CryptoHandler::new(&key, 1).unwrap();

    let plaintext = b"Hello, World!";
    let ciphertext = crypto1.encrypt(plaintext);

    // Decryption should fail due to different nonce MSB
    assert!(crypto2.decrypt(&ciphertext).is_err());
}

#[test]
fn crypto_test_invalid_key_length() {
    let short_key = vec![0u8; 16];
    assert!(CryptoHandler::new(&short_key, 0).is_err());
}

#[test]
fn crypto_test_multiple_messages() {
    let key = CryptoHandler::generate_key();
    let mut crypto_client = CryptoHandler::new(&key, 0).unwrap();
    let mut crypto_server = CryptoHandler::new(&key, 0).unwrap();

    for i in 0..10 {
        let plaintext = format!("Message {}", i);
        let ciphertext = crypto_client.encrypt(plaintext.as_bytes());
        let decrypted = crypto_server.decrypt(&ciphertext).unwrap();
        assert_eq!(decrypted, plaintext.as_bytes());
    }
}

#[test]
fn test_encrypt_decrypt_roundtrip() {
    let key = CryptoHandler::generate_key();
    let mut crypto_sender = CryptoHandler::new(&key, 0).unwrap();
    let mut crypto_receiver = CryptoHandler::new(&key, 0).unwrap();

    let original = b"Hello, World! This is a test message.";
    let encrypted = crypto_sender.encrypt(original);

    assert_ne!(&encrypted[..], original);
    assert_eq!(encrypted.len(), original.len() + CryptoHandler::mac_bytes());

    let decrypted = crypto_receiver.decrypt(&encrypted).unwrap();
    assert_eq!(&decrypted[..], original);
}

#[test]
fn lib_test_multiple_messages() {
    let key = CryptoHandler::generate_key();
    let mut crypto_sender = CryptoHandler::new(&key, 0).unwrap();
    let mut crypto_receiver = CryptoHandler::new(&key, 0).unwrap();

    for i in 0..100 {
        let message = format!("Message number {}", i);
        let encrypted = crypto_sender.encrypt(message.as_bytes());
        let decrypted = crypto_receiver.decrypt(&encrypted).unwrap();
        assert_eq!(decrypted, message.as_bytes());
    }
}

#[test]
fn test_key_mismatch() {
    let key1 = CryptoHandler::generate_key();
    let key2 = CryptoHandler::generate_key();

    let mut crypto_sender = CryptoHandler::new(&key1, 0).unwrap();
    let mut crypto_receiver = CryptoHandler::new(&key2, 0).unwrap();

    let message = b"Secret message";
    let encrypted = crypto_sender.encrypt(message);

    assert!(crypto_receiver.decrypt(&encrypted).is_err());
}

#[test]
fn test_nonce_msb_mismatch() {
    let key = CryptoHandler::generate_key();
    let mut crypto_sender = CryptoHandler::new(&key, 0).unwrap();
    let mut crypto_receiver = CryptoHandler::new(&key, 1).unwrap();

    let message = b"Secret message";
    let encrypted = crypto_sender.encrypt(message);

    assert!(crypto_receiver.decrypt(&encrypted).is_err());
}

#[test]
fn lib_test_invalid_key_length() {
    let short_key = vec![0u8; 16]; // Too short
    assert!(CryptoHandler::new(&short_key, 0).is_err());

    let long_key = vec![0u8; 64]; // Too long
    assert!(CryptoHandler::new(&long_key, 0).is_err());
}

#[test]
fn generated_keys_have_the_key_length_and_differ() {
    let first = CryptoHandler::generate_key();
    let second = CryptoHandler::generate_key();
    assert_eq!(first.len(), KEYBYTES);
    assert_eq!(CryptoHandler::key_bytes(), 32);
    assert_ne!(first, second);
}

#[test]
fn a_wrong_key_length_is_reported() {
    match CryptoHandler::new(&[7u8; 31], 0) {
        Err(Error::InvalidKeyLength { expected, got }) => {
            assert_eq!(expected, 32);
            assert_eq!(got, 31);
        }
        _ => panic!("expected an invalid key length"),
    }
}

#[test]
fn a_library_that_is_not_ready_is_reported() {
    let error = CryptoHandler::with_sodium(false, &[0u8; 32], 0).err().unwrap();
    assert_eq!(error.to_string(), "Cryptography error: Failed to initialize sodiumoxide");
}

#[test]
fn equal_messages_get_different_ciphertexts() {
    let mut sender = CryptoHandler::new(&[1u8; 32], 0).unwrap();
    assert_ne!(sender.encrypt(b"again"), sender.encrypt(b"again"));
}

#[test]
fn the_directions_share_no_ciphertext() {
    let mut one = CryptoHandler::new(&[1u8; 32], 0).unwrap();
    let mut other = CryptoHandler::new(&[1u8; 32], 1).unwrap();
    assert_ne!(one.encrypt(b"same"), other.encrypt(b"same"));
}

#[test]
fn the_first_message_uses_the_initial_nonce() {
    let key = [3u8; 32];
    let mut nonce = [0u8; 24];
    nonce[23] = 1;
    let expected = sodiumoxide::crypto::secretbox::seal(
        b"first",
        &sodiumoxide::crypto::secretbox::Nonce(nonce),
        &sodiumoxide::crypto::secretbox::Key(key),
    );
    let mut handler = CryptoHandler::new(&key, 1).unwrap();
    assert_eq!(handler.encrypt(b"first"), expected);
}

#[test]
fn messages_open_in_turn() {
    let mut sender = CryptoHandler::new(&[6u8; 32], 1).unwrap();
    let mut receiver = CryptoHandler::new(&[6u8; 32], 1).unwrap();
    let messages: Vec<Vec<u8>> = (0..300usize).map(|i| vec![i as u8; i % 7]).collect();
    let sealed: Vec<Vec<u8>> = messages.iter().map(|m| sender.encrypt(m)).collect();
    let opened: Vec<Vec<u8>> = sealed.iter().map(|c| receiver.decrypt(c).unwrap()).collect();
    assert_eq!(opened, messages);
}

#[test]
fn a_failed_decryption_uses_a_nonce_up() {
    let key = [5u8; 32];
    let mut sender = CryptoHandler::new(&key, 0).unwrap();
    let mut receiver = CryptoHandler::new(&key, 0).unwrap();
    let _lost = sender.encrypt(b"lost");
    assert!(matches!(receiver.decrypt(b"short"), Err(Error::DecryptionFailed)));
    let second = sender.encrypt(b"second");
    assert_eq!(receiver.decrypt(&second).unwrap(), b"second");
}
