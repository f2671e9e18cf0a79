use et::decimal::{parse_port, unsigned_text};
use et::error::{Error, IoError, IoKind};
use et::proto::Message;
use et::table::Table;
use et::text::{split, split_once, starts_with, trim};
use et::wire::{decode, encode, to_signed32, to_signed64, ByteOrder};
use et::{DEFAULT_PORT, PROTOCOL_VERSION};

#[test]
fn numbers_survive_in_both_byte_orders() {
    assert_eq!(encode(0x0102_0304, 4, ByteOrder::Big), vec![1, 2, 3, 4]);
    assert_eq!(encode(0x0102_0304, 4, ByteOrder::Little), vec![4, 3, 2, 1]);
    assert_eq!(decode(&[1, 2, 3, 4], ByteOrder::Big), 0x0102_0304);
    assert_eq!(decode(&encode(u64::MAX - 1, 8, ByteOrder::Little), ByteOrder::Little), u64::MAX - 1);
    assert_eq!(to_signed64(u64::MAX), -1);
    assert_eq!(to_signed32(0x8000_0000), i32::MIN);
}

#[test]
fn ports_are_read_and_written() {
    assert_eq!(parse_port("65535"), Some(65535));
    assert_eq!(parse_port("+1"), Some(1));
    assert_eq!(parse_port("65536"), None);
    assert_eq!(parse_port("99999999999999999999999"), None);
    assert_eq!(parse_port(""), None);
    assert_eq!(parse_port("+"), None);
    assert_eq!(parse_port(" 1"), None);
    assert_eq!(unsigned_text(0), "0");
    assert_eq!(unsigned_text(u64::MAX), "18446744073709551615");
}

#[test]
fn texts_are_cut() {
    assert_eq!(split("a::b", ':'), vec!["a", "", "b"]);
    assert_eq!(split("", ','), vec![""]);
    assert_eq!(split_once("a=b=c", '='), Some(("a", "b=c")));
    assert_eq!(split_once("abc", '='), None);
    assert_eq!(trim("\u{2003} x y\t\n"), "x y");
    assert_eq!(trim(" \u{a0}"), "");
    assert!(starts_with("prefix", "pre"));
    assert!(!starts_with("pre", "prefix"));
}

#[test]
fn a_table_holds_one_value_for_each_key() {
    let mut table = Table::new();
    table.insert("a", 1);
    table.insert("b", 2);
    table.insert("a", 3);
    assert_eq!(table.get("a"), Some(&3));
    assert_eq!(table.get("c"), None);
    table.insert("b", 5);
    assert_eq!(table.remove("a"), Some(3));
    assert_eq!(table.remove("a"), None);
    assert_eq!(table.get("b"), Some(&5));
}

#[test]
fn errors_describe_themselves() {
    assert_eq!(Error::InvalidKeyLength { expected: 32, got: 5 }.to_string(), "Invalid key length: expected 32, got 5");
    assert_eq!(Error::DecryptionFailed.to_string(), "Decryption failed - possible key mismatch");
    assert_eq!(Error::InvalidMessageSize(-7).to_string(), "Invalid message size: -7");
    assert_eq!(Error::Protobuf("bad".to_string()).to_string(), "Protobuf error: bad");
    assert_eq!(Error::ClientTooFarBehind.to_string(), "Client is too far behind server during recovery");
    assert_eq!(Error::ConnectionClosed.to_string(), "Connection closed");
    assert_eq!(Error::Crypto("x".to_string()).to_string(), "Cryptography error: x");
    let blocked = Error::Io(IoError { kind: IoKind::WouldBlock, message: "later".to_string() });
    assert!(blocked.is_would_block());
    assert_eq!(blocked.to_string(), "I/O error: later");
    assert!(!Error::Timeout.is_would_block());
}

#[test]
fn messages_know_their_packet_type() {
    assert_eq!(Message::KeepAlive.packet_type(), 0);
    assert_eq!(Message::TerminalBuffer(vec![]).packet_type(), 1);
    assert_eq!(Message::InitialPayload { jumphost: false }.packet_type(), 253);
    assert_eq!(et::proto::packet_type::HEARTBEAT, 254);
    assert_eq!(et::proto::packet_type::INITIAL_RESPONSE, 252);
    assert_eq!(et::proto::terminal_packet_type::JUMPHOST_INIT, 10);
    assert_eq!(et::nonce::CLIENT_SERVER, 0);
    assert_eq!(et::nonce::SERVER_CLIENT, 1);
    assert_eq!((PROTOCOL_VERSION, DEFAULT_PORT), (6, 2022));
}
