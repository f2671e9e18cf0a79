use et::error::{Error, IoError, IoKind};
use et::packet::Packet;
use et::socket::{
    b64_result, decode_b64, read_b64, read_packet, write_b64, AnswerStep, MessageRead,
    MessageWrite, RawSocketUtils, RawStep, ReadAll, SocketEndpoint, TransferStep, WriteAll,
};
use et::wire::ByteOrder;

fn blocked() -> Error {
    Error::Io(IoError { kind: IoKind::WouldBlock, message: "wait".to_string() })
}

#[test]
fn socket_test_socket_endpoint_display() {
    let ep = SocketEndpoint::new("localhost", 2022);
    assert_eq!(ep.to_string(), "localhost:2022");

    let ep_any = SocketEndpoint::any(2022);
    assert_eq!(ep_any.to_string(), "*:2022");
}

#[test]
fn lib_test_socket_endpoint_display() {
    let ep = SocketEndpoint::new("localhost", 2022);
    assert_eq!(ep.to_string(), "localhost:2022");

    let ep_any = SocketEndpoint::any(2022);
    assert_eq!(ep_any.to_string(), "*:2022");
}

#[test]
fn reading_takes_pieces_until_all_is_there() {
    let mut read = ReadAll::new(5, true, 0);
    assert!(matches!(read.poll(0), TransferStep::Proceed));
    assert!(matches!(read.received(Ok(vec![1, 2])), AnswerStep::Continue));
    assert_eq!(read.remaining(), 3);
    assert!(matches!(read.received(Err(blocked())), AnswerStep::Wait { micros: 1000 }));
    assert!(matches!(read.received(Ok(vec![3, 4, 5])), AnswerStep::Continue));
    assert!(matches!(read.poll(u64::MAX), TransferStep::Complete));
    assert_eq!(read.into_bytes(), vec![1, 2, 3, 4, 5]);
}

#[test]
fn reading_fails_when_the_peer_closes_or_time_is_up() {
    let mut read = ReadAll::new(5, true, 100);
    assert!(matches!(read.received(Ok(vec![])), AnswerStep::Failed(Error::ConnectionClosed)));
    assert!(matches!(read.poll(5_000_000_100), TransferStep::Proceed));
    assert!(matches!(read.poll(5_000_000_101), TransferStep::Failed(Error::Timeout)));
    let patient = ReadAll::new(5, false, 0);
    assert!(matches!(patient.poll(300_000_000_000), TransferStep::Proceed));
    assert!(matches!(patient.poll(300_000_000_001), TransferStep::Failed(Error::Timeout)));
}

#[test]
fn writing_goes_on_where_the_socket_stopped() {
    let mut write = WriteAll::new(vec![1, 2, 3], false, 0);
    assert!(matches!(write.sent(Ok(2)), AnswerStep::Continue));
    assert_eq!(write.rest(), &[3]);
    assert!(matches!(write.sent(Err(Error::ConnectionClosed)), AnswerStep::Failed(Error::ConnectionClosed)));
    assert!(matches!(write.poll(0), TransferStep::Proceed));
    assert!(matches!(write.sent(Ok(1)), AnswerStep::Continue));
    assert!(matches!(write.poll(0), TransferStep::Complete));
}

/// The bytes that a message puts on the wire.
fn wire_of(mut write: MessageWrite) -> Vec<u8> {
    let mut wire = Vec::new();
    loop {
        match write.poll(0) {
            TransferStep::Complete => return wire,
            TransferStep::Proceed => {
                let n = write.rest().len().min(3);
                wire.extend_from_slice(&write.rest()[..n]);
                assert!(matches!(write.sent(Ok(n)), AnswerStep::Continue));
            }
            TransferStep::Failed(e) => panic!("{}", e.to_string()),
        }
    }
}

fn message_from(wire: &[u8], order: ByteOrder) -> Result<Vec<u8>, Error> {
    let mut read = MessageRead::new(order, true, 0);
    let mut taken = 0;
    loop {
        match read.poll(0) {
            TransferStep::Complete => return Ok(read.into_bytes()),
            TransferStep::Proceed => {
                let n = read.remaining();
                assert!(matches!(read.received(Ok(wire[taken..taken + n].to_vec())), AnswerStep::Continue));
                taken += n;
            }
            TransferStep::Failed(e) => return Err(e),
        }
    }
}

#[test]
fn messages_survive_in_both_byte_orders() {
    for order in [ByteOrder::Little, ByteOrder::Big] {
        let wire = wire_of(MessageWrite::new(b"message".to_vec(), order, true, 0).unwrap());
        assert_eq!(wire.len(), 15);
        assert_eq!(message_from(&wire, order).unwrap(), b"message");
    }
    let little = wire_of(MessageWrite::new(vec![9; 258], ByteOrder::Little, false, 0).unwrap());
    assert_eq!(&little[..8], &[2, 1, 0, 0, 0, 0, 0, 0]);
}

#[test]
fn empty_messages_are_only_a_length() {
    let wire = wire_of(MessageWrite::new(vec![], ByteOrder::Big, false, 0).unwrap());
    assert_eq!(wire, vec![0; 8]);
    assert!(message_from(&wire, ByteOrder::Big).unwrap().is_empty());
    assert!(read_packet(&[]).unwrap().is_none());
}

#[test]
fn lengths_are_bounded() {
    let error = message_from(&[255; 8], ByteOrder::Big).err().unwrap();
    assert!(matches!(error, Error::InvalidMessageSize(-1)));
    let error = message_from(&[0, 0, 0, 0, 8, 0, 0, 1], ByteOrder::Big).err().unwrap();
    assert_eq!(error.to_string(), "Invalid message size: 134217729");
    let error = MessageWrite::new(vec![0; 134217729], ByteOrder::Big, false, 0).err().unwrap();
    assert!(matches!(error, Error::InvalidMessageSize(134217729)));
}

#[test]
fn packets_survive_as_messages() {
    let packet = Packet::new(7, b"data".to_vec());
    let wire = wire_of(MessageWrite::for_packet(&packet, ByteOrder::Little, 0).unwrap());
    let message = message_from(&wire, ByteOrder::Little).unwrap();
    let back = read_packet(&message).unwrap().unwrap();
    assert_eq!(back.header(), 7);
    assert_eq!(back.payload(), b"data");
    assert!(read_packet(&[1]).is_err());
}

#[test]
fn base64_survives() {
    let written = write_b64(b"light w", 0);
    assert_eq!(written.rest(), b"bGlnaHQgdw==");
    assert_eq!(decode_b64(written.rest()).unwrap(), b"light w");
    assert_eq!(decode_b64(b"\n bGlnaHQgdw== \t").unwrap(), b"light w");
}

#[test]
fn bad_base64_is_reported() {
    let error = decode_b64(b"***").err().unwrap();
    assert!(error.to_string().starts_with("Protocol error: Base64 decode error: "));
    let error = b64_result(Err("why".to_string())).err().unwrap();
    assert_eq!(error.to_string(), "Protocol error: Base64 decode error: why");
    assert!(decode_b64(&[0xff, 0xff]).is_err());
}

#[test]
fn base64_lengths() {
    assert_eq!(read_b64(0, 0).remaining(), 0);
    assert_eq!(read_b64(1, 0).remaining(), 4);
    assert_eq!(read_b64(3, 0).remaining(), 4);
    assert_eq!(read_b64(32, 0).remaining(), 44);
}

#[test]
fn base64_of_every_length_is_read_back() {
    for count in 0..10 {
        let bytes: Vec<u8> = (0..count as u8).map(|i| 250 - i).collect();
        let written = write_b64(&bytes, 0);
        let mut read = read_b64(count, 0);
        assert_eq!(read.remaining(), written.rest().len());
        for piece in written.rest().chunks(3) {
            assert!(matches!(read.received(Ok(piece.to_vec())), AnswerStep::Continue));
        }
        assert!(matches!(read.poll(0), TransferStep::Complete));
        assert_eq!(decode_b64(&read.into_bytes()).unwrap(), bytes);
    }
}

#[test]
fn raw_descriptors_wait_and_go_on() {
    assert!(matches!(RawSocketUtils::begin(0), RawStep::Complete));
    assert!(matches!(RawSocketUtils::begin(4), RawStep::Proceed { transferred: 0 }));
    assert!(matches!(RawSocketUtils::write_all(0, 4, Ok(3)), RawStep::Proceed { transferred: 3 }));
    assert!(matches!(RawSocketUtils::write_all(3, 4, Ok(1)), RawStep::Complete));
    let interrupted = IoError { kind: IoKind::Interrupted, message: String::new() };
    assert!(matches!(RawSocketUtils::write_all(3, 4, Err(interrupted)), RawStep::Wait { micros: 1000 }));
    assert!(matches!(RawSocketUtils::read_all(0, 4, Ok(0)), RawStep::Failed(Error::ConnectionClosed)));
    assert!(matches!(RawSocketUtils::read_all(1, 4, Ok(2)), RawStep::Proceed { transferred: 3 }));
    let broken = IoError { kind: IoKind::BrokenPipe, message: "pipe".to_string() };
    match RawSocketUtils::read_all(1, 4, Err(broken)) {
        RawStep::Failed(e) => assert_eq!(e.to_string(), "I/O error: pipe"),
        other => panic!("unexpected {:?}", other),
    }
}
