use et::connection::{is_skippable_error, Connection, ConnectionRead, ConnectionWrite, PacketWrite, RecoveryEvent, RecoveryStep};
use et::crypto::CryptoHandler;
use et::error::{Errno, Error, IoError, IoKind, SystemError};
use et::packet::Packet;

const KEY: &str = "12345678901234567890123456789012";

fn io(kind: IoKind) -> Error {
    Error::Io(IoError { kind, message: "text".to_string() })
}

fn connected(fd: i32, nonce_msb: u8) -> Connection {
    let mut connection = Connection::new("id", KEY);
    connection.initialize(fd, nonce_msb).unwrap();
    connection
}

fn sent_bytes(connection: &mut Connection, packet: &Packet) -> Vec<u8> {
    let mut step = connection.write(packet);
    let mut bytes = Vec::new();
    loop {
        match step {
            ConnectionWrite::Finished { written, close } => {
                assert!(written);
                assert_eq!(close, None);
                return bytes;
            }
            ConnectionWrite::Send { pending, .. } => {
                let n = pending.rest().len();
                bytes.extend_from_slice(pending.rest());
                step = connection.sent(pending, Ok(n));
            }
            ConnectionWrite::Wait { pending, .. } => step = connection.resume(pending),
        }
    }
}

fn read_from(connection: &mut Connection, wire: &[u8]) -> Option<Packet> {
    read_some(connection, wire, &mut 0)
}

fn read_some(connection: &mut Connection, wire: &[u8], taken: &mut usize) -> Option<Packet> {
    let mut step = connection.read();
    loop {
        match step {
            ConnectionRead::Finished { result, .. } => return result.unwrap(),
            ConnectionRead::Receive { count, .. } => {
                let n = count.min(wire.len() - *taken);
                let outcome = if n == 0 {
                    Err(io(IoKind::WouldBlock))
                } else {
                    Ok(wire[*taken..*taken + n].to_vec())
                };
                *taken += n;
                step = connection.received(outcome);
            }
        }
    }
}

#[test]
fn test_connection_new() {
    let conn = Connection::new("test-id", "12345678901234567890123456789012");

    assert_eq!(conn.id(), "test-id");
    assert!(conn.is_disconnected());
    assert!(!conn.is_shutting_down());
}

#[test]
fn connection_test_connection_shutdown() {
    let mut conn = Connection::new("test-id", "12345678901234567890123456789012");

    assert!(!conn.is_shutting_down());
    conn.shutdown();
    assert!(conn.is_shutting_down());
}

#[test]
fn test_connection_creation() {
    let conn = Connection::new("test-id", "12345678901234567890123456789012");

    assert_eq!(conn.id(), "test-id");
    assert!(conn.is_disconnected());
    assert!(!conn.is_shutting_down());
}

#[test]
fn lib_test_connection_shutdown() {
    let mut conn = Connection::new("test-id", "12345678901234567890123456789012");

    conn.shutdown();
    assert!(conn.is_shutting_down());
}

#[test]
fn initializing_needs_a_key_of_the_right_length() {
    let mut conn = Connection::new("id", "short");
    match conn.initialize(3, 0) {
        Err(Error::InvalidKeyLength { expected: 32, got: 5 }) => {}
        other => panic!("unexpected {:?}", other),
    }
    assert!(conn.initialize_with_sodium(false, true, 3, 0).is_err());
}

#[test]
fn both_ends_understand_each_other() {
    let mut client = connected(3, 1);
    let mut server = connected(4, 0);
    let wire = sent_bytes(&mut client, &Packet::new(1, b"up".to_vec()));
    assert_eq!(read_from(&mut server, &wire).unwrap().payload(), b"up");
    let wire = sent_bytes(&mut server, &Packet::new(2, b"down".to_vec()));
    assert_eq!(read_from(&mut client, &wire).unwrap().payload(), b"down");
}

#[test]
fn skippable_errors_are_those_of_a_lost_peer() {
    assert!(is_skippable_error(&io(IoKind::ConnectionReset)));
    assert!(is_skippable_error(&Error::ConnectionClosed));
    assert!(!is_skippable_error(&io(IoKind::Other)));
    assert!(!is_skippable_error(&Error::DecryptionFailed));
    assert!(is_skippable_error(&Error::Nix(SystemError { errno: Errno::Pipe, message: String::new() })));
    assert!(!is_skippable_error(&Error::Nix(SystemError { errno: Errno::Other, message: String::new() })));
}

#[test]
fn a_lost_peer_closes_the_socket() {
    let mut client = connected(3, 1);
    assert!(matches!(client.read(), ConnectionRead::Receive { fd: 3, count: 4 }));
    match client.received(Err(io(IoKind::ConnectionReset))) {
        ConnectionRead::Finished { result: Ok(None), close: Some(3) } => {}
        other => panic!("unexpected {:?}", other),
    }
    assert!(client.is_disconnected());
}

#[test]
fn a_write_without_a_socket_is_tried_again_later() {
    let mut client = connected(3, 1);
    assert_eq!(client.close_socket(), Some(3));
    assert_eq!(client.close_socket(), None);
    match client.write_packet(&Packet::new(1, vec![])) {
        PacketWrite::Retry { .. } => {}
        other => panic!("unexpected {:?}", other),
    }
    client.shutdown();
    assert!(matches!(client.write_packet(&Packet::new(1, vec![])), PacketWrite::Done { close: None }));
}

#[test]
fn an_encrypted_packet_is_not_written() {
    let mut client = connected(3, 1);
    let mut crypto = CryptoHandler::new(KEY.as_bytes(), 0).unwrap();
    let mut packet = Packet::new(1, b"x".to_vec());
    packet.encrypt(&mut crypto).unwrap();
    match client.write(&packet) {
        ConnectionWrite::Finished { written: false, close: None } => {}
        other => panic!("unexpected {:?}", other),
    }
    assert_eq!(client.socket_fd(), 3);
    assert!(matches!(client.write_packet(&packet), PacketWrite::Retry { .. }));
    assert_eq!(client.writer().unwrap().sequence_number(), 0);
}

#[test]
fn a_message_that_announces_a_negative_length_is_an_error() {
    let mut client = connected(3, 1);
    let _ = client.read();
    match client.received(Ok(vec![0xff, 0xff, 0xff, 0xfe])) {
        ConnectionRead::Finished { result: Err(Error::InvalidMessageSize(-2)), .. } => {}
        other => panic!("unexpected {:?}", other),
    }
}

/// Carries out a recovery between two ends.
fn recover_both(a: &mut Connection, b: &mut Connection, fd_a: i32, fd_b: i32) {
    let (mut ours, count_a) = a.recover(fd_a).unwrap();
    let (mut theirs, count_b) = b.recover(fd_b).unwrap();
    let _ = ours.step(a, RecoveryEvent::Sent(Ok(())));
    let _ = theirs.step(b, RecoveryEvent::Sent(Ok(())));
    let to_b = match ours.step(a, RecoveryEvent::SequenceHeader(Ok(count_b))) {
        RecoveryStep::SendCatchup(packets) => packets,
        other => panic!("unexpected {:?}", other),
    };
    let to_a = match theirs.step(b, RecoveryEvent::SequenceHeader(Ok(count_a))) {
        RecoveryStep::SendCatchup(packets) => packets,
        other => panic!("unexpected {:?}", other),
    };
    let _ = ours.step(a, RecoveryEvent::Sent(Ok(())));
    let _ = theirs.step(b, RecoveryEvent::Sent(Ok(())));
    let end = ours.step(a, RecoveryEvent::CatchupBuffer(Ok(to_a)));
    assert!(matches!(end, RecoveryStep::Finished(Ok(true))));
    let end = theirs.step(b, RecoveryEvent::CatchupBuffer(Ok(to_b)));
    assert!(matches!(end, RecoveryStep::Finished(Ok(true))));
}

#[test]
fn a_history_of_losses_and_recoveries_keeps_every_packet() {
    let mut client = connected(3, 1);
    let mut server = connected(4, 0);
    let mut read = Vec::new();
    let mut written = 0u8;
    for round in 0..5 {
        // One packet arrives, one arrives in part, one not at all
        let mut wire = sent_bytes(&mut client, &Packet::new(1, vec![written]));
        wire.extend_from_slice(&sent_bytes(&mut client, &Packet::new(1, vec![written + 1]))[..9]);
        let _ = sent_bytes(&mut client, &Packet::new(1, vec![written + 2]));
        written += 3;
        let mut taken = 0;
        while let Some(packet) = read_some(&mut server, &wire, &mut taken) {
            read.push(packet.payload()[0]);
        }
        assert_eq!(taken, wire.len());
        client.close_socket();
        server.close_socket();
        recover_both(&mut client, &mut server, 10 + round, 20 + round);
        // What was sent again is read even where the new socket is lost, too
        if round % 2 == 1 {
            client.close_socket();
            server.close_socket();
        }
        while server.has_data(false) {
            read.push(read_from(&mut server, &[]).unwrap().payload()[0]);
        }
        assert_eq!(read, (0..written).collect::<Vec<u8>>());
        if round % 2 == 1 {
            recover_both(&mut client, &mut server, 30 + round, 40 + round);
        }
    }
}

#[test]
fn a_recovery_that_only_one_end_sees_through_loses_nothing() {
    let mut client = connected(3, 1);
    let mut server = connected(4, 0);
    let _ = sent_bytes(&mut client, &Packet::new(1, vec![7]));
    let _ = sent_bytes(&mut server, &Packet::new(1, vec![8]));
    client.close_socket();
    server.close_socket();
    let (mut ours, count) = client.recover(5).unwrap();
    let (mut theirs, lacking) = server.recover(6).unwrap();
    let _ = ours.step(&mut client, RecoveryEvent::Sent(Ok(())));
    let _ = theirs.step(&mut server, RecoveryEvent::Sent(Ok(())));
    let _ = ours.step(&mut client, RecoveryEvent::SequenceHeader(Ok(lacking)));
    let to_client = match theirs.step(&mut server, RecoveryEvent::SequenceHeader(Ok(count))) {
        RecoveryStep::SendCatchup(packets) => packets,
        other => panic!("unexpected {:?}", other),
    };
    let _ = ours.step(&mut client, RecoveryEvent::Sent(Ok(())));
    let _ = theirs.step(&mut server, RecoveryEvent::Sent(Ok(())));
    let _ = ours.step(&mut client, RecoveryEvent::CatchupBuffer(Ok(to_client)));
    let end = theirs.step(&mut server, RecoveryEvent::CatchupBuffer(Err(io(IoKind::BrokenPipe))));
    assert!(matches!(end, RecoveryStep::Finished(Err(_))));
    assert_eq!((client.socket_fd(), server.socket_fd()), (5, -1));
    // The client writes on until it sees that its socket leads nowhere
    let _ = sent_bytes(&mut client, &Packet::new(1, vec![9]));
    client.close_socket();
    recover_both(&mut client, &mut server, 15, 16);
    assert_eq!(read_from(&mut client, &[]).unwrap().payload(), [8]);
    assert!(!client.has_data(false));
    assert_eq!(read_from(&mut server, &[]).unwrap().payload(), [7]);
    assert_eq!(read_from(&mut server, &[]).unwrap().payload(), [9]);
    assert!(!server.has_data(false));
}

#[test]
fn a_recovery_gives_each_end_what_it_lacks() {
    let mut client = connected(3, 1);
    let mut server = connected(4, 0);
    let wire = sent_bytes(&mut client, &Packet::new(1, b"arrives".to_vec()));
    let _ = sent_bytes(&mut client, &Packet::new(1, b"is lost".to_vec()));
    assert_eq!(read_from(&mut server, &wire).unwrap().payload(), b"arrives");
    client.close_socket();
    server.close_socket();

    let (mut ours, client_count) = client.recover(5).unwrap();
    let (mut theirs, server_count) = server.recover(6).unwrap();
    assert_eq!((client_count, server_count), (0, 1));
    assert!(matches!(ours.step(&mut client, RecoveryEvent::Sent(Ok(()))), RecoveryStep::AwaitSequenceHeader));
    assert!(matches!(theirs.step(&mut server, RecoveryEvent::Sent(Ok(()))), RecoveryStep::AwaitSequenceHeader));
    let to_server = match ours.step(&mut client, RecoveryEvent::SequenceHeader(Ok(server_count))) {
        RecoveryStep::SendCatchup(packets) => packets,
        other => panic!("unexpected {:?}", other),
    };
    let to_client = match theirs.step(&mut server, RecoveryEvent::SequenceHeader(Ok(client_count))) {
        RecoveryStep::SendCatchup(packets) => packets,
        other => panic!("unexpected {:?}", other),
    };
    assert_eq!(to_server.len(), 1);
    assert!(to_client.is_empty());
    assert!(matches!(ours.step(&mut client, RecoveryEvent::Sent(Ok(()))), RecoveryStep::AwaitCatchup));
    assert!(matches!(theirs.step(&mut server, RecoveryEvent::Sent(Ok(()))), RecoveryStep::AwaitCatchup));
    assert!(matches!(ours.step(&mut client, RecoveryEvent::CatchupBuffer(Ok(to_client))), RecoveryStep::Finished(Ok(true))));
    assert!(matches!(theirs.step(&mut server, RecoveryEvent::CatchupBuffer(Ok(to_server))), RecoveryStep::Finished(Ok(true))));
    assert_eq!(client.socket_fd(), 5);
    assert_eq!(server.socket_fd(), 6);
    assert!(server.has_data(false));
    assert_eq!(read_from(&mut server, &[]).unwrap().payload(), b"is lost");
}

#[test]
fn reader_and_writer_are_on_the_socket_of_the_connection() {
    let mut client = connected(3, 1);
    let fds = |c: &Connection| (c.socket_fd(), c.reader().unwrap().socket_fd(), c.writer().unwrap().socket_fd());
    assert_eq!(fds(&client), (3, 3, 3));
    assert_eq!(client.close_socket(), Some(3));
    assert_eq!(fds(&client), (-1, -1, -1));
    let (mut recovery, _) = client.recover(7).unwrap();
    recovery.step(&mut client, RecoveryEvent::Sent(Ok(())));
    recovery.step(&mut client, RecoveryEvent::SequenceHeader(Ok(0)));
    recovery.step(&mut client, RecoveryEvent::Sent(Ok(())));
    recovery.step(&mut client, RecoveryEvent::CatchupBuffer(Ok(vec![])));
    assert_eq!(fds(&client), (7, 7, 7));
}

#[test]
fn a_connection_that_was_shut_down_is_idle() {
    let mut client = connected(3, 1);
    assert_eq!(client.shutdown(), Some(3));
    assert_eq!(client.shutdown(), None);
    assert!(client.is_disconnected());
    assert!(matches!(client.read_packet(), ConnectionRead::Finished { result: Ok(None), close: None }));
    assert!(matches!(client.write_packet(&Packet::new(1, vec![1])), PacketWrite::Done { close: None }));
    assert_eq!(client.writer().unwrap().sequence_number(), 0);
}
