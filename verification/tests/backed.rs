use et::backed_reader::{BackedReader, ReadStep};
use et::backed_writer::{BackedWriter, PendingWrite, WriteState, WriteStep};
use et::crypto::CryptoHandler;
use et::error::{Error, IoError, IoKind};
use et::packet::Packet;

fn reader(fd: i32) -> BackedReader {
    BackedReader::new(CryptoHandler::new(&[4u8; 32], 0).unwrap(), fd)
}

fn writer(fd: i32) -> BackedWriter {
    BackedWriter::new(CryptoHandler::new(&[4u8; 32], 0).unwrap(), fd)
}

/// Takes everything that a writer sends, so many bytes at a time.
fn drain(writer: &mut BackedWriter, packet: Packet, at_a_time: usize) -> (WriteState, Vec<u8>) {
    let mut written = Vec::new();
    let mut step = writer.write(packet);
    loop {
        match step {
            WriteStep::Finished(state) => return (state, written),
            WriteStep::Send { pending, .. } => {
                let taken = at_a_time.min(pending.rest().len());
                written.extend_from_slice(&pending.rest()[..taken]);
                step = pending.sent(Ok(taken));
            }
            WriteStep::Wait { pending, .. } => step = writer.resume(pending),
        }
    }
}

/// Lets a reader read once from `wire`, and returns what is left of it.
fn feed(reader: &mut BackedReader, wire: &[u8]) -> (Result<Option<Packet>, Error>, usize) {
    let mut taken = 0;
    let mut step = reader.read();
    loop {
        match step {
            ReadStep::Finished(result) => return (result, taken),
            ReadStep::Receive { count, .. } => {
                let n = count.min(wire.len() - taken);
                let outcome = if n == 0 {
                    Err(Error::Io(IoError { kind: IoKind::WouldBlock, message: "wait".to_string() }))
                } else {
                    Ok(wire[taken..taken + n].to_vec())
                };
                taken += n;
                step = reader.received(outcome);
            }
        }
    }
}

fn pending_of(step: WriteStep) -> PendingWrite {
    match step {
        WriteStep::Send { pending, .. } => pending,
        _ => panic!("expected bytes to send"),
    }
}

#[test]
fn test_backed_reader_sequence_number() {
    let key = CryptoHandler::generate_key();
    let crypto = CryptoHandler::new(&key, 0).unwrap();
    let reader = BackedReader::new(crypto, 1);

    assert_eq!(reader.sequence_number(), 0);
}

#[test]
fn test_backed_reader_invalidate() {
    let key = CryptoHandler::generate_key();
    let crypto = CryptoHandler::new(&key, 0).unwrap();
    let mut reader = BackedReader::new(crypto, 1);

    assert_eq!(reader.socket_fd(), 1);
    reader.invalidate_socket();
    assert_eq!(reader.socket_fd(), -1);
}

#[test]
fn test_backed_writer_sequence_number() {
    let key = CryptoHandler::generate_key();
    let crypto = CryptoHandler::new(&key, 0).unwrap();
    let writer = BackedWriter::new(crypto, 1);

    assert_eq!(writer.sequence_number(), 0);
}

#[test]
fn test_backed_writer_write() {
    let key = CryptoHandler::generate_key();
    let crypto = CryptoHandler::new(&key, 0).unwrap();
    let mut writer = BackedWriter::new(crypto, 1);

    let packet = Packet::new(42, b"Hello".to_vec());
    let (state, written) = drain(&mut writer, packet, usize::MAX);

    assert_eq!(state, WriteState::Success);
    assert_eq!(writer.sequence_number(), 1);
    assert!(!written.is_empty());
}

#[test]
fn test_backed_writer_skipped() {
    let key = CryptoHandler::generate_key();
    let crypto = CryptoHandler::new(&key, 0).unwrap();
    let mut writer = BackedWriter::new(crypto, -1);

    let packet = Packet::new(42, b"Hello".to_vec());
    let (state, _) = drain(&mut writer, packet, usize::MAX);

    assert_eq!(state, WriteState::Skipped);
    assert_eq!(writer.sequence_number(), 0);
}

#[test]
fn test_backed_writer_invalidate() {
    let key = CryptoHandler::generate_key();
    let crypto = CryptoHandler::new(&key, 0).unwrap();
    let mut writer = BackedWriter::new(crypto, 1);

    assert_eq!(writer.socket_fd(), 1);
    writer.invalidate_socket();
    assert_eq!(writer.socket_fd(), -1);
}

#[test]
fn a_message_carries_its_length_in_network_order() {
    let mut writer = writer(1);
    let (_, written) = drain(&mut writer, Packet::new(42, b"Hello".to_vec()), 3);
    // 2 bytes of packet header, 5 of payload, 16 of tag
    assert_eq!(&written[..4], &[0, 0, 0, 23]);
    assert_eq!(written.len(), 27);
    assert_eq!(written[4], 1);
    assert_eq!(written[5], 42);
}

#[test]
fn a_written_packet_is_read_back() {
    let mut writer = writer(1);
    let mut reader = reader(2);
    for i in 0..20u8 {
        let (_, written) = drain(&mut writer, Packet::new(i, vec![i; i as usize]), 7);
        let (result, taken) = feed(&mut reader, &written);
        assert_eq!(taken, written.len());
        let packet = result.unwrap().unwrap();
        assert_eq!(packet.header(), i);
        assert_eq!(packet.payload(), vec![i; i as usize]);
    }
    assert_eq!(writer.sequence_number(), 20);
    assert_eq!(reader.sequence_number(), 20);
}

#[test]
fn a_packet_may_arrive_in_pieces() {
    let mut writer = writer(1);
    let mut reader = reader(2);
    let (_, written) = drain(&mut writer, Packet::new(9, b"pieces".to_vec()), 100);
    for cut in [0, 2, 4, 10] {
        let end = match cut {
            0 => 2,
            2 => 4,
            4 => 10,
            _ => written.len(),
        };
        let (result, taken) = feed(&mut reader, &written[cut..end]);
        assert_eq!(taken, end - cut);
        match result.unwrap() {
            Some(packet) => {
                assert_eq!(end, written.len());
                assert_eq!(packet.payload(), b"pieces");
            }
            None => assert!(end < written.len()),
        }
    }
    assert_eq!(reader.sequence_number(), 1);
}

#[test]
fn a_negative_length_is_refused() {
    let mut writer = writer(1);
    let mut reader = reader(2);
    assert!(matches!(reader.read(), ReadStep::Receive { fd: 2, count: 4 }));
    match reader.received(Ok(vec![0xff; 4])) {
        ReadStep::Finished(Err(Error::InvalidMessageSize(-1))) => {}
        other => panic!("unexpected {:?}", other),
    }
    let _ = reader.read();
    match reader.received(Ok(vec![0x80, 0, 0, 0])) {
        ReadStep::Finished(Err(Error::InvalidMessageSize(-2147483648))) => {}
        other => panic!("unexpected {:?}", other),
    }
    // The next message is read from its start
    let (_, written) = drain(&mut writer, Packet::new(3, b"next".to_vec()), 100);
    assert_eq!(feed(&mut reader, &written).0.unwrap().unwrap().payload(), b"next");
    let _ = reader.read();
    let step = reader.received(Ok(vec![0x7f, 0xff, 0xff, 0xff]));
    assert!(matches!(step, ReadStep::Receive { fd: 2, count: 0x7fff_ffff }));
}

#[test]
fn a_stream_is_read_back_however_it_is_cut() {
    for size in [1, 2, 3, 5, 8, 13, 21, 34, 1000] {
        let mut writer = writer(1);
        let mut reader = reader(2);
        let mut stream = Vec::new();
        for i in 0..6u8 {
            let (_, written) = drain(&mut writer, Packet::new(i, vec![i; 3 * i as usize]), 100);
            stream.extend(written);
        }
        let mut taken = 0;
        let mut packets = Vec::new();
        while taken < stream.len() {
            let end = (taken + size).min(stream.len());
            let (result, n) = feed(&mut reader, &stream[taken..end]);
            taken += n;
            packets.extend(result.unwrap());
        }
        assert_eq!(packets.len(), 6);
        for (i, packet) in packets.iter().enumerate() {
            assert_eq!(packet.header() as usize, i);
            assert_eq!(packet.payload(), vec![i as u8; 3 * i]);
        }
    }
}

#[test]
fn an_encrypted_packet_is_refused() {
    let mut writer = writer(1);
    let mut crypto = CryptoHandler::new(&[4u8; 32], 0).unwrap();
    let mut packet = Packet::new(7, b"x".to_vec());
    packet.encrypt(&mut crypto).unwrap();
    let (state, written) = drain(&mut writer, packet, 100);
    assert_eq!(state, WriteState::Refused);
    assert!(written.is_empty());
    assert_eq!(writer.sequence_number(), 0);
    assert_eq!(writer.socket_fd(), 1);
}

#[test]
fn a_closed_socket_ends_the_read() {
    let mut reader = reader(2);
    let _ = reader.read();
    match reader.received(Ok(vec![])) {
        ReadStep::Finished(Err(Error::ConnectionClosed)) => {}
        other => panic!("unexpected {:?}", other),
    }
}

#[test]
fn without_a_socket_nothing_is_read() {
    let mut reader = reader(-1);
    assert!(!reader.has_data(true));
    assert!(matches!(reader.read(), ReadStep::Finished(Ok(None))));
}

#[test]
fn a_partial_write_waits_and_a_broken_one_reports_it() {
    let mut writer = writer(1);
    let pending = pending_of(writer.write(Packet::new(1, b"x".to_vec())));
    let pending = match pending.sent(Ok(5)) {
        WriteStep::Wait { micros, pending } => {
            assert_eq!(micros, 1000);
            pending
        }
        other => panic!("unexpected {:?}", other),
    };
    let pending = pending_of(writer.resume(pending));
    assert_eq!(pending.rest().len(), 18);
    match pending.sent(Err(Error::ConnectionClosed)) {
        WriteStep::Finished(state) => assert_eq!(state, WriteState::WroteWithFailure),
        other => panic!("unexpected {:?}", other),
    }
    assert_eq!(writer.sequence_number(), 1);
}

#[test]
fn a_socket_that_goes_away_ends_a_write() {
    let mut writer = writer(1);
    let pending = pending_of(writer.write(Packet::new(1, b"x".to_vec())));
    writer.invalidate_socket();
    match writer.resume(pending) {
        WriteStep::Finished(state) => assert_eq!(state, WriteState::WroteWithFailure),
        other => panic!("unexpected {:?}", other),
    }
}

#[test]
fn the_backup_gives_what_a_peer_lacks() {
    let mut writer = writer(1);
    let mut sent = Vec::new();
    for i in 0..5u8 {
        let (_, written) = drain(&mut writer, Packet::new(i, vec![i]), 100);
        sent.push(written[4..].to_vec());
    }
    assert!(writer.recover(5).is_err());
    writer.invalidate_socket();
    assert_eq!(writer.recover(3).unwrap(), sent[3..].to_vec());
    assert!(writer.recover(5).unwrap().is_empty());
    let error = writer.recover(6).err().unwrap();
    assert_eq!(error.to_string(), "Recovery error: Client is ahead of server - something went wrong");
}

#[test]
fn a_revived_reader_hands_out_what_was_sent_again() {
    let mut writer = writer(1);
    let mut reader = reader(2);
    let (_, first) = drain(&mut writer, Packet::new(1, b"one".to_vec()), 100);
    let (_, _lost) = drain(&mut writer, Packet::new(2, b"two".to_vec()), 100);
    assert_eq!(feed(&mut reader, &first).0.unwrap().unwrap().payload(), b"one");
    writer.invalidate_socket();
    reader.invalidate_socket();
    let missing = writer.recover(reader.sequence_number()).unwrap();
    assert_eq!(missing.len(), 1);
    reader.revive(3, missing);
    assert_eq!(reader.sequence_number(), 2);
    assert!(reader.has_data(false));
    let (result, taken) = feed(&mut reader, &[]);
    assert_eq!(taken, 0);
    assert_eq!(result.unwrap().unwrap().payload(), b"two");
    assert_eq!(reader.sequence_number(), 2);
    assert!(!reader.has_data(false));
}

#[test]
fn what_was_sent_again_outlives_the_socket() {
    let mut writer = writer(1);
    let mut reader = reader(2);
    let _ = drain(&mut writer, Packet::new(42, b"kept".to_vec()), 100);
    writer.invalidate_socket();
    reader.invalidate_socket();
    reader.revive(5, writer.recover(0).unwrap());
    reader.invalidate_socket();
    assert!(reader.has_data(false));
    let (result, _) = feed(&mut reader, &[]);
    assert_eq!(result.unwrap().unwrap().payload(), b"kept");
    assert!(!reader.has_data(true));
    assert!(matches!(reader.read(), ReadStep::Finished(Ok(None))));
}

#[test]
fn the_backup_keeps_the_latest_packets_that_fit() {
    let mut writer = writer(1);
    for i in 0..3u8 {
        let _ = drain(&mut writer, Packet::new(i, vec![i; 25 * 1024 * 1024]), usize::MAX);
    }
    writer.invalidate_socket();
    assert_eq!(writer.recover(1).unwrap().len(), 2);
    assert!(matches!(writer.recover(0), Err(Error::ClientTooFarBehind)));
}
