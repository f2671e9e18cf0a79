use et::client_connection::{ClientConnection, LinkEvent, LinkStep};
use et::connection::{ConnectionRead, PacketWrite};
use et::crypto::CryptoHandler;
use et::error::Error;
use et::packet::Packet;
use et::proto::{ConnectStatus, ReceivedStatus};
use et::socket::SocketEndpoint;

const KEY: &str = "12345678901234567890123456789012";

fn client() -> ClientConnection {
    ClientConnection::new(SocketEndpoint::new("host", 2022), "me", KEY)
}

fn status(number: i32, status: Option<ConnectStatus>) -> LinkEvent {
    LinkEvent::Response(Ok(ReceivedStatus { number, status }))
}

/// A client whose first connection is up on socket 5.
fn connected() -> ClientConnection {
    let mut client = client();
    let (mut link, step) = client.connect();
    assert!(matches!(step, LinkStep::Open));
    match link.step(&mut client, LinkEvent::Opened(Ok(5))) {
        LinkStep::SendRequest { fd: 5, request } => {
            assert_eq!(request.client_id, "me");
            assert_eq!(request.version, 6);
        }
        other => panic!("unexpected {:?}", other),
    }
    assert!(matches!(link.step(&mut client, LinkEvent::Sent(Ok(()))), LinkStep::AwaitResponse { fd: 5 }));
    let answer = status(1, Some(ConnectStatus::NewClient));
    assert!(matches!(link.step(&mut client, answer), LinkStep::Finished(Ok(true))));
    assert_eq!(client.socket_fd(), 5);
    client
}

#[test]
fn a_first_connection_comes_up() {
    let client = connected();
    assert_eq!(client.id(), "me");
    assert_eq!(client.endpoint().to_string(), "host:2022");
    assert!(client.has_data(true));
    assert!(!client.has_data(false));
}

#[test]
fn a_first_connection_fails_with_its_error() {
    let mut client = client();
    let (mut link, _) = client.connect();
    assert!(matches!(link.step(&mut client, LinkEvent::Opened(Ok(-1))), LinkStep::Finished(Ok(false))));
    let (mut link, _) = client.connect();
    assert!(matches!(link.step(&mut client, LinkEvent::Opened(Err(Error::Timeout))), LinkStep::Finished(Err(Error::Timeout))));
    for (number, known, text) in [
        (3, Some(ConnectStatus::InvalidKey), "Connection error: Invalid key"),
        (4, Some(ConnectStatus::MismatchedProtocol), "Connection error: Protocol version mismatch"),
        (0, Some(ConnectStatus::Unspecified), "Connection error: Unknown connection status: 0"),
        (-9, None, "Connection error: Unknown connection status: -9"),
    ] {
        let (mut link, _) = client.connect();
        let _ = link.step(&mut client, LinkEvent::Opened(Ok(5)));
        let _ = link.step(&mut client, LinkEvent::Sent(Ok(())));
        match link.step(&mut client, status(number, known)) {
            LinkStep::Finished(Err(e)) => assert_eq!(e.to_string(), text),
            other => panic!("unexpected {:?}", other),
        }
    }
}

#[test]
fn a_library_that_is_not_ready_fails_a_first_connection() {
    let mut client = client();
    let (mut link, _) = client.connect();
    let _ = link.step(&mut client, LinkEvent::Opened(Ok(5)));
    let _ = link.step(&mut client, LinkEvent::Sent(Ok(())));
    let answer = status(1, Some(ConnectStatus::NewClient));
    match link.step_with_sodium(&mut client, answer, true, false) {
        LinkStep::Finished(Err(Error::Crypto(_))) => {}
        other => panic!("unexpected {:?}", other),
    }
    assert_eq!(client.socket_fd(), -1);
}

#[test]
fn a_returning_client_needs_something_to_return_to() {
    let mut client = client();
    let (mut link, _) = client.connect();
    let _ = link.step(&mut client, LinkEvent::Opened(Ok(5)));
    let _ = link.step(&mut client, LinkEvent::Sent(Ok(())));
    match link.step(&mut client, status(2, Some(ConnectStatus::ReturningClient))) {
        LinkStep::Finished(Err(e)) => {
            assert_eq!(e.to_string(), "Recovery error: Reader not initialized");
        }
        other => panic!("unexpected {:?}", other),
    }
}

#[test]
fn reconnecting_goes_on_until_it_succeeds() {
    let mut client = connected();
    let (close, (mut link, step)) = client.close_socket_and_maybe_reconnect();
    assert_eq!(close, Some(5));
    assert!(matches!(step, LinkStep::Open));
    // A second one gives up at once
    assert!(matches!(client.reconnect().1, LinkStep::Finished(Ok(false))));
    assert!(matches!(link.step(&mut client, LinkEvent::Opened(Err(Error::Timeout))), LinkStep::Sleep { millis: 1000 }));
    assert!(matches!(link.step(&mut client, LinkEvent::Slept), LinkStep::Open));
    assert!(matches!(link.step(&mut client, LinkEvent::Opened(Ok(6))), LinkStep::SendRequest { fd: 6, .. }));
    assert!(matches!(link.step(&mut client, LinkEvent::Sent(Err(Error::Timeout))), LinkStep::Sleep { millis: 1000 }));
    let _ = link.step(&mut client, LinkEvent::Slept);
    let _ = link.step(&mut client, LinkEvent::Opened(Ok(7)));
    let _ = link.step(&mut client, LinkEvent::Sent(Ok(())));
    assert!(matches!(link.step(&mut client, status(1, Some(ConnectStatus::NewClient))), LinkStep::Sleep { .. }));
    assert!(client.socket_fd() == -1);
    let _ = link.step(&mut client, LinkEvent::Slept);
    let _ = link.step(&mut client, LinkEvent::Opened(Ok(8)));
    let _ = link.step(&mut client, LinkEvent::Sent(Ok(())));
    let returning = status(2, Some(ConnectStatus::ReturningClient));
    assert!(matches!(link.step(&mut client, returning), LinkStep::SendSequenceHeader { fd: 8, sequence_number: 0 }));
    assert!(matches!(link.step(&mut client, LinkEvent::Sent(Ok(()))), LinkStep::AwaitSequenceHeader { fd: 8 }));
    assert!(matches!(link.step(&mut client, LinkEvent::SequenceHeader(Ok(0))), LinkStep::SendCatchup { fd: 8, .. }));
    assert!(matches!(link.step(&mut client, LinkEvent::Sent(Ok(()))), LinkStep::AwaitCatchup { fd: 8 }));
    assert!(matches!(link.step(&mut client, LinkEvent::CatchupBuffer(Ok(vec![]))), LinkStep::Finished(Ok(true))));
    assert_eq!(client.socket_fd(), 8);
    // It is no longer under way
    assert!(matches!(client.reconnect().1, LinkStep::Open));
}

#[test]
fn a_lost_socket_is_sought_again_once() {
    let mut fresh = client();
    assert!(fresh.keep_connected().is_none());
    let mut client = connected();
    assert!(client.keep_connected().is_none());
    let _ = client.read();
    match client.received(Err(Error::ConnectionClosed)) {
        ConnectionRead::Finished { result: Ok(None), close: Some(5) } => {}
        other => panic!("unexpected {:?}", other),
    }
    assert!(matches!(client.keep_connected(), Some((_, LinkStep::Open))));
    assert!(client.keep_connected().is_none());
    let (close, (_, step)) = client.close_socket_and_maybe_reconnect();
    assert_eq!(close, None);
    assert!(matches!(step, LinkStep::Finished(Ok(false))));
}

#[test]
fn a_client_that_shuts_down_seeks_no_socket() {
    let mut client = connected();
    client.shutdown();
    assert!(client.keep_connected().is_none());
    let (close, (_, step)) = client.close_socket_and_maybe_reconnect();
    assert_eq!(close, None);
    assert!(matches!(step, LinkStep::Finished(Ok(false))));
}

#[test]
fn each_direction_has_its_own_nonces() {
    let mut client = connected();
    let plain = Packet::new(1, b"hi".to_vec());
    let wire = match client.write_packet(&plain) {
        PacketWrite::Send { pending, .. } => pending.rest().to_vec(),
        other => panic!("unexpected {:?}", other),
    };
    // What goes to the server has a top byte of 0, what comes from it a top byte of 1
    let mut sealed = Packet::from_bytes(&wire[4..]).unwrap();
    sealed.decrypt(&mut CryptoHandler::new(KEY.as_bytes(), 0).unwrap()).unwrap();
    assert_eq!(sealed.payload(), b"hi");
    let mut answer = Packet::new(2, b"yo".to_vec());
    answer.encrypt(&mut CryptoHandler::new(KEY.as_bytes(), 1).unwrap()).unwrap();
    let message = answer.serialize();
    let _ = client.read();
    let step = client.received(Ok((message.len() as u32).to_be_bytes().to_vec()));
    assert!(matches!(step, ConnectionRead::Receive { fd: 5, .. }));
    match client.received(Ok(message)) {
        ConnectionRead::Finished { result: Ok(Some(packet)), close: None } => {
            assert_eq!(packet.payload(), b"yo");
        }
        other => panic!("unexpected {:?}", other),
    }
}

#[test]
fn shutting_down_ends_a_reconnection() {
    let mut client = connected();
    let (mut link, _) = client.reconnect();
    let _ = link.step(&mut client, LinkEvent::Opened(Ok(-3)));
    assert_eq!(client.shutdown(), Some(5));
    assert!(client.is_shutting_down());
    assert!(matches!(link.step(&mut client, LinkEvent::Slept), LinkStep::Finished(Ok(false))));
    assert!(matches!(client.reconnect().1, LinkStep::Finished(Ok(false))));
}

#[test]
fn packets_go_through_the_connection() {
    let mut client = connected();
    match client.write_packet(&Packet::new(1, b"hi".to_vec())) {
        PacketWrite::Send { fd: 5, pending } => {
            let n = pending.rest().len();
            assert!(matches!(client.packet_sent(pending, Ok(n)), PacketWrite::Done { close: None }));
        }
        other => panic!("unexpected {:?}", other),
    }
    assert!(matches!(client.read(), ConnectionRead::Receive { fd: 5, count: 4 }));
    assert!(matches!(client.received(Ok(vec![0, 0])), ConnectionRead::Finished { result: Ok(None), close: None }));
    assert!(matches!(client.read(), ConnectionRead::Receive { fd: 5, count: 2 }));
    client.shutdown();
    assert!(matches!(client.read_packet(), ConnectionRead::Finished { result: Ok(None), close: None }));
}
