use et::connection::{Connection, ConnectionRead, PacketWrite};
use et::crypto::CryptoHandler;
use et::error::{Error, IoError, IoKind};
use et::logging::{log_level, LogLevel};
use et::packet::Packet;
use et::proto::{ConnectRequest, ConnectStatus, Message};
use et::server_connection::{Accept, AcceptEvent, AcceptStep, ServerConnection};
use et::terminal_info::TerminalInfo;
use et::terminal_server::{ServerRound, TerminalServer};
use et::user_terminal_handler::{PolledData, SessionEvent, SessionStep, UserTerminalHandler};

const KEY: &str = "12345678901234567890123456789012";

fn request(id: &str, version: i32) -> AcceptEvent {
    AcceptEvent::Request(Ok(ConnectRequest { client_id: id.to_string(), version }))
}

fn status_of(step: AcceptStep) -> (ConnectStatus, String) {
    match step {
        AcceptStep::SendResponse(response) => (response.status, response.error),
        _ => panic!("expected a response"),
    }
}

/// Makes a client known to a server under a handle.
fn adopt(server: &mut ServerConnection<u32>, id: &str, handle: u32) -> Connection {
    let (mut accept, _) = ServerConnection::<u32>::accept_client(4);
    let _ = accept.step_with_key(server, request(id, 6), vec![9; 32], true, true);
    match accept.step_with_key(server, AcceptEvent::Sent(Ok(())), vec![], true, true) {
        AcceptStep::Adopt(connection) => {
            accept.adopted(server, handle);
            connection
        }
        _ => panic!("expected a connection"),
    }
}

fn finished(step: AcceptStep) -> Result<(), Error> {
    match step {
        AcceptStep::Finished(result) => result,
        _ => panic!("expected the end"),
    }
}

fn begin() -> Accept {
    let (accept, step) = ServerConnection::<u32>::accept_client(4);
    assert!(matches!(step, AcceptStep::ReadRequest));
    accept
}

#[test]
fn other_versions_are_refused() {
    let server: ServerConnection<u32> = ServerConnection::new();
    let mut accept = begin();
    let (status, error) = status_of(accept.step(&server, request("me", 5)));
    assert_eq!(status, ConnectStatus::MismatchedProtocol);
    assert_eq!(error, "Protocol version mismatch: client=5, server=6");
    let error = finished(accept.step(&server, AcceptEvent::Sent(Ok(())))).err().unwrap();
    assert_eq!(error.to_string(), "Protocol error: Protocol version mismatch");
}

#[test]
fn new_clients_become_known() {
    let mut server = ServerConnection::new();
    let connection = adopt(&mut server, "me", 17);
    assert_eq!(connection.id(), "me");
    assert_eq!(connection.socket_fd(), 4);
    assert_eq!(server.get_connection("me"), Some(&17));
    assert_eq!(server.get_connection("you"), None);
    let mut accept = begin();
    let (status, error) = status_of(accept.step(&server, request("me", 6)));
    assert_eq!(status, ConnectStatus::ReturningClient);
    assert_eq!(error, "");
    assert_eq!(accept.client_id(), "me");
    assert!(matches!(accept.step(&server, AcceptEvent::Sent(Ok(()))), AcceptStep::Recover));
    assert!(finished(accept.step(&server, AcceptEvent::Recovered(Ok(())))).is_ok());
}

#[test]
fn removed_clients_are_new_again() {
    let mut server = ServerConnection::new();
    let _ = adopt(&mut server, "me", 1);
    let _ = adopt(&mut server, "you", 2);
    server.remove_client("me");
    assert_eq!(server.get_connection("me"), None);
    assert_eq!(server.get_connection("you"), Some(&2));
    let (status, _) = status_of(begin().step(&server, request("me", 6)));
    assert_eq!(status, ConnectStatus::NewClient);
}

#[test]
fn failures_end_the_acceptance() {
    let server: ServerConnection<u32> = ServerConnection::new();
    assert!(finished(begin().step(&server, AcceptEvent::Request(Err(Error::Timeout)))).is_err());
    let mut accept = begin();
    let _ = accept.step(&server, request("me", 6));
    assert!(finished(accept.step(&server, AcceptEvent::Sent(Err(Error::Timeout)))).is_err());
}

#[test]
fn a_new_client_is_accepted_with_a_key_of_its_own() {
    let mut server: ServerConnection<u32> = ServerConnection::new();
    let mut accept = begin();
    let (status, error) = status_of(accept.step(&server, request("me", 6)));
    assert_eq!(status, ConnectStatus::NewClient);
    assert_eq!(error, "");
    match accept.step(&server, AcceptEvent::Sent(Ok(()))) {
        AcceptStep::Adopt(connection) => {
            assert_eq!(connection.id(), "me");
            assert_eq!(connection.socket_fd(), 4);
        }
        _ => panic!("expected a connection"),
    }
    accept.adopted(&mut server, 3);
    assert_eq!(server.get_connection("me"), Some(&3));
}

#[test]
fn a_key_of_another_length_is_no_key() {
    let server: ServerConnection<u32> = ServerConnection::new();
    let mut accept = begin();
    let _ = accept.step_with_key(&server, request("me", 6), vec![9; 44], true, true);
    match finished(accept.step_with_key(&server, AcceptEvent::Sent(Ok(())), vec![], true, true)) {
        Err(Error::InvalidKeyLength { expected: 32, got: 44 }) => {}
        other => panic!("unexpected {:?}", other),
    }
}

#[test]
fn a_server_understands_its_client() {
    let mut server = ServerConnection::new();
    let mut connection = adopt(&mut server, "me", 1);
    // What comes from the client has a top byte of 0
    let mut packet = Packet::new(1, b"hi".to_vec());
    packet.encrypt(&mut CryptoHandler::new(&[9; 32], 0).unwrap()).unwrap();
    let message = packet.serialize();
    let _ = connection.read();
    let _ = connection.received(Ok((message.len() as u32).to_be_bytes().to_vec()));
    match connection.received(Ok(message)) {
        ConnectionRead::Finished { result: Ok(Some(packet)), close: None } => {
            assert_eq!(packet.payload(), b"hi");
        }
        other => panic!("unexpected {:?}", other),
    }
    // What goes to it has a top byte of 1
    let wire = match connection.write_packet(&Packet::new(2, b"yo".to_vec())) {
        PacketWrite::Send { pending, .. } => pending.rest().to_vec(),
        other => panic!("unexpected {:?}", other),
    };
    let mut sealed = Packet::from_bytes(&wire[4..]).unwrap();
    sealed.decrypt(&mut CryptoHandler::new(&[9; 32], 1).unwrap()).unwrap();
    assert_eq!(sealed.payload(), b"yo");
}

#[test]
fn a_server_accepts_at_the_sockets_that_are_ready() {
    assert_eq!(TerminalServer::endpoint(80, None).to_string(), "*:80");
    assert_eq!(TerminalServer::endpoint(80, Some("host")).to_string(), "host:80");
    assert!(TerminalServer::new(80, Err(Error::Timeout)).is_err());
    let mut server = TerminalServer::new(80, Ok(vec![3, 4, 5])).unwrap();
    assert_eq!(server.port(), 80);
    assert!(matches!(server.round(), ServerRound::Finished));
    server.run();
    assert!(server.is_running());
    match server.round() {
        ServerRound::Poll { fds, millis } => {
            assert_eq!(fds, vec![3, 4, 5]);
            assert_eq!(millis, 1000);
        }
        other => panic!("unexpected {:?}", other),
    }
    assert_eq!(server.ready(&vec![true, false, true]), vec![3, 5]);
    assert_eq!(server.ready(&vec![false]), vec![]);
    assert_eq!(server.stop(), vec![3, 4, 5]);
    assert!(!server.is_running());
}

fn io(kind: IoKind) -> IoError {
    IoError { kind, message: String::new() }
}

#[test]
fn a_terminal_session_passes_data_both_ways() {
    let mut connection = Connection::new("id", KEY);
    connection.initialize(7, 1).unwrap();
    let mut handler = UserTerminalHandler::new();
    let turn = handler.start(&connection, 3);
    assert!(matches!(turn.step, SessionStep::Poll { terminal: 3, client: Some(7), millis: 10 }));
    let both = PolledData { terminal: true, client: true };
    let turn = handler.step(&connection, SessionEvent::Polled(Some(both)));
    assert!(matches!(turn.step, SessionStep::ReadTerminal { fd: 3, count: 16384 }));
    let turn = handler.step(&connection, SessionEvent::TerminalRead(Ok(b"out".to_vec())));
    match turn.step {
        SessionStep::Send(Message::TerminalBuffer(bytes)) => assert_eq!(bytes, b"out"),
        other => panic!("unexpected {:?}", other),
    }
    let turn = handler.step(&connection, SessionEvent::Sent);
    assert!(matches!(turn.step, SessionStep::ReadClient));
    let typed = SessionEvent::PacketRead { header: 1, buffer: Some(b"in".to_vec()), info: None };
    let turn = handler.step(&connection, typed);
    assert_eq!(turn.input, Some(b"in".to_vec()));
    let sized = SessionEvent::PacketRead { header: 2, buffer: None, info: Some(TerminalInfo::with_size(1, 2)) };
    let turn = handler.step(&connection, sized);
    assert_eq!(turn.info.unwrap().column, 2);
    let alive = SessionEvent::PacketRead { header: 0, buffer: None, info: None };
    let turn = handler.step(&connection, alive);
    assert!(matches!(turn.step, SessionStep::Send(Message::KeepAlive)));
    let turn = handler.step(&connection, SessionEvent::Sent);
    assert!(matches!(turn.step, SessionStep::ReadClient));
    let turn = handler.step(&connection, SessionEvent::NothingRead);
    assert!(matches!(turn.step, SessionStep::Poll { .. }));
}

#[test]
fn a_terminal_that_closes_or_fails_ends_its_session() {
    let connection = Connection::new("id", KEY);
    let readable = PolledData { terminal: true, client: false };
    for (outcome, ends) in [
        (Ok(vec![]), true),
        (Err(io(IoKind::Other)), true),
        (Err(io(IoKind::Interrupted)), true),
        (Err(io(IoKind::WouldBlock)), false),
    ] {
        let mut handler = UserTerminalHandler::new();
        let turn = handler.start(&connection, 3);
        assert!(matches!(turn.step, SessionStep::Poll { terminal: 3, client: None, millis: 10 }));
        let _ = handler.step(&connection, SessionEvent::Polled(Some(readable)));
        let turn = handler.step(&connection, SessionEvent::TerminalRead(outcome));
        assert_eq!(matches!(turn.step, SessionStep::Finished), ends);
    }
}

#[test]
fn a_stopped_session_ends_with_its_round() {
    let mut connection = Connection::new("id", KEY);
    let mut handler = UserTerminalHandler::new();
    let _ = handler.start(&connection, 3);
    let turn = handler.step(&connection, SessionEvent::Polled(None));
    assert!(matches!(turn.step, SessionStep::Poll { .. }));
    handler.stop();
    let turn = handler.step(&connection, SessionEvent::Polled(None));
    assert!(matches!(turn.step, SessionStep::Finished));
    connection.shutdown();
    let turn = UserTerminalHandler::new().start(&connection, 3);
    assert!(matches!(turn.step, SessionStep::Finished));
}

#[test]
fn verbosity_chooses_the_level() {
    assert_eq!(log_level(0), LogLevel::Warn);
    assert_eq!(log_level(1), LogLevel::Info);
    assert_eq!(log_level(2), LogLevel::Debug);
    assert_eq!(log_level(3), LogLevel::Trace);
    assert_eq!(log_level(255), LogLevel::Trace);
}
