use et::error::{Errno, Error, IoError, IoKind, SystemError};
use et::socket::SocketEndpoint;
use et::tcp::{bind_addresses, ConnectStart, ConnectStep, TcpConnect, TcpSocketHandler};

#[test]
fn socket_test_tcp_handler_creation() {
    let handler = TcpSocketHandler::new();
    assert!(handler.get_active_sockets().is_empty());
}

#[test]
fn lib_test_tcp_handler_creation() {
    let handler = TcpSocketHandler::new();
    assert!(handler.get_active_sockets().is_empty());
}

#[test]
fn accepted_sockets_are_active_until_closed() {
    let mut handler = TcpSocketHandler::default();
    assert_eq!(handler.accept(Ok(5)).unwrap(), 5);
    assert_eq!(handler.accept(Ok(7)).unwrap(), 7);
    let failed = IoError { kind: IoKind::Other, message: "no".to_string() };
    assert!(handler.accept(Err(Error::Io(failed))).is_err());
    let mut active = handler.get_active_sockets();
    active.sort();
    assert_eq!(active, vec![5, 7]);
    handler.close(5);
    handler.close(6);
    assert_eq!(handler.get_active_sockets(), vec![7]);
}

#[test]
fn every_interface_has_two_addresses() {
    assert_eq!(bind_addresses(&SocketEndpoint::any(80)), vec!["0.0.0.0:80", "[::]:80"]);
    assert_eq!(bind_addresses(&SocketEndpoint::new("host", 80)), vec!["host:80"]);
}

#[test]
fn listening_sockets_are_kept_by_port() {
    let mut handler = TcpSocketHandler::new();
    let endpoint = SocketEndpoint::any(80);
    assert!(handler.get_endpoint_fds(&endpoint).is_none());
    assert_eq!(handler.listen(&endpoint, vec![3, 4, 3]).unwrap(), vec![3, 4]);
    assert_eq!(handler.get_endpoint_fds(&SocketEndpoint::new("other", 80)), Some(vec![3, 4]));
    assert_eq!(handler.stop_listening(&endpoint), vec![3, 4]);
    assert!(handler.stop_listening(&endpoint).is_empty());
    assert!(handler.get_endpoint_fds(&endpoint).is_none());
    let error = handler.listen(&endpoint, vec![]).err().unwrap();
    assert_eq!(error.to_string(), "Socket error: Could not bind to any interface");
}

#[test]
fn a_connection_needs_a_host_with_addresses() {
    let error = TcpConnect::resolve(&SocketEndpoint::any(1)).err().unwrap();
    assert_eq!(error.to_string(), "Address resolution error: No hostname provided");
    assert_eq!(TcpConnect::resolve(&SocketEndpoint::new("host", 1)).unwrap(), "host:1");
    let error = TcpConnect::begin(Ok(vec![])).err().unwrap();
    assert_eq!(error.to_string(), "Address resolution error: No addresses found");
    let error = TcpConnect::begin(Err("unknown".to_string())).err().unwrap();
    assert_eq!(error.to_string(), "Address resolution error: unknown");
}

#[test]
fn a_connection_that_comes_up_is_active() {
    let mut handler = TcpSocketHandler::new();
    let (mut attempt, step) = TcpConnect::begin(Ok(vec![true])).unwrap();
    assert!(matches!(step, ConnectStep::Open { index: 0, ipv4: true, abandoned: None }));
    assert!(matches!(attempt.opened(Ok(9)), ConnectStep::SetNonblocking { fd: 9 }));
    assert!(matches!(attempt.nonblocking(Ok(())), ConnectStep::Start { fd: 9, index: 0 }));
    assert!(matches!(attempt.started(ConnectStart::InProgress), ConnectStep::Poll { fd: 9, millis: 3000 }));
    assert!(matches!(attempt.polled(Ok(1)), ConnectStep::TakeError { fd: 9 }));
    assert!(matches!(attempt.error_taken(Ok(None)), ConnectStep::SetBlocking { fd: 9 }));
    assert!(matches!(attempt.blocking(&mut handler, Ok(())), ConnectStep::Finished { result: Ok(9), abandoned: None }));
    assert_eq!(handler.get_active_sockets(), vec![9]);
}

#[test]
fn every_address_is_tried_and_the_last_error_reported() {
    let (mut attempt, _) = TcpConnect::begin(Ok(vec![false, true, true, false])).unwrap();
    let _ = attempt.opened(Ok(4));
    let refused = ConnectStart::Refused("refused".to_string());
    assert!(matches!(attempt.started(refused), ConnectStep::Open { index: 1, ipv4: true, abandoned: Some(4) }));
    let _ = attempt.opened(Ok(5));
    assert!(matches!(attempt.polled(Ok(0)), ConnectStep::Open { index: 2, ipv4: true, abandoned: Some(5) }));
    let _ = attempt.opened(Ok(6));
    assert!(matches!(attempt.error_taken(Ok(Some(Some(111)))), ConnectStep::Open { index: 3, ipv4: false, abandoned: Some(6) }));
    let _ = attempt.opened(Ok(7));
    match attempt.error_taken(Ok(Some(Some(111)))) {
        ConnectStep::Finished { result: Err(e), abandoned: Some(7) } => {
            assert_eq!(e.to_string(), "Socket error: Connection error: 111");
        }
        other => panic!("unexpected {:?}", other),
    }
}

#[test]
fn some_failures_end_an_attempt() {
    let (mut attempt, _) = TcpConnect::begin(Ok(vec![true, true])).unwrap();
    match attempt.opened(Err("none left".to_string())) {
        ConnectStep::Finished { result: Err(e), abandoned: None } => {
            assert_eq!(e.to_string(), "Socket error: none left");
        }
        other => panic!("unexpected {:?}", other),
    }
    let _ = attempt.opened(Ok(3));
    let bad = Error::Nix(SystemError { errno: Errno::BadF, message: "EBADF".to_string() });
    match attempt.nonblocking(Err(bad)) {
        ConnectStep::Finished { result: Err(e), abandoned: Some(3) } => {
            assert_eq!(e.to_string(), "System error: EBADF");
        }
        other => panic!("unexpected {:?}", other),
    }
    assert!(matches!(attempt.error_taken(Ok(Some(None))), ConnectStep::SetBlocking { fd: 3 }));
    assert!(matches!(attempt.error_taken(Err("x".to_string())), ConnectStep::Finished { result: Err(Error::Socket(_)), abandoned: Some(3) }));
    assert!(matches!(attempt.polled(Err("y".to_string())), ConnectStep::Open { index: 1, .. }));
}
