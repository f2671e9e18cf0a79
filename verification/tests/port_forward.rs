use et::error::Error;
use et::port_forward::{
    forward_kind, listen_endpoint, DestinationStep, ForwardAction, ForwardDestinationHandler,
    ForwardKind, ForwardPacket, ForwardSourceHandler, ListenOutcome, ListenStep,
    PortForwardHandler, Reading, SocketRef, UpdateEvent, UpdateStep,
};
use et::proto::{
    PortForwardData, PortForwardDestinationRequest, PortForwardDestinationResponse,
    PortForwardSourceRequest, SocketEndpoint,
};

fn endpoint(name: &str, port: i32) -> SocketEndpoint {
    SocketEndpoint { name: name.to_string(), port }
}

fn data(source_to_destination: bool, socket_id: i32, buffer: &[u8]) -> ForwardPacket {
    ForwardPacket::Data(PortForwardData {
        source_to_destination,
        socket_id,
        buffer: buffer.to_vec(),
        error: String::new(),
        closed: false,
    })
}

fn end(source_to_destination: bool, socket_id: i32) -> ForwardPacket {
    ForwardPacket::Data(PortForwardData {
        source_to_destination,
        socket_id,
        buffer: vec![],
        error: String::new(),
        closed: true,
    })
}

fn response(client_fd: i32, socket_id: i32, error: &str) -> ForwardPacket {
    ForwardPacket::DestinationResponse(PortForwardDestinationResponse {
        client_fd,
        socket_id,
        error: error.to_string(),
    })
}

fn source_request() -> PortForwardSourceRequest {
    PortForwardSourceRequest {
        source: Some(endpoint("127.0.0.1", 8080)),
        destination: Some(endpoint("remote", 90)),
        environment_variable: String::new(),
    }
}

/// A handler with one source that listens at socket 3 and has accepted socket 10.
fn with_accepted() -> PortForwardHandler {
    let mut handler = PortForwardHandler::new();
    assert_eq!(handler.create_source(&source_request(), Ok(vec![3])).unwrap().error, "");
    let (mut update, step) = handler.update();
    assert_eq!(step, UpdateStep::ReadSource { source: 0 });
    let mut requests = vec![];
    let mut sent = vec![];
    let (step, close) = update.step(&mut handler, UpdateEvent::Readings(vec![]), &mut requests, &mut sent);
    assert_eq!(step, UpdateStep::Check(SocketRef { network: true, fd: 3 }));
    assert!(close.is_empty());
    let accepted = UpdateEvent::Listened(ListenOutcome::Accepted(Ok(10)));
    let (step, _) = update.step(&mut handler, accepted, &mut requests, &mut sent);
    assert_eq!(step, UpdateStep::ReadDestinations);
    let (step, _) = update.step(&mut handler, UpdateEvent::Readings(vec![]), &mut requests, &mut sent);
    assert_eq!(step, UpdateStep::Finished);
    assert_eq!(requests.len(), 1);
    assert_eq!(requests[0].fd, 10);
    assert_eq!(requests[0].destination.as_ref().unwrap().name, "remote");
    assert!(sent.is_empty());
    handler
}

#[test]
fn sources_without_a_name_listen_everywhere() {
    assert_eq!(listen_endpoint(&endpoint("", 65536 + 7)).to_string(), "*:7");
    assert_eq!(listen_endpoint(&endpoint("host", 80)).to_string(), "host:80");
    let (network, place) = PortForwardHandler::source_endpoint(&source_request());
    assert!(network);
    assert_eq!(place.to_string(), "127.0.0.1:8080");
    let empty = PortForwardSourceRequest {
        source: None,
        destination: None,
        environment_variable: String::new(),
    };
    let (network, place) = PortForwardHandler::source_endpoint(&empty);
    assert!(!network);
    assert_eq!(place.to_string(), "*:0");
}

#[test]
fn a_source_that_cannot_listen_is_not_created() {
    let mut handler = PortForwardHandler::new();
    assert!(handler.create_source(&source_request(), Err(Error::Timeout)).is_err());
    assert_eq!(handler.update().1, UpdateStep::ReadDestinations);
}

#[test]
fn a_source_handler_assigns_and_closes_sockets() {
    let mut source = ForwardSourceHandler::new(endpoint("a", 1), endpoint("b", 2), Ok(vec![3, 4])).unwrap();
    assert_eq!(source.source().name, "a");
    assert_eq!(source.destination().port, 2);
    assert_eq!(source.listen(), ListenStep::Check { index: 0, fd: 3 });
    assert_eq!(source.listened(0, ListenOutcome::Idle), ListenStep::Check { index: 1, fd: 4 });
    assert_eq!(source.listened(1, ListenOutcome::Accepted(Err(Error::Timeout))), ListenStep::Finished(None));
    assert_eq!(source.listened(0, ListenOutcome::Accepted(Ok(9))), ListenStep::Finished(Some(9)));
    assert!(source.has_unassigned_fd(9));
    source.add_socket(77, 8);
    assert!(source.send_data_on_socket(77).is_none());
    source.add_socket(77, 9);
    assert!(!source.has_unassigned_fd(9));
    assert_eq!(source.send_data_on_socket(77), Some(9));
    assert_eq!(source.sockets(), vec![(77, 9)]);
    assert_eq!(source.close_socket(77), Some(9));
    assert_eq!(source.close_socket(77), None);
    assert_eq!(source.close_unassigned_fd(9), None);
}

#[test]
fn readings_of_a_source_become_messages() {
    let mut source = ForwardSourceHandler::new(endpoint("a", 1), endpoint("b", 2), Ok(vec![3])).unwrap();
    let _ = source.listened(0, ListenOutcome::Accepted(Ok(9)));
    source.add_socket(1, 9);
    let readings = vec![
        Reading { socket_id: 1, outcome: Ok(b"abc".to_vec()) },
        Reading { socket_id: 2, outcome: Err(Error::Timeout) },
        Reading { socket_id: 1, outcome: Ok(vec![]) },
    ];
    let mut sent = vec![];
    assert_eq!(source.update(readings, &mut sent), vec![9]);
    assert_eq!(sent.len(), 2);
    assert_eq!(sent[0].buffer, b"abc");
    assert!(sent[0].source_to_destination && !sent[0].closed);
    assert!(sent[1].closed && sent[1].buffer.is_empty());
    assert!(source.sockets().is_empty());
}

#[test]
fn a_destination_handler_reads_until_its_end() {
    let mut destination = ForwardDestinationHandler::new(6, 42, true);
    let mut sent = vec![];
    assert_eq!(destination.update(Ok(b"xy".to_vec()), &mut sent), None);
    assert_eq!(destination.update(Err(Error::Timeout), &mut sent), None);
    assert_eq!(destination.write(), Some(6));
    assert_eq!(destination.update(Ok(vec![]), &mut sent), Some(6));
    assert_eq!(destination.fd(), -1);
    assert_eq!(destination.write(), None);
    assert_eq!(destination.close(), None);
    assert_eq!(destination.update(Ok(b"z".to_vec()), &mut sent), None);
    assert_eq!(sent.len(), 2);
    assert_eq!((sent[0].socket_id, sent[0].source_to_destination), (42, false));
    assert!(sent[1].closed);
}

#[test]
fn packet_types_say_what_is_held() {
    assert_eq!(forward_kind(7), Some(ForwardKind::Data));
    assert_eq!(forward_kind(5), Some(ForwardKind::DestinationRequest));
    assert_eq!(forward_kind(6), Some(ForwardKind::DestinationResponse));
    assert_eq!(forward_kind(1), None);
}

#[test]
fn an_answered_connection_receives_data_until_its_end() {
    let mut handler = with_accepted();
    assert!(matches!(handler.handle_packet(response(10, 5, "")), ForwardAction::Nothing));
    match handler.handle_packet(data(false, 5, b"down")) {
        ForwardAction::Write { socket, data } => {
            assert_eq!(socket, SocketRef { network: true, fd: 10 });
            assert_eq!(data, b"down");
        }
        other => panic!("unexpected {:?}", other),
    }
    assert_eq!(handler.source_sockets(0), vec![(5, 10)]);
    assert!(handler.source_on_network(0));
    assert!(matches!(handler.handle_packet(end(false, 5)), ForwardAction::Close(SocketRef { network: true, fd: 10 })));
    assert!(matches!(handler.handle_packet(data(false, 5, b"late")), ForwardAction::Nothing));
}

#[test]
fn a_refused_connection_is_closed() {
    let mut handler = with_accepted();
    assert!(matches!(handler.handle_packet(response(10, 0, "no")), ForwardAction::Close(SocketRef { network: true, fd: 10 })));
    assert!(matches!(handler.handle_packet(response(10, 0, "no")), ForwardAction::Nothing));
    assert!(matches!(handler.handle_packet(ForwardPacket::Other), ForwardAction::Nothing));
}

#[test]
fn a_destination_without_a_name_is_this_machine() {
    let mut handler = PortForwardHandler::new();
    let request = PortForwardDestinationRequest { destination: Some(endpoint("", 90)), fd: 10 };
    let (mut attempt, step) = PortForwardHandler::create_destination(&request);
    match step {
        DestinationStep::Connect { network: true, endpoint } => assert_eq!(endpoint.to_string(), "::1:90"),
        other => panic!("unexpected {:?}", other),
    }
    match attempt.step(&mut handler, Err(Error::Timeout)) {
        DestinationStep::Connect { network: true, endpoint } => assert_eq!(endpoint.to_string(), "127.0.0.1:90"),
        other => panic!("unexpected {:?}", other),
    }
    match attempt.step_with_number(&mut handler, Ok(6), -42) {
        DestinationStep::Finished(response) => {
            assert_eq!((response.client_fd, response.socket_id), (10, 42));
            assert!(response.error.is_empty());
        }
        other => panic!("unexpected {:?}", other),
    }
    assert_eq!(handler.destination_ids(), vec![42]);
    assert_eq!(handler.destination_socket(42), Some(SocketRef { network: true, fd: 6 }));
    match handler.handle_packet(data(true, 42, b"up")) {
        ForwardAction::Write { socket, data } => {
            assert_eq!(socket.fd, 6);
            assert_eq!(data, b"up");
        }
        other => panic!("unexpected {:?}", other),
    }
    assert!(matches!(handler.handle_packet(end(true, 42)), ForwardAction::Close(SocketRef { network: true, fd: 6 })));
    assert!(matches!(handler.handle_packet(data(true, 42, b"late")), ForwardAction::Nothing));
    // The next round forgets it
    let (mut update, _) = handler.update();
    let _ = update.step(&mut handler, UpdateEvent::Readings(vec![]), &mut vec![], &mut vec![]);
    assert!(handler.destination_ids().is_empty());
}

#[test]
fn a_destination_is_the_one_requested() {
    let mut handler = PortForwardHandler::new();
    let request = PortForwardDestinationRequest { destination: Some(endpoint("inner", 90)), fd: 10 };
    let (mut attempt, step) = PortForwardHandler::create_destination(&request);
    match step {
        DestinationStep::Connect { network: true, endpoint } => assert_eq!(endpoint.to_string(), "inner:90"),
        other => panic!("unexpected {:?}", other),
    }
    // Nothing else is tried for it
    match attempt.step(&mut handler, Err(Error::Timeout)) {
        DestinationStep::Finished(response) => assert_eq!(response.error, "Connection failed"),
        other => panic!("unexpected {:?}", other),
    }
    let (mut attempt, _) = PortForwardHandler::create_destination(&request);
    match attempt.step_with_number(&mut handler, Ok(6), 42) {
        DestinationStep::Finished(response) => assert_eq!((response.client_fd, response.socket_id), (10, 42)),
        other => panic!("unexpected {:?}", other),
    }
    assert_eq!(handler.destination_socket(42), Some(SocketRef { network: true, fd: 6 }));
}

#[test]
fn no_number_gives_an_id_with_a_sign() {
    let mut handler = PortForwardHandler::new();
    let request = PortForwardDestinationRequest { destination: Some(endpoint("inner", 90)), fd: 10 };
    for (number, id) in [(0, 0), (7, 7), (-7, 7), (i32::MAX, i32::MAX), (i32::MIN, 0)] {
        let (mut attempt, _) = PortForwardHandler::create_destination(&request);
        match attempt.step_with_number(&mut handler, Ok(6), number) {
            DestinationStep::Finished(response) => assert_eq!(response.socket_id, id),
            other => panic!("unexpected {:?}", other),
        }
    }
}

#[test]
fn ids_are_random_and_have_no_sign() {
    let request = PortForwardDestinationRequest { destination: Some(endpoint("", 90)), fd: 1 };
    let mut handler = PortForwardHandler::new();
    for _ in 0..8 {
        let (mut attempt, _) = PortForwardHandler::create_destination(&request);
        let _ = attempt.step(&mut handler, Ok(6));
    }
    assert!(handler.destination_ids().len() > 1);
    assert!(handler.destination_ids().iter().all(|id| *id >= 0));
}

#[test]
fn a_destination_that_does_not_answer_is_reported() {
    let mut handler = PortForwardHandler::new();
    let request = PortForwardDestinationRequest { destination: Some(endpoint("pipe", 0)), fd: 10 };
    let (mut attempt, step) = PortForwardHandler::create_destination(&request);
    match step {
        DestinationStep::Connect { network: false, endpoint } => assert_eq!(endpoint.to_string(), "pipe:0"),
        other => panic!("unexpected {:?}", other),
    }
    match attempt.step(&mut handler, Err(Error::Timeout)) {
        DestinationStep::Finished(response) => {
            assert_eq!((response.client_fd, response.socket_id), (10, 0));
            assert_eq!(response.error, "Connection failed");
        }
        other => panic!("unexpected {:?}", other),
    }
    match handler.handle_packet(ForwardPacket::DestinationRequest(request)) {
        ForwardAction::CreateDestination(request) => assert_eq!(request.fd, 10),
        other => panic!("unexpected {:?}", other),
    }
}

#[test]
fn an_update_reads_sources_and_destinations() {
    let mut handler = with_accepted();
    let _ = handler.handle_packet(response(10, 5, ""));
    let request = PortForwardDestinationRequest { destination: Some(endpoint("", 90)), fd: 1 };
    let (mut attempt, _) = PortForwardHandler::create_destination(&request);
    let _ = attempt.step_with_number(&mut handler, Ok(6), 8);
    let mut requests = vec![];
    let mut sent = vec![];
    let (mut update, _) = handler.update();
    let readings = vec![Reading { socket_id: 5, outcome: Ok(vec![]) }];
    let (step, close) = update.step(&mut handler, UpdateEvent::Readings(readings), &mut requests, &mut sent);
    assert_eq!(close, vec![SocketRef { network: true, fd: 10 }]);
    assert_eq!(step, UpdateStep::Check(SocketRef { network: true, fd: 3 }));
    let (step, _) = update.step(&mut handler, UpdateEvent::Listened(ListenOutcome::Idle), &mut requests, &mut sent);
    assert_eq!(step, UpdateStep::ReadDestinations);
    let readings = vec![Reading { socket_id: 8, outcome: Ok(vec![]) }];
    let (step, close) = update.step(&mut handler, UpdateEvent::Readings(readings), &mut requests, &mut sent);
    assert_eq!(step, UpdateStep::Finished);
    assert_eq!(close, vec![SocketRef { network: true, fd: 6 }]);
    assert!(requests.is_empty());
    assert_eq!(sent.len(), 2);
    assert!(sent[0].source_to_destination && sent[0].closed);
    assert!(!sent[1].source_to_destination && sent[1].closed);
    assert!(handler.destination_ids().is_empty());
}
