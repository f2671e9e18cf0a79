use et::client_connection::{ClientConnection, LinkEvent, LinkStep};
use et::connection::ConnectionRead;
use et::error::Error;
use et::port_forward::{ForwardAction, ForwardPacket, PortForwardHandler, SocketRef};
use et::proto::{
    ConnectStatus, Message, PortForwardData, PortForwardDestinationRequest,
    PortForwardDestinationResponse, ReceivedStatus,
};
use et::socket::SocketEndpoint;
use et::terminal_client::{
    command_bytes, tunnel_requests, Run, RunEvent, RunStep, Setup, SetupError, SetupEvent,
    SetupStep, TerminalClient, Turn,
};
use et::terminal_info::TerminalInfo;

fn client(console: Option<i32>) -> TerminalClient {
    let mut connection = ClientConnection::new(
        SocketEndpoint::new("host", 2022),
        "me",
        "12345678901234567890123456789012",
    );
    let (mut link, _) = connection.connect();
    let _ = link.step(&mut connection, LinkEvent::Opened(Ok(5)));
    let _ = link.step(&mut connection, LinkEvent::Sent(Ok(())));
    let answer = ReceivedStatus { number: 1, status: Some(ConnectStatus::NewClient) };
    let _ = link.step(&mut connection, LinkEvent::Response(Ok(answer)));
    TerminalClient::new(connection, PortForwardHandler::new(), console, 5)
}

fn is_poll(turn: &Turn) -> bool {
    matches!(turn.step, RunStep::Poll { millis: 10, .. })
}

/// Goes from a poll to the keepalive check of a round without input.
fn to_clock(run: &mut Run, client: &mut TerminalClient) {
    let turn = run.step(client, RunEvent::Polled { console: false, client: false });
    assert!(matches!(turn.step, RunStep::CheckClock));
}

#[test]
fn tunnels_become_requests() {
    let requests = tunnel_requests("8080:90, 1.2.3.4:1:host:2 ,bad,3:4:5:6:7");
    assert_eq!(requests.len(), 2);
    let source = requests[0].source.as_ref().unwrap();
    assert_eq!((source.name.as_str(), source.port), ("127.0.0.1", 8080));
    let destination = requests[0].destination.as_ref().unwrap();
    assert_eq!((destination.name.as_str(), destination.port), ("127.0.0.1", 90));
    let source = requests[1].source.as_ref().unwrap();
    assert_eq!((source.name.as_str(), source.port), ("127.0.0.1", 1));
    let destination = requests[1].destination.as_ref().unwrap();
    assert_eq!((destination.name.as_str(), destination.port), ("host", 2));
    assert!(tunnel_requests("").is_empty());
}

#[test]
fn a_setup_ends_with_the_response() {
    let (mut setup, step) = Setup::begin(true);
    assert!(matches!(step, SetupStep::Connect));
    assert!(matches!(setup.step(SetupEvent::Connected(Ok(true))), SetupStep::Send(Message::InitialPayload { jumphost: true })));
    assert!(matches!(setup.step(SetupEvent::Sent), SetupStep::Sleep { millis: 100 }));
    assert!(matches!(setup.step(SetupEvent::Slept), SetupStep::Read));
    let other = SetupEvent::PacketRead { header: 1, response_error: Some(String::new()) };
    assert!(matches!(setup.step(other), SetupStep::Sleep { millis: 100 }));
    assert!(matches!(setup.step(SetupEvent::Slept), SetupStep::Read));
    let unreadable = SetupEvent::PacketRead { header: 252, response_error: None };
    assert!(matches!(setup.step(unreadable), SetupStep::Sleep { millis: 100 }));
    assert!(matches!(setup.step(SetupEvent::Slept), SetupStep::Read));
    let response = SetupEvent::PacketRead { header: 252, response_error: Some(String::new()) };
    assert!(matches!(setup.step(response), SetupStep::Finished(Ok(()))));
}

#[test]
fn a_setup_reports_what_the_server_says() {
    let (mut setup, _) = Setup::begin(false);
    let _ = setup.step(SetupEvent::Connected(Ok(true)));
    let _ = setup.step(SetupEvent::Sent);
    let _ = setup.step(SetupEvent::Slept);
    let response = SetupEvent::PacketRead { header: 252, response_error: Some("full".to_string()) };
    match setup.step(response) {
        SetupStep::Finished(Err(SetupError::Other(text))) => assert_eq!(text, "Initial response error: full"),
        other => panic!("unexpected {:?}", other),
    }
}

#[test]
fn a_setup_needs_a_connection() {
    let (mut setup, _) = Setup::begin(false);
    match setup.step(SetupEvent::Connected(Ok(false))) {
        SetupStep::Finished(Err(SetupError::Refused(text))) => assert_eq!(text, "Failed to connect"),
        other => panic!("unexpected {:?}", other),
    }
    let (mut setup, _) = Setup::begin(false);
    match setup.step(SetupEvent::Connected(Err(Error::Timeout))) {
        SetupStep::Finished(Err(SetupError::Refused(text))) => assert_eq!(text, "Operation timed out"),
        other => panic!("unexpected {:?}", other),
    }
}

#[test]
fn a_silent_server_is_taken_to_agree() {
    let (mut setup, _) = Setup::begin(false);
    let _ = setup.step(SetupEvent::Connected(Ok(true)));
    let _ = setup.step(SetupEvent::Sent);
    for _ in 0..30 {
        assert!(matches!(setup.step(SetupEvent::Slept), SetupStep::Read));
        assert!(matches!(setup.step(SetupEvent::NothingRead), SetupStep::Sleep { millis: 100 }));
    }
    assert!(matches!(setup.step(SetupEvent::Slept), SetupStep::Finished(Ok(()))));
}

#[test]
fn commands_exit_unless_they_are_to_stay() {
    assert_eq!(command_bytes("ls", false), b"ls; exit\n");
    assert_eq!(command_bytes("ls", true), b"ls\n");
    let mut client = client(None);
    let (mut run, turn) = client.run(Some("ls"), true, 0);
    match turn.step {
        RunStep::Send(Message::TerminalBuffer(bytes)) => assert_eq!(bytes, b"ls\n"),
        other => panic!("unexpected {:?}", other),
    }
    let turn = run.step(&mut client, RunEvent::Sent { now: 1 });
    assert!(matches!(turn.step, RunStep::Poll { console: None, client: Some(5), millis: 10 }));
}

#[test]
fn console_input_is_sent() {
    let mut client = client(Some(0));
    let (mut run, turn) = client.run(None, false, 0);
    assert!(matches!(turn.step, RunStep::Poll { console: Some(0), client: Some(5), millis: 10 }));
    let turn = run.step(&mut client, RunEvent::Polled { console: true, client: false });
    assert!(matches!(turn.step, RunStep::ReadConsole { fd: 0, count: 16384 }));
    let turn = run.step(&mut client, RunEvent::ConsoleRead(Some(b"key".to_vec())));
    match turn.step {
        RunStep::Send(Message::TerminalBuffer(bytes)) => assert_eq!(bytes, b"key"),
        other => panic!("unexpected {:?}", other),
    }
    let turn = run.step(&mut client, RunEvent::Sent { now: 1_000 });
    assert!(matches!(turn.step, RunStep::CheckClock));
    // The keepalive was put off
    let turn = run.step(&mut client, RunEvent::Clock { now: 5_000_001_000 });
    assert!(matches!(turn.step, RunStep::QueryTerminal));
}

#[test]
fn packets_of_the_server_are_shown() {
    let mut client = client(Some(0));
    let (mut run, _) = client.run(None, false, 0);
    let turn = run.step(&mut client, RunEvent::Polled { console: false, client: true });
    assert!(matches!(turn.step, RunStep::ReadServer));
    let turn = run.step(&mut client, RunEvent::PacketRead { header: 1, buffer: Some(b"out".to_vec()), forward: ForwardPacket::Other, now: 0 });
    assert_eq!(turn.output, Some(b"out".to_vec()));
    assert!(matches!(turn.step, RunStep::ReadServer));
    let turn = run.step(&mut client, RunEvent::PacketRead { header: 7, buffer: None, forward: ForwardPacket::Other, now: 0 });
    assert!(turn.output.is_none());
    let turn = run.step(&mut client, RunEvent::PacketRead { header: 99, buffer: Some(vec![1]), forward: ForwardPacket::Other, now: 0 });
    assert!(turn.output.is_none());
    let turn = run.step(&mut client, RunEvent::NothingRead);
    assert!(matches!(turn.step, RunStep::CheckClock));
}

#[test]
fn a_lost_socket_is_sought_again_beside_the_session() {
    let mut client = client(None);
    let (mut run, turn) = client.run(None, false, 0);
    assert!(turn.reconnect.is_none());
    let _ = client.connection.read();
    match client.connection.received(Err(Error::ConnectionClosed)) {
        ConnectionRead::Finished { close: Some(5), .. } => {}
        other => panic!("unexpected {:?}", other),
    }
    let turn = run.step(&mut client, RunEvent::Polled { console: false, client: false });
    assert!(matches!(turn.step, RunStep::CheckClock));
    let (mut link, step) = turn.reconnect.unwrap();
    assert!(matches!(step, LinkStep::Open));
    let step = link.step(&mut client.connection, LinkEvent::Opened(Ok(6)));
    assert!(matches!(step, LinkStep::SendRequest { fd: 6, .. }));
    // No second one starts
    let turn = run.step(&mut client, RunEvent::Clock { now: 0 });
    assert!(turn.reconnect.is_none());
    let turn = run.step(&mut client, RunEvent::Forwarded { requests: vec![], data: vec![] });
    assert!(matches!(turn.step, RunStep::Poll { client: None, .. }));
    assert!(turn.reconnect.is_none());
}

#[test]
fn packets_about_port_forwarding_are_handled() {
    let mut client = client(Some(0));
    let (mut run, _) = client.run(None, false, 0);
    let _ = run.step(&mut client, RunEvent::Polled { console: false, client: true });
    let request = PortForwardDestinationRequest { destination: None, fd: 9 };
    let turn = run.step(&mut client, RunEvent::PacketRead {
        header: 5,
        buffer: Some(b"no output".to_vec()),
        forward: ForwardPacket::DestinationRequest(request),
        now: 1,
    });
    assert!(turn.output.is_none());
    assert!(matches!(turn.step, RunStep::AwaitDestination));
    match turn.forward {
        ForwardAction::CreateDestination(request) => {
            assert_eq!(request.fd, 9);
            let (mut attempt, _) = PortForwardHandler::create_destination(&request);
            let _ = attempt.step_with_number(&mut client.port_forward_handler, Ok(30), 8);
        }
        other => panic!("unexpected {:?}", other),
    }
    let response = PortForwardDestinationResponse { client_fd: 9, socket_id: 8, error: String::new() };
    let turn = run.step(&mut client, RunEvent::DestinationCreated(response));
    match turn.step {
        RunStep::Send(Message::DestinationResponse(response)) => assert_eq!(response.socket_id, 8),
        other => panic!("unexpected {:?}", other),
    }
    let turn = run.step(&mut client, RunEvent::Sent { now: 2 });
    assert!(matches!(turn.step, RunStep::ReadServer));
    let mut data = PortForwardData::for_read(true, 8, b"up".to_vec());
    let turn = run.step(&mut client, RunEvent::PacketRead {
        header: 7,
        buffer: None,
        forward: ForwardPacket::Data(data),
        now: 3,
    });
    let network = false;
    match turn.forward {
        ForwardAction::Write { socket, data } => {
            assert_eq!(socket, SocketRef { network, fd: 30 });
            assert_eq!(data, b"up");
        }
        other => panic!("unexpected {:?}", other),
    }
    assert!(matches!(turn.step, RunStep::ReadServer));
    data = PortForwardData::for_read(true, 8, vec![]);
    let turn = run.step(&mut client, RunEvent::PacketRead {
        header: 7,
        buffer: None,
        forward: ForwardPacket::Data(data),
        now: 4,
    });
    assert!(matches!(turn.forward, ForwardAction::Close(SocketRef { fd: 30, .. })));
    // Each of them put the keepalive off
    let _ = run.step(&mut client, RunEvent::NothingRead);
    let turn = run.step(&mut client, RunEvent::Clock { now: 5_000_000_004 });
    assert!(matches!(turn.step, RunStep::QueryTerminal));
}

#[test]
fn an_unanswered_keepalive_costs_the_socket() {
    let mut client = client(None);
    let (mut run, _) = client.run(None, false, 0);
    to_clock(&mut run, &mut client);
    let turn = run.step(&mut client, RunEvent::Clock { now: 5_000_000_000 });
    assert!(matches!(turn.step, RunStep::UpdateForwarding));
    let turn = run.step(&mut client, RunEvent::Forwarded { requests: vec![], data: vec![] });
    assert!(is_poll(&turn));
    to_clock(&mut run, &mut client);
    let turn = run.step(&mut client, RunEvent::Clock { now: 5_000_000_001 });
    assert!(matches!(turn.step, RunStep::Send(Message::KeepAlive)));
    let _ = run.step(&mut client, RunEvent::Sent { now: 5_000_000_002 });
    let _ = run.step(&mut client, RunEvent::Forwarded { requests: vec![], data: vec![] });
    to_clock(&mut run, &mut client);
    let turn = run.step(&mut client, RunEvent::Clock { now: 10_000_000_002 });
    assert_eq!(turn.close, Some(5));
    assert!(matches!(turn.reconnect, Some((_, LinkStep::Open))));
    assert_eq!(client.connection.socket_fd(), -1);
    let turn = run.step(&mut client, RunEvent::Forwarded { requests: vec![], data: vec![] });
    assert!(matches!(turn.step, RunStep::Poll { console: None, client: None, millis: 10 }));
    assert!(turn.reconnect.is_none());
    let turn = run.step(&mut client, RunEvent::Polled { console: true, client: true });
    assert!(matches!(turn.step, RunStep::UpdateForwarding));
}

#[test]
fn an_answered_keepalive_keeps_the_socket() {
    let mut client = client(None);
    let (mut run, _) = client.run(None, false, 0);
    to_clock(&mut run, &mut client);
    let _ = run.step(&mut client, RunEvent::Clock { now: 6_000_000_000 });
    let _ = run.step(&mut client, RunEvent::Sent { now: 6_000_000_000 });
    let _ = run.step(&mut client, RunEvent::Forwarded { requests: vec![], data: vec![] });
    let _ = run.step(&mut client, RunEvent::Polled { console: false, client: true });
    let _ = run.step(&mut client, RunEvent::PacketRead { header: 0, buffer: None, forward: ForwardPacket::Other, now: 7_000_000_000 });
    let _ = run.step(&mut client, RunEvent::NothingRead);
    let turn = run.step(&mut client, RunEvent::Clock { now: 12_000_000_000 });
    assert!(turn.close.is_none());
    assert!(matches!(turn.step, RunStep::Send(Message::KeepAlive)));
}

#[test]
fn the_geometry_is_sent_when_it_changes() {
    let mut client = client(Some(0));
    let (mut run, _) = client.run(None, false, 0);
    to_clock(&mut run, &mut client);
    let turn = run.step(&mut client, RunEvent::Clock { now: 0 });
    assert!(matches!(turn.step, RunStep::QueryTerminal));
    let turn = run.step(&mut client, RunEvent::Terminal(TerminalInfo::with_size(24, 80)));
    match turn.step {
        RunStep::Send(Message::TerminalInfo(info)) => assert_eq!((info.row, info.column), (24, 80)),
        other => panic!("unexpected {:?}", other),
    }
    let turn = run.step(&mut client, RunEvent::Sent { now: 0 });
    assert!(matches!(turn.step, RunStep::UpdateForwarding));
    let _ = run.step(&mut client, RunEvent::Forwarded { requests: vec![], data: vec![] });
    to_clock(&mut run, &mut client);
    let _ = run.step(&mut client, RunEvent::Clock { now: 0 });
    let turn = run.step(&mut client, RunEvent::Terminal(TerminalInfo::with_size(24, 80)));
    assert!(matches!(turn.step, RunStep::UpdateForwarding));
}

#[test]
fn forwarded_messages_are_sent_in_order() {
    let mut client = client(None);
    let (mut run, _) = client.run(None, false, 0);
    to_clock(&mut run, &mut client);
    let _ = run.step(&mut client, RunEvent::Clock { now: 0 });
    let requests = vec![PortForwardDestinationRequest { destination: None, fd: 1 }];
    let data = vec![
        PortForwardData::for_read(true, 1, b"a".to_vec()),
        PortForwardData::for_read(true, 2, b"".to_vec()),
    ];
    let turn = run.step(&mut client, RunEvent::Forwarded { requests, data });
    assert!(matches!(turn.step, RunStep::Send(Message::DestinationRequest(_))));
    let turn = run.step(&mut client, RunEvent::Sent { now: 0 });
    match turn.step {
        RunStep::Send(Message::ForwardData(data)) => assert_eq!((data.socket_id, data.closed), (1, false)),
        other => panic!("unexpected {:?}", other),
    }
    let turn = run.step(&mut client, RunEvent::Sent { now: 0 });
    match turn.step {
        RunStep::Send(Message::ForwardData(data)) => assert_eq!((data.socket_id, data.closed), (2, true)),
        other => panic!("unexpected {:?}", other),
    }
    let turn = run.step(&mut client, RunEvent::Sent { now: 0 });
    assert!(is_poll(&turn));
}

#[test]
fn a_client_that_shuts_down_ends_its_session() {
    let mut client = client(None);
    let (mut run, _) = client.run(None, false, 0);
    client.shutdown();
    to_clock(&mut run, &mut client);
    let _ = run.step(&mut client, RunEvent::Clock { now: 0 });
    let turn = run.step(&mut client, RunEvent::Forwarded { requests: vec![], data: vec![] });
    assert!(matches!(turn.step, RunStep::Finished));
}
