//! Terminal client
//!
//! The course of an interactive session: how it is set up, and then what is sent, shown and
//! closed as input, packets and time go by. [`Setup`] and [`Run`] do no I/O: they say what to do
//! and are told what came of it.
use std::collections::VecDeque;
use vstd::prelude::*;
use vstd::slice::slice_to_vec;
use vstd::utf8::encode_utf8;

use crate::client_connection::{
    reconnection_view, ClientConnection, ClientView, Link, LinkStep, LinkStepView, LinkView,
};
use crate::error::{error_text, outcome_view, Error, ErrorView};
use crate::port_forward::{
    forward_kind, forward_kind_of, ForwardAction, ForwardActionView, ForwardPacket,
    ForwardPacketView, ForwardView, PortForwardHandler,
};
use crate::proto::{
    packet_type, terminal_packet_type, DestinationRequestView, DestinationResponseView,
    ForwardDataView, Message, MessageView, PortForwardData, PortForwardDestinationRequest,
    PortForwardDestinationResponse, PortForwardSourceRequest, SocketEndpoint, SocketEndpointView,
    SourceRequestView,
};
use crate::ssh_setup::{parse_tunnel_spec, tunnel_of, LOOPBACK};
use crate::terminal_info::{TerminalInfo, TerminalInfoView};
use crate::text::{is_empty, option_view, split, split_spec, trim, trim_spec, views};

verus! {

/// How many bytes of input are read at a time
pub const INPUT_BUFFER_SIZE: usize = 16384;

/// How long a round of a session waits for input, in milliseconds
pub const POLL_MILLIS: u16 = 10;

/// How long to wait between looks for the initial response, in milliseconds
pub const RESPONSE_WAIT_MILLIS: u64 = 100;

/// How often to look for the initial response
pub const RESPONSE_READS: u8 = 30;

/// Nanoseconds in a second
pub const NANOS_PER_SECOND: u128 = 1_000_000_000;

/// The request for a source that a tunnel specification stands for. The source is always on this
/// machine.
pub open spec fn tunnel_request(tunnel: Seq<char>) -> Option<SourceRequestView> {
    match tunnel_of(trim_spec(tunnel)) {
        Some((_, local_port, remote_host, remote_port)) => Some(
            SourceRequestView {
                source: Some(SocketEndpointView { name: LOOPBACK@, port: local_port as i32 }),
                destination: Some(
                    SocketEndpointView { name: remote_host, port: remote_port as i32 },
                ),
                environment_variable: Seq::empty(),
            },
        ),
        None => None,
    }
}

/// The requests for sources that tunnel specifications stand for. What cannot be read is passed
/// over.
pub open spec fn requests_of(tunnels: Seq<Seq<char>>) -> Seq<SourceRequestView>
    decreases tunnels.len(),
{
    if tunnels.len() == 0 {
        Seq::empty()
    } else {
        let before = requests_of(tunnels.drop_last());
        match tunnel_request(tunnels.last()) {
            Some(request) => before.push(request),
            None => before,
        }
    }
}

/// The requests for sources that tunnel specifications, separated by commas, stand for
pub fn tunnel_requests(tunnels: &str) -> (r: Vec<PortForwardSourceRequest>)
    ensures
        views(r@) == requests_of(split_spec(tunnels@, ',')),
{
    let parts = split(tunnels, ',');
    let ghost all = split_spec(tunnels@, ',');
    let mut requests: Vec<PortForwardSourceRequest> = Vec::new();
    assert(all.take(0) =~= Seq::<Seq<char>>::empty());
    assert(views(requests@) =~= Seq::<SourceRequestView>::empty());
    let mut i: usize = 0;
    while i < parts.len()
        invariant
            i <= parts.len(),
            parts@.len() == all.len(),
            forall|k: int| 0 <= k < parts@.len() ==> #[trigger] parts@[k]@ == all[k],
            views(requests@) == requests_of(all.take(i as int)),
        decreases parts.len() - i,
    {
        assert(all.take(i + 1).drop_last() =~= all.take(i as int));
        assert(all.take(i + 1).last() == parts@[i as int]@);
        match parse_tunnel_spec(trim(parts[i])) {
            Some((_, local_port, remote_host, remote_port)) => {
                let ghost before = requests@;
                let environment_variable = String::new();
                assert(environment_variable@ =~= Seq::<char>::empty());
                let request = PortForwardSourceRequest {
                    source: Some(
                        SocketEndpoint { name: LOOPBACK.to_owned(), port: local_port as i32 },
                    ),
                    destination: Some(
                        SocketEndpoint { name: remote_host, port: remote_port as i32 },
                    ),
                    environment_variable,
                };
                requests.push(request);
                assert(views(requests@) =~= views(before).push(request@));
            },
            None => (),
        }
        i = i + 1;
    }
    assert(all.take(i as int) =~= all);
    requests
}

/// Terminal client that manages the interactive session
pub struct TerminalClient {
    /// Client connection to the ET server
    pub connection: ClientConnection,
    /// Port forward handler
    pub port_forward_handler: PortForwardHandler,
    /// Descriptor of the console input, if there is a console
    pub console: Option<i32>,
    /// Flag that ends the run loop when set
    pub shutting_down: bool,
    /// Keepalive interval in seconds
    pub keepalive_duration: u64,
}

/// The state of a [`TerminalClient`].
pub struct TerminalClientView {
    pub connection: ClientView,
    pub forwarding: ForwardView,
    pub console: Option<i32>,
    pub shutting_down: bool,
    pub keepalive_duration: u64,
}

impl View for TerminalClient {
    type V = TerminalClientView;

    open spec fn view(&self) -> TerminalClientView {
        TerminalClientView {
            connection: self.connection@,
            forwarding: self.port_forward_handler@,
            console: self.console,
            shutting_down: self.shutting_down,
            keepalive_duration: self.keepalive_duration,
        }
    }
}

impl TerminalClientView {
    /// What holds of every client: its connection and its port forwarding are in order.
    pub open spec fn wf(self) -> bool {
        self.connection.connection.wf() && self.forwarding.wf()
    }

    /// Whether the session is to end.
    pub open spec fn is_ending(self) -> bool {
        self.connection.connection.shutting_down || self.shutting_down
    }
}

impl TerminalClient {
    /// Creates a new terminal client
    pub fn new(
        connection: ClientConnection,
        port_forward_handler: PortForwardHandler,
        console: Option<i32>,
        keepalive_duration: u64,
    ) -> (r: TerminalClient)
        ensures
            r@ == (TerminalClientView {
                connection: connection@,
                forwarding: port_forward_handler@,
                console,
                shutting_down: false,
                keepalive_duration,
            }),
            connection@.connection.wf() && port_forward_handler@.wf() ==> r@.wf(),
    {
        TerminalClient {
            connection,
            port_forward_handler,
            console,
            shutting_down: false,
            keepalive_duration,
        }
    }

    /// Starts the interactive session, with a command to be typed first if there is one
    pub fn run(&mut self, command: Option<&str>, noexit: bool, now: u64) -> (r: (Run, Turn))
        ensures
            (r.0@, final(self)@, r.1@) == RunView::begun(
                old(self)@,
                match command {
                    Some(command) => Some(command@),
                    None => None,
                },
                noexit,
                now,
            ),
            old(self)@.wf() ==> final(self)@.wf(),
    {
        let mut run = Run {
            stage: RunStage::Commanding,
            client_fd: crate::NO_SOCKET,
            client_readable: false,
            keepalive_time: 0,
            waiting_on_keepalive: false,
            last_terminal_info: TerminalInfo::default(),
            queue: VecDeque::new(),
        };
        run.put_off(self, now);
        assert(run@.queue =~= Seq::empty());
        let mut turn = match command {
            Some(command) => plain(
                RunStep::Send(Message::TerminalBuffer(command_bytes(command, noexit))),
            ),
            None => run.round(self),
        };
        let ghost begun = (run@, self@, turn@);
        turn.seek(self);
        assert((run@, self@, turn@) == sought(begun));
        (run, turn)
    }

    /// Signals the client to shutdown
    pub fn shutdown(&mut self)
        ensures
            final(self)@ == (TerminalClientView { shutting_down: true, ..old(self)@ }),
    {
        self.shutting_down = true;
    }
}

/// Why a session could not be set up
#[derive(Debug)]
pub enum SetupError {
    /// There is no connection
    Refused(String),
    /// The server does not want the session
    Other(String),
}

/// What a [`SetupError`] says.
pub enum SetupErrorView {
    Refused(Seq<char>),
    Other(Seq<char>),
}

impl View for SetupError {
    type V = SetupErrorView;

    open spec fn view(&self) -> SetupErrorView {
        match *self {
            SetupError::Refused(text) => SetupErrorView::Refused(text@),
            SetupError::Other(text) => SetupErrorView::Other(text@),
        }
    }
}

/// The view of how a setup ended.
pub open spec fn setup_view(r: Result<(), SetupError>) -> Result<(), SetupErrorView> {
    match r {
        Ok(_) => Ok(()),
        Err(e) => Err(e@),
    }
}

/// What came of the latest step of a setup
#[derive(Debug)]
pub enum SetupEvent {
    /// The connection is up, or not
    Connected(Result<bool, Error>),
    /// The message was sent
    Sent,
    /// The wait is over
    Slept,
    /// No packet could be read
    NothingRead,
    /// A packet was read: its type, and the error that it gives where it can be read as an
    /// initial response
    PacketRead { header: u8, response_error: Option<String> },
}

/// What a [`SetupEvent`] says.
pub enum SetupEventView {
    Connected(Result<bool, ErrorView>),
    Sent,
    Slept,
    NothingRead,
    PacketRead { header: u8, response_error: Option<Seq<char>> },
}

impl View for SetupEvent {
    type V = SetupEventView;

    open spec fn view(&self) -> SetupEventView {
        match *self {
            SetupEvent::Connected(r) => SetupEventView::Connected(outcome_view(r)),
            SetupEvent::Sent => SetupEventView::Sent,
            SetupEvent::Slept => SetupEventView::Slept,
            SetupEvent::NothingRead => SetupEventView::NothingRead,
            SetupEvent::PacketRead { header, response_error } => SetupEventView::PacketRead {
                header,
                response_error: option_view(response_error),
            },
        }
    }
}

/// What a setup needs next
#[derive(Debug)]
pub enum SetupStep {
    /// The connection is to be established
    Connect,
    /// A message is to be sent
    Send(Message),
    /// Some time is to pass
    Sleep { millis: u64 },
    /// A packet is to be read
    Read,
    /// The setup is over
    Finished(Result<(), SetupError>),
}

/// What a [`SetupStep`] says.
pub enum SetupStepView {
    Connect,
    Send(MessageView),
    Sleep { millis: u64 },
    Read,
    Finished(Result<(), SetupErrorView>),
}

impl View for SetupStep {
    type V = SetupStepView;

    open spec fn view(&self) -> SetupStepView {
        match *self {
            SetupStep::Connect => SetupStepView::Connect,
            SetupStep::Send(message) => SetupStepView::Send(message@),
            SetupStep::Sleep { millis } => SetupStepView::Sleep { millis },
            SetupStep::Read => SetupStepView::Read,
            SetupStep::Finished(r) => SetupStepView::Finished(setup_view(r)),
        }
    }
}

/// How far a setup has come
#[derive(Debug, Clone, Copy, PartialEq, Eq, Structural)]
pub enum SetupStage {
    /// The connection is being established
    Connecting,
    /// The initial payload is being sent
    SendingPayload,
    /// The next look for the initial response is awaited
    Waiting,
    /// A packet is being read
    Reading,
    /// The setup is over
    Over,
}

/// The setup of a session: the connection, what the client tells the server first, and the
/// answer to that
#[derive(Debug)]
pub struct Setup {
    stage: SetupStage,
    jumphost: bool,
    reads: u8,
}

/// The state of a [`Setup`].
pub struct SetupView {
    /// How far it has come
    pub stage: SetupStage,
    /// Whether the client goes through a jump host
    pub jumphost: bool,
    /// How often it has looked for the initial response
    pub reads: u8,
}

impl View for Setup {
    type V = SetupView;

    closed spec fn view(&self) -> SetupView {
        SetupView { stage: self.stage, jumphost: self.jumphost, reads: self.reads }
    }
}

impl SetupView {
    /// What holds of every setup.
    pub open spec fn wf(self) -> bool {
        &&& self.reads <= RESPONSE_READS
        &&& self.stage == SetupStage::Reading ==> self.reads < RESPONSE_READS
    }

    /// Whether the setup waits for `event`.
    pub open spec fn awaits(self, event: SetupEventView) -> bool {
        match self.stage {
            SetupStage::Connecting => event is Connected,
            SetupStage::SendingPayload => event is Sent,
            SetupStage::Waiting => event is Slept,
            SetupStage::Reading => event is NothingRead || event is PacketRead,
            SetupStage::Over => false,
        }
    }

    /// The setup at another stage.
    pub open spec fn at(self, stage: SetupStage) -> SetupView {
        SetupView { stage, ..self }
    }

    /// The end of a setup.
    pub open spec fn finished(self, result: Result<(), SetupErrorView>) -> (
        SetupView,
        SetupStepView,
    ) {
        (self.at(SetupStage::Over), SetupStepView::Finished(result))
    }

    /// What follows from a look for the initial response that did not find it.
    pub open spec fn not_found(self) -> (SetupView, SetupStepView) {
        (
            SetupView { stage: SetupStage::Waiting, reads: (self.reads + 1) as u8, ..self },
            SetupStepView::Sleep { millis: RESPONSE_WAIT_MILLIS },
        )
    }

    /// The next state of the setup, and what is needed next. A server that gives no initial
    /// response in time is taken to agree.
    pub open spec fn next(self, event: SetupEventView) -> (SetupView, SetupStepView) {
        match event {
            SetupEventView::Connected(Ok(true)) => (
                self.at(SetupStage::SendingPayload),
                SetupStepView::Send(MessageView::InitialPayload { jumphost: self.jumphost }),
            ),
            SetupEventView::Connected(Ok(false)) => self.finished(
                Err(SetupErrorView::Refused("Failed to connect"@)),
            ),
            SetupEventView::Connected(Err(e)) => self.finished(
                Err(SetupErrorView::Refused(error_text(e))),
            ),
            SetupEventView::Sent => (
                self.at(SetupStage::Waiting),
                SetupStepView::Sleep { millis: RESPONSE_WAIT_MILLIS },
            ),
            SetupEventView::Slept => if self.reads >= RESPONSE_READS {
                self.finished(Ok(()))
            } else {
                (self.at(SetupStage::Reading), SetupStepView::Read)
            },
            SetupEventView::NothingRead => self.not_found(),
            SetupEventView::PacketRead { header, response_error } => match response_error {
                Some(error) => if header != packet_type::INITIAL_RESPONSE {
                    self.not_found()
                } else if error.len() > 0 {
                    self.finished(
                        Err(SetupErrorView::Other("Initial response error: "@ + error)),
                    )
                } else {
                    self.finished(Ok(()))
                },
                None => self.not_found(),
            },
        }
    }
}

impl Setup {
    /// Starts to set a session up
    pub fn begin(jumphost: bool) -> (r: (Setup, SetupStep))
        ensures
            r.0@ == (SetupView { stage: SetupStage::Connecting, jumphost, reads: 0 }),
            r.0@.wf(),
            r.1@ == SetupStepView::Connect,
    {
        (Setup { stage: SetupStage::Connecting, jumphost, reads: 0 }, SetupStep::Connect)
    }

    fn finish(&mut self, result: Result<(), SetupError>) -> (r: SetupStep)
        ensures
            (final(self)@, r@) == old(self)@.finished(setup_view(result)),
    {
        self.stage = SetupStage::Over;
        SetupStep::Finished(result)
    }

    fn look_again(&mut self) -> (r: SetupStep)
        requires
            old(self)@.reads < RESPONSE_READS,
        ensures
            (final(self)@, r@) == old(self)@.not_found(),
    {
        self.stage = SetupStage::Waiting;
        self.reads = self.reads + 1;
        SetupStep::Sleep { millis: RESPONSE_WAIT_MILLIS }
    }

    /// Goes on with the setup
    pub fn step(&mut self, event: SetupEvent) -> (r: SetupStep)
        requires
            old(self)@.wf(),
            old(self)@.awaits(event@),
        ensures
            (final(self)@, r@) == old(self)@.next(event@),
            final(self)@.wf(),
    {
        match event {
            SetupEvent::Connected(Ok(true)) => {
                self.stage = SetupStage::SendingPayload;
                SetupStep::Send(Message::InitialPayload { jumphost: self.jumphost })
            },
            SetupEvent::Connected(Ok(false)) => self.finish(
                Err(SetupError::Refused("Failed to connect".to_owned())),
            ),
            SetupEvent::Connected(Err(e)) => self.finish(Err(SetupError::Refused(e.to_string()))),
            SetupEvent::Sent => {
                self.stage = SetupStage::Waiting;
                SetupStep::Sleep { millis: RESPONSE_WAIT_MILLIS }
            },
            SetupEvent::Slept => {
                if self.reads >= RESPONSE_READS {
                    self.finish(Ok(()))
                } else {
                    self.stage = SetupStage::Reading;
                    SetupStep::Read
                }
            },
            SetupEvent::NothingRead => self.look_again(),
            SetupEvent::PacketRead { header, response_error } => match response_error {
                Some(error) => {
                    if header != packet_type::INITIAL_RESPONSE {
                        self.look_again()
                    } else if !is_empty(error.as_str()) {
                        let mut text = "Initial response error: ".to_owned();
                        text.append(error.as_str());
                        self.finish(Err(SetupError::Other(text)))
                    } else {
                        self.finish(Ok(()))
                    }
                },
                None => self.look_again(),
            },
        }
    }
}

/// The text that is typed into the terminal for a command: the shell exits after it unless it is
/// to stay.
pub open spec fn command_text(command: Seq<char>, noexit: bool) -> Seq<char> {
    if noexit {
        command + "\n"@
    } else {
        command + "; exit\n"@
    }
}

/// The bytes that are typed into the terminal for a command
pub fn command_bytes(command: &str, noexit: bool) -> (r: Vec<u8>)
    ensures
        r@ == encode_utf8(command_text(command@, noexit)),
{
    let mut text = command.to_owned();
    if noexit {
        text.append("\n");
    } else {
        text.append("; exit\n");
    }
    slice_to_vec(text.as_str().as_bytes())
}

/// How far a round of a session has come
#[derive(Debug, Clone, Copy, PartialEq, Eq, Structural)]
pub enum RunStage {
    /// The initial command is being sent
    Commanding,
    /// Input is awaited
    Polling,
    /// The console is being read
    ReadingConsole,
    /// Console input is being sent
    SendingInput,
    /// Packets are being read
    ReadingServer,
    /// The destination of a request is being created
    AwaitingDestination,
    /// The answer to a request for a destination is being sent
    SendingResponse,
    /// The clock is being read
    CheckingClock,
    /// A keepalive is being sent
    SendingKeepalive,
    /// The geometry of the console is being read
    QueryingTerminal,
    /// The geometry of the console is being sent
    SendingTerminal,
    /// Port forwarding is being updated
    UpdatingForwarding,
    /// Port forwarding messages are being sent
    SendingForwarded,
    /// The session is over
    Over,
}

/// An interactive session under way
pub struct Run {
    stage: RunStage,
    client_fd: i32,
    client_readable: bool,
    keepalive_time: u128,
    waiting_on_keepalive: bool,
    last_terminal_info: TerminalInfo,
    queue: VecDeque<Message>,
}

/// The state of a [`Run`].
pub struct RunView {
    /// How far the round has come
    pub stage: RunStage,
    /// The socket of the connection at the start of the round
    pub client_fd: i32,
    /// Whether the socket has data in this round
    pub client_readable: bool,
    /// When a keepalive is due, in nanoseconds
    pub keepalive_time: int,
    /// Whether the latest keepalive has not been answered
    pub waiting_on_keepalive: bool,
    /// The geometry of the console that the server knows
    pub last_terminal_info: TerminalInfoView,
    /// Port forwarding messages that are still to be sent
    pub queue: Seq<MessageView>,
}

impl View for Run {
    type V = RunView;

    closed spec fn view(&self) -> RunView {
        RunView {
            stage: self.stage,
            client_fd: self.client_fd,
            client_readable: self.client_readable,
            keepalive_time: self.keepalive_time as int,
            waiting_on_keepalive: self.waiting_on_keepalive,
            last_terminal_info: self.last_terminal_info@,
            queue: views(self.queue@),
        }
    }
}

/// What came of the latest step of a session
#[derive(Debug)]
pub enum RunEvent {
    /// The message was sent, and the time after that
    Sent { now: u64 },
    /// What has input
    Polled { console: bool, client: bool },
    /// What was read of the console, if anything
    ConsoleRead(Option<Vec<u8>>),
    /// No packet could be read
    NothingRead,
    /// A packet was read: its type, the data that it holds where it can be read as terminal
    /// data, the message that it holds where it is about port forwarding, and the time
    PacketRead { header: u8, buffer: Option<Vec<u8>>, forward: ForwardPacket, now: u64 },
    /// The destination was created, or not
    DestinationCreated(PortForwardDestinationResponse),
    /// The time
    Clock { now: u64 },
    /// The geometry of the console
    Terminal(TerminalInfo),
    /// What port forwarding has for the other end
    Forwarded { requests: Vec<PortForwardDestinationRequest>, data: Vec<PortForwardData> },
}

/// What a [`RunEvent`] says.
pub enum RunEventView {
    Sent { now: u64 },
    Polled { console: bool, client: bool },
    ConsoleRead(Option<Seq<u8>>),
    NothingRead,
    PacketRead { header: u8, buffer: Option<Seq<u8>>, forward: ForwardPacketView, now: u64 },
    DestinationCreated(DestinationResponseView),
    Clock { now: u64 },
    Terminal(TerminalInfoView),
    Forwarded { requests: Seq<DestinationRequestView>, data: Seq<ForwardDataView> },
}

impl View for RunEvent {
    type V = RunEventView;

    open spec fn view(&self) -> RunEventView {
        match *self {
            RunEvent::Sent { now } => RunEventView::Sent { now },
            RunEvent::Polled { console, client } => RunEventView::Polled { console, client },
            RunEvent::ConsoleRead(data) => RunEventView::ConsoleRead(option_view(data)),
            RunEvent::NothingRead => RunEventView::NothingRead,
            RunEvent::PacketRead { header, buffer, forward, now } => RunEventView::PacketRead {
                header,
                buffer: option_view(buffer),
                forward: forward@,
                now,
            },
            RunEvent::DestinationCreated(response) => RunEventView::DestinationCreated(response@),
            RunEvent::Clock { now } => RunEventView::Clock { now },
            RunEvent::Terminal(info) => RunEventView::Terminal(info@),
            RunEvent::Forwarded { requests, data } => RunEventView::Forwarded {
                requests: views(requests@),
                data: views(data@),
            },
        }
    }
}

/// What a session needs next
#[derive(Debug)]
pub enum RunStep {
    /// Input of the console, where it is asked for, and of the socket is to be awaited
    Poll { console: Option<i32>, client: Option<i32>, millis: u16 },
    /// The console is to be read
    ReadConsole { fd: i32, count: usize },
    /// A message is to be sent
    Send(Message),
    /// A packet is to be read if there is data
    ReadServer,
    /// The answer to the request for a destination, which is to be created, is awaited
    AwaitDestination,
    /// The clock is to be read
    CheckClock,
    /// The geometry of the console is to be read
    QueryTerminal,
    /// Port forwarding is to be updated
    UpdateForwarding,
    /// The session is over
    Finished,
}

/// What a [`RunStep`] says.
pub enum RunStepView {
    Poll { console: Option<i32>, client: Option<i32>, millis: u16 },
    ReadConsole { fd: i32, count: usize },
    Send(MessageView),
    ReadServer,
    AwaitDestination,
    CheckClock,
    QueryTerminal,
    UpdateForwarding,
    Finished,
}

impl View for RunStep {
    type V = RunStepView;

    open spec fn view(&self) -> RunStepView {
        match *self {
            RunStep::Poll { console, client, millis } => RunStepView::Poll {
                console,
                client,
                millis,
            },
            RunStep::ReadConsole { fd, count } => RunStepView::ReadConsole { fd, count },
            RunStep::Send(message) => RunStepView::Send(message@),
            RunStep::ReadServer => RunStepView::ReadServer,
            RunStep::AwaitDestination => RunStepView::AwaitDestination,
            RunStep::CheckClock => RunStepView::CheckClock,
            RunStep::QueryTerminal => RunStepView::QueryTerminal,
            RunStep::UpdateForwarding => RunStepView::UpdateForwarding,
            RunStep::Finished => RunStepView::Finished,
        }
    }
}

/// What is to be done in a session: first the output is shown, port forwarding served, the socket
/// closed and the reconnection set going beside the session, then comes the step
#[derive(Debug)]
pub struct Turn {
    /// Output for the console
    pub output: Option<Vec<u8>>,
    /// What is to be done for port forwarding
    pub forward: ForwardAction,
    /// A socket to be closed
    pub close: Option<i32>,
    /// A reconnection to be carried out
    pub reconnect: Option<(Link, LinkStep)>,
    /// What is needed next
    pub step: RunStep,
}

/// What a [`Turn`] says.
pub struct TurnView {
    pub output: Option<Seq<u8>>,
    pub forward: ForwardActionView,
    pub close: Option<i32>,
    pub reconnect: Option<(LinkView, LinkStepView)>,
    pub step: RunStepView,
}

impl View for Turn {
    type V = TurnView;

    open spec fn view(&self) -> TurnView {
        TurnView {
            output: option_view(self.output),
            forward: self.forward@,
            close: self.close,
            reconnect: reconnection_view(self.reconnect),
            step: self.step@,
        }
    }
}

/// A turn with nothing but a step.
pub open spec fn just(step: RunStepView) -> TurnView {
    TurnView {
        output: None,
        forward: ForwardActionView::Nothing,
        close: None,
        reconnect: None,
        step,
    }
}

/// What is to be done in a session, and a reconnection besides where the socket is lost, unless
/// the session is to end.
pub open spec fn sought(result: (RunView, TerminalClientView, TurnView)) -> (
    RunView,
    TerminalClientView,
    TurnView,
) {
    let (run, client, turn) = result;
    if turn.reconnect is Some || client.is_ending() {
        result
    } else {
        let (connection, reconnect) = client.connection.kept_connected();
        (run, TerminalClientView { connection, ..client }, TurnView { reconnect, ..turn })
    }
}

/// When a keepalive is due that is put off at the time `now`.
pub open spec fn deadline(client: TerminalClientView, now: u64) -> int {
    now + client.keepalive_duration * NANOS_PER_SECOND
}

/// The descriptor, if it is one.
pub open spec fn valid(fd: Option<i32>) -> Option<i32> {
    match fd {
        Some(fd) => if fd >= 0 {
            Some(fd)
        } else {
            None
        },
        None => None,
    }
}

/// The messages for some requests.
pub open spec fn request_messages(requests: Seq<DestinationRequestView>) -> Seq<MessageView> {
    Seq::new(requests.len(), |i: int| MessageView::DestinationRequest(requests[i]))
}

/// The messages for some forwarded data.
pub open spec fn data_messages(data: Seq<ForwardDataView>) -> Seq<MessageView> {
    Seq::new(data.len(), |i: int| MessageView::ForwardData(data[i]))
}

impl RunView {
    /// The session before its first round.
    pub open spec fn start(client: TerminalClientView, now: u64) -> RunView {
        RunView {
            stage: RunStage::Commanding,
            client_fd: crate::NO_SOCKET,
            client_readable: false,
            keepalive_time: deadline(client, now),
            waiting_on_keepalive: false,
            last_terminal_info: TerminalInfoView::sized(0, 0),
            queue: Seq::empty(),
        }
    }

    /// The start of a session, with a command to be sent first if there is one.
    pub open spec fn begun(
        client: TerminalClientView,
        command: Option<Seq<char>>,
        noexit: bool,
        now: u64,
    ) -> (RunView, TerminalClientView, TurnView) {
        let run = RunView::start(client, now);
        sought(
            match command {
                Some(command) => (
                    run,
                    client,
                    just(
                        RunStepView::Send(
                            MessageView::TerminalBuffer(encode_utf8(command_text(command, noexit))),
                        ),
                    ),
                ),
                None => run.round(client),
            },
        )
    }

    /// Whether the session waits for `event`.
    pub open spec fn awaits(self, event: RunEventView) -> bool {
        match self.stage {
            RunStage::Commanding
            | RunStage::SendingInput
            | RunStage::SendingResponse
            | RunStage::SendingKeepalive
            | RunStage::SendingTerminal
            | RunStage::SendingForwarded => event is Sent,
            RunStage::Polling => event is Polled,
            RunStage::ReadingConsole => event is ConsoleRead,
            RunStage::ReadingServer => event is NothingRead || event is PacketRead,
            RunStage::AwaitingDestination => event is DestinationCreated,
            RunStage::CheckingClock => event is Clock,
            RunStage::QueryingTerminal => event is Terminal,
            RunStage::UpdatingForwarding => event is Forwarded,
            RunStage::Over => false,
        }
    }

    /// The session at another stage.
    pub open spec fn at(self, stage: RunStage) -> RunView {
        RunView { stage, ..self }
    }

    /// The session with the keepalive put off.
    pub open spec fn put_off(self, client: TerminalClientView, now: u64) -> RunView {
        RunView { keepalive_time: deadline(client, now), ..self }
    }

    /// The start of a round, unless the session is to end.
    pub open spec fn round(self, client: TerminalClientView) -> (
        RunView,
        TerminalClientView,
        TurnView,
    ) {
        if client.is_ending() {
            (self.at(RunStage::Over), client, just(RunStepView::Finished))
        } else {
            let fd = client.connection.connection.fd;
            (
                RunView { client_fd: fd, ..self.at(RunStage::Polling) },
                client,
                just(
                    RunStepView::Poll {
                        console: valid(client.console),
                        client: valid(Some(fd)),
                        millis: POLL_MILLIS,
                    },
                ),
            )
        }
    }

    /// The part of a round in which packets are read.
    pub open spec fn server_part(self, client: TerminalClientView) -> (RunView, TurnView) {
        if self.client_readable {
            (self.at(RunStage::ReadingServer), just(RunStepView::ReadServer))
        } else {
            self.keepalive_part(client)
        }
    }

    /// The part of a round in which the connection is kept alive. Without a socket no answer is
    /// awaited.
    pub open spec fn keepalive_part(self, client: TerminalClientView) -> (RunView, TurnView) {
        if self.client_fd >= 0 {
            (self.at(RunStage::CheckingClock), just(RunStepView::CheckClock))
        } else {
            (RunView { waiting_on_keepalive: false, ..self }).terminal_part(client)
        }
    }

    /// The part of a round in which the geometry of the console is looked at.
    pub open spec fn terminal_part(self, client: TerminalClientView) -> (RunView, TurnView) {
        if client.console is Some {
            (self.at(RunStage::QueryingTerminal), just(RunStepView::QueryTerminal))
        } else {
            self.forwarding_part()
        }
    }

    /// The part of a round in which port forwarding is updated.
    pub open spec fn forwarding_part(self) -> (RunView, TurnView) {
        (self.at(RunStage::UpdatingForwarding), just(RunStepView::UpdateForwarding))
    }

    /// The next port forwarding message is sent, or else comes the next round.
    pub open spec fn queue_part(self, client: TerminalClientView) -> (
        RunView,
        TerminalClientView,
        TurnView,
    ) {
        if self.queue.len() > 0 {
            (
                RunView { queue: self.queue.skip(1), ..self.at(RunStage::SendingForwarded) },
                client,
                just(RunStepView::Send(self.queue[0])),
            )
        } else {
            self.round(client)
        }
    }

    /// What follows once a message was sent.
    pub open spec fn after_sending(self, client: TerminalClientView, now: u64) -> (
        RunView,
        TerminalClientView,
        TurnView,
    ) {
        match self.stage {
            RunStage::Commanding => self.round(client),
            RunStage::SendingInput => {
                let (run, turn) = self.put_off(client, now).server_part(client);
                (run, client, turn)
            },
            RunStage::SendingResponse => (
                self.at(RunStage::ReadingServer),
                client,
                just(RunStepView::ReadServer),
            ),
            RunStage::SendingKeepalive => {
                let (run, turn) = (RunView {
                    waiting_on_keepalive: true,
                    ..self
                }).terminal_part(client);
                (run, client, turn)
            },
            RunStage::SendingTerminal => {
                let (run, turn) = self.forwarding_part();
                (run, client, turn)
            },
            _ => self.put_off(client, now).queue_part(client),
        }
    }

    /// What a packet about port forwarding leads to: it is handled, and puts the keepalive off.
    /// A destination that is to be created is awaited.
    pub open spec fn after_forward_packet(
        self,
        client: TerminalClientView,
        packet: ForwardPacketView,
        now: u64,
    ) -> (RunView, TerminalClientView, TurnView) {
        let (forwarding, forward) = client.forwarding.handled(packet);
        let run = self.put_off(client, now);
        let after = TerminalClientView { forwarding, ..client };
        if forward is CreateDestination {
            (
                run.at(RunStage::AwaitingDestination),
                after,
                TurnView { forward, ..just(RunStepView::AwaitDestination) },
            )
        } else {
            (run, after, TurnView { forward, ..just(RunStepView::ReadServer) })
        }
    }

    /// What any other packet leads to: terminal data puts the keepalive off, and the answer to a
    /// keepalive is no longer awaited.
    pub open spec fn after_packet(
        self,
        client: TerminalClientView,
        header: u8,
        buffer: Option<Seq<u8>>,
        now: u64,
    ) -> (RunView, TurnView) {
        let stay = just(RunStepView::ReadServer);
        if header == terminal_packet_type::TERMINAL_BUFFER {
            if client.console is Some && buffer is Some {
                (self.put_off(client, now), TurnView { output: buffer, ..stay })
            } else {
                (self, stay)
            }
        } else if header == terminal_packet_type::KEEP_ALIVE {
            (RunView { waiting_on_keepalive: false, ..self }, stay)
        } else {
            (self, stay)
        }
    }

    /// What the time leads to: once a keepalive is due, it is sent, or the socket is given up
    /// for a new one where the one before was not answered.
    pub open spec fn after_clock(self, client: TerminalClientView, now: u64) -> (
        RunView,
        TerminalClientView,
        TurnView,
    ) {
        if now <= self.keepalive_time {
            let (run, turn) = self.terminal_part(client);
            (run, client, turn)
        } else if self.waiting_on_keepalive {
            let (connection, close, reconnection) = client.connection.given_up();
            let after = TerminalClientView { connection, ..client };
            let (run, turn) = (RunView {
                waiting_on_keepalive: false,
                ..self.put_off(client, now)
            }).terminal_part(after);
            (run, after, TurnView { close, reconnect: Some(reconnection), ..turn })
        } else {
            (
                self.put_off(client, now).at(RunStage::SendingKeepalive),
                client,
                just(RunStepView::Send(MessageView::KeepAlive)),
            )
        }
    }

    /// The next state of the session and of its client, and what is to be done. A socket that is
    /// lost is sought again at once.
    pub open spec fn next(self, client: TerminalClientView, event: RunEventView) -> (
        RunView,
        TerminalClientView,
        TurnView,
    ) {
        sought(self.responded(client, event))
    }

    /// What an event leads to in the session itself.
    pub open spec fn responded(self, client: TerminalClientView, event: RunEventView) -> (
        RunView,
        TerminalClientView,
        TurnView,
    ) {
        match event {
            RunEventView::Sent { now } => self.after_sending(client, now),
            RunEventView::Polled { console, client: client_input } => {
                let polled = RunView {
                    client_readable: client_input && self.client_fd >= 0,
                    ..self
                };
                let (run, turn) = match valid(client.console) {
                    Some(fd) => if console {
                        (
                            polled.at(RunStage::ReadingConsole),
                            just(RunStepView::ReadConsole { fd, count: INPUT_BUFFER_SIZE }),
                        )
                    } else {
                        polled.server_part(client)
                    },
                    None => polled.server_part(client),
                };
                (run, client, turn)
            },
            RunEventView::ConsoleRead(Some(data)) => (
                self.at(RunStage::SendingInput),
                client,
                just(RunStepView::Send(MessageView::TerminalBuffer(data))),
            ),
            RunEventView::ConsoleRead(None) => {
                let (run, turn) = self.server_part(client);
                (run, client, turn)
            },
            RunEventView::NothingRead => {
                let (run, turn) = self.keepalive_part(client);
                (run, client, turn)
            },
            RunEventView::PacketRead { header, buffer, forward, now } => if forward_kind_of(
                header,
            ) is Some {
                self.after_forward_packet(client, forward, now)
            } else {
                let (run, turn) = self.after_packet(client, header, buffer, now);
                (run, client, turn)
            },
            RunEventView::DestinationCreated(response) => (
                self.at(RunStage::SendingResponse),
                client,
                just(RunStepView::Send(MessageView::DestinationResponse(response))),
            ),
            RunEventView::Clock { now } => self.after_clock(client, now),
            RunEventView::Terminal(info) => if info == self.last_terminal_info {
                let (run, turn) = self.forwarding_part();
                (run, client, turn)
            } else {
                (
                    RunView {
                        last_terminal_info: info,
                        ..self.at(RunStage::SendingTerminal)
                    },
                    client,
                    just(RunStepView::Send(MessageView::TerminalInfo(info))),
                )
            },
            RunEventView::Forwarded { requests, data } => (RunView {
                queue: request_messages(requests) + data_messages(data),
                ..self
            }).queue_part(client),
        }
    }
}

fn plain(step: RunStep) -> (r: Turn)
    ensures
        r@ == just(step@),
{
    Turn { output: None, forward: ForwardAction::Nothing, close: None, reconnect: None, step }
}

fn valid_fd(fd: Option<i32>) -> (r: Option<i32>)
    ensures
        r == valid(fd),
{
    match fd {
        Some(fd) => if fd >= 0 {
            Some(fd)
        } else {
            None
        },
        None => None,
    }
}

impl Turn {
    /// Starts to reconnect besides where the socket is lost, unless the session is to end.
    fn seek(&mut self, client: &mut TerminalClient)
        ensures
            forall|run: RunView|
                (run, final(client)@, final(self)@) == #[trigger] sought(
                    (run, old(client)@, old(self)@),
                ),
            old(client)@.wf() ==> final(client)@.wf(),
    {
        if self.reconnect.is_none() && !client.connection.is_shutting_down()
            && !client.shutting_down {
            self.reconnect = client.connection.keep_connected();
        }
    }
}

impl Run {
    fn put_off(&mut self, client: &TerminalClient, now: u64)
        ensures
            final(self)@ == old(self)@.put_off(client@, now),
    {
        assert(client.keepalive_duration * NANOS_PER_SECOND <= u64::MAX * NANOS_PER_SECOND)
            by (nonlinear_arith)
            requires
                client.keepalive_duration <= u64::MAX,
                NANOS_PER_SECOND >= 0,
        ;
        self.keepalive_time = now as u128 + client.keepalive_duration as u128 * NANOS_PER_SECOND;
    }

    fn round(&mut self, client: &TerminalClient) -> (r: Turn)
        ensures
            (final(self)@, client@, r@) == old(self)@.round(client@),
    {
        if client.connection.is_shutting_down() || client.shutting_down {
            self.stage = RunStage::Over;
            return plain(RunStep::Finished);
        }
        self.client_fd = client.connection.socket_fd();
        self.stage = RunStage::Polling;
        plain(
            RunStep::Poll {
                console: valid_fd(client.console),
                client: valid_fd(Some(self.client_fd)),
                millis: POLL_MILLIS,
            },
        )
    }

    fn server_part(&mut self, client: &TerminalClient) -> (r: Turn)
        ensures
            (final(self)@, r@) == old(self)@.server_part(client@),
    {
        if self.client_readable {
            self.stage = RunStage::ReadingServer;
            plain(RunStep::ReadServer)
        } else {
            self.keepalive_part(client)
        }
    }

    fn keepalive_part(&mut self, client: &TerminalClient) -> (r: Turn)
        ensures
            (final(self)@, r@) == old(self)@.keepalive_part(client@),
    {
        if self.client_fd >= 0 {
            self.stage = RunStage::CheckingClock;
            plain(RunStep::CheckClock)
        } else {
            self.waiting_on_keepalive = false;
            self.terminal_part(client)
        }
    }

    fn terminal_part(&mut self, client: &TerminalClient) -> (r: Turn)
        ensures
            (final(self)@, r@) == old(self)@.terminal_part(client@),
    {
        if client.console.is_some() {
            self.stage = RunStage::QueryingTerminal;
            plain(RunStep::QueryTerminal)
        } else {
            self.forwarding_part()
        }
    }

    fn forwarding_part(&mut self) -> (r: Turn)
        ensures
            (final(self)@, r@) == old(self)@.forwarding_part(),
    {
        self.stage = RunStage::UpdatingForwarding;
        plain(RunStep::UpdateForwarding)
    }

    fn queue_part(&mut self, client: &TerminalClient) -> (r: Turn)
        ensures
            (final(self)@, client@, r@) == old(self)@.queue_part(client@),
    {
        match self.queue.pop_front() {
            Some(message) => {
                self.stage = RunStage::SendingForwarded;
                assert(views(self.queue@) =~= views(old(self).queue@).skip(1));
                plain(RunStep::Send(message))
            },
            None => self.round(client),
        }
    }

    fn sent(&mut self, client: &TerminalClient, now: u64) -> (r: Turn)
        ensures
            (final(self)@, client@, r@) == old(self)@.after_sending(client@, now),
    {
        match self.stage {
            RunStage::Commanding => self.round(client),
            RunStage::SendingInput => {
                self.put_off(client, now);
                self.server_part(client)
            },
            RunStage::SendingResponse => {
                self.stage = RunStage::ReadingServer;
                plain(RunStep::ReadServer)
            },
            RunStage::SendingKeepalive => {
                self.waiting_on_keepalive = true;
                self.terminal_part(client)
            },
            RunStage::SendingTerminal => self.forwarding_part(),
            _ => {
                self.put_off(client, now);
                self.queue_part(client)
            },
        }
    }

    fn forward_packet_read(
        &mut self,
        client: &mut TerminalClient,
        packet: ForwardPacket,
        now: u64,
    ) -> (r: Turn)
        requires
            old(client)@.wf(),
        ensures
            (final(self)@, final(client)@, r@) == old(self)@.after_forward_packet(
                old(client)@,
                packet@,
                now,
            ),
            final(client)@.wf(),
    {
        self.put_off(client, now);
        let action = client.port_forward_handler.handle_packet(packet);
        let creates = match &action {
            ForwardAction::CreateDestination(_) => true,
            _ => false,
        };
        let mut turn = if creates {
            self.stage = RunStage::AwaitingDestination;
            plain(RunStep::AwaitDestination)
        } else {
            plain(RunStep::ReadServer)
        };
        turn.forward = action;
        turn
    }

    fn packet_read(
        &mut self,
        client: &TerminalClient,
        header: u8,
        buffer: Option<Vec<u8>>,
        now: u64,
    ) -> (r: Turn)
        ensures
            (final(self)@, r@) == old(self)@.after_packet(
                client@,
                header,
                option_view(buffer),
                now,
            ),
    {
        let mut turn = plain(RunStep::ReadServer);
        if header == terminal_packet_type::TERMINAL_BUFFER {
            if client.console.is_some() && buffer.is_some() {
                self.put_off(client, now);
                turn.output = buffer;
            }
        } else if header == terminal_packet_type::KEEP_ALIVE {
            self.waiting_on_keepalive = false;
        }
        turn
    }

    fn clock_read(&mut self, client: &mut TerminalClient, now: u64) -> (r: Turn)
        ensures
            (final(self)@, final(client)@, r@) == old(self)@.after_clock(old(client)@, now),
            old(client)@.wf() ==> final(client)@.wf(),
    {
        if now as u128 <= self.keepalive_time {
            return self.terminal_part(client);
        }
        self.put_off(client, now);
        if self.waiting_on_keepalive {
            let (close, reconnection) = client.connection.close_socket_and_maybe_reconnect();
            self.waiting_on_keepalive = false;
            let mut turn = self.terminal_part(client);
            turn.close = close;
            turn.reconnect = Some(reconnection);
            turn
        } else {
            self.stage = RunStage::SendingKeepalive;
            plain(RunStep::Send(Message::KeepAlive))
        }
    }

    fn forwarded(
        &mut self,
        client: &TerminalClient,
        requests: Vec<PortForwardDestinationRequest>,
        data: Vec<PortForwardData>,
    ) -> (r: Turn)
        ensures
            (final(self)@, client@, r@) == (RunView {
                queue: request_messages(views(requests@)) + data_messages(views(data@)),
                ..old(self)@
            }).queue_part(client@),
    {
        let ghost first = request_messages(views(requests@));
        let ghost second = data_messages(views(data@));
        let mut queue: VecDeque<Message> = VecDeque::new();
        for request in it: requests
            invariant
                it.seq() == requests@,
                first == request_messages(views(requests@)),
                views(queue@) == first.take(it.index() as int),
        {
            let ghost before = queue@;
            let message = Message::DestinationRequest(request);
            queue.push_back(message);
            assert(views(queue@) =~= views(before).push(message@));
            assert(message@ == first[it.index() as int]);
        }
        assert(first.take(requests@.len() as int) =~= first);
        assert(views(queue@) =~= first + second.take(0));
        for item in it: data
            invariant
                it.seq() == data@,
                second == data_messages(views(data@)),
                views(queue@) == first + second.take(it.index() as int),
        {
            let ghost before = queue@;
            let message = Message::ForwardData(item);
            queue.push_back(message);
            assert(views(queue@) =~= views(before).push(message@));
            assert(message@ == second[it.index() as int]);
            assert(first + second.take(it.index() + 1) =~= (first + second.take(
                it.index() as int,
            )).push(message@));
        }
        assert(second.take(data@.len() as int) =~= second);
        self.queue = queue;
        self.queue_part(client)
    }

    /// Goes on with the session of `client`
    pub fn step(&mut self, client: &mut TerminalClient, event: RunEvent) -> (r: Turn)
        requires
            old(client)@.wf(),
            old(self)@.awaits(event@),
        ensures
            (final(self)@, final(client)@, r@) == old(self)@.next(old(client)@, event@),
            final(client)@.wf(),
    {
        let mut turn = self.respond(client, event);
        let ghost responded = (self@, client@, turn@);
        turn.seek(client);
        assert((self@, client@, turn@) == sought(responded));
        turn
    }

    fn respond(&mut self, client: &mut TerminalClient, event: RunEvent) -> (r: Turn)
        requires
            old(client)@.wf(),
            old(self)@.awaits(event@),
        ensures
            (final(self)@, final(client)@, r@) == old(self)@.responded(old(client)@, event@),
            final(client)@.wf(),
    {
        match event {
            RunEvent::Sent { now } => self.sent(client, now),
            RunEvent::Polled { console, client: client_input } => {
                self.client_readable = client_input && self.client_fd >= 0;
                match valid_fd(client.console) {
                    Some(fd) => {
                        if console {
                            self.stage = RunStage::ReadingConsole;
                            plain(RunStep::ReadConsole { fd, count: INPUT_BUFFER_SIZE })
                        } else {
                            self.server_part(client)
                        }
                    },
                    None => self.server_part(client),
                }
            },
            RunEvent::ConsoleRead(data) => match data {
                Some(data) => {
                    self.stage = RunStage::SendingInput;
                    plain(RunStep::Send(Message::TerminalBuffer(data)))
                },
                None => self.server_part(client),
            },
            RunEvent::NothingRead => self.keepalive_part(client),
            RunEvent::PacketRead { header, buffer, forward, now } => {
                if forward_kind(header).is_some() {
                    self.forward_packet_read(client, forward, now)
                } else {
                    self.packet_read(client, header, buffer, now)
                }
            },
            RunEvent::DestinationCreated(response) => {
                self.stage = RunStage::SendingResponse;
                plain(RunStep::Send(Message::DestinationResponse(response)))
            },
            RunEvent::Clock { now } => self.clock_read(client, now),
            RunEvent::Terminal(info) => {
                if info.same_as(&self.last_terminal_info) {
                    self.forwarding_part()
                } else {
                    self.last_terminal_info = info.clone();
                    self.stage = RunStage::SendingTerminal;
                    plain(RunStep::Send(Message::TerminalInfo(info)))
                }
            },
            RunEvent::Forwarded { requests, data } => self.forwarded(client, requests, data),
        }
    }
}

/// A keepalive that was not answered by the time the next is due costs the connection its
/// socket, and a new one is sought; a keepalive that was answered costs nothing.
pub proof fn law_unanswered_keepalive_gives_up_the_socket(
    run: RunView,
    client: TerminalClientView,
    now: u64,
)
    requires
        run.stage == RunStage::CheckingClock,
        now > run.keepalive_time,
        client.connection.connection.fd != crate::NO_SOCKET,
    ensures
        ({
            let (after, client_after, turn) = run.next(client, RunEventView::Clock { now });
            if run.waiting_on_keepalive {
                &&& turn.close == Some(client.connection.connection.fd)
                &&& client_after.connection.connection.fd == crate::NO_SOCKET
                &&& turn.reconnect is Some
                &&& !after.waiting_on_keepalive
            } else {
                &&& turn.step == RunStepView::Send(MessageView::KeepAlive)
                &&& client_after == client
            }
        }),
{
}

/// The answer to a keepalive saves the socket: once it has come, the next keepalive that is due
/// is sent.
pub proof fn law_answered_keepalive_keeps_the_socket(
    run: RunView,
    client: TerminalClientView,
    buffer: Option<Seq<u8>>,
    forward: ForwardPacketView,
    received: u64,
    now: u64,
)
    requires
        run.stage == RunStage::ReadingServer,
        run.client_fd >= 0,
        now > run.keepalive_time,
    ensures
        ({
            let (answered, same, _) = run.next(
                client,
                RunEventView::PacketRead {
                    header: terminal_packet_type::KEEP_ALIVE,
                    buffer,
                    forward,
                    now: received,
                },
            );
            let (checking, then, turn) = answered.next(same, RunEventView::NothingRead);
            let (_, after, sending) = checking.next(then, RunEventView::Clock { now });
            &&& same.connection.connection == client.connection.connection
            &&& turn.step is CheckClock
            &&& after.connection.connection == client.connection.connection
            &&& sending.step == RunStepView::Send(MessageView::KeepAlive)
            &&& sending.close is None
        }),
{
}

/// A packet about port forwarding is handled once, and nothing of it reaches the console: what
/// handling it asks for is asked for. The answer to a request for a destination is sent before
/// the next packet is read.
pub proof fn law_forwarding_packet_is_handled(
    run: RunView,
    client: TerminalClientView,
    header: u8,
    buffer: Option<Seq<u8>>,
    packet: ForwardPacketView,
    response: DestinationResponseView,
    received: u64,
    sent: u64,
)
    requires
        run.stage == RunStage::ReadingServer,
        forward_kind_of(header) is Some,
    ensures
        ({
            let (handled, after, turn) = run.next(
                client,
                RunEventView::PacketRead { header, buffer, forward: packet, now: received },
            );
            &&& (after.forwarding, turn.forward) == client.forwarding.handled(packet)
            &&& after.connection.connection == client.connection.connection
            &&& turn.output is None
            &&& !(turn.forward is CreateDestination) ==> turn.step is ReadServer && handled.stage
                == RunStage::ReadingServer
            &&& turn.forward is CreateDestination ==> {
                let event = RunEventView::DestinationCreated(response);
                let (answering, _, answer) = handled.next(after, event);
                let (reading, _, next) = answering.next(after, RunEventView::Sent { now: sent });
                &&& handled.awaits(event)
                &&& answer.step == RunStepView::Send(MessageView::DestinationResponse(response))
                &&& next.step is ReadServer
                &&& reading.stage == RunStage::ReadingServer
            }
        }),
{
}

/// A session does not stay without a socket: with the first event that finds it lost a
/// reconnection starts, unless one is under way, and the session goes on beside it.
pub proof fn law_lost_socket_is_sought_again(
    run: RunView,
    client: TerminalClientView,
    event: RunEventView,
)
    requires
        run.awaits(event),
        !client.is_ending(),
        client.connection.connection.fd == crate::NO_SOCKET,
        client.connection.connection.reader is Some,
    ensures
        ({
            let (_, after, turn) = run.next(client, event);
            &&& !(turn.step is Finished)
            &&& after.connection.reconnecting
            &&& !client.connection.reconnecting ==> (turn.reconnect matches Some((_, step))
                && step is Open)
            &&& client.connection.reconnecting ==> after.connection == client.connection
        }),
{
}

/// Every geometry of the console is sent once: what was sent is not sent again until it changes.
pub proof fn law_geometry_is_sent_once(
    run: RunView,
    client: TerminalClientView,
    info: TerminalInfoView,
)
    requires
        run.stage == RunStage::QueryingTerminal,
    ensures
        ({
            let (after, _, turn) = run.next(client, RunEventView::Terminal(info));
            let (_, _, again) = after.next(client, RunEventView::Terminal(info));
            &&& turn.step is Send <==> info != run.last_terminal_info
            &&& turn.step is Send ==> turn.step == RunStepView::Send(
                MessageView::TerminalInfo(info),
            )
            &&& after.last_terminal_info == info
            &&& !(again.step is Send)
        }),
{
}

/// A session ends only when its client or its connection is to shut down, and then with the next
/// round: no other event ends it.
pub proof fn law_session_ends_only_on_shutdown(
    run: RunView,
    client: TerminalClientView,
    event: RunEventView,
)
    requires
        run.awaits(event),
    ensures
        run.next(client, event).2.step is Finished ==> client.is_ending(),
        run.round(client).2.step is Finished <==> client.is_ending(),
{
}

impl RunView {
    /// The session and its client after the sending of some messages in a row, at the given
    /// times, and what was to be done after each.
    pub open spec fn sent_at(self, client: TerminalClientView, times: Seq<u64>) -> (
        RunView,
        TerminalClientView,
        Seq<RunStepView>,
    )
        decreases times.len(),
    {
        if times.len() == 0 {
            (self, client, Seq::empty())
        } else {
            let (before, between, steps) = self.sent_at(client, times.drop_last());
            let (after, last, turn) = before.next(
                between,
                RunEventView::Sent { now: times.last() },
            );
            (after, last, steps.push(turn.step))
        }
    }
}

proof fn lemma_queue_is_sent(run: RunView, client: TerminalClientView, times: Seq<u64>)
    requires
        run.stage == RunStage::SendingForwarded,
        times.len() <= run.queue.len(),
    ensures
        ({
            let (after, _, steps) = run.sent_at(client, times);
            &&& after.stage == RunStage::SendingForwarded
            &&& after.queue == run.queue.skip(times.len() as int)
            &&& steps == Seq::new(times.len(), |i: int| RunStepView::Send(run.queue[i]))
        }),
    decreases times.len(),
{
    if times.len() == 0 {
        assert(run.queue.skip(0) =~= run.queue);
        assert(run.sent_at(client, times).2 =~= Seq::new(
            times.len(),
            |i: int| RunStepView::Send(run.queue[i]),
        ));
    } else {
        let earlier = times.drop_last();
        lemma_queue_is_sent(run, client, earlier);
        let before = run.sent_at(client, earlier).0;
        let (after, _, steps) = run.sent_at(client, times);
        assert(before.queue[0] == run.queue[earlier.len() as int]);
        assert(after.queue =~= run.queue.skip(times.len() as int));
        assert(steps =~= Seq::new(times.len(), |i: int| RunStepView::Send(run.queue[i])));
    }
}

/// What port forwarding has for the other end is sent completely and in order before the next
/// round: requests first, then data.
pub proof fn law_forwarded_messages_are_sent_in_order(
    run: RunView,
    client: TerminalClientView,
    requests: Seq<DestinationRequestView>,
    data: Seq<ForwardDataView>,
    times: Seq<u64>,
)
    requires
        run.stage == RunStage::UpdatingForwarding,
        requests.len() + data.len() == times.len(),
        times.len() > 0,
    ensures
        ({
            let all = request_messages(requests) + data_messages(data);
            let (sending, between, first) = run.next(
                client,
                RunEventView::Forwarded { requests, data },
            );
            let (_, _, steps) = sending.sent_at(between, times);
            &&& seq![first.step] + steps.drop_last() == Seq::new(
                all.len(),
                |i: int| RunStepView::Send(all[i]),
            )
            &&& steps.last() is Poll || steps.last() is Finished
        }),
{
    let all = request_messages(requests) + data_messages(data);
    let (sending, between, first) = run.next(client, RunEventView::Forwarded { requests, data });
    let earlier = times.drop_last();
    lemma_queue_is_sent(sending, between, earlier);
    let before = sending.sent_at(between, earlier).0;
    assert(before.queue.len() == 0);
    let (_, _, steps) = sending.sent_at(between, times);
    assert(steps.drop_last() =~= sending.sent_at(between, earlier).2);
    assert(seq![first.step] + steps.drop_last() =~= Seq::new(
        all.len(),
        |i: int| RunStepView::Send(all[i]),
    ));
}

/// A server that says nothing against a session has it set up after a bounded number of looks:
/// each look that does not find the response uses one of them up.
pub proof fn law_setup_looks_are_bounded(setup: SetupView, event: SetupEventView)
    requires
        setup.wf(),
        setup.awaits(event),
        setup.stage == SetupStage::Reading,
    ensures
        ({
            let (after, step) = setup.next(event);
            &&& after.wf()
            &&& step is Finished || after.reads == setup.reads + 1
            &&& after.reads == RESPONSE_READS ==> after.next(SetupEventView::Slept).1
                == SetupStepView::Finished(Ok(()))
        }),
{
}

/// Whether a session does nothing but what its step says, and its client stays as it is but for a
/// reconnection that may have begun beside it.
pub open spec fn only_steps(
    before: TerminalClientView,
    after: TerminalClientView,
    turn: TurnView,
) -> bool {
    &&& turn.output is None && turn.forward is Nothing && turn.close is None
    &&& after.connection.connection == before.connection.connection
    &&& after.connection.endpoint == before.connection.endpoint
    &&& after.forwarding == before.forwarding
    &&& after.console == before.console
    &&& after.shutting_down == before.shutting_down
    &&& after.keepalive_duration == before.keepalive_duration
}

/// A round awaits the console and the socket, each where there is one; it comes about as long as
/// neither the client nor its connection is to shut down.
pub proof fn law_round_awaits_console_and_socket(run: RunView, client: TerminalClientView)
    ensures
        ({
            let (after, same, turn) = run.round(client);
            let fd = client.connection.connection.fd;
            let ending = client.shutting_down || client.connection.connection.shutting_down;
            &&& same == client && only_steps(client, same, turn)
            &&& ending ==> turn.step is Finished
            &&& !ending ==> {
                &&& turn.step == (RunStepView::Poll {
                    console: if client.console is Some && client.console->0 >= 0 {
                        client.console
                    } else {
                        None
                    },
                    client: if fd >= 0 {
                        Some(fd)
                    } else {
                        None
                    },
                    millis: 10,
                })
                &&& after == (RunView { client_fd: fd, stage: RunStage::Polling, ..run })
                &&& forall|event: RunEventView| #[trigger] after.awaits(event) <==> event is Polled
            }
        }),
{
}

/// In every round the console is read where it has input, and otherwise packets of the server are
/// read where the socket has data; where neither has any, the connection is looked after, unless
/// there is no socket: then the console is, where there is one, and port forwarding.
pub proof fn law_round_reads_what_has_input(
    run: RunView,
    client: TerminalClientView,
    console: bool,
    server: bool,
)
    ensures
        ({
            let (after, same, turn) = run.next(
                client,
                RunEventView::Polled { console, client: server },
            );
            let typed = console && client.console is Some && client.console->0 >= 0;
            let readable = server && run.client_fd >= 0;
            &&& only_steps(client, same, turn)
            &&& after.client_readable == readable
            &&& after.client_fd == run.client_fd && after.keepalive_time == run.keepalive_time
            &&& after.queue == run.queue && after.last_terminal_info == run.last_terminal_info
            &&& typed ==> turn.step == (RunStepView::ReadConsole {
                fd: client.console->0,
                count: 16384,
            })
            &&& !typed && readable ==> turn.step is ReadServer
            &&& !typed && !readable && run.client_fd >= 0 ==> turn.step is CheckClock
            &&& !typed && !readable && run.client_fd < 0 ==> {
                &&& client.console is Some ==> turn.step is QueryTerminal
                &&& client.console is None ==> turn.step is UpdateForwarding
                &&& !after.waiting_on_keepalive
            }
            &&& typed || run.client_fd >= 0 ==> after.waiting_on_keepalive
                == run.waiting_on_keepalive
            &&& forall|event: RunEventView| #[trigger]
                after.awaits(event) <==> {
                    ||| turn.step is ReadConsole && event is ConsoleRead
                    ||| turn.step is ReadServer && (event is NothingRead || event is PacketRead)
                    ||| turn.step is CheckClock && event is Clock
                    ||| turn.step is QueryTerminal && event is Terminal
                    ||| turn.step is UpdateForwarding && event is Forwarded
                }
        }),
{
}

/// Whatever is typed is sent as it is, whether or not the socket has data too; once it is sent,
/// which puts the keepalive off, packets of the server are read exactly where the socket had data
/// in that round. Where nothing could be read of the console, that follows at once.
pub proof fn law_input_is_sent(
    run: RunView,
    client: TerminalClientView,
    data: Seq<u8>,
    now: u64,
)
    requires
        run.stage == RunStage::ReadingConsole,
    ensures
        ({
            let (sending, c1, t1) = run.next(client, RunEventView::ConsoleRead(Some(data)));
            let (after, c2, t2) = sending.next(c1, RunEventView::Sent { now });
            &&& t1.step == RunStepView::Send(MessageView::TerminalBuffer(data))
            &&& only_steps(client, c1, t1)
            &&& forall|event: RunEventView| #[trigger] sending.awaits(event) <==> event is Sent
            &&& only_steps(client, c2, t2)
            &&& t2.step is ReadServer <==> run.client_readable
            &&& !run.client_readable && run.client_fd >= 0 ==> t2.step is CheckClock
            &&& !run.client_readable && run.client_fd < 0 && client.console is Some
                ==> t2.step is QueryTerminal
            &&& !run.client_readable && run.client_fd < 0 && client.console is None
                ==> t2.step is UpdateForwarding
            &&& run.client_readable ==> forall|event: RunEventView| #[trigger]
                after.awaits(event) <==> event is NothingRead || event is PacketRead
            &&& after.keepalive_time == now + client.keepalive_duration * 1_000_000_000
            &&& after.client_fd == run.client_fd && after.queue == run.queue
        }),
        ({
            let (after, same, turn) = run.next(client, RunEventView::ConsoleRead(None));
            &&& only_steps(client, same, turn)
            &&& after.keepalive_time == run.keepalive_time
            &&& turn.step is ReadServer <==> run.client_readable
            &&& !run.client_readable && run.client_fd >= 0 ==> turn.step is CheckClock
            &&& !run.client_readable && run.client_fd < 0 && client.console is Some
                ==> turn.step is QueryTerminal
            &&& !run.client_readable && run.client_fd < 0 && client.console is None
                ==> turn.step is UpdateForwarding
        }),
{
}

/// In a round in which the console has input and the socket has data, both are served: what is
/// typed is sent, and then packets of the server are read.
pub proof fn law_round_serves_both_sides(
    run: RunView,
    client: TerminalClientView,
    data: Seq<u8>,
    now: u64,
)
    requires
        run.stage == RunStage::Polling,
        run.client_fd >= 0,
        client.console is Some,
        client.console->0 >= 0,
    ensures
        ({
            let (r1, c1, t1) = run.next(
                client,
                RunEventView::Polled { console: true, client: true },
            );
            let (r2, c2, t2) = r1.next(c1, RunEventView::ConsoleRead(Some(data)));
            let (r3, c3, t3) = r2.next(c2, RunEventView::Sent { now });
            &&& t1.step is ReadConsole
            &&& t2.step == RunStepView::Send(MessageView::TerminalBuffer(data))
            &&& t3.step is ReadServer
        }),
{
    law_round_reads_what_has_input(run, client, true, true);
    let (r1, c1, _) = run.next(client, RunEventView::Polled { console: true, client: true });
    law_input_is_sent(r1, c1, data, now);
}

/// Packets of the server are read until there is none left. Terminal data is shown as it is where
/// there is a console, and puts the keepalive off; the answer to a keepalive is no longer awaited
/// once it has come; a packet about port forwarding puts the keepalive off; any other is passed
/// over.
pub proof fn law_every_packet_of_the_server_is_handled(
    run: RunView,
    client: TerminalClientView,
    header: u8,
    buffer: Option<Seq<u8>>,
    forward: ForwardPacketView,
    now: u64,
)
    requires
        run.stage == RunStage::ReadingServer,
    ensures
        ({
            let (after, same, turn) = run.next(
                client,
                RunEventView::PacketRead { header, buffer, forward, now },
            );
            let shown = header == 1 && client.console is Some && buffer is Some;
            let forwarded = 5 <= header <= 7;
            let later = now + client.keepalive_duration * 1_000_000_000;
            &&& shown ==> turn.output == buffer
            &&& !shown ==> turn.output is None
            &&& after.keepalive_time == if shown || forwarded {
                later
            } else {
                run.keepalive_time
            }
            &&& after.waiting_on_keepalive == (run.waiting_on_keepalive && header != 0)
            &&& turn.close is None
            &&& same.connection.connection == client.connection.connection
            &&& !forwarded ==> {
                &&& turn.forward is Nothing
                &&& turn.step is ReadServer && after.stage == RunStage::ReadingServer
                &&& same.forwarding == client.forwarding
            }
            &&& forwarded ==> {
                &&& (same.forwarding, turn.forward) == client.forwarding.handled(forward)
                &&& turn.forward is CreateDestination ==> turn.step is AwaitDestination
                    && after.stage == RunStage::AwaitingDestination
                &&& !(turn.forward is CreateDestination) ==> turn.step is ReadServer
                    && after.stage == RunStage::ReadingServer
            }
            &&& after.client_fd == run.client_fd && after.client_readable == run.client_readable
            &&& after.last_terminal_info == run.last_terminal_info
        }),
        ({
            let (after, same, turn) = run.next(client, RunEventView::NothingRead);
            &&& only_steps(client, same, turn)
            &&& run.client_fd >= 0 ==> turn.step is CheckClock && after == (RunView {
                stage: RunStage::CheckingClock,
                ..run
            })
            &&& run.client_fd < 0 ==> {
                &&& client.console is Some ==> turn.step is QueryTerminal
                &&& client.console is None ==> turn.step is UpdateForwarding
                &&& !after.waiting_on_keepalive
            }
        }),
{
}

/// A keepalive is sent once it is due, and not before; from when it is sent its answer is awaited,
/// and the next is due after the keepalive interval. Either way the console is looked after next,
/// where there is one, and port forwarding where there is none.
pub proof fn law_keepalive_is_sent_when_due(
    run: RunView,
    client: TerminalClientView,
    now: u64,
    sent: u64,
)
    requires
        run.stage == RunStage::CheckingClock,
    ensures
        ({
            let (after, same, turn) = run.next(client, RunEventView::Clock { now });
            let due = now > run.keepalive_time;
            &&& !due ==> {
                &&& only_steps(client, same, turn)
                &&& client.console is Some ==> turn.step is QueryTerminal
                &&& client.console is None ==> turn.step is UpdateForwarding
                &&& after.keepalive_time == run.keepalive_time
                &&& after.waiting_on_keepalive == run.waiting_on_keepalive
            }
            &&& due && !run.waiting_on_keepalive ==> {
                let (resting, then, rest) = after.next(same, RunEventView::Sent { now: sent });
                &&& only_steps(client, same, turn)
                &&& turn.step == RunStepView::Send(MessageView::KeepAlive)
                &&& after.awaits(RunEventView::Sent { now: sent })
                &&& after.keepalive_time == now + client.keepalive_duration * 1_000_000_000
                &&& only_steps(client, then, rest)
                &&& resting.waiting_on_keepalive
                &&& resting.keepalive_time == after.keepalive_time
                &&& client.console is Some ==> rest.step is QueryTerminal
                &&& client.console is None ==> rest.step is UpdateForwarding
            }
            &&& due && run.waiting_on_keepalive ==> {
                &&& client.console is Some ==> turn.step is QueryTerminal
                &&& client.console is None ==> turn.step is UpdateForwarding
                &&& after.keepalive_time == now + client.keepalive_duration * 1_000_000_000
                &&& !after.waiting_on_keepalive
                &&& same.connection.connection.fd == -1
                &&& turn.close == if client.connection.connection.fd == -1 {
                    None
                } else {
                    Some(client.connection.connection.fd)
                }
                &&& turn.reconnect matches Some((_, step)) && {
                    let stays = client.connection.reconnecting
                        || client.connection.connection.shutting_down;
                    (step is Open <==> !stays) && (step is Finished <==> stays)
                }
                &&& same.forwarding == client.forwarding && same.console == client.console
            }
        }),
{
}

/// After the geometry of the console, sent where it has changed, comes port forwarding; what that
/// has for the other end is sent message by message, and then comes the next round.
pub proof fn law_round_ends_with_forwarding(
    run: RunView,
    client: TerminalClientView,
    info: TerminalInfoView,
    now: u64,
)
    ensures
        run.stage == RunStage::QueryingTerminal ==> {
            let (after, same, turn) = run.next(client, RunEventView::Terminal(info));
            let (then, _, rest) = after.next(same, RunEventView::Sent { now });
            &&& only_steps(client, same, turn)
            &&& info == run.last_terminal_info ==> turn.step is UpdateForwarding && after.awaits(
                RunEventView::Forwarded { requests: Seq::empty(), data: Seq::empty() },
            )
            &&& info != run.last_terminal_info ==> {
                &&& turn.step == RunStepView::Send(MessageView::TerminalInfo(info))
                &&& after.awaits(RunEventView::Sent { now })
                &&& rest.step is UpdateForwarding
                &&& then.awaits(
                    RunEventView::Forwarded { requests: Seq::empty(), data: Seq::empty() },
                )
            }
            &&& after.keepalive_time == run.keepalive_time
            &&& after.waiting_on_keepalive == run.waiting_on_keepalive
        },
        run.stage == RunStage::UpdatingForwarding ==> {
            let (after, same, turn) = run.next(
                client,
                RunEventView::Forwarded { requests: Seq::empty(), data: Seq::empty() },
            );
            &&& only_steps(client, same, turn)
            &&& turn.step == run.round(client).2.step
            &&& after == (RunView { queue: after.queue, ..run.round(client).0 })
            &&& after.queue.len() == 0
        },
        run.stage == RunStage::SendingForwarded ==> {
            let (after, same, turn) = run.next(client, RunEventView::Sent { now });
            &&& only_steps(client, same, turn)
            &&& run.queue.len() > 0 ==> turn.step == RunStepView::Send(run.queue[0])
                && after.queue == run.queue.skip(1) && after.stage == run.stage
            &&& run.queue.len() == 0 ==> turn.step == run.round(client).2.step
            &&& after.keepalive_time == now + client.keepalive_duration * 1_000_000_000
        },
{
    assert((request_messages(Seq::empty()) + data_messages(Seq::empty())).len() == 0);
}

/// Each request of port forwarding, and after them each piece of data, becomes one message.
pub proof fn law_forwarding_has_one_message_each(
    requests: Seq<DestinationRequestView>,
    data: Seq<ForwardDataView>,
)
    ensures
        request_messages(requests).len() == requests.len(),
        forall|i: int|
            0 <= i < requests.len() ==> #[trigger] request_messages(requests)[i]
                == MessageView::DestinationRequest(requests[i]),
        data_messages(data).len() == data.len(),
        forall|i: int|
            0 <= i < data.len() ==> #[trigger] data_messages(data)[i] == MessageView::ForwardData(
                data[i],
            ),
{
}

/// A session begins with its command, where it has one: what is typed is the command and the end
/// of its line, and the end of the shell before that unless the shell is to stay. The first round
/// follows once it is sent, or at once. The first keepalive is due after the keepalive interval.
pub proof fn law_session_begins_with_its_command(
    client: TerminalClientView,
    command: Seq<char>,
    noexit: bool,
    now: u64,
    sent: u64,
)
    ensures
        ({
            let (run, same, turn) = RunView::begun(client, Some(command), noexit, now);
            let (after, then, rest) = run.next(same, RunEventView::Sent { now: sent });
            &&& only_steps(client, same, turn)
            &&& noexit ==> turn.step == RunStepView::Send(
                MessageView::TerminalBuffer(encode_utf8(command + "\n"@)),
            )
            &&& !noexit ==> turn.step == RunStepView::Send(
                MessageView::TerminalBuffer(encode_utf8(command + "; exit\n"@)),
            )
            &&& forall|event: RunEventView| #[trigger] run.awaits(event) <==> event is Sent
            &&& run.keepalive_time == now + client.keepalive_duration * 1_000_000_000
            &&& !run.waiting_on_keepalive && run.queue.len() == 0
            &&& run.last_terminal_info.row == 0 && run.last_terminal_info.column == 0
            &&& run.last_terminal_info.width == 0 && run.last_terminal_info.height == 0
            &&& rest.step == run.round(client).2.step && after == run.round(client).0
            &&& only_steps(client, then, rest)
        }),
        ({
            let (run, same, turn) = RunView::begun(client, None, noexit, now);
            &&& only_steps(client, same, turn)
            &&& turn.step is Poll || turn.step is Finished
            &&& turn.step is Finished <==> client.shutting_down
                || client.connection.connection.shutting_down
            &&& run.keepalive_time == now + client.keepalive_duration * 1_000_000_000
            &&& !run.waiting_on_keepalive && run.queue.len() == 0
        }),
{
}

/// A session is set up once its connection is up: the server is told whether the client goes
/// through a jump host, and then its answer is looked for at every tenth of a second. An answer
/// ends the setup, by what it says; a server that has not answered after thirty looks is taken to
/// agree.
pub proof fn law_setup_goes_by_the_answer(
    setup: SetupView,
    error: ErrorView,
    header: u8,
    text: Seq<char>,
)
    ensures
        setup.stage == SetupStage::Connecting ==> {
            let (up, hello) = setup.next(SetupEventView::Connected(Ok(true)));
            let (waiting, pause) = up.next(SetupEventView::Sent);
            &&& hello == SetupStepView::Send(
                MessageView::InitialPayload { jumphost: setup.jumphost },
            )
            &&& up.awaits(SetupEventView::Sent)
            &&& pause == (SetupStepView::Sleep { millis: 100 })
            &&& waiting.awaits(SetupEventView::Slept) && waiting.reads == setup.reads
            &&& setup.next(SetupEventView::Connected(Ok(false))).1 == SetupStepView::Finished(
                Err(SetupErrorView::Refused("Failed to connect"@)),
            )
            &&& setup.next(SetupEventView::Connected(Err(error))).1 == SetupStepView::Finished(
                Err(SetupErrorView::Refused(error_text(error))),
            )
        },
        setup.stage == SetupStage::Waiting ==> {
            let (after, step) = setup.next(SetupEventView::Slept);
            &&& setup.reads < 30 ==> step is Read && after.reads == setup.reads && after.awaits(
                SetupEventView::NothingRead,
            )
            &&& setup.reads >= 30 ==> step == SetupStepView::Finished(Ok(()))
        },
        setup.stage == SetupStage::Reading && setup.reads < 30 ==> {
            let (found, answer) = setup.next(
                SetupEventView::PacketRead { header, response_error: Some(text) },
            );
            let unread = setup.next(SetupEventView::PacketRead { header, response_error: None });
            let (again, pause) = setup.next(SetupEventView::NothingRead);
            &&& pause == (SetupStepView::Sleep { millis: 100 })
            &&& again.reads == setup.reads + 1 && again.awaits(SetupEventView::Slept)
            &&& unread == (again, pause)
            &&& header != 252 ==> (found, answer) == (again, pause)
            &&& header == 252 && text.len() == 0 ==> answer == SetupStepView::Finished(Ok(()))
            &&& header == 252 && text.len() > 0 ==> answer == SetupStepView::Finished(
                Err(SetupErrorView::Other("Initial response error: "@ + text)),
            )
        },
{
}

/// Tunnel specifications are read one by one, in order: each that can be read stands for one
/// request, for a source on this machine and the destination that it names, and any other for
/// none. White space around a specification does not matter.
pub proof fn law_each_tunnel_is_requested(
    first: Seq<Seq<char>>,
    second: Seq<Seq<char>>,
    tunnel: Seq<char>,
)
    ensures
        requests_of(first + second) == requests_of(first) + requests_of(second),
        requests_of(Seq::empty()).len() == 0,
        match tunnel_of(trim_spec(tunnel)) {
            Some((_, local_port, remote_host, remote_port)) => {
                let requests = requests_of(seq![tunnel]);
                &&& requests.len() == 1
                &&& requests[0].source == Some(
                    SocketEndpointView { name: "127.0.0.1"@, port: local_port as i32 },
                )
                &&& requests[0].destination == Some(
                    SocketEndpointView { name: remote_host, port: remote_port as i32 },
                )
                &&& requests[0].environment_variable.len() == 0
            },
            None => requests_of(seq![tunnel]).len() == 0,
        },
    decreases second.len(),
{
    let one = seq![tunnel];
    assert(one.drop_last() =~= Seq::<Seq<char>>::empty());
    assert(requests_of(one.drop_last()) =~= Seq::empty());
    if second.len() == 0 {
        assert(first + second =~= first);
        assert(requests_of(second) =~= Seq::empty());
    } else {
        law_each_tunnel_is_requested(first, second.drop_last(), tunnel);
        assert((first + second).drop_last() =~= first + second.drop_last());
    }
}

/// The answer to a request for a destination is sent as it is, and then the reading of packets goes
/// on as if nothing had been between.
pub proof fn law_destination_answer_is_sent(
    run: RunView,
    client: TerminalClientView,
    response: DestinationResponseView,
    now: u64,
)
    requires
        run.stage == RunStage::AwaitingDestination,
    ensures
        ({
            let (answering, c1, t1) = run.next(client, RunEventView::DestinationCreated(response));
            let (reading, c2, t2) = answering.next(c1, RunEventView::Sent { now });
            &&& t1.step == RunStepView::Send(MessageView::DestinationResponse(response))
            &&& only_steps(client, c1, t1) && only_steps(client, c2, t2)
            &&& forall|event: RunEventView| #[trigger] answering.awaits(event) <==> event is Sent
            &&& t2.step is ReadServer
            &&& reading == (RunView { stage: RunStage::ReadingServer, ..run })
        }),
{
}

/// A reconnection is set going beside a session exactly where its socket is lost, unless the
/// session is to end or a reconnection is under way; but for that, only an unanswered keepalive
/// sets one going.
pub proof fn law_session_reconnects_only_when_lost(
    run: RunView,
    client: TerminalClientView,
    event: RunEventView,
)
    requires
        run.awaits(event),
        event matches RunEventView::Clock { now } ==> now <= run.keepalive_time
            || !run.waiting_on_keepalive,
    ensures
        ({
            let (_, after, turn) = run.next(client, event);
            let connection = client.connection.connection;
            let lost = connection.reader is Some && connection.fd == -1
                && !connection.shutting_down && !client.shutting_down
                && !client.connection.reconnecting;
            &&& turn.reconnect is Some <==> lost
            &&& after.connection.reconnecting == (client.connection.reconnecting || lost)
            &&& after.connection.connection == connection
            &&& turn.close is None
        }),
{
}

} // verus!
