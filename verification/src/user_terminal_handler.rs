//! User terminal handler
//!
//! The course of a terminal session at the server: what the terminal writes is sent to the
//! client, and what the client sends is typed into the terminal.
use vstd::prelude::*;

use crate::connection::{Connection, ConnectionView};
use crate::error::{IoError, IoKind};
use crate::proto::{terminal_packet_type, Message, MessageView};
use crate::terminal_info::{TerminalInfo, TerminalInfoView};
use crate::text::option_view;

verus! {

/// How many bytes of terminal output are read at a time
pub const TERMINAL_BUFFER_SIZE: usize = 16384;

/// How long a round of a session waits for data, in milliseconds
pub const SESSION_POLL_MILLIS: u16 = 10;

/// What reading a descriptor gave
pub type ReadOutcome = Result<Vec<u8>, IoError>;

/// Whether what reading a terminal gave ends its session: the terminal is closed, or it failed
/// other than by having nothing to read.
pub open spec fn ends_session(outcome: ReadOutcome) -> bool {
    match outcome {
        Ok(data) => data@.len() == 0,
        Err(e) => e.kind != IoKind::WouldBlock,
    }
}

/// Whether what reading a terminal gave ends its session
pub fn is_session_end(outcome: &ReadOutcome) -> (r: bool)
    ensures
        r == ends_session(*outcome),
{
    match outcome {
        Ok(data) => data.len() == 0,
        Err(e) => e.kind != IoKind::WouldBlock,
    }
}

/// Handles the terminal session for a connected user
#[derive(Debug)]
pub struct UserTerminalHandler {
    running: bool,
    master_fd: i32,
    stage: SessionStage,
    client_fd: i32,
    client_readable: bool,
}

/// How far a round of a terminal session has come
#[derive(Debug, Clone, Copy, PartialEq, Eq, Structural)]
pub enum SessionStage {
    /// The session has not started
    Idle,
    /// Data is awaited
    Polling,
    /// The terminal is being read
    ReadingTerminal,
    /// Terminal output is being sent
    SendingOutput,
    /// Packets are being read
    ReadingClient,
    /// A keepalive is being answered
    SendingKeepalive,
    /// The session is over
    Over,
}

/// The state of a [`UserTerminalHandler`].
pub struct HandlerView {
    /// Whether the handler is running
    pub running: bool,
    /// Descriptor of the terminal
    pub master_fd: i32,
    /// How far the round has come
    pub stage: SessionStage,
    /// The socket of the connection at the start of the round
    pub client_fd: i32,
    /// Whether the socket has data in this round
    pub client_readable: bool,
}

impl View for UserTerminalHandler {
    type V = HandlerView;

    closed spec fn view(&self) -> HandlerView {
        HandlerView {
            running: self.running,
            master_fd: self.master_fd,
            stage: self.stage,
            client_fd: self.client_fd,
            client_readable: self.client_readable,
        }
    }
}

/// What came of the latest step of a terminal session
#[derive(Debug)]
pub enum SessionEvent {
    /// What has data, or nothing where waiting failed
    Polled(Option<PolledData>),
    /// What reading the terminal gave
    TerminalRead(ReadOutcome),
    /// The message was sent
    Sent,
    /// No packet could be read
    NothingRead,
    /// A packet was read: its type, the data that it holds where it can be read as terminal
    /// data, and the geometry where it can be read as one
    PacketRead { header: u8, buffer: Option<Vec<u8>>, info: Option<TerminalInfo> },
}

/// What has data
#[derive(Debug, Clone, Copy, PartialEq, Eq, Structural)]
pub struct PolledData {
    /// Whether the terminal has data
    pub terminal: bool,
    /// Whether the client has data
    pub client: bool,
}

/// What a terminal session needs next
#[derive(Debug)]
pub enum SessionStep {
    /// Data of the terminal and of the client, if it has a socket, is to be awaited
    Poll { terminal: i32, client: Option<i32>, millis: u16 },
    /// The terminal is to be read
    ReadTerminal { fd: i32, count: usize },
    /// A message is to be sent
    Send(Message),
    /// A packet is to be read if there is data
    ReadClient,
    /// The session is over
    Finished,
}

/// What a [`SessionStep`] says.
pub enum SessionStepView {
    Poll { terminal: i32, client: Option<i32>, millis: u16 },
    ReadTerminal { fd: i32, count: usize },
    Send(MessageView),
    ReadClient,
    Finished,
}

impl View for SessionStep {
    type V = SessionStepView;

    open spec fn view(&self) -> SessionStepView {
        match *self {
            SessionStep::Poll { terminal, client, millis } => SessionStepView::Poll {
                terminal,
                client,
                millis,
            },
            SessionStep::ReadTerminal { fd, count } => SessionStepView::ReadTerminal { fd, count },
            SessionStep::Send(message) => SessionStepView::Send(message@),
            SessionStep::ReadClient => SessionStepView::ReadClient,
            SessionStep::Finished => SessionStepView::Finished,
        }
    }
}

/// What is to be done in a terminal session: first the input is typed and the geometry set, then
/// comes the step
#[derive(Debug)]
pub struct SessionTurn {
    /// Input for the terminal
    pub input: Option<Vec<u8>>,
    /// Geometry for the terminal
    pub info: Option<TerminalInfo>,
    /// What is needed next
    pub step: SessionStep,
}

/// What a [`SessionTurn`] says.
pub struct SessionTurnView {
    pub input: Option<Seq<u8>>,
    pub info: Option<TerminalInfoView>,
    pub step: SessionStepView,
}

impl View for SessionTurn {
    type V = SessionTurnView;

    open spec fn view(&self) -> SessionTurnView {
        SessionTurnView {
            input: option_view(self.input),
            info: option_view(self.info),
            step: self.step@,
        }
    }
}

/// A turn with nothing for the terminal.
pub open spec fn only(step: SessionStepView) -> SessionTurnView {
    SessionTurnView { input: None, info: None, step }
}

impl HandlerView {
    /// The session at another stage.
    pub open spec fn at(self, stage: SessionStage) -> HandlerView {
        HandlerView { stage, ..self }
    }

    /// Whether the session waits for `event`.
    pub open spec fn awaits(self, event: SessionEvent) -> bool {
        match self.stage {
            SessionStage::Polling => event is Polled,
            SessionStage::ReadingTerminal => event is TerminalRead,
            SessionStage::SendingOutput | SessionStage::SendingKeepalive => event is Sent,
            SessionStage::ReadingClient => event is NothingRead || event is PacketRead,
            SessionStage::Idle | SessionStage::Over => false,
        }
    }

    /// The end of the session.
    pub open spec fn finished(self) -> (HandlerView, SessionTurnView) {
        (self.at(SessionStage::Over), only(SessionStepView::Finished))
    }

    /// The start of a round, unless the session is to end.
    pub open spec fn round(self, connection: ConnectionView) -> (HandlerView, SessionTurnView) {
        if !self.running || connection.shutting_down {
            self.finished()
        } else {
            (
                HandlerView { client_fd: connection.fd, ..self.at(SessionStage::Polling) },
                only(
                    SessionStepView::Poll {
                        terminal: self.master_fd,
                        client: if connection.fd >= 0 {
                            Some(connection.fd)
                        } else {
                            None
                        },
                        millis: SESSION_POLL_MILLIS,
                    },
                ),
            )
        }
    }

    /// The part of a round in which packets are read.
    pub open spec fn client_part(self, connection: ConnectionView) -> (
        HandlerView,
        SessionTurnView,
    ) {
        if self.client_readable {
            (self.at(SessionStage::ReadingClient), only(SessionStepView::ReadClient))
        } else {
            self.round(connection)
        }
    }

    /// What a packet of the client leads to.
    pub open spec fn handled(
        self,
        header: u8,
        buffer: Option<Seq<u8>>,
        info: Option<TerminalInfoView>,
    ) -> (HandlerView, SessionTurnView) {
        let stay = only(SessionStepView::ReadClient);
        if header == terminal_packet_type::TERMINAL_BUFFER {
            (self, SessionTurnView { input: buffer, ..stay })
        } else if header == terminal_packet_type::TERMINAL_INFO {
            (self, SessionTurnView { info, ..stay })
        } else if header == terminal_packet_type::KEEP_ALIVE {
            (
                self.at(SessionStage::SendingKeepalive),
                only(SessionStepView::Send(MessageView::KeepAlive)),
            )
        } else {
            (self, stay)
        }
    }

    /// The next state of the session, and what is to be done.
    pub open spec fn next(self, connection: ConnectionView, event: SessionEvent) -> (
        HandlerView,
        SessionTurnView,
    ) {
        match event {
            SessionEvent::Polled(None) => self.round(connection),
            SessionEvent::Polled(Some(data)) => {
                let polled = HandlerView {
                    client_readable: data.client && self.client_fd >= 0,
                    ..self
                };
                if data.terminal {
                    (
                        polled.at(SessionStage::ReadingTerminal),
                        only(
                            SessionStepView::ReadTerminal {
                                fd: self.master_fd,
                                count: TERMINAL_BUFFER_SIZE,
                            },
                        ),
                    )
                } else {
                    polled.client_part(connection)
                }
            },
            SessionEvent::TerminalRead(outcome) => if ends_session(outcome) {
                self.finished()
            } else {
                match outcome {
                    Ok(data) => (
                        self.at(SessionStage::SendingOutput),
                        only(SessionStepView::Send(MessageView::TerminalBuffer(data@))),
                    ),
                    Err(_) => self.client_part(connection),
                }
            },
            SessionEvent::Sent => if self.stage == SessionStage::SendingOutput {
                self.client_part(connection)
            } else {
                (self.at(SessionStage::ReadingClient), only(SessionStepView::ReadClient))
            },
            SessionEvent::NothingRead => self.round(connection),
            SessionEvent::PacketRead { header, buffer, info } => self.handled(
                header,
                option_view(buffer),
                option_view(info),
            ),
        }
    }
}

fn only_step(step: SessionStep) -> (r: SessionTurn)
    ensures
        r@ == only(step@),
{
    SessionTurn { input: None, info: None, step }
}

impl UserTerminalHandler {
    /// Creates a new user terminal handler
    pub fn new() -> (r: UserTerminalHandler)
        ensures
            r@ == (HandlerView {
                running: false,
                master_fd: crate::NO_SOCKET,
                stage: SessionStage::Idle,
                client_fd: crate::NO_SOCKET,
                client_readable: false,
            }),
    {
        UserTerminalHandler {
            running: false,
            master_fd: crate::NO_SOCKET,
            stage: SessionStage::Idle,
            client_fd: crate::NO_SOCKET,
            client_readable: false,
        }
    }

    /// Starts the terminal session on a terminal
    pub fn start(&mut self, connection: &Connection, master_fd: i32) -> (r: SessionTurn)
        ensures
            (final(self)@, r@) == (HandlerView { running: true, master_fd, ..old(self)@ }).round(
                connection@,
            ),
    {
        self.running = true;
        self.master_fd = master_fd;
        self.round(connection)
    }

    /// Stops the terminal session
    pub fn stop(&mut self)
        ensures
            final(self)@ == (HandlerView { running: false, ..old(self)@ }),
    {
        self.running = false;
    }

    fn finish(&mut self) -> (r: SessionTurn)
        ensures
            (final(self)@, r@) == old(self)@.finished(),
    {
        self.stage = SessionStage::Over;
        only_step(SessionStep::Finished)
    }

    fn round(&mut self, connection: &Connection) -> (r: SessionTurn)
        ensures
            (final(self)@, r@) == old(self)@.round(connection@),
    {
        if !self.running || connection.is_shutting_down() {
            return self.finish();
        }
        let fd = connection.socket_fd();
        self.client_fd = fd;
        self.stage = SessionStage::Polling;
        only_step(
            SessionStep::Poll {
                terminal: self.master_fd,
                client: if fd >= 0 {
                    Some(fd)
                } else {
                    None
                },
                millis: SESSION_POLL_MILLIS,
            },
        )
    }

    fn client_part(&mut self, connection: &Connection) -> (r: SessionTurn)
        ensures
            (final(self)@, r@) == old(self)@.client_part(connection@),
    {
        if self.client_readable {
            self.stage = SessionStage::ReadingClient;
            only_step(SessionStep::ReadClient)
        } else {
            self.round(connection)
        }
    }

    fn handle_packet(
        &mut self,
        header: u8,
        buffer: Option<Vec<u8>>,
        info: Option<TerminalInfo>,
    ) -> (r: SessionTurn)
        ensures
            (final(self)@, r@) == old(self)@.handled(
                header,
                option_view(buffer),
                option_view(info),
            ),
    {
        let mut turn = only_step(SessionStep::ReadClient);
        if header == terminal_packet_type::TERMINAL_BUFFER {
            turn.input = buffer;
        } else if header == terminal_packet_type::TERMINAL_INFO {
            turn.info = info;
        } else if header == terminal_packet_type::KEEP_ALIVE {
            self.stage = SessionStage::SendingKeepalive;
            turn.step = SessionStep::Send(Message::KeepAlive);
        }
        turn
    }

    /// Goes on with the session over `connection`
    pub fn step(&mut self, connection: &Connection, event: SessionEvent) -> (r: SessionTurn)
        requires
            old(self)@.awaits(event),
        ensures
            (final(self)@, r@) == old(self)@.next(connection@, event),
    {
        match event {
            SessionEvent::Polled(None) => self.round(connection),
            SessionEvent::Polled(Some(data)) => {
                self.client_readable = data.client && self.client_fd >= 0;
                if data.terminal {
                    self.stage = SessionStage::ReadingTerminal;
                    only_step(
                        SessionStep::ReadTerminal {
                            fd: self.master_fd,
                            count: TERMINAL_BUFFER_SIZE,
                        },
                    )
                } else {
                    self.client_part(connection)
                }
            },
            SessionEvent::TerminalRead(outcome) => {
                if is_session_end(&outcome) {
                    return self.finish();
                }
                match outcome {
                    Ok(data) => {
                        self.stage = SessionStage::SendingOutput;
                        only_step(SessionStep::Send(Message::TerminalBuffer(data)))
                    },
                    Err(_) => self.client_part(connection),
                }
            },
            SessionEvent::Sent => {
                if self.stage == SessionStage::SendingOutput {
                    self.client_part(connection)
                } else {
                    self.stage = SessionStage::ReadingClient;
                    only_step(SessionStep::ReadClient)
                }
            },
            SessionEvent::NothingRead => self.round(connection),
            SessionEvent::PacketRead { header, buffer, info } => self.handle_packet(
                header,
                buffer,
                info,
            ),
        }
    }
}

/// What the terminal writes is sent to the client as it is, and what the client types reaches
/// the terminal as it is.
pub proof fn law_terminal_data_passes_unchanged(
    handler: HandlerView,
    connection: ConnectionView,
    output: Vec<u8>,
    input: Vec<u8>,
    info: Option<TerminalInfo>,
)
    requires
        output@.len() > 0,
    ensures
        handler.next(connection, SessionEvent::TerminalRead(Ok(output))).1.step
            == SessionStepView::Send(MessageView::TerminalBuffer(output@)),
        handler.next(
            connection,
            SessionEvent::PacketRead {
                header: terminal_packet_type::TERMINAL_BUFFER,
                buffer: Some(input),
                info,
            },
        ).1.input == Some(input@),
{
}

/// Every keepalive of the client is answered with one, and the next packet is read after that.
pub proof fn law_keepalive_is_answered(
    handler: HandlerView,
    connection: ConnectionView,
    buffer: Option<Vec<u8>>,
    info: Option<TerminalInfo>,
)
    requires
        handler.stage == SessionStage::ReadingClient,
    ensures
        ({
            let (answering, turn) = handler.next(
                connection,
                SessionEvent::PacketRead {
                    header: terminal_packet_type::KEEP_ALIVE,
                    buffer,
                    info,
                },
            );
            &&& turn.step == SessionStepView::Send(MessageView::KeepAlive)
            &&& answering.next(connection, SessionEvent::Sent) == (
                handler,
                only(SessionStepView::ReadClient),
            )
        }),
{
}

/// A session that is stopped, or whose connection shuts down, ends with its round.
pub proof fn law_stopped_session_ends(handler: HandlerView, connection: ConnectionView)
    requires
        !handler.running || connection.shutting_down,
    ensures
        handler.next(connection, SessionEvent::NothingRead).1.step is Finished,
        handler.next(connection, SessionEvent::Polled(None)).1.step is Finished,
{
}

/// A round awaits the terminal of the session, and the socket of the connection where there is
/// one; it comes about as long as the session runs and the connection is not shut down.
pub proof fn law_round_awaits_both_sides(handler: HandlerView, connection: ConnectionView)
    ensures
        ({
            let (after, turn) = handler.round(connection);
            &&& turn.input is None && turn.info is None
            &&& handler.running && !connection.shutting_down ==> {
                &&& turn.step == (SessionStepView::Poll {
                    terminal: handler.master_fd,
                    client: if connection.fd >= 0 {
                        Some(connection.fd)
                    } else {
                        None
                    },
                    millis: 10,
                })
                &&& after.client_fd == connection.fd
                &&& after.master_fd == handler.master_fd
                &&& after.running
                &&& forall|event: SessionEvent| #[trigger] after.awaits(event) <==> event is Polled
            }
            &&& !handler.running || connection.shutting_down ==> {
                &&& turn.step is Finished
                &&& forall|event: SessionEvent| !#[trigger] after.awaits(event)
            }
        }),
        handler.next(connection, SessionEvent::NothingRead) == handler.round(connection),
        handler.next(connection, SessionEvent::Polled(None)) == handler.round(connection),
{
}

/// In every round in which the terminal has data, the terminal is read, and in every round in
/// which the socket of the client has data, packets of the client are read: at once where the
/// terminal has no data, and after the terminal and what it gave otherwise, unless the terminal
/// ended the session.
pub proof fn law_round_reads_what_has_data(
    handler: HandlerView,
    connection: ConnectionView,
    data: PolledData,
    outcome: ReadOutcome,
)
    ensures
        ({
            let (polled, turn) = handler.next(connection, SessionEvent::Polled(Some(data)));
            let client = data.client && handler.client_fd >= 0;
            let idle = HandlerView { client_readable: client, ..handler };
            &&& turn.input is None && turn.info is None
            &&& !data.terminal && client ==> turn.step is ReadClient && polled == (HandlerView {
                stage: SessionStage::ReadingClient,
                ..idle
            })
            &&& !data.terminal && !client ==> (polled, turn) == idle.round(connection)
            &&& data.terminal ==> turn.step == (SessionStepView::ReadTerminal {
                fd: handler.master_fd,
                count: 16384,
            })
            &&& forall|event: SessionEvent| #[trigger]
                polled.awaits(event) <==> {
                    ||| turn.step is ReadTerminal && event is TerminalRead
                    ||| turn.step is ReadClient && (event is NothingRead || event is PacketRead)
                    ||| turn.step is Poll && event is Polled
                }
            &&& data.terminal ==> {
                let (read, output) = polled.next(connection, SessionEvent::TerminalRead(outcome));
                let (sent, rest) = read.next(connection, SessionEvent::Sent);
                &&& output.input is None && output.info is None
                &&& match outcome {
                    Ok(bytes) => if bytes@.len() == 0 {
                        output.step is Finished
                    } else {
                        &&& output.step == SessionStepView::Send(
                            MessageView::TerminalBuffer(bytes@),
                        )
                        &&& forall|event: SessionEvent| #[trigger]
                            read.awaits(event) <==> event is Sent
                        &&& client ==> rest.step is ReadClient && sent == (HandlerView {
                            stage: SessionStage::ReadingClient,
                            ..idle
                        })
                        &&& !client ==> (sent, rest) == read.round(connection)
                        &&& rest.input is None && rest.info is None
                        &&& forall|event: SessionEvent| #[trigger]
                            sent.awaits(event) <==> {
                                ||| client && (event is NothingRead || event is PacketRead)
                                ||| rest.step is Poll && event is Polled
                            }
                    },
                    Err(e) => if e.kind is WouldBlock {
                        &&& client ==> output.step is ReadClient && read == (HandlerView {
                            stage: SessionStage::ReadingClient,
                            ..idle
                        })
                        &&& !client ==> (read, output) == polled.round(connection)
                    } else {
                        output.step is Finished
                    },
                }
            }
        }),
{
}

/// Packets of the client are read until there is none left. Each has its effect once: terminal
/// data is typed, a geometry is set, a keepalive is answered, and any other packet is passed over.
/// Only once nothing is left does the next round begin.
pub proof fn law_every_packet_is_handled(
    handler: HandlerView,
    connection: ConnectionView,
    header: u8,
    buffer: Option<Vec<u8>>,
    info: Option<TerminalInfo>,
)
    requires
        handler.stage == SessionStage::ReadingClient,
    ensures
        ({
            let (after, turn) = handler.next(
                connection,
                SessionEvent::PacketRead { header, buffer, info },
            );
            &&& header == 1 ==> match buffer {
                Some(bytes) => turn.input == Some(bytes@),
                None => turn.input is None,
            }
            &&& header != 1 ==> turn.input is None
            &&& header == 2 ==> match info {
                Some(geometry) => turn.info == Some(geometry@),
                None => turn.info is None,
            }
            &&& header != 2 ==> turn.info is None
            &&& header == 0 ==> turn.step == SessionStepView::Send(MessageView::KeepAlive)
            &&& header == 0 ==> {
                let (answered, rest) = after.next(connection, SessionEvent::Sent);
                &&& after.awaits(SessionEvent::Sent)
                &&& answered == handler
                &&& rest.step is ReadClient && rest.input is None && rest.info is None
            }
            &&& header != 0 ==> turn.step is ReadClient && after == handler
        }),
        forall|event: SessionEvent| #[trigger]
            handler.awaits(event) <==> event is NothingRead || event is PacketRead,
{
}

} // verus!
