//! Client connection with auto-reconnect support
//!
//! A [`Link`] is one way to a server: connecting for the first time, or reconnecting until it
//! succeeds. It says what to do on the network and is told what came of it.
use vstd::prelude::*;
use vstd::utf8::encode_utf8;

use crate::backed_writer::{write_answered, PendingWrite};
use crate::connection::{
    Connection, ConnectionRead, ConnectionView, PacketWrite, Recovery, RecoveryEvent,
    RecoveryEventView, RecoveryStage, RecoveryStep, RecoveryStepView, RecoveryView,
};
use crate::crypto::sodium_init;
use crate::decimal::{push_signed, signed_decimal};
use crate::error::{outcome_view, result_view, Error, ErrorView};
use crate::nonce;
use crate::packet::Packet;
use crate::proto::{ConnectRequest, ConnectRequestView, ConnectStatus, ReceivedStatus};
use crate::server_connection::{AcceptEventView, AcceptStepView, AcceptView, ServerView};
use crate::session::recovery_run;
use crate::socket::{EndpointView, SocketEndpoint};
use crate::text::views;
use crate::{NO_SOCKET, PROTOCOL_VERSION};

verus! {

/// How long to wait between attempts to reconnect, in milliseconds
pub const RECONNECT_WAIT_MILLIS: u64 = 1000;

/// Client connection that automatically reconnects when the socket is lost
pub struct ClientConnection {
    connection: Connection,
    endpoint: SocketEndpoint,
    reconnecting: bool,
}

/// The state of a [`ClientConnection`].
pub struct ClientView {
    /// The underlying connection
    pub connection: ConnectionView,
    /// Socket endpoint to connect to
    pub endpoint: EndpointView,
    /// Whether it is currently reconnecting
    pub reconnecting: bool,
}

impl View for ClientConnection {
    type V = ClientView;

    closed spec fn view(&self) -> ClientView {
        ClientView {
            connection: self.connection@,
            endpoint: self.endpoint@,
            reconnecting: self.reconnecting,
        }
    }
}

impl ClientView {
    /// The request with which the client asks for a connection.
    pub open spec fn request(self) -> ConnectRequestView {
        ConnectRequestView { client_id: self.connection.id, version: PROTOCOL_VERSION }
    }

    /// The client with its connection in another state.
    pub open spec fn with(self, connection: ConnectionView) -> ClientView {
        ClientView { connection, ..self }
    }

    /// The start of a first connection.
    pub open spec fn connect_begun(self) -> (LinkView, LinkStepView) {
        (LinkView::start(false, LinkStage::Opening), LinkStepView::Open)
    }

    /// The start of a reconnection. Only one can be under way.
    pub open spec fn reconnect_begun(self) -> (LinkView, ClientView, LinkStepView) {
        if self.reconnecting {
            (
                LinkView::start(true, LinkStage::Over),
                self,
                LinkStepView::Finished(Ok(false)),
            )
        } else {
            LinkView::start(true, LinkStage::Sleeping).attempted(
                ClientView { reconnecting: true, ..self },
            )
        }
    }
}

impl ClientView {
    /// Whether the socket of the connection is lost, and nothing is under way to replace it.
    pub open spec fn lost(self) -> bool {
        &&& self.connection.reader is Some
        &&& self.connection.fd == NO_SOCKET
        &&& !self.connection.shutting_down
        &&& !self.reconnecting
    }

    /// The client with a reconnection begun where its socket is lost.
    pub open spec fn kept_connected(self) -> (ClientView, Option<(LinkView, LinkStepView)>) {
        if self.lost() {
            let (link, client, step) = self.reconnect_begun();
            (client, Some((link, step)))
        } else {
            (self, None)
        }
    }

    /// The client once its socket is given up, the socket to be closed, and the reconnection.
    pub open spec fn given_up(self) -> (ClientView, Option<i32>, (LinkView, LinkStepView)) {
        let (connection, close) = self.connection.closed();
        let (link, client, step) = self.with(connection).reconnect_begun();
        (client, close, (link, step))
    }
}

/// The view of a reconnection.
pub open spec fn reconnection_view(reconnection: Option<(Link, LinkStep)>) -> Option<
    (LinkView, LinkStepView),
> {
    match reconnection {
        Some((link, step)) => Some((link@, step@)),
        None => None,
    }
}

/// How far a link has come
#[derive(Debug, Clone, Copy, PartialEq, Eq, Structural)]
pub enum LinkStage {
    /// A socket is being opened
    Opening,
    /// The connect request is being sent
    Requesting,
    /// The answer of the server is awaited
    AwaitingResponse,
    /// The connection is being recovered
    Recovering,
    /// The next attempt is awaited
    Sleeping,
    /// The link is up, or given up
    Over,
}

/// One way to a server
#[derive(Debug)]
pub struct Link {
    persistent: bool,
    stage: LinkStage,
    fd: i32,
    recovery: Option<Recovery>,
}

/// The state of a [`Link`].
pub struct LinkView {
    /// Whether a failure leads to another attempt
    pub persistent: bool,
    /// How far it has come
    pub stage: LinkStage,
    /// The socket
    pub fd: i32,
    /// The recovery, once there is one
    pub recovery: Option<RecoveryView>,
}

impl View for Link {
    type V = LinkView;

    closed spec fn view(&self) -> LinkView {
        LinkView {
            persistent: self.persistent,
            stage: self.stage,
            fd: self.fd,
            recovery: match self.recovery {
                Some(recovery) => Some(recovery@),
                None => None,
            },
        }
    }
}

/// What came of the latest step of a link
#[derive(Debug)]
pub enum LinkEvent {
    /// A socket was opened, or not
    Opened(Result<i32, Error>),
    /// The message was sent, or not
    Sent(Result<(), Error>),
    /// The server answered, or not
    Response(Result<ReceivedStatus, Error>),
    /// The server gave its sequence number, or not
    SequenceHeader(Result<i32, Error>),
    /// The server sent packets again, or not
    CatchupBuffer(Result<Vec<Vec<u8>>, Error>),
    /// The wait is over
    Slept,
}

/// What a [`LinkEvent`] says.
pub enum LinkEventView {
    Opened(Result<i32, ErrorView>),
    Sent(Result<(), ErrorView>),
    Response(Result<ReceivedStatus, ErrorView>),
    SequenceHeader(Result<i32, ErrorView>),
    CatchupBuffer(Result<Seq<Seq<u8>>, ErrorView>),
    Slept,
}

impl View for LinkEvent {
    type V = LinkEventView;

    open spec fn view(&self) -> LinkEventView {
        match *self {
            LinkEvent::Opened(r) => LinkEventView::Opened(outcome_view(r)),
            LinkEvent::Sent(r) => LinkEventView::Sent(outcome_view(r)),
            LinkEvent::Response(r) => LinkEventView::Response(outcome_view(r)),
            LinkEvent::SequenceHeader(r) => LinkEventView::SequenceHeader(outcome_view(r)),
            LinkEvent::CatchupBuffer(Ok(packets)) => LinkEventView::CatchupBuffer(
                Ok(views(packets@)),
            ),
            LinkEvent::CatchupBuffer(Err(e)) => LinkEventView::CatchupBuffer(Err(e@)),
            LinkEvent::Slept => LinkEventView::Slept,
        }
    }
}

/// What a link needs next
#[derive(Debug)]
pub enum LinkStep {
    /// A socket to the endpoint is to be opened
    Open,
    /// The connect request is to be sent
    SendRequest { fd: i32, request: ConnectRequest },
    /// The answer of the server is to be read
    AwaitResponse { fd: i32 },
    /// The own sequence number is to be sent
    SendSequenceHeader { fd: i32, sequence_number: i32 },
    /// The sequence number of the server is to be read
    AwaitSequenceHeader { fd: i32 },
    /// These packets are to be sent
    SendCatchup { fd: i32, packets: Vec<Vec<u8>> },
    /// The packets that the server sends again are to be read
    AwaitCatchup { fd: i32 },
    /// The next attempt is to be awaited
    Sleep { millis: u64 },
    /// The link is over: whether it is up, or why it failed
    Finished(Result<bool, Error>),
}

/// What a [`LinkStep`] says.
pub enum LinkStepView {
    Open,
    SendRequest { fd: i32, request: ConnectRequestView },
    AwaitResponse { fd: i32 },
    SendSequenceHeader { fd: i32, sequence_number: i32 },
    AwaitSequenceHeader { fd: i32 },
    SendCatchup { fd: i32, packets: Seq<Seq<u8>> },
    AwaitCatchup { fd: i32 },
    Sleep { millis: u64 },
    Finished(Result<bool, ErrorView>),
}

impl View for LinkStep {
    type V = LinkStepView;

    open spec fn view(&self) -> LinkStepView {
        match *self {
            LinkStep::Open => LinkStepView::Open,
            LinkStep::SendRequest { fd, request } => LinkStepView::SendRequest {
                fd,
                request: request@,
            },
            LinkStep::AwaitResponse { fd } => LinkStepView::AwaitResponse { fd },
            LinkStep::SendSequenceHeader { fd, sequence_number } =>
                LinkStepView::SendSequenceHeader { fd, sequence_number },
            LinkStep::AwaitSequenceHeader { fd } => LinkStepView::AwaitSequenceHeader { fd },
            LinkStep::SendCatchup { fd, packets } => LinkStepView::SendCatchup {
                fd,
                packets: views(packets@),
            },
            LinkStep::AwaitCatchup { fd } => LinkStepView::AwaitCatchup { fd },
            LinkStep::Sleep { millis } => LinkStepView::Sleep { millis },
            LinkStep::Finished(r) => LinkStepView::Finished(outcome_view(r)),
        }
    }
}

/// The event of a recovery that an event of a link stands for.
pub open spec fn recovery_event(event: LinkEventView) -> Option<RecoveryEventView> {
    match event {
        LinkEventView::Sent(r) => Some(RecoveryEventView::Sent(r)),
        LinkEventView::SequenceHeader(r) => Some(RecoveryEventView::SequenceHeader(r)),
        LinkEventView::CatchupBuffer(r) => Some(RecoveryEventView::CatchupBuffer(r)),
        _ => None,
    }
}

/// The error of a first connection that the server did not grant.
pub open spec fn refusal(response: ReceivedStatus) -> ErrorView {
    match response.status {
        Some(ConnectStatus::InvalidKey) => ErrorView::Connection("Invalid key"@),
        Some(ConnectStatus::MismatchedProtocol) => ErrorView::Connection(
            "Protocol version mismatch"@,
        ),
        _ => ErrorView::Connection(
            "Unknown connection status: "@ + signed_decimal(response.number as int),
        ),
    }
}

impl LinkView {
    /// A link before it has a socket.
    pub open spec fn start(persistent: bool, stage: LinkStage) -> LinkView {
        LinkView { persistent, stage, fd: NO_SOCKET, recovery: None }
    }

    /// What holds of every link: a recovery is on the socket of the link.
    pub open spec fn wf(self, client: ClientView) -> bool {
        self.stage == LinkStage::Recovering ==> {
            &&& self.recovery is Some
            &&& self.recovery->0.fd == self.fd
            &&& self.recovery->0.stage != RecoveryStage::Over
            &&& client.connection.reader is Some
            &&& client.connection.writer is Some
        }
    }

    /// Whether `event` is what the link waits for. The sequence numbers have to stay within
    /// their range.
    pub open spec fn awaits(self, client: ClientView, event: LinkEventView) -> bool {
        match self.stage {
            LinkStage::Opening => event is Opened,
            LinkStage::Requesting => event is Sent,
            LinkStage::AwaitingResponse => event is Response,
            LinkStage::Recovering => {
                &&& recovery_event(event) is Some
                &&& self.recovery->0.awaits(recovery_event(event)->0)
                &&& client.connection.writer->0.sequence_number <= i64::MAX - 0x8000_0000
                &&& event matches LinkEventView::CatchupBuffer(Ok(packets))
                    ==> client.connection.reader->0.sequence_number + packets.len() <= i64::MAX
            },
            LinkStage::Sleeping => event is Slept,
            LinkStage::Over => false,
        }
    }

    /// The link at another stage.
    pub open spec fn at(self, stage: LinkStage) -> LinkView {
        LinkView { stage, ..self }
    }

    /// The end of a link. A reconnection that ends is no longer under way.
    pub open spec fn finished(self, client: ClientView, up: bool) -> (
        LinkView,
        ClientView,
        LinkStepView,
    ) {
        (
            self.at(LinkStage::Over),
            ClientView { reconnecting: !self.persistent && client.reconnecting, ..client },
            LinkStepView::Finished(Ok(up)),
        )
    }

    /// A failed attempt: a first connection ends with the error, a reconnection waits for the
    /// next attempt.
    pub open spec fn failed(self, client: ClientView, error: ErrorView) -> (
        LinkView,
        ClientView,
        LinkStepView,
    ) {
        if self.persistent {
            self.slept(client)
        } else {
            (self.at(LinkStage::Over), client, LinkStepView::Finished(Err(error)))
        }
    }

    /// A wait for the next attempt.
    pub open spec fn slept(self, client: ClientView) -> (LinkView, ClientView, LinkStepView) {
        (
            self.at(LinkStage::Sleeping),
            client,
            LinkStepView::Sleep { millis: RECONNECT_WAIT_MILLIS },
        )
    }

    /// The start of an attempt, unless the connection is shutting down.
    pub open spec fn attempted(self, client: ClientView) -> (LinkView, ClientView, LinkStepView) {
        if client.connection.shutting_down {
            self.finished(client, false)
        } else {
            (self.at(LinkStage::Opening), client, LinkStepView::Open)
        }
    }

    /// What follows from the opening of a socket.
    pub open spec fn after_opening(self, client: ClientView, outcome: Result<i32, ErrorView>) -> (
        LinkView,
        ClientView,
        LinkStepView,
    ) {
        match outcome {
            Err(e) => self.failed(client, e),
            Ok(fd) => if fd >= 0 {
                (
                    LinkView { fd, stage: LinkStage::Requesting, ..self },
                    client,
                    LinkStepView::SendRequest { fd, request: client.request() },
                )
            } else if self.persistent {
                self.slept(client)
            } else {
                self.finished(client, false)
            },
        }
    }

    /// The start of a recovery.
    pub open spec fn recovery_begun(self, client: ClientView) -> (
        LinkView,
        ClientView,
        LinkStepView,
    ) {
        match client.connection.recovery_begun() {
            Err(e) => self.failed(client, e),
            Ok(sequence_number) => (
                LinkView {
                    stage: LinkStage::Recovering,
                    recovery: Some(
                        RecoveryView { stage: RecoveryStage::SendingHeader, fd: self.fd },
                    ),
                    ..self
                },
                client,
                LinkStepView::SendSequenceHeader { fd: self.fd, sequence_number },
            ),
        }
    }

    /// What follows from the answer of the server. A first connection makes a new client's
    /// connection usable, given whether the sodium library is ready for each direction: it reads
    /// what goes from server to client, and writes what goes from client to server. A
    /// reconnection only goes on as a returning client.
    pub open spec fn after_response(
        self,
        client: ClientView,
        outcome: Result<ReceivedStatus, ErrorView>,
        reader_ready: bool,
        writer_ready: bool,
    ) -> (LinkView, ClientView, LinkStepView) {
        match outcome {
            Err(e) => self.failed(client, e),
            Ok(response) => match response.status {
                Some(ConnectStatus::ReturningClient) => self.recovery_begun(client),
                Some(ConnectStatus::NewClient) => if self.persistent {
                    self.slept(client)
                } else {
                    let (connection, initialized) = client.connection.initialized(
                        reader_ready,
                        writer_ready,
                        self.fd,
                        nonce::SERVER_CLIENT,
                    );
                    match initialized {
                        Ok(_) => self.finished(client.with(connection), true),
                        Err(e) => self.failed(client.with(connection), e),
                    }
                },
                _ => self.failed(client, refusal(response)),
            },
        }
    }

    /// What follows from an exchange of the recovery.
    pub open spec fn after_exchange(self, client: ClientView, event: RecoveryEventView) -> (
        LinkView,
        ClientView,
        LinkStepView,
    ) {
        let (recovery, connection, step) = self.recovery->0.next(client.connection, event);
        let link = LinkView { recovery: Some(recovery), ..self };
        let client = client.with(connection);
        match step {
            RecoveryStepView::AwaitSequenceHeader => (
                link,
                client,
                LinkStepView::AwaitSequenceHeader { fd: self.fd },
            ),
            RecoveryStepView::SendCatchup(packets) => (
                link,
                client,
                LinkStepView::SendCatchup { fd: self.fd, packets },
            ),
            RecoveryStepView::AwaitCatchup => (
                link,
                client,
                LinkStepView::AwaitCatchup { fd: self.fd },
            ),
            RecoveryStepView::Finished(Ok(_)) => link.finished(client, true),
            RecoveryStepView::Finished(Err(e)) => link.failed(client, e),
        }
    }

    /// The next state of the link and of its client, and what is needed next.
    pub open spec fn next(
        self,
        client: ClientView,
        event: LinkEventView,
        reader_ready: bool,
        writer_ready: bool,
    ) -> (LinkView, ClientView, LinkStepView) {
        match self.stage {
            LinkStage::Opening => self.after_opening(client, event->Opened_0),
            LinkStage::Requesting => match event->Sent_0 {
                Err(e) => self.failed(client, e),
                Ok(_) => (
                    self.at(LinkStage::AwaitingResponse),
                    client,
                    LinkStepView::AwaitResponse { fd: self.fd },
                ),
            },
            LinkStage::AwaitingResponse => self.after_response(
                client,
                event->Response_0,
                reader_ready,
                writer_ready,
            ),
            LinkStage::Recovering => self.after_exchange(client, recovery_event(event)->0),
            LinkStage::Sleeping => self.attempted(client),
            LinkStage::Over => (self, client, LinkStepView::Finished(Ok(false))),
        }
    }
}

fn refusal_error(response: ReceivedStatus) -> (r: Error)
    ensures
        r@ == refusal(response),
{
    match response.status {
        Some(ConnectStatus::InvalidKey) => Error::Connection("Invalid key".to_owned()),
        Some(ConnectStatus::MismatchedProtocol) => Error::Connection(
            "Protocol version mismatch".to_owned(),
        ),
        _ => {
            let mut text = "Unknown connection status: ".to_owned();
            push_signed(&mut text, response.number as i64);
            Error::Connection(text)
        },
    }
}

impl Link {
    fn finish(&mut self, client: &mut ClientConnection, up: bool) -> (r: LinkStep)
        ensures
            (final(self)@, final(client)@, r@) == old(self)@.finished(old(client)@, up),
    {
        self.stage = LinkStage::Over;
        if self.persistent {
            client.reconnecting = false;
        }
        LinkStep::Finished(Ok(up))
    }

    fn sleep(&mut self) -> (r: LinkStep)
        ensures
            final(self)@ == old(self)@.at(LinkStage::Sleeping),
            r@ == (LinkStepView::Sleep { millis: RECONNECT_WAIT_MILLIS }),
    {
        self.stage = LinkStage::Sleeping;
        LinkStep::Sleep { millis: RECONNECT_WAIT_MILLIS }
    }

    fn fail(&mut self, client: &ClientConnection, error: Error) -> (r: LinkStep)
        ensures
            (final(self)@, client@, r@) == old(self)@.failed(client@, error@),
    {
        if self.persistent {
            self.sleep()
        } else {
            self.stage = LinkStage::Over;
            LinkStep::Finished(Err(error))
        }
    }

    fn attempt(&mut self, client: &mut ClientConnection) -> (r: LinkStep)
        ensures
            (final(self)@, final(client)@, r@) == old(self)@.attempted(old(client)@),
    {
        if client.connection.is_shutting_down() {
            self.finish(client, false)
        } else {
            self.stage = LinkStage::Opening;
            LinkStep::Open
        }
    }

    fn opened(&mut self, client: &mut ClientConnection, outcome: Result<i32, Error>) -> (r:
        LinkStep)
        ensures
            (final(self)@, final(client)@, r@) == old(self)@.after_opening(
                old(client)@,
                outcome_view(outcome),
            ),
    {
        match outcome {
            Err(e) => self.fail(client, e),
            Ok(fd) => {
                if fd >= 0 {
                    self.fd = fd;
                    self.stage = LinkStage::Requesting;
                    LinkStep::SendRequest {
                        fd,
                        request: ConnectRequest {
                            client_id: client.connection.id().to_owned(),
                            version: PROTOCOL_VERSION,
                        },
                    }
                } else if self.persistent {
                    self.sleep()
                } else {
                    self.finish(client, false)
                }
            },
        }
    }

    fn begin_recovery(&mut self, client: &ClientConnection) -> (r: LinkStep)
        requires
            client@.connection.wf(),
        ensures
            (final(self)@, client@, r@) == old(self)@.recovery_begun(client@),
            final(self)@.wf(client@),
    {
        match client.connection.recover(self.fd) {
            Err(e) => self.fail(client, e),
            Ok((recovery, sequence_number)) => {
                self.stage = LinkStage::Recovering;
                self.recovery = Some(recovery);
                LinkStep::SendSequenceHeader { fd: self.fd, sequence_number }
            },
        }
    }

    fn exchanged(&mut self, client: &mut ClientConnection, event: RecoveryEvent) -> (r: LinkStep)
        requires
            old(client)@.connection.wf(),
            old(self)@.wf(old(client)@),
            old(self)@.stage == LinkStage::Recovering,
            old(self)@.recovery->0.awaits(event@),
            old(client)@.connection.writer->0.sequence_number <= i64::MAX - 0x8000_0000,
            event@ matches RecoveryEventView::CatchupBuffer(Ok(packets)) ==> old(
                client,
            )@.connection.reader->0.sequence_number + packets.len() <= i64::MAX,
        ensures
            (final(self)@, final(client)@, r@) == old(self)@.after_exchange(old(client)@, event@),
            final(client)@.connection.wf(),
            final(self)@.wf(final(client)@),
    {
        let step = match &mut self.recovery {
            Some(recovery) => recovery.step(&mut client.connection, event),
            None => RecoveryStep::Finished(Ok(false)),
        };
        match step {
            RecoveryStep::AwaitSequenceHeader => LinkStep::AwaitSequenceHeader { fd: self.fd },
            RecoveryStep::SendCatchup(packets) => LinkStep::SendCatchup { fd: self.fd, packets },
            RecoveryStep::AwaitCatchup => LinkStep::AwaitCatchup { fd: self.fd },
            RecoveryStep::Finished(Ok(_)) => self.finish(client, true),
            RecoveryStep::Finished(Err(e)) => self.fail(client, e),
        }
    }

    /// Goes on with the link of `client`, given whether `sodiumoxide::init` succeeded for the
    /// reader and for the writer
    pub fn step_with_sodium(
        &mut self,
        client: &mut ClientConnection,
        event: LinkEvent,
        reader_ready: bool,
        writer_ready: bool,
    ) -> (r: LinkStep)
        requires
            old(client)@.connection.wf(),
            old(self)@.wf(old(client)@),
            old(self)@.awaits(old(client)@, event@),
        ensures
            (final(self)@, final(client)@, r@) == old(self)@.next(
                old(client)@,
                event@,
                reader_ready,
                writer_ready,
            ),
            final(client)@.connection.wf(),
            final(self)@.wf(final(client)@),
    {
        match event {
            LinkEvent::Opened(outcome) => self.opened(client, outcome),
            LinkEvent::Sent(outcome) => {
                if self.stage == LinkStage::Recovering {
                    return self.exchanged(client, RecoveryEvent::Sent(outcome));
                }
                match outcome {
                    Err(e) => self.fail(client, e),
                    Ok(_) => {
                        self.stage = LinkStage::AwaitingResponse;
                        LinkStep::AwaitResponse { fd: self.fd }
                    },
                }
            },
            LinkEvent::Response(outcome) => match outcome {
                Err(e) => self.fail(client, e),
                Ok(response) => match response.status {
                    Some(ConnectStatus::ReturningClient) => self.begin_recovery(client),
                    Some(ConnectStatus::NewClient) => {
                        if self.persistent {
                            return self.sleep();
                        }
                        match client.connection.initialize_with_sodium(
                            reader_ready,
                            writer_ready,
                            self.fd,
                            nonce::SERVER_CLIENT,
                        ) {
                            Ok(_) => self.finish(client, true),
                            Err(e) => self.fail(client, e),
                        }
                    },
                    _ => self.fail(client, refusal_error(response)),
                },
            },
            LinkEvent::SequenceHeader(outcome) => self.exchanged(
                client,
                RecoveryEvent::SequenceHeader(outcome),
            ),
            LinkEvent::CatchupBuffer(outcome) => self.exchanged(
                client,
                RecoveryEvent::CatchupBuffer(outcome),
            ),
            LinkEvent::Slept => self.attempt(client),
        }
    }

    /// Goes on with the link of `client`
    pub fn step(&mut self, client: &mut ClientConnection, event: LinkEvent) -> (r: LinkStep)
        requires
            old(client)@.connection.wf(),
            old(self)@.wf(old(client)@),
            old(self)@.awaits(old(client)@, event@),
        ensures
            exists|reader_ready: bool, writer_ready: bool|
                (final(self)@, final(client)@, r@) == #[trigger] old(self)@.next(
                    old(client)@,
                    event@,
                    reader_ready,
                    writer_ready,
                ),
            final(client)@.connection.wf(),
            final(self)@.wf(final(client)@),
    {
        let reader_ready = sodium_init();
        let writer_ready = sodium_init();
        let r = self.step_with_sodium(client, event, reader_ready, writer_ready);
        assert((self@, client@, r@) == old(self)@.next(
            old(client)@,
            event@,
            reader_ready,
            writer_ready,
        ));
        r
    }
}

impl ClientConnection {
    /// Creates a new client connection
    pub fn new(endpoint: SocketEndpoint, id: &str, key: &str) -> (r: ClientConnection)
        ensures
            r@ == (ClientView {
                connection: ConnectionView::fresh(id@, encode_utf8(key@)),
                endpoint: endpoint@,
                reconnecting: false,
            }),
            r@.connection.wf(),
    {
        ClientConnection { connection: Connection::new(id, key), endpoint, reconnecting: false }
    }

    /// Socket endpoint to connect to
    pub fn endpoint(&self) -> (r: &SocketEndpoint)
        ensures
            r@ == self@.endpoint,
    {
        &self.endpoint
    }

    /// The underlying connection
    pub fn connection(&self) -> (r: &Connection)
        ensures
            r@ == self@.connection,
    {
        &self.connection
    }

    /// The underlying connection, to be used
    pub fn connection_mut(&mut self) -> (r: &mut Connection)
        ensures
            r@ == old(self)@.connection,
            final(self)@ == old(self)@.with(final(r)@),
    {
        &mut self.connection
    }

    /// Starts to establish the initial connection to the server
    pub fn connect(&self) -> (r: (Link, LinkStep))
        ensures
            (r.0@, r.1@) == self@.connect_begun(),
            r.0@.wf(self@),
    {
        (
            Link {
                persistent: false,
                stage: LinkStage::Opening,
                fd: NO_SOCKET,
                recovery: None,
            },
            LinkStep::Open,
        )
    }

    /// Starts to reconnect to the server
    pub fn reconnect(&mut self) -> (r: (Link, LinkStep))
        ensures
            (r.0@, final(self)@, r.1@) == old(self)@.reconnect_begun(),
            old(self)@.connection.wf() ==> final(self)@.connection.wf(),
            r.0@.wf(final(self)@),
    {
        let mut link = Link {
            persistent: true,
            stage: LinkStage::Sleeping,
            fd: NO_SOCKET,
            recovery: None,
        };
        if self.reconnecting {
            link.stage = LinkStage::Over;
            return (link, LinkStep::Finished(Ok(false)));
        }
        self.reconnecting = true;
        let step = link.attempt(self);
        (link, step)
    }

    /// Starts to read a packet from the connection
    pub fn read_packet(&mut self) -> (r: ConnectionRead)
        requires
            old(self)@.connection.wf(),
        ensures
            ({
                let (connection, step) = old(self)@.connection.packet_read_begun();
                final(self)@ == old(self)@.with(connection) && r@ == step
            }),
            final(self)@.connection.wf(),
    {
        self.connection.read_packet()
    }

    /// Starts to read a packet without blocking
    pub fn read(&mut self) -> (r: ConnectionRead)
        requires
            old(self)@.connection.wf(),
        ensures
            ({
                let (connection, step) = old(self)@.connection.read_begun();
                final(self)@ == old(self)@.with(connection) && r@ == step
            }),
            final(self)@.connection.wf(),
    {
        self.connection.read()
    }

    /// Goes on with a read: `outcome` is what the socket gave for the bytes that were wanted
    pub fn received(&mut self, outcome: Result<Vec<u8>, Error>) -> (r: ConnectionRead)
        requires
            old(self)@.connection.wf(),
            old(self)@.connection.reader matches Some(reader) && reader.sequence_number < i64::MAX
                && (outcome matches Ok(data) ==> data@.len() <= reader.wanted()),
        ensures
            ({
                let (reader, step) = old(self)@.connection.reader->0.outcome_received(
                    result_view(outcome),
                );
                let (connection, step) = old(self)@.connection.read_settled(reader, step);
                final(self)@ == old(self)@.with(connection) && r@ == step
            }),
            final(self)@.connection.wf(),
    {
        self.connection.received(outcome)
    }

    /// Starts to write a packet to the connection
    pub fn write_packet(&mut self, packet: &Packet) -> (r: PacketWrite)
        requires
            old(self)@.connection.wf(),
            old(self)@.connection.can_take(packet@),
        ensures
            ({
                let (connection, step) = old(self)@.connection.packet_write_begun(packet@);
                final(self)@ == old(self)@.with(connection) && r@ == step
            }),
            final(self)@.connection.wf(),
            r@.wf(),
    {
        self.connection.write_packet(packet)
    }

    /// Goes on with a write: `outcome` is how many bytes of the rest the socket took
    pub fn packet_sent(&mut self, pending: PendingWrite, outcome: Result<usize, Error>) -> (r:
        PacketWrite)
        requires
            old(self)@.connection.wf(),
            pending@.wf(),
            outcome matches Ok(n) ==> n <= pending@.data.len() - pending@.written,
        ensures
            ({
                let (connection, step) = old(self)@.connection.write_settled(
                    write_answered(pending@, outcome),
                );
                final(self)@ == old(self)@.with(connection) && r@
                    == connection.packet_write_settled(step)
            }),
            final(self)@.connection.wf(),
            r@.wf(),
    {
        self.connection.packet_sent(pending, outcome)
    }

    /// Goes on with a write after the wait that a step asked for
    pub fn packet_resume(&mut self, pending: PendingWrite) -> (r: PacketWrite)
        requires
            old(self)@.connection.wf(),
            old(self)@.connection.writer is Some,
            pending@.wf(),
        ensures
            ({
                let (connection, step) = old(self)@.connection.write_settled(
                    old(self)@.connection.writer->0.write_resumed(pending@),
                );
                final(self)@ == old(self)@.with(connection) && r@
                    == connection.packet_write_settled(step)
            }),
            final(self)@.connection.wf(),
            r@.wf(),
    {
        self.connection.packet_resume(pending)
    }

    /// Get the socket file descriptor
    pub fn socket_fd(&self) -> (r: i32)
        ensures
            r == self@.connection.fd,
    {
        self.connection.socket_fd()
    }

    /// Check if there is data to read
    pub fn has_data(&self, socket_readable: bool) -> (r: bool)
        ensures
            r == (self@.connection.reader matches Some(reader) && (reader.local.len() > 0 || (
            reader.fd >= 0 && socket_readable))),
    {
        self.connection.has_data(socket_readable)
    }

    /// Get the connection ID
    pub fn id(&self) -> (r: &str)
        ensures
            r@ == self@.connection.id,
    {
        self.connection.id()
    }

    /// Check if the connection is shutting down
    pub fn is_shutting_down(&self) -> (r: bool)
        ensures
            r == self@.connection.shutting_down,
    {
        self.connection.is_shutting_down()
    }

    /// Shuts the connection down
    ///
    /// # Returns
    /// The socket that is to be closed, if there was one
    pub fn shutdown(&mut self) -> (r: Option<i32>)
        ensures
            ({
                let (connection, close) = (ConnectionView {
                    shutting_down: true,
                    ..old(self)@.connection
                }).closed();
                final(self)@ == old(self)@.with(connection) && r == close
            }),
            old(self)@.connection.wf() ==> final(self)@.connection.wf(),
    {
        self.connection.shutdown()
    }

    /// Gives up the socket and starts to reconnect, unless the connection is shutting down or
    /// is reconnecting already
    ///
    /// # Returns
    /// The socket that is to be closed, if there was one, and the reconnection
    pub fn close_socket_and_maybe_reconnect(&mut self) -> (r: (Option<i32>, (Link, LinkStep)))
        ensures
            (final(self)@, r.0, (r.1.0@, r.1.1@)) == old(self)@.given_up(),
            r.1.0@.wf(final(self)@),
            old(self)@.connection.wf() ==> final(self)@.connection.wf(),
    {
        let close = self.connection.close_socket();
        (close, self.reconnect())
    }

    /// Starts to reconnect where the socket is lost and nothing is under way to replace it
    pub fn keep_connected(&mut self) -> (r: Option<(Link, LinkStep)>)
        ensures
            (final(self)@, reconnection_view(r)) == old(self)@.kept_connected(),
            r matches Some((link, _)) ==> link@.wf(final(self)@),
            old(self)@.connection.wf() ==> final(self)@.connection.wf(),
    {
        if self.connection.reader().is_some() && self.connection.is_disconnected()
            && !self.connection.is_shutting_down() && !self.reconnecting {
            Some(self.reconnect())
        } else {
            None
        }
    }
}

/// Only one reconnection is under way at a time: a second one gives up at once and changes
/// nothing.
pub proof fn law_one_reconnection_at_a_time(client: ClientView)
    requires
        client.reconnecting,
    ensures
        ({
            let (link, after, step) = client.reconnect_begun();
            link.stage == LinkStage::Over && after == client && step == LinkStepView::Finished(
                Ok(false),
            )
        }),
{
}

/// A socket that is lost is replaced: giving it up starts a reconnection, and so does finding it
/// lost, once; neither happens while the connection shuts down.
pub proof fn law_lost_socket_is_replaced(client: ClientView)
    requires
        !client.reconnecting,
        client.connection.reader is Some,
    ensures
        ({
            let (after, close, (link, step)) = client.given_up();
            &&& after.connection == client.connection.closed().0
            &&& !client.connection.shutting_down ==> step is Open && after.reconnecting
            &&& client.connection.shutting_down ==> step == LinkStepView::Finished(Ok(false))
                && !after.reconnecting
        }),
        ({
            let closed = client.with(client.connection.closed().0);
            let (after, reconnection) = closed.kept_connected();
            &&& reconnection is Some <==> !client.connection.shutting_down
            &&& reconnection matches Some((link, step)) ==> step is Open && link.persistent
                && after.reconnecting && after.connection == closed.connection
            &&& after.kept_connected().1 is None
        }),
{
}

/// A reconnection ends only when it has succeeded or when the connection shuts down; no failure
/// on the way ends it. When it ends, it is no longer under way.
pub proof fn law_reconnection_persists(
    link: LinkView,
    client: ClientView,
    event: LinkEventView,
    reader_ready: bool,
    writer_ready: bool,
)
    requires
        link.persistent,
        link.wf(client),
        link.awaits(client, event),
    ensures
        ({
            let (next, after, step) = link.next(client, event, reader_ready, writer_ready);
            &&& next.persistent
            &&& step matches LinkStepView::Finished(result) ==> {
                &&& result is Ok
                &&& !after.reconnecting
                &&& result->Ok_0 <==> link.stage == LinkStage::Recovering
                &&& !result->Ok_0 ==> client.connection.shutting_down
            }
            &&& !(step is Finished) ==> after.reconnecting == client.reconnecting
        }),
{
}

/// Until a reconnection succeeds, the connection stays as it is: what it has yet to send is kept
/// through every failed attempt.
pub proof fn law_failed_attempts_change_nothing(
    link: LinkView,
    client: ClientView,
    event: LinkEventView,
    reader_ready: bool,
    writer_ready: bool,
)
    requires
        link.persistent,
        link.wf(client),
        link.awaits(client, event),
    ensures
        ({
            let (next, after, step) = link.next(client, event, reader_ready, writer_ready);
            step != LinkStepView::Finished(Ok(true)) ==> after.connection == client.connection
        }),
{
}

/// A reconnection whose exchanges all succeed recovers the connection: what it has then received
/// and is to replay is what the recovery of the connection by itself would give.
pub proof fn law_reconnection_recovers_the_connection(
    link: LinkView,
    client: ClientView,
    number: i32,
    remote: i32,
    catchup: Seq<Seq<u8>>,
)
    requires
        link.persistent,
        link.stage == LinkStage::AwaitingResponse,
        client.connection.wf(),
        client.connection.reader is Some,
        client.connection.writer is Some,
        client.connection.writer->0.recovered(remote as int) is Ok,
    ensures
        ({
            let returning = ReceivedStatus {
                number,
                status: Some(ConnectStatus::ReturningClient),
            };
            let (l1, c1, s1) = link.next(
                client,
                LinkEventView::Response(Ok(returning)),
                true,
                true,
            );
            let (l2, c2, s2) = l1.next(c1, LinkEventView::Sent(Ok(())), true, true);
            let (l3, c3, s3) = l2.next(c2, LinkEventView::SequenceHeader(Ok(remote)), true, true);
            let (l4, c4, s4) = l3.next(c3, LinkEventView::Sent(Ok(())), true, true);
            let (l5, c5, s5) = l4.next(c4, LinkEventView::CatchupBuffer(Ok(catchup)), true, true);
            let (recovered, offered, end) = recovery_run(
                client.connection,
                link.fd,
                remote,
                catchup,
            );
            &&& s1 is SendSequenceHeader && s1->sequence_number
                == client.connection.recovery_begun()->Ok_0
            &&& s3 is SendCatchup && offered == RecoveryStepView::SendCatchup(s3->packets)
            &&& s5 == LinkStepView::Finished(Ok(true))
            &&& c5.connection == recovered
            &&& !c5.reconnecting
        }),
{
}

/// Every link begins by opening a socket, a first connection as well as a reconnection of a
/// client that is not shut down; only the reconnection persists.
pub proof fn law_links_begin_with_a_socket(client: ClientView)
    ensures
        ({
            let (link, step) = client.connect_begun();
            &&& step is Open && !link.persistent
            &&& link.wf(client)
            &&& forall|event: LinkEventView| #[trigger]
                link.awaits(client, event) <==> event is Opened
        }),
        ({
            let (link, after, step) = client.reconnect_begun();
            &&& link.wf(after)
            &&& after.connection == client.connection && after.endpoint == client.endpoint
            &&& !client.reconnecting && !client.connection.shutting_down ==> {
                &&& step is Open && link.persistent && after.reconnecting
                &&& forall|event: LinkEventView| #[trigger]
                    link.awaits(after, event) <==> event is Opened
            }
            &&& client.reconnecting || client.connection.shutting_down ==> {
                &&& step == LinkStepView::Finished(Ok(false))
                &&& after == client
                &&& forall|event: LinkEventView| !#[trigger] link.awaits(after, event)
            }
        }),
{
}

/// Once a socket is open, whatever the link and the client, the request goes out on it and names
/// the client by the id of its connection, with the version of the protocol; once it is sent, the
/// answer is awaited on the same socket. The client stays as it is.
pub proof fn law_request_names_the_client(
    link: LinkView,
    client: ClientView,
    fd: i32,
    reader_ready: bool,
    writer_ready: bool,
)
    requires
        link.stage == LinkStage::Opening,
        fd >= 0,
    ensures
        ({
            let (asking, c1, s1) = link.next(
                client,
                LinkEventView::Opened(Ok(fd)),
                reader_ready,
                writer_ready,
            );
            let (waiting, c2, s2) = asking.next(
                c1,
                LinkEventView::Sent(Ok(())),
                reader_ready,
                writer_ready,
            );
            &&& s1 == (LinkStepView::SendRequest {
                fd,
                request: ConnectRequestView { client_id: client.connection.id, version: 6 },
            })
            &&& c1 == client && c2 == client
            &&& forall|event: LinkEventView| #[trigger] asking.awaits(c1, event) <==> event is Sent
            &&& s2 == (LinkStepView::AwaitResponse { fd })
            &&& forall|event: LinkEventView| #[trigger]
                waiting.awaits(c2, event) <==> event is Response
            &&& waiting.fd == fd && waiting.persistent == link.persistent
        }),
{
}

/// A client that reconnects is recognized: whatever socket it opens, the request that it sends is
/// answered by a server that has adopted it under its id as that of a returning client, and it is
/// the connection of that client that the server then recovers.
pub proof fn law_reconnecting_client_is_recognized<H>(
    client: ClientView,
    fd: i32,
    server: ServerView<H>,
    handle: H,
    client_key: Seq<char>,
    accepted_fd: i32,
    key: Seq<u8>,
    reader_ready: bool,
    writer_ready: bool,
)
    requires
        !client.reconnecting,
        !client.connection.shutting_down,
        fd >= 0,
    ensures
        ({
            let known = server.adopted(client.connection.id, handle, client_key);
            let (opening, c1, s1) = client.reconnect_begun();
            let (asking, c2, s2) = opening.next(
                c1,
                LinkEventView::Opened(Ok(fd)),
                reader_ready,
                writer_ready,
            );
            let (asked, response) = AcceptView::start(accepted_fd).next(
                known,
                AcceptEventView::Request(Ok(s2->SendRequest_request)),
                key,
                reader_ready,
                writer_ready,
            );
            let (told, step) = asked.next(
                known,
                AcceptEventView::Sent(Ok(())),
                key,
                reader_ready,
                writer_ready,
            );
            &&& s1 is Open
            &&& s2 is SendRequest && s2->SendRequest_fd == fd
            &&& response matches AcceptStepView::SendResponse(sent)
            &&& sent.status == ConnectStatus::ReturningClient && sent.error.len() == 0
            &&& step is Recover
            &&& told.client_id == client.connection.id
            &&& known.connections[told.client_id] == handle
        }),
{
}

/// A socket that is not opened: a reconnection waits a second and then tries again, and a first
/// connection fails with the error, or is not up where there was none. The client stays as it is.
pub proof fn law_unopened_socket_is_tried_again(
    link: LinkView,
    client: ClientView,
    outcome: Result<i32, ErrorView>,
    reader_ready: bool,
    writer_ready: bool,
)
    requires
        link.stage == LinkStage::Opening,
        outcome matches Ok(fd) ==> fd < 0,
    ensures
        ({
            let (next, after, step) = link.next(
                client,
                LinkEventView::Opened(outcome),
                reader_ready,
                writer_ready,
            );
            &&& after == client
            &&& link.persistent ==> {
                let (again, c2, s2) = next.next(
                    after,
                    LinkEventView::Slept,
                    reader_ready,
                    writer_ready,
                );
                &&& step == (LinkStepView::Sleep { millis: 1000 })
                &&& forall|event: LinkEventView| #[trigger]
                    next.awaits(after, event) <==> event is Slept
                &&& !client.connection.shutting_down ==> s2 is Open && c2 == client
                &&& client.connection.shutting_down ==> {
                    &&& s2 == LinkStepView::Finished(Ok(false))
                    &&& c2.connection == client.connection && !c2.reconnecting
                }
            }
            &&& !link.persistent ==> step == LinkStepView::Finished(
                match outcome {
                    Ok(_) => Ok(false),
                    Err(e) => Err(e),
                },
            )
        }),
{
}

/// A failure on the way, of the request, of its answer or of an exchange of the recovery: a
/// reconnection waits a second for its next attempt, and a first connection ends with the error.
/// Either way the client stays as it is.
pub proof fn law_failed_exchange_is_tried_again(
    link: LinkView,
    client: ClientView,
    event: LinkEventView,
    error: ErrorView,
    reader_ready: bool,
    writer_ready: bool,
)
    requires
        link.wf(client),
        link.awaits(client, event),
        event == LinkEventView::Sent(Err(error)) || event == LinkEventView::Response(Err(error))
            || event == LinkEventView::SequenceHeader(Err(error)) || event
            == LinkEventView::CatchupBuffer(Err(error)),
    ensures
        ({
            let (next, after, step) = link.next(client, event, reader_ready, writer_ready);
            &&& after.connection == client.connection && after == client
            &&& link.persistent ==> step == (LinkStepView::Sleep { millis: 1000 })
                && next.awaits(after, LinkEventView::Slept)
            &&& !link.persistent ==> step == LinkStepView::Finished(Err(error))
        }),
{
}

/// What the server answers decides what follows. A returning client starts its recovery on the
/// socket of the link; a new client has its connection made usable on that socket, unless it is
/// reconnecting, which waits a second for its next attempt as it does on every other answer. A
/// first connection that is refused fails with the reason.
pub proof fn law_answer_decides(
    link: LinkView,
    client: ClientView,
    response: ReceivedStatus,
    reader_ready: bool,
    writer_ready: bool,
)
    requires
        link.stage == LinkStage::AwaitingResponse,
    ensures
        ({
            let (next, after, step) = link.next(
                client,
                LinkEventView::Response(Ok(response)),
                reader_ready,
                writer_ready,
            );
            let ready = client.connection.reader is Some && client.connection.writer is Some;
            &&& next.fd == link.fd && next.persistent == link.persistent
            &&& match response.status {
                Some(ConnectStatus::ReturningClient) => {
                    &&& after == client
                    &&& ready ==> {
                        &&& step is SendSequenceHeader && step->SendSequenceHeader_fd == link.fd
                        &&& 0 <= client.connection.reader->0.sequence_number <= i32::MAX
                            ==> step->sequence_number
                            == client.connection.reader->0.sequence_number
                        &&& next.recovery matches Some(recovery) && recovery.fd == link.fd
                    }
                    &&& !ready ==> if link.persistent {
                        step == (LinkStepView::Sleep { millis: 1000 })
                    } else {
                        step is Finished && step->Finished_0 is Err && step->Finished_0->Err_0
                            == if client.connection.reader is None {
                            ErrorView::Recovery("Reader not initialized"@)
                        } else {
                            ErrorView::Recovery("Writer not initialized"@)
                        }
                    }
                },
                Some(ConnectStatus::NewClient) => if link.persistent {
                    after == client && step == (LinkStepView::Sleep { millis: 1000 })
                } else {
                    let usable = reader_ready && writer_ready && client.connection.key.len() == 32;
                    &&& usable ==> {
                        &&& step == LinkStepView::Finished(Ok(true))
                        &&& after.connection.fd == link.fd
                        &&& after.connection.id == client.connection.id
                        &&& after.connection.key == client.connection.key
                        &&& after.connection.reader matches Some(reader) && reader.fd == link.fd
                            && reader.sequence_number == 0 && reader.local.len() == 0
                        &&& after.connection.writer matches Some(writer) && writer.fd == link.fd
                            && writer.sequence_number == 0 && writer.backup.len() == 0
                        &&& after.reconnecting == client.reconnecting
                        &&& after.endpoint == client.endpoint
                        &&& after.connection.shutting_down == client.connection.shutting_down
                    }
                    &&& !usable ==> {
                        &&& after == client
                        &&& step is Finished && step->Finished_0 is Err
                        &&& step->Finished_0->Err_0 == client.connection.initialized(
                            reader_ready,
                            writer_ready,
                            link.fd,
                            1,
                        ).1->Err_0
                    }
                },
                Some(ConnectStatus::InvalidKey) => after == client && step == if link.persistent {
                    LinkStepView::Sleep { millis: 1000 }
                } else {
                    LinkStepView::Finished(Err(ErrorView::Connection("Invalid key"@)))
                },
                Some(ConnectStatus::MismatchedProtocol) => after == client && step
                    == if link.persistent {
                    LinkStepView::Sleep { millis: 1000 }
                } else {
                    LinkStepView::Finished(
                        Err(ErrorView::Connection("Protocol version mismatch"@)),
                    )
                },
                Some(ConnectStatus::Unspecified) | None => after == client && step
                    == if link.persistent {
                    LinkStepView::Sleep { millis: 1000 }
                } else {
                    LinkStepView::Finished(
                        Err(
                            ErrorView::Connection(
                                "Unknown connection status: "@ + signed_decimal(
                                    response.number as int,
                                ),
                            ),
                        ),
                    )
                },
            }
            &&& !(step is SendSequenceHeader) && link.persistent ==> next.awaits(
                after,
                LinkEventView::Slept,
            )
        }),
{
}

/// Every exchange of a recovery, first connection or not, is on the socket of the link, and the
/// connection is on that socket once the last exchange has succeeded: it has then received as
/// many packets more as the server sent again, which it replays after those that it had yet to
/// replay.
pub proof fn law_link_recovers_on_its_socket(
    link: LinkView,
    client: ClientView,
    number: i32,
    remote: i32,
    catchup: Seq<Seq<u8>>,
    reader_ready: bool,
    writer_ready: bool,
)
    requires
        link.stage == LinkStage::AwaitingResponse,
        client.connection.reader is Some,
        client.connection.writer is Some,
        client.connection.writer->0.recovered(remote as int) is Ok,
    ensures
        ({
            let returning = ReceivedStatus {
                number,
                status: Some(ConnectStatus::ReturningClient),
            };
            let (l1, c1, s1) = link.next(
                client,
                LinkEventView::Response(Ok(returning)),
                reader_ready,
                writer_ready,
            );
            let (l2, c2, s2) = l1.next(
                c1,
                LinkEventView::Sent(Ok(())),
                reader_ready,
                writer_ready,
            );
            let (l3, c3, s3) = l2.next(
                c2,
                LinkEventView::SequenceHeader(Ok(remote)),
                reader_ready,
                writer_ready,
            );
            let (l4, c4, s4) = l3.next(
                c3,
                LinkEventView::Sent(Ok(())),
                reader_ready,
                writer_ready,
            );
            let (l5, c5, s5) = l4.next(
                c4,
                LinkEventView::CatchupBuffer(Ok(catchup)),
                reader_ready,
                writer_ready,
            );
            let before = client.connection;
            &&& s1 is SendSequenceHeader && s1->SendSequenceHeader_fd == link.fd
            &&& s2 == (LinkStepView::AwaitSequenceHeader { fd: link.fd })
            &&& s3 is SendCatchup && s3->SendCatchup_fd == link.fd
            &&& before.writer->0.recovered(remote as int) == Ok::<Seq<Seq<u8>>, ErrorView>(
                s3->packets,
            )
            &&& s4 == (LinkStepView::AwaitCatchup { fd: link.fd })
            &&& s5 == LinkStepView::Finished(Ok(true))
            &&& c1 == client && c2 == client && c3 == client && c4 == client
            &&& c5.endpoint == client.endpoint
            &&& c5.reconnecting == (!link.persistent && client.reconnecting)
            &&& c5.connection.fd == link.fd
            &&& c5.connection.id == before.id && c5.connection.key == before.key
            &&& c5.connection.shutting_down == before.shutting_down
            &&& c5.connection.reader matches Some(reader) && {
                &&& reader.fd == link.fd
                &&& reader.sequence_number == before.reader->0.sequence_number + catchup.len()
                &&& reader.local == before.reader->0.local + catchup
                &&& reader.partial.len() == 0
                &&& reader.crypto == before.reader->0.crypto
            }
            &&& c5.connection.writer matches Some(writer) && {
                &&& writer.fd == link.fd
                &&& writer.sequence_number == before.writer->0.sequence_number
                &&& writer.backup == before.writer->0.backup
                &&& writer.crypto == before.writer->0.crypto
            }
        }),
{
}

/// The two ends of a first connection fit: what the client of a link seals, the server of the same
/// key opens, and the other way round.
pub proof fn law_first_connection_pairs_the_ends<H>(
    link: LinkView,
    client: ClientView,
    number: i32,
    server: ServerView<H>,
    accept: AcceptView,
)
    requires
        link.stage == LinkStage::AwaitingResponse,
        !link.persistent,
        client.connection.key.len() == 32,
        accept.stage == crate::server_connection::AcceptStage::Greeting,
        accept.key == client.connection.key,
    ensures
        ({
            let new = ReceivedStatus { number, status: Some(ConnectStatus::NewClient) };
            let (up, after, end) = link.next(client, LinkEventView::Response(Ok(new)), true, true);
            let (told, step) = accept.next(
                server,
                AcceptEventView::Sent(Ok(())),
                Seq::empty(),
                true,
                true,
            );
            &&& end == LinkStepView::Finished(Ok(true))
            &&& step matches AcceptStepView::Adopt(connection)
            &&& connection.reader->0.crypto == after.connection.writer->0.crypto
            &&& connection.writer->0.crypto == after.connection.reader->0.crypto
            &&& connection.reader->0.crypto.key == client.connection.key
            &&& connection.reader->0.crypto.nonce != connection.writer->0.crypto.nonce
        }),
{
    let client_side = crate::crypto::initial_nonce(0);
    let server_side = crate::crypto::initial_nonce(1);
    assert(client_side[23] != server_side[23]);
}

/// A reconnection begins beside a client exactly where the socket of its connection, once usable,
/// is gone, the connection is not to shut down and no reconnection is under way; nothing else of
/// the client changes. Giving the socket up leaves it to be closed and begins one too.
pub proof fn law_reconnection_begins_only_when_lost(client: ClientView)
    ensures
        ({
            let (after, reconnection) = client.kept_connected();
            let lost = client.connection.reader is Some && client.connection.fd == -1
                && !client.connection.shutting_down && !client.reconnecting;
            &&& reconnection is Some <==> lost
            &&& !lost ==> after == client
            &&& lost ==> after == (ClientView { reconnecting: true, ..client })
            &&& reconnection matches Some((link, step)) ==> step is Open && link.persistent
                && link.stage == LinkStage::Opening
        }),
        ({
            let (after, close, (link, step)) = client.given_up();
            let stays = client.reconnecting || client.connection.shutting_down;
            &&& after.connection == client.connection.closed().0
            &&& after.connection.fd == -1 && after.endpoint == client.endpoint
            &&& close == if client.connection.fd == -1 {
                None
            } else {
                Some(client.connection.fd)
            }
            &&& stays ==> step == LinkStepView::Finished(Ok(false)) && after.reconnecting
                == client.reconnecting
            &&& !stays ==> step is Open && link.persistent && after.reconnecting
        }),
{
}

} // verus!
