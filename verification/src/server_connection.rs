//! Server-side connection handling
//!
//! Which clients a server knows, and how it accepts one: a client of another protocol version is
//! refused, a known client has its connection recovered, and any other gets a new connection.
use vstd::prelude::*;
use vstd::slice::slice_to_vec;

use crate::connection::{Connection, ConnectionView};
use crate::crypto::{sodium_init, CryptoHandler, KEYBYTES};
use crate::decimal::{push_signed, signed_decimal};
use crate::error::{outcome_view, result_view, Error, ErrorView};
use crate::nonce;
use crate::proto::{
    ConnectRequest, ConnectRequestView, ConnectResponse, ConnectResponseView, ConnectStatus,
};
use crate::socket::{base64_encode, base64_text};
use crate::table::Table;
use crate::PROTOCOL_VERSION;

verus! {

/// Manages server-side client connections, each known by a handle
#[derive(Debug)]
pub struct ServerConnection<H> {
    connections: Table<H>,
    client_keys: Table<String>,
}

/// The state of a [`ServerConnection`].
#[verifier::ext_equal]
pub struct ServerView<H> {
    /// Active connections by client ID
    pub connections: Map<Seq<char>, H>,
    /// Client keys by ID
    pub keys: Map<Seq<char>, Seq<char>>,
}

impl<H> View for ServerConnection<H> {
    type V = ServerView<H>;

    closed spec fn view(&self) -> ServerView<H> {
        ServerView {
            connections: self.connections@,
            keys: self.client_keys@.map_values(|key: String| key@),
        }
    }
}

impl<H> ServerView<H> {
    /// The state before any client is known.
    pub open spec fn empty() -> ServerView<H> {
        ServerView { connections: Map::empty(), keys: Map::empty() }
    }

    /// The state once a client is known.
    pub open spec fn adopted(
        self,
        client_id: Seq<char>,
        handle: H,
        key: Seq<char>,
    ) -> ServerView<H> {
        ServerView {
            connections: self.connections.insert(client_id, handle),
            keys: self.keys.insert(client_id, key),
        }
    }

    /// The state once a client is forgotten.
    pub open spec fn removed(self, client_id: Seq<char>) -> ServerView<H> {
        ServerView {
            connections: self.connections.remove(client_id),
            keys: self.keys.remove(client_id),
        }
    }
}

impl<H> ServerConnection<H> {
    /// What holds of every server: its tables are proper ones.
    pub closed spec fn wf(&self) -> bool {
        self.connections.wf() && self.client_keys.wf()
    }

    /// Creates a new server connection manager
    pub fn new() -> (r: ServerConnection<H>)
        ensures
            r.wf(),
            r@ == ServerView::<H>::empty(),
    {
        let server = ServerConnection { connections: Table::new(), client_keys: Table::new() };
        assert(server@.keys =~= Map::<Seq<char>, Seq<char>>::empty());
        server
    }

    /// Starts to accept the client at a socket
    pub fn accept_client(fd: i32) -> (r: (Accept, AcceptStep))
        ensures
            r.0@ == AcceptView::start(fd),
            r.0@.wf(),
            r.1@ == AcceptStepView::ReadRequest,
    {
        let client_id = String::new();
        assert(client_id@ =~= Seq::<char>::empty());
        (
            Accept { stage: AcceptStage::ReadingRequest, fd, client_id, key: Vec::new() },
            AcceptStep::ReadRequest,
        )
    }

    /// Removes a client connection
    pub fn remove_client(&mut self, client_id: &str)
        requires
            old(self).wf(),
        ensures
            final(self).wf(),
            final(self)@ == old(self)@.removed(client_id@),
    {
        self.connections.remove(client_id);
        self.client_keys.remove(client_id);
        assert(self@.keys =~= old(self)@.keys.remove(client_id@));
    }

    /// Gets a connection by client ID
    pub fn get_connection(&self, client_id: &str) -> (r: Option<&H>)
        requires
            self.wf(),
        ensures
            match r {
                Some(handle) => self@.connections.contains_key(client_id@) && *handle
                    == self@.connections[client_id@],
                None => !self@.connections.contains_key(client_id@),
            },
    {
        self.connections.get(client_id)
    }

    fn knows(&self, client_id: &str) -> (r: bool)
        requires
            self.wf(),
        ensures
            r == self@.keys.contains_key(client_id@),
    {
        self.client_keys.get(client_id).is_some()
    }

    fn adopt(&mut self, client_id: &str, handle: H, key: String)
        requires
            old(self).wf(),
        ensures
            final(self).wf(),
            final(self)@ == old(self)@.adopted(client_id@, handle, key@),
    {
        self.connections.insert(client_id, handle);
        self.client_keys.insert(client_id, key);
        assert(self@.keys =~= old(self)@.keys.insert(client_id@, key@));
    }
}

/// How far accepting a client has come
#[derive(Debug, Clone, Copy, PartialEq, Eq, Structural)]
pub enum AcceptStage {
    /// The request of the client is awaited
    ReadingRequest,
    /// The client is being told that it is refused
    Refusing,
    /// The client is being told that it is known
    Welcoming,
    /// The connection of the client is being recovered
    Recovering,
    /// The client is being told that it is new
    Greeting,
    /// The new connection waits for its handle
    Adopting,
    /// The client is accepted, or not
    Over,
}

/// A client being accepted
#[derive(Debug)]
pub struct Accept {
    stage: AcceptStage,
    fd: i32,
    client_id: String,
    key: Vec<u8>,
}

/// The state of an [`Accept`].
pub struct AcceptView {
    /// How far it has come
    pub stage: AcceptStage,
    /// Socket of the client
    pub fd: i32,
    /// ID of the client, once it has given it
    pub client_id: Seq<char>,
    /// Key of the client, once it has one
    pub key: Seq<u8>,
}

impl View for Accept {
    type V = AcceptView;

    closed spec fn view(&self) -> AcceptView {
        AcceptView {
            stage: self.stage,
            fd: self.fd,
            client_id: self.client_id@,
            key: self.key@,
        }
    }
}

/// What came of the latest step
#[derive(Debug)]
pub enum AcceptEvent {
    /// The client asked for a connection, or not
    Request(Result<ConnectRequest, Error>),
    /// The response was sent, or not
    Sent(Result<(), Error>),
    /// The connection was recovered, or not
    Recovered(Result<(), Error>),
}

/// What an [`AcceptEvent`] says.
pub enum AcceptEventView {
    Request(Result<ConnectRequestView, ErrorView>),
    Sent(Result<(), ErrorView>),
    Recovered(Result<(), ErrorView>),
}

impl View for AcceptEvent {
    type V = AcceptEventView;

    open spec fn view(&self) -> AcceptEventView {
        match *self {
            AcceptEvent::Request(r) => AcceptEventView::Request(result_view(r)),
            AcceptEvent::Sent(r) => AcceptEventView::Sent(outcome_view(r)),
            AcceptEvent::Recovered(r) => AcceptEventView::Recovered(outcome_view(r)),
        }
    }
}

/// What accepting a client needs next
pub enum AcceptStep {
    /// The request of the client is to be read
    ReadRequest,
    /// A response is to be sent
    SendResponse(ConnectResponse),
    /// The connection of the client is to be recovered on its new socket
    Recover,
    /// The new connection is to be given a handle, and handed to `adopted`
    Adopt(Connection),
    /// The client is accepted, or not
    Finished(Result<(), Error>),
}

/// What an [`AcceptStep`] says.
pub enum AcceptStepView {
    ReadRequest,
    SendResponse(ConnectResponseView),
    Recover,
    Adopt(ConnectionView),
    Finished(Result<(), ErrorView>),
}

impl View for AcceptStep {
    type V = AcceptStepView;

    open spec fn view(&self) -> AcceptStepView {
        match *self {
            AcceptStep::ReadRequest => AcceptStepView::ReadRequest,
            AcceptStep::SendResponse(response) => AcceptStepView::SendResponse(response@),
            AcceptStep::Recover => AcceptStepView::Recover,
            AcceptStep::Adopt(connection) => AcceptStepView::Adopt(connection@),
            AcceptStep::Finished(r) => AcceptStepView::Finished(outcome_view(r)),
        }
    }
}

/// What a client of another version is told.
pub open spec fn mismatch_text(version: i32) -> Seq<char> {
    "Protocol version mismatch: client="@ + signed_decimal(version as int) + ", server="@
        + signed_decimal(PROTOCOL_VERSION as int)
}

/// A response without an error.
pub open spec fn granted(status: ConnectStatus) -> ConnectResponseView {
    ConnectResponseView { status, error: Seq::empty() }
}

impl AcceptView {
    /// A client that has just arrived.
    pub open spec fn start(fd: i32) -> AcceptView {
        AcceptView {
            stage: AcceptStage::ReadingRequest,
            fd,
            client_id: Seq::empty(),
            key: Seq::empty(),
        }
    }

    /// What holds of every client being accepted: a connection is made with a proper key.
    pub open spec fn wf(self) -> bool {
        self.stage == AcceptStage::Adopting ==> self.key.len() == KEYBYTES
    }

    /// Whether `event` is awaited.
    pub open spec fn awaits(self, event: AcceptEventView) -> bool {
        match self.stage {
            AcceptStage::ReadingRequest => event is Request,
            AcceptStage::Refusing | AcceptStage::Welcoming | AcceptStage::Greeting => event is Sent,
            AcceptStage::Recovering => event is Recovered,
            AcceptStage::Adopting | AcceptStage::Over => false,
        }
    }

    /// The same at another stage.
    pub open spec fn at(self, stage: AcceptStage) -> AcceptView {
        AcceptView { stage, ..self }
    }

    /// The end.
    pub open spec fn finished(self, result: Result<(), ErrorView>) -> (AcceptView, AcceptStepView) {
        (self.at(AcceptStage::Over), AcceptStepView::Finished(result))
    }

    /// A new connection for the client: it is told so first.
    pub open spec fn created(self, key: Seq<u8>) -> (AcceptView, AcceptStepView) {
        (
            AcceptView { key, ..self.at(AcceptStage::Greeting) },
            AcceptStepView::SendResponse(granted(ConnectStatus::NewClient)),
        )
    }

    /// What the request of a client leads to.
    pub open spec fn requested<H>(
        self,
        server: ServerView<H>,
        request: ConnectRequestView,
        key: Seq<u8>,
    ) -> (AcceptView, AcceptStepView) {
        let named = AcceptView { client_id: request.client_id, ..self };
        if request.version != PROTOCOL_VERSION {
            (
                named.at(AcceptStage::Refusing),
                AcceptStepView::SendResponse(
                    ConnectResponseView {
                        status: ConnectStatus::MismatchedProtocol,
                        error: mismatch_text(request.version),
                    },
                ),
            )
        } else if server.keys.contains_key(request.client_id) {
            (
                named.at(AcceptStage::Welcoming),
                AcceptStepView::SendResponse(granted(ConnectStatus::ReturningClient)),
            )
        } else {
            named.created(key)
        }
    }

    /// What follows once a response was sent. A known client whose connection is gone gets a new
    /// one.
    pub open spec fn responded<H>(
        self,
        server: ServerView<H>,
        key: Seq<u8>,
        reader_ready: bool,
        writer_ready: bool,
    ) -> (AcceptView, AcceptStepView) {
        match self.stage {
            AcceptStage::Refusing => self.finished(
                Err(ErrorView::Protocol("Protocol version mismatch"@)),
            ),
            AcceptStage::Welcoming => if server.connections.contains_key(self.client_id) {
                (self.at(AcceptStage::Recovering), AcceptStepView::Recover)
            } else {
                self.created(key)
            },
            _ => {
                let (connection, initialized) = ConnectionView::fresh(
                    self.client_id,
                    self.key,
                ).initialized(reader_ready, writer_ready, self.fd, nonce::CLIENT_SERVER);
                match initialized {
                    Ok(_) => (
                        self.at(AcceptStage::Adopting),
                        AcceptStepView::Adopt(connection),
                    ),
                    Err(e) => self.finished(Err(e)),
                }
            },
        }
    }

    /// The next state, and what is needed next. `key` is the key of a new client, and the flags
    /// say whether the sodium library is ready for each direction of a new connection.
    pub open spec fn next<H>(
        self,
        server: ServerView<H>,
        event: AcceptEventView,
        key: Seq<u8>,
        reader_ready: bool,
        writer_ready: bool,
    ) -> (AcceptView, AcceptStepView) {
        match event {
            AcceptEventView::Request(Ok(request)) => self.requested(server, request, key),
            AcceptEventView::Sent(Ok(_)) => self.responded(server, key, reader_ready, writer_ready),
            AcceptEventView::Recovered(Ok(_)) => self.finished(Ok(())),
            AcceptEventView::Request(Err(e))
            | AcceptEventView::Sent(Err(e))
            | AcceptEventView::Recovered(Err(e)) => self.finished(Err(e)),
        }
    }
}

fn grant(status: ConnectStatus) -> (r: AcceptStep)
    ensures
        r@ == AcceptStepView::SendResponse(granted(status)),
{
    let error = String::new();
    assert(error@ =~= Seq::<char>::empty());
    AcceptStep::SendResponse(ConnectResponse { status, error })
}

fn refuse(version: i32) -> (r: AcceptStep)
    ensures
        r@ == AcceptStepView::SendResponse(
            ConnectResponseView {
                status: ConnectStatus::MismatchedProtocol,
                error: mismatch_text(version),
            },
        ),
{
    let mut error = "Protocol version mismatch: client=".to_owned();
    push_signed(&mut error, version as i64);
    error.append(", server=");
    push_signed(&mut error, PROTOCOL_VERSION as i64);
    AcceptStep::SendResponse(
        ConnectResponse { status: ConnectStatus::MismatchedProtocol, error },
    )
}

impl Accept {
    fn finish(&mut self, result: Result<(), Error>) -> (r: AcceptStep)
        ensures
            (final(self)@, r@) == old(self)@.finished(outcome_view(result)),
    {
        self.stage = AcceptStage::Over;
        AcceptStep::Finished(result)
    }

    fn create_new_connection(&mut self, key: Vec<u8>) -> (r: AcceptStep)
        ensures
            (final(self)@, r@) == old(self)@.created(key@),
    {
        self.stage = AcceptStage::Greeting;
        self.key = key;
        grant(ConnectStatus::NewClient)
    }

    /// ID of the client, once it has given it
    pub fn client_id(&self) -> (r: &str)
        ensures
            r@ == self@.client_id,
    {
        self.client_id.as_str()
    }

    /// Goes on accepting a client, given a key for it in case it is new, and whether
    /// `sodiumoxide::init` succeeded for the reader and for the writer
    pub fn step_with_key<H>(
        &mut self,
        server: &ServerConnection<H>,
        event: AcceptEvent,
        key: Vec<u8>,
        reader_ready: bool,
        writer_ready: bool,
    ) -> (r: AcceptStep)
        requires
            server.wf(),
            old(self)@.awaits(event@),
        ensures
            (final(self)@, r@) == old(self)@.next(
                server@,
                event@,
                key@,
                reader_ready,
                writer_ready,
            ),
            final(self)@.wf(),
            r@ matches AcceptStepView::Adopt(connection) ==> connection.wf(),
    {
        match event {
            AcceptEvent::Request(Err(e))
            | AcceptEvent::Sent(Err(e))
            | AcceptEvent::Recovered(Err(e)) => self.finish(Err(e)),
            AcceptEvent::Request(Ok(request)) => {
                self.client_id = request.client_id;
                if request.version != PROTOCOL_VERSION {
                    self.stage = AcceptStage::Refusing;
                    refuse(request.version)
                } else if server.knows(self.client_id.as_str()) {
                    self.stage = AcceptStage::Welcoming;
                    grant(ConnectStatus::ReturningClient)
                } else {
                    self.create_new_connection(key)
                }
            },
            AcceptEvent::Sent(Ok(_)) => match self.stage {
                AcceptStage::Refusing => self.finish(
                    Err(Error::Protocol("Protocol version mismatch".to_owned())),
                ),
                AcceptStage::Welcoming => {
                    if server.get_connection(self.client_id.as_str()).is_some() {
                        self.stage = AcceptStage::Recovering;
                        AcceptStep::Recover
                    } else {
                        self.create_new_connection(key)
                    }
                },
                _ => {
                    let key = slice_to_vec(self.key.as_slice());
                    let mut connection = Connection::with_key(self.client_id.as_str(), key);
                    match connection.initialize_with_sodium(
                        reader_ready,
                        writer_ready,
                        self.fd,
                        nonce::CLIENT_SERVER,
                    ) {
                        Ok(_) => {
                            self.stage = AcceptStage::Adopting;
                            AcceptStep::Adopt(connection)
                        },
                        Err(e) => self.finish(Err(e)),
                    }
                },
            },
            AcceptEvent::Recovered(Ok(_)) => self.finish(Ok(())),
        }
    }

    /// Goes on accepting a client. A new client gets a random key.
    pub fn step<H>(&mut self, server: &ServerConnection<H>, event: AcceptEvent) -> (r: AcceptStep)
        requires
            server.wf(),
            old(self)@.awaits(event@),
        ensures
            exists|key: Seq<u8>, reader_ready: bool, writer_ready: bool|
                key.len() == KEYBYTES && (final(self)@, r@) == #[trigger] old(self)@.next(
                    server@,
                    event@,
                    key,
                    reader_ready,
                    writer_ready,
                ),
            final(self)@.wf(),
            r@ matches AcceptStepView::Adopt(connection) ==> connection.wf(),
    {
        let key = CryptoHandler::generate_key();
        let reader_ready = sodium_init();
        let writer_ready = sodium_init();
        let ghost drawn = key@;
        let r = self.step_with_key(server, event, key, reader_ready, writer_ready);
        assert((self@, r@) == old(self)@.next(
            server@,
            event@,
            drawn,
            reader_ready,
            writer_ready,
        ));
        r
    }

    /// Makes a new client known, once its connection has a handle. Its key is kept in base64.
    pub fn adopted<H>(&mut self, server: &mut ServerConnection<H>, handle: H)
        requires
            old(server).wf(),
            old(self)@.wf(),
            old(self)@.stage == AcceptStage::Adopting,
        ensures
            final(server).wf(),
            final(server)@ == old(server)@.adopted(
                old(self)@.client_id,
                handle,
                base64_text(old(self)@.key),
            ),
            final(self)@ == old(self)@.at(AcceptStage::Over),
    {
        self.stage = AcceptStage::Over;
        server.adopt(self.client_id.as_str(), handle, base64_encode(self.key.as_slice()));
    }
}

/// A client of another protocol version is refused with a text that names both versions, and is
/// not made known, whoever it is.
pub proof fn law_other_versions_are_refused<H>(
    accept: AcceptView,
    server: ServerView<H>,
    request: ConnectRequestView,
    key: Seq<u8>,
    reader_ready: bool,
    writer_ready: bool,
)
    requires
        accept.stage == AcceptStage::ReadingRequest,
        request.version != PROTOCOL_VERSION,
    ensures
        ({
            let (after, step) = accept.next(
                server,
                AcceptEventView::Request(Ok(request)),
                key,
                reader_ready,
                writer_ready,
            );
            let (over, end) = after.next(
                server,
                AcceptEventView::Sent(Ok(())),
                key,
                reader_ready,
                writer_ready,
            );
            &&& step matches AcceptStepView::SendResponse(response) && response.status
                == ConnectStatus::MismatchedProtocol && response.error == mismatch_text(
                request.version,
            )
            &&& end == AcceptStepView::Finished(
                Err(ErrorView::Protocol("Protocol version mismatch"@)),
            )
        }),
{
}

/// A client that was made known is welcomed as a returning one, and it is its own connection
/// that is recovered.
pub proof fn law_known_client_is_recovered<H>(
    server: ServerView<H>,
    client_id: Seq<char>,
    handle: H,
    client_key: Seq<char>,
    fd: i32,
    key: Seq<u8>,
    reader_ready: bool,
    writer_ready: bool,
)
    ensures
        ({
            let known = server.adopted(client_id, handle, client_key);
            let request = ConnectRequestView { client_id, version: PROTOCOL_VERSION };
            let (asked, response) = AcceptView::start(fd).next(
                known,
                AcceptEventView::Request(Ok(request)),
                key,
                reader_ready,
                writer_ready,
            );
            let (told, step) = asked.next(
                known,
                AcceptEventView::Sent(Ok(())),
                key,
                reader_ready,
                writer_ready,
            );
            &&& response == AcceptStepView::SendResponse(granted(ConnectStatus::ReturningClient))
            &&& step is Recover
            &&& told.client_id == client_id
            &&& known.connections[client_id] == handle
        }),
{
}

/// A client that the server does not know is told that it is new, and gets a connection of its
/// own on its socket; once that has a handle, the server knows the client by it. All it takes is
/// a key of the right length and a sodium library that is ready.
pub proof fn law_new_client_is_accepted<H>(
    server: ServerView<H>,
    client_id: Seq<char>,
    fd: i32,
    key: Seq<u8>,
    handle: H,
)
    requires
        !server.keys.contains_key(client_id),
        key.len() == KEYBYTES,
    ensures
        ({
            let request = ConnectRequestView { client_id, version: PROTOCOL_VERSION };
            let (asked, response) = AcceptView::start(fd).next(
                server,
                AcceptEventView::Request(Ok(request)),
                key,
                true,
                true,
            );
            let (told, step) = asked.next(
                server,
                AcceptEventView::Sent(Ok(())),
                key,
                true,
                true,
            );
            let known = server.adopted(told.client_id, handle, base64_text(told.key));
            &&& response == AcceptStepView::SendResponse(granted(ConnectStatus::NewClient))
            &&& told.stage == AcceptStage::Adopting
            &&& step matches AcceptStepView::Adopt(connection) && {
                &&& connection.id == client_id
                &&& connection.key == key
                &&& connection.fd == fd
                &&& connection.reader is Some && connection.writer is Some
                &&& !connection.shutting_down
            }
            &&& known.connections.contains_key(client_id)
            &&& known.connections[client_id] == handle
        }),
{
}

/// A client that was removed is a new one when it comes again.
pub proof fn law_removed_client_is_new<H>(
    server: ServerView<H>,
    client_id: Seq<char>,
    fd: i32,
    key: Seq<u8>,
    reader_ready: bool,
    writer_ready: bool,
)
    ensures
        ({
            let request = ConnectRequestView { client_id, version: PROTOCOL_VERSION };
            let (asked, response) = AcceptView::start(fd).next(
                server.removed(client_id),
                AcceptEventView::Request(Ok(request)),
                key,
                reader_ready,
                writer_ready,
            );
            &&& response == AcceptStepView::SendResponse(granted(ConnectStatus::NewClient))
            &&& asked.key == key
        }),
{
}

/// A server has the key of a client exactly where it has its connection.
pub proof fn law_keys_and_connections_agree<H>(
    server: ServerView<H>,
    client_id: Seq<char>,
    handle: H,
    key: Seq<char>,
)
    requires
        server.keys.dom() == server.connections.dom(),
    ensures
        ServerView::<H>::empty().keys.dom() == ServerView::<H>::empty().connections.dom(),
        server.adopted(client_id, handle, key).keys.dom() == server.adopted(
            client_id,
            handle,
            key,
        ).connections.dom(),
        server.removed(client_id).keys.dom() == server.removed(client_id).connections.dom(),
{
}

/// What happens to one client leaves the others as they were.
pub proof fn law_clients_are_independent<H>(
    server: ServerView<H>,
    client_id: Seq<char>,
    other: Seq<char>,
    handle: H,
    key: Seq<char>,
)
    requires
        client_id != other,
    ensures
        server.adopted(client_id, handle, key).connections.contains_key(other)
            <==> server.connections.contains_key(other),
        server.connections.contains_key(other) ==> server.adopted(
            client_id,
            handle,
            key,
        ).connections[other] == server.connections[other],
        server.removed(client_id).connections.contains_key(other)
            <==> server.connections.contains_key(other),
        server.connections.contains_key(other) ==> server.removed(client_id).connections[other]
            == server.connections[other],
{
}

/// The request of a client is answered by what it says and by whether the server knows it: a
/// client of another version is refused with a text that names both versions, a known client is
/// a returning one, and any other is new. The client is remembered by the id that it gave.
pub proof fn law_request_is_answered<H>(
    accept: AcceptView,
    server: ServerView<H>,
    request: ConnectRequestView,
    key: Seq<u8>,
    reader_ready: bool,
    writer_ready: bool,
)
    requires
        accept.stage == AcceptStage::ReadingRequest,
    ensures
        ({
            let (after, step) = accept.next(
                server,
                AcceptEventView::Request(Ok(request)),
                key,
                reader_ready,
                writer_ready,
            );
            &&& after.client_id == request.client_id
            &&& after.fd == accept.fd
            &&& forall|event: AcceptEventView| #[trigger] after.awaits(event) <==> event is Sent
            &&& step matches AcceptStepView::SendResponse(response)
            &&& request.version != 6 ==> {
                &&& response.status == ConnectStatus::MismatchedProtocol
                &&& response.error == "Protocol version mismatch: client="@ + signed_decimal(
                    request.version as int,
                ) + ", server="@ + signed_decimal(6)
            }
            &&& request.version == 6 && server.keys.contains_key(request.client_id) ==> {
                &&& response.status == ConnectStatus::ReturningClient
                &&& response.error.len() == 0
            }
            &&& request.version == 6 && !server.keys.contains_key(request.client_id) ==> {
                &&& response.status == ConnectStatus::NewClient
                &&& response.error.len() == 0
                &&& after.key == key
            }
        }),
{
}

/// What follows a response depends on what the client was told: a refused client is done with, a
/// returning client has its connection recovered, or is told that it is new where its connection
/// is gone, and a new client gets a connection of its own on its socket, with its id and its key.
pub proof fn law_response_is_followed_up<H>(
    accept: AcceptView,
    server: ServerView<H>,
    key: Seq<u8>,
    reader_ready: bool,
    writer_ready: bool,
)
    requires
        accept.awaits(AcceptEventView::Sent(Ok(()))),
    ensures
        ({
            let (after, step) = accept.next(
                server,
                AcceptEventView::Sent(Ok(())),
                key,
                reader_ready,
                writer_ready,
            );
            &&& after.client_id == accept.client_id && after.fd == accept.fd
            &&& accept.stage == AcceptStage::Refusing ==> step == AcceptStepView::Finished(
                Err(ErrorView::Protocol("Protocol version mismatch"@)),
            )
            &&& accept.stage == AcceptStage::Welcoming && server.connections.contains_key(
                accept.client_id,
            ) ==> step is Recover && forall|event: AcceptEventView| #[trigger]
                after.awaits(event) <==> event is Recovered
            &&& accept.stage == AcceptStage::Welcoming && !server.connections.contains_key(
                accept.client_id,
            ) ==> {
                &&& step matches AcceptStepView::SendResponse(response)
                &&& response.status == ConnectStatus::NewClient && response.error.len() == 0
                &&& after.stage == AcceptStage::Greeting && after.key == key
            }
            &&& accept.stage == AcceptStage::Greeting ==> {
                let usable = reader_ready && writer_ready && accept.key.len() == 32;
                &&& usable ==> {
                    &&& after.stage == AcceptStage::Adopting && after.key == accept.key
                    &&& step matches AcceptStepView::Adopt(connection) && {
                        &&& connection.id == accept.client_id
                        &&& connection.key == accept.key
                        &&& connection.fd == accept.fd
                        &&& !connection.shutting_down
                        &&& connection.reader matches Some(reader) && reader.fd == accept.fd
                            && reader.sequence_number == 0 && reader.local.len() == 0
                            && reader.partial.len() == 0
                        &&& connection.writer matches Some(writer) && writer.fd == accept.fd
                            && writer.sequence_number == 0 && writer.backup.len() == 0
                    }
                }
                &&& !usable ==> step is Finished && step->Finished_0 is Err
            }
        }),
{
}

/// Accepting a client fails with the first failure on the way, and succeeds once its connection
/// is recovered.
pub proof fn law_first_failure_ends_accepting<H>(
    accept: AcceptView,
    server: ServerView<H>,
    error: ErrorView,
    key: Seq<u8>,
    reader_ready: bool,
    writer_ready: bool,
)
    ensures
        forall|event: AcceptEventView|
            event == AcceptEventView::Request(Err(error)) || event == AcceptEventView::Sent(
                Err(error),
            ) || event == AcceptEventView::Recovered(Err(error)) ==> (#[trigger] accept.next(
                server,
                event,
                key,
                reader_ready,
                writer_ready,
            )).1 == AcceptStepView::Finished(Err(error)),
        accept.next(
            server,
            AcceptEventView::Recovered(Ok(())),
            key,
            reader_ready,
            writer_ready,
        ).1 == AcceptStepView::Finished(Ok(())),
{
}

/// A client that was adopted is known with its handle and its key until it is removed, whatever
/// was known of it before; then nothing is known of it. The keys of the others stay as they were.
pub proof fn law_adopted_client_is_known<H>(
    server: ServerView<H>,
    client_id: Seq<char>,
    other: Seq<char>,
    handle: H,
    key: Seq<char>,
)
    ensures
        ({
            let known = server.adopted(client_id, handle, key);
            let gone = known.removed(client_id);
            &&& known.connections.contains_key(client_id) && known.connections[client_id] == handle
            &&& known.keys.contains_key(client_id) && known.keys[client_id] == key
            &&& !gone.connections.contains_key(client_id) && !gone.keys.contains_key(client_id)
            &&& client_id != other ==> {
                &&& known.keys.contains_key(other) <==> server.keys.contains_key(other)
                &&& gone.keys.contains_key(other) <==> server.keys.contains_key(other)
                &&& server.keys.contains_key(other) ==> known.keys[other] == server.keys[other]
                    && gone.keys[other] == server.keys[other]
            }
        }),
        !ServerView::<H>::empty().keys.contains_key(client_id),
        !ServerView::<H>::empty().connections.contains_key(client_id),
{
}

} // verus!
