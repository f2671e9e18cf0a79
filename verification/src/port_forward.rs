//! Port forwarding
//!
//! A source handler listens for connections and a destination handler holds the connection at
//! the other end; [`PortForwardHandler`] coordinates them. The handlers do no I/O: they are told
//! what was read or accepted, and say what is to be written, connected and closed.
use std::collections::HashMap;
use vstd::prelude::*;
use vstd::std_specs::hash::*;

use crate::error::{outcome_view, result_view, Error, ErrorView};
use crate::proto::{
    endpoint_of, endpoint_or_default, terminal_packet_type, DestinationRequestView,
    DestinationResponseView, ForwardDataView, PortForwardData, PortForwardDestinationRequest,
    PortForwardDestinationResponse, PortForwardSourceRequest, PortForwardSourceResponse,
    SocketEndpoint, SocketEndpointView, SourceRequestView,
};
use crate::socket::EndpointView;
use crate::tcp::holds;
use crate::terminal_info::{low16, truncate16};
use crate::text::{is_empty, views};
use crate::NO_SOCKET;

verus! {

/// How many bytes are read of a forwarded connection at a time
pub const FORWARD_BUFFER_SIZE: usize = 16384;

/// The endpoint at which a source listens.
pub open spec fn listen_endpoint_of(source: SocketEndpointView) -> EndpointView {
    EndpointView {
        name: if source.name.len() == 0 {
            None
        } else {
            Some(source.name)
        },
        port: low16(source.port) as u16,
    }
}

/// The endpoint at which a source listens: every interface where it has no name
pub fn listen_endpoint(source: &SocketEndpoint) -> (r: crate::socket::SocketEndpoint)
    ensures
        r@ == listen_endpoint_of(source@),
{
    let port: u16 = truncate16(source.port);
    if is_empty(source.name.as_str()) {
        crate::socket::SocketEndpoint::any(port)
    } else {
        crate::socket::SocketEndpoint::new(source.name.as_str(), port)
    }
}

/// What was read of a forwarded connection: no bytes mean that it has ended
#[derive(Debug)]
pub struct Reading {
    /// ID of the connection
    pub socket_id: i32,
    /// What reading it gave
    pub outcome: Result<Vec<u8>, Error>,
}

/// What a [`Reading`] says.
pub struct ReadingView {
    pub socket_id: i32,
    pub outcome: Result<Seq<u8>, ErrorView>,
}

impl View for Reading {
    type V = ReadingView;

    open spec fn view(&self) -> ReadingView {
        ReadingView { socket_id: self.socket_id, outcome: result_view(self.outcome) }
    }
}

impl ReadingView {
    /// Whether the reading says that the connection has ended.
    pub open spec fn ended(self) -> bool {
        self.outcome matches Ok(data) && data.len() == 0
    }

    /// The message that tells the other end of a reading.
    pub open spec fn message(self, source_to_destination: bool) -> ForwardDataView {
        if self.ended() {
            ForwardDataView::end(source_to_destination, self.socket_id)
        } else {
            ForwardDataView::data(source_to_destination, self.socket_id, self.outcome->Ok_0)
        }
    }
}

/// The messages that tell the other end of some readings, in order. A failed reading is passed
/// over.
pub open spec fn reading_messages(readings: Seq<ReadingView>, source_to_destination: bool) -> Seq<
    ForwardDataView,
>
    decreases readings.len(),
{
    if readings.len() == 0 {
        Seq::empty()
    } else {
        let before = reading_messages(readings.drop_last(), source_to_destination);
        match readings.last().outcome {
            Ok(_) => before.push(readings.last().message(source_to_destination)),
            Err(_) => before,
        }
    }
}

/// The table of connections without those that some readings say have ended, and their sockets
/// in order.
pub open spec fn without_ended(sockets: Map<i32, i32>, readings: Seq<ReadingView>) -> (
    Map<i32, i32>,
    Seq<i32>,
)
    decreases readings.len(),
{
    if readings.len() == 0 {
        (sockets, Seq::empty())
    } else {
        let (rest, fds) = without_ended(sockets, readings.drop_last());
        let id = readings.last().socket_id;
        if readings.last().ended() && rest.contains_key(id) {
            (rest.remove(id), fds.push(rest[id]))
        } else {
            (rest, fds)
        }
    }
}

/// Handles a source listening socket for port forwarding
#[derive(Debug)]
pub struct ForwardSourceHandler {
    source: SocketEndpoint,
    destination: SocketEndpoint,
    listen_fds: Vec<i32>,
    unassigned_fds: Vec<i32>,
    socket_map: HashMap<i32, i32>,
}

/// The state of a [`ForwardSourceHandler`].
#[verifier::ext_equal]
pub struct SourceView {
    /// Source endpoint (listening address)
    pub source: SocketEndpointView,
    /// Destination endpoint (where to forward)
    pub destination: SocketEndpointView,
    /// Listening sockets
    pub listen_fds: Seq<i32>,
    /// Sockets that were accepted but have no ID yet
    pub unassigned: Seq<i32>,
    /// The socket of each ID
    pub sockets: Map<i32, i32>,
}

impl View for ForwardSourceHandler {
    type V = SourceView;

    closed spec fn view(&self) -> SourceView {
        SourceView {
            source: self.source@,
            destination: self.destination@,
            listen_fds: self.listen_fds@,
            unassigned: self.unassigned_fds@,
            sockets: self.socket_map@,
        }
    }
}

/// What accepting a connection needs next
#[derive(Debug, Clone, Copy, PartialEq, Eq, Structural)]
pub enum ListenStep {
    /// If a connection waits at `fd`, it is to be accepted
    Check { index: usize, fd: i32 },
    /// The connection that was accepted, if any
    Finished(Option<i32>),
}

/// What came of looking for a connection at a listening socket
#[derive(Debug)]
pub enum ListenOutcome {
    /// No connection waits
    Idle,
    /// A connection was accepted, or not
    Accepted(Result<i32, Error>),
}

impl SourceView {
    /// The state at the start.
    pub open spec fn start(
        source: SocketEndpointView,
        destination: SocketEndpointView,
        listen_fds: Seq<i32>,
    ) -> SourceView {
        SourceView {
            source,
            destination,
            listen_fds,
            unassigned: Seq::empty(),
            sockets: Map::empty(),
        }
    }

    /// The state once connections that have ended are forgotten, and the sockets to be closed.
    pub open spec fn updated(self, readings: Seq<ReadingView>) -> (SourceView, Seq<i32>) {
        let (sockets, fds) = without_ended(self.sockets, readings);
        (SourceView { sockets, ..self }, fds)
    }

    /// Where to look for a connection, from the listening socket at `index` on.
    pub open spec fn listen_step(self, index: int) -> ListenStep {
        if 0 <= index < self.listen_fds.len() {
            ListenStep::Check { index: index as usize, fd: self.listen_fds[index] }
        } else {
            ListenStep::Finished(None)
        }
    }

    /// The state after looking at the listening socket at `index`, and what is needed next. The
    /// first connection that is accepted ends the search.
    pub open spec fn listened(self, index: int, outcome: ListenOutcome) -> (
        SourceView,
        ListenStep,
    ) {
        match outcome {
            ListenOutcome::Accepted(Ok(fd)) => (
                SourceView { unassigned: self.unassigned.push(fd), ..self },
                ListenStep::Finished(Some(fd)),
            ),
            _ => (self, self.listen_step(index + 1)),
        }
    }

    /// The state without an unassigned socket.
    pub open spec fn unassigned_removed(self, fd: i32) -> SourceView {
        SourceView { unassigned: self.unassigned.remove_value(fd), ..self }
    }

    /// The state once an unassigned socket has an ID.
    pub open spec fn assigned(self, socket_id: i32, fd: i32) -> SourceView {
        if self.unassigned.contains(fd) {
            SourceView {
                sockets: self.sockets.insert(socket_id, fd),
                ..self.unassigned_removed(fd)
            }
        } else {
            self
        }
    }

    /// The socket of an ID.
    pub open spec fn socket(self, socket_id: i32) -> Option<i32> {
        if self.sockets.contains_key(socket_id) {
            Some(self.sockets[socket_id])
        } else {
            None
        }
    }

    /// The state once the socket of an ID is closed.
    pub open spec fn socket_closed(self, socket_id: i32) -> SourceView {
        SourceView { sockets: self.sockets.remove(socket_id), ..self }
    }
}

impl ForwardSourceHandler {
    /// Creates a new source handler, once a socket listens at its endpoint, or not
    pub fn new(
        source: SocketEndpoint,
        destination: SocketEndpoint,
        listened: Result<Vec<i32>, Error>,
    ) -> (r: Result<ForwardSourceHandler, Error>)
        ensures
            result_view(r) == match listened {
                Ok(fds) => Ok::<SourceView, ErrorView>(
                    SourceView::start(source@, destination@, fds@),
                ),
                Err(e) => Err::<SourceView, ErrorView>(e@),
            },
    {
        broadcast use group_hash_axioms;

        match listened {
            Ok(listen_fds) => Ok(
                ForwardSourceHandler {
                    source,
                    destination,
                    listen_fds,
                    unassigned_fds: Vec::new(),
                    socket_map: HashMap::new(),
                },
            ),
            Err(e) => Err(e),
        }
    }

    /// Get the source endpoint
    pub fn source(&self) -> (r: &SocketEndpoint)
        ensures
            r@ == self@.source,
    {
        &self.source
    }

    /// Get the destination endpoint
    pub fn destination(&self) -> (r: &SocketEndpoint)
        ensures
            r@ == self@.destination,
    {
        &self.destination
    }

    /// The ID and the socket of every connection
    pub fn sockets(&self) -> (r: Vec<(i32, i32)>)
        ensures
            r@.no_duplicates(),
            r@.to_set() == self@.sockets.kv_pairs(),
    {
        broadcast use group_hash_axioms;

        let mut pairs: Vec<(i32, i32)> = Vec::new();
        for id in it: self.socket_map.keys()
            invariant
                pairs@ == Seq::new(
                    it.index() as nat,
                    |i: int| (it.seq().unref()[i], self.socket_map@[it.seq().unref()[i]]),
                ),
                it.seq().unref().to_set() == self.socket_map@.dom(),
                it.seq().unref().no_duplicates(),
                it.seq().unref().len() == it.seq().len(),
                0 <= it.index() <= it.seq().len(),
                it.index() == it.seq().len() ==> pairs@.to_set() == self.socket_map@.kv_pairs(),
        {
            assert(it.seq().unref().to_set().contains(*id)) by {
                assert(it.seq().unref()[it.index()] == *id);
            }
            match self.socket_map.get(id) {
                Some(fd) => pairs.push((*id, *fd)),
                None => (),
            }
            assert(it.index() + 1 == it.seq().len() ==> pairs@.to_set()
                =~= self.socket_map@.kv_pairs()) by {
                if it.index() + 1 == it.seq().len() {
                    lemma_pairs(self.socket_map@, it.seq().unref(), pairs@);
                }
            }
        }
        pairs
    }

    /// Takes what was read of the connections, adds the messages for the other end, and returns
    /// the sockets to be closed
    pub fn update(&mut self, readings: Vec<Reading>, data_to_send: &mut Vec<PortForwardData>) -> (r:
        Vec<i32>)
        ensures
            (final(self)@, r@) == old(self)@.updated(views(readings@)),
            views(final(data_to_send)@) == views(old(data_to_send)@) + reading_messages(
                views(readings@),
                true,
            ),
    {
        broadcast use group_hash_axioms;

        let mut closed: Vec<i32> = Vec::new();
        let ghost all = views(readings@);
        assert(all.take(0) =~= Seq::<ReadingView>::empty());
        assert(views(data_to_send@) =~= views(data_to_send@) + reading_messages(all.take(0), true));
        let ghost start = self@;
        let ghost sent_before = views(data_to_send@);
        for reading in it: readings
            invariant
                it.seq() == readings@,
                all == views(readings@),
                (self@, closed@) == start.updated(all.take(it.index() as int)),
                views(data_to_send@) == sent_before + reading_messages(
                    all.take(it.index() as int),
                    true,
                ),
        {
            let ghost view = reading@;
            assert(all.take(it.index() + 1).drop_last() =~= all.take(it.index() as int));
            assert(all.take(it.index() + 1).last() == view);
            match reading.outcome {
                Ok(buffer) => {
                    if buffer.len() == 0 {
                        match self.close_socket(reading.socket_id) {
                            Some(fd) => closed.push(fd),
                            None => (),
                        }
                    }
                    let ghost queued = data_to_send@;
                    let message = PortForwardData::for_read(true, reading.socket_id, buffer);
                    assert(message@ == view.message(true));
                    data_to_send.push(message);
                    assert(views(data_to_send@) =~= views(queued).push(message@));
                },
                Err(_) => (),
            }
        }
        assert(all.take(readings@.len() as int) =~= all);
        closed
    }

    /// Starts to look for a new connection
    pub fn listen(&self) -> (r: ListenStep)
        ensures
            r == self@.listen_step(0),
    {
        self.check_from(0)
    }

    fn check_from(&self, index: usize) -> (r: ListenStep)
        ensures
            r == self@.listen_step(index as int),
    {
        if index < self.listen_fds.len() {
            ListenStep::Check { index, fd: self.listen_fds[index] }
        } else {
            ListenStep::Finished(None)
        }
    }

    /// Goes on looking for a new connection after the listening socket at `index`
    pub fn listened(&mut self, index: usize, outcome: ListenOutcome) -> (r: ListenStep)
        requires
            index < old(self)@.listen_fds.len(),
        ensures
            (final(self)@, r) == old(self)@.listened(index as int, outcome),
    {
        match outcome {
            ListenOutcome::Accepted(Ok(fd)) => {
                self.unassigned_fds.push(fd);
                ListenStep::Finished(Some(fd))
            },
            _ => {
                assert(index < self.listen_fds.len());
                self.check_from(index + 1)
            },
        }
    }

    /// Check if we have an unassigned fd
    pub fn has_unassigned_fd(&self, fd: i32) -> (r: bool)
        ensures
            r == self@.unassigned.contains(fd),
    {
        holds(&self.unassigned_fds, fd)
    }

    fn take_unassigned(&mut self, fd: i32) -> (r: bool)
        ensures
            r == old(self)@.unassigned.contains(fd),
            final(self)@ == old(self)@.unassigned_removed(fd),
    {
        proof {
            self@.unassigned.index_of_first_ensures(fd);
        }
        let mut i: usize = 0;
        while i < self.unassigned_fds.len()
            invariant
                *self == *old(self),
                i <= self.unassigned_fds.len(),
                forall|k: int| 0 <= k < i ==> self.unassigned_fds@[k] != fd,
            decreases self.unassigned_fds.len() - i,
        {
            if self.unassigned_fds[i] == fd {
                assert(self@.unassigned[i as int] == fd);
                proof {
                    self@.unassigned.index_of_first_ensures(fd);
                }
                self.unassigned_fds.remove(i);
                return true;
            }
            i = i + 1;
        }
        assert(!self@.unassigned.contains(fd));
        proof {
            self@.unassigned.index_of_first_ensures(fd);
        }
        false
    }

    /// Forgets an unassigned fd, and returns it where it is to be closed
    pub fn close_unassigned_fd(&mut self, fd: i32) -> (r: Option<i32>)
        ensures
            r == if old(self)@.unassigned.contains(fd) {
                Some(fd)
            } else {
                None
            },
            final(self)@ == old(self)@.unassigned_removed(fd),
    {
        if self.take_unassigned(fd) {
            Some(fd)
        } else {
            None
        }
    }

    /// Add a socket ID mapping for an unassigned fd
    pub fn add_socket(&mut self, socket_id: i32, fd: i32)
        ensures
            final(self)@ == old(self)@.assigned(socket_id, fd),
    {
        broadcast use group_hash_axioms;

        proof {
            self@.unassigned.index_of_first_ensures(fd);
        }
        if self.take_unassigned(fd) {
            self.socket_map.insert(socket_id, fd);
        }
    }

    /// Forgets a socket by ID, and returns it where it is to be closed
    pub fn close_socket(&mut self, socket_id: i32) -> (r: Option<i32>)
        ensures
            r == old(self)@.socket(socket_id),
            final(self)@ == old(self)@.socket_closed(socket_id),
    {
        broadcast use group_hash_axioms;

        let removed = self.socket_map.remove(&socket_id);
        assert(self.socket_map@ =~= old(self).socket_map@.remove(socket_id));
        removed
    }

    /// The socket on which data for an ID is to be sent
    pub fn send_data_on_socket(&self, socket_id: i32) -> (r: Option<i32>)
        ensures
            r == self@.socket(socket_id),
    {
        broadcast use group_hash_axioms;

        match self.socket_map.get(&socket_id) {
            Some(fd) => Some(*fd),
            None => None,
        }
    }
}

proof fn lemma_pairs(map: Map<i32, i32>, keys: Seq<i32>, pairs: Seq<(i32, i32)>)
    requires
        keys.to_set() == map.dom(),
        pairs.len() == keys.len(),
        forall|i: int| 0 <= i < keys.len() ==> #[trigger] pairs[i] == (keys[i], map[keys[i]]),
    ensures
        pairs.to_set() == map.kv_pairs(),
{
    assert forall|pair: (i32, i32)|
        pairs.to_set().contains(pair) <==> map.kv_pairs().contains(pair) by {
        if pairs.contains(pair) {
            let i = choose|i: int| 0 <= i < pairs.len() && pairs[i] == pair;
            assert(keys.to_set().contains(keys[i]));
        }
        if map.kv_pairs().contains(pair) {
            assert(keys.to_set().contains(pair.0));
            let i = choose|i: int| 0 <= i < keys.len() && keys[i] == pair.0;
            assert(pairs[i] == pair);
        }
    }
    assert(pairs.to_set() =~= map.kv_pairs());
}

/// Handles a destination connection for port forwarding
#[derive(Debug)]
pub struct ForwardDestinationHandler {
    fd: i32,
    socket_id: i32,
    network: bool,
}

/// The state of a [`ForwardDestinationHandler`].
pub struct DestinationView {
    /// Connected socket
    pub fd: i32,
    /// Socket ID for this destination
    pub socket_id: i32,
    /// Whether the socket is of the network rather than a pipe
    pub network: bool,
}

impl View for ForwardDestinationHandler {
    type V = DestinationView;

    closed spec fn view(&self) -> DestinationView {
        DestinationView { fd: self.fd, socket_id: self.socket_id, network: self.network }
    }
}

impl DestinationView {
    /// The state once the connection is closed, and the socket to be closed.
    pub open spec fn closed(self) -> (DestinationView, Option<i32>) {
        if self.fd >= 0 {
            (DestinationView { fd: NO_SOCKET, ..self }, Some(self.fd))
        } else {
            (self, None)
        }
    }

    /// The state after a reading of the connection, the messages for the other end, and the
    /// socket to be closed.
    pub open spec fn updated(self, outcome: Result<Seq<u8>, ErrorView>) -> (
        DestinationView,
        Seq<ForwardDataView>,
        Option<i32>,
    ) {
        let reading = ReadingView { socket_id: self.socket_id, outcome };
        if self.fd < 0 {
            (self, Seq::empty(), None)
        } else if reading.ended() {
            (self.closed().0, reading_messages(seq![reading], false), self.closed().1)
        } else {
            (self, reading_messages(seq![reading], false), None)
        }
    }
}

impl ForwardDestinationHandler {
    /// Creates a new destination handler
    pub fn new(fd: i32, socket_id: i32, network: bool) -> (r: ForwardDestinationHandler)
        ensures
            r@ == (DestinationView { fd, socket_id, network }),
    {
        ForwardDestinationHandler { fd, socket_id, network }
    }

    /// Get the socket fd
    pub fn fd(&self) -> (r: i32)
        ensures
            r == self@.fd,
    {
        self.fd
    }

    /// Takes what was read of the connection, adds the message for the other end, and returns
    /// the socket to be closed
    pub fn update(
        &mut self,
        outcome: Result<Vec<u8>, Error>,
        data_to_send: &mut Vec<PortForwardData>,
    ) -> (r: Option<i32>)
        ensures
            ({
                let (state, messages, close) = old(self)@.updated(result_view(outcome));
                &&& final(self)@ == state
                &&& r == close
                &&& views(final(data_to_send)@) == views(old(data_to_send)@) + messages
            }),
    {
        let ghost reading = ReadingView {
            socket_id: self.socket_id,
            outcome: result_view(outcome),
        };
        assert(seq![reading].drop_last() =~= Seq::<ReadingView>::empty());
        assert(reading_messages(seq![reading].drop_last(), false) =~= Seq::empty());
        assert(reading.outcome is Ok ==> reading_messages(seq![reading], false) =~= seq![
            reading.message(false),
        ]);
        assert(views(data_to_send@) + Seq::empty() =~= views(data_to_send@));
        if self.fd < 0 {
            return None;
        }
        match outcome {
            Ok(buffer) => {
                let ended = buffer.len() == 0;
                let message = PortForwardData::for_read(false, self.socket_id, buffer);
                data_to_send.push(message);
                assert(views(data_to_send@) =~= views(old(data_to_send)@) + seq![message@]);
                if ended {
                    self.close()
                } else {
                    None
                }
            },
            Err(_) => None,
        }
    }

    /// The socket to which data for the destination is to be written
    pub fn write(&self) -> (r: Option<i32>)
        ensures
            r == if self@.fd >= 0 {
                Some(self@.fd)
            } else {
                None
            },
    {
        if self.fd >= 0 {
            Some(self.fd)
        } else {
            None
        }
    }

    /// Gives up the connection, and returns the socket to be closed
    pub fn close(&mut self) -> (r: Option<i32>)
        ensures
            (final(self)@, r) == old(self)@.closed(),
    {
        if self.fd >= 0 {
            let fd = self.fd;
            self.fd = NO_SOCKET;
            Some(fd)
        } else {
            None
        }
    }
}

/// A socket, and whether it is of the network rather than a pipe
#[derive(Debug, Clone, Copy, PartialEq, Eq, Structural)]
pub struct SocketRef {
    /// Whether the socket is of the network
    pub network: bool,
    /// Descriptor of the socket
    pub fd: i32,
}

/// A message about port forwarding, as it was received
#[derive(Debug)]
pub enum ForwardPacket {
    /// Forwarded data
    Data(PortForwardData),
    /// A request for a connection to a destination
    DestinationRequest(PortForwardDestinationRequest),
    /// The answer to such a request
    DestinationResponse(PortForwardDestinationResponse),
    /// Anything else, or a message that cannot be read
    Other,
}

/// What a [`ForwardPacket`] says.
pub enum ForwardPacketView {
    Data(ForwardDataView),
    DestinationRequest(DestinationRequestView),
    DestinationResponse(DestinationResponseView),
    Other,
}

impl View for ForwardPacket {
    type V = ForwardPacketView;

    open spec fn view(&self) -> ForwardPacketView {
        match *self {
            ForwardPacket::Data(data) => ForwardPacketView::Data(data@),
            ForwardPacket::DestinationRequest(request) => ForwardPacketView::DestinationRequest(
                request@,
            ),
            ForwardPacket::DestinationResponse(response) => ForwardPacketView::DestinationResponse(
                response@,
            ),
            ForwardPacket::Other => ForwardPacketView::Other,
        }
    }
}

/// What a packet about port forwarding holds
#[derive(Debug, Clone, Copy, PartialEq, Eq, Structural)]
pub enum ForwardKind {
    /// Forwarded data
    Data,
    /// A request for a connection to a destination
    DestinationRequest,
    /// The answer to such a request
    DestinationResponse,
}

/// What a packet of the given type holds, if it is about port forwarding.
pub open spec fn forward_kind_of(packet_type: u8) -> Option<ForwardKind> {
    if packet_type == terminal_packet_type::PORT_FORWARD_DATA {
        Some(ForwardKind::Data)
    } else if packet_type == terminal_packet_type::PORT_FORWARD_DESTINATION_REQUEST {
        Some(ForwardKind::DestinationRequest)
    } else if packet_type == terminal_packet_type::PORT_FORWARD_DESTINATION_RESPONSE {
        Some(ForwardKind::DestinationResponse)
    } else {
        None
    }
}

/// What a packet of the given type holds, if it is about port forwarding
pub fn forward_kind(packet_type: u8) -> (r: Option<ForwardKind>)
    ensures
        r == forward_kind_of(packet_type),
{
    if packet_type == terminal_packet_type::PORT_FORWARD_DATA {
        Some(ForwardKind::Data)
    } else if packet_type == terminal_packet_type::PORT_FORWARD_DESTINATION_REQUEST {
        Some(ForwardKind::DestinationRequest)
    } else if packet_type == terminal_packet_type::PORT_FORWARD_DESTINATION_RESPONSE {
        Some(ForwardKind::DestinationResponse)
    } else {
        None
    }
}

/// What is to be done for a message about port forwarding
#[derive(Debug)]
pub enum ForwardAction {
    /// Nothing
    Nothing,
    /// Data is to be written to a socket
    Write { socket: SocketRef, data: Vec<u8> },
    /// A socket is to be closed
    Close(SocketRef),
    /// A destination is to be created and the peer to be told of it
    CreateDestination(PortForwardDestinationRequest),
}

/// What a [`ForwardAction`] says.
pub enum ForwardActionView {
    Nothing,
    Write { socket: SocketRef, data: Seq<u8> },
    Close(SocketRef),
    CreateDestination(DestinationRequestView),
}

impl View for ForwardAction {
    type V = ForwardActionView;

    open spec fn view(&self) -> ForwardActionView {
        match *self {
            ForwardAction::Nothing => ForwardActionView::Nothing,
            ForwardAction::Write { socket, data } => ForwardActionView::Write {
                socket,
                data: data@,
            },
            ForwardAction::Close(socket) => ForwardActionView::Close(socket),
            ForwardAction::CreateDestination(request) => ForwardActionView::CreateDestination(
                request@,
            ),
        }
    }
}

/// Coordinates port forwarding requests, source/destination sockets, and data flow
#[derive(Debug)]
pub struct PortForwardHandler {
    destination_handlers: HashMap<i32, ForwardDestinationHandler>,
    source_handlers: Vec<ForwardSourceHandler>,
    socket_id_source_handler_map: HashMap<i32, usize>,
}

/// The state of a [`PortForwardHandler`].
#[verifier::ext_equal]
pub struct ForwardView {
    /// Active destination handlers keyed by socket id
    pub destinations: Map<i32, DestinationView>,
    /// Handlers for the listening port forward sources
    pub sources: Seq<SourceView>,
    /// For each socket ID, which source handler it belongs to
    pub owners: Map<i32, usize>,
}

impl View for PortForwardHandler {
    type V = ForwardView;

    closed spec fn view(&self) -> ForwardView {
        ForwardView {
            destinations: self.destination_handlers@.map_values(
                |handler: ForwardDestinationHandler| handler@,
            ),
            sources: views(self.source_handlers@),
            owners: self.socket_id_source_handler_map@,
        }
    }
}

/// Whether a source uses the network rather than a pipe: it has a port.
pub open spec fn on_network(source: SourceView) -> bool {
    source.source.port > 0
}

/// The index of the first source from `from` on that holds an unassigned socket, or the number
/// of sources where there is none.
pub open spec fn holder(sources: Seq<SourceView>, fd: i32, from: int) -> int
    decreases sources.len() - from,
{
    if from >= sources.len() || sources[from].unassigned.contains(fd) {
        from
    } else {
        holder(sources, fd, from + 1)
    }
}

/// What is to be done with data for a socket: it is written where there is one.
pub open spec fn write_to(network: bool, fd: Option<i32>, data: Seq<u8>) -> ForwardActionView {
    match fd {
        Some(fd) => ForwardActionView::Write { socket: SocketRef { network, fd }, data },
        None => ForwardActionView::Nothing,
    }
}

/// What is to be done to close a socket where there is one.
pub open spec fn close_of(network: bool, fd: Option<i32>) -> ForwardActionView {
    match fd {
        Some(fd) => ForwardActionView::Close(SocketRef { network, fd }),
        None => ForwardActionView::Nothing,
    }
}

impl ForwardView {
    /// The state at the start.
    pub open spec fn empty() -> ForwardView {
        ForwardView { destinations: Map::empty(), sources: Seq::empty(), owners: Map::empty() }
    }

    /// What holds of every handler: a socket ID belongs to one of the sources.
    pub open spec fn wf(self) -> bool {
        &&& self.sources.len() <= usize::MAX
        &&& forall|id: i32| #[trigger]
            self.owners.contains_key(id) ==> self.owners[id] < self.sources.len()
    }

    /// The state with one source changed.
    pub open spec fn with_source(self, index: int, source: SourceView) -> ForwardView {
        ForwardView { sources: self.sources.update(index, source), ..self }
    }

    /// What data for a destination leads to.
    pub open spec fn destination_data(self, data: ForwardDataView) -> (
        ForwardView,
        ForwardActionView,
    ) {
        if !self.destinations.contains_key(data.socket_id) {
            (self, ForwardActionView::Nothing)
        } else {
            let destination = self.destinations[data.socket_id];
            if data.ends() {
                let (closed, fd) = destination.closed();
                (
                    ForwardView {
                        destinations: self.destinations.insert(data.socket_id, closed),
                        ..self
                    },
                    close_of(destination.network, fd),
                )
            } else {
                let fd = if destination.fd >= 0 {
                    Some(destination.fd)
                } else {
                    None
                };
                (self, write_to(destination.network, fd, data.buffer))
            }
        }
    }

    /// What data for a source leads to.
    pub open spec fn source_data(self, data: ForwardDataView) -> (ForwardView, ForwardActionView) {
        if !self.owners.contains_key(data.socket_id) {
            (self, ForwardActionView::Nothing)
        } else {
            let owner = self.owners[data.socket_id] as int;
            let source = self.sources[owner];
            if data.ends() {
                (
                    ForwardView {
                        owners: self.owners.remove(data.socket_id),
                        ..self.with_source(owner, source.socket_closed(data.socket_id))
                    },
                    close_of(on_network(source), source.socket(data.socket_id)),
                )
            } else {
                (
                    self,
                    write_to(on_network(source), source.socket(data.socket_id), data.buffer),
                )
            }
        }
    }

    /// What the answer of the other end leads to: the socket that waited for it gets its ID, or
    /// is closed.
    pub open spec fn answered(self, response: DestinationResponseView) -> (
        ForwardView,
        ForwardActionView,
    ) {
        let index = holder(self.sources, response.client_fd, 0);
        if index >= self.sources.len() {
            (self, ForwardActionView::Nothing)
        } else {
            let source = self.sources[index];
            if response.error.len() > 0 {
                (
                    self.with_source(index, source.unassigned_removed(response.client_fd)),
                    close_of(on_network(source), Some(response.client_fd)),
                )
            } else {
                (
                    ForwardView {
                        owners: self.owners.insert(response.socket_id, index as usize),
                        ..self.with_source(
                            index,
                            source.assigned(response.socket_id, response.client_fd),
                        )
                    },
                    ForwardActionView::Nothing,
                )
            }
        }
    }

    /// What a packet about port forwarding leads to.
    pub open spec fn handled(self, packet: ForwardPacketView) -> (ForwardView, ForwardActionView) {
        match packet {
            ForwardPacketView::Data(data) => if data.source_to_destination {
                self.destination_data(data)
            } else {
                self.source_data(data)
            },
            ForwardPacketView::DestinationRequest(request) => (
                self,
                ForwardActionView::CreateDestination(request),
            ),
            ForwardPacketView::DestinationResponse(response) => self.answered(response),
            ForwardPacketView::Other => (self, ForwardActionView::Nothing),
        }
    }
}

fn close_action(network: bool, fd: Option<i32>) -> (r: ForwardAction)
    ensures
        r@ == close_of(network, fd),
{
    match fd {
        Some(fd) => ForwardAction::Close(SocketRef { network, fd }),
        None => ForwardAction::Nothing,
    }
}

fn write_action(network: bool, fd: Option<i32>, data: Vec<u8>) -> (r: ForwardAction)
    ensures
        r@ == write_to(network, fd, data@),
{
    match fd {
        Some(fd) => ForwardAction::Write { socket: SocketRef { network, fd }, data },
        None => ForwardAction::Nothing,
    }
}

impl ForwardSourceHandler {
    fn is_on_network(&self) -> (r: bool)
        ensures
            r == on_network(self@),
    {
        self.source.port > 0
    }
}

impl PortForwardHandler {
    /// Creates a new port forward handler
    pub fn new() -> (r: PortForwardHandler)
        ensures
            r@ == ForwardView::empty(),
            r@.wf(),
    {
        broadcast use group_hash_axioms;

        let handler = PortForwardHandler {
            destination_handlers: HashMap::new(),
            source_handlers: Vec::new(),
            socket_id_source_handler_map: HashMap::new(),
        };
        assert(handler@ =~= ForwardView::empty());
        handler
    }

    fn find_holder(&self, fd: i32) -> (r: usize)
        ensures
            r == holder(self@.sources, fd, 0),
            r <= self@.sources.len(),
            r < self@.sources.len() ==> self@.sources[r as int].unassigned.contains(fd),
    {
        let mut i: usize = 0;
        while i < self.source_handlers.len() && !self.source_handlers[i].has_unassigned_fd(fd)
            invariant
                i <= self.source_handlers.len(),
                holder(self@.sources, fd, 0) == holder(self@.sources, fd, i as int),
            decreases self.source_handlers.len() - i,
        {
            i = i + 1;
        }
        i
    }

    fn destination_data(&mut self, data: PortForwardData) -> (r: ForwardAction)
        ensures
            (final(self)@, r@) == old(self)@.destination_data(data@),
    {
        broadcast use group_hash_axioms;

        let ends = data.ends();
        if !ends {
            return match self.destination_handlers.get(&data.socket_id) {
                Some(handler) => write_action(handler.network, handler.write(), data.buffer),
                None => ForwardAction::Nothing,
            };
        }
        match self.destination_handlers.remove(&data.socket_id) {
            Some(handler) => {
                let mut handler = handler;
                let fd = handler.close();
                let network = handler.network;
                self.destination_handlers.insert(data.socket_id, handler);
                assert(self@.destinations =~= old(self)@.destinations.insert(
                    data.socket_id,
                    handler@,
                ));
                close_action(network, fd)
            },
            None => {
                assert(self@ =~= old(self)@);
                ForwardAction::Nothing
            },
        }
    }

    fn close_source_socket_id(&mut self, socket_id: i32) -> (r: ForwardAction)
        requires
            old(self)@.wf(),
        ensures
            final(self)@ == if old(self)@.owners.contains_key(socket_id) {
                let owner = old(self)@.owners[socket_id] as int;
                ForwardView {
                    owners: old(self)@.owners.remove(socket_id),
                    ..old(self)@.with_source(
                        owner,
                        old(self)@.sources[owner].socket_closed(socket_id),
                    )
                }
            } else {
                old(self)@
            },
            r@ == if old(self)@.owners.contains_key(socket_id) {
                let source = old(self)@.sources[old(self)@.owners[socket_id] as int];
                close_of(on_network(source), source.socket(socket_id))
            } else {
                ForwardActionView::Nothing
            },
    {
        broadcast use group_hash_axioms;

        match self.socket_id_source_handler_map.remove(&socket_id) {
            Some(owner) => {
                assert(self@.owners =~= old(self)@.owners.remove(socket_id));
                assert(old(self)@.owners.contains_key(socket_id));
                let network = self.source_handlers[owner].is_on_network();
                let fd = self.source_handlers[owner].close_socket(socket_id);
                assert(self@.sources =~= old(self)@.sources.update(
                    owner as int,
                    old(self)@.sources[owner as int].socket_closed(socket_id),
                ));
                close_action(network, fd)
            },
            None => {
                assert(self@ =~= old(self)@);
                ForwardAction::Nothing
            },
        }
    }

    fn send_data_to_source_on_socket(&self, socket_id: i32, data: Vec<u8>) -> (r: ForwardAction)
        requires
            self@.wf(),
        ensures
            r@ == if self@.owners.contains_key(socket_id) {
                let source = self@.sources[self@.owners[socket_id] as int];
                write_to(on_network(source), source.socket(socket_id), data@)
            } else {
                ForwardActionView::Nothing
            },
    {
        broadcast use group_hash_axioms;

        match self.socket_id_source_handler_map.get(&socket_id) {
            Some(owner) => {
                assert(self@.owners.contains_key(socket_id));
                let source = &self.source_handlers[*owner];
                write_action(source.is_on_network(), source.send_data_on_socket(socket_id), data)
            },
            None => ForwardAction::Nothing,
        }
    }

    fn close_source_fd(&mut self, index: usize, fd: i32) -> (r: ForwardAction)
        requires
            index < old(self)@.sources.len(),
            old(self)@.sources[index as int].unassigned.contains(fd),
        ensures
            final(self)@ == old(self)@.with_source(
                index as int,
                old(self)@.sources[index as int].unassigned_removed(fd),
            ),
            r@ == close_of(on_network(old(self)@.sources[index as int]), Some(fd)),
    {
        let network = self.source_handlers[index].is_on_network();
        let closed = self.source_handlers[index].close_unassigned_fd(fd);
        assert(self@.sources =~= old(self)@.sources.update(
            index as int,
            old(self)@.sources[index as int].unassigned_removed(fd),
        ));
        close_action(network, closed)
    }

    fn add_source_socket_id(&mut self, index: usize, socket_id: i32, source_fd: i32)
        requires
            index < old(self)@.sources.len(),
        ensures
            final(self)@ == (ForwardView {
                owners: old(self)@.owners.insert(socket_id, index),
                ..old(self)@.with_source(
                    index as int,
                    old(self)@.sources[index as int].assigned(socket_id, source_fd),
                )
            }),
    {
        broadcast use group_hash_axioms;

        self.source_handlers[index].add_socket(socket_id, source_fd);
        assert(self@.sources =~= old(self)@.sources.update(
            index as int,
            old(self)@.sources[index as int].assigned(socket_id, source_fd),
        ));
        self.socket_id_source_handler_map.insert(socket_id, index);
    }

    /// Handles a packet related to port forwarding
    pub fn handle_packet(&mut self, packet: ForwardPacket) -> (r: ForwardAction)
        requires
            old(self)@.wf(),
        ensures
            (final(self)@, r@) == old(self)@.handled(packet@),
            final(self)@.wf(),
    {
        match packet {
            ForwardPacket::Data(data) => {
                if data.source_to_destination {
                    self.destination_data(data)
                } else if data.ends() {
                    self.close_source_socket_id(data.socket_id)
                } else {
                    self.send_data_to_source_on_socket(data.socket_id, data.buffer)
                }
            },
            ForwardPacket::DestinationRequest(request) => ForwardAction::CreateDestination(request),
            ForwardPacket::DestinationResponse(response) => {
                let index = self.find_holder(response.client_fd);
                if index >= self.source_handlers.len() {
                    ForwardAction::Nothing
                } else if !is_empty(response.error.as_str()) {
                    self.close_source_fd(index, response.client_fd)
                } else {
                    self.add_source_socket_id(index, response.socket_id, response.client_fd);
                    ForwardAction::Nothing
                }
            },
            ForwardPacket::Other => ForwardAction::Nothing,
        }
    }
}

/// Where the source of a request listens, and whether that is on the network.
pub open spec fn source_place(request: SourceRequestView) -> (bool, EndpointView) {
    let source = endpoint_or_default(request.source);
    (source.port > 0, listen_endpoint_of(source))
}

impl PortForwardHandler {
    /// Where the source of a request is to listen, and whether that is on the network
    pub fn source_endpoint(request: &PortForwardSourceRequest) -> (r: (
        bool,
        crate::socket::SocketEndpoint,
    ))
        ensures
            (r.0, r.1@) == source_place(request@),
    {
        let source = endpoint_of(&request.source);
        (source.port > 0, listen_endpoint(&source))
    }

    /// Creates a source handler for a port forward request, once a socket listens at its
    /// endpoint, or not
    pub fn create_source(
        &mut self,
        request: &PortForwardSourceRequest,
        listened: Result<Vec<i32>, Error>,
    ) -> (r: Result<PortForwardSourceResponse, Error>)
        requires
            old(self)@.wf(),
            old(self)@.sources.len() < usize::MAX,
        ensures
            match listened {
                Ok(fds) => {
                    &&& r matches Ok(response) && response@.error == Seq::<char>::empty()
                    &&& final(self)@ == ForwardView {
                        sources: old(self)@.sources.push(
                            SourceView::start(
                                endpoint_or_default(request@.source),
                                endpoint_or_default(request@.destination),
                                fds@,
                            ),
                        ),
                        ..old(self)@
                    }
                },
                Err(e) => (r matches Err(error) && error@ == e@) && final(self)@ == old(self)@,
            },
            final(self)@.wf(),
    {
        let source = endpoint_of(&request.source);
        let destination = endpoint_of(&request.destination);
        match ForwardSourceHandler::new(source, destination, listened) {
            Ok(handler) => {
                self.source_handlers.push(handler);
                assert(self@.sources =~= old(self)@.sources.push(handler@));
                let error = String::new();
                assert(error@ =~= Seq::<char>::empty());
                Ok(PortForwardSourceResponse { error })
            },
            Err(e) => Err(e),
        }
    }
}

/// An attempt to connect to the destination of a request
#[derive(Debug)]
pub struct DestinationAttempt {
    client_fd: i32,
    destination: SocketEndpoint,
    last: bool,
}

/// The state of a [`DestinationAttempt`].
pub struct AttemptView {
    /// The connection that the request is for
    pub client_fd: i32,
    /// Where to connect
    pub destination: SocketEndpointView,
    /// Whether no other address is left
    pub last: bool,
}

impl View for DestinationAttempt {
    type V = AttemptView;

    closed spec fn view(&self) -> AttemptView {
        AttemptView {
            client_fd: self.client_fd,
            destination: self.destination@,
            last: self.last,
        }
    }
}

/// What an attempt to connect to a destination needs next
#[derive(Debug)]
pub enum DestinationStep {
    /// A socket to the endpoint is to be opened
    Connect { network: bool, endpoint: crate::socket::SocketEndpoint },
    /// The attempt is over, and the peer is to be told
    Finished(PortForwardDestinationResponse),
}

/// What a [`DestinationStep`] says.
pub enum DestinationStepView {
    Connect { network: bool, endpoint: EndpointView },
    Finished(DestinationResponseView),
}

impl View for DestinationStep {
    type V = DestinationStepView;

    open spec fn view(&self) -> DestinationStepView {
        match *self {
            DestinationStep::Connect { network, endpoint } => DestinationStepView::Connect {
                network,
                endpoint: endpoint@,
            },
            DestinationStep::Finished(response) => DestinationStepView::Finished(response@),
        }
    }
}

/// A random number without its sign. The smallest number, which has no counterpart, becomes zero.
pub open spec fn without_sign(n: i32) -> i32 {
    if n >= 0 {
        n
    } else if n == i32::MIN {
        0
    } else {
        (-n) as i32
    }
}

/// Calls `rand::thread_rng` and `Rng::gen`, which draw a number at random. Nothing is claimed of
/// it.
#[verifier::external_body]
fn random_number() -> (n: i32)
{
    rand::Rng::gen::<i32>(&mut rand::thread_rng())
}

/// What an attempt starts with: the host that the destination names where it has a port, or IPv6
/// on this machine where it names none, else the pipe that it names.
pub open spec fn attempt_begun(request: DestinationRequestView) -> (
    AttemptView,
    DestinationStepView,
) {
    let destination = endpoint_or_default(request.destination);
    if destination.port > 0 && destination.name.len() > 0 {
        (
            AttemptView { client_fd: request.fd, destination, last: true },
            DestinationStepView::Connect {
                network: true,
                endpoint: EndpointView {
                    name: Some(destination.name),
                    port: low16(destination.port) as u16,
                },
            },
        )
    } else if destination.port > 0 {
        (
            AttemptView { client_fd: request.fd, destination, last: false },
            DestinationStepView::Connect {
                network: true,
                endpoint: EndpointView {
                    name: Some("::1"@),
                    port: low16(destination.port) as u16,
                },
            },
        )
    } else {
        (
            AttemptView { client_fd: request.fd, destination, last: true },
            DestinationStepView::Connect {
                network: false,
                endpoint: EndpointView { name: Some(destination.name), port: 0 },
            },
        )
    }
}

impl AttemptView {
    /// The end of an attempt that has a socket: the destination is kept under a random ID.
    pub open spec fn established(self, handler: ForwardView, fd: i32, random: i32) -> (
        AttemptView,
        ForwardView,
        DestinationStepView,
    ) {
        let socket_id = without_sign(random);
        (
            self,
            ForwardView {
                destinations: handler.destinations.insert(
                    socket_id,
                    DestinationView { fd, socket_id, network: self.destination.port > 0 },
                ),
                ..handler
            },
            DestinationStepView::Finished(
                DestinationResponseView {
                    client_fd: self.client_fd,
                    socket_id,
                    error: Seq::empty(),
                },
            ),
        )
    }

    /// What follows once a socket was opened, or not: after IPv6 on this machine comes IPv4, and
    /// with no other address left the attempt has failed.
    pub open spec fn next(
        self,
        handler: ForwardView,
        outcome: Result<i32, ErrorView>,
        random: i32,
    ) -> (AttemptView, ForwardView, DestinationStepView) {
        let fd = match outcome {
            Ok(fd) => fd,
            Err(_) => NO_SOCKET,
        };
        if !self.last && fd < 0 {
            (
                AttemptView { last: true, ..self },
                handler,
                DestinationStepView::Connect {
                    network: true,
                    endpoint: EndpointView {
                        name: Some("127.0.0.1"@),
                        port: low16(self.destination.port) as u16,
                    },
                },
            )
        } else if fd == NO_SOCKET {
            (
                self,
                handler,
                DestinationStepView::Finished(
                    DestinationResponseView {
                        client_fd: self.client_fd,
                        socket_id: 0,
                        error: "Connection failed"@,
                    },
                ),
            )
        } else {
            self.established(handler, fd, random)
        }
    }
}

impl PortForwardHandler {
    /// Starts to create a destination handler for a port forward request
    pub fn create_destination(request: &PortForwardDestinationRequest) -> (r: (
        DestinationAttempt,
        DestinationStep,
    ))
        ensures
            (r.0@, r.1@) == attempt_begun(request@),
    {
        let destination = endpoint_of(&request.destination);
        if destination.port > 0 && !is_empty(destination.name.as_str()) {
            let endpoint = crate::socket::SocketEndpoint::new(
                destination.name.as_str(),
                truncate16(destination.port),
            );
            (
                DestinationAttempt { client_fd: request.fd, destination, last: true },
                DestinationStep::Connect { network: true, endpoint },
            )
        } else if destination.port > 0 {
            let endpoint = crate::socket::SocketEndpoint::new("::1", truncate16(destination.port));
            (
                DestinationAttempt { client_fd: request.fd, destination, last: false },
                DestinationStep::Connect { network: true, endpoint },
            )
        } else {
            let endpoint = crate::socket::SocketEndpoint::new(destination.name.as_str(), 0);
            (
                DestinationAttempt { client_fd: request.fd, destination, last: true },
                DestinationStep::Connect { network: false, endpoint },
            )
        }
    }
}

impl DestinationAttempt {
    /// Goes on once a socket was opened, or not, with a number to be used as ID
    pub fn step_with_number(
        &mut self,
        handler: &mut PortForwardHandler,
        outcome: Result<i32, Error>,
        random: i32,
    ) -> (r: DestinationStep)
        ensures
            (final(self)@, final(handler)@, r@) == old(self)@.next(
                old(handler)@,
                outcome_view(outcome),
                random,
            ),
            old(handler)@.wf() ==> final(handler)@.wf(),
    {
        broadcast use group_hash_axioms;

        let fd: i32 = match outcome {
            Ok(fd) => fd,
            Err(_) => NO_SOCKET,
        };
        if !self.last && fd < 0 {
            self.last = true;
            return DestinationStep::Connect {
                network: true,
                endpoint: crate::socket::SocketEndpoint::new(
                    "127.0.0.1",
                    truncate16(self.destination.port),
                ),
            };
        }
        if fd == NO_SOCKET {
            return DestinationStep::Finished(
                PortForwardDestinationResponse {
                    client_fd: self.client_fd,
                    socket_id: 0,
                    error: "Connection failed".to_owned(),
                },
            );
        }
        let socket_id: i32 = if random >= 0 {
            random
        } else if random == i32::MIN {
            0
        } else {
            -random
        };
        let network = self.destination.port > 0;
        let destination = ForwardDestinationHandler::new(fd, socket_id, network);
        handler.destination_handlers.insert(socket_id, destination);
        assert(handler@.destinations =~= old(handler)@.destinations.insert(
            socket_id,
            destination@,
        ));
        let error = String::new();
        assert(error@ =~= Seq::<char>::empty());
        DestinationStep::Finished(
            PortForwardDestinationResponse { client_fd: self.client_fd, socket_id, error },
        )
    }

    /// Goes on once a socket was opened, or not
    pub fn step(&mut self, handler: &mut PortForwardHandler, outcome: Result<i32, Error>) -> (r:
        DestinationStep)
        ensures
            exists|random: i32|
                (final(self)@, final(handler)@, r@) == #[trigger] old(self)@.next(
                    old(handler)@,
                    outcome_view(outcome),
                    random,
                ),
            old(handler)@.wf() ==> final(handler)@.wf(),
    {
        let random: i32 = random_number();
        let r = self.step_with_number(handler, outcome, random);
        assert((self@, handler@, r@) == old(self)@.next(
            old(handler)@,
            outcome_view(outcome),
            random,
        ));
        r
    }
}

/// How far an update has come
#[derive(Debug, Clone, Copy, PartialEq, Eq, Structural)]
pub enum UpdateStage {
    /// The connections of a source are being read
    Source { source: usize },
    /// A listening socket of a source is being looked at
    Listening { source: usize, index: usize },
    /// The connections to destinations are being read
    Destinations,
    /// The update is over
    Over,
}

/// What an update needs next
#[derive(Debug, Clone, Copy, PartialEq, Eq, Structural)]
pub enum UpdateStep {
    /// The connections of a source that have data are to be read
    ReadSource { source: usize },
    /// If a connection waits at the socket, it is to be accepted
    Check(SocketRef),
    /// The connections to destinations that have data are to be read
    ReadDestinations,
    /// The update is over
    Finished,
}

/// What came of the latest step of an update
#[derive(Debug)]
pub enum UpdateEvent {
    /// What was read of the connections
    Readings(Vec<Reading>),
    /// What came of looking for a connection
    Listened(ListenOutcome),
}

/// A round in which all handlers are polled for new connections and data
#[derive(Debug)]
pub struct ForwardUpdate {
    stage: UpdateStage,
}

impl View for ForwardUpdate {
    type V = UpdateStage;

    closed spec fn view(&self) -> UpdateStage {
        self.stage
    }
}

/// What a step of an update leads to.
#[verifier::ext_equal]
pub struct UpdateResult {
    /// How far the update has come
    pub stage: UpdateStage,
    /// The state of the handler
    pub handler: ForwardView,
    /// What is needed next
    pub step: UpdateStep,
    /// Requests for the other end
    pub requests: Seq<DestinationRequestView>,
    /// Data for the other end
    pub data: Seq<ForwardDataView>,
    /// Sockets to be closed
    pub close: Seq<SocketRef>,
}

/// The sockets of a source, in order.
pub open spec fn socket_refs(network: bool, fds: Seq<i32>) -> Seq<SocketRef> {
    Seq::new(fds.len(), |i: int| SocketRef { network, fd: fds[i] })
}

/// The destinations after some readings, the messages for the other end, and the sockets to be
/// closed.
pub open spec fn destinations_read(
    destinations: Map<i32, DestinationView>,
    readings: Seq<ReadingView>,
) -> (Map<i32, DestinationView>, Seq<ForwardDataView>, Seq<SocketRef>)
    decreases readings.len(),
{
    if readings.len() == 0 {
        (destinations, Seq::empty(), Seq::empty())
    } else {
        let (map, data, close) = destinations_read(destinations, readings.drop_last());
        let reading = readings.last();
        if map.contains_key(reading.socket_id) {
            let (destination, messages, fd) = map[reading.socket_id].updated(reading.outcome);
            (
                map.insert(reading.socket_id, destination),
                data + messages,
                match fd {
                    Some(fd) => close.push(SocketRef { network: destination.network, fd }),
                    None => close,
                },
            )
        } else {
            (map, data, close)
        }
    }
}

/// The destinations that still have a socket.
pub open spec fn live(destinations: Map<i32, DestinationView>) -> Map<i32, DestinationView> {
    Map::new(
        |id: i32| destinations.contains_key(id) && destinations[id].fd != NO_SOCKET,
        |id: i32| destinations[id],
    )
}

/// An update at a source, or at the destinations once every source has had its turn.
pub open spec fn at_source(handler: ForwardView, source: int) -> UpdateResult {
    if source < handler.sources.len() {
        UpdateResult {
            stage: UpdateStage::Source { source: source as usize },
            handler,
            step: UpdateStep::ReadSource { source: source as usize },
            requests: Seq::empty(),
            data: Seq::empty(),
            close: Seq::empty(),
        }
    } else {
        UpdateResult {
            stage: UpdateStage::Destinations,
            handler,
            step: UpdateStep::ReadDestinations,
            requests: Seq::empty(),
            data: Seq::empty(),
            close: Seq::empty(),
        }
    }
}

/// An update that looks for a connection of a source. A connection that was accepted is
/// requested from the other end, and then comes the next source.
pub open spec fn at_listening(handler: ForwardView, source: int, step: ListenStep) -> UpdateResult {
    match step {
        ListenStep::Check { index, fd } => UpdateResult {
            stage: UpdateStage::Listening { source: source as usize, index },
            handler,
            step: UpdateStep::Check(
                SocketRef { network: on_network(handler.sources[source]), fd },
            ),
            requests: Seq::empty(),
            data: Seq::empty(),
            close: Seq::empty(),
        },
        ListenStep::Finished(found) => UpdateResult {
            requests: match found {
                Some(fd) => seq![
                    DestinationRequestView {
                        destination: Some(handler.sources[source].destination),
                        fd,
                    },
                ],
                None => Seq::empty(),
            },
            ..at_source(handler, source + 1)
        },
    }
}

/// Whether an update at some stage waits for an event.
pub open spec fn update_awaits(
    stage: UpdateStage,
    handler: ForwardView,
    event: UpdateEvent,
) -> bool {
    match stage {
        UpdateStage::Source { source } => source < handler.sources.len() && event is Readings,
        UpdateStage::Listening { source, index } => source < handler.sources.len() && index
            < handler.sources[source as int].listen_fds.len() && event is Listened,
        UpdateStage::Destinations => event is Readings,
        UpdateStage::Over => false,
    }
}

/// What a step of an update leads to.
pub open spec fn update_next(
    stage: UpdateStage,
    handler: ForwardView,
    event: UpdateEvent,
) -> UpdateResult {
    match stage {
        UpdateStage::Source { source } => {
            let readings = views(event->Readings_0@);
            let (updated, fds) = handler.sources[source as int].updated(readings);
            UpdateResult {
                data: reading_messages(readings, true),
                close: socket_refs(on_network(updated), fds),
                ..at_listening(
                    handler.with_source(source as int, updated),
                    source as int,
                    updated.listen_step(0),
                )
            }
        },
        UpdateStage::Listening { source, index } => {
            let (listened, step) = handler.sources[source as int].listened(
                index as int,
                event->Listened_0,
            );
            at_listening(handler.with_source(source as int, listened), source as int, step)
        },
        UpdateStage::Destinations => {
            let readings = views(event->Readings_0@);
            let (destinations, data, close) = destinations_read(handler.destinations, readings);
            UpdateResult {
                stage: UpdateStage::Over,
                handler: ForwardView { destinations: live(destinations), ..handler },
                step: UpdateStep::Finished,
                requests: Seq::empty(),
                data,
                close,
            }
        },
        UpdateStage::Over => UpdateResult {
            stage: UpdateStage::Over,
            handler,
            step: UpdateStep::Finished,
            requests: Seq::empty(),
            data: Seq::empty(),
            close: Seq::empty(),
        },
    }
}

impl PortForwardHandler {
    /// Starts to poll all handlers for new connections and data
    pub fn update(&self) -> (r: (ForwardUpdate, UpdateStep))
        requires
            self@.wf(),
        ensures
            r.0@ == at_source(self@, 0).stage,
            r.1 == at_source(self@, 0).step,
    {
        let mut update = ForwardUpdate { stage: UpdateStage::Destinations };
        let step = update.turn_to(self, 0);
        (update, step)
    }

    /// The ID and the socket of every connection of a source
    pub fn source_sockets(&self, source: usize) -> (r: Vec<(i32, i32)>)
        requires
            source < self@.sources.len(),
        ensures
            r@.no_duplicates(),
            r@.to_set() == self@.sources[source as int].sockets.kv_pairs(),
    {
        self.source_handlers[source].sockets()
    }

    /// Whether a source uses the network rather than a pipe
    pub fn source_on_network(&self, source: usize) -> (r: bool)
        requires
            source < self@.sources.len(),
        ensures
            r == on_network(self@.sources[source as int]),
    {
        self.source_handlers[source].is_on_network()
    }

    /// The IDs of the destinations
    pub fn destination_ids(&self) -> (r: Vec<i32>)
        ensures
            r@.no_duplicates(),
            r@.to_set() == self@.destinations.dom(),
    {
        broadcast use group_hash_axioms;

        let mut ids: Vec<i32> = Vec::new();
        for id in it: self.destination_handlers.keys()
            invariant
                ids@ == it.seq().unref().take(it.index()),
                it.seq().unref().to_set() == self.destination_handlers@.dom(),
                it.seq().unref().no_duplicates(),
                it.seq().unref().len() == it.seq().len(),
                it.seq().unref().take(it.seq().len() as int) == it.seq().unref(),
        {
            ids.push(*id);
        }
        assert(self@.destinations.dom() =~= self.destination_handlers@.dom());
        ids
    }

    /// The socket of a destination that can be read, if it has one
    pub fn destination_socket(&self, socket_id: i32) -> (r: Option<SocketRef>)
        ensures
            r == if self@.destinations.contains_key(socket_id)
                && self@.destinations[socket_id].fd >= 0 {
                Some(
                    SocketRef {
                        network: self@.destinations[socket_id].network,
                        fd: self@.destinations[socket_id].fd,
                    },
                )
            } else {
                None
            },
    {
        broadcast use group_hash_axioms;

        match self.destination_handlers.get(&socket_id) {
            Some(handler) => match handler.write() {
                Some(fd) => Some(SocketRef { network: handler.network, fd }),
                None => None,
            },
            None => None,
        }
    }

    fn read_destinations(
        &mut self,
        readings: Vec<Reading>,
        data_to_send: &mut Vec<PortForwardData>,
    ) -> (r: Vec<SocketRef>)
        ensures
            ({
                let (destinations, data, close) = destinations_read(
                    old(self)@.destinations,
                    views(readings@),
                );
                &&& final(self)@ == ForwardView { destinations, ..old(self)@ }
                &&& views(final(data_to_send)@) == views(old(data_to_send)@) + data
                &&& r@ == close
            }),
    {
        broadcast use group_hash_axioms;

        let mut close: Vec<SocketRef> = Vec::new();
        let ghost all = views(readings@);
        let ghost start = self@;
        let ghost sent_before = views(data_to_send@);
        assert(all.take(0) =~= Seq::<ReadingView>::empty());
        assert(sent_before =~= sent_before + Seq::<ForwardDataView>::empty());
        for reading in it: readings
            invariant
                it.seq() == readings@,
                all == views(readings@),
                self@.sources == start.sources,
                self@.owners == start.owners,
                self@.destinations == destinations_read(
                    start.destinations,
                    all.take(it.index() as int),
                ).0,
                views(data_to_send@) == sent_before + destinations_read(
                    start.destinations,
                    all.take(it.index() as int),
                ).1,
                close@ == destinations_read(start.destinations, all.take(it.index() as int)).2,
        {
            let ghost view = reading@;
            let ghost before = self@.destinations;
            assert(all.take(it.index() + 1).drop_last() =~= all.take(it.index() as int));
            assert(all.take(it.index() + 1).last() == view);
            match self.destination_handlers.remove(&reading.socket_id) {
                Some(handler) => {
                    let mut handler = handler;
                    let ghost sent = views(data_to_send@);
                    let fd = handler.update(reading.outcome, data_to_send);
                    let network = handler.network;
                    self.destination_handlers.insert(reading.socket_id, handler);
                    assert(self@.destinations =~= before.insert(reading.socket_id, handler@));
                    match fd {
                        Some(fd) => close.push(SocketRef { network, fd }),
                        None => (),
                    }
                    assert(views(data_to_send@) =~= sent_before + destinations_read(
                        start.destinations,
                        all.take(it.index() + 1),
                    ).1);
                },
                None => {
                    assert(self@.destinations =~= before);
                },
            }
        }
        assert(all.take(readings@.len() as int) =~= all);
        close
    }

    fn remove_dead(&mut self)
        ensures
            final(self)@ == (ForwardView {
                destinations: live(old(self)@.destinations),
                ..old(self)@
            }),
    {
        broadcast use group_hash_axioms;

        let ids = self.destination_ids();
        let ghost all = self@.destinations;
        let mut i: usize = 0;
        while i < ids.len()
            invariant
                i <= ids.len(),
                ids@.no_duplicates(),
                ids@.to_set() == all.dom(),
                self@.sources == old(self)@.sources,
                self@.owners == old(self)@.owners,
                forall|id: i32| #[trigger]
                    self@.destinations.contains_key(id) ==> all.contains_key(id)
                        && self@.destinations[id] == all[id],
                forall|id: i32| #[trigger]
                    all.contains_key(id) ==> (self@.destinations.contains_key(id) <==> !(all[id].fd
                        == NO_SOCKET && ids@.take(i as int).contains(id))),
            decreases ids.len() - i,
        {
            let id = ids[i];
            assert(ids@.to_set().contains(id));
            assert(all.contains_key(id));
            assert(!ids@.take(i as int).contains(id)) by {
                if ids@.take(i as int).contains(id) {
                    let k = choose|k: int| 0 <= k < i && ids@.take(i as int)[k] == id;
                    assert(ids@[k] == ids@[i as int]);
                }
            }
            let ghost before = self@.destinations;
            let dead = match self.destination_handlers.get(&id) {
                Some(handler) => handler.fd() == NO_SOCKET,
                None => false,
            };
            if dead {
                self.destination_handlers.remove(&id);
                assert(self@.destinations =~= before.remove(id));
            }
            assert forall|other: i32| #[trigger] all.contains_key(other) implies (
            self@.destinations.contains_key(other) <==> !(all[other].fd == NO_SOCKET && ids@.take(
                i + 1,
            ).contains(other))) by {
                assert(ids@.take(i + 1) =~= ids@.take(i as int).push(id));
                if ids@.take(i as int).contains(other) {
                    let k = choose|k: int| 0 <= k < i && ids@.take(i as int)[k] == other;
                    assert(ids@.take(i + 1)[k] == other);
                }
                assert(ids@.take(i + 1)[i as int] == id);
            }
            i = i + 1;
        }
        assert(ids@.take(i as int) =~= ids@);
        assert forall|id: i32| #[trigger] all.contains_key(id) implies ids@.contains(id) by {
            assert(ids@.to_set().contains(id));
        }
        assert(self@.destinations =~= live(all));
    }
}

impl ForwardUpdate {
    fn turn_to(&mut self, handler: &PortForwardHandler, source: usize) -> (r: UpdateStep)
        ensures
            final(self)@ == at_source(handler@, source as int).stage,
            r == at_source(handler@, source as int).step,
    {
        if source < handler.source_handlers.len() {
            self.stage = UpdateStage::Source { source };
            UpdateStep::ReadSource { source }
        } else {
            self.stage = UpdateStage::Destinations;
            UpdateStep::ReadDestinations
        }
    }

    fn settle_listening(
        &mut self,
        handler: &PortForwardHandler,
        source: usize,
        step: ListenStep,
        requests: &mut Vec<PortForwardDestinationRequest>,
    ) -> (r: UpdateStep)
        requires
            source < handler@.sources.len(),
        ensures
            ({
                let expected = at_listening(handler@, source as int, step);
                &&& final(self)@ == expected.stage
                &&& r == expected.step
                &&& views(final(requests)@) == views(old(requests)@) + expected.requests
            }),
    {
        assert(views(requests@) =~= views(requests@) + Seq::<DestinationRequestView>::empty());
        match step {
            ListenStep::Check { index, fd } => {
                self.stage = UpdateStage::Listening { source, index };
                let network = handler.source_handlers[source].is_on_network();
                UpdateStep::Check(SocketRef { network, fd })
            },
            ListenStep::Finished(found) => {
                match found {
                    Some(fd) => {
                        let request = PortForwardDestinationRequest {
                            destination: Some(
                                handler.source_handlers[source].destination().clone(),
                            ),
                            fd,
                        };
                        requests.push(request);
                        assert(views(requests@) =~= views(old(requests)@) + seq![request@]);
                    },
                    None => (),
                }
                assert(source < handler.source_handlers.len());
                self.turn_to(handler, source + 1)
            },
        }
    }

    /// Goes on with an update, adds what is to be told the other end, and returns what is
    /// needed next and the sockets to be closed
    pub fn step(
        &mut self,
        handler: &mut PortForwardHandler,
        event: UpdateEvent,
        requests: &mut Vec<PortForwardDestinationRequest>,
        data_to_send: &mut Vec<PortForwardData>,
    ) -> (r: (UpdateStep, Vec<SocketRef>))
        requires
            old(handler)@.wf(),
            update_awaits(old(self)@, old(handler)@, event),
        ensures
            ({
                let expected = update_next(old(self)@, old(handler)@, event);
                &&& final(self)@ == expected.stage
                &&& final(handler)@ == expected.handler
                &&& r.0 == expected.step
                &&& views(final(requests)@) == views(old(requests)@) + expected.requests
                &&& views(final(data_to_send)@) == views(old(data_to_send)@) + expected.data
                &&& r.1@ == expected.close
            }),
            final(handler)@.wf(),
    {
        assert(views(requests@) =~= views(requests@) + Seq::<DestinationRequestView>::empty());
        assert(views(data_to_send@) =~= views(data_to_send@) + Seq::<ForwardDataView>::empty());
        let mut close: Vec<SocketRef> = Vec::new();
        match (self.stage, event) {
            (UpdateStage::Source { source }, UpdateEvent::Readings(readings)) => {
                let fds = handler.source_handlers[source].update(readings, data_to_send);
                let network = handler.source_handlers[source].is_on_network();
                let ghost (updated, expected_fds) = old(handler)@.sources[source as int].updated(
                    views(readings@),
                );
                let mut i: usize = 0;
                while i < fds.len()
                    invariant
                        i <= fds.len(),
                        close@ == socket_refs(network, fds@.take(i as int)),
                    decreases fds.len() - i,
                {
                    close.push(SocketRef { network, fd: fds[i] });
                    i = i + 1;
                }
                assert(fds@.take(i as int) =~= fds@);
                assert(handler@.sources =~= old(handler)@.sources.update(source as int, updated));
                let first = handler.source_handlers[source].listen();
                let step = self.settle_listening(handler, source, first, requests);
                (step, close)
            },
            (UpdateStage::Listening { source, index }, UpdateEvent::Listened(outcome)) => {
                let next = handler.source_handlers[source].listened(index, outcome);
                assert(handler@.sources =~= old(handler)@.sources.update(
                    source as int,
                    old(handler)@.sources[source as int].listened(index as int, outcome).0,
                ));
                let step = self.settle_listening(handler, source, next, requests);
                (step, close)
            },
            (UpdateStage::Destinations, UpdateEvent::Readings(readings)) => {
                let close = handler.read_destinations(readings, data_to_send);
                handler.remove_dead();
                self.stage = UpdateStage::Over;
                (UpdateStep::Finished, close)
            },
            _ => (UpdateStep::Finished, close),
        }
    }
}

proof fn lemma_holder(sources: Seq<SourceView>, fd: i32, from: int, index: int)
    requires
        0 <= from <= index < sources.len(),
        sources[index].unassigned.contains(fd),
    ensures
        from <= holder(sources, fd, from) <= index,
        sources[holder(sources, fd, from)].unassigned.contains(fd),
    decreases index - from,
{
    if !sources[from].unassigned.contains(fd) {
        lemma_holder(sources, fd, from + 1, index);
    }
}

/// A connection that waits for its ID gets the one that the other end gives it: from then on,
/// data for that ID is written to its socket.
pub proof fn law_answered_connection_receives_data(
    handler: ForwardView,
    index: int,
    response: DestinationResponseView,
    data: ForwardDataView,
)
    requires
        handler.wf(),
        0 <= index < handler.sources.len(),
        handler.sources[index].unassigned.contains(response.client_fd),
        response.error.len() == 0,
        !data.source_to_destination,
        !data.ends(),
        data.socket_id == response.socket_id,
    ensures
        ({
            let (after, _) = handler.handled(ForwardPacketView::DestinationResponse(response));
            let (last, action) = after.handled(ForwardPacketView::Data(data));
            &&& last == after
            &&& action matches ForwardActionView::Write { socket, data: written } && socket.fd
                == response.client_fd && written == data.buffer
        }),
{
    lemma_holder(handler.sources, response.client_fd, 0, index);
}

/// Once a message has ended a forwarded connection, what comes later for its ID in the same
/// direction goes nowhere.
pub proof fn law_ended_connection_receives_nothing(
    handler: ForwardView,
    end: ForwardDataView,
    data: ForwardDataView,
)
    requires
        handler.wf(),
        end.ends(),
        data.socket_id == end.socket_id,
        data.source_to_destination == end.source_to_destination,
    ensures
        ({
            let (after, _) = handler.handled(ForwardPacketView::Data(end));
            after.handled(ForwardPacketView::Data(data)).1 is Nothing
        }),
{
}

/// A connection to a destination goes where the request says, and what the peer sends for it is
/// then written to its socket: the request names the host and the port, the response gives the
/// descriptor of the request and an ID, which is not negative, and data for that ID goes to the
/// socket that was opened. Where none could be opened, the response says so and nothing changes.
pub proof fn law_destination_is_the_one_requested(
    handler: ForwardView,
    request: DestinationRequestView,
    fd: i32,
    random: i32,
    error: ErrorView,
    data: ForwardDataView,
)
    requires
        handler.wf(),
        request.destination matches Some(d) && d.name.len() > 0 && 0 < d.port <= u16::MAX,
        fd >= 0,
        data.source_to_destination,
        !data.ends(),
        data.socket_id == without_sign(random),
    ensures
        ({
            let destination = request.destination->0;
            let (attempt, step) = attempt_begun(request);
            let (_, after, end) = attempt.next(handler, Ok(fd), random);
            let (_, unchanged, failed) = attempt.next(handler, Err(error), random);
            &&& step == (DestinationStepView::Connect {
                network: true,
                endpoint: EndpointView {
                    name: Some(destination.name),
                    port: destination.port as u16,
                },
            })
            &&& end matches DestinationStepView::Finished(response) && {
                &&& response.client_fd == request.fd
                &&& response.error.len() == 0
                &&& response.socket_id == data.socket_id
                &&& response.socket_id >= 0
            }
            &&& after.handled(ForwardPacketView::Data(data)).1 == (ForwardActionView::Write {
                socket: SocketRef { network: true, fd },
                data: data.buffer,
            })
            &&& unchanged == handler
            &&& failed matches DestinationStepView::Finished(response) && response.error
                == "Connection failed"@
        }),
{
}

/// A refused connection is closed and forgotten.
pub proof fn law_refused_connection_is_closed(
    handler: ForwardView,
    index: int,
    response: DestinationResponseView,
)
    requires
        handler.wf(),
        0 <= index < handler.sources.len(),
        handler.sources[index].unassigned.contains(response.client_fd),
        response.error.len() > 0,
    ensures
        ({
            let (after, action) = handler.handled(ForwardPacketView::DestinationResponse(response));
            &&& action matches ForwardActionView::Close(socket) && socket.fd == response.client_fd
            &&& after.owners == handler.owners
            &&& exists|holder: int|
                #![trigger after.sources[holder]]
                0 <= holder < handler.sources.len() && after.sources[holder].unassigned
                    == handler.sources[holder].unassigned.remove_value(response.client_fd)
        }),
{
    lemma_holder(handler.sources, response.client_fd, 0, index);
    let found = holder(handler.sources, response.client_fd, 0);
    let (after, _) = handler.handled(ForwardPacketView::DestinationResponse(response));
    assert(after.sources[found].unassigned == handler.sources[found].unassigned.remove_value(
        response.client_fd,
    ));
}

/// What is read of a forwarded connection at one end is what the other end is told to write.
pub proof fn law_forwarded_bytes_are_the_bytes_read(
    handler: ForwardView,
    readings: Seq<ReadingView>,
    index: int,
)
    requires
        handler.wf(),
        0 <= index < readings.len(),
        readings[index].outcome is Ok,
        readings[index].outcome->Ok_0.len() > 0,
        handler.destinations.contains_key(readings[index].socket_id),
        handler.destinations[readings[index].socket_id].fd >= 0,
    ensures
        reading_messages(readings, true).contains(readings[index].message(true)),
        handler.handled(ForwardPacketView::Data(readings[index].message(true))).1 == (
        ForwardActionView::Write {
            socket: SocketRef {
                network: handler.destinations[readings[index].socket_id].network,
                fd: handler.destinations[readings[index].socket_id].fd,
            },
            data: readings[index].outcome->Ok_0,
        }),
{
    lemma_reading_is_told(readings, index, true);
}

proof fn lemma_reading_is_told(
    readings: Seq<ReadingView>,
    index: int,
    source_to_destination: bool,
)
    requires
        0 <= index < readings.len(),
        readings[index].outcome is Ok,
    ensures
        reading_messages(readings, source_to_destination).contains(
            readings[index].message(source_to_destination),
        ),
    decreases readings.len(),
{
    let messages = reading_messages(readings, source_to_destination);
    let before = reading_messages(readings.drop_last(), source_to_destination);
    if index == readings.len() - 1 {
        assert(messages.last() == readings[index].message(source_to_destination));
    } else {
        lemma_reading_is_told(readings.drop_last(), index, source_to_destination);
        let k = choose|k: int|
            0 <= k < before.len() && before[k] == readings[index].message(source_to_destination);
        assert(messages[k] == before[k]);
    }
}

/// The steps of a round, each with what it led to, from `from` on: the events are handed to the
/// round one after the other.
pub open spec fn update_run(from: UpdateResult, events: Seq<UpdateEvent>) -> Seq<UpdateResult>
    decreases events.len(),
{
    if events.len() == 0 {
        seq![from]
    } else {
        let before = update_run(from, events.drop_last());
        before.push(update_next(before.last().stage, before.last().handler, events.last()))
    }
}

/// Whether every event of a round is one that the round waits for.
pub open spec fn update_run_awaits(from: UpdateResult, events: Seq<UpdateEvent>) -> bool {
    forall|i: int|
        0 <= i < events.len() ==> update_awaits(
            update_run(from, events)[i].stage,
            update_run(from, events)[i].handler,
            #[trigger] events[i],
        )
}

/// The sources that are read in the course of some steps, in order.
pub open spec fn sources_read(steps: Seq<UpdateResult>) -> Seq<int>
    decreases steps.len(),
{
    if steps.len() == 0 {
        Seq::empty()
    } else {
        match steps.last().step {
            UpdateStep::ReadSource { source } => sources_read(steps.drop_last()).push(
                source as int,
            ),
            _ => sources_read(steps.drop_last()),
        }
    }
}

/// A round starts at the first source, or at the destinations where there is none.
pub proof fn law_round_starts_at_the_first_source(handler: ForwardView)
    requires
        handler.wf(),
    ensures
        ({
            let start = at_source(handler, 0);
            &&& start.handler == handler
            &&& start.requests.len() == 0 && start.data.len() == 0 && start.close.len() == 0
            &&& handler.sources.len() > 0 ==> start.step == (UpdateStep::ReadSource { source: 0 })
                && start.stage == (UpdateStage::Source { source: 0 })
            &&& handler.sources.len() == 0 ==> start.step is ReadDestinations && start.stage
                == UpdateStage::Destinations
        }),
{
}

/// Once the connections of a source are read, its first listening socket is looked at; a source
/// without one is followed by the next source, and the last source by the destinations. Nothing
/// is requested, and nothing but the connections of that source that ended is forgotten.
pub proof fn law_read_source_is_listened_at(
    handler: ForwardView,
    source: usize,
    readings: Vec<Reading>,
)
    requires
        handler.wf(),
        source < handler.sources.len(),
    ensures
        ({
            let before = handler.sources[source as int];
            let r = update_next(
                UpdateStage::Source { source },
                handler,
                UpdateEvent::Readings(readings),
            );
            let after = r.handler.sources[source as int];
            let (sockets, fds) = without_ended(before.sockets, views(readings@));
            &&& before.listen_fds.len() > 0 ==> {
                &&& r.step == UpdateStep::Check(
                    SocketRef { network: before.source.port > 0, fd: before.listen_fds[0] },
                )
                &&& r.stage == (UpdateStage::Listening { source, index: 0 })
            }
            &&& before.listen_fds.len() == 0 && source + 1 < handler.sources.len() ==> {
                &&& r.step == (UpdateStep::ReadSource { source: (source + 1) as usize })
                &&& r.stage == (UpdateStage::Source { source: (source + 1) as usize })
            }
            &&& before.listen_fds.len() == 0 && source + 1 == handler.sources.len() ==> {
                &&& r.step is ReadDestinations
                &&& r.stage == UpdateStage::Destinations
            }
            &&& r.requests.len() == 0
            &&& r.data == reading_messages(views(readings@), true)
            &&& r.close.len() == fds.len()
            &&& forall|i: int|
                0 <= i < fds.len() ==> #[trigger] r.close[i] == (SocketRef {
                    network: before.source.port > 0,
                    fd: fds[i],
                })
            &&& after.sockets == sockets
            &&& after.source == before.source && after.destination == before.destination
            &&& after.listen_fds == before.listen_fds && after.unassigned == before.unassigned
            &&& r.handler.sources.len() == handler.sources.len()
            &&& forall|i: int|
                0 <= i < handler.sources.len() && i != source ==> #[trigger] r.handler.sources[i]
                    == handler.sources[i]
            &&& r.handler.destinations == handler.destinations && r.handler.owners
                == handler.owners
        }),
{
}

/// A listening socket at which nothing is accepted is followed by the next one of its source,
/// and the last one by the next source, or the destinations. The first connection that is accepted
/// is kept until it has an ID, exactly one request goes out for it, which names it and the
/// destination of its source, and the next source follows at once.
pub proof fn law_accepted_connection_is_requested(
    handler: ForwardView,
    source: usize,
    index: usize,
    outcome: ListenOutcome,
)
    requires
        handler.wf(),
        source < handler.sources.len(),
        index < handler.sources[source as int].listen_fds.len(),
        handler.sources[source as int].listen_fds.len() <= usize::MAX,
    ensures
        ({
            let before = handler.sources[source as int];
            let r = update_next(
                UpdateStage::Listening { source, index },
                handler,
                UpdateEvent::Listened(outcome),
            );
            let after = r.handler.sources[source as int];
            let accepted = outcome matches ListenOutcome::Accepted(Ok(_));
            let more = !accepted && index + 1 < before.listen_fds.len();
            &&& more ==> {
                &&& r.step == UpdateStep::Check(
                    SocketRef { network: before.source.port > 0, fd: before.listen_fds[index + 1] },
                )
                &&& r.stage == (UpdateStage::Listening { source, index: (index + 1) as usize })
            }
            &&& !more && source + 1 < handler.sources.len() ==> {
                &&& r.step == (UpdateStep::ReadSource { source: (source + 1) as usize })
                &&& r.stage == (UpdateStage::Source { source: (source + 1) as usize })
            }
            &&& !more && source + 1 == handler.sources.len() ==> {
                &&& r.step is ReadDestinations
                &&& r.stage == UpdateStage::Destinations
            }
            &&& match outcome {
                ListenOutcome::Accepted(Ok(fd)) => {
                    &&& r.requests.len() == 1
                    &&& r.requests[0].destination == Some(before.destination)
                    &&& r.requests[0].fd == fd
                    &&& after.unassigned == before.unassigned.push(fd)
                },
                _ => r.requests.len() == 0 && after.unassigned == before.unassigned,
            }
            &&& r.data.len() == 0 && r.close.len() == 0
            &&& after.source == before.source && after.destination == before.destination
            &&& after.listen_fds == before.listen_fds && after.sockets == before.sockets
            &&& r.handler.sources.len() == handler.sources.len()
            &&& forall|i: int|
                0 <= i < handler.sources.len() && i != source ==> #[trigger] r.handler.sources[i]
                    == handler.sources[i]
            &&& r.handler.destinations == handler.destinations && r.handler.owners
                == handler.owners
        }),
{
}

/// Once the destinations are read, the round is over, and the destinations that have no socket
/// any more are forgotten. The sources stay as they are.
pub proof fn law_round_ends_with_the_destinations(handler: ForwardView, readings: Vec<Reading>)
    ensures
        ({
            let r = update_next(
                UpdateStage::Destinations,
                handler,
                UpdateEvent::Readings(readings),
            );
            let (read, data, close) = destinations_read(handler.destinations, views(readings@));
            &&& r.step is Finished && r.stage == UpdateStage::Over
            &&& r.requests.len() == 0
            &&& r.data == data && r.close == close
            &&& r.handler.sources == handler.sources && r.handler.owners == handler.owners
            &&& forall|id: i32| #[trigger]
                r.handler.destinations.contains_key(id) <==> read.contains_key(id) && read[id].fd
                    != -1
            &&& forall|id: i32| #[trigger]
                r.handler.destinations.contains_key(id) ==> r.handler.destinations[id] == read[id]
            &&& forall|event: UpdateEvent| !#[trigger] update_awaits(r.stage, r.handler, event)
        }),
{
}

/// Every awaited course of a round goes through the sources one by one from the first on, with
/// nothing read twice and none passed over, and comes to the destinations only after the last: so
/// far as a round has come, the sources read are the first ones, all of them once it is at the
/// destinations, and it ends right after those.
pub proof fn law_round_visits_every_source(handler: ForwardView, events: Seq<UpdateEvent>)
    requires
        handler.wf(),
        forall|i: int|
            0 <= i < handler.sources.len() ==> (#[trigger] handler.sources[i]).listen_fds.len()
                <= usize::MAX,
        update_run_awaits(at_source(handler, 0), events),
    ensures
        ({
            let run = update_run(at_source(handler, 0), events);
            let read = sources_read(run);
            let n = handler.sources.len();
            &&& run.len() == events.len() + 1
            &&& run[0] == at_source(handler, 0)
            &&& read.len() <= n
            &&& forall|i: int| 0 <= i < read.len() ==> #[trigger] read[i] == i
            &&& run.last().step is ReadDestinations || run.last().step is Finished ==> read.len()
                == n
            &&& run.last().step is ReadSource ==> run.last().step->source == read.len() - 1
            &&& run.last().step is Finished ==> run.len() >= 2 && run[run.len()
                - 2].step is ReadDestinations
            &&& run.last().handler.wf() && run.last().handler.sources.len() == n
            &&& run.last().stage == match run.last().step {
                UpdateStep::ReadSource { source } => UpdateStage::Source { source },
                UpdateStep::Check(_) => run.last().stage,
                UpdateStep::ReadDestinations => UpdateStage::Destinations,
                UpdateStep::Finished => UpdateStage::Over,
            }
            &&& run.last().step is Check ==> {
                &&& run.last().stage matches UpdateStage::Listening { source, index }
                &&& source == read.len() - 1
                &&& index < run.last().handler.sources[source as int].listen_fds.len()
                &&& run.last().step->Check_0.fd
                    == run.last().handler.sources[source as int].listen_fds[index as int]
            }
            &&& forall|i: int|
                0 <= i < n ==> {
                    let now = #[trigger] run.last().handler.sources[i];
                    let then = handler.sources[i];
                    now.destination == then.destination && now.source == then.source
                        && now.listen_fds == then.listen_fds
                }
        }),
    decreases events.len(),
{
    let start = at_source(handler, 0);
    let run = update_run(start, events);
    if events.len() == 0 {
        assert(run =~= seq![start]);
        assert(run.drop_last() =~= Seq::<UpdateResult>::empty());
        assert(sources_read(run.drop_last()) =~= Seq::<int>::empty());
    } else {
        let shorter = events.drop_last();
        let before = update_run(start, shorter);
        assert(run.drop_last() =~= before);
        assert forall|i: int| 0 <= i < shorter.len() implies update_awaits(
            update_run(start, shorter)[i].stage,
            update_run(start, shorter)[i].handler,
            #[trigger] shorter[i],
        ) by {
            assert(shorter[i] == events[i]);
            lemma_update_run_len(start, shorter);
            assert(before[i] == run[i]);
        }
        law_round_visits_every_source(handler, shorter);
        let at = before.last();
        let event = events.last();
        assert(before.last() == run[events.len() - 1]);
        assert(update_awaits(at.stage, at.handler, events[events.len() - 1]));
        assert(run[0] == before[0]);
        match at.stage {
            UpdateStage::Source { source } => {
                law_read_source_is_listened_at(at.handler, source, event->Readings_0);
            },
            UpdateStage::Listening { source, index } => {
                assert(at.step is Check);
                assert(at.handler.sources[source as int].listen_fds
                    == handler.sources[source as int].listen_fds);
                law_accepted_connection_is_requested(
                    at.handler,
                    source,
                    index,
                    event->Listened_0,
                );
            },
            UpdateStage::Destinations => {
                law_round_ends_with_the_destinations(at.handler, event->Readings_0);
                assert(run[run.len() - 2] == before.last());
            },
            UpdateStage::Over => {},
        }
        let next = run.last();
        assert forall|i: int| 0 <= i < handler.sources.len() implies {
            let now = #[trigger] next.handler.sources[i];
            let then = handler.sources[i];
            now.destination == then.destination && now.source == then.source && now.listen_fds
                == then.listen_fds
        } by {
            assert(at.handler.sources[i].destination == handler.sources[i].destination);
        }
    }
}

proof fn lemma_update_run_len(from: UpdateResult, events: Seq<UpdateEvent>)
    ensures
        update_run(from, events).len() == events.len() + 1,
    decreases events.len(),
{
    if events.len() > 0 {
        lemma_update_run_len(from, events.drop_last());
    }
}

/// What the other end is told of some readings is what it is told of them one by one, in order:
/// of data the data, of an end the end, and of a failure nothing.
pub proof fn law_each_reading_is_told(
    first: Seq<ReadingView>,
    second: Seq<ReadingView>,
    reading: ReadingView,
    source_to_destination: bool,
)
    ensures
        reading_messages(first + second, source_to_destination) == reading_messages(
            first,
            source_to_destination,
        ) + reading_messages(second, source_to_destination),
        ({
            let told = reading_messages(seq![reading], source_to_destination);
            match reading.outcome {
                Ok(data) => {
                    &&& told.len() == 1
                    &&& told[0].source_to_destination == source_to_destination
                    &&& told[0].socket_id == reading.socket_id
                    &&& told[0].buffer == data
                    &&& told[0].error.len() == 0
                    &&& told[0].closed <==> data.len() == 0
                },
                Err(_) => told.len() == 0,
            }
        }),
        reading_messages(Seq::empty(), source_to_destination).len() == 0,
    decreases second.len(),
{
    let one = seq![reading];
    assert(one.drop_last() =~= Seq::<ReadingView>::empty());
    assert(reading_messages(one.drop_last(), source_to_destination) =~= Seq::empty());
    if second.len() == 0 {
        assert(first + second =~= first);
        assert(reading_messages(second, source_to_destination) =~= Seq::empty());
    } else {
        law_each_reading_is_told(first, second.drop_last(), reading, source_to_destination);
        assert((first + second).drop_last() =~= first + second.drop_last());
    }
}

/// The connections of a source that end are forgotten one by one as their readings come: of each
/// reading that says so, and of no other, the socket of its connection is closed, once.
pub proof fn law_ended_connections_are_forgotten(
    sockets: Map<i32, i32>,
    first: Seq<ReadingView>,
    second: Seq<ReadingView>,
    reading: ReadingView,
)
    ensures
        ({
            let (rest, fds) = without_ended(sockets, first);
            let (last, more) = without_ended(rest, second);
            without_ended(sockets, first + second) == (last, fds + more)
        }),
        ({
            let (rest, fds) = without_ended(sockets, seq![reading]);
            let gone = sockets.contains_key(reading.socket_id) && match reading.outcome {
                Ok(data) => data.len() == 0,
                Err(_) => false,
            };
            &&& gone ==> fds.len() == 1 && fds[0] == sockets[reading.socket_id]
                && !rest.contains_key(reading.socket_id)
            &&& !gone ==> fds.len() == 0 && rest == sockets
            &&& forall|id: i32|
                id != reading.socket_id ==> (#[trigger] rest.contains_key(id)
                    <==> sockets.contains_key(id))
            &&& forall|id: i32| #[trigger]
                rest.contains_key(id) ==> rest[id] == sockets[id]
        }),
        without_ended(sockets, Seq::empty()) == (sockets, Seq::<i32>::empty()),
    decreases second.len(),
{
    let one = seq![reading];
    assert(one.drop_last() =~= Seq::<ReadingView>::empty());
    assert(without_ended(sockets, one.drop_last()) == (sockets, Seq::<i32>::empty()));
    if second.len() == 0 {
        assert(first + second =~= first);
        let (rest, fds) = without_ended(sockets, first);
        assert(without_ended(rest, second).1 =~= Seq::<i32>::empty());
        assert(fds + Seq::<i32>::empty() =~= fds);
    } else {
        law_ended_connections_are_forgotten(sockets, first, second.drop_last(), reading);
        assert((first + second).drop_last() =~= first + second.drop_last());
        let (rest, fds) = without_ended(sockets, first);
        let (last, more) = without_ended(rest, second);
        let (_, fewer) = without_ended(rest, second.drop_last());
        assert(without_ended(sockets, first + second).1 =~= fds + more);
    }
}

/// The destinations take their readings one by one. A reading of a destination with a socket is
/// told the other end, unless it failed; one that says that the connection ended gives its socket
/// up, which is then to be closed. Other destinations stay as they are, and a reading of none, or
/// of one without a socket, changes nothing.
pub proof fn law_destinations_take_their_readings(
    destinations: Map<i32, DestinationView>,
    first: Seq<ReadingView>,
    second: Seq<ReadingView>,
    reading: ReadingView,
)
    ensures
        ({
            let (map, data, close) = destinations_read(destinations, first);
            let (last, more, others) = destinations_read(map, second);
            destinations_read(destinations, first + second) == (last, data + more, close + others)
        }),
        ({
            let (after, told, close) = destinations_read(destinations, seq![reading]);
            let id = reading.socket_id;
            let now = destinations[id];
            let open = destinations.contains_key(id) && now.fd >= 0;
            &&& after.dom() == destinations.dom()
            &&& forall|other: i32|
                other != id && #[trigger] destinations.contains_key(other) ==> after[other]
                    == destinations[other]
            &&& !open || reading.outcome is Err ==> {
                &&& told.len() == 0 && close.len() == 0
                &&& destinations.contains_key(id) ==> after[id] == now
            }
            &&& open && reading.outcome is Ok ==> {
                let data = reading.outcome->Ok_0;
                &&& told.len() == 1
                &&& !told[0].source_to_destination
                &&& told[0].socket_id == now.socket_id
                &&& told[0].buffer == data && told[0].error.len() == 0
                &&& told[0].closed <==> data.len() == 0
                &&& data.len() > 0 ==> close.len() == 0 && after[id] == now
                &&& data.len() == 0 ==> {
                    &&& close.len() == 1
                    &&& close[0] == (SocketRef { network: now.network, fd: now.fd })
                    &&& after[id] == (DestinationView { fd: NO_SOCKET, ..now })
                }
            }
        }),
        destinations_read(destinations, Seq::empty()) == (
            destinations,
            Seq::<ForwardDataView>::empty(),
            Seq::<SocketRef>::empty(),
        ),
    decreases second.len(),
{
    let one = seq![reading];
    assert(one.drop_last() =~= Seq::<ReadingView>::empty());
    assert(destinations_read(destinations, one.drop_last()) == (
        destinations,
        Seq::<ForwardDataView>::empty(),
        Seq::<SocketRef>::empty(),
    ));
    if destinations.contains_key(reading.socket_id) {
        let now = destinations[reading.socket_id];
        let inner = ReadingView { socket_id: now.socket_id, outcome: reading.outcome };
        assert(seq![inner].drop_last() =~= Seq::<ReadingView>::empty());
        assert(reading_messages(seq![inner].drop_last(), false) =~= Seq::empty());
        assert(destinations_read(destinations, one).0.dom() =~= destinations.dom());
    }
    if second.len() == 0 {
        assert(first + second =~= first);
        let (map, data, close) = destinations_read(destinations, first);
        assert(data + destinations_read(map, second).1 =~= data);
        assert(close + destinations_read(map, second).2 =~= close);
    } else {
        law_destinations_take_their_readings(destinations, first, second.drop_last(), reading);
        assert((first + second).drop_last() =~= first + second.drop_last());
        let (map, data, close) = destinations_read(destinations, first);
        let (last, more, others) = destinations_read(map, second);
        assert(destinations_read(destinations, first + second).1 =~= data + more);
        assert(destinations_read(destinations, first + second).2 =~= close + others);
    }
}

/// Data from the source of a connection goes to its destination, as long as that has a socket: it
/// is written there, and where the message ends the connection, the socket is closed. Data for an
/// ID that is not known goes nowhere, and nothing else changes.
pub proof fn law_data_goes_to_the_destination(handler: ForwardView, data: ForwardDataView)
    requires
        data.source_to_destination,
    ensures
        ({
            let (after, action) = handler.handled(ForwardPacketView::Data(data));
            let id = data.socket_id;
            let known = handler.destinations.contains_key(id);
            let now = handler.destinations[id];
            let socket = SocketRef { network: now.network, fd: now.fd };
            let ends = data.closed || data.error.len() > 0;
            &&& after.sources == handler.sources && after.owners == handler.owners
            &&& after.destinations.dom() == handler.destinations.dom()
            &&& forall|other: i32|
                other != id && #[trigger] handler.destinations.contains_key(other)
                    ==> after.destinations[other] == handler.destinations[other]
            &&& !known || now.fd < 0 ==> action is Nothing && after == handler
            &&& known && now.fd >= 0 && !ends ==> {
                &&& action == (ForwardActionView::Write { socket, data: data.buffer })
                &&& after == handler
            }
            &&& known && now.fd >= 0 && ends ==> {
                &&& action == ForwardActionView::Close(socket)
                &&& after.destinations[id] == (DestinationView { fd: NO_SOCKET, ..now })
            }
        }),
{
    let (after, _) = handler.handled(ForwardPacketView::Data(data));
    assert(after.destinations.dom() =~= handler.destinations.dom());
    if handler.destinations.contains_key(data.socket_id)
        && handler.destinations[data.socket_id].fd < 0 {
        assert(after.destinations =~= handler.destinations);
    }
}

/// Data from the destination of a connection goes to the socket that its source has for its ID:
/// it is written there, and where the message ends the connection, the socket is closed and the
/// ID forgotten. Data for an ID that is not known goes nowhere, and nothing else changes.
pub proof fn law_data_goes_to_the_source(handler: ForwardView, data: ForwardDataView)
    requires
        handler.wf(),
        !data.source_to_destination,
    ensures
        ({
            let (after, action) = handler.handled(ForwardPacketView::Data(data));
            let id = data.socket_id;
            let known = handler.owners.contains_key(id);
            let owner = handler.owners[id] as int;
            let source = handler.sources[owner];
            let held = known && source.sockets.contains_key(id);
            let socket = SocketRef { network: source.source.port > 0, fd: source.sockets[id] };
            let ends = data.closed || data.error.len() > 0;
            &&& after.destinations == handler.destinations
            &&& !known || !ends ==> after == handler
            &&& !held ==> action is Nothing
            &&& held && !ends ==> action == (ForwardActionView::Write { socket, data: data.buffer })
            &&& held && ends ==> action == ForwardActionView::Close(socket)
            &&& known && ends ==> {
                &&& !after.owners.contains_key(id)
                &&& forall|other: i32|
                    other != id ==> (#[trigger] after.owners.contains_key(other)
                        <==> handler.owners.contains_key(other)) && (
                    handler.owners.contains_key(other) ==> after.owners[other]
                        == handler.owners[other])
                &&& after.sources.len() == handler.sources.len()
                &&& after.sources[owner] == (SourceView {
                    sockets: source.sockets.remove(id),
                    ..source
                })
                &&& forall|i: int|
                    0 <= i < handler.sources.len() && i != owner ==> #[trigger] after.sources[i]
                        == handler.sources[i]
            }
        }),
{
}

/// The answer to a request goes to the first source that holds the connection: it gets its ID, by
/// which that source then knows it, or it is closed where the answer is an error. No other source
/// changes, and an answer for a connection that no source holds changes nothing.
pub proof fn law_answer_goes_to_the_holder(
    handler: ForwardView,
    response: DestinationResponseView,
    index: int,
)
    requires
        handler.wf(),
        0 <= index <= handler.sources.len(),
        forall|i: int|
            0 <= i < index ==> !(#[trigger] handler.sources[i]).unassigned.contains(
                response.client_fd,
            ),
        index < handler.sources.len() ==> handler.sources[index].unassigned.contains(
            response.client_fd,
        ),
    ensures
        ({
            let fd = response.client_fd;
            let id = response.socket_id;
            let (after, action) = handler.handled(ForwardPacketView::DestinationResponse(response));
            let source = handler.sources[index];
            &&& index == handler.sources.len() ==> after == handler && action is Nothing
            &&& index < handler.sources.len() ==> {
                &&& after.destinations == handler.destinations
                &&& after.sources.len() == handler.sources.len()
                &&& forall|i: int|
                    0 <= i < handler.sources.len() && i != index ==> #[trigger] after.sources[i]
                        == handler.sources[i]
                &&& after.sources[index].unassigned == source.unassigned.remove_value(fd)
                &&& after.sources[index].source == source.source
                &&& after.sources[index].destination == source.destination
                &&& after.sources[index].listen_fds == source.listen_fds
                &&& response.error.len() > 0 ==> {
                    &&& action == ForwardActionView::Close(
                        SocketRef { network: source.source.port > 0, fd },
                    )
                    &&& after.owners == handler.owners
                    &&& after.sources[index].sockets == source.sockets
                }
                &&& response.error.len() == 0 ==> {
                    &&& action is Nothing
                    &&& after.owners == handler.owners.insert(id, index as usize)
                    &&& after.sources[index].sockets == source.sockets.insert(id, fd)
                }
            }
        }),
{
    lemma_first_holder(handler.sources, response.client_fd, 0, index);
}

proof fn lemma_first_holder(sources: Seq<SourceView>, fd: i32, from: int, index: int)
    requires
        0 <= from <= index <= sources.len(),
        forall|i: int| from <= i < index ==> !(#[trigger] sources[i]).unassigned.contains(fd),
        index < sources.len() ==> sources[index].unassigned.contains(fd),
    ensures
        holder(sources, fd, from) == index,
    decreases index - from,
{
    if from < index {
        lemma_first_holder(sources, fd, from + 1, index);
    }
}

/// A request for a destination is handed on as it is, and a packet that is none of these does
/// nothing; neither changes anything.
pub proof fn law_request_is_handed_on(handler: ForwardView, request: DestinationRequestView)
    ensures
        handler.handled(ForwardPacketView::DestinationRequest(request)) == (
            handler,
            ForwardActionView::CreateDestination(request),
        ),
        handler.handled(ForwardPacketView::Other) == (handler, ForwardActionView::Nothing),
{
}

/// Which packets are about port forwarding, by their type.
pub proof fn law_forwarding_packets(packet_type: u8)
    ensures
        forward_kind_of(packet_type) == Some(ForwardKind::DestinationRequest) <==> packet_type == 5,
        forward_kind_of(packet_type) == Some(ForwardKind::DestinationResponse) <==> packet_type
            == 6,
        forward_kind_of(packet_type) == Some(ForwardKind::Data) <==> packet_type == 7,
        forward_kind_of(packet_type) is None <==> packet_type < 5 || packet_type > 7,
{
}

/// Where a request leads: to the host that it names where it has a port, or to this machine where
/// it names none, first by IPv6 and then by IPv4, and to the pipe that it names where it has no
/// port. The attempt fails only once no address is left.
pub proof fn law_every_address_of_a_destination_is_tried(
    handler: ForwardView,
    request: DestinationRequestView,
    error: ErrorView,
    fd: i32,
    random: i32,
)
    requires
        request.destination matches Some(d) ==> d.port <= u16::MAX,
        fd >= 0,
    ensures
        ({
            let destination = request.destination->0;
            let port = request.destination is Some && destination.port > 0;
            let named = request.destination is Some && destination.name.len() > 0;
            let (attempt, step) = attempt_begun(request);
            let (again, h2, s2) = attempt.next(handler, Err(error), random);
            let (_, h3, s3) = again.next(handler, Err(error), random);
            let (_, h4, s4) = again.next(handler, Ok(fd), random);
            let (_, h5, s5) = attempt.next(handler, Ok(fd), random);
            let failed = DestinationStepView::Finished(
                DestinationResponseView {
                    client_fd: request.fd,
                    socket_id: 0,
                    error: "Connection failed"@,
                },
            );
            &&& step is Connect && (step->network <==> port)
            &&& port && named ==> step->endpoint == (EndpointView {
                name: Some(destination.name),
                port: destination.port as u16,
            })
            &&& port && !named ==> {
                &&& step->endpoint == (EndpointView {
                    name: Some("::1"@),
                    port: destination.port as u16,
                })
                &&& s2 == (DestinationStepView::Connect {
                    network: true,
                    endpoint: EndpointView {
                        name: Some("127.0.0.1"@),
                        port: destination.port as u16,
                    },
                })
                &&& s3 == failed && h3 == handler
                &&& s4 == s5 && h4 == h5
            }
            &&& !port && named ==> step->endpoint == (EndpointView {
                name: Some(destination.name),
                port: 0,
            })
            &&& !port && !named ==> step->endpoint.port == 0 && step->endpoint.name is Some
                && step->endpoint.name->0.len() == 0
            &&& attempt.next(handler, Ok(NO_SOCKET), random) == attempt.next(
                handler,
                Err(error),
                random,
            )
            &&& h2 == handler
            &&& !(port && !named) ==> s2 == failed
            &&& s5 matches DestinationStepView::Finished(response) && {
                let id = response.socket_id;
                &&& response.client_fd == request.fd && response.error.len() == 0
                &&& 0 <= id && (random >= 0 ==> id == random) && (i32::MIN < random < 0 ==> id
                    == -random) && (random == i32::MIN ==> id == 0)
                &&& h5.sources == handler.sources && h5.owners == handler.owners
                &&& h5.destinations == handler.destinations.insert(
                    id,
                    DestinationView { fd, socket_id: id, network: port },
                )
            }
        }),
{
}

/// A source listens at the endpoint that its request names, at every interface where it names no
/// host, and on the network where it has a port.
pub proof fn law_source_listens_where_requested(request: SourceRequestView)
    requires
        request.source matches Some(source) && 0 <= source.port <= u16::MAX,
    ensures
        ({
            let source = request.source->0;
            let (network, endpoint) = source_place(request);
            &&& network <==> source.port > 0
            &&& endpoint.port == source.port
            &&& source.name.len() == 0 ==> endpoint.name is None
            &&& source.name.len() > 0 ==> endpoint.name == Some(source.name)
        }),
{
}

/// What a source holds changes as its sockets do: a connection that is accepted waits for its ID,
/// gets it once, and is found by it until it is closed.
pub proof fn law_source_knows_its_connections(source: SourceView, socket_id: i32, fd: i32)
    ensures
        source.socket(socket_id) == if source.sockets.contains_key(socket_id) {
            Some(source.sockets[socket_id])
        } else {
            None
        },
        source.unassigned.contains(fd) ==> {
            &&& source.assigned(socket_id, fd).socket(socket_id) == Some(fd)
            &&& source.assigned(socket_id, fd).unassigned == source.unassigned.remove_value(fd)
        },
        !source.unassigned.contains(fd) ==> source.assigned(socket_id, fd) == source,
        source.socket_closed(socket_id).socket(socket_id) is None,
        forall|other: i32|
            other != socket_id ==> #[trigger] source.socket_closed(socket_id).socket(other)
                == source.socket(other) && source.assigned(socket_id, fd).socket(other)
                == source.socket(other),
{
}

/// A source looks at its listening sockets from the first on, one after the other.
pub proof fn law_source_looks_at_every_listening_socket(source: SourceView, index: usize)
    requires
        source.listen_fds.len() <= usize::MAX,
    ensures
        index < source.listen_fds.len() ==> source.listen_step(index as int)
            == (ListenStep::Check { index, fd: source.listen_fds[index as int] }),
        index >= source.listen_fds.len() ==> source.listen_step(index as int)
            == ListenStep::Finished(None),
        index + 1 < source.listen_fds.len() ==> source.listened(
            index as int,
            ListenOutcome::Idle,
        ) == (
            source,
            ListenStep::Check {
                index: (index + 1) as usize,
                fd: source.listen_fds[index + 1],
            },
        ),
{
}

/// A source begins with its listening sockets and without any connection, and a handler without
/// any source or destination.
pub proof fn law_handlers_begin_without_connections(
    source: SocketEndpointView,
    destination: SocketEndpointView,
    listen_fds: Seq<i32>,
    id: i32,
)
    ensures
        ({
            let start = SourceView::start(source, destination, listen_fds);
            &&& start.source == source && start.destination == destination
            &&& start.listen_fds == listen_fds
            &&& start.unassigned.len() == 0 && !start.sockets.contains_key(id)
        }),
        ForwardView::empty().sources.len() == 0,
        !ForwardView::empty().destinations.contains_key(id),
        !ForwardView::empty().owners.contains_key(id),
{
}

} // verus!
