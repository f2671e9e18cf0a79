//! Protocol messages
//!
//! The messages of the ET protocol as plain values, and the packet types under which they
//! travel.
use vstd::prelude::*;

use crate::terminal_info::{TerminalInfo, TerminalInfoView};
use crate::text::option_view;

pub mod packet_type;
pub mod terminal_packet_type;

verus! {

/// How a server answers a connect request
#[derive(Debug, Clone, Copy, PartialEq, Eq, Structural)]
pub enum ConnectStatus {
    /// No status
    Unspecified,
    /// The client is new to the server
    NewClient,
    /// The server knows the client
    ReturningClient,
    /// The key of the client is not valid
    InvalidKey,
    /// Client and server speak different versions of the protocol
    MismatchedProtocol,
}

/// Asks a server for a connection
#[derive(Debug)]
pub struct ConnectRequest {
    /// ID of the client
    pub client_id: String,
    /// Protocol version of the client
    pub version: i32,
}

/// What a [`ConnectRequest`] says.
pub struct ConnectRequestView {
    pub client_id: Seq<char>,
    pub version: i32,
}

impl View for ConnectRequest {
    type V = ConnectRequestView;

    open spec fn view(&self) -> ConnectRequestView {
        ConnectRequestView { client_id: self.client_id@, version: self.version }
    }
}

/// Answers a connect request
#[derive(Debug)]
pub struct ConnectResponse {
    /// Status of the connection
    pub status: ConnectStatus,
    /// What went wrong, or nothing
    pub error: String,
}

/// What a [`ConnectResponse`] says.
pub struct ConnectResponseView {
    pub status: ConnectStatus,
    pub error: Seq<char>,
}

impl View for ConnectResponse {
    type V = ConnectResponseView;

    open spec fn view(&self) -> ConnectResponseView {
        ConnectResponseView { status: self.status, error: self.error@ }
    }
}

/// The status of a connect response as it was received
#[derive(Debug, Clone, Copy, PartialEq, Eq, Structural)]
pub struct ReceivedStatus {
    /// Number of the status
    pub number: i32,
    /// The status with that number, if there is one
    pub status: Option<ConnectStatus>,
}

/// An endpoint as messages give it
#[derive(Debug)]
pub struct SocketEndpoint {
    /// Hostname, or empty
    pub name: String,
    /// Port number
    pub port: i32,
}

/// What a [`SocketEndpoint`] says.
pub struct SocketEndpointView {
    pub name: Seq<char>,
    pub port: i32,
}

impl View for SocketEndpoint {
    type V = SocketEndpointView;

    open spec fn view(&self) -> SocketEndpointView {
        SocketEndpointView { name: self.name@, port: self.port }
    }
}

impl Default for SocketEndpoint {
    fn default() -> (r: SocketEndpoint)
        ensures
            r@ == (SocketEndpointView { name: Seq::empty(), port: 0 }),
    {
        let name = String::new();
        assert(name@ =~= Seq::<char>::empty());
        SocketEndpoint { name, port: 0 }
    }
}

impl Clone for SocketEndpoint {
    fn clone(&self) -> (r: SocketEndpoint)
        ensures
            r@ == self@,
    {
        SocketEndpoint { name: self.name.clone(), port: self.port }
    }
}

/// The endpoint that a message gives, with an empty one where it gives none.
pub open spec fn endpoint_or_default(endpoint: Option<SocketEndpointView>) -> SocketEndpointView {
    match endpoint {
        Some(e) => e,
        None => SocketEndpointView { name: Seq::empty(), port: 0 },
    }
}

/// The endpoint that a message gives, with an empty one where it gives none
pub fn endpoint_of(endpoint: &Option<SocketEndpoint>) -> (r: SocketEndpoint)
    ensures
        r@ == endpoint_or_default(option_view(*endpoint)),
{
    match endpoint {
        Some(e) => e.clone(),
        None => SocketEndpoint::default(),
    }
}

/// Asks for a listening socket whose connections are forwarded
#[derive(Debug)]
pub struct PortForwardSourceRequest {
    /// Where to listen
    pub source: Option<SocketEndpoint>,
    /// Where to forward
    pub destination: Option<SocketEndpoint>,
    /// Name of an environment variable, or empty
    pub environment_variable: String,
}

/// What a [`PortForwardSourceRequest`] says.
pub struct SourceRequestView {
    pub source: Option<SocketEndpointView>,
    pub destination: Option<SocketEndpointView>,
    pub environment_variable: Seq<char>,
}

impl View for PortForwardSourceRequest {
    type V = SourceRequestView;

    open spec fn view(&self) -> SourceRequestView {
        SourceRequestView {
            source: option_view(self.source),
            destination: option_view(self.destination),
            environment_variable: self.environment_variable@,
        }
    }
}

/// Asks for a connection to a forwarding destination
#[derive(Debug)]
pub struct PortForwardDestinationRequest {
    /// Where to connect
    pub destination: Option<SocketEndpoint>,
    /// Descriptor of the connection to be forwarded
    pub fd: i32,
}

/// What a [`PortForwardDestinationRequest`] says.
pub struct DestinationRequestView {
    pub destination: Option<SocketEndpointView>,
    pub fd: i32,
}

impl View for PortForwardDestinationRequest {
    type V = DestinationRequestView;

    open spec fn view(&self) -> DestinationRequestView {
        DestinationRequestView { destination: option_view(self.destination), fd: self.fd }
    }
}

/// Answers a request to listen for connections that are to be forwarded
#[derive(Debug)]
pub struct PortForwardSourceResponse {
    /// What went wrong, or nothing
    pub error: String,
}

/// What a [`PortForwardSourceResponse`] says.
pub struct SourceResponseView {
    pub error: Seq<char>,
}

impl View for PortForwardSourceResponse {
    type V = SourceResponseView;

    open spec fn view(&self) -> SourceResponseView {
        SourceResponseView { error: self.error@ }
    }
}

/// Answers a request for a connection to a forwarding destination
#[derive(Debug)]
pub struct PortForwardDestinationResponse {
    /// Descriptor of the connection to be forwarded
    pub client_fd: i32,
    /// ID of the connection to the destination
    pub socket_id: i32,
    /// What went wrong, or nothing
    pub error: String,
}

/// What a [`PortForwardDestinationResponse`] says.
pub struct DestinationResponseView {
    pub client_fd: i32,
    pub socket_id: i32,
    pub error: Seq<char>,
}

impl View for PortForwardDestinationResponse {
    type V = DestinationResponseView;

    open spec fn view(&self) -> DestinationResponseView {
        DestinationResponseView {
            client_fd: self.client_fd,
            socket_id: self.socket_id,
            error: self.error@,
        }
    }
}

/// Carries forwarded data, or says that a forwarded connection has ended
#[derive(Debug)]
pub struct PortForwardData {
    /// Whether the data goes to the destination
    pub source_to_destination: bool,
    /// ID of the connection
    pub socket_id: i32,
    /// The data
    pub buffer: Vec<u8>,
    /// What went wrong, or nothing
    pub error: String,
    /// Whether the connection has ended
    pub closed: bool,
}

/// What a [`PortForwardData`] says.
pub struct ForwardDataView {
    pub source_to_destination: bool,
    pub socket_id: i32,
    pub buffer: Seq<u8>,
    pub error: Seq<char>,
    pub closed: bool,
}

impl View for PortForwardData {
    type V = ForwardDataView;

    open spec fn view(&self) -> ForwardDataView {
        ForwardDataView {
            source_to_destination: self.source_to_destination,
            socket_id: self.socket_id,
            buffer: self.buffer@,
            error: self.error@,
            closed: self.closed,
        }
    }
}

impl ForwardDataView {
    /// The message that carries data.
    pub open spec fn data(
        source_to_destination: bool,
        socket_id: i32,
        buffer: Seq<u8>,
    ) -> ForwardDataView {
        ForwardDataView {
            source_to_destination,
            socket_id,
            buffer,
            error: Seq::empty(),
            closed: false,
        }
    }

    /// The message that says that a connection has ended.
    pub open spec fn end(source_to_destination: bool, socket_id: i32) -> ForwardDataView {
        ForwardDataView {
            source_to_destination,
            socket_id,
            buffer: Seq::empty(),
            error: Seq::empty(),
            closed: true,
        }
    }

    /// Whether a message says that a connection has ended or failed.
    pub open spec fn ends(self) -> bool {
        self.closed || self.error.len() > 0
    }
}

impl PortForwardData {
    /// Makes the message for what was read of a connection: data, or its end
    pub fn for_read(source_to_destination: bool, socket_id: i32, buffer: Vec<u8>) -> (r:
        PortForwardData)
        ensures
            r@ == if buffer@.len() == 0 {
                ForwardDataView::end(source_to_destination, socket_id)
            } else {
                ForwardDataView::data(source_to_destination, socket_id, buffer@)
            },
    {
        let closed = buffer.len() == 0;
        let error = String::new();
        assert(error@ =~= Seq::<char>::empty());
        assert(closed ==> buffer@ =~= Seq::<u8>::empty());
        PortForwardData { source_to_destination, socket_id, buffer, error, closed }
    }

    /// Tells whether the message says that a connection has ended or failed
    pub fn ends(&self) -> (r: bool)
        ensures
            r == self@.ends(),
    {
        self.closed || !crate::text::is_empty(self.error.as_str())
    }
}

/// What a packet of a session carries
#[derive(Debug)]
pub enum Message {
    /// Nothing; the packet only says that its sender is there
    KeepAlive,
    /// Terminal data
    TerminalBuffer(Vec<u8>),
    /// The geometry of the terminal
    TerminalInfo(TerminalInfo),
    /// A request for a connection to a forwarding destination
    DestinationRequest(PortForwardDestinationRequest),
    /// The answer to such a request
    DestinationResponse(PortForwardDestinationResponse),
    /// Forwarded data
    ForwardData(PortForwardData),
    /// What a client tells the server first: whether it goes through a jump host
    InitialPayload { jumphost: bool },
}

/// What a [`Message`] says.
pub enum MessageView {
    KeepAlive,
    TerminalBuffer(Seq<u8>),
    TerminalInfo(TerminalInfoView),
    DestinationRequest(DestinationRequestView),
    DestinationResponse(DestinationResponseView),
    ForwardData(ForwardDataView),
    InitialPayload { jumphost: bool },
}

impl View for Message {
    type V = MessageView;

    open spec fn view(&self) -> MessageView {
        match *self {
            Message::KeepAlive => MessageView::KeepAlive,
            Message::TerminalBuffer(buffer) => MessageView::TerminalBuffer(buffer@),
            Message::TerminalInfo(info) => MessageView::TerminalInfo(info@),
            Message::DestinationRequest(request) => MessageView::DestinationRequest(request@),
            Message::DestinationResponse(response) => MessageView::DestinationResponse(response@),
            Message::ForwardData(data) => MessageView::ForwardData(data@),
            Message::InitialPayload { jumphost } => MessageView::InitialPayload { jumphost },
        }
    }
}

impl MessageView {
    /// The packet type under which the message travels.
    pub open spec fn packet_type(self) -> u8 {
        match self {
            MessageView::KeepAlive => terminal_packet_type::KEEP_ALIVE,
            MessageView::TerminalBuffer(_) => terminal_packet_type::TERMINAL_BUFFER,
            MessageView::TerminalInfo(_) => terminal_packet_type::TERMINAL_INFO,
            MessageView::DestinationRequest(_) =>
                terminal_packet_type::PORT_FORWARD_DESTINATION_REQUEST,
            MessageView::DestinationResponse(_) =>
                terminal_packet_type::PORT_FORWARD_DESTINATION_RESPONSE,
            MessageView::ForwardData(_) => terminal_packet_type::PORT_FORWARD_DATA,
            MessageView::InitialPayload { .. } => packet_type::INITIAL_PAYLOAD,
        }
    }
}

impl Message {
    /// The packet type under which the message travels
    pub fn packet_type(&self) -> (r: u8)
        ensures
            r == self@.packet_type(),
    {
        match self {
            Message::KeepAlive => terminal_packet_type::KEEP_ALIVE,
            Message::TerminalBuffer(_) => terminal_packet_type::TERMINAL_BUFFER,
            Message::TerminalInfo(_) => terminal_packet_type::TERMINAL_INFO,
            Message::DestinationRequest(_) =>
                terminal_packet_type::PORT_FORWARD_DESTINATION_REQUEST,
            Message::DestinationResponse(_) =>
                terminal_packet_type::PORT_FORWARD_DESTINATION_RESPONSE,
            Message::ForwardData(_) => terminal_packet_type::PORT_FORWARD_DATA,
            Message::InitialPayload { .. } => packet_type::INITIAL_PAYLOAD,
        }
    }
}

/// Messages of different kinds travel under different packet types, so that a receiver can tell
/// them apart.
pub proof fn law_packet_types_tell_messages_apart(a: MessageView, b: MessageView)
    ensures
        a.packet_type() == b.packet_type() ==> (a is KeepAlive <==> b is KeepAlive) && (
        a is TerminalBuffer <==> b is TerminalBuffer) && (a is TerminalInfo <==> b is TerminalInfo)
            && (a is DestinationRequest <==> b is DestinationRequest) && (a is DestinationResponse
            <==> b is DestinationResponse) && (a is ForwardData <==> b is ForwardData) && (
        a is InitialPayload <==> b is InitialPayload),
{
}

/// The packet type under which each message travels.
pub proof fn law_messages_travel_under_their_types(message: MessageView)
    ensures
        message is KeepAlive <==> message.packet_type() == 0,
        message is TerminalBuffer <==> message.packet_type() == 1,
        message is TerminalInfo <==> message.packet_type() == 2,
        message is DestinationRequest <==> message.packet_type() == 5,
        message is DestinationResponse <==> message.packet_type() == 6,
        message is ForwardData <==> message.packet_type() == 7,
        message is InitialPayload <==> message.packet_type() == 253,
{
}

} // verus!
