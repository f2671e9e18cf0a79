//! TCP sockets
//!
//! The tables of open sockets, the addresses to bind, and the course of a connection attempt
//! over the addresses of a host.
use std::collections::{HashMap, HashSet};
use vstd::prelude::*;
use vstd::std_specs::hash::*;

use crate::decimal::{decimal, push_signed, signed_decimal};
use crate::error::{outcome_view, Error, ErrorView};
use crate::socket::{address, address_text, SocketEndpoint};
use crate::text::views;

verus! {

/// How long to wait for a connection to come up, in milliseconds
pub const CONNECT_WAIT_MILLIS: u16 = 3000;

/// TCP socket handler: which sockets are open
#[derive(Debug)]
pub struct TcpSocketHandler {
    active_sockets: HashSet<i32>,
    port_server_sockets: HashMap<u16, Vec<i32>>,
}

/// The state of a [`TcpSocketHandler`].
#[verifier::ext_equal]
pub struct TcpView {
    /// Active sockets
    pub active: Set<i32>,
    /// The listening sockets of each port
    pub listening: Map<u16, Seq<i32>>,
}

impl View for TcpSocketHandler {
    type V = TcpView;

    closed spec fn view(&self) -> TcpView {
        TcpView {
            active: self.active_sockets@,
            listening: self.port_server_sockets@.map_values(|fds: Vec<i32>| fds@),
        }
    }
}

/// `s` with only the first occurrence of each element.
pub open spec fn distinct(s: Seq<i32>) -> Seq<i32>
    decreases s.len(),
{
    if s.len() == 0 {
        s
    } else {
        let before = distinct(s.drop_last());
        if before.contains(s.last()) {
            before
        } else {
            before.push(s.last())
        }
    }
}

/// Whether `fds` holds `fd`
pub fn holds(fds: &Vec<i32>, fd: i32) -> (r: bool)
    ensures
        r == fds@.contains(fd),
{
    let mut i: usize = 0;
    while i < fds.len()
        invariant
            i <= fds.len(),
            forall|k: int| 0 <= k < i ==> fds@[k] != fd,
        decreases fds.len() - i,
    {
        if fds[i] == fd {
            assert(fds@[i as int] == fd);
            return true;
        }
        i = i + 1;
    }
    false
}

/// The texts of the addresses to bind for an endpoint: its name, or every interface, first of
/// IPv4 and then of IPv6.
pub open spec fn bind_addresses_of(name: Option<Seq<char>>, port: u16) -> Seq<Seq<char>> {
    match name {
        Some(name) => seq![address_text(name, port)],
        None => seq![address_text("0.0.0.0"@, port), address_text("[::]"@, port)],
    }
}

/// The addresses to bind for an endpoint, in order
pub fn bind_addresses(endpoint: &SocketEndpoint) -> (r: Vec<String>)
    ensures
        views(r@) == bind_addresses_of(endpoint@.name, endpoint@.port),
{
    let mut addresses: Vec<String> = Vec::new();
    match &endpoint.name {
        Some(name) => addresses.push(address(name.as_str(), endpoint.port)),
        None => {
            addresses.push(address("0.0.0.0", endpoint.port));
            addresses.push(address("[::]", endpoint.port));
        },
    }
    assert(views(addresses@) =~= bind_addresses_of(endpoint@.name, endpoint@.port));
    addresses
}

impl TcpView {
    /// The state before anything is open.
    pub open spec fn empty() -> TcpView {
        TcpView { active: Set::empty(), listening: Map::empty() }
    }

    /// The state once a socket is open.
    pub open spec fn opened(self, fd: i32) -> TcpView {
        TcpView { active: self.active.insert(fd), ..self }
    }

    /// The state once a socket is closed.
    pub open spec fn closed(self, fd: i32) -> TcpView {
        TcpView { active: self.active.remove(fd), ..self }
    }

    /// The state and the result once the sockets in `bound` could be bound for a port.
    pub open spec fn listened(self, port: u16, bound: Seq<i32>) -> (
        TcpView,
        Result<Seq<i32>, ErrorView>,
    ) {
        if bound.len() == 0 {
            (self, Err(ErrorView::Socket("Could not bind to any interface"@)))
        } else {
            let fds = distinct(bound);
            (TcpView { listening: self.listening.insert(port, fds), ..self }, Ok(fds))
        }
    }
}

impl Default for TcpSocketHandler {
    fn default() -> (r: TcpSocketHandler)
        ensures
            r@ == TcpView::empty(),
    {
        TcpSocketHandler::new()
    }
}

impl TcpSocketHandler {
    /// Creates a new TCP socket handler
    pub fn new() -> (r: TcpSocketHandler)
        ensures
            r@ == TcpView::empty(),
    {
        broadcast use group_hash_axioms;

        let handler = TcpSocketHandler {
            active_sockets: HashSet::new(),
            port_server_sockets: HashMap::new(),
        };
        assert(handler@ =~= TcpView::empty());
        handler
    }

    fn add_to_active(&mut self, fd: i32)
        ensures
            final(self)@ == old(self)@.opened(fd),
    {
        broadcast use group_hash_axioms;

        self.active_sockets.insert(fd);
    }

    /// Takes the outcome of accepting a connection
    pub fn accept(&mut self, outcome: Result<i32, Error>) -> (r: Result<i32, Error>)
        ensures
            outcome_view(r) == outcome_view(outcome),
            final(self)@ == match outcome {
                Ok(client_fd) => old(self)@.opened(client_fd),
                Err(_) => old(self)@,
            },
    {
        match outcome {
            Ok(client_fd) => {
                self.add_to_active(client_fd);
                Ok(client_fd)
            },
            Err(e) => Err(e),
        }
    }

    /// Notes that a socket is closed
    pub fn close(&mut self, fd: i32)
        ensures
            final(self)@ == old(self)@.closed(fd),
    {
        broadcast use group_hash_axioms;

        self.active_sockets.remove(&fd);
        assert(self@ =~= old(self)@.closed(fd));
    }

    /// Takes the sockets that could be bound for an endpoint
    pub fn listen(&mut self, endpoint: &SocketEndpoint, bound: Vec<i32>) -> (r: Result<
        Vec<i32>,
        Error,
    >)
        ensures
            (final(self)@, crate::error::result_view(r)) == old(self)@.listened(
                endpoint@.port,
                bound@,
            ),
    {
        broadcast use group_hash_axioms;

        if bound.len() == 0 {
            return Err(Error::Socket("Could not bind to any interface".to_owned()));
        }
        let mut fds: Vec<i32> = Vec::new();
        let mut i: usize = 0;
        assert(bound@.take(0) =~= Seq::<i32>::empty());
        while i < bound.len()
            invariant
                i <= bound.len(),
                fds@ == distinct(bound@.take(i as int)),
            decreases bound.len() - i,
        {
            assert(bound@.take(i + 1).drop_last() =~= bound@.take(i as int));
            if !holds(&fds, bound[i]) {
                fds.push(bound[i]);
            }
            i = i + 1;
        }
        assert(bound@.take(i as int) =~= bound@);
        let stored = fds.clone();
        assert(stored@ =~= fds@);
        self.port_server_sockets.insert(endpoint.port, stored);
        assert(self@.listening =~= old(self)@.listening.insert(endpoint@.port, fds@));
        Ok(fds)
    }

    /// The listening sockets of an endpoint
    pub fn get_endpoint_fds(&self, endpoint: &SocketEndpoint) -> (r: Option<Vec<i32>>)
        ensures
            match r {
                Some(fds) => self@.listening.contains_key(endpoint@.port) && fds@
                    == self@.listening[endpoint@.port],
                None => !self@.listening.contains_key(endpoint@.port),
            },
    {
        broadcast use group_hash_axioms;

        match self.port_server_sockets.get(&endpoint.port) {
            Some(fds) => {
                let copy = fds.clone();
                assert(copy@ =~= fds@);
                Some(copy)
            },
            None => None,
        }
    }

    /// Forgets the listening sockets of an endpoint, and returns those to be closed
    pub fn stop_listening(&mut self, endpoint: &SocketEndpoint) -> (r: Vec<i32>)
        ensures
            r@ == if old(self)@.listening.contains_key(endpoint@.port) {
                old(self)@.listening[endpoint@.port]
            } else {
                Seq::empty()
            },
            final(self)@ == (TcpView {
                listening: old(self)@.listening.remove(endpoint@.port),
                ..old(self)@
            }),
    {
        broadcast use group_hash_axioms;

        let removed = self.port_server_sockets.remove(&endpoint.port);
        assert(self@.listening =~= old(self)@.listening.remove(endpoint@.port));
        match removed {
            Some(fds) => fds,
            None => Vec::new(),
        }
    }

    /// Returns all currently active sockets, each once
    pub fn get_active_sockets(&self) -> (r: Vec<i32>)
        ensures
            r@.no_duplicates(),
            r@.to_set() == self@.active,
    {
        broadcast use group_hash_axioms;

        let mut sockets: Vec<i32> = Vec::new();
        for fd in it: self.active_sockets.iter()
            invariant
                sockets@ == it.seq().unref().take(it.index()),
                it.seq().unref().to_set() == self.active_sockets@,
                it.seq().unref().no_duplicates(),
                it.seq().unref().len() == it.seq().len(),
                it.seq().unref().take(it.seq().len() as int) == it.seq().unref(),
        {
            sockets.push(*fd);
        }
        sockets
    }
}

/// What a connection attempt needs next
#[derive(Debug)]
pub enum ConnectStep {
    /// A socket is to be opened for an address; an abandoned one is to be closed
    Open { index: usize, ipv4: bool, abandoned: Option<i32> },
    /// The socket is to be set nonblocking
    SetNonblocking { fd: i32 },
    /// The connection to an address is to be started
    Start { fd: i32, index: usize },
    /// The socket is to be waited for until it can be written
    Poll { fd: i32, millis: u16 },
    /// The pending error of the socket is to be taken
    TakeError { fd: i32 },
    /// The socket is to be set blocking
    SetBlocking { fd: i32 },
    /// The attempt is over; a socket that is connected is to be configured, an abandoned one is
    /// to be closed
    Finished { result: Result<i32, Error>, abandoned: Option<i32> },
}

/// What a [`ConnectStep`] says.
pub enum ConnectStepView {
    Open { index: int, ipv4: bool, abandoned: Option<i32> },
    SetNonblocking { fd: i32 },
    Start { fd: i32, index: int },
    Poll { fd: i32, millis: u16 },
    TakeError { fd: i32 },
    SetBlocking { fd: i32 },
    Finished { result: Result<i32, ErrorView>, abandoned: Option<i32> },
}

impl View for ConnectStep {
    type V = ConnectStepView;

    open spec fn view(&self) -> ConnectStepView {
        match *self {
            ConnectStep::Open { index, ipv4, abandoned } => ConnectStepView::Open {
                index: index as int,
                ipv4,
                abandoned,
            },
            ConnectStep::SetNonblocking { fd } => ConnectStepView::SetNonblocking { fd },
            ConnectStep::Start { fd, index } => ConnectStepView::Start { fd, index: index as int },
            ConnectStep::Poll { fd, millis } => ConnectStepView::Poll { fd, millis },
            ConnectStep::TakeError { fd } => ConnectStepView::TakeError { fd },
            ConnectStep::SetBlocking { fd } => ConnectStepView::SetBlocking { fd },
            ConnectStep::Finished { result, abandoned } => ConnectStepView::Finished {
                result: outcome_view(result),
                abandoned,
            },
        }
    }
}

/// How the start of a connection went
#[derive(Debug)]
pub enum ConnectStart {
    /// The connection is up
    Connected,
    /// The connection is coming up (EINPROGRESS)
    InProgress,
    /// The connection is coming up (EWOULDBLOCK)
    WouldBlock,
    /// The connection was refused, with the text of the error
    Refused(String),
}

/// A connection attempt over the addresses of a host, in order
#[derive(Debug)]
pub struct TcpConnect {
    /// For each address of the host, whether it is an IPv4 address
    ipv4: Vec<bool>,
    /// The address being tried
    index: usize,
    /// The socket for it
    fd: i32,
}

/// The state of a [`TcpConnect`].
pub struct TcpConnectView {
    pub ipv4: Seq<bool>,
    pub index: int,
    pub fd: i32,
}

impl View for TcpConnect {
    type V = TcpConnectView;

    closed spec fn view(&self) -> TcpConnectView {
        TcpConnectView { ipv4: self.ipv4@, index: self.index as int, fd: self.fd }
    }
}

impl TcpConnectView {
    /// What holds of every attempt: an address of the host is being tried.
    pub open spec fn wf(self) -> bool {
        0 <= self.index < self.ipv4.len()
    }

    /// The attempt once its address has failed with an error: the next address is tried, and
    /// after the last one the attempt fails with that error.
    pub open spec fn next_address(self, error: ErrorView) -> (TcpConnectView, ConnectStepView) {
        if self.index + 1 < self.ipv4.len() {
            (
                TcpConnectView { index: self.index + 1, ..self },
                ConnectStepView::Open {
                    index: self.index + 1,
                    ipv4: self.ipv4[self.index + 1],
                    abandoned: Some(self.fd),
                },
            )
        } else {
            (self, self.failure(error))
        }
    }

    /// The end of an attempt that has failed for every address.
    pub open spec fn failure(self, error: ErrorView) -> ConnectStepView {
        ConnectStepView::Finished { result: Err(error), abandoned: Some(self.fd) }
    }

    /// What follows once a socket has been opened, or not.
    pub open spec fn after_opening(self, outcome: Result<i32, Seq<char>>) -> (
        TcpConnectView,
        ConnectStepView,
    ) {
        match outcome {
            Ok(fd) => (TcpConnectView { fd, ..self }, ConnectStepView::SetNonblocking { fd }),
            Err(description) => (
                self,
                ConnectStepView::Finished {
                    result: Err(ErrorView::Socket(description)),
                    abandoned: None,
                },
            ),
        }
    }

    /// What follows once the socket has been set nonblocking, or not.
    pub open spec fn after_nonblocking(self, outcome: Result<(), ErrorView>) -> ConnectStepView {
        match outcome {
            Ok(_) => ConnectStepView::Start { fd: self.fd, index: self.index },
            Err(e) => self.failure(e),
        }
    }

    /// What follows once the connection has been started, or refused.
    pub open spec fn after_start(self, start: ConnectStart) -> (TcpConnectView, ConnectStepView) {
        match start {
            ConnectStart::Refused(description) => self.next_address(
                ErrorView::Socket(description@),
            ),
            _ => (self, ConnectStepView::Poll { fd: self.fd, millis: CONNECT_WAIT_MILLIS }),
        }
    }

    /// What follows once the socket has been waited for.
    pub open spec fn after_poll(self, outcome: Result<i32, Seq<char>>) -> (
        TcpConnectView,
        ConnectStepView,
    ) {
        match outcome {
            Ok(n) => if n > 0 {
                (self, ConnectStepView::TakeError { fd: self.fd })
            } else {
                self.next_address(ErrorView::Timeout)
            },
            Err(description) => self.next_address(ErrorView::Socket(description)),
        }
    }

    /// What follows once the pending error of the socket has been taken.
    pub open spec fn after_error(self, outcome: Result<Option<Option<i32>>, Seq<char>>) -> (
        TcpConnectView,
        ConnectStepView,
    ) {
        match outcome {
            Ok(pending) => if error_code(pending) == 0 {
                (self, ConnectStepView::SetBlocking { fd: self.fd })
            } else {
                self.next_address(ErrorView::Socket(connection_error_text(error_code(pending))))
            },
            Err(description) => (self, self.failure(ErrorView::Socket(description))),
        }
    }

    /// The end of an attempt, once the socket has been set blocking, or not.
    pub open spec fn after_blocking(self, tcp: TcpView, outcome: Result<(), ErrorView>) -> (
        TcpView,
        ConnectStepView,
    ) {
        match outcome {
            Ok(_) => (
                tcp.opened(self.fd),
                ConnectStepView::Finished { result: Ok(self.fd), abandoned: None },
            ),
            Err(e) => (tcp, self.failure(e)),
        }
    }
}

/// A result with the view of the description of its error.
pub open spec fn described<T>(r: Result<T, String>) -> Result<T, Seq<char>> {
    match r {
        Ok(t) => Ok(t),
        Err(description) => Err(description@),
    }
}

/// What follows once the addresses of a host are known, or not.
pub open spec fn connect_begun(resolved: Result<Seq<bool>, Seq<char>>) -> Result<
    TcpConnectView,
    ErrorView,
> {
    match resolved {
        Err(description) => Err(ErrorView::AddressResolution(description)),
        Ok(ipv4) => if ipv4.len() == 0 {
            Err(ErrorView::AddressResolution("No addresses found"@))
        } else {
            Ok(TcpConnectView { ipv4, index: 0, fd: crate::NO_SOCKET })
        },
    }
}

/// The number of the pending error of a socket, with zero for none.
pub open spec fn error_code(pending: Option<Option<i32>>) -> i32 {
    match pending {
        Some(Some(code)) => code,
        _ => 0,
    }
}

/// The view of the addresses that a resolver found.
pub open spec fn resolved_view(resolved: Result<Vec<bool>, String>) -> Result<
    Seq<bool>,
    Seq<char>,
> {
    match resolved {
        Ok(ipv4) => Ok(ipv4@),
        Err(description) => Err(description@),
    }
}

/// The text of the error of a connection that did not come up.
pub open spec fn connection_error_text(code: i32) -> Seq<char> {
    "Connection error: "@ + signed_decimal(code as int)
}

impl TcpConnect {
    /// The address that is to be resolved to connect to an endpoint
    pub fn resolve(endpoint: &SocketEndpoint) -> (r: Result<String, Error>)
        ensures
            crate::error::result_view(r) == match endpoint@.name {
                Some(name) => Ok::<Seq<char>, ErrorView>(address_text(name, endpoint@.port)),
                None => Err::<Seq<char>, ErrorView>(
                    ErrorView::AddressResolution("No hostname provided"@),
                ),
            },
    {
        match &endpoint.name {
            Some(name) => Ok(address(name.as_str(), endpoint.port)),
            None => Err(Error::AddressResolution("No hostname provided".to_owned())),
        }
    }

    /// Starts an attempt: `resolved` says of each address of the host whether it is an IPv4
    /// address, or describes why there are none
    pub fn begin(resolved: Result<Vec<bool>, String>) -> (r: Result<
        (TcpConnect, ConnectStep),
        Error,
    >)
        ensures
            match (r, connect_begun(resolved_view(resolved))) {
                (Ok((attempt, step)), Ok(expected)) => {
                    &&& attempt@ == expected
                    &&& attempt@.wf()
                    &&& step@ == (ConnectStepView::Open {
                        index: 0,
                        ipv4: expected.ipv4[0],
                        abandoned: None,
                    })
                },
                (Err(e), Err(expected)) => e@ == expected,
                _ => false,
            },
    {
        match resolved {
            Err(description) => Err(Error::AddressResolution(description)),
            Ok(ipv4) => {
                if ipv4.len() == 0 {
                    return Err(Error::AddressResolution("No addresses found".to_owned()));
                }
                let first = ipv4[0];
                Ok(
                    (
                        TcpConnect { ipv4, index: 0, fd: crate::NO_SOCKET },
                        ConnectStep::Open { index: 0, ipv4: first, abandoned: None },
                    ),
                )
            },
        }
    }

    fn next_address(&mut self, error: Error) -> (r: ConnectStep)
        requires
            old(self)@.wf(),
        ensures
            (final(self)@, r@) == old(self)@.next_address(error@),
            final(self)@.wf(),
    {
        if self.index < self.ipv4.len() - 1 {
            self.index = self.index + 1;
            ConnectStep::Open {
                index: self.index,
                ipv4: self.ipv4[self.index],
                abandoned: Some(self.fd),
            }
        } else {
            self.failure(error)
        }
    }

    fn failure(&self, error: Error) -> (r: ConnectStep)
        ensures
            r@ == self@.failure(error@),
    {
        ConnectStep::Finished { result: Err(error), abandoned: Some(self.fd) }
    }

    /// Goes on once a socket has been opened, or not
    pub fn opened(&mut self, outcome: Result<i32, String>) -> (r: ConnectStep)
        requires
            old(self)@.wf(),
        ensures
            (final(self)@, r@) == old(self)@.after_opening(described(outcome)),
            final(self)@.wf(),
    {
        match outcome {
            Ok(fd) => {
                self.fd = fd;
                ConnectStep::SetNonblocking { fd }
            },
            Err(description) => ConnectStep::Finished {
                result: Err(Error::Socket(description)),
                abandoned: None,
            },
        }
    }

    /// Goes on once the socket has been set nonblocking, or not
    pub fn nonblocking(&self, outcome: Result<(), Error>) -> (r: ConnectStep)
        requires
            self@.wf(),
        ensures
            r@ == self@.after_nonblocking(outcome_view(outcome)),
    {
        match outcome {
            Ok(_) => ConnectStep::Start { fd: self.fd, index: self.index },
            Err(e) => self.failure(e),
        }
    }

    /// Goes on once the connection has been started, or refused
    pub fn started(&mut self, start: ConnectStart) -> (r: ConnectStep)
        requires
            old(self)@.wf(),
        ensures
            (final(self)@, r@) == old(self)@.after_start(start),
            final(self)@.wf(),
    {
        match start {
            ConnectStart::Refused(description) => self.next_address(Error::Socket(description)),
            _ => ConnectStep::Poll { fd: self.fd, millis: CONNECT_WAIT_MILLIS },
        }
    }

    /// Goes on once the socket has been waited for: `outcome` is how many sockets are ready
    pub fn polled(&mut self, outcome: Result<i32, String>) -> (r: ConnectStep)
        requires
            old(self)@.wf(),
        ensures
            (final(self)@, r@) == old(self)@.after_poll(described(outcome)),
            final(self)@.wf(),
    {
        match outcome {
            Ok(n) => {
                if n > 0 {
                    ConnectStep::TakeError { fd: self.fd }
                } else {
                    self.next_address(Error::Timeout)
                }
            },
            Err(description) => self.next_address(Error::Socket(description)),
        }
    }

    /// Goes on once the pending error of the socket has been taken: the number of the error, if
    /// there is one and it has a number
    pub fn error_taken(&mut self, outcome: Result<Option<Option<i32>>, String>) -> (r: ConnectStep)
        requires
            old(self)@.wf(),
        ensures
            (final(self)@, r@) == old(self)@.after_error(described(outcome)),
            final(self)@.wf(),
    {
        match outcome {
            Ok(pending) => {
                let code: i32 = match pending {
                    Some(Some(code)) => code,
                    _ => 0,
                };
                if code == 0 {
                    ConnectStep::SetBlocking { fd: self.fd }
                } else {
                    let mut text = "Connection error: ".to_owned();
                    push_signed(&mut text, code as i64);
                    self.next_address(Error::Socket(text))
                }
            },
            Err(description) => self.failure(Error::Socket(description)),
        }
    }

    /// Ends the attempt once the socket has been set blocking, or not; a connected socket is
    /// active from then on
    pub fn blocking(&self, handler: &mut TcpSocketHandler, outcome: Result<(), Error>) -> (r:
        ConnectStep)
        requires
            self@.wf(),
        ensures
            (final(handler)@, r@) == self@.after_blocking(
                old(handler)@,
                outcome_view(outcome),
            ),
    {
        match outcome {
            Ok(_) => {
                handler.add_to_active(self.fd);
                ConnectStep::Finished { result: Ok(self.fd), abandoned: None }
            },
            Err(e) => self.failure(e),
        }
    }
}

/// A socket that is opened is active until it is closed, and closing it leaves the others as
/// they were.
pub proof fn law_open_then_close(tcp: TcpView, fd: i32)
    ensures
        tcp.opened(fd).active.contains(fd),
        !tcp.closed(fd).active.contains(fd),
        !tcp.active.contains(fd) ==> tcp.opened(fd).closed(fd) == tcp,
        forall|other: i32|
            other != fd ==> (tcp.closed(fd).active.contains(other) <==> tcp.active.contains(other)),
{
    if !tcp.active.contains(fd) {
        assert(tcp.opened(fd).closed(fd) =~= tcp);
    }
}

/// Every address of a host is tried before an attempt fails for want of one: a failure of the
/// address at `index` ends the attempt exactly where no later address is left, and with the
/// error of that address.
pub proof fn law_failure_tries_the_next_address(attempt: TcpConnectView, error: ErrorView)
    requires
        attempt.wf(),
    ensures
        ({
            let (next, step) = attempt.next_address(error);
            &&& step is Finished <==> attempt.index == attempt.ipv4.len() - 1
            &&& step is Finished ==> step == attempt.failure(error)
            &&& !(step is Finished) ==> next.wf() && next.index == attempt.index + 1
        }),
{
}

/// An address that fails is followed by the next one of the host, whose socket is to be opened and
/// the socket of the failed one closed; after the last one the attempt fails with its error.
pub proof fn law_next_address_is_opened(attempt: TcpConnectView, error: ErrorView)
    requires
        attempt.wf(),
    ensures
        ({
            let (next, step) = attempt.next_address(error);
            let index = attempt.index + 1;
            &&& next.ipv4 == attempt.ipv4
            &&& index < attempt.ipv4.len() ==> {
                &&& step == (ConnectStepView::Open {
                    index,
                    ipv4: attempt.ipv4[index],
                    abandoned: Some(attempt.fd),
                })
                &&& next.index == index
            }
            &&& index == attempt.ipv4.len() ==> {
                &&& step == (ConnectStepView::Finished {
                    result: Err(error),
                    abandoned: Some(attempt.fd),
                })
                &&& next == attempt
            }
        }),
{
}

/// A connection that comes up goes through its steps on one socket: it is opened, set nonblocking,
/// started for the address being tried, waited for up to three seconds, asked for its error, set
/// blocking, and is active from then on.
pub proof fn law_connection_comes_up(
    attempt: TcpConnectView,
    fd: i32,
    start: ConnectStart,
    ready: i32,
    pending: Option<Option<i32>>,
    tcp: TcpView,
)
    requires
        !(start is Refused),
        ready > 0,
        pending is None || pending->0 is None || pending->0->0 == 0,
    ensures
        ({
            let (a1, s1) = attempt.after_opening(Ok(fd));
            let s2 = a1.after_nonblocking(Ok(()));
            let (a3, s3) = a1.after_start(start);
            let (a4, s4) = a3.after_poll(Ok(ready));
            let (a5, s5) = a4.after_error(Ok(pending));
            let (open, s6) = a5.after_blocking(tcp, Ok(()));
            &&& s1 == (ConnectStepView::SetNonblocking { fd })
            &&& s2 == (ConnectStepView::Start { fd, index: attempt.index })
            &&& s3 == (ConnectStepView::Poll { fd, millis: 3000 })
            &&& s4 == (ConnectStepView::TakeError { fd })
            &&& s5 == (ConnectStepView::SetBlocking { fd })
            &&& s6 == (ConnectStepView::Finished { result: Ok(fd), abandoned: None })
            &&& open.active == tcp.active.insert(fd) && open.listening == tcp.listening
            &&& a5.index == attempt.index && a5.ipv4 == attempt.ipv4 && a5.fd == fd
        }),
{
}

/// An address that is refused, that does not come up in time, or whose socket has an error is
/// followed by the next one; a failure of the system itself ends the attempt, and what was opened
/// is to be closed.
pub proof fn law_failed_address_is_given_up(
    attempt: TcpConnectView,
    text: String,
    ready: i32,
    code: i32,
    error: ErrorView,
    tcp: TcpView,
)
    requires
        attempt.wf(),
        ready <= 0,
        code != 0,
    ensures
        attempt.after_start(ConnectStart::Refused(text)) == attempt.next_address(
            ErrorView::Socket(text@),
        ),
        attempt.after_poll(Ok(ready)) == attempt.next_address(ErrorView::Timeout),
        attempt.after_poll(Err(text@)) == attempt.next_address(ErrorView::Socket(text@)),
        attempt.after_error(Ok(Some(Some(code)))) == attempt.next_address(
            ErrorView::Socket("Connection error: "@ + signed_decimal(code as int)),
        ),
        attempt.after_error(Err(text@)).1 == (ConnectStepView::Finished {
            result: Err(ErrorView::Socket(text@)),
            abandoned: Some(attempt.fd),
        }),
        attempt.after_opening(Err(text@)).1 == (ConnectStepView::Finished {
            result: Err(ErrorView::Socket(text@)),
            abandoned: None,
        }),
        attempt.after_nonblocking(Err(error)) == (ConnectStepView::Finished {
            result: Err(error),
            abandoned: Some(attempt.fd),
        }),
        attempt.after_blocking(tcp, Err(error)) == (
            tcp,
            ConnectStepView::Finished { result: Err(error), abandoned: Some(attempt.fd) },
        ),
{
}

/// An attempt begins with the first address of the host, and fails where the host has none.
pub proof fn law_attempt_begins_with_the_first_address(
    ipv4: Seq<bool>,
    description: Seq<char>,
)
    ensures
        ipv4.len() > 0 ==> (connect_begun(Ok(ipv4)) matches Ok(attempt) && attempt.index == 0
            && attempt.ipv4 == ipv4),
        ipv4.len() == 0 ==> connect_begun(Ok(ipv4)) == Err::<TcpConnectView, ErrorView>(
            ErrorView::AddressResolution("No addresses found"@),
        ),
        connect_begun(Err(description)) == Err::<TcpConnectView, ErrorView>(
            ErrorView::AddressResolution(description),
        ),
{
}

/// The sockets that were bound for a port are kept, each once and none but those; without any the
/// port is not listened at and nothing changes.
pub proof fn law_bound_sockets_are_kept_once(tcp: TcpView, port: u16, bound: Seq<i32>)
    ensures
        ({
            let (after, result) = tcp.listened(port, bound);
            &&& after.active == tcp.active
            &&& bound.len() == 0 ==> after == tcp && result == Err::<Seq<i32>, ErrorView>(
                ErrorView::Socket("Could not bind to any interface"@),
            )
            &&& bound.len() > 0 ==> {
                &&& result matches Ok(fds) && {
                    &&& fds.no_duplicates()
                    &&& forall|fd: i32| #[trigger] fds.contains(fd) <==> bound.contains(fd)
                    &&& fds[0] == bound[0]
                    &&& after.listening[port] == fds && after.listening.contains_key(port)
                }
                &&& forall|other: u16|
                    other != port ==> (#[trigger] after.listening.contains_key(other)
                        <==> tcp.listening.contains_key(other)) && after.listening[other]
                        == tcp.listening[other]
            }
        }),
        bound.no_duplicates() ==> distinct(bound) == bound,
{
    lemma_distinct(bound);
    if bound.no_duplicates() {
        lemma_distinct_keeps(bound);
    }
}

proof fn lemma_distinct(s: Seq<i32>)
    ensures
        distinct(s).no_duplicates(),
        forall|fd: i32| #[trigger] distinct(s).contains(fd) <==> s.contains(fd),
        s.len() > 0 ==> distinct(s).len() > 0 && distinct(s)[0] == s[0],
    decreases s.len(),
{
    if s.len() > 0 {
        let before = s.drop_last();
        lemma_distinct(before);
        assert forall|fd: i32| #[trigger] distinct(s).contains(fd) <==> s.contains(fd) by {
            if s.contains(fd) {
                let k = choose|k: int| 0 <= k < s.len() && s[k] == fd;
                if k < before.len() {
                    assert(before[k] == fd);
                    assert(distinct(before).contains(fd));
                    let m = choose|m: int|
                        0 <= m < distinct(before).len() && distinct(before)[m] == fd;
                    assert(distinct(s)[m] == fd);
                } else if !distinct(before).contains(fd) {
                    assert(distinct(s).last() == fd);
                }
            }
            if distinct(s).contains(fd) {
                let m = choose|m: int| 0 <= m < distinct(s).len() && distinct(s)[m] == fd;
                if m < distinct(before).len() {
                    assert(distinct(before)[m] == fd);
                    assert(distinct(before).contains(fd));
                    assert(before.contains(fd));
                    let k = choose|k: int| 0 <= k < before.len() && before[k] == fd;
                    assert(s[k] == fd);
                } else {
                    assert(s[s.len() - 1] == fd);
                }
            }
        }
        if before.len() == 0 {
            assert(distinct(before) =~= Seq::<i32>::empty());
        }
    }
}

proof fn lemma_distinct_keeps(s: Seq<i32>)
    requires
        s.no_duplicates(),
    ensures
        distinct(s) == s,
    decreases s.len(),
{
    if s.len() > 0 {
        let before = s.drop_last();
        assert(before.no_duplicates()) by {
            assert forall|i: int, j: int|
                0 <= i < before.len() && 0 <= j < before.len() && i != j implies before[i]
                != before[j] by {
                assert(before[i] == s[i] && before[j] == s[j]);
            }
        }
        lemma_distinct_keeps(before);
        assert(!before.contains(s.last())) by {
            if before.contains(s.last()) {
                let k = choose|k: int| 0 <= k < before.len() && before[k] == s.last();
                assert(s[k] == s[s.len() - 1]);
            }
        }
        assert(before.push(s.last()) =~= s);
    }
}

/// An endpoint without a name is bound at every interface, first of IPv4 and then of IPv6, and one
/// with a name at that name alone, each at the port of the endpoint.
pub proof fn law_every_interface_is_bound(name: Seq<char>, port: u16)
    ensures
        ({
            let addresses = bind_addresses_of(None, port);
            &&& addresses.len() == 2
            &&& addresses[0] == "0.0.0.0"@ + ":"@ + decimal(port as nat)
            &&& addresses[1] == "[::]"@ + ":"@ + decimal(port as nat)
        }),
        bind_addresses_of(Some(name), port).len() == 1,
        bind_addresses_of(Some(name), port)[0] == name + ":"@ + decimal(port as nat),
{
}

} // verus!
