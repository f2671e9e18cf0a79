//! Terminal server
//!
//! Where a server listens, and what each round of its main loop waits for and accepts.
use vstd::prelude::*;

use crate::error::{result_view, Error, ErrorView};
use crate::socket::{EndpointView, SocketEndpoint};

verus! {

/// How long a round of the server waits for a client, in milliseconds
pub const ACCEPT_WAIT_MILLIS: u16 = 1000;

/// The main terminal server
#[derive(Debug)]
pub struct TerminalServer {
    listen_fds: Vec<i32>,
    running: bool,
    port: u16,
}

/// The state of a [`TerminalServer`].
pub struct TerminalServerView {
    /// Listening sockets
    pub listen_fds: Seq<i32>,
    /// Whether the server is running
    pub running: bool,
    /// Server port
    pub port: u16,
}

impl View for TerminalServer {
    type V = TerminalServerView;

    closed spec fn view(&self) -> TerminalServerView {
        TerminalServerView {
            listen_fds: self.listen_fds@,
            running: self.running,
            port: self.port,
        }
    }
}

/// What a round of the server needs
#[derive(Debug)]
pub enum ServerRound {
    /// A client is to be awaited at the listening sockets
    Poll { fds: Vec<i32>, millis: u16 },
    /// The server is to end
    Finished,
}

/// Those of the sockets that are ready, in order.
pub open spec fn ready_of(fds: Seq<i32>, ready: Seq<bool>) -> Seq<i32>
    decreases fds.len(),
{
    if fds.len() == 0 {
        Seq::empty()
    } else {
        let before = ready_of(fds.drop_last(), ready);
        if fds.len() - 1 < ready.len() && ready[fds.len() - 1] {
            before.push(fds.last())
        } else {
            before
        }
    }
}

impl TerminalServer {
    /// Where a server is to listen: at the address, or at every interface
    pub fn endpoint(port: u16, bind_address: Option<&str>) -> (r: SocketEndpoint)
        ensures
            r@ == (EndpointView {
                name: match bind_address {
                    Some(address) => Some(address@),
                    None => None,
                },
                port,
            }),
    {
        match bind_address {
            Some(address) => SocketEndpoint::new(address, port),
            None => SocketEndpoint::any(port),
        }
    }

    /// Creates a new terminal server, once sockets listen at its endpoint, or not
    pub fn new(port: u16, listened: Result<Vec<i32>, Error>) -> (r: Result<TerminalServer, Error>)
        ensures
            result_view(r) == match listened {
                Ok(fds) => Ok::<TerminalServerView, ErrorView>(
                    TerminalServerView { listen_fds: fds@, running: false, port },
                ),
                Err(e) => Err::<TerminalServerView, ErrorView>(e@),
            },
    {
        match listened {
            Ok(listen_fds) => Ok(TerminalServer { listen_fds, running: false, port }),
            Err(e) => Err(e),
        }
    }

    /// Starts the server main loop
    pub fn run(&mut self)
        ensures
            final(self)@ == (TerminalServerView { running: true, ..old(self)@ }),
    {
        self.running = true;
    }

    /// Whether the server is running
    pub fn is_running(&self) -> (r: bool)
        ensures
            r == self@.running,
    {
        self.running
    }

    /// Server port
    pub fn port(&self) -> (r: u16)
        ensures
            r == self@.port,
    {
        self.port
    }

    /// What the next round of the main loop needs
    pub fn round(&self) -> (r: ServerRound)
        ensures
            match r {
                ServerRound::Poll { fds, millis } => self@.running && fds@ == self@.listen_fds
                    && millis == ACCEPT_WAIT_MILLIS,
                ServerRound::Finished => !self@.running,
            },
    {
        if self.running {
            let fds = self.listen_fds.clone();
            assert(fds@ =~= self.listen_fds@);
            ServerRound::Poll { fds, millis: ACCEPT_WAIT_MILLIS }
        } else {
            ServerRound::Finished
        }
    }

    /// The listening sockets at which a client is to be accepted, given which of them are ready
    pub fn ready(&self, ready: &Vec<bool>) -> (r: Vec<i32>)
        ensures
            r@ == ready_of(self@.listen_fds, ready@),
    {
        let mut fds: Vec<i32> = Vec::new();
        let mut i: usize = 0;
        assert(self.listen_fds@.take(0) =~= Seq::<i32>::empty());
        while i < self.listen_fds.len()
            invariant
                i <= self.listen_fds.len(),
                fds@ == ready_of(self.listen_fds@.take(i as int), ready@),
            decreases self.listen_fds.len() - i,
        {
            assert(self.listen_fds@.take(i + 1).drop_last() =~= self.listen_fds@.take(i as int));
            if i < ready.len() && ready[i] {
                fds.push(self.listen_fds[i]);
            }
            i = i + 1;
        }
        assert(self.listen_fds@.take(i as int) =~= self.listen_fds@);
        fds
    }

    /// Stops the server, and returns the listening sockets to be closed
    pub fn stop(&mut self) -> (r: Vec<i32>)
        ensures
            final(self)@ == (TerminalServerView { running: false, ..old(self)@ }),
            r@ == old(self)@.listen_fds,
    {
        self.running = false;
        let fds = self.listen_fds.clone();
        assert(fds@ =~= self.listen_fds@);
        fds
    }
}

/// Clients are accepted at the sockets that are ready, one by one and in order, and at no other.
pub proof fn law_ready_sockets_are_served(
    first: Seq<i32>,
    first_ready: Seq<bool>,
    second: Seq<i32>,
    second_ready: Seq<bool>,
    fd: i32,
)
    requires
        first_ready.len() == first.len(),
    ensures
        ready_of(first + second, first_ready + second_ready) == ready_of(first, first_ready)
            + ready_of(second, second_ready),
        ready_of(seq![fd], seq![true]) == seq![fd],
        ready_of(seq![fd], seq![false]).len() == 0,
        ready_of(first, Seq::empty()).len() == 0,
    decreases first.len() + second.len(),
{
    let ready = first_ready + second_ready;
    assert(seq![fd].drop_last() =~= Seq::<i32>::empty());
    assert(ready_of(seq![fd].drop_last(), seq![true]) =~= Seq::<i32>::empty());
    assert(ready_of(seq![fd].drop_last(), seq![false]) =~= Seq::<i32>::empty());
    assert(ready_of(seq![fd], seq![true]) =~= seq![fd]);
    lemma_none_ready(first);
    if second.len() == 0 {
        assert(first + second =~= first);
        lemma_ready_of_front(first, first_ready, second_ready);
        assert(ready_of(first, first_ready) + ready_of(second, second_ready) =~= ready_of(
            first,
            first_ready,
        ));
    } else {
        law_ready_sockets_are_served(first, first_ready, second.drop_last(), second_ready, fd);
        assert((first + second).drop_last() =~= first + second.drop_last());
        assert(ready_of(first + second, ready) =~= ready_of(first, first_ready) + ready_of(
            second,
            second_ready,
        ));
    }
}

proof fn lemma_none_ready(fds: Seq<i32>)
    ensures
        ready_of(fds, Seq::empty()).len() == 0,
    decreases fds.len(),
{
    if fds.len() > 0 {
        lemma_none_ready(fds.drop_last());
    }
}

proof fn lemma_ready_of_front(fds: Seq<i32>, ready: Seq<bool>, more: Seq<bool>)
    requires
        fds.len() <= ready.len(),
    ensures
        ready_of(fds, ready + more) == ready_of(fds, ready),
    decreases fds.len(),
{
    if fds.len() > 0 {
        lemma_ready_of_front(fds.drop_last(), ready, more);
    }
}

/// As long as a server runs, each of its rounds awaits a client for a second, at all of its
/// listening sockets; once it is stopped, the next round is its end.
pub proof fn law_running_server_awaits_clients(server: TerminalServer, r: ServerRound)
    requires
        call_ensures(TerminalServer::round, (&server,), r),
    ensures
        server@.running ==> (r matches ServerRound::Poll { fds, millis } && fds@
            == server@.listen_fds && millis == 1000),
        !server@.running ==> r is Finished,
{
}

} // verus!
