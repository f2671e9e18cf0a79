//! Connection management with automatic recovery
//!
//! This module provides buffered client/server connections with automatic reconnection support.
//! A connection does no I/O of its own: its operations say what is to be read, written, closed
//! or waited for, and are handed the outcome.
use vstd::prelude::*;
use vstd::slice::slice_to_vec;
use vstd::utf8::encode_utf8;

use crate::backed_reader::{
    read_view, BackedReader, ReadStep, ReadStepView, ReaderView,
};
use crate::backed_writer::{
    write_answered, BackedWriter, PendingView, PendingWrite, WriteState, WriteStep, WriteStepView,
    WriterView, MAX_BACKUP_BYTES,
};
use crate::crypto::{handler_for, sodium_init, CryptoHandler, MACBYTES};
use crate::error::{outcome_view, result_view, Errno, Error, ErrorView, IoKind};
use crate::packet::{Packet, PacketView};
use crate::text::{option_view, views};
use crate::wire::{signed32, to_signed32};
use crate::NO_SOCKET;

verus! {

/// How long to wait before a write is tried again on a connected socket, in microseconds
pub const CONNECTED_RETRY_MICROS: u64 = 1000;

/// How long to wait before a write is tried again without a socket, in microseconds
pub const DISCONNECTED_RETRY_MICROS: u64 = 100_000;

/// Whether a connection that failed with the error can be recovered.
pub open spec fn is_skippable(e: ErrorView) -> bool {
    match e {
        ErrorView::Io(kind, _) => kind != IoKind::Interrupted && kind != IoKind::Other,
        ErrorView::Nix(errno, _) => errno != Errno::Other,
        ErrorView::ConnectionClosed => true,
        _ => false,
    }
}

/// Check if an error is skippable (connection can be recovered)
pub fn is_skippable_error(err: &Error) -> (r: bool)
    ensures
        r == is_skippable(err@),
{
    match err {
        Error::Io(e) => match e.kind {
            IoKind::WouldBlock
            | IoKind::ConnectionReset
            | IoKind::TimedOut
            | IoKind::BrokenPipe
            | IoKind::NotConnected
            | IoKind::ConnectionAborted => true,
            IoKind::Interrupted | IoKind::Other => false,
        },
        Error::Nix(e) => match e.errno {
            Errno::Again
            | Errno::ConnReset
            | Errno::TimedOut
            | Errno::HostUnreach
            | Errno::Pipe
            | Errno::NotConn
            | Errno::ConnAborted
            | Errno::BadF => true,
            Errno::Other => false,
        },
        Error::ConnectionClosed => true,
        _ => false,
    }
}

/// Represents a buffered client/server connection with automatic recovery
pub struct Connection {
    /// Logical identifier for this connection
    id: String,
    /// Shared secret key used to seed per-direction crypto handlers
    key: Vec<u8>,
    /// Reader that understands reconnect buffers
    reader: Option<BackedReader>,
    /// Writer that records packets for replay on reconnect
    writer: Option<BackedWriter>,
    /// Active socket descriptor, -1 when no connection exists
    socket_fd: i32,
    /// Flag that is set when shutdown has been called
    shutting_down: bool,
}

/// The state of a [`Connection`].
pub struct ConnectionView {
    /// Logical identifier for this connection
    pub id: Seq<char>,
    /// Shared secret key
    pub key: Seq<u8>,
    /// State of the reader, once there is one
    pub reader: Option<ReaderView>,
    /// State of the writer, once there is one
    pub writer: Option<WriterView>,
    /// Active socket descriptor, -1 when no connection exists
    pub fd: i32,
    /// Whether shutdown has been called
    pub shutting_down: bool,
}

/// What a read needs next
#[derive(Debug)]
pub enum ConnectionRead {
    /// The read is over; a socket in `close` is to be closed
    Finished { result: Result<Option<Packet>, Error>, close: Option<i32> },
    /// Up to `count` bytes are to be read from `fd` and handed to `received`
    Receive { fd: i32, count: usize },
}

/// What a [`ConnectionRead`] says.
pub enum ConnectionReadView {
    Finished { result: Result<Option<PacketView>, ErrorView>, close: Option<i32> },
    Receive { fd: i32, count: int },
}

impl View for ConnectionRead {
    type V = ConnectionReadView;

    open spec fn view(&self) -> ConnectionReadView {
        match *self {
            ConnectionRead::Finished { result, close } => ConnectionReadView::Finished {
                result: read_view(result),
                close,
            },
            ConnectionRead::Receive { fd, count } => ConnectionReadView::Receive {
                fd,
                count: count as int,
            },
        }
    }
}

/// What a write needs next
#[derive(Debug)]
pub enum ConnectionWrite {
    /// The write is over; a socket in `close` is to be closed
    Finished { written: bool, close: Option<i32> },
    /// The rest of the message is to be written to `fd`, and the outcome handed to `sent`
    Send { fd: i32, pending: PendingWrite },
    /// The caller is to wait and then to go on with `resume`
    Wait { micros: u64, pending: PendingWrite },
}

/// What a [`ConnectionWrite`] says.
pub enum ConnectionWriteView {
    Finished { written: bool, close: Option<i32> },
    Send { fd: i32, pending: PendingView },
    Wait { micros: u64, pending: PendingView },
}

impl View for ConnectionWrite {
    type V = ConnectionWriteView;

    open spec fn view(&self) -> ConnectionWriteView {
        match *self {
            ConnectionWrite::Finished { written, close } => ConnectionWriteView::Finished {
                written,
                close,
            },
            ConnectionWrite::Send { fd, pending } => ConnectionWriteView::Send {
                fd,
                pending: pending@,
            },
            ConnectionWrite::Wait { micros, pending } => ConnectionWriteView::Wait {
                micros,
                pending: pending@,
            },
        }
    }
}

impl ConnectionWriteView {
    /// The message that the step carries has bytes left to send.
    pub open spec fn wf(self) -> bool {
        match self {
            ConnectionWriteView::Finished { .. } => true,
            ConnectionWriteView::Send { fd, pending } => fd >= 0 && pending.wf(),
            ConnectionWriteView::Wait { pending, .. } => pending.wf(),
        }
    }
}

/// What a repeated write needs next
#[derive(Debug)]
pub enum PacketWrite {
    /// The packet is on its way, or the connection shuts down; a socket in `close` is to be
    /// closed
    Done { close: Option<i32> },
    /// The caller is to wait and then to start again with `write_packet`
    Retry { micros: u64 },
    /// The rest of the message is to be written to `fd`, and the outcome handed to
    /// `packet_sent`
    Send { fd: i32, pending: PendingWrite },
    /// The caller is to wait and then to go on with `packet_resume`
    Wait { micros: u64, pending: PendingWrite },
}

/// What a [`PacketWrite`] says.
pub enum PacketWriteView {
    Done { close: Option<i32> },
    Retry { micros: u64 },
    Send { fd: i32, pending: PendingView },
    Wait { micros: u64, pending: PendingView },
}

impl View for PacketWrite {
    type V = PacketWriteView;

    open spec fn view(&self) -> PacketWriteView {
        match *self {
            PacketWrite::Done { close } => PacketWriteView::Done { close },
            PacketWrite::Retry { micros } => PacketWriteView::Retry { micros },
            PacketWrite::Send { fd, pending } => PacketWriteView::Send { fd, pending: pending@ },
            PacketWrite::Wait { micros, pending } => PacketWriteView::Wait {
                micros,
                pending: pending@,
            },
        }
    }
}

impl PacketWriteView {
    /// The message that the step carries has bytes left to send.
    pub open spec fn wf(self) -> bool {
        match self {
            PacketWriteView::Done { .. } | PacketWriteView::Retry { .. } => true,
            PacketWriteView::Send { fd, pending } => fd >= 0 && pending.wf(),
            PacketWriteView::Wait { pending, .. } => pending.wf(),
        }
    }
}

impl ConnectionView {
    /// What holds of every connection: its reader and its writer are in order.
    pub open spec fn wf(self) -> bool {
        &&& self.reader matches Some(reader) ==> reader.wf()
        &&& self.writer matches Some(writer) ==> writer.wf()
    }

    /// The state of a connection that has never had a socket.
    pub open spec fn fresh(id: Seq<char>, key: Seq<u8>) -> ConnectionView {
        ConnectionView {
            id,
            key,
            reader: None,
            writer: None,
            fd: NO_SOCKET,
            shutting_down: false,
        }
    }

    /// The state once the socket is given up, and the descriptor to close. Without a socket
    /// nothing happens.
    pub open spec fn closed(self) -> (ConnectionView, Option<i32>) {
        if self.fd == NO_SOCKET {
            (self, None)
        } else {
            (
                ConnectionView {
                    reader: match self.reader {
                        Some(reader) => Some(ReaderView { fd: NO_SOCKET, ..reader }),
                        None => None,
                    },
                    writer: match self.writer {
                        Some(writer) => Some(WriterView { fd: NO_SOCKET, ..writer }),
                        None => None,
                    },
                    fd: NO_SOCKET,
                    ..self
                },
                Some(self.fd),
            )
        }
    }

    /// The state with a fresh reader and writer on socket `fd`, given whether the sodium library
    /// was ready for each. The reader takes `nonce_msb`, the writer that of the other direction.
    pub open spec fn initialized(
        self,
        reader_ready: bool,
        writer_ready: bool,
        fd: i32,
        nonce_msb: u8,
    ) -> (ConnectionView, Result<(), ErrorView>) {
        match handler_for(reader_ready, self.key, nonce_msb) {
            Err(e) => (self, Err(e)),
            Ok(reader_crypto) => match handler_for(
                writer_ready,
                self.key,
                opposite_msb(nonce_msb),
            ) {
                Err(e) => (self, Err(e)),
                Ok(writer_crypto) => (
                    ConnectionView {
                        reader: Some(
                            ReaderView {
                                crypto: reader_crypto,
                                fd,
                                sequence_number: 0,
                                local: Seq::empty(),
                                partial: Seq::empty(),
                            },
                        ),
                        writer: Some(
                            WriterView {
                                crypto: writer_crypto,
                                fd,
                                backup: Seq::empty(),
                                backup_size: 0,
                                sequence_number: 0,
                                origin: writer_crypto,
                                written: Seq::empty(),
                            },
                        ),
                        fd,
                        ..self
                    },
                    Ok(()),
                ),
            },
        }
    }

    /// What a step of the reader means for the connection: an error that can be recovered from
    /// closes the socket and counts as no packet.
    pub open spec fn read_settled(self, reader: ReaderView, step: ReadStepView) -> (
        ConnectionView,
        ConnectionReadView,
    ) {
        let state = ConnectionView { reader: Some(reader), ..self };
        match step {
            ReadStepView::Receive { fd, count } => (
                state,
                ConnectionReadView::Receive { fd, count },
            ),
            ReadStepView::Finished(Err(e)) => if is_skippable(e) {
                let (state, close) = state.closed();
                (state, ConnectionReadView::Finished { result: Ok(None), close })
            } else {
                (state, ConnectionReadView::Finished { result: Err(e), close: None })
            },
            ReadStepView::Finished(result) => (
                state,
                ConnectionReadView::Finished { result, close: None },
            ),
        }
    }

    /// The start of a read. A connection that is not initialized has nothing to read.
    pub open spec fn read_begun(self) -> (ConnectionView, ConnectionReadView) {
        match self.reader {
            None => (self, ConnectionReadView::Finished { result: Ok(None), close: None }),
            Some(reader) => {
                let (reader, step) = reader.read_begun();
                self.read_settled(reader, step)
            },
        }
    }

    /// The start of a read on a connection that may be shutting down.
    pub open spec fn packet_read_begun(self) -> (ConnectionView, ConnectionReadView) {
        if self.shutting_down {
            (self, ConnectionReadView::Finished { result: Ok(None), close: None })
        } else {
            self.read_begun()
        }
    }

    /// What a step of the writer means for the connection: a write that failed half-way closes
    /// the socket and counts as written, and one that was skipped or refused does neither.
    pub open spec fn write_settled(self, step: WriteStepView) -> (
        ConnectionView,
        ConnectionWriteView,
    ) {
        match step {
            WriteStepView::Send { fd, pending } => (
                self,
                ConnectionWriteView::Send { fd, pending },
            ),
            WriteStepView::Wait { micros, pending } => (
                self,
                ConnectionWriteView::Wait { micros, pending },
            ),
            WriteStepView::Finished(WriteState::Skipped)
            | WriteStepView::Finished(WriteState::Refused) => (
                self,
                ConnectionWriteView::Finished { written: false, close: None },
            ),
            WriteStepView::Finished(WriteState::Success) => (
                self,
                ConnectionWriteView::Finished { written: true, close: None },
            ),
            WriteStepView::Finished(WriteState::WroteWithFailure) => {
                let (state, close) = self.closed();
                (state, ConnectionWriteView::Finished { written: true, close })
            },
        }
    }

    /// The start of a write. Without a socket or a writer nothing is written.
    pub open spec fn write_begun(self, packet: PacketView) -> (
        ConnectionView,
        ConnectionWriteView,
    ) {
        if self.fd == NO_SOCKET {
            (self, ConnectionWriteView::Finished { written: false, close: None })
        } else {
            match self.writer {
                None => (self, ConnectionWriteView::Finished { written: false, close: None }),
                Some(writer) => {
                    let (writer, step) = writer.write_begun(packet);
                    (ConnectionView { writer: Some(writer), ..self }).write_settled(step)
                },
            }
        }
    }

    /// What a step of one write means for a write that is repeated until it succeeds.
    pub open spec fn packet_write_settled(self, step: ConnectionWriteView) -> PacketWriteView {
        match step {
            ConnectionWriteView::Finished { written, close } => if written {
                PacketWriteView::Done { close }
            } else {
                PacketWriteView::Retry {
                    micros: if self.fd != NO_SOCKET {
                        CONNECTED_RETRY_MICROS
                    } else {
                        DISCONNECTED_RETRY_MICROS
                    },
                }
            },
            ConnectionWriteView::Send { fd, pending } => PacketWriteView::Send { fd, pending },
            ConnectionWriteView::Wait { micros, pending } => PacketWriteView::Wait {
                micros,
                pending,
            },
        }
    }

    /// The start of a write that is repeated until it succeeds or the connection shuts down.
    pub open spec fn packet_write_begun(self, packet: PacketView) -> (
        ConnectionView,
        PacketWriteView,
    ) {
        if self.shutting_down {
            (self, PacketWriteView::Done { close: None })
        } else {
            let (state, step) = self.write_begun(packet);
            (state, state.packet_write_settled(step))
        }
    }

    /// What starting a recovery results in: the low 32 bits of the count of packets received,
    /// as a signed number.
    pub open spec fn recovery_begun(self) -> Result<i32, ErrorView> {
        match (self.reader, self.writer) {
            (None, _) => Err(ErrorView::Recovery("Reader not initialized"@)),
            (Some(_), None) => Err(ErrorView::Recovery("Writer not initialized"@)),
            (Some(reader), Some(_)) => Ok(
                signed32((reader.sequence_number % 0x1_0000_0000) as nat) as i32,
            ),
        }
    }

    /// The state on a new socket, with the packets that the peer sent again to be replayed.
    pub open spec fn resumed_on(self, fd: i32, catchup: Seq<Seq<u8>>) -> ConnectionView {
        ConnectionView {
            reader: Some(self.reader->0.revived(fd, catchup)),
            writer: Some(WriterView { fd, ..self.writer->0 }),
            fd,
            ..self
        }
    }

    /// Whether the writer, if there is one, can take one more packet of the given size.
    pub open spec fn can_take(self, packet: PacketView) -> bool {
        &&& self.writer matches Some(writer) ==> writer.sequence_number < i64::MAX
        &&& packet.len() + MACBYTES + 4 <= isize::MAX
        &&& packet.len() + MACBYTES + MAX_BACKUP_BYTES <= i64::MAX
    }
}

/// The most significant nonce byte of the direction opposite to that of `nonce_msb`.
pub open spec fn opposite_msb(nonce_msb: u8) -> u8 {
    if nonce_msb == 0 {
        1
    } else {
        0
    }
}

impl ConnectionView {
    /// Whether the reader and the writer come together, and are on the socket of the connection.
    pub open spec fn on_one_socket(self) -> bool {
        &&& self.reader is Some <==> self.writer is Some
        &&& self.reader matches Some(reader) ==> reader.fd == self.fd
        &&& self.writer matches Some(writer) ==> writer.fd == self.fd
    }
}

/// Whatever happens to a connection, its reader, its writer and the connection itself stay on the
/// same socket.
pub proof fn law_reader_and_writer_share_the_socket(
    connection: ConnectionView,
    fd: i32,
    nonce_msb: u8,
    outcome: Result<Seq<u8>, ErrorView>,
    packet: PacketView,
    step: WriteStepView,
    catchup: Seq<Seq<u8>>,
)
    requires
        connection.on_one_socket(),
    ensures
        ConnectionView::fresh(connection.id, connection.key).on_one_socket(),
        connection.initialized(true, true, fd, nonce_msb).0.on_one_socket(),
        connection.closed().0.on_one_socket(),
        connection.read_begun().0.on_one_socket(),
        connection.reader matches Some(reader) ==> {
            let (reader, read) = reader.outcome_received(outcome);
            connection.read_settled(reader, read).0.on_one_socket()
        },
        connection.write_begun(packet).0.on_one_socket(),
        connection.write_settled(step).0.on_one_socket(),
        connection.reader is Some ==> connection.resumed_on(fd, catchup).on_one_socket(),
{
}

/// A connection that was shut down has no socket, reads nothing and accepts nothing to write.
pub proof fn law_shut_down_connection_is_idle(connection: ConnectionView, packet: PacketView)
    ensures
        ({
            let (after, _) = (ConnectionView { shutting_down: true, ..connection }).closed();
            &&& after.fd == NO_SOCKET
            &&& after.packet_read_begun() == (
                after,
                ConnectionReadView::Finished { result: Ok(None), close: None },
            )
            &&& after.packet_write_begun(packet) == (after, PacketWriteView::Done { close: None })
        }),
{
}

/// A socket is given up once: giving it up again changes nothing and asks for nothing to be
/// closed.
pub proof fn law_socket_is_closed_once(connection: ConnectionView)
    ensures
        connection.closed().0.closed() == (connection.closed().0, None::<i32>),
        connection.closed().1 == if connection.fd == NO_SOCKET {
            None
        } else {
            Some(connection.fd)
        },
{
}

impl View for Connection {
    type V = ConnectionView;

    closed spec fn view(&self) -> ConnectionView {
        ConnectionView {
            id: self.id@,
            key: self.key@,
            reader: option_view(self.reader),
            writer: option_view(self.writer),
            fd: self.socket_fd,
            shutting_down: self.shutting_down,
        }
    }
}

impl Connection {
    /// Creates a new connection with the given id and key, whose bytes are those of the text.
    pub fn new(id: &str, key: &str) -> (r: Connection)
        ensures
            r@ == ConnectionView::fresh(id@, encode_utf8(key@)),
            r@.wf(),
    {
        Connection::with_key(id, slice_to_vec(key.as_bytes()))
    }

    /// Creates a new connection with the given id and the bytes of a key.
    pub fn with_key(id: &str, key: Vec<u8>) -> (r: Connection)
        ensures
            r@ == ConnectionView::fresh(id@, key@),
            r@.wf(),
    {
        Connection {
            id: id.to_owned(),
            key,
            reader: None,
            writer: None,
            socket_fd: NO_SOCKET,
            shutting_down: false,
        }
    }

    /// Initialize the reader and writer with the given socket fd
    ///
    /// # Arguments
    /// * `nonce_msb` - Nonce MSB of the direction that is read; the writer takes the other one
    pub fn initialize(&mut self, socket_fd: i32, nonce_msb: u8) -> (r: Result<(), Error>)
        requires
            old(self)@.wf(),
        ensures
            exists|reader_ready: bool, writer_ready: bool|
                (final(self)@, outcome_view(r)) == #[trigger] old(self)@.initialized(
                    reader_ready,
                    writer_ready,
                    socket_fd,
                    nonce_msb,
                ),
            final(self)@.wf(),
    {
        let reader_ready = sodium_init();
        let writer_ready = sodium_init();
        let r = self.initialize_with_sodium(reader_ready, writer_ready, socket_fd, nonce_msb);
        assert((self@, outcome_view(r)) == old(self)@.initialized(
            reader_ready,
            writer_ready,
            socket_fd,
            nonce_msb,
        ));
        r
    }

    /// Initialize the reader and writer once `sodiumoxide::init` has been called for each;
    /// `reader_ready` and `writer_ready` are whether it succeeded.
    pub fn initialize_with_sodium(
        &mut self,
        reader_ready: bool,
        writer_ready: bool,
        socket_fd: i32,
        nonce_msb: u8,
    ) -> (r: Result<(), Error>)
        requires
            old(self)@.wf(),
        ensures
            (final(self)@, outcome_view(r)) == old(self)@.initialized(
                reader_ready,
                writer_ready,
                socket_fd,
                nonce_msb,
            ),
            final(self)@.wf(),
    {
        let reader_crypto = match CryptoHandler::with_sodium(
            reader_ready,
            self.key.as_slice(),
            nonce_msb,
        ) {
            Ok(crypto) => crypto,
            Err(e) => {
                return Err(e);
            },
        };
        let writer_msb = if nonce_msb == 0 {
            1
        } else {
            0
        };
        let writer_crypto = match CryptoHandler::with_sodium(
            writer_ready,
            self.key.as_slice(),
            writer_msb,
        ) {
            Ok(crypto) => crypto,
            Err(e) => {
                return Err(e);
            },
        };
        self.reader = Some(BackedReader::new(reader_crypto, socket_fd));
        self.writer = Some(BackedWriter::new(writer_crypto, socket_fd));
        self.socket_fd = socket_fd;
        Ok(())
    }

    /// Starts to read a packet, unless the connection is shutting down
    pub fn read_packet(&mut self) -> (r: ConnectionRead)
        requires
            old(self)@.wf(),
        ensures
            (final(self)@, r@) == old(self)@.packet_read_begun(),
            final(self)@.wf(),
    {
        if self.shutting_down {
            return ConnectionRead::Finished { result: Ok(None), close: None };
        }
        self.read()
    }

    /// Starts to read one packet
    pub fn read(&mut self) -> (r: ConnectionRead)
        requires
            old(self)@.wf(),
        ensures
            (final(self)@, r@) == old(self)@.read_begun(),
            final(self)@.wf(),
    {
        let step = match &mut self.reader {
            Some(reader) => reader.read(),
            None => {
                return ConnectionRead::Finished { result: Ok(None), close: None };
            },
        };
        self.settle_read(step)
    }

    /// Goes on with a read: `outcome` is what the socket gave for the bytes that were wanted.
    pub fn received(&mut self, outcome: Result<Vec<u8>, Error>) -> (r: ConnectionRead)
        requires
            old(self)@.wf(),
            old(self)@.reader matches Some(reader) && reader.sequence_number < i64::MAX && (
            outcome matches Ok(data) ==> data@.len() <= reader.wanted()),
        ensures
            ({
                let (reader, step) = old(self)@.reader->0.outcome_received(result_view(outcome));
                (final(self)@, r@) == old(self)@.read_settled(reader, step)
            }),
            final(self)@.wf(),
    {
        let step = match &mut self.reader {
            Some(reader) => reader.received(outcome),
            None => {
                return ConnectionRead::Finished { result: Ok(None), close: None };
            },
        };
        self.settle_read(step)
    }

    fn settle_read(&mut self, step: ReadStep) -> (r: ConnectionRead)
        requires
            old(self)@.wf(),
            old(self)@.reader is Some,
        ensures
            (final(self)@, r@) == old(self)@.read_settled(old(self)@.reader->0, step@),
            final(self)@.wf(),
    {
        match step {
            ReadStep::Receive { fd, count } => ConnectionRead::Receive { fd, count },
            ReadStep::Finished(Ok(packet)) => ConnectionRead::Finished {
                result: Ok(packet),
                close: None,
            },
            ReadStep::Finished(Err(e)) => {
                if is_skippable_error(&e) {
                    let close = self.close_socket_and_maybe_reconnect();
                    ConnectionRead::Finished { result: Ok(None), close }
                } else {
                    ConnectionRead::Finished { result: Err(e), close: None }
                }
            },
        }
    }

    /// Starts to write a packet, which is repeated until success or shutdown
    pub fn write_packet(&mut self, packet: &Packet) -> (r: PacketWrite)
        requires
            old(self)@.wf(),
            old(self)@.can_take(packet@),
        ensures
            (final(self)@, r@) == old(self)@.packet_write_begun(packet@),
            final(self)@.wf(),
            r@.wf(),
    {
        if self.shutting_down {
            return PacketWrite::Done { close: None };
        }
        let step = self.write(packet);
        self.settle_packet_write(step)
    }

    /// Goes on with a repeated write: `outcome` is how many bytes of the rest the socket took.
    pub fn packet_sent(&mut self, pending: PendingWrite, outcome: Result<usize, Error>) -> (r:
        PacketWrite)
        requires
            old(self)@.wf(),
            pending@.wf(),
            outcome matches Ok(n) ==> n <= pending@.data.len() - pending@.written,
        ensures
            ({
                let (state, step) = old(self)@.write_settled(write_answered(pending@, outcome));
                final(self)@ == state && r@ == state.packet_write_settled(step)
            }),
            final(self)@.wf(),
            r@.wf(),
    {
        let step = self.sent(pending, outcome);
        self.settle_packet_write(step)
    }

    /// Goes on with a repeated write after the wait that a step asked for.
    pub fn packet_resume(&mut self, pending: PendingWrite) -> (r: PacketWrite)
        requires
            old(self)@.wf(),
            old(self)@.writer is Some,
            pending@.wf(),
        ensures
            ({
                let (state, step) = old(self)@.write_settled(
                    old(self)@.writer->0.write_resumed(pending@),
                );
                final(self)@ == state && r@ == state.packet_write_settled(step)
            }),
            final(self)@.wf(),
            r@.wf(),
    {
        let step = self.resume(pending);
        self.settle_packet_write(step)
    }

    fn settle_packet_write(&self, step: ConnectionWrite) -> (r: PacketWrite)
        requires
            step@.wf(),
        ensures
            r@ == self@.packet_write_settled(step@),
            r@.wf(),
    {
        match step {
            ConnectionWrite::Finished { written, close } => {
                if written {
                    PacketWrite::Done { close }
                } else if self.socket_fd != NO_SOCKET {
                    PacketWrite::Retry { micros: CONNECTED_RETRY_MICROS }
                } else {
                    PacketWrite::Retry { micros: DISCONNECTED_RETRY_MICROS }
                }
            },
            ConnectionWrite::Send { fd, pending } => PacketWrite::Send { fd, pending },
            ConnectionWrite::Wait { micros, pending } => PacketWrite::Wait { micros, pending },
        }
    }

    /// Starts to write once
    pub fn write(&mut self, packet: &Packet) -> (r: ConnectionWrite)
        requires
            old(self)@.wf(),
            old(self)@.can_take(packet@),
        ensures
            (final(self)@, r@) == old(self)@.write_begun(packet@),
            final(self)@.wf(),
            r@.wf(),
    {
        if self.socket_fd == NO_SOCKET {
            return ConnectionWrite::Finished { written: false, close: None };
        }
        let step = match &mut self.writer {
            Some(writer) => writer.write(packet.clone()),
            None => {
                return ConnectionWrite::Finished { written: false, close: None };
            },
        };
        self.settle_write(step)
    }

    /// Goes on with a write: `outcome` is how many bytes of the rest the socket took.
    pub fn sent(&mut self, pending: PendingWrite, outcome: Result<usize, Error>) -> (r:
        ConnectionWrite)
        requires
            old(self)@.wf(),
            pending@.wf(),
            outcome matches Ok(n) ==> n <= pending@.data.len() - pending@.written,
        ensures
            (final(self)@, r@) == old(self)@.write_settled(write_answered(pending@, outcome)),
            final(self)@.wf(),
            r@.wf(),
    {
        let step = pending.sent(outcome);
        self.settle_write(step)
    }

    /// Goes on with a write after the wait that a step asked for.
    pub fn resume(&mut self, pending: PendingWrite) -> (r: ConnectionWrite)
        requires
            old(self)@.wf(),
            old(self)@.writer is Some,
            pending@.wf(),
        ensures
            (final(self)@, r@) == old(self)@.write_settled(
                old(self)@.writer->0.write_resumed(pending@),
            ),
            final(self)@.wf(),
            r@.wf(),
    {
        let step = match &self.writer {
            Some(writer) => writer.resume(pending),
            None => WriteStep::Finished(WriteState::WroteWithFailure),
        };
        self.settle_write(step)
    }

    fn settle_write(&mut self, step: WriteStep) -> (r: ConnectionWrite)
        requires
            old(self)@.wf(),
            step@.wf(),
        ensures
            (final(self)@, r@) == old(self)@.write_settled(step@),
            final(self)@.wf(),
            r@.wf(),
    {
        match step {
            WriteStep::Send { fd, pending } => ConnectionWrite::Send { fd, pending },
            WriteStep::Wait { micros, pending } => ConnectionWrite::Wait { micros, pending },
            WriteStep::Finished(WriteState::Skipped)
            | WriteStep::Finished(WriteState::Refused) => ConnectionWrite::Finished {
                written: false,
                close: None,
            },
            WriteStep::Finished(WriteState::Success) => ConnectionWrite::Finished {
                written: true,
                close: None,
            },
            WriteStep::Finished(WriteState::WroteWithFailure) => {
                let close = self.close_socket_and_maybe_reconnect();
                ConnectionWrite::Finished { written: true, close }
            },
        }
    }

    /// Get the reader
    pub fn reader(&self) -> (r: Option<&BackedReader>)
        ensures
            match r {
                Some(reader) => self@.reader == Some(reader@),
                None => self@.reader is None,
            },
    {
        self.reader.as_ref()
    }

    /// Get the writer
    pub fn writer(&self) -> (r: Option<&BackedWriter>)
        ensures
            match r {
                Some(writer) => self@.writer == Some(writer@),
                None => self@.writer is None,
            },
    {
        self.writer.as_ref()
    }

    /// File descriptor of the currently connected socket or -1
    pub fn socket_fd(&self) -> (r: i32)
        ensures
            r == self@.fd,
    {
        self.socket_fd
    }

    /// Returns true if disconnected
    pub fn is_disconnected(&self) -> (r: bool)
        ensures
            r == (self@.fd == NO_SOCKET),
    {
        self.socket_fd == NO_SOCKET
    }

    /// Get the connection id
    pub fn id(&self) -> (r: &str)
        ensures
            r@ == self@.id,
    {
        self.id.as_str()
    }

    /// Returns true if there is data to read
    ///
    /// # Arguments
    /// * `socket_readable` - Whether the current socket has data to read
    pub fn has_data(&self, socket_readable: bool) -> (r: bool)
        ensures
            r == (self@.reader matches Some(reader) && (reader.local.len() > 0 || (reader.fd >= 0
                && socket_readable))),
    {
        match &self.reader {
            Some(reader) => reader.has_data(socket_readable),
            None => false,
        }
    }

    /// Gives up the socket and invalidates the reader/writer
    ///
    /// # Returns
    /// The socket that is to be closed, if there was one
    pub fn close_socket(&mut self) -> (r: Option<i32>)
        ensures
            (final(self)@, r) == old(self)@.closed(),
            old(self)@.wf() ==> final(self)@.wf(),
    {
        if self.socket_fd == NO_SOCKET {
            return None;
        }
        if let Some(reader) = &mut self.reader {
            reader.invalidate_socket();
        }
        if let Some(writer) = &mut self.writer {
            writer.invalidate_socket();
        }
        let fd = self.socket_fd;
        self.socket_fd = NO_SOCKET;
        Some(fd)
    }

    /// Gives up the socket and does not reconnect.
    pub fn close_socket_and_maybe_reconnect(&mut self) -> (r: Option<i32>)
        ensures
            (final(self)@, r) == old(self)@.closed(),
            old(self)@.wf() ==> final(self)@.wf(),
    {
        self.close_socket()
    }

    /// Signals that the connection should stop and tears down resources
    ///
    /// # Returns
    /// The socket that is to be closed, if there was one
    pub fn shutdown(&mut self) -> (r: Option<i32>)
        ensures
            (final(self)@, r) == (ConnectionView { shutting_down: true, ..old(self)@ }).closed(),
            old(self)@.wf() ==> final(self)@.wf(),
    {
        self.shutting_down = true;
        self.close_socket()
    }

    /// Starts to exchange sequence headers and catchup buffers with a peer for recovery
    ///
    /// # Returns
    /// The recovery and the sequence number to send to the peer
    pub fn recover(&self, new_socket_fd: i32) -> (r: Result<(Recovery, i32), Error>)
        requires
            self@.wf(),
        ensures
            match (r, self@.recovery_begun()) {
                (Ok((recovery, sequence_number)), Ok(expected)) => {
                    &&& recovery@ == (RecoveryView {
                        stage: RecoveryStage::SendingHeader,
                        fd: new_socket_fd,
                    })
                    &&& sequence_number == expected
                },
                (Err(e), Err(expected)) => e@ == expected,
                _ => false,
            },
    {
        let reader = match &self.reader {
            Some(reader) => reader,
            None => {
                return Err(Error::Recovery("Reader not initialized".to_owned()));
            },
        };
        if self.writer.is_none() {
            return Err(Error::Recovery("Writer not initialized".to_owned()));
        }
        let low_bits: u64 = reader.sequence_number() as u64 % 0x1_0000_0000;
        Ok(
            (
                Recovery { stage: RecoveryStage::SendingHeader, new_socket_fd },
                to_signed32(low_bits),
            ),
        )
    }

    /// The packets that a peer still needs which has received `sequence_number` of them
    fn packets_since(&self, sequence_number: i32) -> (r: Result<Vec<Vec<u8>>, Error>)
        requires
            self@.wf(),
            self@.writer matches Some(writer) && writer.sequence_number <= i64::MAX - 0x8000_0000,
        ensures
            match (r, self@.writer->0.recovered(sequence_number as int)) {
                (Ok(packets), Ok(expected)) => views(packets@) == expected,
                (Err(e), Err(expected)) => e@ == expected,
                _ => false,
            },
    {
        match &self.writer {
            Some(writer) => writer.recover(sequence_number as i64),
            None => Err(Error::Recovery("Writer not initialized".to_owned())),
        }
    }

    /// Resumes on a new socket, with the packets that the peer sent again
    fn resume_on(&mut self, new_socket_fd: i32, catchup: Vec<Vec<u8>>)
        requires
            old(self)@.wf(),
            old(self)@.reader matches Some(reader) && reader.sequence_number + catchup@.len()
                <= i64::MAX,
            old(self)@.writer is Some,
        ensures
            final(self)@ == old(self)@.resumed_on(new_socket_fd, views(catchup@)),
            final(self)@.wf(),
    {
        self.socket_fd = new_socket_fd;
        if let Some(reader) = &mut self.reader {
            reader.revive(new_socket_fd, catchup);
        }
        if let Some(writer) = &mut self.writer {
            writer.revive(new_socket_fd);
        }
    }

    /// Returns true if the connection is shutting down
    pub fn is_shutting_down(&self) -> (r: bool)
        ensures
            r == self@.shutting_down,
    {
        self.shutting_down
    }
}

/// How far a recovery has come
#[derive(Debug, Clone, Copy, PartialEq, Eq, Structural)]
pub enum RecoveryStage {
    /// The own sequence number is being sent
    SendingHeader,
    /// The sequence number of the peer is awaited
    AwaitingHeader,
    /// The packets that the peer lacks are being sent
    SendingCatchup,
    /// The packets that the peer sends again are awaited
    AwaitingCatchup,
    /// The recovery is over
    Over,
}

/// A recovery under way
#[derive(Debug)]
pub struct Recovery {
    stage: RecoveryStage,
    new_socket_fd: i32,
}

/// The state of a [`Recovery`].
pub struct RecoveryView {
    /// How far it has come
    pub stage: RecoveryStage,
    /// The new socket
    pub fd: i32,
}

impl View for Recovery {
    type V = RecoveryView;

    closed spec fn view(&self) -> RecoveryView {
        RecoveryView { stage: self.stage, fd: self.new_socket_fd }
    }
}

/// What came of the latest exchange with the peer
#[derive(Debug)]
pub enum RecoveryEvent {
    /// The message was sent, or not
    Sent(Result<(), Error>),
    /// The peer gave its sequence number, or not
    SequenceHeader(Result<i32, Error>),
    /// The peer sent packets again, or not
    CatchupBuffer(Result<Vec<Vec<u8>>, Error>),
}

/// What a recovery needs next
#[derive(Debug)]
pub enum RecoveryStep {
    /// The sequence number of the peer is to be read
    AwaitSequenceHeader,
    /// These packets are to be sent to the peer
    SendCatchup(Vec<Vec<u8>>),
    /// The packets that the peer sends again are to be read
    AwaitCatchup,
    /// The recovery is over
    Finished(Result<bool, Error>),
}

/// What a [`RecoveryEvent`] says.
pub enum RecoveryEventView {
    Sent(Result<(), ErrorView>),
    SequenceHeader(Result<i32, ErrorView>),
    CatchupBuffer(Result<Seq<Seq<u8>>, ErrorView>),
}

/// What a [`RecoveryStep`] says.
pub enum RecoveryStepView {
    AwaitSequenceHeader,
    SendCatchup(Seq<Seq<u8>>),
    AwaitCatchup,
    Finished(Result<bool, ErrorView>),
}

impl View for RecoveryEvent {
    type V = RecoveryEventView;

    open spec fn view(&self) -> RecoveryEventView {
        match *self {
            RecoveryEvent::Sent(r) => RecoveryEventView::Sent(outcome_view(r)),
            RecoveryEvent::SequenceHeader(r) => RecoveryEventView::SequenceHeader(outcome_view(r)),
            RecoveryEvent::CatchupBuffer(Ok(packets)) => RecoveryEventView::CatchupBuffer(
                Ok(views(packets@)),
            ),
            RecoveryEvent::CatchupBuffer(Err(e)) => RecoveryEventView::CatchupBuffer(Err(e@)),
        }
    }
}

impl View for RecoveryStep {
    type V = RecoveryStepView;

    open spec fn view(&self) -> RecoveryStepView {
        match *self {
            RecoveryStep::AwaitSequenceHeader => RecoveryStepView::AwaitSequenceHeader,
            RecoveryStep::SendCatchup(packets) => RecoveryStepView::SendCatchup(views(packets@)),
            RecoveryStep::AwaitCatchup => RecoveryStepView::AwaitCatchup,
            RecoveryStep::Finished(r) => RecoveryStepView::Finished(outcome_view(r)),
        }
    }
}

impl RecoveryView {
    /// Whether `event` is what the recovery waits for.
    pub open spec fn awaits(self, event: RecoveryEventView) -> bool {
        match self.stage {
            RecoveryStage::SendingHeader | RecoveryStage::SendingCatchup => event is Sent,
            RecoveryStage::AwaitingHeader => event is SequenceHeader,
            RecoveryStage::AwaitingCatchup => event is CatchupBuffer,
            RecoveryStage::Over => false,
        }
    }

    /// The next stage of the recovery, the state of the connection and what is needed next. The
    /// first failure ends the recovery; the connection changes only when the last exchange has
    /// succeeded.
    pub open spec fn next(self, connection: ConnectionView, event: RecoveryEventView) -> (
        RecoveryView,
        ConnectionView,
        RecoveryStepView,
    ) {
        let over = RecoveryView { stage: RecoveryStage::Over, ..self };
        match event {
            RecoveryEventView::Sent(Err(e))
            | RecoveryEventView::SequenceHeader(Err(e))
            | RecoveryEventView::CatchupBuffer(Err(e)) => (
                over,
                connection,
                RecoveryStepView::Finished(Err(e)),
            ),
            RecoveryEventView::Sent(Ok(_)) => if self.stage == RecoveryStage::SendingHeader {
                (
                    RecoveryView { stage: RecoveryStage::AwaitingHeader, ..self },
                    connection,
                    RecoveryStepView::AwaitSequenceHeader,
                )
            } else {
                (
                    RecoveryView { stage: RecoveryStage::AwaitingCatchup, ..self },
                    connection,
                    RecoveryStepView::AwaitCatchup,
                )
            },
            RecoveryEventView::SequenceHeader(Ok(remote)) => match connection.writer->0.recovered(
                remote as int,
            ) {
                Ok(packets) => (
                    RecoveryView { stage: RecoveryStage::SendingCatchup, ..self },
                    connection,
                    RecoveryStepView::SendCatchup(packets),
                ),
                Err(e) => (over, connection, RecoveryStepView::Finished(Err(e))),
            },
            RecoveryEventView::CatchupBuffer(Ok(packets)) => (
                over,
                connection.resumed_on(self.fd, packets),
                RecoveryStepView::Finished(Ok(true)),
            ),
        }
    }
}

impl Recovery {
    /// Goes on with the recovery of `connection`
    pub fn step(&mut self, connection: &mut Connection, event: RecoveryEvent) -> (r: RecoveryStep)
        requires
            old(connection)@.wf(),
            old(self)@.awaits(event@),
            old(connection)@.reader is Some,
            old(connection)@.writer is Some,
            old(connection)@.writer->0.sequence_number <= i64::MAX - 0x8000_0000,
            event@ matches RecoveryEventView::CatchupBuffer(Ok(packets)) ==> old(
                connection,
            )@.reader->0.sequence_number + packets.len() <= i64::MAX,
        ensures
            (final(self)@, final(connection)@, r@) == old(self)@.next(old(connection)@, event@),
            final(connection)@.wf(),
    {
        match event {
            RecoveryEvent::Sent(Err(e))
            | RecoveryEvent::SequenceHeader(Err(e))
            | RecoveryEvent::CatchupBuffer(Err(e)) => {
                self.stage = RecoveryStage::Over;
                RecoveryStep::Finished(Err(e))
            },
            RecoveryEvent::Sent(Ok(_)) => {
                if self.stage == RecoveryStage::SendingHeader {
                    self.stage = RecoveryStage::AwaitingHeader;
                    RecoveryStep::AwaitSequenceHeader
                } else {
                    self.stage = RecoveryStage::AwaitingCatchup;
                    RecoveryStep::AwaitCatchup
                }
            },
            RecoveryEvent::SequenceHeader(Ok(remote)) => {
                match connection.packets_since(remote) {
                    Ok(packets) => {
                        self.stage = RecoveryStage::SendingCatchup;
                        RecoveryStep::SendCatchup(packets)
                    },
                    Err(e) => {
                        self.stage = RecoveryStage::Over;
                        RecoveryStep::Finished(Err(e))
                    },
                }
            },
            RecoveryEvent::CatchupBuffer(Ok(packets)) => {
                connection.resume_on(self.new_socket_fd, packets);
                self.stage = RecoveryStage::Over;
                RecoveryStep::Finished(Ok(true))
            },
        }
    }
}

/// What ends a read: a failure that the network can have by itself gives the socket up and counts
/// as no packet; any other failure is handed on, and leaves the socket as it is, like a packet.
pub proof fn law_network_failure_gives_the_socket_up(
    connection: ConnectionView,
    reader: ReaderView,
    text: Seq<char>,
    other: ErrorView,
    packet: Option<PacketView>,
    count: int,
)
    requires
        other is Crypto || other is Protocol || other is Connection || other is Socket
            || other is InvalidKeyLength || other is DecryptionFailed || other is InvalidPacket
            || other is InvalidMessageSize || other is Protobuf || other is Timeout
            || other is ClientTooFarBehind || other is Recovery || other is AddressResolution
            || other == ErrorView::Io(IoKind::Interrupted, text) || other == ErrorView::Io(
            IoKind::Other,
            text,
        ) || other == ErrorView::Nix(Errno::Other, text),
    ensures
        forall|lost: ErrorView|
            {
                ||| lost is ConnectionClosed
                ||| lost == ErrorView::Io(IoKind::WouldBlock, text)
                ||| lost == ErrorView::Io(IoKind::ConnectionReset, text)
                ||| lost == ErrorView::Io(IoKind::TimedOut, text)
                ||| lost == ErrorView::Io(IoKind::BrokenPipe, text)
                ||| lost == ErrorView::Io(IoKind::NotConnected, text)
                ||| lost == ErrorView::Io(IoKind::ConnectionAborted, text)
                ||| lost == ErrorView::Nix(Errno::Again, text)
                ||| lost == ErrorView::Nix(Errno::ConnReset, text)
                ||| lost == ErrorView::Nix(Errno::TimedOut, text)
                ||| lost == ErrorView::Nix(Errno::HostUnreach, text)
                ||| lost == ErrorView::Nix(Errno::Pipe, text)
                ||| lost == ErrorView::Nix(Errno::NotConn, text)
                ||| lost == ErrorView::Nix(Errno::ConnAborted, text)
                ||| lost == ErrorView::Nix(Errno::BadF, text)
            } ==> {
                let (after, step) = #[trigger] connection.read_settled(
                    reader,
                    ReadStepView::Finished(Err(lost)),
                );
                &&& after == (ConnectionView { reader: Some(reader), ..connection }).closed().0
                &&& after.fd == -1
                &&& step is Finished && step->result == Ok::<Option<PacketView>, ErrorView>(None)
                &&& step->close == if connection.fd == -1 {
                    None
                } else {
                    Some(connection.fd)
                }
            },
        ({
            let (after, step) = connection.read_settled(
                reader,
                ReadStepView::Finished(Err(other)),
            );
            &&& after == (ConnectionView { reader: Some(reader), ..connection })
            &&& step == (ConnectionReadView::Finished { result: Err(other), close: None })
        }),
        ({
            let (after, step) = connection.read_settled(
                reader,
                ReadStepView::Finished(Ok(packet)),
            );
            &&& after == (ConnectionView { reader: Some(reader), ..connection })
            &&& step == (ConnectionReadView::Finished { result: Ok(packet), close: None })
        }),
        connection.read_settled(
            reader,
            ReadStepView::Receive { fd: reader.fd, count },
        ) == (
            ConnectionView { reader: Some(reader), ..connection },
            ConnectionReadView::Receive { fd: reader.fd, count },
        ),
{
}

/// Giving a socket up keeps all else: what was received, what is to be replayed, what is backed
/// up and the state of the cryptography of both directions.
pub proof fn law_closing_keeps_the_state(connection: ConnectionView)
    ensures
        ({
            let (after, close) = connection.closed();
            &&& after.fd == -1
            &&& connection.fd == -1 ==> after == connection
            &&& close is Some <==> connection.fd != -1
            &&& close matches Some(fd) ==> fd == connection.fd
            &&& after.id == connection.id && after.key == connection.key
            &&& after.shutting_down == connection.shutting_down
            &&& after.reader is Some <==> connection.reader is Some
            &&& after.writer is Some <==> connection.writer is Some
            &&& connection.reader matches Some(reader) ==> {
                &&& after.reader->0.crypto == reader.crypto
                &&& after.reader->0.sequence_number == reader.sequence_number
                &&& after.reader->0.local == reader.local
                &&& after.reader->0.partial == reader.partial
                &&& connection.fd != -1 ==> after.reader->0.fd == -1
            }
            &&& connection.writer matches Some(writer) ==> {
                &&& after.writer->0.crypto == writer.crypto
                &&& after.writer->0.sequence_number == writer.sequence_number
                &&& after.writer->0.backup == writer.backup
                &&& after.writer->0.written == writer.written
                &&& connection.fd != -1 ==> after.writer->0.fd == -1
            }
        }),
{
}

/// A packet counts as written once it is backed up, even where the socket then fails, which gives
/// the socket up. Without a socket, or before there is a writer, nothing is written. A write that
/// did not come about is tried again, sooner on a connection with a socket.
pub proof fn law_unwritten_packet_is_tried_again(connection: ConnectionView, packet: PacketView)
    requires
        !connection.shutting_down,
    ensures
        connection.fd == -1 ==> connection.packet_write_begun(packet) == (
            connection,
            PacketWriteView::Retry { micros: 100_000 },
        ),
        connection.fd != -1 && (connection.writer is None || connection.writer->0.fd < 0
            || packet.encrypted) ==> connection.packet_write_begun(packet) == (
            connection,
            PacketWriteView::Retry { micros: 1000 },
        ),
        connection.fd != -1 && connection.writer is Some && connection.writer->0.fd >= 0
            && !packet.encrypted ==> {
            let (after, step) = connection.packet_write_begun(packet);
            &&& step is Send && step->Send_fd == connection.writer->0.fd
            &&& step->Send_pending.written == 0
            &&& after.writer is Some
            &&& after.writer->0.written == connection.writer->0.written.push(packet)
            &&& after.reader == connection.reader && after.fd == connection.fd
        },
        ({
            let done = connection.write_settled(WriteStepView::Finished(WriteState::Success));
            let failed = connection.write_settled(
                WriteStepView::Finished(WriteState::WroteWithFailure),
            );
            &&& done.0 == connection
            &&& done.0.packet_write_settled(done.1) == (PacketWriteView::Done { close: None })
            &&& failed.0.fd == -1
            &&& failed.0.packet_write_settled(failed.1) == (PacketWriteView::Done {
                close: if connection.fd == -1 {
                    None
                } else {
                    Some(connection.fd)
                },
            })
        }),
{
}

/// A message that the socket took in part is sent on from where the socket stopped, after a wait
/// of a millisecond, as long as there is a socket; the bytes stay the same.
pub proof fn law_partial_write_goes_on(
    connection: ConnectionView,
    pending: PendingView,
    taken: usize,
    error: Error,
)
    requires
        connection.writer is Some,
        pending.wf(),
        taken <= pending.data.len() - pending.written,
    ensures
        ({
            let (after, step) = connection.write_settled(write_answered(pending, Ok(taken)));
            let turn = after.packet_write_settled(step);
            &&& after == connection
            &&& taken == pending.data.len() - pending.written ==> turn == (PacketWriteView::Done {
                close: None,
            })
            &&& taken < pending.data.len() - pending.written ==> {
                let rest = PendingView { data: pending.data, written: pending.written + taken };
                &&& turn == (PacketWriteView::Wait { micros: 1000, pending: rest })
                &&& rest.data.skip(rest.written) == pending.data.skip(pending.written).skip(
                    taken as int,
                )
            }
        }),
        ({
            let (after, step) = connection.write_settled(
                connection.writer->0.write_resumed(pending),
            );
            let turn = after.packet_write_settled(step);
            &&& connection.writer->0.fd >= 0 ==> after == connection && turn
                == (PacketWriteView::Send { fd: connection.writer->0.fd, pending })
            &&& connection.writer->0.fd < 0 ==> turn is Done && after.fd == -1
        }),
        ({
            let (after, step) = connection.write_settled(write_answered(pending, Err(error)));
            after.fd == -1 && after.packet_write_settled(step) is Done
        }),
{
}

/// A connection is made usable on a socket with nothing received, nothing to replay and nothing
/// backed up, where the sodium library is ready and the key is of the right length; otherwise it
/// stays as it is. It reads with the given nonce byte and writes with the other one.
pub proof fn law_initialized_connection_is_fresh(
    connection: ConnectionView,
    reader_ready: bool,
    writer_ready: bool,
    fd: i32,
    nonce_msb: u8,
)
    ensures
        ({
            let (after, result) = connection.initialized(
                reader_ready,
                writer_ready,
                fd,
                nonce_msb,
            );
            let usable = reader_ready && writer_ready && connection.key.len() == 32;
            &&& result is Ok <==> usable
            &&& !usable ==> after == connection
            &&& usable ==> {
                &&& after.fd == fd && after.id == connection.id && after.key == connection.key
                &&& after.shutting_down == connection.shutting_down
                &&& after.reader matches Some(reader) && {
                    &&& reader.fd == fd && reader.sequence_number == 0
                    &&& reader.local.len() == 0 && reader.partial.len() == 0
                    &&& reader.crypto.key == connection.key
                    &&& reader.crypto.nonce.len() == 24 && reader.crypto.nonce[23] == nonce_msb
                    &&& forall|i: int| 0 <= i < 23 ==> #[trigger] reader.crypto.nonce[i] == 0
                }
                &&& after.writer matches Some(writer) && {
                    &&& writer.fd == fd && writer.sequence_number == 0
                    &&& writer.backup.len() == 0 && writer.written.len() == 0
                    &&& writer.backup_size == 0 && writer.origin == writer.crypto
                    &&& writer.crypto.key == connection.key
                    &&& writer.crypto.nonce.len() == 24
                    &&& nonce_msb == 0 ==> writer.crypto.nonce[23] == 1
                    &&& nonce_msb != 0 ==> writer.crypto.nonce[23] == 0
                    &&& forall|i: int| 0 <= i < 23 ==> #[trigger] writer.crypto.nonce[i] == 0
                }
            }
        }),
{
}

/// A recovery goes through four exchanges in order, each awaited after the one before it; the
/// first failure ends it with its error, and only the last exchange changes the connection, which
/// is then on the new socket.
pub proof fn law_recovery_exchanges_in_order(
    fd: i32,
    connection: ConnectionView,
    remote: i32,
    catchup: Seq<Seq<u8>>,
    stage: RecoveryStage,
    error: ErrorView,
)
    requires
        connection.reader is Some,
        connection.writer is Some,
        connection.writer->0.recovered(remote as int) is Ok,
    ensures
        0 <= connection.reader->0.sequence_number <= i32::MAX ==> connection.recovery_begun()
            == Ok::<i32, ErrorView>(connection.reader->0.sequence_number as i32),
        ({
            let r0 = RecoveryView { stage: RecoveryStage::SendingHeader, fd };
            let (r1, c1, s1) = r0.next(connection, RecoveryEventView::Sent(Ok(())));
            let (r2, c2, s2) = r1.next(c1, RecoveryEventView::SequenceHeader(Ok(remote)));
            let (r3, c3, s3) = r2.next(c2, RecoveryEventView::Sent(Ok(())));
            let (r4, c4, s4) = r3.next(c3, RecoveryEventView::CatchupBuffer(Ok(catchup)));
            &&& forall|event: RecoveryEventView| #[trigger] r0.awaits(event) <==> event is Sent
            &&& s1 is AwaitSequenceHeader && c1 == connection
            &&& forall|event: RecoveryEventView| #[trigger]
                r1.awaits(event) <==> event is SequenceHeader
            &&& s2 is SendCatchup && c2 == connection
            &&& connection.writer->0.recovered(remote as int) == Ok::<Seq<Seq<u8>>, ErrorView>(
                s2->SendCatchup_0,
            )
            &&& forall|event: RecoveryEventView| #[trigger] r2.awaits(event) <==> event is Sent
            &&& s3 is AwaitCatchup && c3 == connection
            &&& forall|event: RecoveryEventView| #[trigger]
                r3.awaits(event) <==> event is CatchupBuffer
            &&& s4 == RecoveryStepView::Finished(Ok(true))
            &&& forall|event: RecoveryEventView| !#[trigger] r4.awaits(event)
            &&& c4.fd == fd && c4.reader->0.fd == fd && c4.writer->0.fd == fd
            &&& c4.reader->0.local == connection.reader->0.local + catchup
            &&& c4.reader->0.sequence_number == connection.reader->0.sequence_number
                + catchup.len()
            &&& c4.reader->0.partial.len() == 0
            &&& c4.id == connection.id && c4.key == connection.key
        }),
        forall|event: RecoveryEventView|
            event == RecoveryEventView::Sent(Err(error)) || event
                == RecoveryEventView::SequenceHeader(Err(error)) || event
                == RecoveryEventView::CatchupBuffer(Err(error)) ==> {
                let (after, same, step) = #[trigger] (RecoveryView { stage, fd }).next(
                    connection,
                    event,
                );
                &&& step == RecoveryStepView::Finished(Err(error))
                &&& same == connection
                &&& forall|later: RecoveryEventView| !#[trigger] after.awaits(later)
            },
{
}

/// A connection reads through its reader, and has nothing to read before it has one or once it is
/// to shut down. It writes through its writer where it has a socket, and else not at all; a packet
/// that the writer did not take is not written, and leaves the socket as it is.
pub proof fn law_connection_uses_its_reader_and_writer(
    connection: ConnectionView,
    packet: PacketView,
    state: WriteState,
)
    requires
        state == WriteState::Skipped || state == WriteState::Refused,
    ensures
        connection.reader is None ==> connection.read_begun() == (
            connection,
            ConnectionReadView::Finished { result: Ok(None), close: None },
        ),
        connection.reader matches Some(reader) ==> connection.read_begun()
            == connection.read_settled(reader.read_begun().0, reader.read_begun().1),
        !connection.shutting_down ==> connection.packet_read_begun() == connection.read_begun(),
        connection.fd == -1 || connection.writer is None ==> connection.write_begun(packet) == (
            connection,
            ConnectionWriteView::Finished { written: false, close: None },
        ),
        connection.fd != -1 ==> (connection.writer matches Some(writer) ==> {
            let (written, step) = writer.write_begun(packet);
            connection.write_begun(packet) == (ConnectionView {
                writer: Some(written),
                ..connection
            }).write_settled(step)
        }),
        connection.write_settled(WriteStepView::Finished(state)) == (
            connection,
            ConnectionWriteView::Finished { written: false, close: None },
        ),
{
}

/// A recovery needs a connection that was once usable, and says what is missing otherwise.
pub proof fn law_recovery_needs_both_directions(connection: ConnectionView)
    ensures
        connection.reader is None ==> connection.recovery_begun() == Err::<i32, ErrorView>(
            ErrorView::Recovery("Reader not initialized"@),
        ),
        connection.reader is Some && connection.writer is None ==> connection.recovery_begun()
            == Err::<i32, ErrorView>(ErrorView::Recovery("Writer not initialized"@)),
        connection.reader is Some && connection.writer is Some
            ==> connection.recovery_begun() is Ok,
{
}

/// A connection has data exactly where its reader has: what is to be replayed, or what its socket
/// can be read for. Before there is a reader it has none.
pub proof fn law_connection_has_the_data_of_its_reader(
    connection: Connection,
    readable: bool,
    r: bool,
)
    requires
        call_ensures(Connection::has_data, (&connection, readable), r),
    ensures
        connection@.reader is None ==> !r,
        connection@.reader matches Some(reader) ==> {
            &&& reader.local.len() > 0 ==> r
            &&& reader.local.len() == 0 && reader.fd < 0 ==> !r
            &&& reader.local.len() == 0 && reader.fd >= 0 ==> r == readable
        },
{
}

} // verus!
