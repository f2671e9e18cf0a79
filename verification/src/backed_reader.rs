//! Backed reader for connection recovery
//!
//! This module provides a reader that maintains replay buffers for reconnection scenarios. The
//! reader does no I/O of its own: it says how many bytes it wants from which socket, and is
//! handed what the socket gave.
use std::collections::VecDeque;
use vstd::prelude::*;
use vstd::slice::{slice_subrange, slice_to_vec};

use crate::crypto::{CryptoHandler, CryptoView};
use crate::decimal::{decimal, push_unsigned};
use crate::error::{result_view, would_block, Error, ErrorView};
use crate::packet::{decrypted, deserialized, Packet, PacketView};
use crate::text::views;
use crate::wire::{
    be_value, decode, lemma_pow256_values, lemma_value_bounds, signed32, to_signed32, ByteOrder,
};
use crate::NO_SOCKET;

verus! {

/// Number of bytes of the length that comes before a message
pub const PREFIX_SIZE: usize = 4;

/// Reads packets from a socket while preserving enough state to replay
/// any messages after reconnecting.
pub struct BackedReader {
    /// Responsible for decrypting packets once they arrive
    crypto_handler: CryptoHandler,
    /// Current socket file descriptor (-1 when disconnected)
    socket_fd: i32,
    /// Packet sequence counter that increments for every read packet
    sequence_number: i64,
    /// Serialized packets cached to be drained before resuming live reads
    local_buffer: VecDeque<Vec<u8>>,
    /// Buffer for accumulating length-prefixed packet data from the socket
    partial_message: Vec<u8>,
}

/// What a read needs next
#[derive(Debug)]
pub enum ReadStep {
    /// The read is over: a packet, `None` where more bytes are required, or a fatal error
    Finished(Result<Option<Packet>, Error>),
    /// Up to `count` bytes are to be read from `fd` and handed to `received`
    Receive { fd: i32, count: usize },
}

/// What a [`ReadStep`] says.
pub enum ReadStepView {
    Finished(Result<Option<PacketView>, ErrorView>),
    Receive { fd: i32, count: int },
}

/// The view of the outcome of a read.
pub open spec fn read_view(r: Result<Option<Packet>, Error>) -> Result<
    Option<PacketView>,
    ErrorView,
> {
    match r {
        Ok(Some(p)) => Ok(Some(p@)),
        Ok(None) => Ok(None),
        Err(e) => Err(e@),
    }
}

impl View for ReadStep {
    type V = ReadStepView;

    open spec fn view(&self) -> ReadStepView {
        match *self {
            ReadStep::Finished(r) => ReadStepView::Finished(read_view(r)),
            ReadStep::Receive { fd, count } => ReadStepView::Receive { fd, count: count as int },
        }
    }
}

/// The state of a [`BackedReader`].
pub struct ReaderView {
    /// State of the handler that decrypts
    pub crypto: CryptoView,
    /// Current socket file descriptor (-1 when disconnected)
    pub fd: i32,
    /// Count of the packets received so far
    pub sequence_number: int,
    /// Serialized packets still to be replayed
    pub local: Seq<Seq<u8>>,
    /// Bytes received of a message that is not complete
    pub partial: Seq<u8>,
}

/// The length that the first four bytes of a message announce.
pub open spec fn announced_length(message: Seq<u8>) -> int {
    signed32(be_value(message.take(4)))
}

impl ReaderView {
    /// What holds of every reader: the message that it is collecting is not complete.
    pub open spec fn wf(self) -> bool {
        &&& 0 <= self.sequence_number
        &&& self.partial.len() >= 4 ==> {
            &&& 0 <= announced_length(self.partial)
            &&& self.partial.len() < 4 + announced_length(self.partial)
        }
    }

    /// The number of bytes that the reader wants next: the rest of the length, or the rest of
    /// the message.
    pub open spec fn wanted(self) -> int {
        if self.partial.len() < 4 {
            4 - self.partial.len()
        } else {
            4 + announced_length(self.partial) - self.partial.len()
        }
    }

    /// The state after one serialized packet has been decrypted, and the packet.
    pub open spec fn opened_packet(self, data: Seq<u8>) -> (
        ReaderView,
        Result<PacketView, ErrorView>,
    ) {
        match deserialized(data) {
            Err(e) => (self, Err(e)),
            Ok(packet) => {
                let (packet, crypto, outcome) = decrypted(packet, self.crypto);
                (
                    ReaderView { crypto, ..self },
                    match outcome {
                        Ok(_) => Ok(packet),
                        Err(e) => Err(e),
                    },
                )
            },
        }
    }

    /// The start of a read: a packet to be replayed comes before the socket is asked, and a dead
    /// socket gives nothing.
    pub open spec fn read_begun(self) -> (ReaderView, ReadStepView) {
        if self.local.len() > 0 {
            let (state, packet) = (ReaderView { local: self.local.skip(1), ..self }).opened_packet(
                self.local[0],
            );
            (
                state,
                ReadStepView::Finished(
                    match packet {
                        Ok(p) => Ok(Some(p)),
                        Err(e) => Err(e),
                    },
                ),
            )
        } else if self.fd < 0 {
            (self, ReadStepView::Finished(Ok(None)))
        } else {
            (self, ReadStepView::Receive { fd: self.fd, count: self.wanted() })
        }
    }

    /// The state once a complete message has been taken out and decrypted, and the packet.
    pub open spec fn message_taken(self) -> (ReaderView, Result<PacketView, ErrorView>) {
        let (state, packet) = (ReaderView { partial: Seq::empty(), ..self }).opened_packet(
            self.partial.skip(4),
        );
        match packet {
            Ok(_) => (ReaderView { sequence_number: state.sequence_number + 1, ..state }, packet),
            Err(_) => (state, packet),
        }
    }

    /// What follows when the socket gave `data`. A message that announces a negative length is
    /// an error, and is dropped.
    pub open spec fn data_received(self, data: Seq<u8>) -> (ReaderView, ReadStepView) {
        let state = ReaderView { partial: self.partial + data, ..self };
        if state.partial.len() < 4 {
            (state, ReadStepView::Finished(Ok(None)))
        } else if announced_length(state.partial) < 0 {
            (
                ReaderView { partial: Seq::empty(), ..self },
                ReadStepView::Finished(
                    Err(ErrorView::InvalidMessageSize(announced_length(state.partial) as i64)),
                ),
            )
        } else if state.partial.len() == 4 + announced_length(state.partial) {
            let (state, packet) = state.message_taken();
            (
                state,
                ReadStepView::Finished(
                    match packet {
                        Ok(p) => Ok(Some(p)),
                        Err(e) => Err(e),
                    },
                ),
            )
        } else if self.partial.len() < 4 {
            (state, ReadStepView::Receive { fd: state.fd, count: state.wanted() })
        } else {
            (state, ReadStepView::Finished(Ok(None)))
        }
    }

    /// What follows when the socket answered with `outcome`: no bytes mean that the peer has
    /// closed, and an operation that would have to wait ends the read without a packet.
    pub open spec fn outcome_received(self, outcome: Result<Seq<u8>, ErrorView>) -> (
        ReaderView,
        ReadStepView,
    ) {
        match outcome {
            Ok(data) => if data.len() == 0 {
                (self, ReadStepView::Finished(Err(ErrorView::ConnectionClosed)))
            } else {
                self.data_received(data)
            },
            Err(e) => if would_block(e) {
                (self, ReadStepView::Finished(Ok(None)))
            } else {
                (self, ReadStepView::Finished(Err(e)))
            },
        }
    }

    /// The state on a new socket, with packets to be replayed.
    pub open spec fn revived(self, fd: i32, entries: Seq<Seq<u8>>) -> ReaderView {
        ReaderView {
            fd,
            sequence_number: self.sequence_number + entries.len(),
            local: self.local + entries,
            partial: Seq::empty(),
            ..self
        }
    }
}

/// The text of the error about a message whose size is not the announced one.
pub open spec fn size_mismatch_text(held: nat, announced: nat) -> Seq<char> {
    "Tried to construct a message that wasn't complete or over-filled: "@ + decimal(held)
        + " != "@ + decimal(announced)
}

impl View for BackedReader {
    type V = ReaderView;

    closed spec fn view(&self) -> ReaderView {
        ReaderView {
            crypto: self.crypto_handler@,
            fd: self.socket_fd,
            sequence_number: self.sequence_number as int,
            local: views(self.local_buffer@),
            partial: self.partial_message@,
        }
    }
}

/// The length that a message announces, or why there is none: the length is not complete, or it
/// is negative.
pub open spec fn message_length(message: Seq<u8>) -> Result<int, ErrorView> {
    if message.len() < 4 {
        Err(ErrorView::Protocol("Tried to construct a message header that wasn't complete"@))
    } else if announced_length(message) < 0 {
        Err(ErrorView::InvalidMessageSize(announced_length(message) as i64))
    } else {
        Ok(announced_length(message))
    }
}

/// Parse the message length from the partial buffer
fn get_partial_message_length(partial: &[u8]) -> (r: Result<usize, Error>)
    ensures
        match (r, message_length(partial@)) {
            (Ok(n), Ok(length)) => n == length,
            (Err(e), Err(expected)) => e@ == expected,
            _ => false,
        },
        r matches Ok(n) ==> n <= i32::MAX,
{
    if partial.len() < 4 {
        return Err(
            Error::Protocol("Tried to construct a message header that wasn't complete".to_owned()),
        );
    }
    let prefix = slice_subrange(partial, 0, 4);
    assert(prefix@ =~= partial@.take(4));
    proof {
        lemma_value_bounds(prefix@, ByteOrder::Big);
        lemma_pow256_values();
    }
    let message_size = to_signed32(decode(prefix, ByteOrder::Big));
    if message_size < 0 {
        return Err(Error::InvalidMessageSize(message_size as i64));
    }
    Ok(message_size as usize)
}

impl BackedReader {
    /// Constructs a reader bound to the supplied crypto handler.
    ///
    /// # Arguments
    /// * `crypto_handler` - Handler used to decrypt packets once they are received
    /// * `socket_fd` - Initial socket file descriptor to read from
    pub fn new(crypto_handler: CryptoHandler, socket_fd: i32) -> (r: BackedReader)
        ensures
            r@ == (ReaderView {
                crypto: crypto_handler@,
                fd: socket_fd,
                sequence_number: 0,
                local: Seq::empty(),
                partial: Seq::empty(),
            }),
            r@.wf(),
    {
        let r = BackedReader {
            crypto_handler,
            socket_fd,
            sequence_number: 0,
            local_buffer: VecDeque::new(),
            partial_message: Vec::new(),
        };
        assert(r@.local =~= Seq::<Seq<u8>>::empty());
        r
    }

    /// Returns true if there is buffered data or the current socket is readable.
    ///
    /// # Arguments
    /// * `socket_readable` - Whether the current socket has data to read
    pub fn has_data(&self, socket_readable: bool) -> (r: bool)
        ensures
            r == (self@.local.len() > 0 || (self@.fd >= 0 && socket_readable)),
    {
        if self.local_buffer.len() > 0 {
            return true;
        }
        self.socket_fd >= 0 && socket_readable
    }

    fn open_packet(&mut self, data: &[u8]) -> (r: Result<Packet, Error>)
        ensures
            (final(self)@, result_view(r)) == old(self)@.opened_packet(data@),
            final(self).sequence_number == old(self).sequence_number,
    {
        match Packet::from_bytes(data) {
            Err(e) => Err(e),
            Ok(packet) => {
                let mut packet = packet;
                match packet.decrypt(&mut self.crypto_handler) {
                    Ok(_) => Ok(packet),
                    Err(e) => Err(e),
                }
            },
        }
    }

    /// Starts reading the next packet, from the local buffer or from the socket.
    ///
    /// A packet of the local buffer is decrypted at once. Otherwise the step says how many bytes
    /// are to be read from the socket; what the socket gives goes to [`BackedReader::received`].
    pub fn read(&mut self) -> (r: ReadStep)
        requires
            old(self)@.wf(),
        ensures
            (final(self)@, r@) == old(self)@.read_begun(),
            final(self)@.wf(),
    {
        let ghost before = self@;
        match self.local_buffer.pop_front() {
            Some(data) => {
                assert(before.local[0] == data@);
                assert(views(self.local_buffer@) =~= before.local.skip(1));
                match self.open_packet(data.as_slice()) {
                    Ok(packet) => ReadStep::Finished(Ok(Some(packet))),
                    Err(e) => ReadStep::Finished(Err(e)),
                }
            },
            None => {
                if self.socket_fd < 0 {
                    ReadStep::Finished(Ok(None))
                } else {
                    ReadStep::Receive { fd: self.socket_fd, count: self.bytes_wanted() }
                }
            },
        }
    }

    fn bytes_wanted(&self) -> (r: usize)
        requires
            self@.wf(),
        ensures
            r == self@.wanted(),
    {
        match get_partial_message_length(self.partial_message.as_slice()) {
            Ok(length) => 4 + length - self.partial_message.len(),
            Err(_) => 4 - self.partial_message.len(),
        }
    }

    /// Goes on with a read: `outcome` is what the socket gave for the bytes that were wanted.
    pub fn received(&mut self, outcome: Result<Vec<u8>, Error>) -> (r: ReadStep)
        requires
            old(self)@.wf(),
            old(self)@.sequence_number < i64::MAX,
            outcome matches Ok(data) ==> data@.len() <= old(self)@.wanted(),
        ensures
            (final(self)@, r@) == old(self)@.outcome_received(result_view(outcome)),
            final(self)@.wf(),
    {
        let data = match outcome {
            Ok(data) => data,
            Err(e) => {
                return if e.is_would_block() {
                    ReadStep::Finished(Ok(None))
                } else {
                    ReadStep::Finished(Err(e))
                };
            },
        };
        if data.len() == 0 {
            return ReadStep::Finished(Err(Error::ConnectionClosed));
        }
        let ghost before = self@;
        let in_prefix = self.partial_message.len() < 4;
        self.partial_message.extend_from_slice(data.as_slice());
        assert(self.partial_message@ =~= before.partial + data@);
        proof {
            if before.partial.len() >= 4 {
                assert((before.partial + data@).take(4) =~= before.partial.take(4));
            }
        }
        match get_partial_message_length(self.partial_message.as_slice()) {
            Err(e) => {
                if self.partial_message.len() < 4 {
                    ReadStep::Finished(Ok(None))
                } else {
                    self.partial_message.clear();
                    ReadStep::Finished(Err(e))
                }
            },
            Ok(length) => {
                let total: usize = 4 + length;
                if self.partial_message.len() == total {
                    match self.construct_partial_message() {
                        Ok(packet) => ReadStep::Finished(Ok(Some(packet))),
                        Err(e) => ReadStep::Finished(Err(e)),
                    }
                } else if in_prefix {
                    ReadStep::Receive {
                        fd: self.socket_fd,
                        count: total - self.partial_message.len(),
                    }
                } else {
                    ReadStep::Finished(Ok(None))
                }
            },
        }
    }

    /// Finalizes a complete message and decrypts it into a packet
    fn construct_partial_message(&mut self) -> (r: Result<Packet, Error>)
        requires
            old(self)@.partial.len() >= 4,
            announced_length(old(self)@.partial) >= 0,
            old(self)@.sequence_number < i64::MAX,
        ensures
            old(self)@.partial.len() == 4 + announced_length(old(self)@.partial) ==> (
                final(self)@,
                result_view(r),
            ) == old(self)@.message_taken(),
            old(self)@.partial.len() != 4 + announced_length(old(self)@.partial) ==> {
                &&& final(self)@ == old(self)@
                &&& result_view(r) == Err::<PacketView, ErrorView>(
                    ErrorView::Protocol(
                        size_mismatch_text(
                            (old(self)@.partial.len() - 4) as nat,
                            announced_length(old(self)@.partial) as nat,
                        ),
                    ),
                )
            },
    {
        let ghost before = self@;
        let message_size = match get_partial_message_length(self.partial_message.as_slice()) {
            Ok(n) => n,
            Err(e) => {
                return Err(e);
            },
        };
        let held: usize = self.partial_message.len() - 4;
        if held != message_size {
            let mut text =
                "Tried to construct a message that wasn't complete or over-filled: ".to_owned();
            push_unsigned(&mut text, held as u64);
            text.append(" != ");
            push_unsigned(&mut text, message_size as u64);
            return Err(Error::Protocol(text));
        }
        let serialized = slice_to_vec(
            slice_subrange(self.partial_message.as_slice(), 4, self.partial_message.len()),
        );
        assert(serialized@ =~= before.partial.skip(4));
        self.partial_message = Vec::new();
        assert(self@ == (ReaderView { partial: Seq::empty(), ..before }));
        match self.open_packet(serialized.as_slice()) {
            Ok(packet) => {
                self.sequence_number = self.sequence_number + 1;
                Ok(packet)
            },
            Err(e) => Err(e),
        }
    }

    /// Returns the sequence number (count of packets processed)
    pub fn sequence_number(&self) -> (r: i64)
        ensures
            r == self@.sequence_number,
    {
        self.sequence_number
    }

    /// Resumes the reader on a new socket and queues any serialized packets
    /// that should be replayed before fresh reads.
    pub fn revive(&mut self, new_socket_fd: i32, new_local_entries: Vec<Vec<u8>>)
        requires
            old(self)@.wf(),
            old(self)@.sequence_number + new_local_entries@.len() <= i64::MAX,
        ensures
            final(self)@ == old(self)@.revived(new_socket_fd, views(new_local_entries@)),
            final(self)@.wf(),
    {
        let ghost before = self@;
        let ghost entries = new_local_entries@;
        self.partial_message.clear();
        self.sequence_number = self.sequence_number + new_local_entries.len() as i64;
        assert(before.local + views(entries.take(0)) =~= before.local);
        for entry in it: new_local_entries
            invariant
                it.seq() == entries,
                self.crypto_handler == old(self).crypto_handler,
                self.socket_fd == old(self).socket_fd,
                self.partial_message@ == Seq::<u8>::empty(),
                self.sequence_number == old(self).sequence_number + entries.len(),
                before == old(self)@,
                views(self.local_buffer@) == before.local + views(entries.take(it.index())),
        {
            assert(entry == entries[it.index()]);
            let ghost shorter = self.local_buffer@;
            self.local_buffer.push_back(entry);
            assert(views(self.local_buffer@) =~= views(shorter).push(entry@));
            assert(views(self.local_buffer@) =~= before.local + views(
                entries.take(it.index() + 1),
            ));
        }
        assert(entries.take(entries.len() as int) =~= entries);
        self.socket_fd = new_socket_fd;
    }

    /// Marks the reader as disconnected so callers stop issuing reads.
    pub fn invalidate_socket(&mut self)
        ensures
            final(self)@ == (ReaderView { fd: NO_SOCKET, ..old(self)@ }),
    {
        self.socket_fd = NO_SOCKET;
    }

    /// Get the current socket fd
    pub fn socket_fd(&self) -> (r: i32)
        ensures
            r == self@.fd,
    {
        self.socket_fd
    }
}

/// A read begins with what is to be replayed: the first packet of it is opened and handed out, and
/// the others stay in order. With nothing to replay the socket is asked for what is missing of the
/// length, or of the message, and without a socket there is nothing to read.
pub proof fn law_replay_comes_before_the_socket(reader: ReaderView)
    ensures
        ({
            let (after, step) = reader.read_begun();
            &&& after.fd == reader.fd && after.partial == reader.partial
            &&& after.sequence_number == reader.sequence_number
            &&& reader.local.len() > 0 ==> {
                let data = reader.local[0];
                &&& step is Finished
                &&& after.local == reader.local.skip(1)
                &&& data.len() < 2 || data[0] == 0 ==> {
                    &&& after.crypto == reader.crypto
                    &&& step->Finished_0 == Err::<Option<PacketView>, ErrorView>(
                        if data.len() < 2 {
                            ErrorView::InvalidPacket("Packet too short"@)
                        } else {
                            ErrorView::InvalidPacket(
                                "Tried to decrypt a packet that wasn't encrypted"@,
                            )
                        },
                    )
                }
                &&& data.len() >= 2 && data[0] != 0 ==> {
                    &&& after.crypto == reader.crypto.advanced()
                    &&& match reader.crypto.open_next(data.skip(2)) {
                        Some(payload) => step->Finished_0 == Ok::<Option<PacketView>, ErrorView>(
                            Some(PacketView { encrypted: false, header: data[1], payload }),
                        ),
                        None => step->Finished_0 == Err::<Option<PacketView>, ErrorView>(
                            ErrorView::DecryptionFailed,
                        ),
                    }
                }
            }
            &&& reader.local.len() == 0 ==> after == reader
            &&& reader.local.len() == 0 && reader.fd < 0 ==> step == ReadStepView::Finished(
                Ok(None),
            )
            &&& reader.local.len() == 0 && reader.fd >= 0 ==> step == (ReadStepView::Receive {
                fd: reader.fd,
                count: if reader.partial.len() < 4 {
                    4 - reader.partial.len()
                } else {
                    4 + announced_length(reader.partial) - reader.partial.len()
                },
            })
        }),
{
}

/// Bytes are collected until the length and then the message are complete. A message that is not
/// complete is kept, and where its length has just come, what it announces is asked for at once; a
/// negative length is an error, and drops what was collected. Only a complete message counts.
pub proof fn law_bytes_are_collected(reader: ReaderView, data: Seq<u8>)
    requires
        data.len() > 0,
    ensures
        ({
            let (after, step) = reader.outcome_received(Ok(data));
            let held = reader.partial + data;
            let length = announced_length(held);
            &&& after.fd == reader.fd && after.local == reader.local
            &&& held.len() < 4 ==> {
                &&& step == ReadStepView::Finished(Ok(None))
                &&& after.partial == held && after.sequence_number == reader.sequence_number
                    && after.crypto == reader.crypto
            }
            &&& held.len() >= 4 && length < 0 ==> {
                &&& step == ReadStepView::Finished(
                    Err(ErrorView::InvalidMessageSize(length as i64)),
                )
                &&& after.partial.len() == 0
                &&& after.sequence_number == reader.sequence_number
                &&& after.crypto == reader.crypto
            }
            &&& held.len() >= 4 && length >= 0 && held.len() < 4 + length ==> {
                &&& after.partial == held && after.sequence_number == reader.sequence_number
                    && after.crypto == reader.crypto
                &&& reader.partial.len() < 4 ==> step == (ReadStepView::Receive {
                    fd: reader.fd,
                    count: 4 + length - held.len(),
                })
                &&& reader.partial.len() >= 4 ==> step == ReadStepView::Finished(Ok(None))
            }
            &&& held.len() >= 4 && length >= 0 && held.len() == 4 + length ==> {
                &&& after.partial.len() == 0
                &&& step is Finished && step != ReadStepView::Finished(Ok(None))
                &&& step->Finished_0 is Ok ==> after.sequence_number == reader.sequence_number + 1
                &&& step->Finished_0 is Err ==> after.sequence_number == reader.sequence_number
                &&& length < 2 || held[4] == 0 ==> {
                    &&& after.crypto == reader.crypto
                    &&& step->Finished_0 == Err::<Option<PacketView>, ErrorView>(
                        if length < 2 {
                            ErrorView::InvalidPacket("Packet too short"@)
                        } else {
                            ErrorView::InvalidPacket(
                                "Tried to decrypt a packet that wasn't encrypted"@,
                            )
                        },
                    )
                }
                &&& length >= 2 && held[4] != 0 ==> {
                    &&& after.crypto == reader.crypto.advanced()
                    &&& match reader.crypto.open_next(held.skip(6)) {
                        Some(payload) => step->Finished_0 == Ok::<Option<PacketView>, ErrorView>(
                            Some(PacketView { encrypted: false, header: held[5], payload }),
                        ),
                        None => step->Finished_0 == Err::<Option<PacketView>, ErrorView>(
                            ErrorView::DecryptionFailed,
                        ),
                    }
                }
            }
        }),
{
    let held = reader.partial + data;
    if held.len() >= 6 {
        assert(held.skip(4).skip(2) =~= held.skip(6));
    }
}

/// A socket that gives nothing has been closed by the peer; one that would have to wait gives no
/// packet for now, and any other error is handed on. None of these changes the reader.
pub proof fn law_socket_that_gives_nothing_is_closed(
    reader: ReaderView,
    text: Seq<char>,
    error: ErrorView,
)
    requires
        error matches ErrorView::Io(kind, _) ==> !(kind is WouldBlock),
    ensures
        reader.outcome_received(Ok(Seq::empty())) == (
            reader,
            ReadStepView::Finished(Err(ErrorView::ConnectionClosed)),
        ),
        reader.outcome_received(
            Err(ErrorView::Io(crate::error::IoKind::WouldBlock, text)),
        ) == (reader, ReadStepView::Finished(Ok(None))),
        reader.outcome_received(Err(error)) == (reader, ReadStepView::Finished(Err(error))),
{
}

/// A reader that is revived counts the packets that it is to replay as received, replays them after
/// those that it still had, and starts its next message anew on the new socket.
pub proof fn law_revived_reader_replays(reader: ReaderView, fd: i32, entries: Seq<Seq<u8>>)
    ensures
        ({
            let after = reader.revived(fd, entries);
            &&& after.fd == fd
            &&& after.local == reader.local + entries
            &&& after.sequence_number == reader.sequence_number + entries.len()
            &&& after.partial.len() == 0
            &&& after.crypto == reader.crypto
        }),
{
}

/// A reader has data exactly where it has something to replay, whatever its socket, or where its
/// socket can be read.
pub proof fn law_replay_counts_as_data(reader: BackedReader, readable: bool, r: bool)
    requires
        call_ensures(BackedReader::has_data, (&reader, readable), r),
    ensures
        reader@.local.len() > 0 ==> r,
        reader@.local.len() == 0 && reader@.fd < 0 ==> !r,
        reader@.local.len() == 0 && reader@.fd >= 0 ==> r == readable,
{
}

} // verus!
