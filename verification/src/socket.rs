//! Socket handling abstractions
//!
//! This module provides endpoints, and transfers over sockets: reading and writing a given number
//! of bytes, length-prefixed messages and packets, and base64 data. A transfer does no I/O of its
//! own: it says how many bytes are wanted or which are to be written, and is told what the
//! socket answered and what time it is.
use base64::Engine;
use vstd::prelude::*;
use vstd::slice::{slice_subrange, slice_to_vec};
use vstd::utf8::{decode_utf8, encode_utf8, valid_utf8};

use crate::decimal::{decimal, push_unsigned};
use crate::error::{result_view, would_block, Error, ErrorView, IoError, IoKind};
use crate::packet::{deserialized, Packet, PacketView};
use crate::text::{option_view, trim, trim_spec};
use crate::wire::{
    bytes_of, decode, encode, law_bytes_round_trip, lemma_pow256_values, signed64, to_signed64,
    value_of, ByteOrder,
};

verus! {

/// Maximum message size (128 MB)
pub const MAX_MESSAGE_SIZE: i64 = 128 * 1024 * 1024;

/// How long to wait before an operation that would have blocked is tried again, in microseconds
pub const BLOCKED_WAIT_MICROS: u64 = 1000;

/// How long a transfer with a timeout may take, in nanoseconds
pub const SHORT_LIMIT_NANOS: u64 = 5_000_000_000;

/// How long any other transfer may take, in nanoseconds
pub const LONG_LIMIT_NANOS: u64 = 300_000_000_000;

/// Number of bytes of the length that comes before a message
pub const LENGTH_SIZE: usize = 8;

/// Socket endpoint for connection/listening
#[derive(Debug)]
pub struct SocketEndpoint {
    /// Hostname or IP address (None for wildcard binding)
    pub name: Option<String>,
    /// Port number
    pub port: u16,
}

/// What a [`SocketEndpoint`] holds.
pub struct EndpointView {
    pub name: Option<Seq<char>>,
    pub port: u16,
}

impl View for SocketEndpoint {
    type V = EndpointView;

    open spec fn view(&self) -> EndpointView {
        EndpointView { name: option_view(self.name), port: self.port }
    }
}

/// A host and a port with a colon between them.
pub open spec fn address_text(host: Seq<char>, port: u16) -> Seq<char> {
    host + ":"@ + decimal(port as nat)
}

/// Writes a host and a port with a colon between them.
pub fn address(host: &str, port: u16) -> (r: String)
    ensures
        r@ == address_text(host@, port),
{
    let mut text = host.to_owned();
    text.append(":");
    push_unsigned(&mut text, port as u64);
    text
}

impl Clone for SocketEndpoint {
    fn clone(&self) -> (r: SocketEndpoint)
        ensures
            r@ == self@,
    {
        SocketEndpoint {
            name: match &self.name {
                Some(name) => Some(name.clone()),
                None => None,
            },
            port: self.port,
        }
    }
}

impl SocketEndpoint {
    /// Creates a new endpoint with name and port
    pub fn new(name: &str, port: u16) -> (r: SocketEndpoint)
        ensures
            r@ == (EndpointView { name: Some(name@), port }),
    {
        SocketEndpoint { name: Some(name.to_owned()), port }
    }

    /// Creates a new endpoint for wildcard binding on a port
    pub fn any(port: u16) -> (r: SocketEndpoint)
        ensures
            r@ == (EndpointView { name: None, port }),
    {
        SocketEndpoint { name: None, port }
    }

    /// Writes the endpoint as host and port, with an asterisk for a wildcard
    pub fn to_string(&self) -> (r: String)
        ensures
            r@ == match self@.name {
                Some(name) => address_text(name, self@.port),
                None => address_text("*"@, self@.port),
            },
    {
        match &self.name {
            Some(name) => address(name.as_str(), self.port),
            None => address("*", self.port),
        }
    }
}

/// What a transfer needs next
#[derive(Debug)]
pub enum TransferStep {
    /// Every byte has been transferred
    Complete,
    /// The socket is to be asked
    Proceed,
    /// The transfer has failed
    Failed(Error),
}

/// What a [`TransferStep`] says.
pub enum TransferStepView {
    Complete,
    Proceed,
    Failed(ErrorView),
}

impl View for TransferStep {
    type V = TransferStepView;

    open spec fn view(&self) -> TransferStepView {
        match *self {
            TransferStep::Complete => TransferStepView::Complete,
            TransferStep::Proceed => TransferStepView::Proceed,
            TransferStep::Failed(e) => TransferStepView::Failed(e@),
        }
    }
}

/// What follows from an answer of the socket
#[derive(Debug)]
pub enum AnswerStep {
    /// The transfer goes on
    Continue,
    /// The transfer goes on after a wait
    Wait { micros: u64 },
    /// The transfer has failed
    Failed(Error),
}

/// What an [`AnswerStep`] says.
pub enum AnswerStepView {
    Continue,
    Wait { micros: u64 },
    Failed(ErrorView),
}

impl View for AnswerStep {
    type V = AnswerStepView;

    open spec fn view(&self) -> AnswerStepView {
        match *self {
            AnswerStep::Continue => AnswerStepView::Continue,
            AnswerStep::Wait { micros } => AnswerStepView::Wait { micros },
            AnswerStep::Failed(e) => AnswerStepView::Failed(e@),
        }
    }
}

/// How long a transfer may take.
pub open spec fn limit_nanos(timeout: bool) -> int {
    if timeout {
        SHORT_LIMIT_NANOS as int
    } else {
        LONG_LIMIT_NANOS as int
    }
}

/// What a transfer needs next, given whether every byte is there and how long it has taken.
pub open spec fn transfer_step(
    complete: bool,
    timeout: bool,
    started: u64,
    now: u64,
) -> TransferStepView {
    if complete {
        TransferStepView::Complete
    } else if now - started > limit_nanos(timeout) {
        TransferStepView::Failed(ErrorView::Timeout)
    } else {
        TransferStepView::Proceed
    }
}

/// What follows from an error of the socket.
pub open spec fn error_step(e: ErrorView) -> AnswerStepView {
    if would_block(e) {
        AnswerStepView::Wait { micros: BLOCKED_WAIT_MICROS }
    } else {
        AnswerStepView::Failed(e)
    }
}

fn transfer_status(complete: bool, timeout: bool, started: u64, now: u64) -> (r: TransferStep)
    ensures
        r@ == transfer_step(complete, timeout, started, now),
{
    let limit = if timeout {
        SHORT_LIMIT_NANOS
    } else {
        LONG_LIMIT_NANOS
    };
    if complete {
        TransferStep::Complete
    } else if now >= started && now - started > limit {
        TransferStep::Failed(Error::Timeout)
    } else {
        TransferStep::Proceed
    }
}

fn error_answer(e: Error) -> (r: AnswerStep)
    ensures
        r@ == error_step(e@),
{
    if e.is_would_block() {
        AnswerStep::Wait { micros: BLOCKED_WAIT_MICROS }
    } else {
        AnswerStep::Failed(e)
    }
}

/// Reads exactly a given number of bytes
#[derive(Debug)]
pub struct ReadAll {
    received: Vec<u8>,
    count: usize,
    timeout: bool,
    started: u64,
}

/// The state of a [`ReadAll`].
pub struct ReadAllView {
    /// The bytes received so far
    pub received: Seq<u8>,
    /// How many bytes are to be received
    pub count: int,
    /// Whether the short limit applies
    pub timeout: bool,
    /// When the transfer started, in nanoseconds
    pub started: u64,
}

impl View for ReadAll {
    type V = ReadAllView;

    closed spec fn view(&self) -> ReadAllView {
        ReadAllView {
            received: self.received@,
            count: self.count as int,
            timeout: self.timeout,
            started: self.started,
        }
    }
}

impl ReadAllView {
    /// No more bytes have been received than were asked for.
    pub open spec fn wf(self) -> bool {
        self.received.len() <= self.count
    }

    /// The state at the start.
    pub open spec fn start(count: int, timeout: bool, now: u64) -> ReadAllView {
        ReadAllView { received: Seq::empty(), count, timeout, started: now }
    }

    /// What is needed next at the given time.
    pub open spec fn step(self, now: u64) -> TransferStepView {
        transfer_step(self.received.len() == self.count, self.timeout, self.started, now)
    }

    /// The state after an answer of the socket, and what follows. No bytes mean that the peer
    /// has closed.
    pub open spec fn answered(self, outcome: Result<Seq<u8>, ErrorView>) -> (
        ReadAllView,
        AnswerStepView,
    ) {
        match outcome {
            Ok(data) => if data.len() == 0 {
                (self, AnswerStepView::Failed(ErrorView::ConnectionClosed))
            } else {
                (ReadAllView { received: self.received + data, ..self }, AnswerStepView::Continue)
            },
            Err(e) => (self, error_step(e)),
        }
    }
}

impl ReadAll {
    /// Starts to read `count` bytes at the time `now`, in nanoseconds
    pub fn new(count: usize, timeout: bool, now: u64) -> (r: ReadAll)
        ensures
            r@ == ReadAllView::start(count as int, timeout, now),
            r@.wf(),
    {
        ReadAll { received: Vec::new(), count, timeout, started: now }
    }

    /// What is needed next at the time `now`
    pub fn poll(&self, now: u64) -> (r: TransferStep)
        requires
            self@.wf(),
        ensures
            r@ == self@.step(now),
    {
        transfer_status(self.received.len() == self.count, self.timeout, self.started, now)
    }

    /// How many bytes are still to be received
    pub fn remaining(&self) -> (r: usize)
        requires
            self@.wf(),
        ensures
            r == self@.count - self@.received.len(),
    {
        self.count - self.received.len()
    }

    /// Takes what the socket gave for the bytes that remain
    pub fn received(&mut self, outcome: Result<Vec<u8>, Error>) -> (r: AnswerStep)
        requires
            old(self)@.wf(),
            outcome matches Ok(data) ==> data@.len() <= old(self)@.count - old(
                self,
            )@.received.len(),
        ensures
            (final(self)@, r@) == old(self)@.answered(result_view(outcome)),
            final(self)@.wf(),
    {
        match outcome {
            Ok(data) => {
                if data.len() == 0 {
                    return AnswerStep::Failed(Error::ConnectionClosed);
                }
                self.received.extend_from_slice(data.as_slice());
                assert(self.received@ =~= old(self).received@ + data@);
                AnswerStep::Continue
            },
            Err(e) => error_answer(e),
        }
    }

    /// The bytes received
    pub fn into_bytes(self) -> (r: Vec<u8>)
        ensures
            r@ == self@.received,
    {
        self.received
    }
}

/// Writes all of some bytes
#[derive(Debug)]
pub struct WriteAll {
    data: Vec<u8>,
    written: usize,
    timeout: bool,
    started: u64,
}

/// The state of a [`WriteAll`].
pub struct WriteAllView {
    /// The bytes to be written
    pub data: Seq<u8>,
    /// How many of them the socket has taken
    pub written: int,
    /// Whether the short limit applies
    pub timeout: bool,
    /// When the transfer started, in nanoseconds
    pub started: u64,
}

impl View for WriteAll {
    type V = WriteAllView;

    closed spec fn view(&self) -> WriteAllView {
        WriteAllView {
            data: self.data@,
            written: self.written as int,
            timeout: self.timeout,
            started: self.started,
        }
    }
}

impl WriteAllView {
    /// The state at the start.
    pub open spec fn start(data: Seq<u8>, timeout: bool, now: u64) -> WriteAllView {
        WriteAllView { data, written: 0, timeout, started: now }
    }

    /// What is needed next at the given time.
    pub open spec fn step(self, now: u64) -> TransferStepView {
        transfer_step(self.written >= self.data.len(), self.timeout, self.started, now)
    }

    /// The state after an answer of the socket, and what follows.
    pub open spec fn answered(self, outcome: Result<usize, ErrorView>) -> (
        WriteAllView,
        AnswerStepView,
    ) {
        match outcome {
            Ok(n) => (WriteAllView { written: self.written + n, ..self }, AnswerStepView::Continue),
            Err(e) => (self, error_step(e)),
        }
    }
}

/// The view of how many bytes a socket took.
pub open spec fn count_view(r: Result<usize, Error>) -> Result<usize, ErrorView> {
    match r {
        Ok(n) => Ok(n),
        Err(e) => Err(e@),
    }
}

impl WriteAll {
    /// Starts to write `data` at the time `now`, in nanoseconds
    pub fn new(data: Vec<u8>, timeout: bool, now: u64) -> (r: WriteAll)
        ensures
            r@ == WriteAllView::start(data@, timeout, now),
    {
        WriteAll { data, written: 0, timeout, started: now }
    }

    /// What is needed next at the time `now`
    pub fn poll(&self, now: u64) -> (r: TransferStep)
        ensures
            r@ == self@.step(now),
    {
        transfer_status(self.written >= self.data.len(), self.timeout, self.started, now)
    }

    /// The bytes that the socket has not taken yet
    pub fn rest(&self) -> (r: &[u8])
        requires
            self@.written <= self@.data.len(),
        ensures
            r@ == self@.data.skip(self@.written),
    {
        assert(self.data@.skip(self.written as int) =~= self.data@.subrange(
            self.written as int,
            self.data@.len() as int,
        ));
        slice_subrange(self.data.as_slice(), self.written, self.data.len())
    }

    /// Takes how many bytes of the rest the socket took
    pub fn sent(&mut self, outcome: Result<usize, Error>) -> (r: AnswerStep)
        requires
            outcome matches Ok(n) ==> old(self)@.written + n <= usize::MAX,
        ensures
            (final(self)@, r@) == old(self)@.answered(count_view(outcome)),
    {
        match outcome {
            Ok(n) => {
                self.written = self.written + n;
                AnswerStep::Continue
            },
            Err(e) => error_answer(e),
        }
    }
}

/// Whether a length lies within what a message may have.
pub open spec fn length_allowed(length: int) -> bool {
    0 <= length <= MAX_MESSAGE_SIZE
}

/// The bytes that announce the length of a message.
pub open spec fn length_prefix(length: nat, order: ByteOrder) -> Seq<u8> {
    bytes_of(length, LENGTH_SIZE as nat, order)
}

/// The length that eight bytes announce.
pub open spec fn announced(prefix: Seq<u8>, order: ByteOrder) -> int {
    signed64(value_of(prefix, order))
}

/// Reads the length that eight bytes announce
pub fn read_length(prefix: &[u8], order: ByteOrder) -> (r: Result<usize, Error>)
    requires
        prefix@.len() == LENGTH_SIZE,
    ensures
        match r {
            Ok(n) => length_allowed(announced(prefix@, order)) && n == announced(prefix@, order),
            Err(e) => !length_allowed(announced(prefix@, order)) && e@
                == ErrorView::InvalidMessageSize(announced(prefix@, order) as i64),
        },
{
    let length: i64 = to_signed64(decode(prefix, order));
    if length < 0 || length > MAX_MESSAGE_SIZE {
        return Err(Error::InvalidMessageSize(length));
    }
    Ok(length as usize)
}

/// Reads a length-prefixed message
#[derive(Debug)]
pub struct MessageRead {
    order: ByteOrder,
    timeout: bool,
    in_body: bool,
    part: ReadAll,
}

/// The state of a [`MessageRead`].
pub struct MessageReadView {
    /// Byte order of the length
    pub order: ByteOrder,
    /// Whether the short limit applies to each part
    pub timeout: bool,
    /// Whether the length has been read
    pub in_body: bool,
    /// The part that is being read: the length, or the message itself
    pub part: ReadAllView,
}

impl View for MessageRead {
    type V = MessageReadView;

    closed spec fn view(&self) -> MessageReadView {
        MessageReadView {
            order: self.order,
            timeout: self.timeout,
            in_body: self.in_body,
            part: self.part@,
        }
    }
}

impl MessageReadView {
    /// The state at the start.
    pub open spec fn start(order: ByteOrder, timeout: bool, now: u64) -> MessageReadView {
        MessageReadView {
            order,
            timeout,
            in_body: false,
            part: ReadAllView::start(LENGTH_SIZE as int, timeout, now),
        }
    }

    /// What holds of every message that is being read.
    pub open spec fn wf(self) -> bool {
        &&& self.part.wf()
        &&& !self.in_body ==> self.part.count == LENGTH_SIZE
        &&& self.in_body ==> length_allowed(self.part.count)
    }

    /// What is needed at the given time. Once the length is there and allowed, the message
    /// itself is read, with a limit of its own; an empty message is complete at once.
    pub open spec fn next(self, now: u64) -> (MessageReadView, TransferStepView) {
        let step = self.part.step(now);
        if self.in_body || !(step is Complete) {
            (self, step)
        } else {
            let length = announced(self.part.received, self.order);
            if !length_allowed(length) {
                (self, TransferStepView::Failed(ErrorView::InvalidMessageSize(length as i64)))
            } else {
                let part = ReadAllView::start(length, self.timeout, now);
                (MessageReadView { in_body: true, part, ..self }, part.step(now))
            }
        }
    }
}

impl MessageRead {
    /// Starts to read a message at the time `now`, in nanoseconds
    pub fn new(order: ByteOrder, timeout: bool, now: u64) -> (r: MessageRead)
        ensures
            r@ == MessageReadView::start(order, timeout, now),
            r@.wf(),
    {
        MessageRead {
            order,
            timeout,
            in_body: false,
            part: ReadAll::new(LENGTH_SIZE, timeout, now),
        }
    }

    /// What is needed next at the time `now`
    pub fn poll(&mut self, now: u64) -> (r: TransferStep)
        requires
            old(self)@.wf(),
        ensures
            (final(self)@, r@) == old(self)@.next(now),
            final(self)@.wf(),
    {
        let step = self.part.poll(now);
        if self.in_body {
            return step;
        }
        match step {
            TransferStep::Complete => {
                let prefix = self.part.received.as_slice();
                match read_length(prefix, self.order) {
                    Ok(length) => {
                        self.in_body = true;
                        self.part = ReadAll::new(length, self.timeout, now);
                        self.part.poll(now)
                    },
                    Err(e) => TransferStep::Failed(e),
                }
            },
            other => other,
        }
    }

    /// How many bytes are to be received next
    pub fn remaining(&self) -> (r: usize)
        requires
            self@.wf(),
        ensures
            r == self@.part.count - self@.part.received.len(),
    {
        self.part.remaining()
    }

    /// Takes what the socket gave for the bytes that remain
    pub fn received(&mut self, outcome: Result<Vec<u8>, Error>) -> (r: AnswerStep)
        requires
            old(self)@.wf(),
            outcome matches Ok(data) ==> data@.len() <= old(self)@.part.count - old(
                self,
            )@.part.received.len(),
        ensures
            ({
                let (part, step) = old(self)@.part.answered(result_view(outcome));
                final(self)@ == (MessageReadView { part, ..old(self)@ }) && r@ == step
            }),
            final(self)@.wf(),
    {
        self.part.received(outcome)
    }

    /// The message, once it is complete
    pub fn into_bytes(self) -> (r: Vec<u8>)
        requires
            self@.in_body,
        ensures
            r@ == self@.part.received,
    {
        self.part.into_bytes()
    }
}

/// The packet that a message holds. An empty message holds none.
pub open spec fn packet_of(message: Seq<u8>) -> Result<Option<PacketView>, ErrorView> {
    if message.len() == 0 {
        Ok(None)
    } else {
        match deserialized(message) {
            Ok(packet) => Ok(Some(packet)),
            Err(e) => Err(e),
        }
    }
}

/// Deserializes the packet that a message holds
pub fn read_packet(message: &[u8]) -> (r: Result<Option<Packet>, Error>)
    ensures
        crate::backed_reader::read_view(r) == packet_of(message@),
{
    if message.len() == 0 {
        return Ok(None);
    }
    match Packet::from_bytes(message) {
        Ok(packet) => Ok(Some(packet)),
        Err(e) => Err(e),
    }
}

/// Writes a length-prefixed message
#[derive(Debug)]
pub struct MessageWrite {
    timeout: bool,
    body: Option<Vec<u8>>,
    part: WriteAll,
}

/// The state of a [`MessageWrite`].
pub struct MessageWriteView {
    /// Whether the short limit applies to each part
    pub timeout: bool,
    /// The message itself, until its turn comes
    pub body: Option<Seq<u8>>,
    /// The part that is being written: the length, or the message itself
    pub part: WriteAllView,
}

impl View for MessageWrite {
    type V = MessageWriteView;

    closed spec fn view(&self) -> MessageWriteView {
        MessageWriteView {
            timeout: self.timeout,
            body: option_view(self.body),
            part: self.part@,
        }
    }
}

impl MessageWriteView {
    /// The state at the start, or the error where the message is too long.
    pub open spec fn start(data: Seq<u8>, order: ByteOrder, timeout: bool, now: u64) -> Result<
        MessageWriteView,
        ErrorView,
    > {
        if data.len() > MAX_MESSAGE_SIZE {
            Err(ErrorView::InvalidMessageSize((data.len() as usize) as i64))
        } else {
            Ok(
                MessageWriteView {
                    timeout,
                    body: if data.len() > 0 {
                        Some(data)
                    } else {
                        None
                    },
                    part: WriteAllView::start(length_prefix(data.len(), order), timeout, now),
                },
            )
        }
    }

    /// What is needed at the given time. Once the length has been written, the message itself
    /// is, with a limit of its own.
    pub open spec fn next(self, now: u64) -> (MessageWriteView, TransferStepView) {
        let step = self.part.step(now);
        match (step, self.body) {
            (TransferStepView::Complete, Some(data)) => {
                let part = WriteAllView::start(data, self.timeout, now);
                (MessageWriteView { body: None, part, ..self }, part.step(now))
            },
            _ => (self, step),
        }
    }
}

impl MessageWrite {
    /// Starts to write a message at the time `now`, in nanoseconds
    pub fn new(data: Vec<u8>, order: ByteOrder, timeout: bool, now: u64) -> (r: Result<
        MessageWrite,
        Error,
    >)
        ensures
            result_view(r) == MessageWriteView::start(data@, order, timeout, now),
    {
        if data.len() as u64 > MAX_MESSAGE_SIZE as u64 {
            return Err(
                Error::InvalidMessageSize(
                    #[verifier::truncate]
                    (data.len() as i64),
                ),
            );
        }
        let prefix = encode(data.len() as u64, LENGTH_SIZE, order);
        Ok(
            MessageWrite {
                timeout,
                part: WriteAll::new(prefix, timeout, now),
                body: if data.len() > 0 {
                    Some(data)
                } else {
                    None
                },
            },
        )
    }

    /// Starts to write a packet as a message at the time `now`, in nanoseconds
    pub fn for_packet(packet: &Packet, order: ByteOrder, now: u64) -> (r: Result<
        MessageWrite,
        Error,
    >)
        requires
            packet@.len() <= isize::MAX,
        ensures
            result_view(r) == MessageWriteView::start(packet@.serialized(), order, false, now),
    {
        MessageWrite::new(packet.serialize(), order, false, now)
    }

    /// What is needed next at the time `now`
    pub fn poll(&mut self, now: u64) -> (r: TransferStep)
        ensures
            (final(self)@, r@) == old(self)@.next(now),
    {
        let step = self.part.poll(now);
        match step {
            TransferStep::Complete => {
                match self.body.take() {
                    Some(data) => {
                        self.part = WriteAll::new(data, self.timeout, now);
                        self.part.poll(now)
                    },
                    None => TransferStep::Complete,
                }
            },
            other => other,
        }
    }

    /// The bytes to be written next
    pub fn rest(&self) -> (r: &[u8])
        requires
            self@.part.written <= self@.part.data.len(),
        ensures
            r@ == self@.part.data.skip(self@.part.written),
    {
        self.part.rest()
    }

    /// Takes how many bytes of the rest the socket took
    pub fn sent(&mut self, outcome: Result<usize, Error>) -> (r: AnswerStep)
        requires
            outcome matches Ok(n) ==> old(self)@.part.written + n <= usize::MAX,
        ensures
            ({
                let (part, step) = old(self)@.part.answered(count_view(outcome));
                final(self)@ == (MessageWriteView { part, ..old(self)@ }) && r@ == step
            }),
    {
        self.part.sent(outcome)
    }
}

/// The bytes that writing a message puts on the wire: its length and the message.
pub open spec fn message_bytes(data: Seq<u8>, order: ByteOrder) -> Seq<u8> {
    length_prefix(data.len(), order) + data
}

/// A message that may be written is one that may be read: the length that it announces is its
/// own, and is allowed.
pub proof fn law_message_length_round_trip(data: Seq<u8>, order: ByteOrder)
    requires
        data.len() <= MAX_MESSAGE_SIZE,
    ensures
        length_prefix(data.len(), order).len() == LENGTH_SIZE,
        announced(length_prefix(data.len(), order), order) == data.len(),
        length_allowed(announced(length_prefix(data.len(), order), order)),
        message_bytes(data, order).take(LENGTH_SIZE as int) == length_prefix(data.len(), order),
        message_bytes(data, order).skip(LENGTH_SIZE as int) == data,
{
    lemma_pow256_values();
    law_bytes_round_trip(data.len(), LENGTH_SIZE as nat, order);
    assert(message_bytes(data, order).take(8) =~= length_prefix(data.len(), order));
    assert(message_bytes(data, order).skip(8) =~= data);
}

/// Some pieces, one after the other.
pub open spec fn joined(pieces: Seq<Seq<u8>>) -> Seq<u8>
    decreases pieces.len(),
{
    if pieces.len() == 0 {
        Seq::empty()
    } else {
        joined(pieces.drop_last()) + pieces.last()
    }
}

impl ReadAllView {
    /// The state once the socket has given some pieces.
    pub open spec fn given(self, pieces: Seq<Seq<u8>>) -> ReadAllView
        decreases pieces.len(),
    {
        if pieces.len() == 0 {
            self
        } else {
            self.given(pieces.drop_last()).answered(Ok(pieces.last())).0
        }
    }
}

impl WriteAllView {
    /// The state once the socket has taken some bytes, so many at a time.
    pub open spec fn taken(self, counts: Seq<usize>) -> WriteAllView
        decreases counts.len(),
    {
        if counts.len() == 0 {
            self
        } else {
            self.taken(counts.drop_last()).answered(Ok(counts.last())).0
        }
    }

    /// The bytes that a socket has taken which took so many at a time.
    pub open spec fn bytes_taken(self, counts: Seq<usize>) -> Seq<u8>
        decreases counts.len(),
    {
        if counts.len() == 0 {
            Seq::empty()
        } else {
            let before = self.taken(counts.drop_last());
            self.bytes_taken(counts.drop_last()) + before.data.subrange(
                before.written,
                before.written + counts.last(),
            )
        }
    }
}

/// However the socket cuts what it gives, what has been received is all of it in order.
pub proof fn law_pieces_are_received_in_order(read: ReadAllView, pieces: Seq<Seq<u8>>)
    requires
        forall|i: int| 0 <= i < pieces.len() ==> (#[trigger] pieces[i]).len() > 0,
    ensures
        read.given(pieces) == (ReadAllView {
            received: read.received + joined(pieces),
            ..read
        }),
    decreases pieces.len(),
{
    if pieces.len() == 0 {
        assert(read.received + joined(pieces) =~= read.received);
    } else {
        let before = pieces.drop_last();
        assert forall|i: int| 0 <= i < before.len() implies (#[trigger] before[i]).len() > 0 by {
            assert(before[i] == pieces[i]);
        }
        law_pieces_are_received_in_order(read, before);
        assert(pieces[pieces.len() - 1].len() > 0);
        assert(read.received + joined(before) + pieces.last() =~= read.received + joined(pieces));
    }
}

/// However the socket cuts what it takes, what it has taken is the data from its start, and all
/// of it once the transfer is complete.
pub proof fn law_bytes_are_written_in_order(
    data: Seq<u8>,
    timeout: bool,
    now: u64,
    counts: Seq<usize>,
)
    requires
        forall|k: int|
            0 <= k < counts.len() ==> WriteAllView::start(data, timeout, now).taken(
                #[trigger] counts.take(k),
            ).written + counts[k] <= data.len(),
    ensures
        ({
            let start = WriteAllView::start(data, timeout, now);
            let after = start.taken(counts);
            &&& after.data == data
            &&& 0 <= after.written <= data.len()
            &&& start.bytes_taken(counts) == data.take(after.written)
            &&& after.step(now) is Complete ==> start.bytes_taken(counts) == data
        }),
    decreases counts.len(),
{
    let start = WriteAllView::start(data, timeout, now);
    if counts.len() == 0 {
        assert(start.bytes_taken(counts) =~= data.take(0));
        assert(data.len() == 0 ==> data.take(0) =~= data);
    } else {
        let before = counts.drop_last();
        assert forall|k: int| 0 <= k < before.len() implies start.taken(
            #[trigger] before.take(k),
        ).written + before[k] <= data.len() by {
            assert(before.take(k) =~= counts.take(k));
        }
        law_bytes_are_written_in_order(data, timeout, now, before);
        assert(counts.take(counts.len() - 1) =~= before);
        let after = start.taken(counts);
        assert(start.bytes_taken(counts) =~= data.take(after.written));
        assert(after.written == data.len() ==> data.take(after.written) =~= data);
    }
}

/// A message that was written is read back: its length leads to a body of that length, which is
/// complete once all of the message has come.
pub proof fn law_message_round_trip(
    data: Seq<u8>,
    order: ByteOrder,
    timeout: bool,
    started: u64,
    now: u64,
)
    requires
        data.len() <= MAX_MESSAGE_SIZE,
    ensures
        ({
            let reading = MessageReadView::start(order, timeout, started);
            let prefix_read = MessageReadView {
                part: reading.part.answered(
                    Ok(message_bytes(data, order).take(LENGTH_SIZE as int)),
                ).0,
                ..reading
            };
            let (body, step) = prefix_read.next(now);
            &&& body.in_body
            &&& body.part == ReadAllView::start(data.len() as int, timeout, now)
            &&& step is Complete <==> data.len() == 0
            &&& data.len() > 0 ==> ({
                let (part, _) = body.part.answered(
                    Ok(message_bytes(data, order).skip(LENGTH_SIZE as int)),
                );
                part.received == data && part.step(now) is Complete
            })
        }),
{
    law_message_length_round_trip(data, order);
    let prefix = length_prefix(data.len(), order);
    assert(Seq::<u8>::empty() + prefix =~= prefix);
    assert(Seq::<u8>::empty() + data =~= data);
}

/// A packet written as a message is read back as the packet.
pub proof fn law_packet_message_round_trip(packet: PacketView)
    ensures
        packet_of(packet.serialized()) == Ok::<Option<PacketView>, ErrorView>(Some(packet)),
{
    crate::packet::law_packet_round_trip(packet);
}

/// The text that base64's standard engine makes of bytes.
pub uninterp spec fn base64_text(bytes: Seq<u8>) -> Seq<char>;

/// What base64's standard engine makes of a text: the bytes, or its description of the error.
pub uninterp spec fn base64_bytes(text: Seq<char>) -> Result<Seq<u8>, Seq<char>>;

/// The text that the standard library makes of bytes, with invalid UTF-8 replaced.
pub uninterp spec fn lossy_text(bytes: Seq<u8>) -> Seq<char>;

/// Whether a character can stand in base64 text.
pub open spec fn is_base64_char(c: char) -> bool {
    ||| 'A' <= c <= 'Z'
    ||| 'a' <= c <= 'z'
    ||| '0' <= c <= '9'
    ||| c == '+'
    ||| c == '/'
    ||| c == '='
}

/// Whether a text is made of characters of base64 text.
pub open spec fn is_base64(text: Seq<char>) -> bool {
    forall|i: int| 0 <= i < text.len() ==> is_base64_char(#[trigger] text[i])
}

/// A successful decoding.
pub open spec fn decodes_to(bytes: Seq<u8>) -> Result<Seq<u8>, Seq<char>> {
    Ok(bytes)
}

/// The number of characters of base64 text for `n` bytes, padding included.
pub open spec fn base64_length(n: nat) -> nat {
    (n + 2) / 3 * 4
}

/// Calls `base64::engine::general_purpose::STANDARD.encode`. Claimed is that the text depends on
/// the bytes alone, that it is made of the letters, the digits, `+`, `/` and `=`, that it has four
/// characters for every three bytes begun, and that decoding it gives the bytes. The call
/// allocates the text in one piece, so its length has to stay within the largest allocation.
#[verifier::external_body]
pub(crate) fn base64_encode(bytes: &[u8]) -> (text: String)
    requires
        base64_length(bytes@.len()) <= isize::MAX,
    ensures
        text@ == base64_text(bytes@),
        text@.len() == base64_length(bytes@.len()),
        is_base64(text@),
        base64_bytes(text@) == decodes_to(bytes@),
{
    base64::engine::general_purpose::STANDARD.encode(bytes)
}

/// Calls `base64::engine::general_purpose::STANDARD.decode`. Claimed is only that what it returns
/// depends on the text alone; an error is given by its description.
#[verifier::external_body]
fn base64_decode(text: &str) -> (r: Result<Vec<u8>, String>)
    ensures
        match (r, base64_bytes(text@)) {
            (Ok(bytes), Ok(expected)) => bytes@ == expected,
            (Err(description), Err(expected)) => description@ == expected,
            _ => false,
        },
{
    base64::engine::general_purpose::STANDARD.decode(text).map_err(|e| e.to_string())
}

/// Calls `String::from_utf8_lossy`. Claimed is that the text depends on the bytes alone, and that
/// bytes which are valid UTF-8 give the text that they encode. An invalid byte becomes three, so
/// three times as many have to stay within the largest allocation.
#[verifier::external_body]
fn utf8_lossy(bytes: &[u8]) -> (text: String)
    requires
        3 * bytes@.len() <= isize::MAX,
    ensures
        text@ == lossy_text(bytes@),
        valid_utf8(bytes@) ==> text@ == decode_utf8(bytes@),
{
    String::from_utf8_lossy(bytes).into_owned()
}

/// Whether the base64 text of some bytes is base64 text of the proper length, and decodes to
/// them.
pub open spec fn written_in_base64(bytes: Seq<u8>) -> bool {
    &&& is_base64(base64_text(bytes))
    &&& base64_text(bytes).len() == base64_length(bytes.len())
    &&& base64_bytes(base64_text(bytes)) == decodes_to(bytes)
}

proof fn lemma_base64_is_trimmed(text: Seq<char>)
    requires
        is_base64(text),
    ensures
        trim_spec(text) == text,
{
    if text.len() > 0 {
        assert(is_base64_char(text[0]));
        assert(is_base64_char(text.last()));
    }
}

/// Starts to send a base64-encoded version of the provided buffer
pub fn write_b64(buf: &[u8], now: u64) -> (r: WriteAll)
    requires
        base64_length(buf@.len()) <= isize::MAX,
    ensures
        r@ == WriteAllView::start(encode_utf8(base64_text(buf@)), false, now),
        r@.data.len() == base64_length(buf@.len()),
        written_in_base64(buf@),
{
    let encoded = base64_encode(buf);
    proof {
        vstd::utf8::is_ascii_chars_encode_utf8(encoded@);
    }
    WriteAll::new(slice_to_vec(encoded.as_str().as_bytes()), false, now)
}

/// Starts to read the base64 text of `count` bytes
pub fn read_b64(count: usize, now: u64) -> (r: ReadAll)
    requires
        base64_length(count as nat) <= usize::MAX,
    ensures
        r@ == ReadAllView::start(base64_length(count as nat) as int, false, now),
        r@.wf(),
{
    let mut encoded_len: usize = count / 3 * 4;
    if count % 3 != 0 {
        encoded_len = encoded_len + 4;
    }
    ReadAll::new(encoded_len, false, now)
}

/// The text that received bytes stand for: what they encode, or else what the standard library
/// makes of them.
pub open spec fn text_of(bytes: Seq<u8>) -> Seq<char> {
    if valid_utf8(bytes) {
        decode_utf8(bytes)
    } else {
        lossy_text(bytes)
    }
}

/// The bytes that received base64 text stands for, white space around it set aside.
pub open spec fn decoded_b64(encoded: Seq<u8>) -> Result<Seq<u8>, ErrorView> {
    match base64_bytes(trim_spec(text_of(encoded))) {
        Ok(bytes) => Ok(bytes),
        Err(description) => Err(ErrorView::Protocol("Base64 decode error: "@ + description)),
    }
}

/// Decodes received base64 text
pub fn decode_b64(encoded: &[u8]) -> (r: Result<Vec<u8>, Error>)
    requires
        3 * encoded@.len() <= isize::MAX,
    ensures
        result_view(r) == decoded_b64(encoded@),
{
    let text = utf8_lossy(encoded);
    b64_result(base64_decode(trim(text.as_str())))
}

/// What reading base64 data returns, given what decoding returned
pub fn b64_result(decoded: Result<Vec<u8>, String>) -> (r: Result<Vec<u8>, Error>)
    ensures
        match (decoded, r) {
            (Ok(bytes), Ok(result)) => result@ == bytes@,
            (Err(description), Err(e)) => e@ == ErrorView::Protocol(
                "Base64 decode error: "@ + description@,
            ),
            _ => false,
        },
{
    match decoded {
        Ok(bytes) => Ok(bytes),
        Err(description) => {
            let mut text = "Base64 decode error: ".to_owned();
            text.append(description.as_str());
            Err(Error::Protocol(text))
        },
    }
}

/// What was written in base64 is read back, whatever its length: however the socket cuts the
/// text, a read for as many bytes is complete when all of the text has come, and not before, and
/// decoding what it holds gives the bytes.
pub proof fn law_b64_round_trip(
    bytes: Seq<u8>,
    pieces: Seq<Seq<u8>>,
    missing: Seq<u8>,
    now: u64,
)
    requires
        written_in_base64(bytes),
        forall|i: int| 0 <= i < pieces.len() ==> (#[trigger] pieces[i]).len() > 0,
        joined(pieces) + missing == encode_utf8(base64_text(bytes)),
    ensures
        ({
            let read = ReadAllView::start(
                base64_length(bytes.len()) as int,
                false,
                now,
            ).given(pieces);
            &&& read.wf()
            &&& read.step(now) is Complete <==> missing.len() == 0
            &&& missing.len() == 0 ==> decoded_b64(read.received) == Ok::<Seq<u8>, ErrorView>(bytes)
        }),
{
    let text = base64_text(bytes);
    let start = ReadAllView::start(base64_length(bytes.len()) as int, false, now);
    law_pieces_are_received_in_order(start, pieces);
    assert(start.received + joined(pieces) =~= joined(pieces));
    assert(missing.len() == 0 ==> joined(pieces) + missing =~= joined(pieces));
    vstd::utf8::is_ascii_chars_encode_utf8(text);
    vstd::utf8::encode_utf8_valid_utf8(text);
    vstd::utf8::encode_utf8_decode_utf8(text);
    lemma_base64_is_trimmed(text);
}

/// Raw socket utility functions for blocking I/O
pub struct RawSocketUtils;

/// What follows from an answer of a raw descriptor
#[derive(Debug)]
pub enum RawStep {
    /// Every byte has been transferred
    Complete,
    /// So many bytes have been transferred; the descriptor is to be asked for the rest
    Proceed { transferred: usize },
    /// The descriptor is to be asked again after a wait
    Wait { micros: u64 },
    /// The transfer has failed
    Failed(Error),
}

/// What a [`RawStep`] says.
pub enum RawStepView {
    Complete,
    Proceed { transferred: int },
    Wait { micros: u64 },
    Failed(ErrorView),
}

impl View for RawStep {
    type V = RawStepView;

    open spec fn view(&self) -> RawStepView {
        match *self {
            RawStep::Complete => RawStepView::Complete,
            RawStep::Proceed { transferred } => RawStepView::Proceed {
                transferred: transferred as int,
            },
            RawStep::Wait { micros } => RawStepView::Wait { micros },
            RawStep::Failed(e) => RawStepView::Failed(e@),
        }
    }
}

/// What follows once `transferred` of `total` bytes are through.
pub open spec fn raw_progress(transferred: int, total: int) -> RawStepView {
    if transferred < total {
        RawStepView::Proceed { transferred }
    } else {
        RawStepView::Complete
    }
}

/// What follows from a failed call on a raw descriptor.
pub open spec fn raw_failure(e: IoError) -> RawStepView {
    if e.kind == IoKind::WouldBlock || e.kind == IoKind::Interrupted {
        RawStepView::Wait { micros: BLOCKED_WAIT_MICROS }
    } else {
        RawStepView::Failed(ErrorView::Io(e.kind, e.message@))
    }
}

impl RawSocketUtils {
    fn failure(e: IoError) -> (r: RawStep)
        ensures
            r@ == raw_failure(e),
    {
        if e.kind == IoKind::WouldBlock || e.kind == IoKind::Interrupted {
            RawStep::Wait { micros: BLOCKED_WAIT_MICROS }
        } else {
            RawStep::Failed(Error::Io(e))
        }
    }

    /// What is needed before the descriptor has been asked for any of `total` bytes
    pub fn begin(total: usize) -> (r: RawStep)
        ensures
            r@ == raw_progress(0, total as int),
    {
        if total > 0 {
            RawStep::Proceed { transferred: 0 }
        } else {
            RawStep::Complete
        }
    }

    /// Goes on writing `total` bytes, `written` of which are through: `outcome` is what writing
    /// the rest returned
    pub fn write_all(written: usize, total: usize, outcome: Result<usize, IoError>) -> (r: RawStep)
        requires
            outcome matches Ok(n) ==> written + n <= usize::MAX,
        ensures
            r@ == match outcome {
                Ok(n) => raw_progress(written + n, total as int),
                Err(e) => raw_failure(e),
            },
    {
        match outcome {
            Ok(n) => {
                let through: usize = written + n;
                if through < total {
                    RawStep::Proceed { transferred: through }
                } else {
                    RawStep::Complete
                }
            },
            Err(e) => RawSocketUtils::failure(e),
        }
    }

    /// Goes on reading `total` bytes, `received` of which are there: `outcome` is what reading
    /// the rest returned
    pub fn read_all(received: usize, total: usize, outcome: Result<usize, IoError>) -> (r: RawStep)
        requires
            outcome matches Ok(n) ==> received + n <= usize::MAX,
        ensures
            r@ == match outcome {
                Ok(n) => if n == 0 {
                    RawStepView::Failed(ErrorView::ConnectionClosed)
                } else {
                    raw_progress(received + n, total as int)
                },
                Err(e) => raw_failure(e),
            },
    {
        match outcome {
            Ok(n) => {
                if n == 0 {
                    return RawStep::Failed(Error::ConnectionClosed);
                }
                let through: usize = received + n;
                if through < total {
                    RawStep::Proceed { transferred: through }
                } else {
                    RawStep::Complete
                }
            },
            Err(e) => RawSocketUtils::failure(e),
        }
    }
}

/// A transfer that is not complete goes on for as long as it may take, five seconds with a timeout
/// and five minutes without, and then fails; one that is complete never fails.
pub proof fn law_transfer_fails_only_when_late(read: ReadAllView, write: WriteAllView, now: u64)
    ensures
        ({
            let limit: int = if read.timeout { 5_000_000_000 } else { 300_000_000_000 };
            let complete = read.received.len() == read.count;
            &&& complete ==> read.step(now) is Complete
            &&& !complete && now - read.started > limit ==> read.step(now)
                == TransferStepView::Failed(ErrorView::Timeout)
            &&& !complete && now - read.started <= limit ==> read.step(now) is Proceed
        }),
        ({
            let limit: int = if write.timeout { 5_000_000_000 } else { 300_000_000_000 };
            let complete = write.written >= write.data.len();
            &&& complete ==> write.step(now) is Complete
            &&& !complete && now - write.started > limit ==> write.step(now)
                == TransferStepView::Failed(ErrorView::Timeout)
            &&& !complete && now - write.started <= limit ==> write.step(now) is Proceed
        }),
{
}

/// A socket that would have to wait is asked again after a millisecond, and any other error ends a
/// transfer; neither changes what has been transferred. A socket that gives nothing is closed.
pub proof fn law_blocked_transfer_waits(
    read: ReadAllView,
    write: WriteAllView,
    text: Seq<char>,
    error: ErrorView,
    data: Seq<u8>,
    taken: usize,
)
    requires
        error matches ErrorView::Io(kind, _) ==> !(kind is WouldBlock),
    ensures
        ({
            let blocked = ErrorView::Io(IoKind::WouldBlock, text);
            &&& read.answered(Err(blocked)) == (read, AnswerStepView::Wait { micros: 1000 })
            &&& write.answered(Err(blocked)) == (write, AnswerStepView::Wait { micros: 1000 })
        }),
        read.answered(Err(error)) == (read, AnswerStepView::Failed(error)),
        write.answered(Err(error)) == (write, AnswerStepView::Failed(error)),
        read.answered(Ok(Seq::empty())) == (
            read,
            AnswerStepView::Failed(ErrorView::ConnectionClosed),
        ),
        data.len() > 0 ==> {
            let (after, step) = read.answered(Ok(data));
            &&& step is Continue
            &&& after.received == read.received + data
            &&& after.count == read.count && after.timeout == read.timeout && after.started
                == read.started
        },
        ({
            let (after, step) = write.answered(Ok(taken));
            &&& step is Continue
            &&& after.written == write.written + taken
            &&& after.data == write.data && after.timeout == write.timeout && after.started
                == write.started
        }),
{
}

/// A message longer than 128 MB is neither written nor read: writing it fails at once with its
/// length, and so does reading one that announces such a length or a negative one.
pub proof fn law_long_messages_are_refused(
    data: Seq<u8>,
    read: MessageReadView,
    order: ByteOrder,
    timeout: bool,
    now: u64,
)
    requires
        data.len() <= i64::MAX,
        data.len() <= usize::MAX,
        !read.in_body,
        read.part.received.len() == read.part.count,
    ensures
        ({
            let start = MessageWriteView::start(data, order, timeout, now);
            &&& start is Err <==> data.len() > 134_217_728
            &&& start matches Err(e) ==> e == ErrorView::InvalidMessageSize(data.len() as i64)
            &&& start matches Ok(write) ==> {
                &&& write.part.data == length_prefix(data.len(), order)
                &&& write.part.written == 0 && write.part.started == now
                &&& write.timeout == timeout && write.part.timeout == timeout
                &&& write.body is Some <==> data.len() > 0
                &&& write.body matches Some(body) ==> body == data
            }
        }),
        ({
            let length = announced(read.part.received, read.order);
            let (after, step) = read.next(now);
            &&& length < 0 || length > 134_217_728 ==> step == TransferStepView::Failed(
                ErrorView::InvalidMessageSize(length as i64),
            )
            &&& 0 <= length <= 134_217_728 ==> {
                &&& after.in_body && after.order == read.order && after.timeout == read.timeout
                &&& after.part.count == length && after.part.received.len() == 0
                &&& after.part.started == now && after.part.timeout == read.timeout
                &&& step is Complete <==> length == 0
                &&& step is Proceed <==> length > 0
            }
        }),
{
}

/// A message is written after its length: once the length is through, the message itself is next,
/// with a limit of its own, and once that is through too, the write is complete.
pub proof fn law_message_follows_its_length(write: MessageWriteView, now: u64)
    ensures
        ({
            let (after, step) = write.next(now);
            let through = write.part.written >= write.part.data.len();
            &&& !through ==> after == write && step == write.part.step(now)
            &&& through && write.body is None ==> after == write && step is Complete
            &&& through && write.body is Some ==> {
                &&& after.body is None
                &&& after.part.data == write.body->0
                &&& after.part.written == 0 && after.part.started == now
                &&& after.part.timeout == write.timeout && after.timeout == write.timeout
                &&& write.body->0.len() > 0 ==> step is Proceed
            }
        }),
{
}

/// A message of no bytes holds no packet, and any other the packet that it is read as.
pub proof fn law_empty_message_holds_no_packet(message: Seq<u8>)
    ensures
        message.len() == 0 ==> packet_of(message) == Ok::<Option<PacketView>, ErrorView>(None),
        message.len() >= 2 ==> packet_of(message) is Ok && packet_of(message)->Ok_0 is Some,
        message.len() == 1 ==> packet_of(message) is Err,
{
}

/// Three bytes, or what is left of them, take four characters of base64 text.
pub proof fn law_base64_takes_four_characters_for_three_bytes(k: nat)
    ensures
        base64_length(3 * k) == 4 * k,
        base64_length(3 * k + 1) == 4 * k + 4,
        base64_length(3 * k + 2) == 4 * k + 4,
{
}

/// A transfer over a raw descriptor is complete once every byte is through, and goes on from where
/// it is until then. A descriptor that would have to wait, or was interrupted, is asked again after
/// a millisecond; any other failure ends the transfer.
pub proof fn law_raw_transfer_goes_on(transferred: int, total: int, error: IoError)
    ensures
        transferred < total ==> raw_progress(transferred, total) == (RawStepView::Proceed {
            transferred,
        }),
        transferred >= total ==> raw_progress(transferred, total) is Complete,
        error.kind is WouldBlock || error.kind is Interrupted ==> raw_failure(error)
            == (RawStepView::Wait { micros: 1000 }),
        !(error.kind is WouldBlock) && !(error.kind is Interrupted) ==> raw_failure(error)
            == RawStepView::Failed(ErrorView::Io(error.kind, error.message@)),
{
}

/// A transfer begins with nothing transferred at the time at which it starts, and a message with
/// the eight bytes of its length.
pub proof fn law_transfers_begin_with_nothing(
    count: int,
    data: Seq<u8>,
    order: ByteOrder,
    timeout: bool,
    now: u64,
)
    ensures
        ({
            let read = ReadAllView::start(count, timeout, now);
            &&& read.received.len() == 0 && read.count == count
            &&& read.timeout == timeout && read.started == now
        }),
        ({
            let write = WriteAllView::start(data, timeout, now);
            &&& write.data == data && write.written == 0
            &&& write.timeout == timeout && write.started == now
        }),
        ({
            let message = MessageReadView::start(order, timeout, now);
            &&& !message.in_body && message.order == order && message.timeout == timeout
            &&& message.part.count == 8 && message.part.received.len() == 0
            &&& message.part.timeout == timeout && message.part.started == now
        }),
{
}

/// While its length is not complete, a message asks for what is missing of it, and once it is, for
/// what is missing of the message, until that is complete too.
pub proof fn law_message_part_is_read_on(message: MessageReadView, now: u64)
    requires
        message.in_body || message.part.received.len() != message.part.count,
    ensures
        message.next(now) == (message, message.part.step(now)),
{
}

/// Base64 text that cannot be decoded is a protocol error that gives the description.
pub proof fn law_bad_base64_is_a_protocol_error(encoded: Seq<u8>)
    ensures
        match base64_bytes(trim_spec(text_of(encoded))) {
            Ok(bytes) => decoded_b64(encoded) == Ok::<Seq<u8>, ErrorView>(bytes),
            Err(description) => decoded_b64(encoded) == Err::<Seq<u8>, ErrorView>(
                ErrorView::Protocol("Base64 decode error: "@ + description),
            ),
        },
{
}

/// A descriptor that gives no bytes has been closed; any other answer brings a raw transfer on by
/// as many bytes as it says, to its end once that makes all of them.
pub proof fn law_raw_answer_brings_the_transfer_on(
    through: usize,
    total: usize,
    n: usize,
    read: RawStep,
    written: RawStep,
)
    requires
        through + n <= usize::MAX,
        call_ensures(RawSocketUtils::read_all, (through, total, Ok(n)), read),
        call_ensures(RawSocketUtils::write_all, (through, total, Ok(n)), written),
    ensures
        n == 0 ==> read@ == RawStepView::Failed(ErrorView::ConnectionClosed),
        n > 0 && through + n < total ==> read@ == (RawStepView::Proceed {
            transferred: through + n,
        }),
        n > 0 && through + n >= total ==> read@ is Complete,
        through + n < total ==> written@ == (RawStepView::Proceed { transferred: through + n }),
        through + n >= total ==> written@ is Complete,
{
}

} // verus!
