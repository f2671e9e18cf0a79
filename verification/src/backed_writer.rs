//! Backed writer for connection recovery
//!
//! This module provides a writer that maintains backup buffers for reconnection scenarios. The
//! writer does no I/O of its own: it says which bytes go to which socket, and is told how many
//! of them the socket took.
use std::collections::VecDeque;
use vstd::prelude::*;
use vstd::slice::slice_subrange;

use crate::crypto::{CryptoHandler, CryptoView, MACBYTES};
use crate::error::{Error, ErrorView};
use crate::packet::{Packet, PacketView};
use crate::text::views;
use crate::wire::{be_bytes, encode, lemma_bytes_len, ByteOrder};
use crate::NO_SOCKET;

verus! {

/// Maximum bytes kept in the recovery backup (64 MB)
pub const MAX_BACKUP_BYTES: i64 = 64 * 1024 * 1024;

/// How long to wait after a write that took only a part of the bytes, in microseconds
pub const PARTIAL_WRITE_WAIT_MICROS: u64 = 1000;

/// Describes whether a write succeeded, was skipped, or partially lost data
#[derive(Debug, Clone, Copy, PartialEq, Eq, Structural)]
pub enum WriteState {
    /// Write attempt skipped because no socket is available
    Skipped,
    /// All bytes were transmitted successfully
    Success,
    /// Some bytes were written but the socket failed before completion
    WroteWithFailure,
    /// Write attempt refused because the packet is encrypted already
    Refused,
}

/// A message on its way to the socket
#[derive(Debug)]
pub struct PendingWrite {
    data: Vec<u8>,
    bytes_written: usize,
}

/// What a [`PendingWrite`] holds.
pub struct PendingView {
    /// The whole message with its length in front
    pub data: Seq<u8>,
    /// How many of its bytes the socket has taken
    pub written: int,
}

impl View for PendingWrite {
    type V = PendingView;

    closed spec fn view(&self) -> PendingView {
        PendingView { data: self.data@, written: self.bytes_written as int }
    }
}

impl PendingView {
    /// A pending message has bytes left to send.
    pub open spec fn wf(self) -> bool {
        0 <= self.written < self.data.len()
    }
}

/// What a write needs next
#[derive(Debug)]
pub enum WriteStep {
    /// The write is over
    Finished(WriteState),
    /// The rest of the message is to be written to `fd`, and the outcome handed to `sent`
    Send { fd: i32, pending: PendingWrite },
    /// The caller is to wait and then to go on with `resume`
    Wait { micros: u64, pending: PendingWrite },
}

/// What a [`WriteStep`] says.
pub enum WriteStepView {
    Finished(WriteState),
    Send { fd: i32, pending: PendingView },
    Wait { micros: u64, pending: PendingView },
}

impl View for WriteStep {
    type V = WriteStepView;

    open spec fn view(&self) -> WriteStepView {
        match *self {
            WriteStep::Finished(state) => WriteStepView::Finished(state),
            WriteStep::Send { fd, pending } => WriteStepView::Send { fd, pending: pending@ },
            WriteStep::Wait { micros, pending } => WriteStepView::Wait {
                micros,
                pending: pending@,
            },
        }
    }
}

impl WriteStepView {
    /// The message that the step carries has bytes left to send.
    pub open spec fn wf(self) -> bool {
        match self {
            WriteStepView::Finished(_) => true,
            WriteStepView::Send { fd, pending } => fd >= 0 && pending.wf(),
            WriteStepView::Wait { pending, .. } => pending.wf(),
        }
    }
}

/// Writes packets to a socket while maintaining an in-memory backup for recovery
pub struct BackedWriter {
    /// Encryption helper used before storing packets
    crypto_handler: CryptoHandler,
    /// Current socket file descriptor for writes
    socket_fd: i32,
    /// Buffer of encrypted packets that may need to be replayed, latest first
    backup_buffer: VecDeque<Packet>,
    /// Running size of the backup buffer
    backup_size: i64,
    /// Sequence number that increments each time a packet is backed up
    sequence_number: i64,
    /// State of the crypto handler at construction
    origin: Ghost<CryptoView>,
    /// Every packet written since construction, as it was before encryption
    written: Ghost<Seq<PacketView>>,
}

/// The state of a [`BackedWriter`].
pub struct WriterView {
    /// State of the handler that encrypts
    pub crypto: CryptoView,
    /// Current socket file descriptor (-1 when disconnected)
    pub fd: i32,
    /// Encrypted packets that may need to be replayed, latest first
    pub backup: Seq<PacketView>,
    /// Running size of the backup
    pub backup_size: int,
    /// Count of the packets written
    pub sequence_number: int,
    /// State of the handler at construction
    pub origin: CryptoView,
    /// Every packet written since construction, as it was before encryption
    pub written: Seq<PacketView>,
}

/// The size of packets in wire format, added up.
pub open spec fn total_size(packets: Seq<PacketView>) -> int
    decreases packets.len(),
{
    if packets.len() == 0 {
        0
    } else {
        total_size(packets.drop_last()) + packets.last().len()
    }
}

/// `packets` with the last ones dropped, one by one, until the size is within `limit`.
pub open spec fn trimmed(packets: Seq<PacketView>, limit: int) -> Seq<PacketView>
    decreases packets.len(),
{
    if packets.len() > 0 && total_size(packets) > limit {
        trimmed(packets.drop_last(), limit)
    } else {
        packets
    }
}

/// A serialized packet with its length in front, in four bytes.
pub open spec fn framed(serialized: Seq<u8>) -> Seq<u8> {
    be_bytes(serialized.len(), 4) + serialized
}

/// The packet that is sealed as message number `index` of a stream that starts at `origin`.
pub open spec fn sealed_at(origin: CryptoView, packet: PacketView, index: nat) -> PacketView {
    packet.sealed_by(origin.advanced_by(index))
}

/// Whether message number `index` of a stream that starts at `origin` opens to what was sealed.
pub open spec fn opens_back(origin: CryptoView, packet: PacketView, index: nat) -> bool {
    origin.advanced_by(index).seals(packet.payload)
}

impl WriterView {
    /// The packet, in sealed form, that was written just before those in the backup.
    pub open spec fn next_older(self) -> PacketView {
        let index = self.written.len() - 1 - self.backup.len();
        sealed_at(self.origin, self.written[index], index as nat)
    }

    /// What holds of every writer: its counter counts the packets written, its backup holds the
    /// latest of them in sealed form, as many as fit, and each of them opens to what was written.
    pub open spec fn wf(self) -> bool {
        &&& self.sequence_number == self.written.len()
        &&& self.crypto == self.origin.advanced_by(self.written.len())
        &&& self.backup.len() <= self.written.len()
        &&& forall|i: int|
            0 <= i < self.backup.len() ==> #[trigger] self.backup[i] == sealed_at(
                self.origin,
                self.written[self.written.len() - 1 - i],
                (self.written.len() - 1 - i) as nat,
            )
        &&& forall|i: int|
            0 <= i < self.backup.len() ==> (#[trigger] self.backup[i]).len() <= isize::MAX
        &&& self.backup_size == total_size(self.backup)
        &&& self.backup_size <= MAX_BACKUP_BYTES
        &&& self.backup.len() < self.written.len() ==> self.backup_size + self.next_older().len()
            > MAX_BACKUP_BYTES
        &&& forall|k: int|
            0 <= k < self.written.len() ==> !(#[trigger] self.written[k]).encrypted && opens_back(
                self.origin,
                self.written[k],
                k as nat,
            )
    }

    /// The state once `packet` has been encrypted and backed up.
    pub open spec fn backed_up(self, packet: PacketView) -> WriterView {
        let backup = trimmed(
            seq![packet.sealed_by(self.crypto)] + self.backup,
            MAX_BACKUP_BYTES as int,
        );
        WriterView {
            crypto: self.crypto.advanced(),
            backup,
            backup_size: total_size(backup),
            sequence_number: self.sequence_number + 1,
            written: self.written.push(packet),
            ..self
        }
    }

    /// The start of a write: without a socket nothing happens, a packet that is encrypted
    /// already is refused, and every other packet is encrypted, backed up and to be sent.
    pub open spec fn write_begun(self, packet: PacketView) -> (WriterView, WriteStepView) {
        if self.fd < 0 {
            (self, WriteStepView::Finished(WriteState::Skipped))
        } else if packet.encrypted {
            (self, WriteStepView::Finished(WriteState::Refused))
        } else {
            (
                self.backed_up(packet),
                WriteStepView::Send {
                    fd: self.fd,
                    pending: PendingView {
                        data: framed(packet.sealed_by(self.crypto).serialized()),
                        written: 0,
                    },
                },
            )
        }
    }

    /// The step that sends the rest of a message, as long as there is a socket.
    pub open spec fn write_resumed(self, pending: PendingView) -> WriteStepView {
        if self.fd < 0 {
            WriteStepView::Finished(WriteState::WroteWithFailure)
        } else {
            WriteStepView::Send { fd: self.fd, pending }
        }
    }

    /// The serialized packets that a peer needs which has `last_valid` of them, oldest first.
    pub open spec fn recovered(self, last_valid: int) -> Result<Seq<Seq<u8>>, ErrorView> {
        let missing = self.sequence_number - last_valid;
        if self.fd >= 0 {
            Err(ErrorView::Recovery("Can't recover when the fd is still alive"@))
        } else if missing < 0 {
            Err(ErrorView::Recovery("Client is ahead of server - something went wrong"@))
        } else if missing > self.backup.len() {
            Err(ErrorView::ClientTooFarBehind)
        } else {
            Ok(Seq::new(missing as nat, |i: int| self.backup[missing - 1 - i].serialized()))
        }
    }
}

/// What follows when the socket answered with `outcome`.
pub open spec fn write_answered(
    pending: PendingView,
    outcome: Result<usize, Error>,
) -> WriteStepView {
    match outcome {
        Ok(n) => if pending.written + n == pending.data.len() {
            WriteStepView::Finished(WriteState::Success)
        } else {
            WriteStepView::Wait {
                micros: PARTIAL_WRITE_WAIT_MICROS,
                pending: PendingView { data: pending.data, written: pending.written + n },
            }
        },
        Err(_) => WriteStepView::Finished(WriteState::WroteWithFailure),
    }
}

impl View for BackedWriter {
    type V = WriterView;

    closed spec fn view(&self) -> WriterView {
        WriterView {
            crypto: self.crypto_handler@,
            fd: self.socket_fd,
            backup: views(self.backup_buffer@),
            backup_size: self.backup_size as int,
            sequence_number: self.sequence_number as int,
            origin: self.origin@,
            written: self.written@,
        }
    }
}

/// Trimming keeps the longest run of latest packets that fits: what is kept is within the limit,
/// and one packet more would not be.
pub proof fn law_backup_is_longest_that_fits(packets: Seq<PacketView>, limit: int)
    requires
        limit >= 0,
    ensures
        trimmed(packets, limit).len() <= packets.len(),
        trimmed(packets, limit) == packets.take(trimmed(packets, limit).len() as int),
        total_size(trimmed(packets, limit)) <= limit,
        trimmed(packets, limit).len() < packets.len() ==> total_size(
            packets.take(trimmed(packets, limit).len() as int + 1),
        ) > limit,
    decreases packets.len(),
{
    if packets.len() > 0 && total_size(packets) > limit {
        let shorter = packets.drop_last();
        law_backup_is_longest_that_fits(shorter, limit);
        let kept = trimmed(shorter, limit).len() as int;
        assert(shorter.take(kept) =~= packets.take(kept));
        if kept < shorter.len() {
            assert(shorter.take(kept + 1) =~= packets.take(kept + 1));
        } else {
            assert(packets.take(kept + 1) =~= packets);
        }
    } else {
        assert(packets.take(packets.len() as int) =~= packets);
    }
}

proof fn lemma_total_size_front(packet: PacketView, packets: Seq<PacketView>)
    ensures
        total_size(seq![packet] + packets) == packet.len() + total_size(packets),
    decreases packets.len(),
{
    if packets.len() == 0 {
        let one = seq![packet] + packets;
        assert(one.drop_last() =~= Seq::<PacketView>::empty());
        assert(total_size(one.drop_last()) == 0);
        assert(one.last() == packet);
    } else {
        lemma_total_size_front(packet, packets.drop_last());
        let longer = seq![packet] + packets;
        assert(longer.drop_last() =~= seq![packet] + packets.drop_last());
        assert(longer.last() == packets.last());
    }
}

proof fn lemma_total_size_nonnegative(packets: Seq<PacketView>)
    ensures
        total_size(packets) >= 0,
    decreases packets.len(),
{
    if packets.len() > 0 {
        lemma_total_size_nonnegative(packets.drop_last());
    }
}

/// A packet that was sealed and backed up leaves the writer in order.
pub proof fn lemma_backed_up_wf(before: WriterView, packet: PacketView)
    requires
        before.wf(),
        !packet.encrypted,
        before.crypto.seals(packet.payload),
        packet.sealed_by(before.crypto).len() <= isize::MAX,
    ensures
        before.backed_up(packet).wf(),
{
    let after = before.backed_up(packet);
    let count = before.written.len();
    let sealed = packet.sealed_by(before.crypto);
    let pushed = seq![sealed] + before.backup;
    law_backup_is_longest_that_fits(pushed, MAX_BACKUP_BYTES as int);
    assert(sealed == sealed_at(before.origin, packet, count));
    assert forall|i: int| 0 <= i < after.backup.len() implies #[trigger] after.backup[i]
        == sealed_at(
        after.origin,
        after.written[after.written.len() - 1 - i],
        (after.written.len() - 1 - i) as nat,
    ) && after.backup[i].len() <= isize::MAX by {
        assert(after.backup[i] == pushed[i]);
        if i > 0 {
            assert(pushed[i] == before.backup[i - 1]);
            assert(after.written[after.written.len() - 1 - i] == before.written[count - 1 - (i
                - 1)]);
        }
    }
    lemma_total_size_front(sealed, before.backup);
    if after.backup.len() < after.written.len() {
        let kept = after.backup.len() as int;
        if kept < pushed.len() {
            assert(pushed.take(kept + 1).drop_last() =~= pushed.take(kept));
            assert(pushed.take(kept + 1).last() == pushed[kept]);
            if kept > 0 {
                assert(pushed[kept] == before.backup[kept - 1]);
            }
        } else {
            assert(after.backup =~= pushed);
            assert(after.written[after.written.len() - 1 - kept] == before.written[count - 1
                - before.backup.len()]);
        }
    }
    assert forall|k: int| 0 <= k < after.written.len() implies {
        &&& !(#[trigger] after.written[k]).encrypted
        &&& opens_back(after.origin, after.written[k], k as nat)
    } by {
        if k < count {
            assert(after.written[k] == before.written[k]);
        }
    }
}

impl BackedWriter {
    /// Creates a writer bound to a crypto handler.
    ///
    /// # Arguments
    /// * `crypto_handler` - Handler for encryption
    /// * `socket_fd` - Initial socket file descriptor
    pub fn new(crypto_handler: CryptoHandler, socket_fd: i32) -> (r: BackedWriter)
        ensures
            r@ == (WriterView {
                crypto: crypto_handler@,
                fd: socket_fd,
                backup: Seq::empty(),
                backup_size: 0,
                sequence_number: 0,
                origin: crypto_handler@,
                written: Seq::empty(),
            }),
            r@.wf(),
    {
        let ghost origin = crypto_handler@;
        let r = BackedWriter {
            crypto_handler,
            socket_fd,
            backup_buffer: VecDeque::new(),
            backup_size: 0,
            sequence_number: 0,
            origin: Ghost(origin),
            written: Ghost(Seq::empty()),
        };
        assert(r@.backup =~= Seq::<PacketView>::empty());
        r
    }

    /// Encrypts the packet, keeps a backup copy and starts to transmit it.
    ///
    /// # Returns
    /// The bytes to send, or why there are none
    pub fn write(&mut self, packet: Packet) -> (r: WriteStep)
        requires
            old(self)@.wf(),
            old(self)@.sequence_number < i64::MAX,
            packet@.len() + MACBYTES + 4 <= isize::MAX,
            packet@.len() + MACBYTES + MAX_BACKUP_BYTES <= i64::MAX,
        ensures
            (final(self)@, r@) == old(self)@.write_begun(packet@),
            r@ matches WriteStepView::Send { pending, .. } ==> pending.data.len() == packet@.len()
                + MACBYTES + 4,
            final(self)@.wf(),
            r@.wf(),
    {
        let ghost before = self@;
        let ghost plain = packet@;
        if self.socket_fd < 0 {
            return WriteStep::Finished(WriteState::Skipped);
        }
        let mut packet = packet;
        // Once we encrypt, there's no going back
        if packet.encrypt(&mut self.crypto_handler).is_err() {
            return WriteStep::Finished(WriteState::Refused);
        }
        let ghost sealed = packet@;
        let copy = packet.clone();
        let size = copy.len();
        proof {
            lemma_total_size_front(sealed, before.backup);
            lemma_backed_up_wf(before, plain);
        }
        self.backup_buffer.push_front(copy);
        self.backup_size = self.backup_size + size as i64;
        self.sequence_number = self.sequence_number + 1;
        self.written = Ghost(self.written@.push(plain));
        assert(views(self.backup_buffer@) =~= seq![sealed] + before.backup);
        self.drop_oldest();
        assert(self@ == before.backed_up(plain));
        let serialized = packet.serialize();
        let mut data = encode(serialized.len() as u64, 4, ByteOrder::Big);
        data.extend_from_slice(serialized.as_slice());
        proof {
            lemma_bytes_len(serialized@.len(), 4, ByteOrder::Big);
        }
        assert(data@ =~= framed(sealed.serialized()));
        WriteStep::Send { fd: self.socket_fd, pending: PendingWrite { data, bytes_written: 0 } }
    }

    /// Drops the oldest packets of the backup while it is larger than it may be
    fn drop_oldest(&mut self)
        requires
            old(self)@.backup_size == total_size(old(self)@.backup),
            forall|i: int|
                0 <= i < old(self)@.backup.len() ==> (#[trigger] old(self)@.backup[i]).len()
                    <= isize::MAX,
        ensures
            final(self)@ == (WriterView {
                backup: trimmed(old(self)@.backup, MAX_BACKUP_BYTES as int),
                backup_size: total_size(trimmed(old(self)@.backup, MAX_BACKUP_BYTES as int)),
                ..old(self)@
            }),
    {
        while self.backup_size > MAX_BACKUP_BYTES && self.backup_buffer.len() > 0
            invariant
                self@ == (WriterView {
                    backup: self@.backup,
                    backup_size: total_size(self@.backup),
                    ..old(self)@
                }),
                trimmed(self@.backup, MAX_BACKUP_BYTES as int) == trimmed(
                    old(self)@.backup,
                    MAX_BACKUP_BYTES as int,
                ),
                forall|i: int|
                    0 <= i < self@.backup.len() ==> (#[trigger] self@.backup[i]).len()
                        <= isize::MAX,
            decreases self@.backup.len(),
        {
            let ghost packets = self@.backup;
            match self.backup_buffer.pop_back() {
                Some(oldest) => {
                    assert(oldest@ == packets.last());
                    assert(packets[packets.len() - 1].len() <= isize::MAX);
                    proof {
                        lemma_total_size_nonnegative(packets.drop_last());
                    }
                    self.backup_size = self.backup_size - oldest.len() as i64;
                    assert(self@.backup =~= packets.drop_last());
                },
                None => {},
            }
        }
        proof {
            if self@.backup.len() == 0 {
                assert(total_size(self@.backup) == 0);
            }
        }
    }

    /// Goes on with a write after the wait that a step asked for.
    pub fn resume(&self, pending: PendingWrite) -> (r: WriteStep)
        requires
            pending@.wf(),
        ensures
            r@ == self@.write_resumed(pending@),
            r@.wf(),
    {
        if self.socket_fd < 0 {
            return WriteStep::Finished(WriteState::WroteWithFailure);
        }
        WriteStep::Send { fd: self.socket_fd, pending }
    }

    /// Returns serialized packets that the remote side still needs after reconnect.
    ///
    /// # Arguments
    /// * `last_valid_sequence_number` - Sequence number acknowledged by the remote peer
    pub fn recover(&self, last_valid_sequence_number: i64) -> (r: Result<Vec<Vec<u8>>, Error>)
        requires
            self@.wf(),
            self@.sequence_number - last_valid_sequence_number <= i64::MAX,
        ensures
            match (r, self@.recovered(last_valid_sequence_number as int)) {
                (Ok(packets), Ok(expected)) => views(packets@) == expected,
                (Err(e), Err(expected)) => e@ == expected,
                _ => false,
            },
    {
        if self.socket_fd >= 0 {
            return Err(Error::Recovery("Can't recover when the fd is still alive".to_owned()));
        }
        let missing: i64 = self.sequence_number - last_valid_sequence_number;
        if missing < 0 {
            return Err(
                Error::Recovery("Client is ahead of server - something went wrong".to_owned()),
            );
        }
        if missing as u64 > self.backup_buffer.len() as u64 {
            return Err(Error::ClientTooFarBehind);
        }
        let count: usize = missing as usize;
        let mut result: Vec<Vec<u8>> = Vec::new();
        let mut i: usize = count;
        while i > 0
            invariant
                self@.wf(),
                i <= count <= self@.backup.len(),
                result@.len() == count - i,
                forall|j: int|
                    0 <= j < result@.len() ==> #[trigger] result@[j]@ == self@.backup[count - 1
                        - j].serialized(),
            decreases i,
        {
            i = i - 1;
            assert(self@.backup[i as int] == self.backup_buffer@[i as int]@);
            result.push(self.backup_buffer[i].serialize());
        }
        assert(views(result@) =~= self@.recovered(last_valid_sequence_number as int)->Ok_0);
        Ok(result)
    }

    /// Points the writer at a new socket fd so writes can resume
    pub fn revive(&mut self, new_socket_fd: i32)
        ensures
            final(self)@ == (WriterView { fd: new_socket_fd, ..old(self)@ }),
            old(self)@.wf() ==> final(self)@.wf(),
    {
        self.socket_fd = new_socket_fd;
    }

    /// Marks the current socket dead to prevent additional writes
    pub fn invalidate_socket(&mut self)
        ensures
            final(self)@ == (WriterView { fd: NO_SOCKET, ..old(self)@ }),
            old(self)@.wf() ==> final(self)@.wf(),
    {
        self.socket_fd = NO_SOCKET;
    }

    /// Returns the total number of packets written since construction
    pub fn sequence_number(&self) -> (r: i64)
        ensures
            r == self@.sequence_number,
    {
        self.sequence_number
    }

    /// Get the current socket fd
    pub fn socket_fd(&self) -> (r: i32)
        ensures
            r == self@.fd,
    {
        self.socket_fd
    }
}

impl PendingWrite {
    /// The bytes that the socket has not taken yet
    pub fn rest(&self) -> (r: &[u8])
        requires
            self@.wf(),
        ensures
            r@ == self@.data.skip(self@.written),
    {
        assert(self.data@.skip(self.bytes_written as int) =~= self.data@.subrange(
            self.bytes_written as int,
            self.data@.len() as int,
        ));
        slice_subrange(self.data.as_slice(), self.bytes_written, self.data.len())
    }

    /// Goes on with a write: `outcome` is how many bytes of the rest the socket took.
    pub fn sent(self, outcome: Result<usize, Error>) -> (r: WriteStep)
        requires
            self@.wf(),
            outcome matches Ok(n) ==> n <= self@.data.len() - self@.written,
        ensures
            r@ == write_answered(self@, outcome),
            r@.wf(),
    {
        match outcome {
            Ok(n) => {
                let total = self.data.len();
                let bytes_written: usize = self.bytes_written + n;
                if bytes_written == total {
                    WriteStep::Finished(WriteState::Success)
                } else {
                    WriteStep::Wait {
                        micros: PARTIAL_WRITE_WAIT_MICROS,
                        pending: PendingWrite { data: self.data, bytes_written },
                    }
                }
            },
            // Error, but the caller should think bytes were written
            Err(_) => WriteStep::Finished(WriteState::WroteWithFailure),
        }
    }
}

/// A packet is written once there is a socket, unless it is encrypted already: it is sealed as the
/// next message, counted, kept in front of the backup, and sent whole with its length in front.
/// Otherwise nothing changes.
pub proof fn law_written_packet_is_backed_up(writer: WriterView, packet: PacketView)
    ensures
        ({
            let (after, step) = writer.write_begun(packet);
            let sealed = packet.sealed_by(writer.crypto);
            &&& writer.fd < 0 ==> after == writer && step == WriteStepView::Finished(
                WriteState::Skipped,
            )
            &&& writer.fd >= 0 && packet.encrypted ==> after == writer && step
                == WriteStepView::Finished(WriteState::Refused)
            &&& writer.fd >= 0 && !packet.encrypted ==> {
                &&& step == (WriteStepView::Send {
                    fd: writer.fd,
                    pending: PendingView {
                        data: be_bytes(sealed.serialized().len(), 4) + sealed.serialized(),
                        written: 0,
                    },
                })
                &&& after.sequence_number == writer.sequence_number + 1
                &&& after.written == writer.written.push(packet)
                &&& after.crypto == writer.crypto.advanced()
                &&& after.fd == writer.fd && after.origin == writer.origin
                &&& after.backup_size == total_size(after.backup)
                &&& total_size(seq![sealed] + writer.backup) <= 67_108_864 ==> after.backup
                    == seq![sealed] + writer.backup
                &&& after.backup.len() > 0 ==> after.backup[0] == sealed
                &&& after.backup_size <= 67_108_864
            }
        }),
{
    let sealed = packet.sealed_by(writer.crypto);
    let pushed = seq![sealed] + writer.backup;
    law_backup_is_longest_that_fits(pushed, MAX_BACKUP_BYTES as int);
    assert(pushed.take(pushed.len() as int) =~= pushed);
}

/// What the socket took of a message is not sent again: the message is through once the socket has
/// taken all of it, and waits a millisecond for the rest before that. A socket that fails, or that
/// is gone when the rest is due, fails the write.
pub proof fn law_write_goes_on_with_the_rest(
    writer: WriterView,
    pending: PendingView,
    taken: usize,
    error: Error,
)
    requires
        pending.wf(),
        taken <= pending.data.len() - pending.written,
    ensures
        pending.written + taken == pending.data.len() ==> write_answered(pending, Ok(taken))
            == WriteStepView::Finished(WriteState::Success),
        pending.written + taken < pending.data.len() ==> write_answered(pending, Ok(taken))
            == (WriteStepView::Wait {
            micros: 1000,
            pending: PendingView { data: pending.data, written: pending.written + taken },
        }),
        write_answered(pending, Err(error)) == WriteStepView::Finished(
            WriteState::WroteWithFailure,
        ),
        writer.fd >= 0 ==> writer.write_resumed(pending) == (WriteStepView::Send {
            fd: writer.fd,
            pending,
        }),
        writer.fd < 0 ==> writer.write_resumed(pending) == WriteStepView::Finished(
            WriteState::WroteWithFailure,
        ),
{
}

/// The size of packets is the sum of their sizes on the wire.
pub proof fn law_sizes_add_up(packet: PacketView, packets: Seq<PacketView>)
    ensures
        total_size(seq![packet] + packets) == packet.payload.len() + 2 + total_size(packets),
        total_size(Seq::empty()) == 0,
{
    lemma_total_size_front(packet, packets);
}

/// A writer offers what a peer lacks only without a socket, and only where the peer is neither
/// ahead nor further behind than the backup reaches; each refusal says why.
pub proof fn law_recovery_is_refused_with_a_reason(writer: WriterView, received: int)
    ensures
        ({
            let missing = writer.sequence_number - received;
            let offer = writer.recovered(received);
            &&& writer.fd >= 0 ==> offer == Err::<Seq<Seq<u8>>, ErrorView>(
                ErrorView::Recovery("Can't recover when the fd is still alive"@),
            )
            &&& writer.fd < 0 && missing < 0 ==> offer == Err::<Seq<Seq<u8>>, ErrorView>(
                ErrorView::Recovery("Client is ahead of server - something went wrong"@),
            )
            &&& writer.fd < 0 && missing > writer.backup.len() ==> offer == Err::<
                Seq<Seq<u8>>,
                ErrorView,
            >(ErrorView::ClientTooFarBehind)
            &&& writer.fd < 0 && 0 <= missing <= writer.backup.len() ==> {
                &&& offer matches Ok(packets)
                &&& packets.len() == missing
                &&& forall|i: int|
                    0 <= i < missing ==> #[trigger] packets[i] == writer.backup[missing - 1
                        - i].serialized()
            }
        }),
{
}

} // verus!
