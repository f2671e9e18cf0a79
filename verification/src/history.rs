//! Every history of a session: whatever its two ends write, read and lose, and however often they
//! recover, what is read at one end is what was written at the other.
use vstd::prelude::*;

use crate::backed_reader::{ReadStepView, ReaderView};
use crate::backed_writer::{
    framed, lemma_backed_up_wf, sealed_at, WriteState, WriteStepView, WriterView,
};
use crate::connection::{opposite_msb, ConnectionReadView, ConnectionView, ConnectionWriteView};
use crate::crypto::{CryptoView, KEYBYTES};
use crate::packet::PacketView;
use crate::session::{
    ends_of_session, frames_fit, handed_out, in_step, law_initialized_ends_pair,
    law_recovery_offers_what_is_missing, law_recovery_restores_step,
    law_replayed_packet_is_delivered, law_writing_keeps_step, lemma_chunk_is_read, recovery_run,
    wire_from,
};

verus! {

/// A session: its two ends, the bytes on their way to each, and the packets read at each.
pub struct Session {
    pub near: ConnectionView,
    pub far: ConnectionView,
    pub to_near: Seq<u8>,
    pub to_far: Seq<u8>,
    pub read_near: Seq<PacketView>,
    pub read_far: Seq<PacketView>,
}

/// What can happen at one end of a session.
pub enum Move {
    /// A packet is written, of whose bytes the socket takes so many; where it does not take all,
    /// the socket has failed
    Write { packet: PacketView, taken: int },
    /// The socket gives so many bytes
    Receive { count: int },
    /// A packet that came with a recovery is read
    Replay,
    /// The socket is given up, and with it what is on its way to this end
    Close,
}

/// What can happen to a session.
pub enum Event {
    /// Something happens at the near end
    Near(Move),
    /// Something happens at the far end
    Far(Move),
    /// The ends recover with each other on new sockets; an end that has none here loses it before
    /// its recovery is over
    Recover { near_fd: Option<i32>, far_fd: Option<i32> },
}

/// The packets read, with the one that a read has just given.
pub open spec fn with_read(packets: Seq<PacketView>, read: ConnectionReadView) -> Seq<PacketView> {
    match read {
        ConnectionReadView::Finished { result: Ok(Some(packet)), .. } => packets.push(packet),
        _ => packets,
    }
}

/// An end that has recovered with its peer on a new socket, if it has one.
pub open spec fn recovered_with(
    end: ConnectionView,
    peer: ConnectionView,
    fd: Option<i32>,
) -> ConnectionView {
    match fd {
        Some(fd) => recovery_run(
            end,
            fd,
            peer.recovery_begun()->Ok_0,
            peer.writer->0.recovered(end.recovery_begun()->Ok_0 as int)->Ok_0,
        ).0,
        None => end,
    }
}

impl Session {
    /// The session seen from its other end.
    pub open spec fn turned(self) -> Session {
        Session {
            near: self.far,
            far: self.near,
            to_near: self.to_far,
            to_far: self.to_near,
            read_near: self.read_far,
            read_far: self.read_near,
        }
    }

    /// Whether something can happen at the near end. What is to be sealed can be sealed and
    /// framed, what is received is on its way and wanted, and what is replayed is there.
    pub open spec fn allows(self, action: Move) -> bool {
        match action {
            Move::Write { packet, taken } => {
                let sealed = packet.sealed_by(self.near.writer->0.crypto);
                self.near.fd >= 0 && !packet.encrypted ==> {
                    &&& self.near.writer->0.crypto.seals(packet.payload)
                    &&& sealed.len() <= i32::MAX
                    &&& 0 <= taken <= framed(sealed.serialized()).len()
                }
            },
            Move::Receive { count } => {
                &&& self.near.reader->0.fd >= 0
                &&& self.near.reader->0.local.len() == 0
                &&& 0 < count <= self.near.reader->0.wanted()
                &&& count <= self.to_near.len()
            },
            Move::Replay => self.near.reader->0.local.len() > 0,
            Move::Close => true,
        }
    }

    /// The session after something has happened at the near end.
    pub open spec fn moved(self, action: Move) -> Session {
        match action {
            Move::Write { packet, taken } => {
                let (near, step) = self.near.write_begun(packet);
                match step {
                    ConnectionWriteView::Send { pending, .. } => {
                        let state = if taken == pending.data.len() {
                            WriteState::Success
                        } else {
                            WriteState::WroteWithFailure
                        };
                        Session {
                            near: near.write_settled(WriteStepView::Finished(state)).0,
                            to_far: self.to_far + pending.data.take(taken),
                            ..self
                        }
                    },
                    _ => Session { near, ..self },
                }
            },
            Move::Receive { count } => {
                let (reader, step) = self.near.reader->0.outcome_received(
                    Ok(self.to_near.take(count)),
                );
                let (near, read) = self.near.read_settled(reader, step);
                Session {
                    near,
                    to_near: self.to_near.skip(count),
                    read_near: with_read(self.read_near, read),
                    ..self
                }
            },
            Move::Replay => {
                let (near, read) = self.near.read_begun();
                Session { near, read_near: with_read(self.read_near, read), ..self }
            },
            Move::Close => Session { near: self.near.closed().0, to_near: Seq::empty(), ..self },
        }
    }

    /// Whether the ends can recover with each other: neither has a socket any more, and neither
    /// has missed more than the backup of the other reaches back.
    pub open spec fn can_recover(self) -> bool {
        let near = self.near.writer->0;
        let far = self.far.writer->0;
        &&& near.fd < 0 && far.fd < 0
        &&& near.written.len() <= i32::MAX && far.written.len() <= i32::MAX
        &&& near.written.len() - self.far.reader->0.sequence_number <= near.backup.len()
        &&& far.written.len() - self.near.reader->0.sequence_number <= far.backup.len()
    }

    /// The session once its ends have recovered with each other: each has announced how many
    /// packets it has received, and was sent those that it lacked. An end without a new socket
    /// stays as it was.
    pub open spec fn recovered(self, near_fd: Option<i32>, far_fd: Option<i32>) -> Session {
        Session {
            near: recovered_with(self.near, self.far, near_fd),
            far: recovered_with(self.far, self.near, far_fd),
            to_near: Seq::empty(),
            to_far: Seq::empty(),
            ..self
        }
    }

    /// Whether an event can happen.
    pub open spec fn can(self, event: Event) -> bool {
        match event {
            Event::Near(action) => self.allows(action),
            Event::Far(action) => self.turned().allows(action),
            Event::Recover { .. } => self.can_recover(),
        }
    }

    /// The session after an event.
    pub open spec fn after(self, event: Event) -> Session {
        match event {
            Event::Near(action) => self.moved(action),
            Event::Far(action) => self.turned().moved(action).turned(),
            Event::Recover { near_fd, far_fd } => self.recovered(near_fd, far_fd),
        }
    }

    /// The session after some events.
    pub open spec fn after_all(self, events: Seq<Event>) -> Session
        decreases events.len(),
    {
        if events.len() == 0 {
            self
        } else {
            self.after_all(events.drop_last()).after(events.last())
        }
    }

    /// Whether some events can happen one after the other.
    pub open spec fn can_all(self, events: Seq<Event>) -> bool {
        forall|k: int|
            0 <= k < events.len() ==> self.after_all(events.take(k)).can(#[trigger] events[k])
    }

    /// The session of two ends that have just been initialized.
    pub open spec fn between(near: ConnectionView, far: ConnectionView) -> Session {
        Session {
            near,
            far,
            to_near: Seq::empty(),
            to_far: Seq::empty(),
            read_near: Seq::empty(),
            read_far: Seq::empty(),
        }
    }
}

/// Whether the bytes on their way from a writer to a reader are the next ones of the stream, and
/// all there are as long as the writer has its socket. What is on its way to a reader without a
/// socket is lost.
pub open spec fn flows(reader: ReaderView, writer: WriterView, bytes: Seq<u8>) -> bool {
    let stream = wire_from(writer.origin, writer.written, reader.sequence_number);
    reader.fd >= 0 ==> {
        &&& (reader.partial + bytes).is_prefix_of(stream)
        &&& writer.fd >= 0 ==> reader.partial + bytes == stream
    }
}

/// What holds of one direction of a session: the reader is in step with the stream of the writer,
/// what is on its way is the rest of it, and what was read is what was written.
#[verifier::opaque]
pub open spec fn carries(
    reader: ReaderView,
    writer: WriterView,
    bytes: Seq<u8>,
    read: Seq<PacketView>,
) -> bool {
    &&& writer.wf()
    &&& in_step(reader, writer.origin, writer.written)
    &&& frames_fit(writer.origin, writer.written)
    &&& flows(reader, writer, bytes)
    &&& read == writer.written.take(handed_out(reader))
}

impl Session {
    /// What holds of a session all along.
    pub open spec fn sound(self) -> bool {
        &&& self.near.on_one_socket() && self.far.on_one_socket()
        &&& self.near.reader is Some && self.far.reader is Some
        &&& carries(self.near.reader->0, self.far.writer->0, self.to_near, self.read_near)
        &&& carries(self.far.reader->0, self.near.writer->0, self.to_far, self.read_far)
    }
}

proof fn lemma_wire_grows(
    origin: CryptoView,
    written: Seq<PacketView>,
    packet: PacketView,
    from: int,
)
    requires
        0 <= from <= written.len(),
    ensures
        wire_from(origin, written.push(packet), from) == wire_from(origin, written, from) + framed(
            sealed_at(origin, packet, written.len()).serialized(),
        ),
    decreases written.len() - from,
{
    let longer = written.push(packet);
    let frame = framed(sealed_at(origin, packet, written.len()).serialized());
    if from < written.len() {
        lemma_wire_grows(origin, written, packet, from + 1);
        assert(longer[from] == written[from]);
        assert(wire_from(origin, longer, from) =~= wire_from(origin, written, from) + frame);
    } else {
        assert(wire_from(origin, longer, from + 1) =~= Seq::<u8>::empty());
        assert(wire_from(origin, longer, from) =~= wire_from(origin, written, from) + frame);
    }
}

proof fn lemma_write_is_carried(
    reader: ReaderView,
    writer: WriterView,
    bytes: Seq<u8>,
    read: Seq<PacketView>,
    packet: PacketView,
    taken: int,
)
    requires
        carries(reader, writer, bytes, read),
        writer.fd >= 0,
        !packet.encrypted,
        writer.crypto.seals(packet.payload),
        packet.sealed_by(writer.crypto).len() <= i32::MAX,
        0 <= taken <= framed(packet.sealed_by(writer.crypto).serialized()).len(),
    ensures
        ({
            let frame = framed(packet.sealed_by(writer.crypto).serialized());
            let after = writer.backed_up(packet);
            &&& taken == frame.len() ==> carries(reader, after, bytes + frame.take(taken), read)
            &&& carries(
                reader,
                WriterView { fd: crate::NO_SOCKET, ..after },
                bytes + frame.take(taken),
                read,
            )
        }),
{
    reveal(carries);
    let after = writer.backed_up(packet);
    let gone = WriterView { fd: crate::NO_SOCKET, ..after };
    let frame = framed(packet.sealed_by(writer.crypto).serialized());
    lemma_backed_up_wf(writer, packet);
    law_writing_keeps_step(reader, writer, packet);
    lemma_wire_grows(writer.origin, writer.written, packet, reader.sequence_number);
    assert(after.written.take(handed_out(reader)) =~= writer.written.take(handed_out(reader)));
    assert(frames_fit(after.origin, after.written)) by {
        assert forall|k: int| 0 <= k < after.written.len() implies sealed_at(
            after.origin,
            #[trigger] after.written[k],
            k as nat,
        ).len() <= i32::MAX by {
            if k < writer.written.len() {
                assert(after.written[k] == writer.written[k]);
            }
        }
    }
    let stream = wire_from(after.origin, after.written, reader.sequence_number);
    if reader.fd >= 0 {
        assert(reader.partial + (bytes + frame) =~= stream);
        assert(taken == frame.len() ==> frame.take(taken) =~= frame);
        assert((reader.partial + (bytes + frame.take(taken))).is_prefix_of(stream));
    }
    assert(gone.wf());
}

proof fn lemma_receipt_is_carried(
    reader: ReaderView,
    writer: WriterView,
    bytes: Seq<u8>,
    read: Seq<PacketView>,
    count: int,
)
    requires
        carries(reader, writer, bytes, read),
        reader.fd >= 0,
        reader.local.len() == 0,
        0 < count <= reader.wanted(),
        count <= bytes.len(),
    ensures
        ({
            let (after, step) = reader.outcome_received(Ok(bytes.take(count)));
            &&& after.fd == reader.fd
            &&& match step {
                ReadStepView::Finished(Ok(Some(packet))) => carries(
                    after,
                    writer,
                    bytes.skip(count),
                    read.push(packet),
                ),
                ReadStepView::Finished(Err(_)) => false,
                _ => carries(after, writer, bytes.skip(count), read),
            }
        }),
{
    reveal(carries);
    let data = bytes.take(count);
    let stream = wire_from(writer.origin, writer.written, reader.sequence_number);
    let unsent = stream.skip((reader.partial + bytes).len() as int);
    let rest = bytes.skip(count) + unsent;
    assert(data + bytes.skip(count) =~= bytes);
    assert(reader.partial + data + rest =~= reader.partial + bytes + unsent);
    assert(reader.partial + bytes + unsent =~= stream);
    lemma_chunk_is_read(reader, writer, data, rest);
    let (after, step) = reader.outcome_received(Ok(data));
    let later = wire_from(writer.origin, writer.written, after.sequence_number);
    assert(after.partial + rest == later);
    assert(after.partial + rest =~= after.partial + bytes.skip(count) + unsent);
    assert((after.partial + bytes.skip(count)).is_prefix_of(later));
    if writer.fd >= 0 {
        assert(unsent.len() == 0);
        assert(after.partial + bytes.skip(count) =~= later);
    }
    if step matches ReadStepView::Finished(Ok(Some(packet))) {
        assert(read.push(step->Finished_0->Ok_0->0) =~= writer.written.take(handed_out(after)));
    }
}

proof fn lemma_replay_is_carried(
    reader: ReaderView,
    writer: WriterView,
    bytes: Seq<u8>,
    read: Seq<PacketView>,
)
    requires
        carries(reader, writer, bytes, read),
        reader.local.len() > 0,
    ensures
        ({
            let (after, step) = reader.read_begun();
            &&& after.fd == reader.fd
            &&& step matches ReadStepView::Finished(Ok(Some(packet))) && carries(
                after,
                writer,
                bytes,
                read.push(packet),
            )
        }),
{
    reveal(carries);
    law_replayed_packet_is_delivered(reader, writer);
    let (after, step) = reader.read_begun();
    assert(read.push(step->Finished_0->Ok_0->0) =~= writer.written.take(handed_out(after)));
}

proof fn lemma_closing_is_carried(
    reader: ReaderView,
    writer: WriterView,
    bytes: Seq<u8>,
    read: Seq<PacketView>,
)
    requires
        carries(reader, writer, bytes, read),
    ensures
        carries(ReaderView { fd: crate::NO_SOCKET, ..reader }, writer, Seq::empty(), read),
        carries(ReaderView { fd: crate::NO_SOCKET, ..reader }, writer, bytes, read),
        reader.fd < 0 ==> carries(reader, writer, Seq::empty(), read),
        carries(reader, WriterView { fd: crate::NO_SOCKET, ..writer }, bytes, read),
{
    reveal(carries);
}

proof fn lemma_move_is_sound(session: Session, action: Move)
    requires
        session.sound(),
        session.allows(action),
    ensures
        session.moved(action).sound(),
{
    let near = session.near;
    let reader = near.reader->0;
    let writer = near.writer->0;
    match action {
        Move::Write { packet, taken } => {
            if near.fd >= 0 && !packet.encrypted {
                lemma_write_is_carried(
                    session.far.reader->0,
                    writer,
                    session.to_far,
                    session.read_far,
                    packet,
                    taken,
                );
                lemma_closing_is_carried(
                    reader,
                    session.far.writer->0,
                    session.to_near,
                    session.read_near,
                );
            }
        },
        Move::Receive { count } => {
            lemma_receipt_is_carried(
                reader,
                session.far.writer->0,
                session.to_near,
                session.read_near,
                count,
            );
        },
        Move::Replay => {
            lemma_replay_is_carried(
                reader,
                session.far.writer->0,
                session.to_near,
                session.read_near,
            );
        },
        Move::Close => {
            lemma_closing_is_carried(
                reader,
                session.far.writer->0,
                session.to_near,
                session.read_near,
            );
            lemma_closing_is_carried(
                session.far.reader->0,
                writer,
                session.to_far,
                session.read_far,
            );
        },
    }
}

proof fn lemma_recovered_end(
    end: ConnectionView,
    peer: ConnectionView,
    bytes: Seq<u8>,
    read: Seq<PacketView>,
    fd: Option<i32>,
)
    requires
        end.on_one_socket(),
        end.reader is Some,
        end.writer is Some,
        peer.reader is Some,
        peer.writer is Some,
        carries(end.reader->0, peer.writer->0, bytes, read),
        in_step(peer.reader->0, end.writer->0.origin, end.writer->0.written),
        end.writer->0.wf(),
        end.writer->0.fd < 0,
        peer.writer->0.fd < 0,
        end.writer->0.written.len() <= i32::MAX,
        peer.writer->0.written.len() <= i32::MAX,
        end.writer->0.written.len() - peer.reader->0.sequence_number
            <= end.writer->0.backup.len(),
        peer.writer->0.written.len() - end.reader->0.sequence_number
            <= peer.writer->0.backup.len(),
    ensures
        ({
            let after = recovered_with(end, peer, fd);
            &&& after.on_one_socket()
            &&& after.reader is Some && after.writer is Some
            &&& carries(after.reader->0, peer.writer->0, Seq::empty(), read)
            &&& after.writer->0 == (WriterView { fd: after.writer->0.fd, ..end.writer->0 })
            &&& fd is None ==> after == end
            &&& fd is Some ==> after.reader->0.partial.len() == 0
                && after.reader->0.sequence_number == peer.writer->0.written.len()
        }),
{
    reveal(carries);
    if fd is Some {
        law_recovery_restores_step(end.reader->0, peer.writer->0, fd->0);
        law_recovery_offers_what_is_missing(end.writer->0, peer.reader->0.sequence_number);
        let after = recovered_with(end, peer, fd);
        assert(after.reader->0.partial + Seq::<u8>::empty() =~= Seq::<u8>::empty());
    }
}

proof fn lemma_recovery_is_sound(session: Session, near_fd: Option<i32>, far_fd: Option<i32>)
    requires
        session.sound(),
        session.can_recover(),
    ensures
        session.recovered(near_fd, far_fd).sound(),
{
    reveal(carries);
    let Session { near, far, .. } = session;
    lemma_recovered_end(near, far, session.to_near, session.read_near, near_fd);
    lemma_recovered_end(far, near, session.to_far, session.read_far, far_fd);
    let after = session.recovered(near_fd, far_fd);
    assert(after.near.reader->0.partial.len() == 0 ==> after.near.reader->0.partial
        + after.to_near =~= Seq::<u8>::empty());
    assert(after.far.reader->0.partial.len() == 0 ==> after.far.reader->0.partial + after.to_far
        =~= Seq::<u8>::empty());
}

proof fn lemma_event_is_sound(session: Session, event: Event)
    requires
        session.sound(),
        session.can(event),
    ensures
        session.after(event).sound(),
{
    match event {
        Event::Near(action) => lemma_move_is_sound(session, action),
        Event::Far(action) => lemma_move_is_sound(session.turned(), action),
        Event::Recover { near_fd, far_fd } => lemma_recovery_is_sound(session, near_fd, far_fd),
    }
}

proof fn lemma_events_are_sound(session: Session, events: Seq<Event>)
    requires
        session.sound(),
        session.can_all(events),
    ensures
        session.after_all(events).sound(),
    decreases events.len(),
{
    if events.len() > 0 {
        let earlier = events.drop_last();
        assert forall|k: int| 0 <= k < earlier.len() implies session.after_all(
            earlier.take(k),
        ).can(#[trigger] earlier[k]) by {
            assert(earlier[k] == events[k]);
            assert(earlier.take(k) =~= events.take(k));
        }
        lemma_events_are_sound(session, earlier);
        assert(events.take(events.len() - 1) =~= earlier);
        assert(session.after_all(events.take(events.len() - 1)).can(events[events.len() - 1]));
        lemma_event_is_sound(session.after_all(earlier), events.last());
    }
}

proof fn lemma_start_is_sound(
    near: ConnectionView,
    far: ConnectionView,
    near_fd: i32,
    far_fd: i32,
    nonce_msb: u8,
)
    requires
        near.wf(),
        far.wf(),
        near.key == far.key,
        near.key.len() == KEYBYTES,
        nonce_msb <= 1,
    ensures
        Session::between(
            near.initialized(true, true, near_fd, nonce_msb).0,
            far.initialized(true, true, far_fd, opposite_msb(nonce_msb)).0,
        ).sound(),
{
    reveal(carries);
    let a = near.initialized(true, true, near_fd, nonce_msb).0;
    let b = far.initialized(true, true, far_fd, opposite_msb(nonce_msb)).0;
    let start = Session::between(a, b);
    law_initialized_ends_pair(near, far, near_fd, far_fd, nonce_msb);
    assert(Seq::<u8>::empty() + Seq::<u8>::empty() =~= Seq::<u8>::empty());
    assert(start.read_near =~= b.writer->0.written.take(0));
    assert(start.read_far =~= a.writer->0.written.take(0));
}

proof fn lemma_sound_session(session: Session)
    requires
        session.sound(),
    ensures
        ends_of_session(session.near, session.far),
        session.read_near.is_prefix_of(session.far.writer->0.written),
        session.read_far.is_prefix_of(session.near.writer->0.written),
        session.read_near.len() == handed_out(session.near.reader->0),
        session.read_far.len() == handed_out(session.far.reader->0),
{
    reveal(carries);
}

/// Whatever happens to a session from its start on, its ends stay the ends of one session, and
/// what has been read at each end is what was written first at the other: no packet is lost,
/// repeated or out of order, through every loss of a socket and every recovery.
pub proof fn law_every_history_keeps_the_session(
    near: ConnectionView,
    far: ConnectionView,
    near_fd: i32,
    far_fd: i32,
    nonce_msb: u8,
    events: Seq<Event>,
)
    requires
        near.wf(),
        far.wf(),
        near.key == far.key,
        near.key.len() == KEYBYTES,
        nonce_msb <= 1,
        Session::between(
            near.initialized(true, true, near_fd, nonce_msb).0,
            far.initialized(true, true, far_fd, opposite_msb(nonce_msb)).0,
        ).can_all(events),
    ensures
        ({
            let start = Session::between(
                near.initialized(true, true, near_fd, nonce_msb).0,
                far.initialized(true, true, far_fd, opposite_msb(nonce_msb)).0,
            );
            let end = start.after_all(events);
            &&& ends_of_session(end.near, end.far)
            &&& end.near.on_one_socket() && end.far.on_one_socket()
            &&& end.read_near.is_prefix_of(end.far.writer->0.written)
            &&& end.read_far.is_prefix_of(end.near.writer->0.written)
            &&& end.read_near.len() == handed_out(end.near.reader->0)
            &&& end.read_far.len() == handed_out(end.far.reader->0)
        }),
{
    let start = Session::between(
        near.initialized(true, true, near_fd, nonce_msb).0,
        far.initialized(true, true, far_fd, opposite_msb(nonce_msb)).0,
    );
    lemma_start_is_sound(near, far, near_fd, far_fd, nonce_msb);
    lemma_events_are_sound(start, events);
    lemma_sound_session(start.after_all(events));
}

} // verus!
