//! What a session keeps across reconnects: every packet written at one end is read at the other
//! end, once and in order, whether it arrives live or is replayed after a recovery.
use vstd::prelude::*;

use crate::backed_reader::{announced_length, ReadStepView, ReaderView};
use crate::backed_writer::{framed, opens_back, sealed_at, WriterView};
use crate::connection::{
    opposite_msb, ConnectionView, RecoveryEventView, RecoveryStage, RecoveryStepView, RecoveryView,
};
use crate::crypto::{CryptoView, KEYBYTES};
use crate::error::ErrorView;
use crate::packet::{law_decrypt_undoes_encrypt, law_packet_round_trip, PacketView};
use crate::socket::joined;
use crate::wire::{
    be_bytes, law_bytes_round_trip, lemma_bytes_len, lemma_pow256_values, ByteOrder,
};

verus! {

/// The number of packets that a reader has handed out.
pub open spec fn handed_out(reader: ReaderView) -> int {
    reader.sequence_number - reader.local.len()
}

/// Whether `reader` is in step with a stream of packets that starts at `origin`: the packets it
/// has received are the first of the stream, those it has still to replay are the latest of
/// them in sealed form, and its nonce is that of the next packet to hand out.
pub open spec fn in_step(reader: ReaderView, origin: CryptoView, written: Seq<PacketView>) -> bool {
    &&& reader.wf()
    &&& 0 <= handed_out(reader)
    &&& reader.sequence_number <= written.len()
    &&& reader.crypto == origin.advanced_by(handed_out(reader) as nat)
    &&& forall|i: int|
        0 <= i < reader.local.len() ==> #[trigger] reader.local[i] == sealed_at(
            origin,
            written[handed_out(reader) + i],
            (handed_out(reader) + i) as nat,
        ).serialized()
}

/// A new reader is in step with a new stream of the same key and nonce.
pub proof fn law_new_reader_is_in_step(origin: CryptoView, fd: i32)
    ensures
        in_step(
            ReaderView {
                crypto: origin,
                fd,
                sequence_number: 0,
                local: Seq::empty(),
                partial: Seq::empty(),
            },
            origin,
            Seq::empty(),
        ),
{
}

/// A packet that the writer adds to its stream leaves the reader in step.
pub proof fn law_writing_keeps_step(reader: ReaderView, writer: WriterView, packet: PacketView)
    requires
        in_step(reader, writer.origin, writer.written),
    ensures
        in_step(reader, writer.origin, writer.backed_up(packet).written),
{
    let longer = writer.written.push(packet);
    assert forall|i: int| 0 <= i < reader.local.len() implies #[trigger] reader.local[i]
        == sealed_at(
        writer.origin,
        longer[handed_out(reader) + i],
        (handed_out(reader) + i) as nat,
    ).serialized() by {
        assert(longer[handed_out(reader) + i] == writer.written[handed_out(reader) + i]);
    }
}

proof fn lemma_opens(reader: ReaderView, origin: CryptoView, packet: PacketView, index: nat)
    requires
        reader.crypto == origin.advanced_by(index),
        !packet.encrypted,
        opens_back(origin, packet, index),
    ensures
        reader.opened_packet(sealed_at(origin, packet, index).serialized()) == (
            ReaderView { crypto: origin.advanced_by(index + 1), ..reader },
            Ok::<PacketView, ErrorView>(packet),
        ),
{
    let sealed = sealed_at(origin, packet, index);
    law_packet_round_trip(sealed);
    law_decrypt_undoes_encrypt(packet, reader.crypto);
    assert(origin.advanced_by(index).advanced() == origin.advanced_by(index + 1));
}

/// A packet to be replayed comes out as it was written, in its turn, and the reader stays in
/// step.
pub proof fn law_replayed_packet_is_delivered(reader: ReaderView, writer: WriterView)
    requires
        writer.wf(),
        in_step(reader, writer.origin, writer.written),
        reader.local.len() > 0,
    ensures
        ({
            let (after, step) = reader.read_begun();
            &&& step == ReadStepView::Finished(Ok(Some(writer.written[handed_out(reader)])))
            &&& in_step(after, writer.origin, writer.written)
            &&& handed_out(after) == handed_out(reader) + 1
            &&& after.sequence_number == reader.sequence_number
        }),
{
    let index = handed_out(reader);
    let packet = writer.written[index];
    let rest = ReaderView { local: reader.local.skip(1), ..reader };
    assert(reader.local[0] == sealed_at(writer.origin, packet, index as nat).serialized());
    lemma_opens(rest, writer.origin, packet, index as nat);
    let after = reader.read_begun().0;
    assert forall|i: int| 0 <= i < after.local.len() implies #[trigger] after.local[i] == sealed_at(
        writer.origin,
        writer.written[handed_out(after) + i],
        (handed_out(after) + i) as nat,
    ).serialized() by {
        assert(after.local[i] == reader.local[i + 1]);
    }
}

proof fn lemma_frame(serialized: Seq<u8>)
    requires
        serialized.len() <= i32::MAX,
    ensures
        framed(serialized).len() == 4 + serialized.len(),
        framed(serialized).take(4) == be_bytes(serialized.len(), 4),
        announced_length(framed(serialized)) == serialized.len(),
        framed(serialized).skip(4) == serialized,
{
    lemma_pow256_values();
    lemma_bytes_len(serialized.len(), 4, ByteOrder::Big);
    law_bytes_round_trip(serialized.len(), 4, ByteOrder::Big);
    assert(framed(serialized).take(4) =~= be_bytes(serialized.len(), 4));
    assert(framed(serialized).skip(4) =~= serialized);
}

/// A packet that arrives live, in however many pieces, comes out as it was written once its last
/// piece is there, and the reader stays in step.
pub proof fn law_live_packet_is_delivered(reader: ReaderView, writer: WriterView, data: Seq<u8>)
    requires
        writer.wf(),
        in_step(reader, writer.origin, writer.written),
        reader.local.len() == 0,
        reader.sequence_number < writer.written.len(),
        data.len() > 0,
        ({
            let index = reader.sequence_number;
            let sealed = sealed_at(writer.origin, writer.written[index], index as nat);
            &&& sealed.len() <= i32::MAX
            &&& reader.partial + data == framed(sealed.serialized())
        }),
    ensures
        ({
            let (after, step) = reader.outcome_received(Ok(data));
            &&& step == ReadStepView::Finished(Ok(Some(writer.written[handed_out(reader)])))
            &&& in_step(after, writer.origin, writer.written)
            &&& handed_out(after) == handed_out(reader) + 1
            &&& after.sequence_number == reader.sequence_number + 1
            &&& after.partial.len() == 0
        }),
{
    let index = reader.sequence_number as nat;
    let packet = writer.written[index as int];
    let sealed = sealed_at(writer.origin, packet, index);
    law_packet_round_trip(sealed);
    lemma_frame(sealed.serialized());
    let emptied = ReaderView { partial: Seq::empty(), ..reader };
    lemma_opens(emptied, writer.origin, packet, index);
}

/// While a packet that arrives live is not complete, the reader keeps every byte of it, hands
/// out nothing, and stays in step.
pub proof fn law_incomplete_packet_is_kept(
    reader: ReaderView,
    writer: WriterView,
    data: Seq<u8>,
    missing: Seq<u8>,
)
    requires
        writer.wf(),
        in_step(reader, writer.origin, writer.written),
        reader.local.len() == 0,
        reader.sequence_number < writer.written.len(),
        data.len() > 0,
        missing.len() > 0,
        ({
            let index = reader.sequence_number;
            let sealed = sealed_at(writer.origin, writer.written[index], index as nat);
            &&& sealed.len() <= i32::MAX
            &&& reader.partial + data + missing == framed(sealed.serialized())
        }),
    ensures
        ({
            let (after, step) = reader.outcome_received(Ok(data));
            &&& after == (ReaderView { partial: reader.partial + data, ..reader })
            &&& in_step(after, writer.origin, writer.written)
            &&& step == ReadStepView::Finished(Ok(None)) || step == (ReadStepView::Receive {
                fd: reader.fd,
                count: after.wanted(),
            })
        }),
{
    let index = reader.sequence_number as nat;
    let sealed = sealed_at(writer.origin, writer.written[index as int], index);
    let frame = framed(sealed.serialized());
    law_packet_round_trip(sealed);
    lemma_frame(sealed.serialized());
    let held = reader.partial + data;
    if held.len() >= 4 {
        assert(held.take(4) =~= frame.take(4));
    }
}

/// Whether every packet of a stream is short enough for the length of its frame.
pub open spec fn frames_fit(origin: CryptoView, written: Seq<PacketView>) -> bool {
    forall|k: int|
        0 <= k < written.len() ==> sealed_at(origin, #[trigger] written[k], k as nat).len()
            <= i32::MAX
}

/// The bytes in which a stream travels, from packet number `from` on: frame after frame.
pub open spec fn wire_from(origin: CryptoView, written: Seq<PacketView>, from: int) -> Seq<u8>
    decreases written.len() - from,
{
    if from < 0 || from >= written.len() {
        Seq::empty()
    } else {
        framed(sealed_at(origin, written[from], from as nat).serialized()) + wire_from(
            origin,
            written,
            from + 1,
        )
    }
}

/// Some bytes of the stream, in a chunk that the reader wants, bring it on: what it holds and what
/// is still to come is the rest of the stream, and where they complete a packet, that packet comes
/// out.
pub proof fn lemma_chunk_is_read(
    reader: ReaderView,
    writer: WriterView,
    data: Seq<u8>,
    rest: Seq<u8>,
)
    requires
        writer.wf(),
        in_step(reader, writer.origin, writer.written),
        frames_fit(writer.origin, writer.written),
        reader.local.len() == 0,
        0 < data.len() <= reader.wanted(),
        reader.partial + data + rest == wire_from(
            writer.origin,
            writer.written,
            reader.sequence_number,
        ),
    ensures
        ({
            let (after, step) = reader.outcome_received(Ok(data));
            let index = reader.sequence_number;
            &&& in_step(after, writer.origin, writer.written)
            &&& after.local == reader.local
            &&& after.fd == reader.fd
            &&& after.partial + rest == wire_from(
                writer.origin,
                writer.written,
                after.sequence_number,
            )
            &&& match step {
                ReadStepView::Finished(Ok(Some(packet))) => index < writer.written.len() && packet
                    == writer.written[index] && after.sequence_number == index + 1,
                ReadStepView::Finished(Ok(None)) => after.sequence_number == index,
                ReadStepView::Finished(Err(_)) => false,
                ReadStepView::Receive { .. } => after.sequence_number == index,
            }
        }),
{
    let index = reader.sequence_number;
    let sealed = sealed_at(writer.origin, writer.written[index], index as nat);
    let frame = framed(sealed.serialized());
    let tail = wire_from(writer.origin, writer.written, index + 1);
    let held = reader.partial + data;
    assert((held + rest).len() > 0);
    assert(index < writer.written.len());
    assert(held + rest == frame + tail);
    law_packet_round_trip(sealed);
    lemma_frame(sealed.serialized());
    if reader.partial.len() >= 4 {
        assert forall|i: int| 0 <= i < 4 implies reader.partial.take(4)[i] == frame.take(4)[i] by {
            assert((held + rest)[i] == (frame + tail)[i]);
        }
        assert(reader.partial.take(4) =~= frame.take(4));
    }
    assert(held.len() <= frame.len());
    let missing = frame.skip(held.len() as int);
    assert(held + missing =~= frame) by {
        assert forall|i: int| 0 <= i < held.len() implies held[i] == frame[i] by {
            assert((held + rest)[i] == (frame + tail)[i]);
        }
    }
    assert(rest =~= missing + tail) by {
        assert forall|i: int| 0 <= i < rest.len() implies rest[i] == (missing + tail)[i] by {
            assert((held + rest)[held.len() + i] == (frame + tail)[held.len() + i]);
        }
        assert((held + rest).len() == (frame + tail).len());
    }
    if missing.len() == 0 {
        assert(held =~= frame);
        law_live_packet_is_delivered(reader, writer, data);
        let after = reader.outcome_received(Ok(data)).0;
        assert(after.partial + rest =~= tail);
    } else {
        law_incomplete_packet_is_kept(reader, writer, data, missing);
    }
}

proof fn lemma_no_packet_is_left(reader: ReaderView, writer: WriterView)
    requires
        in_step(reader, writer.origin, writer.written),
        frames_fit(writer.origin, writer.written),
        reader.partial == wire_from(writer.origin, writer.written, reader.sequence_number),
    ensures
        reader.sequence_number == writer.written.len(),
{
    let index = reader.sequence_number;
    if index < writer.written.len() {
        let sealed = sealed_at(writer.origin, writer.written[index], index as nat);
        let frame = framed(sealed.serialized());
        law_packet_round_trip(sealed);
        lemma_frame(sealed.serialized());
        assert(reader.partial.take(4) =~= frame.take(4));
    }
}

impl ReaderView {
    /// The reader once the socket has given a chunk, and the packet that came out, if one did.
    #[verifier::opaque]
    pub open spec fn chunk_read(self, data: Seq<u8>) -> (ReaderView, Option<PacketView>) {
        let (after, step) = self.outcome_received(Ok(data));
        (
            after,
            match step {
                ReadStepView::Finished(Ok(packet)) => packet,
                _ => None,
            },
        )
    }

    /// The reader once the socket has given some chunks, one at a time, and the packets that came
    /// out.
    pub open spec fn chunks_read(self, chunks: Seq<Seq<u8>>) -> (ReaderView, Seq<PacketView>)
        decreases chunks.len(),
    {
        if chunks.len() == 0 {
            (self, Seq::empty())
        } else {
            let (before, packets) = self.chunks_read(chunks.drop_last());
            let (after, read) = before.chunk_read(chunks.last());
            (
                after,
                match read {
                    Some(packet) => packets.push(packet),
                    None => packets,
                },
            )
        }
    }

    /// Whether the reader wants each of some chunks when its turn comes.
    pub open spec fn wants(self, chunks: Seq<Seq<u8>>) -> bool {
        forall|k: int|
            0 <= k < chunks.len() ==> 0 < (#[trigger] chunks[k]).len() <= self.chunks_read(
                chunks.take(k),
            ).0.wanted()
    }
}

/// Whether what a reader holds and what is still to come is the rest of the stream.
#[verifier::opaque]
spec fn on_course(reader: ReaderView, writer: WriterView, rest: Seq<u8>) -> bool {
    &&& writer.wf()
    &&& in_step(reader, writer.origin, writer.written)
    &&& frames_fit(writer.origin, writer.written)
    &&& reader.local.len() == 0
    &&& reader.partial + rest == wire_from(writer.origin, writer.written, reader.sequence_number)
}

proof fn lemma_chunk_keeps_course(
    reader: ReaderView,
    writer: WriterView,
    data: Seq<u8>,
    rest: Seq<u8>,
)
    requires
        on_course(reader, writer, data + rest),
        0 < data.len() <= reader.wanted(),
    ensures
        ({
            let (after, read) = reader.chunk_read(data);
            let index = reader.sequence_number;
            &&& on_course(after, writer, rest)
            &&& match read {
                Some(packet) => {
                    &&& 0 <= index < writer.written.len()
                    &&& packet == writer.written[index]
                    &&& after.sequence_number == index + 1
                },
                None => after.sequence_number == index,
            }
        }),
{
    reveal(on_course);
    reveal(ReaderView::chunk_read);
    assert(reader.partial + data + rest =~= reader.partial + (data + rest));
    lemma_chunk_is_read(reader, writer, data, rest);
}

proof fn lemma_chunks_keep_course(
    reader: ReaderView,
    writer: WriterView,
    chunks: Seq<Seq<u8>>,
    rest: Seq<u8>,
)
    requires
        on_course(reader, writer, joined(chunks) + rest),
        0 <= reader.sequence_number <= writer.written.len(),
        reader.wants(chunks),
    ensures
        ({
            let (after, packets) = reader.chunks_read(chunks);
            &&& on_course(after, writer, rest)
            &&& after.sequence_number == reader.sequence_number + packets.len()
            &&& after.sequence_number <= writer.written.len()
            &&& packets == writer.written.subrange(reader.sequence_number, after.sequence_number)
        }),
    decreases chunks.len(),
{
    let first = reader.sequence_number;
    let (after, packets) = reader.chunks_read(chunks);
    if chunks.len() == 0 {
        assert(joined(chunks) + rest =~= rest);
        assert(packets =~= writer.written.subrange(first, first));
    } else {
        let earlier = chunks.drop_last();
        let last = chunks.last();
        assert forall|k: int| 0 <= k < earlier.len() implies 0 < (#[trigger] earlier[k]).len()
            <= reader.chunks_read(earlier.take(k)).0.wanted() by {
            assert(earlier[k] == chunks[k]);
            assert(earlier.take(k) =~= chunks.take(k));
        }
        assert(joined(earlier) + (last + rest) =~= joined(chunks) + rest);
        lemma_chunks_keep_course(reader, writer, earlier, last + rest);
        assert(chunks[chunks.len() - 1].len() > 0);
        assert(chunks.take(chunks.len() - 1) =~= earlier);
        lemma_chunk_keeps_course(reader.chunks_read(earlier).0, writer, last, rest);
        assert(packets =~= writer.written.subrange(first, after.sequence_number));
    }
}

/// A whole stream is read back, each packet once and in order, however the socket cuts its bytes;
/// and of a part of its bytes, the packets that are complete.
pub proof fn law_stream_is_read_back(
    reader: ReaderView,
    writer: WriterView,
    chunks: Seq<Seq<u8>>,
    rest: Seq<u8>,
)
    requires
        writer.wf(),
        in_step(reader, writer.origin, writer.written),
        frames_fit(writer.origin, writer.written),
        reader.local.len() == 0,
        reader.wants(chunks),
        reader.partial + joined(chunks) + rest == wire_from(
            writer.origin,
            writer.written,
            reader.sequence_number,
        ),
    ensures
        ({
            let (after, packets) = reader.chunks_read(chunks);
            let first = reader.sequence_number;
            &&& in_step(after, writer.origin, writer.written)
            &&& after.sequence_number == first + packets.len()
            &&& packets == writer.written.subrange(first, after.sequence_number)
            &&& after.partial + rest == wire_from(
                writer.origin,
                writer.written,
                after.sequence_number,
            )
            &&& rest.len() == 0 ==> packets == writer.written.skip(first)
        }),
{
    reveal(on_course);
    assert(reader.partial + (joined(chunks) + rest) =~= reader.partial + joined(chunks) + rest);
    lemma_chunks_keep_course(reader, writer, chunks, rest);
    let (after, packets) = reader.chunks_read(chunks);
    if rest.len() == 0 {
        assert(after.partial + rest =~= after.partial);
        lemma_no_packet_is_left(after, writer);
        assert(packets =~= writer.written.skip(reader.sequence_number));
    }
}

/// What a writer offers for recovery is exactly the packets of its stream that the peer has not
/// received, in the order in which they were written.
pub proof fn law_recovery_offers_what_is_missing(writer: WriterView, received: int)
    requires
        writer.wf(),
        writer.fd < 0,
        0 <= received <= writer.written.len(),
        writer.written.len() - received <= writer.backup.len(),
    ensures
        writer.recovered(received) == Ok::<Seq<Seq<u8>>, ErrorView>(
            Seq::new(
                (writer.written.len() - received) as nat,
                |i: int|
                    sealed_at(
                        writer.origin,
                        writer.written[received + i],
                        (received + i) as nat,
                    ).serialized(),
            ),
        ),
{
    let missing = writer.written.len() - received;
    let offered = writer.recovered(received)->Ok_0;
    let expected = Seq::new(
        missing as nat,
        |i: int|
            sealed_at(
                writer.origin,
                writer.written[received + i],
                (received + i) as nat,
            ).serialized(),
    );
    assert forall|i: int| 0 <= i < missing implies offered[i] == expected[i] by {
        assert(writer.backup[missing - 1 - i] == sealed_at(
            writer.origin,
            writer.written[received + i],
            (received + i) as nat,
        ));
    }
    assert(offered =~= expected);
}

/// A recovery loses nothing and repeats nothing: a reader that was in step and is revived with
/// what the writer offers has received the whole stream, and is in step.
pub proof fn law_recovery_restores_step(reader: ReaderView, writer: WriterView, fd: i32)
    requires
        writer.wf(),
        writer.fd < 0,
        in_step(reader, writer.origin, writer.written),
        writer.written.len() - reader.sequence_number <= writer.backup.len(),
    ensures
        writer.recovered(reader.sequence_number) is Ok,
        ({
            let after = reader.revived(fd, writer.recovered(reader.sequence_number)->Ok_0);
            &&& in_step(after, writer.origin, writer.written)
            &&& after.sequence_number == writer.sequence_number
            &&& handed_out(after) == handed_out(reader)
        }),
{
    law_recovery_offers_what_is_missing(writer, reader.sequence_number);
    let offered = writer.recovered(reader.sequence_number)->Ok_0;
    let after = reader.revived(fd, offered);
    assert forall|i: int| 0 <= i < after.local.len() implies #[trigger] after.local[i] == sealed_at(
        writer.origin,
        writer.written[handed_out(after) + i],
        (handed_out(after) + i) as nat,
    ).serialized() by {
        if i < reader.local.len() {
            assert(after.local[i] == reader.local[i]);
        } else {
            assert(after.local[i] == offered[i - reader.local.len()]);
        }
    }
}

/// A peer that is further behind than the backup reaches is refused.
pub proof fn law_recovery_refuses_a_peer_too_far_behind(writer: WriterView, received: int)
    requires
        writer.wf(),
        writer.fd < 0,
        writer.written.len() - received > writer.backup.len(),
    ensures
        writer.recovered(received) == Err::<Seq<Seq<u8>>, ErrorView>(ErrorView::ClientTooFarBehind),
{
}

/// Whether two connections are the ends of one session: each reads the stream that the other
/// writes.
pub open spec fn ends_of_session(a: ConnectionView, b: ConnectionView) -> bool {
    &&& a.wf() && b.wf()
    &&& a.reader is Some && a.writer is Some && b.reader is Some && b.writer is Some
    &&& in_step(a.reader->0, b.writer->0.origin, b.writer->0.written)
    &&& in_step(b.reader->0, a.writer->0.origin, a.writer->0.written)
}

/// Two connections with one key of 32 bytes, initialized for opposite directions, are the ends
/// of one session.
pub proof fn law_initialized_ends_pair(
    a: ConnectionView,
    b: ConnectionView,
    fd_a: i32,
    fd_b: i32,
    nonce_msb: u8,
)
    requires
        a.wf(),
        b.wf(),
        a.key == b.key,
        a.key.len() == KEYBYTES,
        nonce_msb <= 1,
    ensures
        ({
            let (a2, ra) = a.initialized(true, true, fd_a, nonce_msb);
            let (b2, rb) = b.initialized(true, true, fd_b, opposite_msb(nonce_msb));
            ra is Ok && rb is Ok && ends_of_session(a2, b2)
        }),
{
    let a2 = a.initialized(true, true, fd_a, nonce_msb).0;
    let b2 = b.initialized(true, true, fd_b, opposite_msb(nonce_msb)).0;
    law_new_reader_is_in_step(b2.writer->0.origin, fd_a);
    law_new_reader_is_in_step(a2.writer->0.origin, fd_b);
}

/// Runs a recovery whose exchanges all succeed: the state of `connection` after it, when the
/// peer announces `remote` and sends `catchup`, and the packets sent to the peer.
pub open spec fn recovery_run(
    connection: ConnectionView,
    fd: i32,
    remote: i32,
    catchup: Seq<Seq<u8>>,
) -> (ConnectionView, RecoveryStepView, RecoveryStepView) {
    let start = RecoveryView { stage: RecoveryStage::SendingHeader, fd };
    let (second, c2, _) = start.next(connection, RecoveryEventView::Sent(Ok(())));
    let (third, c3, offered) = second.next(c2, RecoveryEventView::SequenceHeader(Ok(remote)));
    let (fourth, c4, _) = third.next(c3, RecoveryEventView::Sent(Ok(())));
    let (_, c5, end) = fourth.next(c4, RecoveryEventView::CatchupBuffer(Ok(catchup)));
    (c5, offered, end)
}

/// When both ends of a session recover with each other, each announcing its sequence number and
/// sending what the other announced to lack, both recoveries succeed, both ends have then
/// received every packet ever written, and they are still the ends of one session.
pub proof fn law_recovery_resynchronizes_session(
    a: ConnectionView,
    b: ConnectionView,
    fd_a: i32,
    fd_b: i32,
)
    requires
        ends_of_session(a, b),
        a.writer->0.fd < 0,
        b.writer->0.fd < 0,
        a.writer->0.written.len() <= i32::MAX,
        b.writer->0.written.len() <= i32::MAX,
        a.writer->0.written.len() - b.reader->0.sequence_number <= a.writer->0.backup.len(),
        b.writer->0.written.len() - a.reader->0.sequence_number <= b.writer->0.backup.len(),
    ensures
        a.recovery_begun() is Ok,
        b.recovery_begun() is Ok,
        ({
            let from_a = a.writer->0.recovered(b.recovery_begun()->Ok_0 as int);
            let from_b = b.writer->0.recovered(a.recovery_begun()->Ok_0 as int);
            let (a2, offered_a, end_a) = recovery_run(
                a,
                fd_a,
                b.recovery_begun()->Ok_0,
                from_b->Ok_0,
            );
            let (b2, offered_b, end_b) = recovery_run(
                b,
                fd_b,
                a.recovery_begun()->Ok_0,
                from_a->Ok_0,
            );
            &&& from_a is Ok && offered_a == RecoveryStepView::SendCatchup(from_a->Ok_0)
            &&& from_b is Ok && offered_b == RecoveryStepView::SendCatchup(from_b->Ok_0)
            &&& end_a == RecoveryStepView::Finished(Ok(true))
            &&& end_b == RecoveryStepView::Finished(Ok(true))
            &&& a2.fd == fd_a && b2.fd == fd_b
            &&& ends_of_session(a2, b2)
            &&& a2.reader->0.sequence_number == b.writer->0.written.len()
            &&& b2.reader->0.sequence_number == a.writer->0.written.len()
        }),
{
    law_recovery_restores_step(a.reader->0, b.writer->0, fd_a);
    law_recovery_restores_step(b.reader->0, a.writer->0, fd_b);
    assert(a.recovery_begun()->Ok_0 == a.reader->0.sequence_number);
    assert(b.recovery_begun()->Ok_0 == b.reader->0.sequence_number);
}

} // verus!
