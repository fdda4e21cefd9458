//! What a receiver makes of the muxed stream.

use super::clock::{
    clock_period, law_pcr_round_trip, law_timestamp_round_trip, pcr_value, timestamp_marked,
    timestamp_value,
};
use super::crc::{crc32, law_closed_section_checks, with_crc};
use super::packet::{
    key_frame_field, pat_section, payload_room, pes_packet, pmt_section, psi_packet,
    video_packet, video_packet_count, video_packets, PAT_PID, PMT_PID, PROGRAM_NUMBER,
    STREAM_TYPE_H264, SYNC_BYTE, VIDEO_PID,
};
use super::{
    first_field, pcr_for, table_packets, tables_due, unit_packets, unit_state,
    MuxState, PCR_LEAD_90KHZ, PSI_INTERVAL_90KHZ,
};
use vstd::prelude::*;

verus! {

/// The PID of a packet.
pub open spec fn pid_of(packet: Seq<u8>) -> int {
    (packet[1] as int % 0x20) * 0x100 + packet[2] as int
}

/// Whether a table or a PES packet starts in this packet.
pub open spec fn starts_unit(packet: Seq<u8>) -> bool {
    packet[1] as int / 0x40 % 2 == 1
}

/// The continuity counter of a packet.
pub open spec fn counter_of(packet: Seq<u8>) -> int {
    packet[3] as int % 16
}

/// The bytes a packet spends on its adaptation field, the length byte among them.
pub open spec fn field_len(packet: Seq<u8>) -> int {
    if packet[3] as int / 0x20 % 2 == 1 {
        1 + packet[4] as int
    } else {
        0
    }
}

/// The payload of a packet.
pub open spec fn payload_of(packet: Seq<u8>) -> Seq<u8> {
    if packet[3] as int / 0x10 % 2 == 1 {
        packet.skip(4 + field_len(packet))
    } else {
        Seq::empty()
    }
}

/// Whether decoding can start with the unit that this packet starts.
pub open spec fn is_random_access(packet: Seq<u8>) -> bool {
    field_len(packet) > 1 && packet[5] as int / 0x40 % 2 == 1
}

/// Whether a packet carries a clock reference.
pub open spec fn carries_clock(packet: Seq<u8>) -> bool {
    field_len(packet) > 1 && packet[5] as int / 0x10 % 2 == 1
}

/// The clock reference of a packet, where it carries one.
pub open spec fn clock_of(packet: Seq<u8>) -> Option<int> {
    if carries_clock(packet) {
        Some(pcr_value(packet.subrange(6, 12)))
    } else {
        None
    }
}

/// The table section in a packet that starts one.
pub open spec fn section_of(packet: Seq<u8>) -> Seq<u8> {
    packet.subrange(5, 8 + (packet[6] as int % 16) * 0x100 + packet[7] as int)
}

/// A receiver that follows the tables and the video.
#[verifier::ext_equal]
pub struct Receiver {
    /// Whether every packet so far began with the sync byte, had a known PID, and was the next
    /// one of its PID.
    pub in_sync: bool,
    /// The continuity counter expected of the next packet of each PID.
    pub pat: int,
    pub pmt: int,
    pub video: int,
    /// The video PES packets, in order of arrival.
    pub units: Seq<Seq<u8>>,
}

/// A receiver takes one packet.
pub open spec fn receive(receiver: Receiver, packet: Seq<u8>) -> Receiver {
    let pid = pid_of(packet);
    let next = (counter_of(packet) + 1) % 16;
    let synced = receiver.in_sync && packet[0] == SYNC_BYTE;
    if pid == PAT_PID {
        Receiver {
            in_sync: synced && counter_of(packet) == receiver.pat,
            pat: next,
            ..receiver
        }
    } else if pid == PMT_PID {
        Receiver {
            in_sync: synced && counter_of(packet) == receiver.pmt,
            pmt: next,
            ..receiver
        }
    } else if pid == VIDEO_PID {
        Receiver {
            in_sync: synced && counter_of(packet) == receiver.video,
            video: next,
            units: if starts_unit(packet) {
                receiver.units.push(payload_of(packet))
            } else if receiver.units.len() > 0 {
                receiver.units.drop_last().push(receiver.units.last() + payload_of(packet))
            } else {
                receiver.units
            },
            ..receiver
        }
    } else {
        Receiver { in_sync: false, ..receiver }
    }
}

/// A receiver takes a stream, packet by packet. A stream that ends within a packet is broken.
pub open spec fn receive_all(receiver: Receiver, stream: Seq<u8>) -> Receiver
    decreases stream.len(),
{
    if stream.len() == 0 {
        receiver
    } else if stream.len() < 188 {
        Receiver { in_sync: false, ..receiver }
    } else {
        receive_all(receive(receiver, stream.take(188)), stream.skip(188))
    }
}

/// A receiver that has missed nothing of what a muxer in `state` has written.
pub open spec fn follows(receiver: Receiver, state: MuxState) -> bool {
    receiver.in_sync && receiver.pat == state.pat && receiver.pmt == state.pmt && receiver.video
        == state.video
}

/// Continuity counters are four bits wide.
pub open spec fn valid(state: MuxState) -> bool {
    0 <= state.pat < 16 && 0 <= state.pmt < 16 && 0 <= state.video < 16
}

/// Whole packets, each beginning with the sync byte.
pub open spec fn aligned(stream: Seq<u8>) -> bool {
    stream.len() % 188 == 0 && forall|k: int|
        0 <= k < stream.len() / 188 ==> #[trigger] stream[188 * k] == SYNC_BYTE
}

/// One coded frame on its way into the muxer.
pub struct AccessUnit {
    pub data: Seq<u8>,
    pub pts: u64,
    pub keyframe: bool,
}

/// The stream that a muxer makes of a run of access units.
pub open spec fn muxed(state: MuxState, units: Seq<AccessUnit>) -> Seq<u8>
    decreases units.len(),
{
    if units.len() == 0 {
        Seq::empty()
    } else {
        let last = units.last();
        let before = units.drop_last();
        muxed(state, before) + unit_packets(
            state_after(state, before),
            last.data,
            last.pts,
            last.keyframe,
        )
    }
}

/// The state of a muxer after a run of access units.
pub open spec fn state_after(state: MuxState, units: Seq<AccessUnit>) -> MuxState
    decreases units.len(),
{
    if units.len() == 0 {
        state
    } else {
        let last = units.last();
        unit_state(state_after(state, units.drop_last()), last.data, last.pts, last.keyframe)
    }
}

/// The PES packets of a run of access units; empty units have none.
pub open spec fn pes_packets(units: Seq<AccessUnit>) -> Seq<Seq<u8>>
    decreases units.len(),
{
    if units.len() == 0 {
        Seq::empty()
    } else if units.last().data.len() == 0 {
        pes_packets(units.drop_last())
    } else {
        pes_packets(units.drop_last()).push(pes_packet(units.last().data, units.last().pts))
    }
}

pub(super) proof fn lemma_psi_packet(pid: u16, counter: int, section: Seq<u8>)
    requires
        pid < 0x2000,
        0 <= counter < 16,
        section.len() <= 183,
    ensures
        psi_packet(pid, counter, section).len() == 188,
        psi_packet(pid, counter, section)[0] == SYNC_BYTE,
        pid_of(psi_packet(pid, counter, section)) == pid,
        counter_of(psi_packet(pid, counter, section)) == counter,
        starts_unit(psi_packet(pid, counter, section)),
        field_len(psi_packet(pid, counter, section)) == 0,
{
}

pub(super) proof fn lemma_video_packet(start: bool, counter: int, field: Option<Seq<u8>>, payload: Seq<u8>)
    requires
        field is Some ==> 0 < field->0.len() < 183,
        0 <= counter < 16,
        payload.len() <= payload_room(field),
    ensures
        video_packet(start, counter, field, payload).len() == 188,
        video_packet(start, counter, field, payload)[0] == SYNC_BYTE,
        pid_of(video_packet(start, counter, field, payload)) == VIDEO_PID,
        counter_of(video_packet(start, counter, field, payload)) == counter,
        starts_unit(video_packet(start, counter, field, payload)) == start,
        payload_of(video_packet(start, counter, field, payload)) == payload,
        field is None ==> !is_random_access(video_packet(start, counter, field, payload)),
        field is Some ==> {
            let packet = video_packet(start, counter, field, payload);
            &&& is_random_access(packet) == (field->0[0] as int / 0x40 % 2 == 1)
            &&& packet.subrange(5, 5 + field->0.len() as int) == field->0
        },
{
    reveal(video_packet);
    let packet = video_packet(start, counter, field, payload);
    assert(payload_of(packet) =~= payload);
    if let Some(body) = field {
        assert(packet.subrange(5, 5 + body.len() as int) =~= body);
        assert(packet[5] == body[0]);
    } else if payload.len() < 183 {
        assert(packet[5] == 0);
    }
}

/// A video packet carries a clock reference where its adaptation field is flagged for one.
proof fn lemma_clock_flag(start: bool, counter: int, field: Option<Seq<u8>>, payload: Seq<u8>)
    requires
        field is Some ==> 0 < field->0.len() < 183,
        0 <= counter < 16,
        payload.len() <= payload_room(field),
    ensures
        carries_clock(video_packet(start, counter, field, payload)) == (field is Some
            && field->0[0] as int / 0x10 % 2 == 1),
{
    reveal(video_packet);
    let packet = video_packet(start, counter, field, payload);
    if let Some(body) = field {
        assert(packet[5] == body[0]);
    } else if payload.len() < 183 {
        assert(packet[5] == 0);
    }
}

/// The first packet of a key frame carries the clock reference that it was given.
proof fn lemma_key_frame_clock(counter: int, pcr: u64, payload: Seq<u8>)
    requires
        0 <= counter < 16,
        payload.len() <= payload_room(Some(key_frame_field(pcr))),
    ensures
        clock_of(video_packet(true, counter, Some(key_frame_field(pcr)), payload)) == Some(
            pcr as int % clock_period(),
        ),
{
    let body = key_frame_field(pcr);
    let packet = video_packet(true, counter, Some(body), payload);
    lemma_video_packet(true, counter, Some(body), payload);
    lemma_clock_flag(true, counter, Some(body), payload);
    law_pcr_round_trip(pcr);
    assert(packet.subrange(6, 12) =~= super::clock::pcr_bytes(pcr)) by {
        assert(packet.subrange(5, 12) == body);
        assert forall|i: int| 0 <= i < 6 implies packet.subrange(6, 12)[i]
            == super::clock::pcr_bytes(pcr)[i] by {
            assert(packet.subrange(5, 12)[i + 1] == body[i + 1]);
        }
    }
}

/// Receiving one stream of whole packets and then another is receiving both in a row.
pub proof fn lemma_receive_concat(receiver: Receiver, first: Seq<u8>, second: Seq<u8>)
    requires
        first.len() % 188 == 0,
    ensures
        receive_all(receiver, first + second) == receive_all(
            receive_all(receiver, first),
            second,
        ),
    decreases first.len(),
{
    if first.len() == 0 {
        assert(first + second =~= second);
    } else {
        assert((first + second).take(188) =~= first.take(188));
        assert((first + second).skip(188) =~= first.skip(188) + second);
        lemma_receive_concat(receive(receiver, first.take(188)), first.skip(188), second);
    }
}

/// Receiving a stream of one packet is receiving that packet.
proof fn lemma_receive_one(receiver: Receiver, packet: Seq<u8>)
    requires
        packet.len() == 188,
    ensures
        receive_all(receiver, packet) == receive(receiver, packet),
{
    reveal_with_fuel(receive_all, 2);
    assert(packet.take(188) =~= packet);
}

proof fn lemma_aligned_concat(first: Seq<u8>, second: Seq<u8>)
    requires
        aligned(first),
        aligned(second),
    ensures
        aligned(first + second),
{
    let whole = first + second;
    assert forall|k: int| 0 <= k < whole.len() / 188 implies #[trigger] whole[188 * k]
        == SYNC_BYTE by {
        if 188 * k < first.len() {
            assert(first[188 * k] == SYNC_BYTE);
        } else {
            let j = k - first.len() as int / 188;
            assert(188 * j == 188 * k - first.len());
            assert(second[188 * j] == SYNC_BYTE);
        }
    }
}

proof fn lemma_aligned_one(packet: Seq<u8>)
    requires
        packet.len() == 188,
        packet[0] == SYNC_BYTE,
    ensures
        aligned(packet),
{
    assert forall|k: int| 0 <= k < packet.len() / 188 implies #[trigger] packet[188 * k]
        == SYNC_BYTE by {
        assert(k == 0);
    }
}

/// What a receiver has after `payload` more of the video, as a new unit or as more of the last.
pub open spec fn with_payload(receiver: Receiver, start: bool, payload: Seq<u8>) -> Seq<Seq<u8>> {
    if start {
        receiver.units.push(payload)
    } else {
        receiver.units.drop_last().push(receiver.units.last() + payload)
    }
}

/// What one video packet does to a receiver that expects it.
proof fn lemma_receive_video_packet(
    receiver: Receiver,
    start: bool,
    counter: int,
    field: Option<Seq<u8>>,
    payload: Seq<u8>,
)
    requires
        field is Some ==> 0 < field->0.len() < 183,
        0 <= counter < 16,
        payload.len() <= payload_room(field),
        receiver.in_sync,
        receiver.video == counter,
        start || receiver.units.len() > 0,
    ensures
        aligned(video_packet(start, counter, field, payload)),
        video_packet(start, counter, field, payload).len() == 188,
        receive_all(receiver, video_packet(start, counter, field, payload)) == (Receiver {
            video: (counter + 1) % 16,
            units: with_payload(receiver, start, payload),
            ..receiver
        }),
{
    lemma_video_packet(start, counter, field, payload);
    lemma_aligned_one(video_packet(start, counter, field, payload));
    lemma_receive_one(receiver, video_packet(start, counter, field, payload));
}

/// What a first video packet and a tail of packets that continue its unit do to a receiver.
proof fn lemma_receive_continued(
    receiver: Receiver,
    head: Seq<u8>,
    tail: Seq<u8>,
    start: bool,
    payload: Seq<u8>,
    rest: Seq<u8>,
    counter: int,
    last: int,
)
    requires
        start || receiver.units.len() > 0,
        aligned(head),
        receive_all(receiver, head) == (Receiver {
            video: counter,
            units: with_payload(receiver, start, payload),
            ..receiver
        }),
        receive_all(receive_all(receiver, head), tail) == (Receiver {
            video: last,
            units: with_payload(receive_all(receiver, head), false, rest),
            ..receive_all(receiver, head)
        }),
    ensures
        receive_all(receiver, head + tail) == (Receiver {
            video: last,
            units: with_payload(receiver, start, payload + rest),
            ..receiver
        }),
{
    lemma_receive_concat(receiver, head, tail);
    let next = receive_all(receiver, head);
    if start {
        assert(next.units.drop_last() =~= receiver.units);
    } else {
        assert(next.units.drop_last() =~= receiver.units.drop_last());
        assert(receiver.units.last() + payload + rest =~= receiver.units.last() + (payload
            + rest));
    }
}

/// What the video packets of a PES packet, or of the rest of one, do to a receiver.
proof fn lemma_receive_video(
    receiver: Receiver,
    start: bool,
    counter: int,
    field: Option<Seq<u8>>,
    pes: Seq<u8>,
)
    requires
        field is Some ==> 0 < field->0.len() < 183,
        0 <= counter < 16,
        receiver.in_sync,
        receiver.video == counter,
        pes.len() > 0,
        start || receiver.units.len() > 0,
    ensures
        receive_all(receiver, video_packets(start, counter, field, pes)) == (Receiver {
            video: (counter + video_packet_count(field, pes.len() as int)) % 16,
            units: with_payload(receiver, start, pes),
            ..receiver
        }),
    decreases pes.len(),
{
    let room = payload_room(field);
    let count = video_packet_count(field, pes.len() as int);
    let take = if pes.len() < room {
        pes.len() as int
    } else {
        room
    };
    let rest = pes.skip(take);
    super::packet::lemma_video_packets_step(start, counter, field, pes, take);
    lemma_receive_video_packet(receiver, start, counter, field, pes.take(take));
    let head = video_packet(start, counter, field, pes.take(take));
    let tail = video_packets(false, (counter + 1) % 16, None, rest);
    let next = receive_all(receiver, head);
    if rest.len() == 0 {
        assert(pes.take(take) =~= pes);
        assert(head + tail =~= head);
    } else {
        assert(next.units.len() > 0);
        lemma_receive_video(next, false, (counter + 1) % 16, None, rest);
        lemma_receive_continued(
            receiver,
            head,
            tail,
            start,
            pes.take(take),
            rest,
            (counter + 1) % 16,
            ((counter + 1) % 16 + video_packet_count(None, rest.len() as int)) % 16,
        );
        assert(pes.take(take) + rest =~= pes);
        assert(((counter + 1) % 16 + (count - 1)) % 16 == (counter + count) % 16);
    }
}

/// The video packets of a PES packet are aligned.
proof fn lemma_video_aligned(start: bool, counter: int, field: Option<Seq<u8>>, pes: Seq<u8>)
    requires
        field is Some ==> 0 < field->0.len() < 183,
        0 <= counter < 16,
    ensures
        aligned(video_packets(start, counter, field, pes)),
    decreases pes.len(),
{
    if pes.len() > 0 {
        let room = payload_room(field);
        let take = if pes.len() < room {
            pes.len() as int
        } else {
            room
        };
        super::packet::lemma_video_packets_step(start, counter, field, pes, take);
        lemma_video_packet(start, counter, field, pes.take(take));
        let head = video_packet(start, counter, field, pes.take(take));
        let tail = video_packets(false, (counter + 1) % 16, None, pes.skip(take));
        lemma_aligned_one(head);
        lemma_video_aligned(false, (counter + 1) % 16, None, pes.skip(take));
        lemma_aligned_concat(head, tail);
    }
}

/// What the tables, where they are due, do to a receiver.
proof fn lemma_receive_tables(receiver: Receiver, state: MuxState, pts: u64, keyframe: bool)
    requires
        valid(state),
        follows(receiver, state),
    ensures
        aligned(table_packets(state, pts, keyframe)),
        table_packets(state, pts, keyframe).len() == (if tables_due(state, pts, keyframe) {
            376int
        } else {
            0
        }),
        receive_all(receiver, table_packets(state, pts, keyframe)) == (if tables_due(
            state,
            pts,
            keyframe,
        ) {
            Receiver { pat: (state.pat + 1) % 16, pmt: (state.pmt + 1) % 16, ..receiver }
        } else {
            receiver
        }),
{
    if tables_due(state, pts, keyframe) {
        let pat = psi_packet(PAT_PID, state.pat, with_crc(pat_section()));
        let pmt = psi_packet(PMT_PID, state.pmt, with_crc(pmt_section()));
        lemma_psi_packet(PAT_PID, state.pat, with_crc(pat_section()));
        lemma_psi_packet(PMT_PID, state.pmt, with_crc(pmt_section()));
        lemma_aligned_one(pat);
        lemma_aligned_one(pmt);
        lemma_aligned_concat(pat, pmt);
        lemma_receive_one(receiver, pat);
        lemma_receive_one(receive(receiver, pat), pmt);
        lemma_receive_concat(receiver, pat, pmt);
    }
}

/// A receiver that follows the muxer still follows it after one more access unit, and has then
/// received exactly the PES packet of that unit: every packet is aligned and tagged, and no
/// continuity counter skips.
pub proof fn law_receiver_gets_unit(
    receiver: Receiver,
    state: MuxState,
    au: Seq<u8>,
    pts: u64,
    keyframe: bool,
)
    requires
        valid(state),
        follows(receiver, state),
    ensures
        valid(unit_state(state, au, pts, keyframe)),
        aligned(unit_packets(state, au, pts, keyframe)),
        follows(
            receive_all(receiver, unit_packets(state, au, pts, keyframe)),
            unit_state(state, au, pts, keyframe),
        ),
        receive_all(receiver, unit_packets(state, au, pts, keyframe)).units == (if au.len() == 0 {
            receiver.units
        } else {
            receiver.units.push(pes_packet(au, pts))
        }),
{
    if au.len() > 0 {
        let tables = table_packets(state, pts, keyframe);
        let field = first_field(pts, keyframe);
        let pes = pes_packet(au, pts);
        lemma_receive_tables(receiver, state, pts, keyframe);
        let next = receive_all(receiver, tables);
        lemma_receive_video(next, true, state.video, field, pes);
        let video = video_packets(true, state.video, field, pes);
        lemma_video_aligned(true, state.video, field, pes);
        lemma_aligned_concat(tables, video);
        lemma_receive_concat(receiver, tables, video);
    }
}

/// Over any run of access units, a receiver that follows the muxer gets the PES packet of every
/// non-empty unit, whole, once and in order, and never loses sync.
pub proof fn law_receiver_gets_stream(receiver: Receiver, state: MuxState, units: Seq<AccessUnit>)
    requires
        valid(state),
        follows(receiver, state),
    ensures
        valid(state_after(state, units)),
        aligned(muxed(state, units)),
        follows(receive_all(receiver, muxed(state, units)), state_after(state, units)),
        receive_all(receiver, muxed(state, units)).units == receiver.units + pes_packets(units),
    decreases units.len(),
{
    if units.len() == 0 {
        assert(receiver.units + pes_packets(units) =~= receiver.units);
    } else {
        let last = units.last();
        let before = units.drop_last();
        law_receiver_gets_stream(receiver, state, before);
        let stream = muxed(state, before);
        let next = receive_all(receiver, stream);
        let packets = unit_packets(
            state_after(state, before),
            last.data,
            last.pts,
            last.keyframe,
        );
        law_receiver_gets_unit(
            next,
            state_after(state, before),
            last.data,
            last.pts,
            last.keyframe,
        );
        lemma_aligned_concat(stream, packets);
        lemma_receive_concat(receiver, stream, packets);
        assert(receiver.units + pes_packets(units) =~= receive_all(
            receiver,
            muxed(state, units),
        ).units);
    }
}

/// A PES packet gives the access unit and its presentation time back, the time modulo the 33
/// bits of the clock.
pub proof fn law_pes_round_trip(au: Seq<u8>, pts: u64)
    ensures
        pes_packet(au, pts).take(4) == seq![0x00u8, 0x00, 0x01, 0xe0],
        pes_packet(au, pts).skip(9 + pes_packet(au, pts)[8] as int) == au,
        timestamp_value(pes_packet(au, pts).subrange(9, 14)) == pts as int % clock_period(),
        timestamp_marked(pes_packet(au, pts).subrange(9, 14)),
{
    let pes = pes_packet(au, pts);
    law_timestamp_round_trip(2, pts);
    assert(pes.take(4) =~= seq![0x00u8, 0x00, 0x01, 0xe0]);
    assert(pes.skip(14) =~= au);
    assert(pes.subrange(9, 14) =~= super::clock::timestamp_bytes(2, pts));
}

/// The tables that go out pass their CRC check and lead a receiver from the fixed PID of the
/// PAT to the PMT, and from there to the H.264 video and its clock.
pub proof fn law_tables_lead_to_video(state: MuxState, pts: u64, keyframe: bool)
    requires
        valid(state),
        tables_due(state, pts, keyframe),
    ensures
        ({
            let tables = table_packets(state, pts, keyframe);
            let pat = tables.take(188);
            let pmt = tables.skip(188);
            &&& tables.len() == 376
            &&& pid_of(pat) == PAT_PID
            &&& starts_unit(pat)
            &&& crc32(section_of(pat)) == 0
            &&& section_of(pat)[0] == 0x00
            &&& section_of(pat)[8] as int * 0x100 + section_of(pat)[9] as int == PROGRAM_NUMBER
            &&& (section_of(pat)[10] as int % 0x20) * 0x100 + section_of(pat)[11] as int == PMT_PID
            &&& pid_of(pmt) == PMT_PID
            &&& starts_unit(pmt)
            &&& crc32(section_of(pmt)) == 0
            &&& section_of(pmt)[0] == 0x02
            &&& section_of(pmt)[3] as int * 0x100 + section_of(pmt)[4] as int == PROGRAM_NUMBER
            &&& (section_of(pmt)[8] as int % 0x20) * 0x100 + section_of(pmt)[9] as int == VIDEO_PID
            &&& section_of(pmt)[12] == STREAM_TYPE_H264
            &&& (section_of(pmt)[13] as int % 0x20) * 0x100 + section_of(pmt)[14] as int
                == VIDEO_PID
        }),
{
    let pat = psi_packet(PAT_PID, state.pat, with_crc(pat_section()));
    let pmt = psi_packet(PMT_PID, state.pmt, with_crc(pmt_section()));
    lemma_psi_packet(PAT_PID, state.pat, with_crc(pat_section()));
    lemma_psi_packet(PMT_PID, state.pmt, with_crc(pmt_section()));
    let tables = table_packets(state, pts, keyframe);
    assert(tables.take(188) =~= pat);
    assert(tables.skip(188) =~= pmt);
    assert(pat[6] == 0xb0 && pat[7] == 0x0d);
    assert(pmt[6] == 0xb0 && pmt[7] == 0x12);
    assert(section_of(pat) =~= with_crc(pat_section()));
    assert(section_of(pmt) =~= with_crc(pmt_section()));
    law_closed_section_checks(pat_section());
    law_closed_section_checks(pmt_section());
}

/// The first video packet of an access unit, behind the tables that go before it.
pub open spec fn first_packet(state: MuxState, au: Seq<u8>, pts: u64, keyframe: bool) -> Seq<u8> {
    let tables = table_packets(state, pts, keyframe).len() as int;
    unit_packets(state, au, pts, keyframe).subrange(tables, tables + 188)
}

/// The video packet of an access unit with the given number, counted from zero.
pub open spec fn nth_packet(
    state: MuxState,
    au: Seq<u8>,
    pts: u64,
    keyframe: bool,
    k: int,
) -> Seq<u8> {
    let tables = table_packets(state, pts, keyframe).len() as int;
    unit_packets(state, au, pts, keyframe).subrange(tables + 188 * k, tables + 188 * k + 188)
}

/// How many video packets an access unit has.
pub open spec fn packet_count(state: MuxState, au: Seq<u8>, pts: u64, keyframe: bool) -> int {
    (unit_packets(state, au, pts, keyframe).len() - table_packets(state, pts, keyframe).len())
        / 188
}

/// How much of the PES packet of a unit its first video packet takes.
pub open spec fn first_take(au: Seq<u8>, pts: u64, keyframe: bool) -> int {
    let room = payload_room(first_field(pts, keyframe));
    if pes_packet(au, pts).len() < room {
        pes_packet(au, pts).len() as int
    } else {
        room
    }
}

/// The packets of a unit are the tables, its first video packet and those of the rest.
pub(super) proof fn lemma_unit_parts(state: MuxState, au: Seq<u8>, pts: u64, keyframe: bool)
    requires
        valid(state),
        au.len() > 0,
    ensures
        ({
            let field = first_field(pts, keyframe);
            let pes = pes_packet(au, pts);
            let take = first_take(au, pts, keyframe);
            let tables = table_packets(state, pts, keyframe);
            let head = video_packet(true, state.video, field, pes.take(take));
            let tail = video_packets(false, (state.video + 1) % 16, None, pes.skip(take));
            &&& 0 < take <= pes.len()
            &&& take <= payload_room(field)
            &&& tables.len() == (if tables_due(state, pts, keyframe) {
                376int
            } else {
                0
            })
            &&& head.len() == 188
            &&& unit_packets(state, au, pts, keyframe) == tables + head + tail
            &&& first_packet(state, au, pts, keyframe) == head
        }),
{
    let field = first_field(pts, keyframe);
    let pes = pes_packet(au, pts);
    let take = first_take(au, pts, keyframe);
    let tables = table_packets(state, pts, keyframe);
    let head = video_packet(true, state.video, field, pes.take(take));
    let tail = video_packets(false, (state.video + 1) % 16, None, pes.skip(take));
    if tables_due(state, pts, keyframe) {
        lemma_psi_packet(PAT_PID, state.pat, with_crc(pat_section()));
        lemma_psi_packet(PMT_PID, state.pmt, with_crc(pmt_section()));
    }
    super::packet::lemma_video_packets_step(true, state.video, field, pes, take);
    lemma_video_packet(true, state.video, field, pes.take(take));
    assert(unit_packets(state, au, pts, keyframe) =~= tables + head + tail);
    assert(first_packet(state, au, pts, keyframe) =~= head);
}

/// The first video packet of an access unit starts the unit, and is a random access point
/// exactly for a key frame. No other packet of the unit starts one or is a random access point.
pub proof fn law_random_access(state: MuxState, au: Seq<u8>, pts: u64, keyframe: bool)
    requires
        valid(state),
        au.len() > 0,
    ensures
        packet_count(state, au, pts, keyframe) >= 1,
        nth_packet(state, au, pts, keyframe, 0) == first_packet(state, au, pts, keyframe),
        pid_of(first_packet(state, au, pts, keyframe)) == VIDEO_PID,
        starts_unit(first_packet(state, au, pts, keyframe)),
        is_random_access(first_packet(state, au, pts, keyframe)) == keyframe,
        forall|k: int|
            1 <= k < packet_count(state, au, pts, keyframe) ==> {
                let packet = #[trigger] nth_packet(state, au, pts, keyframe, k);
                pid_of(packet) == VIDEO_PID && !starts_unit(packet) && !is_random_access(packet)
            },
{
    lemma_unit_parts(state, au, pts, keyframe);
    let take = first_take(au, pts, keyframe);
    lemma_video_packet(
        true,
        state.video,
        first_field(pts, keyframe),
        pes_packet(au, pts).take(take),
    );
    assert forall|k: int| 1 <= k < packet_count(state, au, pts, keyframe) implies ({
        let packet = #[trigger] nth_packet(state, au, pts, keyframe, k);
        pid_of(packet) == VIDEO_PID && !starts_unit(packet) && !is_random_access(packet)
    }) by {
        lemma_later_packet(state, au, pts, keyframe, k);
    }
}

/// The clock is on the video PID, and flagged for the receiver: the first video packet of a key
/// frame carries the clock reference that goes with its presentation time, modulo the 33 bits of
/// the clock. No other packet of a unit carries one.
pub proof fn law_clock_is_carried(state: MuxState, au: Seq<u8>, pts: u64, keyframe: bool)
    requires
        valid(state),
        au.len() > 0,
    ensures
        pid_of(first_packet(state, au, pts, keyframe)) == VIDEO_PID,
        carries_clock(first_packet(state, au, pts, keyframe)) == keyframe,
        keyframe ==> clock_of(first_packet(state, au, pts, keyframe)) == Some(
            pcr_for(pts) as int % clock_period(),
        ),
        forall|k: int|
            1 <= k < packet_count(state, au, pts, keyframe) ==> !carries_clock(
                #[trigger] nth_packet(state, au, pts, keyframe, k),
            ),
{
    lemma_unit_parts(state, au, pts, keyframe);
    let payload = pes_packet(au, pts).take(first_take(au, pts, keyframe));
    lemma_video_packet(true, state.video, first_field(pts, keyframe), payload);
    lemma_clock_flag(true, state.video, first_field(pts, keyframe), payload);
    if keyframe {
        lemma_key_frame_clock(state.video, pcr_for(pts), payload);
    }
    assert forall|k: int| 1 <= k < packet_count(state, au, pts, keyframe) implies !carries_clock(
        #[trigger] nth_packet(state, au, pts, keyframe, k),
    ) by {
        lemma_later_packet(state, au, pts, keyframe, k);
    }
}

/// A video packet of a unit after its first one neither starts a unit, nor is a random access
/// point, nor carries the clock.
proof fn lemma_later_packet(state: MuxState, au: Seq<u8>, pts: u64, keyframe: bool, k: int)
    requires
        valid(state),
        au.len() > 0,
        1 <= k < packet_count(state, au, pts, keyframe),
    ensures
        ({
            let packet = nth_packet(state, au, pts, keyframe, k);
            &&& pid_of(packet) == VIDEO_PID
            &&& !starts_unit(packet)
            &&& !is_random_access(packet)
            &&& !carries_clock(packet)
        }),
{
    lemma_unit_parts(state, au, pts, keyframe);
    let rest = pes_packet(au, pts).skip(first_take(au, pts, keyframe));
    let tail = video_packets(false, (state.video + 1) % 16, None, rest);
    lemma_following_packets((state.video + 1) % 16, rest, k - 1);
    assert(nth_packet(state, au, pts, keyframe, k) =~= tail.subrange(
        188 * (k - 1),
        188 * (k - 1) + 188,
    ));
}

/// Packets after the first of a unit neither start one, nor are random access points, nor carry
/// the clock.
proof fn lemma_following_packets(counter: int, pes: Seq<u8>, k: int)
    requires
        0 <= counter < 16,
        0 <= k < video_packets(false, counter, None, pes).len() / 188,
    ensures
        ({
            let packet = video_packets(false, counter, None, pes).subrange(
                188 * k,
                188 * k + 188,
            );
            &&& pid_of(packet) == VIDEO_PID
            &&& !starts_unit(packet)
            &&& !is_random_access(packet)
            &&& !carries_clock(packet)
        }),
    decreases pes.len(),
{
    let take = if pes.len() < 184 {
        pes.len() as int
    } else {
        184
    };
    super::packet::lemma_video_packets_step(false, counter, None, pes, take);
    lemma_video_packet(false, counter, None, pes.take(take));
    lemma_clock_flag(false, counter, None, pes.take(take));
    let head = video_packet(false, counter, None, pes.take(take));
    let tail = video_packets(false, (counter + 1) % 16, None, pes.skip(take));
    let all = video_packets(false, counter, None, pes);
    if k == 0 {
        assert(all.subrange(0, 188) =~= head);
    } else {
        lemma_following_packets((counter + 1) % 16, pes.skip(take), k - 1);
        assert(all.subrange(188 * k, 188 * k + 188) =~= tail.subrange(
            188 * (k - 1),
            188 * (k - 1) + 188,
        ));
    }
}

/// The clock references that a receiver reads off a stream, packet by packet, from the PID that
/// the tables name for the clock.
pub open spec fn clocks_read(stream: Seq<u8>) -> Seq<int>
    decreases stream.len(),
{
    if stream.len() < 188 {
        Seq::empty()
    } else {
        let packet = stream.take(188);
        let later = clocks_read(stream.skip(188));
        if pid_of(packet) == VIDEO_PID && carries_clock(packet) {
            seq![pcr_value(packet.subrange(6, 12))] + later
        } else {
            later
        }
    }
}

/// The clock references that go with a run of access units: one for every key frame.
pub open spec fn clocks_sent(units: Seq<AccessUnit>) -> Seq<int>
    decreases units.len(),
{
    if units.len() == 0 {
        Seq::empty()
    } else if units.last().data.len() == 0 || !units.last().keyframe {
        clocks_sent(units.drop_last())
    } else {
        clocks_sent(units.drop_last()).push(
            pcr_for(units.last().pts) as int % clock_period(),
        )
    }
}

proof fn lemma_clocks_concat(first: Seq<u8>, second: Seq<u8>)
    requires
        first.len() % 188 == 0,
    ensures
        clocks_read(first + second) == clocks_read(first) + clocks_read(second),
    decreases first.len(),
{
    if first.len() == 0 {
        assert(first + second =~= second);
        assert(clocks_read(first) + clocks_read(second) =~= clocks_read(second));
    } else {
        assert((first + second).take(188) =~= first.take(188));
        assert((first + second).skip(188) =~= first.skip(188) + second);
        lemma_clocks_concat(first.skip(188), second);
        assert(clocks_read(first + second) =~= clocks_read(first) + clocks_read(second));
    }
}

proof fn lemma_clocks_one(packet: Seq<u8>)
    requires
        packet.len() == 188,
    ensures
        clocks_read(packet) == (if pid_of(packet) == VIDEO_PID && carries_clock(packet) {
            seq![pcr_value(packet.subrange(6, 12))]
        } else {
            Seq::empty()
        }),
{
    reveal_with_fuel(clocks_read, 2);
    assert(packet.take(188) =~= packet);
    assert(clocks_read(packet.skip(188)) =~= Seq::empty());
    assert(seq![pcr_value(packet.subrange(6, 12))] + Seq::<int>::empty() =~= seq![
        pcr_value(packet.subrange(6, 12)),
    ]);
}

/// There are no clock references in the tables.
proof fn lemma_no_clock_in_tables(state: MuxState, pts: u64, keyframe: bool)
    requires
        valid(state),
    ensures
        clocks_read(table_packets(state, pts, keyframe)) == Seq::<int>::empty(),
        table_packets(state, pts, keyframe).len() % 188 == 0,
{
    if tables_due(state, pts, keyframe) {
        let pat = psi_packet(PAT_PID, state.pat, with_crc(pat_section()));
        let pmt = psi_packet(PMT_PID, state.pmt, with_crc(pmt_section()));
        lemma_psi_packet(PAT_PID, state.pat, with_crc(pat_section()));
        lemma_psi_packet(PMT_PID, state.pmt, with_crc(pmt_section()));
        lemma_clocks_one(pat);
        lemma_clocks_one(pmt);
        lemma_clocks_concat(pat, pmt);
        assert(Seq::<int>::empty() + Seq::<int>::empty() =~= Seq::<int>::empty());
    }
}

/// There are no clock references behind the first packet of a unit.
proof fn lemma_no_clock_in_rest(counter: int, pes: Seq<u8>)
    requires
        0 <= counter < 16,
    ensures
        clocks_read(video_packets(false, counter, None, pes)) == Seq::<int>::empty(),
    decreases pes.len(),
{
    if pes.len() > 0 {
        let take = if pes.len() < 184 {
            pes.len() as int
        } else {
            184
        };
        super::packet::lemma_video_packets_step(false, counter, None, pes, take);
        lemma_video_packet(false, counter, None, pes.take(take));
        lemma_clock_flag(false, counter, None, pes.take(take));
        let head = video_packet(false, counter, None, pes.take(take));
        let tail = video_packets(false, (counter + 1) % 16, None, pes.skip(take));
        lemma_clocks_one(head);
        lemma_no_clock_in_rest((counter + 1) % 16, pes.skip(take));
        lemma_clocks_concat(head, tail);
        assert(Seq::<int>::empty() + Seq::<int>::empty() =~= Seq::<int>::empty());
    }
}

/// What a receiver reads off the packets of one unit.
proof fn lemma_clocks_of_unit(state: MuxState, au: Seq<u8>, pts: u64, keyframe: bool)
    requires
        valid(state),
        au.len() > 0,
    ensures
        clocks_read(unit_packets(state, au, pts, keyframe)) == (if keyframe {
            seq![pcr_for(pts) as int % clock_period()]
        } else {
            Seq::empty()
        }),
{
    let take = first_take(au, pts, keyframe);
    let tables = table_packets(state, pts, keyframe);
    let head = first_packet(state, au, pts, keyframe);
    let rest = pes_packet(au, pts).skip(take);
    let tail = video_packets(false, (state.video + 1) % 16, None, rest);
    lemma_unit_parts(state, au, pts, keyframe);
    law_clock_is_carried(state, au, pts, keyframe);
    lemma_no_clock_in_tables(state, pts, keyframe);
    lemma_clocks_one(head);
    lemma_no_clock_in_rest((state.video + 1) % 16, rest);
    lemma_clocks_concat(tables, head);
    lemma_clocks_concat(tables + head, tail);
    assert(clocks_read(unit_packets(state, au, pts, keyframe)) =~= clocks_read(head));
}

/// Over any run of access units, a receiver that heeds the flags reads the clock reference of
/// every key frame, once and in order, and no other.
pub proof fn law_receiver_gets_clock(state: MuxState, units: Seq<AccessUnit>)
    requires
        valid(state),
    ensures
        clocks_read(muxed(state, units)) == clocks_sent(units),
    decreases units.len(),
{
    if units.len() > 0 {
        let last = units.last();
        let before = units.drop_last();
        let follower = Receiver {
            in_sync: true,
            pat: state.pat,
            pmt: state.pmt,
            video: state.video,
            units: Seq::empty(),
        };
        law_receiver_gets_clock(state, before);
        law_receiver_gets_stream(follower, state, before);
        let packets = unit_packets(
            state_after(state, before),
            last.data,
            last.pts,
            last.keyframe,
        );
        lemma_clocks_concat(muxed(state, before), packets);
        if last.data.len() > 0 {
            lemma_clocks_of_unit(state_after(state, before), last.data, last.pts, last.keyframe);
        }
        assert(clocks_read(muxed(state, units)) =~= clocks_sent(units));
    }
}

/// The clock reference never runs ahead of the presentation time it goes with, and trails it by
/// 200 ms once there is that much time.
pub proof fn law_clock_leads(pts: u64)
    ensures
        pcr_for(pts) <= pts,
        pts >= PCR_LEAD_90KHZ ==> pts - pcr_for(pts) == PCR_LEAD_90KHZ,
        pts < PCR_LEAD_90KHZ ==> pcr_for(pts) == 0,
{
}

/// Once the tables went out with a unit, they go out again with the first later unit that is a
/// key frame or presented at least 100 ms after it, and with none before.
pub proof fn law_tables_repeat(
    state: MuxState,
    au: Seq<u8>,
    pts: u64,
    keyframe: bool,
    between: Seq<AccessUnit>,
    later_pts: u64,
    later_keyframe: bool,
)
    requires
        au.len() > 0,
        tables_due(state, pts, keyframe),
        forall|i: int|
            0 <= i < between.len() ==> !(#[trigger] between[i]).keyframe && between[i].pts < pts
                + PSI_INTERVAL_90KHZ,
    ensures
        ({
            let after = state_after(unit_state(state, au, pts, keyframe), between);
            tables_due(after, later_pts, later_keyframe) <==> later_keyframe || later_pts >= pts
                + PSI_INTERVAL_90KHZ
        }),
        forall|i: int|
            0 <= i < between.len() ==> !tables_due(
                #[trigger] state_after(unit_state(state, au, pts, keyframe), between.take(i)),
                between[i].pts,
                between[i].keyframe,
            ),
    decreases between.len(),
{
    let first = unit_state(state, au, pts, keyframe);
    if between.len() > 0 {
        let before = between.drop_last();
        let last = between.last();
        assert(between[between.len() - 1] == last);
        assert forall|i: int| 0 <= i < before.len() implies !(#[trigger] before[i]).keyframe
            && before[i].pts < pts + PSI_INTERVAL_90KHZ by {
            assert(between[i] == before[i]);
        }
        law_tables_repeat(state, au, pts, keyframe, before, last.pts, last.keyframe);
        assert forall|i: int| 0 <= i < between.len() implies !tables_due(
            #[trigger] state_after(first, between.take(i)),
            between[i].pts,
            between[i].keyframe,
        ) by {
            if i < before.len() {
                assert(before.take(i) =~= between.take(i));
                assert(before[i] == between[i]);
                assert(!tables_due(
                    state_after(first, before.take(i)),
                    before[i].pts,
                    before[i].keyframe,
                ));
            } else {
                assert(between.take(i) =~= before);
            }
        }
        law_tables_repeat(state, au, pts, keyframe, before, later_pts, later_keyframe);
    }
}

} // verus!
