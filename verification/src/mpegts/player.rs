//! What a player reads off the stream, field by field.

use super::demux::{
    field_len, first_packet, first_take, follows, law_receiver_gets_stream,
    law_receiver_gets_unit, lemma_psi_packet, lemma_unit_parts, muxed, nth_packet, packet_count,
    payload_of, pes_packets, pid_of, receive_all, state_after, valid, AccessUnit,
    Receiver,
};
use super::packet::{
    lemma_video_packets_step, pat_section, payload_room, pes_packet, pmt_section, psi_packet,
    video_packet, video_packet_count, video_packets, PAT_PID, PMT_PID,
};
use super::{
    first_field, initial_state, table_packets, tables_due, unit_packets, unit_state, MuxState,
};
use crate::mpegts::clock::law_timestamp_bits;
use crate::mpegts::crc::with_crc;
use vstd::prelude::*;

verus! {

/// The presentation time that a player reads off a PES packet: `None` unless it is one of a video
/// stream whose flags announce a PTS and no DTS, and whose timestamp has its prefix and markers.
pub open spec fn pts_read(pes: Seq<u8>) -> Option<int> {
    if pes.len() >= 14 && pes[0] == 0 && pes[1] == 0 && pes[2] == 1 && 0xe0 <= pes[3] <= 0xef
        && pes[6] as int / 0x40 == 2 && pes[7] as int / 0x40 == 2 && pes[8] >= 5 && pes[9] as int
        / 0x10 == 2 && pes[9] as int % 2 == 1 && pes[11] as int % 2 == 1 && pes[13] as int % 2
        == 1 {
        Some(
            (pes[9] as int / 2 % 8) * 0x4000_0000 + (pes[10] as int * 0x80 + pes[11] as int / 2)
                * 0x8000 + (pes[12] as int * 0x80 + pes[13] as int / 2),
        )
    } else {
        None
    }
}

/// The access unit that a player reads off a PES packet: what follows the header, whose length is
/// in its ninth byte. `None` unless the packet is of a video stream, not scrambled, and open ended.
pub open spec fn unit_read(pes: Seq<u8>) -> Option<Seq<u8>> {
    if pes.len() >= 9 && pes[0] == 0 && pes[1] == 0 && pes[2] == 1 && 0xe0 <= pes[3] <= 0xef
        && pes[4] == 0 && pes[5] == 0 && pes[6] as int / 0x40 == 2 && pes[6] as int / 0x10 % 4 == 0
        && pes.len() >= 9 + pes[8] {
        Some(pes.skip(9 + pes[8]))
    } else {
        None
    }
}

/// A player that heeds the flags of a PES packet reads the presentation time, modulo 2^33, and the
/// whole access unit off it, whatever they are. The header announces a PTS and nothing else (no
/// DTS, no other clock, no extension), its length field is open, and the unit starts right behind
/// it.
pub proof fn law_pes_is_read(au: Seq<u8>, pts: u64)
    ensures
        pts_read(pes_packet(au, pts)) == Some(pts as int % 0x2_0000_0000),
        unit_read(pes_packet(au, pts)) == Some(au),
        pes_packet(au, pts)[3] == 0xe0,
        pes_packet(au, pts)[4] == 0 && pes_packet(au, pts)[5] == 0,
        pes_packet(au, pts)[6] as int % 0x10 == 4,
        pes_packet(au, pts)[7] as int % 0x40 == 0,
        pes_packet(au, pts)[8] == 5,
        pes_packet(au, pts).len() == au.len() + 14,
{
    let pes = pes_packet(au, pts);
    law_timestamp_bits(2, pts);
    let time = super::clock::timestamp_bytes(2, pts);
    assert(pes[9] == time[0] && pes[10] == time[1] && pes[11] == time[2] && pes[12] == time[3]
        && pes[13] == time[4]);
    assert(pes.skip(14) =~= au);
}

/// What is sent of a run of access units: the data and the presentation time, modulo 2^33, of
/// each that is not empty.
pub open spec fn frames_sent(units: Seq<AccessUnit>) -> Seq<(Option<Seq<u8>>, Option<int>)>
    decreases units.len(),
{
    if units.len() == 0 {
        Seq::empty()
    } else if units.last().data.len() == 0 {
        frames_sent(units.drop_last())
    } else {
        frames_sent(units.drop_last()).push(
            (Some(units.last().data), Some(units.last().pts as int % 0x2_0000_0000)),
        )
    }
}

/// What a player reads off the PES packets it got.
pub open spec fn frames_read(units: Seq<Seq<u8>>) -> Seq<(Option<Seq<u8>>, Option<int>)> {
    Seq::new(units.len(), |i: int| (unit_read(units[i]), pts_read(units[i])))
}

proof fn lemma_frames_read(units: Seq<AccessUnit>)
    ensures
        frames_read(pes_packets(units)) == frames_sent(units),
    decreases units.len(),
{
    if units.len() > 0 {
        lemma_frames_read(units.drop_last());
        let last = units.last();
        if last.data.len() > 0 {
            law_pes_is_read(last.data, last.pts);
            assert(frames_read(pes_packets(units)) =~= frames_read(
                pes_packets(units.drop_last()),
            ).push((Some(last.data), Some(last.pts as int % 0x2_0000_0000))));
        }
    } else {
        assert(frames_read(pes_packets(units)) =~= Seq::empty());
    }
}

/// A player that tunes in with nothing received so far gets the data and the presentation time of
/// every frame that is not empty, whole, once and in order.
pub proof fn law_player_gets_frames(receiver: Receiver, state: MuxState, units: Seq<AccessUnit>)
    requires
        valid(state),
        follows(receiver, state),
        receiver.units.len() == 0,
    ensures
        frames_read(receive_all(receiver, muxed(state, units)).units) == frames_sent(units),
{
    law_receiver_gets_stream(receiver, state, units);
    lemma_frames_read(units);
    assert(receiver.units + pes_packets(units) =~= pes_packets(units));
}

/// A packet in which nothing is set that the stream has no use for: no error, no priority and no
/// scrambling, a payload, the given flags where there is an adaptation field to hold them, and
/// stuffing behind the first `used` bytes of that field.
pub open spec fn tidy(packet: Seq<u8>, flags: u8, used: int) -> bool {
    &&& packet.len() == 188
    &&& packet[0] == 0x47
    &&& packet[1] as int / 0x80 == 0
    &&& packet[1] as int / 0x20 % 2 == 0
    &&& packet[3] as int / 0x40 == 0
    &&& packet[3] as int / 0x10 % 2 == 1
    &&& 4 + field_len(packet) <= 188
    &&& field_len(packet) > 1 ==> packet[5] == flags
    &&& forall|i: int|
        5 + used <= i < 4 + field_len(packet) ==> #[trigger] packet[i] == 0xff
}

proof fn lemma_tidy(start: bool, counter: int, field: Option<Seq<u8>>, payload: Seq<u8>)
    requires
        field is Some ==> 0 < field->0.len() < 183,
        0 <= counter < 16,
        payload.len() <= payload_room(field),
    ensures
        field is None ==> tidy(video_packet(start, counter, field, payload), 0x00, 1),
        field is Some ==> tidy(
            video_packet(start, counter, field, payload),
            field->0[0],
            field->0.len() as int,
        ),
        payload_of(video_packet(start, counter, field, payload)) == payload,
        field_len(video_packet(start, counter, field, payload)) == 184 - payload.len(),
{
    reveal(video_packet);
    let packet = video_packet(start, counter, field, payload);
    assert(payload_of(packet) =~= payload);
    if let Some(body) = field {
        assert(packet[5] == body[0]);
    } else if payload.len() < 183 {
        assert(packet[5] == 0);
    }
}

/// The packets of the rest of a PES packet: all of them are tidy, each but the last is full, and
/// none is empty.
proof fn lemma_rest_is_tidy(counter: int, pes: Seq<u8>, k: int)
    requires
        0 <= counter < 16,
        0 <= k < video_packets(false, counter, None, pes).len() / 188,
    ensures
        ({
            let all = video_packets(false, counter, None, pes);
            let packet = all.subrange(188 * k, 188 * k + 188);
            &&& tidy(packet, 0x00, 1)
            &&& payload_of(packet).len() > 0
            &&& field_len(packet) == 184 - payload_of(packet).len()
            &&& k < all.len() / 188 - 1 ==> payload_of(packet).len() == 184
        }),
    decreases pes.len(),
{
    let take = if pes.len() < 184 {
        pes.len() as int
    } else {
        184
    };
    lemma_video_packets_step(false, counter, None, pes, take);
    lemma_tidy(false, counter, None, pes.take(take));
    let head = video_packet(false, counter, None, pes.take(take));
    let tail = video_packets(false, (counter + 1) % 16, None, pes.skip(take));
    let all = video_packets(false, counter, None, pes);
    assert(all =~= head + tail);
    if k == 0 {
        assert(all.subrange(0, 188) =~= head);
    } else {
        lemma_rest_is_tidy((counter + 1) % 16, pes.skip(take), k - 1);
        assert(all.subrange(188 * k, 188 * k + 188) =~= tail.subrange(
            188 * (k - 1),
            188 * (k - 1) + 188,
        ));
    }
}

proof fn lemma_packets_len(start: bool, counter: int, field: Option<Seq<u8>>, pes: Seq<u8>)
    requires
        field is Some ==> 0 < field->0.len() < 183,
        0 <= counter < 16,
    ensures
        video_packets(start, counter, field, pes).len() == 188 * video_packet_count(
            field,
            pes.len() as int,
        ),
    decreases pes.len(),
{
    if pes.len() > 0 {
        let room = payload_room(field);
        let take = if pes.len() < room {
            pes.len() as int
        } else {
            room
        };
        lemma_video_packets_step(start, counter, field, pes, take);
        lemma_tidy(start, counter, field, pes.take(take));
        lemma_packets_len(false, (counter + 1) % 16, None, pes.skip(take));
    }
}

/// A unit takes as few packets as it can: its 14 bytes of header and its data, and for a key frame
/// the eight bytes of the adaptation field, fill packets with room for 184 bytes, and only the last
/// one is short.
pub proof fn law_packets_are_filled(state: MuxState, au: Seq<u8>, pts: u64, keyframe: bool)
    requires
        valid(state),
        au.len() > 0,
    ensures
        ({
            let bytes = au.len() + 14 + (if keyframe {
                8int
            } else {
                0
            });
            let count = packet_count(state, au, pts, keyframe);
            &&& 184 * (count - 1) < bytes <= 184 * count
            &&& unit_packets(state, au, pts, keyframe).len() == 188 * count + (if tables_due(
                state,
                pts,
                keyframe,
            ) {
                376int
            } else {
                0
            })
        }),
{
    lemma_unit_parts(state, au, pts, keyframe);
    lemma_packets_len(true, state.video, first_field(pts, keyframe), pes_packet(au, pts));
}

/// Every video packet of a unit is tidy: the first one of a key frame has the flags of a random
/// access point and of the clock and, behind the clock reference, stuffing; the others have no
/// flags. Every packet but the last is full, and none is without payload.
pub proof fn law_packets_are_tidy(
    state: MuxState,
    au: Seq<u8>,
    pts: u64,
    keyframe: bool,
    k: int,
)
    requires
        valid(state),
        au.len() > 0,
        0 <= k < packet_count(state, au, pts, keyframe),
    ensures
        ({
            let packet = nth_packet(state, au, pts, keyframe, k);
            let lead = k == 0 && keyframe;
            &&& lead ==> tidy(packet, 0x50, 7)
            &&& !lead ==> tidy(packet, 0x00, 1)
            &&& lead ==> field_len(packet) >= 8
            &&& payload_of(packet).len() > 0
            &&& payload_of(packet).len() + field_len(packet) == 184
            &&& k < packet_count(state, au, pts, keyframe) - 1 ==> field_len(packet) == (if lead {
                8int
            } else {
                0
            })
        }),
{
    lemma_unit_parts(state, au, pts, keyframe);
    let field = first_field(pts, keyframe);
    let pes = pes_packet(au, pts);
    let take = first_take(au, pts, keyframe);
    let rest = pes.skip(take);
    let tail = video_packets(false, (state.video + 1) % 16, None, rest);
    lemma_packets_len(false, (state.video + 1) % 16, None, rest);
    if k == 0 {
        lemma_tidy(true, state.video, field, pes.take(take));
        assert(nth_packet(state, au, pts, keyframe, 0) =~= first_packet(state, au, pts, keyframe));
    } else {
        lemma_rest_is_tidy((state.video + 1) % 16, rest, k - 1);
        assert(nth_packet(state, au, pts, keyframe, k) =~= tail.subrange(
            188 * (k - 1),
            188 * (k - 1) + 188,
        ));
    }
}

/// A packet with one table in it: nothing set that has no use, no adaptation field, the start of a
/// section right behind the header, that section, current and the only one of its table, and
/// stuffing behind it.
pub open spec fn tidy_table(packet: Seq<u8>, len: int) -> bool {
    &&& packet.len() == 188
    &&& packet[0] == 0x47
    &&& packet[1] as int / 0x20 == 2
    &&& packet[3] as int / 0x10 == 1
    &&& packet[4] == 0
    &&& packet[6] as int / 0x10 == 0x0b
    &&& (packet[6] as int % 0x10) * 0x100 + packet[7] as int == len
    &&& packet[10] == 0xc1
    &&& packet[11] == 0
    &&& packet[12] == 0
    &&& forall|i: int| 8 + len <= i < 188 ==> #[trigger] packet[i] == 0xff
}

/// Both tables are tidy. The PAT is of transport stream 1 and lists program 1 alone; the PMT has
/// no descriptors and lists the H.264 stream alone.
pub proof fn law_tables_are_tidy(state: MuxState, pts: u64, keyframe: bool)
    requires
        valid(state),
        tables_due(state, pts, keyframe),
    ensures
        ({
            let tables = table_packets(state, pts, keyframe);
            let pat = tables.take(188);
            let pmt = tables.skip(188);
            &&& tidy_table(pat, 13)
            &&& pid_of(pat) == 0
            &&& pat[8] == 0 && pat[9] == 1
            &&& pat[13] == 0 && pat[14] == 1
            &&& pat[15] == 0xf0 && pat[16] == 0
            &&& tidy_table(pmt, 18)
            &&& pid_of(pmt) == 0x1000
            &&& pmt[8] == 0 && pmt[9] == 1
            &&& pmt[13] == 0xe1 && pmt[14] == 0
            &&& pmt[15] == 0xf0 && pmt[16] == 0
            &&& pmt[17] == 0x1b
            &&& pmt[18] == 0xe1 && pmt[19] == 0
            &&& pmt[20] == 0xf0 && pmt[21] == 0
        }),
{
    let pat = psi_packet(PAT_PID, state.pat, with_crc(pat_section()));
    let pmt = psi_packet(PMT_PID, state.pmt, with_crc(pmt_section()));
    lemma_psi_packet(PAT_PID, state.pat, with_crc(pat_section()));
    lemma_psi_packet(PMT_PID, state.pmt, with_crc(pmt_section()));
    let tables = table_packets(state, pts, keyframe);
    assert(tables.take(188) =~= pat);
    assert(tables.skip(188) =~= pmt);
}

/// Whether a stream starts with a PAT, a PMT and then video.
pub open spec fn starts_with_tables(stream: Seq<u8>) -> bool {
    stream.len() >= 564 && pid_of(stream.take(188)) == 0 && pid_of(stream.subrange(188, 376))
        == 0x1000 && pid_of(stream.subrange(376, 564)) == 0x100
}

/// Whether a stream starts with video.
pub open spec fn starts_with_video(stream: Seq<u8>) -> bool {
    stream.len() >= 188 && pid_of(stream.take(188)) == 0x100
}

/// When the tables last went out in a run of access units, where they go out with the first unit,
/// with every key frame, and 100 ms (9000 ticks) after they last did. Empty units do not count.
pub open spec fn tables_went_out(units: Seq<AccessUnit>) -> Option<int>
    decreases units.len(),
{
    if units.len() == 0 {
        None
    } else {
        let last = units.last();
        let before = tables_went_out(units.drop_last());
        if last.data.len() > 0 && (last.keyframe || before is None || last.pts >= before->0
            + 9000) {
            Some(last.pts as int)
        } else {
            before
        }
    }
}

proof fn lemma_tables_went_out(units: Seq<AccessUnit>)
    ensures
        state_after(initial_state(), units).next_psi == (match tables_went_out(units) {
            None => None,
            Some(pts) => Some(pts + 9000),
        }),
        valid(state_after(initial_state(), units)),
    decreases units.len(),
{
    if units.len() > 0 {
        lemma_tables_went_out(units.drop_last());
        let before = state_after(initial_state(), units.drop_last());
        let follower = Receiver {
            in_sync: true,
            pat: before.pat,
            pmt: before.pmt,
            video: before.video,
            units: Seq::empty(),
        };
        law_receiver_gets_unit(
            follower,
            before,
            units.last().data,
            units.last().pts,
            units.last().keyframe,
        );
    }
}

/// From the start of a stream on, whatever units came before, the packets of the next one that is
/// not empty start with the tables if it is a key frame, the first one, or at least 100 ms after
/// the tables last went out, and with the video otherwise.
pub proof fn law_tables_go_out_in_time(
    units: Seq<AccessUnit>,
    au: Seq<u8>,
    pts: u64,
    keyframe: bool,
)
    requires
        au.len() > 0,
    ensures
        ({
            let packets = unit_packets(
                state_after(initial_state(), units),
                au,
                pts,
                keyframe,
            );
            let last = tables_went_out(units);
            if keyframe || last is None || pts >= last->0 + 9000 {
                starts_with_tables(packets)
            } else {
                starts_with_video(packets)
            }
        }),
{
    lemma_tables_went_out(units);
    let state = state_after(initial_state(), units);
    lemma_unit_parts(state, au, pts, keyframe);
    super::demux::law_random_access(state, au, pts, keyframe);
    let packets = unit_packets(state, au, pts, keyframe);
    let first = first_packet(state, au, pts, keyframe);
    if tables_due(state, pts, keyframe) {
        let pat = psi_packet(PAT_PID, state.pat, with_crc(pat_section()));
        let pmt = psi_packet(PMT_PID, state.pmt, with_crc(pmt_section()));
        lemma_psi_packet(PAT_PID, state.pat, with_crc(pat_section()));
        lemma_psi_packet(PMT_PID, state.pmt, with_crc(pmt_section()));
        assert(packets.take(188) =~= pat);
        assert(packets.subrange(188, 376) =~= pmt);
        assert(packets.subrange(376, 564) =~= first);
    } else {
        assert(packets.take(188) =~= first);
    }
}

/// An empty unit leaves no trace: not a byte, and no counter moves.
pub proof fn law_empty_units_leave_no_trace(state: MuxState, pts: u64, keyframe: bool)
    ensures
        unit_packets(state, Seq::empty(), pts, keyframe).len() == 0,
        unit_state(state, Seq::empty(), pts, keyframe) == state,
{
}

/// The clock reference of a unit runs 18000 ticks (200 ms) behind its presentation time, and stays
/// at zero until that much time has passed.
pub proof fn law_clock_runs_behind(pts: u64)
    ensures
        super::pcr_for(pts) + 18_000 >= pts,
        super::pcr_for(pts) == 0 || super::pcr_for(pts) + 18_000 == pts,
        pts < 18_000 ==> super::pcr_for(pts) == 0,
{
}

} // verus!
