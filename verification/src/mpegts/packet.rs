//! The layout of transport packets: what the muxer writes, and how a receiver reads it.

use super::clock::{pcr_bytes, timestamp_bytes};
use vstd::prelude::*;

verus! {

pub const TS_PACKET_LEN: usize = 188;

pub const SYNC_BYTE: u8 = 0x47;

pub const PAT_PID: u16 = 0x0000;

pub const PMT_PID: u16 = 0x1000;

pub const VIDEO_PID: u16 = 0x0100;

pub const PROGRAM_NUMBER: u16 = 1;

pub const TRANSPORT_STREAM_ID: u16 = 1;

pub const STREAM_TYPE_H264: u8 = 0x1b;

pub const PES_STREAM_ID_VIDEO: u8 = 0xe0;

/// The high byte of a 16 bit value.
pub open spec fn high(value: u16) -> u8 {
    (value / 0x100) as u8
}

/// The low byte of a 16 bit value.
pub open spec fn low(value: u16) -> u8 {
    (value % 0x100) as u8
}

/// `n` stuffing bytes.
pub open spec fn stuffing(n: int) -> Seq<u8> {
    Seq::new(n as nat, |i: int| 0xffu8)
}

/// The section of the program association table: one program, described on the PMT's PID.
pub open spec fn pat_section() -> Seq<u8> {
    seq![
        0x00u8,
        0xb0,
        0x0d,
        high(TRANSPORT_STREAM_ID),
        low(TRANSPORT_STREAM_ID),
        0xc1,
        0x00,
        0x00,
        high(PROGRAM_NUMBER),
        low(PROGRAM_NUMBER),
        (0xe0 + high(PMT_PID)) as u8,
        low(PMT_PID),
    ]
}

/// The section of the program map table: one H.264 stream, which also carries the clock.
pub open spec fn pmt_section() -> Seq<u8> {
    seq![
        0x02u8,
        0xb0,
        0x12,
        high(PROGRAM_NUMBER),
        low(PROGRAM_NUMBER),
        0xc1,
        0x00,
        0x00,
        (0xe0 + high(VIDEO_PID)) as u8,
        low(VIDEO_PID),
        0xf0,
        0x00,
        STREAM_TYPE_H264,
        (0xe0 + high(VIDEO_PID)) as u8,
        low(VIDEO_PID),
        0xf0,
        0x00,
    ]
}

/// A packet that holds one whole table section, padded with stuffing bytes.
pub open spec fn psi_packet(pid: u16, counter: int, section: Seq<u8>) -> Seq<u8> {
    seq![
        SYNC_BYTE,
        (0x40 + pid as int / 0x100) as u8,
        low(pid),
        (0x10 + counter) as u8,
        0x00u8,
    ] + section + stuffing(183 - section.len())
}

/// What starts a video PES packet: the stream id, an unbounded length, and the presentation
/// time.
pub open spec fn pes_header(pts: u64) -> Seq<u8> {
    seq![0x00u8, 0x00, 0x01, PES_STREAM_ID_VIDEO, 0x00, 0x00, 0x84, 0x80, 0x05] + timestamp_bytes(
        2,
        pts,
    )
}

/// The PES packet of one access unit.
pub open spec fn pes_packet(au: Seq<u8>, pts: u64) -> Seq<u8> {
    pes_header(pts) + au
}

/// What the adaptation field of a key frame's first packet starts with: the flags of a random
/// access point and of a clock reference, then the clock reference.
pub open spec fn key_frame_field(pcr: u64) -> Seq<u8> {
    seq![0x50u8] + pcr_bytes(pcr)
}

/// An adaptation field body grown to `len` bytes. One with nothing to say starts with a byte
/// that raises no flag.
pub open spec fn grown_field(field: Seq<u8>, len: int) -> Seq<u8> {
    if len == 0 {
        Seq::empty()
    } else if field.len() == 0 {
        seq![0x00u8] + stuffing(len - 1)
    } else {
        field + stuffing(len - field.len())
    }
}

/// The most payload that fits in one video packet beside an adaptation field body.
pub open spec fn payload_room(field: Option<Seq<u8>>) -> int {
    match field {
        None => 184,
        Some(body) => 183 - body.len(),
    }
}

/// One video packet. A payload that does not fill it is preceded by an adaptation field that
/// takes up the rest.
#[verifier::opaque]
pub open spec fn video_packet(
    start: bool,
    counter: int,
    field: Option<Seq<u8>>,
    payload: Seq<u8>,
) -> Seq<u8> {
    let unit_start: int = if start {
        0x40
    } else {
        0
    };
    let head = seq![
        SYNC_BYTE,
        (unit_start + VIDEO_PID as int / 0x100) as u8,
        low(VIDEO_PID),
    ];
    if field is None && payload.len() == 184 {
        head + seq![(0x10 + counter) as u8] + payload
    } else {
        let body = grown_field(
            match field {
                None => Seq::empty(),
                Some(body) => body,
            },
            183 - payload.len(),
        );
        head + seq![(0x30 + counter) as u8, body.len() as u8] + body + payload
    }
}

/// The video packets of a PES packet, or of what is left of one. Every packet but the last is
/// full; only the first can mark the start of the unit and bring a field of its own.
pub open spec fn video_packets(
    start: bool,
    counter: int,
    field: Option<Seq<u8>>,
    pes: Seq<u8>,
) -> Seq<u8>
    decreases pes.len(),
    when field is None || field->0.len() < 183
{
    if pes.len() == 0 {
        Seq::empty()
    } else if pes.len() <= payload_room(field) {
        video_packet(start, counter, field, pes)
    } else {
        video_packet(start, counter, field, pes.take(payload_room(field))) + video_packets(
            false,
            (counter + 1) % 16,
            None,
            pes.skip(payload_room(field)),
        )
    }
}

/// How many video packets a PES packet takes.
pub open spec fn video_packet_count(field: Option<Seq<u8>>, len: int) -> int {
    if len <= 0 {
        0
    } else if len <= payload_room(field) {
        1
    } else {
        1 + (len - payload_room(field) + 183) / 184
    }
}

/// A first packet takes what fits; the packets of the rest follow, with the next counter.
pub proof fn lemma_video_packets_step(
    start: bool,
    counter: int,
    field: Option<Seq<u8>>,
    pes: Seq<u8>,
    take: int,
)
    requires
        field is None || field->0.len() < 183,
        pes.len() > 0,
        take == (if pes.len() < payload_room(field) {
            pes.len() as int
        } else {
            payload_room(field)
        }),
    ensures
        video_packets(start, counter, field, pes) == video_packet(
            start,
            counter,
            field,
            pes.take(take),
        ) + video_packets(false, (counter + 1) % 16, None, pes.skip(take)),
        video_packet_count(field, pes.len() as int) == 1 + video_packet_count(
            None,
            pes.len() - take,
        ),
{
    if pes.len() <= payload_room(field) {
        assert(pes.take(take) =~= pes);
        assert(pes.skip(take).len() == 0);
        assert(video_packet(start, counter, field, pes) =~= video_packet(start, counter, field, pes)
            + Seq::empty());
    }
}

} // verus!
