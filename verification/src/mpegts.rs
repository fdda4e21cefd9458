//! Minimal MPEG-2 transport stream muxer for a single H.264 elementary stream.
//!
//! Only what a player needs to tune into a live UDP stream: a PAT, a PMT and the video PES
//! packets, with the PCR carried on the video PID.

use crate::bytes::append_bytes;
use vstd::prelude::*;
use vstd::slice::slice_subrange;

pub mod clock;
pub mod crc;
pub mod demux;
pub mod packet;
pub mod player;

pub use clock::{encode_pcr, encode_timestamp};
pub use crc::{append_crc32, crc32_mpeg2};
pub use packet::{
    PAT_PID, PES_STREAM_ID_VIDEO, PMT_PID, PROGRAM_NUMBER, STREAM_TYPE_H264, SYNC_BYTE,
    TRANSPORT_STREAM_ID, TS_PACKET_LEN, VIDEO_PID,
};

verus! {

/// How often the PAT and the PMT are repeated, in 90 kHz ticks (100 ms).
pub const PSI_INTERVAL_90KHZ: u64 = 9_000;

/// How far the presentation times run ahead of the clock reference, in 90 kHz ticks (200 ms).
/// Decoders need the PCR to arrive before the PTS it times.
pub const PCR_LEAD_90KHZ: u64 = 18_000;

/// What a muxer remembers between access units.
pub struct MuxState {
    /// The continuity counter of the next PAT packet.
    pub pat: int,
    /// The continuity counter of the next PMT packet.
    pub pmt: int,
    /// The continuity counter of the next video packet.
    pub video: int,
    /// When the tables are due again; `None` before they were first written.
    pub next_psi: Option<int>,
}

/// The state of a muxer that has written nothing yet.
pub open spec fn initial_state() -> MuxState {
    MuxState { pat: 0, pmt: 0, video: 0, next_psi: None }
}

/// Whether the tables go out before an access unit: before every key frame, before the first
/// unit, and whenever they are due.
pub open spec fn tables_due(state: MuxState, pts: u64, keyframe: bool) -> bool {
    keyframe || match state.next_psi {
        None => true,
        Some(next) => pts >= next,
    }
}

/// The clock reference that goes with a presentation time.
pub open spec fn pcr_for(pts: u64) -> u64 {
    if pts >= PCR_LEAD_90KHZ {
        (pts - PCR_LEAD_90KHZ) as u64
    } else {
        0
    }
}

/// What the adaptation field of an access unit's first packet starts with.
pub open spec fn first_field(pts: u64, keyframe: bool) -> Option<Seq<u8>> {
    if keyframe {
        Some(packet::key_frame_field(pcr_for(pts)))
    } else {
        None
    }
}

/// The packets of the tables, where they are due.
pub open spec fn table_packets(state: MuxState, pts: u64, keyframe: bool) -> Seq<u8> {
    if tables_due(state, pts, keyframe) {
        packet::psi_packet(PAT_PID, state.pat, crc::with_crc(packet::pat_section()))
            + packet::psi_packet(PMT_PID, state.pmt, crc::with_crc(packet::pmt_section()))
    } else {
        Seq::empty()
    }
}

/// All the packets of one access unit.
pub open spec fn unit_packets(state: MuxState, au: Seq<u8>, pts: u64, keyframe: bool) -> Seq<u8> {
    if au.len() == 0 {
        Seq::empty()
    } else {
        table_packets(state, pts, keyframe) + packet::video_packets(
            true,
            state.video,
            first_field(pts, keyframe),
            packet::pes_packet(au, pts),
        )
    }
}

/// The state of the muxer after one access unit.
pub open spec fn unit_state(state: MuxState, au: Seq<u8>, pts: u64, keyframe: bool) -> MuxState {
    if au.len() == 0 {
        state
    } else {
        let video = (state.video + packet::video_packet_count(
            first_field(pts, keyframe),
            packet::pes_packet(au, pts).len() as int,
        )) % 16;
        if tables_due(state, pts, keyframe) {
            MuxState {
                pat: (state.pat + 1) % 16,
                pmt: (state.pmt + 1) % 16,
                video,
                next_psi: Some(pts + PSI_INTERVAL_90KHZ),
            }
        } else {
            MuxState { video, ..state }
        }
    }
}

pub struct TsMuxer {
    pat_counter: u8,
    pmt_counter: u8,
    video_counter: u8,
    next_psi_pts: Option<u64>,
}

impl View for TsMuxer {
    type V = MuxState;

    closed spec fn view(&self) -> MuxState {
        MuxState {
            pat: self.pat_counter as int % 16,
            pmt: self.pmt_counter as int % 16,
            video: self.video_counter as int % 16,
            next_psi: match self.next_psi_pts {
                None => None,
                Some(next) => Some(next as int),
            },
        }
    }
}

impl Default for TsMuxer {
    fn default() -> (muxer: Self)
        ensures
            muxer@ == initial_state(),
    {
        Self::new()
    }
}

impl TsMuxer {
    pub fn new() -> (muxer: Self)
        ensures
            muxer@ == initial_state(),
    {
        Self { pat_counter: 0, pmt_counter: 0, video_counter: 0, next_psi_pts: None }
    }

    /// Appends the transport packets of one access unit (one coded frame, in Annex B form) to
    /// `out`. `pts_90khz` is its presentation time.
    pub fn push_access_unit(
        &mut self,
        au: &[u8],
        pts_90khz: u64,
        keyframe: bool,
        out: &mut Vec<u8>,
    )
        requires
            au@.len() > 0 && tables_due(old(self)@, pts_90khz, keyframe) ==> pts_90khz
                + PSI_INTERVAL_90KHZ <= u64::MAX,
        ensures
            final(out)@ == old(out)@ + unit_packets(old(self)@, au@, pts_90khz, keyframe),
            final(self)@ == unit_state(old(self)@, au@, pts_90khz, keyframe),
    {
        if au.len() == 0 {
            assert(out@ =~= old(out)@ + unit_packets(old(self)@, au@, pts_90khz, keyframe));
            return ;
        }
        let due: bool = match self.next_psi_pts {
            None => true,
            Some(next) => pts_90khz >= next,
        };
        if keyframe || due {
            self.write_pat(out);
            self.write_pmt(out);
            self.next_psi_pts = Some(pts_90khz + PSI_INTERVAL_90KHZ);
        }
        assert(out@ =~= old(out)@ + table_packets(old(self)@, pts_90khz, keyframe));

        let mut pes: Vec<u8> = Vec::with_capacity(au.len());
        write_pes_header(&mut pes, pts_90khz);
        append_bytes(&mut pes, au);
        assert(pes@ =~= packet::pes_packet(au@, pts_90khz));

        let pcr: u64 = pts_90khz.saturating_sub(PCR_LEAD_90KHZ);
        assert(pcr == pcr_for(pts_90khz));
        self.write_pes_packets(pes.as_slice(), pcr, keyframe, out);
        assert(out@ =~= old(out)@ + unit_packets(old(self)@, au@, pts_90khz, keyframe));
    }

    /// Appends the packet that starts at `offset` and returns how much of `pes` it took.
    fn write_next_packet(
        &mut self,
        pes: &[u8],
        offset: usize,
        pcr_90khz: u64,
        first: bool,
        random_access: bool,
        out: &mut Vec<u8>,
    ) -> (take: usize)
        requires
            offset < pes@.len(),
        ensures
            take == {
                let room = packet::payload_room(
                    if random_access {
                        Some(packet::key_frame_field(pcr_90khz))
                    } else {
                        None
                    },
                );
                if pes@.len() - offset < room {
                    pes@.len() - offset
                } else {
                    room
                }
            },
            final(out)@ == old(out)@ + packet::video_packet(
                first,
                old(self)@.video,
                if random_access {
                    Some(packet::key_frame_field(pcr_90khz))
                } else {
                    None
                },
                pes@.subrange(offset as int, offset + take),
            ),
            final(self)@ == (MuxState { video: (old(self)@.video + 1) % 16, ..old(self)@ }),
    {
        // The first packet of a key frame carries the clock reference and flags the random access
        // point; the last one is padded with an adaptation field when the remaining payload is
        // short.
        let adaptation: Option<Vec<u8>> = if random_access {
            let mut field: Vec<u8> = vec![0x50];  // random_access_indicator + PCR_flag
            let pcr: [u8; 6] = encode_pcr(pcr_90khz);
            append_bytes(&mut field, pcr.as_slice());
            assert(field@ =~= packet::key_frame_field(pcr_90khz));
            Some(field)
        } else {
            None
        };
        let remaining: usize = pes.len() - offset;
        let room: usize = TS_PACKET_LEN - 4 - adaptation_field_len(
            match &adaptation {
                None => None,
                Some(field) => Some(field.as_slice()),
            },
        );
        let take: usize = if remaining < room {
            remaining
        } else {
            room
        };
        let payload: &[u8] = slice_subrange(pes, offset, offset + take);
        write_video_packet(first, self.video_counter, adaptation, payload, out);
        self.video_counter = self.video_counter.wrapping_add(1);
        take
    }

    fn write_pes_packets(&mut self, pes: &[u8], pcr_90khz: u64, keyframe: bool, out: &mut Vec<u8>)
        ensures
            final(out)@ == old(out)@ + packet::video_packets(
                true,
                old(self)@.video,
                if keyframe {
                    Some(packet::key_frame_field(pcr_90khz))
                } else {
                    None
                },
                pes@,
            ),
            final(self)@ == (MuxState {
                video: (old(self)@.video + packet::video_packet_count(
                    if keyframe {
                        Some(packet::key_frame_field(pcr_90khz))
                    } else {
                        None
                    },
                    pes@.len() as int,
                )) % 16,
                ..old(self)@
            }),
    {
        let ghost lead: Option<Seq<u8>> = if keyframe {
            Some(packet::key_frame_field(pcr_90khz))
        } else {
            None
        };
        let ghost count: int = packet::video_packet_count(lead, pes@.len() as int);
        let mut offset: usize = 0;
        let mut first: bool = true;
        assert(pes@.skip(0) =~= pes@);
        while offset < pes.len()
            invariant
                offset <= pes@.len(),
                lead == (if keyframe {
                    Some(packet::key_frame_field(pcr_90khz))
                } else {
                    None
                }),
                old(out)@ + packet::video_packets(true, old(self)@.video, lead, pes@) == out@
                    + packet::video_packets(
                    first,
                    self@.video,
                    if first {
                        lead
                    } else {
                        None
                    },
                    pes@.skip(offset as int),
                ),
                (old(self)@.video + count) % 16 == (self@.video + packet::video_packet_count(
                    if first {
                        lead
                    } else {
                        None
                    },
                    pes@.len() - offset,
                )) % 16,
                self@ == (MuxState { video: self@.video, ..old(self)@ }),
            decreases pes@.len() - offset,
        {
            let ghost written: Seq<u8> = out@;
            let ghost counter: int = self@.video;
            let take: usize = self.write_next_packet(
                pes,
                offset,
                pcr_90khz,
                first,
                first && keyframe,
                out,
            );
            proof {
                let field = if first {
                    lead
                } else {
                    None
                };
                let rest = pes@.skip(offset as int);
                packet::lemma_video_packets_step(first, counter, field, rest, take as int);
                assert(rest.skip(take as int) =~= pes@.skip(offset + take));
                assert(rest.take(take as int) =~= pes@.subrange(offset as int, offset + take));
                assert(written + packet::video_packets(first, counter, field, rest) =~= out@
                    + packet::video_packets(
                    false,
                    (counter + 1) % 16,
                    None,
                    pes@.skip(offset + take),
                ));
            }
            offset = offset + take;
            first = false;
        }
        assert(out@ =~= out@ + Seq::<u8>::empty());
    }

    fn write_pat(&mut self, out: &mut Vec<u8>)
        ensures
            final(out)@ == old(out)@ + packet::psi_packet(
                PAT_PID,
                old(self)@.pat,
                crc::with_crc(packet::pat_section()),
            ),
            final(self)@ == (MuxState { pat: (old(self)@.pat + 1) % 16, ..old(self)@ }),
    {
        let mut section: Vec<u8> = vec![
            0x00,  // table_id
            0xb0,
            0x0d,  // section_syntax_indicator + section_length (13)
            (TRANSPORT_STREAM_ID >> 8u16) as u8,
            (TRANSPORT_STREAM_ID & 0xff) as u8,
            0xc1,  // version 0, current_next_indicator
            0x00,  // section_number
            0x00,  // last_section_number
            (PROGRAM_NUMBER >> 8u16) as u8,
            (PROGRAM_NUMBER & 0xff) as u8,
            0xe0 | (PMT_PID >> 8u16) as u8,
            (PMT_PID & 0xff) as u8,
        ];
        proof {
            lemma_split_16(TRANSPORT_STREAM_ID);
            lemma_split_16(PMT_PID);
            assert(0xe0u8 | 0x10u8 == 0xf0u8) by (bit_vector);
        }
        assert(section@ =~= packet::pat_section());
        append_crc32(&mut section);
        let mut counter: u8 = self.pat_counter;
        write_psi_packet(PAT_PID, &mut counter, section.as_slice(), out);
        self.pat_counter = counter;
    }

    fn write_pmt(&mut self, out: &mut Vec<u8>)
        ensures
            final(out)@ == old(out)@ + packet::psi_packet(
                PMT_PID,
                old(self)@.pmt,
                crc::with_crc(packet::pmt_section()),
            ),
            final(self)@ == (MuxState { pmt: (old(self)@.pmt + 1) % 16, ..old(self)@ }),
    {
        let mut section: Vec<u8> = vec![
            0x02,  // table_id
            0xb0,
            0x12,  // section_syntax_indicator + section_length (18)
            (PROGRAM_NUMBER >> 8u16) as u8,
            (PROGRAM_NUMBER & 0xff) as u8,
            0xc1,  // version 0, current_next_indicator
            0x00,  // section_number
            0x00,  // last_section_number
            0xe0 | (VIDEO_PID >> 8u16) as u8,
            (VIDEO_PID & 0xff) as u8,  // PCR_PID
            0xf0,
            0x00,  // program_info_length
            STREAM_TYPE_H264,
            0xe0 | (VIDEO_PID >> 8u16) as u8,
            (VIDEO_PID & 0xff) as u8,
            0xf0,
            0x00,  // ES_info_length
        ];
        proof {
            lemma_split_16(PROGRAM_NUMBER);
            lemma_split_16(VIDEO_PID);
            assert(0xe0u8 | 0x01u8 == 0xe1u8) by (bit_vector);
        }
        assert(section@ =~= packet::pmt_section());
        append_crc32(&mut section);
        let mut counter: u8 = self.pmt_counter;
        write_psi_packet(PMT_PID, &mut counter, section.as_slice(), out);
        self.pmt_counter = counter;
    }
}

proof fn lemma_split_16(value: u16)
    ensures
        value >> 8u16 == value / 0x100,
        value & 0xff == value % 0x100,
        value >> 8u16 < 0x100,
{
    assert(value >> 8u16 == value / 0x100 && value & 0xff == value % 0x100 && value >> 8u16
        < 0x100) by (bit_vector);
}

/// The continuity counter is the low half of a wrapping byte.
proof fn lemma_counter(counter: u8)
    ensures
        0x10 | (counter & 0x0f) == 0x10 + counter % 16,
        0x30 | (counter & 0x0f) == 0x30 + counter % 16,
{
    assert(0x10 | (counter & 0x0f) == 0x10 + counter % 16 && 0x30 | (counter & 0x0f) == 0x30
        + counter % 16) by (bit_vector);
}

/// Bytes a packet spends on its adaptation field, length prefix included.
fn adaptation_field_len(adaptation: Option<&[u8]>) -> (len: usize)
    requires
        adaptation is Some ==> adaptation->0@.len() < usize::MAX,
    ensures
        len == (match adaptation {
            None => 0,
            Some(field) => field@.len() + 1,
        }),
{
    match adaptation {
        None => 0,
        Some(field) => field.len() + 1,
    }
}

fn write_psi_packet(pid: u16, counter: &mut u8, section: &[u8], out: &mut Vec<u8>)
    requires
        pid < 0x2000,
        section@.len() <= 183,
    ensures
        final(out)@ == old(out)@ + packet::psi_packet(pid, *old(counter) as int % 16, section@),
        *final(counter) as int == (*old(counter) as int + 1) % 256,
{
    proof {
        lemma_split_16(pid);
        lemma_counter(*counter);
        let top: u8 = (pid >> 8u16) as u8;
        assert(0x40 | top == 0x40 + top) by (bit_vector)
            requires
                top < 0x20,
        ;
    }
    out.push(SYNC_BYTE);
    out.push(0x40 | (pid >> 8u16) as u8);
    out.push((pid & 0xff) as u8);
    out.push(0x10 | (*counter & 0x0f));
    out.push(0x00);  // pointer_field
    append_bytes(out, section);
    pad(out, 183 - section.len());
    assert(out@ =~= old(out)@ + packet::psi_packet(pid, *counter as int % 16, section@));
    *counter = counter.wrapping_add(1);
}

/// Appends one video packet. An adaptation field is added, or grown, so that the packet ends
/// exactly on the end of the payload.
fn write_video_packet(
    first: bool,
    counter: u8,
    adaptation: Option<Vec<u8>>,
    payload: &[u8],
    out: &mut Vec<u8>,
)
    requires
        adaptation is Some ==> 0 < adaptation->0@.len() < 183,
        payload@.len() <= packet::payload_room(
            match adaptation {
                None => None,
                Some(field) => Some(field@),
            },
        ),
    ensures
        final(out)@ == old(out)@ + packet::video_packet(
            first,
            counter as int % 16,
            match adaptation {
                None => None,
                Some(field) => Some(field@),
            },
            payload@,
        ),
{
    proof {
        reveal(packet::video_packet);
        lemma_counter(counter);
        lemma_split_16(VIDEO_PID);
        assert((1u8 << 6u8) | 1u8 == 0x41u8 && (0u8 << 6u8) | 1u8 == 1u8) by (bit_vector);
    }
    let unit_start: u8 = if first {
        1
    } else {
        0
    };
    out.push(SYNC_BYTE);
    out.push((unit_start << 6u8) | (VIDEO_PID >> 8u16) as u8);
    out.push((VIDEO_PID & 0xff) as u8);
    if adaptation.is_none() && payload.len() == TS_PACKET_LEN - 4 {
        out.push(0x10 | (counter & 0x0f));
    } else {
        let wanted: usize = TS_PACKET_LEN - 4 - 1 - payload.len();
        out.push(0x30 | (counter & 0x0f));
        out.push(wanted as u8);
        match adaptation {
            None => {
                if wanted > 0 {
                    out.push(0x00);  // no flags
                    pad(out, wanted - 1);
                }
            },
            Some(field) => {
                append_bytes(out, field.as_slice());
                pad(out, wanted - field.len());
            },
        }
    }
    append_bytes(out, payload);
    assert(out@ =~= old(out)@ + packet::video_packet(
        first,
        counter as int % 16,
        match adaptation {
            None => None,
            Some(field) => Some(field@),
        },
        payload@,
    ));
}

/// Appends `n` stuffing bytes.
fn pad(out: &mut Vec<u8>, n: usize)
    ensures
        final(out)@ == old(out)@ + packet::stuffing(n as int),
{
    let mut i: usize = 0;
    assert(out@ =~= old(out)@ + packet::stuffing(0));
    while i < n
        invariant
            i <= n,
            out@ == old(out)@ + packet::stuffing(i as int),
        decreases n - i,
    {
        out.push(0xff);
        i = i + 1;
        assert(out@ =~= old(out)@ + packet::stuffing(i as int));
    }
}

fn write_pes_header(out: &mut Vec<u8>, pts_90khz: u64)
    ensures
        final(out)@ == old(out)@ + packet::pes_header(pts_90khz),
{
    out.push(0x00);
    out.push(0x00);
    out.push(0x01);
    out.push(PES_STREAM_ID_VIDEO);
    // Unbounded length: allowed, and required, for video PES packets that do not fit in 65535
    // bytes.
    out.push(0x00);
    out.push(0x00);
    out.push(0x84);  // '10' marker + data_alignment_indicator
    out.push(0x80);  // PTS only
    out.push(0x05);  // PES_header_data_length
    let timestamp: [u8; 5] = encode_timestamp(0b0010, pts_90khz);
    append_bytes(out, timestamp.as_slice());
    assert(out@ =~= old(out)@ + packet::pes_header(pts_90khz));
}

/// The continuity counters of a muxer are always four bits wide.
pub proof fn law_counters_fit(muxer: TsMuxer)
    ensures
        demux::valid(muxer@),
{
}

} // verus!
