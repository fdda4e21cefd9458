//! One run of the program: what a turn of the render loop does, and how the coded frames get into
//! the stream.

use crate::encoder::{on_90khz_clock, EncodedFrame};
use crate::mpegts::demux::{
    follows, law_receiver_gets_unit, receive_all, valid, AccessUnit, Receiver,
};
use crate::mpegts::player::{law_pes_is_read, pts_read, unit_read};
use crate::mpegts::{unit_packets, unit_state, MuxState};
use crate::stream::UdpStream;
use crate::window::WindowState;
use vstd::prelude::*;

verus! {

/// What one turn of the render loop does.
#[derive(Debug, Clone, Copy, PartialEq, Eq)]
pub enum Turn {
    /// Leave the loop.
    Stop,
    /// Draw, after what comes before it.
    Draw {
        /// Resize the output first, and clear the resize.
        resize: Option<(u32, u32)>,
        /// Take the newest captured frame, if there is one, and upload it.
        take_frame: bool,
        /// Draw, encode and send a frame for the stream.
        stream_frame: bool,
    },
}

/// Plans one turn of the render loop. A paused window keeps the last frame, and a stream goes on
/// with it.
pub fn plan_turn(state: &WindowState, streaming: bool) -> (turn: Turn)
    ensures
        turn == (if state.quit {
            Turn::Stop
        } else {
            Turn::Draw {
                resize: state.resized_to,
                take_frame: !state.paused,
                stream_frame: streaming,
            }
        }),
        turn == turn_of(*state, streaming),
{
    if state.quit {
        Turn::Stop
    } else {
        Turn::Draw {
            resize: state.resized_to,
            take_frame: !state.paused,
            stream_frame: streaming,
        }
    }
}

/// What a turn does in a state.
pub open spec fn turn_of(state: WindowState, streaming: bool) -> Turn {
    if state.quit {
        Turn::Stop
    } else {
        Turn::Draw {
            resize: state.resized_to,
            take_frame: !state.paused,
            stream_frame: streaming,
        }
    }
}

/// A turn stops the loop exactly where the window is to close. Otherwise it draws: it resizes to
/// the size that waits, takes a new frame unless the window is paused, and streams one, paused or
/// not, wherever there is a stream.
pub proof fn law_turns(state: WindowState, streaming: bool)
    ensures
        turn_of(state, streaming) is Stop <==> state.quit,
        turn_of(state, streaming) matches Turn::Draw { resize, take_frame, stream_frame } ==> {
            &&& resize == state.resized_to
            &&& take_frame != state.paused
            &&& stream_frame == streaming
        },
        turn_of(WindowState { paused: true, ..state }, streaming) matches Turn::Draw {
            stream_frame,
            ..
        } ==> stream_frame == streaming,
{
}

/// A pending frame reaches the player: one that has missed nothing so far has, after the packets of
/// this frame, one more access unit, with all the data of the frame and, modulo 2^33, with the
/// whole 90 kHz ticks in its time. A frame without data adds none.
pub proof fn law_frame_reaches_player(receiver: Receiver, mux: MuxState, frame: EncodedFrame)
    requires
        valid(mux),
        follows(receiver, mux),
        0 <= frame.time_100ns,
        frame.time_100ns * 9 <= u64::MAX,
    ensures
        ({
            let unit = unit_of(frame);
            let after = receive_all(
                receiver,
                unit_packets(mux, unit.data, unit.pts, unit.keyframe),
            );
            &&& follows(after, unit_state(mux, unit.data, unit.pts, unit.keyframe))
            &&& frame.data@.len() == 0 ==> after.units == receiver.units
            &&& frame.data@.len() > 0 ==> {
                &&& after.units.len() == receiver.units.len() + 1
                &&& after.units.drop_last() == receiver.units
                &&& unit_read(after.units.last()) == Some(frame.data@)
                &&& pts_read(after.units.last()) == Some(
                    (frame.time_100ns as int * 9 / 1000) % 0x2_0000_0000,
                )
            }
        }),
        unit_of(frame).keyframe == frame.keyframe,
        unit_of(frame).data == frame.data@,
{
    let unit = unit_of(frame);
    law_receiver_gets_unit(receiver, mux, unit.data, unit.pts, unit.keyframe);
    law_pes_is_read(unit.data, unit.pts);
    let after = receive_all(receiver, unit_packets(mux, unit.data, unit.pts, unit.keyframe));
    if frame.data@.len() > 0 {
        assert(after.units.drop_last() =~= receiver.units);
    }
}

/// A frame with a time before zero is sent with all its data, and presented at zero.
pub proof fn law_early_frames(frame: EncodedFrame)
    requires
        frame.time_100ns < 0,
    ensures
        unit_of(frame).pts == 0,
        unit_of(frame).data == frame.data@,
        unit_of(frame).keyframe == frame.keyframe,
{
}

/// A coded frame, as the muxer takes it.
pub open spec fn unit_of(frame: EncodedFrame) -> AccessUnit {
    AccessUnit {
        data: frame.data@,
        pts: on_90khz_clock(frame.time_100ns) as u64,
        keyframe: frame.keyframe,
    }
}

/// Muxes one pending frame into the stream. The datagrams it completes are then to be sent.
pub fn send_pending(sink: &mut UdpStream, frame: &EncodedFrame)
    requires
        frame.time_100ns * 9 <= u64::MAX,
    ensures
        final(sink)@.pending == old(sink)@.pending + unit_packets(
            old(sink)@.mux,
            unit_of(*frame).data,
            unit_of(*frame).pts,
            unit_of(*frame).keyframe,
        ),
        final(sink)@.mux == unit_state(
            old(sink)@.mux,
            unit_of(*frame).data,
            unit_of(*frame).pts,
            unit_of(*frame).keyframe,
        ),
        final(sink)@.destination == old(sink)@.destination,
{
    let pts: u64 = frame.pts_90khz();
    sink.send_access_unit(frame.data.as_slice(), pts, frame.keyframe);
}

} // verus!
