//! What the command line asks for, and what follows from it.

use crate::encoder::EncoderConfig;
use vstd::prelude::*;

verus! {

/// The fewest samples per output pixel, along one side.
pub const MIN_SUPERSAMPLE: u32 = 1;

/// The most samples per output pixel, along one side.
pub const MAX_SUPERSAMPLE: u32 = 8;

/// The options that are not measures of the disk.
pub struct Cli {
    /// List the capturable windows and exit.
    pub list: bool,
    /// Title (or part of a title, case insensitive) of the window to capture.
    pub window: Option<String>,
    /// Capture the whole main display instead of a window.
    pub display: bool,
    /// Capture frame rate.
    pub fps: u32,
    /// Side length of the output window, in pixels.
    pub size: u32,
    /// Wrap counter-clockwise instead of clockwise.
    pub counter_clockwise: bool,
    /// Square root of the number of samples per output pixel (1 disables supersampling).
    pub supersample: u32,
    /// Where to stream the warped frames to.
    pub stream: Option<String>,
    /// Side length of the streamed frames, in pixels.
    pub stream_size: Option<u32>,
    /// Bitrate of the stream, in bits per second.
    pub bitrate: u32,
    /// Frames between key frames of the stream.
    pub gop: Option<u32>,
}

/// Runtime-tweakable parameters of the warp that are not measures of the disk.
#[derive(Debug, Clone, Copy, PartialEq, Eq)]
pub struct WarpParams {
    pub clockwise: bool,
    pub supersample: u32,
}

/// What a run is for.
#[derive(Debug, Clone, Copy, PartialEq, Eq)]
pub enum RunMode {
    /// Show what can be captured.
    List,
    /// Capture a window, by its title.
    Window,
    /// Capture the main display.
    Display,
    /// Nothing was asked for.
    Missing,
}

/// The key frame distance is two seconds' worth of frames: twice the rate where that can be
/// counted, and as many as can be counted otherwise. A rate of zero counts as one.
pub proof fn law_two_seconds(fps: u32)
    ensures
        0 < fps <= 0x7fff_ffff ==> two_seconds(fps) == fps + fps,
        fps > 0x7fff_ffff ==> two_seconds(fps) == 0xffff_ffff,
        fps == 0 ==> two_seconds(fps) == two_seconds(1),
        fps <= two_seconds(fps) <= 0xffff_ffff,
{
}

/// Two seconds' worth of frames, as far as that can be counted. A rate of zero counts as one
/// frame per second.
pub open spec fn two_seconds(fps: u32) -> int {
    if fps == 0 {
        2
    } else if fps as int * 2 <= u32::MAX {
        fps as int * 2
    } else {
        u32::MAX as int
    }
}

/// What a run is for.
pub open spec fn mode_of(list: bool, window: bool, display: bool) -> RunMode {
    if list {
        RunMode::List
    } else if window {
        RunMode::Window
    } else if display {
        RunMode::Display
    } else {
        RunMode::Missing
    }
}

/// The number of samples that is used for one that was asked for.
pub open spec fn samples_for(asked: u32) -> u32 {
    if asked < MIN_SUPERSAMPLE {
        MIN_SUPERSAMPLE
    } else if asked > MAX_SUPERSAMPLE {
        MAX_SUPERSAMPLE
    } else {
        asked
    }
}

/// A value that was given, or another.
pub open spec fn given_or(given: Option<u32>, other: int) -> int {
    match given {
        Some(value) => value as int,
        None => other,
    }
}

/// The rate that frames are encoded at.
pub open spec fn rate_for(fps: u32) -> u32 {
    if fps == 0 {
        1
    } else {
        fps
    }
}

/// Frames are encoded at the rate asked for, and at one per second where none was.
pub proof fn law_rates(fps: u32)
    ensures
        fps > 0 ==> rate_for(fps) == fps,
        rate_for(0) == 1,
{
}

/// Every option counts where nothing before it does: listing, a window, the display. With none of
/// them there is nothing to do.
pub proof fn law_modes(list: bool, window: bool, display: bool)
    ensures
        mode_of(list, window, display) is List <==> list,
        mode_of(list, window, display) is Window <==> !list && window,
        mode_of(list, window, display) is Display <==> !list && !window && display,
        mode_of(list, window, display) is Missing <==> !list && !window && !display,
{
}

/// The number of samples is the one asked for, where that is from one to eight, and else the
/// nearest that is. What is given is used as it is, and the other value only where nothing is.
pub proof fn law_options(asked: u32, given: u32, other: int)
    ensures
        1 <= samples_for(asked) <= 8,
        1 <= asked <= 8 ==> samples_for(asked) == asked,
        asked < 1 ==> samples_for(asked) == 1,
        asked > 8 ==> samples_for(asked) == 8,
        given_or(Some(given), other) == given,
        given_or(None, other) == other,
{
}

impl Cli {
    /// What to do, given the options: listing comes first, and a window before the display.
    pub fn mode(&self) -> (mode: RunMode)
        ensures
            mode == (if self.list {
                RunMode::List
            } else if self.window is Some {
                RunMode::Window
            } else if self.display {
                RunMode::Display
            } else {
                RunMode::Missing
            }),
            mode == mode_of(self.list, self.window is Some, self.display),
    {
        if self.list {
            RunMode::List
        } else if self.window.is_some() {
            RunMode::Window
        } else if self.display {
            RunMode::Display
        } else {
            RunMode::Missing
        }
    }

    pub fn warp_params(&self) -> (params: WarpParams)
        ensures
            params.clockwise == !self.counter_clockwise,
            params.supersample == (if self.supersample < MIN_SUPERSAMPLE {
                MIN_SUPERSAMPLE
            } else if self.supersample > MAX_SUPERSAMPLE {
                MAX_SUPERSAMPLE
            } else {
                self.supersample
            }),
            MIN_SUPERSAMPLE <= params.supersample <= MAX_SUPERSAMPLE,
            params.supersample == samples_for(self.supersample),
    {
        WarpParams {
            clockwise: !self.counter_clockwise,
            supersample: if self.supersample < MIN_SUPERSAMPLE {
                MIN_SUPERSAMPLE
            } else if self.supersample > MAX_SUPERSAMPLE {
                MAX_SUPERSAMPLE
            } else {
                self.supersample
            },
        }
    }

    /// Side length of the streamed frames: that of the output window, unless it was given.
    pub fn stream_size(&self) -> (size: u32)
        ensures
            size == (match self.stream_size {
                Some(size) => size,
                None => self.size,
            }),
            size == given_or(self.stream_size, self.size as int),
    {
        match self.stream_size {
            Some(size) => size,
            None => self.size,
        }
    }

    /// Frames between key frames: two seconds' worth, unless it was given.
    pub fn gop(&self) -> (frames: u32)
        ensures
            frames == (match self.gop {
                Some(frames) => frames as int,
                None => two_seconds(self.fps),
            }),
            frames == given_or(self.gop, two_seconds(self.fps)),
    {
        match self.gop {
            Some(frames) => frames,
            None => if self.fps == 0 {
                2
            } else if self.fps <= u32::MAX / 2 {
                self.fps * 2
            } else {
                u32::MAX
            },
        }
    }

    /// What the encoder of the stream is set up for.
    pub fn encoder_config(&self) -> (config: EncoderConfig)
        ensures
            config.width == (match self.stream_size {
                Some(size) => size,
                None => self.size,
            }),
            config.height == config.width,
            config.fps == (if self.fps == 0 {
                1
            } else {
                self.fps
            }),
            config.bitrate == self.bitrate,
            config.gop == (match self.gop {
                Some(frames) => frames as int,
                None => two_seconds(self.fps),
            }),
            config.width == given_or(self.stream_size, self.size as int),
            config.gop == given_or(self.gop, two_seconds(self.fps)),
            config.fps == rate_for(self.fps),
    {
        let size: u32 = self.stream_size();
        EncoderConfig {
            width: size,
            height: size,
            fps: if self.fps == 0 {
                1
            } else {
                self.fps
            },
            bitrate: self.bitrate,
            gop: self.gop(),
        }
    }
}

} // verus!
