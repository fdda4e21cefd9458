//! The BGRA to NV12 colour conversion that feeds the encoder: what it is asked for, and which
//! surface each frame is converted into.

use vstd::prelude::*;

verus! {

/// Fields of a video processor colour space: bit 0 usage, bit 1 RGB range, bit 2 YCbCr matrix,
/// bit 3 xvYCC, bits 4-5 nominal range. This one is RGB over the full range.
pub const COLOR_SPACE_RGB_FULL: u32 = 0x20;

/// YCbCr with the BT.709 matrix over the studio range.
pub const COLOR_SPACE_YUV_BT709_STUDIO: u32 = 0x14;

/// Surfaces the conversion cycles through, so that the encoder can still be reading a frame while
/// the next one is converted.
pub const POOL_SIZE: usize = 4;

/// What goes through the conversion; it changes neither the size nor the rate.
#[derive(Debug, Clone, Copy, PartialEq, Eq)]
pub struct VideoContent {
    pub width: u32,
    pub height: u32,
    /// Frames per second, as a fraction.
    pub rate_numerator: u32,
    pub rate_denominator: u32,
}

/// Describes progressive frames of one size at `fps` frames per second, at least one.
pub fn video_content(width: u32, height: u32, fps: u32) -> (content: VideoContent)
    ensures
        content == (VideoContent {
            width,
            height,
            rate_numerator: if fps == 0 {
                1
            } else {
                fps
            },
            rate_denominator: 1,
        }),
        content == described(width, height, fps),
{
    VideoContent {
        width,
        height,
        rate_numerator: if fps == 0 {
            1
        } else {
            fps
        },
        rate_denominator: 1,
    }
}

/// The description of frames of one size at a rate.
pub open spec fn described(width: u32, height: u32, fps: u32) -> VideoContent {
    VideoContent {
        width,
        height,
        rate_numerator: if fps == 0 {
            1
        } else {
            fps
        },
        rate_denominator: 1,
    }
}

/// The conversion keeps the size, and the rate in whole frames per second; a rate of zero counts
/// as one.
pub proof fn law_description(width: u32, height: u32, fps: u32)
    ensures
        described(width, height, fps).width == width,
        described(width, height, fps).height == height,
        fps > 0 ==> described(width, height, fps).rate_numerator == fps * described(
            width,
            height,
            fps,
        ).rate_denominator,
        described(width, height, fps).rate_denominator == 1,
        described(width, height, 0) == described(width, height, 1),
{
}

/// The conversion after one more frame, which goes into the surface before.
pub open spec fn converted(state: ConverterState) -> ConverterState {
    ConverterState { next: (state.next + 1) % POOL_SIZE as int, ..state }
}

/// Whether a texture needs a new input view.
pub open spec fn needs_view(state: ConverterState, source: usize) -> bool {
    state.input != Some(source)
}

/// A frame goes into another surface than the three before it and the three after it, the one after
/// four frames is the same again, all four are used, and the input view stays.
pub proof fn law_conversions(state: ConverterState)
    requires
        0 <= state.next < 4,
    ensures
        ({
            let one = converted(state);
            let two = converted(one);
            let three = converted(two);
            &&& 0 <= one.next < 4
            &&& state.next != one.next && state.next != two.next && state.next != three.next
            &&& one.next != two.next && one.next != three.next && two.next != three.next
            &&& converted(three) == state
            &&& one.input == state.input
        }),
{
}

/// An input view serves for the texture that it was made for, and for no other.
pub proof fn law_input_views(state: ConverterState, made_for: usize, source: usize)
    ensures
        needs_view(ConverterState { input: Some(made_for), ..state }, source) <==> made_for
            != source,
        needs_view(ConverterState { input: None, ..state }, source),
{
}

/// What is known of a running conversion.
pub struct ConverterState {
    /// How far the cycle through the pool has come.
    pub next: int,
    /// The texture that the input view was made for.
    pub input: Option<usize>,
}

pub struct Nv12Converter {
    next: usize,
    input: Option<usize>,
}

impl View for Nv12Converter {
    type V = ConverterState;

    closed spec fn view(&self) -> ConverterState {
        ConverterState { next: self.next as int, input: self.input }
    }
}

impl Nv12Converter {
    #[verifier::type_invariant]
    closed spec fn next_is_in_pool(self) -> bool {
        self.next < POOL_SIZE
    }

    pub fn new() -> (converter: Self)
        ensures
            converter@ == (ConverterState { next: 0, input: None }),
    {
        Nv12Converter { next: 0, input: None }
    }

    /// Whether a new input view has to be made for a texture. Textures are told apart by their
    /// addresses.
    pub fn needs_input_view(&self, source: usize) -> (needed: bool)
        ensures
            needed == (self@.input != Some(source)),
            needed == needs_view(self@, source),
    {
        match self.input {
            Some(texture) => texture != source,
            None => true,
        }
    }

    /// An input view was made for a texture.
    pub fn input_view_made(&mut self, source: usize)
        ensures
            final(self)@ == (ConverterState { input: Some(source), ..old(self)@ }),
    {
        proof {
            use_type_invariant(&*self);
        }
        self.input = Some(source);
    }

    /// The surface of the pool that the next frame is converted into.
    pub fn convert(&mut self) -> (surface: usize)
        ensures
            surface < POOL_SIZE,
            surface == old(self)@.next,
            final(self)@ == (ConverterState {
                next: (old(self)@.next + 1) % POOL_SIZE as int,
                ..old(self)@
            }),
            final(self)@ == converted(old(self)@),
    {
        proof {
            use_type_invariant(&*self);
        }
        let surface: usize = self.next;
        self.next = (self.next + 1) % POOL_SIZE;
        surface
    }
}

/// How far the cycle has come after `n` more frames.
pub open spec fn surface_after(next: int, n: nat) -> int
    decreases n,
{
    if n == 0 {
        next
    } else {
        (surface_after(next, (n - 1) as nat) + 1) % POOL_SIZE as int
    }
}

/// A surface is only used again once all the others were: any four frames in a row are converted
/// into four different surfaces.
pub proof fn law_surfaces_cycle(next: int, n: nat, ahead: nat)
    requires
        0 <= next < POOL_SIZE,
        0 < ahead < POOL_SIZE,
    ensures
        0 <= surface_after(next, n) < POOL_SIZE,
        surface_after(next, n) != surface_after(next, n + ahead),
        surface_after(next, n) == surface_after(next, n + POOL_SIZE as nat),
{
    lemma_surface_after(next, n);
    lemma_surface_after(next, n + ahead);
    lemma_surface_after(next, n + POOL_SIZE as nat);
}

proof fn lemma_surface_after(next: int, n: nat)
    requires
        0 <= next < POOL_SIZE,
    ensures
        surface_after(next, n) == (next + n) % POOL_SIZE as int,
    decreases n,
{
    if n > 0 {
        lemma_surface_after(next, (n - 1) as nat);
    }
}

} // verus!
