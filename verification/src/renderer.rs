//! What the renderer holds on the GPU, and when it has to be made anew.

use crate::capture::CapturedFrame;
use vstd::arithmetic::mul::lemma_mul_inequality;
use vstd::prelude::*;

verus! {

/// The sizes of what the renderer holds.
#[derive(Debug, Clone, Copy, PartialEq, Eq)]
pub struct RendererState {
    /// The size of the output.
    pub width: u32,
    pub height: u32,
    /// There is a view of the output to draw into.
    pub has_target: bool,
    /// The size of the texture that holds the captured frame.
    pub source: Option<(u32, u32)>,
}

/// A frame's buffer holds fewer bytes than its size asks for.
#[derive(Debug, Clone, Copy, PartialEq, Eq)]
pub struct ShortFrame {
    pub len: usize,
    pub expected: usize,
}

/// How to draw a frame.
#[derive(Debug, Clone, Copy, PartialEq, Eq)]
pub enum RenderPlan {
    /// There is nothing to draw into.
    Nothing,
    /// Clear the output and present it.
    Clear,
    /// Clear the output, draw the warped frame and present it.
    Warp,
}

/// The bytes of a tightly packed BGRA frame.
pub open spec fn frame_len(width: u32, height: u32) -> int {
    width * height * 4
}

/// `dst` after the first `rows` rows of `src` were written into it, each of them at the start of
/// its own `pitch` bytes.
pub open spec fn with_rows(
    dst: Seq<u8>,
    src: Seq<u8>,
    row_len: int,
    pitch: int,
    rows: int,
) -> Seq<u8>
    decreases rows,
{
    if rows <= 0 {
        dst
    } else {
        let before = with_rows(dst, src, row_len, pitch, rows - 1);
        let row = src.subrange((rows - 1) * row_len, rows * row_len);
        before.take((rows - 1) * pitch) + row + before.skip((rows - 1) * pitch + row_len)
    }
}

/// How far into the texture the last of `rows` rows reaches.
pub open spec fn rows_len(row_len: int, pitch: int, rows: int) -> int {
    if rows <= 0 {
        0
    } else {
        (rows - 1) * pitch + row_len
    }
}

/// A renderer that was asked to take on a size.
pub open spec fn resized(state: RendererState, width: u32, height: u32) -> RendererState {
    if width != 0 && height != 0 && (width != state.width || height != state.height) {
        RendererState { width, height, has_target: false, ..state }
    } else {
        state
    }
}

/// Whether an upload of a frame of the given size needs a new texture.
pub open spec fn needs_texture(state: RendererState, width: u32, height: u32) -> bool {
    state.source != Some((width, height))
}

/// How a renderer draws.
pub open spec fn plan_of(state: RendererState) -> RenderPlan {
    if !state.has_target {
        RenderPlan::Nothing
    } else if state.source is None {
        RenderPlan::Clear
    } else {
        RenderPlan::Warp
    }
}

/// Whether a buffer of some bytes holds a frame of the given size.
pub open spec fn holds_frame(len: int, width: u32, height: u32) -> bool {
    len >= frame_len(width, height)
}

/// A buffer holds a frame from four bytes per pixel on, and more do no harm.
pub proof fn law_holds_frame(len: int, width: u32, height: u32)
    ensures
        holds_frame(len, width, height) <==> len - 4 * (width * height) >= 0,
        holds_frame(len, width, height) ==> holds_frame(len + 1, width, height),
        !holds_frame(4 * (width * height) - 1, width, height),
{
}

/// A size with an area is taken on, whatever it is, and is then the size; one without is not. The
/// view of the output is given up exactly where the size changes, so asking for the same size twice
/// is asking once, and the texture of the captured frames stays.
pub proof fn law_resizes(state: RendererState, width: u32, height: u32)
    ensures
        ({
            let after = resized(state, width, height);
            &&& width > 0 && height > 0 ==> after.width == width && after.height == height
            &&& width == 0 || height == 0 ==> after == state
            &&& after.has_target <==> state.has_target && after.width == state.width && after.height
                == state.height
            &&& after.source == state.source
            &&& resized(after, width, height) == after
        }),
{
}

/// A texture serves for frames of its own size, and for no others; without one, a new one is made.
pub proof fn law_textures(state: RendererState, width: u32, height: u32, w: u32, h: u32)
    ensures
        needs_texture(RendererState { source: Some((w, h)), ..state }, width, height) <==> !(w
            == width && h == height),
        needs_texture(RendererState { source: None, ..state }, width, height),
{
}

/// The warp is drawn exactly where there is both an output and a frame, and nothing at all exactly
/// where there is no output.
pub proof fn law_plans(state: RendererState)
    ensures
        plan_of(state) is Warp <==> state.has_target && state.source is Some,
        plan_of(state) is Clear <==> state.has_target && state.source is None,
        plan_of(state) is Nothing <==> !state.has_target,
{
}

/// The renderer, as far as it is not the graphics device's.
pub struct Renderer {
    state: RendererState,
}

impl View for Renderer {
    type V = RendererState;

    closed spec fn view(&self) -> RendererState {
        self.state
    }
}

impl Renderer {
    /// A renderer whose swap chain has the given size. It has no view of the output yet.
    pub fn new(width: u32, height: u32) -> (renderer: Self)
        ensures
            renderer@ == (RendererState { width, height, has_target: false, source: None }),
    {
        Renderer { state: RendererState { width, height, has_target: false, source: None } }
    }

    /// The size of the output.
    pub fn size(&self) -> (size: (u32, u32))
        ensures
            size == (self@.width, self@.height),
    {
        (self.state.width, self.state.height)
    }

    /// A view of the output was created.
    pub fn create_target_view(&mut self)
        ensures
            final(self)@ == (RendererState { has_target: true, ..old(self)@ }),
    {
        self.state.has_target = true;
    }

    /// Takes on a new size. Where it changes, the view of the output is given up, and the swap
    /// chain is to be resized. A window without an area keeps the old size.
    pub fn resize(&mut self, width: u32, height: u32) -> (changed: bool)
        ensures
            changed == (width != 0 && height != 0 && (width != old(self)@.width || height != old(
                self,
            )@.height)),
            final(self)@ == (if changed {
                RendererState { width, height, has_target: false, ..old(self)@ }
            } else {
                old(self)@
            }),
            final(self)@ == resized(old(self)@, width, height),
    {
        if width == 0 || height == 0 || (width == self.state.width && height
            == self.state.height) {
            return false;
        }
        self.state = RendererState { width, height, has_target: false, source: self.state.source };
        true
    }

    /// Whether a captured frame needs a new texture before it is uploaded. A frame whose buffer
    /// is too short is turned down.
    pub fn upload(&self, frame: &CapturedFrame) -> (new_texture: Result<bool, ShortFrame>)
        requires
            frame_len(frame.width, frame.height) <= usize::MAX,
        ensures
            new_texture is Ok <==> holds_frame(frame.bgra@.len() as int, frame.width, frame.height),
            match new_texture {
                Ok(needed) => frame.bgra@.len() >= frame_len(frame.width, frame.height) && needed
                    == (self@.source != Some((frame.width, frame.height))) && needed
                    == needs_texture(self@, frame.width, frame.height),
                Err(short) => frame.bgra@.len() < frame_len(frame.width, frame.height)
                    && short.len == frame.bgra@.len() && short.expected == frame_len(
                    frame.width,
                    frame.height,
                ),
            },
    {
        assert(frame.width * frame.height >= 0) by (nonlinear_arith)
            requires
                frame.width >= 0,
                frame.height >= 0,
        ;
        let expected: usize = frame.width as usize * frame.height as usize * 4;
        if frame.bgra.len() < expected {
            return Err(ShortFrame { len: frame.bgra.len(), expected });
        }
        match self.state.source {
            Some((width, height)) => Ok(width != frame.width || height != frame.height),
            None => Ok(true),
        }
    }

    /// A texture of the given size was created for the captured frames.
    pub fn create_source_texture(&mut self, width: u32, height: u32)
        ensures
            final(self)@ == (RendererState { source: Some((width, height)), ..old(self)@ }),
    {
        self.state.source = Some((width, height));
    }

    /// How to draw: into the output, if there is a view of it, and with the warped frame, if one
    /// was uploaded.
    pub fn render(&self) -> (plan: RenderPlan)
        ensures
            plan == (if !self@.has_target {
                RenderPlan::Nothing
            } else if self@.source is None {
                RenderPlan::Clear
            } else {
                RenderPlan::Warp
            }),
            plan == plan_of(self@),
    {
        if !self.state.has_target {
            RenderPlan::Nothing
        } else {
            match self.state.source {
                None => RenderPlan::Clear,
                Some(_) => RenderPlan::Warp,
            }
        }
    }
}

/// Writes `len` bytes of `src`, from `from` on, over those of `dst` at `at`.
fn write_row(dst: &mut [u8], at: usize, src: &Vec<u8>, from: usize, len: usize)
    requires
        at + len <= old(dst)@.len(),
        from + len <= src@.len(),
    ensures
        final(dst)@ == old(dst)@.take(at as int) + src@.subrange(from as int, from + len) + old(
            dst,
        )@.skip(at + len),
{
    let dst_len: usize = dst.len();
    let src_len: usize = src.len();
    let mut i: usize = 0;
    while i < len
        invariant
            i <= len,
            at + len <= old(dst)@.len() == dst_len,
            from + len <= src@.len() == src_len,
            dst@ =~= old(dst)@.take(at as int) + src@.subrange(from as int, from + i) + old(
                dst,
            )@.skip(at + i),
        decreases len - i,
    {
        dst[at + i] = src[from + i];
        i = i + 1;
    }
}

/// Copies a frame into a mapped texture, whose rows are `pitch` bytes apart.
pub fn copy_rows(frame: &CapturedFrame, dst: &mut [u8], pitch: usize)
    requires
        frame.width * 4 <= usize::MAX,
        frame_len(frame.width, frame.height) <= frame.bgra@.len(),
        rows_len(frame.width * 4, pitch as int, frame.height as int) <= old(dst)@.len(),
    ensures
        final(dst)@ == with_rows(
            old(dst)@,
            frame.bgra@,
            frame.width * 4,
            pitch as int,
            frame.height as int,
        ),
{
    let row_len: usize = frame.width as usize * 4;
    let rows: usize = frame.height as usize;
    let src_len: usize = frame.bgra.len();
    let dst_len: usize = dst.len();
    let mut row: usize = 0;
    while row < rows
        invariant
            row <= rows,
            rows == frame.height,
            row_len == frame.width * 4,
            frame_len(frame.width, frame.height) <= frame.bgra@.len() == src_len,
            rows_len(row_len as int, pitch as int, rows as int) <= dst_len,
            dst@.len() == dst_len,
            dst@ == with_rows(old(dst)@, frame.bgra@, row_len as int, pitch as int, row as int),
        decreases rows - row,
    {
        proof {
            lemma_rows_fit(row as int, rows as int, row_len as int, pitch as int);
            assert(frame_len(frame.width, frame.height) == rows * row_len) by (nonlinear_arith)
                requires
                    frame_len(frame.width, frame.height) == frame.width * frame.height * 4,
                    rows == frame.height,
                    row_len == frame.width * 4,
            ;
        }
        write_row(dst, row * pitch, &frame.bgra, row * row_len, row_len);
        row = row + 1;
    }
}

/// A frame takes four bytes per pixel: one more row takes four bytes more per pixel of its width,
/// and no row takes none.
pub proof fn law_frame_len(width: u32, height: u32)
    ensures
        frame_len(width, 0) == 0,
        height > 0 ==> frame_len(width, height) == frame_len(width, (height - 1) as u32) + 4 * width,
        frame_len(width, height) == frame_len(height, width),
{
    assert(width * height == height * width) by (nonlinear_arith);
    if height > 0 {
        assert(width * height == width * (height - 1) + width) by (nonlinear_arith);
    }
}

/// How far the rows of a texture reach: all of them but the last one take a pitch each, and that
/// one takes its own length.
pub proof fn law_rows_len(row_len: int, pitch: int, rows: int)
    requires
        rows >= 1,
    ensures
        rows_len(row_len, pitch, 0) == 0,
        rows_len(row_len, pitch, 1) == row_len,
        rows_len(row_len, pitch, rows + 1) == rows_len(row_len, pitch, rows) + pitch,
{
    assert(rows * pitch == (rows - 1) * pitch + pitch) by (nonlinear_arith);
}

/// Every byte of the texture that some row covers is that of the last row that does, at the same
/// place in the row, and every other byte stays as it was, however far apart the rows are.
pub proof fn law_last_row_stays(
    dst: Seq<u8>,
    src: Seq<u8>,
    row_len: int,
    pitch: int,
    rows: int,
    at: int,
    row: int,
)
    requires
        0 <= row_len,
        0 <= pitch,
        0 <= rows,
        rows * row_len <= src.len(),
        rows_len(row_len, pitch, rows) <= dst.len(),
        0 <= at < dst.len(),
    ensures
        with_rows(dst, src, row_len, pitch, rows).len() == dst.len(),
        0 <= row < rows && row * pitch <= at < row * pitch + row_len && (forall|later: int|
            row < later < rows ==> !(#[trigger] (later * pitch) <= at < later * pitch + row_len))
            ==> with_rows(dst, src, row_len, pitch, rows)[at] == src[row * row_len + (at - row
            * pitch)],
        (forall|other: int|
            0 <= other < rows ==> !(#[trigger] (other * pitch) <= at < other * pitch + row_len))
            ==> with_rows(dst, src, row_len, pitch, rows)[at] == dst[at],
    decreases rows,
{
    if rows > 0 {
        let last = rows - 1;
        lemma_rows_fit(last, rows, row_len, pitch);
        if last > 0 {
            lemma_rows_fit(last - 1, rows, row_len, pitch);
            assert((last - 1) * pitch + pitch == last * pitch) by (nonlinear_arith);
        }
        law_last_row_stays(dst, src, row_len, pitch, last, at, row);
        let before = with_rows(dst, src, row_len, pitch, last);
        let after = with_rows(dst, src, row_len, pitch, rows);
        if last * pitch <= at < last * pitch + row_len {
            assert(after[at] == src[last * row_len + (at - last * pitch)]);
        } else {
            assert(after[at] == before[at]);
        }
    }
}

/// A row ends within the frame and within the texture.
proof fn lemma_rows_fit(row: int, rows: int, row_len: int, pitch: int)
    requires
        0 <= row < rows,
        row_len >= 0,
        pitch >= 0,
    ensures
        row * row_len + row_len == (row + 1) * row_len,
        0 <= row * row_len,
        (row + 1) * row_len <= rows * row_len,
        0 <= row * pitch <= (rows - 1) * pitch,
{
    assert(row * row_len + row_len == (row + 1) * row_len) by (nonlinear_arith);
    lemma_mul_inequality(0, row, row_len);
    lemma_mul_inequality(row + 1, rows, row_len);
    lemma_mul_inequality(0, row, pitch);
    lemma_mul_inequality(row, rows - 1, pitch);
}

/// Where the rows of the texture are at least as far apart as those of the frame are long, each
/// row arrives, and the bytes between two rows and behind the last one stay as they were.
pub proof fn law_rows_arrive(
    dst: Seq<u8>,
    src: Seq<u8>,
    row_len: int,
    pitch: int,
    rows: int,
)
    requires
        0 <= row_len <= pitch,
        0 <= rows,
        rows * row_len <= src.len(),
        rows_len(row_len, pitch, rows) <= dst.len(),
    ensures
        with_rows(dst, src, row_len, pitch, rows).len() == dst.len(),
        forall|row: int, i: int|
            0 <= row < rows && 0 <= i < row_len ==> #[trigger] with_rows(
                dst,
                src,
                row_len,
                pitch,
                rows,
            )[row * pitch + i] == src[row * row_len + i],
        forall|at: int|
            0 <= at < dst.len() && (rows <= at / pitch || row_len <= at % pitch) && pitch > 0
                ==> #[trigger] with_rows(dst, src, row_len, pitch, rows)[at] == dst[at],
    decreases rows,
{
    if rows > 0 {
        let last = rows - 1;
        lemma_rows_fit(last, rows, row_len, pitch);
        if last > 0 {
            lemma_rows_fit(last - 1, rows, row_len, pitch);
            assert((last - 1) * pitch + pitch == last * pitch) by (nonlinear_arith);
        }
        law_rows_arrive(dst, src, row_len, pitch, last);
        let before = with_rows(dst, src, row_len, pitch, last);
        let after = with_rows(dst, src, row_len, pitch, rows);
        assert forall|row: int, i: int| 0 <= row < rows && 0 <= i < row_len implies #[trigger] after[
        row * pitch + i] == src[row * row_len + i] by {
            lemma_mul_inequality(0, row, pitch);
            if row < last {
                lemma_mul_inequality(row + 1, last, pitch);
                assert(row * pitch + pitch == (row + 1) * pitch) by (nonlinear_arith);
                assert(before[row * pitch + i] == src[row * row_len + i]);
            }
        }
        assert forall|at: int|
            0 <= at < dst.len() && (rows <= at / pitch || row_len <= at % pitch) && pitch
                > 0 implies #[trigger] after[at] == dst[at] by {
            vstd::arithmetic::div_mod::lemma_fundamental_div_mod(at, pitch);
            let q = at / pitch;
            assert(pitch * q == q * pitch) by (nonlinear_arith);
            if q < last {
                lemma_mul_inequality(q + 1, last, pitch);
                assert(q * pitch + pitch == (q + 1) * pitch) by (nonlinear_arith);
            } else if q > last {
                lemma_mul_inequality(rows, q, pitch);
                assert(last * pitch + pitch == rows * pitch) by (nonlinear_arith)
                    requires
                        last + 1 == rows,
                ;
            }
            assert(before[at] == dst[at]);
        }
    }
}

} // verus!
