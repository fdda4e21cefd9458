//! The preview: captured frames of any format, as packed RGBA, and the buffer between the capture
//! and the texture that is shown.

use crate::capture::{PixelBuffer, RawFrame};
use vstd::prelude::*;
use vstd::slice::slice_to_vec;

verus! {

/// How the bytes of a pixel are laid out.
#[derive(Debug, Clone, Copy, PartialEq, Eq)]
pub enum FrameFormat {
    Bgra,
    Bgrx,
    Rgbx,
    Rgb,
}

/// The first and the third byte of every whole pixel of four bytes swapped. Bytes that are short
/// of a pixel stay.
pub open spec fn swapped(data: Seq<u8>) -> Seq<u8> {
    Seq::new(
        data.len(),
        |i: int|
            if i < data.len() as int / 4 * 4 && i % 4 == 0 {
                data[i + 2]
            } else if i < data.len() as int / 4 * 4 && i % 4 == 2 {
                data[i - 2]
            } else {
                data[i]
            },
    )
}

/// Every whole pixel of three bytes, with an opaque alpha behind it. Bytes that are short of a
/// pixel are left out.
pub open spec fn padded(data: Seq<u8>) -> Seq<u8> {
    Seq::new(
        (data.len() as int / 3 * 4) as nat,
        |i: int|
            if i % 4 == 3 {
                255
            } else {
                data[i / 4 * 3 + i % 4]
            },
    )
}

/// A frame as packed RGBA.
pub open spec fn rgba(data: Seq<u8>, format: FrameFormat) -> Seq<u8> {
    match format {
        FrameFormat::Rgbx => data,
        FrameFormat::Bgra | FrameFormat::Bgrx => swapped(data),
        FrameFormat::Rgb => padded(data),
    }
}

/// Normalizes any captured frame to packed RGBA bytes.
pub fn to_rgba(data: &[u8], format: FrameFormat) -> (out: Vec<u8>)
    ensures
        out@ == rgba(data@, format),
{
    match format {
        FrameFormat::Rgbx => slice_to_vec(data),
        FrameFormat::Bgra | FrameFormat::Bgrx => swap_channels(data),
        FrameFormat::Rgb => pad_pixels(data),
    }
}

fn swap_channels(data: &[u8]) -> (out: Vec<u8>)
    ensures
        out@ == swapped(data@),
{
    let mut out: Vec<u8> = slice_to_vec(data);
    let len: usize = out.len();
    let mut pixel: usize = 0;
    while len - pixel >= 4
        invariant
            pixel <= len,
            pixel % 4 == 0,
            len == data@.len() == out@.len(),
            forall|i: int| 0 <= i < pixel ==> out@[i] == #[trigger] swapped(data@)[i],
            forall|i: int| pixel <= i < len ==> out@[i] == data@[i],
        decreases len - pixel,
    {
        let first: u8 = out[pixel];
        out[pixel] = out[pixel + 2];
        out[pixel + 2] = first;
        assert forall|i: int| 0 <= i < pixel + 4 implies out@[i] == #[trigger] swapped(data@)[i] by {
            if i >= pixel {
                assert(i == pixel || i == pixel + 1 || i == pixel + 2 || i == pixel + 3);
            }
        }
        pixel = pixel + 4;
    }
    assert(out@ =~= swapped(data@));
    out
}

fn pad_pixels(data: &[u8]) -> (out: Vec<u8>)
    ensures
        out@ == padded(data@),
{
    let mut out: Vec<u8> = Vec::new();
    let len: usize = data.len();
    let mut at: usize = 0;
    while len - at >= 3
        invariant
            at <= len,
            at % 3 == 0,
            len == data@.len(),
            out@.len() == at as int / 3 * 4,
            out@ =~= padded(data@).take(out@.len() as int),
        decreases len - at,
    {
        let ghost n = at as int / 3;
        assert(at == n * 3);
        out.push(data[at]);
        out.push(data[at + 1]);
        out.push(data[at + 2]);
        out.push(255);
        assert forall|i: int| 4 * n <= i < 4 * n + 4 implies out@[i] == padded(data@)[i] by {
            assert(i == 4 * n || i == 4 * n + 1 || i == 4 * n + 2 || i == 4 * n + 3);
        }
        at = at + 3;
        assert(at as int / 3 == n + 1);
    }
    assert(out@ =~= padded(data@));
    out
}

/// A length as the capture gives it, read as a number without a sign.
pub open spec fn unsigned(length: i32) -> int {
    if length < 0 {
        length + 0x1_0000_0000
    } else {
        length as int
    }
}

/// The pixels of a frame and how they are laid out, where the format is a known one.
pub open spec fn pixels_of(frame: RawFrame) -> Option<(PixelBuffer, FrameFormat)> {
    match frame {
        RawFrame::Bgra(pixels) => Some((pixels, FrameFormat::Bgra)),
        RawFrame::Bgr0(pixels) => Some((pixels, FrameFormat::Bgrx)),
        RawFrame::Rgbx(pixels) => Some((pixels, FrameFormat::Rgbx)),
        RawFrame::Rgb(pixels) => Some((pixels, FrameFormat::Rgb)),
        RawFrame::Other => None,
    }
}

/// How the pixels of a frame are laid out, where the format is a known one.
pub fn frame_format(frame: &RawFrame) -> (format: Option<FrameFormat>)
    ensures
        format == (match pixels_of(*frame) {
            Some((_, format)) => Some(format),
            None => None,
        }),
{
    match frame {
        RawFrame::Bgra(_) => Some(FrameFormat::Bgra),
        RawFrame::Bgr0(_) => Some(FrameFormat::Bgrx),
        RawFrame::Rgbx(_) => Some(FrameFormat::Rgbx),
        RawFrame::Rgb(_) => Some(FrameFormat::Rgb),
        RawFrame::Other => None,
    }
}

/// What [`extract_frame`] takes out of a frame.
pub open spec fn is_extracted(
    extracted: Option<(u32, u32, Vec<u8>, FrameFormat)>,
    frame: RawFrame,
) -> bool {
    match pixels_of(frame) {
        Some((pixels, known)) => {
            &&& extracted matches Some((width, height, data, format))
            &&& width == unsigned(pixels.width)
            &&& height == unsigned(pixels.height)
            &&& data == pixels.data
            &&& format == known
        },
        None => extracted is None,
    }
}

/// Takes any supported frame apart into width, height, bytes and format. Formats that are not
/// handled (such as YUV) give `None`.
pub fn extract_frame(frame: RawFrame) -> (extracted: Option<(u32, u32, Vec<u8>, FrameFormat)>)
    ensures
        is_extracted(extracted, frame),
{
    match frame {
        RawFrame::Bgra(f) => Some(
            (as_unsigned(f.width), as_unsigned(f.height), f.data, FrameFormat::Bgra),
        ),
        RawFrame::Bgr0(f) => Some(
            (as_unsigned(f.width), as_unsigned(f.height), f.data, FrameFormat::Bgrx),
        ),
        RawFrame::Rgbx(f) => Some(
            (as_unsigned(f.width), as_unsigned(f.height), f.data, FrameFormat::Rgbx),
        ),
        RawFrame::Rgb(f) => Some(
            (as_unsigned(f.width), as_unsigned(f.height), f.data, FrameFormat::Rgb),
        ),
        RawFrame::Other => None,
    }
}

fn as_unsigned(length: i32) -> (value: u32)
    ensures
        value == unsigned(length),
{
    assert(length < 0 ==> #[verifier::truncate] (length as u32) == length + 0x1_0000_0000)
        by (bit_vector);
    #[verifier::truncate]
    (length as u32)
}

/// The newest frame, as packed RGBA, and whether it is yet to be shown.
pub struct FrameBuffer {
    pub data: Vec<u8>,
    pub width: u32,
    pub height: u32,
    pub dirty: bool,
}

/// A buffer that was just made for a frame.
pub open spec fn holds(buffer: FrameBuffer, pixels: PixelBuffer, format: FrameFormat) -> bool {
    &&& buffer.data@ == rgba(pixels.data@, format)
    &&& buffer.width == unsigned(pixels.width)
    &&& buffer.height == unsigned(pixels.height)
    &&& buffer.dirty
}

/// What is to be done before a frame is shown.
#[derive(Debug, Clone, Copy, PartialEq, Eq)]
pub enum Upload {
    /// The texture holds the newest frame.
    Nothing,
    /// Upload the newest frame into the texture.
    Write,
    /// Make a texture of the frame's size first.
    Recreate,
}

impl FrameBuffer {
    /// A buffer with a new frame in it, where that has a format that is handled.
    pub fn new(frame: RawFrame) -> (buffer: Option<FrameBuffer>)
        ensures
            match pixels_of(frame) {
                Some((pixels, format)) => buffer is Some && holds(buffer->0, pixels, format),
                None => buffer is None,
            },
    {
        match extract_frame(frame) {
            Some((width, height, data, format)) => Some(
                FrameBuffer {
                    data: to_rgba(data.as_slice(), format),
                    width,
                    height,
                    dirty: true,
                },
            ),
            None => None,
        }
    }

    /// What the texture, of the given size, lacks. The buffer then counts as shown.
    pub fn take_upload(&mut self, texture_width: u32, texture_height: u32) -> (upload: Upload)
        ensures
            upload == (if !old(self).dirty {
                Upload::Nothing
            } else if old(self).width != texture_width || old(self).height != texture_height {
                Upload::Recreate
            } else {
                Upload::Write
            }),
            upload == upload_for(
                old(self).dirty,
                (old(self).width, old(self).height),
                (texture_width, texture_height),
            ),
            *final(self) == (FrameBuffer { dirty: false, ..*old(self) }),
    {
        if !self.dirty {
            return Upload::Nothing;
        }
        self.dirty = false;
        if self.width != texture_width || self.height != texture_height {
            Upload::Recreate
        } else {
            Upload::Write
        }
    }
}

/// The bytes that a row of some pixels takes.
pub open spec fn row_bytes(width: u32) -> int {
    4 * width
}

/// The length of a side to draw at.
pub open spec fn drawn(side: u32) -> u32 {
    if side == 0 {
        1
    } else {
        side
    }
}

/// A row takes four bytes for each of its pixels, and a side to draw at is as long as that of the
/// window, and one pixel where that has none.
pub proof fn law_sides(side: u32)
    ensures
        row_bytes(0) == 0,
        side > 0 ==> row_bytes(side) - row_bytes((side - 1) as u32) == 4,
        side > 0 ==> drawn(side) == side,
        drawn(0) == 1,
{
}

/// The bytes of one row of an RGBA texture.
pub fn bytes_per_row(width: u32) -> (bytes: u32)
    requires
        4 * width <= u32::MAX,
    ensures
        bytes == 4 * width,
        bytes == row_bytes(width),
{
    4 * width
}

/// The size to draw at in a window: at least one pixel each way.
pub fn surface_size(width: u32, height: u32) -> (size: (u32, u32))
    ensures
        size.0 == (if width == 0 {
            1
        } else {
            width
        }),
        size.1 == (if height == 0 {
            1
        } else {
            height
        }),
        size == (drawn(width), drawn(height)),
{
    (
        if width == 0 {
            1
        } else {
            width
        },
        if height == 0 {
            1
        } else {
            height
        },
    )
}

/// What the pixels of a frame become, whatever its format and however many there are: RGBx stays as
/// it is; of BGRA and BGRx every whole pixel has its blue and red swapped, and the bytes behind the
/// last whole pixel stay; of RGB every whole pixel gets an opaque alpha, and the bytes behind the
/// last one are left out.
pub proof fn law_pixels_arrive(data: Seq<u8>, i: int)
    ensures
        rgba(data, FrameFormat::Rgbx) == data,
        rgba(data, FrameFormat::Bgra) == rgba(data, FrameFormat::Bgrx),
        rgba(data, FrameFormat::Bgra).len() == data.len(),
        0 <= i && 4 * i + 4 <= data.len() ==> {
            let out = rgba(data, FrameFormat::Bgra);
            &&& out[4 * i] == data[4 * i + 2]
            &&& out[4 * i + 1] == data[4 * i + 1]
            &&& out[4 * i + 2] == data[4 * i]
            &&& out[4 * i + 3] == data[4 * i + 3]
        },
        0 <= i < data.len() && data.len() as int / 4 * 4 <= i ==> rgba(data, FrameFormat::Bgra)[i]
            == data[i],
        rgba(data, FrameFormat::Rgb).len() == 4 * (data.len() as int / 3),
        0 <= i && 3 * i + 3 <= data.len() ==> {
            let out = rgba(data, FrameFormat::Rgb);
            &&& out[4 * i] == data[3 * i]
            &&& out[4 * i + 1] == data[3 * i + 1]
            &&& out[4 * i + 2] == data[3 * i + 2]
            &&& out[4 * i + 3] == 255
        },
{
}

/// Lengths are read without a sign: those that are not negative as they are, and the others the
/// way 32 bits hold them.
pub proof fn law_lengths(length: i32)
    ensures
        0 <= unsigned(length) <= u32::MAX,
        length >= 0 ==> unsigned(length) == length,
        (unsigned(length) - length) % 0x1_0000_0000 == 0,
{
}

/// A frame of a known format is taken with all its bytes and its own format, and so buffered: as
/// RGBA, of its own size, and yet to be shown. A frame of another format is not taken.
pub proof fn law_frames_are_taken(pixels: PixelBuffer, buffer: FrameBuffer, i: int)
    ensures
        pixels_of(RawFrame::Bgra(pixels)) == Some((pixels, FrameFormat::Bgra)),
        pixels_of(RawFrame::Bgr0(pixels)) == Some((pixels, FrameFormat::Bgrx)),
        pixels_of(RawFrame::Rgbx(pixels)) == Some((pixels, FrameFormat::Rgbx)),
        pixels_of(RawFrame::Rgb(pixels)) == Some((pixels, FrameFormat::Rgb)),
        pixels_of(RawFrame::Other) is None,
        forall|format: FrameFormat| #[trigger]
            holds(buffer, pixels, format) ==> {
                &&& buffer.dirty
                &&& (buffer.width - pixels.width) % 0x1_0000_0000 == 0
                &&& (buffer.height - pixels.height) % 0x1_0000_0000 == 0
                &&& format is Rgbx ==> buffer.data@ == pixels.data@
                &&& format is Bgra || format is Bgrx ==> {
                    &&& buffer.data@.len() == pixels.data@.len()
                    &&& 0 <= i && 4 * i + 4 <= pixels.data@.len() ==> {
                        &&& buffer.data@[4 * i] == pixels.data@[4 * i + 2]
                        &&& buffer.data@[4 * i + 1] == pixels.data@[4 * i + 1]
                        &&& buffer.data@[4 * i + 2] == pixels.data@[4 * i]
                        &&& buffer.data@[4 * i + 3] == pixels.data@[4 * i + 3]
                    }
                }
                &&& format is Rgb ==> {
                    &&& buffer.data@.len() == 4 * (pixels.data@.len() as int / 3)
                    &&& 0 <= i && 3 * i + 3 <= pixels.data@.len() ==> {
                        &&& buffer.data@[4 * i] == pixels.data@[3 * i]
                        &&& buffer.data@[4 * i + 1] == pixels.data@[3 * i + 1]
                        &&& buffer.data@[4 * i + 2] == pixels.data@[3 * i + 2]
                        &&& buffer.data@[4 * i + 3] == 255
                    }
                }
            },
{
}

/// What an extracted frame is made of: exactly the bytes of the frame, its size and its format.
pub proof fn law_extracted(
    extracted: Option<(u32, u32, Vec<u8>, FrameFormat)>,
    pixels: PixelBuffer,
)
    ensures
        !is_extracted(None, RawFrame::Bgra(pixels)),
        !is_extracted(None, RawFrame::Rgb(pixels)),
        is_extracted(extracted, RawFrame::Other) <==> extracted is None,
        is_extracted(extracted, RawFrame::Bgra(pixels)) ==> (extracted matches Some(
            (width, height, data, format),
        ) && (width - pixels.width) % 0x1_0000_0000 == 0 && (height - pixels.height) % 0x1_0000_0000
            == 0 && data@ == pixels.data@ && format is Bgra),
        is_extracted(extracted, RawFrame::Bgr0(pixels)) ==> (extracted matches Some(
            (width, height, data, format),
        ) && (width - pixels.width) % 0x1_0000_0000 == 0 && (height - pixels.height) % 0x1_0000_0000
            == 0 && data@ == pixels.data@ && format is Bgrx),
        is_extracted(extracted, RawFrame::Rgbx(pixels)) ==> (extracted matches Some(
            (width, height, data, format),
        ) && (width - pixels.width) % 0x1_0000_0000 == 0 && (height - pixels.height) % 0x1_0000_0000
            == 0 && data@ == pixels.data@ && format is Rgbx),
        is_extracted(extracted, RawFrame::Rgb(pixels)) ==> (extracted matches Some(
            (width, height, data, format),
        ) && (width - pixels.width) % 0x1_0000_0000 == 0 && (height - pixels.height) % 0x1_0000_0000
            == 0 && data@ == pixels.data@ && format is Rgb),
{
}

/// A frame is uploaded exactly while it is yet to be shown, and the texture is made anew exactly
/// where one of its sides differs from the frame's. After that the frame counts as shown, so
/// without a newer one nothing is uploaded again.
pub proof fn law_uploaded_once(dirty: bool, frame: (u32, u32), texture: (u32, u32))
    ensures
        upload_for(dirty, frame, texture) is Nothing <==> !dirty,
        dirty ==> (upload_for(dirty, frame, texture) is Write <==> frame == texture),
        dirty ==> (upload_for(dirty, frame, texture) is Recreate <==> frame != texture),
        upload_for(false, frame, frame) is Nothing,
{
}

/// What a texture lacks of a frame.
pub open spec fn upload_for(dirty: bool, frame: (u32, u32), texture: (u32, u32)) -> Upload {
    if !dirty {
        Upload::Nothing
    } else if frame.0 != texture.0 || frame.1 != texture.1 {
        Upload::Recreate
    } else {
        Upload::Write
    }
}

/// Swapping the channels twice gives the frame back.
pub proof fn law_swap_undoes_itself(data: Seq<u8>)
    ensures
        swapped(swapped(data)) == data,
{
    assert(swapped(swapped(data)) =~= data);
}

/// A whole frame keeps its pixels, each in its place: the red, green and blue of every pixel are
/// those that its format has them as, the frame takes four bytes per pixel, and padding makes
/// every pixel opaque.
pub proof fn law_channels_arrive(data: Seq<u8>, pixel: int)
    requires
        0 <= pixel,
    ensures
        4 * pixel + 4 <= data.len() ==> {
            let out = swapped(data);
            &&& out.len() == data.len()
            &&& out[4 * pixel] == data[4 * pixel + 2]
            &&& out[4 * pixel + 1] == data[4 * pixel + 1]
            &&& out[4 * pixel + 2] == data[4 * pixel]
            &&& out[4 * pixel + 3] == data[4 * pixel + 3]
        },
        3 * pixel + 3 <= data.len() ==> {
            let out = padded(data);
            &&& 4 * pixel + 4 <= out.len()
            &&& out[4 * pixel] == data[3 * pixel]
            &&& out[4 * pixel + 1] == data[3 * pixel + 1]
            &&& out[4 * pixel + 2] == data[3 * pixel + 2]
            &&& out[4 * pixel + 3] == 255
        },
        3 * padded(data).len() <= 4 * data.len() < 3 * padded(data).len() + 12,
{
}

} // verus!
