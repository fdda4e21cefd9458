use window_warp::capture::{CapturedFrame, PixelBuffer, RawFrame};
use window_warp::nv12::{
    video_content, Nv12Converter, COLOR_SPACE_RGB_FULL, COLOR_SPACE_YUV_BT709_STUDIO, POOL_SIZE,
};
use window_warp::preview::{
    bytes_per_row, extract_frame, frame_format, surface_size, to_rgba, FrameBuffer, FrameFormat,
    Upload,
};
use window_warp::renderer::{copy_rows, RenderPlan, Renderer, ShortFrame};

fn pixels(width: i32, height: i32, data: &[u8]) -> PixelBuffer {
    PixelBuffer {
        width,
        height,
        data: data.to_vec(),
    }
}

fn captured(width: u32, height: u32, bgra: Vec<u8>) -> CapturedFrame {
    CapturedFrame {
        width,
        height,
        bgra,
        sequence: 1,
    }
}

#[test]
fn frames_of_every_format_become_rgba() {
    let data = [1, 2, 3, 4, 5, 6, 7, 8, 9];
    assert_eq!(to_rgba(&data, FrameFormat::Rgbx), data);
    let swapped = [3, 2, 1, 4, 7, 6, 5, 8, 9];
    assert_eq!(to_rgba(&data, FrameFormat::Bgra), swapped);
    assert_eq!(to_rgba(&data, FrameFormat::Bgrx), swapped);
    assert_eq!(
        to_rgba(&data, FrameFormat::Rgb),
        [1, 2, 3, 255, 4, 5, 6, 255, 7, 8, 9, 255]
    );
    assert_eq!(to_rgba(&data[..5], FrameFormat::Rgb), [1, 2, 3, 255]);
    assert!(to_rgba(&[], FrameFormat::Bgra).is_empty());
    assert_eq!(to_rgba(&data[..3], FrameFormat::Bgra), [1, 2, 3]);
}

#[test]
fn swapping_twice_gives_the_frame_back() {
    let data: Vec<u8> = (0..23).collect();
    let once = to_rgba(&data, FrameFormat::Bgra);
    assert_ne!(once, data);
    assert_eq!(to_rgba(&once, FrameFormat::Bgra), data);
}

#[test]
fn frames_are_taken_apart() {
    let (width, height, data, format) =
        extract_frame(RawFrame::Bgr0(pixels(2, 3, &[9]))).unwrap();
    assert_eq!((width, height, format), (2, 3, FrameFormat::Bgrx));
    assert_eq!(data, [9]);
    let format = |frame| extract_frame(frame).unwrap().3;
    assert_eq!(format(RawFrame::Bgra(pixels(1, 1, &[]))), FrameFormat::Bgra);
    assert_eq!(format(RawFrame::Rgbx(pixels(1, 1, &[]))), FrameFormat::Rgbx);
    assert_eq!(format(RawFrame::Rgb(pixels(1, 1, &[]))), FrameFormat::Rgb);
    assert!(extract_frame(RawFrame::Other).is_none());
    assert_eq!(frame_format(&RawFrame::Rgb(pixels(1, 1, &[]))), Some(FrameFormat::Rgb));
    assert_eq!(frame_format(&RawFrame::Bgr0(pixels(1, 1, &[]))), Some(FrameFormat::Bgrx));
    assert_eq!(frame_format(&RawFrame::Other), None);
    let wrapped = extract_frame(RawFrame::Rgb(pixels(-1, i32::MIN, &[]))).unwrap();
    assert_eq!((wrapped.0, wrapped.1), (u32::MAX, 0x8000_0000));
}

#[test]
fn buffer_is_uploaded_once_per_frame() {
    assert!(FrameBuffer::new(RawFrame::Other).is_none());
    let mut buffer = FrameBuffer::new(RawFrame::Bgra(pixels(1, 1, &[1, 2, 3, 4]))).unwrap();
    assert_eq!(buffer.data, [3, 2, 1, 4]);
    assert_eq!(buffer.take_upload(1, 1), Upload::Write);
    assert_eq!(buffer.take_upload(1, 1), Upload::Nothing);

    let mut buffer =
        FrameBuffer::new(RawFrame::Rgb(pixels(2, 1, &[1, 2, 3, 4, 5, 6]))).unwrap();
    assert_eq!((buffer.width, buffer.height, buffer.dirty), (2, 1, true));
    assert_eq!(buffer.data, [1, 2, 3, 255, 4, 5, 6, 255]);
    assert_eq!(buffer.take_upload(1, 1), Upload::Recreate);
    assert!(!buffer.dirty);
}

#[test]
fn surfaces_have_an_area() {
    assert_eq!(surface_size(0, 7), (1, 7));
    assert_eq!(surface_size(1920, 0), (1920, 1));
    assert_eq!(bytes_per_row(1920), 7680);
}

#[test]
fn only_a_new_size_resizes_the_output() {
    let mut renderer = Renderer::new(4, 3);
    assert_eq!(renderer.render(), RenderPlan::Nothing);
    renderer.create_target_view();
    assert_eq!(renderer.render(), RenderPlan::Clear);
    assert!(!renderer.resize(4, 3));
    assert!(!renderer.resize(0, 9));
    assert!(!renderer.resize(9, 0));
    assert_eq!(renderer.size(), (4, 3));
    assert_eq!(renderer.render(), RenderPlan::Clear);
    assert!(renderer.resize(4, 9));
    assert_eq!(renderer.size(), (4, 9));
    assert_eq!(renderer.render(), RenderPlan::Nothing);
}

#[test]
fn textures_are_made_for_new_sizes() {
    let mut renderer = Renderer::new(4, 3);
    renderer.create_target_view();
    let frame = captured(2, 1, vec![0; 8]);
    assert_eq!(renderer.upload(&frame), Ok(true));
    renderer.create_source_texture(2, 1);
    assert_eq!(renderer.upload(&frame), Ok(false));
    assert_eq!(renderer.render(), RenderPlan::Warp);
    assert_eq!(renderer.upload(&captured(1, 2, vec![0; 9])), Ok(true));
}

#[test]
fn short_frames_are_turned_down() {
    let renderer = Renderer::new(4, 3);
    assert_eq!(
        renderer.upload(&captured(2, 2, vec![0; 15])),
        Err(ShortFrame {
            len: 15,
            expected: 16
        })
    );
    assert_eq!(renderer.upload(&captured(2, 2, vec![0; 16])), Ok(true));
}

#[test]
fn rows_are_copied_to_the_pitch_of_the_texture() {
    let frame = captured(1, 3, (1..=12).collect());
    let mut texture = [0u8; 18];
    copy_rows(&frame, &mut texture, 6);
    assert_eq!(texture, [1, 2, 3, 4, 0, 0, 5, 6, 7, 8, 0, 0, 9, 10, 11, 12, 0, 0]);

    let mut tight = [0u8; 12];
    copy_rows(&frame, &mut tight, 4);
    assert_eq!(tight.to_vec(), frame.bgra);
}

#[test]
fn conversion_cycles_through_its_surfaces() {
    let mut converter = Nv12Converter::new();
    let surfaces: Vec<usize> = (0..6).map(|_| converter.convert()).collect();
    assert_eq!(surfaces, [0, 1, 2, 3, 0, 1]);
    assert_eq!(POOL_SIZE, 4);
}

#[test]
fn input_view_is_kept_for_its_texture() {
    let mut converter = Nv12Converter::new();
    assert!(converter.needs_input_view(0x1000));
    converter.input_view_made(0x1000);
    assert!(!converter.needs_input_view(0x1000));
    assert!(converter.needs_input_view(0x2000));
}

#[test]
fn conversion_is_described() {
    let content = video_content(1080, 720, 0);
    assert_eq!((content.width, content.height), (1080, 720));
    assert_eq!((content.rate_numerator, content.rate_denominator), (1, 1));
    assert_eq!(video_content(1, 1, 60).rate_numerator, 60);
    assert_eq!(COLOR_SPACE_RGB_FULL, 2 << 4);
    assert_eq!(COLOR_SPACE_YUV_BT709_STUDIO, (1 << 2) | (1 << 4));
}
