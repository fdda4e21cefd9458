use window_warp::capture::{
    capture_access, describe_target, find_window, list_targets, main_display, match_titles,
    Capture, CaptureAccess, CaptureStep, FrameCounter, PixelBuffer, RawFrame, Target, WindowMatch,
};

fn window(id: u32, title: &str) -> Target {
    Target::Window {
        id,
        title: title.to_string(),
    }
}

fn display(id: u32, title: &str) -> Target {
    Target::Display {
        id,
        title: title.to_string(),
    }
}

fn bgra(width: i32, height: i32, data: Vec<u8>) -> Option<RawFrame> {
    Some(RawFrame::Bgra(PixelBuffer {
        width,
        height,
        data,
    }))
}

#[test]
fn access_is_asked_for_only_where_it_is_missing() {
    assert_eq!(capture_access(false, true, None), CaptureAccess::Unsupported);
    assert_eq!(capture_access(true, true, None), CaptureAccess::Ready);
    assert_eq!(capture_access(true, false, None), CaptureAccess::AskPermission);
    assert_eq!(capture_access(true, false, Some(true)), CaptureAccess::Ready);
    assert_eq!(capture_access(true, false, Some(false)), CaptureAccess::Denied);
}

#[test]
fn only_bgra_frames_with_an_area_are_published() {
    let mut counter = FrameCounter::new();
    match counter.on_frame(bgra(2, 1, vec![1, 2, 3, 4, 5, 6, 7, 8])) {
        CaptureStep::Publish(frame) => {
            assert_eq!((frame.width, frame.height, frame.sequence), (2, 1, 1));
            assert_eq!(frame.bgra, [1, 2, 3, 4, 5, 6, 7, 8]);
        }
        _ => panic!("the frame can be shown"),
    }
    assert!(matches!(counter.on_frame(bgra(0, 1, vec![])), CaptureStep::Skip));
    assert!(matches!(counter.on_frame(bgra(1, -1, vec![])), CaptureStep::Skip));
    assert!(matches!(
        counter.on_frame(Some(RawFrame::Rgb(PixelBuffer {
            width: 1,
            height: 1,
            data: vec![0; 3]
        }))),
        CaptureStep::Skip
    ));
    assert!(matches!(counter.on_frame(Some(RawFrame::Other)), CaptureStep::Skip));
    assert!(matches!(counter.on_frame(None), CaptureStep::Stop));
    match counter.on_frame(bgra(1, 1, vec![0; 4])) {
        CaptureStep::Publish(frame) => assert_eq!(frame.sequence, 2),
        _ => panic!("the frame can be shown"),
    }
}

#[test]
fn newest_frame_is_taken_once() {
    let mut counter = FrameCounter::new();
    let mut capture = Capture::start();
    let mut latest = None;
    assert!(capture.take_new_frame(&mut latest).is_none());

    for _ in 0..3 {
        if let CaptureStep::Publish(frame) = counter.on_frame(bgra(1, 1, vec![0; 4])) {
            latest = Some(frame);
        }
    }
    assert_eq!(capture.take_new_frame(&mut latest).unwrap().sequence, 3);
    assert!(latest.is_none());
    assert!(capture.take_new_frame(&mut latest).is_none());

    if let CaptureStep::Publish(frame) = counter.on_frame(bgra(1, 1, vec![0; 4])) {
        latest = Some(frame);
    }
    assert_eq!(capture.take_new_frame(&mut latest).unwrap().sequence, 4);
}

#[test]
fn windows_are_found_by_a_part_of_their_title_in_any_case() {
    let targets = vec![
        display(1, "Ableton Live display"),
        window(2, "Mail"),
        window(3, "My song - ABLETON Live 12"),
        window(4, "ableton live help"),
    ];
    assert_eq!(
        find_window("Ableton Live", &targets),
        Some(WindowMatch {
            first: 2,
            also: Some(3)
        })
    );
    assert_eq!(
        find_window("MAIL", &targets),
        Some(WindowMatch {
            first: 1,
            also: None
        })
    );
    assert_eq!(find_window("display", &targets), None);
    assert_eq!(
        find_window("", &targets),
        Some(WindowMatch {
            first: 1,
            also: Some(2)
        })
    );
}

#[test]
fn letters_outside_ascii_have_a_case_too() {
    let targets = vec![window(1, "ÉTUDE Ω")];
    assert!(find_window("étude ω", &targets).is_some());
    assert!(find_window("etude", &targets).is_none());
}

#[test]
fn titles_are_matched_letter_for_letter() {
    let titles = vec![None, Some("aab".to_string()), Some("ab".to_string())];
    assert_eq!(
        match_titles("ab", &titles),
        Some(WindowMatch {
            first: 1,
            also: Some(2)
        })
    );
    assert_eq!(match_titles("AB", &titles), None);
    assert_eq!(match_titles("aabb", &titles), None);
}

#[test]
fn first_display_is_the_main_one() {
    let targets = vec![window(1, "a"), display(2, "b"), display(3, "c")];
    assert_eq!(main_display(&targets), Some(1));
    assert_eq!(main_display(&vec![window(1, "a")]), None);
}

#[test]
fn targets_are_listed_with_their_numbers() {
    assert_eq!(describe_target(&window(0, "a b")), "window  [0] a b");
    assert_eq!(
        describe_target(&display(4294967295, "main")),
        "display [4294967295] main"
    );
    assert_eq!(
        list_targets(&vec![window(10, "x"), display(7, "")]),
        ["window  [10] x", "display [7] "]
    );
    assert!(list_targets(&vec![]).is_empty());
    assert_eq!(window(1, "title").title(), "title");
}
