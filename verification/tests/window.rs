use window_warp::cli::{Cli, RunMode, WarpParams};
use window_warp::session::{plan_turn, Turn};
use window_warp::window::{
    apply_key, to_wide, DiskChange, Key, OutputWindow, Reply, WindowMessage,
};

fn params() -> WarpParams {
    WarpParams {
        clockwise: true,
        supersample: 2,
    }
}

fn cli() -> Cli {
    Cli {
        list: false,
        window: None,
        display: false,
        fps: 60,
        size: 1080,
        counter_clockwise: false,
        supersample: 2,
        stream: None,
        stream_size: None,
        bitrate: 8_000_000,
        gop: None,
    }
}

#[test]
fn options_decide_what_a_run_is_for() {
    assert_eq!(cli().mode(), RunMode::Missing);
    let display = Cli {
        display: true,
        ..cli()
    };
    assert_eq!(display.mode(), RunMode::Display);
    let window = Cli {
        window: Some("Live".to_string()),
        display: true,
        ..cli()
    };
    assert_eq!(window.mode(), RunMode::Window);
    let list = Cli {
        list: true,
        ..window
    };
    assert_eq!(list.mode(), RunMode::List);
}

#[test]
fn samples_are_kept_within_their_limits() {
    let samples = |supersample| Cli { supersample, ..cli() }.warp_params().supersample;
    assert_eq!(samples(0), 1);
    assert_eq!(samples(1), 1);
    assert_eq!(samples(5), 5);
    assert_eq!(samples(8), 8);
    assert_eq!(samples(9), 8);
    assert!(cli().warp_params().clockwise);
    let other = Cli {
        counter_clockwise: true,
        ..cli()
    };
    assert!(!other.warp_params().clockwise);
}

#[test]
fn stream_takes_the_output_size_and_two_seconds_by_default() {
    let config = cli().encoder_config();
    assert_eq!((config.width, config.height), (1080, 1080));
    assert_eq!((config.fps, config.bitrate, config.gop), (60, 8_000_000, 120));

    let given = Cli {
        stream_size: Some(720),
        gop: Some(60),
        bitrate: 4_000_000,
        fps: 0,
        ..cli()
    };
    let config = given.encoder_config();
    assert_eq!((config.width, config.height), (720, 720));
    assert_eq!((config.fps, config.bitrate, config.gop), (1, 4_000_000, 60));

    let gop = |fps| Cli { fps, ..cli() }.gop();
    assert_eq!(gop(0), 2);
    assert_eq!(gop(u32::MAX / 2), u32::MAX - 1);
    assert_eq!(gop(u32::MAX / 2 + 1), u32::MAX);
}

#[test]
fn keys_do_what_they_are_for() {
    let mut window = OutputWindow::create(params());
    let mut press = |key| window.window_proc(WindowMessage::KeyDown(key));
    assert_eq!(
        press(Key::Left),
        Reply::Handled {
            change: DiskChange::Rotate { degrees: -2 }
        }
    );
    assert_eq!(
        press(Key::Right),
        Reply::Handled {
            change: DiskChange::Rotate { degrees: 2 }
        }
    );
    assert_eq!(
        press(Key::Up),
        Reply::Handled {
            change: DiskChange::GrowHole { hundredths: 1 }
        }
    );
    assert_eq!(
        press(Key::Down),
        Reply::Handled {
            change: DiskChange::GrowHole { hundredths: -1 }
        }
    );
    let unchanged = Reply::Handled {
        change: DiskChange::Unchanged,
    };
    assert_eq!(press(Key::Other), unchanged);
    assert_eq!(press(Key::PageUp), unchanged);
    assert_eq!(press(Key::Space), unchanged);
    assert_eq!(press(Key::Escape), unchanged);
    let state = window.pump();
    assert!(state.quit && state.paused);
    assert_eq!(state.params.supersample, 3);
    assert_eq!(state.resized_to, None);
}

#[test]
fn samples_stop_at_their_limits() {
    let mut state = OutputWindow::create(params()).pump();
    for _ in 0..10 {
        apply_key(&mut state, Key::PageUp);
    }
    assert_eq!(state.params.supersample, 8);
    for _ in 0..10 {
        apply_key(&mut state, Key::PageDown);
    }
    assert_eq!(state.params.supersample, 1);
}

#[test]
fn keys_undo_each_other() {
    let before = OutputWindow::create(params()).pump();
    let mut state = before;
    apply_key(&mut state, Key::Space);
    assert!(state.paused);
    apply_key(&mut state, Key::Space);
    apply_key(&mut state, Key::PageUp);
    apply_key(&mut state, Key::PageDown);
    assert_eq!(state, before);
}

#[test]
fn closing_and_destroying_quit() {
    let mut window = OutputWindow::create(params());
    assert!(!window.pump().quit);
    assert_eq!(
        window.window_proc(WindowMessage::Close),
        Reply::Handled {
            change: DiskChange::Unchanged
        }
    );
    assert!(window.pump().quit);

    let mut window = OutputWindow::create(params());
    assert_eq!(window.window_proc(WindowMessage::Destroy), Reply::HandledAndQuit);
    assert!(window.pump().quit);

    let before = window.pump();
    assert_eq!(window.window_proc(WindowMessage::Other), Reply::Default);
    assert_eq!(window.pump(), before);
}

#[test]
fn resizes_wait_for_the_render_loop() {
    let mut window = OutputWindow::create(params());
    window.window_proc(WindowMessage::Size {
        packed: 0x0438_0780,
    });
    assert_eq!(window.pump().resized_to, Some((1920, 1080)));
    // A minimised window keeps the last size.
    window.window_proc(WindowMessage::Size { packed: 0 });
    window.window_proc(WindowMessage::Size { packed: 0xffff });
    assert_eq!(window.pump().resized_to, Some((1920, 1080)));
    window.clear_resize();
    assert_eq!(window.pump().resized_to, None);
}

#[test]
fn client_area_has_at_least_one_pixel() {
    assert_eq!(OutputWindow::client_size(10, 20, 1930, 1100), (1920, 1080));
    assert_eq!(OutputWindow::client_size(0, 0, 0, -5), (1, 1));
}

#[test]
fn wide_strings_end_in_zero() {
    assert_eq!(to_wide(""), [0]);
    assert_eq!(to_wide("warp"), [0x77, 0x61, 0x72, 0x70, 0]);
    let text = "é\u{ffff}\u{10000}\u{1f300}\u{10ffff}";
    let expected: Vec<u16> = text.encode_utf16().chain(std::iter::once(0)).collect();
    assert_eq!(to_wide(text), expected);
}

#[test]
fn turns_follow_the_window() {
    let mut state = OutputWindow::create(params()).pump();
    assert_eq!(
        plan_turn(&state, false),
        Turn::Draw {
            resize: None,
            take_frame: true,
            stream_frame: false
        }
    );
    state.paused = true;
    state.resized_to = Some((3, 4));
    assert_eq!(
        plan_turn(&state, true),
        Turn::Draw {
            resize: Some((3, 4)),
            take_frame: false,
            stream_frame: true
        }
    );
    state.quit = true;
    assert_eq!(plan_turn(&state, true), Turn::Stop);
}
