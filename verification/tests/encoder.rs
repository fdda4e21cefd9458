use window_warp::encoder::drive::{
    action, advance, DriveAction, EncoderEvent, Outcome, Phase,
};
use window_warp::encoder::search::{
    entry_done, find_encoder, listed, search_action, SearchAction, SearchPhase,
};
use window_warp::encoder::{
    codec_settings, has_parameter_sets, input_type, is_asynchronous, nal_types, output_type, pack,
    stream_ids, CodecSetting, EncodedFrame, EncoderConfig, H264Encoder, MediaAttribute,
    OutputAction, OutputResult, TransformInfo,
};

fn config() -> EncoderConfig {
    EncoderConfig {
        width: 1920,
        height: 1080,
        fps: 60,
        bitrate: 8_000_000,
        gop: 120,
    }
}

fn info(asynchronous: bool, header: Option<Vec<u8>>) -> TransformInfo {
    TransformInfo {
        asynchronous,
        input_id: 3,
        output_id: 4,
        output_flags: 0x101,
        provides_samples_flag: 0x100,
        sample_size: 0,
        sequence_header: header,
    }
}

#[test]
fn finds_a_sequence_parameter_set() {
    let sps = [0, 0, 0, 1, 0x67, 0x42, 0, 0, 0, 1, 0x68, 0xce];
    let slice = [0, 0, 0, 1, 0x65, 0x88, 0x84];
    assert!(has_parameter_sets(&sps));
    assert!(!has_parameter_sets(&slice));
}

#[test]
fn packs_pairs_into_one_attribute() {
    assert_eq!(pack(1920, 1080), 0x0000_0780_0000_0438);
}

#[test]
fn packed_pairs_come_apart_again() {
    let packed = pack(0xffff_fffe, 0xffff_ffff);
    assert_eq!((packed >> 32) as u32, 0xffff_fffe);
    assert_eq!(packed as u32, 0xffff_ffff);
}

#[test]
fn lists_the_types_of_the_units() {
    let data = [0, 0, 0, 1, 0x67, 0x42, 0, 0, 1, 0x68, 0, 0, 1];
    assert_eq!(nal_types(&data), [7, 8]);
    assert!(nal_types(&[]).is_empty());
    assert!(nal_types(&[0, 0, 1]).is_empty());
    assert_eq!(nal_types(&[0, 0, 1, 0xe5]), [5]);
}

#[test]
fn presentation_times_are_on_the_90_khz_clock() {
    let frame = |time_100ns| EncodedFrame {
        data: Vec::new(),
        time_100ns,
        keyframe: false,
    };
    assert_eq!(frame(0).pts_90khz(), 0);
    assert_eq!(frame(-5).pts_90khz(), 0);
    assert_eq!(frame(111).pts_90khz(), 0);
    assert_eq!(frame(112).pts_90khz(), 1);
    assert_eq!(frame(10_000_000).pts_90khz(), 90_000);
}

#[test]
fn media_types_say_what_is_encoded() {
    assert_eq!(
        output_type(&config()),
        [
            MediaAttribute::MajorTypeVideo,
            MediaAttribute::SubtypeH264,
            MediaAttribute::AverageBitrate(8_000_000),
            MediaAttribute::FrameSize(0x0000_0780_0000_0438),
            MediaAttribute::FrameRate(0x0000_003c_0000_0001),
            MediaAttribute::PixelAspectRatio(0x0000_0001_0000_0001),
            MediaAttribute::InterlaceProgressive,
            MediaAttribute::ProfileHigh,
        ]
    );
    assert_eq!(
        input_type(&config()),
        [
            MediaAttribute::MajorTypeVideo,
            MediaAttribute::SubtypeNv12,
            MediaAttribute::FrameSize(0x0000_0780_0000_0438),
            MediaAttribute::FrameRate(0x0000_003c_0000_0001),
            MediaAttribute::PixelAspectRatio(0x0000_0001_0000_0001),
            MediaAttribute::InterlaceProgressive,
        ]
    );
    assert_eq!(
        codec_settings(&config()),
        [
            CodecSetting::ConstantBitrate,
            CodecSetting::MeanBitrate(8_000_000),
            CodecSetting::GopSize(120),
            CodecSetting::LowLatency,
        ]
    );
}

#[test]
fn encoders_that_say_nothing_are_synchronous_and_numbered_from_zero() {
    assert!(is_asynchronous(Some(1)));
    assert!(!is_asynchronous(Some(0)));
    assert!(!is_asynchronous(Some(2)));
    assert!(!is_asynchronous(None));
    assert_eq!(stream_ids(Some((7, 9))), (7, 9));
    assert_eq!(stream_ids(None), (0, 0));
}

#[test]
fn frames_follow_each_other_without_a_gap() {
    let mut encoder = H264Encoder::new(&config(), info(false, None));
    assert_eq!(encoder.input_id(), 3);
    assert_eq!(encoder.output_id(), 4);
    assert_eq!(encoder.sample_timing(), (0, 166_666));
    encoder.sample_wrapped();
    assert_eq!(encoder.sample_timing(), (166_666, 166_666));
    encoder.sample_wrapped();
    assert_eq!(encoder.sample_timing(), (333_332, 166_666));
    assert!(encoder.has_time_left());

    let slow = EncoderConfig { fps: 0, ..config() };
    let encoder = H264Encoder::new(&slow, info(false, None));
    assert_eq!(encoder.sample_timing().1, 10_000_000);
}

#[test]
fn samples_are_brought_unless_the_encoder_does() {
    let encoder = H264Encoder::new(&config(), info(false, None));
    assert_eq!(encoder.output_sample(), None);
    let other = TransformInfo {
        output_flags: 0x1,
        ..info(false, None)
    };
    assert_eq!(H264Encoder::new(&config(), other).output_sample(), Some(1));
    let sized = TransformInfo {
        output_flags: 0,
        sample_size: 4096,
        ..info(false, None)
    };
    assert_eq!(H264Encoder::new(&config(), sized).output_sample(), Some(4096));
}

#[test]
fn output_results_lead_to_their_actions() {
    let encoder = H264Encoder::new(&config(), info(false, None));
    assert_eq!(encoder.collect_output(OutputResult::Sample), OutputAction::ReadSample);
    assert_eq!(encoder.collect_output(OutputResult::NoSample), OutputAction::NoFrame);
    assert_eq!(encoder.collect_output(OutputResult::NeedMoreInput), OutputAction::NoFrame);
    assert_eq!(encoder.collect_output(OutputResult::StreamChange), OutputAction::AcceptNewType);
    assert_eq!(encoder.collect_output(OutputResult::Failed), OutputAction::Fail);
}

#[test]
fn key_frames_carry_the_parameter_sets() {
    let header = vec![0, 0, 0, 1, 0x67, 0x42];
    let slice = vec![0, 0, 0, 1, 0x65, 0x88];
    let mut encoder = H264Encoder::new(&config(), info(false, Some(header.clone())));

    let frame = encoder.read_sample(Some(42), Some(1), slice.clone());
    assert!(frame.keyframe);
    assert_eq!(frame.time_100ns, 42);
    assert_eq!(frame.data, [header.clone(), slice.clone()].concat());

    let frame = encoder.read_sample(None, None, slice.clone());
    assert!(!frame.keyframe);
    assert_eq!(frame.time_100ns, 0);
    assert_eq!(frame.data, slice);

    let whole = [header.clone(), slice.clone()].concat();
    assert_eq!(encoder.read_sample(None, Some(1), whole.clone()).data, whole);
    assert!(!encoder.read_sample(None, Some(2), whole.clone()).keyframe);

    encoder.accept_stream_change(None);
    assert_eq!(encoder.read_sample(None, Some(1), slice.clone()).data, whole);
    encoder.accept_stream_change(Some(Vec::new()));
    assert_eq!(encoder.read_sample(None, Some(1), slice.clone()).data, slice);
}

#[test]
fn synchronous_encoder_is_pulled_until_it_is_empty() {
    let encoder = H264Encoder::new(&config(), info(false, None));
    let mut phase = encoder.encode();
    assert_eq!(action(phase), DriveAction::SubmitFrame);
    phase = advance(phase, Outcome::Submitted);
    for _ in 0..3 {
        assert_eq!(action(phase), DriveAction::CollectOutput);
        phase = advance(phase, Outcome::Collected { frame: true });
    }
    phase = advance(phase, Outcome::Collected { frame: false });
    assert_eq!(action(phase), DriveAction::Return);

    assert_eq!(encoder.drain(), Phase::Pulling);
}

#[test]
fn asynchronous_encoder_gets_the_frame_when_it_asks() {
    let encoder = H264Encoder::new(&config(), info(true, None));
    let mut phase = encoder.encode();
    let mut submitted = 0;
    for outcome in [
        Outcome::Event(EncoderEvent::Other),
        Outcome::Event(EncoderEvent::HaveOutput),
        Outcome::Collected { frame: false },
        Outcome::Event(EncoderEvent::DrainComplete),
        Outcome::Event(EncoderEvent::NeedInput),
        Outcome::Submitted,
        Outcome::Event(EncoderEvent::NeedInput),
        Outcome::Event(EncoderEvent::HaveOutput),
        Outcome::Collected { frame: true },
    ] {
        if action(phase) == DriveAction::SubmitFrame {
            submitted += 1;
        }
        phase = advance(phase, outcome);
    }
    assert_eq!(submitted, 1);
    assert_eq!(action(phase), DriveAction::PollForEvent);
    assert_eq!(action(advance(phase, Outcome::NoEvents)), DriveAction::Return);
    assert_eq!(action(advance(phase, Outcome::Shutdown)), DriveAction::Return);
    assert_eq!(action(advance(phase, Outcome::Error)), DriveAction::Fail);

    // Before the frame was asked for, a shutdown is a failure.
    assert_eq!(action(advance(encoder.encode(), Outcome::Shutdown)), DriveAction::Fail);
}

#[test]
fn draining_waits_for_the_encoder() {
    let encoder = H264Encoder::new(&config(), info(true, None));
    let mut phase = encoder.drain();
    assert_eq!(action(phase), DriveAction::WaitForEvent);
    phase = advance(phase, Outcome::Event(EncoderEvent::HaveOutput));
    assert_eq!(action(phase), DriveAction::CollectOutput);
    phase = advance(phase, Outcome::Collected { frame: true });
    assert_eq!(action(phase), DriveAction::WaitForEvent);
    phase = advance(phase, Outcome::Event(EncoderEvent::DrainComplete));
    assert_eq!(action(phase), DriveAction::Return);
}

#[test]
fn first_encoder_that_works_is_used() {
    let mut phase = find_encoder();
    assert_eq!(search_action(phase), SearchAction::List { hardware: true });
    phase = listed(phase, 3);
    assert_eq!(search_action(phase), SearchAction::Activate { index: 0 });
    phase = entry_done(phase, false);
    assert_eq!(search_action(phase), SearchAction::Activate { index: 1 });
    phase = entry_done(phase, true);
    assert_eq!(search_action(phase), SearchAction::Release { index: 2 });
    phase = entry_done(phase, false);
    assert_eq!(search_action(phase), SearchAction::Use { hardware: true });
}

#[test]
fn software_encoders_are_tried_last() {
    let mut phase = listed(find_encoder(), 1);
    phase = entry_done(phase, false);
    assert_eq!(search_action(phase), SearchAction::List { hardware: false });
    assert_eq!(
        search_action(listed(phase, 0)),
        SearchAction::GiveUp
    );
    phase = entry_done(listed(phase, 1), true);
    assert_eq!(phase, SearchPhase::Found { hardware: false });
    assert_eq!(
        listed(find_encoder(), 0),
        SearchPhase::List { hardware: false }
    );
}
