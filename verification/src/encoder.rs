//! H.264 encoding of the warped frames: what an encoder is asked for, how it is driven, and what
//! becomes of the frames it hands back.

use crate::bytes::append_bytes;
use drive::{drain_begins, encode_begins, Phase};
use vstd::prelude::*;

pub mod drive;
pub mod search;

verus! {

/// The encoder counts time in 100 ns units.
pub const UNITS_PER_SECOND: i64 = 10_000_000;

#[derive(Debug, Clone, Copy)]
pub struct EncoderConfig {
    pub width: u32,
    pub height: u32,
    pub fps: u32,
    /// Average bitrate, in bits per second.
    pub bitrate: u32,
    /// Distance between key frames, in frames.
    pub gop: u32,
}

/// One coded frame, in Annex B form (NAL units prefixed with start codes).
pub struct EncodedFrame {
    pub data: Vec<u8>,
    pub time_100ns: i64,
    pub keyframe: bool,
}

/// A time in 100 ns units on the 90 kHz clock; there are no times before zero.
pub open spec fn on_90khz_clock(time_100ns: i64) -> int {
    if time_100ns <= 0 {
        0
    } else {
        time_100ns as int * 9 / 1000
    }
}

impl EncodedFrame {
    /// Presentation time on the 90 kHz clock transport streams are timed with.
    pub fn pts_90khz(&self) -> (pts: u64)
        requires
            self.time_100ns * 9 <= u64::MAX,
        ensures
            pts == on_90khz_clock(self.time_100ns),
            self.time_100ns >= 0 ==> pts * 1000 <= self.time_100ns * 9 < (pts + 1) * 1000,
            self.time_100ns < 0 ==> pts == 0,
    {
        let time: i64 = if self.time_100ns > 0 {
            self.time_100ns
        } else {
            0
        };
        (time as u64) * 9 / 1000
    }
}

/// Whether a NAL unit starts at `i`: a start code, then the byte that holds its type.
pub open spec fn nal_at(data: Seq<u8>, i: int) -> bool {
    0 <= i && i + 4 <= data.len() && data[i] == 0 && data[i + 1] == 0 && data[i + 2] == 1
}

/// The types of the NAL units that start before `end`, in order.
pub open spec fn nal_types_before(data: Seq<u8>, end: int) -> Seq<u8>
    decreases end,
{
    if end <= 0 {
        Seq::empty()
    } else if nal_at(data, end - 1) {
        nal_types_before(data, end - 1).push((data[end + 2] % 32) as u8)
    } else {
        nal_types_before(data, end - 1)
    }
}

/// Whether some NAL unit of an access unit is a sequence parameter set.
pub open spec fn carries_parameter_sets(data: Seq<u8>) -> bool {
    exists|i: int| #[trigger] nal_at(data, i) && data[i + 3] % 32 == 7
}

/// The types of all the NAL units of an access unit, in order.
pub open spec fn all_types(data: Seq<u8>) -> Seq<u8> {
    nal_types_before(data, data.len() as int)
}

/// NAL unit types of an Annex B access unit.
pub fn nal_types(data: &[u8]) -> (types: Vec<u8>)
    ensures
        types@ == nal_types_before(data@, data@.len() as int),
        types@ == all_types(data@),
{
    let mut types: Vec<u8> = Vec::new();
    let mut i: usize = 0;
    while i < data.len()
        invariant
            i <= data@.len(),
            types@ == nal_types_before(data@, i as int),
        decreases data@.len() - i,
    {
        if data.len() - i >= 4 && data[i] == 0 && data[i + 1] == 0 && data[i + 2] == 1 {
            let byte: u8 = data[i + 3];
            assert(byte & 0x1f == byte % 32) by (bit_vector);
            types.push(byte & 0x1f);
        }
        i = i + 1;
    }
    types
}

/// Whether an access unit already carries a sequence parameter set.
pub fn has_parameter_sets(data: &[u8]) -> (found: bool)
    ensures
        found == carries_parameter_sets(data@),
        found == (exists|i: int|
            0 <= i && i + 4 <= data@.len() && #[trigger] data@[i] == 0 && data@[i + 1] == 0
                && data@[i + 2] == 1 && data@[i + 3] % 32 == 7),
{
    proof {
        law_parameter_sets(data@);
    }
    let types: Vec<u8> = nal_types(data);
    let mut i: usize = 0;
    while i < types.len()
        invariant
            i <= types@.len(),
            types@ == nal_types_before(data@, data@.len() as int),
            forall|j: int| 0 <= j < i ==> types@[j] != 7,
        decreases types@.len() - i,
    {
        if types[i] == 7 {
            proof {
                lemma_type_has_nal(data@, data@.len() as int, i as int);
            }
            return true;
        }
        i = i + 1;
    }
    assert(!carries_parameter_sets(data@)) by {
        if carries_parameter_sets(data@) {
            let at = choose|at: int| #[trigger] nal_at(data@, at) && data@[at + 3] % 32 == 7;
            lemma_nal_has_type(data@, data@.len() as int, at);
        }
    }
    false
}

/// An access unit carries a sequence parameter set exactly where, somewhere in it, the bytes 0, 0
/// and 1 are followed by one whose low five bits are 7.
pub proof fn law_parameter_sets(data: Seq<u8>)
    ensures
        carries_parameter_sets(data) <==> exists|i: int|
            0 <= i && i + 4 <= data.len() && #[trigger] data[i] == 0 && data[i + 1] == 0 && data[i
                + 2] == 1 && data[i + 3] % 32 == 7,
        carries_parameter_sets(data) <==> exists|j: int|
            0 <= j < all_types(data).len() && #[trigger] all_types(data)[j] == 7,
{
    if carries_parameter_sets(data) {
        let i = choose|i: int| #[trigger] nal_at(data, i) && data[i + 3] % 32 == 7;
        assert(data[i] == 0);
        lemma_nal_has_type(data, data.len() as int, i);
        let j = choose|j: int|
            0 <= j < nal_types_before(data, data.len() as int).len()
                && #[trigger] nal_types_before(data, data.len() as int)[j] == data[i + 3] % 32;
        assert(all_types(data)[j] == 7);
    }
    if exists|i: int|
        0 <= i && i + 4 <= data.len() && #[trigger] data[i] == 0 && data[i + 1] == 0 && data[i + 2]
            == 1 && data[i + 3] % 32 == 7 {
        let i = choose|i: int|
            0 <= i && i + 4 <= data.len() && #[trigger] data[i] == 0 && data[i + 1] == 0 && data[i
                + 2] == 1 && data[i + 3] % 32 == 7;
        assert(nal_at(data, i));
    }
    if exists|j: int| 0 <= j < all_types(data).len() && #[trigger] all_types(data)[j] == 7 {
        let j = choose|j: int| 0 <= j < all_types(data).len() && #[trigger] all_types(data)[j] == 7;
        lemma_type_has_nal(data, data.len() as int, j);
    }
}

/// One more byte adds a type exactly where it follows a start code, and that type is its low five
/// bits; what was listed before stays. Nothing is listed of no data.
pub proof fn law_types_grow(data: Seq<u8>, byte: u8)
    ensures
        all_types(Seq::empty()).len() == 0,
        ({
            let n = data.len() as int;
            if n >= 3 && data[n - 3] == 0 && data[n - 2] == 0 && data[n - 1] == 1 {
                all_types(data.push(byte)) == all_types(data).push((byte % 32) as u8)
            } else {
                all_types(data.push(byte)) == all_types(data)
            }
        }),
{
    let n = data.len() as int;
    let more = data.push(byte);
    reveal_with_fuel(nal_types_before, 5);
    if n >= 3 {
        lemma_types_of_prefix(data, byte, n - 3);
        assert(!nal_at(more, n - 2) && !nal_at(more, n - 1) && !nal_at(more, n));
        assert(!nal_at(data, n - 3) && !nal_at(data, n - 2) && !nal_at(data, n - 1));
        assert(nal_types_before(more, n + 1) == nal_types_before(more, n - 2));
        assert(nal_types_before(data, n) == nal_types_before(data, n - 3));
    } else {
        lemma_no_types(more, n + 1);
        lemma_no_types(data, n);
    }
}

proof fn lemma_no_types(data: Seq<u8>, end: int)
    requires
        data.len() < 4,
    ensures
        nal_types_before(data, end) == Seq::<u8>::empty(),
    decreases end,
{
    if end > 0 {
        lemma_no_types(data, end - 1);
    }
}

proof fn lemma_types_of_prefix(data: Seq<u8>, byte: u8, end: int)
    requires
        end + 3 <= data.len(),
    ensures
        nal_types_before(data.push(byte), end) == nal_types_before(data, end),
    decreases end,
{
    if end > 0 {
        lemma_types_of_prefix(data, byte, end - 1);
        assert(nal_at(data.push(byte), end - 1) == nal_at(data, end - 1));
    }
}

/// Every listed type is that of some NAL unit.
proof fn lemma_type_has_nal(data: Seq<u8>, end: int, j: int)
    requires
        0 <= j < nal_types_before(data, end).len(),
    ensures
        exists|i: int|
            #[trigger] nal_at(data, i) && i < end && nal_types_before(data, end)[j] == data[i + 3]
                % 32,
    decreases end,
{
    if end > 0 {
        if nal_at(data, end - 1) && j == nal_types_before(data, end - 1).len() {
            assert(nal_at(data, end - 1) && nal_types_before(data, end)[j] == data[end - 1 + 3]
                % 32);
        } else {
            lemma_type_has_nal(data, end - 1, j);
        }
    }
}

/// The type of every NAL unit is listed.
proof fn lemma_nal_has_type(data: Seq<u8>, end: int, i: int)
    requires
        nal_at(data, i),
        i < end,
    ensures
        exists|j: int|
            0 <= j < nal_types_before(data, end).len() && #[trigger] nal_types_before(data, end)[j]
                == data[i + 3] % 32,
    decreases end,
{
    let types = nal_types_before(data, end);
    if i == end - 1 {
        assert(types[types.len() - 1] == data[i + 3] % 32);
    } else {
        lemma_nal_has_type(data, end - 1, i);
        let j = choose|j: int|
            0 <= j < nal_types_before(data, end - 1).len() && #[trigger] nal_types_before(
                data,
                end - 1,
            )[j] == data[i + 3] % 32;
        assert(types[j] == data[i + 3] % 32);
    }
}

/// Pairs of 32 bit values, sizes and ratios, are stored in a single 64 bit attribute.
pub fn pack(high: u32, low: u32) -> (packed: u64)
    ensures
        packed == packed_pair(high, low),
{
    let packed: u64 = ((high as u64) << 32u64) | low as u64;
    assert(packed == (high as u64) * 0x1_0000_0000 + (low as u64)) by (bit_vector)
        requires
            packed == ((high as u64) << 32u64) | low as u64,
    ;
    packed
}

pub open spec fn packed_pair(high: u32, low: u32) -> int {
    high as int * 0x1_0000_0000 + low as int
}

/// Both values of a pair can be read back.
pub proof fn law_pack_round_trip(high: u32, low: u32)
    ensures
        packed_pair(high, low) / 0x1_0000_0000 == high,
        packed_pair(high, low) % 0x1_0000_0000 == low as int,
        0 <= packed_pair(high, low) <= u64::MAX,
{
}

/// One attribute of a media type.
#[derive(Debug, Clone, Copy, PartialEq, Eq)]
pub enum MediaAttribute {
    MajorTypeVideo,
    SubtypeH264,
    SubtypeNv12,
    AverageBitrate(u32),
    FrameSize(u64),
    FrameRate(u64),
    PixelAspectRatio(u64),
    InterlaceProgressive,
    ProfileHigh,
}

/// The attributes of the output type.
pub open spec fn output_attributes(config: EncoderConfig) -> Seq<MediaAttribute> {
    seq![
        MediaAttribute::MajorTypeVideo,
        MediaAttribute::SubtypeH264,
        MediaAttribute::AverageBitrate(config.bitrate),
        MediaAttribute::FrameSize(packed_pair(config.width, config.height) as u64),
        MediaAttribute::FrameRate(packed_pair(config.fps, 1) as u64),
        MediaAttribute::PixelAspectRatio(packed_pair(1, 1) as u64),
        MediaAttribute::InterlaceProgressive,
        MediaAttribute::ProfileHigh,
    ]
}

/// The attributes of the input type.
pub open spec fn input_attributes(config: EncoderConfig) -> Seq<MediaAttribute> {
    seq![
        MediaAttribute::MajorTypeVideo,
        MediaAttribute::SubtypeNv12,
        MediaAttribute::FrameSize(packed_pair(config.width, config.height) as u64),
        MediaAttribute::FrameRate(packed_pair(config.fps, 1) as u64),
        MediaAttribute::PixelAspectRatio(packed_pair(1, 1) as u64),
        MediaAttribute::InterlaceProgressive,
    ]
}

/// The wishes of the codec.
pub open spec fn wishes(config: EncoderConfig) -> Seq<CodecSetting> {
    seq![
        CodecSetting::ConstantBitrate,
        CodecSetting::MeanBitrate(config.bitrate),
        CodecSetting::GopSize(config.gop),
        CodecSetting::LowLatency,
    ]
}

/// An encoder reads off its types what it was configured for: H.264 video of the high profile with
/// the bitrate, made of progressive NV12 frames, and on both sides the width, the height and the
/// rate in whole frames per second, with square pixels. No attribute is set twice.
pub proof fn law_types_say_the_configuration(config: EncoderConfig)
    ensures
        ({
            let output = output_attributes(config);
            let input = input_attributes(config);
            &&& output.len() == 8
            &&& output[0] is MajorTypeVideo && output[1] is SubtypeH264
            &&& output[2] == MediaAttribute::AverageBitrate(config.bitrate)
            &&& output[3] matches MediaAttribute::FrameSize(size) && size as int / 0x1_0000_0000
                == config.width && size as int % 0x1_0000_0000 == config.height
            &&& output[4] matches MediaAttribute::FrameRate(rate) && rate as int / 0x1_0000_0000
                == config.fps && rate as int % 0x1_0000_0000 == 1
            &&& output[5] matches MediaAttribute::PixelAspectRatio(ratio) && ratio as int
                / 0x1_0000_0000 == 1 && ratio as int % 0x1_0000_0000 == 1
            &&& output[6] is InterlaceProgressive && output[7] is ProfileHigh
            &&& input.len() == 6
            &&& input[0] is MajorTypeVideo && input[1] is SubtypeNv12
            &&& input[2] == output[3] && input[3] == output[4] && input[4] == output[5]
            &&& input[5] is InterlaceProgressive
        }),
{
}

/// The codec is asked for a constant bitrate, the one configured, for the key frame distance
/// configured, and for low latency.
pub proof fn law_wishes_say_the_configuration(config: EncoderConfig)
    ensures
        wishes(config).len() == 4,
        wishes(config)[0] is ConstantBitrate,
        wishes(config)[1] == CodecSetting::MeanBitrate(config.bitrate),
        wishes(config)[2] == CodecSetting::GopSize(config.gop),
        wishes(config)[3] is LowLatency,
{
}

/// The attributes of the encoder's output type, in the order in which they are set.
pub fn output_type(config: &EncoderConfig) -> (attributes: Vec<MediaAttribute>)
    ensures
        attributes@ == seq![
            MediaAttribute::MajorTypeVideo,
            MediaAttribute::SubtypeH264,
            MediaAttribute::AverageBitrate(config.bitrate),
            MediaAttribute::FrameSize(packed_pair(config.width, config.height) as u64),
            MediaAttribute::FrameRate(packed_pair(config.fps, 1) as u64),
            MediaAttribute::PixelAspectRatio(packed_pair(1, 1) as u64),
            MediaAttribute::InterlaceProgressive,
            MediaAttribute::ProfileHigh,
        ],
        attributes@ == output_attributes(*config),
{
    let attributes: Vec<MediaAttribute> = vec![
        MediaAttribute::MajorTypeVideo,
        MediaAttribute::SubtypeH264,
        MediaAttribute::AverageBitrate(config.bitrate),
        MediaAttribute::FrameSize(pack(config.width, config.height)),
        MediaAttribute::FrameRate(pack(config.fps, 1)),
        MediaAttribute::PixelAspectRatio(pack(1, 1)),
        MediaAttribute::InterlaceProgressive,
        MediaAttribute::ProfileHigh,
    ];
    assert(attributes@ =~= seq![
        MediaAttribute::MajorTypeVideo,
        MediaAttribute::SubtypeH264,
        MediaAttribute::AverageBitrate(config.bitrate),
        MediaAttribute::FrameSize(packed_pair(config.width, config.height) as u64),
        MediaAttribute::FrameRate(packed_pair(config.fps, 1) as u64),
        MediaAttribute::PixelAspectRatio(packed_pair(1, 1) as u64),
        MediaAttribute::InterlaceProgressive,
        MediaAttribute::ProfileHigh,
    ]);
    attributes
}

/// The attributes of the encoder's input type, in the order in which they are set. Encoders want
/// their output type first.
pub fn input_type(config: &EncoderConfig) -> (attributes: Vec<MediaAttribute>)
    ensures
        attributes@ == seq![
            MediaAttribute::MajorTypeVideo,
            MediaAttribute::SubtypeNv12,
            MediaAttribute::FrameSize(packed_pair(config.width, config.height) as u64),
            MediaAttribute::FrameRate(packed_pair(config.fps, 1) as u64),
            MediaAttribute::PixelAspectRatio(packed_pair(1, 1) as u64),
            MediaAttribute::InterlaceProgressive,
        ],
        attributes@ == input_attributes(*config),
{
    let attributes: Vec<MediaAttribute> = vec![
        MediaAttribute::MajorTypeVideo,
        MediaAttribute::SubtypeNv12,
        MediaAttribute::FrameSize(pack(config.width, config.height)),
        MediaAttribute::FrameRate(pack(config.fps, 1)),
        MediaAttribute::PixelAspectRatio(pack(1, 1)),
        MediaAttribute::InterlaceProgressive,
    ];
    assert(attributes@ =~= seq![
        MediaAttribute::MajorTypeVideo,
        MediaAttribute::SubtypeNv12,
        MediaAttribute::FrameSize(packed_pair(config.width, config.height) as u64),
        MediaAttribute::FrameRate(packed_pair(config.fps, 1) as u64),
        MediaAttribute::PixelAspectRatio(packed_pair(1, 1) as u64),
        MediaAttribute::InterlaceProgressive,
    ]);
    attributes
}

/// One wish of the codec. Encoders may not support all of them, and the defaults are reasonable,
/// so none of them is essential.
#[derive(Debug, Clone, Copy, PartialEq, Eq)]
pub enum CodecSetting {
    ConstantBitrate,
    MeanBitrate(u32),
    GopSize(u32),
    LowLatency,
}

/// Rate control, key frame distance and latency.
pub fn codec_settings(config: &EncoderConfig) -> (settings: Vec<CodecSetting>)
    ensures
        settings@ == seq![
            CodecSetting::ConstantBitrate,
            CodecSetting::MeanBitrate(config.bitrate),
            CodecSetting::GopSize(config.gop),
            CodecSetting::LowLatency,
        ],
        settings@ == wishes(*config),
{
    let settings: Vec<CodecSetting> = vec![
        CodecSetting::ConstantBitrate,
        CodecSetting::MeanBitrate(config.bitrate),
        CodecSetting::GopSize(config.gop),
        CodecSetting::LowLatency,
    ];
    assert(settings@ =~= seq![
        CodecSetting::ConstantBitrate,
        CodecSetting::MeanBitrate(config.bitrate),
        CodecSetting::GopSize(config.gop),
        CodecSetting::LowLatency,
    ]);
    settings
}

/// Whether an attribute is there and is one.
pub open spec fn says_one(attribute: Option<u32>) -> bool {
    attribute == Some(1u32)
}

/// The stream numbers to use.
pub open spec fn ids_of(reported: Option<(u32, u32)>) -> (u32, u32) {
    match reported {
        Some(ids) => ids,
        None => (0u32, 0u32),
    }
}

/// One is the only value that counts as yes, and an attribute that is not there counts as no.
/// Reported stream numbers are used as they are, whatever they are.
pub proof fn law_what_encoders_say(value: u32, input: u32, output: u32)
    ensures
        says_one(Some(value)) <==> value - 1 == 0,
        !says_one(None),
        ids_of(Some((input, output))) == (input, output),
        ids_of(None) == (0u32, 0u32),
{
}

/// Whether an encoder asks for input and announces output through events. Encoders that say
/// nothing of it do not.
pub fn is_asynchronous(attribute: Option<u32>) -> (asynchronous: bool)
    ensures
        asynchronous == (attribute == Some(1u32)),
        asynchronous == says_one(attribute),
{
    match attribute {
        Some(value) => value == 1,
        None => false,
    }
}

/// The stream numbers of an encoder. Those that report none are simply numbered from zero.
pub fn stream_ids(reported: Option<(u32, u32)>) -> (ids: (u32, u32))
    ensures
        ids == (match reported {
            Some(ids) => ids,
            None => (0u32, 0u32),
        }),
        ids == ids_of(reported),
{
    match reported {
        Some(ids) => ids,
        None => (0, 0),
    }
}

/// What an encoder tells about itself once it is configured.
pub struct TransformInfo {
    pub asynchronous: bool,
    pub input_id: u32,
    pub output_id: u32,
    /// The flags of its output stream.
    pub output_flags: u32,
    /// The flag of encoders that bring the samples they write to.
    pub provides_samples_flag: u32,
    /// The size of the samples it writes.
    pub sample_size: u32,
    /// The parameter sets, where it sends them out of band.
    pub sequence_header: Option<Vec<u8>>,
}

/// How the attempt to pull a coded frame out of the encoder went.
#[derive(Debug, Clone, Copy, PartialEq, Eq)]
pub enum OutputResult {
    /// It went well, and there is a sample.
    Sample,
    /// It went well, and there is no sample.
    NoSample,
    NeedMoreInput,
    /// The encoder settled on a different output type.
    StreamChange,
    Failed,
}

/// What to do about it.
#[derive(Debug, Clone, Copy, PartialEq, Eq)]
pub enum OutputAction {
    ReadSample,
    /// No frame this time.
    NoFrame,
    /// Accept the new output type and pick up its sequence header; no frame this time.
    AcceptNewType,
    Fail,
}

pub open spec fn output_action(result: OutputResult) -> OutputAction {
    match result {
        OutputResult::Sample => OutputAction::ReadSample,
        OutputResult::NoSample => OutputAction::NoFrame,
        OutputResult::NeedMoreInput => OutputAction::NoFrame,
        OutputResult::StreamChange => OutputAction::AcceptNewType,
        OutputResult::Failed => OutputAction::Fail,
    }
}

/// The data of a coded frame. Some encoders only send the parameter sets out of band, but a
/// player joining a live stream needs them before every key frame.
pub open spec fn frame_data(header: Seq<u8>, data: Seq<u8>, keyframe: bool) -> Seq<u8> {
    if keyframe && !carries_parameter_sets(data) {
        header + data
    } else {
        data
    }
}

/// How long a frame lasts, in 100 ns units. A rate of zero counts as one frame per second.
pub open spec fn frame_duration(fps: u32) -> int {
    UNITS_PER_SECOND as int / (if fps == 0 {
        1
    } else {
        fps as int
    })
}

/// What is known of a running encoder.
pub struct EncoderState {
    pub asynchronous: bool,
    pub input_id: u32,
    pub output_id: u32,
    pub provides_samples: bool,
    pub sample_size: int,
    pub sequence_header: Seq<u8>,
    pub frame_duration: int,
    pub frame_index: int,
}

/// An encoder that has just been set up.
pub open spec fn started(config: EncoderConfig, info: TransformInfo) -> EncoderState {
    EncoderState {
        asynchronous: info.asynchronous,
        input_id: info.input_id,
        output_id: info.output_id,
        provides_samples: info.output_flags & info.provides_samples_flag != 0,
        sample_size: if info.sample_size == 0 {
            1
        } else {
            info.sample_size as int
        },
        sequence_header: match info.sequence_header {
            Some(header) => header@,
            None => Seq::empty(),
        },
        frame_duration: frame_duration(config.fps),
        frame_index: 0,
    }
}

/// When the next frame is presented, and for how long.
pub open spec fn timing_of(state: EncoderState) -> (int, int) {
    (state.frame_index * state.frame_duration, state.frame_duration)
}

/// An encoder once one more frame was wrapped for it.
pub open spec fn wrapped(state: EncoderState) -> EncoderState {
    EncoderState { frame_index: state.frame_index + 1, ..state }
}

/// An encoder once `n` more frames were wrapped for it.
pub open spec fn wrapped_times(state: EncoderState, n: nat) -> EncoderState
    decreases n,
{
    if n == 0 {
        state
    } else {
        wrapped(wrapped_times(state, (n - 1) as nat))
    }
}

/// An encoder once a new output type was accepted.
pub open spec fn with_new_header(state: EncoderState, header: Option<Vec<u8>>) -> EncoderState {
    EncoderState {
        sequence_header: match header {
            Some(header) => header@,
            None => state.sequence_header,
        },
        ..state
    }
}

/// The size of the sample to bring for the output, if any.
pub open spec fn sample_to_bring(state: EncoderState) -> Option<int> {
    if state.provides_samples {
        None
    } else {
        Some(state.sample_size)
    }
}

/// The time and the key frame flag of a sample.
pub open spec fn sample_attributes(time: Option<i64>, clean_point: Option<u32>) -> (i64, bool) {
    (
        match time {
            Some(time) => time,
            None => 0,
        },
        says_one(clean_point),
    )
}

/// From the start, the `n`th frame is presented `n` frame durations into the stream, each frame
/// lasts until the next, and wrapping frames changes nothing else of the encoder. A configured
/// encoder keeps what it told about itself.
pub proof fn law_frames_follow_from_the_start(config: EncoderConfig, info: TransformInfo, n: nat)
    ensures
        ({
            let start = started(config, info);
            let now = wrapped_times(start, n);
            let next = wrapped_times(start, n + 1);
            &&& timing_of(now).0 == n * timing_of(start).1
            &&& timing_of(now).1 == timing_of(start).1
            &&& timing_of(next).0 == timing_of(now).0 + timing_of(now).1
            &&& config.fps > 0 ==> config.fps * timing_of(now).1 <= 10_000_000 < config.fps * (
            timing_of(now).1 + 1)
            &&& now.asynchronous == info.asynchronous
            &&& now.input_id == info.input_id && now.output_id == info.output_id
            &&& now.provides_samples <==> info.output_flags & info.provides_samples_flag != 0
            &&& now.sample_size >= 1
            &&& info.sample_size > 0 ==> now.sample_size == info.sample_size
            &&& info.sample_size == 0 ==> now.sample_size == 1
            &&& info.sequence_header matches Some(header) ==> now.sequence_header == header@
            &&& info.sequence_header is None ==> now.sequence_header.len() == 0
        }),
    decreases n,
{
    law_frame_duration(config.fps);
    let start = started(config, info);
    let now = wrapped_times(start, n);
    if n > 0 {
        law_frames_follow_from_the_start(config, info, (n - 1) as nat);
    }
    assert(wrapped_times(start, n + 1) == wrapped(now));
    lemma_wrapped(start, n);
    assert((n + 1) * start.frame_duration == n * start.frame_duration + start.frame_duration)
        by (nonlinear_arith);
}

proof fn lemma_wrapped(state: EncoderState, n: nat)
    ensures
        wrapped_times(state, n) == (EncoderState { frame_index: state.frame_index + n, ..state }),
    decreases n,
{
    if n > 0 {
        lemma_wrapped(state, (n - 1) as nat);
    }
}

/// A new output type brings its sequence header, whole, and nothing else; one without a header
/// leaves the old one. Samples are brought, of the size the encoder told, exactly for encoders that
/// do not bring their own. A sample without a time is one at zero, and only a clean point makes a
/// key frame.
pub proof fn law_samples(
    state: EncoderState,
    header: Vec<u8>,
    time: i64,
    clean_point: Option<u32>,
)
    ensures
        with_new_header(state, Some(header)).sequence_header == header@,
        with_new_header(state, None) == state,
        with_new_header(state, Some(header)).frame_index == state.frame_index,
        with_new_header(state, Some(header)).frame_duration == state.frame_duration,
        sample_to_bring(state) is None <==> state.provides_samples,
        !state.provides_samples ==> sample_to_bring(state) == Some(state.sample_size),
        sample_attributes(Some(time), clean_point).0 == time,
        sample_attributes(None, clean_point).0 == 0,
        sample_attributes(Some(time), clean_point).1 <==> clean_point == Some(1u32),
        sample_attributes(None, clean_point).1 <==> clean_point == Some(1u32),
{
}

pub struct H264Encoder {
    asynchronous: bool,
    input_id: u32,
    output_id: u32,
    provides_samples: bool,
    output_buffer_size: u32,
    sequence_header: Vec<u8>,
    frame_duration: i64,
    frame_index: i64,
}

impl View for H264Encoder {
    type V = EncoderState;

    closed spec fn view(&self) -> EncoderState {
        EncoderState {
            asynchronous: self.asynchronous,
            input_id: self.input_id,
            output_id: self.output_id,
            provides_samples: self.provides_samples,
            sample_size: self.output_buffer_size as int,
            sequence_header: self.sequence_header@,
            frame_duration: self.frame_duration as int,
            frame_index: self.frame_index as int,
        }
    }
}

impl H264Encoder {
    pub fn new(config: &EncoderConfig, info: TransformInfo) -> (encoder: Self)
        ensures
            encoder@ == (EncoderState {
                asynchronous: info.asynchronous,
                input_id: info.input_id,
                output_id: info.output_id,
                provides_samples: info.output_flags & info.provides_samples_flag != 0,
                sample_size: if info.sample_size == 0 {
                    1
                } else {
                    info.sample_size as int
                },
                sequence_header: match info.sequence_header {
                    Some(header) => header@,
                    None => Seq::empty(),
                },
                frame_duration: frame_duration(config.fps),
                frame_index: 0,
            }),
            encoder@ == started(*config, info),
    {
        let fps: u32 = if config.fps == 0 {
            1
        } else {
            config.fps
        };
        H264Encoder {
            asynchronous: info.asynchronous,
            input_id: info.input_id,
            output_id: info.output_id,
            provides_samples: info.output_flags & info.provides_samples_flag != 0,
            output_buffer_size: if info.sample_size == 0 {
                1
            } else {
                info.sample_size
            },
            sequence_header: match info.sequence_header {
                Some(header) => header,
                None => Vec::new(),
            },
            frame_duration: UNITS_PER_SECOND / fps as i64,
            frame_index: 0,
        }
    }

    pub fn input_id(&self) -> (id: u32)
        ensures
            id == self@.input_id,
    {
        self.input_id
    }

    pub fn output_id(&self) -> (id: u32)
        ensures
            id == self@.output_id,
    {
        self.output_id
    }

    /// Whether the next frame can still be timed.
    pub fn has_time_left(&self) -> (left: bool)
        ensures
            left == (self@.frame_index < i64::MAX && self@.frame_index * self@.frame_duration
                <= i64::MAX),
    {
        proof {
            use_type_invariant(self);
            assert(0 <= self.frame_index * self.frame_duration) by (nonlinear_arith)
                requires
                    self.frame_index >= 0,
                    self.frame_duration >= 0,
            ;
        }
        self.frame_index < i64::MAX && self.frame_index.checked_mul(self.frame_duration).is_some()
    }

    /// When the next frame is presented and for how long, in 100 ns units.
    pub fn sample_timing(&self) -> (timing: (i64, i64))
        requires
            self@.frame_index * self@.frame_duration <= i64::MAX,
        ensures
            timing.0 == self@.frame_index * self@.frame_duration,
            timing.1 == self@.frame_duration,
            timing.0 == timing_of(self@).0 && timing.1 == timing_of(self@).1,
    {
        proof {
            use_type_invariant(self);
            assert(0 <= self.frame_index * self.frame_duration) by (nonlinear_arith)
                requires
                    self.frame_index >= 0,
                    self.frame_duration >= 0,
            ;
        }
        (self.frame_index * self.frame_duration, self.frame_duration)
    }

    /// A frame was wrapped for the encoder; the next one comes after it.
    pub fn sample_wrapped(&mut self)
        requires
            old(self)@.frame_index < i64::MAX,
        ensures
            final(self)@ == (EncoderState {
                frame_index: old(self)@.frame_index + 1,
                ..old(self)@
            }),
            final(self)@ == wrapped(old(self)@),
    {
        proof {
            use_type_invariant(&*self);
        }
        self.frame_index = self.frame_index + 1;
    }

    /// How the encoding of one frame begins, once it was wrapped.
    pub fn encode(&self) -> (phase: Phase)
        ensures
            phase == encode_begins(self@.asynchronous),
    {
        if self.asynchronous {
            Phase::Feeding
        } else {
            Phase::Pushing
        }
    }

    /// How the flushing of the frames that the encoder is still holding begins, at the end of a
    /// stream, once it was told to drain.
    pub fn drain(&self) -> (phase: Phase)
        ensures
            phase == drain_begins(self@.asynchronous),
    {
        if self.asynchronous {
            Phase::Draining { blocking: true }
        } else {
            Phase::Pulling
        }
    }

    /// The size of the sample that has to be brought for the encoder's output, unless it brings
    /// its own.
    pub fn output_sample(&self) -> (size: Option<u32>)
        ensures
            self@.provides_samples ==> size is None,
            !self@.provides_samples ==> size is Some && size->0 == self@.sample_size,
            match size {
                Some(size) => sample_to_bring(self@) == Some(size as int),
                None => sample_to_bring(self@) is None,
            },
    {
        if self.provides_samples {
            None
        } else {
            Some(self.output_buffer_size)
        }
    }

    /// What to do after pulling a coded frame out of the encoder.
    pub fn collect_output(&self, result: OutputResult) -> (action: OutputAction)
        ensures
            action == output_action(result),
    {
        match result {
            OutputResult::Sample => OutputAction::ReadSample,
            OutputResult::NoSample => OutputAction::NoFrame,
            OutputResult::NeedMoreInput => OutputAction::NoFrame,
            OutputResult::StreamChange => OutputAction::AcceptNewType,
            OutputResult::Failed => OutputAction::Fail,
        }
    }

    /// Picks up the sequence header of a new output type, where it has one.
    pub fn accept_stream_change(&mut self, header: Option<Vec<u8>>)
        ensures
            final(self)@ == (EncoderState {
                sequence_header: match header {
                    Some(header) => header@,
                    None => old(self)@.sequence_header,
                },
                ..old(self)@
            }),
            final(self)@ == with_new_header(old(self)@, header),
    {
        proof {
            use_type_invariant(&*self);
        }
        match header {
            Some(header) => {
                self.sequence_header = header;
            },
            None => {},
        }
    }

    /// Makes a coded frame of a sample: its time and its clean point attribute, where it has
    /// them, and its bytes.
    pub fn read_sample(
        &self,
        time: Option<i64>,
        clean_point: Option<u32>,
        data: Vec<u8>,
    ) -> (frame: EncodedFrame)
        ensures
            frame.time_100ns == (match time {
                Some(time) => time,
                None => 0,
            }),
            frame.keyframe == (clean_point == Some(1u32)),
            frame.data@ == frame_data(self@.sequence_header, data@, frame.keyframe),
            (frame.time_100ns, frame.keyframe) == sample_attributes(time, clean_point),
            frame.data@.len() >= data@.len(),
            frame.data@.skip(frame.data@.len() - data@.len()) == data@,
    {
        let time_100ns: i64 = match time {
            Some(time) => time,
            None => 0,
        };
        let keyframe: bool = match clean_point {
            Some(value) => value == 1,
            None => false,
        };
        if keyframe && self.sequence_header.len() > 0 && !has_parameter_sets(data.as_slice()) {
            let mut with_header: Vec<u8> = Vec::new();
            append_bytes(&mut with_header, self.sequence_header.as_slice());
            append_bytes(&mut with_header, data.as_slice());
            assert(with_header@ =~= self.sequence_header@ + data@);
            EncodedFrame { data: with_header, time_100ns, keyframe }
        } else {
            assert(self.sequence_header@.len() == 0 ==> self.sequence_header@ + data@ =~= data@);
            EncodedFrame { data, time_100ns, keyframe }
        }
    }

    #[verifier::type_invariant]
    closed spec fn times_are_whole(self) -> bool {
        self.frame_index >= 0 && self.frame_duration >= 0
    }
}

/// Where the parameter sets are known, every key frame that comes out carries them.
pub proof fn law_key_frames_carry_parameter_sets(header: Seq<u8>, data: Seq<u8>)
    requires
        carries_parameter_sets(header),
    ensures
        carries_parameter_sets(frame_data(header, data, true)),
{
    if !carries_parameter_sets(data) {
        let i = choose|i: int| #[trigger] nal_at(header, i) && header[i + 3] % 32 == 7;
        assert(nal_at(header + data, i) && (header + data)[i + 3] % 32 == 7);
    }
}

/// Frames that are not key frames come out as they were coded, and so do key frames that carry
/// their parameter sets already.
pub proof fn law_other_frames_are_kept(header: Seq<u8>, data: Seq<u8>, keyframe: bool)
    requires
        !keyframe || carries_parameter_sets(data),
    ensures
        frame_data(header, data, keyframe) == data,
{
}

/// The data of a coded frame is the sample's, all of it, with nothing in front of it but the
/// sequence header, all of that. The header is there for a key frame that has no parameter set of
/// its own, and for no other frame.
pub proof fn law_frames_keep_their_data(header: Seq<u8>, data: Seq<u8>, keyframe: bool)
    ensures
        ({
            let out = frame_data(header, data, keyframe);
            let lead = out.len() - data.len();
            &&& lead >= 0
            &&& forall|i: int| 0 <= i < data.len() ==> #[trigger] data[i] == out[lead + i]
            &&& lead == 0 || out.take(lead) == header
            &&& keyframe && !(exists|i: int|
                0 <= i && i + 4 <= data.len() && #[trigger] data[i] == 0 && data[i + 1] == 0
                    && data[i + 2] == 1 && data[i + 3] % 32 == 7) ==> lead == header.len()
            &&& !keyframe || (exists|i: int|
                0 <= i && i + 4 <= data.len() && #[trigger] data[i] == 0 && data[i + 1] == 0
                    && data[i + 2] == 1 && data[i + 3] % 32 == 7) ==> lead == 0
        }),
{
    law_parameter_sets(data);
    let out = frame_data(header, data, keyframe);
    let lead = out.len() - data.len();
    if keyframe && !carries_parameter_sets(data) {
        assert(out.take(lead) =~= header);
    }
}

/// A presentation time is the number of whole ticks of the 90 kHz clock in the frame's time, which
/// counts in 100 ns. A second later it is 90000 ticks more, and times before zero count as zero.
pub proof fn law_ticks(time: i64, later: i64)
    ensures
        time >= 0 ==> on_90khz_clock(time) * 1000 <= time * 9 < (on_90khz_clock(time) + 1) * 1000,
        time <= 0 ==> on_90khz_clock(time) == 0,
        time >= 0 && later == time + 10_000_000 ==> on_90khz_clock(later) == on_90khz_clock(time)
            + 90_000,
{
}

/// Later frames never get an earlier presentation time, and a second is 90000 ticks.
pub proof fn law_pts_follows_time(earlier: i64, later: i64)
    requires
        earlier <= later,
    ensures
        on_90khz_clock(earlier) <= on_90khz_clock(later),
        on_90khz_clock(UNITS_PER_SECOND) == 90_000,
{
}

/// A frame lasts as long as it can for the rate: that many of them fit in a second, and longer
/// ones would not. A rate of zero counts as one.
pub proof fn law_frame_duration(fps: u32)
    ensures
        fps > 0 ==> fps * frame_duration(fps) <= 10_000_000 < fps * (frame_duration(fps) + 1),
        fps == 0 ==> frame_duration(fps) == 10_000_000,
{
    if fps > 0 {
        let n = fps as int;
        let d = frame_duration(fps);
        vstd::arithmetic::div_mod::lemma_fundamental_div_mod(10_000_000, n);
        assert(n * (d + 1) == n * d + n) by (nonlinear_arith);
    }
}

/// A coded frame is read where there is a sample and nothing went wrong, and only there. A new
/// output type is accepted where the encoder has one, and the call fails where it failed in any
/// other way; otherwise there is just no frame.
pub proof fn law_output_is_read(result: OutputResult)
    ensures
        output_action(result) is ReadSample <==> result is Sample,
        output_action(result) is AcceptNewType <==> result is StreamChange,
        output_action(result) is Fail <==> result is Failed,
        output_action(result) is NoFrame <==> result is NoSample || result is NeedMoreInput,
{
}

/// The presentation times of successive frames leave no gap: each frame lasts until the next
/// one, and as many frames as asked for fit in a second.
pub proof fn law_frames_abut(fps: u32, index: int)
    ensures
        index * frame_duration(fps) + frame_duration(fps) == (index + 1) * frame_duration(fps),
        fps * frame_duration(fps) <= UNITS_PER_SECOND,
{
    let duration = frame_duration(fps);
    assert(index * duration + duration == (index + 1) * duration) by (nonlinear_arith);
    if fps > 0 {
        assert(fps * duration <= 10_000_000) by (nonlinear_arith)
            requires
                fps > 0,
                duration == 10_000_000int / fps as int,
        ;
    }
}

} // verus!
