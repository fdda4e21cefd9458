//! What is captured: the targets, the frames that come from one, and the newest of them.

use crate::text::{append_chars, chars_of};
use vstd::prelude::*;

verus! {

/// The pixels of a frame, as the capture hands them over.
pub struct PixelBuffer {
    pub width: i32,
    pub height: i32,
    pub data: Vec<u8>,
}

/// A frame, as the capture hands it over.
pub enum RawFrame {
    Bgra(PixelBuffer),
    Bgr0(PixelBuffer),
    Rgbx(PixelBuffer),
    Rgb(PixelBuffer),
    /// Any other format, such as YUV.
    Other,
}

/// A BGRA frame with a tightly packed `width * height * 4` buffer.
pub struct CapturedFrame {
    pub width: u32,
    pub height: u32,
    pub bgra: Vec<u8>,
    pub sequence: u64,
}

/// Whether the screen can be captured.
#[derive(Debug, Clone, Copy, PartialEq, Eq)]
pub enum CaptureAccess {
    Ready,
    /// The user has to be asked for permission.
    AskPermission,
    Unsupported,
    Denied,
}

/// Whether there is access to the screen.
pub open spec fn access_of(
    supported: bool,
    has_permission: bool,
    granted: Option<bool>,
) -> CaptureAccess {
    if !supported {
        CaptureAccess::Unsupported
    } else if has_permission || granted == Some(true) {
        CaptureAccess::Ready
    } else if granted is None {
        CaptureAccess::AskPermission
    } else {
        CaptureAccess::Denied
    }
}

/// Capturing is only ready on a system that supports it and with permission, had or granted; the
/// user is only asked where permission is missing and was not asked for yet, and only a user that
/// said no denies it.
pub proof fn law_access(supported: bool, has_permission: bool, granted: Option<bool>)
    ensures
        access_of(supported, has_permission, granted) is Ready <==> supported && (has_permission
            || granted == Some(true)),
        access_of(supported, has_permission, granted) is AskPermission <==> supported
            && !has_permission && granted is None,
        access_of(supported, has_permission, granted) is Denied <==> supported && !has_permission
            && granted == Some(false),
        access_of(supported, has_permission, granted) is Unsupported <==> !supported,
{
    if let Some(said) = granted {
        if !said {
            assert(granted == Some(false));
        }
    }
}

/// Decides on access to the screen. `granted` is what the user said when asked for permission,
/// `None` before that.
pub fn capture_access(
    supported: bool,
    has_permission: bool,
    granted: Option<bool>,
) -> (access: CaptureAccess)
    ensures
        access == (if !supported {
            CaptureAccess::Unsupported
        } else if has_permission || granted == Some(true) {
            CaptureAccess::Ready
        } else if granted is None {
            CaptureAccess::AskPermission
        } else {
            CaptureAccess::Denied
        }),
        access == access_of(supported, has_permission, granted),
{
    if !supported {
        return CaptureAccess::Unsupported;
    }
    if has_permission {
        return CaptureAccess::Ready;
    }
    match granted {
        None => CaptureAccess::AskPermission,
        Some(granted) => if granted {
            CaptureAccess::Ready
        } else {
            CaptureAccess::Denied
        },
    }
}

/// What becomes of a frame.
pub enum CaptureStep {
    /// It is the newest frame now.
    Publish(CapturedFrame),
    /// It is of no use.
    Skip,
    /// There are no more frames.
    Stop,
}

/// Whether a frame can be shown: a BGRA frame that is not empty.
pub open spec fn is_usable(frame: RawFrame) -> bool {
    frame matches RawFrame::Bgra(pixels) && pixels.width > 0 && pixels.height > 0
}

/// The number of the frame after so many.
pub open spec fn next_number(published: int) -> int {
    published + 1
}

/// Frames are numbered one after the other, from one, and no number is used twice.
pub proof fn law_numbers_grow(published: int, later: int)
    ensures
        next_number(0) == 1,
        next_number(published) - published == 1,
        published < later ==> next_number(published) < next_number(later),
{
}

/// A frame is usable exactly where it is a BGRA frame with at least one pixel each way; neither
/// how large it is nor what is in it matters.
pub proof fn law_usable_frames(pixels: PixelBuffer)
    ensures
        is_usable(RawFrame::Bgra(pixels)) <==> pixels.width >= 1 && pixels.height >= 1,
        !is_usable(RawFrame::Bgr0(pixels)),
        !is_usable(RawFrame::Rgbx(pixels)),
        !is_usable(RawFrame::Rgb(pixels)),
        !is_usable(RawFrame::Other),
{
}

/// The capture side: numbers the frames that can be shown, from one.
pub struct FrameCounter {
    sequence: u64,
}

impl View for FrameCounter {
    type V = int;

    closed spec fn view(&self) -> int {
        self.sequence as int
    }
}

impl FrameCounter {
    pub fn new() -> (counter: Self)
        ensures
            counter@ == 0,
    {
        FrameCounter { sequence: 0 }
    }

    /// Takes what the capture handed over, `None` where it failed.
    pub fn on_frame(&mut self, frame: Option<RawFrame>) -> (step: CaptureStep)
        requires
            frame is Some && is_usable(frame->0) ==> old(self)@ < u64::MAX,
        ensures
            frame is None <==> step is Stop,
            frame is Some && is_usable(frame->0) <==> step is Publish,
            step is Publish <==> (frame matches Some(RawFrame::Bgra(pixels)) && pixels.width >= 1
                && pixels.height >= 1),
            step matches CaptureStep::Publish(captured) ==> captured.bgra@
                == frame->0->Bgra_0.data@,
            step matches CaptureStep::Publish(captured) ==> {
                let pixels = frame->0->Bgra_0;
                &&& captured.width == pixels.width
                &&& captured.height == pixels.height
                &&& captured.bgra == pixels.data
                &&& captured.sequence == old(self)@ + 1
            },
            final(self)@ == (if step is Publish {
                old(self)@ + 1
            } else {
                old(self)@
            }),
            step matches CaptureStep::Publish(captured) ==> captured.sequence == next_number(
                old(self)@,
            ) && final(self)@ == next_number(old(self)@),
    {
        match frame {
            None => CaptureStep::Stop,
            Some(RawFrame::Bgra(pixels)) => {
                if pixels.width <= 0 || pixels.height <= 0 {
                    return CaptureStep::Skip;
                }
                self.sequence = self.sequence + 1;
                CaptureStep::Publish(
                    CapturedFrame {
                        width: pixels.width as u32,
                        height: pixels.height as u32,
                        bgra: pixels.data,
                        sequence: self.sequence,
                    },
                )
            },
            Some(_) => CaptureStep::Skip,
        }
    }
}

/// Whether a slot holds a frame other than the last one taken.
pub open spec fn has_new_frame(latest: Option<CapturedFrame>, last_taken: int) -> bool {
    latest is Some && latest->0.sequence != last_taken
}

/// The other side: takes the newest frame out of the slot that the capture keeps it in.
pub struct Capture {
    last_taken: u64,
}

impl View for Capture {
    type V = int;

    closed spec fn view(&self) -> int {
        self.last_taken as int
    }
}

impl Capture {
    pub fn start() -> (capture: Self)
        ensures
            capture@ == 0,
    {
        Capture { last_taken: 0 }
    }

    /// Returns the newest frame, or `None` when nothing changed since the last call.
    pub fn take_new_frame(&mut self, latest: &mut Option<CapturedFrame>) -> (frame: Option<
        CapturedFrame,
    >)
        ensures
            has_new_frame(*old(latest), old(self)@) ==> frame == *old(latest) && *final(latest)
                is None && final(self)@ == frame->0.sequence,
            !has_new_frame(*old(latest), old(self)@) ==> frame is None && *final(latest) == *old(
                latest,
            ) && final(self)@ == old(self)@,
    {
        let new: bool = match latest {
            Some(frame) => frame.sequence != self.last_taken,
            None => false,
        };
        if !new {
            return None;
        }
        let frame: Option<CapturedFrame> = latest.take();
        match &frame {
            Some(newest) => {
                self.last_taken = newest.sequence;
            },
            None => {},
        }
        frame
    }
}

/// What is in the slot is new exactly where its number is not that of the last frame taken.
pub proof fn law_new_frames(frame: CapturedFrame, last_taken: int)
    ensures
        has_new_frame(Some(frame), last_taken) <==> frame.sequence as int - last_taken != 0,
        !has_new_frame(None, last_taken),
{
}

/// The two sides of a capture are in step: the slot, if it holds a frame, holds the last one
/// published, and that one has not been taken.
pub open spec fn in_step(published: int, latest: Option<CapturedFrame>, last_taken: int) -> bool {
    &&& 0 <= last_taken <= published
    &&& latest is Some ==> latest->0.sequence == published && last_taken < published
}

/// Publishing a frame and taking one both keep the two sides in step, in any order. So whatever
/// is in the slot is new, a frame is never taken twice, and frames are taken in the order in
/// which they were captured.
pub proof fn law_capture_stays_in_step(
    published: int,
    latest: Option<CapturedFrame>,
    last_taken: int,
    frame: CapturedFrame,
)
    requires
        in_step(published, latest, last_taken),
        frame.sequence == published + 1,
    ensures
        in_step(0, None, 0),
        in_step(published + 1, Some(frame), last_taken),
        has_new_frame(latest, last_taken) <==> latest is Some,
        latest is Some ==> in_step(published, None, latest->0.sequence as int)
            && latest->0.sequence > last_taken,
{
}

/// Something that can be captured.
pub enum Target {
    Window { id: u32, title: String },
    Display { id: u32, title: String },
}

impl Target {
    pub open spec fn spec_title(self) -> Seq<char> {
        match self {
            Target::Window { title, .. } => title@,
            Target::Display { title, .. } => title@,
        }
    }

    pub fn title(&self) -> (title: &str)
        ensures
            title@ == self.spec_title(),
    {
        match self {
            Target::Window { title, .. } => title.as_str(),
            Target::Display { title, .. } => title.as_str(),
        }
    }
}

/// Text in lower case, as the Unicode character database has it.
pub uninterp spec fn lowered(text: Seq<char>) -> Seq<char>;

/// `str::to_lowercase` gives the lower case of a string; the string alone decides what that is.
/// What it is for given characters is not stated.
#[verifier::external_body]
fn to_lowercase(text: &str) -> (lower: String)
    ensures
        lower@ == lowered(text@),
{
    text.to_lowercase()
}

/// Whether `needle` occurs in `text` at `i`.
pub open spec fn occurs_at(text: Seq<char>, needle: Seq<char>, i: int) -> bool {
    0 <= i && i + needle.len() <= text.len() && text.subrange(i, i + needle.len() as int) == needle
}

/// Whether `needle` occurs in `text`.
pub open spec fn occurs(text: Seq<char>, needle: Seq<char>) -> bool {
    exists|i: int| occurs_at(text, needle, i)
}

fn is_at(text: &Vec<char>, needle: &Vec<char>, at: usize) -> (found: bool)
    requires
        at + needle@.len() <= text@.len(),
    ensures
        found == occurs_at(text@, needle@, at as int),
{
    let end: usize = text.len();
    let mut i: usize = 0;
    while i < needle.len()
        invariant
            i <= needle@.len(),
            end == text@.len(),
            at + needle@.len() <= end,
            forall|j: int| 0 <= j < i ==> text@[at + j] == #[trigger] needle@[j],
        decreases needle@.len() - i,
    {
        if text[at + i] != needle[i] {
            assert(text@.subrange(at as int, at + needle@.len())[i as int] == text@[at + i]);
            return false;
        }
        i = i + 1;
    }
    assert(text@.subrange(at as int, at + needle@.len()) =~= needle@);
    true
}

fn contains(text: &Vec<char>, needle: &Vec<char>) -> (found: bool)
    ensures
        found == occurs(text@, needle@),
{
    if needle.len() > text.len() {
        return false;
    }
    let mut i: usize = 0;
    while i <= text.len() - needle.len()
        invariant
            needle@.len() <= text@.len(),
            i <= text@.len() - needle@.len() + 1,
            forall|j: int| 0 <= j < i ==> !occurs_at(text@, needle@, j),
        decreases text@.len() - needle@.len() + 1 - i,
    {
        if is_at(text, needle, i) {
            return true;
        }
        if i == text.len() - needle.len() {
            return false;
        }
        i = i + 1;
    }
    false
}

/// The titles of the windows among some targets, in lower case; displays have none.
pub open spec fn window_titles(targets: Seq<Target>) -> Seq<Option<Seq<char>>> {
    Seq::new(
        targets.len(),
        |i: int|
            match targets[i] {
                Target::Window { title, .. } => Some(lowered(title@)),
                Target::Display { .. } => None,
            },
    )
}

/// The first title from `from` on that contains `needle`.
pub open spec fn next_match(titles: Seq<Option<Seq<char>>>, needle: Seq<char>, from: int) -> Option<
    int,
>
    decreases titles.len() - from,
{
    if from >= titles.len() {
        None
    } else if titles[from] is Some && occurs(titles[from]->0, needle) {
        Some(from)
    } else {
        next_match(titles, needle, from + 1)
    }
}

/// The match that is found is the first one: its title contains the needle, and no title between
/// the start of the search and it does. Where none is found, no title does.
pub proof fn law_first_match(titles: Seq<Option<Seq<char>>>, needle: Seq<char>, from: int)
    requires
        0 <= from,
    ensures
        match next_match(titles, needle, from) {
            Some(index) => {
                &&& from <= index < titles.len()
                &&& titles[index] is Some && occurs(titles[index]->0, needle)
                &&& forall|i: int|
                    from <= i < index ==> !(#[trigger] titles[i] is Some && occurs(
                        titles[i]->0,
                        needle,
                    ))
            },
            None => forall|i: int|
                from <= i < titles.len() ==> !(#[trigger] titles[i] is Some && occurs(
                    titles[i]->0,
                    needle,
                )),
        },
    decreases titles.len() - from,
{
    if from < titles.len() && !(titles[from] is Some && occurs(titles[from]->0, needle)) {
        law_first_match(titles, needle, from + 1);
    }
}

/// Whether a target is a window whose title, in lower case, has `needle` in it, with anything
/// before and behind it.
pub open spec fn shows(target: Target, needle: Seq<char>) -> bool {
    target matches Target::Window { title, .. } && exists|before: Seq<char>, after: Seq<char>|
        lowered(title@) == #[trigger] (before + needle + after)
}

/// A text occurs in another exactly where the other is something, that text, and something more.
pub proof fn law_occurs(text: Seq<char>, needle: Seq<char>)
    ensures
        occurs(text, needle) <==> exists|before: Seq<char>, after: Seq<char>|
            text == #[trigger] (before + needle + after),
{
    if occurs(text, needle) {
        let i = choose|i: int| occurs_at(text, needle, i);
        let before = text.take(i);
        let after = text.skip(i + needle.len());
        assert(text =~= before + needle + after);
    }
    if exists|before: Seq<char>, after: Seq<char>| text == #[trigger] (before + needle + after) {
        let (before, after) = choose|before: Seq<char>, after: Seq<char>|
            text == #[trigger] (before + needle + after);
        assert(text.subrange(before.len() as int, before.len() + needle.len() as int) =~= needle);
        assert(occurs_at(text, needle, before.len() as int));
    }
}

/// What a search among targets finds, whatever their number and order. Where nothing is found, no
/// target shows the needle. Where something is found, that target shows it and none before it
/// does; the second one, where there is one, shows it too and none between them does, and where
/// there is none, no later target shows it.
pub proof fn law_window_found(found: Option<WindowMatch>, targets: Seq<Target>, needle: Seq<char>)
    requires
        is_match(found, window_titles(targets), needle),
    ensures
        is_hit(found, targets, needle),
{
    let titles = window_titles(targets);
    assert forall|i: int| 0 <= i < targets.len() implies #[trigger] shows(targets[i], needle) == (
    titles[i] is Some && occurs(titles[i]->0, needle)) by {
        if let Target::Window { title, .. } = targets[i] {
            law_occurs(lowered(title@), needle);
        }
    }
    law_first_match(titles, needle, 0);
    if let Some(hit) = found {
        law_first_match(titles, needle, hit.first + 1);
    }
}

/// What a search for `needle` found, stated on the targets.
pub open spec fn is_hit(
    found: Option<WindowMatch>,
    targets: Seq<Target>,
    needle: Seq<char>,
) -> bool {
    match found {
        None => forall|i: int| 0 <= i < targets.len() ==> !#[trigger] shows(targets[i], needle),
        Some(hit) => {
            &&& hit.first < targets.len()
            &&& shows(targets[hit.first as int], needle)
            &&& forall|i: int| 0 <= i < hit.first ==> !#[trigger] shows(targets[i], needle)
            &&& match hit.also {
                None => forall|i: int|
                    hit.first < i < targets.len() ==> !#[trigger] shows(targets[i], needle),
                Some(also) => {
                    &&& hit.first < also < targets.len()
                    &&& shows(targets[also as int], needle)
                    &&& forall|i: int|
                        hit.first < i < also ==> !#[trigger] shows(targets[i], needle)
                },
            }
        },
    }
}

/// The views of some titles.
pub open spec fn title_views(titles: Seq<Option<String>>) -> Seq<Option<Seq<char>>> {
    Seq::new(
        titles.len(),
        |i: int|
            match titles[i] {
                Some(title) => Some(title@),
                None => None,
            },
    )
}

/// The titles that are looked at are all those given, in their order, letter for letter.
pub proof fn law_titles_are_taken_whole(titles: Seq<Option<String>>, i: int)
    requires
        0 <= i < titles.len(),
    ensures
        title_views(titles).len() == titles.len(),
        titles[i] is None <==> title_views(titles)[i] is None,
        titles[i] matches Some(title) ==> title_views(titles)[i] == Some(title@),
{
}

/// The windows whose titles matched.
#[derive(Debug, Clone, Copy, PartialEq, Eq)]
pub struct WindowMatch {
    /// The one to use.
    pub first: usize,
    /// The next one that matched as well.
    pub also: Option<usize>,
}

pub open spec fn is_match(
    found: Option<WindowMatch>,
    titles: Seq<Option<Seq<char>>>,
    needle: Seq<char>,
) -> bool {
    match next_match(titles, needle, 0) {
        None => found is None,
        Some(first) => {
            &&& found is Some
            &&& found->0.first == first
            &&& match next_match(titles, needle, first + 1) {
                None => found->0.also is None,
                Some(also) => found->0.also is Some && found->0.also->0 == also,
            }
        },
    }
}

fn search_from(titles: &Vec<Option<String>>, needle: &Vec<char>, from: usize) -> (index: Option<
    usize,
>)
    requires
        from <= titles@.len(),
    ensures
        match next_match(title_views(titles@), needle@, from as int) {
            None => index is None,
            Some(i) => index is Some && index->0 == i && i < titles@.len(),
        },
{
    let mut i: usize = from;
    while i < titles.len()
        invariant
            from <= i <= titles@.len(),
            next_match(title_views(titles@), needle@, from as int) == next_match(
                title_views(titles@),
                needle@,
                i as int,
            ),
        decreases titles@.len() - i,
    {
        match &titles[i] {
            Some(title) => {
                let chars: Vec<char> = chars_of(title.as_str());
                if contains(&chars, needle) {
                    return Some(i);
                }
            },
            None => {},
        }
        i = i + 1;
    }
    None
}

/// The first two windows whose titles contain `needle`, letter for letter. `None` stands for a
/// target without a title to look at.
pub fn match_titles(needle: &str, titles: &Vec<Option<String>>) -> (found: Option<WindowMatch>)
    ensures
        is_match(found, title_views(titles@), needle@),
{
    let chars: Vec<char> = chars_of(needle);
    let count: usize = titles.len();
    assert(count == titles@.len());
    match search_from(titles, &chars, 0) {
        None => None,
        Some(first) => {
            let also: Option<usize> = search_from(titles, &chars, first + 1);
            Some(WindowMatch { first, also })
        },
    }
}

/// Finds the capture target whose title contains `needle`, case insensitively, and the one after
/// it that does as well.
pub fn find_window(needle: &str, targets: &Vec<Target>) -> (found: Option<WindowMatch>)
    ensures
        is_match(found, window_titles(targets@), lowered(needle@)),
        is_hit(found, targets@, lowered(needle@)),
{
    let ghost sought: Seq<char> = lowered(needle@);
    let needle: String = to_lowercase(needle);
    let mut titles: Vec<Option<String>> = Vec::new();
    let mut i: usize = 0;
    while i < targets.len()
        invariant
            i <= targets@.len(),
            titles@.len() == i,
            forall|j: int|
                0 <= j < i ==> title_views(titles@)[j] == #[trigger] window_titles(targets@)[j],
        decreases targets@.len() - i,
    {
        let ghost before: Seq<Option<String>> = titles@;
        match &targets[i] {
            Target::Window { title, .. } => {
                titles.push(Some(to_lowercase(title.as_str())));
            },
            Target::Display { .. } => {
                titles.push(None);
            },
        }
        assert forall|j: int| 0 <= j < i + 1 implies title_views(titles@)[j]
            == #[trigger] window_titles(targets@)[j] by {
            if j < i {
                assert(titles@[j] == before[j]);
                assert(title_views(before)[j] == window_titles(targets@)[j]);
            }
        }
        i = i + 1;
    }
    assert(title_views(titles@) =~= window_titles(targets@));
    let found: Option<WindowMatch> = match_titles(needle.as_str(), &titles);
    proof {
        law_window_found(found, targets@, sought);
    }
    found
}

/// The first display among some targets, which is the main one.
pub fn main_display(targets: &Vec<Target>) -> (index: Option<usize>)
    ensures
        match index {
            None => forall|i: int| 0 <= i < targets@.len() ==> !(#[trigger] targets@[i] is Display),
            Some(index) => {
                &&& index < targets@.len()
                &&& targets@[index as int] is Display
                &&& forall|i: int| 0 <= i < index ==> !(#[trigger] targets@[i] is Display)
            },
        },
{
    let mut i: usize = 0;
    while i < targets.len()
        invariant
            i <= targets@.len(),
            forall|j: int| 0 <= j < i ==> !(#[trigger] targets@[j] is Display),
        decreases targets@.len() - i,
    {
        match &targets[i] {
            Target::Display { .. } => {
                return Some(i);
            },
            Target::Window { .. } => {},
        }
        i = i + 1;
    }
    None
}

/// The digit for a number below ten.
pub open spec fn digit(value: int) -> char {
    seq!['0', '1', '2', '3', '4', '5', '6', '7', '8', '9'][value]
}

/// A number in decimal, without leading zeros.
pub open spec fn decimal(value: nat) -> Seq<char>
    decreases value,
{
    if value < 10 {
        seq![digit(value as int)]
    } else {
        decimal(value / 10).push(digit((value % 10) as int))
    }
}

/// The number that some digits stand for.
pub open spec fn number_read(digits: Seq<char>) -> int
    decreases digits.len(),
{
    if digits.len() == 0 {
        0
    } else {
        number_read(digits.drop_last()) * 10 + (digits.last() as int - '0' as int)
    }
}

/// A number in decimal is made of digits alone, reads as that number, and has no zero in front
/// unless it is zero.
pub proof fn law_decimal_is_read(value: nat)
    ensures
        number_read(decimal(value)) == value,
        decimal(value).len() > 0,
        forall|i: int|
            0 <= i < decimal(value).len() ==> '0' <= #[trigger] decimal(value)[i] <= '9',
        decimal(value)[0] == '0' ==> value == 0 && decimal(value).len() == 1,
    decreases value,
{
    let text = decimal(value);
    if value < 10 {
        assert(text.drop_last() =~= Seq::empty());
        assert(number_read(text.drop_last()) == 0);
    } else {
        law_decimal_is_read(value / 10);
        assert(text.drop_last() =~= decimal(value / 10));
        assert forall|i: int| 0 <= i < text.len() implies '0' <= #[trigger] text[i] <= '9' by {
            if i < text.len() - 1 {
                assert(text[i] == decimal(value / 10)[i]);
            }
        }
        assert(text[0] == decimal(value / 10)[0]);
    }
}

fn digit_of(value: u32) -> (c: char)
    requires
        value < 10,
    ensures
        c == digit(value as int),
{
    let digits: [char; 10] = ['0', '1', '2', '3', '4', '5', '6', '7', '8', '9'];
    digits[value as usize]
}

fn append_decimal(text: &mut String, value: u32)
    ensures
        final(text)@ == old(text)@ + decimal(value as nat),
    decreases value,
{
    if value < 10 {
        text.push(digit_of(value));
    } else {
        append_decimal(text, value / 10);
        text.push(digit_of(value % 10));
    }
    assert(text@ =~= old(text)@ + decimal(value as nat));
}

/// The line that lists a target: what it is, its number and its title.
pub open spec fn target_line(target: Target) -> Seq<char> {
    let (kind, id) = match target {
        Target::Window { id, .. } => (seq!['w', 'i', 'n', 'd', 'o', 'w', ' ', ' '], id),
        Target::Display { id, .. } => (seq!['d', 'i', 's', 'p', 'l', 'a', 'y', ' '], id),
    };
    kind + seq!['['] + decimal(id as nat) + seq![']', ' '] + target.spec_title()
}

/// The line of a target says whether it is a window or a display, in eight columns, then its
/// number in brackets, a space, and its whole title.
pub proof fn law_target_line(id: u32, title: String)
    ensures
        ({
            let window = target_line(Target::Window { id, title });
            let display = target_line(Target::Display { id, title });
            let n = decimal(id as nat).len() as int;
            &&& window.take(9) == seq!['w', 'i', 'n', 'd', 'o', 'w', ' ', ' ', '[']
            &&& display.take(9) == seq!['d', 'i', 's', 'p', 'l', 'a', 'y', ' ', '[']
            &&& number_read(window.subrange(9, 9 + n)) == id
            &&& window.subrange(9 + n, 11 + n) == seq![']', ' ']
            &&& window.skip(11 + n) == title@
            &&& display.skip(9) == window.skip(9)
        }),
        (Target::Window { id, title }).spec_title() == title@,
        (Target::Display { id, title }).spec_title() == title@,
{
    let window = target_line(Target::Window { id, title });
    let display = target_line(Target::Display { id, title });
    let n = decimal(id as nat).len() as int;
    law_decimal_is_read(id as nat);
    assert(window.take(9) =~= seq!['w', 'i', 'n', 'd', 'o', 'w', ' ', ' ', '[']);
    assert(display.take(9) =~= seq!['d', 'i', 's', 'p', 'l', 'a', 'y', ' ', '[']);
    assert(window.subrange(9, 9 + n) =~= decimal(id as nat));
    assert(window.subrange(9 + n, 11 + n) =~= seq![']', ' ']);
    assert(window.skip(11 + n) =~= title@);
    assert(display.skip(9) =~= window.skip(9));
}

/// Describes a target on one line.
pub fn describe_target(target: &Target) -> (line: String)
    ensures
        line@ == target_line(*target),
{
    let mut line: String = String::new();
    let (kind, id, title): (Vec<char>, u32, Vec<char>) = match target {
        Target::Window { id, title } => (
            vec!['w', 'i', 'n', 'd', 'o', 'w', ' ', ' ', '['],
            *id,
            chars_of(title.as_str()),
        ),
        Target::Display { id, title } => (
            vec!['d', 'i', 's', 'p', 'l', 'a', 'y', ' ', '['],
            *id,
            chars_of(title.as_str()),
        ),
    };
    append_chars(&mut line, &kind);
    append_decimal(&mut line, id);
    line.push(']');
    line.push(' ');
    append_chars(&mut line, &title);
    assert(line@ =~= target_line(*target));
    line
}

/// Describes every target, in order.
pub fn list_targets(targets: &Vec<Target>) -> (lines: Vec<String>)
    ensures
        lines@.len() == targets@.len(),
        forall|i: int|
            0 <= i < targets@.len() ==> (#[trigger] lines@[i])@ == target_line(targets@[i]),
{
    let mut lines: Vec<String> = Vec::new();
    let mut i: usize = 0;
    while i < targets.len()
        invariant
            i <= targets@.len(),
            lines@.len() == i,
            forall|j: int| 0 <= j < i ==> (#[trigger] lines@[j])@ == target_line(targets@[j]),
        decreases targets@.len() - i,
    {
        lines.push(describe_target(&targets[i]));
        i = i + 1;
    }
    lines
}

} // verus!
