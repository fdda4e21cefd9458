//! The output window: what its messages and keys do.

use crate::cli::{WarpParams, MAX_SUPERSAMPLE, MIN_SUPERSAMPLE};
use crate::text::chars_of;
use vstd::prelude::*;

verus! {

/// State shared between the window procedure and the render loop.
#[derive(Debug, Clone, Copy, PartialEq, Eq)]
pub struct WindowState {
    pub quit: bool,
    pub paused: bool,
    pub resized_to: Option<(u32, u32)>,
    pub params: WarpParams,
}

/// The keys that do something.
#[derive(Debug, Clone, Copy, PartialEq, Eq)]
pub enum Key {
    Escape,
    Space,
    Left,
    Right,
    Up,
    Down,
    PageUp,
    PageDown,
    Other,
}

/// What a key does to the measures of the disk.
#[derive(Debug, Clone, Copy, PartialEq, Eq)]
pub enum DiskChange {
    Unchanged,
    /// Rotate the wrap by so many degrees, within a full turn.
    Rotate { degrees: i32 },
    /// Grow the inner hole by so many hundredths of the disk radius, within its limits.
    GrowHole { hundredths: i32 },
}

/// A message to the window.
#[derive(Debug, Clone, Copy, PartialEq, Eq)]
pub enum WindowMessage {
    Close,
    Destroy,
    /// The client area was resized: its width in the low 16 bits, its height in the high ones.
    Size { packed: u32 },
    KeyDown(Key),
    Other,
}

/// How to answer a message.
#[derive(Debug, Clone, Copy, PartialEq, Eq)]
pub enum Reply {
    /// It is dealt with.
    Handled { change: DiskChange },
    /// It is dealt with, and the message loop is told to end.
    HandledAndQuit,
    /// It goes to the system.
    Default,
}

/// What a key does to the measures of the disk.
pub open spec fn disk_change(key: Key) -> DiskChange {
    match key {
        Key::Left => DiskChange::Rotate { degrees: -2i32 },
        Key::Right => DiskChange::Rotate { degrees: 2 },
        Key::Up => DiskChange::GrowHole { hundredths: 1 },
        Key::Down => DiskChange::GrowHole { hundredths: -1i32 },
        _ => DiskChange::Unchanged,
    }
}

/// How many samples a key leaves per pixel.
pub open spec fn supersample_after(supersample: u32, key: Key) -> int {
    match key {
        Key::PageUp => if supersample + 1 > MAX_SUPERSAMPLE {
            MAX_SUPERSAMPLE as int
        } else {
            supersample + 1
        },
        Key::PageDown => if supersample - 1 < MIN_SUPERSAMPLE {
            MIN_SUPERSAMPLE as int
        } else {
            supersample - 1
        },
        _ => supersample as int,
    }
}

/// What a key makes of the state.
pub open spec fn state_after_key(state: WindowState, key: Key) -> WindowState {
    WindowState {
        quit: state.quit || key is Escape,
        paused: state.paused != (key is Space),
        params: WarpParams {
            supersample: supersample_after(state.params.supersample, key) as u32,
            ..state.params
        },
        ..state
    }
}

/// The size that a message tells of; a window without an area has none.
pub open spec fn unpacked_size(packed: u32) -> Option<(u32, u32)> {
    let width = packed % 0x1_0000;
    let height = packed / 0x1_0000;
    if width > 0 && height > 0 {
        Some((width, height))
    } else {
        None
    }
}

/// Escape quits, space freezes the frame or lets it run again, page up and page down change the
/// number of samples, and the arrows change the measures of the disk.
pub fn apply_key(state: &mut WindowState, key: Key) -> (change: DiskChange)
    requires
        key is PageUp ==> old(state).params.supersample < u32::MAX,
    ensures
        *final(state) == state_after_key(*old(state), key),
        change == disk_change(key),
{
    match key {
        Key::Escape => {
            state.quit = true;
            DiskChange::Unchanged
        },
        Key::Space => {
            state.paused = !state.paused;
            DiskChange::Unchanged
        },
        Key::Left => DiskChange::Rotate { degrees: -2i32 },
        Key::Right => DiskChange::Rotate { degrees: 2 },
        Key::Up => DiskChange::GrowHole { hundredths: 1 },
        Key::Down => DiskChange::GrowHole { hundredths: -1i32 },
        Key::PageUp => {
            let more: u32 = state.params.supersample + 1;
            state.params.supersample = if more > MAX_SUPERSAMPLE {
                MAX_SUPERSAMPLE
            } else {
                more
            };
            DiskChange::Unchanged
        },
        Key::PageDown => {
            let fewer: u32 = state.params.supersample.saturating_sub(1);
            state.params.supersample = if fewer < MIN_SUPERSAMPLE {
                MIN_SUPERSAMPLE
            } else {
                fewer
            };
            DiskChange::Unchanged
        },
        Key::Other => DiskChange::Unchanged,
    }
}

/// What a message makes of the state.
pub open spec fn state_after_message(state: WindowState, message: WindowMessage) -> WindowState {
    match message {
        WindowMessage::Close | WindowMessage::Destroy => WindowState { quit: true, ..state },
        WindowMessage::Size { packed } => if unpacked_size(packed) is Some {
            WindowState { resized_to: unpacked_size(packed), ..state }
        } else {
            state
        },
        WindowMessage::KeyDown(key) => state_after_key(state, key),
        WindowMessage::Other => state,
    }
}

/// How a message is answered.
pub open spec fn reply_to(message: WindowMessage) -> Reply {
    match message {
        WindowMessage::Close => Reply::Handled { change: DiskChange::Unchanged },
        WindowMessage::Destroy => Reply::HandledAndQuit,
        WindowMessage::Size { .. } => Reply::Handled { change: DiskChange::Unchanged },
        WindowMessage::KeyDown(key) => Reply::Handled { change: disk_change(key) },
        WindowMessage::Other => Reply::Default,
    }
}

/// The length of one side, at least one pixel.
pub open spec fn extent(low: int, high: int) -> int {
    if high - low < 1 {
        1
    } else {
        high - low
    }
}

/// The state of a window that was just created.
pub open spec fn fresh(params: WarpParams) -> WindowState {
    WindowState { quit: false, paused: false, resized_to: None, params }
}

/// A state once the render loop has dealt with the last resize.
pub open spec fn cleared(state: WindowState) -> WindowState {
    WindowState { resized_to: None, ..state }
}

/// A new window is open, runs, waits for no resize and has the parameters it was given. Once a
/// resize is dealt with, none waits, and nothing else is different.
pub proof fn law_states(params: WarpParams, state: WindowState)
    ensures
        !fresh(params).quit && !fresh(params).paused,
        fresh(params).resized_to is None,
        fresh(params).params == params,
        cleared(state).resized_to is None,
        cleared(state).quit == state.quit && cleared(state).paused == state.paused,
        cleared(state).params == state.params,
        state.resized_to is None ==> cleared(state) == state,
{
}

/// The output window, as far as it is not the system's.
pub struct OutputWindow {
    state: WindowState,
}

impl View for OutputWindow {
    type V = WindowState;

    closed spec fn view(&self) -> WindowState {
        self.state
    }
}

impl OutputWindow {
    pub fn create(params: WarpParams) -> (window: Self)
        ensures
            window@ == (WindowState { quit: false, paused: false, resized_to: None, params }),
            window@ == fresh(params),
    {
        OutputWindow {
            state: WindowState { quit: false, paused: false, resized_to: None, params },
        }
    }

    /// The size of a client area between the given edges.
    pub fn client_size(left: i32, top: i32, right: i32, bottom: i32) -> (size: (u32, u32))
        requires
            i32::MIN <= right - left <= i32::MAX,
            i32::MIN <= bottom - top <= i32::MAX,
        ensures
            size.0 == extent(left as int, right as int),
            size.1 == extent(top as int, bottom as int),
    {
        let width: i32 = right - left;
        let height: i32 = bottom - top;
        (
            if width < 1 {
                1
            } else {
                width as u32
            },
            if height < 1 {
                1
            } else {
                height as u32
            },
        )
    }

    /// The state that the messages so far have left.
    pub fn pump(&self) -> (state: WindowState)
        ensures
            state == self@,
    {
        self.state
    }

    /// The render loop has dealt with the last resize.
    pub fn clear_resize(&mut self)
        ensures
            final(self)@ == (WindowState { resized_to: None, ..old(self)@ }),
            final(self)@ == cleared(old(self)@),
    {
        self.state.resized_to = None;
    }

    /// Deals with a message to the window.
    pub fn window_proc(&mut self, message: WindowMessage) -> (reply: Reply)
        requires
            message == WindowMessage::KeyDown(Key::PageUp) ==> old(self)@.params.supersample
                < u32::MAX,
        ensures
            final(self)@ == state_after_message(old(self)@, message),
            reply == reply_to(message),
    {
        match message {
            WindowMessage::Close => {
                self.state.quit = true;
                Reply::Handled { change: DiskChange::Unchanged }
            },
            WindowMessage::Destroy => {
                self.state.quit = true;
                Reply::HandledAndQuit
            },
            WindowMessage::Size { packed } => {
                assert(packed & 0xffff == packed % 0x1_0000 && (packed >> 16u32) & 0xffff == packed
                    / 0x1_0000) by (bit_vector);
                let width: u32 = packed & 0xffff;
                let height: u32 = (packed >> 16u32) & 0xffff;
                if width > 0 && height > 0 {
                    self.state.resized_to = Some((width, height));
                }
                Reply::Handled { change: DiskChange::Unchanged }
            },
            WindowMessage::KeyDown(key) => {
                let change: DiskChange = apply_key(&mut self.state, key);
                Reply::Handled { change }
            },
            WindowMessage::Other => Reply::Default,
        }
    }
}

/// One character in UTF-16: a single unit, or a pair of surrogates.
pub open spec fn utf16_units(c: char) -> Seq<u16> {
    let code = c as int;
    if code < 0x1_0000 {
        seq![code as u16]
    } else {
        seq![
            (0xd800 + (code - 0x1_0000) / 0x400) as u16,
            (0xdc00 + (code - 0x1_0000) % 0x400) as u16,
        ]
    }
}

/// Text in UTF-16.
pub open spec fn utf16(text: Seq<char>) -> Seq<u16>
    decreases text.len(),
{
    if text.len() == 0 {
        Seq::empty()
    } else {
        utf16(text.drop_last()) + utf16_units(text.last())
    }
}

/// The code point of a character.
fn code_point(c: char) -> (code: u32)
    ensures
        code == c as int,
        code <= 0x10_ffff,
{
    c as u32
}

/// A string as the system takes it: in UTF-16, closed by a zero.
pub fn to_wide(value: &str) -> (wide: Vec<u16>)
    ensures
        wide@ == utf16(value@).push(0),
{
    let chars: Vec<char> = chars_of(value);
    let mut wide: Vec<u16> = Vec::new();
    let mut i: usize = 0;
    assert(utf16(chars@.take(0)) =~= Seq::empty());
    while i < chars.len()
        invariant
            i <= chars@.len(),
            wide@ == utf16(chars@.take(i as int)),
        decreases chars@.len() - i,
    {
        let code: u32 = code_point(chars[i]);
        assert(chars@.take(i + 1).drop_last() =~= chars@.take(i as int));
        if code < 0x1_0000 {
            wide.push(code as u16);
        } else {
            let rest: u32 = code - 0x1_0000;
            wide.push((0xd800 + rest / 0x400) as u16);
            wide.push((0xdc00 + rest % 0x400) as u16);
        }
        assert(wide@ =~= utf16(chars@.take(i as int)) + utf16_units(chars@[i as int]));
        i = i + 1;
    }
    assert(chars@.take(i as int) =~= chars@);
    wide.push(0);
    wide
}

/// The state after some messages.
pub open spec fn state_after_messages(
    state: WindowState,
    messages: Seq<WindowMessage>,
) -> WindowState
    decreases messages.len(),
{
    if messages.len() == 0 {
        state
    } else {
        state_after_message(
            state_after_messages(state, messages.drop_last()),
            messages.last(),
        )
    }
}

/// Whatever messages come, the number of samples stays within its limits once it is, the wrap
/// keeps its direction, a window that is to close stays so, and a pending resize is to a size
/// with an area.
pub proof fn law_messages_keep_state_valid(state: WindowState, messages: Seq<WindowMessage>)
    requires
        MIN_SUPERSAMPLE <= state.params.supersample <= MAX_SUPERSAMPLE,
        state.resized_to matches Some(size) ==> size.0 > 0 && size.1 > 0,
    ensures
        ({
            let after = state_after_messages(state, messages);
            &&& MIN_SUPERSAMPLE <= after.params.supersample <= MAX_SUPERSAMPLE
            &&& after.params.clockwise == state.params.clockwise
            &&& state.quit ==> after.quit
            &&& after.resized_to matches Some(size) ==> size.0 > 0 && size.1 > 0
        }),
    decreases messages.len(),
{
    if messages.len() > 0 {
        law_messages_keep_state_valid(state, messages.drop_last());
    }
}

/// What the keys are for, whatever the state. Escape closes the window and no other key does; space
/// freezes the frame, or lets it run, and no other key does; page up and page down take one sample
/// more or less, up to eight and down to one, and no other key does. No key resizes the window or
/// turns the wrap around. Left and right rotate by two degrees, against each other, up and down
/// grow and shrink the hole by a hundredth, and the other keys do neither.
pub proof fn law_keys(state: WindowState, key: Key)
    ensures
        ({
            let after = state_after_key(state, key);
            &&& after.quit <==> state.quit || key is Escape
            &&& key is Space ==> after.paused != state.paused
            &&& !(key is Space) ==> after.paused == state.paused
            &&& after.resized_to == state.resized_to
            &&& after.params.clockwise == state.params.clockwise
            &&& key is PageUp && state.params.supersample < 8 ==> after.params.supersample
                - state.params.supersample == 1
            &&& key is PageUp && state.params.supersample >= 8 ==> after.params.supersample == 8
            &&& key is PageDown && state.params.supersample > 1 ==> state.params.supersample
                - after.params.supersample == 1
            &&& key is PageDown && state.params.supersample <= 1 ==> after.params.supersample == 1
            &&& !(key is PageUp) && !(key is PageDown) ==> after.params.supersample
                == state.params.supersample
        }),
        disk_change(Key::Right) == (DiskChange::Rotate { degrees: 2 }),
        disk_change(Key::Left) matches DiskChange::Rotate { degrees } && degrees + 2 == 0,
        disk_change(Key::Up) == (DiskChange::GrowHole { hundredths: 1 }),
        disk_change(Key::Down) matches DiskChange::GrowHole { hundredths } && hundredths + 1 == 0,
        disk_change(key) is Unchanged <==> !(key is Left || key is Right || key is Up
            || key is Down),
{
}

/// What messages are for, whatever the state. A resize holds the width in its low half and the
/// height in its high half, and waits for the render loop as it is, unless one of them is zero;
/// then the window keeps what it had. Closing and destroying the window close it. A key does what
/// it is for, and any other message goes to the system and changes nothing.
pub proof fn law_messages(state: WindowState, message: WindowMessage)
    ensures
        ({
            let after = state_after_message(state, message);
            &&& message matches WindowMessage::Size { packed } ==> {
                &&& after.quit == state.quit && after.paused == state.paused && after.params
                    == state.params
                &&& packed as int % 0x1_0000 != 0 && packed as int / 0x1_0000 != 0 ==> (
                after.resized_to matches Some((width, height)) && width + 0x1_0000 * height
                    == packed && width < 0x1_0000)
                &&& packed as int % 0x1_0000 == 0 || packed as int / 0x1_0000 == 0
                    ==> after.resized_to == state.resized_to
            }
            &&& message is Close || message is Destroy ==> after.quit && after.paused
                == state.paused && after.resized_to == state.resized_to && after.params
                == state.params
            &&& message matches WindowMessage::KeyDown(key) ==> after == state_after_key(state, key)
            &&& message is Other ==> after == state
        }),
        reply_to(message) is Default <==> message is Other,
        reply_to(message) is HandledAndQuit <==> message is Destroy,
        message matches WindowMessage::KeyDown(key) ==> reply_to(message) == (Reply::Handled {
            change: disk_change(key),
        }),
        message is Close || message is Size ==> reply_to(message) == (Reply::Handled {
            change: DiskChange::Unchanged,
        }),
{
}

/// The length of a side is the distance between its edges, and one pixel where there is none.
pub proof fn law_extent(low: int, high: int)
    ensures
        extent(low, high) >= 1,
        low < high ==> low + extent(low, high) == high,
        low >= high ==> extent(low, high) == 1,
{
}

/// The text that some UTF-16 stands for, read from its end: a low surrogate goes with the high one
/// before it, and any other unit is a character of its own.
pub open spec fn utf16_read(units: Seq<u16>) -> Seq<char>
    decreases units.len(),
{
    if units.len() == 0 {
        Seq::empty()
    } else if 0xdc00 <= units.last() <= 0xdfff && units.len() >= 2 {
        utf16_read(units.take(units.len() - 2)).push(
            ((units[units.len() - 2] - 0xd800) * 0x400 + (units.last() - 0xdc00)
                + 0x1_0000) as char,
        )
    } else {
        utf16_read(units.drop_last()).push(units.last() as char)
    }
}

/// Text in UTF-16 reads as that text, whatever is in it, and one text behind another is coded as
/// the one behind the other. Characters beyond the first 65536 take a high and a low surrogate, in
/// that order, and all others one unit.
pub proof fn law_utf16_is_read(text: Seq<char>, c: char)
    requires
        forall|i: int| 0 <= i < text.len() ==> is_scalar(#[trigger] text[i] as int),
        is_scalar(c as int),
    ensures
        utf16_read(utf16(text)) == text,
        (c as int) < 0x1_0000 ==> utf16(text.push(c)) == utf16(text).push(c as u16),
        c as int >= 0x1_0000 ==> {
            let units = utf16(text.push(c));
            &&& units.len() == utf16(text).len() + 2
            &&& units.take(utf16(text).len() as int) == utf16(text)
            &&& 0xd800 <= units[units.len() - 2] <= 0xdbff
            &&& 0xdc00 <= units[units.len() - 1] <= 0xdfff
        },
    decreases text.len(),
{
    assert(text.push(c).drop_last() =~= text);
    assert(text.push(c).last() == c);
    let units = utf16(text.push(c));
    assert(units =~= utf16(text) + utf16_units(c));
    assert(units.take(utf16(text).len() as int) =~= utf16(text));
    if text.len() > 0 {
        let before = text.drop_last();
        let last = text.last();
        assert(is_scalar(text[text.len() - 1] as int));
        assert forall|i: int| 0 <= i < before.len() implies is_scalar(
            #[trigger] before[i] as int,
        ) by {
            assert(before[i] == text[i]);
        }
        law_utf16_is_read(before, last);
        assert(before.push(last) =~= text);
        let coded = utf16(text);
        if (last as int) < 0x1_0000 {
            assert(coded.drop_last() =~= utf16(before));
            assert(coded.last() as char == last);
        } else {
            assert(coded.take(coded.len() - 2) =~= utf16(before));
        }
        assert(utf16_read(coded) =~= text);
    } else {
        assert(utf16_read(utf16(text)) =~= text);
    }
}

/// Whether a number is the code point of a character.
pub open spec fn is_scalar(code: int) -> bool {
    0 <= code < 0xd800 || 0xe000 <= code <= 0x10_ffff
}

/// Pressing space twice changes nothing, and neither does page down after page up while there is
/// room for more samples.
pub proof fn law_keys_undo(state: WindowState)
    ensures
        state_after_key(state_after_key(state, Key::Space), Key::Space) == state,
        MIN_SUPERSAMPLE <= state.params.supersample < MAX_SUPERSAMPLE ==> state_after_key(
            state_after_key(state, Key::PageUp),
            Key::PageDown,
        ) == state,
{
}

} // verus!
