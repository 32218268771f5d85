//! What a virtual keyboard writes to uinput: the raw records for key events,
//! physical frames and text. Opening the device and writing are the host's part.
use crate::event::{InputEvent, KeyAction, KeyState, NativeCode, PhysicalKeyEvent};
use crate::engine::manual::{layout_keycode, US};
use crate::text::to_chars;
use vstd::prelude::*;

verus! {

pub const EV_SYN: u16 = 0;

pub const EV_KEY: u16 = 1;

pub const SYN_REPORT: u16 = 0;

/// One raw record: event type, code and value.
#[derive(Debug, Clone, Copy, PartialEq, Eq, Structural)]
pub struct OutputRecord {
    pub kind: u16,
    pub code: u16,
    pub value: i32,
}

#[derive(Debug, Clone, Copy, PartialEq, Eq, Structural)]
pub enum VirtualKeyboardError {
    OpenFailed,
    SetEvBitFailed,
    SetKeyBitFailed,
    WriteFailed,
    CreateFailed,
    /// A device name that is empty, 80 bytes or longer, or holds a NUL.
    InvalidName,
    /// A frame event whose native code the device cannot produce.
    UnsupportedCode,
}

impl VirtualKeyboardError {
    pub fn message(&self) -> (s: &'static str)
        ensures
            s@ == match *self {
                VirtualKeyboardError::OpenFailed => "failed to open /dev/uinput"@,
                VirtualKeyboardError::SetEvBitFailed => "failed to set EV_KEY evbit"@,
                VirtualKeyboardError::SetKeyBitFailed => "failed to set keybit"@,
                VirtualKeyboardError::WriteFailed => "failed to write uinput device"@,
                VirtualKeyboardError::CreateFailed => "failed to create uinput device"@,
                VirtualKeyboardError::InvalidName => "invalid uinput device name"@,
                VirtualKeyboardError::UnsupportedCode => "unsupported native code"@,
            },
    {
        match self {
            VirtualKeyboardError::OpenFailed => "failed to open /dev/uinput",
            VirtualKeyboardError::SetEvBitFailed => "failed to set EV_KEY evbit",
            VirtualKeyboardError::SetKeyBitFailed => "failed to set keybit",
            VirtualKeyboardError::WriteFailed => "failed to write uinput device",
            VirtualKeyboardError::CreateFailed => "failed to create uinput device",
            VirtualKeyboardError::InvalidName => "invalid uinput device name",
            VirtualKeyboardError::UnsupportedCode => "unsupported native code",
        }
    }
}

/// A device name uinput takes: nonempty, under 80 bytes, without NUL.
pub open spec fn device_name_ok(name: Seq<char>) -> bool {
    name.len() > 0 && crate::text::byte_len(name) < 80 && !name.contains('\0')
}

pub fn valid_device_name(name: &str) -> (b: bool)
    ensures
        b == device_name_ok(name@),
{
    let v = to_chars(name);
    if v.len() == 0 || crate::text::str_len(name) >= 80 {
        return false;
    }
    let mut i: usize = 0;
    while i < v.len()
        invariant
            v@ == name@,
            i <= v@.len(),
            forall|j: int| 0 <= j < i ==> v@[j] != '\0',
        decreases v.len() - i,
    {
        if v[i] == '\0' {
            assert(v@[i as int] == '\0');
            return false;
        }
        i += 1;
    }
    true
}

pub open spec fn syn() -> OutputRecord {
    OutputRecord { kind: EV_SYN, code: SYN_REPORT, value: 0 }
}

pub open spec fn key_record(code: u16, value: i32) -> OutputRecord {
    OutputRecord { kind: EV_KEY, code, value }
}

/// A key event as one EV_KEY record (1 press, 0 release; the code is the
/// keycode's low 16 bits) followed by a SYN_REPORT.
pub open spec fn event_records(event: InputEvent) -> Seq<OutputRecord> {
    seq![
        key_record(event.keycode as u16, if event.state == KeyState::Pressed { 1 } else { 0 }),
        syn(),
    ]
}

pub fn key_event_records(event: &InputEvent) -> (r: Vec<OutputRecord>)
    ensures
        r@ == event_records(*event),
{
    let value: i32 = match event.state {
        KeyState::Pressed => 1,
        KeyState::Released => 0,
    };
    let mut r: Vec<OutputRecord> = Vec::new();
    r.push(OutputRecord { kind: EV_KEY, code: event.keycode as u16, value });
    r.push(OutputRecord { kind: EV_SYN, code: SYN_REPORT, value: 0 });
    assert(r@ =~= event_records(*event));
    r
}

/// The code a physical event is written with, if the device can produce it.
pub open spec fn frame_code(e: PhysicalKeyEvent) -> Option<u16> {
    match e.native_code {
        NativeCode::Evdev(c) => if c.0 > 0 && c.0 <= 0x2ff && c.0 == e.physical_key.0 {
            Some(c.0)
        } else {
            None
        },
        NativeCode::Unknown(_) => None,
    }
}

pub open spec fn action_value(a: KeyAction) -> i32 {
    match a {
        KeyAction::Down => 1,
        KeyAction::Up => 0,
        KeyAction::Repeat => 2,
    }
}

/// The key records of a frame, in order.
pub open spec fn frame_keys(events: Seq<PhysicalKeyEvent>) -> Seq<OutputRecord> {
    Seq::new(events.len(), |i: int| key_record(frame_code(events[i])->Some_0, action_value(events[i].action)))
}

/// One source frame as written: refused whole when any event has a code the
/// device cannot produce; otherwise its key records and, for a nonempty
/// frame, exactly one SYN_REPORT.
pub fn frame_records(events: &[PhysicalKeyEvent]) -> (r: Result<Vec<OutputRecord>, VirtualKeyboardError>)
    ensures
        (exists|i: int| 0 <= i < events@.len() && frame_code(#[trigger] events@[i]) is None) ==> r
            == Err::<Vec<OutputRecord>, VirtualKeyboardError>(VirtualKeyboardError::UnsupportedCode),
        (forall|i: int| 0 <= i < events@.len() ==> frame_code(#[trigger] events@[i]) is Some) ==> (r
            matches Ok(v) && v@ == if events@.len() == 0 {
            Seq::<OutputRecord>::empty()
        } else {
            frame_keys(events@).push(syn())
        }),
{
    let mut i: usize = 0;
    while i < events.len()
        invariant
            i <= events@.len(),
            forall|j: int| 0 <= j < i ==> frame_code(#[trigger] events@[j]) is Some,
        decreases events.len() - i,
    {
        let e = events[i];
        let ok = match e.native_code {
            NativeCode::Evdev(c) => c.0 > 0 && c.0 <= 0x2ff && c.0 == e.physical_key.0,
            NativeCode::Unknown(_) => false,
        };
        if !ok {
            assert(frame_code(events@[i as int]) is None);
            return Err(VirtualKeyboardError::UnsupportedCode);
        }
        i += 1;
    }
    let mut r: Vec<OutputRecord> = Vec::new();
    let mut k: usize = 0;
    while k < events.len()
        invariant
            k <= events@.len(),
            forall|j: int| 0 <= j < events@.len() ==> frame_code(#[trigger] events@[j]) is Some,
            r@ == frame_keys(events@).take(k as int),
        decreases events.len() - k,
    {
        let e = events[k];
        let code = match e.native_code {
            NativeCode::Evdev(c) => c.0,
            NativeCode::Unknown(_) => 0,
        };
        let value: i32 = match e.action {
            KeyAction::Down => 1,
            KeyAction::Up => 0,
            KeyAction::Repeat => 2,
        };
        assert(frame_code(events@[k as int]) is Some);
        r.push(OutputRecord { kind: EV_KEY, code, value });
        assert(frame_keys(events@).take(k + 1) =~= frame_keys(events@).take(k as int).push(
            frame_keys(events@)[k as int],
        ));
        k += 1;
    }
    assert(frame_keys(events@).take(k as int) =~= frame_keys(events@));
    if events.len() > 0 {
        r.push(OutputRecord { kind: EV_SYN, code: SYN_REPORT, value: 0 });
    }
    Ok(r)
}

/// The US-keyboard key that types a character: letters of either case,
/// digits, and the unshifted punctuation keys.
pub open spec fn keycode_of(ch: char) -> Option<u32> {
    match ch {
        'q' | 'Q' => Some(16u32),
        'w' | 'W' => Some(17u32),
        'e' | 'E' => Some(18u32),
        'r' | 'R' => Some(19u32),
        't' | 'T' => Some(20u32),
        'y' | 'Y' => Some(21u32),
        'u' | 'U' => Some(22u32),
        'i' | 'I' => Some(23u32),
        'o' | 'O' => Some(24u32),
        'p' | 'P' => Some(25u32),
        'a' | 'A' => Some(30u32),
        's' | 'S' => Some(31u32),
        'd' | 'D' => Some(32u32),
        'f' | 'F' => Some(33u32),
        'g' | 'G' => Some(34u32),
        'h' | 'H' => Some(35u32),
        'j' | 'J' => Some(36u32),
        'k' | 'K' => Some(37u32),
        'l' | 'L' => Some(38u32),
        'z' | 'Z' => Some(44u32),
        'x' | 'X' => Some(45u32),
        'c' | 'C' => Some(46u32),
        'v' | 'V' => Some(47u32),
        'b' | 'B' => Some(48u32),
        'n' | 'N' => Some(49u32),
        'm' | 'M' => Some(50u32),
        '0' => Some(11u32),
        '1' => Some(2u32),
        '2' => Some(3u32),
        '3' => Some(4u32),
        '4' => Some(5u32),
        '5' => Some(6u32),
        '6' => Some(7u32),
        '7' => Some(8u32),
        '8' => Some(9u32),
        '9' => Some(10u32),
        ' ' => Some(57u32),
        '\n' => Some(28u32),
        '\t' => Some(15u32),
        '-' => Some(12u32),
        '=' => Some(13u32),
        '[' => Some(26u32),
        ']' => Some(27u32),
        ';' => Some(39u32),
        '\'' => Some(40u32),
        '`' => Some(41u32),
        '\\' => Some(43u32),
        ',' => Some(51u32),
        '.' => Some(52u32),
        '/' => Some(53u32),
        _ => None,
    }
}

pub fn char_to_keycode(ch: char) -> (r: Option<u32>)
    ensures
        r == keycode_of(ch),
{
    match ch {
        'q' | 'Q' => Some(16),
        'w' | 'W' => Some(17),
        'e' | 'E' => Some(18),
        'r' | 'R' => Some(19),
        't' | 'T' => Some(20),
        'y' | 'Y' => Some(21),
        'u' | 'U' => Some(22),
        'i' | 'I' => Some(23),
        'o' | 'O' => Some(24),
        'p' | 'P' => Some(25),
        'a' | 'A' => Some(30),
        's' | 'S' => Some(31),
        'd' | 'D' => Some(32),
        'f' | 'F' => Some(33),
        'g' | 'G' => Some(34),
        'h' | 'H' => Some(35),
        'j' | 'J' => Some(36),
        'k' | 'K' => Some(37),
        'l' | 'L' => Some(38),
        'z' | 'Z' => Some(44),
        'x' | 'X' => Some(45),
        'c' | 'C' => Some(46),
        'v' | 'V' => Some(47),
        'b' | 'B' => Some(48),
        'n' | 'N' => Some(49),
        'm' | 'M' => Some(50),
        '0' => Some(11),
        '1' => Some(2),
        '2' => Some(3),
        '3' => Some(4),
        '4' => Some(5),
        '5' => Some(6),
        '6' => Some(7),
        '7' => Some(8),
        '8' => Some(9),
        '9' => Some(10),
        ' ' => Some(57),
        '\n' => Some(28),
        '\t' => Some(15),
        '-' => Some(12),
        '=' => Some(13),
        '[' => Some(26),
        ']' => Some(27),
        ';' => Some(39),
        '\'' => Some(40),
        '`' => Some(41),
        '\\' => Some(43),
        ',' => Some(51),
        '.' => Some(52),
        '/' => Some(53),
        _ => None,
    }
}

/// The press and release that type `ch`, if a key types it.
pub fn char_to_press_release(ch: char) -> (r: Option<(InputEvent, InputEvent)>)
    ensures
        match keycode_of(ch) {
            Some(k) => r matches Some((p, q)) && p.keycode == k && p.state == KeyState::Pressed
                && p.character is None && q.keycode == k && q.state == KeyState::Released
                && q.character is None,
            Option::None => r is None,
        },
{
    match char_to_keycode(ch) {
        Some(keycode) => Some((InputEvent::new(keycode, KeyState::Pressed), InputEvent::new(keycode, KeyState::Released))),
        None => None,
    }
}

/// The keycodes that type `text`, in order; characters without a key are skipped.
pub open spec fn typed_keys(text: Seq<char>) -> Seq<u32>
    decreases text.len(),
{
    if text.len() == 0 {
        Seq::empty()
    } else {
        match keycode_of(text.last()) {
            Some(k) => typed_keys(text.drop_last()).push(k),
            Option::None => typed_keys(text.drop_last()),
        }
    }
}

/// Press and release records, each with its SYN_REPORT, for each key.
pub open spec fn text_records_of(keys: Seq<u32>) -> Seq<OutputRecord>
    decreases keys.len(),
{
    if keys.len() == 0 {
        Seq::empty()
    } else {
        text_records_of(keys.drop_last()) + seq![
            key_record(keys.last() as u16, 1),
            syn(),
            key_record(keys.last() as u16, 0),
            syn(),
        ]
    }
}

/// The records that type `text` on a US keyboard.
pub fn text_records(text: &str) -> (r: Vec<OutputRecord>)
    ensures
        r@ == text_records_of(typed_keys(text@)),
{
    let chars = to_chars(text);
    let mut r: Vec<OutputRecord> = Vec::new();
    let mut i: usize = 0;
    while i < chars.len()
        invariant
            i <= chars@.len(),
            r@ == text_records_of(typed_keys(chars@.take(i as int))),
        decreases chars.len() - i,
    {
        assert(chars@.take(i + 1).drop_last() =~= chars@.take(i as int));
        match char_to_keycode(chars[i]) {
            Some(k) => {
                let ghost before = r@;
                r.push(OutputRecord { kind: EV_KEY, code: k as u16, value: 1 });
                r.push(OutputRecord { kind: EV_SYN, code: SYN_REPORT, value: 0 });
                r.push(OutputRecord { kind: EV_KEY, code: k as u16, value: 0 });
                r.push(OutputRecord { kind: EV_SYN, code: SYN_REPORT, value: 0 });
                let ghost keys = typed_keys(chars@.take(i + 1));
                assert(keys.drop_last() == typed_keys(chars@.take(i as int)));
                assert(r@ =~= before + seq![key_record(k as u16, 1), syn(), key_record(k as u16, 0), syn()]);
            },
            None => {},
        }
        i += 1;
    }
    assert(chars@.take(i as int) =~= text@);
    r
}

proof fn lemma_typed_keys_concat(a: Seq<char>, b: Seq<char>)
    ensures
        typed_keys(a + b) == typed_keys(a) + typed_keys(b),
    decreases b.len(),
{
    if b.len() == 0 {
        assert(a + b =~= a);
        assert(typed_keys(a) + typed_keys(b) =~= typed_keys(a));
    } else {
        lemma_typed_keys_concat(a, b.drop_last());
        assert((a + b).drop_last() =~= a + b.drop_last());
        assert((a + b).last() == b.last());
        match keycode_of(b.last()) {
            Some(k) => {
                assert(typed_keys(a) + typed_keys(b) =~= (typed_keys(a) + typed_keys(b.drop_last())).push(k));
            },
            Option::None => {},
        }
    }
}

proof fn lemma_text_records_concat(a: Seq<u32>, b: Seq<u32>)
    ensures
        text_records_of(a + b) == text_records_of(a) + text_records_of(b),
    decreases b.len(),
{
    if b.len() == 0 {
        assert(a + b =~= a);
        assert(text_records_of(a) + text_records_of(b) =~= text_records_of(a));
    } else {
        lemma_text_records_concat(a, b.drop_last());
        assert((a + b).drop_last() =~= a + b.drop_last());
        assert((a + b).last() == b.last());
        let tail = seq![key_record(b.last() as u16, 1), syn(), key_record(b.last() as u16, 0), syn()];
        assert(text_records_of(a) + text_records_of(b) =~= text_records_of(a) + text_records_of(b.drop_last()) + tail);
    }
}

/// Typing two texts one after the other queues the same records as typing
/// them joined.
pub proof fn law_text_typing_composes(a: Seq<char>, b: Seq<char>)
    ensures
        text_records_of(typed_keys(a + b)) == text_records_of(typed_keys(a)) + text_records_of(typed_keys(b)),
{
    lemma_typed_keys_concat(a, b);
    lemma_text_records_concat(typed_keys(a), typed_keys(b));
}

/// A virtual keyboard: the uinput device the host opened for it, and the
/// records queued for that device, oldest first. The host writes the queued
/// records to the device in order.
pub struct VirtualKeyboard {
    fd: i32,
    queued: Vec<OutputRecord>,
}

impl VirtualKeyboard {
    pub closed spec fn device(self) -> i32 {
        self.fd
    }

    /// The records not yet handed to the host.
    pub closed spec fn pending(self) -> Seq<OutputRecord> {
        self.queued@
    }

    /// A keyboard named `name` on the device `fd`; refused when uinput would
    /// not take the name.
    pub fn with_name(name: &str, fd: i32) -> (r: Result<VirtualKeyboard, VirtualKeyboardError>)
        ensures
            device_name_ok(name@) ==> (r matches Ok(k) && k.device() == fd && k.pending() == Seq::<
                OutputRecord,
            >::empty()),
            !device_name_ok(name@) ==> r == Err::<VirtualKeyboard, VirtualKeyboardError>(
                VirtualKeyboardError::InvalidName,
            ),
    {
        if valid_device_name(name) {
            Ok(VirtualKeyboard { fd, queued: Vec::new() })
        } else {
            Err(VirtualKeyboardError::InvalidName)
        }
    }

    pub fn fd(&self) -> (r: i32)
        ensures
            r == self.device(),
    {
        self.fd
    }

    /// Queues a key event and its SYN_REPORT.
    pub fn emit(&mut self, event: &InputEvent)
        ensures
            final(self).pending() == old(self).pending() + event_records(*event),
            final(self).device() == old(self).device(),
    {
        let mut r = key_event_records(event);
        self.queued.append(&mut r);
    }

    /// Queues one physical event as a frame of its own.
    pub fn emit_physical(&mut self, event: &PhysicalKeyEvent) -> (r: Result<(), VirtualKeyboardError>)
        ensures
            final(self).device() == old(self).device(),
            frame_code(*event) is None ==> r == Err::<(), VirtualKeyboardError>(
                VirtualKeyboardError::UnsupportedCode,
            ) && final(self).pending() == old(self).pending(),
            frame_code(*event) is Some ==> r is Ok && final(self).pending() == old(self).pending()
                + frame_keys(seq![*event]).push(syn()),
    {
        let mut frame: Vec<PhysicalKeyEvent> = Vec::new();
        frame.push(*event);
        assert(frame@ =~= seq![*event]);
        assert(frame@[0] == *event);
        self.emit_frame(frame.as_slice())
    }

    /// Queues one source frame: its key records and one SYN_REPORT; nothing
    /// when an event has a code the device cannot produce.
    pub fn emit_frame(&mut self, events: &[PhysicalKeyEvent]) -> (r: Result<(), VirtualKeyboardError>)
        ensures
            final(self).device() == old(self).device(),
            (exists|i: int| 0 <= i < events@.len() && frame_code(#[trigger] events@[i]) is None) ==> r
                == Err::<(), VirtualKeyboardError>(VirtualKeyboardError::UnsupportedCode)
                && final(self).pending() == old(self).pending(),
            (forall|i: int| 0 <= i < events@.len() ==> frame_code(#[trigger] events@[i]) is Some) ==> r
                is Ok && final(self).pending() == old(self).pending() + if events@.len() == 0 {
                Seq::<OutputRecord>::empty()
            } else {
                frame_keys(events@).push(syn())
            },
    {
        match frame_records(events) {
            Ok(mut records) => {
                self.queued.append(&mut records);
                Ok(())
            },
            Err(e) => Err(e),
        }
    }

    /// Queues a SYN_REPORT.
    pub fn emit_syn(&mut self)
        ensures
            final(self).pending() == old(self).pending().push(syn()),
            final(self).device() == old(self).device(),
    {
        self.queued.push(OutputRecord { kind: EV_SYN, code: SYN_REPORT, value: 0 });
    }

    /// Queues the records that type `text` on a US keyboard.
    pub fn emit_text(&mut self, text: &str)
        ensures
            final(self).pending() == old(self).pending() + text_records_of(typed_keys(text@)),
            final(self).device() == old(self).device(),
    {
        let mut r = text_records(text);
        self.queued.append(&mut r);
    }

    /// Hands the queued records to the host, oldest first.
    pub fn take_pending(&mut self) -> (r: Vec<OutputRecord>)
        ensures
            r@ == old(self).pending(),
            final(self).pending() == Seq::<OutputRecord>::empty(),
            final(self).device() == old(self).device(),
    {
        let mut taken: Vec<OutputRecord> = Vec::new();
        std::mem::swap(&mut taken, &mut self.queued);
        taken
    }
}

/// The key typed for a character is the key that carries it on the US
/// keyboard: the character at each position of `US` (all of the unshifted
/// half, the letters of the shifted half) is typed with the evdev key at that
/// position of the layout.
pub proof fn law_keys_follow_layout(i: int)
    requires
        0 <= i < 66,
        i < 33 || ('A' <= US@[i] && US@[i] <= 'Z'),
    ensures
        keycode_of(US@[i]) matches Some(k) && k == layout_keycode(i),
{
    reveal_strlit("`qwertyuiop[]asdfghjkl;'zxcvbnm,.~QWERTYUIOP{}ASDFGHJKL:\"ZXCVBNM<>");
    reveal_strlit("ёйцукенгшщзхъфывапролджэячсмитьбюЁЙЦУКЕНГШЩЗХЪФЫВАПРОЛДЖЭЯЧСМИТЬБЮ");
    if i == 0 {} else if i == 1 {} else if i == 2 {} else if i == 3 {} else if i == 4 {} else if i == 5 {} else if i == 6 {} else if i == 7 {} else if i == 8 {} else if i == 9 {} else if i == 10 {} else if i == 11 {} else if i == 12 {} else if i == 13 {} else if i == 14 {} else if i == 15 {} else if i == 16 {} else if i == 17 {} else if i == 18 {} else if i == 19 {} else if i == 20 {} else if i == 21 {} else if i == 22 {} else if i == 23 {} else if i == 24 {} else if i == 25 {} else if i == 26 {} else if i == 27 {} else if i == 28 {} else if i == 29 {} else if i == 30 {} else if i == 31 {} else if i == 32 {} else if i == 33 {} else if i == 34 {} else if i == 35 {} else if i == 36 {} else if i == 37 {} else if i == 38 {} else if i == 39 {} else if i == 40 {} else if i == 41 {} else if i == 42 {} else if i == 43 {} else if i == 44 {} else if i == 45 {} else if i == 46 {} else if i == 47 {} else if i == 48 {} else if i == 49 {} else if i == 50 {} else if i == 51 {} else if i == 52 {} else if i == 53 {} else if i == 54 {} else if i == 55 {} else if i == 56 {} else if i == 57 {} else if i == 58 {} else if i == 59 {} else if i == 60 {} else if i == 61 {} else if i == 62 {} else if i == 63 {} else if i == 64 {} else {}
}

/// The keys off the letter rows: digit `d` is on the key `d + 1` of the top
/// row, with `0` after `9` and then `-` and `=`; `\\` is key 43 and `/`
/// follows `.`; Space, Enter and Tab are keys 57, 28 and 15.
pub proof fn law_other_keys_follow_layout(d: u32)
    requires
        d <= 9,
    ensures
        keycode_of(char_of_digit(d)) == Some(if d == 0 { 11u32 } else { (d + 1) as u32 }),
        keycode_of('-') == Some(12u32),
        keycode_of('=') == Some(13u32),
        keycode_of('\\') == Some(43u32),
        keycode_of('/') == Some(53u32),
        keycode_of(' ') == Some(57u32),
        keycode_of('\n') == Some(28u32),
        keycode_of('\t') == Some(15u32),
{
}

/// The decimal digit `d` as a character.
pub open spec fn char_of_digit(d: u32) -> char {
    (d + 48) as char
}

} // verus!
