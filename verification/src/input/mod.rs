//! Key input from Linux evdev devices: raw records to typed transport events,
//! frame assembly with loss recovery, and the control-channel protocol.
//! Opening, grabbing and reading devices is the host's part.
pub mod capabilities;
pub mod discovery;
pub mod frames;

pub mod relay;

use crate::event::{
    DeviceId, EventOrigin, KeyAction, NativeCode, NativeEvdevCode, PhysicalKeyCode, PhysicalKeyEvent,
};
use crate::text::{decimal, push_char, push_decimal, texts, to_chars};
use crate::time::{Duration, Instant};
use vstd::prelude::*;

verus! {

/// Bytes in a key-state bitmap: one bit for each of the 0x300 key codes.
pub const KEY_STATE_BYTES: usize = 96;

/// The action of a kernel EV_KEY value: 0 release, 1 press, 2 autorepeat.
pub open spec fn action_of(value: i32) -> Option<KeyAction> {
    if value == 0 {
        Some(KeyAction::Up)
    } else if value == 1 {
        Some(KeyAction::Down)
    } else if value == 2 {
        Some(KeyAction::Repeat)
    } else {
        None
    }
}

/// Maps the kernel EV_KEY event value to a transport action; any other value
/// is not a state transition and is filtered out.
pub fn evdev_value_to_action(value: i32) -> (r: Option<KeyAction>)
    ensures
        r == action_of(value),
{
    match value {
        0 => Some(KeyAction::Up),
        1 => Some(KeyAction::Down),
        2 => Some(KeyAction::Repeat),
        _ => None,
    }
}

/// evdev and uinput share one keycode space: the physical key is the code.
pub fn evdev_keycode_identity(code: u16) -> (k: PhysicalKeyCode)
    ensures
        k == PhysicalKeyCode(code),
{
    PhysicalKeyCode(code)
}

/// The transport event for one raw EV_KEY record.
pub open spec fn key_event_of(
    device_id: DeviceId,
    sequence: u64,
    code: u16,
    action: KeyAction,
    source_time: Instant,
    origin: EventOrigin,
) -> PhysicalKeyEvent {
    PhysicalKeyEvent {
        device_id,
        native_code: NativeCode::Evdev(NativeEvdevCode(code)),
        physical_key: PhysicalKeyCode(code),
        action,
        source_time,
        observed_time: source_time,
        sequence,
        origin,
    }
}

/// Converts one raw EV_KEY record; `None` for a value that is no transition.
pub fn convert_ev_key_event(
    device_id: DeviceId,
    sequence: u64,
    code: u16,
    value: i32,
    source_time: Instant,
) -> (r: Option<PhysicalKeyEvent>)
    ensures
        match action_of(value) {
            Some(a) => r == Some(
                key_event_of(device_id, sequence, code, a, source_time, EventOrigin::Physical),
            ),
            Option::None => r is None,
        },
{
    let action = match evdev_value_to_action(value) {
        Some(a) => a,
        None => {
            return None;
        },
    };
    Some(
        PhysicalKeyEvent {
            device_id,
            native_code: NativeCode::Evdev(NativeEvdevCode(code)),
            physical_key: evdev_keycode_identity(code),
            action,
            source_time,
            observed_time: source_time,
            sequence,
            origin: EventOrigin::Physical,
        },
    )
}

/// Whether key `code` is set in a key-state bitmap.
pub open spec fn key_bit(state: Seq<u8>, code: int) -> bool {
    (state[code / 8] >> ((code % 8) as u8)) & 1u8 == 1u8
}

/// The transitions from `old` to `new` among the codes below `n`, in code
/// order: a press for a newly set bit, a release for a cleared one.
pub open spec fn deltas_below(old: Seq<u8>, new: Seq<u8>, n: int) -> Seq<(u16, KeyAction)>
    decreases n,
{
    if n <= 0 {
        Seq::empty()
    } else {
        let rest = deltas_below(old, new, n - 1);
        let c = n - 1;
        if key_bit(old, c) != key_bit(new, c) {
            rest.push(
                (
                    c as u16,
                    if key_bit(new, c) {
                        KeyAction::Down
                    } else {
                        KeyAction::Up
                    },
                ),
            )
        } else {
            rest
        }
    }
}

proof fn lemma_bit_test(a: u8, b: u8, k: u8)
    requires
        k < 8,
    ensures
        ((a ^ b) & (1u8 << k) != 0) == (((a >> k) & 1u8 == 1u8) != ((b >> k) & 1u8 == 1u8)),
        ((b & (1u8 << k)) != 0) == ((b >> k) & 1u8 == 1u8),
{
    assert(((a ^ b) & (1u8 << k) != 0) == (((a >> k) & 1u8 == 1u8) != ((b >> k) & 1u8 == 1u8)))
        by (bit_vector)
        requires
            k < 8,
    ;
    assert(((b & (1u8 << k)) != 0) == ((b >> k) & 1u8 == 1u8)) by (bit_vector)
        requires
            k < 8,
    ;
}

/// The Up/Down deltas between two key-state snapshots, in code order. While a
/// kernel buffer overflow is in progress only the current state is
/// trustworthy, so this is what reconstructs the holds.
pub fn resync_deltas(old: &[u8; 96], new: &[u8; 96]) -> (r: Vec<(u16, KeyAction)>)
    ensures
        r@ == deltas_below(old@, new@, 768),
{
    let mut deltas: Vec<(u16, KeyAction)> = Vec::new();
    let mut byte: usize = 0;
    while byte < KEY_STATE_BYTES
        invariant
            byte <= 96,
            old@.len() == 96,
            new@.len() == 96,
            deltas@ == deltas_below(old@, new@, byte * 8),
        decreases 96 - byte,
    {
        let diff = old[byte] ^ new[byte];
        let mut bit: u8 = 0;
        while bit < 8
            invariant
                byte < 96,
                bit <= 8,
                old@.len() == 96,
                new@.len() == 96,
                diff == old@[byte as int] ^ new@[byte as int],
                deltas@ == deltas_below(old@, new@, byte * 8 + bit),
            decreases 8 - bit,
        {
            let code: u16 = (byte as u16) * 8 + bit as u16;
            proof {
                lemma_bit_test(old@[byte as int], new@[byte as int], bit);
                assert(code / 8 == byte && code % 8 == bit) by (nonlinear_arith)
                    requires
                        code == byte * 8 + bit,
                        bit < 8,
                ;
            }
            if diff & (1u8 << bit) != 0 {
                let now_held = new[byte] & (1u8 << bit) != 0;
                deltas.push(
                    (
                        code,
                        if now_held {
                            KeyAction::Down
                        } else {
                            KeyAction::Up
                        },
                    ),
                );
            }
            bit += 1;
        }
        byte += 1;
    }
    deltas
}

/// A fixed pairing of a kernel CLOCK_MONOTONIC reading with a time point, so
/// record times map to time points without consulting the wall clock.
#[derive(Clone, Copy, Debug)]
pub struct MonotonicClock {
    pub kernel: Duration,
    pub instant: Instant,
}

#[derive(Clone, Copy, Debug, PartialEq, Eq, Structural)]
pub enum ClockError {
    /// Negative seconds or microseconds outside `0..1_000_000`.
    InvalidTimestamp,
    /// The mapped time point does not fit the time range.
    OutOfRange,
}

/// A record time in nanoseconds.
pub open spec fn record_nanos(sec: i64, usec: i64) -> int {
    sec * 1_000_000_000 + usec * 1000
}

/// Where `convert` maps a record time, when the time point exists.
pub open spec fn mapped_nanos(clock: MonotonicClock, sec: i64, usec: i64) -> int {
    clock.instant.nanos + (record_nanos(sec, usec) - clock.kernel.nanos)
}

/// What `convert` answers.
pub open spec fn convert_spec(clock: MonotonicClock, sec: i64, usec: i64) -> Result<Instant, ClockError> {
    if !(sec >= 0 && 0 <= usec < 1_000_000) {
        Err(ClockError::InvalidTimestamp)
    } else if 0 <= mapped_nanos(clock, sec, usec) <= u64::MAX {
        Ok(Instant { nanos: mapped_nanos(clock, sec, usec) as u64 })
    } else {
        Err(ClockError::OutOfRange)
    }
}

impl MonotonicClock {
    pub fn new(kernel: Duration, instant: Instant) -> (c: MonotonicClock)
        ensures
            c.kernel == kernel,
            c.instant == instant,
    {
        MonotonicClock { kernel, instant }
    }

    /// The time point of a record stamped `sec` seconds and `usec`
    /// microseconds on the kernel clock.
    pub fn convert(&self, sec: i64, usec: i64) -> (r: Result<Instant, ClockError>)
        ensures
            r == convert_spec(*self, sec, usec),
    {
        if !(sec >= 0 && 0 <= usec && usec < 1_000_000) {
            return Err(ClockError::InvalidTimestamp);
        }
        let time: i128 = (sec as i128) * 1_000_000_000 + (usec as i128) * 1000;
        let mapped: i128 = (self.instant.nanos as i128) + time - (self.kernel.nanos as i128);
        if 0 <= mapped && mapped <= u64::MAX as i128 {
            Ok(Instant { nanos: mapped as u64 })
        } else {
            Err(ClockError::OutOfRange)
        }
    }
}

/// The lines of `s` that end with a newline, and what follows the last one.
pub open spec fn scan_lines(s: Seq<char>) -> (Seq<Seq<char>>, Seq<char>)
    decreases s.len(),
{
    if s.len() == 0 {
        (Seq::empty(), Seq::empty())
    } else {
        let (lines, current) = scan_lines(s.drop_last());
        if s.last() == '\n' {
            (lines.push(current), Seq::empty())
        } else {
            (lines, current.push(s.last()))
        }
    }
}

/// Complete control messages (a path line, then a name line) and the text
/// that is not yet a complete message, kept verbatim for the next read.
pub open spec fn control_messages(buf: Seq<char>) -> (Seq<(Seq<char>, Seq<char>)>, Seq<char>) {
    let (lines, tail) = scan_lines(buf);
    let total = lines.len();
    let pairs = total / 2;
    let messages = Seq::new(pairs, |i: int| (lines[2 * i], lines[2 * i + 1]));
    if lines.len() % 2 == 1 {
        (messages, lines.last() + seq!['\n'] + tail)
    } else {
        (messages, tail)
    }
}

/// Splits the accumulated control-channel text into complete `(path, name)`
/// messages and the unfinished rest. Reparsing the rest with the next read
/// converges to the true messages wherever a read splits them.
pub fn parse_control_messages(buf: &str) -> (r: (Vec<(String, String)>, String))
    ensures
        r.0@.len() == control_messages(buf@).0.len(),
        forall|i: int|
            0 <= i < r.0@.len() ==> (#[trigger] r.0@[i]).0@ == control_messages(buf@).0[i].0
                && r.0@[i].1@ == control_messages(buf@).0[i].1,
        r.1@ == control_messages(buf@).1,
{
    let chars = to_chars(buf);
    let mut lines: Vec<String> = Vec::new();
    let mut current = String::new();
    let mut i: usize = 0;
    while i < chars.len()
        invariant
            i <= chars@.len(),
            lines@.len() == scan_lines(chars@.take(i as int)).0.len(),
            forall|j: int|
                0 <= j < lines@.len() ==> (#[trigger] lines@[j])@ == scan_lines(
                    chars@.take(i as int),
                ).0[j],
            current@ == scan_lines(chars@.take(i as int)).1,
        decreases chars.len() - i,
    {
        assert(chars@.take(i + 1).drop_last() =~= chars@.take(i as int));
        if chars[i] == '\n' {
            let mut done = String::new();
            std::mem::swap(&mut done, &mut current);
            lines.push(done);
        } else {
            push_char(&mut current, chars[i]);
        }
        i += 1;
    }
    assert(chars@.take(i as int) =~= buf@);
    let ghost all = scan_lines(buf@).0;
    let total = lines.len();
    let pairs = total / 2;
    let mut messages: Vec<(String, String)> = Vec::new();
    let mut k: usize = 0;
    while k < pairs
        invariant
            pairs == lines@.len() / 2,
            total == lines@.len(),
            lines@.len() == all.len(),
            forall|j: int| 0 <= j < lines@.len() ==> (#[trigger] lines@[j])@ == all[j],
            k <= pairs,
            messages@.len() == k,
            forall|j: int|
                0 <= j < k ==> (#[trigger] messages@[j]).0@ == all[2 * j] && messages@[j].1@ == all[2
                    * j + 1],
        decreases pairs - k,
    {
        assert(2 * k + 1 < lines@.len()) by (nonlinear_arith)
            requires
                k < pairs,
                pairs == lines@.len() / 2,
        ;
        let path = lines[2 * k].clone();
        let name = lines[2 * k + 1].clone();
        messages.push((path, name));
        k += 1;
    }
    let leftover = if lines.len() % 2 == 1 {
        let mut l = lines[lines.len() - 1].clone();
        push_char(&mut l, '\n');
        l.append(current.as_str());
        l
    } else {
        current
    };
    proof {
        let (ls, tail) = scan_lines(buf@);
        if ls.len() % 2 == 1 {
            assert(leftover@ =~= ls.last() + seq!['\n'] + tail);
        }
    }
    (messages, leftover)
}

/// The most devices the relay holds at once.
pub const MAX_DEVICES: usize = 32;

/// Whether a device requested over the control channel is attached: its path
/// is not empty, no attached device has it, and fewer than `MAX_DEVICES` are
/// attached.
pub fn admits_device(attached: &[String], path: &str) -> (b: bool)
    ensures
        b == (path@.len() > 0 && !texts(attached@).contains(path@) && attached@.len() < MAX_DEVICES),
{
    if crate::text::str_len(path) == 0 || attached.len() >= MAX_DEVICES {
        return false;
    }
    let mut i: usize = 0;
    while i < attached.len()
        invariant
            i <= attached@.len(),
            forall|j: int| 0 <= j < i ==> texts(attached@)[j] != path@,
        decreases attached.len() - i,
    {
        if crate::text::str_eq(attached[i].as_str(), path) {
            assert(texts(attached@)[i as int] == path@);
            return false;
        }
        i += 1;
    }
    true
}

/// Failures of a key device.
#[derive(Debug, Clone, PartialEq, Eq)]
pub enum DeviceError {
    Disconnected(String),
    ReadFailed(String, i32),
    NoDevicesFound,
}

impl DeviceError {
    /// The error message.
    pub fn message(&self) -> (s: String)
        ensures
            s@ == match *self {
                DeviceError::Disconnected(p) => "device disconnected: "@ + p@,
                DeviceError::ReadFailed(p, errno) => "read failed on "@ + p@ + ": errno "@ + (if errno
                    < 0 {
                    seq!['-'] + decimal((-errno) as nat)
                } else {
                    decimal(errno as nat)
                }),
                DeviceError::NoDevicesFound => "no keyboard devices found"@,
            },
    {
        match self {
            DeviceError::Disconnected(p) => {
                let mut s = String::from_str("device disconnected: ");
                s.append(p.as_str());
                s
            },
            DeviceError::ReadFailed(p, errno) => {
                let mut s = String::from_str("read failed on ");
                s.append(p.as_str());
                s.append(": errno ");
                if *errno < 0 {
                    push_char(&mut s, '-');
                    push_decimal(&mut s, (-(*errno as i64)) as u64);
                } else {
                    push_decimal(&mut s, *errno as u64);
                }
                s
            },
            DeviceError::NoDevicesFound => String::from_str("no keyboard devices found"),
        }
    }
}

} // verus!
