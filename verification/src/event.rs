//! Key events: physical transport events and the legacy character events.
use crate::clock::Clock;
use crate::text::{decimal, decimal_string, push_decimal};
use crate::time::Instant;
use vstd::prelude::*;

verus! {

#[derive(Debug, Clone, Copy, PartialEq, Eq, Hash, Structural)]
pub enum KeyAction {
    Down,
    Up,
    Repeat,
}

impl KeyAction {
    /// The action's name, as `Display` shows it.
    pub fn to_display_string(&self) -> (s: String)
        ensures
            s@ == match *self {
                KeyAction::Down => "Down"@,
                KeyAction::Up => "Up"@,
                KeyAction::Repeat => "Repeat"@,
            },
    {
        match self {
            KeyAction::Down => String::from_str("Down"),
            KeyAction::Up => String::from_str("Up"),
            KeyAction::Repeat => String::from_str("Repeat"),
        }
    }
}

#[derive(Debug, Clone, Copy, PartialEq, Eq, Hash, Structural)]
pub struct DeviceId(pub u64);

impl DeviceId {
    /// The device of events whose source is not known.
    pub open spec fn unknown_spec() -> DeviceId {
        DeviceId(0)
    }

    /// The device of events whose source is not known.
    #[verifier::when_used_as_spec(unknown_spec)]
    pub fn unknown() -> (d: DeviceId)
        ensures
            d == DeviceId(0),
    {
        DeviceId(0)
    }

    /// `Device(N)`.
    pub fn to_display_string(&self) -> (s: String)
        ensures
            s@ == "Device("@ + decimal(self.0 as nat) + ")"@,
    {
        let mut s = String::from_str("Device(");
        push_decimal(&mut s, self.0);
        s.append(")");
        s
    }
}

#[derive(Debug, Clone, Copy, PartialEq, Eq, Hash, Structural)]
pub struct DeviceGeneration(pub u64);

#[derive(Debug, Clone, Copy, PartialEq, Eq, Hash, Structural)]
pub struct NativeEvdevCode(pub u16);

#[derive(Debug, Clone, Copy, PartialEq, Eq, Hash, Structural)]
pub struct PhysicalKeyCode(pub u16);

#[derive(Debug, Clone, Copy, PartialEq, Eq, Hash, Structural)]
pub enum NativeCode {
    Evdev(NativeEvdevCode),
    Unknown(u32),
}

#[derive(Debug, Clone, Copy, PartialEq, Eq, Hash, Structural)]
pub enum EventOrigin {
    Physical,
    HardwareRelay(DeviceId, DeviceGeneration),
    TextInjection(u64),
    /// Key state reconstructed after a kernel buffer overflow: the current hold
    /// state only, never fresh presses.
    Resync,
    OtherSynthetic,
    Unknown,
}

impl EventOrigin {
    /// The origin as `Display` shows it, e.g. `HardwareRelay(Device(1), gen=2)`.
    pub fn to_display_string(&self) -> (s: String)
        ensures
            s@ == match *self {
                EventOrigin::Physical => "Physical"@,
                EventOrigin::HardwareRelay(dev, gen) => "HardwareRelay("@ + ("Device("@ + decimal(
                    dev.0 as nat,
                ) + ")"@) + ", gen="@ + decimal(gen.0 as nat) + ")"@,
                EventOrigin::TextInjection(id) => "TextInjection("@ + decimal(id as nat) + ")"@,
                EventOrigin::Resync => "Resync"@,
                EventOrigin::OtherSynthetic => "OtherSynthetic"@,
                EventOrigin::Unknown => "Unknown"@,
            },
    {
        match self {
            EventOrigin::Physical => String::from_str("Physical"),
            EventOrigin::HardwareRelay(dev, gen) => {
                let mut s = String::from_str("HardwareRelay(");
                let d = dev.to_display_string();
                s.append(d.as_str());
                s.append(", gen=");
                push_decimal(&mut s, gen.0);
                s.append(")");
                s
            },
            EventOrigin::TextInjection(id) => {
                let mut s = String::from_str("TextInjection(");
                push_decimal(&mut s, *id);
                s.append(")");
                s
            },
            EventOrigin::Resync => String::from_str("Resync"),
            EventOrigin::OtherSynthetic => String::from_str("OtherSynthetic"),
            EventOrigin::Unknown => String::from_str("Unknown"),
        }
    }
}

/// One physical key transition with its identity and timing.
#[derive(Debug, Clone, Copy)]
pub struct PhysicalKeyEvent {
    pub device_id: DeviceId,
    pub native_code: NativeCode,
    pub physical_key: PhysicalKeyCode,
    pub action: KeyAction,
    pub source_time: Instant,
    pub observed_time: Instant,
    pub sequence: u64,
    pub origin: EventOrigin,
}

impl PhysicalKeyEvent {
    /// An event from an unknown device and origin, timed now by `clock`.
    pub fn new<C: Clock>(
        native_code: NativeCode,
        physical_key: PhysicalKeyCode,
        action: KeyAction,
        clock: &C,
    ) -> (e: PhysicalKeyEvent)
        ensures
            e.device_id == DeviceId::unknown(),
            e.native_code == native_code,
            e.physical_key == physical_key,
            e.action == action,
            e.source_time == e.observed_time,
            clock.fixed_reading() matches Some(t) ==> e.source_time == t,
            e.sequence == 0,
            e.origin == EventOrigin::Unknown,
    {
        let now = clock.now();
        PhysicalKeyEvent {
            device_id: DeviceId::unknown(),
            native_code,
            physical_key,
            action,
            source_time: now,
            observed_time: now,
            sequence: 0,
            origin: EventOrigin::Unknown,
        }
    }

    pub fn with_device(self, device_id: DeviceId) -> (e: PhysicalKeyEvent)
        ensures
            e == (PhysicalKeyEvent { device_id, ..self }),
    {
        PhysicalKeyEvent { device_id, ..self }
    }

    pub fn with_origin(self, origin: EventOrigin) -> (e: PhysicalKeyEvent)
        ensures
            e == (PhysicalKeyEvent { origin, ..self }),
    {
        PhysicalKeyEvent { origin, ..self }
    }

    pub fn with_source_time(self, time: Instant) -> (e: PhysicalKeyEvent)
        ensures
            e == (PhysicalKeyEvent { source_time: time, ..self }),
    {
        PhysicalKeyEvent { source_time: time, ..self }
    }

    pub fn with_sequence(self, seq: u64) -> (e: PhysicalKeyEvent)
        ensures
            e == (PhysicalKeyEvent { sequence: seq, ..self }),
    {
        PhysicalKeyEvent { sequence: seq, ..self }
    }

    pub fn is_down(&self) -> (b: bool)
        ensures
            b == (self.action == KeyAction::Down),
    {
        matches!(self.action, KeyAction::Down)
    }

    pub fn is_up(&self) -> (b: bool)
        ensures
            b == (self.action == KeyAction::Up),
    {
        matches!(self.action, KeyAction::Up)
    }

    pub fn is_repeat(&self) -> (b: bool)
        ensures
            b == (self.action == KeyAction::Repeat),
    {
        matches!(self.action, KeyAction::Repeat)
    }
}

#[derive(Debug, Clone, Copy, PartialEq, Eq, Structural)]
pub enum KeyState {
    Pressed,
    Released,
}

/// A key press or release with the character it produced, if known.
#[derive(Debug, Clone, Copy)]
pub struct InputEvent {
    pub keycode: u32,
    pub state: KeyState,
    pub timestamp: Instant,
    pub character: Option<char>,
}

/// Calls `std::time::SystemTime::now`; the reading, in nanoseconds since the
/// Unix epoch (zero before it, the largest value past it), is whatever the
/// system clock shows and nothing is stated of it.
#[verifier::external_body]
pub(crate) fn current_time() -> Instant {
    let since_epoch = std::time::SystemTime::now().duration_since(std::time::UNIX_EPOCH);
    Instant::from_nanos(since_epoch.map(|d| u64::try_from(d.as_nanos()).unwrap_or(u64::MAX)).unwrap_or(0))
}

impl InputEvent {
    /// An event timed at the current time, with no character.
    pub fn new(keycode: u32, state: KeyState) -> (e: InputEvent)
        ensures
            e.keycode == keycode,
            e.state == state,
            e.character is None,
    {
        InputEvent { keycode, state, timestamp: current_time(), character: None }
    }

    pub fn with_character(self, ch: char) -> (e: InputEvent)
        ensures
            e == (InputEvent { character: Some(ch), ..self }),
    {
        InputEvent { character: Some(ch), ..self }
    }

    pub fn with_timestamp(self, ts: Instant) -> (e: InputEvent)
        ensures
            e == (InputEvent { timestamp: ts, ..self }),
    {
        InputEvent { timestamp: ts, ..self }
    }
}

} // verus!
