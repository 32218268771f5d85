use typetune::event::{
    DeviceId, EventOrigin, KeyAction, NativeCode, NativeEvdevCode, PhysicalKeyEvent,
};
use typetune::input::capabilities::{validate, CapabilityError};
use typetune::input::frames::{
    FrameAssembler, RawRecord, Step, EV_KEY, EV_SYN, SYN_DROPPED, SYN_REPORT,
};
use typetune::input::relay::{FrameSink, KeySink, Relay};
use typetune::input::{
    convert_ev_key_event, evdev_value_to_action, parse_control_messages, resync_deltas, ClockError,
    DeviceError, MonotonicClock, KEY_STATE_BYTES,
};
use typetune::time::{Duration, Instant};

fn now() -> Instant {
    Instant::from_nanos(7_000_000_000)
}

#[test]
fn in06_parse_control_single_message() {
    assert_eq!(
        parse_control_messages("/dev/input/event9\nFoo Bar\n"),
        (vec![("/dev/input/event9".into(), "Foo Bar".into())], String::new())
    );
}

#[test]
fn in06_parse_control_two_messages() {
    let (req, pend) = parse_control_messages("p1\nn1\np2\nn2\n");
    assert_eq!(req, vec![("p1".into(), "n1".into()), ("p2".into(), "n2".into())]);
    assert!(pend.is_empty());
}

#[test]
fn in06_parse_control_split_across_drains() {
    let (_, pend) = parse_control_messages("/dev/input/event9\nFo");
    assert_eq!(pend, "/dev/input/event9\nFo");
    let (req, pend) = parse_control_messages("/dev/input/event9\nFo");
    let (req2, pend2) = parse_control_messages(&format!("{}o\n", pend));
    assert!(req.is_empty());
    assert_eq!(req2, vec![("/dev/input/event9".into(), "Foo".into())]);
    assert!(pend2.is_empty());
}

#[test]
fn in06_parse_control_split_after_path_newline() {
    let (req, pend) = parse_control_messages("dev\n");
    assert!(req.is_empty());
    assert_eq!(pend, "dev\n");
    let (req, pend2) = parse_control_messages(&format!("{}name\n", pend));
    assert_eq!(req, vec![("dev".into(), "name".into())]);
    assert!(pend2.is_empty());
}

#[test]
fn in06_parse_control_split_inside_path() {
    let (req, pend) = parse_control_messages("/dev/input/even");
    assert!(req.is_empty());
    assert_eq!(pend, "/dev/input/even");
    let (req, pend2) = parse_control_messages(&format!("{}t9\nFoo\n", pend));
    assert_eq!(req, vec![("/dev/input/event9".into(), "Foo".into())]);
    assert!(pend2.is_empty());
}

#[test]
fn in06_parse_control_empty() {
    let (req, pend) = parse_control_messages("");
    assert!(req.is_empty());
    assert!(pend.is_empty());
}

#[test]
fn in06_parse_control_exact_boundary_after_name() {
    let (req, pend) = parse_control_messages("dev\nN");
    assert!(req.is_empty());
    assert_eq!(pend, "dev\nN");
}

#[test]
fn evdev_value_maps_to_action() {
    assert_eq!(evdev_value_to_action(0), Some(KeyAction::Up));
    assert_eq!(evdev_value_to_action(1), Some(KeyAction::Down));
    assert_eq!(evdev_value_to_action(2), Some(KeyAction::Repeat));
    assert_eq!(evdev_value_to_action(-1), None);
    assert_eq!(evdev_value_to_action(3), None);
    assert_eq!(evdev_value_to_action(100), None);
}

#[test]
fn in01_identity_keycode_preserved_across_physical_surface() {
    for code in [1, 2, 3, 6, 7, 28, 30, 42, 54, 256, 274] {
        let event = convert_ev_key_event(DeviceId(1), 0, code, 1, now()).expect("valid Down event");
        assert_eq!(event.physical_key.0, code);
        assert_eq!(event.action, KeyAction::Down);
        match event.native_code {
            NativeCode::Evdev(NativeEvdevCode(c)) => assert_eq!(c, code),
            _ => panic!("expected Evdev native code"),
        }
    }
}

#[test]
fn in02_repeat_stream_preserved_as_distinct_actions() {
    let ts = now();
    let down = convert_ev_key_event(DeviceId(1), 0, 30, 1, ts).unwrap();
    let repeat1 = convert_ev_key_event(DeviceId(1), 1, 30, 2, ts).unwrap();
    let repeat2 = convert_ev_key_event(DeviceId(1), 2, 30, 2, ts).unwrap();
    let up = convert_ev_key_event(DeviceId(1), 3, 30, 0, ts).unwrap();
    assert_eq!(down.action, KeyAction::Down);
    assert_eq!(repeat1.action, KeyAction::Repeat);
    assert_eq!(repeat2.action, KeyAction::Repeat);
    assert_eq!(up.action, KeyAction::Up);
    assert!(!repeat1.is_up(), "autorepeat must not collapse into Up");
    assert!(repeat1.is_repeat());
    assert_ne!(repeat1.action, down.action);
    assert_ne!(repeat1.action, up.action);
}

#[test]
fn source_time_and_sequence_carried_on_event() {
    let ts = now();
    let event = convert_ev_key_event(DeviceId(7), 42, 30, 1, ts).unwrap();
    assert_eq!(event.device_id, DeviceId(7));
    assert_eq!(event.sequence, 42);
    assert_eq!(event.source_time, ts);
    assert_eq!(event.origin, EventOrigin::Physical);
}

#[test]
fn monotonic_clock_keeps_deltas_without_realtime_samples() {
    let clock = MonotonicClock::new(Duration::from_secs(10), now());
    let a = clock.convert(10, 900_000).unwrap();
    let b = clock.convert(11, 0).unwrap();
    assert_eq!(b.saturating_duration_since(a), Duration::from_millis(100));
    assert_eq!(clock.convert(10, 0).unwrap(), clock.instant);
    assert!(clock.convert(-1, 0).is_err());
    assert!(clock.convert(10, 1_000_000).is_err());
}

#[test]
fn monotonic_clock_refuses_times_outside_the_range() {
    let clock = MonotonicClock::new(Duration::from_secs(10), Instant::from_nanos(0));
    assert_eq!(clock.convert(9, 0), Err(ClockError::OutOfRange));
    assert_eq!(clock.convert(-1, 0), Err(ClockError::InvalidTimestamp));
}

#[test]
fn resync_deltas_reports_hold_and_release() {
    let mut old = [0u8; KEY_STATE_BYTES];
    let mut new = [0u8; KEY_STATE_BYTES];
    old[3] |= 1 << 6;
    new[3] |= 1 << 6;
    new[5] |= 1 << 6;
    assert_eq!(resync_deltas(&old, &new), vec![(46, KeyAction::Down)]);
}

#[test]
fn resync_deltas_reports_release() {
    let mut old = [0u8; KEY_STATE_BYTES];
    let new = [0u8; KEY_STATE_BYTES];
    old[0] |= 1;
    assert_eq!(resync_deltas(&old, &new), vec![(0, KeyAction::Up)]);
}

#[test]
fn resync_deltas_handles_adjacent_bits() {
    let old = [0u8; KEY_STATE_BYTES];
    let mut new = [0u8; KEY_STATE_BYTES];
    new[1] |= 0b11;
    let deltas = resync_deltas(&old, &new);
    assert_eq!(deltas.len(), 2);
    assert!(deltas.contains(&(8, KeyAction::Down)));
    assert!(deltas.contains(&(9, KeyAction::Down)));
}

#[test]
fn resync_deltas_empty_on_identical_state() {
    let state = [0u8; KEY_STATE_BYTES];
    assert!(resync_deltas(&state, &state).is_empty());
}

#[test]
fn composite_pointer_and_unknown_types_are_rejected() {
    assert!(validate(&[0, 1, 2], &[30]).is_err());
    assert!(validate(&[0, 1, 3], &[30]).is_err());
    assert!(validate(&[0, 1, 31], &[30]).is_err());
}

#[test]
fn invalid_or_absent_keys_are_rejected() {
    assert!(validate(&[0], &[]).is_err());
    assert!(validate(&[0, 1], &[0x300]).is_err());
    assert!(validate(&[0, 1], &[0]).is_err());
    assert!(validate(&[0, 1, 4, 17, 20], &[1, 30, 274, 0x2ff]).is_ok());
}

#[test]
fn capability_errors_name_the_reason() {
    assert_eq!(validate(&[0, 2], &[30]), Err(CapabilityError::UnsupportedType(2)));
    assert_eq!(
        CapabilityError::UnsupportedType(2).message(),
        "unsupported input event type 2; key-only relay cannot grab this device"
    );
    assert_eq!(validate(&[1], &[]), Err(CapabilityError::NoKeys));
}

#[test]
fn device_errors_read_like_messages() {
    assert_eq!(DeviceError::Disconnected("/dev/x".into()).message(), "device disconnected: /dev/x");
    assert_eq!(DeviceError::ReadFailed("/dev/x".into(), 5).message(), "read failed on /dev/x: errno 5");
    assert_eq!(DeviceError::NoDevicesFound.message(), "no keyboard devices found");
}

fn event(device: u64, code: u16, value: i32) -> PhysicalKeyEvent {
    convert_ev_key_event(DeviceId(device), 17, code, value, now()).unwrap()
}

struct Frames(Vec<Vec<(u16, KeyAction)>>);

impl FrameSink for Frames {
    fn write_frame(&mut self, frame: &[PhysicalKeyEvent]) -> Result<(), String> {
        self.0.push(frame.iter().map(|e| (e.physical_key.0, e.action)).collect());
        Ok(())
    }
}

struct Failing(usize);

impl FrameSink for Failing {
    fn write_frame(&mut self, _: &[PhysicalKeyEvent]) -> Result<(), String> {
        self.0 += 1;
        Err("partial frame write".into())
    }
}

impl KeySink for Failing {
    fn write(&mut self, _: &PhysicalKeyEvent) -> Result<(), String> {
        self.0 += 1;
        Err("injected output failure".into())
    }
}

struct Actions(Vec<KeyAction>);

impl KeySink for Actions {
    fn write(&mut self, e: &PhysicalKeyEvent) -> Result<(), String> {
        self.0.push(e.action);
        Ok(())
    }
}

#[test]
fn in03_frame_boundaries_survive_filtering_and_finish() {
    let mut relay = Relay::default();
    let mut output = Frames(Vec::new());
    relay.forward_frame(vec![event(1, 29, 1), event(1, 30, 1)], &mut output).unwrap();
    relay.forward_frame(vec![event(2, 29, 1), event(2, 31, 1)], &mut output).unwrap();
    relay.finish_frames(&mut output).unwrap();
    let frames = output.0;
    assert_eq!(frames[0], [(29, KeyAction::Down), (30, KeyAction::Down)]);
    assert_eq!(frames[1], [(31, KeyAction::Down)]);
    assert_eq!(frames[2], [(30, KeyAction::Up), (29, KeyAction::Up), (31, KeyAction::Up)]);
    assert_eq!(relay.held_count(), 0);
}

#[test]
fn in09_frame_write_failure_prevents_cleanup_writes() {
    let mut relay = Relay::default();
    let mut output = Failing(0);
    assert!(relay.forward_frame(vec![event(1, 29, 1), event(1, 30, 1)], &mut output).is_err());
    assert!(relay.finish_frames(&mut output).is_err());
    assert_eq!(output.0, 1);
}

#[test]
fn in02_preserves_repeat_identity_and_metadata() {
    struct Checked(Vec<KeyAction>, Instant);
    impl KeySink for Checked {
        fn write(&mut self, e: &PhysicalKeyEvent) -> Result<(), String> {
            assert_eq!(e.device_id, DeviceId(3));
            assert_eq!(e.source_time, self.1);
            assert_eq!(e.sequence, 17);
            assert_eq!(e.origin, EventOrigin::Physical);
            self.0.push(e.action);
            Ok(())
        }
    }
    let mut relay = Relay::default();
    let mut output = Checked(Vec::new(), now());
    for value in [1, 2, 2, 0] {
        relay.forward(event(3, 274, value), &mut output).unwrap();
    }
    assert_eq!(output.0, [KeyAction::Down, KeyAction::Repeat, KeyAction::Repeat, KeyAction::Up]);
    assert_eq!(relay.held_count(), 0);
}

#[test]
fn in05_shared_key_stays_down_until_last_device_releases() {
    let mut relay = Relay::default();
    let mut output = Actions(Vec::new());
    relay.forward(event(1, 42, 1), &mut output).unwrap();
    relay.forward(event(2, 42, 1), &mut output).unwrap();
    relay.disconnect(DeviceId(1), &mut output).unwrap();
    assert!(relay.holds(2, 42));
    relay.forward(event(2, 42, 2), &mut output).unwrap();
    relay.forward(event(2, 42, 0), &mut output).unwrap();
    assert_eq!(output.0, [KeyAction::Down, KeyAction::Repeat, KeyAction::Up]);
    assert_eq!(relay.held_count(), 0);
}

#[test]
fn in06_disconnect_and_stop_release_only_owned_keys() {
    struct Tracking(std::collections::BTreeSet<u16>);
    impl KeySink for Tracking {
        fn write(&mut self, e: &PhysicalKeyEvent) -> Result<(), String> {
            match e.action {
                KeyAction::Down => assert!(self.0.insert(e.physical_key.0)),
                KeyAction::Up => assert!(self.0.remove(&e.physical_key.0)),
                KeyAction::Repeat => assert!(self.0.contains(&e.physical_key.0)),
            }
            Ok(())
        }
    }
    let mut relay = Relay::default();
    let mut output = Tracking(std::collections::BTreeSet::new());
    relay.forward(event(1, 30, 1), &mut output).unwrap();
    relay.forward(event(2, 31, 1), &mut output).unwrap();
    relay.disconnect(DeviceId(1), &mut output).unwrap();
    relay.forward(event(1, 30, 0), &mut output).unwrap();
    relay.finish(&mut output).unwrap();
    assert!(output.0.is_empty());
    assert_eq!(relay.held_count(), 0);
}

#[test]
fn in09_output_failure_is_terminal_even_if_a_partial_write_occurred() {
    let mut relay = Relay::default();
    let mut output = Failing(0);
    assert!(relay.forward(event(1, 30, 1), &mut output).is_err());
    assert!(relay.forward(event(1, 30, 0), &mut output).is_err());
    assert!(relay.finish(&mut output).is_err());
    assert_eq!(output.0, 1);
}

#[test]
fn unsupported_codes_are_refused_without_output() {
    let mut relay = Relay::default();
    let mut output = Actions(Vec::new());
    assert!(relay.forward(event(1, 0, 1), &mut output).is_err());
    assert!(relay.forward(event(1, 0x300, 1), &mut output).is_err());
    assert!(output.0.is_empty());
}

fn record(kind: u16, code: u16, value: i32) -> RawRecord {
    RawRecord { kind, code, value, sec: 1, usec: 0 }
}

fn assembler() -> FrameAssembler {
    FrameAssembler::new(DeviceId(1), MonotonicClock::new(Duration::from_secs(0), Instant::from_nanos(0)))
}

#[test]
fn incomplete_frame_is_held_until_its_report() {
    let mut frames = assembler();
    let mut seq = 0;
    let mut out = frames.begin();
    frames.accept(record(EV_KEY, 29, 1), &mut seq, &mut out).unwrap();
    frames.accept(record(EV_KEY, 30, 1), &mut seq, &mut out).unwrap();
    assert!(out.events.is_empty());
    frames.accept(record(EV_SYN, SYN_REPORT, 0), &mut seq, &mut out).unwrap();
    assert_eq!(out.events.len(), 2);
    assert_eq!(out.frames.len(), 1);
    assert_eq!(seq, 2);
    let state = frames.key_state();
    assert_eq!(state[3], (1 << 5) | (1 << 6));
}

#[test]
fn loss_discards_until_report_then_reconciles() {
    let mut frames = assembler();
    let mut seq = 0;
    let mut out = frames.begin();
    frames.accept(record(EV_KEY, 30, 1), &mut seq, &mut out).unwrap();
    frames.accept(record(EV_SYN, SYN_REPORT, 0), &mut seq, &mut out).unwrap();
    assert_eq!(frames.accept(record(EV_SYN, SYN_DROPPED, 0), &mut seq, &mut out), Ok(Step::Continue));
    assert!(out.resynced);
    assert_eq!(frames.accept(record(EV_KEY, 31, 1), &mut seq, &mut out), Ok(Step::Continue));
    assert_eq!(frames.accept(record(EV_SYN, SYN_REPORT, 0), &mut seq, &mut out), Ok(Step::NeedSnapshot));
    frames.reconcile([0u8; KEY_STATE_BYTES], &mut seq, &mut out);
    assert_eq!(
        out.events.iter().map(|e| e.action).collect::<Vec<_>>(),
        [KeyAction::Down, KeyAction::Up]
    );
    assert_eq!(out.events[1].origin, EventOrigin::Resync);
    assert!(!frames.dropping());
    assert!(frames.key_state().iter().all(|b| *b == 0));
}

#[test]
fn neutral_sync_refuses_held_keys() {
    let mut frames = assembler();
    let mut held = [0u8; KEY_STATE_BYTES];
    held[3] = 1;
    assert!(frames.sync_neutral(held).is_err());
    assert!(frames.sync_neutral([0u8; KEY_STATE_BYTES]).is_ok());
}
