use typetune::clock::{Clock, FakeClock};
use typetune::context::{Blocker, Capability, ContextSnapshot, Knowledge, TextCapabilities};
use typetune::event::{
    DeviceGeneration, DeviceId, EventOrigin, InputEvent, KeyAction, KeyState, NativeCode,
    NativeEvdevCode, PhysicalKeyCode, PhysicalKeyEvent,
};
use typetune::pipeline::{Pipeline, PipelineStage};
use typetune::testing::editor::{EditorAction, TestEditor};
use typetune::testing::fake_capture::{key_down, key_down_char, key_up, FakeCapture};
use typetune::testing::fake_output::FakeOutput;
use typetune::time::{Duration, Instant};

#[test]
fn physical_key_event_creation() {
    let clock = FakeClock::at_zero();
    let ev = PhysicalKeyEvent::new(
        NativeCode::Evdev(NativeEvdevCode(30)),
        PhysicalKeyCode(30),
        KeyAction::Down,
        &clock,
    );
    assert_eq!(ev.device_id, DeviceId::unknown());
    assert_eq!(ev.action, KeyAction::Down);
    assert!(ev.is_down());
    assert!(!ev.is_up());
    assert!(!ev.is_repeat());
}

#[test]
fn physical_key_event_builders() {
    let clock = FakeClock::at_zero();
    let dev = DeviceId(42);
    let ev = PhysicalKeyEvent::new(
        NativeCode::Evdev(NativeEvdevCode(30)),
        PhysicalKeyCode(30),
        KeyAction::Down,
        &clock,
    )
    .with_device(dev)
    .with_origin(EventOrigin::Physical)
    .with_sequence(7);
    assert_eq!(ev.device_id, dev);
    assert_eq!(ev.origin, EventOrigin::Physical);
    assert_eq!(ev.sequence, 7);
}

#[test]
fn key_action_display() {
    assert_eq!(KeyAction::Down.to_display_string(), "Down");
    assert_eq!(KeyAction::Up.to_display_string(), "Up");
    assert_eq!(KeyAction::Repeat.to_display_string(), "Repeat");
}

#[test]
fn device_id_display() {
    assert_eq!(DeviceId(42).to_display_string(), "Device(42)");
    assert_eq!(DeviceId::unknown().to_display_string(), "Device(0)");
}

#[test]
fn event_origin_display() {
    assert_eq!(EventOrigin::Physical.to_display_string(), "Physical");
    assert_eq!(
        EventOrigin::HardwareRelay(DeviceId(1), DeviceGeneration(2)).to_display_string(),
        "HardwareRelay(Device(1), gen=2)"
    );
    assert_eq!(EventOrigin::TextInjection(99).to_display_string(), "TextInjection(99)");
}

#[test]
fn key_actions_are_distinct() {
    assert_ne!(KeyAction::Down, KeyAction::Up);
    assert_ne!(KeyAction::Down, KeyAction::Repeat);
    assert_ne!(KeyAction::Up, KeyAction::Repeat);
}

#[test]
fn native_code_types() {
    let evdev = NativeCode::Evdev(NativeEvdevCode(30));
    let unknown = NativeCode::Unknown(42);
    assert_ne!(evdev, unknown);
}

struct PassThrough {
    name: &'static str,
}

impl PipelineStage for PassThrough {
    fn name(&self) -> &str {
        self.name
    }
    fn process(&mut self, event: InputEvent) -> Vec<InputEvent> {
        vec![event]
    }
    fn reset(&mut self) {}
}

struct Doubler;

impl PipelineStage for Doubler {
    fn name(&self) -> &str {
        "doubler"
    }
    fn process(&mut self, event: InputEvent) -> Vec<InputEvent> {
        vec![event, event]
    }
    fn reset(&mut self) {}
}

#[test]
fn empty_pipeline_passthrough() {
    let mut pipeline = Pipeline::new();
    let ev = InputEvent::new(30, KeyState::Pressed);
    let result = pipeline.process(ev);
    assert_eq!(result.len(), 1);
    assert_eq!(result[0].keycode, 30);
}

#[test]
fn pipeline_chains_stages() {
    let mut pipeline = Pipeline::new();
    pipeline.add_stage(Box::new(PassThrough { name: "a" }));
    pipeline.add_stage(Box::new(PassThrough { name: "b" }));
    let result = pipeline.process(InputEvent::new(30, KeyState::Pressed));
    assert_eq!(result.len(), 1);
}

#[test]
fn pipeline_doubler() {
    let mut pipeline = Pipeline::new();
    pipeline.add_stage(Box::new(Doubler));
    let result = pipeline.process(InputEvent::new(30, KeyState::Pressed));
    assert_eq!(result.len(), 2);
}

#[test]
fn pipeline_stage_names() {
    let mut pipeline = Pipeline::new();
    pipeline.add_stage(Box::new(PassThrough { name: "first" }));
    pipeline.add_stage(Box::new(PassThrough { name: "second" }));
    assert_eq!(pipeline.stage_names(), vec!["first", "second"]);
}

#[test]
fn pipeline_reset_calls_stages() {
    struct Resettable {
        reset_count: std::sync::Arc<std::sync::atomic::AtomicU32>,
    }
    impl PipelineStage for Resettable {
        fn name(&self) -> &str {
            "resettable"
        }
        fn process(&mut self, event: InputEvent) -> Vec<InputEvent> {
            vec![event]
        }
        fn reset(&mut self) {
            self.reset_count.fetch_add(1, std::sync::atomic::Ordering::SeqCst);
        }
    }
    let count = std::sync::Arc::new(std::sync::atomic::AtomicU32::new(0));
    let mut pipeline = Pipeline::new();
    pipeline.add_stage(Box::new(Resettable { reset_count: count.clone() }));
    pipeline.reset();
    assert_eq!(count.load(std::sync::atomic::Ordering::SeqCst), 1);
}

fn trusted(now: Instant) -> (ContextSnapshot, TextCapabilities) {
    let mut context = ContextSnapshot::unknown(4, now);
    context.target = Knowledge::Known(9);
    context.unlocked = Knowledge::Known(true);
    context.sensitive = Knowledge::Known(false);
    context.selection_empty = Knowledge::Known(true);
    context.composing = Knowledge::Known(false);
    context.layout = Knowledge::Known("test-keymap:group0".into());
    let capabilities = TextCapabilities {
        read_focus: Capability::Available,
        read_layout: Capability::Available,
        inject_unicode: Capability::Available,
        ..Default::default()
    };
    (context, capabilities)
}

fn blockers(c: &ContextSnapshot, caps: &TextCapabilities, now: Instant) -> Vec<Blocker> {
    c.replacement_blockers(caps, 4, now, Duration::from_millis(100))
}

#[test]
fn each_unknown_context_guard_independently_refuses() {
    let now = Instant::from_nanos(1_000_000_000);
    let (c, caps) = trusted(now);
    assert!(blockers(&c, &caps, now).is_empty());
    let mut cases = Vec::new();
    let mut x = c.clone();
    x.target = Knowledge::Unknown;
    cases.push((x, Blocker::FocusUnknown));
    let mut x = c.clone();
    x.unlocked = Knowledge::Unknown;
    cases.push((x, Blocker::LockedOrUnknown));
    let mut x = c.clone();
    x.sensitive = Knowledge::Unknown;
    cases.push((x, Blocker::SensitiveOrUnknown));
    let mut x = c.clone();
    x.selection_empty = Knowledge::Unknown;
    cases.push((x, Blocker::SelectionPresentOrUnknown));
    let mut x = c.clone();
    x.composing = Knowledge::Unknown;
    cases.push((x, Blocker::CompositionActiveOrUnknown));
    let mut x = c;
    x.layout = Knowledge::Unknown;
    cases.push((x, Blocker::LayoutUnknown));
    for (context, reason) in cases {
        assert_eq!(blockers(&context, &caps, now), vec![reason]);
    }
}

#[test]
fn lock_sensitive_selection_and_composition_refuse() {
    let now = Instant::from_nanos(1_000_000_000);
    let (mut c, caps) = trusted(now);
    c.unlocked = Knowledge::Known(false);
    c.sensitive = Knowledge::Known(true);
    c.selection_empty = Knowledge::Known(false);
    c.composing = Knowledge::Known(true);
    assert_eq!(
        blockers(&c, &caps, now),
        vec![
            Blocker::LockedOrUnknown,
            Blocker::SensitiveOrUnknown,
            Blocker::SelectionPresentOrUnknown,
            Blocker::CompositionActiveOrUnknown
        ]
    );
}

#[test]
fn stale_future_and_changed_generation_refuse_with_fake_clock() {
    let mut clock = FakeClock::at_zero();
    let (mut c, caps) = trusted(clock.now());
    clock.advance(Duration::from_millis(100));
    assert_eq!(blockers(&c, &caps, clock.now()), vec![Blocker::StaleContext]);
    c.captured_at = clock.now().checked_add(Duration::from_millis(1)).unwrap();
    assert_eq!(blockers(&c, &caps, clock.now()), vec![Blocker::StaleContext]);
    c.captured_at = clock.now();
    c.epoch += 1;
    assert_eq!(blockers(&c, &caps, clock.now()), vec![Blocker::ContextChanged]);
}

#[test]
fn limited_or_missing_unicode_is_not_permission_to_delete() {
    let now = Instant::from_nanos(1_000_000_000);
    let (c, mut caps) = trusted(now);
    for state in [
        Capability::Unknown,
        Capability::Limited("unverified portal".into()),
        Capability::Unavailable("no backend".into()),
    ] {
        caps.inject_unicode = state;
        assert_eq!(blockers(&c, &caps, now), vec![Blocker::UnicodeUnavailable]);
    }
}

#[test]
fn editor_insert_and_text() {
    let mut editor = TestEditor::new();
    let t = Instant::from_nanos(0);
    editor.apply(&InputEvent::new(30, KeyState::Pressed).with_timestamp(t));
    editor.apply(&InputEvent::new(31, KeyState::Pressed).with_timestamp(t));
    assert_eq!(editor.text(), "as");
    assert_eq!(editor.cursor(), 2);
}

#[test]
fn editor_delete_backward() {
    let mut editor = TestEditor::new();
    let t = Instant::from_nanos(0);
    editor.apply(&InputEvent::new(30, KeyState::Pressed).with_timestamp(t));
    editor.apply(&InputEvent::new(14, KeyState::Pressed).with_timestamp(t));
    assert_eq!(editor.text(), "");
    assert_eq!(editor.cursor(), 0);
}

#[test]
fn editor_backspace_at_start_noop() {
    let mut editor = TestEditor::new();
    let t = Instant::from_nanos(0);
    editor.apply(&InputEvent::new(14, KeyState::Pressed).with_timestamp(t));
    assert_eq!(editor.text(), "");
}

#[test]
fn editor_unfocused_ignores_input() {
    let mut editor = TestEditor::new();
    let t = Instant::from_nanos(0);
    editor.unfocus();
    editor.apply(&InputEvent::new(30, KeyState::Pressed).with_timestamp(t));
    assert_eq!(editor.text(), "");
}

#[test]
fn editor_focus_change() {
    let mut editor = TestEditor::new();
    assert!(editor.state.focused);
    editor.unfocus();
    assert!(!editor.state.focused);
    editor.focus();
    assert!(editor.state.focused);
}

#[test]
fn editor_with_ru_layout() {
    let mut editor = TestEditor::new().with_ru_layout();
    let t = Instant::from_nanos(0);
    editor.apply(&InputEvent::new(30, KeyState::Pressed).with_timestamp(t));
    assert_eq!(editor.text(), "ф");
}

#[test]
fn editor_reports_its_actions() {
    let mut editor = TestEditor::new();
    let t = Instant::from_nanos(0);
    let actions = editor.apply_sequence(&[
        key_down(30, t),
        key_up(30, t),
        key_down_char(99, 'ж', t),
        key_down(14, t),
        key_down(200, t),
    ]);
    assert_eq!(
        actions,
        vec![
            EditorAction::Insert('a'),
            EditorAction::Unchanged,
            EditorAction::Insert('ж'),
            EditorAction::DeleteBackward,
            EditorAction::Unchanged
        ]
    );
    assert_eq!(editor.text(), "a");
}

#[test]
fn fake_capture_enqueue_drain() {
    let mut cap = FakeCapture::new();
    let t = Instant::from_nanos(0);
    cap.enqueue(key_down(30, t));
    cap.enqueue(key_up(30, t));
    assert_eq!(cap.len(), 2);
    let events = cap.drain();
    assert_eq!(events.len(), 2);
    assert!(cap.is_empty());
}

#[test]
fn fake_capture_enqueue_sequence() {
    let mut cap = FakeCapture::new();
    let t = Instant::from_nanos(0);
    cap.enqueue_sequence(vec![key_down(30, t), key_up(30, t), key_down(31, t)]);
    assert_eq!(cap.len(), 3);
}

#[test]
fn fake_output_records_events() {
    let mut out = FakeOutput::new();
    let ev = InputEvent::new(30, KeyState::Pressed);
    out.emit(&ev);
    assert_eq!(out.len(), 1);
    assert_eq!(out.emitted()[0].keycode, 30);
    assert_eq!(out.emitted()[0].state, KeyState::Pressed);
}

#[test]
fn fake_output_pressed_released() {
    let mut out = FakeOutput::new();
    out.emit(&InputEvent::new(30, KeyState::Pressed));
    out.emit(&InputEvent::new(30, KeyState::Released));
    out.emit(&InputEvent::new(31, KeyState::Pressed));
    assert_eq!(out.pressed_keycodes(), vec![30, 31]);
    assert_eq!(out.released_keycodes(), vec![30]);
}

#[test]
fn fake_output_clear() {
    let mut out = FakeOutput::new();
    out.emit(&InputEvent::new(30, KeyState::Pressed));
    out.clear();
    assert!(out.is_empty());
}

#[test]
fn fake_output_summary_marks_direction_and_character() {
    let mut out = FakeOutput::new();
    out.emit(&InputEvent::new(30, KeyState::Pressed).with_character('a'));
    out.emit(&InputEvent::new(30, KeyState::Released));
    assert_eq!(out.summary(), "30↓(a) 30↑");
}

#[test]
fn fake_clock_advances_and_saturates() {
    let mut clock = FakeClock::new(Instant::from_nanos(10));
    clock.advance(Duration::from_nanos(5));
    assert_eq!(clock.now(), Instant::from_nanos(15));
    clock.advance(Duration::from_nanos(u64::MAX));
    assert_eq!(clock.now(), Instant::from_nanos(u64::MAX));
}

#[test]
fn durations_too_long_for_nanoseconds_saturate() {
    assert_eq!(Duration::from_secs(2).nanos, 2_000_000_000);
    assert_eq!(Duration::from_millis(3).nanos, 3_000_000);
    assert_eq!(Duration::from_micros(7).nanos, 7_000);
    assert_eq!(Duration::from_secs(u64::MAX).nanos, u64::MAX);
    assert_eq!(Duration::from_millis(u64::MAX / 1_000_000 + 1).nanos, u64::MAX);
    assert_eq!(Duration::from_micros(u64::MAX).nanos, u64::MAX);
}

#[test]
fn pipeline_names_follow_stage_order() {
    let mut pipeline = Pipeline::new();
    pipeline.add_stage(Box::new(Doubler));
    pipeline.add_stage(Box::new(PassThrough { name: "second" }));
    assert_eq!(pipeline.stage_names(), vec!["doubler", "second"]);
    let ev = InputEvent::new(30, KeyState::Pressed);
    assert_eq!(pipeline.process(ev).len(), 2);
    pipeline.reset();
    assert_eq!(pipeline.stage_names(), vec!["doubler", "second"]);
}
