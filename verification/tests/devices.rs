use typetune::engine::automatic::lexicon_entry_counts;
use typetune::event::{DeviceId, KeyAction, NativeCode, NativeEvdevCode, PhysicalKeyCode, PhysicalKeyEvent};
use typetune::clock::FakeClock;
use typetune::inject::{OutputRecord, VirtualKeyboard, VirtualKeyboardError, EV_KEY, EV_SYN};
use typetune::input::admits_device;
use typetune::input::discovery::{eq_ignore_ascii_case, is_keyboard, keyboard_entry, name_contains, DeviceProfile};
use typetune::layout::LayoutId;

fn keyboard_keys() -> Vec<u16> {
    vec![1, 2, 10, 11, 14, 16, 28, 30, 42, 44, 57]
}

fn profile(name: &str, keys: Vec<u16>) -> DeviceProfile {
    DeviceProfile { name: Some(name.into()), keys: Some(keys), relative_axes: None, absolute_axes: None }
}

fn key_event(code: u16, action: KeyAction) -> PhysicalKeyEvent {
    PhysicalKeyEvent::new(NativeCode::Evdev(NativeEvdevCode(code)), PhysicalKeyCode(code), action, &FakeClock::at_zero())
        .with_device(DeviceId(1))
}

#[test]
fn keyboard_profiles_are_recognised() {
    assert!(is_keyboard(&profile("AT Translated Set 2 keyboard", keyboard_keys())));
    let mut keys = keyboard_keys();
    keys.push(0x110);
    assert!(!is_keyboard(&profile("Combo", keys)));
    assert!(!is_keyboard(&profile("Logitech G502 HERO", keyboard_keys())));
    assert!(!is_keyboard(&profile("TypeTune Virtual Keyboard", keyboard_keys())));
    assert!(!is_keyboard(&profile("Half", vec![30, 44])));
    let mut pointer = profile("Pointer", keyboard_keys());
    pointer.relative_axes = Some(vec![0, 8]);
    assert!(!is_keyboard(&pointer));
    let mut tablet = profile("Tablet", keyboard_keys());
    tablet.absolute_axes = Some(vec![1]);
    assert!(!is_keyboard(&tablet));
    let nameless = DeviceProfile { name: None, keys: Some(keyboard_keys()), relative_axes: Some(vec![8]), absolute_axes: None };
    assert!(is_keyboard(&nameless));
    let keyless = DeviceProfile { name: None, keys: None, relative_axes: None, absolute_axes: None };
    assert!(!is_keyboard(&keyless));
}

#[test]
fn names_match_case_insensitively() {
    assert!(name_contains(&Some("USB Optical MOUSE".into()), "mouse"));
    assert!(!name_contains(&Some("Keyboard".into()), "mouse"));
    assert!(!name_contains(&None, "mouse"));
    assert!(eq_ignore_ascii_case("Foo Bar", "fOO bAR"));
    assert!(!eq_ignore_ascii_case("Foo", "Foo "));
    assert!(eq_ignore_ascii_case("Клава", "Клава"));
    assert!(!eq_ignore_ascii_case("Клава", "клава"));
}

#[test]
fn keyboard_entries_follow_path_exclusion_and_profile() {
    let kb = profile("My Keyboard", keyboard_keys());
    assert_eq!(
        keyboard_entry("/dev/input/event3", &kb, &[]),
        Some(("/dev/input/event3".to_string(), "My Keyboard".to_string()))
    );
    assert_eq!(keyboard_entry("/dev/input/mouse0", &kb, &[]), None);
    assert_eq!(keyboard_entry("/dev/input/event3", &kb, &["my keyboard".to_string()]), None);
    let nameless = DeviceProfile { name: None, keys: Some(keyboard_keys()), relative_axes: None, absolute_axes: None };
    assert_eq!(
        keyboard_entry("/dev/input/event4", &nameless, &[]),
        Some(("/dev/input/event4".to_string(), "unknown".to_string()))
    );
    assert_eq!(keyboard_entry("/dev/input/event4", &nameless, &["UNKNOWN".to_string()]), None);
}

#[test]
fn hotplug_admission() {
    let attached = vec!["/dev/input/event1".to_string()];
    assert!(admits_device(&attached, "/dev/input/event2"));
    assert!(!admits_device(&attached, "/dev/input/event1"));
    assert!(!admits_device(&attached, ""));
    let full: Vec<String> = (0..32).map(|i| format!("/dev/input/event{}", i)).collect();
    assert!(!admits_device(&full, "/dev/input/event99"));
}

#[test]
fn virtual_keyboard_queues_records() {
    assert_eq!(VirtualKeyboard::with_name("", 3).err(), Some(VirtualKeyboardError::InvalidName));
    assert_eq!(VirtualKeyboard::with_name("a\0b", 3).err(), Some(VirtualKeyboardError::InvalidName));
    assert_eq!(VirtualKeyboard::with_name(&"x".repeat(80), 3).err(), Some(VirtualKeyboardError::InvalidName));
    let mut kb = VirtualKeyboard::with_name("TypeTune Virtual Keyboard", 3).ok().unwrap();
    assert_eq!(kb.fd(), 3);
    kb.emit_text("a!");
    kb.emit_syn();
    let records = kb.take_pending();
    assert_eq!(
        records,
        vec![
            OutputRecord { kind: EV_KEY, code: 30, value: 1 },
            OutputRecord { kind: EV_SYN, code: 0, value: 0 },
            OutputRecord { kind: EV_KEY, code: 30, value: 0 },
            OutputRecord { kind: EV_SYN, code: 0, value: 0 },
            OutputRecord { kind: EV_SYN, code: 0, value: 0 },
        ]
    );
    assert!(kb.take_pending().is_empty());
}

#[test]
fn virtual_keyboard_frames() {
    let mut kb = VirtualKeyboard::with_name("kbd", 4).ok().unwrap();
    assert_eq!(kb.emit_physical(&key_event(30, KeyAction::Repeat)), Ok(()));
    assert_eq!(kb.emit_physical(&key_event(0x300, KeyAction::Down)), Err(VirtualKeyboardError::UnsupportedCode));
    assert_eq!(kb.emit_frame(&[key_event(29, KeyAction::Down), key_event(30, KeyAction::Up)]), Ok(()));
    assert_eq!(kb.emit_frame(&[]), Ok(()));
    assert_eq!(
        kb.take_pending(),
        vec![
            OutputRecord { kind: EV_KEY, code: 30, value: 2 },
            OutputRecord { kind: EV_SYN, code: 0, value: 0 },
            OutputRecord { kind: EV_KEY, code: 29, value: 1 },
            OutputRecord { kind: EV_KEY, code: 30, value: 0 },
            OutputRecord { kind: EV_SYN, code: 0, value: 0 },
        ]
    );
}

#[test]
fn pilot_lists_are_counted_by_nonempty_lines() {
    let counts = lexicon_entry_counts(10, 20, "а\nб\n\nв", "x\ny\n");
    assert_eq!(counts.ru_merged, 10);
    assert_eq!(counts.en_merged, 20);
    assert_eq!(counts.ru_pilot, 3);
    assert_eq!(counts.en_pilot, 2);
}

#[test]
fn layouts_are_distinct() {
    assert_ne!(LayoutId::English, LayoutId::Russian);
    assert_eq!(LayoutId::Russian, LayoutId::Russian.clone());
}

#[test]
fn typing_text_in_parts_queues_the_same_records() {
    let mut whole = VirtualKeyboard::with_name("kbd", 5).ok().unwrap();
    whole.emit_text("hi, there");
    let mut parts = VirtualKeyboard::with_name("kbd", 5).ok().unwrap();
    parts.emit_text("hi,");
    parts.emit_text(" there");
    let records = whole.take_pending();
    assert_eq!(records.len(), 9 * 4);
    assert_eq!(records, parts.take_pending());
}
