use typetune::corrector::{Dictionary, LayoutCorrector};
use typetune::event::{InputEvent, KeyState};
use typetune::pipeline::PipelineStage;
use typetune::time::Instant;

fn make_corrector(dict_content_ru: &str, dict_content_en: &str) -> LayoutCorrector {
    LayoutCorrector::new(
        Dictionary::from_text(dict_content_ru),
        Dictionary::from_text(dict_content_en),
        2,
        true,
        400,
    )
}

fn pressed_with_char(keycode: u32, ch: char) -> InputEvent {
    InputEvent::new(keycode, KeyState::Pressed).with_character(ch)
}

fn released(keycode: u32) -> InputEvent {
    InputEvent::new(keycode, KeyState::Released)
}

fn separator(ch: char) -> InputEvent {
    pressed_with_char(57, ch)
}

fn pressed_keys(events: &[InputEvent]) -> Vec<u32> {
    events.iter().filter(|e| e.state == KeyState::Pressed).map(|e| e.keycode).collect()
}

#[test]
fn f09_corrector_deletes_before_word() {
    let mut corrector = make_corrector("привет", "hello");
    let letters = vec![
        pressed_with_char(34, 'g'),
        pressed_with_char(35, 'h'),
        pressed_with_char(48, 'b'),
        pressed_with_char(32, 'd'),
        pressed_with_char(20, 't'),
        pressed_with_char(49, 'n'),
    ];
    let mut buffered_count = 0;
    for ev in &letters {
        let result = corrector.process(ev.clone());
        if result.is_empty() {
            buffered_count += 1;
        }
    }
    assert_eq!(buffered_count, 6, "All 6 letters are buffered (not forwarded)");
    let space = separator(' ');
    let result = corrector.process(space);
    let backspace_count = result.iter().filter(|e| e.keycode == 14).count();
    let letter_press_count = result
        .iter()
        .filter(|e| e.keycode != 14 && e.keycode != 57 && e.state == KeyState::Pressed)
        .count();
    assert_eq!(backspace_count, 12, "6 Backspace Down+Up generated");
    assert_eq!(letter_press_count, 6, "6 replacement letter Down+Up generated");
}

#[test]
fn f10_orphan_release_without_character() {
    let mut corrector = make_corrector("привет", "hello");
    let down = pressed_with_char(30, 'a');
    let result = corrector.process(down);
    assert!(result.is_empty(), "Letter Down is buffered");
    let up = released(30);
    let result = corrector.process(up);
    assert_eq!(result.len(), 1, "Release passes through");
    assert_eq!(result[0].state, KeyState::Released);
    assert_eq!(result[0].keycode, 30);
}

#[test]
fn non_matching_word_flushed() {
    let mut corrector = make_corrector("привет", "hello");
    let result = corrector.process(pressed_with_char(30, 'x'));
    assert!(result.is_empty(), "First letter buffered");
    let result = corrector.process(pressed_with_char(31, 'z'));
    assert!(result.is_empty(), "Second letter buffered");
    let result = corrector.process(separator(' '));
    assert!(!result.is_empty(), "Buffered letters flushed on separator");
    let pressed = pressed_keys(&result);
    assert!(pressed.contains(&45), "Flushed keycode for 'x'");
    assert!(pressed.contains(&44), "Flushed keycode for 'z'");
    assert!(pressed.contains(&57), "Space keycode");
}

#[test]
fn short_word_not_corrected() {
    let mut corrector = make_corrector("привет", "hi");
    corrector.process(pressed_with_char(34, 'g'));
    let result = corrector.process(separator(' '));
    let has_backspace = result.iter().any(|e| e.keycode == 14);
    assert!(!has_backspace, "Short word should not trigger correction");
}

#[test]
fn corrected_word_types_the_counterpart_keys_in_order() {
    let mut corrector = make_corrector("привет", "hello");
    for (k, c) in [(34, 'g'), (35, 'h'), (48, 'b'), (32, 'd'), (20, 't'), (49, 'n')] {
        assert!(corrector.process(pressed_with_char(k, c)).is_empty());
    }
    let result = corrector.process(separator(' '));
    assert_eq!(result.len(), 12 + 12 + 1);
    assert_eq!(pressed_keys(&result), vec![14, 14, 14, 14, 14, 14, 34, 35, 48, 32, 20, 49, 57]);
    assert_eq!(result[24].character, Some(' '));
}

#[test]
fn russian_typed_word_is_corrected_to_english() {
    let mut corrector = make_corrector("привет", "hello");
    for c in "руддщ".chars() {
        assert!(corrector.process(pressed_with_char(0, c)).is_empty());
    }
    let result = corrector.process(separator('.'));
    assert_eq!(pressed_keys(&result), vec![14, 14, 14, 14, 14, 35, 18, 38, 38, 24, 57]);
}

#[test]
fn word_in_its_own_dictionary_is_typed_back() {
    let mut corrector = make_corrector("привет", "hello");
    for c in "Hello".chars() {
        corrector.process(pressed_with_char(0, c));
    }
    let result = corrector.process(separator(','));
    assert_eq!(pressed_keys(&result), vec![35, 18, 38, 38, 24, 57]);
}

#[test]
fn other_character_flushes_the_word_and_passes() {
    let mut corrector = make_corrector("привет", "hello");
    corrector.process(pressed_with_char(34, 'g'));
    corrector.process(pressed_with_char(35, 'h'));
    let result = corrector.process(pressed_with_char(2, '1'));
    assert_eq!(pressed_keys(&result), vec![34, 35, 2]);
    assert_eq!(result.last().unwrap().character, Some('1'));
}

#[test]
fn double_shift_converts_the_held_word() {
    let mut corrector = make_corrector("", "");
    let t = Instant::from_nanos(10_000_000_000);
    for (k, c) in [(34, 'g'), (35, 'h')] {
        assert!(corrector.process_at(pressed_with_char(k, c), t).is_empty());
    }
    let shift = InputEvent::new(42, KeyState::Pressed);
    let first = corrector.process_at(shift, t);
    assert_eq!(first.len(), 1);
    let second = corrector.process_at(shift, Instant::from_nanos(10_100_000_000));
    assert_eq!(pressed_keys(&second), vec![14, 14, 34, 35]);
    assert_eq!(second.len(), 8);
}

#[test]
fn slow_second_shift_does_not_convert() {
    let mut corrector = make_corrector("", "");
    let t = Instant::from_nanos(10_000_000_000);
    corrector.process_at(pressed_with_char(34, 'g'), t);
    let shift = InputEvent::new(54, KeyState::Pressed);
    corrector.process_at(shift, t);
    let late = corrector.process_at(shift, Instant::from_nanos(10_500_000_000));
    assert_eq!(late.len(), 1);
    assert_eq!(late[0].keycode, 54);
}

#[test]
fn reset_forgets_the_held_word() {
    let mut corrector = make_corrector("привет", "hello");
    corrector.process(pressed_with_char(34, 'g'));
    corrector.reset();
    let result = corrector.process(separator(' '));
    assert_eq!(pressed_keys(&result), vec![57]);
}

#[test]
fn dictionary_reads_lines_lowercased() {
    let d = Dictionary::from_text("Hello\r\nWORLD\n\na\nlast\r");
    assert!(d.contains("hello"));
    assert!(d.contains("HeLLo"));
    assert!(d.contains("world"));
    assert!(d.contains(""));
    assert!(d.contains("a"));
    assert!(!d.is_valid_word("a"));
    assert!(d.is_valid_word("World"));
    assert!(!d.contains("last"));
    assert!(d.contains("last\r"));
    assert!(!d.contains("absent"));
}

#[test]
fn corrector_word_classes() {
    assert!(LayoutCorrector::is_word_char('ж'));
    assert!(LayoutCorrector::is_word_char('Q'));
    assert!(!LayoutCorrector::is_word_char('7'));
    assert!(LayoutCorrector::is_word_separator('?'));
    assert!(LayoutCorrector::is_word_separator('\r'));
    assert!(!LayoutCorrector::is_word_separator('-'));
    assert_eq!(make_corrector("", "").name(), "layout-corrector");
}
