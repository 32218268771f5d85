use typetune::chatter::{AntiChatter, ChatterStats};
use typetune::event::{InputEvent, KeyState};
use typetune::pipeline::PipelineStage;
use typetune::testing::fake_capture::{key_down, key_up};
use typetune::time::Instant;

fn at(ms: u64) -> Instant {
    Instant::from_nanos(1_000_000_000 + ms * 1_000_000)
}

fn run_through(events: Vec<InputEvent>, debounce_ms: u64) -> Vec<InputEvent> {
    let mut chatter = AntiChatter::new(debounce_ms, 30);
    let mut output = Vec::new();
    for ev in events {
        output.extend(chatter.process(ev));
    }
    output
}

fn actions(events: &[InputEvent]) -> Vec<KeyState> {
    events.iter().map(|e| e.state).collect()
}

#[test]
fn l09_rapid_press_suppresses_down_but_not_up() {
    let events = vec![key_down(30, at(0)), key_up(30, at(10)), key_down(30, at(15)), key_up(30, at(20))];
    let result = run_through(events, 50);
    assert_eq!(result.len(), 3, "Expected 3 events (current broken behavior)");
    assert_eq!(
        actions(&result),
        vec![KeyState::Pressed, KeyState::Released, KeyState::Released],
        "Current behavior: orphan Up after suppressed Down"
    );
}

#[test]
fn l09_long_hold_then_quick_repress_not_suppressed() {
    let events =
        vec![key_down(30, at(0)), key_up(30, at(1000)), key_down(30, at(1005)), key_up(30, at(1010))];
    let result = run_through(events, 50);
    assert_eq!(result.len(), 4, "All 4 events should pass after long hold");
    assert_eq!(
        actions(&result),
        vec![KeyState::Pressed, KeyState::Released, KeyState::Pressed, KeyState::Released]
    );
}

#[test]
fn l09_two_devices_same_key_no_identity() {
    let events = vec![key_down(30, at(0)), key_down(30, at(20)), key_up(30, at(30)), key_up(30, at(70))];
    let result = run_through(events, 50);
    assert_eq!(result.len(), 3, "Current behavior: D2 Down suppressed (no device identity)");
}

#[test]
fn normal_typing_passes_through() {
    let events = vec![
        key_down(30, at(0)),
        key_up(30, at(50)),
        key_down(31, at(100)),
        key_up(31, at(150)),
        key_down(32, at(200)),
        key_up(32, at(250)),
    ];
    let result = run_through(events, 50);
    assert_eq!(result.len(), 6, "Normal typing should pass through");
}

#[test]
fn repeat_events_not_filtered() {
    let events = vec![key_down(30, at(0)), key_down(30, at(50)), key_down(30, at(100)), key_up(30, at(150))];
    let result = run_through(events, 50);
    assert_eq!(result.len(), 4, "Downs at 50ms intervals equal to window pass");
}

#[test]
fn stats_count_suppressed() {
    let stats = ChatterStats::default();
    let mut chatter = AntiChatter::new(50, 30).with_shared_stats(stats);
    chatter.process(key_down(30, at(0)));
    chatter.process(key_down(30, at(10)));
    chatter.process(key_up(30, at(20)));
    let s = chatter.stats();
    assert_eq!(s.total_events, 3);
    assert_eq!(s.suppressed_events, 1);
    assert_eq!(s.per_key_suppressed.get(&30), Some(&1));
}

#[test]
fn modifiers_use_their_own_window() {
    let mut chatter = AntiChatter::new(50, 30);
    assert_eq!(chatter.name(), "anti-chatter");
    assert_eq!(chatter.process(key_down(42, at(0))).len(), 1);
    assert_eq!(chatter.process(key_down(42, at(35))).len(), 1);
    assert_eq!(chatter.process(key_down(30, at(0))).len(), 1);
    assert!(chatter.process(key_down(30, at(35))).is_empty());
}

#[test]
fn stats_continue_from_given_counters() {
    let mut start = ChatterStats::default();
    start.total_events = 10;
    let mut chatter = AntiChatter::new(50, 30).with_shared_stats(start);
    chatter.process(key_up(30, at(0)));
    assert_eq!(chatter.stats().total_events, 11);
}
