use typetune::config::SnippetsConfig;
use typetune::event::{InputEvent, KeyState};
use typetune::pipeline::PipelineStage;
use typetune::snippets::{
    date_string, expand_shell_markers, expand_variables, replace_all_exec, shell_commands_of,
    time_string, Environment, Snippet, SnippetExpander,
};

struct FixedEnvironment {
    secs: u64,
}

impl Environment for FixedEnvironment {
    fn unix_seconds(&self) -> u64 {
        self.secs
    }

    fn shell_output(&self, command: &str) -> String {
        format!("out:{}", command)
    }
}

fn typed(ch: char) -> InputEvent {
    InputEvent::new(0, KeyState::Pressed).with_character(ch)
}

fn snippet(trigger: &str, replacement: &str, word_boundary: bool) -> Snippet {
    Snippet { trigger: trigger.to_string(), replacement: replacement.to_string(), word_boundary }
}

fn type_text(expander: &mut SnippetExpander<FixedEnvironment>, text: &str) -> Vec<InputEvent> {
    let mut out = Vec::new();
    for c in text.chars() {
        out.extend(expander.process(typed(c)));
    }
    out
}

fn pressed_keys(events: &[InputEvent]) -> Vec<u32> {
    events.iter().filter(|e| e.state == KeyState::Pressed).map(|e| e.keycode).collect()
}

#[test]
fn trigger_is_erased_and_replacement_typed() {
    let mut x = SnippetExpander::new(vec![snippet(";sig", "Best regards", true)], FixedEnvironment { secs: 0 });
    let before = type_text(&mut x, " ;si");
    assert_eq!(before.len(), 4);
    let out = x.process(typed('g'));
    assert_eq!(out.len(), 8 + 24);
    assert_eq!(
        pressed_keys(&out),
        vec![14, 14, 14, 14, 48, 18, 31, 20, 57, 19, 18, 34, 30, 19, 32, 31]
    );
    assert!(out.iter().all(|e| e.character.is_none()));
    assert_eq!(out[1].state, KeyState::Released);
}

#[test]
fn trigger_after_a_letter_does_not_expand() {
    let mut x = SnippetExpander::new(vec![snippet(";sig", "Best", true)], FixedEnvironment { secs: 0 });
    let out = type_text(&mut x, "x;sig");
    assert_eq!(out.len(), 5);
    assert_eq!(out[4].character, Some('g'));
}

#[test]
fn trigger_without_boundary_rule_expands_anywhere() {
    let mut x = SnippetExpander::new(vec![snippet("qq", "w", false)], FixedEnvironment { secs: 0 });
    let out = type_text(&mut x, "aqq");
    assert_eq!(pressed_keys(&out[2..]), vec![14, 14, 17]);
}

#[test]
fn trigger_at_the_start_expands() {
    let mut x = SnippetExpander::new(vec![snippet("ty", "thank you", true)], FixedEnvironment { secs: 0 });
    let out = type_text(&mut x, "ty");
    assert_eq!(out[0].character, Some('t'));
    assert_eq!(pressed_keys(&out[1..]).len(), 2 + 9);
}

#[test]
fn first_matching_snippet_wins() {
    let mut x = SnippetExpander::new(
        vec![snippet("ab", "1", false), snippet("b", "2", false)],
        FixedEnvironment { secs: 0 },
    );
    let out = type_text(&mut x, "ab");
    assert_eq!(pressed_keys(&out[1..]), vec![14, 14, 2]);
}

#[test]
fn events_without_character_pass_unchanged() {
    let mut x = SnippetExpander::new(vec![snippet("a", "b", false)], FixedEnvironment { secs: 0 });
    let release = InputEvent::new(30, KeyState::Released);
    let out = x.process(release);
    assert_eq!(out.len(), 1);
    assert_eq!(out[0].keycode, 30);
    assert_eq!(out[0].state, KeyState::Released);
    assert_eq!(x.name(), "snippet-expander");
}

#[test]
fn from_config_prefixes_triggers() {
    let config = SnippetsConfig {
        enabled: true,
        trigger_prefix: ";".to_string(),
        word_separators: vec![],
        entries: vec![("sig".to_string(), "ok".to_string())],
    };
    let mut x = SnippetExpander::from_config(&config, FixedEnvironment { secs: 0 });
    assert_eq!(type_text(&mut x, "sig").len(), 3);
    let out = type_text(&mut x, " ;sig");
    assert_eq!(pressed_keys(&out[4..]), vec![14, 14, 14, 14, 24, 37]);
}

#[test]
fn date_and_time_texts() {
    assert_eq!(date_string(0), "1970-01-01");
    assert_eq!(date_string(86400 * 400), "1971-02-06");
    assert_eq!(time_string(3661), "01:01:01");
    assert_eq!(time_string(86399), "23:59:59");
    assert_eq!(time_string(86400 + 59), "00:00:59");
}

#[test]
fn replace_all_replaces_left_to_right() {
    assert_eq!(replace_all_exec("a{{x}}b{{x}}", "{{x}}", "Z"), "aZbZ");
    assert_eq!(replace_all_exec("aaa", "aa", "b"), "ba");
    assert_eq!(replace_all_exec("abc", "", "Z"), "abc");
    assert_eq!(replace_all_exec("ab", "abc", "Z"), "ab");
}

#[test]
fn shell_markers_are_found_and_replaced_in_order() {
    let text = "run {{shell:echo hi}} and {{shell:date}}";
    assert_eq!(shell_commands_of(text), vec!["echo hi".to_string(), "date".to_string()]);
    assert_eq!(expand_shell_markers(text, &["A".to_string(), "B".to_string()]), "run A and B");
    assert_eq!(expand_shell_markers(text, &["A".to_string()]), "run A and ");
    assert!(shell_commands_of("x {{shell:oops").is_empty());
    assert_eq!(expand_shell_markers("x {{shell:oops", &[]), "x {{shell:oops");
}

#[test]
fn variables_expand_from_the_environment() {
    let env = FixedEnvironment { secs: 0 };
    assert_eq!(
        expand_variables("{{date}} {{time}} {{shell:whoami}}", &env),
        "1970-01-01 00:00:00 out:whoami"
    );
    let later = FixedEnvironment { secs: 86400 * 400 + 3661 };
    assert_eq!(expand_variables("[{{time}}]", &later), "[01:01:01]");
    assert_eq!(expand_variables("plain", &later), "plain");
}
