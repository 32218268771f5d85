use typetune::bridge::runtime::{Action, Event, Origin, Outcome, Response, Runtime};
use typetune::bridge::{Bridge, Reply, Request};
use typetune::engine::automatic::{AutoPolicy, LanguageModel, VocabularyModel};
use typetune::engine::manual::{map_token, Direction};
use typetune::engine::user_dictionary::UserDictionary;
use typetune::engine::Snapshot;
use typetune::time::Instant;
use vstd::seq::Seq;

/// A small lexicon standing in for the frequency tables.
struct Lexicon;

const KNOWN: &[&str] = &["hello", "привет", "the", "как"];
const RU_TARGETS: &[&str] = &["привет", "это", "как"];
const EN_TARGETS: &[&str] = &["hello", "the"];

impl LanguageModel for Lexicon {
    // The verifier's view of `identify`; a test model is not verified, and
    // this method is never called when the tests run.
    fn identifies(&self, _core: Seq<char>, _dictionary: UserDictionary) -> Option<(Direction, Seq<char>)> {
        unreachable!("read by the verifier only")
    }

    fn identify(&self, core: &str, dictionary: &UserDictionary) -> Option<(Direction, String)> {
        if let Some(hit) = VocabularyModel.identify(core, dictionary) {
            return Some(hit);
        }
        if dictionary.contains(core) || KNOWN.contains(&core) {
            return None;
        }
        for (direction, targets) in [(Direction::UsToRu, RU_TARGETS), (Direction::RuToUs, EN_TARGETS)] {
            if let Ok(converted) = map_token(core, direction) {
                let lower = converted.to_lowercase();
                if targets.contains(&lower.as_str()) && !dictionary.excluded(core, &lower) {
                    return Some((direction, lower));
                }
            }
        }
        None
    }
}

fn key(key: &str, action: Action, text: Option<&str>, time: u64, origin: Origin, modifiers: u32) -> Event {
    Event {
        key: key.into(),
        action,
        text: text.map(|t| t.into()),
        time_ms: time,
        device: None,
        origin,
        modifiers,
        editor_word: None,
    }
}

fn event(r: &mut Runtime, k: &str, action: Action, text: Option<&str>, time: u64, auto: bool) -> Response {
    r.event(key(k, action, text, time, Origin::Physical, 0), auto, &UserDictionary::default(), &Lexicon)
}

fn word(r: &mut Runtime, text: &str, t: &mut u64) {
    for c in text.chars() {
        *t += 1;
        event(r, "letter", Action::Down, Some(&c.to_string()), *t, false);
        *t += 1;
        event(r, "letter", Action::Up, None, *t, false);
    }
}

fn gesture(r: &mut Runtime, t: &mut u64) -> Response {
    let mut v = Response::Ignored;
    for a in [Action::Down, Action::Up, Action::Down, Action::Up] {
        *t += 50;
        v = event(r, "left_shift", a, None, *t, false);
    }
    v
}

fn id_of(r: &Response) -> u64 {
    match r {
        Response::InferredEdit { id, .. } | Response::LayoutOnly { id, .. } => *id,
        _ => panic!("no proposal"),
    }
}

fn replacement_of(r: &Response) -> String {
    match r {
        Response::InferredEdit { replacement, .. } => replacement.clone(),
        _ => String::new(),
    }
}

#[test]
fn known_invalid_editor_word_never_falls_back_to_history() {
    for observed in ["", "two words", "frr1", "https://frr"] {
        let mut r = Runtime::default();
        let mut t = 0;
        word(&mut r, "r", &mut t);
        for a in [Action::Down, Action::Up, Action::Down] {
            t += 50;
            event(&mut r, "left_shift", a, None, t, false);
        }
        t += 50;
        let mut e = key("left_shift", Action::Up, None, t, Origin::Physical, 0);
        e.editor_word = Some(observed.into());
        let p = r.event(e, false, &UserDictionary::default(), &Lexicon);
        assert_eq!(p.status(), "ignored");
        assert!(!r.is_pending());
        assert!(r.history().is_empty());
    }
}

#[test]
fn manual_uses_complete_editor_word_after_history_loss() {
    let mut r = Runtime::default();
    let mut t = 0;
    word(&mut r, "r", &mut t);
    for a in [Action::Down, Action::Up, Action::Down] {
        t += 50;
        event(&mut r, "left_shift", a, None, t, false);
    }
    t += 50;
    let mut e = key("left_shift", Action::Up, None, t, Origin::Physical, 0);
    e.editor_word = Some("frr".into());
    let p = r.event(e, false, &UserDictionary::default(), &Lexicon);
    match &p {
        Response::InferredEdit { before, remove, replacement, .. } => {
            assert_eq!(before, "frr");
            assert_eq!(*remove, 3);
            assert_eq!(replacement, "акк");
        },
        _ => panic!("expected an inferred edit"),
    }
    r.result(id_of(&p), Outcome::Completed, t, &UserDictionary::default());
    assert_eq!(replacement_of(&gesture(&mut r, &mut t)), "frr");
}

#[test]
fn manual_roundtrip_and_partial_failure() {
    let mut r = Runtime::default();
    let mut t = 0;
    word(&mut r, "ghbdtn", &mut t);
    let p = gesture(&mut r, &mut t);
    assert_eq!(replacement_of(&p), "привет");
    r.result(id_of(&p), Outcome::Completed, t, &UserDictionary::default());
    let p = gesture(&mut r, &mut t);
    assert_eq!(replacement_of(&p), "ghbdtn");
    r.result(id_of(&p), Outcome::UnknownAfter, t, &UserDictionary::default());
    assert_eq!(gesture(&mut r, &mut t).status(), "ignored");
}

#[test]
fn auto_learn_and_reverse_undo_soft_excludes() {
    let mut r = Runtime::default();
    let mut t = 0;
    word(&mut r, "ghbdtn", &mut t);
    t += 1;
    let p = event(&mut r, "space", Action::Down, None, t, true);
    t += 1;
    r.result(id_of(&p), Outcome::Completed, t, &UserDictionary::default());
    assert!(r.learned_words().contains(&"привет".to_string()));
    let p = gesture(&mut r, &mut t);
    assert_eq!(replacement_of(&p), "ghbdtn ");
    r.result(id_of(&p), Outcome::Completed, t, &UserDictionary::default());
    assert!(r.exclusions().contains(&"ghbdtn".to_string()));
    r.learn_clear();
    assert!(r.learned_words().is_empty());
    assert!(r.exclusions().contains(&"ghbdtn".to_string()));
}

#[test]
fn own_rewrite_does_not_suppress_next_auto_word() {
    let mut r = Runtime::default();
    let mut t = 0;
    word(&mut r, "ghbdtn", &mut t);
    t += 1;
    let p = event(&mut r, "space", Action::Down, None, t, true);
    t += 1;
    r.result(id_of(&p), Outcome::Completed, t, &UserDictionary::default());
    r.reset();
    word(&mut r, "руддщ", &mut t);
    t += 1;
    assert_eq!(event(&mut r, "space", Action::Down, None, t, true).status(), "inferred_edit");
}

#[test]
fn external_layout_change_skips_first_auto_word_only() {
    let mut r = Runtime::default();
    r.layout_notice("user", "us");
    r.layout_notice("user", "ru");
    let mut t = 10;
    word(&mut r, "ghbdtn", &mut t);
    t += 1;
    assert_eq!(event(&mut r, "space", Action::Down, None, t, true).status(), "ignored");
    r.reset();
    word(&mut r, "руддщ", &mut t);
    t += 1;
    assert_eq!(event(&mut r, "space", Action::Down, None, t, true).status(), "inferred_edit");
}

#[test]
fn layout_notice_sets_anti_loop() {
    let mut r = Runtime::default();
    r.layout_notice("user", "us");
    r.layout_notice("user", "ru");
    word(&mut r, "ghbdtn", &mut { 0u64 });
    let mut t = 10;
    word(&mut r, "ghbdtn", &mut t);
    t += 1;
    assert_eq!(event(&mut r, "space", Action::Down, None, t, true).status(), "ignored");
}

#[test]
fn origins_overflow_stale_result_and_shortcuts_invalidate() {
    for origin in [Origin::Own, Origin::Unknown] {
        let mut r = Runtime::default();
        let mut t = 0;
        word(&mut r, "ghbdtn", &mut t);
        r.event(key("letter", Action::Down, Some("x"), t + 1, origin, 0), false, &UserDictionary::default(), &Lexicon);
        let edit = gesture(&mut r, &mut t);
        assert_eq!(edit.status(), if origin == Origin::Own { "inferred_edit" } else { "ignored" });
    }
    let mut r = Runtime::default();
    let mut t = 0;
    word(&mut r, &"a".repeat(129), &mut t);
    assert_eq!(gesture(&mut r, &mut t).status(), "ignored");
    word(&mut r, "ghbdtn", &mut t);
    let p = gesture(&mut r, &mut t);
    assert_eq!(r.result(id_of(&p), Outcome::Completed, t + 2501, &UserDictionary::default()).status(), "reset");
    assert_eq!(gesture(&mut r, &mut t).status(), "ignored");
    word(&mut r, "ghbdtn", &mut t);
    r.event(key("command", Action::Down, None, t + 1, Origin::Physical, 2), true, &UserDictionary::default(), &Lexicon);
    assert_eq!(gesture(&mut r, &mut t).status(), "ignored");
}

#[test]
fn result_accepts_source_elapsed_deadline_and_keeps_retoggle() {
    let mut r = Runtime::default();
    let mut t = 0;
    word(&mut r, "ghbdtn", &mut t);
    let p = gesture(&mut r, &mut t);
    assert_eq!(r.result(id_of(&p), Outcome::Completed, t + 2500, &UserDictionary::default()).status(), "ok");
    assert_eq!(replacement_of(&gesture(&mut r, &mut t)), "ghbdtn");
}

#[test]
fn learn_add_is_validated_and_capped() {
    let mut r = Runtime::default();
    assert_eq!(r.learn_add("Привет".into()).status(), "learned");
    assert_eq!(r.learn_add("bad word".into()).status(), "invalid");
    assert!(r.learned_words().contains(&"привет".to_string()));
    for n in 0..600u32 {
        let mut w = String::from("word");
        for c in n.to_string().chars() {
            w.push((b'a' + c.to_digit(10).unwrap() as u8) as char);
        }
        r.learn_add(w);
    }
    assert!(r.learned_words().len() <= 500);
}

#[test]
fn stale_result_without_pending_edit() {
    let mut r = Runtime::default();
    assert_eq!(r.result(1, Outcome::Completed, 0, &UserDictionary::default()).status(), "stale");
}

fn state(text: &str, revision: u64) -> Snapshot {
    Snapshot {
        target: 1,
        epoch: 1,
        revision,
        text: text.into(),
        caret: text.chars().count(),
        anchor: text.chars().count(),
        focused: Some(true),
        normal_field: Some(true),
        composing: Some(false),
        modifiers_clear: Some(true),
        unicode_range: Some(true),
    }
}

fn at(ms: u64) -> Instant {
    Instant::from_nanos(1_000_000_000 + ms * 1_000_000)
}

fn call(b: &mut Bridge, request: Request, now: Instant) -> Reply {
    b.request(Some(request), now, &Lexicon)
}

fn authorize(b: &mut Bridge, now: Instant) -> Reply {
    assert_eq!(call(b, Request::Prepare { state: state("ghbdtn", 1), reverse: false }, now).status(), "ready");
    call(b, Request::Authorize { state: state("ghbdtn", 1) }, now)
}

#[test]
fn asynchronous_delete_then_unicode_readback() {
    let mut b = Bridge::default();
    let now = at(0);
    match authorize(&mut b, now) {
        Reply::Edit { offset, length, replacement } => {
            assert_eq!(offset, -6);
            assert_eq!(length, 6);
            assert_eq!(replacement, "привет");
        },
        _ => panic!("expected an edit"),
    }
    assert_eq!(call(&mut b, Request::Observe { state: state("", 2) }, now).status(), "pending");
    assert_eq!(call(&mut b, Request::Observe { state: state("привет", 3) }, now).status(), "completed");
    assert_eq!(call(&mut b, Request::Authorize { state: state("ghbdtn", 1) }, now).status(), "rejected");
}

#[test]
fn partial_timeout_is_indeterminate_and_never_retried() {
    let mut b = Bridge::default();
    let now = at(0);
    authorize(&mut b, now);
    assert_eq!(call(&mut b, Request::Observe { state: state("", 2) }, at(500)).status(), "indeterminate");
    assert_eq!(call(&mut b, Request::Authorize { state: state("ghbdtn", 1) }, now).status(), "rejected");
}

#[test]
fn stale_focus_selection_unknown_and_expiry_refuse_before_edit() {
    let now = at(0);
    for field in ["target", "epoch", "anchor", "normal_field", "composing", "revision", "expiry"] {
        let mut b = Bridge::default();
        call(&mut b, Request::Prepare { state: state("ghbdtn", 1), reverse: false }, now);
        let mut s = state("ghbdtn", 1);
        match field {
            "target" => s.target = 2,
            "epoch" => s.epoch = 2,
            "revision" => s.revision = 2,
            "anchor" => s.anchor = 0,
            "normal_field" => s.normal_field = None,
            "composing" => s.composing = None,
            _ => {},
        }
        let later = if field == "expiry" { at(500) } else { now };
        assert_eq!(call(&mut b, Request::Authorize { state: s }, later).status(), "rejected");
    }
}

#[test]
fn focus_loss_and_bad_protocol_after_edit_are_indeterminate() {
    let now = at(0);
    let mut b = Bridge::default();
    authorize(&mut b, now);
    let mut s = state("привет", 2);
    s.epoch = 2;
    assert_eq!(call(&mut b, Request::Observe { state: s }, now).status(), "indeterminate");
    authorize(&mut b, now);
    assert_eq!(b.request(None, now, &Lexicon).status(), "indeterminate");
}

#[test]
fn dictionary_configuration_is_validated_and_never_replaces_pending_edit() {
    let now = at(0);
    let mut bridge = Bridge::default();
    let custom = || Request::Configure {
        words: vec!["клавиатуры".into()],
        exclusions: vec!["привет".into()],
        learned: vec![],
        policy: AutoPolicy::default(),
    };
    assert_eq!(call(&mut bridge, custom(), now).status(), "configured");
    match call(&mut bridge, Request::Infer { text: "rkfdbfnehs ".into(), automatic: true }, now) {
        Reply::Inferred { replacement, .. } => assert_eq!(replacement, "клавиатуры "),
        _ => panic!("expected a suggestion"),
    }
    let bad = Request::Configure {
        words: vec!["bad word".into()],
        exclusions: vec![],
        learned: vec![],
        policy: AutoPolicy::default(),
    };
    assert_eq!(call(&mut bridge, bad, now).status(), "invalid-dictionary");
    assert_eq!(call(&mut bridge, Request::Infer { text: "ghbdtn ".into(), automatic: true }, now).status(), "ignored");
    assert_eq!(
        call(&mut bridge, Request::Smart { state: state("rkfdbfnehs ", 1), automatic: true }, now).status(),
        "ready"
    );
    assert_eq!(call(&mut bridge, custom(), now).status(), "busy");
    match call(&mut bridge, Request::Authorize { state: state("rkfdbfnehs ", 1) }, now) {
        Reply::Edit { replacement, .. } => assert_eq!(replacement, "клавиатуры "),
        _ => panic!("expected an edit"),
    }
}

#[test]
fn infer_respects_configured_policy() {
    let now = at(0);
    let mut b = Bridge::default();
    let policy = AutoPolicy {
        switch_only_last_word: true,
        dont_switch_words: true,
        dont_correct_after_layout_change: true,
    };
    assert_eq!(
        call(&mut b, Request::Configure { words: vec![], exclusions: vec![], learned: vec![], policy }, now)
            .status(),
        "configured"
    );
    match call(&mut b, Request::Infer { text: "ghbdtn ".into(), automatic: true }, now) {
        Reply::Inferred { layout_only, remove, .. } => {
            assert!(layout_only);
            assert_eq!(remove, 0);
        },
        _ => panic!("expected a suggestion"),
    }
    match call(&mut b, Request::Infer { text: "ghbdtn".into(), automatic: false }, now) {
        Reply::Inferred { layout_only, .. } => assert!(!layout_only),
        _ => panic!("expected a suggestion"),
    }
}

#[test]
fn key_events_are_refused_while_a_plan_is_outstanding() {
    let now = at(0);
    let mut b = Bridge::default();
    call(&mut b, Request::Prepare { state: state("ghbdtn", 1), reverse: false }, now);
    let e = key("letter", Action::Down, Some("a"), 1, Origin::Physical, 0);
    assert_eq!(call(&mut b, Request::KeyEvent { event: e, automatic: false }, now).status(), "rejected");
    assert_eq!(call(&mut b, Request::Protocol, now).status(), "");
}

#[test]
fn input_len_boundary_is_524288_inclusive() {
    let mut b = Bridge::new();
    let now = Instant::from_nanos(5_000_000_000);
    let at_limit = b.call(524288, None, now, &Lexicon);
    assert_eq!(at_limit.map(|r| r.status()), Some("rejected"));
    assert!(b.call(524289, None, now, &Lexicon).is_none());
    assert!(b.reply_fits(32768));
    assert!(!b.reply_fits(32769));
}
