use typetune::clock::{Clock, FakeClock};
use typetune::engine::automatic::{
    prepare_automatic, prepare_automatic_with_dictionary, prepare_toggle, swap_yo_e, LanguageModel,
    VocabularyModel,
};
use typetune::engine::inferred::{suggest, suggest_with_dictionary};
use typetune::engine::manual::{map_token, prepare_manual, Direction, RU, US};
use typetune::engine::user_dictionary::UserDictionary;
use typetune::engine::{
    execute, replace_chars, ApplyResult, Origin, Outcome, Plan, RangeEditor, Rejection, Snapshot,
    StaticSnippet, MAX_DOCUMENT_BYTES,
};
use typetune::time::{Duration, Instant};
use vstd::seq::Seq;

/// A small lexicon standing in for the frequency tables: taught words first,
/// then a key-for-key conversion into a known target word, unless the source
/// is itself a known word.
struct Lexicon;

const KNOWN: &[&str] = &[
    "hello", "привет", "yet", "cat", "the", "как", "нет", "да", "бы", "to", "in", "vs", "tot",
];
const RU_TARGETS: &[&str] = &[
    "привет", "это", "бы", "не", "люди", "как", "что", "где", "кто", "он", "все",
];
const EN_TARGETS: &[&str] = &["hello", "the", "to", "in"];

impl LanguageModel for Lexicon {
    // The verifier's view of `identify`; a test model is not verified, and
    // this method is never called when the tests run.
    fn identifies(&self, _core: Seq<char>, _dictionary: UserDictionary) -> Option<(Direction, Seq<char>)> {
        unreachable!("read by the verifier only")
    }

    fn identify(&self, core: &str, dictionary: &UserDictionary) -> Option<(Direction, String)> {
        if let Some(hit) = VocabularyModel.identify(core, dictionary) {
            return Some(hit);
        }
        if dictionary.contains(core) || KNOWN.contains(&core) {
            return None;
        }
        for (direction, targets) in [(Direction::UsToRu, RU_TARGETS), (Direction::RuToUs, EN_TARGETS)] {
            if let Ok(converted) = map_token(core, direction) {
                let lower = converted.to_lowercase();
                if targets.contains(&lower.as_str()) && !dictionary.excluded(core, &lower) {
                    return Some((direction, lower));
                }
            }
        }
        None
    }
}

struct Editor {
    state: Snapshot,
    calls: usize,
    partial: bool,
}

impl RangeEditor for Editor {
    fn snapshot(&self) -> Result<Snapshot, Rejection> {
        Ok(self.state.clone())
    }
    fn apply<F: Fn() -> Instant>(&mut self, plan: &Plan, now: &F) -> ApplyResult {
        if plan.expired(now()) {
            return ApplyResult::Rejected(Rejection::Expired);
        }
        self.calls += 1;
        if self.state != *plan.before() {
            return ApplyResult::Rejected(Rejection::Changed);
        }
        let replacement = if self.partial { "" } else { plan.replacement() };
        self.state.text = replace_chars(&self.state.text, plan.range(), replacement).unwrap();
        self.state.caret = plan.range().start + replacement.chars().count();
        self.state.anchor = self.state.caret;
        self.state.revision += 1;
        if self.partial {
            ApplyResult::Indeterminate
        } else {
            ApplyResult::Applied
        }
    }
}

fn snapshot(text: &str) -> Snapshot {
    Snapshot {
        target: 1,
        epoch: 1,
        revision: 1,
        text: text.into(),
        caret: text.chars().count(),
        anchor: text.chars().count(),
        focused: Some(true),
        normal_field: Some(true),
        composing: Some(false),
        modifiers_clear: Some(true),
        unicode_range: Some(true),
    }
}

fn editor(text: &str) -> Editor {
    Editor { state: snapshot(text), calls: 0, partial: false }
}

fn some_time() -> Instant {
    Instant::from_nanos(5_000_000_000)
}

fn plan(e: &Editor, clock: &FakeClock) -> Plan {
    StaticSnippet::new(":hi", "Привет, WORLD! 👋\ne\u{301}")
        .unwrap()
        .prepare(e.state.clone(), Origin::CommittedUser, clock.now(), Duration::from_millis(100))
        .unwrap()
        .unwrap()
}

fn automatic(text: &str) -> Option<(Plan, Direction)> {
    prepare_automatic(snapshot(text), some_time(), Duration::from_secs(1), &Lexicon).unwrap()
}

#[test]
fn unicode_range_preserves_prefix_suffix_caret_and_one_delimiter() {
    let clock = FakeClock::at_zero();
    let mut e = editor("я :hi хвост");
    e.state.caret = 6;
    e.state.anchor = 6;
    let p = plan(&e, &clock);
    assert_eq!(execute(&mut e, p, || clock.now()), Outcome::Completed);
    assert_eq!(e.state.text, "я Привет, WORLD! 👋\ne\u{301} хвост");
    assert_eq!(e.state.caret, "я Привет, WORLD! 👋\ne\u{301} ".chars().count());
    assert_eq!(e.state.anchor, e.state.caret);
    assert_eq!(e.calls, 1);
}

#[test]
fn every_guard_rejects_unknown_before_edit() {
    let snippet = StaticSnippet::new(":hi", "hello").unwrap();
    for field in 0..6 {
        let mut e = editor(":hi ");
        match field {
            0 => e.state.focused = None,
            1 => e.state.normal_field = None,
            2 => e.state.composing = None,
            3 => e.state.modifiers_clear = None,
            4 => e.state.unicode_range = None,
            _ => e.state.anchor = 0,
        }
        assert!(snippet
            .prepare(e.state.clone(), Origin::CommittedUser, some_time(), Duration::from_secs(1))
            .is_err());
        assert_eq!(e.state.text, ":hi ");
        assert_eq!(e.calls, 0);
    }
}

#[test]
fn changed_target_revision_caret_selection_and_context_cancel() {
    let clock = FakeClock::at_zero();
    for field in 0..7 {
        let mut e = editor(":hi ");
        let p = plan(&e, &clock);
        match field {
            0 => e.state.target += 1,
            1 => e.state.epoch += 2,
            2 => e.state.revision += 1,
            3 => e.state.caret = 0,
            4 => e.state.anchor = 0,
            5 => e.state.composing = Some(true),
            _ => e.state.focused = Some(false),
        }
        let before = e.state.text.clone();
        assert_eq!(
            execute(&mut e, p, || clock.now()),
            Outcome::FailedBeforeEdit(Rejection::Changed)
        );
        assert_eq!(e.state.text, before);
        assert_eq!(e.calls, 0);
    }
}

#[test]
fn expiry_and_future_time_do_not_edit() {
    let mut clock = FakeClock::at_zero();
    let mut e = editor(":hi ");
    let p = plan(&e, &clock);
    clock.advance(Duration::from_millis(100));
    assert_eq!(
        execute(&mut e, p, || clock.now()),
        Outcome::FailedBeforeEdit(Rejection::Expired)
    );
    let p = plan(&e, &clock);
    assert_eq!(
        execute(&mut e, p, || Instant::from_nanos(clock.now().nanos - 1_000_000)),
        Outcome::FailedBeforeEdit(Rejection::Expired)
    );
    assert_eq!(e.calls, 0);
}

#[test]
fn own_or_unknown_output_cannot_retrigger() {
    let snippet = StaticSnippet::new(":hi", ":hi").unwrap();
    let e = editor(":hi ");
    for origin in [Origin::OwnReplacement, Origin::Unknown] {
        assert!(matches!(
            snippet.prepare(e.state.clone(), origin, some_time(), Duration::from_secs(1)),
            Err(Rejection::Origin)
        ));
    }
}

#[test]
fn space_and_word_boundary_only() {
    let snippet = StaticSnippet::new(":hi", "hello").unwrap();
    for text in ["abc:hi ", ":hi\n", ":hi\t", ":hi"] {
        assert!(snippet
            .prepare(editor(text).state, Origin::CommittedUser, some_time(), Duration::from_secs(1))
            .unwrap()
            .is_none());
    }
}

#[test]
fn partial_edit_stops_without_retry() {
    let clock = FakeClock::at_zero();
    let mut e = editor("left :hi ");
    e.partial = true;
    let p = plan(&e, &clock);
    assert_eq!(execute(&mut e, p, || clock.now()), Outcome::IndeterminateAfterEdit);
    assert_eq!(e.state.text, "left ");
    assert_eq!(e.state.caret, 5);
    assert_eq!(e.calls, 1);
}

#[test]
fn oversized_or_nul_renderer_rejected_before_deletion() {
    assert!(matches!(StaticSnippet::new(":hi", &"x".repeat(4096)), Err(Rejection::Limit)));
    assert!(matches!(StaticSnippet::new(":hi", "bad\0text"), Err(Rejection::InvalidSnippet)));
    let mut e = editor(":hi ");
    e.state.text = "x".repeat(MAX_DOCUMENT_BYTES + 1);
    assert_eq!(e.state.check(), Err(Rejection::Limit));
    assert_eq!(e.calls, 0);
}

#[test]
fn successful_api_call_without_expected_content_is_indeterminate() {
    struct Lying(Editor);
    impl RangeEditor for Lying {
        fn snapshot(&self) -> Result<Snapshot, Rejection> {
            self.0.snapshot()
        }
        fn apply<F: Fn() -> Instant>(&mut self, plan: &Plan, now: &F) -> ApplyResult {
            self.0.apply(plan, now);
            ApplyResult::Applied
        }
    }
    let clock = FakeClock::at_zero();
    let mut e = editor(":hi ");
    let p = plan(&e, &clock);
    e.partial = true;
    let mut backend = Lying(e);
    assert_eq!(execute(&mut backend, p, || clock.now()), Outcome::IndeterminateAfterEdit);
    assert_eq!(backend.0.state.text, "");
    assert_eq!(backend.0.state.caret, 0);
    assert_eq!(backend.0.calls, 1);
}

#[test]
fn manual_mapping_case_delimiters_and_surroundings() {
    let clock = FakeClock::at_zero();
    for (source, expected, direction) in [
        ("ghbdtn", "привет", Direction::UsToRu),
        ("GhBdTn  ", "ПрИвЕт  ", Direction::UsToRu),
        ("GHBDTN", "ПРИВЕТ", Direction::UsToRu),
        ("руддщ ", "hello ", Direction::RuToUs),
        ("ЁХЪЖЭБЮ", "~{}:\"<>", Direction::RuToUs),
        ("`[];' ,.", "`[];' бю", Direction::UsToRu),
    ] {
        let mut e = editor(&format!("до {source} хвост"));
        e.state.caret = 3 + source.chars().count();
        e.state.anchor = e.state.caret;
        let p = prepare_manual(e.state.clone(), direction, clock.now(), Duration::from_secs(1)).unwrap();
        assert_eq!(execute(&mut e, p, || clock.now()), Outcome::Completed);
        assert_eq!(e.state.text, format!("до {expected} хвост"));
        assert_eq!(e.state.caret, 3 + expected.chars().count());
        assert_eq!(e.state.anchor, e.state.caret);
    }
}

#[test]
fn manual_refuses_unsupported_tokens_and_partial_words() {
    for text in ["", "   ", "ghbdtn\n", "ghbdtn\t", "abcЯ", "abc123", "x@y", "a/b", "é", "🙂"] {
        let e = editor(text);
        assert!(prepare_manual(e.state, Direction::UsToRu, some_time(), Duration::from_secs(1)).is_err());
    }
    let mut e = editor("ghbdtn");
    e.state.caret = 3;
    e.state.anchor = 3;
    assert!(prepare_manual(e.state, Direction::UsToRu, some_time(), Duration::from_secs(1)).is_err());
}

#[test]
fn manual_stale_expired_and_partial_use_same_executor() {
    for mode in 0..4 {
        let mut clock = FakeClock::at_zero();
        let mut e = editor("ghbdtn ");
        let p = prepare_manual(e.state.clone(), Direction::UsToRu, clock.now(), Duration::from_millis(100))
            .unwrap();
        match mode {
            0 => e.state.focused = Some(false),
            1 => e.state.anchor = 0,
            2 => clock.advance(Duration::from_millis(100)),
            _ => e.partial = true,
        }
        let result = execute(&mut e, p, || clock.now());
        if mode == 3 {
            assert_eq!(result, Outcome::IndeterminateAfterEdit);
            assert_eq!(e.calls, 1);
            assert_eq!(e.state.text, "");
            assert_eq!(e.state.caret, 0);
        } else {
            assert!(matches!(result, Outcome::FailedBeforeEdit(_)));
            assert_eq!(e.calls, 0);
            assert_eq!(e.state.text, "ghbdtn ");
        }
    }
}

#[test]
fn manual_after_spaces_immediately_before_following_word() {
    let clock = FakeClock::at_zero();
    let mut e = editor("до GhBdTn  хвост");
    e.state.caret = 11;
    e.state.anchor = 11;
    let p = prepare_manual(e.state.clone(), Direction::UsToRu, clock.now(), Duration::from_secs(1)).unwrap();
    assert_eq!(execute(&mut e, p, || clock.now()), Outcome::Completed);
    assert_eq!(e.state.text, "до ПрИвЕт  хвост");
    assert_eq!(e.state.caret, 11);
}

#[test]
fn external_editor_without_composition_evidence_refuses_manual_correction() {
    let mut e = editor("до ghbdtn хвост");
    e.state.caret = 9;
    e.state.anchor = 9;
    e.state.composing = None;
    let before = e.state.clone();
    assert!(matches!(
        prepare_manual(e.state.clone(), Direction::UsToRu, some_time(), Duration::from_secs(1)),
        Err(Rejection::Context)
    ));
    assert!(e.state == before);
    assert_eq!(e.calls, 0);
}

#[test]
fn short_frequent_words_preserve_editor_state_and_inferred_parity() {
    let clock = FakeClock::at_zero();
    for (input, expected) in [
        ("rfr ", "как "),
        ("Rfr ", "Как "),
        ("RFR ", "КАК "),
        ("xnj ", "что "),
        ("ult ", "где "),
        ("rnj ", "кто "),
        ("'nj ", "это "),
        ("еру ", "the "),
        ("cat ", "cat "),
        ("yet ", "yet "),
        ("как ", "как "),
        ("the ", "the "),
        ("нет ", "нет "),
        ("да ", "да "),
        ("lf ", "lf "),
        ("z ", "z "),
        ("сфе ", "сфе "),
        ("rFr ", "rFr "),
        ("rfr", "rfr"),
        ("rfr  ", "rfr  "),
        ("rfr42 ", "rfr42 "),
        ("rfr_ ", "rfr_ "),
        ("https://rfr ", "https://rfr "),
        ("/rfr ", "/rfr "),
        ("a@rfr ", "a@rfr "),
        ("foo::rfr ", "foo::rfr "),
    ] {
        let mut e = editor(&format!("prefix {input}suffix"));
        e.state.caret = "prefix ".chars().count() + input.chars().count();
        e.state.anchor = e.state.caret;
        if let Some((plan, _)) =
            prepare_automatic(e.state.clone(), clock.now(), Duration::from_secs(1), &Lexicon).unwrap()
        {
            assert_eq!(execute(&mut e, plan, || clock.now()), Outcome::Completed);
        }
        assert_eq!(e.state.text, format!("prefix {expected}suffix"), "{input}");
        assert_eq!(e.state.caret, "prefix ".chars().count() + expected.chars().count());
        assert_eq!(e.state.anchor, e.state.caret);
        assert_eq!(
            suggest(input, true, &Lexicon).map(|s| s.replacement).unwrap_or(input.into()),
            expected
        );
    }
}

#[test]
fn two_letter_words_preserve_context_and_reject_ambiguous_input() {
    let clock = FakeClock::at_zero();
    for (input, expected) in [
        (",s ", "бы "),
        ("<s ", "Бы "),
        ("<S ", "БЫ "),
        ("yt ", "не "),
        ("jy ", "он "),
        ("ещ ", "to "),
        ("шт ", "in "),
        ("ye ", "ye "),
        ("lf ", "lf "),
        ("vs ", "vs "),
        ("бы ", "бы "),
        ("to ", "to "),
        ("in ", "in "),
        ("да ", "да "),
        ("z ", "z "),
        (",s", ",s"),
        (",s  ", ",s  "),
        (",s42 ", ",s42 "),
        ("/,s ", "/,s "),
        ("https://,s ", "https://,s "),
        ("a@,s ", "a@,s "),
        (",s_ ", ",s_ "),
    ] {
        let mut e = editor(&format!("prefix {input}suffix"));
        e.state.caret = 7 + input.chars().count();
        e.state.anchor = e.state.caret;
        if let Some((plan, direction)) =
            prepare_automatic(e.state.clone(), clock.now(), Duration::from_secs(1), &Lexicon).unwrap()
        {
            assert!(matches!(
                (direction, expected),
                (Direction::RuToUs, "to " | "in ")
                    | (Direction::UsToRu, "бы " | "Бы " | "БЫ " | "не " | "он ")
            ));
            assert_eq!(execute(&mut e, plan, || clock.now()), Outcome::Completed);
        }
        assert_eq!(e.state.text, format!("prefix {expected}suffix"), "{input}");
        assert_eq!(e.state.caret, 7 + expected.chars().count());
        assert_eq!(e.state.anchor, e.state.caret);
        assert_eq!(
            suggest(input, true, &Lexicon).map(|s| s.replacement).unwrap_or(input.into()),
            expected,
            "{input}"
        );
    }
    for (focused, composing, anchor) in [
        (None, Some(false), 3),
        (Some(true), None, 3),
        (Some(true), Some(false), 0),
    ] {
        let mut e = editor(",s ");
        e.state.focused = focused;
        e.state.composing = composing;
        e.state.anchor = anchor;
        let before = e.state.clone();
        assert!(prepare_automatic(before.clone(), clock.now(), Duration::from_secs(1), &Lexicon).is_err());
        assert!(e.state == before);
        assert_eq!(e.calls, 0);
    }
}

#[test]
fn user_words_and_exclusions_apply_to_both_profiles_without_changing_manual() {
    let clock = FakeClock::at_zero();
    let custom = UserDictionary::new(vec!["Клавиатуры".into()], vec![]).unwrap();
    let excluded = UserDictionary::new(vec![], vec!["Привет".into()]).unwrap();
    let protected = UserDictionary::new(vec!["ghbdtn".into()], vec![]).unwrap();
    for (dictionary, input, expected) in [
        (&custom, "rkfdbfnehs ", "клавиатуры "),
        (&custom, "клавиатуры ", "клавиатуры "),
        (&excluded, "ghbdtn ", "ghbdtn "),
        (&protected, "ghbdtn ", "ghbdtn "),
    ] {
        let mut e = editor(&format!("prefix {input}suffix"));
        e.state.caret = 7 + input.chars().count();
        e.state.anchor = e.state.caret;
        if let Some((plan, _)) = prepare_automatic_with_dictionary(
            e.state.clone(),
            clock.now(),
            Duration::from_secs(1),
            dictionary,
            &Lexicon,
        )
        .unwrap()
        {
            assert_eq!(execute(&mut e, plan, || clock.now()), Outcome::Completed);
        }
        assert_eq!(e.state.text, format!("prefix {expected}suffix"));
        assert_eq!(e.state.caret, 7 + expected.chars().count());
        assert_eq!(e.state.anchor, e.state.caret);
        assert_eq!(
            suggest_with_dictionary(input, true, dictionary, &Lexicon)
                .map(|s| s.replacement)
                .unwrap_or(input.into()),
            expected
        );
    }
    assert!(suggest("rkfdbfnehs ", true, &Lexicon).is_none());
    assert_eq!(
        suggest_with_dictionary("ghbdtn ", false, &excluded, &Lexicon).unwrap().replacement,
        "привет "
    );
    assert!(UserDictionary::new(vec!["привеt".into()], vec![]).is_err());
    assert!(UserDictionary::new(vec![], vec!["x".into()]).is_err());
    assert!(UserDictionary::new(vec!["hello".into(); 501], vec![]).is_err());
}

#[test]
fn positive_case_and_direction_preserve_space_and_prefix() {
    for (before, after) in [
        ("ghbdtn ", "привет "),
        ("Prefix Ghbdtn ", "Привет "),
        ("GHBDTN ", "ПРИВЕТ "),
        ("руддщ ", "hello "),
    ] {
        let (plan, _) = automatic(before).unwrap();
        assert_eq!(plan.replacement(), after, "{before}");
    }
}

#[test]
fn negative_corpus_stays_unchanged() {
    for word in [
        "hello ",
        "привет ",
        "yet ",
        "cat ",
        "hello@example.com ",
        "https://ghbdtn ",
        "/ghbdtn ",
        "ghbdtn42 ",
        "ghbdtn_ ",
        "GhBdTn ",
        "ghbdtn",
        "ghbdtn  ",
        "qwerty ",
        "привеt ",
        "e\u{301} ",
        "😀 ",
        ":ghbdtn ",
        "foo::ghbdtn ",
        "ghbdtn.com ",
        "example.com ",
        "foo::bar_baz ",
        "snake_case_name ",
        "https://example.com/path ",
        "hyphen-word ",
        "enum-variant ",
        ", ",
        ",. ",
        "«привет» ",
    ] {
        assert!(automatic(word).is_none(), "{word}");
    }
}

#[test]
fn boundary_punctuation_is_restored_exactly_once() {
    for (before, after) in [
        ("ghbdtn, ", "привет, "),
        ("ghbdtn. ", "привет. "),
        ("ghbdtn! ", "привет! "),
        ("ghbdtn? ", "привет? "),
        ("ghbdtn; ", "привет; "),
        ("ghbdtn: ", "привет: "),
        ("ghbdtn... ", "привет... "),
        ("(ghbdtn) ", "(привет) "),
        ("\"ghbdtn\" ", "\"привет\" "),
        ("Ghbdtn, ", "Привет, "),
        ("GHBDTN. ", "ПРИВЕТ. "),
        ("'nj ", "это "),
        (",s ", "бы "),
        ("<s ", "Бы "),
        ("yt, ", "не, "),
        ("k.lb ", "люди "),
    ] {
        let (plan, _) = automatic(before).unwrap();
        assert_eq!(plan.replacement(), after, "{before}");
    }
}

#[test]
fn yo_e_swap_exchanges_both_spellings() {
    assert_eq!(swap_yo_e("все"), "всё");
    assert_eq!(swap_yo_e("ВСЁ"), "ВСЕ");
    assert_eq!(swap_yo_e("привет"), "привёт");
    assert_eq!(swap_yo_e("hello"), "hello");
}

#[test]
fn toggle_falls_through_to_reverse_direction_without_swallowing_context() {
    let now = some_time();
    let ttl = Duration::from_secs(1);
    let (plan, dir) = prepare_toggle(snapshot("руддщ "), now, ttl).unwrap();
    assert!(matches!(dir, Direction::RuToUs));
    assert_eq!(plan.replacement(), "hello ");
    let (plan, dir) = prepare_toggle(snapshot("ghbdtn "), now, ttl).unwrap();
    assert!(matches!(dir, Direction::UsToRu));
    assert_eq!(plan.replacement(), "привет ");
    let mut s = snapshot("руддщ ");
    s.focused = None;
    assert!(matches!(prepare_toggle(s, now, ttl), Err(Rejection::Context)));
    let mut s = snapshot("руддщ ");
    s.anchor = 0;
    assert!(matches!(prepare_toggle(s, now, ttl), Err(Rejection::Selection)));
}

#[test]
fn unknown_and_selection_fail_before_planning() {
    let mut s = snapshot("ghbdtn ");
    s.composing = None;
    assert!(matches!(
        prepare_automatic(s, some_time(), Duration::from_secs(1), &Lexicon),
        Err(Rejection::Context)
    ));
    let mut s = snapshot("ghbdtn ");
    s.anchor = 0;
    assert!(matches!(
        prepare_automatic(s, some_time(), Duration::from_secs(1), &Lexicon),
        Err(Rejection::Selection)
    ));
}

#[test]
fn inferred_is_separate_from_committed_plan_and_uses_same_rules() {
    let s = suggest("ghbdtn ", true, &Lexicon).unwrap();
    assert_eq!(s.remove, 7);
    assert_eq!(s.replacement, "привет ");
    assert_eq!(suggest("руддщ", false, &Lexicon).unwrap().replacement, "hello");
    for word in ["hello ", "https://ghbdtn ", "ghbdtn  ", "ghbdtn", ""] {
        assert!(suggest(word, true, &Lexicon).is_none());
    }
    assert!(suggest(&"a".repeat(129), false, &Lexicon).is_none());
}

#[test]
fn inferred_shares_punctuation_and_yo_e_rules_with_editor() {
    assert_eq!(suggest("ghbdtn, ", true, &Lexicon).unwrap().replacement, "привет, ");
    assert_eq!(suggest("(ghbdtn) ", true, &Lexicon).unwrap().replacement, "(привет) ");
    assert_eq!(suggest("'nj ", true, &Lexicon).unwrap().replacement, "это ");
    assert_eq!(suggest(",s ", true, &Lexicon).unwrap().replacement, "бы ");
    for word in ["ghbdtn.com ", "example.com ", ":ghbdtn ", "ghbdtn_ "] {
        assert!(suggest(word, true, &Lexicon).is_none(), "{word}");
    }
    assert_eq!(suggest("dct ", true, &Lexicon).unwrap().replacement, "все ");
}

#[test]
fn mapping_is_bijective_and_covers_all_russian_letters_in_both_cases() {
    assert_eq!(US.chars().count(), 66);
    assert_eq!(RU.chars().count(), 66);
    assert_eq!(US.chars().collect::<std::collections::HashSet<_>>().len(), 66);
    assert_eq!(RU.chars().collect::<std::collections::HashSet<_>>().len(), 66);
    assert_eq!(US.chars().zip(RU.chars()).find(|(c, _)| *c == '~'), Some(('~', 'Ё')));
}

#[test]
fn manual_round_trip_restores_the_token() {
    let forward = map_token("GhBdTn", Direction::UsToRu).unwrap();
    assert_eq!(forward, "ПрИвЕт");
    assert_eq!(map_token(&forward, Direction::RuToUs).unwrap(), "GhBdTn");
}

#[test]
fn vocabulary_model_converts_only_taught_words() {
    let taught = UserDictionary::new(vec!["привет".into()], vec![]).unwrap();
    assert_eq!(
        VocabularyModel.identify("ghbdtn", &taught),
        Some((Direction::UsToRu, "привет".to_string()))
    );
    assert_eq!(VocabularyModel.identify("ghbdtn", &UserDictionary::default()), None);
    assert_eq!(VocabularyModel.identify("привет", &taught), None);
}
