//! Compatibility profile: suggestions computed from keymap-inferred history.
//! A suggestion is not a committed snapshot, an authorized plan, or a
//! confirmed edit.
use super::automatic::{
    auto_span, automatic_spec, automatic_decision, default_policy, model_decision, AutoAction, AutoPolicy, LanguageModel,
};
use super::manual::{
    convert_suffix, convert_suffix_spec, find_word_start, lemma_trimmed_len, lemma_word_start,
    trim_spaces_end, trimmed_len, word_start, Direction,
};
use super::user_dictionary::UserDictionary;
use super::{Rejection, Snapshot};
use crate::text::{append_chars, string_from, to_chars};
use vstd::prelude::*;

verus! {

/// Remove `remove` characters before the caret and type `replacement`;
/// `layout_only` asks only for a layout switch.
pub struct Suggestion {
    pub remove: usize,
    pub replacement: String,
    pub direction: Direction,
    pub layout_only: bool,
}

/// A suggestion as values: (remove, replacement, direction, layout_only).
pub open spec fn suggestion_is(s: Suggestion, v: (int, Seq<char>, Direction, bool)) -> bool {
    s.remove as int == v.0 && s.replacement@ == v.1 && s.direction == v.2 && s.layout_only == v.3
}

/// What `suggest_with_policy` answers. History is bounded to 128 characters.
/// The automatic profile mirrors the editor profile: only a token committed by
/// exactly one trailing Space. The manual profile converts the last token in
/// the first direction that fits.
pub open spec fn suggestion_spec<M: LanguageModel>(
    text: Seq<char>,
    automatic: bool,
    model: M,
    dictionary: UserDictionary,
    policy: AutoPolicy,
) -> Option<(int, Seq<char>, Direction, bool)> {
    let n = text.len() as int;
    if n == 0 || n > 128 {
        None
    } else if automatic {
        if !(text[n - 1] == ' ') || (n > 1 && text[n - 2] == ' ') {
            None
        } else {
            let end = trimmed_len(text, n);
            let start = word_start(text, end);
            match model_decision(model, dictionary, text.subrange(start, end), policy) {
                Some((d, Some(form))) => Some(
                    ((end - start) + (n - end), form + text.subrange(end, n), d, false),
                ),
                Some((d, None)) => Some((0, Seq::empty(), d, true)),
                None => None,
            }
        }
    } else {
        match convert_suffix_spec(text, Direction::UsToRu) {
            Ok((start, rep)) => Some((n - start, rep, Direction::UsToRu, false)),
            Err(_) => match convert_suffix_spec(text, Direction::RuToUs) {
                Ok((start, rep)) => Some((n - start, rep, Direction::RuToUs, false)),
                Err(_) => None,
            },
        }
    }
}

pub fn suggest_with_policy<M: LanguageModel>(
    text: &str,
    automatic: bool,
    dictionary: &UserDictionary,
    policy: &AutoPolicy,
    model: &M,
) -> (r: Option<Suggestion>)
    ensures
        match suggestion_spec(text@, automatic, *model, *dictionary, *policy) {
            None => r is None,
            Some(v) => r matches Some(s) && suggestion_is(s, v),
        },
{
    let chars = to_chars(text);
    let n = chars.len();
    if n == 0 || n > 128 {
        return None;
    }
    if automatic {
        if !(chars[n - 1] == ' ') || (n > 1 && chars[n - 2] == ' ') {
            return None;
        }
        let end = trim_spaces_end(&chars, n);
        proof {
            lemma_trimmed_len(chars@, n as int);
        }
        let start = find_word_start(&chars, end);
        proof {
            lemma_word_start(chars@, end as int);
        }
        let word = string_from(&chars, start, end);
        match automatic_decision(word.as_str(), model, dictionary, policy) {
            AutoAction::Rewrite { direction, form } => {
                let mut replacement = form;
                append_chars(&mut replacement, &chars, end, n);
                return Some(
                    Suggestion {
                        remove: (end - start) + (n - end),
                        replacement,
                        direction,
                        layout_only: false,
                    },
                );
            },
            AutoAction::LayoutOnly(direction) => {
                return Some(
                    Suggestion {
                        remove: 0,
                        replacement: String::new(),
                        direction,
                        layout_only: true,
                    },
                );
            },
            AutoAction::Unchanged => {
                return None;
            },
        }
    }
    assert(chars@.take(n as int) =~= chars@);
    match convert_suffix(&chars, n, Direction::UsToRu) {
        Ok((start, replacement)) => {
            proof {
                lemma_trimmed_len(chars@, n as int);
                lemma_word_start(chars@, trimmed_len(chars@, n as int));
            }
            return Some(
                Suggestion {
                    remove: n - start,
                    replacement,
                    direction: Direction::UsToRu,
                    layout_only: false,
                },
            );
        },
        Err(_) => {},
    }
    match convert_suffix(&chars, n, Direction::RuToUs) {
        Ok((start, replacement)) => {
            proof {
                lemma_trimmed_len(chars@, n as int);
                lemma_word_start(chars@, trimmed_len(chars@, n as int));
            }
            Some(
                Suggestion {
                    remove: n - start,
                    replacement,
                    direction: Direction::RuToUs,
                    layout_only: false,
                },
            )
        },
        Err(_) => None,
    }
}

/// Suggestion with the default policy.
pub fn suggest_with_dictionary<M: LanguageModel>(
    text: &str,
    automatic: bool,
    dictionary: &UserDictionary,
    model: &M,
) -> (r: Option<Suggestion>)
    ensures
        match suggestion_spec(text@, automatic, *model, *dictionary, default_policy()) {
            None => r is None,
            Some(v) => r matches Some(s) && suggestion_is(s, v),
        },
{
    let policy = AutoPolicy::default();
    suggest_with_policy(text, automatic, dictionary, &policy, model)
}

/// Suggestion with an empty user vocabulary and the default policy.
pub fn suggest<M: LanguageModel>(text: &str, automatic: bool, model: &M) -> (r: Option<Suggestion>)
    ensures
        exists|d: UserDictionary|
            #![trigger suggestion_spec(text@, automatic, *model, d, default_policy())]
            d.word_set() == Set::<Seq<char>>::empty() && d.exclusion_set() == Set::<
                Seq<char>,
            >::empty() && match suggestion_spec(text@, automatic, *model, d, default_policy()) {
                None => r is None,
                Some(v) => r matches Some(s) && suggestion_is(s, v),
            },
{
    let dictionary = UserDictionary::empty();
    suggest_with_dictionary(text, automatic, &dictionary, model)
}

/// Automatic correction and the automatic suggestion agree: when a snapshot
/// whose caret is at most 128 characters in plans a rewrite, the suggestion
/// over the text before the caret removes the token and its Space and types
/// the same replacement, in the same direction.
pub proof fn law_suggestion_matches_automatic<M: LanguageModel>(
    snapshot: Snapshot,
    model: M,
    dictionary: UserDictionary,
)
    requires
        snapshot.caret <= 128,
        automatic_spec(snapshot, model, dictionary) is Ok,
        automatic_spec(snapshot, model, dictionary)->Ok_0 is Some,
    ensures
        ({
            let (start, d, replacement, after) = automatic_spec(snapshot, model, dictionary)->Ok_0->Some_0;
            suggestion_spec(
                snapshot.text@.take(snapshot.caret as int),
                true,
                model,
                dictionary,
                default_policy(),
            ) == Some((snapshot.caret - start, replacement, d, false))
        }),
{
    let text = snapshot.text@;
    let caret = snapshot.caret as int;
    let p = text.take(caret);
    assert(snapshot.check_spec() is Ok);
    let (start, end) = auto_span(text, caret)->Some_0;
    lemma_trimmed_len(p, caret);
    lemma_word_start(p, trimmed_len(p, caret));
    assert(p.len() == caret);
    assert(p.subrange(start, end) =~= text.subrange(start, end));
    assert(p.subrange(end, caret) =~= text.subrange(end, caret));
}

/// Automatic correction and the automatic suggestion decline together: over
/// a snapshot that passes `check`, with the caret at most 128 characters in,
/// the suggestion is `None` exactly when automatic correction plans nothing,
/// but for a model that converts a token into nothing, where the suggestion
/// only retypes the Space.
pub proof fn law_suggestion_declines_with_automatic<M: LanguageModel>(
    snapshot: Snapshot,
    model: M,
    dictionary: UserDictionary,
)
    requires
        snapshot.check_spec() is Ok,
        snapshot.caret <= 128,
    ensures
        ({
            let suggestion = suggestion_spec(
                snapshot.text@.take(snapshot.caret as int),
                true,
                model,
                dictionary,
                default_policy(),
            );
            &&& suggestion is None ==> automatic_spec(snapshot, model, dictionary) == Ok::<
                Option<(int, Direction, Seq<char>, Seq<char>)>,
                Rejection,
            >(None)
            &&& automatic_spec(snapshot, model, dictionary) == Ok::<
                Option<(int, Direction, Seq<char>, Seq<char>)>,
                Rejection,
            >(None) ==> suggestion is None || suggestion->Some_0.1 == seq![' ']
        }),
{
    let text = snapshot.text@;
    let caret = snapshot.caret as int;
    let p = text.take(caret);
    assert(p.len() == caret);
    if caret > 0 && p[caret - 1] == ' ' && !(caret > 1 && p[caret - 2] == ' ') {
        let end = trimmed_len(p, caret);
        let start = word_start(p, end);
        lemma_trimmed_len(p, caret);
        lemma_word_start(p, end);
        assert(p.subrange(start, end) =~= text.subrange(start, end));
        assert(p.subrange(end, caret) =~= text.subrange(end, caret));
        assert(end == caret - 1) by {
            if end < caret - 1 {
                assert(p[caret - 2] == ' ');
            }
        }
        assert(p.subrange(end, caret) =~= seq![' ']);
        if start == end {
            assert(text.subrange(start, end) =~= Seq::<char>::empty());
        }
    }
}

} // verus!
