//! Automatic correction of the word just committed with a single Space, and the
//! direction-picking toggle. Language identification is a `LanguageModel`;
//! everything around it (guards, punctuation, case, plans) is decided here.
use super::manual::{
    key_map, manual_spec, map_token, map_token_spec, prepare_manual, trimmed_len, word_start,
    Direction,
};
use super::user_dictionary::UserDictionary;
use super::{replace_chars, replace_spec, Plan, Rejection, Snapshot, MAX_REPLACEMENT_BYTES};
use crate::text::{
    alphabetic, append_chars, byte_len, is_alphabetic, is_ascii_digit_char, is_lowercase,
    is_uppercase, lowercase, lowercase_char, push_char, str_len, string_from, to_chars,
    to_lowercase, to_uppercase, uppercase, uppercase_char,
};
use crate::corrector::{split_lines, text_lines};
use crate::text::texts;
use crate::time::{Duration, Instant};
use vstd::prelude::*;

verus! {

/// Automatic-correction policy.
#[derive(Clone, Copy, Debug, PartialEq, Eq, Structural)]
pub struct AutoPolicy {
    pub switch_only_last_word: bool,
    pub dont_switch_words: bool,
    pub dont_correct_after_layout_change: bool,
}

pub open spec fn default_policy() -> AutoPolicy {
    AutoPolicy {
        switch_only_last_word: true,
        dont_switch_words: false,
        dont_correct_after_layout_change: true,
    }
}

impl Default for AutoPolicy {
    fn default() -> (p: AutoPolicy)
        ensures
            p == default_policy(),
    {
        AutoPolicy {
            switch_only_last_word: true,
            dont_switch_words: false,
            dont_correct_after_layout_change: true,
        }
    }
}

/// Decision for one token: rewrite it (and switch layout), only switch the
/// layout, or leave it.
#[derive(Clone, Debug, PartialEq)]
pub enum AutoAction {
    Unchanged,
    LayoutOnly(Direction),
    Rewrite { direction: Direction, form: String },
}

/// A decision as values: `None`, `Some((d, None))` for a layout switch only,
/// `Some((d, Some(form)))` for a rewrite.
pub open spec fn action_is(a: AutoAction, d: Option<(Direction, Option<Seq<char>>)>) -> bool {
    match a {
        AutoAction::Unchanged => d is None,
        AutoAction::LayoutOnly(dir) => d == Some((dir, None::<Seq<char>>)),
        AutoAction::Rewrite { direction, form } => d == Some((direction, Some(form@))),
    }
}

/// Language identification for one lowercased core token: the direction in
/// which it should be converted and the converted form, if any.
pub trait LanguageModel {
    spec fn identifies(&self, core: Seq<char>, dictionary: UserDictionary) -> Option<
        (Direction, Seq<char>),
    >;

    fn identify(&self, core: &str, dictionary: &UserDictionary) -> (r: Option<(Direction, String)>)
        ensures
            match r {
                None => self.identifies(core@, *dictionary) is None,
                Some((d, f)) => self.identifies(core@, *dictionary) == Some((d, f@)),
            },
    ;
}

pub open spec fn swap_yo(c: char) -> char {
    if c == 'е' {
        'ё'
    } else if c == 'ё' {
        'е'
    } else if c == 'Е' {
        'Ё'
    } else if c == 'Ё' {
        'Е'
    } else {
        c
    }
}

/// The same word with every е and ё exchanged.
pub open spec fn swap_yo_e_spec(s: Seq<char>) -> Seq<char> {
    Seq::new(s.len(), |i: int| swap_yo(s[i]))
}

/// Exchanges е/ё (and Е/Ё) throughout.
pub fn swap_yo_e(s: &str) -> (r: String)
    ensures
        r@ == swap_yo_e_spec(s@),
{
    let v = to_chars(s);
    let mut out = String::new();
    let mut i: usize = 0;
    while i < v.len()
        invariant
            i <= v@.len(),
            v@ == s@,
            out@ == Seq::new(i as nat, |k: int| swap_yo(v@[k])),
        decreases v.len() - i,
    {
        let c = v[i];
        let d = if c == 'е' {
            'ё'
        } else if c == 'ё' {
            'е'
        } else if c == 'Е' {
            'Ё'
        } else if c == 'Ё' {
            'Е'
        } else {
            c
        };
        push_char(&mut out, d);
        assert(out@ =~= Seq::new((i + 1) as nat, |k: int| swap_yo(v@[k])));
        i += 1;
    }
    out
}

/// The vocabulary part of language identification: a 2-32 character token
/// that the user did not teach (in either е/ё spelling) is converted in the
/// first direction whose key-for-key conversion, lowercased, is a taught word
/// and touches no exclusion.
pub open spec fn vocabulary_identifies(core: Seq<char>, dictionary: UserDictionary) -> Option<
    (Direction, Seq<char>),
> {
    let alt = swap_yo_e_spec(core);
    if core.len() < 2 || core.len() > 32 || dictionary.word_set().contains(core)
        || dictionary.word_set().contains(alt) {
        None
    } else if vocabulary_direction(core, alt, dictionary, Direction::UsToRu) {
        Some((Direction::UsToRu, lowercase(map_token_spec(core, Direction::UsToRu)->Ok_0)))
    } else if vocabulary_direction(core, alt, dictionary, Direction::RuToUs) {
        Some((Direction::RuToUs, lowercase(map_token_spec(core, Direction::RuToUs)->Ok_0)))
    } else {
        None
    }
}

pub open spec fn vocabulary_direction(
    core: Seq<char>,
    alt: Seq<char>,
    dictionary: UserDictionary,
    d: Direction,
) -> bool {
    &&& map_token_spec(core, d) is Ok
    &&& !dictionary.exclusion_set().contains(core)
    &&& !dictionary.exclusion_set().contains(alt)
    &&& !dictionary.exclusion_set().contains(lowercase(map_token_spec(core, d)->Ok_0))
    &&& dictionary.word_set().contains(lowercase(map_token_spec(core, d)->Ok_0))
}

/// Language identification from the user's vocabulary alone.
pub struct VocabularyModel;

impl VocabularyModel {
    fn try_direction(core: &str, alt: &str, dictionary: &UserDictionary, d: Direction) -> (r:
        Option<String>)
        ensures
            match r {
                None => !vocabulary_direction(core@, alt@, *dictionary, d),
                Some(f) => vocabulary_direction(core@, alt@, *dictionary, d) && f@ == lowercase(
                    map_token_spec(core@, d)->Ok_0,
                ),
            },
    {
        match map_token(core, d) {
            Err(_) => None,
            Ok(converted) => {
                let lower = to_lowercase(converted.as_str());
                if dictionary.excluded(core, lower.as_str()) || dictionary.excluded(
                    alt,
                    lower.as_str(),
                ) {
                    None
                } else if dictionary.contains(lower.as_str()) {
                    Some(lower)
                } else {
                    None
                }
            },
        }
    }
}

impl LanguageModel for VocabularyModel {
    open spec fn identifies(&self, core: Seq<char>, dictionary: UserDictionary) -> Option<
        (Direction, Seq<char>),
    > {
        vocabulary_identifies(core, dictionary)
    }

    fn identify(&self, core: &str, dictionary: &UserDictionary) -> (r: Option<(Direction, String)>) {
        let n = core.unicode_len();
        if n < 2 || n > 32 {
            return None;
        }
        let alt = swap_yo_e(core);
        if dictionary.contains(core) || dictionary.contains(alt.as_str()) {
            return None;
        }
        match VocabularyModel::try_direction(core, alt.as_str(), dictionary, Direction::UsToRu) {
            Some(f) => Some((Direction::UsToRu, f)),
            None => match VocabularyModel::try_direction(
                core,
                alt.as_str(),
                dictionary,
                Direction::RuToUs,
            ) {
                Some(f) => Some((Direction::RuToUs, f)),
                None => None,
            },
        }
    }
}

/// URL, e-mail, path and code shapes, checked on the whole committed token:
/// any `@ / \ _ -` or ASCII digit, a `::`, or a leading `:`.
pub open spec fn prohibited_spec(w: Seq<char>) -> bool {
    ||| exists|i: int|
        0 <= i < w.len() && (#[trigger] w[i] == '@' || w[i] == '/' || w[i] == '\\' || w[i] == '_'
            || w[i] == '-' || is_ascii_digit_char(w[i]))
    ||| exists|i: int| 0 <= i < w.len() - 1 && #[trigger] w[i] == ':' && w[i + 1] == ':'
    ||| (w.len() > 0 && w[0] == ':')
}

pub fn prohibited_token(w: &[char]) -> (b: bool)
    ensures
        b == prohibited_spec(w@),
{
    let n = w.len();
    if n > 0 && w[0] == ':' {
        return true;
    }
    let mut i: usize = 0;
    while i < n
        invariant
            i <= n == w@.len(),
            !(n > 0 && w@[0] == ':'),
            forall|j: int|
                0 <= j < i ==> !(#[trigger] w@[j] == '@' || w@[j] == '/' || w@[j] == '\\' || w@[j]
                    == '_' || w@[j] == '-' || is_ascii_digit_char(w@[j])),
            forall|j: int| 0 <= j < i && j < n - 1 ==> !(#[trigger] w@[j] == ':' && w@[j + 1] == ':'),
        decreases n - i,
    {
        let c = w[i];
        if c == '@' || c == '/' || c == '\\' || c == '_' || c == '-' || ('0' <= c && c <= '9') {
            return true;
        }
        if c == ':' && i + 1 < n && w[i + 1] == ':' {
            return true;
        }
        i += 1;
    }
    false
}

/// Index of the first alphabetic character at or after `from`, or the length.
pub open spec fn first_alpha(w: Seq<char>, from: int) -> int
    decreases w.len() - from,
{
    if from >= w.len() {
        w.len() as int
    } else if alphabetic(w[from]) {
        from
    } else {
        first_alpha(w, from + 1)
    }
}

pub open spec fn alpha_all_lower(w: Seq<char>, from: int) -> bool {
    forall|i: int| from <= i < w.len() && alphabetic(#[trigger] w[i]) ==> lowercase_char(w[i])
}

pub open spec fn alpha_all_upper(w: Seq<char>) -> bool {
    forall|i: int| 0 <= i < w.len() && alphabetic(#[trigger] w[i]) ==> uppercase_char(w[i])
}

/// The letters are all lowercase, all uppercase, or an uppercase letter
/// followed only by lowercase ones.
pub open spec fn case_ok_spec(w: Seq<char>) -> bool {
    let f = first_alpha(w, 0);
    ||| alpha_all_lower(w, 0)
    ||| alpha_all_upper(w)
    ||| (f < w.len() && uppercase_char(w[f]) && alpha_all_lower(w, f + 1))
}

proof fn lemma_first_alpha(w: Seq<char>, from: int)
    requires
        0 <= from <= w.len(),
    ensures
        from <= first_alpha(w, from) <= w.len(),
        first_alpha(w, from) < w.len() ==> alphabetic(w[first_alpha(w, from)]),
        forall|i: int| from <= i < first_alpha(w, from) ==> !alphabetic(#[trigger] w[i]),
    decreases w.len() - from,
{
    if from < w.len() && !alphabetic(w[from]) {
        lemma_first_alpha(w, from + 1);
    }
}

/// Index of the first alphabetic character.
fn find_first_alpha(w: &[char]) -> (f: usize)
    ensures
        f == first_alpha(w@, 0),
{
    let mut i: usize = 0;
    while i < w.len() && !is_alphabetic(w[i])
        invariant
            i <= w@.len(),
            first_alpha(w@, i as int) == first_alpha(w@, 0),
        decreases w.len() - i,
    {
        i += 1;
    }
    i
}

/// Whether the letters from `from` on are all lowercase.
fn letters_lower_from(w: &[char], from: usize) -> (b: bool)
    ensures
        b == alpha_all_lower(w@, from as int),
{
    let mut i = from;
    while i < w.len()
        invariant
            from <= i || i == from,
            forall|j: int| from <= j < i && j < w@.len() && alphabetic(#[trigger] w@[j]) ==> lowercase_char(w@[j]),
        decreases w.len() - i,
    {
        if is_alphabetic(w[i]) && !is_lowercase(w[i]) {
            return false;
        }
        i += 1;
    }
    true
}

fn letters_upper(w: &[char]) -> (b: bool)
    ensures
        b == alpha_all_upper(w@),
{
    let mut i: usize = 0;
    while i < w.len()
        invariant
            forall|j: int| 0 <= j < i && j < w@.len() && alphabetic(#[trigger] w@[j]) ==> uppercase_char(w@[j]),
        decreases w.len() - i,
    {
        if is_alphabetic(w[i]) && !is_uppercase(w[i]) {
            return false;
        }
        i += 1;
    }
    true
}

/// Mixed-case tokens such as `GhBdTn` are never corrected automatically.
pub fn case_ok(w: &[char]) -> (b: bool)
    ensures
        b == case_ok_spec(w@),
{
    if letters_lower_from(w, 0) || letters_upper(w) {
        return true;
    }
    let f = find_first_alpha(w);
    f < w.len() && is_uppercase(w[f]) && letters_lower_from(w, f + 1)
}

/// The case of `template` carried onto `form`: all caps, a capital first
/// letter, or unchanged.
pub open spec fn preserve_case_spec(template: Seq<char>, form: Seq<char>) -> Seq<char> {
    let f = first_alpha(template, 0);
    if f < template.len() && alpha_all_upper(template) {
        uppercase(form)
    } else if f < template.len() && uppercase_char(template[f]) {
        if form.len() == 0 {
            form
        } else {
            uppercase(seq![form[0]]) + form.skip(1)
        }
    } else {
        form
    }
}

pub fn preserve_case(template: &[char], form: &str) -> (r: String)
    ensures
        r@ == preserve_case_spec(template@, form@),
{
    let f = find_first_alpha(template);
    if f < template.len() && letters_upper(template) {
        return to_uppercase(form);
    }
    if f < template.len() && is_uppercase(template[f]) {
        let chars = to_chars(form);
        if chars.len() == 0 {
            return String::from_str(form);
        }
        let first = string_from(&chars, 0, 1);
        let mut out = to_uppercase(first.as_str());
        append_chars(&mut out, &chars, 1, chars.len());
        assert(chars@.subrange(0, 1) =~= seq![chars@[0]]);
        assert(chars@.subrange(1, chars@.len() as int) =~= chars@.skip(1));
        return out;
    }
    String::from_str(form)
}

/// Sentence punctuation that may surround a word.
pub open spec fn edge_punct(c: char) -> bool {
    c == '.' || c == ',' || c == ';' || c == ':' || c == '!' || c == '?' || c == '(' || c == ')'
        || c == '"' || c == '\'' || c == '«' || c == '»' || c == '…' || c == '–' || c == '—'
}

fn is_edge_punct(c: char) -> (b: bool)
    ensures
        b == edge_punct(c),
{
    c == '.' || c == ',' || c == ';' || c == ':' || c == '!' || c == '?' || c == '(' || c == ')'
        || c == '"' || c == '\'' || c == '«' || c == '»' || c == '…' || c == '–' || c == '—'
}

/// End of the leading run of edge punctuation that starts at `i`.
pub open spec fn lead_end(s: Seq<char>, i: int) -> int
    decreases s.len() - i,
{
    if 0 <= i < s.len() && edge_punct(s[i]) {
        lead_end(s, i + 1)
    } else {
        i
    }
}

/// Start of the trailing run of edge punctuation in `s[from..j]`.
pub open spec fn trail_start(s: Seq<char>, from: int, j: int) -> int
    decreases j - from,
{
    if j > from && edge_punct(s[j - 1]) {
        trail_start(s, from, j - 1)
    } else {
        j
    }
}

/// Bounds of the core of a token: leading and then trailing edge punctuation
/// removed.
pub open spec fn core_bounds(s: Seq<char>) -> (int, int) {
    let a = lead_end(s, 0);
    (a, trail_start(s, a, s.len() as int))
}

proof fn lemma_lead_end(s: Seq<char>, i: int)
    requires
        0 <= i <= s.len(),
    ensures
        i <= lead_end(s, i) <= s.len(),
    decreases s.len() - i,
{
    if i < s.len() && edge_punct(s[i]) {
        lemma_lead_end(s, i + 1);
    }
}

proof fn lemma_trail_start(s: Seq<char>, from: int, j: int)
    requires
        0 <= from <= j <= s.len(),
    ensures
        from <= trail_start(s, from, j) <= j,
    decreases j - from,
{
    if j > from && edge_punct(s[j - 1]) {
        lemma_trail_start(s, from, j - 1);
    }
}

/// The bounds of a token's core.
pub fn edge_bounds(s: &[char]) -> (r: (usize, usize))
    ensures
        r.0 as int == core_bounds(s@).0,
        r.1 as int == core_bounds(s@).1,
        r.0 <= r.1 <= s@.len(),
{
    let mut a: usize = 0;
    while a < s.len() && is_edge_punct(s[a])
        invariant
            a <= s@.len(),
            lead_end(s@, a as int) == lead_end(s@, 0),
        decreases s.len() - a,
    {
        a += 1;
    }
    let mut b = s.len();
    while b > a && is_edge_punct(s[b - 1])
        invariant
            a <= b <= s@.len(),
            a == lead_end(s@, 0),
            trail_start(s@, a as int, b as int) == trail_start(s@, a as int, s@.len() as int),
        decreases b - a,
    {
        b -= 1;
    }
    (a, b)
}

/// What `automatic_decision` answers, given what the language model said of
/// the lowercased token (`full`) and of its punctuation-free core (`core`).
pub open spec fn decision_spec(
    word: Seq<char>,
    policy: AutoPolicy,
    full: Option<(Direction, Seq<char>)>,
    core: Option<(Direction, Seq<char>)>,
) -> Option<(Direction, Option<Seq<char>>)> {
    if word.len() == 0 || prohibited_spec(word) || !case_ok_spec(word) {
        None
    } else {
        let lower = lowercase(word);
        let (a, b) = core_bounds(lower);
        let hit = match full {
            Some(h) => Some(h),
            None => if b == a || b - a == lower.len() {
                None
            } else {
                match core {
                    Some((d, f)) => Some((d, lower.take(a) + f + lower.skip(b))),
                    None => None,
                }
            },
        };
        match hit {
            None => if policy.dont_switch_words {
                match core {
                    Some((d, _)) => Some((d, None)),
                    None => None,
                }
            } else {
                None
            },
            Some((d, form_l)) => if policy.dont_switch_words {
                Some((d, None))
            } else {
                let cased = map_token_spec(word, d);
                if cased is Ok && lowercase(cased->Ok_0) == form_l {
                    Some((d, Some(cased->Ok_0)))
                } else {
                    Some((d, Some(preserve_case_spec(word, form_l))))
                }
            },
        }
    }
}

/// The decision with the model's answers for the token and its core.
pub open spec fn model_decision<M: LanguageModel>(
    model: M,
    dictionary: UserDictionary,
    word: Seq<char>,
    policy: AutoPolicy,
) -> Option<(Direction, Option<Seq<char>>)> {
    let lower = lowercase(word);
    let (a, b) = core_bounds(lower);
    decision_spec(
        word,
        policy,
        model.identifies(lower, dictionary),
        model.identifies(lower.subrange(a, b), dictionary),
    )
}

/// Decision for one whitespace-delimited token. The full token is identified
/// first (productive letter keys such as `,` for `б` win); the core without
/// edge punctuation is only a fallback, and the punctuation is restored around
/// the converted core. A mapping that keeps the lowercase form keeps the
/// shifted keys' case; otherwise the token's case is carried over.
pub fn automatic_decision<M: LanguageModel>(
    word: &str,
    model: &M,
    dictionary: &UserDictionary,
    policy: &AutoPolicy,
) -> (a: AutoAction)
    ensures
        action_is(a, model_decision(*model, *dictionary, word@, *policy)),
{
    let w = to_chars(word);
    if w.len() == 0 || prohibited_token(&w) || !case_ok(&w) {
        return AutoAction::Unchanged;
    }
    let lower = to_lowercase(word);
    let lc = to_chars(lower.as_str());
    let (a, b) = edge_bounds(&lc);
    let core = string_from(&lc, a, b);
    let hit: Option<(Direction, String)> = match model.identify(lower.as_str(), dictionary) {
        Some(h) => Some(h),
        None => {
            if b == a || b - a == lc.len() {
                None
            } else {
                match model.identify(core.as_str(), dictionary) {
                    Some((d, f)) => {
                        let mut form = string_from(&lc, 0, a);
                        append_chars(&mut form, &to_chars(f.as_str()), 0, f.as_str().unicode_len());
                        append_chars(&mut form, &lc, b, lc.len());
                        proof {
                            let fv = f@;
                            assert(fv.subrange(0, fv.len() as int) =~= fv);
                            assert(lc@.subrange(0, a as int) =~= lc@.take(a as int));
                            assert(lc@.subrange(b as int, lc@.len() as int) =~= lc@.skip(b as int));
                        }
                        Some((d, form))
                    },
                    None => None,
                }
            }
        },
    };
    match hit {
        None => {
            if policy.dont_switch_words {
                match model.identify(core.as_str(), dictionary) {
                    Some((d, _)) => AutoAction::LayoutOnly(d),
                    None => AutoAction::Unchanged,
                }
            } else {
                AutoAction::Unchanged
            }
        },
        Some((d, form_l)) => {
            if policy.dont_switch_words {
                return AutoAction::LayoutOnly(d);
            }
            let form = match map_token(word, d) {
                Ok(cased) => {
                    let cl = to_lowercase(cased.as_str());
                    if cl == form_l {
                        cased
                    } else {
                        preserve_case(&w, form_l.as_str())
                    }
                },
                Err(_) => preserve_case(&w, form_l.as_str()),
            };
            AutoAction::Rewrite { direction: d, form }
        },
    }
}

/// Where the automatic token lies before the caret: `text[start..end]` when the
/// caret follows exactly one Space after a nonempty token.
pub open spec fn auto_span(text: Seq<char>, caret: int) -> Option<(int, int)> {
    let p = text.take(caret);
    if !(caret > 0 && p[caret - 1] == ' ') || (caret > 1 && p[caret - 2] == ' ') {
        None
    } else {
        let end = trimmed_len(p, caret);
        let start = word_start(p, end);
        if start == end {
            None
        } else {
            Some((start, end))
        }
    }
}

/// What `prepare_automatic_with_dictionary` plans for a snapshot: the token
/// start, the direction, the replacement and the text after the edit.
pub open spec fn automatic_spec<M: LanguageModel>(
    snapshot: Snapshot,
    model: M,
    dictionary: UserDictionary,
) -> Result<Option<(int, Direction, Seq<char>, Seq<char>)>, Rejection> {
    let text = snapshot.text@;
    let caret = snapshot.caret as int;
    match snapshot.check_spec() {
        Err(e) => Err(e),
        Ok(_) => match auto_span(text, caret) {
            None => Ok(None),
            Some((start, end)) => match model_decision(
                model,
                dictionary,
                text.subrange(start, end),
                default_policy(),
            ) {
                Some((d, Some(form))) => if form.len() == 0 {
                    Ok(None)
                } else {
                    let replacement = form + text.subrange(end, caret);
                    if byte_len(replacement) > MAX_REPLACEMENT_BYTES {
                        Err(Rejection::Limit)
                    } else {
                        match replace_spec(text, start, caret, replacement) {
                            Err(e) => Err(e),
                            Ok(after) => Ok(Some((start, d, replacement, after))),
                        }
                    }
                },
                _ => Ok(None),
            },
        },
    }
}

/// Plans the automatic correction of the token committed with one Space.
/// Unknown, ambiguous, very short and code-like tokens stay unchanged
/// (`Ok(None)`); the delimiter Space stays in place after the new form.
pub fn prepare_automatic_with_dictionary<M: LanguageModel>(
    snapshot: Snapshot,
    now: Instant,
    ttl: Duration,
    dictionary: &UserDictionary,
    model: &M,
) -> (r: Result<Option<(Plan, Direction)>, Rejection>)
    ensures
        match automatic_spec(snapshot, *model, *dictionary) {
            Err(e) => r == Err::<Option<(Plan, Direction)>, Rejection>(e),
            Ok(None) => r == Ok::<Option<(Plan, Direction)>, Rejection>(None),
            Ok(Some((start, d, replacement, after))) => r matches Ok(Some((p, dir))) && dir == d
                && p.before_state() == snapshot && p.start() == start && p.end()
                == snapshot.caret && p.replacement_text() == replacement && p.after() == after
                && p.created() == now && p.ttl() == ttl,
        },
{
    match snapshot.check() {
        Err(e) => {
            return Err(e);
        },
        Ok(()) => {},
    }
    let chars = to_chars(snapshot.text.as_str());
    let caret = snapshot.caret;
    if !(caret > 0 && chars[caret - 1] == ' ') || (caret > 1 && chars[caret - 2] == ' ') {
        return Ok(None);
    }
    let end = super::manual::trim_spaces_end(&chars, caret);
    proof {
        super::manual::lemma_trimmed_len(chars@, caret as int);
        lemma_prefix_tokens(chars@, caret as int);
    }
    let start = super::manual::find_word_start(&chars, end);
    if start == end {
        return Ok(None);
    }
    proof {
        super::manual::lemma_word_start(chars@, end as int);
    }
    let word = string_from(&chars, start, end);
    let policy = AutoPolicy::default();
    let (d, corrected) = match automatic_decision(word.as_str(), model, dictionary, &policy) {
        AutoAction::Rewrite { direction, form } => (direction, form),
        AutoAction::LayoutOnly(_) => {
            return Ok(None);
        },
        AutoAction::Unchanged => {
            return Ok(None);
        },
    };
    if corrected.as_str().unicode_len() == 0 {
        return Ok(None);
    }
    let mut replacement = corrected;
    append_chars(&mut replacement, &chars, end, caret);
    if str_len(replacement.as_str()) > MAX_REPLACEMENT_BYTES {
        return Err(Rejection::Limit);
    }
    let after = replace_chars(snapshot.text.as_str(), start..caret, replacement.as_str());
    match after {
        Err(e) => Err(e),
        Ok(after_text) => Ok(Some((Plan::assemble(snapshot, start, replacement, after_text, now, ttl), d))),
    }
}

proof fn lemma_prefix_tokens(s: Seq<char>, n: int)
    requires
        0 <= n <= s.len(),
    ensures
        trimmed_len(s.take(n), n) == trimmed_len(s, n),
        forall|m: int| 0 <= m <= n ==> word_start(s.take(n), m) == word_start(s, m),
{
    lemma_trimmed_take(s, n, n);
    assert forall|m: int| 0 <= m <= n implies word_start(s.take(n), m) == word_start(s, m) by {
        lemma_word_start_take(s, n, m);
    }
}

proof fn lemma_trimmed_take(s: Seq<char>, n: int, m: int)
    requires
        0 <= m <= n <= s.len(),
    ensures
        trimmed_len(s.take(n), m) == trimmed_len(s, m),
    decreases m,
{
    if m > 0 {
        lemma_trimmed_take(s, n, m - 1);
    }
}

proof fn lemma_word_start_take(s: Seq<char>, n: int, m: int)
    requires
        0 <= m <= n <= s.len(),
    ensures
        word_start(s.take(n), m) == word_start(s, m),
    decreases m,
{
    if m > 0 {
        lemma_word_start_take(s, n, m - 1);
    }
}

/// Automatic correction with an empty user vocabulary.
pub fn prepare_automatic<M: LanguageModel>(snapshot: Snapshot, now: Instant, ttl: Duration, model: &M) -> (r:
    Result<Option<(Plan, Direction)>, Rejection>)
    ensures
        exists|d: UserDictionary|
            #![trigger automatic_spec(snapshot, *model, d)]
            d.word_set() == Set::<Seq<char>>::empty() && d.exclusion_set() == Set::<
                Seq<char>,
            >::empty() && match automatic_spec(snapshot, *model, d) {
                Err(e) => r == Err::<Option<(Plan, Direction)>, Rejection>(e),
                Ok(None) => r == Ok::<Option<(Plan, Direction)>, Rejection>(None),
                Ok(Some((start, d, replacement, after))) => r matches Ok(Some((p, dir))) && dir == d
                    && p.before_state() == snapshot && p.start() == start && p.replacement_text()
                    == replacement && p.after() == after && p.created() == now && p.ttl() == ttl,
            },
{
    let dictionary = UserDictionary::empty();
    prepare_automatic_with_dictionary(snapshot, now, ttl, &dictionary, model)
}

/// The policy does not change planned rewrites: layout-only switching is the
/// host's concern, so this is `prepare_automatic_with_dictionary`.
pub fn prepare_automatic_with_policy<M: LanguageModel>(
    snapshot: Snapshot,
    now: Instant,
    ttl: Duration,
    dictionary: &UserDictionary,
    policy: &AutoPolicy,
    model: &M,
) -> (r: Result<Option<(Plan, Direction)>, Rejection>)
    ensures
        match automatic_spec(snapshot, *model, *dictionary) {
            Err(e) => r == Err::<Option<(Plan, Direction)>, Rejection>(e),
            Ok(None) => r == Ok::<Option<(Plan, Direction)>, Rejection>(None),
            Ok(Some((start, d, replacement, after))) => r matches Ok(Some((p, dir))) && dir == d
                && p.before_state() == snapshot && p.start() == start && p.replacement_text()
                == replacement && p.after() == after && p.created() == now && p.ttl() == ttl,
        },
{
    prepare_automatic_with_dictionary(snapshot, now, ttl, dictionary, model)
}

/// What `prepare_toggle` plans: US-to-Russian first; a token that does not
/// fit that table (`Unsupported`) or no token (`InvalidRange`) is tried in
/// the reverse direction; every other rejection stands.
pub open spec fn toggle_spec(snapshot: Snapshot) -> Result<
    (Direction, (int, Seq<char>, Seq<char>)),
    Rejection,
> {
    match manual_spec(snapshot, Direction::UsToRu) {
        Ok(x) => Ok((Direction::UsToRu, x)),
        Err(Rejection::Unsupported) | Err(Rejection::InvalidRange) => match manual_spec(
            snapshot,
            Direction::RuToUs,
        ) {
            Ok(x) => Ok((Direction::RuToUs, x)),
            Err(e) => Err(e),
        },
        Err(e) => Err(e),
    }
}

/// Picks the direction from the committed token itself, never from a stale
/// layout.
pub fn prepare_toggle(snapshot: Snapshot, now: Instant, ttl: Duration) -> (r: Result<
    (Plan, Direction),
    Rejection,
>)
    ensures
        match toggle_spec(snapshot) {
            Err(e) => r == Err::<(Plan, Direction), Rejection>(e),
            Ok((d, (start, replacement, after))) => r matches Ok((p, dir)) && dir == d
                && p.before_state() == snapshot && p.start() == start && p.end()
                == snapshot.caret && p.replacement_text() == replacement && p.after() == after
                && p.created() == now && p.ttl() == ttl,
        },
{
    match prepare_manual(snapshot.clone(), Direction::UsToRu, now, ttl) {
        Ok(plan) => Ok((plan, Direction::UsToRu)),
        Err(Rejection::Unsupported) | Err(Rejection::InvalidRange) => {
            match prepare_manual(snapshot, Direction::RuToUs, now, ttl) {
                Ok(plan) => Ok((plan, Direction::RuToUs)),
                Err(e) => Err(e),
            }
        },
        Err(reason) => Err(reason),
    }
}

/// Lexicon sizes for diagnostics (counts only; no word content).
#[derive(Clone, Copy, Debug, PartialEq, Eq, Structural)]
pub struct LexiconCounts {
    /// Merged frequency tables used for source protection (any rank).
    pub ru_merged: usize,
    pub en_merged: usize,
    /// Pilot word lists always available as targets.
    pub ru_pilot: usize,
    pub en_pilot: usize,
}

/// The number of nonempty lines among `lines`.
pub open spec fn nonempty_count(lines: Seq<Seq<char>>) -> nat
    decreases lines.len(),
{
    if lines.len() == 0 {
        0
    } else {
        nonempty_count(lines.drop_last()) + if lines.last().len() > 0 {
            1nat
        } else {
            0nat
        }
    }
}

/// The number of nonempty lines of `text`, as `str::lines` splits it.
pub fn count_nonempty_lines(text: &str) -> (n: usize)
    ensures
        n == nonempty_count(text_lines(text@)),
{
    let lines = split_lines(text);
    let mut n: usize = 0;
    let mut i: usize = 0;
    while i < lines.len()
        invariant
            i <= lines@.len(),
            n <= i,
            n == nonempty_count(texts(lines@).take(i as int)),
        decreases lines.len() - i,
    {
        assert(texts(lines@).take(i + 1).drop_last() =~= texts(lines@).take(i as int));
        if str_len(lines[i].as_str()) > 0 {
            n += 1;
        }
        i += 1;
    }
    assert(texts(lines@).take(i as int) =~= texts(lines@));
    n
}

/// The sizes of the merged tables as given, and the number of words (nonempty
/// lines) in each pilot list.
pub fn lexicon_entry_counts(ru_merged: usize, en_merged: usize, pilot_ru: &str, pilot_en: &str) -> (c:
    LexiconCounts)
    ensures
        c.ru_merged == ru_merged,
        c.en_merged == en_merged,
        c.ru_pilot == nonempty_count(text_lines(pilot_ru@)),
        c.en_pilot == nonempty_count(text_lines(pilot_en@)),
{
    LexiconCounts {
        ru_merged,
        en_merged,
        ru_pilot: count_nonempty_lines(pilot_ru),
        en_pilot: count_nonempty_lines(pilot_en),
    }
}

} // verus!
