//! Bounded compatibility state fed by key events. An inferred edit never
//! asserts what the editor holds.
use crate::engine::automatic::{default_policy, AutoPolicy, LanguageModel};
use crate::engine::inferred::{suggest_with_policy, suggestion_spec};
use crate::engine::manual::{key_map, lemma_trimmed_len, trim_spaces_end, trimmed_len, Direction};
use crate::engine::user_dictionary::{entry_ok, views, UserDictionary};
use crate::text::{
    string_from, byte_len, ends_with, is_space_char, is_whitespace, lowercase, push_char, str_ends_with, str_eq,
    str_len, to_chars, to_lowercase, trim, trim_ws,
};
use vstd::prelude::*;

verus! {

#[derive(Debug, Clone, Copy, PartialEq, Eq, Structural)]
pub enum Action {
    Down,
    Up,
    Repeat,
}

#[derive(Debug, Clone, Copy, PartialEq, Eq, Structural)]
pub enum Origin {
    Physical,
    Own,
    Unknown,
}

/// Tri-state result of an edit the host performed.
#[derive(Debug, Clone, Copy, PartialEq, Eq, Structural)]
pub enum Outcome {
    Completed,
    FailedBefore,
    UnknownAfter,
}

/// One key event reported by the host.
pub struct Event {
    pub key: String,
    pub action: Action,
    pub text: Option<String>,
    pub time_ms: u64,
    pub device: Option<String>,
    pub origin: Origin,
    pub modifiers: u32,
    pub editor_word: Option<String>,
}

pub struct EventView {
    pub key: Seq<char>,
    pub action: Action,
    pub text: Option<Seq<char>>,
    pub time_ms: u64,
    pub device: Option<Seq<char>>,
    pub origin: Origin,
    pub modifiers: u32,
    pub editor_word: Option<Seq<char>>,
}

pub open spec fn opt_view(o: Option<String>) -> Option<Seq<char>> {
    match o {
        Some(s) => Some(s@),
        Option::None => None,
    }
}

impl View for Event {
    type V = EventView;

    open spec fn view(&self) -> EventView {
        EventView {
            key: self.key@,
            action: self.action,
            text: opt_view(self.text),
            time_ms: self.time_ms,
            device: opt_view(self.device),
            origin: self.origin,
            modifiers: self.modifiers,
            editor_word: opt_view(self.editor_word),
        }
    }
}

/// What the runtime answers.
pub enum Response {
    Ignored,
    Invalidated,
    LayoutOnly { id: u64, mode: Direction },
    InferredEdit { id: u64, before: String, remove: usize, replacement: String, mode: Direction },
    Stale,
    Reset,
    Accepted,
    Learned,
    Invalid,
    Cleared,
    LayoutNoted,
}

pub enum ResponseView {
    Ignored,
    Invalidated,
    LayoutOnly { id: u64, mode: Direction },
    InferredEdit { id: u64, before: Seq<char>, remove: int, replacement: Seq<char>, mode: Direction },
    Stale,
    Reset,
    Accepted,
    Learned,
    Invalid,
    Cleared,
    LayoutNoted,
}

impl View for Response {
    type V = ResponseView;

    open spec fn view(&self) -> ResponseView {
        match *self {
            Response::Ignored => ResponseView::Ignored,
            Response::Invalidated => ResponseView::Invalidated,
            Response::LayoutOnly { id, mode } => ResponseView::LayoutOnly { id, mode },
            Response::InferredEdit { id, before, remove, replacement, mode } => ResponseView::InferredEdit {
                id,
                before: before@,
                remove: remove as int,
                replacement: replacement@,
                mode,
            },
            Response::Stale => ResponseView::Stale,
            Response::Reset => ResponseView::Reset,
            Response::Accepted => ResponseView::Accepted,
            Response::Learned => ResponseView::Learned,
            Response::Invalid => ResponseView::Invalid,
            Response::Cleared => ResponseView::Cleared,
            Response::LayoutNoted => ResponseView::LayoutNoted,
        }
    }
}

impl Response {
    /// The `status` word of the reply.
    pub fn status(&self) -> (s: &'static str)
        ensures
            s@ == status_of(self@),
    {
        match self {
            Response::Ignored => "ignored",
            Response::Invalidated => "invalidated",
            Response::LayoutOnly { .. } => "layout_only",
            Response::InferredEdit { .. } => "inferred_edit",
            Response::Stale => "stale",
            Response::Reset => "reset",
            Response::Accepted => "ok",
            Response::Learned => "learned",
            Response::Invalid => "invalid",
            Response::Cleared => "cleared",
            Response::LayoutNoted => "layout_noted",
        }
    }
}

pub open spec fn status_of(r: ResponseView) -> Seq<char> {
    match r {
        ResponseView::Ignored => "ignored"@,
        ResponseView::Invalidated => "invalidated"@,
        ResponseView::LayoutOnly { .. } => "layout_only"@,
        ResponseView::InferredEdit { .. } => "inferred_edit"@,
        ResponseView::Stale => "stale"@,
        ResponseView::Reset => "reset"@,
        ResponseView::Accepted => "ok"@,
        ResponseView::Learned => "learned"@,
        ResponseView::Invalid => "invalid"@,
        ResponseView::Cleared => "cleared"@,
        ResponseView::LayoutNoted => "layout_noted"@,
    }
}

/// Longest press of a tap, in milliseconds.
pub const TAP_MS: u64 = 200;

/// Longest gap between the releases of two taps, in milliseconds.
pub const DOUBLE_TAP_MS: u64 = 350;

/// The double-tap detector's state: the key that is down and since when, and
/// the release of a first tap.
pub struct GestureView {
    pub down: Option<(Seq<char>, u64)>,
    pub first: Option<(Seq<char>, u64)>,
}

pub open spec fn idle_gesture() -> GestureView {
    GestureView { down: None, first: None }
}

pub open spec fn within(since: u64, now: u64, limit: u64) -> bool {
    since <= now && now - since <= limit
}

/// One press (`up == false`) or release of `key` at `now`; the flag says
/// whether it completed a double tap.
pub open spec fn edge_spec(g: GestureView, key: Seq<char>, up: bool, now: u64) -> (GestureView, bool) {
    if !up {
        if g.down is Some {
            (idle_gesture(), false)
        } else {
            let first = match g.first {
                Some((k, t)) => if k != key || !within(t, now, DOUBLE_TAP_MS) {
                    None
                } else {
                    g.first
                },
                Option::None => None,
            };
            (GestureView { down: Some((key, now)), first }, false)
        }
    } else {
        match g.down {
            Option::None => (idle_gesture(), false),
            Some((k, t)) => if k != key || !within(t, now, TAP_MS) {
                (idle_gesture(), false)
            } else if g.first matches Some((fk, ft)) && fk == key && within(ft, now, DOUBLE_TAP_MS) {
                (idle_gesture(), true)
            } else {
                (GestureView { down: None, first: Some((key, now)) }, false)
            },
        }
    }
}

struct Gesture {
    down: Option<(String, u64)>,
    first: Option<(String, u64)>,
}

pub open spec fn mark_view(m: Option<(String, u64)>) -> Option<(Seq<char>, u64)> {
    match m {
        Some((k, t)) => Some((k@, t)),
        Option::None => None,
    }
}

impl View for Gesture {
    type V = GestureView;

    closed spec fn view(&self) -> GestureView {
        GestureView { down: mark_view(self.down), first: mark_view(self.first) }
    }
}

impl Gesture {
    fn idle() -> (g: Gesture)
        ensures
            g@ == idle_gesture(),
    {
        Gesture { down: None, first: None }
    }

    fn edge(&mut self, key: String, up: bool, now: u64) -> (fired: bool)
        ensures
            (final(self)@, fired) == edge_spec(old(self)@, key@, up, now),
    {
        if !up {
            if self.down.is_some() {
                *self = Gesture::idle();
                return false;
            }
            let stale = match &self.first {
                Some((k, t)) => !(*k == key) || now < *t || now - *t > DOUBLE_TAP_MS,
                None => false,
            };
            if stale {
                self.first = None;
            }
            self.down = Some((key, now));
            return false;
        }
        let mut taken: Option<(String, u64)> = None;
        std::mem::swap(&mut taken, &mut self.down);
        let (k, t) = match taken {
            Some(d) => d,
            None => {
                *self = Gesture::idle();
                return false;
            },
        };
        if !(k == key) || now < t || now - t > TAP_MS {
            *self = Gesture::idle();
            return false;
        }
        let second = match &self.first {
            Some((fk, ft)) => *fk == key && now >= *ft && now - *ft <= DOUBLE_TAP_MS,
            None => false,
        };
        if second {
            *self = Gesture::idle();
            return true;
        }
        self.first = Some((key, now));
        false
    }
}


/// A proposed edit waiting for the host's result.
pub struct PendingView {
    pub id: u64,
    pub before: Seq<char>,
    pub after: Seq<char>,
    pub automatic: bool,
    pub time: u64,
}

/// Everything the runtime remembers.
pub struct RuntimeView {
    /// Keyboard history: the characters typed since the last boundary.
    pub text: Seq<char>,
    /// Identities (`device:key`) of the keys held down.
    pub held: Seq<Seq<char>>,
    pub time: Option<u64>,
    pub gesture: GestureView,
    pub pending: Option<PendingView>,
    pub next: u64,
    /// The last automatic rewrite (source, result, deadline for undoing it).
    pub last_auto: Option<(Seq<char>, Seq<char>, u64)>,
    pub words: Seq<Seq<char>>,
    pub exclusions: Seq<Seq<char>>,
    pub learned: Seq<Seq<char>>,
    pub policy: AutoPolicy,
    /// Skip the next automatic correction (after an external layout change).
    pub suppress_auto: bool,
    pub last_layout: Seq<char>,
}

/// Longest key name, in UTF-8 bytes.
pub const MAX_KEY_BYTES: usize = 64;

/// Longest device name, in UTF-8 bytes.
pub const MAX_DEVICE_BYTES: usize = 128;

/// Most keys held at once.
pub const MAX_HELD: usize = 32;

/// Longest history, in characters.
pub const MAX_HISTORY: usize = 128;

/// Longest learned-word and exclusion lists.
pub const MAX_LEARNED: usize = 500;

/// How long after proposing an edit its result is accepted, in milliseconds.
pub const RESULT_DEADLINE_MS: u64 = 2500;

/// How long after an automatic rewrite a reverse toggle undoes it, in milliseconds.
pub const UNDO_WINDOW_MS: u64 = 10000;

pub open spec fn wrap_add(x: u64, y: u64) -> u64 {
    if x + y > u64::MAX {
        (x + y - 0x1_0000_0000_0000_0000) as u64
    } else {
        (x + y) as u64
    }
}

pub open spec fn initial_view() -> RuntimeView {
    RuntimeView {
        text: Seq::empty(),
        held: Seq::empty(),
        time: None,
        gesture: idle_gesture(),
        pending: None,
        next: 0,
        last_auto: None,
        words: Seq::empty(),
        exclusions: Seq::empty(),
        learned: Seq::empty(),
        policy: default_policy(),
        suppress_auto: false,
        last_layout: Seq::empty(),
    }
}

/// Forgets history, held keys, the gesture and any pending edit; keeps the
/// configuration, learned words and layout bookkeeping.
pub open spec fn reset_view(v: RuntimeView) -> RuntimeView {
    RuntimeView {
        text: Seq::empty(),
        held: Seq::empty(),
        time: None,
        gesture: idle_gesture(),
        pending: None,
        last_auto: None,
        ..v
    }
}

/// `device:key`, with `unknown` for an unnamed device.
pub open spec fn identity(e: EventView) -> Seq<char> {
    let device = match e.device {
        Some(d) => d,
        Option::None => "unknown"@,
    };
    device + ":"@ + e.key
}

/// `s` with every occurrence of `x` removed.
pub open spec fn without(s: Seq<Seq<char>>, x: Seq<char>) -> Seq<Seq<char>>
    decreases s.len(),
{
    if s.len() == 0 {
        s
    } else if s.last() == x {
        without(s.drop_last(), x)
    } else {
        without(s.drop_last(), x).push(s.last())
    }
}

/// `s` with `x` added unless it is already there.
pub open spec fn with_key(s: Seq<Seq<char>>, x: Seq<char>) -> Seq<Seq<char>> {
    if s.contains(x) {
        s
    } else {
        s.push(x)
    }
}

pub open spec fn held_after(held: Seq<Seq<char>>, id: Seq<char>, action: Action) -> Seq<Seq<char>> {
    match action {
        Action::Up => without(held, id),
        Action::Down => with_key(held, id),
        Action::Repeat => held,
    }
}

pub open spec fn is_shift_key(k: Seq<char>) -> bool {
    k == "left_shift"@ || k == "right_shift"@
}

pub open spec fn other_key_held(held: Seq<Seq<char>>) -> bool {
    exists|i: int|
        0 <= i < held.len() && !ends_with(#[trigger] held[i], ":left_shift"@) && !ends_with(
            held[i],
            ":right_shift"@,
        )
}

/// Characters that may enter the history: the RU/EN alphabets and the
/// punctuation that the keymap maps.
pub open spec fn history_char(c: char) -> bool {
    ||| ('a' <= c && c <= 'z') || ('A' <= c && c <= 'Z')
    ||| ('А' <= c && c <= 'я')
    ||| c == 'ё' || c == 'Ё' || c == '`' || c == '~' || c == '[' || c == ']' || c == '{'
    ||| c == '}' || c == ';' || c == '\'' || c == '"' || c == ',' || c == '.' || c == '<'
    ||| c == '>' || c == ':'
}

/// Propose the suggestion for the current history, if there is one.
pub open spec fn propose<M: LanguageModel>(
    v: RuntimeView,
    manual: bool,
    time: u64,
    model: M,
    dictionary: UserDictionary,
) -> (RuntimeView, ResponseView) {
    match suggestion_spec(v.text, !manual, model, dictionary, v.policy) {
        Option::None => (v, ResponseView::Ignored),
        Some((remove, replacement, mode, layout_only)) => {
            let id = wrap_add(v.next, 1);
            if layout_only {
                (RuntimeView { next: id, ..v }, ResponseView::LayoutOnly { id, mode })
            } else {
                (
                    RuntimeView {
                        next: id,
                        pending: Some(
                            PendingView {
                                id,
                                before: v.text,
                                after: replacement,
                                automatic: !manual,
                                time,
                            },
                        ),
                        ..v
                    },
                    ResponseView::InferredEdit { id, before: v.text, remove, replacement, mode },
                )
            }
        },
    }
}

/// A completed double tap: the editor's word, when the host sends it, takes
/// the place of the history; an unusable one refuses.
pub open spec fn manual_step<M: LanguageModel>(
    v: RuntimeView,
    e: EventView,
    model: M,
    dictionary: UserDictionary,
) -> (RuntimeView, ResponseView) {
    let v0 = RuntimeView { suppress_auto: false, ..v };
    match e.editor_word {
        Option::None => propose(v0, true, e.time_ms, model, dictionary),
        Some(w) => {
            let token = w.subrange(0, trimmed_len(w, w.len() as int));
            if token.len() == 0 || (exists|i: int| 0 <= i < token.len() && is_space_char(#[trigger] token[i]))
                || w.len() > MAX_HISTORY || suggestion_spec(w, false, model, dictionary, default_policy()) is None {
                (reset_view(v0), ResponseView::Ignored)
            } else {
                let v1 = if v0.text != w {
                    RuntimeView { last_auto: None, text: w, ..v0 }
                } else {
                    v0
                };
                propose(v1, true, e.time_ms, model, dictionary)
            }
        },
    }
}

pub open spec fn shift_step<M: LanguageModel>(
    v: RuntimeView,
    e: EventView,
    model: M,
    dictionary: UserDictionary,
) -> (RuntimeView, ResponseView) {
    if e.action == Action::Repeat || other_key_held(v.held) {
        (RuntimeView { gesture: idle_gesture(), ..v }, ResponseView::Ignored)
    } else {
        let (g, fired) = edge_spec(v.gesture, identity(e), e.action == Action::Up, e.time_ms);
        let v2 = RuntimeView { gesture: g, ..v };
        if fired && v2.held.len() == 0 {
            manual_step(v2, e, model, dictionary)
        } else {
            (v2, ResponseView::Ignored)
        }
    }
}

pub open spec fn typing_step<M: LanguageModel>(
    v: RuntimeView,
    e: EventView,
    automatic: bool,
    model: M,
    dictionary: UserDictionary,
) -> (RuntimeView, ResponseView) {
    if e.action == Action::Up {
        (v, ResponseView::Ignored)
    } else {
        let v2 = RuntimeView { gesture: idle_gesture(), ..v };
        if e.key == "backspace"@ {
            let text = if v2.text.len() > 0 {
                v2.text.drop_last()
            } else {
                v2.text
            };
            (RuntimeView { last_auto: None, text, ..v2 }, ResponseView::Ignored)
        } else if e.key == "space"@ {
            let v3 = RuntimeView { last_auto: None, ..v2 };
            if v3.text.len() == 0 || v3.text.last() == ' ' {
                (RuntimeView { text: Seq::empty(), ..v3 }, ResponseView::Ignored)
            } else {
                let v4 = RuntimeView { text: v3.text.push(' '), ..v3 };
                if !automatic {
                    (v4, ResponseView::Ignored)
                } else if v4.suppress_auto {
                    (RuntimeView { suppress_auto: false, ..v4 }, ResponseView::Ignored)
                } else {
                    propose(v4, false, e.time_ms, model, dictionary)
                }
            }
        } else {
            match e.text {
                Some(t) => if t.len() != 1 || !history_char(t[0]) {
                    (reset_view(v2), ResponseView::Ignored)
                } else {
                    let base = if v2.text.len() > 0 && v2.text.last() == ' ' {
                        Seq::empty()
                    } else {
                        v2.text
                    };
                    let v3 = RuntimeView { last_auto: None, text: base + t, ..v2 };
                    if v3.text.len() > MAX_HISTORY {
                        (reset_view(v3), ResponseView::Ignored)
                    } else {
                        (v3, ResponseView::Ignored)
                    }
                },
                Option::None => (reset_view(v2), ResponseView::Ignored),
            }
        }
    }
}

/// What one key event does to the runtime and what it answers.
pub open spec fn event_step<M: LanguageModel>(
    v: RuntimeView,
    e: EventView,
    automatic: bool,
    model: M,
    dictionary: UserDictionary,
) -> (RuntimeView, ResponseView) {
    if e.origin == Origin::Own || e.key == "lock_key"@ {
        (v, ResponseView::Ignored)
    } else if e.origin != Origin::Physical || byte_len(e.key) > MAX_KEY_BYTES || (e.device matches Some(
        d,
    ) && byte_len(d) > MAX_DEVICE_BYTES) || (v.time matches Some(t) && e.time_ms < t) {
        (reset_view(v), ResponseView::Ignored)
    } else if v.pending is Some {
        (reset_view(v), ResponseView::Invalidated)
    } else {
        let held = held_after(v.held, identity(e), e.action);
        let v1 = RuntimeView { time: Some(e.time_ms), held, ..v };
        if held.len() > MAX_HELD || e.modifiers >= 2 {
            (reset_view(v1), ResponseView::Ignored)
        } else if is_shift_key(e.key) {
            shift_step(v1, e, model, dictionary)
        } else {
            typing_step(v1, e, automatic, model, dictionary)
        }
    }
}

/// `s` with `w` appended, dropping the oldest entry when it holds 500 or more.
pub open spec fn capped_push(s: Seq<Seq<char>>, w: Seq<char>) -> Seq<Seq<char>> {
    if s.len() >= MAX_LEARNED {
        s.drop_first().push(w)
    } else {
        s.push(w)
    }
}

/// The normalized form of a word: trimmed and lowercased.
pub open spec fn normalized(w: Seq<char>) -> Seq<char> {
    lowercase(trim_ws(w))
}

/// What the host's report on edit `id` does.
pub open spec fn result_step(v: RuntimeView, id: u64, outcome: Outcome, time: u64) -> (
    RuntimeView,
    ResponseView,
) {
    match v.pending {
        Option::None => (v, ResponseView::Stale),
        Some(p) => {
            let v0 = RuntimeView { pending: None, ..v };
            if p.id != id || time < p.time || time - p.time > RESULT_DEADLINE_MS || outcome
                != Outcome::Completed {
                (reset_view(v0), ResponseView::Reset)
            } else {
                let target = normalized(p.after);
                let learned = if entry_ok(lowercase(target)) && !v0.learned.contains(target)
                    && !v0.words.contains(target) {
                    capped_push(v0.learned, target)
                } else {
                    v0.learned
                };
                let v1 = RuntimeView { text: p.after, held: Seq::empty(), learned, ..v0 };
                if !p.automatic {
                    match v1.last_auto {
                        Option::None => (v1, ResponseView::Accepted),
                        Some((source, corrected, deadline)) => {
                            let v2 = RuntimeView { last_auto: None, ..v1 };
                            let s = normalized(source);
                            if time <= deadline && p.before == corrected && p.after == source
                                && entry_ok(lowercase(s)) && !v2.exclusions.contains(s) {
                                (
                                    RuntimeView { exclusions: capped_push(v2.exclusions, s), ..v2 },
                                    ResponseView::Accepted,
                                )
                            } else {
                                (v2, ResponseView::Accepted)
                            }
                        },
                    }
                } else {
                    (
                        RuntimeView {
                            last_auto: Some((p.before, p.after, wrap_add(time, UNDO_WINDOW_MS))),
                            ..v1
                        },
                        ResponseView::Accepted,
                    )
                }
            }
        },
    }
}


struct Pending {
    id: u64,
    before: String,
    after: String,
    automatic: bool,
    time: u64,
}

pub struct Runtime {
    text: Vec<char>,
    held: Vec<String>,
    time: Option<u64>,
    gesture: Gesture,
    pending: Option<Pending>,
    next: u64,
    last_auto: Option<(String, String, u64)>,
    words: Vec<String>,
    exclusions: Vec<String>,
    learned: Vec<String>,
    policy: AutoPolicy,
    suppress_auto_until_word: bool,
    last_layout: String,
}

spec fn pending_view(p: Option<Pending>) -> Option<PendingView> {
    match p {
        Some(p) => Some(
            PendingView {
                id: p.id,
                before: p.before@,
                after: p.after@,
                automatic: p.automatic,
                time: p.time,
            },
        ),
        Option::None => None,
    }
}

pub open spec fn auto_view(a: Option<(String, String, u64)>) -> Option<(Seq<char>, Seq<char>, u64)> {
    match a {
        Some((s, c, d)) => Some((s@, c@, d)),
        Option::None => None,
    }
}

impl View for Runtime {
    type V = RuntimeView;

    closed spec fn view(&self) -> RuntimeView {
        RuntimeView {
            text: self.text@,
            held: views(self.held@),
            time: self.time,
            gesture: self.gesture@,
            pending: pending_view(self.pending),
            next: self.next,
            last_auto: auto_view(self.last_auto),
            words: views(self.words@),
            exclusions: views(self.exclusions@),
            learned: views(self.learned@),
            policy: self.policy,
            suppress_auto: self.suppress_auto_until_word,
            last_layout: self.last_layout@,
        }
    }
}

impl Default for Runtime {
    fn default() -> (r: Runtime)
        ensures
            r@ == initial_view(),
    {
        let r = Runtime {
            text: Vec::new(),
            held: Vec::new(),
            time: None,
            gesture: Gesture::idle(),
            pending: None,
            next: 0,
            last_auto: None,
            words: Vec::new(),
            exclusions: Vec::new(),
            learned: Vec::new(),
            policy: AutoPolicy::default(),
            suppress_auto_until_word: false,
            last_layout: String::new(),
        };
        assert(r@.held =~= Seq::<Seq<char>>::empty());
        assert(r@.words =~= Seq::<Seq<char>>::empty());
        assert(r@.exclusions =~= Seq::<Seq<char>>::empty());
        assert(r@.learned =~= Seq::<Seq<char>>::empty());
        r
    }
}

/// Whether `values` holds `w`.
fn holds(values: &Vec<String>, w: &String) -> (b: bool)
    ensures
        b == views(values@).contains(w@),
{
    let mut i: usize = 0;
    while i < values.len()
        invariant
            i <= values@.len(),
            forall|j: int| 0 <= j < i ==> values@[j]@ != w@,
        decreases values.len() - i,
    {
        if values[i] == *w {
            assert(views(values@)[i as int] == w@);
            return true;
        }
        i += 1;
    }
    assert(!views(values@).contains(w@)) by {
        if views(values@).contains(w@) {
            let j = choose|j: int| 0 <= j < views(values@).len() && views(values@)[j] == w@;
            assert(values@[j]@ == w@);
        }
    }
    false
}

/// Appends `w`, dropping the oldest entry first when 500 or more are held.
fn push_capped(values: &mut Vec<String>, w: String)
    ensures
        views(final(values)@) == capped_push(views(old(values)@), w@),
{
    if values.len() >= MAX_LEARNED {
        values.remove(0);
    }
    values.push(w);
    proof {
        let o = views(old(values)@);
        if o.len() >= MAX_LEARNED {
            assert(views(values@) =~= o.drop_first().push(w@));
        } else {
            assert(views(values@) =~= o.push(w@));
        }
    }
}

/// Whether a lowercased word passes the user-dictionary rules.
fn valid_word(w: &String) -> (b: bool)
    ensures
        b == entry_ok(lowercase(w@)),
{
    let mut one: Vec<String> = Vec::new();
    one.push(w.clone());
    let none: Vec<String> = Vec::new();
    proof {
        assert(views(one@) =~= seq![w@]);
        assert(views(none@) =~= Seq::<Seq<char>>::empty());
        let vs = views(one@);
        if !entry_ok(lowercase(w@)) {
            assert(!entry_ok(lowercase(vs[0])));
        }
    }
    UserDictionary::new(one, none).is_ok()
}

impl Runtime {
    /// The keyboard history, as typed since the last boundary.
    pub fn history(&self) -> (s: String)
        ensures
            s@ == self@.text,
    {
        let s = string_from(&self.text, 0, self.text.len());
        assert(self.text@.subrange(0, self.text@.len() as int) =~= self.text@);
        s
    }

    pub fn is_pending(&self) -> (b: bool)
        ensures
            b == self@.pending is Some,
    {
        self.pending.is_some()
    }

    /// Forgets history, held keys, the gesture and any pending edit.
    pub fn reset(&mut self)
        ensures
            final(self)@ == reset_view(old(self)@),
    {
        self.text.clear();
        self.held.clear();
        self.time = None;
        self.gesture = Gesture::idle();
        self.pending = None;
        self.last_auto = None;
        assert(views(self.held@) =~= Seq::<Seq<char>>::empty());
    }

    pub fn configure(
        &mut self,
        words: Vec<String>,
        exclusions: Vec<String>,
        learned: Vec<String>,
        policy: AutoPolicy,
    )
        ensures
            final(self)@ == reset_view(
                RuntimeView {
                    words: views(words@),
                    exclusions: views(exclusions@),
                    learned: views(learned@),
                    policy,
                    ..old(self)@
                },
            ),
    {
        self.words = words;
        self.exclusions = exclusions;
        self.learned = learned;
        self.policy = policy;
        self.reset();
    }

    pub fn learned_words(&self) -> (r: &[String])
        ensures
            views(r@) == self@.learned,
    {
        self.learned.as_slice()
    }

    pub fn exclusions(&self) -> (r: &[String])
        ensures
            views(r@) == self@.exclusions,
    {
        self.exclusions.as_slice()
    }

    /// Teaches one word: it is trimmed and lowercased, refused unless it is a
    /// 2-32 letter RU or EN word, and kept once.
    pub fn learn_add(&mut self, word: String) -> (r: Response)
        ensures
            (final(self)@, r@) == learn_step(old(self)@, word@),
    {
        let trimmed = trim(word.as_str());
        let w = to_lowercase(trimmed.as_str());
        if !valid_word(&w) {
            return Response::Invalid;
        }
        if !holds(&self.learned, &w) {
            push_capped(&mut self.learned, w);
        }
        Response::Learned
    }

    pub fn learn_clear(&mut self) -> (r: Response)
        ensures
            final(self)@ == (RuntimeView { learned: Seq::empty(), ..old(self)@ }),
            r@ == ResponseView::Cleared,
    {
        self.learned.clear();
        assert(views(self.learned@) =~= Seq::<Seq<char>>::empty());
        Response::Cleared
    }

    /// Records the host's layout. A change that the runtime did not cause
    /// skips the next automatic correction when the policy asks for it.
    pub fn layout_notice(&mut self, source: &str, layout: &str) -> (r: Response)
        ensures
            (final(self)@, r@) == layout_step(old(self)@, source@, layout@),
    {
        if !str_eq(layout, self.last_layout.as_str()) {
            self.last_layout = String::from_str(layout);
            if !str_eq(source, "own") && self.policy.dont_correct_after_layout_change {
                self.suppress_auto_until_word = true;
            }
        }
        Response::LayoutNoted
    }

    /// The host's report on edit `id`.
    pub fn result(&mut self, id: u64, outcome: Outcome, time: u64, dictionary: &UserDictionary) -> (r:
        Response)
        ensures
            (final(self)@, r@) == result_step(old(self)@, id, outcome, time),
    {
        let mut taken: Option<Pending> = None;
        std::mem::swap(&mut taken, &mut self.pending);
        let p = match taken {
            Some(p) => p,
            None => {
                return Response::Stale;
            },
        };
        if p.id != id || time < p.time || time - p.time > RESULT_DEADLINE_MS || !(outcome
            == Outcome::Completed) {
            self.reset();
            return Response::Reset;
        }
        self.text = to_chars(p.after.as_str());
        self.held.clear();
        assert(views(self.held@) =~= Seq::<Seq<char>>::empty());
        let trimmed = trim(p.after.as_str());
        let target = to_lowercase(trimmed.as_str());
        if valid_word(&target) && !holds(&self.learned, &target) && !holds(&self.words, &target) {
            push_capped(&mut self.learned, target);
        }
        if !p.automatic {
            let mut last: Option<(String, String, u64)> = None;
            std::mem::swap(&mut last, &mut self.last_auto);
            match last {
                Some((source, corrected, deadline)) => {
                    if time <= deadline && p.before == corrected && p.after == source {
                        let t = trim(source.as_str());
                        let s = to_lowercase(t.as_str());
                        if valid_word(&s) && !holds(&self.exclusions, &s) {
                            push_capped(&mut self.exclusions, s);
                        }
                    }
                },
                None => {},
            }
        } else {
            self.last_auto = Some((p.before, p.after, time.wrapping_add(UNDO_WINDOW_MS)));
        }
        Response::Accepted
    }
}

/// Teaching one word: it is trimmed and lowercased, refused unless it is a
/// 2-32 letter RU or EN word, and kept once.
pub open spec fn learn_step(v: RuntimeView, word: Seq<char>) -> (RuntimeView, ResponseView) {
    let w = normalized(word);
    if !entry_ok(lowercase(w)) {
        (v, ResponseView::Invalid)
    } else {
        (RuntimeView { learned: with_word(v.learned, w), ..v }, ResponseView::Learned)
    }
}

/// A layout report: a change that the runtime did not cause skips the next
/// automatic correction when the policy asks for it.
pub open spec fn layout_step(v: RuntimeView, source: Seq<char>, layout: Seq<char>) -> (RuntimeView, ResponseView) {
    if layout != v.last_layout {
        (
            RuntimeView {
                last_layout: layout,
                suppress_auto: v.suppress_auto || (source != "own"@
                    && v.policy.dont_correct_after_layout_change),
                ..v
            },
            ResponseView::LayoutNoted,
        )
    } else {
        (v, ResponseView::LayoutNoted)
    }
}

/// `s` with `w` added unless it is already there, capped at 500 entries.
pub open spec fn with_word(s: Seq<Seq<char>>, w: Seq<char>) -> Seq<Seq<char>> {
    if s.contains(w) {
        s
    } else {
        capped_push(s, w)
    }
}

/// Removes every entry equal to `id`.
fn remove_key(held: &mut Vec<String>, id: &String)
    ensures
        views(final(held)@) == without(views(old(held)@), id@),
{
    let mut kept: Vec<String> = Vec::new();
    let mut i: usize = 0;
    while i < held.len()
        invariant
            i <= held@.len(),
            views(kept@) == without(views(held@).take(i as int), id@),
        decreases held.len() - i,
    {
        let ghost before = kept@;
        if !(held[i] == *id) {
            kept.push(held[i].clone());
            assert(views(kept@) =~= views(before).push(held@[i as int]@));
        }
        assert(views(held@).take(i + 1).drop_last() =~= views(held@).take(i as int));
        i += 1;
    }
    assert(views(held@).take(i as int) =~= views(held@));
    *held = kept;
}

/// Adds `id` unless it is already there.
fn insert_key(held: &mut Vec<String>, id: String)
    ensures
        views(final(held)@) == with_key(views(old(held)@), id@),
{
    if !holds(held, &id) {
        let ghost before = held@;
        held.push(id);
        assert(views(held@) =~= views(before).push(held@.last()@));
    }
}

fn is_history_char(c: char) -> (b: bool)
    ensures
        b == history_char(c),
{
    ('a' <= c && c <= 'z') || ('A' <= c && c <= 'Z') || ('А' <= c && c <= 'я') || c == 'ё' || c
        == 'Ё' || c == '`' || c == '~' || c == '[' || c == ']' || c == '{' || c == '}' || c == ';'
        || c == '\'' || c == '"' || c == ',' || c == '.' || c == '<' || c == '>' || c == ':'
}

fn identity_of(e: &Event) -> (id: String)
    ensures
        id@ == identity(e@),
{
    let mut id = match &e.device {
        Some(d) => d.clone(),
        None => String::from_str("unknown"),
    };
    id.append(":");
    id.append(e.key.as_str());
    id
}

impl Runtime {
    /// Whether a key other than Shift is held.
    fn other_key_held(&self) -> (b: bool)
        ensures
            b == other_key_held(self@.held),
    {
        let mut i: usize = 0;
        while i < self.held.len()
            invariant
                i <= self.held@.len(),
                forall|j: int|
                    0 <= j < i ==> ends_with(#[trigger] self.held@[j]@, ":left_shift"@) || ends_with(
                        self.held@[j]@,
                        ":right_shift"@,
                    ),
            decreases self.held.len() - i,
        {
            let k = self.held[i].as_str();
            if !str_ends_with(k, ":left_shift") && !str_ends_with(k, ":right_shift") {
                assert(views(self.held@)[i as int] == self.held@[i as int]@);
                return true;
            }
            i += 1;
        }
        assert(!other_key_held(views(self.held@))) by {
            if other_key_held(views(self.held@)) {
                let j = choose|j: int|
                    0 <= j < views(self.held@).len() && !ends_with(
                        #[trigger] views(self.held@)[j],
                        ":left_shift"@,
                    ) && !ends_with(views(self.held@)[j], ":right_shift"@);
                assert(views(self.held@)[j] == self.held@[j]@);
            }
        }
        false
    }

    fn propose<M: LanguageModel>(
        &mut self,
        manual: bool,
        time: u64,
        model: &M,
        dictionary: &UserDictionary,
    ) -> (r: Response)
        ensures
            (final(self)@, r@) == propose(old(self)@, manual, time, *model, *dictionary),
    {
        let text = string_from(&self.text, 0, self.text.len());
        assert(self.text@.subrange(0, self.text@.len() as int) =~= self.text@);
        match suggest_with_policy(text.as_str(), !manual, dictionary, &self.policy, model) {
            None => Response::Ignored,
            Some(s) => {
                let id = self.next.wrapping_add(1);
                self.next = id;
                if s.layout_only {
                    Response::LayoutOnly { id, mode: s.direction }
                } else {
                    let before = text.clone();
                    self.pending = Some(
                        Pending {
                            id,
                            before: text,
                            after: s.replacement.clone(),
                            automatic: !manual,
                            time,
                        },
                    );
                    Response::InferredEdit {
                        id,
                        before,
                        remove: s.remove,
                        replacement: s.replacement,
                        mode: s.direction,
                    }
                }
            },
        }
    }

    fn manual_step<M: LanguageModel>(&mut self, e: Event, model: &M, dictionary: &UserDictionary) -> (r:
        Response)
        ensures
            (final(self)@, r@) == manual_step(old(self)@, e@, *model, *dictionary),
    {
        self.suppress_auto_until_word = false;
        let time = e.time_ms;
        let ghost ev = e@;
        match e.editor_word {
            None => self.propose(true, time, model, dictionary),
            Some(w) => {
                let chars = to_chars(w.as_str());
                let end = trim_spaces_end(&chars, chars.len());
                proof {
                    lemma_trimmed_len(chars@, chars@.len() as int);
                }
                let mut spaced = false;
                let mut i: usize = 0;
                while i < end
                    invariant
                        end <= chars@.len(),
                        i <= end,
                        spaced == exists|j: int| 0 <= j < i && is_space_char(#[trigger] chars@[j]),
                    decreases end - i,
                {
                    if is_whitespace(chars[i]) {
                        spaced = true;
                    }
                    i += 1;
                }
                let ghost token = chars@.subrange(0, end as int);
                assert(spaced == exists|j: int| 0 <= j < token.len() && is_space_char(#[trigger] token[j])) by {
                    if spaced {
                        let j = choose|j: int| 0 <= j < end && is_space_char(#[trigger] chars@[j]);
                        assert(token[j] == chars@[j]);
                    }
                    if exists|j: int| 0 <= j < token.len() && is_space_char(#[trigger] token[j]) {
                        let j = choose|j: int| 0 <= j < token.len() && is_space_char(#[trigger] token[j]);
                        assert(token[j] == chars@[j]);
                    }
                }
                let policy = AutoPolicy::default();
                if end == 0 || spaced || chars.len() > MAX_HISTORY || suggest_with_policy(
                    w.as_str(),
                    false,
                    dictionary,
                    &policy,
                    model,
                ).is_none() {
                    self.reset();
                    return Response::Ignored;
                }
                let current = string_from(&self.text, 0, self.text.len());
                assert(self.text@.subrange(0, self.text@.len() as int) =~= self.text@);
                if !(current == w) {
                    self.last_auto = None;
                    self.text = chars;
                }
                self.propose(true, time, model, dictionary)
            },
        }
    }

    fn shift_step<M: LanguageModel>(
        &mut self,
        e: Event,
        id: String,
        model: &M,
        dictionary: &UserDictionary,
    ) -> (r: Response)
        requires
            id@ == identity(e@),
        ensures
            (final(self)@, r@) == shift_step(old(self)@, e@, *model, *dictionary),
    {
        if e.action == Action::Repeat || self.other_key_held() {
            self.gesture = Gesture::idle();
            return Response::Ignored;
        }
        let fired = self.gesture.edge(id, e.action == Action::Up, e.time_ms);
        if fired && self.held.len() == 0 {
            self.manual_step(e, model, dictionary)
        } else {
            Response::Ignored
        }
    }

    fn typing_step<M: LanguageModel>(
        &mut self,
        e: Event,
        automatic: bool,
        model: &M,
        dictionary: &UserDictionary,
    ) -> (r: Response)
        ensures
            (final(self)@, r@) == typing_step(old(self)@, e@, automatic, *model, *dictionary),
    {
        if e.action == Action::Up {
            return Response::Ignored;
        }
        self.gesture = Gesture::idle();
        if str_eq(e.key.as_str(), "backspace") {
            self.last_auto = None;
            self.text.pop();
            return Response::Ignored;
        }
        if str_eq(e.key.as_str(), "space") {
            self.last_auto = None;
            let n = self.text.len();
            if n == 0 || self.text[n - 1] == ' ' {
                self.text.clear();
                return Response::Ignored;
            }
            self.text.push(' ');
            if !automatic {
                return Response::Ignored;
            }
            if self.suppress_auto_until_word {
                self.suppress_auto_until_word = false;
                return Response::Ignored;
            }
            return self.propose(false, e.time_ms, model, dictionary);
        }
        match &e.text {
            Some(t) => {
                let tc = to_chars(t.as_str());
                if tc.len() != 1 || !is_history_char(tc[0]) {
                    self.reset();
                    return Response::Ignored;
                }
                self.last_auto = None;
                let n = self.text.len();
                if n > 0 && self.text[n - 1] == ' ' {
                    self.text.clear();
                }
                let ghost base = self.text@;
                self.text.push(tc[0]);
                assert(self.text@ =~= base + t@);
                if self.text.len() > MAX_HISTORY {
                    self.reset();
                }
                Response::Ignored
            },
            None => {
                self.reset();
                Response::Ignored
            },
        }
    }

    /// Feeds one key event. `model` identifies the language of a committed
    /// word for automatic correction.
    pub fn event<M: LanguageModel>(
        &mut self,
        e: Event,
        automatic: bool,
        dictionary: &UserDictionary,
        model: &M,
    ) -> (r: Response)
        ensures
            (final(self)@, r@) == event_step(old(self)@, e@, automatic, *model, *dictionary),
    {
        if e.origin == Origin::Own || str_eq(e.key.as_str(), "lock_key") {
            return Response::Ignored;
        }
        let long_device = match &e.device {
            Some(d) => str_len(d.as_str()) > MAX_DEVICE_BYTES,
            None => false,
        };
        let backwards = match self.time {
            Some(t) => e.time_ms < t,
            None => false,
        };
        if !(e.origin == Origin::Physical) || str_len(e.key.as_str()) > MAX_KEY_BYTES || long_device
            || backwards {
            self.reset();
            return Response::Ignored;
        }
        if self.pending.is_some() {
            self.reset();
            return Response::Invalidated;
        }
        self.time = Some(e.time_ms);
        let id = identity_of(&e);
        match e.action {
            Action::Up => remove_key(&mut self.held, &id),
            Action::Down => insert_key(&mut self.held, id.clone()),
            Action::Repeat => {},
        }
        let m = e.modifiers;
        let extra = m & !1u32;
        assert((m & !1u32 != 0) == (m >= 2)) by (bit_vector);
        if self.held.len() > MAX_HELD || extra != 0 {
            self.reset();
            return Response::Ignored;
        }
        if str_eq(e.key.as_str(), "left_shift") || str_eq(e.key.as_str(), "right_shift") {
            self.shift_step(e, id, model, dictionary)
        } else {
            self.typing_step(e, automatic, model, dictionary)
        }
    }
}

/// A double tap of one key fires: press, release within 200 ms, press again,
/// and release within 200 ms and within 350 ms of the first release.
pub proof fn law_double_tap_fires(key: Seq<char>, t0: u64, t1: u64, t2: u64, t3: u64)
    requires
        t0 <= t1 <= t2 <= t3,
        t1 - t0 <= TAP_MS,
        t3 - t2 <= TAP_MS,
        t3 - t1 <= DOUBLE_TAP_MS,
    ensures
        ({
            let (g1, f1) = edge_spec(idle_gesture(), key, false, t0);
            let (g2, f2) = edge_spec(g1, key, true, t1);
            let (g3, f3) = edge_spec(g2, key, false, t2);
            let (g4, f4) = edge_spec(g3, key, true, t3);
            !f1 && !f2 && !f3 && f4 && g4 == idle_gesture()
        }),
{
}

/// The detector fires only on a quick release of the key it saw pressed, when
/// a first tap of the same key was released within 350 ms; firing leaves it idle.
pub proof fn law_gesture_fires_only_on_second_tap(g: GestureView, key: Seq<char>, up: bool, now: u64)
    ensures
        edge_spec(g, key, up, now).1 ==> up && (g.down matches Some((k, t)) && k == key && within(
            t,
            now,
            TAP_MS,
        )) && (g.first matches Some((k, t)) && k == key && within(t, now, DOUBLE_TAP_MS))
            && edge_spec(g, key, up, now).0 == idle_gesture(),
{
}

/// Events of the runtime's own output are ignored and change nothing.
pub proof fn law_own_events_change_nothing<M: LanguageModel>(
    v: RuntimeView,
    e: EventView,
    automatic: bool,
    model: M,
    dictionary: UserDictionary,
)
    requires
        e.origin == Origin::Own,
    ensures
        event_step(v, e, automatic, model, dictionary) == (v, ResponseView::Ignored),
{
}

/// While an edit is pending, a physical key event invalidates it and clears
/// the history; no second edit is proposed.
pub proof fn law_pending_edit_is_invalidated<M: LanguageModel>(
    v: RuntimeView,
    e: EventView,
    automatic: bool,
    model: M,
    dictionary: UserDictionary,
)
    requires
        v.pending is Some,
        e.origin == Origin::Physical,
        e.key != "lock_key"@,
    ensures
        event_step(v, e, automatic, model, dictionary).0.pending is None,
        event_step(v, e, automatic, model, dictionary).0.text.len() == 0,
        !(event_step(v, e, automatic, model, dictionary).1 is InferredEdit),
{
}

/// A result that does not match the pending edit, comes late or reports
/// anything but success resets the runtime.
pub proof fn law_unconfirmed_result_resets(v: RuntimeView, id: u64, outcome: Outcome, time: u64)
    requires
        v.pending matches Some(p) && (p.id != id || outcome != Outcome::Completed || time < p.time
            || time - p.time > RESULT_DEADLINE_MS),
    ensures
        result_step(v, id, outcome, time) == (
            reset_view(RuntimeView { pending: None, ..v }),
            ResponseView::Reset,
        ),
{
}

/// The learned words and the exclusions never grow past 500 entries.
pub proof fn law_lists_stay_capped(v: RuntimeView, id: u64, outcome: Outcome, time: u64, w: Seq<char>)
    requires
        v.learned.len() <= MAX_LEARNED,
        v.exclusions.len() <= MAX_LEARNED,
    ensures
        with_word(v.learned, w).len() <= MAX_LEARNED,
        result_step(v, id, outcome, time).0.learned.len() <= MAX_LEARNED,
        result_step(v, id, outcome, time).0.exclusions.len() <= MAX_LEARNED,
{
}
/// The typing history holds exactly the characters that manual conversion
/// maps to or from a Russian letter, so a word typed on the wrong layout can
/// be converted whole: the letters of both layouts and the punctuation keys
/// that carry Russian letters (such as `'` for `э`), and nothing else.
pub proof fn law_mapped_keys_enter_history(c: char)
    ensures
        key_map(Direction::UsToRu, c) is Some ==> history_char(c),
        key_map(Direction::RuToUs, c) is Some ==> history_char(c),
        history_char(c) ==> key_map(Direction::UsToRu, c) is Some || key_map(Direction::RuToUs, c) is Some,
{
}

} // verus!
