//! Debouncing of key presses: a press of a key within the debounce window of
//! its previous accepted press is dropped. Releases always pass.
use crate::event::{InputEvent, KeyState};
use crate::pipeline::PipelineStage;
use crate::time::{saturated, Duration, Instant};
use std::collections::HashMap;
use vstd::prelude::*;

verus! {

broadcast use vstd::std_specs::hash::group_hash_axioms;

/// Counters of a debouncing stage.
#[derive(Debug)]
pub struct ChatterStats {
    pub total_events: u64,
    pub suppressed_events: u64,
    pub per_key_suppressed: HashMap<u32, u64>,
}

impl Clone for ChatterStats {
    fn clone(&self) -> (s: ChatterStats)
        ensures
            s.total_events == self.total_events,
            s.suppressed_events == self.suppressed_events,
            s.per_key_suppressed@ == self.per_key_suppressed@,
    {
        ChatterStats {
            total_events: self.total_events,
            suppressed_events: self.suppressed_events,
            per_key_suppressed: self.per_key_suppressed.clone(),
        }
    }
}

impl Default for ChatterStats {
    fn default() -> (s: ChatterStats)
        ensures
            s.total_events == 0,
            s.suppressed_events == 0,
            s.per_key_suppressed@ == Map::<u32, u64>::empty(),
    {
        ChatterStats { total_events: 0, suppressed_events: 0, per_key_suppressed: HashMap::new() }
    }
}

/// Shift, Ctrl, Alt (both sides) and the left Meta key.
pub open spec fn modifier_key(keycode: u32) -> bool {
    keycode == 42 || keycode == 54 || keycode == 29 || keycode == 97 || keycode == 56 || keycode
        == 100 || keycode == 125
}

pub open spec fn wrapping_inc(n: u64) -> u64 {
    if n == u64::MAX {
        0
    } else {
        (n + 1) as u64
    }
}

pub open spec fn elapsed(now: Instant, earlier: Instant) -> int {
    if now.nanos >= earlier.nanos {
        now.nanos - earlier.nanos
    } else {
        0
    }
}

pub struct ChatterView {
    pub last_press: Map<u32, Instant>,
    pub debounce_window: Duration,
    pub modifier_debounce_window: Duration,
    pub total_events: u64,
    pub suppressed_events: u64,
    pub per_key_suppressed: Map<u32, u64>,
}

/// Whether a press is dropped: an earlier accepted press of the same key lies
/// less than the key's window back.
pub open spec fn suppressed(v: ChatterView, event: InputEvent) -> bool {
    let window = if modifier_key(event.keycode) {
        v.modifier_debounce_window
    } else {
        v.debounce_window
    };
    event.state == KeyState::Pressed && v.last_press.contains_key(event.keycode) && elapsed(
        event.timestamp,
        v.last_press[event.keycode],
    ) < window.nanos
}

/// One event through the stage: the state afterwards and what passes.
pub open spec fn chatter_step(v: ChatterView, event: InputEvent) -> (ChatterView, Seq<InputEvent>) {
    let counted = ChatterView { total_events: wrapping_inc(v.total_events), ..v };
    if suppressed(v, event) {
        let k = event.keycode;
        let before = if v.per_key_suppressed.contains_key(k) {
            v.per_key_suppressed[k]
        } else {
            0
        };
        (
            ChatterView {
                suppressed_events: wrapping_inc(v.suppressed_events),
                per_key_suppressed: v.per_key_suppressed.insert(k, wrapping_inc(before)),
                ..counted
            },
            Seq::empty(),
        )
    } else if event.state == KeyState::Pressed {
        (
            ChatterView { last_press: v.last_press.insert(event.keycode, event.timestamp), ..counted },
            seq![event],
        )
    } else {
        (counted, seq![event])
    }
}

/// A release always passes and leaves the recorded press times alone; only
/// the event count moves.
pub proof fn law_releases_pass(v: ChatterView, event: InputEvent)
    requires
        event.state == KeyState::Released,
    ensures
        chatter_step(v, event).1 == seq![event],
        chatter_step(v, event).0 == (ChatterView { total_events: wrapping_inc(v.total_events), ..v }),
{
}

/// A press that comes at least one window after the key's last passed press
/// (or is the key's first) passes and becomes the key's last press.
pub proof fn law_spaced_presses_pass(v: ChatterView, event: InputEvent)
    requires
        event.state == KeyState::Pressed,
        v.last_press.contains_key(event.keycode) ==> elapsed(event.timestamp, v.last_press[event.keycode])
            >= (if modifier_key(event.keycode) {
            v.modifier_debounce_window
        } else {
            v.debounce_window
        }).nanos,
    ensures
        chatter_step(v, event).1 == seq![event],
        chatter_step(v, event).0.last_press == v.last_press.insert(event.keycode, event.timestamp),
        chatter_step(v, event).0.suppressed_events == v.suppressed_events,
{
}

/// A suppressed press changes no recorded press time: the window keeps
/// running from the press that passed.
pub proof fn law_suppression_keeps_last_press(v: ChatterView, event: InputEvent)
    requires
        suppressed(v, event),
    ensures
        chatter_step(v, event).1 == Seq::<InputEvent>::empty(),
        chatter_step(v, event).0.last_press == v.last_press,
        chatter_step(v, event).0.suppressed_events == wrapping_inc(v.suppressed_events),
{
}

pub struct AntiChatter {
    last_press: HashMap<u32, Instant>,
    debounce_window: Duration,
    modifier_debounce_window: Duration,
    stats: ChatterStats,
}

impl View for AntiChatter {
    type V = ChatterView;

    closed spec fn view(&self) -> ChatterView {
        ChatterView {
            last_press: self.last_press@,
            debounce_window: self.debounce_window,
            modifier_debounce_window: self.modifier_debounce_window,
            total_events: self.stats.total_events,
            suppressed_events: self.stats.suppressed_events,
            per_key_suppressed: self.stats.per_key_suppressed@,
        }
    }
}

impl AntiChatter {
    /// A stage with the given windows, in milliseconds, for ordinary keys and
    /// for modifiers; nothing seen yet.
    /// A window too long for the nanosecond count is the longest one.
    pub fn new(debounce_ms: u64, modifier_debounce_ms: u64) -> (c: AntiChatter)
        ensures
            c@.last_press == Map::<u32, Instant>::empty(),
            c@.debounce_window.nanos == saturated(debounce_ms * 1_000_000),
            c@.modifier_debounce_window.nanos == saturated(modifier_debounce_ms * 1_000_000),
            c@.total_events == 0,
            c@.suppressed_events == 0,
            c@.per_key_suppressed == Map::<u32, u64>::empty(),
    {
        AntiChatter {
            last_press: HashMap::new(),
            debounce_window: Duration::from_millis(debounce_ms),
            modifier_debounce_window: Duration::from_millis(modifier_debounce_ms),
            stats: ChatterStats::default(),
        }
    }

    /// The same stage, counting on from `stats`.
    pub fn with_shared_stats(self, stats: ChatterStats) -> (c: AntiChatter)
        ensures
            c@ == (ChatterView {
                total_events: stats.total_events,
                suppressed_events: stats.suppressed_events,
                per_key_suppressed: stats.per_key_suppressed@,
                ..self@
            }),
    {
        let mut c = self;
        c.stats = stats;
        c
    }

    fn is_modifier(&self, keycode: u32) -> (b: bool)
        ensures
            b == modifier_key(keycode),
    {
        keycode == 42 || keycode == 54 || keycode == 29 || keycode == 97 || keycode == 56 || keycode
            == 100 || keycode == 125
    }

    fn get_window(&self, keycode: u32) -> (d: Duration)
        ensures
            d == if modifier_key(keycode) {
                self@.modifier_debounce_window
            } else {
                self@.debounce_window
            },
    {
        if self.is_modifier(keycode) {
            self.modifier_debounce_window
        } else {
            self.debounce_window
        }
    }

    /// The counters so far.
    pub fn stats(&self) -> (s: ChatterStats)
        ensures
            s.total_events == self@.total_events,
            s.suppressed_events == self@.suppressed_events,
            s.per_key_suppressed@ == self@.per_key_suppressed,
    {
        self.stats.clone()
    }
}

/// The state after each of `events` in turn.
pub open spec fn chatter_run(v: ChatterView, events: Seq<InputEvent>) -> ChatterView
    decreases events.len(),
{
    if events.len() == 0 {
        v
    } else {
        chatter_run(chatter_step(v, events[0]).0, events.drop_first())
    }
}

impl PipelineStage for AntiChatter {
    open spec fn gives(&self, earlier: Seq<InputEvent>, event: InputEvent, out: Seq<InputEvent>) -> bool {
        out == chatter_step(chatter_run(self@, earlier), event).1
    }

    open spec fn named(&self, name: Seq<char>) -> bool {
        name == "anti-chatter"@
    }

    fn name(&self) -> (s: &str)
        ensures
            s@ == "anti-chatter"@,
    {
        "anti-chatter"
    }

    fn process(&mut self, event: InputEvent) -> (r: Vec<InputEvent>)
        ensures
            (final(self)@, r@) == chatter_step(old(self)@, event),
    {
        proof {
            assert forall|h: Seq<InputEvent>| #[trigger] chatter_run(self@, seq![event] + h) == chatter_run(
                chatter_step(self@, event).0,
                h,
            ) by {
                assert((seq![event] + h).drop_first() =~= h);
                assert((seq![event] + h)[0] == event);
            }
            assert(chatter_run(self@, Seq::empty()) == self@);
        }
        self.stats.total_events = self.stats.total_events.wrapping_add(1);
        if event.state == KeyState::Pressed {
            let window = self.get_window(event.keycode);
            let last = match self.last_press.get(&event.keycode) {
                Some(t) => Some(*t),
                None => None,
            };
            match last {
                Some(t) => {
                    if event.timestamp.saturating_duration_since(t).nanos < window.nanos {
                        self.stats.suppressed_events = self.stats.suppressed_events.wrapping_add(1);
                        let before = match self.stats.per_key_suppressed.get(&event.keycode) {
                            Some(n) => *n,
                            None => 0,
                        };
                        self.stats.per_key_suppressed.insert(event.keycode, before.wrapping_add(1));
                        return Vec::new();
                    }
                },
                None => {},
            }
            self.last_press.insert(event.keycode, event.timestamp);
        }
        let mut out: Vec<InputEvent> = Vec::new();
        out.push(event);
        out
    }

    /// The stage keeps nothing that a reset would forget.
    fn reset(&mut self) {
    }
}

/// Shift (42, 54), Ctrl (29, 97), Alt (56, 100) and the left Meta key (125)
/// are debounced with the modifier window, every other key with the ordinary
/// one: a press passes exactly when it is the key's first or comes at least
/// that window after the key's last passed press.
pub proof fn law_modifiers_use_their_window(v: ChatterView, event: InputEvent)
    requires
        event.state == KeyState::Pressed,
    ensures
        ({
            let k = event.keycode;
            let window = if k == 42 || k == 54 || k == 29 || k == 97 || k == 56 || k == 100 || k == 125 {
                v.modifier_debounce_window
            } else {
                v.debounce_window
            };
            chatter_step(v, event).1 == if v.last_press.contains_key(k) && elapsed(event.timestamp, v.last_press[k])
                < window.nanos {
                Seq::<InputEvent>::empty()
            } else {
                seq![event]
            }
        }),
{
}

} // verus!
