//! Forwarding of physical key events to one output: every key is pressed and
//! released exactly once on the output, however many devices hold it, and an
//! output failure is terminal.
use crate::event::{current_time, DeviceId, EventOrigin, KeyAction, NativeCode, PhysicalKeyEvent};
use vstd::prelude::*;

verus! {

/// Where single events go. An error means the write may have partially
/// reached the output.
///
/// An implementation states what a write does through `writes`; one that
/// leaves it as it is promises nothing about the sink's state or answer.
pub trait KeySink: Sized {
    /// Whether writing `event` to the sink in this state may leave it as
    /// `after` and answer `r`.
    open spec fn writes(&self, event: PhysicalKeyEvent, after: Self, r: Result<(), String>) -> bool {
        true
    }

    fn write(&mut self, event: &PhysicalKeyEvent) -> (r: Result<(), String>)
        ensures
            old(self).writes(*event, *final(self), r),
    ;
}

/// Where whole frames go.
///
/// An implementation states what a write does through `writes_frame`; one
/// that leaves it as it is promises nothing about the sink's state or answer.
pub trait FrameSink: Sized {
    /// Whether writing `frame` to the sink in this state may leave it as
    /// `after` and answer `r`.
    open spec fn writes_frame(&self, frame: Seq<PhysicalKeyEvent>, after: Self, r: Result<(), String>) -> bool {
        true
    }

    fn write_frame(&mut self, frame: &[PhysicalKeyEvent]) -> (r: Result<(), String>)
        ensures
            old(self).writes_frame(frame@, *final(self), r),
    ;
}

/// What writing a whole frame does to the output: nothing after a failure
/// or for an empty frame; otherwise exactly one write of the frame, whose
/// answer the relay reports.
pub open spec fn frame_output<O: FrameSink>(failed: bool, frame: Seq<PhysicalKeyEvent>, before: O, after: O, r: Result<(), RelayError>) -> bool {
    if !failed && frame.len() > 0 {
        match r {
            Ok(()) => before.writes_frame(frame, after, Ok(())),
            Err(RelayError::Output(m)) => before.writes_frame(frame, after, Err(m)),
            Err(_) => false,
        }
    } else {
        after == before
    }
}

/// What forwarding one event does to the output: when the event is an edge
/// the output must see, exactly one write of that event, whose answer the
/// relay reports; otherwise the output is left alone.
pub open spec fn forward_output<O: KeySink>(v: RelayView, event: PhysicalKeyEvent, before: O, after: O, r: Result<(), RelayError>) -> bool {
    if !v.failed && relay_code(event) is Some && emits(
        v.held,
        (event.device_id.0, relay_code(event).unwrap()),
        event.action,
    ) {
        match r {
            Ok(()) => before.writes(event, after, Ok(())),
            Err(RelayError::Output(m)) => before.writes(event, after, Err(m)),
            Err(_) => false,
        }
    } else {
        after == before
    }
}

#[derive(Debug, Clone, PartialEq, Eq)]
pub enum RelayError {
    /// The output failed earlier; nothing more is written.
    Failed,
    /// The event's native code is not an evdev key code the output can
    /// produce, or differs from its physical key.
    UnsupportedCode,
    /// The output reported this failure.
    Output(String),
}

/// A held key: device, key code, and the press that took it down.
pub type Held = (u64, u16, PhysicalKeyEvent);

pub open spec fn key_of(e: Held) -> (u64, u16) {
    (e.0, e.1)
}

pub open spec fn key_lt(a: (u64, u16), b: (u64, u16)) -> bool {
    a.0 < b.0 || (a.0 == b.0 && a.1 < b.1)
}

/// Entries in strictly increasing (device, code) order.
pub open spec fn sorted_keys(s: Seq<Held>) -> bool {
    forall|i: int, j: int| 0 <= i < j < s.len() ==> key_lt(key_of(#[trigger] s[i]), key_of(#[trigger] s[j]))
}

/// The key code the relay forwards for an event, if it has one.
pub open spec fn relay_code(e: PhysicalKeyEvent) -> Option<u16> {
    match e.native_code {
        NativeCode::Evdev(c) => if c.0 > 0 && c.0 <= 0x2ff && c.0 == e.physical_key.0 {
            Some(c.0)
        } else {
            None
        },
        NativeCode::Unknown(_) => None,
    }
}

pub open spec fn entry_valid(e: Held) -> bool {
    relay_code(e.2) == Some(e.1) && e.2.device_id.0 == e.0
}

pub open spec fn owns(s: Seq<Held>, k: (u64, u16)) -> bool {
    exists|i: int| 0 <= i < s.len() && key_of(#[trigger] s[i]) == k
}

/// Another device holds the same key code.
pub open spec fn shared(s: Seq<Held>, k: (u64, u16)) -> bool {
    exists|i: int| 0 <= i < s.len() && (#[trigger] s[i]).1 == k.1 && s[i].0 != k.0
}

/// Whether the output sees an edge: a press only of a key nobody holds, a
/// release only by its sole holder, a repeat only by a holder.
pub open spec fn emits(s: Seq<Held>, k: (u64, u16), action: KeyAction) -> bool {
    match action {
        KeyAction::Down => !owns(s, k) && !shared(s, k),
        KeyAction::Up => owns(s, k) && !shared(s, k),
        KeyAction::Repeat => owns(s, k),
    }
}

/// Records `e` as the holder's press of `k`, in key order.
pub open spec fn put(s: Seq<Held>, k: (u64, u16), e: PhysicalKeyEvent) -> Seq<Held>
    decreases s.len(),
{
    if s.len() == 0 {
        seq![(k.0, k.1, e)]
    } else if key_of(s[0]) == k {
        s.update(0, (k.0, k.1, e))
    } else if key_lt(k, key_of(s[0])) {
        seq![(k.0, k.1, e)] + s
    } else {
        seq![s[0]] + put(s.drop_first(), k, e)
    }
}

/// The entries of `s` that satisfy `p`, in order.
pub open spec fn keep(s: Seq<Held>, p: spec_fn(Held) -> bool) -> Seq<Held>
    decreases s.len(),
{
    if s.len() == 0 {
        s
    } else if p(s.last()) {
        keep(s.drop_last(), p).push(s.last())
    } else {
        keep(s.drop_last(), p)
    }
}

pub open spec fn other_key(k: (u64, u16)) -> spec_fn(Held) -> bool {
    |e: Held| key_of(e) != k
}

pub open spec fn other_device(d: u64) -> spec_fn(Held) -> bool {
    |e: Held| e.0 != d
}

pub open spec fn drop_key(s: Seq<Held>, k: (u64, u16)) -> Seq<Held> {
    keep(s, other_key(k))
}

pub open spec fn drop_device(s: Seq<Held>, d: u64) -> Seq<Held> {
    keep(s, other_device(d))
}

/// The holds after an event of key `k` passed.
pub open spec fn after_event(s: Seq<Held>, k: (u64, u16), e: PhysicalKeyEvent) -> Seq<Held> {
    match e.action {
        KeyAction::Down => put(s, k, e),
        KeyAction::Up => drop_key(s, k),
        KeyAction::Repeat => s,
    }
}

pub struct RelayView {
    pub held: Seq<Held>,
    pub failed: bool,
}

pub struct Relay {
    held: Vec<Held>,
    failed: bool,
}

proof fn lemma_keep_len(s: Seq<Held>, p: spec_fn(Held) -> bool)
    ensures
        keep(s, p).len() <= s.len(),
        forall|i: int| 0 <= i < keep(s, p).len() ==> s.contains(#[trigger] keep(s, p)[i]) && p(keep(s, p)[i]),
    decreases s.len(),
{
    if s.len() > 0 {
        lemma_keep_len(s.drop_last(), p);
        assert forall|i: int| 0 <= i < keep(s, p).len() implies s.contains(#[trigger] keep(s, p)[i]) && p(keep(s, p)[i]) by {
            if i < keep(s.drop_last(), p).len() {
                let x = keep(s.drop_last(), p)[i];
                let j = choose|j: int| 0 <= j < s.drop_last().len() && s.drop_last()[j] == x;
                assert(s[j] == x);
            } else {
                assert(s[s.len() - 1] == s.last());
            }
        }
    }
}

proof fn lemma_keep_sorted(s: Seq<Held>, p: spec_fn(Held) -> bool)
    requires
        sorted_keys(s),
    ensures
        sorted_keys(keep(s, p)),
        forall|x: Held| s.contains(x) && p(x) ==> keep(s, p).contains(x),
    decreases s.len(),
{
    if s.len() > 0 {
        let t = s.drop_last();
        assert(sorted_keys(t));
        lemma_keep_sorted(t, p);
        lemma_keep_len(t, p);
        let k = keep(t, p);
        if p(s.last()) {
            assert forall|i: int, j: int| 0 <= i < j < k.push(s.last()).len() implies key_lt(
                key_of(#[trigger] k.push(s.last())[i]),
                key_of(#[trigger] k.push(s.last())[j]),
            ) by {
                if j == k.len() {
                    let x = k[i];
                    assert(t.contains(x));
                    let m = choose|m: int| 0 <= m < t.len() && t[m] == x;
                    assert(s[m] == x);
                    assert(s[s.len() - 1] == s.last());
                }
            }
        }
        assert forall|x: Held| s.contains(x) && p(x) implies keep(s, p).contains(x) by {
            let m = choose|m: int| 0 <= m < s.len() && s[m] == x;
            if m < s.len() - 1 {
                assert(t[m] == x);
                assert(t.contains(x));
                if p(s.last()) {
                    let q = choose|q: int| 0 <= q < k.len() && k[q] == x;
                    assert(k.push(s.last())[q] == x);
                }
            } else {
                assert(keep(s, p)[keep(s, p).len() - 1] == x);
            }
        }
    }
}

proof fn lemma_put(s: Seq<Held>, k: (u64, u16), e: PhysicalKeyEvent)
    requires
        sorted_keys(s),
        forall|i: int| 0 <= i < s.len() ==> entry_valid(#[trigger] s[i]),
        entry_valid((k.0, k.1, e)),
    ensures
        sorted_keys(put(s, k, e)),
        forall|i: int| 0 <= i < put(s, k, e).len() ==> entry_valid(#[trigger] put(s, k, e)[i]),
        forall|i: int| 0 <= i < put(s, k, e).len() ==> (#[trigger] put(s, k, e)[i] == (k.0, k.1, e)
            || s.contains(put(s, k, e)[i])),
    decreases s.len(),
{
    if s.len() > 0 && key_of(s[0]) != k && !key_lt(k, key_of(s[0])) {
        let t = s.drop_first();
        assert(sorted_keys(t));
        lemma_put(t, k, e);
        let r = put(t, k, e);
        assert forall|i: int| 0 <= i < r.len() implies key_lt(key_of(s[0]), key_of(#[trigger] r[i])) by {
            if r[i] == (k.0, k.1, e) {
            } else {
                let m = choose|m: int| 0 <= m < t.len() && t[m] == r[i];
                assert(s[m + 1] == r[i]);
            }
        }
        let full = seq![s[0]] + r;
        assert forall|i: int, j: int| 0 <= i < j < full.len() implies key_lt(
            key_of(#[trigger] full[i]),
            key_of(#[trigger] full[j]),
        ) by {
            if i == 0 {
                assert(full[j] == r[j - 1]);
            } else {
                assert(full[i] == r[i - 1]);
                assert(full[j] == r[j - 1]);
            }
        }
        assert forall|i: int| 0 <= i < full.len() implies (#[trigger] full[i] == (k.0, k.1, e)
            || s.contains(full[i])) by {
            if i == 0 {
                assert(s[0] == full[0]);
            } else {
                assert(full[i] == r[i - 1]);
                if r[i - 1] != (k.0, k.1, e) {
                    let m = choose|m: int| 0 <= m < t.len() && t[m] == r[i - 1];
                    assert(s[m + 1] == full[i]);
                }
            }
        }
        assert forall|i: int| 0 <= i < full.len() implies entry_valid(#[trigger] full[i]) by {
            if i > 0 {
                assert(full[i] == r[i - 1]);
            }
        }
    } else if s.len() > 0 && key_of(s[0]) == k {
        let u = s.update(0, (k.0, k.1, e));
        assert forall|i: int| 0 <= i < u.len() implies (#[trigger] u[i] == (k.0, k.1, e) || s.contains(u[i])) by {
            if i > 0 {
                assert(s[i] == u[i]);
            }
        }
    } else if s.len() > 0 {
        let u = seq![(k.0, k.1, e)] + s;
        assert forall|i: int, j: int| 0 <= i < j < u.len() implies key_lt(
            key_of(#[trigger] u[i]),
            key_of(#[trigger] u[j]),
        ) by {
            if i == 0 {
                assert(u[j] == s[j - 1]);
                if j - 1 > 0 {
                    assert(key_lt(key_of(s[0]), key_of(s[j - 1])));
                }
            } else {
                assert(u[i] == s[i - 1]);
                assert(u[j] == s[j - 1]);
            }
        }
        assert forall|i: int| 0 <= i < u.len() implies (#[trigger] u[i] == (k.0, k.1, e) || s.contains(u[i])) by {
            if i > 0 {
                assert(s[i - 1] == u[i]);
            }
        }
        assert forall|i: int| 0 <= i < u.len() implies entry_valid(#[trigger] u[i]) by {
            if i > 0 {
                assert(u[i] == s[i - 1]);
            }
        }
    }
}

/// `put` as the exec code does it: replace at or insert before the first
/// entry whose key is not below `k`.
proof fn lemma_put_at(s: Seq<Held>, k: (u64, u16), e: PhysicalKeyEvent, i: int)
    requires
        0 <= i <= s.len(),
        forall|j: int| 0 <= j < i ==> key_lt(key_of(#[trigger] s[j]), k),
        i < s.len() ==> !key_lt(key_of(s[i]), k),
    ensures
        put(s, k, e) == if i < s.len() && key_of(s[i]) == k {
            s.update(i, (k.0, k.1, e))
        } else {
            s.insert(i, (k.0, k.1, e))
        },
    decreases i,
{
    if i > 0 {
        let t = s.drop_first();
        assert forall|j: int| 0 <= j < i - 1 implies key_lt(key_of(#[trigger] t[j]), k) by {
            assert(t[j] == s[j + 1]);
        }
        lemma_put_at(t, k, e, i - 1);
        assert(key_lt(key_of(s[0]), k));
        if i < s.len() && key_of(s[i]) == k {
            assert(put(s, k, e) =~= s.update(i, (k.0, k.1, e)));
        } else {
            assert(put(s, k, e) =~= s.insert(i, (k.0, k.1, e)));
        }
    } else {
        if s.len() > 0 && key_of(s[0]) != k {
            assert(key_lt(k, key_of(s[0])));
            assert(put(s, k, e) =~= s.insert(0, (k.0, k.1, e)));
        }
        if s.len() == 0 {
            assert(put(s, k, e) =~= s.insert(0, (k.0, k.1, e)));
        }
    }
}

impl View for Relay {
    type V = RelayView;

    closed spec fn view(&self) -> RelayView {
        RelayView { held: self.held@, failed: self.failed }
    }
}

/// Copies the entries of `v` that do not belong to device `d`, or, with
/// `code` given, those that are not the key `(d, code)`.
fn without(v: &Vec<Held>, d: u64, code: Option<u16>) -> (r: Vec<Held>)
    ensures
        r@ == match code {
            Some(c) => drop_key(v@, (d, c)),
            Option::None => drop_device(v@, d),
        },
{
    let ghost p: spec_fn(Held) -> bool = match code {
        Some(c) => other_key((d, c)),
        Option::None => other_device(d),
    };
    let mut r: Vec<Held> = Vec::new();
    let mut i: usize = 0;
    while i < v.len()
        invariant
            i <= v@.len(),
            r@ == keep(v@.take(i as int), p),
            p == (match code {
                Some(c) => other_key((d, c)),
                Option::None => other_device(d),
            }),
        decreases v.len() - i,
    {
        let e = v[i];
        assert(v@.take(i + 1).drop_last() =~= v@.take(i as int));
        assert(v@.take(i + 1).last() == e);
        let drop = match code {
            Some(c) => e.0 == d && e.1 == c,
            None => e.0 == d,
        };
        if !drop {
            r.push(e);
        }
        i += 1;
    }
    assert(v@.take(i as int) =~= v@);
    r
}

impl Relay {
    #[verifier::type_invariant]
    closed spec fn well_formed(self) -> bool {
        &&& sorted_keys(self.held@)
        &&& forall|i: int| 0 <= i < self.held@.len() ==> entry_valid(#[trigger] self.held@[i])
    }

    pub fn new() -> (r: Relay)
        ensures
            r@.held.len() == 0,
            !r@.failed,
    {
        Relay { held: Vec::new(), failed: false }
    }

    /// Whether `device` holds `code`.
    pub fn holds(&self, device: u64, code: u16) -> (b: bool)
        ensures
            b == owns(self@.held, (device, code)),
    {
        let mut i: usize = 0;
        while i < self.held.len()
            invariant
                i <= self.held@.len(),
                forall|j: int| 0 <= j < i ==> key_of(#[trigger] self.held@[j]) != (device, code),
            decreases self.held.len() - i,
        {
            if self.held[i].0 == device && self.held[i].1 == code {
                return true;
            }
            i += 1;
        }
        false
    }

    /// How many (device, key) holds are recorded.
    pub fn held_count(&self) -> (n: usize)
        ensures
            n == self@.held.len(),
    {
        self.held.len()
    }

    /// The key an event is forwarded under and whether the output sees it.
    fn decide(&self, event: &PhysicalKeyEvent) -> (r: Result<((u64, u16), bool), RelayError>)
        ensures
            self@.failed ==> r == Err::<((u64, u16), bool), RelayError>(RelayError::Failed),
            !self@.failed && relay_code(*event) is None ==> r == Err::<((u64, u16), bool), RelayError>(
                RelayError::UnsupportedCode,
            ),
            !self@.failed ==> (relay_code(*event) matches Some(c) ==> r == Ok::<
                ((u64, u16), bool),
                RelayError,
            >(
                (
                    (event.device_id.0, c),
                    emits(self@.held, (event.device_id.0, c), event.action),
                ),
            )),
    {
        if self.failed {
            return Err(RelayError::Failed);
        }
        let code = match event.native_code {
            NativeCode::Evdev(c) => {
                if c.0 > 0 && c.0 <= 0x2ff && c.0 == event.physical_key.0 {
                    c.0
                } else {
                    return Err(RelayError::UnsupportedCode);
                }
            },
            NativeCode::Unknown(_) => {
                return Err(RelayError::UnsupportedCode);
            },
        };
        let key = (event.device_id.0, code);
        let mut owned = false;
        let mut other = false;
        let mut i: usize = 0;
        while i < self.held.len()
            invariant
                i <= self.held@.len(),
                owned == exists|j: int| 0 <= j < i && key_of(#[trigger] self.held@[j]) == key,
                other == exists|j: int| 0 <= j < i && (#[trigger] self.held@[j]).1 == key.1 && self.held@[j].0 != key.0,
            decreases self.held.len() - i,
        {
            let e = self.held[i];
            if e.0 == key.0 && e.1 == key.1 {
                owned = true;
            }
            if e.1 == key.1 && e.0 != key.0 {
                other = true;
            }
            i += 1;
        }
        let emit = match event.action {
            KeyAction::Down => !owned && !other,
            KeyAction::Up => owned && !other,
            KeyAction::Repeat => owned,
        };
        Ok((key, emit))
    }

    /// Records an event of key `k` that passed `decide`.
    fn commit(&mut self, k: (u64, u16), event: PhysicalKeyEvent)
        requires
            relay_code(event) == Some(k.1),
            event.device_id.0 == k.0,
        ensures
            final(self)@ == (RelayView { held: after_event(old(self)@.held, k, event), ..old(self)@ }),
    {
        proof {
            use_type_invariant(&*self);
        }
        match event.action {
            KeyAction::Down => {
                let mut i: usize = 0;
                while i < self.held.len() && (self.held[i].0 < k.0 || (self.held[i].0 == k.0
                    && self.held[i].1 < k.1))
                    invariant
                        i <= self.held@.len(),
                        forall|j: int| 0 <= j < i ==> key_lt(key_of(#[trigger] self.held@[j]), k),
                    decreases self.held.len() - i,
                {
                    i += 1;
                }
                let ghost old_held = self.held@;
                proof {
                    lemma_put_at(old_held, k, event, i as int);
                    lemma_put(old_held, k, event);
                }
                let mut held: Vec<Held> = Vec::new();
                std::mem::swap(&mut held, &mut self.held);
                if i < held.len() && held[i].0 == k.0 && held[i].1 == k.1 {
                    held.set(i, (k.0, k.1, event));
                } else {
                    held.insert(i, (k.0, k.1, event));
                }
                self.held = held;
            },
            KeyAction::Up => {
                let ghost old_held = self.held@;
                let kept = without(&self.held, k.0, Some(k.1));
                proof {
                    lemma_keep_sorted(old_held, other_key(k));
                    lemma_keep_len(old_held, other_key(k));
                    assert forall|i: int| 0 <= i < kept@.len() implies entry_valid(#[trigger] kept@[i]) by {
                        let j = choose|j: int| 0 <= j < old_held.len() && old_held[j] == kept@[i];
                    }
                }
                self.held = kept;
            },
            KeyAction::Repeat => {},
        }
    }
}


/// What forwarding one event does: nothing after a failure or for an
/// unsupported code; otherwise the holds follow the event, and an edge the
/// output sees either succeeds or makes the relay fail for good.
pub open spec fn forward_post(v: RelayView, event: PhysicalKeyEvent, new: RelayView, r: Result<(), RelayError>) -> bool {
    if v.failed {
        r == Err::<(), RelayError>(RelayError::Failed) && new == v
    } else {
        match relay_code(event) {
            Option::None => r == Err::<(), RelayError>(RelayError::UnsupportedCode) && new == v,
            Some(c) => {
                let k = (event.device_id.0, c);
                let passed = RelayView { held: after_event(v.held, k, event), failed: false };
                if emits(v.held, k, event.action) {
                    (r is Ok && new == passed) || (r matches Err(RelayError::Output(_)) && new
                        == RelayView { held: v.held, failed: true })
                } else {
                    r is Ok && new == passed
                }
            },
        }
    }
}

/// The holds after a frame of events, and whether an unsupported code cut it short.
pub open spec fn fold_held(h: Seq<Held>, events: Seq<PhysicalKeyEvent>) -> (Seq<Held>, bool)
    decreases events.len(),
{
    if events.len() == 0 {
        (h, false)
    } else {
        let (h1, bad) = fold_held(h, events.drop_last());
        if bad {
            (h1, true)
        } else {
            match relay_code(events.last()) {
                Option::None => (h1, true),
                Some(c) => (after_event(h1, (events.last().device_id.0, c), events.last()), false),
            }
        }
    }
}

/// The edges the output sees for a frame of events, in order; an
/// unsupported code ends them.
pub open spec fn fold_edges(h: Seq<Held>, events: Seq<PhysicalKeyEvent>) -> Seq<PhysicalKeyEvent>
    decreases events.len(),
{
    if events.len() == 0 {
        Seq::empty()
    } else {
        let prior = fold_edges(h, events.drop_last());
        let (h1, bad) = fold_held(h, events.drop_last());
        if bad {
            prior
        } else {
            match relay_code(events.last()) {
                Option::None => prior,
                Some(c) => if emits(h1, (events.last().device_id.0, c), events.last().action) {
                    prior.push(events.last())
                } else {
                    prior
                },
            }
        }
    }
}

/// Keys no other device holds with the same code.
pub open spec fn unshared(s: Seq<Held>) -> spec_fn(Held) -> bool {
    |e: Held| !shared(s, (e.0, e.1))
}

/// Keys of device `d` that no other device holds with the same code.
pub open spec fn sole_on(s: Seq<Held>, d: u64) -> spec_fn(Held) -> bool {
    |e: Held| e.0 == d && !shared(s, (e.0, e.1))
}

/// The keys of device `d` whose release the output sees when it goes away:
/// those no other device also holds, in key order.
pub open spec fn sole_keys(s: Seq<Held>, d: u64) -> Seq<Held> {
    keep(s, sole_on(s, d))
}

/// `e` releases the held key `h` as a resync: its press, turned into a
/// release of origin `Resync`, timed at one instant.
pub open spec fn resync_release(h: Held, e: PhysicalKeyEvent) -> bool {
    e == PhysicalKeyEvent {
        action: KeyAction::Up,
        origin: EventOrigin::Resync,
        source_time: e.source_time,
        observed_time: e.source_time,
        ..h.2
    }
}

/// `events` release the held keys `keys`, one each, in the same order.
pub open spec fn releases_of(keys: Seq<Held>, events: Seq<PhysicalKeyEvent>) -> bool {
    events.len() == keys.len() && forall|i: int| 0 <= i < keys.len() ==> resync_release(keys[i], #[trigger] events[i])
}

/// Successful writes of `events`, one after another, take the sink from
/// `before` to `after`.
pub open spec fn writes_each<O: KeySink>(before: O, events: Seq<PhysicalKeyEvent>, after: O) -> bool
    decreases events.len(),
{
    if events.len() == 0 {
        after == before
    } else {
        exists|mid: O| writes_each(before, events.drop_last(), mid) && #[trigger] mid.writes(events.last(), after, Ok(()))
    }
}

/// Writes of `events`, one after another, all succeed but the last, which
/// fails with `m` and leaves the sink as `after`.
pub open spec fn writes_then_fails<O: KeySink>(before: O, events: Seq<PhysicalKeyEvent>, after: O, m: String) -> bool {
    events.len() > 0 && exists|mid: O| writes_each(before, events.drop_last(), mid) && #[trigger] mid.writes(events.last(), after, Err(m))
}

/// What a disconnect writes: after a failure nothing; otherwise a release of
/// each of the device's sole keys in key order, all written, or written up
/// to one that failed.
pub open spec fn disconnect_output<O: KeySink>(v: RelayView, d: u64, before: O, after: O, r: Result<(), RelayError>) -> bool {
    if v.failed {
        after == before
    } else {
        let keys = sole_keys(v.held, d);
        exists|events: Seq<PhysicalKeyEvent>|
            #[trigger] releases_of(keys.take(events.len() as int), events) && events.len() <= keys.len() && (
            (r is Ok && events.len() == keys.len() && writes_each(before, events, after)) || (
            r matches Err(RelayError::Output(m)) && writes_then_fails(before, events, after, m)))
    }
}

proof fn lemma_writes_push<O: KeySink>(before: O, events: Seq<PhysicalKeyEvent>, mid: O, e: PhysicalKeyEvent, after: O)
    requires
        writes_each(before, events, mid),
        mid.writes(e, after, Ok(())),
    ensures
        writes_each(before, events.push(e), after),
{
    assert(events.push(e).drop_last() =~= events);
    assert(events.push(e).last() == e);
}

/// The keys whose release the output sees when every device goes away, the
/// device of the first held key first: that device's sole keys, then those
/// of the rest once it is gone.
pub open spec fn finish_keys(s: Seq<Held>) -> Seq<Held>
    decreases s.len(),
{
    if s.len() == 0 {
        Seq::empty()
    } else {
        proof {
            lemma_keep_shrinks(s, other_device(s[0].0), 0);
        }
        sole_keys(s, s[0].0) + finish_keys(drop_device(s, s[0].0))
    }
}

/// What finishing writes: after a failure nothing; otherwise a release of
/// each of `finish_keys` in order, all written, or written up to one that
/// failed.
pub open spec fn finish_output<O: KeySink>(v: RelayView, before: O, after: O, r: Result<(), RelayError>) -> bool {
    if v.failed {
        after == before
    } else {
        let keys = finish_keys(v.held);
        exists|events: Seq<PhysicalKeyEvent>|
            #[trigger] releases_of(keys.take(events.len() as int), events) && events.len() <= keys.len() && (
            (r is Ok && events.len() == keys.len() && writes_each(before, events, after)) || (
            r matches Err(RelayError::Output(m)) && writes_then_fails(before, events, after, m)))
    }
}

proof fn lemma_writes_concat<O: KeySink>(a: O, x: Seq<PhysicalKeyEvent>, b: O, y: Seq<PhysicalKeyEvent>, c: O)
    requires
        writes_each(a, x, b),
        writes_each(b, y, c),
    ensures
        writes_each(a, x + y, c),
    decreases y.len(),
{
    if y.len() == 0 {
        assert(x + y =~= x);
    } else {
        let mid = choose|mid: O| writes_each(b, y.drop_last(), mid) && #[trigger] mid.writes(y.last(), c, Ok(()));
        lemma_writes_concat(a, x, b, y.drop_last(), mid);
        assert((x + y).drop_last() =~= x + y.drop_last());
        assert((x + y).last() == y.last());
    }
}

proof fn lemma_writes_concat_fail<O: KeySink>(a: O, x: Seq<PhysicalKeyEvent>, b: O, y: Seq<PhysicalKeyEvent>, c: O, m: String)
    requires
        writes_each(a, x, b),
        writes_then_fails(b, y, c, m),
    ensures
        writes_then_fails(a, x + y, c, m),
{
    let mid = choose|mid: O| writes_each(b, y.drop_last(), mid) && #[trigger] mid.writes(y.last(), c, Err(m));
    lemma_writes_concat(a, x, b, y.drop_last(), mid);
    assert((x + y).drop_last() =~= x + y.drop_last());
    assert((x + y).last() == y.last());
}

proof fn lemma_releases_concat(k1: Seq<Held>, e1: Seq<PhysicalKeyEvent>, k2: Seq<Held>, e2: Seq<PhysicalKeyEvent>)
    requires
        releases_of(k1, e1),
        releases_of(k2, e2),
    ensures
        releases_of(k1 + k2, e1 + e2),
{
    assert forall|i: int| 0 <= i < (k1 + k2).len() implies resync_release((k1 + k2)[i], #[trigger] (e1 + e2)[i]) by {
        if i >= k1.len() {
            assert(resync_release(k2[i - k1.len()], e2[i - k1.len()]));
        }
    }
}

/// A frame of releases: after a failure nothing is written; otherwise one
/// frame that releases each of `keys` in order, when there is any.
pub open spec fn release_frame_output<O: FrameSink>(failed: bool, keys: Seq<Held>, before: O, after: O, r: Result<(), RelayError>) -> bool {
    if failed {
        after == before
    } else {
        exists|events: Seq<PhysicalKeyEvent>| #[trigger] releases_of(keys, events) && frame_output(false, events, before, after, r)
    }
}

proof fn lemma_collected(a: Collector, es: Seq<PhysicalKeyEvent>, b: Collector)
    requires
        writes_each(a, es, b),
    ensures
        b.collected() == a.collected() + es,
    decreases es.len(),
{
    if es.len() == 0 {
        assert(a.collected() + es =~= a.collected());
    } else {
        let mid = choose|mid: Collector| writes_each(a, es.drop_last(), mid) && #[trigger] mid.writes(es.last(), b, Ok(()));
        lemma_collected(a, es.drop_last(), mid);
        assert(a.collected() + es =~= (a.collected() + es.drop_last()).push(es.last()));
    }
}

proof fn lemma_keep_prefix(s: Seq<Held>, p: spec_fn(Held) -> bool, i: int)
    requires
        0 <= i <= s.len(),
    ensures
        keep(s.take(i), p).len() <= keep(s, p).len(),
        keep(s, p).take(keep(s.take(i), p).len() as int) == keep(s.take(i), p),
    decreases s.len(),
{
    if i == s.len() {
        assert(s.take(i) =~= s);
    } else {
        let t = s.drop_last();
        assert(s.take(i) =~= t.take(i));
        lemma_keep_prefix(t, p, i);
    }
}

proof fn lemma_keep_step(s: Seq<Held>, p: spec_fn(Held) -> bool, i: int)
    requires
        0 <= i < s.len(),
    ensures
        keep(s.take(i + 1), p) == if p(s[i]) { keep(s.take(i), p).push(s[i]) } else { keep(s.take(i), p) },
{
    assert(s.take(i + 1).drop_last() =~= s.take(i));
    assert(s.take(i + 1).last() == s[i]);
}

/// While device `d` is released key by key, a key of its still held has an
/// edge on the output exactly when no other device holds its code.
proof fn lemma_release_emits(start: Seq<Held>, d: u64, releases: Seq<Held>, i: int, codes: Seq<u16>)
    requires
        sorted_keys(start),
        releases == keep(start, on_device(d)),
        sorted_keys(releases),
        forall|m: int| 0 <= m < releases.len() ==> (#[trigger] releases[m]).0 == d,
        0 <= i < releases.len(),
        codes == releases.take(i).map_values(|e: Held| e.1),
    ensures
        emits(keep(start, released(d, codes)), (d, releases[i].1), KeyAction::Up) == !shared(start, (d, releases[i].1)),
{
    let x = releases[i];
    let cur = keep(start, released(d, codes));
    lemma_keep_len(start, on_device(d));
    lemma_keep_len(start, released(d, codes));
    lemma_keep_sorted(start, released(d, codes));
    assert(start.contains(x));
    assert(!codes.contains(x.1)) by {
        if codes.contains(x.1) {
            let j = choose|j: int| 0 <= j < codes.len() && codes[j] == x.1;
            assert(releases[j].1 == x.1);
            assert(key_lt(key_of(releases[j]), key_of(releases[i])));
        }
    }
    assert(released(d, codes)(x));
    assert(cur.contains(x));
    let q = choose|q: int| 0 <= q < cur.len() && cur[q] == x;
    assert(key_of(cur[q]) == (d, x.1));
    assert(owns(cur, (d, x.1)));
    if shared(start, (d, x.1)) {
        let m = choose|m: int| 0 <= m < start.len() && (#[trigger] start[m]).1 == x.1 && start[m].0 != d;
        assert(start.contains(start[m]));
        assert(released(d, codes)(start[m]));
        assert(cur.contains(start[m]));
        let n = choose|n: int| 0 <= n < cur.len() && cur[n] == start[m];
        assert(cur[n].1 == x.1 && cur[n].0 != d);
        assert(shared(cur, (d, x.1)));
    }
    if shared(cur, (d, x.1)) {
        let m = choose|m: int| 0 <= m < cur.len() && (#[trigger] cur[m]).1 == x.1 && cur[m].0 != d;
        assert(start.contains(cur[m]));
        let n = choose|n: int| 0 <= n < start.len() && start[n] == cur[m];
        assert(start[n].1 == x.1 && start[n].0 != d);
        assert(shared(start, (d, x.1)));
    }
}

pub open spec fn has_device(s: Seq<Held>, d: u64) -> bool {
    exists|i: int| 0 <= i < s.len() && (#[trigger] s[i]).0 == d
}

pub open spec fn released(d: u64, codes: Seq<u16>) -> spec_fn(Held) -> bool {
    |e: Held| !(e.0 == d && codes.contains(e.1))
}

pub open spec fn on_device(d: u64) -> spec_fn(Held) -> bool {
    |e: Held| e.0 == d
}

proof fn lemma_keep_agree(s: Seq<Held>, p: spec_fn(Held) -> bool, q: spec_fn(Held) -> bool)
    requires
        forall|i: int| 0 <= i < s.len() ==> p(#[trigger] s[i]) == q(s[i]),
    ensures
        keep(s, p) == keep(s, q),
    decreases s.len(),
{
    if s.len() > 0 {
        assert(s.last() == s[s.len() - 1]);
        lemma_keep_agree(s.drop_last(), p, q);
    }
}

proof fn lemma_keep_keep(s: Seq<Held>, p: spec_fn(Held) -> bool, q: spec_fn(Held) -> bool, r: spec_fn(Held) -> bool)
    requires
        forall|i: int| 0 <= i < s.len() ==> r(#[trigger] s[i]) == (p(s[i]) && q(s[i])),
    ensures
        keep(keep(s, p), q) == keep(s, r),
    decreases s.len(),
{
    if s.len() > 0 {
        assert(s.last() == s[s.len() - 1]);
        lemma_keep_keep(s.drop_last(), p, q, r);
        if p(s.last()) {
            let k = keep(s.drop_last(), p).push(s.last());
            assert(k.drop_last() =~= keep(s.drop_last(), p));
        }
    }
}

pub proof fn lemma_keep_shrinks(s: Seq<Held>, p: spec_fn(Held) -> bool, i: int)
    requires
        0 <= i < s.len(),
        !p(s[i]),
    ensures
        keep(s, p).len() < s.len(),
    decreases s.len(),
{
    lemma_keep_len(s.drop_last(), p);
    if i < s.len() - 1 {
        assert(s.drop_last()[i] == s[i]);
        lemma_keep_shrinks(s.drop_last(), p, i);
    }
}

/// Takes every frame it is given.
struct Collector {
    frame: Vec<PhysicalKeyEvent>,
}

impl Collector {
    /// The events taken so far, in order.
    pub closed spec fn collected(self) -> Seq<PhysicalKeyEvent> {
        self.frame@
    }
}

impl KeySink for Collector {
    open spec fn writes(&self, event: PhysicalKeyEvent, after: Self, r: Result<(), String>) -> bool {
        r is Ok && after.collected() == self.collected().push(event)
    }

    fn write(&mut self, event: &PhysicalKeyEvent) -> (r: Result<(), String>)
        ensures
            r is Ok,
            final(self).collected() == old(self).collected().push(*event),
    {
        self.frame.push(*event);
        Ok(())
    }
}

impl Relay {
    /// Forwards one event: unsupported codes are refused, a key goes down on
    /// the output only when no device holds it and up only when its last
    /// holder releases it. An output error is terminal: nothing is retried
    /// and no further edge is written.
    pub fn forward<O: KeySink>(&mut self, event: PhysicalKeyEvent, output: &mut O) -> (r: Result<(), RelayError>)
        ensures
            forward_post(old(self)@, event, final(self)@, r),
            forward_output(old(self)@, event, *old(output), *final(output), r),
    {
        proof {
            use_type_invariant(&*self);
        }
        let (key, emit) = match self.decide(&event) {
            Ok(x) => x,
            Err(e) => {
                return Err(e);
            },
        };
        proof {
            assert(relay_code(event).unwrap() == key.1);
        }
        if emit {
            let w = output.write(&event);
            if w.is_err() {
                self.failed = true;
                return Err(RelayError::Output(w.unwrap_err()));
            }
            let unit = w.unwrap();
            assert(unit == ());
            assert(w == Ok::<(), String>(()));
        }
        self.commit(key, event);
        Ok(())
    }

    fn emit_frame<O: FrameSink>(&mut self, frame: &[PhysicalKeyEvent], output: &mut O) -> (r: Result<(), RelayError>)
        ensures
            old(self)@.failed ==> r == Err::<(), RelayError>(RelayError::Failed) && final(self)@ == old(self)@,
            !old(self)@.failed && frame@.len() == 0 ==> r is Ok && final(self)@ == old(self)@,
            !old(self)@.failed && frame@.len() > 0 ==> (r is Ok && final(self)@ == old(self)@) || (
            r matches Err(RelayError::Output(_)) && final(self)@ == RelayView { failed: true, ..old(self)@ }),
            frame_output(old(self)@.failed, frame@, *old(output), *final(output), r),
    {
        proof {
            use_type_invariant(&*self);
        }
        if self.failed {
            return Err(RelayError::Failed);
        }
        if frame.len() > 0 {
            let w = output.write_frame(frame);
            if w.is_err() {
                self.failed = true;
                return Err(RelayError::Output(w.unwrap_err()));
            }
            let unit = w.unwrap();
            assert(unit == ());
            assert(w == Ok::<(), String>(()));
        }
        Ok(())
    }

    /// Forwards one source frame and writes the edges it produced as one
    /// output frame; an unsupported code cuts the frame short unwritten.
    pub fn forward_frame<O: FrameSink>(&mut self, events: Vec<PhysicalKeyEvent>, output: &mut O) -> (r: Result<(), RelayError>)
        ensures
            old(self)@.failed ==> r == Err::<(), RelayError>(RelayError::Failed) && final(self)@ == old(self)@,
            old(self)@.failed ==> *final(output) == *old(output),
            !old(self)@.failed ==> ({
                let (h, bad) = fold_held(old(self)@.held, events@);
                if bad {
                    r == Err::<(), RelayError>(RelayError::UnsupportedCode) && final(self)@ == RelayView { held: h, failed: false }
                        && *final(output) == *old(output)
                } else {
                    ((r is Ok && final(self)@ == RelayView { held: h, failed: false })
                        || (r matches Err(RelayError::Output(_)) && final(self)@ == RelayView { held: h, failed: true }))
                        && frame_output(false, fold_edges(old(self)@.held, events@), *old(output), *final(output), r)
                }
            }),
    {
        if self.failed {
            return Err(RelayError::Failed);
        }
        let ghost start = self@.held;
        let mut collector = Collector { frame: Vec::new() };
        let mut i: usize = 0;
        while i < events.len()
            invariant
                i <= events@.len(),
                self@ == (RelayView { held: fold_held(start, events@.take(i as int)).0, failed: false }),
                !fold_held(start, events@.take(i as int)).1,
                !old(self)@.failed,
                start == old(self)@.held,
                collector.collected() == fold_edges(start, events@.take(i as int)),
                *output == *old(output),
            decreases events.len() - i,
        {
            assert(events@.take(i + 1).drop_last() =~= events@.take(i as int));
            assert(events@.take(i + 1).last() == events@[i as int]);
            match self.forward(events[i], &mut collector) {
                Ok(()) => {},
                Err(e) => {
                    proof {
                        if fold_held(start, events@.take(i + 1)).1 {
                            lemma_fold_stays_bad(start, events@, i + 1);
                        }
                    }
                    return Err(e);
                },
            }
            i += 1;
        }
        assert(events@.take(i as int) =~= events@);
        self.emit_frame(collector.frame.as_slice(), output)
    }

    /// Releases every key held by `device`, in key order, as events of origin
    /// `Resync`; keys that another device still holds stay down on the output.
    pub fn disconnect<O: KeySink>(&mut self, device: DeviceId, output: &mut O) -> (r: Result<(), RelayError>)
        ensures
            old(self)@.failed && has_device(old(self)@.held, device.0) ==> r == Err::<(), RelayError>(
                RelayError::Failed,
            ) && final(self)@ == old(self)@,
            old(self)@.failed && !has_device(old(self)@.held, device.0) ==> r is Ok && final(self)@
                == old(self)@,
            !old(self)@.failed ==> (r is Ok && final(self)@ == RelayView {
                held: drop_device(old(self)@.held, device.0),
                failed: false,
            }) || (r matches Err(RelayError::Output(_)) && final(self)@.failed),
            disconnect_output(old(self)@, device.0, *old(output), *final(output), r),
    {
        proof {
            use_type_invariant(&*self);
        }
        let d = device.0;
        let ghost start = self@.held;
        let mut releases: Vec<Held> = Vec::new();
        let mut j: usize = 0;
        while j < self.held.len()
            invariant
                j <= self.held@.len(),
                self.held@ == start,
                releases@ == keep(start.take(j as int), on_device(d)),
            decreases self.held.len() - j,
        {
            assert(start.take(j + 1).drop_last() =~= start.take(j as int));
            if self.held[j].0 == d {
                releases.push(self.held[j]);
            }
            j += 1;
        }
        assert(start.take(j as int) =~= start);
        proof {
            lemma_keep_len(start, on_device(d));
            lemma_keep_sorted(start, on_device(d));
            if !has_device(start, d) {
                assert(releases@.len() == 0) by {
                    if releases@.len() > 0 {
                        let x = releases@[0];
                        let m = choose|m: int| 0 <= m < start.len() && start[m] == x;
                    }
                }
            } else {
                let m = choose|m: int| 0 <= m < start.len() && (#[trigger] start[m]).0 == d;
                assert(start.contains(start[m]));
                assert(on_device(d)(start[m]));
                assert(releases@.contains(start[m]));
            }
            assert(keep(start, released(d, Seq::<u16>::empty())) == start) by {
                lemma_keep_agree(start, released(d, Seq::<u16>::empty()), |e: Held| true);
                lemma_keep_all(start);
            }
        }
        let mut i: usize = 0;
        let ghost mut codes: Seq<u16> = Seq::empty();
        let ghost mut written: Seq<PhysicalKeyEvent> = Seq::empty();
        proof {
            assert(releases@.take(0) =~= Seq::<Held>::empty());
        }
        while i < releases.len()
            invariant
                i <= releases@.len(),
                sorted_keys(start),
                releases_of(keep(releases@.take(i as int), unshared(start)), written),
                writes_each(*old(output), written, *output),
                releases@ == keep(start, on_device(d)),
                forall|m: int| 0 <= m < releases@.len() ==> entry_valid(#[trigger] releases@[m]) && releases@[m].0 == d,
                sorted_keys(releases@),
                codes == releases@.take(i as int).map_values(|e: Held| e.1),
                i > 0 ==> !old(self)@.failed,
                self@ == (RelayView { held: keep(start, released(d, codes)), failed: old(self)@.failed }),
                old(self)@.held == start,
                i == 0 ==> self@ == old(self)@,
                has_device(start, d) || releases@.len() == 0,
                d == device.0,
            decreases releases.len() - i,
        {
            let held = releases[i];
            let mut event = held.2;
            event.action = KeyAction::Up;
            event.origin = EventOrigin::Resync;
            event.source_time = current_time();
            event.observed_time = event.source_time;
            proof {
                lemma_drop_released(start, d, codes, held.1);
                lemma_keep_step(releases@, unshared(start), i as int);
                lemma_keep_prefix(releases@, unshared(start), i + 1);
                if i > 0 {
                    lemma_release_emits(start, d, releases@, i as int, codes);
                } else {
                    if !old(self)@.failed {
                        lemma_release_emits(start, d, releases@, i as int, codes);
                    }
                }
                assert(resync_release(held, event));
            }
            let ghost out_before = *output;
            match self.forward(event, output) {
                Ok(()) => {},
                Err(e) => {
                    proof {
                        if e is Output {
                            let m = e->Output_0;
                            let hs = keep(releases@.take(i + 1), unshared(start));
                            let es = written.push(event);
                            assert(es.drop_last() =~= written);
                            assert(hs == keep(releases@.take(i as int), unshared(start)).push(held));
                            assert(releases_of(hs, es));
                            assert(es.last() == event);
                            assert(out_before.writes(event, *output, Err(m)));
                            assert(writes_then_fails(*old(output), es, *output, m));
                            assert(keep(releases@, unshared(start)) == sole_keys(start, d)) by {
                                lemma_keep_keep(start, on_device(d), unshared(start), sole_on(start, d));
                            }
                            assert(hs == sole_keys(start, d).take(es.len() as int));
                        } else {
                            assert(old(self)@.failed);
                            assert(*output == out_before);
                            assert(i == 0);
                        }
                    }
                    return Err(e);
                },
            }
            proof {
                if !shared(start, (d, held.1)) {
                    lemma_writes_push(*old(output), written, out_before, event, *output);
                    written = written.push(event);
                }
                let next = releases@.take(i + 1).map_values(|e: Held| e.1);
                assert(next =~= codes.push(held.1));
                codes = next;
            }
            i += 1;
        }
        proof {
            assert forall|m: int| 0 <= m < start.len() implies released(d, codes)(#[trigger] start[m]) == other_device(d)(start[m]) by {
                if start[m].0 == d {
                    assert(start.contains(start[m]));
                    assert(on_device(d)(start[m]));
                    assert(releases@.contains(start[m]));
                    let q = choose|q: int| 0 <= q < releases@.len() && releases@[q] == start[m];
                    assert(releases@.take(i as int) =~= releases@);
                    assert(codes[q] == start[m].1);
                }
            }
            lemma_keep_agree(start, released(d, codes), other_device(d));
            assert(releases@.take(i as int) =~= releases@);
            lemma_keep_keep(start, on_device(d), unshared(start), sole_on(start, d));
            assert(keep(releases@, unshared(start)) == sole_keys(start, d));
            assert(sole_keys(start, d).take(written.len() as int) =~= sole_keys(start, d));
            if old(self)@.failed {
                assert(written.len() == 0);
            }
        }
        Ok(())
    }

    /// Releases every held key, device by device in key order. After an
    /// output failure nothing is written.
    pub fn finish<O: KeySink>(&mut self, output: &mut O) -> (r: Result<(), RelayError>)
        ensures
            old(self)@.failed ==> r == Err::<(), RelayError>(RelayError::Failed) && final(self)@ == old(self)@,
            !old(self)@.failed ==> (r is Ok && final(self)@.held.len() == 0 && !final(self)@.failed) || (
            r matches Err(RelayError::Output(_)) && final(self)@.failed),
            finish_output(old(self)@, *old(output), *final(output), r),
    {
        if self.failed {
            return Err(RelayError::Failed);
        }
        let ghost all = finish_keys(self@.held);
        let ghost mut done: Seq<Held> = Seq::empty();
        let ghost mut written: Seq<PhysicalKeyEvent> = Seq::empty();
        proof {
            assert(all =~= done + finish_keys(self@.held));
        }
        while self.held.len() > 0
            invariant
                !self@.failed,
                !old(self)@.failed,
                all == finish_keys(old(self)@.held),
                all == done + finish_keys(self@.held),
                releases_of(done, written),
                writes_each(*old(output), written, *output),
            decreases self@.held.len(),
        {
            let d = self.held[0].0;
            let ghost before = self@.held;
            let ghost out_before = *output;
            proof {
                lemma_keep_shrinks(before, other_device(d), 0);
                assert(finish_keys(before) == sole_keys(before, d) + finish_keys(drop_device(before, d)));
            }
            let res = self.disconnect(DeviceId(d), output);
            match res {
                Ok(()) => {},
                Err(e) => {
                    proof {
                        if e is Output {
                            let m = e->Output_0;
                            let keys = sole_keys(before, d);
                            let es = choose|events: Seq<PhysicalKeyEvent>|
                                #[trigger] releases_of(keys.take(events.len() as int), events) && events.len() <= keys.len() && (
                                (res is Ok && events.len() == keys.len() && writes_each(out_before, events, *output)) || (
                                res matches Err(RelayError::Output(m)) && writes_then_fails(out_before, events, *output, m)));
                            lemma_writes_concat_fail(*old(output), written, out_before, es, *output, m);
                            lemma_releases_concat(done, written, keys.take(es.len() as int), es);
                            assert(all.take((written + es).len() as int) =~= done + keys.take(es.len() as int));
                            assert(releases_of(all.take((written + es).len() as int), written + es));
                        }
                    }
                    return Err(e);
                },
            }
            proof {
                let keys = sole_keys(before, d);
                let es = choose|events: Seq<PhysicalKeyEvent>|
                    #[trigger] releases_of(keys.take(events.len() as int), events) && events.len() <= keys.len() && (
                    (res is Ok && events.len() == keys.len() && writes_each(out_before, events, *output)) || (
                    res matches Err(RelayError::Output(m)) && writes_then_fails(out_before, events, *output, m)));
                assert(keys.take(es.len() as int) =~= keys);
                lemma_writes_concat(*old(output), written, out_before, es, *output);
                lemma_releases_concat(done, written, keys, es);
                assert(all =~= (done + keys) + finish_keys(self@.held));
                done = done + keys;
                written = written + es;
            }
        }
        proof {
            assert(finish_keys(self@.held) == Seq::<Held>::empty());
            assert(all =~= done);
            assert(all.take(written.len() as int) =~= all);
        }
        Ok(())
    }

    /// `disconnect`, with the releases written as one frame.
    pub fn disconnect_frame<O: FrameSink>(&mut self, device: DeviceId, output: &mut O) -> (r: Result<(), RelayError>)
        ensures
            old(self)@.failed ==> r == Err::<(), RelayError>(RelayError::Failed) && final(self)@ == old(self)@,
            !old(self)@.failed ==> (r is Ok && final(self)@ == RelayView {
                held: drop_device(old(self)@.held, device.0),
                failed: false,
            }) || (r matches Err(RelayError::Output(_)) && final(self)@.failed),
            release_frame_output(old(self)@.failed, sole_keys(old(self)@.held, device.0), *old(output), *final(output), r),
    {
        let mut collector = Collector { frame: Vec::new() };
        let ghost c0 = collector;
        let res = self.disconnect(device, &mut collector);
        match res {
            Ok(()) => {},
            Err(e) => {
                return Err(e);
            },
        }
        proof {
            if !old(self)@.failed {
                let keys = sole_keys(old(self)@.held, device.0);
                let es = choose|events: Seq<PhysicalKeyEvent>|
                    #[trigger] releases_of(keys.take(events.len() as int), events) && events.len() <= keys.len() && (
                    (res is Ok && events.len() == keys.len() && writes_each(c0, events, collector)) || (
                    res matches Err(RelayError::Output(m)) && writes_then_fails(c0, events, collector, m)));
                lemma_collected(c0, es, collector);
                assert(c0.collected() + es =~= es);
                assert(keys.take(es.len() as int) =~= keys);
                assert(collector.frame@ == es);
            }
        }
        self.emit_frame(collector.frame.as_slice(), output)
    }

    /// `finish`, with the releases written as one frame.
    pub fn finish_frames<O: FrameSink>(&mut self, output: &mut O) -> (r: Result<(), RelayError>)
        ensures
            old(self)@.failed ==> r == Err::<(), RelayError>(RelayError::Failed) && final(self)@ == old(self)@,
            !old(self)@.failed ==> (r is Ok && final(self)@.held.len() == 0 && !final(self)@.failed) || (
            r matches Err(RelayError::Output(_)) && final(self)@.failed),
            release_frame_output(old(self)@.failed, finish_keys(old(self)@.held), *old(output), *final(output), r),
    {
        let mut collector = Collector { frame: Vec::new() };
        let ghost c0 = collector;
        let res = self.finish(&mut collector);
        match res {
            Ok(()) => {},
            Err(e) => {
                return Err(e);
            },
        }
        proof {
            if !old(self)@.failed {
                let keys = finish_keys(old(self)@.held);
                let es = choose|events: Seq<PhysicalKeyEvent>|
                    #[trigger] releases_of(keys.take(events.len() as int), events) && events.len() <= keys.len() && (
                    (res is Ok && events.len() == keys.len() && writes_each(c0, events, collector)) || (
                    res matches Err(RelayError::Output(m)) && writes_then_fails(c0, events, collector, m)));
                lemma_collected(c0, es, collector);
                assert(c0.collected() + es =~= es);
                assert(keys.take(es.len() as int) =~= keys);
                assert(collector.frame@ == es);
            }
        }
        self.emit_frame(collector.frame.as_slice(), output)
    }
}

impl Default for Relay {
    fn default() -> (r: Relay)
        ensures
            r@.held.len() == 0,
            !r@.failed,
    {
        Relay::new()
    }
}

proof fn lemma_keep_all(s: Seq<Held>)
    ensures
        keep(s, |e: Held| true) == s,
    decreases s.len(),
{
    if s.len() > 0 {
        lemma_keep_all(s.drop_last());
        assert(s.drop_last().push(s.last()) =~= s);
    }
}

proof fn lemma_drop_released(s: Seq<Held>, d: u64, codes: Seq<u16>, c: u16)
    ensures
        drop_key(keep(s, released(d, codes)), (d, c)) == keep(s, released(d, codes.push(c))),
{
    assert forall|i: int| 0 <= i < s.len() implies released(d, codes.push(c))(#[trigger] s[i]) == (released(d, codes)(s[i]) && other_key((d, c))(s[i])) by {
        let e = s[i];
        if e.0 == d && e.1 == c {
            assert(codes.push(c)[codes.len() as int] == c);
        }
        if e.0 == d && codes.push(c).contains(e.1) && e.1 != c {
            let q = choose|q: int| 0 <= q < codes.push(c).len() && codes.push(c)[q] == e.1;
            assert(codes[q] == e.1);
        }
        if e.0 == d && codes.contains(e.1) {
            let q = choose|q: int| 0 <= q < codes.len() && codes[q] == e.1;
            assert(codes.push(c)[q] == e.1);
        }
    }
    lemma_keep_keep(s, released(d, codes), other_key((d, c)), released(d, codes.push(c)));
}

proof fn lemma_fold_stays_bad(h: Seq<Held>, events: Seq<PhysicalKeyEvent>, n: int)
    requires
        0 <= n <= events.len(),
        fold_held(h, events.take(n)).1,
    ensures
        fold_held(h, events) == fold_held(h, events.take(n)),
    decreases events.len() - n,
{
    if n < events.len() {
        assert(events.take(n + 1).drop_last() =~= events.take(n));
        lemma_fold_stays_bad(h, events, n + 1);
    } else {
        assert(events.take(n) =~= events);
    }
}

/// After an output failure the relay writes nothing more and refuses every
/// event, whatever it is.
pub proof fn law_failure_is_terminal(v: RelayView, event: PhysicalKeyEvent, new: RelayView, r: Result<(), RelayError>)
    requires
        v.failed,
        forward_post(v, event, new, r),
    ensures
        new == v,
        r == Err::<(), RelayError>(RelayError::Failed),
{
}

/// A key held by two devices goes down on the output once and comes up only
/// when its last holder releases it.
pub proof fn law_shared_key_stays_down(held: Seq<Held>, d: u64, e: u64, c: u16)
    requires
        d != e,
        owns(held, (e, c)),
    ensures
        !emits(held, (d, c), KeyAction::Down),
        !emits(held, (d, c), KeyAction::Up),
{
    let i = choose|i: int| 0 <= i < held.len() && key_of(#[trigger] held[i]) == (e, c);
    assert(held[i].1 == c && held[i].0 != d);
}
/// A key goes down on the output once however many devices press it: a
/// press whose code some device already holds writes nothing to the output.
pub proof fn law_held_code_is_not_pressed_again<O: KeySink>(
    v: RelayView,
    event: PhysicalKeyEvent,
    i: int,
    before: O,
    after: O,
    r: Result<(), RelayError>,
)
    requires
        event.action == KeyAction::Down,
        relay_code(event) is Some,
        0 <= i < v.held.len(),
        v.held[i].1 == relay_code(event).unwrap(),
        forward_output(v, event, before, after, r),
    ensures
        after == before,
{
    let c = relay_code(event).unwrap();
    let d = event.device_id.0;
    if v.held[i].0 == d {
        assert(key_of(v.held[i]) == (d, c));
        assert(owns(v.held, (d, c)));
    } else {
        assert(shared(v.held, (d, c)));
    }
}

} // verus!
