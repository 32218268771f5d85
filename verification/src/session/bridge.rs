//! The read-only GNOME Shell bridge. Window focus is not text-field focus; an
//! input source identifier is not a complete keymap, modifier or composition
//! snapshot.
use super::{Probe, ProbeFailure};
use crate::text::{str_eq, str_len, to_chars};
use vstd::prelude::*;

verus! {

#[derive(Debug, Clone, Copy, PartialEq, Eq, Structural)]
pub enum WindowBackend {
    Wayland,
    X11,
    Unknown,
}

/// Largest accepted snapshot reply, in bytes.
pub const MAX_SNAPSHOT_BYTES: usize = 4096;

/// The largest integer a JSON number carries exactly.
pub const MAX_SAFE_INTEGER: u64 = 9_007_199_254_740_991;

#[derive(Debug, Clone)]
pub struct Snapshot {
    pub protocol: u32,
    pub instance: String,
    pub generation: u64,
    pub source_generation: u64,
    pub source_type: String,
    pub source_id: String,
    pub xkb_id: String,
    pub window: u64,
    pub window_backend: WindowBackend,
    pub locked: bool,
    pub shield_active: bool,
    pub overview: bool,
    pub user_session: bool,
    pub external_source: bool,
}

pub open spec fn same_snapshot(a: Snapshot, b: Snapshot) -> bool {
    &&& a.protocol == b.protocol
    &&& a.instance@ == b.instance@
    &&& a.generation == b.generation
    &&& a.source_generation == b.source_generation
    &&& a.source_type@ == b.source_type@
    &&& a.source_id@ == b.source_id@
    &&& a.xkb_id@ == b.xkb_id@
    &&& a.window == b.window
    &&& a.window_backend == b.window_backend
    &&& a.locked == b.locked
    &&& a.shield_active == b.shield_active
    &&& a.overview == b.overview
    &&& a.user_session == b.user_session
    &&& a.external_source == b.external_source
}

pub open spec fn hex_char(c: char) -> bool {
    ('0' <= c && c <= '9') || ('a' <= c && c <= 'f') || ('A' <= c && c <= 'F')
}

/// A UUID: 36 characters, `-` at 8, 13, 18 and 23, hex digits elsewhere.
pub open spec fn uuid_ok(s: Seq<char>) -> bool {
    s.len() == 36 && forall|i: int|
        0 <= i < 36 ==> if i == 8 || i == 13 || i == 18 || i == 23 {
            #[trigger] s[i] == '-'
        } else {
            hex_char(s[i])
        }
}

pub open spec fn safe_number(n: u64) -> bool {
    0 < n <= MAX_SAFE_INTEGER
}

pub open spec fn clean_char(c: char) -> bool {
    ('a' <= c && c <= 'z') || ('A' <= c && c <= 'Z') || ('0' <= c && c <= '9') || c == '_' || c
        == '+' || c == '.' || c == ':' || c == '@' || c == '/' || c == '-'
}

/// At most 128 bytes of ASCII letters, digits and `_+.:@/-`.
pub open spec fn clean(s: Seq<char>) -> bool {
    s.len() <= 128 && forall|i: int| 0 <= i < s.len() ==> clean_char(#[trigger] s[i])
}

/// Whether a decoded snapshot is consistent: protocol 1, a UUID instance,
/// JSON-safe positive generations in order, clean source names that are all
/// empty or name an `xkb`/`ibus` source, and no window or source reported
/// while the session is locked, shielded, in the overview or not the user's,
/// nor a source for an external one.
pub open spec fn snapshot_valid(s: Snapshot) -> bool {
    let empty_source = s.source_type@.len() == 0 && s.source_id@.len() == 0 && s.xkb_id@.len() == 0;
    let valid_source = empty_source || ((s.source_type@ == "xkb"@ || s.source_type@ == "ibus"@)
        && s.source_id@.len() > 0 && s.xkb_id@.len() > 0);
    let restricted = s.locked || s.shield_active || s.overview || !s.user_session;
    &&& s.protocol == 1
    &&& uuid_ok(s.instance@)
    &&& safe_number(s.generation)
    &&& safe_number(s.source_generation)
    &&& s.source_generation <= s.generation
    &&& s.window <= MAX_SAFE_INTEGER
    &&& clean(s.source_type@) && clean(s.source_id@) && clean(s.xkb_id@)
    &&& valid_source
    &&& !(restricted && (s.window != 0 || !empty_source))
    &&& !(s.external_source && !empty_source)
    &&& !(s.window == 0 && s.window_backend != WindowBackend::Unknown)
}

fn is_uuid(s: &str) -> (b: bool)
    ensures
        b == uuid_ok(s@),
{
    let v = to_chars(s);
    if v.len() != 36 {
        return false;
    }
    let mut i: usize = 0;
    while i < 36
        invariant
            v@ == s@,
            v@.len() == 36,
            i <= 36,
            forall|j: int|
                0 <= j < i ==> if j == 8 || j == 13 || j == 18 || j == 23 {
                    #[trigger] v@[j] == '-'
                } else {
                    hex_char(v@[j])
                },
        decreases 36 - i,
    {
        let c = v[i];
        let ok = if i == 8 || i == 13 || i == 18 || i == 23 {
            c == '-'
        } else {
            ('0' <= c && c <= '9') || ('a' <= c && c <= 'f') || ('A' <= c && c <= 'F')
        };
        if !ok {
            return false;
        }
        i += 1;
    }
    true
}

fn is_clean(s: &str) -> (b: bool)
    ensures
        b == clean(s@),
{
    let v = to_chars(s);
    if v.len() > 128 {
        return false;
    }
    let mut i: usize = 0;
    while i < v.len()
        invariant
            v@ == s@,
            i <= v@.len(),
            forall|j: int| 0 <= j < i ==> clean_char(#[trigger] v@[j]),
        decreases v.len() - i,
    {
        let c = v[i];
        if !(('a' <= c && c <= 'z') || ('A' <= c && c <= 'Z') || ('0' <= c && c <= '9') || c == '_' || c == '+'
            || c == '.' || c == ':' || c == '@' || c == '/' || c == '-') {
            assert(!clean_char(v@[i as int]));
            return false;
        }
        i += 1;
    }
    true
}

impl Snapshot {
    /// Whether the snapshot is consistent (see `snapshot_valid`).
    pub fn valid(&self) -> (b: bool)
        ensures
            b == snapshot_valid(*self),
    {
        let empty_source = self.source_type.as_str().unicode_len() == 0 && self.source_id.as_str().unicode_len() == 0
            && self.xkb_id.as_str().unicode_len() == 0;
        let known_type = str_eq(self.source_type.as_str(), "xkb") || str_eq(self.source_type.as_str(), "ibus");
        let valid_source = empty_source || (known_type && self.source_id.as_str().unicode_len() > 0
            && self.xkb_id.as_str().unicode_len() > 0);
        let restricted = self.locked || self.shield_active || self.overview || !self.user_session;
        self.protocol == 1 && is_uuid(self.instance.as_str()) && (0 < self.generation && self.generation
            <= MAX_SAFE_INTEGER) && (0 < self.source_generation && self.source_generation <= MAX_SAFE_INTEGER)
            && self.source_generation <= self.generation && self.window <= MAX_SAFE_INTEGER && is_clean(
            self.source_type.as_str(),
        ) && is_clean(self.source_id.as_str()) && is_clean(self.xkb_id.as_str()) && valid_source && !(
        restricted && (self.window != 0 || !empty_source)) && !(self.external_source && !empty_source)
            && !(self.window == 0 && !(self.window_backend == WindowBackend::Unknown))
    }

    /// Checks one reply: `json` is the reply text and `decoded` what strict
    /// decoding made of it (`None` when it was not a snapshot with exactly
    /// the known fields). Oversized, undecodable and inconsistent replies are
    /// invalid.
    pub fn from_reply(json: &str, decoded: Option<Snapshot>) -> (r: Result<Snapshot, ProbeFailure>)
        ensures
            crate::text::byte_len(json@) > MAX_SNAPSHOT_BYTES ==> r == Err::<Snapshot, ProbeFailure>(
                ProbeFailure::InvalidReply,
            ),
            crate::text::byte_len(json@) <= MAX_SNAPSHOT_BYTES ==> match decoded {
                Some(s) => if snapshot_valid(s) {
                    r == Ok::<Snapshot, ProbeFailure>(s)
                } else {
                    r == Err::<Snapshot, ProbeFailure>(ProbeFailure::InvalidReply)
                },
                Option::None => r == Err::<Snapshot, ProbeFailure>(ProbeFailure::InvalidReply),
            },
    {
        if str_len(json) > MAX_SNAPSHOT_BYTES {
            return Err(ProbeFailure::InvalidReply);
        }
        match decoded {
            Some(s) => {
                if s.valid() {
                    Ok(s)
                } else {
                    Err(ProbeFailure::InvalidReply)
                }
            },
            None => Err(ProbeFailure::InvalidReply),
        }
    }
}

/// A snapshot with the bus name of the shell that sent it.
#[derive(Debug, Clone)]
pub struct Observation {
    /// The unique owner and the instance scope every window and generation number.
    pub owner: String,
    pub snapshot: Snapshot,
}

pub open spec fn same_observation(a: Option<Observation>, b: Option<Observation>) -> bool {
    match (a, b) {
        (Some(x), Some(y)) => x.owner@ == y.owner@ && same_snapshot(x.snapshot, y.snapshot),
        (Option::None, Option::None) => true,
        _ => false,
    }
}

fn snapshots_equal(a: &Snapshot, b: &Snapshot) -> (r: bool)
    ensures
        r == same_snapshot(*a, *b),
{
    a.protocol == b.protocol && a.instance == b.instance && a.generation == b.generation
        && a.source_generation == b.source_generation && a.source_type == b.source_type && a.source_id
        == b.source_id && a.xkb_id == b.xkb_id && a.window == b.window && a.window_backend
        == b.window_backend && a.locked == b.locked && a.shield_active == b.shield_active
        && a.overview == b.overview && a.user_session == b.user_session && a.external_source
        == b.external_source
}

fn observations_equal(a: &Option<Observation>, b: &Option<Observation>) -> (r: bool)
    ensures
        r == same_observation(*a, *b),
{
    match (a, b) {
        (Some(x), Some(y)) => x.owner == y.owner && snapshots_equal(&x.snapshot, &y.snapshot),
        (None, None) => true,
        _ => false,
    }
}

/// Whether `next` contradicts `last` from the same owner and instance: a
/// generation going back, or a changed snapshot under the same generation.
pub open spec fn regresses(last: Observation, next: Observation) -> bool {
    let old = last.snapshot;
    let new = next.snapshot;
    last.owner@ == next.owner@ && old.instance@ == new.instance@ && (new.generation < old.generation
        || new.source_generation < old.source_generation || (new.generation == old.generation
        && !same_snapshot(new, old)))
}

/// Continuity tracking on the consumer's side. A failure discards the last
/// snapshot at once; the epoch moves whenever what is known changes.
pub struct Tracker {
    pub epoch: u64,
    last: Option<Observation>,
}

impl Tracker {
    pub closed spec fn last_seen(self) -> Option<Observation> {
        self.last
    }

    /// The value of the public field `epoch`.
    pub closed spec fn current_epoch(self) -> u64 {
        self.epoch
    }

    pub fn new() -> (t: Tracker)
        ensures
            t.current_epoch() == 0,
            t.last_seen() is None,
    {
        Tracker { epoch: 0, last: None }
    }

    /// The last accepted observation, if any.
    pub fn last(&self) -> (r: Option<Observation>)
        ensures
            same_observation(r, self.last_seen()),
    {
        match &self.last {
            Some(o) => Some(Observation { owner: o.owner.clone(), snapshot: clone_snapshot(&o.snapshot) }),
            None => None,
        }
    }

    /// Takes one probe result; a result that contradicts the last one from the
    /// same source is turned into an invalid reply.
    pub fn update(&mut self, result: Probe<Observation>) -> (r: Probe<Observation>)
        requires
            old(self).current_epoch() < u64::MAX,
        ensures
            ({
                let bad = old(self).last_seen() matches Some(last) && result matches Probe::Observed(next)
                    && regresses(last, next);
                let kept = if bad {
                    None
                } else {
                    match result {
                        Probe::Observed(o) => Some(o),
                        Probe::Failed(_) => None,
                    }
                };
                &&& bad ==> r == Probe::<Observation>::Failed(ProbeFailure::InvalidReply)
                &&& !bad ==> r == result
                &&& same_observation(final(self).last_seen(), kept)
                &&& final(self).current_epoch() == if same_observation(kept, old(self).last_seen()) {
                    old(self).current_epoch()
                } else {
                    (old(self).current_epoch() + 1) as u64
                }
            }),
    {
        let bad = match (&self.last, &result) {
            (Some(last), Probe::Observed(next)) => {
                if last.owner == next.owner && last.snapshot.instance == next.snapshot.instance {
                    let old = &last.snapshot;
                    let new = &next.snapshot;
                    new.generation < old.generation || new.source_generation < old.source_generation || (
                    new.generation == old.generation && !snapshots_equal(new, old))
                } else {
                    false
                }
            },
            _ => false,
        };
        let result = if bad {
            Probe::Failed(ProbeFailure::InvalidReply)
        } else {
            result
        };
        let next = match &result {
            Probe::Observed(value) => Some(Observation {
                owner: value.owner.clone(),
                snapshot: clone_snapshot(&value.snapshot),
            }),
            Probe::Failed(_) => None,
        };
        if !observations_equal(&next, &self.last) {
            self.epoch = self.epoch + 1;
        }
        self.last = next;
        result
    }
}

fn clone_snapshot(s: &Snapshot) -> (c: Snapshot)
    ensures
        c == *s,
{
    Snapshot {
        protocol: s.protocol,
        instance: s.instance.clone(),
        generation: s.generation,
        source_generation: s.source_generation,
        source_type: s.source_type.clone(),
        source_id: s.source_id.clone(),
        xkb_id: s.xkb_id.clone(),
        window: s.window,
        window_backend: s.window_backend,
        locked: s.locked,
        shield_active: s.shield_active,
        overview: s.overview,
        user_session: s.user_session,
        external_source: s.external_source,
    }
}

impl Default for Tracker {
    fn default() -> (t: Tracker)
        ensures
            t.current_epoch() == 0,
            t.last_seen() is None,
    {
        Tracker::new()
    }
}

} // verus!
