//! Conservative context preflight. Passing it is not authorization to edit: an
//! executor must still verify suffix, origin, modifiers and interleaving.
use crate::time::{Duration, Instant};
use vstd::prelude::*;

verus! {

#[derive(Debug, Clone, PartialEq, Eq)]
pub enum Knowledge<T> {
    Known(T),
    Unknown,
}

#[derive(Debug, Clone, PartialEq, Eq)]
pub enum Capability {
    Available,
    Limited(String),
    Unavailable(String),
    Unknown,
}

#[derive(Debug, Clone, PartialEq, Eq)]
pub struct TextCapabilities {
    pub observe_committed_text: Capability,
    pub read_layout: Capability,
    pub read_focus: Capability,
    pub detect_sensitive_field: Capability,
    pub replace_range: Capability,
    pub inject_unicode: Capability,
}

impl Default for TextCapabilities {
    fn default() -> (c: TextCapabilities)
        ensures
            c.observe_committed_text == Capability::Unknown,
            c.read_layout == Capability::Unknown,
            c.read_focus == Capability::Unknown,
            c.detect_sensitive_field == Capability::Unknown,
            c.replace_range == Capability::Unknown,
            c.inject_unicode == Capability::Unknown,
    {
        TextCapabilities {
            observe_committed_text: Capability::Unknown,
            read_layout: Capability::Unknown,
            read_focus: Capability::Unknown,
            detect_sensitive_field: Capability::Unknown,
            replace_range: Capability::Unknown,
            inject_unicode: Capability::Unknown,
        }
    }
}

#[derive(Debug, Clone)]
pub struct ContextSnapshot {
    /// Backend generation: changes on focus or layout changes, loss or reconnect.
    pub epoch: u64,
    pub captured_at: Instant,
    /// Opaque target identity; never a title or text contents.
    pub target: Knowledge<u64>,
    pub unlocked: Knowledge<bool>,
    pub sensitive: Knowledge<bool>,
    pub selection_empty: Knowledge<bool>,
    pub composing: Knowledge<bool>,
    pub layout: Knowledge<String>,
}

#[derive(Debug, Clone, Copy, PartialEq, Eq, Structural)]
pub enum Blocker {
    ContextChanged,
    StaleContext,
    FocusUnknown,
    LockedOrUnknown,
    SensitiveOrUnknown,
    SelectionPresentOrUnknown,
    CompositionActiveOrUnknown,
    LayoutUnknown,
    UnicodeUnavailable,
}

/// `seq![b]` when `cond` holds, else empty.
pub open spec fn blocker_if(cond: bool, b: Blocker) -> Seq<Blocker> {
    if cond {
        seq![b]
    } else {
        Seq::empty()
    }
}

/// The reasons that block replacement, in a fixed order: a changed epoch, a
/// snapshot that is not younger than `max_age` (or from the future), unknown
/// focus, lock, sensitivity, selection, composition or layout, and Unicode
/// injection that is not available.
pub open spec fn blockers_spec(
    c: ContextSnapshot,
    caps: TextCapabilities,
    expected_epoch: u64,
    now: Instant,
    max_age: Duration,
) -> Seq<Blocker> {
    blocker_if(c.epoch != expected_epoch, Blocker::ContextChanged) + blocker_if(
        !(c.captured_at.nanos <= now.nanos && now.nanos - c.captured_at.nanos < max_age.nanos),
        Blocker::StaleContext,
    ) + blocker_if(
        c.target == Knowledge::<u64>::Unknown || caps.read_focus != Capability::Available,
        Blocker::FocusUnknown,
    ) + blocker_if(c.unlocked != Knowledge::Known(true), Blocker::LockedOrUnknown) + blocker_if(
        c.sensitive != Knowledge::Known(false),
        Blocker::SensitiveOrUnknown,
    ) + blocker_if(c.selection_empty != Knowledge::Known(true), Blocker::SelectionPresentOrUnknown)
        + blocker_if(c.composing != Knowledge::Known(false), Blocker::CompositionActiveOrUnknown)
        + blocker_if(
        !(c.layout matches Knowledge::Known(id) && id@.len() > 0) || caps.read_layout
            != Capability::Available,
        Blocker::LayoutUnknown,
    ) + blocker_if(caps.inject_unicode != Capability::Available, Blocker::UnicodeUnavailable)
}

fn is_available(c: &Capability) -> (b: bool)
    ensures
        b == (*c == Capability::Available),
{
    matches!(c, Capability::Available)
}

fn push_if(v: &mut Vec<Blocker>, cond: bool, b: Blocker)
    ensures
        final(v)@ == old(v)@ + blocker_if(cond, b),
{
    if cond {
        v.push(b);
        assert(final(v)@ =~= old(v)@ + blocker_if(cond, b));
    } else {
        assert(old(v)@ + blocker_if(cond, b) =~= old(v)@);
    }
}

impl ContextSnapshot {
    /// A snapshot that knows nothing but its epoch and capture time.
    pub fn unknown(epoch: u64, now: Instant) -> (c: ContextSnapshot)
        ensures
            c.epoch == epoch,
            c.captured_at == now,
            c.target == Knowledge::<u64>::Unknown,
            c.unlocked == Knowledge::<bool>::Unknown,
            c.sensitive == Knowledge::<bool>::Unknown,
            c.selection_empty == Knowledge::<bool>::Unknown,
            c.composing == Knowledge::<bool>::Unknown,
            c.layout == Knowledge::<String>::Unknown,
    {
        ContextSnapshot {
            epoch,
            captured_at: now,
            target: Knowledge::Unknown,
            unlocked: Knowledge::Unknown,
            sensitive: Knowledge::Unknown,
            selection_empty: Knowledge::Unknown,
            composing: Knowledge::Unknown,
            layout: Knowledge::Unknown,
        }
    }

    /// Every reason that blocks a replacement now; empty only when every guard
    /// is positively known to allow it.
    pub fn replacement_blockers(
        &self,
        capabilities: &TextCapabilities,
        expected_epoch: u64,
        now: Instant,
        max_age: Duration,
    ) -> (r: Vec<Blocker>)
        ensures
            r@ == blockers_spec(*self, *capabilities, expected_epoch, now, max_age),
    {
        let mut reasons: Vec<Blocker> = Vec::new();
        push_if(&mut reasons, self.epoch != expected_epoch, Blocker::ContextChanged);
        let fresh = match now.checked_duration_since(self.captured_at) {
            Some(age) => age.nanos < max_age.nanos,
            None => false,
        };
        push_if(&mut reasons, !fresh, Blocker::StaleContext);
        push_if(
            &mut reasons,
            matches!(self.target, Knowledge::Unknown) || !is_available(&capabilities.read_focus),
            Blocker::FocusUnknown,
        );
        push_if(
            &mut reasons,
            !matches!(self.unlocked, Knowledge::Known(true)),
            Blocker::LockedOrUnknown,
        );
        push_if(
            &mut reasons,
            !matches!(self.sensitive, Knowledge::Known(false)),
            Blocker::SensitiveOrUnknown,
        );
        push_if(
            &mut reasons,
            !matches!(self.selection_empty, Knowledge::Known(true)),
            Blocker::SelectionPresentOrUnknown,
        );
        push_if(
            &mut reasons,
            !matches!(self.composing, Knowledge::Known(false)),
            Blocker::CompositionActiveOrUnknown,
        );
        let layout_known = match &self.layout {
            Knowledge::Known(id) => id.as_str().unicode_len() > 0,
            Knowledge::Unknown => false,
        };
        push_if(
            &mut reasons,
            !layout_known || !is_available(&capabilities.read_layout),
            Blocker::LayoutUnknown,
        );
        push_if(
            &mut reasons,
            !is_available(&capabilities.inject_unicode),
            Blocker::UnicodeUnavailable,
        );
        reasons
    }
}

} // verus!
