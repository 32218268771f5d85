//! Read-only Linux session diagnostics. Advertised APIs are evidence, never a
//! grant of text-editing capabilities. Querying the session bus is the
//! host's part; the library classifies what came back.
pub mod bridge;

use crate::context::{blockers_spec, Blocker, Capability, ContextSnapshot, Knowledge, TextCapabilities};
use crate::text::str_eq;
use crate::time::{Duration, Instant};
use vstd::prelude::*;

verus! {

#[derive(Debug, Clone, Copy, PartialEq, Eq, Structural)]
pub enum SessionHint {
    Wayland,
    X11,
    Unknown,
}

impl SessionHint {
    /// The hint an `XDG_SESSION_TYPE` value gives.
    pub fn from_environment_value(value: Option<&str>) -> (h: SessionHint)
        ensures
            h == match value {
                Some(v) => if v@ == "wayland"@ {
                    SessionHint::Wayland
                } else if v@ == "x11"@ {
                    SessionHint::X11
                } else {
                    SessionHint::Unknown
                },
                Option::None => SessionHint::Unknown,
            },
    {
        match value {
            Some(v) => {
                if str_eq(v, "wayland") {
                    SessionHint::Wayland
                } else if str_eq(v, "x11") {
                    SessionHint::X11
                } else {
                    SessionHint::Unknown
                }
            },
            None => SessionHint::Unknown,
        }
    }
}

#[derive(Debug, Clone, Copy, PartialEq, Eq, Structural)]
pub enum ProbeFailure {
    Timeout,
    PermissionDenied,
    Unavailable,
    InvalidReply,
    Transport,
}

#[derive(Debug, Clone, PartialEq, Eq)]
pub enum Probe<T> {
    Observed(T),
    Failed(ProbeFailure),
}

/// What a failed bus call reported, as far as the classification reads it.
#[derive(Debug, Clone, PartialEq, Eq)]
pub enum BusError {
    /// The service answered with a D-Bus error of this name.
    MethodError(String),
    /// A reply value of an unexpected type.
    Variant,
    InvalidReply,
    Other,
}

pub open spec fn denied_name(n: Seq<char>) -> bool {
    n == "org.freedesktop.DBus.Error.AccessDenied"@ || n == "org.freedesktop.DBus.Error.AuthFailed"@
}

pub open spec fn missing_name(n: Seq<char>) -> bool {
    ||| n == "org.freedesktop.DBus.Error.ServiceUnknown"@
    ||| n == "org.freedesktop.DBus.Error.NameHasNoOwner"@
    ||| n == "org.freedesktop.DBus.Error.UnknownMethod"@
    ||| n == "org.freedesktop.DBus.Error.UnknownInterface"@
    ||| n == "org.freedesktop.DBus.Error.UnknownProperty"@
    ||| n == "org.freedesktop.DBus.Error.UnknownObject"@
}

/// Classifies a failed bus call: denied access stays a failure of its own,
/// an absent service or member is `Unavailable`, a malformed reply is
/// `InvalidReply`, everything else is `Transport`.
pub fn failure(error: &BusError) -> (f: ProbeFailure)
    ensures
        f == match *error {
            BusError::MethodError(n) => if denied_name(n@) {
                ProbeFailure::PermissionDenied
            } else if missing_name(n@) {
                ProbeFailure::Unavailable
            } else {
                ProbeFailure::Transport
            },
            BusError::Variant | BusError::InvalidReply => ProbeFailure::InvalidReply,
            BusError::Other => ProbeFailure::Transport,
        },
{
    match error {
        BusError::MethodError(name) => {
            let n = name.as_str();
            if str_eq(n, "org.freedesktop.DBus.Error.AccessDenied") || str_eq(n, "org.freedesktop.DBus.Error.AuthFailed") {
                ProbeFailure::PermissionDenied
            } else if str_eq(n, "org.freedesktop.DBus.Error.ServiceUnknown") || str_eq(
                n,
                "org.freedesktop.DBus.Error.NameHasNoOwner",
            ) || str_eq(n, "org.freedesktop.DBus.Error.UnknownMethod") || str_eq(
                n,
                "org.freedesktop.DBus.Error.UnknownInterface",
            ) || str_eq(n, "org.freedesktop.DBus.Error.UnknownProperty") || str_eq(
                n,
                "org.freedesktop.DBus.Error.UnknownObject",
            ) {
                ProbeFailure::Unavailable
            } else {
                ProbeFailure::Transport
            }
        },
        BusError::Variant | BusError::InvalidReply => ProbeFailure::InvalidReply,
        BusError::Other => ProbeFailure::Transport,
    }
}

#[derive(Debug)]
pub struct PortalEvidence {
    pub remote_desktop_version: Probe<u32>,
    pub input_capture_version: Probe<u32>,
    pub global_shortcuts_version: Probe<u32>,
    /// No session is created and no consent, input or clipboard is asked for.
    pub permission_requested: bool,
}

#[derive(Debug)]
pub struct SessionReport {
    pub schema_version: u32,
    /// The environment is a routing hint, not a verified application backend.
    pub session_hint: SessionHint,
    pub xwayland_display_hint: bool,
    pub session_bus: Probe<bool>,
    pub gnome_shell_version: Probe<String>,
    /// Whether the screen shield is up; `false` alone establishes neither an
    /// active session nor a safe context for replacement.
    pub gnome_screen_shield_active: Probe<bool>,
    pub portals: PortalEvidence,
    pub gnome_bridge: Probe<bridge::Observation>,
    pub context: ContextSnapshot,
    pub text_capabilities: TextCapabilities,
    pub replacement_blockers: Vec<Blocker>,
    pub elapsed_ms: u128,
}

/// What every capability is before any backend is accepted: unavailable, with
/// the reason.
pub fn unsupported_capabilities() -> (c: TextCapabilities)
    ensures
        c.observe_committed_text matches Capability::Unavailable(r) && r@ == "No accepted committed-text observer"@,
        c.read_layout matches Capability::Unavailable(r) && r@ == "No live compositor keymap/group adapter; local XKB defaults are not evidence"@,
        c.read_focus matches Capability::Unavailable(r) && r@ == "No accepted focused-field adapter; XWayland cannot stand in for native Wayland"@,
        c.detect_sensitive_field matches Capability::Unavailable(r) && r@ == "No accepted field-sensitivity adapter"@,
        c.replace_range matches Capability::Unavailable(r) && r@ == "No accepted range replacement backend"@,
        c.inject_unicode matches Capability::Unavailable(r) && r@ == "No accepted Unicode backend; portal advertisement is not permission or delivery"@,
{
    TextCapabilities {
        observe_committed_text: Capability::Unavailable(String::from_str("No accepted committed-text observer")),
        read_layout: Capability::Unavailable(
            String::from_str("No live compositor keymap/group adapter; local XKB defaults are not evidence"),
        ),
        read_focus: Capability::Unavailable(
            String::from_str("No accepted focused-field adapter; XWayland cannot stand in for native Wayland"),
        ),
        detect_sensitive_field: Capability::Unavailable(String::from_str("No accepted field-sensitivity adapter")),
        replace_range: Capability::Unavailable(String::from_str("No accepted range replacement backend")),
        inject_unicode: Capability::Unavailable(
            String::from_str("No accepted Unicode backend; portal advertisement is not permission or delivery"),
        ),
    }
}

impl SessionReport {
    /// A report before any probe: nothing observed, every capability missing,
    /// and the blockers of an unknown context against them.
    pub fn empty(session_hint: SessionHint, display: bool, now: Instant) -> (r: SessionReport)
        ensures
            r.schema_version == 1,
            r.session_hint == session_hint,
            r.xwayland_display_hint == (session_hint == SessionHint::Wayland && display),
            r.session_bus == Probe::<bool>::Failed(ProbeFailure::Unavailable),
            r.gnome_shell_version == Probe::<String>::Failed(ProbeFailure::Unavailable),
            r.gnome_screen_shield_active == Probe::<bool>::Failed(ProbeFailure::Unavailable),
            r.portals.remote_desktop_version == Probe::<u32>::Failed(ProbeFailure::Unavailable),
            r.portals.input_capture_version == Probe::<u32>::Failed(ProbeFailure::Unavailable),
            r.portals.global_shortcuts_version == Probe::<u32>::Failed(ProbeFailure::Unavailable),
            !r.portals.permission_requested,
            r.gnome_bridge == Probe::<bridge::Observation>::Failed(ProbeFailure::Unavailable),
            r.context.epoch == 0,
            r.context.captured_at == now,
            r.context.target == Knowledge::<u64>::Unknown,
            r.context.unlocked == Knowledge::<bool>::Unknown,
            r.context.sensitive == Knowledge::<bool>::Unknown,
            r.context.selection_empty == Knowledge::<bool>::Unknown,
            r.context.composing == Knowledge::<bool>::Unknown,
            r.context.layout == Knowledge::<String>::Unknown,
            r.replacement_blockers@ == blockers_spec(r.context, r.text_capabilities, 0, now, Duration { nanos: 2_000_000_000 }),
            r.elapsed_ms == 0,
    {
        let context = ContextSnapshot::unknown(0, now);
        let text_capabilities = unsupported_capabilities();
        let replacement_blockers = context.replacement_blockers(&text_capabilities, 0, now, Duration::from_secs(2));
        SessionReport {
            schema_version: 1,
            gnome_bridge: Probe::Failed(ProbeFailure::Unavailable),
            session_hint,
            xwayland_display_hint: session_hint == SessionHint::Wayland && display,
            session_bus: Probe::Failed(ProbeFailure::Unavailable),
            gnome_shell_version: Probe::Failed(ProbeFailure::Unavailable),
            gnome_screen_shield_active: Probe::Failed(ProbeFailure::Unavailable),
            portals: PortalEvidence {
                remote_desktop_version: Probe::Failed(ProbeFailure::Unavailable),
                input_capture_version: Probe::Failed(ProbeFailure::Unavailable),
                global_shortcuts_version: Probe::Failed(ProbeFailure::Unavailable),
                permission_requested: false,
            },
            context,
            text_capabilities,
            replacement_blockers,
            elapsed_ms: 0,
        }
    }
}

/// Whether a GNOME Shell version string is reportable: at most 64 bytes of
/// ASCII letters, digits and `.-+_`.
pub open spec fn version_ok(v: Seq<char>) -> bool {
    v.len() <= 64 && forall|i: int| 0 <= i < v.len() ==> version_char(#[trigger] v[i])
}

pub open spec fn version_char(c: char) -> bool {
    ('a' <= c && c <= 'z') || ('A' <= c && c <= 'Z') || ('0' <= c && c <= '9') || c == '.' || c
        == '-' || c == '+' || c == '_'
}

/// Accepts a shell version only when it is a plain version string; anything
/// else is an invalid reply, so no arbitrary service text is reported.
pub fn shell_version(value: String) -> (r: Result<String, ProbeFailure>)
    ensures
        version_ok(value@) ==> r == Ok::<String, ProbeFailure>(value),
        !version_ok(value@) ==> r == Err::<String, ProbeFailure>(ProbeFailure::InvalidReply),
{
    let chars = crate::text::to_chars(value.as_str());
    if chars.len() > 64 {
        return Err(ProbeFailure::InvalidReply);
    }
    let mut i: usize = 0;
    while i < chars.len()
        invariant
            chars@ == value@,
            i <= chars@.len(),
            forall|j: int| 0 <= j < i ==> version_char(#[trigger] chars@[j]),
        decreases chars.len() - i,
    {
        let c = chars[i];
        if !(('a' <= c && c <= 'z') || ('A' <= c && c <= 'Z') || ('0' <= c && c <= '9') || c == '.' || c == '-'
            || c == '+' || c == '_') {
            assert(!version_char(chars@[i as int]));
            return Err(ProbeFailure::InvalidReply);
        }
        i += 1;
    }
    Ok(value)
}

} // verus!
