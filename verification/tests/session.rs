use typetune::context::{Blocker, Knowledge};
use typetune::session::bridge::{Observation, Snapshot, Tracker, WindowBackend};
use typetune::session::{
    failure, shell_version, BusError, Probe, ProbeFailure, SessionHint, SessionReport,
};
use typetune::time::Instant;

fn now() -> Instant {
    Instant::from_nanos(3_000_000_000)
}

#[test]
fn display_and_portal_advertisement_do_not_grant_native_text_access() {
    let mut report = SessionReport::empty(SessionHint::Wayland, true, now());
    report.portals.remote_desktop_version = Probe::Observed(2);
    report.gnome_screen_shield_active = Probe::Observed(false);
    assert!(report.xwayland_display_hint);
    assert_eq!(report.context.layout, Knowledge::Unknown);
    assert_eq!(report.context.unlocked, Knowledge::Unknown);
    assert!(report.replacement_blockers.contains(&Blocker::UnicodeUnavailable));
    assert!(report.replacement_blockers.contains(&Blocker::FocusUnknown));
}

#[test]
fn backend_hints_stay_separate() {
    assert_eq!(SessionHint::from_environment_value(Some("wayland")), SessionHint::Wayland);
    assert_eq!(SessionHint::from_environment_value(Some("x11")), SessionHint::X11);
    assert_eq!(SessionHint::from_environment_value(None), SessionHint::Unknown);
    assert!(!SessionReport::empty(SessionHint::X11, true, now()).xwayland_display_hint);
}

#[test]
fn access_denied_stays_a_failure() {
    let error = BusError::MethodError("org.freedesktop.DBus.Error.AccessDenied".into());
    assert_eq!(failure(&error), ProbeFailure::PermissionDenied);
    assert_eq!(
        failure(&BusError::MethodError("org.freedesktop.DBus.Error.ServiceUnknown".into())),
        ProbeFailure::Unavailable
    );
    assert_eq!(failure(&BusError::MethodError("org.example.Other".into())), ProbeFailure::Transport);
    assert_eq!(failure(&BusError::Variant), ProbeFailure::InvalidReply);
    assert_eq!(failure(&BusError::Other), ProbeFailure::Transport);
}

#[test]
fn shell_versions_are_plain_or_invalid() {
    assert_eq!(shell_version("46.2".into()), Ok("46.2".to_string()));
    assert_eq!(shell_version("46 beta".into()), Err(ProbeFailure::InvalidReply));
    assert_eq!(shell_version("1".repeat(65)), Err(ProbeFailure::InvalidReply));
}

fn sample() -> Snapshot {
    Snapshot {
        protocol: 1,
        instance: "11111111-1111-4111-8111-111111111111".into(),
        generation: 1,
        source_generation: 1,
        source_type: "xkb".into(),
        source_id: "us".into(),
        xkb_id: "us".into(),
        window: 1,
        window_backend: WindowBackend::Wayland,
        locked: false,
        shield_active: false,
        overview: false,
        user_session: true,
        external_source: false,
    }
}

fn observed(snapshot: Snapshot) -> Probe<Observation> {
    Probe::Observed(Observation { owner: ":1.5".into(), snapshot })
}

#[test]
fn strict_protocol_rejects_unknown_version_fields_and_oversized_data() {
    let good = "{\"protocol\":1}";
    assert!(Snapshot::from_reply(good, Some(sample())).is_ok());
    let mut s = sample();
    s.protocol = 2;
    assert!(Snapshot::from_reply(good, Some(s)).is_err());
    assert!(Snapshot::from_reply(good, None).is_err());
    assert!(Snapshot::from_reply(&" ".repeat(4097), Some(sample())).is_err());
}

#[test]
fn locked_or_external_snapshot_cannot_leak_source() {
    for field in 0..4 {
        let mut s = sample();
        match field {
            0 => s.locked = true,
            1 => s.shield_active = true,
            2 => s.overview = true,
            _ => s.external_source = true,
        }
        assert!(!s.valid());
    }
    let mut s = sample();
    s.locked = true;
    s.window = 0;
    s.window_backend = WindowBackend::Unknown;
    s.source_type.clear();
    s.source_id.clear();
    s.xkb_id.clear();
    assert!(s.valid());
}

#[test]
fn generation_and_instance_invalidate_even_if_window_returns() {
    let mut t = Tracker::default();
    t.update(observed(sample()));
    let first = t.epoch;
    let mut next = sample();
    next.generation = 3;
    t.update(observed(next.clone()));
    assert!(t.epoch > first);
    let before = t.epoch;
    next.instance = "22222222-2222-4222-8222-222222222222".into();
    next.generation = 1;
    assert!(matches!(t.update(observed(next)), Probe::Observed(_)));
    assert!(t.epoch > before);
}

#[test]
fn loss_and_inconsistent_replies_discard_previous_metadata() {
    let mut t = Tracker::default();
    t.update(observed(sample()));
    let mut inconsistent = sample();
    inconsistent.window = 2;
    assert!(matches!(t.update(observed(inconsistent)), Probe::Failed(ProbeFailure::InvalidReply)));
    assert!(t.last().is_none());
    t.update(observed(sample()));
    let before = t.epoch;
    t.update(Probe::Failed(ProbeFailure::Timeout));
    assert!(t.last().is_none());
    assert!(t.epoch > before);
}
