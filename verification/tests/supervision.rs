use typetune::settings::{compose_status, CompatFields, CompatReply, RuntimeStatus, SessionReply};
use typetune::status_view::{controls, detail_text, doctor_text, local_checks, title_text};
use typetune::supervision::{
    beat_due, lease_remaining, lease_step, parent_check, read_verdict, HelperAction, HelperError,
    HelperExit, HelperSupervisor, LeaseEvent, LeaseVerdict, ParentLeaseError, ParentRead,
};
use typetune::time::Instant;

fn ms(n: u64) -> Instant {
    Instant::from_nanos(10_000_000_000 + n * 1_000_000)
}

#[test]
fn lease_verdicts_on_pipe_bytes() {
    assert_eq!(read_verdict(&b"PPP".to_vec()), LeaseVerdict::Held);
    assert_eq!(read_verdict(&b"PPD".to_vec()), LeaseVerdict::Released);
    assert_eq!(read_verdict(&b"PXD".to_vec()), LeaseVerdict::Revoked);
    assert_eq!(read_verdict(&Vec::new()), LeaseVerdict::Revoked);
    assert_eq!(lease_step(ms(0), ms(500), &LeaseEvent::Input(b"P".to_vec())), (LeaseVerdict::Held, ms(500)));
    assert_eq!(lease_step(ms(0), ms(500), &LeaseEvent::Input(b"D".to_vec())), (LeaseVerdict::Released, ms(0)));
    assert_eq!(lease_step(ms(0), ms(500), &LeaseEvent::ParentGone), (LeaseVerdict::Released, ms(0)));
    assert_eq!(lease_step(ms(0), ms(500), &LeaseEvent::PollFailed), (LeaseVerdict::Revoked, ms(0)));
    assert_eq!(lease_step(ms(0), ms(1999), &LeaseEvent::Nothing), (LeaseVerdict::Held, ms(0)));
    assert_eq!(lease_step(ms(0), ms(2000), &LeaseEvent::Nothing), (LeaseVerdict::Revoked, ms(0)));
}

#[test]
fn lease_time_and_heartbeat_timing() {
    assert_eq!(lease_remaining(ms(0), ms(500)), 1_500_000_000);
    assert_eq!(lease_remaining(ms(0), ms(2500)), 0);
    assert_eq!(lease_remaining(ms(100), ms(0)), 2_000_000_000);
    assert!(!beat_due(ms(0), ms(99)));
    assert!(beat_due(ms(0), ms(100)));
}

#[test]
fn helper_becomes_ready_once() {
    let mut s = HelperSupervisor::new(ms(0));
    assert!(s.awaiting_ready);
    assert_eq!(s.poll(None, false, ms(0)), HelperAction::Proceed { terminate: false, beat: true });
    assert_eq!(s.read(&[], ms(10)), Ok(false));
    assert_eq!(s.poll(None, false, ms(50)), HelperAction::Proceed { terminate: false, beat: false });
    assert_eq!(s.read(b"R", ms(60)), Ok(true));
    assert!(!s.awaiting_ready);
    assert_eq!(s.read(b"R", ms(70)), Err(HelperError::BadReadiness));
}

#[test]
fn helper_readiness_protocol_errors() {
    let mut s = HelperSupervisor::new(ms(0));
    assert_eq!(s.read(b"RR", ms(1)), Err(HelperError::BadReadiness));
    let mut s = HelperSupervisor::new(ms(0));
    assert_eq!(s.read(&[], ms(3000)), Err(HelperError::StartupTimedOut));
    assert_eq!(HelperError::StartupTimedOut.message(), "input helper startup timed out");
    assert_eq!(HelperError::Exited("exit status: 3".into()).message(), "input helper exited: exit status: 3");
}

#[test]
fn helper_exit_and_shutdown() {
    let mut s = HelperSupervisor::new(ms(0));
    assert_eq!(
        s.poll(Some(HelperExit { success: true, status: "exit status: 0".into() }), false, ms(5)),
        HelperAction::Finish(Err(HelperError::ExitedBeforeReady))
    );
    assert_eq!(
        s.poll(Some(HelperExit { success: false, status: "signal: 9".into() }), false, ms(5)),
        HelperAction::Finish(Err(HelperError::Exited("signal: 9".into())))
    );
    s.read(b"R", ms(6)).unwrap();
    assert_eq!(
        s.poll(Some(HelperExit { success: true, status: "exit status: 0".into() }), false, ms(7)),
        HelperAction::Finish(Ok(()))
    );
    assert_eq!(s.poll(None, true, ms(100)), HelperAction::Proceed { terminate: true, beat: true });
    assert_eq!(s.poll(None, true, ms(150)), HelperAction::Proceed { terminate: false, beat: false });
    assert_eq!(s.poll(None, true, ms(2101)), HelperAction::KillAndFail);
}

fn fields() -> CompatFields {
    CompatFields {
        enabled: Some(true),
        automatic: None,
        available: Some(true),
        devices: Some(2),
        mode: Some("ru".into()),
        suggestion_count: None,
        last_result: Some("ok".into()),
        words_error: None,
        applications_error: None,
        automatic_blocked: Some("terminal".into()),
    }
}

#[test]
fn status_without_bus() {
    let s = compose_status(None);
    assert_eq!(s.raw, "Нет доступа к session bus");
    assert!(!s.running && !s.helper_ok && !s.session_ok);
}

#[test]
fn status_from_both_answers() {
    let s = compose_status(Some((
        SessionReply::Answered { json: true, source_id: Some("us".into()) },
        CompatReply::Answered { raw: "{}".into(), fields: Some(fields()) },
    )));
    assert!(s.session_ok && s.helper_ok && s.running && s.enabled && !s.automatic && s.available);
    assert_eq!(s.devices, 2);
    assert_eq!(s.flag, "us");
    assert_eq!(s.mode, "ru");
    assert_eq!(s.last_result, "ok");
    assert_eq!(s.automatic_blocked, "terminal");
    assert_eq!(s.words_error, "");
    assert_eq!(s.raw, "{}");
}

#[test]
fn status_flag_falls_back_to_the_runtime_mode() {
    let s = compose_status(Some((
        SessionReply::Failed,
        CompatReply::Answered { raw: "{}".into(), fields: Some(fields()) },
    )));
    assert!(!s.session_ok);
    assert_eq!(s.flag, "ru");
    let s = compose_status(Some((SessionReply::Unavailable, CompatReply::NotRunning)));
    assert_eq!(s.raw, "Runtime не запущен");
    assert_eq!(s.flag, "");
    let s = compose_status(Some((
        SessionReply::Answered { json: true, source_id: None },
        CompatReply::NoAnswer,
    )));
    assert_eq!(s.raw, "Runtime не отвечает");
    assert_eq!(s.flag, "?");
    let s = compose_status(Some((
        SessionReply::Answered { json: false, source_id: None },
        CompatReply::Answered { raw: "not json".into(), fields: None },
    )));
    assert!(s.session_ok && s.helper_ok && !s.running);
    assert_eq!(s.flag, "");
    assert_eq!(s.raw, "not json");
}

#[test]
fn parent_lease_checks() {
    assert_eq!(parent_check(ms(0), ParentRead::Bytes(b"PP".to_vec()), ms(10)), Ok(ms(10)));
    assert_eq!(parent_check(ms(0), ParentRead::Bytes(b"PX".to_vec()), ms(10)), Err(ParentLeaseError::BadMessage));
    assert_eq!(parent_check(ms(0), ParentRead::Closed, ms(10)), Err(ParentLeaseError::Closed));
    assert_eq!(parent_check(ms(0), ParentRead::Nothing, ms(1999)), Ok(ms(0)));
    assert_eq!(parent_check(ms(0), ParentRead::Nothing, ms(2000)), Err(ParentLeaseError::Expired));
    assert_eq!(
        parent_check(ms(0), ParentRead::Failed("EBADF".into()), ms(1)).unwrap_err().message(),
        "parent pipe error: EBADF"
    );
}

#[test]
fn front_end_title_details_and_controls() {
    let mut s = RuntimeStatus::default();
    assert_eq!(title_text(&s), "?  Нужны разрешения…");
    assert_eq!(detail_text(&s), "Режим совместимости");
    assert_eq!(controls(&s), (false, true, false));
    s.helper_ok = true;
    s.flag = "ru".into();
    assert_eq!(title_text(&s), "🇷🇺  На паузе");
    s.enabled = true;
    s.available = true;
    s.flag = "us".into();
    assert_eq!(title_text(&s), "🇺🇸  Работает");
    s.available = false;
    assert_eq!(title_text(&s), "🇺🇸  Ожидает подходящее поле");
    assert_eq!(controls(&s), (true, false, true));
    s.words_error = "words: bad".into();
    s.automatic = true;
    s.automatic_blocked = "excluded-application".into();
    assert_eq!(
        detail_text(&s),
        "Режим совместимости\nНет доступа к /dev/input — откройте «Настроить доступ».\nwords: bad\nАвтокоррекция выключена для этого приложения. Double Shift доступен."
    );
}

#[test]
fn front_end_doctor_report() {
    let checks = local_checks(true, false, true);
    assert_eq!(checks[1].note, "модуль uinput не загружен");
    let mut s = RuntimeStatus::default();
    assert_eq!(
        doctor_text(&s, &checks),
        "Клавиатуры /dev/input — OK\n    доступны\nuinput — внимание\n    модуль uinput не загружен\nHelper ввода — OK\n    установлен\nGNOME Session1 — не отвечает (перелогин после установки?)\nCompat runtime — не запущен"
    );
    s.helper_ok = true;
    s.session_ok = true;
    s.last_result = "applied".into();
    s.devices = -3;
    assert_eq!(
        doctor_text(&s, &Vec::new()),
        "GNOME Session1 — доступен\nCompat runtime — доступен\nПоследний результат — applied\nУстройств — -3"
    );
}
