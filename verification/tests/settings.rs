use typetune::chatter::ChatterStats;
use typetune::config::{
    validate_relay_config, ChatterConfig, Config, CorrectorConfig, GeneralConfig, InputConfig,
    SnippetsConfig, TypographyConfig,
};
use typetune::settings::{flag_of, DaemonInterface, Settings, MAX_SETTINGS_BYTES, POLICY_CONFLICT};
use typetune::tray::{pid_from_text, TypeTuneTray};

fn config() -> Config {
    Config {
        general: GeneralConfig { log_level: "info".into(), pid_file: "/tmp/typetune.pid".into() },
        input: InputConfig { discovery: "auto".into(), device_paths: vec![], exclude_names: vec![] },
        corrector: CorrectorConfig {
            enabled: true,
            min_word_length: 2,
            layouts: vec!["us".into(), "ru".into()],
            dict_dir: "dict".into(),
            exclude_classes: vec![],
            exclude_titles: vec![],
            double_shift_corrects: true,
            double_shift_window_ms: 400,
        },
        chatter: ChatterConfig { enabled: true, debounce_ms: 50, modifier_debounce_ms: 30 },
        snippets: SnippetsConfig {
            enabled: true,
            trigger_prefix: ";".into(),
            word_separators: vec![],
            entries: vec![],
        },
        typography: TypographyConfig { enabled: false, smart_quotes: false, em_dash: false },
    }
}

#[test]
fn unavailable_features_fail_before_device_access() {
    let cfg = config();
    let reason = validate_relay_config(&cfg).unwrap_err();
    assert!(reason.contains("corrector"));
    assert!(reason.contains("snippets"));
    assert!(reason.contains("chatter"));
}

#[test]
fn relay_requires_explicit_device_selection() {
    let mut cfg = config();
    cfg.corrector.enabled = false;
    cfg.snippets.enabled = false;
    cfg.chatter.enabled = false;
    assert!(validate_relay_config(&cfg).is_err());
    cfg.input.discovery = "manual".into();
    cfg.input.device_paths = vec!["/synthetic/test-device".into()];
    assert!(validate_relay_config(&cfg).is_ok());
}

#[test]
fn relay_config_messages_are_exact() {
    let mut cfg = config();
    cfg.typography.enabled = true;
    assert_eq!(
        validate_relay_config(&cfg).unwrap_err(),
        "unavailable backends: chatter, corrector, snippets, typography. Only physical relay is currently supported; explicitly disable these features to test it"
    );
    cfg.chatter.enabled = false;
    cfg.corrector.enabled = false;
    cfg.snippets.enabled = false;
    cfg.typography.enabled = false;
    cfg.input.discovery = "manual".into();
    assert_eq!(
        validate_relay_config(&cfg).unwrap_err(),
        "physical relay requires input.discovery=manual and explicit device_paths; automatic grab is disabled"
    );
}

#[test]
fn default_is_valid_v2() {
    let s = Settings::default();
    assert_eq!(s.version, 2);
    assert!(s.automatic);
    assert!(s.manual_switching);
    assert!(!s.dont_switch_words);
}

#[test]
fn mutex_helpers() {
    let mut s = Settings::default();
    s.toggling_dont_switch_words(true);
    assert!(s.dont_switch_words);
    assert!(!s.switch_only_last_word);
    s.toggling_switch_only_last_word(true);
    assert!(s.switch_only_last_word);
    assert!(!s.dont_switch_words);
}

#[test]
fn toggling_off_leaves_the_other_policy() {
    let mut s = Settings::default();
    s.toggling_switch_only_last_word(false);
    assert!(!s.switch_only_last_word);
    assert!(!s.dont_switch_words);
    s.toggling_dont_switch_words(false);
    assert!(!s.dont_switch_words);
}

#[test]
fn save_refuses_conflicting_policies() {
    let mut s = Settings::default();
    s.switch_only_last_word = true;
    s.dont_switch_words = true;
    assert_eq!(s.save(5).unwrap_err(), POLICY_CONFLICT);
    assert_eq!(s.generation, "0");
}

#[test]
fn save_stamps_a_new_generation() {
    let mut s = Settings::default();
    s.version = 1;
    s.automatic = false;
    s.save(0x1234_abcd).unwrap();
    assert_eq!(s.version, 2);
    assert_eq!(s.generation, "000000001234abcd");
    assert!(!s.automatic);
    s.save(u128::MAX).unwrap();
    assert_eq!(s.generation, "f".repeat(32));
}

#[test]
fn stored_settings_are_normalised() {
    let mut stored = Settings::default();
    stored.version = 7;
    stored.mode = "fast".into();
    stored.automatic = false;
    let s = Settings::load(100, Some(stored.clone()));
    assert_eq!(s.version, 2);
    assert_eq!(s.mode, "compatibility");
    assert!(!s.automatic);
    let too_big = Settings::load(MAX_SETTINGS_BYTES + 1, Some(stored));
    assert!(too_big.automatic);
    let undecodable = Settings::load(10, None);
    assert_eq!(undecodable.generation, "0");
}

#[test]
fn layout_flags() {
    assert_eq!(flag_of("us"), "us");
    assert_eq!(flag_of("en"), "us");
    assert_eq!(flag_of("ru"), "ru");
    assert_eq!(flag_of("de"), "?");
}

#[test]
fn status_and_reload_do_not_claim_unavailable_features() {
    let interface = DaemonInterface { enabled: true, stats: ChatterStats::default() };
    assert_eq!(interface.get_status(), (true, vec!["physical-relay".into()]));
    let error = interface.reload_config().unwrap_err().to_string();
    assert!(error.contains("restart-required"));
    assert!(interface.set_enabled(false).is_err());
    assert!(interface.get_status().0);
    assert_eq!(interface.get_stats(), (0, 0));
}

#[test]
fn tray_labels_follow_the_state() {
    let mut tray = TypeTuneTray { config: config(), enabled: true };
    assert_eq!(tray.id(), "typetune");
    assert_eq!(tray.title(), "TypeTune");
    assert_eq!(tray.icon_name(), "input-keyboard");
    assert_eq!(tray.menu_labels(), vec!["TypeTune: enabled", "Disable", "Reload config", "Exit"]);
    assert!(!tray.toggle());
    assert_eq!(tray.icon_name(), "input-keyboard-disabled");
    assert_eq!(tray.status_label(), "TypeTune: disabled");
    assert_eq!(tray.toggle_label(), "Enable");
    assert!(tray.toggle());
}

#[test]
fn pid_files_parse_like_i32() {
    assert_eq!(pid_from_text(" 1234\n"), Some(1234));
    assert_eq!(pid_from_text("-5"), Some(-5));
    assert_eq!(pid_from_text("+7"), Some(7));
    assert_eq!(pid_from_text("2147483647"), Some(i32::MAX));
    assert_eq!(pid_from_text("-2147483648"), Some(i32::MIN));
    assert_eq!(pid_from_text("2147483648"), None);
    assert_eq!(pid_from_text("-2147483649"), None);
    assert_eq!(pid_from_text("99999999999999999999"), None);
    assert_eq!(pid_from_text(""), None);
    assert_eq!(pid_from_text("-"), None);
    assert_eq!(pid_from_text("+"), None);
    assert_eq!(pid_from_text("12a"), None);
    assert_eq!(pid_from_text("1 2"), None);
    for text in ["0", "42", "-17", "+3", "007", "x", "", "--1", "2147483648"] {
        assert_eq!(pid_from_text(text), text.parse::<i32>().ok(), "{}", text);
    }
}
