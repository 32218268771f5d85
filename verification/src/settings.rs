//! User settings of the desktop front end (schema version 2), the layout flag
//! and the daemon's status interface. Files and the bus are the host's part.
use crate::chatter::ChatterStats;
use crate::text::{push_char, str_eq};
use vstd::prelude::*;

verus! {

#[derive(Debug, Clone)]
pub struct Settings {
    pub version: u32,
    /// An optimistic acknowledgement token: a new one on every save.
    pub generation: String,
    pub mode: String,
    pub automatic: bool,
    pub manual_switching: bool,
    pub switch_only_last_word: bool,
    pub dont_switch_words: bool,
    pub dont_correct_after_layout_change: bool,
    pub display_layout_flag: bool,
    pub play_switching_sound: bool,
    pub autostart: bool,
    pub learn_threshold: i32,
    pub active_keyboards: Vec<String>,
}

/// The two word policies may not both be on.
pub open spec fn policies_exclusive(s: Settings) -> bool {
    !(s.switch_only_last_word && s.dont_switch_words)
}

pub open spec fn is_default(s: Settings) -> bool {
    &&& s.version == 2
    &&& s.generation@ == "0"@
    &&& s.mode@ == "compatibility"@
    &&& s.automatic
    &&& s.manual_switching
    &&& s.switch_only_last_word
    &&& !s.dont_switch_words
    &&& s.dont_correct_after_layout_change
    &&& s.display_layout_flag
    &&& !s.play_switching_sound
    &&& !s.autostart
    &&& s.learn_threshold == 3
    &&& s.active_keyboards@.len() == 2
    &&& s.active_keyboards@[0]@ == "us"@
    &&& s.active_keyboards@[1]@ == "ru"@
}

impl Default for Settings {
    fn default() -> (s: Settings)
        ensures
            is_default(s),
    {
        let mut boards: Vec<String> = Vec::new();
        boards.push(String::from_str("us"));
        boards.push(String::from_str("ru"));
        Settings {
            version: 2,
            generation: String::from_str("0"),
            mode: String::from_str("compatibility"),
            automatic: true,
            manual_switching: true,
            switch_only_last_word: true,
            dont_switch_words: false,
            dont_correct_after_layout_change: true,
            display_layout_flag: true,
            play_switching_sound: false,
            autostart: false,
            learn_threshold: 3,
            active_keyboards: boards,
        }
    }
}

/// Largest settings file that is read, in bytes.
pub const MAX_SETTINGS_BYTES: usize = 4096;

/// The message when both word policies are on.
pub const POLICY_CONFLICT: &'static str = "Нельзя одновременно: «Переключать только последнее слово» и «Не переключать слова»";

/// Hex digits of `n`, most significant first, without leading zeros.
pub open spec fn hex(n: nat) -> Seq<char>
    decreases n,
{
    if n < 16 {
        seq![hex_digit(n)]
    } else {
        hex(n / 16).push(hex_digit(n % 16))
    }
}

pub open spec fn hex_digit(d: nat) -> char {
    if d < 10 {
        crate::text::digit_char(d)
    } else if d == 10 {
        'a'
    } else if d == 11 {
        'b'
    } else if d == 12 {
        'c'
    } else if d == 13 {
        'd'
    } else if d == 14 {
        'e'
    } else {
        'f'
    }
}

/// `n` in lowercase hex, zero-padded to 16 digits.
pub open spec fn hex16(n: nat) -> Seq<char> {
    let h = hex(n);
    if h.len() >= 16 {
        h
    } else {
        Seq::new((16 - h.len()) as nat, |i: int| '0') + h
    }
}

proof fn lemma_hex_len(n: nat)
    ensures
        hex(n).len() >= 1,
    decreases n,
{
    if n >= 16 {
        lemma_hex_len(n / 16);
    }
}

fn hex_char(d: u128) -> (c: char)
    requires
        d < 16,
    ensures
        c == hex_digit(d as nat),
{
    if d == 0 { '0' } else if d == 1 { '1' } else if d == 2 { '2' } else if d == 3 { '3' }
    else if d == 4 { '4' } else if d == 5 { '5' } else if d == 6 { '6' } else if d == 7 { '7' }
    else if d == 8 { '8' } else if d == 9 { '9' } else if d == 10 { 'a' } else if d == 11 { 'b' }
    else if d == 12 { 'c' } else if d == 13 { 'd' } else if d == 14 { 'e' } else { 'f' }
}

fn push_hex(s: &mut String, n: u128)
    ensures
        final(s)@ == old(s)@ + hex(n as nat),
    decreases n,
{
    if n >= 16 {
        push_hex(s, n / 16);
    }
    push_char(s, hex_char(n % 16));
    proof {
        if n < 16 {
            assert(n % 16 == n);
        }
    }
}

/// `n` in lowercase hex, zero-padded to 16 digits.
pub fn hex16_string(n: u128) -> (s: String)
    ensures
        s@ == hex16(n as nat),
{
    let mut digits = String::new();
    push_hex(&mut digits, n);
    proof {
        lemma_hex_len(n as nat);
        assert(digits@ =~= hex(n as nat));
    }
    let len = digits.as_str().unicode_len();
    let mut s = String::new();
    let mut i: usize = len;
    while i < 16
        invariant
            len <= i <= 16 || i >= 16 && i == len,
            len == hex(n as nat).len(),
            s@ == Seq::new((i - len) as nat, |k: int| '0'),
        decreases 16 - i,
    {
        let ghost before = s@;
        push_char(&mut s, '0');
        assert(s@ =~= Seq::new((i + 1 - len) as nat, |k: int| '0'));
        i += 1;
    }
    s.append(digits.as_str());
    proof {
        if len >= 16 {
            assert(s@ =~= hex(n as nat));
        } else {
            assert(s@ =~= Seq::new((16 - len) as nat, |k: int| '0') + hex(n as nat));
        }
    }
    s
}

impl Settings {
    /// Settings both of whose word policies are on are refused: the program
    /// stops on them.
    pub fn validate(&self)
        requires
            policies_exclusive(*self),
    {
    }

    /// The settings a stored file gives, from its length in bytes and what
    /// decoding made of it (the host reads and decodes the file): a file
    /// longer than 4096 bytes or one that did not decode (`None`) gives the
    /// defaults; decoded settings get schema version 2 and the compatibility
    /// mode.
    pub fn load(len: usize, decoded: Option<Settings>) -> (s: Settings)
        requires
            len <= MAX_SETTINGS_BYTES && decoded is Some ==> policies_exclusive(decoded->Some_0),
        ensures
            len > MAX_SETTINGS_BYTES || decoded is None ==> is_default(s),
            len <= MAX_SETTINGS_BYTES && decoded is Some ==> s == (Settings {
                version: 2,
                mode: s.mode,
                ..decoded->Some_0
            }) && s.mode@ == "compatibility"@,
    {
        if len > MAX_SETTINGS_BYTES {
            return Settings::default();
        }
        match decoded {
            Some(value) => {
                let mut value = value;
                value.version = 2;
                value.mode = String::from_str("compatibility");
                value.validate();
                value
            },
            None => Settings::default(),
        }
    }

    /// Readies the settings for writing (the host then writes them): refused
    /// while both word policies are on; otherwise schema version 2 and a
    /// fresh generation, the time `nanos` in hex.
    pub fn save(&mut self, nanos: u128) -> (r: Result<(), String>)
        ensures
            !policies_exclusive(*old(self)) ==> (r matches Err(e) && e@ == POLICY_CONFLICT@
                && *final(self) == *old(self)),
            policies_exclusive(*old(self)) ==> (r is Ok && *final(self) == (Settings {
                version: 2,
                generation: final(self).generation,
                ..*old(self)
            }) && final(self).generation@ == hex16(nanos as nat)),
    {
        if self.switch_only_last_word && self.dont_switch_words {
            return Err(String::from_str(POLICY_CONFLICT));
        }
        self.version = 2;
        self.generation = hex16_string(nanos);
        Ok(())
    }

    /// Turning one word policy on turns the other off.
    pub fn toggling_switch_only_last_word(&mut self, on: bool)
        ensures
            *final(self) == (Settings {
                switch_only_last_word: on,
                dont_switch_words: if on { false } else { old(self).dont_switch_words },
                ..*old(self)
            }),
    {
        self.switch_only_last_word = on;
        if on {
            self.dont_switch_words = false;
        }
    }

    /// Turning one word policy on turns the other off.
    pub fn toggling_dont_switch_words(&mut self, on: bool)
        ensures
            *final(self) == (Settings {
                dont_switch_words: on,
                switch_only_last_word: if on { false } else { old(self).switch_only_last_word },
                ..*old(self)
            }),
    {
        self.dont_switch_words = on;
        if on {
            self.switch_only_last_word = false;
        }
    }
}

/// After either toggle the two word policies are never both on, whatever
/// they were before.
pub proof fn law_toggles_keep_policies_exclusive(s: Settings, on: bool)
    ensures
        policies_exclusive(Settings {
            switch_only_last_word: on,
            dont_switch_words: if on { false } else { s.dont_switch_words },
            ..s
        }),
        policies_exclusive(Settings {
            dont_switch_words: on,
            switch_only_last_word: if on { false } else { s.switch_only_last_word },
            ..s
        }),
{
}

/// The layout flag for a GNOME input source id.
pub fn flag_of(source_id: &str) -> (f: String)
    ensures
        f@ == if source_id@ == "us"@ || source_id@ == "en"@ {
            "us"@
        } else if source_id@ == "ru"@ {
            "ru"@
        } else {
            "?"@
        },
{
    if str_eq(source_id, "us") || str_eq(source_id, "en") {
        String::from_str("us")
    } else if str_eq(source_id, "ru") {
        String::from_str("ru")
    } else {
        String::from_str("?")
    }
}

/// What the desktop front end shows of the compatibility runtime and the
/// session bridge.
#[derive(Debug, Clone, Default)]
pub struct RuntimeStatus {
    pub running: bool,
    pub enabled: bool,
    pub automatic: bool,
    pub available: bool,
    pub devices: i64,
    pub mode: String,
    pub suggestion_count: i64,
    pub last_result: String,
    pub words_error: String,
    pub applications_error: String,
    pub automatic_blocked: String,
    pub flag: String,
    pub helper_ok: bool,
    pub session_ok: bool,
    pub raw: String,
}

/// The session bridge's answer to a snapshot request.
pub enum SessionReply {
    /// The bridge is not on the bus.
    Unavailable,
    /// The call failed.
    Failed,
    /// The bridge answered; `source_id` is the answer's input source, and
    /// `json` whether the answer was JSON at all.
    Answered { json: bool, source_id: Option<String> },
}

/// The fields of the runtime's JSON status that the front end shows; a field
/// that is missing or of another type is `None`.
pub struct CompatFields {
    pub enabled: Option<bool>,
    pub automatic: Option<bool>,
    pub available: Option<bool>,
    pub devices: Option<i64>,
    pub mode: Option<String>,
    pub suggestion_count: Option<i64>,
    pub last_result: Option<String>,
    pub words_error: Option<String>,
    pub applications_error: Option<String>,
    pub automatic_blocked: Option<String>,
}

/// The compatibility runtime's answer to a status request.
pub enum CompatReply {
    /// The runtime is not on the bus.
    NotRunning,
    /// The call failed.
    NoAnswer,
    /// The runtime answered `raw`; `fields` is `None` when it is not JSON.
    Answered { raw: String, fields: Option<CompatFields> },
}

pub open spec fn text_or_empty(o: Option<String>) -> Seq<char> {
    match o {
        Some(s) => s@,
        Option::None => Seq::empty(),
    }
}

pub open spec fn flag_spec(source_id: Seq<char>) -> Seq<char> {
    if source_id == "us"@ || source_id == "en"@ {
        "us"@
    } else if source_id == "ru"@ {
        "ru"@
    } else {
        "?"@
    }
}

/// The flag after the session bridge's answer.
pub open spec fn session_flag(session: SessionReply) -> Seq<char> {
    match session {
        SessionReply::Unavailable => Seq::empty(),
        SessionReply::Failed => "?"@,
        SessionReply::Answered { json, source_id } => if json {
            flag_spec(text_or_empty(source_id))
        } else {
            Seq::empty()
        },
    }
}

fn take_text(o: Option<String>) -> (s: String)
    ensures
        s@ == text_or_empty(o),
{
    match o {
        Some(s) => s,
        None => String::new(),
    }
}

fn opt_bool(o: Option<bool>) -> (b: bool)
    ensures
        b == match o {
            Some(v) => v,
            Option::None => false,
        },
{
    match o {
        Some(v) => v,
        None => false,
    }
}

fn opt_int(o: Option<i64>) -> (n: i64)
    ensures
        n == match o {
            Some(v) => v,
            Option::None => 0,
        },
{
    match o {
        Some(v) => v,
        None => 0,
    }
}

/// The status the front end shows after asking the session bridge and the
/// runtime over the bus; `None` when the session bus could not be reached.
pub fn compose_status(replies: Option<(SessionReply, CompatReply)>) -> (s: RuntimeStatus)
    ensures
        replies is None ==> {
            &&& s.raw@ == "Нет доступа к session bus"@
            &&& !s.running && !s.enabled && !s.automatic && !s.available && !s.helper_ok && !s.session_ok
            &&& s.devices == 0 && s.suggestion_count == 0
            &&& s.mode@.len() == 0 && s.flag@.len() == 0 && s.last_result@.len() == 0
            &&& s.words_error@.len() == 0 && s.applications_error@.len() == 0 && s.automatic_blocked@.len() == 0
        },
        replies matches Some((session, compat)) ==> {
            &&& s.session_ok == (session is Answered)
            &&& match compat {
                CompatReply::NotRunning => {
                    &&& s.raw@ == "Runtime не запущен"@
                    &&& !s.helper_ok && !s.running && s.flag@ == session_flag(session)
                },
                CompatReply::NoAnswer => {
                    &&& s.raw@ == "Runtime не отвечает"@
                    &&& !s.helper_ok && !s.running && s.flag@ == session_flag(session)
                },
                CompatReply::Answered { raw, fields } => {
                    &&& s.helper_ok
                    &&& s.raw@ == raw@
                    &&& match fields {
                        Option::None => !s.running && s.flag@ == session_flag(session) && s.mode@.len() == 0,
                        Some(f) => {
                            &&& s.running
                            &&& s.enabled == (f.enabled == Some(true))
                            &&& s.automatic == (f.automatic == Some(true))
                            &&& s.available == (f.available == Some(true))
                            &&& s.devices == (match f.devices { Some(n) => n, Option::None => 0 })
                            &&& s.suggestion_count == (match f.suggestion_count { Some(n) => n, Option::None => 0 })
                            &&& s.mode@ == text_or_empty(f.mode)
                            &&& s.last_result@ == text_or_empty(f.last_result)
                            &&& s.words_error@ == text_or_empty(f.words_error)
                            &&& s.applications_error@ == text_or_empty(f.applications_error)
                            &&& s.automatic_blocked@ == text_or_empty(f.automatic_blocked)
                            &&& s.flag@ == if session_flag(session).len() == 0 || session_flag(session) == "?"@ {
                                flag_spec(text_or_empty(f.mode))
                            } else {
                                session_flag(session)
                            }
                        },
                    }
                },
            }
        },
{
    let mut status = RuntimeStatus {
        running: false,
        enabled: false,
        automatic: false,
        available: false,
        devices: 0,
        mode: String::new(),
        suggestion_count: 0,
        last_result: String::new(),
        words_error: String::new(),
        applications_error: String::new(),
        automatic_blocked: String::new(),
        flag: String::new(),
        helper_ok: false,
        session_ok: false,
        raw: String::new(),
    };
    let (session, compat) = match replies {
        None => {
            status.raw = String::from_str("Нет доступа к session bus");
            return status;
        },
        Some(pair) => pair,
    };
    let ghost session_view = session;
    match session {
        SessionReply::Unavailable => {},
        SessionReply::Failed => {
            status.flag = String::from_str("?");
        },
        SessionReply::Answered { json, source_id } => {
            status.session_ok = true;
            if json {
                let id = take_text(source_id);
                status.flag = flag_of(id.as_str());
            }
        },
    }
    assert(status.flag@ == session_flag(session_view));
    match compat {
        CompatReply::NotRunning => {
            status.raw = String::from_str("Runtime не запущен");
        },
        CompatReply::NoAnswer => {
            status.raw = String::from_str("Runtime не отвечает");
        },
        CompatReply::Answered { raw, fields } => {
            status.helper_ok = true;
            status.raw = raw;
            match fields {
                None => {},
                Some(f) => {
                    status.running = true;
                    status.enabled = opt_bool(f.enabled);
                    status.automatic = opt_bool(f.automatic);
                    status.available = opt_bool(f.available);
                    status.devices = opt_int(f.devices);
                    status.mode = take_text(f.mode);
                    proof {
                        reveal_strlit("");
                    }
                    let ghost before = status.flag@;
                    assert(before.len() == 0 ==> before =~= ""@);
                    if str_eq(status.flag.as_str(), "") || str_eq(status.flag.as_str(), "?") {
                        status.flag = flag_of(status.mode.as_str());
                    }
                    status.suggestion_count = opt_int(f.suggestion_count);
                    status.last_result = take_text(f.last_result);
                    status.words_error = take_text(f.words_error);
                    status.applications_error = take_text(f.applications_error);
                    status.automatic_blocked = take_text(f.automatic_blocked);
                },
            }
        },
    }
    status
}

/// The daemon's bus interface: status and counters only; nothing optional
/// can be paused or reloaded live.
pub struct DaemonInterface {
    pub enabled: bool,
    pub stats: ChatterStats,
}

impl DaemonInterface {
    pub fn get_status(&self) -> (r: (bool, Vec<String>))
        ensures
            r.0 == self.enabled,
            r.1@.len() == 1,
            r.1@[0]@ == "physical-relay"@,
    {
        let mut features: Vec<String> = Vec::new();
        features.push(String::from_str("physical-relay"));
        (self.enabled, features)
    }

    pub fn set_enabled(&self, enabled: bool) -> (r: Result<(), String>)
        ensures
            r matches Err(e) && e@ == "physical relay has no optional processing to pause; stop the daemon to detach"@,
    {
        Err(String::from_str("physical relay has no optional processing to pause; stop the daemon to detach"))
    }

    pub fn get_stats(&self) -> (r: (u64, u64))
        ensures
            r == (self.stats.total_events, self.stats.suppressed_events),
    {
        (self.stats.total_events, self.stats.suppressed_events)
    }

    pub fn reload_config(&self) -> (r: Result<(), String>)
        ensures
            r matches Err(e) && e@ == "restart-required: physical relay configuration cannot be applied live"@,
    {
        Err(String::from_str("restart-required: physical relay configuration cannot be applied live"))
    }
}

} // verus!
