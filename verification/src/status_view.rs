//! What the desktop front end shows of a `RuntimeStatus`: the title, the
//! detail lines, which buttons work, and the diagnostics report. Drawing the
//! widgets and probing the files behind the local checks are the host's part.
use crate::settings::RuntimeStatus;
use crate::text::{decimal, push_decimal, str_eq};
use vstd::prelude::*;

verus! {

/// The layout flag as shown.
pub open spec fn flag_glyph(flag: Seq<char>) -> Seq<char> {
    if flag == "us"@ {
        "🇺🇸"@
    } else if flag == "ru"@ {
        "🇷🇺"@
    } else {
        "?"@
    }
}

/// The state word of the title.
pub open spec fn head_text(s: RuntimeStatus) -> Seq<char> {
    if !s.helper_ok {
        "Нужны разрешения…"@
    } else if !s.enabled {
        "На паузе"@
    } else if s.available {
        "Работает"@
    } else {
        "Ожидает подходящее поле"@
    }
}

/// Lines joined with `\n`.
pub open spec fn join_lines(lines: Seq<Seq<char>>) -> Seq<char>
    decreases lines.len(),
{
    if lines.len() == 0 {
        Seq::empty()
    } else if lines.len() == 1 {
        lines[0]
    } else {
        join_lines(lines.drop_last()) + "\n"@ + lines.last()
    }
}

pub open spec fn line_if(cond: bool, line: Seq<char>) -> Seq<Seq<char>> {
    if cond {
        seq![line]
    } else {
        Seq::empty()
    }
}

/// The detail lines: the mode, then what needs the user's attention.
pub open spec fn detail_lines(s: RuntimeStatus) -> Seq<Seq<char>> {
    seq!["Режим совместимости"@] + line_if(
        s.helper_ok && s.devices == 0,
        "Нет доступа к /dev/input — откройте «Настроить доступ»."@,
    ) + line_if(s.words_error@.len() > 0, s.words_error@) + line_if(
        s.applications_error@.len() > 0,
        s.applications_error@,
    ) + line_if(
        s.automatic && s.automatic_blocked@ == "excluded-application"@,
        "Автокоррекция выключена для этого приложения. Double Shift доступен."@,
    )
}

/// A signed integer in decimal.
pub open spec fn signed_decimal(n: int) -> Seq<char> {
    if n < 0 {
        "-"@ + decimal((-n) as nat)
    } else {
        decimal(n as nat)
    }
}

/// One local check: its name, whether it passed, and a note.
pub struct LocalCheck {
    pub name: String,
    pub ok: bool,
    pub note: String,
}

pub open spec fn check_lines(checks: Seq<LocalCheck>) -> Seq<Seq<char>>
    decreases checks.len(),
{
    if checks.len() == 0 {
        Seq::empty()
    } else {
        let c = checks.last();
        check_lines(checks.drop_last()) + seq![
            c.name@ + " — "@ + if c.ok {
                "OK"@
            } else {
                "внимание"@
            },
            "    "@ + c.note@,
        ]
    }
}

/// The diagnostics report: the local checks, then the bus services, then,
/// while the runtime answers, its last result and device count.
pub open spec fn doctor_lines(s: RuntimeStatus, checks: Seq<LocalCheck>) -> Seq<Seq<char>> {
    check_lines(checks) + seq![
        "GNOME Session1 — "@ + if s.session_ok {
            "доступен"@
        } else {
            "не отвечает (перелогин после установки?)"@
        },
        "Compat runtime — "@ + if s.helper_ok {
            "доступен"@
        } else {
            "не запущен"@
        },
    ] + if s.helper_ok {
        seq!["Последний результат — "@ + s.last_result@, "Устройств — "@ + signed_decimal(s.devices as int)]
    } else {
        Seq::empty()
    }
}

/// The local checks from what the host found: readable keyboards under
/// `/dev/input`, the uinput device, and the installed input helper.
pub open spec fn local_checks_spec(input_ok: bool, uinput_ok: bool, helper_ok: bool) -> Seq<(Seq<char>, bool, Seq<char>)> {
    seq![
        ("Клавиатуры /dev/input"@, input_ok, if input_ok {
            "доступны"@
        } else {
            "нет доступа — откройте «Настроить доступ»"@
        }),
        ("uinput"@, uinput_ok, if uinput_ok {
            "модуль загружен"@
        } else {
            "модуль uinput не загружен"@
        }),
        ("Helper ввода"@, helper_ok, if helper_ok {
            "установлен"@
        } else {
            "не найден"@
        }),
    ]
}

pub fn local_checks(input_ok: bool, uinput_ok: bool, helper_ok: bool) -> (r: Vec<LocalCheck>)
    ensures
        r@.len() == 3,
        forall|i: int|
            0 <= i < 3 ==> {
                &&& (#[trigger] r@[i]).name@ == local_checks_spec(input_ok, uinput_ok, helper_ok)[i].0
                &&& r@[i].ok == local_checks_spec(input_ok, uinput_ok, helper_ok)[i].1
                &&& r@[i].note@ == local_checks_spec(input_ok, uinput_ok, helper_ok)[i].2
            },
{
    let mut r: Vec<LocalCheck> = Vec::new();
    r.push(LocalCheck {
        name: String::from_str("Клавиатуры /dev/input"),
        ok: input_ok,
        note: if input_ok {
            String::from_str("доступны")
        } else {
            String::from_str("нет доступа — откройте «Настроить доступ»")
        },
    });
    r.push(LocalCheck {
        name: String::from_str("uinput"),
        ok: uinput_ok,
        note: if uinput_ok {
            String::from_str("модуль загружен")
        } else {
            String::from_str("модуль uinput не загружен")
        },
    });
    r.push(LocalCheck {
        name: String::from_str("Helper ввода"),
        ok: helper_ok,
        note: if helper_ok {
            String::from_str("установлен")
        } else {
            String::from_str("не найден")
        },
    });
    r
}

/// The window title: the flag, two spaces, the state word.
pub fn title_text(status: &RuntimeStatus) -> (t: String)
    ensures
        t@ == flag_glyph(status.flag@) + "  "@ + head_text(*status),
{
    let mut t = if str_eq(status.flag.as_str(), "us") {
        String::from_str("🇺🇸")
    } else if str_eq(status.flag.as_str(), "ru") {
        String::from_str("🇷🇺")
    } else {
        String::from_str("?")
    };
    t.append("  ");
    let head = if !status.helper_ok {
        "Нужны разрешения…"
    } else if !status.enabled {
        "На паузе"
    } else if status.available {
        "Работает"
    } else {
        "Ожидает подходящее поле"
    };
    t.append(head);
    t
}

/// Which buttons work: pause, start, stop.
pub fn controls(status: &RuntimeStatus) -> (r: (bool, bool, bool))
    ensures
        r == (status.helper_ok && status.enabled, !status.helper_ok || !status.enabled, status.helper_ok),
{
    (status.helper_ok && status.enabled, !status.helper_ok || !status.enabled, status.helper_ok)
}

/// Appends `line` to the text of `lines`, after a `\n` unless it is the first.
fn push_line(text: &mut String, count: &mut usize, line: &str, lines: Ghost<Seq<Seq<char>>>)
    requires
        old(text)@ == join_lines(lines@),
        *old(count) == lines@.len(),
        *old(count) < usize::MAX,
    ensures
        final(text)@ == join_lines(lines@.push(line@)),
        *final(count) == lines@.len() + 1,
{
    if *count > 0 {
        text.append("\n");
    }
    text.append(line);
    proof {
        let l2 = lines@.push(line@);
        assert(l2.drop_last() =~= lines@);
        if lines@.len() == 0 {
            assert(join_lines(lines@) =~= Seq::<char>::empty());
            assert(text@ =~= line@);
        }
    }
    *count = *count + 1;
}

/// The detail text: the detail lines joined with `\n`.
pub fn detail_text(status: &RuntimeStatus) -> (t: String)
    ensures
        t@ == join_lines(detail_lines(*status)),
{
    let mut t = String::new();
    let mut n: usize = 0;
    let ghost lines: Seq<Seq<char>> = Seq::empty();
    push_line(&mut t, &mut n, "Режим совместимости", Ghost(lines));
    proof {
        lines = lines.push("Режим совместимости"@);
    }
    if status.helper_ok && status.devices == 0 {
        push_line(&mut t, &mut n, "Нет доступа к /dev/input — откройте «Настроить доступ».", Ghost(lines));
        proof {
            lines = lines.push("Нет доступа к /dev/input — откройте «Настроить доступ»."@);
        }
    }
    let words_nonempty = !str_eq(status.words_error.as_str(), "");
    proof {
        reveal_strlit("");
        assert(status.words_error@.len() == 0 ==> status.words_error@ =~= ""@);
        assert(status.applications_error@.len() == 0 ==> status.applications_error@ =~= ""@);
    }
    if words_nonempty {
        push_line(&mut t, &mut n, status.words_error.as_str(), Ghost(lines));
        proof {
            lines = lines.push(status.words_error@);
        }
    }
    if !str_eq(status.applications_error.as_str(), "") {
        push_line(&mut t, &mut n, status.applications_error.as_str(), Ghost(lines));
        proof {
            lines = lines.push(status.applications_error@);
        }
    }
    if status.automatic && str_eq(status.automatic_blocked.as_str(), "excluded-application") {
        push_line(
            &mut t,
            &mut n,
            "Автокоррекция выключена для этого приложения. Double Shift доступен.",
            Ghost(lines),
        );
        proof {
            lines = lines.push("Автокоррекция выключена для этого приложения. Double Shift доступен."@);
        }
    }
    assert(lines =~= detail_lines(*status));
    t
}

fn push_signed(s: &mut String, n: i64)
    ensures
        final(s)@ == old(s)@ + signed_decimal(n as int),
{
    if n < 0 {
        s.append("-");
        let m: u64 = (0i128 - n as i128) as u64;
        push_decimal(s, m);
    } else {
        push_decimal(s, n as u64);
    }
}

/// The diagnostics report: its lines joined with `\n`.
pub fn doctor_text(status: &RuntimeStatus, checks: &Vec<LocalCheck>) -> (t: String)
    requires
        checks@.len() * 2 + 4 < usize::MAX,
    ensures
        t@ == join_lines(doctor_lines(*status, checks@)),
{
    let mut t = String::new();
    let mut n: usize = 0;
    let ghost lines: Seq<Seq<char>> = Seq::empty();
    let mut i: usize = 0;
    while i < checks.len()
        invariant
            i <= checks@.len(),
            checks@.len() * 2 + 4 < usize::MAX,
            lines == check_lines(checks@.take(i as int)),
            n == lines.len(),
            n == 2 * i,
            t@ == join_lines(lines),
        decreases checks.len() - i,
    {
        assert(checks@.take(i + 1).drop_last() =~= checks@.take(i as int));
        let c = &checks[i];
        let mut first = String::new();
        first.append(c.name.as_str());
        first.append(" — ");
        if c.ok {
            first.append("OK");
        } else {
            first.append("внимание");
        }
        push_line(&mut t, &mut n, first.as_str(), Ghost(lines));
        let ghost l1 = lines.push(first@);
        let mut second = String::from_str("    ");
        second.append(c.note.as_str());
        push_line(&mut t, &mut n, second.as_str(), Ghost(l1));
        proof {
            lines = l1.push(second@);
            assert(lines =~= check_lines(checks@.take(i + 1)));
        }
        i += 1;
    }
    assert(checks@.take(checks@.len() as int) =~= checks@);
    let mut session = String::from_str("GNOME Session1 — ");
    if status.session_ok {
        session.append("доступен");
    } else {
        session.append("не отвечает (перелогин после установки?)");
    }
    push_line(&mut t, &mut n, session.as_str(), Ghost(lines));
    proof {
        lines = lines.push(session@);
    }
    let mut compat = String::from_str("Compat runtime — ");
    if status.helper_ok {
        compat.append("доступен");
    } else {
        compat.append("не запущен");
    }
    push_line(&mut t, &mut n, compat.as_str(), Ghost(lines));
    proof {
        lines = lines.push(compat@);
    }
    if status.helper_ok {
        let mut last = String::from_str("Последний результат — ");
        last.append(status.last_result.as_str());
        push_line(&mut t, &mut n, last.as_str(), Ghost(lines));
        proof {
            lines = lines.push(last@);
        }
        let mut devices = String::from_str("Устройств — ");
        push_signed(&mut devices, status.devices);
        push_line(&mut t, &mut n, devices.as_str(), Ghost(lines));
        proof {
            lines = lines.push(devices@);
        }
    }
    assert(lines =~= doctor_lines(*status, checks@));
    t
}

} // verus!
