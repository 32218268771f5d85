//! Which input devices count as keyboards. The host lists `/dev/input`, opens
//! each node and reports what the device says of itself as a `DeviceProfile`.
use crate::text::{contains_text, lowercase, str_contains, to_chars, to_lowercase};
use vstd::prelude::*;

verus! {

pub const KEY_A: u16 = 30;

pub const KEY_Z: u16 = 44;

pub const KEY_0: u16 = 11;

pub const KEY_9: u16 = 10;

pub const KEY_SPACE: u16 = 57;

pub const KEY_ENTER: u16 = 28;

pub const KEY_BACKSPACE: u16 = 14;

pub const KEY_LEFTSHIFT: u16 = 42;

pub const BTN_LEFT: u16 = 0x110;

pub const BTN_RIGHT: u16 = 0x111;

pub const BTN_TOOL_MOUSE: u16 = 0x146;

pub const REL_X: u16 = 0;

pub const REL_Y: u16 = 1;

pub const ABS_X: u16 = 0;

pub const ABS_Y: u16 = 1;

/// What a device reports of itself: its name and the codes it supports of
/// each kind, where it reports them at all.
pub struct DeviceProfile {
    pub name: Option<String>,
    pub keys: Option<Vec<u16>>,
    pub relative_axes: Option<Vec<u16>>,
    pub absolute_axes: Option<Vec<u16>>,
}

pub open spec fn has(codes: Option<Vec<u16>>, code: u16) -> bool {
    match codes {
        Some(v) => v@.contains(code),
        Option::None => false,
    }
}

/// Whether the device's lowercased name holds `pattern`.
pub open spec fn named_like(name: Option<String>, pattern: Seq<char>) -> bool {
    match name {
        Some(n) => contains_text(lowercase(n@), pattern),
        Option::None => false,
    }
}

/// Name fragments of pointing devices and of this program's own devices.
pub open spec fn excluded_by_name(name: Option<String>) -> bool {
    named_like(name, "mouse"@) || named_like(name, "touchpad"@) || named_like(name, "trackpoint"@)
        || named_like(name, "g305"@) || named_like(name, "g502"@) || named_like(name, "g pro"@)
        || named_like(name, "typetune"@)
}

/// A keyboard: it reports keys, is not named like a pointing device, moves no
/// pointer, has no mouse buttons, and has the letter, digit, Space, Enter,
/// Backspace and left Shift keys.
pub open spec fn keyboard_like(p: DeviceProfile) -> bool {
    &&& p.keys is Some
    &&& !excluded_by_name(p.name)
    &&& !(has(p.relative_axes, REL_X) || has(p.relative_axes, REL_Y))
    &&& !(has(p.absolute_axes, ABS_X) || has(p.absolute_axes, ABS_Y))
    &&& !(has(p.keys, BTN_LEFT) || has(p.keys, BTN_RIGHT) || has(p.keys, BTN_TOOL_MOUSE))
    &&& has(p.keys, KEY_A) && has(p.keys, KEY_Z) && has(p.keys, KEY_0) && has(p.keys, KEY_9)
    &&& has(p.keys, KEY_SPACE) && has(p.keys, KEY_ENTER) && has(p.keys, KEY_BACKSPACE)
    &&& has(p.keys, KEY_LEFTSHIFT)
}

fn holds_code(v: &Vec<u16>, code: u16) -> (b: bool)
    ensures
        b == v@.contains(code),
{
    let mut i: usize = 0;
    while i < v.len()
        invariant
            i <= v@.len(),
            forall|j: int| 0 <= j < i ==> v@[j] != code,
        decreases v.len() - i,
    {
        if v[i] == code {
            assert(v@[i as int] == code);
            return true;
        }
        i += 1;
    }
    false
}

fn supports(codes: &Option<Vec<u16>>, code: u16) -> (b: bool)
    ensures
        b == has(*codes, code),
{
    match codes {
        Some(v) => holds_code(v, code),
        None => false,
    }
}

/// Whether the device's lowercased name holds `pattern`; a device without a
/// name holds nothing.
pub fn name_contains(name: &Option<String>, pattern: &str) -> (b: bool)
    ensures
        b == named_like(*name, pattern@),
{
    match name {
        Some(n) => {
            let lower = to_lowercase(n.as_str());
            str_contains(lower.as_str(), pattern)
        },
        None => false,
    }
}

pub fn is_keyboard(device: &DeviceProfile) -> (b: bool)
    ensures
        b == keyboard_like(*device),
{
    if device.keys.is_none() {
        return false;
    }
    if name_contains(&device.name, "mouse") || name_contains(&device.name, "touchpad")
        || name_contains(&device.name, "trackpoint") || name_contains(&device.name, "g305")
        || name_contains(&device.name, "g502") || name_contains(&device.name, "g pro")
        || name_contains(&device.name, "typetune") {
        return false;
    }
    if supports(&device.relative_axes, REL_X) || supports(&device.relative_axes, REL_Y) {
        return false;
    }
    if supports(&device.absolute_axes, ABS_X) || supports(&device.absolute_axes, ABS_Y) {
        return false;
    }
    if supports(&device.keys, BTN_LEFT) || supports(&device.keys, BTN_RIGHT) || supports(
        &device.keys,
        BTN_TOOL_MOUSE,
    ) {
        return false;
    }
    supports(&device.keys, KEY_A) && supports(&device.keys, KEY_Z) && supports(&device.keys, KEY_0)
        && supports(&device.keys, KEY_9) && supports(&device.keys, KEY_SPACE) && supports(
        &device.keys,
        KEY_ENTER,
    ) && supports(&device.keys, KEY_BACKSPACE) && supports(&device.keys, KEY_LEFTSHIFT)
}

/// `c` with an ASCII capital letter made small.
pub open spec fn ascii_lower(c: char) -> char {
    if 'A' <= c && c <= 'Z' {
        ((c as u32) + 32) as char
    } else {
        c
    }
}

/// Equality up to ASCII case, as `str::eq_ignore_ascii_case` answers.
pub open spec fn same_ignoring_ascii_case(a: Seq<char>, b: Seq<char>) -> bool {
    a.len() == b.len() && forall|i: int| 0 <= i < a.len() ==> ascii_lower(#[trigger] a[i]) == ascii_lower(
        b[i],
    )
}

fn to_ascii_lower(c: char) -> (r: char)
    ensures
        r == ascii_lower(c),
{
    if 'A' <= c && c <= 'Z' {
        let b = (c as u8) + 32;
        b as char
    } else {
        c
    }
}

pub fn eq_ignore_ascii_case(a: &str, b: &str) -> (r: bool)
    ensures
        r == same_ignoring_ascii_case(a@, b@),
{
    let x = to_chars(a);
    let y = to_chars(b);
    if x.len() != y.len() {
        return false;
    }
    let mut i: usize = 0;
    while i < x.len()
        invariant
            x@ == a@,
            y@ == b@,
            x@.len() == y@.len(),
            i <= x@.len(),
            forall|j: int| 0 <= j < i ==> ascii_lower(#[trigger] x@[j]) == ascii_lower(y@[j]),
        decreases x.len() - i,
    {
        if to_ascii_lower(x[i]) != to_ascii_lower(y[i]) {
            return false;
        }
        i += 1;
    }
    true
}

/// The name a device is listed under: its own, or `unknown`.
pub open spec fn listed_name(p: DeviceProfile) -> Seq<char> {
    match p.name {
        Some(n) => n@,
        Option::None => "unknown"@,
    }
}

/// Whether a device path names an event node.
pub open spec fn event_node(path: Seq<char>) -> bool {
    path.len() >= "/dev/input/event"@.len() && path.take("/dev/input/event"@.len() as int)
        == "/dev/input/event"@
}

/// Whether one of `names` matches `name` up to ASCII case.
pub open spec fn name_excluded(names: Seq<String>, name: Seq<char>) -> bool {
    exists|i: int| 0 <= i < names.len() && same_ignoring_ascii_case(#[trigger] names[i]@, name)
}

/// The `(path, name)` entry a device at `path` contributes to the list of
/// keyboards: none unless `path` is an event node, the device's name is not
/// excluded, and the device is a keyboard.
pub fn keyboard_entry(path: &str, device: &DeviceProfile, exclude_names: &[String]) -> (r: Option<
    (String, String),
>)
    ensures
        (event_node(path@) && !name_excluded(exclude_names@, listed_name(*device)) && keyboard_like(
            *device,
        )) ==> (r matches Some(entry) && entry.0@ == path@ && entry.1@ == listed_name(*device)),
        !(event_node(path@) && !name_excluded(exclude_names@, listed_name(*device)) && keyboard_like(
            *device,
        )) ==> r is None,
{
    let p = to_chars(path);
    let prefix = to_chars("/dev/input/event");
    if p.len() < prefix.len() {
        return None;
    }
    let mut k: usize = 0;
    while k < prefix.len()
        invariant
            p@ == path@,
            prefix@ == "/dev/input/event"@,
            prefix@.len() <= p@.len(),
            k <= prefix@.len(),
            forall|j: int| 0 <= j < k ==> p@[j] == prefix@[j],
        decreases prefix.len() - k,
    {
        if p[k] != prefix[k] {
            assert(path@.take(prefix@.len() as int)[k as int] != prefix@[k as int]);
            return None;
        }
        k += 1;
    }
    assert(path@.take(prefix@.len() as int) =~= prefix@);
    let name = match &device.name {
        Some(n) => n.clone(),
        None => String::from_str("unknown"),
    };
    let mut i: usize = 0;
    while i < exclude_names.len()
        invariant
            i <= exclude_names@.len(),
            name@ == listed_name(*device),
            forall|j: int| 0 <= j < i ==> !same_ignoring_ascii_case(#[trigger] exclude_names@[j]@, name@),
        decreases exclude_names.len() - i,
    {
        if eq_ignore_ascii_case(exclude_names[i].as_str(), name.as_str()) {
            return None;
        }
        i += 1;
    }
    if is_keyboard(device) {
        Some((String::from_str(path), name))
    } else {
        None
    }
}

} // verus!
