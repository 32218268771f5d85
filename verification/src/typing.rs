//! Key presses that type text: each key pressed and released in turn.
use crate::event::{InputEvent, KeyState};
use vstd::prelude::*;

verus! {

/// The keycode of Backspace.
pub const BACKSPACE: u32 = 14;

/// Whether `events[2 * j]` presses and `events[2 * j + 1]` releases `key`,
/// with no characters attached.
pub open spec fn pressed_pair(events: Seq<InputEvent>, j: int, key: u32) -> bool {
    &&& events[2 * j].keycode == key
    &&& events[2 * j].state == KeyState::Pressed
    &&& events[2 * j].character is None
    &&& events[2 * j + 1].keycode == key
    &&& events[2 * j + 1].state == KeyState::Released
    &&& events[2 * j + 1].character is None
}

/// Whether `events` presses and releases `keys` in order, one pair per key.
pub open spec fn presses(events: Seq<InputEvent>, keys: Seq<u32>) -> bool {
    &&& events.len() == 2 * keys.len()
    &&& forall|j: int| 0 <= j < keys.len() ==> #[trigger] pressed_pair(events, j, keys[j])
}

/// `n` Backspace keys.
pub open spec fn backspaces(n: nat) -> Seq<u32> {
    Seq::new(n, |i: int| BACKSPACE)
}

pub proof fn lemma_presses_push(events: Seq<InputEvent>, keys: Seq<u32>, p: InputEvent, q: InputEvent, k: u32)
    requires
        presses(events, keys),
        p.keycode == k && p.state == KeyState::Pressed && p.character is None,
        q.keycode == k && q.state == KeyState::Released && q.character is None,
    ensures
        presses(events.push(p).push(q), keys.push(k)),
{
    let e2 = events.push(p).push(q);
    let k2 = keys.push(k);
    assert forall|j: int| 0 <= j < k2.len() implies #[trigger] pressed_pair(e2, j, k2[j]) by {
        if j < keys.len() {
            assert(pressed_pair(events, j, keys[j]));
            assert(keys[j] == k2[j]);
        }
    }
}

pub proof fn lemma_presses_concat(a: Seq<InputEvent>, ka: Seq<u32>, b: Seq<InputEvent>, kb: Seq<u32>)
    requires
        presses(a, ka),
        presses(b, kb),
    ensures
        presses(a + b, ka + kb),
{
    let e = a + b;
    let k = ka + kb;
    assert forall|j: int| 0 <= j < k.len() implies #[trigger] pressed_pair(e, j, k[j]) by {
        if j < ka.len() {
            assert(pressed_pair(a, j, ka[j]));
            assert(ka[j] == k[j]);
            assert(e[2 * j] == a[2 * j]);
            assert(e[2 * j + 1] == a[2 * j + 1]);
        } else {
            let i = j - ka.len();
            assert(pressed_pair(b, i, kb[i]));
            assert(kb[i] == k[j]);
            assert(e[2 * j] == b[2 * i]);
            assert(e[2 * j + 1] == b[2 * i + 1]);
        }
    }
}

/// Appends a press and a release of `key`, both without a character.
pub fn push_key(events: &mut Vec<InputEvent>, key: u32)
    ensures
        forall|keys: Seq<u32>|
            presses(old(events)@, keys) ==> #[trigger] presses(final(events)@, keys.push(key)),
{
    let p = InputEvent::new(key, KeyState::Pressed);
    let q = InputEvent::new(key, KeyState::Released);
    let ghost before = events@;
    events.push(p);
    events.push(q);
    assert forall|keys: Seq<u32>| presses(before, keys) implies #[trigger] presses(events@, keys.push(key)) by {
        lemma_presses_push(before, keys, p, q, key);
    }
}

} // verus!
