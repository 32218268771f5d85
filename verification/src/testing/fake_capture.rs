//! A queue of input events standing in for a capture device.
use crate::event::{InputEvent, KeyState};
use crate::time::Instant;
use vstd::prelude::*;

verus! {

pub struct FakeCapture {
    events: Vec<InputEvent>,
}

impl FakeCapture {
    /// The queued events, oldest first.
    pub closed spec fn queued(self) -> Seq<InputEvent> {
        self.events@
    }

    pub fn new() -> (c: FakeCapture)
        ensures
            c.queued() == Seq::<InputEvent>::empty(),
    {
        FakeCapture { events: Vec::new() }
    }

    pub fn enqueue(&mut self, event: InputEvent)
        ensures
            final(self).queued() == old(self).queued().push(event),
    {
        self.events.push(event);
    }

    pub fn enqueue_sequence(&mut self, events: Vec<InputEvent>)
        ensures
            final(self).queued() == old(self).queued() + events@,
    {
        let mut events = events;
        self.events.append(&mut events);
    }

    /// Takes every queued event, oldest first, and leaves the queue empty.
    pub fn drain(&mut self) -> (r: Vec<InputEvent>)
        ensures
            r@ == old(self).queued(),
            final(self).queued() == Seq::<InputEvent>::empty(),
    {
        let mut out: Vec<InputEvent> = Vec::new();
        std::mem::swap(&mut out, &mut self.events);
        out
    }

    pub fn is_empty(&self) -> (b: bool)
        ensures
            b == (self.queued().len() == 0),
    {
        self.events.len() == 0
    }

    pub fn len(&self) -> (n: usize)
        ensures
            n == self.queued().len(),
    {
        self.events.len()
    }
}

impl Default for FakeCapture {
    fn default() -> (c: FakeCapture)
        ensures
            c.queued() == Seq::<InputEvent>::empty(),
    {
        FakeCapture::new()
    }
}

pub open spec fn key_event(keycode: u32, state: KeyState, ch: Option<char>, ts: Instant) -> InputEvent {
    InputEvent { keycode, state, timestamp: ts, character: ch }
}

/// A press of `keycode` at `ts`.
pub fn key_down(keycode: u32, ts: Instant) -> (e: InputEvent)
    ensures
        e == key_event(keycode, KeyState::Pressed, None, ts),
{
    InputEvent { keycode, state: KeyState::Pressed, timestamp: ts, character: None }
}

/// A release of `keycode` at `ts`.
pub fn key_up(keycode: u32, ts: Instant) -> (e: InputEvent)
    ensures
        e == key_event(keycode, KeyState::Released, None, ts),
{
    InputEvent { keycode, state: KeyState::Released, timestamp: ts, character: None }
}

/// A press that typed `ch`.
pub fn key_down_char(keycode: u32, ch: char, ts: Instant) -> (e: InputEvent)
    ensures
        e == key_event(keycode, KeyState::Pressed, Some(ch), ts),
{
    InputEvent { keycode, state: KeyState::Pressed, timestamp: ts, character: Some(ch) }
}

/// A release that carries `ch`.
pub fn key_up_char(keycode: u32, ch: char, ts: Instant) -> (e: InputEvent)
    ensures
        e == key_event(keycode, KeyState::Released, Some(ch), ts),
{
    InputEvent { keycode, state: KeyState::Released, timestamp: ts, character: Some(ch) }
}

} // verus!
