//! A sink that records every emitted key event.
use crate::event::{InputEvent, KeyState};
use crate::text::{decimal, push_char, push_decimal};
use vstd::prelude::*;

verus! {

#[derive(Debug, Clone, Copy, PartialEq, Eq, Structural)]
pub struct EmittedEvent {
    pub keycode: u32,
    pub state: KeyState,
    pub character: Option<char>,
}

impl EmittedEvent {
    /// The part of `ev` that an output device sees.
    pub open spec fn of(ev: InputEvent) -> EmittedEvent {
        EmittedEvent { keycode: ev.keycode, state: ev.state, character: ev.character }
    }

    pub fn from_event(ev: &InputEvent) -> (e: EmittedEvent)
        ensures
            e == EmittedEvent::of(*ev),
    {
        EmittedEvent { keycode: ev.keycode, state: ev.state, character: ev.character }
    }
}

/// The keycodes of the events in `s` that are in `state`, in order.
pub open spec fn keycodes_in(s: Seq<EmittedEvent>, state: KeyState) -> Seq<u32>
    decreases s.len(),
{
    if s.len() == 0 {
        Seq::empty()
    } else {
        let rest = keycodes_in(s.drop_last(), state);
        if s.last().state == state {
            rest.push(s.last().keycode)
        } else {
            rest
        }
    }
}

/// `30↓` or `30↓(a)`.
pub open spec fn event_text(e: EmittedEvent) -> Seq<char> {
    let arrow = if e.state == KeyState::Pressed { '↓' } else { '↑' };
    let head = decimal(e.keycode as nat).push(arrow);
    match e.character {
        Some(ch) => head.push('(').push(ch).push(')'),
        Option::None => head,
    }
}

/// The texts of the events joined by single spaces.
pub open spec fn summary_text(s: Seq<EmittedEvent>) -> Seq<char>
    decreases s.len(),
{
    if s.len() == 0 {
        Seq::empty()
    } else if s.len() == 1 {
        event_text(s[0])
    } else {
        summary_text(s.drop_last()).push(' ') + event_text(s.last())
    }
}

pub struct FakeOutput {
    emitted: Vec<EmittedEvent>,
}

impl FakeOutput {
    /// What has been emitted, oldest first.
    pub closed spec fn log(self) -> Seq<EmittedEvent> {
        self.emitted@
    }

    pub fn new() -> (o: FakeOutput)
        ensures
            o.log() == Seq::<EmittedEvent>::empty(),
    {
        FakeOutput { emitted: Vec::new() }
    }

    pub fn emit(&mut self, event: &InputEvent)
        ensures
            final(self).log() == old(self).log().push(EmittedEvent::of(*event)),
    {
        self.emitted.push(EmittedEvent::from_event(event));
    }

    pub fn emitted(&self) -> (r: Vec<EmittedEvent>)
        ensures
            r@ == self.log(),
    {
        let mut r: Vec<EmittedEvent> = Vec::new();
        let mut i: usize = 0;
        while i < self.emitted.len()
            invariant
                i <= self.emitted@.len(),
                r@ == self.emitted@.take(i as int),
            decreases self.emitted@.len() - i,
        {
            r.push(self.emitted[i]);
            assert(self.emitted@.take(i + 1) =~= self.emitted@.take(i as int).push(self.emitted@[i as int]));
            i += 1;
        }
        assert(self.emitted@.take(i as int) =~= self.emitted@);
        r
    }

    pub fn clear(&mut self)
        ensures
            final(self).log() == Seq::<EmittedEvent>::empty(),
    {
        self.emitted.clear();
    }

    pub fn len(&self) -> (n: usize)
        ensures
            n == self.log().len(),
    {
        self.emitted.len()
    }

    pub fn is_empty(&self) -> (b: bool)
        ensures
            b == (self.log().len() == 0),
    {
        self.emitted.len() == 0
    }

    fn keycodes(&self, state: KeyState) -> (r: Vec<u32>)
        ensures
            r@ == keycodes_in(self.log(), state),
    {
        let mut r: Vec<u32> = Vec::new();
        let mut i: usize = 0;
        while i < self.emitted.len()
            invariant
                i <= self.emitted@.len(),
                r@ == keycodes_in(self.emitted@.take(i as int), state),
            decreases self.emitted@.len() - i,
        {
            let e = self.emitted[i];
            assert(self.emitted@.take(i + 1).drop_last() =~= self.emitted@.take(i as int));
            if e.state == state {
                r.push(e.keycode);
            }
            i += 1;
        }
        assert(self.emitted@.take(i as int) =~= self.emitted@);
        r
    }

    /// Keycodes of the presses, in the order they were emitted.
    pub fn pressed_keycodes(&self) -> (r: Vec<u32>)
        ensures
            r@ == keycodes_in(self.log(), KeyState::Pressed),
    {
        self.keycodes(KeyState::Pressed)
    }

    /// Keycodes of the releases, in the order they were emitted.
    pub fn released_keycodes(&self) -> (r: Vec<u32>)
        ensures
            r@ == keycodes_in(self.log(), KeyState::Released),
    {
        self.keycodes(KeyState::Released)
    }

    /// Every event as `30↓` or `30↓(a)`, joined by spaces.
    pub fn summary(&self) -> (s: String)
        ensures
            s@ == summary_text(self.log()),
    {
        let mut s = String::new();
        let mut i: usize = 0;
        while i < self.emitted.len()
            invariant
                i <= self.emitted@.len(),
                s@ == summary_text(self.emitted@.take(i as int)),
            decreases self.emitted@.len() - i,
        {
            let e = self.emitted[i];
            let ghost before = s@;
            if i > 0 {
                push_char(&mut s, ' ');
            }
            push_decimal(&mut s, e.keycode as u64);
            match e.state {
                KeyState::Pressed => push_char(&mut s, '↓'),
                KeyState::Released => push_char(&mut s, '↑'),
            }
            match e.character {
                Some(ch) => {
                    push_char(&mut s, '(');
                    push_char(&mut s, ch);
                    push_char(&mut s, ')');
                },
                Option::None => {},
            }
            proof {
                let t = self.emitted@.take(i + 1);
                assert(t.drop_last() =~= self.emitted@.take(i as int));
                assert(t.last() == e);
                if i == 0 {
                    assert(s@ =~= event_text(e));
                } else {
                    assert(s@ =~= before.push(' ') + event_text(e));
                }
            }
            i += 1;
        }
        assert(self.emitted@.take(i as int) =~= self.emitted@);
        s
    }
}

impl Default for FakeOutput {
    fn default() -> (o: FakeOutput)
        ensures
            o.log() == Seq::<EmittedEvent>::empty(),
    {
        FakeOutput::new()
    }
}

} // verus!
