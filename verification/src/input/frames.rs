//! Assembly of raw evdev records into key frames. A frame is forwarded only
//! when its SYN_REPORT arrives; after a kernel buffer overflow (SYN_DROPPED)
//! everything up to the next SYN_REPORT is discarded and the holds are
//! reconstructed from the device's current key state.
use super::{
    action_of, convert_spec, deltas_below, key_event_of, resync_deltas, ClockError, MonotonicClock,
    KEY_STATE_BYTES,
};
use crate::event::{current_time, DeviceId, EventOrigin, KeyAction, NativeCode, NativeEvdevCode, PhysicalKeyCode, PhysicalKeyEvent};
use vstd::prelude::*;

verus! {

pub const EV_SYN: u16 = 0;

pub const EV_KEY: u16 = 1;

pub const SYN_REPORT: u16 = 0;

pub const SYN_DROPPED: u16 = 3;

/// Records read per batch.
pub const MAX_READ_EVENTS: usize = 256;

/// Longest frame, in key events.
pub const MAX_FRAME_EVENTS: usize = 1024;

/// One raw input record: type, code, value and the kernel time stamp.
#[derive(Clone, Copy, Debug)]
pub struct RawRecord {
    pub kind: u16,
    pub code: u16,
    pub value: i32,
    pub sec: i64,
    pub usec: i64,
}

/// What a batch of reads produced.
pub struct ReadResult {
    /// Complete nonempty key frames, delimited by SYN_REPORT.
    pub frames: Vec<Vec<PhysicalKeyEvent>>,
    pub events: Vec<PhysicalKeyEvent>,
    /// A loss marker or an ongoing resync invalidates text history.
    pub resynced: bool,
}

pub struct ReadView {
    pub frames: Seq<Seq<PhysicalKeyEvent>>,
    pub events: Seq<PhysicalKeyEvent>,
    pub resynced: bool,
}

impl View for ReadResult {
    type V = ReadView;

    open spec fn view(&self) -> ReadView {
        ReadView {
            frames: self.frames@.map_values(|f: Vec<PhysicalKeyEvent>| f@),
            events: self.events@,
            resynced: self.resynced,
        }
    }
}

#[derive(Debug, Clone, Copy, PartialEq, Eq, Structural)]
pub enum Step {
    Continue,
    /// The overflow ends here: take a key-state snapshot, `reconcile`, and
    /// end the batch.
    NeedSnapshot,
}

#[derive(Debug, Clone, Copy, PartialEq, Eq, Structural)]
pub enum FrameError {
    UnsupportedKeycode,
    FrameTooLong,
    Clock(ClockError),
    /// The device holds keys while it should be neutral.
    NotNeutral,
}

pub struct AssemblerView {
    pub device_id: DeviceId,
    pub clock: MonotonicClock,
    pub key_state: Seq<u8>,
    pub dropping: bool,
    pub pending: Seq<PhysicalKeyEvent>,
}

/// `state` with the bit of `code` set or cleared.
pub open spec fn set_bit(state: Seq<u8>, code: u16, on: bool) -> Seq<u8> {
    let b = state[(code / 8) as int];
    let mask = 1u8 << ((code % 8) as u8);
    state.update((code / 8) as int, if on { b | mask } else { b & !mask })
}

/// The key state after the presses and releases of a completed frame.
pub open spec fn apply_frame(state: Seq<u8>, frame: Seq<PhysicalKeyEvent>) -> Seq<u8>
    decreases frame.len(),
{
    if frame.len() == 0 {
        state
    } else {
        let s = apply_frame(state, frame.drop_last());
        let e = frame.last();
        match e.action {
            KeyAction::Down => set_bit(s, e.physical_key.0, true),
            KeyAction::Up => set_bit(s, e.physical_key.0, false),
            KeyAction::Repeat => s,
        }
    }
}

/// No key is held in a key-state snapshot.
pub open spec fn neutral(state: Seq<u8>) -> bool {
    forall|i: int| 0 <= i < state.len() ==> state[i] == 0
}

/// Every key code of a frame lies below 768.
pub open spec fn codes_in_range(frame: Seq<PhysicalKeyEvent>) -> bool {
    forall|i: int| 0 <= i < frame.len() ==> (#[trigger] frame[i]).physical_key.0 < 768
}

/// What one record does: the assembler afterwards, the sequence number, the
/// batch result, and whether to go on.
pub open spec fn accept_spec(v: AssemblerView, rec: RawRecord, seq: u64, out: ReadView) -> (
    AssemblerView,
    u64,
    ReadView,
    Result<Step, FrameError>,
) {
    if rec.kind == EV_SYN && rec.code == SYN_DROPPED {
        (
            AssemblerView { dropping: true, pending: Seq::empty(), ..v },
            seq,
            ReadView { resynced: true, ..out },
            Ok(Step::Continue),
        )
    } else if v.dropping {
        (
            v,
            seq,
            out,
            Ok(
                if rec.kind == EV_SYN && rec.code == SYN_REPORT {
                    Step::NeedSnapshot
                } else {
                    Step::Continue
                },
            ),
        )
    } else if rec.kind == EV_SYN && rec.code == SYN_REPORT {
        let f = v.pending;
        let v1 = AssemblerView { key_state: apply_frame(v.key_state, f), pending: Seq::empty(), ..v };
        if f.len() > 0 {
            (
                v1,
                seq,
                ReadView { frames: out.frames.push(f), events: out.events + f, ..out },
                Ok(Step::Continue),
            )
        } else {
            (v1, seq, out, Ok(Step::Continue))
        }
    } else if rec.kind == EV_KEY {
        if rec.code >= 768 {
            (v, seq, out, Err(FrameError::UnsupportedKeycode))
        } else {
            match convert_spec(v.clock, rec.sec, rec.usec) {
                Err(e) => (v, seq, out, Err(FrameError::Clock(e))),
                Ok(t) => match action_of(rec.value) {
                    Option::None => (v, seq, out, Ok(Step::Continue)),
                    Some(a) => if v.pending.len() >= MAX_FRAME_EVENTS {
                        (v, seq, out, Err(FrameError::FrameTooLong))
                    } else {
                        (
                            AssemblerView {
                                pending: v.pending.push(
                                    key_event_of(v.device_id, seq, rec.code, a, t, EventOrigin::Physical),
                                ),
                                ..v
                            },
                            (seq + 1) as u64,
                            out,
                            Ok(Step::Continue),
                        )
                    },
                },
            }
        }
    } else {
        (v, seq, out, Ok(Step::Continue))
    }
}

/// The resync edge for delta `d`, numbered `seq`, timed at some instant.
pub open spec fn resync_event_is(e: PhysicalKeyEvent, device: DeviceId, seq: u64, d: (u16, KeyAction)) -> bool {
    &&& e.device_id == device
    &&& e.native_code == NativeCode::Evdev(NativeEvdevCode(d.0))
    &&& e.physical_key == PhysicalKeyCode(d.0)
    &&& e.action == d.1
    &&& e.source_time == e.observed_time
    &&& e.sequence == seq
    &&& e.origin == EventOrigin::Resync
}

pub struct FrameAssembler {
    device_id: DeviceId,
    clock: MonotonicClock,
    key_state: [u8; 96],
    dropping: bool,
    pending: Vec<PhysicalKeyEvent>,
}

impl View for FrameAssembler {
    type V = AssemblerView;

    closed spec fn view(&self) -> AssemblerView {
        AssemblerView {
            device_id: self.device_id,
            clock: self.clock,
            key_state: self.key_state@,
            dropping: self.dropping,
            pending: self.pending@,
        }
    }
}

impl FrameAssembler {
    #[verifier::type_invariant]
    closed spec fn well_formed(self) -> bool {
        codes_in_range(self.pending@)
    }

    /// An assembler for a neutral device: no key held, nothing pending.
    pub fn new(device_id: DeviceId, clock: MonotonicClock) -> (a: FrameAssembler)
        ensures
            a@.device_id == device_id,
            a@.clock == clock,
            a@.key_state == Seq::new(96, |i: int| 0u8),
            !a@.dropping,
            a@.pending.len() == 0,
    {
        let a = FrameAssembler { device_id, clock, key_state: [0u8; 96], dropping: false, pending: Vec::new() };
        assert(a.key_state@ =~= Seq::new(96, |i: int| 0u8));
        a
    }

    pub fn key_state(&self) -> (s: [u8; 96])
        ensures
            s@ == self@.key_state,
    {
        self.key_state
    }

    pub fn dropping(&self) -> (b: bool)
        ensures
            b == self@.dropping,
    {
        self.dropping
    }

    pub fn pending_len(&self) -> (n: usize)
        ensures
            n == self@.pending.len(),
    {
        self.pending.len()
    }

    /// A fresh batch result; it starts resynced while an overflow is unresolved.
    pub fn begin(&self) -> (r: ReadResult)
        ensures
            r@.frames.len() == 0,
            r@.events.len() == 0,
            r@.resynced == self@.dropping,
    {
        ReadResult { frames: Vec::new(), events: Vec::new(), resynced: self.dropping }
    }

    /// Takes a snapshot that must show no key held, and starts from it.
    pub fn sync_neutral(&mut self, state: [u8; 96]) -> (r: Result<(), FrameError>)
        ensures
            neutral(state@) ==> (r is Ok && final(self)@ == (AssemblerView {
                key_state: state@,
                dropping: false,
                pending: Seq::empty(),
                ..old(self)@
            })),
            !neutral(state@) ==> (r == Err::<(), FrameError>(FrameError::NotNeutral) && final(self)@
                == old(self)@),
    {
        let mut i: usize = 0;
        while i < KEY_STATE_BYTES
            invariant
                i <= 96,
                state@.len() == 96,
                forall|j: int| 0 <= j < i ==> state@[j] == 0,
            decreases 96 - i,
        {
            if state[i] != 0 {
                return Err(FrameError::NotNeutral);
            }
            i += 1;
        }
        proof {
            use_type_invariant(&*self);
        }
        self.key_state = state;
        self.dropping = false;
        self.pending = Vec::new();
        Ok(())
    }

    /// Consumes one raw record.
    pub fn accept(&mut self, rec: RawRecord, sequence: &mut u64, out: &mut ReadResult) -> (r: Result<Step, FrameError>)
        requires
            *old(sequence) < u64::MAX,
        ensures
            (final(self)@, *final(sequence), final(out)@, r) == accept_spec(old(self)@, rec, *old(sequence), old(out)@),
    {
        proof {
            use_type_invariant(&*self);
        }
        if rec.kind == EV_SYN && rec.code == SYN_DROPPED {
            self.dropping = true;
            self.pending = Vec::new();
            out.resynced = true;
            return Ok(Step::Continue);
        }
        if self.dropping {
            if rec.kind == EV_SYN && rec.code == SYN_REPORT {
                return Ok(Step::NeedSnapshot);
            }
            return Ok(Step::Continue);
        }
        if rec.kind == EV_SYN && rec.code == SYN_REPORT {
            let mut frame: Vec<PhysicalKeyEvent> = Vec::new();
            std::mem::swap(&mut frame, &mut self.pending);
            let mut ks = self.key_state;
            let mut i: usize = 0;
            while i < frame.len()
                invariant
                    i <= frame@.len(),
                    codes_in_range(frame@),
                    ks@ == apply_frame(old(self)@.key_state, frame@.take(i as int)),
                decreases frame.len() - i,
            {
                let e = frame[i];
                let code = e.physical_key.0;
                assert(frame@.take(i + 1).drop_last() =~= frame@.take(i as int));
                assert(code < 768);
                let byte = (code / 8) as usize;
                let mask: u8 = 1u8 << ((code % 8) as u8);
                match e.action {
                    KeyAction::Down => {
                        let b = ks[byte];
                        ks.set(byte, b | mask);
                    },
                    KeyAction::Up => {
                        let b = ks[byte];
                        ks.set(byte, b & !mask);
                    },
                    KeyAction::Repeat => {},
                }
                i += 1;
            }
            assert(frame@.take(i as int) =~= frame@);
            self.key_state = ks;
            if frame.len() > 0 {
                let ghost before = out@;
                let mut k: usize = 0;
                while k < frame.len()
                    invariant
                        k <= frame@.len(),
                        out.events@ == before.events + frame@.take(k as int),
                        out.frames@ == old(out).frames@,
                        out.resynced == old(out).resynced,
                    decreases frame.len() - k,
                {
                    out.events.push(frame[k]);
                    assert(frame@.take(k + 1) =~= frame@.take(k as int).push(frame@[k as int]));
                    k += 1;
                }
                assert(frame@.take(k as int) =~= frame@);
                let ghost fv = frame@;
                out.frames.push(frame);
                assert(out@.frames =~= before.frames.push(fv));
            }
            return Ok(Step::Continue);
        }
        if rec.kind == EV_KEY {
            if rec.code >= 768 {
                return Err(FrameError::UnsupportedKeycode);
            }
            let time = match self.clock.convert(rec.sec, rec.usec) {
                Ok(t) => t,
                Err(e) => {
                    return Err(FrameError::Clock(e));
                },
            };
            match super::convert_ev_key_event(self.device_id, *sequence, rec.code, rec.value, time) {
                Some(event) => {
                    if self.pending.len() >= MAX_FRAME_EVENTS {
                        return Err(FrameError::FrameTooLong);
                    }
                    let mut pending: Vec<PhysicalKeyEvent> = Vec::new();
                    std::mem::swap(&mut pending, &mut self.pending);
                    pending.push(event);
                    self.pending = pending;
                    *sequence = *sequence + 1;
                },
                None => {},
            }
        }
        Ok(Step::Continue)
    }

    /// Ends an overflow: the edges from the last known key state to the
    /// snapshot become one frame of `Resync` events, numbered from
    /// `sequence`, and the snapshot becomes the known state.
    pub fn reconcile(&mut self, snapshot: [u8; 96], sequence: &mut u64, out: &mut ReadResult)
        requires
            *old(sequence) + 768 <= u64::MAX,
        ensures
            ({
                let d = deltas_below(old(self)@.key_state, snapshot@, 768);
                &&& final(self)@ == (AssemblerView { key_state: snapshot@, dropping: false, ..old(self)@ })
                &&& *final(sequence) == *old(sequence) + d.len()
                &&& final(out)@.resynced == old(out)@.resynced
                &&& if d.len() == 0 {
                    final(out)@ == old(out)@
                } else {
                    &&& final(out)@.frames.len() == old(out)@.frames.len() + 1
                    &&& final(out)@.frames.drop_last() == old(out)@.frames
                    &&& final(out)@.events == old(out)@.events + final(out)@.frames.last()
                    &&& final(out)@.frames.last().len() == d.len()
                    &&& forall|i: int| 0 <= i < d.len() ==> resync_event_is(
                        #[trigger] final(out)@.frames.last()[i],
                        old(self)@.device_id,
                        (*old(sequence) + i) as u64,
                        d[i],
                    )
                }
            }),
    {
        proof {
            use_type_invariant(&*self);
        }
        let deltas = resync_deltas(&self.key_state, &snapshot);
        proof {
            lemma_deltas_len(self.key_state@, snapshot@, 768);
        }
        let start = *sequence;
        let mut frame: Vec<PhysicalKeyEvent> = Vec::new();
        let mut i: usize = 0;
        while i < deltas.len()
            invariant
                i <= deltas@.len(),
                deltas@.len() <= 768,
                start + 768 <= u64::MAX,
                *sequence == start + i,
                frame@.len() == i,
                forall|j: int| 0 <= j < i ==> resync_event_is(#[trigger] frame@[j], self.device_id, (start + j) as u64, deltas@[j]),
            decreases deltas.len() - i,
        {
            let (code, action) = deltas[i];
            let now = current_time();
            frame.push(PhysicalKeyEvent {
                device_id: self.device_id,
                native_code: NativeCode::Evdev(NativeEvdevCode(code)),
                physical_key: PhysicalKeyCode(code),
                action,
                source_time: now,
                observed_time: now,
                sequence: *sequence,
                origin: EventOrigin::Resync,
            });
            *sequence = *sequence + 1;
            i += 1;
        }
        self.key_state = snapshot;
        self.dropping = false;
        if frame.len() > 0 {
            let ghost before = out@;
            let mut k: usize = 0;
            while k < frame.len()
                invariant
                    k <= frame@.len(),
                    out.events@ == before.events + frame@.take(k as int),
                    out.frames@ == old(out).frames@,
                    out.resynced == old(out).resynced,
                decreases frame.len() - k,
            {
                out.events.push(frame[k]);
                assert(frame@.take(k + 1) =~= frame@.take(k as int).push(frame@[k as int]));
                k += 1;
            }
            assert(frame@.take(k as int) =~= frame@);
            let ghost fv = frame@;
            out.frames.push(frame);
            assert(out@.frames =~= before.frames.push(fv));
        }
    }
}

proof fn lemma_deltas_len(old: Seq<u8>, new: Seq<u8>, n: int)
    requires
        n >= 0,
    ensures
        deltas_below(old, new, n).len() <= n,
    decreases n,
{
    if n > 0 {
        lemma_deltas_len(old, new, n - 1);
    }
}

} // verus!
