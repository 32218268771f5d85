//! Process supervision: the lease a watchdog process holds on the input loop
//! (revoked when the heartbeat stops), the heartbeat itself, and the
//! controller that starts the input helper and waits for its readiness.
//! Processes, pipes, polling and signals are the host's part; each function
//! here decides one step.
use crate::time::Instant;
use vstd::prelude::*;

verus! {

/// How long the lease lasts without a heartbeat.
pub const LEASE_TIMEOUT_NANOS: u64 = 2_000_000_000;

/// How long a revoked loop gets between SIGTERM and SIGKILL.
pub const LEASE_GRACE_NANOS: u64 = 500_000_000;

/// How often the input loop renews the lease.
pub const BEAT_INTERVAL_NANOS: u64 = 100_000_000;

/// How long the helper may take to report readiness.
pub const HELPER_STARTUP_NANOS: u64 = 3_000_000_000;

/// How long the helper may take to stop after SIGTERM.
pub const HELPER_SHUTDOWN_NANOS: u64 = 2_000_000_000;

/// The heartbeat byte.
pub const BEAT: u8 = 0x50;

/// The byte that ends the lease on purpose.
pub const DISARM: u8 = 0x44;

/// The byte the helper sends once it is ready.
pub const READY: u8 = 0x52;

pub open spec fn elapsed(now: Instant, earlier: Instant) -> int {
    if now.nanos >= earlier.nanos {
        now.nanos - earlier.nanos
    } else {
        0
    }
}

fn elapsed_nanos(now: Instant, earlier: Instant) -> (n: u64)
    ensures
        n == elapsed(now, earlier),
{
    now.saturating_duration_since(earlier).nanos
}

/// What the lease watcher learned while it waited.
pub enum LeaseEvent {
    /// The watched process is gone.
    ParentGone,
    /// Bytes arrived on the heartbeat pipe (none: the pipe was closed).
    Input(Vec<u8>),
    /// Waiting failed for a reason other than a signal.
    PollFailed,
    /// A signal interrupted the wait, or nothing arrived in time.
    Nothing,
}

#[derive(Clone, Copy, Debug, PartialEq, Eq, Structural)]
pub enum LeaseVerdict {
    /// The lease ends without action: disarmed, or the process is gone.
    Released,
    /// The lease is revoked: the process is terminated.
    Revoked,
    /// The lease holds; keep watching.
    Held,
}

/// Time left on the lease, in nanoseconds; zero once it has expired.
pub open spec fn lease_left(last_beat: Instant, now: Instant) -> int {
    if elapsed(now, last_beat) >= LEASE_TIMEOUT_NANOS {
        0
    } else {
        LEASE_TIMEOUT_NANOS - elapsed(now, last_beat)
    }
}

pub fn lease_remaining(last_beat: Instant, now: Instant) -> (n: u64)
    ensures
        n == lease_left(last_beat, now),
{
    let e = elapsed_nanos(now, last_beat);
    if e >= LEASE_TIMEOUT_NANOS {
        0
    } else {
        LEASE_TIMEOUT_NANOS - e
    }
}

/// The position of the first byte that is not a heartbeat.
pub open spec fn first_other(bytes: Seq<u8>, from: int) -> Option<int>
    decreases bytes.len() - from,
{
    if from < 0 || from >= bytes.len() {
        None
    } else if bytes[from] != BEAT {
        Some(from)
    } else {
        first_other(bytes, from + 1)
    }
}

/// The verdict on bytes read from the heartbeat pipe: a closed pipe revokes;
/// otherwise the first byte that is not a heartbeat decides (disarm releases,
/// anything else revokes), and heartbeats alone keep the lease.
pub open spec fn input_verdict(bytes: Seq<u8>) -> LeaseVerdict {
    if bytes.len() == 0 {
        LeaseVerdict::Revoked
    } else {
        match first_other(bytes, 0) {
            Some(i) => if bytes[i] == DISARM {
                LeaseVerdict::Released
            } else {
                LeaseVerdict::Revoked
            },
            Option::None => LeaseVerdict::Held,
        }
    }
}

/// One wake-up of the lease watcher: the verdict, and the time of the last
/// heartbeat afterwards (`now` when heartbeats arrived).
pub open spec fn lease_step_spec(last_beat: Instant, now: Instant, event: LeaseEvent) -> (LeaseVerdict, Instant) {
    match event {
        LeaseEvent::ParentGone => (LeaseVerdict::Released, last_beat),
        LeaseEvent::PollFailed => (LeaseVerdict::Revoked, last_beat),
        LeaseEvent::Nothing => (if lease_left(last_beat, now) == 0 {
            LeaseVerdict::Revoked
        } else {
            LeaseVerdict::Held
        }, last_beat),
        LeaseEvent::Input(bytes) => {
            let v = input_verdict(bytes@);
            (v, if v == LeaseVerdict::Held { now } else { last_beat })
        },
    }
}

/// Decides one wake-up of the lease watcher.
pub fn lease_step(last_beat: Instant, now: Instant, event: &LeaseEvent) -> (r: (LeaseVerdict, Instant))
    ensures
        r == lease_step_spec(last_beat, now, *event),
{
    match event {
        LeaseEvent::ParentGone => (LeaseVerdict::Released, last_beat),
        LeaseEvent::PollFailed => (LeaseVerdict::Revoked, last_beat),
        LeaseEvent::Nothing => {
            if lease_remaining(last_beat, now) == 0 {
                (LeaseVerdict::Revoked, last_beat)
            } else {
                (LeaseVerdict::Held, last_beat)
            }
        },
        LeaseEvent::Input(bytes) => {
            let v = read_verdict(bytes);
            if v == LeaseVerdict::Held {
                (v, now)
            } else {
                (v, last_beat)
            }
        },
    }
}

/// The verdict on bytes read from the heartbeat pipe.
pub fn read_verdict(bytes: &Vec<u8>) -> (v: LeaseVerdict)
    ensures
        v == input_verdict(bytes@),
{
    if bytes.len() == 0 {
        return LeaseVerdict::Revoked;
    }
    let mut i: usize = 0;
    while i < bytes.len()
        invariant
            i <= bytes@.len(),
            bytes@.len() > 0,
            first_other(bytes@, 0) == first_other(bytes@, i as int),
        decreases bytes.len() - i,
    {
        if bytes[i] != BEAT {
            if bytes[i] == DISARM {
                return LeaseVerdict::Released;
            } else {
                return LeaseVerdict::Revoked;
            }
        }
        i += 1;
    }
    LeaseVerdict::Held
}

/// Whether the loop owes the watchdog a heartbeat.
pub fn beat_due(last_beat: Instant, now: Instant) -> (b: bool)
    ensures
        b == (elapsed(now, last_beat) >= BEAT_INTERVAL_NANOS),
{
    elapsed_nanos(now, last_beat) >= BEAT_INTERVAL_NANOS
}

/// Why running the input helper failed.
#[derive(Clone, Debug, PartialEq, Eq)]
pub enum HelperError {
    /// The helper exited unsuccessfully; the exit status as the host shows it.
    Exited(String),
    ExitedBeforeReady,
    ShutdownTimedOut,
    BadReadiness,
    StartupTimedOut,
}

impl HelperError {
    pub open spec fn message_spec(&self) -> Seq<char> {
        match self {
            HelperError::Exited(status) => "input helper exited: "@ + status@,
            HelperError::ExitedBeforeReady => "input helper exited before readiness"@,
            HelperError::ShutdownTimedOut => "input helper shutdown timed out"@,
            HelperError::BadReadiness => "invalid helper readiness protocol"@,
            HelperError::StartupTimedOut => "input helper startup timed out"@,
        }
    }

    pub fn message(&self) -> (s: String)
        ensures
            s@ == self.message_spec(),
    {
        match self {
            HelperError::Exited(status) => {
                let mut s = String::from_str("input helper exited: ");
                s.append(status.as_str());
                s
            },
            HelperError::ExitedBeforeReady => String::from_str("input helper exited before readiness"),
            HelperError::ShutdownTimedOut => String::from_str("input helper shutdown timed out"),
            HelperError::BadReadiness => String::from_str("invalid helper readiness protocol"),
            HelperError::StartupTimedOut => String::from_str("input helper startup timed out"),
        }
    }
}

/// How the helper process ended, when it has.
pub struct HelperExit {
    pub success: bool,
    pub status: String,
}

/// What the controller does next.
#[derive(Debug, PartialEq, Eq)]
pub enum HelperAction {
    /// Stop supervising with this result.
    Finish(Result<(), HelperError>),
    /// Kill the helper, then stop with `ShutdownTimedOut`.
    KillAndFail,
    /// Go on: send SIGTERM first if `terminate`, a heartbeat if `beat`, then
    /// read the helper's status pipe.
    Proceed { terminate: bool, beat: bool },
}

/// The controller's state between polls.
#[derive(Clone, Copy, Debug, PartialEq, Eq, Structural)]
pub struct HelperSupervisor {
    /// Whether readiness is still awaited.
    pub awaiting_ready: bool,
    /// When SIGTERM was sent, once it was.
    pub stopping_since: Option<Instant>,
    /// When the last heartbeat went to the helper.
    pub last_beat: Instant,
    /// When the helper was started.
    pub started: Instant,
}

/// The first half of a poll: the helper's exit decides first; then a stop
/// request starts the shutdown, an overlong shutdown fails, and a heartbeat
/// goes out when one is due.
pub open spec fn poll_spec(
    s: HelperSupervisor,
    exited: Option<HelperExit>,
    stop: bool,
    now: Instant,
) -> (HelperSupervisor, HelperAction) {
    match exited {
        Some(e) => (s, HelperAction::Finish(if !e.success {
            Err(HelperError::Exited(e.status))
        } else if s.awaiting_ready {
            Err(HelperError::ExitedBeforeReady)
        } else {
            Ok(())
        })),
        Option::None => {
            let terminate = stop && s.stopping_since is None;
            let since = if terminate {
                Some(now)
            } else {
                s.stopping_since
            };
            let overdue = match since {
                Some(t) => elapsed(now, t) > HELPER_SHUTDOWN_NANOS,
                Option::None => false,
            };
            let beat = elapsed(now, s.last_beat) >= BEAT_INTERVAL_NANOS;
            if overdue {
                (HelperSupervisor { stopping_since: since, ..s }, HelperAction::KillAndFail)
            } else {
                (
                    HelperSupervisor {
                        stopping_since: since,
                        last_beat: if beat {
                            now
                        } else {
                            s.last_beat
                        },
                        ..s
                    },
                    HelperAction::Proceed { terminate, beat },
                )
            }
        },
    }
}

/// The second half of a poll, on what the status pipe gave: one `R` while
/// readiness is awaited makes the helper ready; any other message is a
/// protocol error; readiness not reached within the startup time fails.
pub open spec fn read_spec(s: HelperSupervisor, message: Seq<u8>, now: Instant) -> (
    HelperSupervisor,
    Result<bool, HelperError>,
) {
    if message.len() > 0 && !(message.len() == 1 && message[0] == READY && s.awaiting_ready) {
        (s, Err(HelperError::BadReadiness))
    } else {
        let ready_now = message.len() > 0;
        let s2 = HelperSupervisor { awaiting_ready: s.awaiting_ready && !ready_now, ..s };
        if s2.awaiting_ready && elapsed(now, s.started) >= HELPER_STARTUP_NANOS {
            (s2, Err(HelperError::StartupTimedOut))
        } else {
            (s2, Ok(ready_now))
        }
    }
}

impl HelperSupervisor {
    /// A helper started at `now`, its first heartbeat due at once.
    pub fn new(now: Instant) -> (s: HelperSupervisor)
        ensures
            s.awaiting_ready,
            s.stopping_since is None,
            s.started == now,
            s.last_beat.nanos == if now.nanos >= BEAT_INTERVAL_NANOS {
                now.nanos - BEAT_INTERVAL_NANOS
            } else {
                0
            },
    {
        let last_beat = match now.checked_sub(crate::time::Duration::from_nanos(BEAT_INTERVAL_NANOS)) {
            Some(t) => t,
            None => Instant::from_nanos(0),
        };
        HelperSupervisor { awaiting_ready: true, stopping_since: None, last_beat, started: now }
    }

    pub fn poll(&mut self, exited: Option<HelperExit>, stop: bool, now: Instant) -> (a: HelperAction)
        ensures
            (*final(self), a) == poll_spec(*old(self), exited, stop, now),
    {
        match exited {
            Some(e) => {
                if !e.success {
                    HelperAction::Finish(Err(HelperError::Exited(e.status)))
                } else if self.awaiting_ready {
                    HelperAction::Finish(Err(HelperError::ExitedBeforeReady))
                } else {
                    HelperAction::Finish(Ok(()))
                }
            },
            None => {
                let terminate = stop && self.stopping_since.is_none();
                if terminate {
                    self.stopping_since = Some(now);
                }
                let overdue = match self.stopping_since {
                    Some(t) => elapsed_nanos(now, t) > HELPER_SHUTDOWN_NANOS,
                    None => false,
                };
                if overdue {
                    return HelperAction::KillAndFail;
                }
                let beat = beat_due(self.last_beat, now);
                if beat {
                    self.last_beat = now;
                }
                HelperAction::Proceed { terminate, beat }
            },
        }
    }

    pub fn read(&mut self, message: &[u8], now: Instant) -> (r: Result<bool, HelperError>)
        ensures
            (*final(self), r) == read_spec(*old(self), message@, now),
    {
        let n = message.len();
        if n > 0 && !(n == 1 && message[0] == READY && self.awaiting_ready) {
            return Err(HelperError::BadReadiness);
        }
        let ready_now = n > 0;
        self.awaiting_ready = self.awaiting_ready && !ready_now;
        if self.awaiting_ready && elapsed_nanos(now, self.started) >= HELPER_STARTUP_NANOS {
            Err(HelperError::StartupTimedOut)
        } else {
            Ok(ready_now)
        }
    }
}

/// What a non-blocking read of the parent's control pipe gave.
pub enum ParentRead {
    /// One or more bytes.
    Bytes(Vec<u8>),
    /// End of input: the parent closed the pipe.
    Closed,
    /// Nothing to read now, or a signal interrupted the read.
    Nothing,
    /// The read failed; the error as the host shows it.
    Failed(String),
}

#[derive(Clone, Debug, PartialEq, Eq)]
pub enum ParentLeaseError {
    Closed,
    BadMessage,
    Pipe(String),
    Expired,
}

impl ParentLeaseError {
    pub open spec fn message_spec(&self) -> Seq<char> {
        match self {
            ParentLeaseError::Closed => "parent control pipe closed"@,
            ParentLeaseError::BadMessage => "invalid parent control message"@,
            ParentLeaseError::Pipe(e) => "parent pipe error: "@ + e@,
            ParentLeaseError::Expired => "parent lease expired"@,
        }
    }

    pub fn message(&self) -> (s: String)
        ensures
            s@ == self.message_spec(),
    {
        match self {
            ParentLeaseError::Closed => String::from_str("parent control pipe closed"),
            ParentLeaseError::BadMessage => String::from_str("invalid parent control message"),
            ParentLeaseError::Pipe(e) => {
                let mut s = String::from_str("parent pipe error: ");
                s.append(e.as_str());
                s
            },
            ParentLeaseError::Expired => String::from_str("parent lease expired"),
        }
    }
}

pub open spec fn all_beats(bytes: Seq<u8>) -> bool {
    forall|i: int| 0 <= i < bytes.len() ==> bytes[i] == BEAT
}

/// The helper's check of its parent's lease: only heartbeats may arrive, and
/// they renew the lease; a closed or failed pipe ends it; so does a lease
/// older than the timeout.
pub open spec fn parent_check_spec(last: Instant, read: ParentRead, now: Instant) -> Result<Instant, ParentLeaseError> {
    let renewed = match read {
        ParentRead::Bytes(b) => if all_beats(b@) {
            Ok(now)
        } else {
            Err(ParentLeaseError::BadMessage)
        },
        ParentRead::Closed => Err(ParentLeaseError::Closed),
        ParentRead::Nothing => Ok(last),
        ParentRead::Failed(e) => Err(ParentLeaseError::Pipe(e)),
    };
    match renewed {
        Ok(t) => if elapsed(now, t) < LEASE_TIMEOUT_NANOS {
            Ok(t)
        } else {
            Err(ParentLeaseError::Expired)
        },
        Err(e) => Err(e),
    }
}

fn only_beats(bytes: &Vec<u8>) -> (b: bool)
    ensures
        b == all_beats(bytes@),
{
    let mut i: usize = 0;
    while i < bytes.len()
        invariant
            i <= bytes@.len(),
            forall|j: int| 0 <= j < i ==> bytes@[j] == BEAT,
        decreases bytes.len() - i,
    {
        if bytes[i] != BEAT {
            return false;
        }
        i += 1;
    }
    true
}

/// Checks the parent's lease after one read of its control pipe; the time of
/// the last heartbeat afterwards, or why the helper must stop.
pub fn parent_check(last: Instant, read: ParentRead, now: Instant) -> (r: Result<Instant, ParentLeaseError>)
    ensures
        r == parent_check_spec(last, read, now),
{
    let renewed = match read {
        ParentRead::Bytes(b) => {
            if only_beats(&b) {
                now
            } else {
                return Err(ParentLeaseError::BadMessage);
            }
        },
        ParentRead::Closed => {
            return Err(ParentLeaseError::Closed);
        },
        ParentRead::Nothing => last,
        ParentRead::Failed(e) => {
            return Err(ParentLeaseError::Pipe(e));
        },
    };
    if elapsed_nanos(now, renewed) < LEASE_TIMEOUT_NANOS {
        Ok(renewed)
    } else {
        Err(ParentLeaseError::Expired)
    }
}

/// Readiness is reported once at most: after the helper became ready, any
/// further message is a protocol error.
pub proof fn law_ready_once(s: HelperSupervisor, message: Seq<u8>, now: Instant)
    requires
        !s.awaiting_ready,
        message.len() > 0,
    ensures
        read_spec(s, message, now).1 == Err::<bool, HelperError>(HelperError::BadReadiness),
{
}

/// A heartbeat renews the lease: right after one, the lease has its whole
/// timeout left.
pub proof fn law_heartbeat_renews_lease(last_beat: Instant, now: Instant, bytes: Seq<u8>)
    requires
        input_verdict(bytes) == LeaseVerdict::Held,
    ensures
        lease_left(if input_verdict(bytes) == LeaseVerdict::Held { now } else { last_beat }, now)
            == LEASE_TIMEOUT_NANOS,
{
}

/// Once SIGTERM has gone out, a stop request never sends it again.
pub proof fn law_terminate_once(s: HelperSupervisor, stop: bool, now: Instant)
    requires
        s.stopping_since is Some,
    ensures
        !(poll_spec(s, None, stop, now).1 matches HelperAction::Proceed { terminate: true, .. }),
{
}

} // verus!
