//! In-process protocol for a host frontend: key history, inferred edits and
//! committed-plan transactions. Requests arrive decoded; the host frames them.
pub mod runtime;

use crate::engine::automatic::{
    automatic_spec, default_policy, prepare_automatic_with_dictionary, prepare_toggle, toggle_spec, AutoPolicy,
    LanguageModel,
};
use crate::engine::inferred::{suggest_with_policy, suggestion_spec};
use crate::engine::manual::{manual_spec, prepare_manual, Direction};
use crate::engine::user_dictionary::{list_error, views, UserDictionary};
use crate::engine::{confirms_spec, expired_at, InFlight, Plan, Rejection, Snapshot};
use crate::text::lowercase;
use crate::time::{Duration, Instant};
use runtime::{
    event_step, layout_step, learn_step, reset_view, result_step, Event, Outcome, Response, ResponseView, Runtime,
    RuntimeView,
};
use vstd::prelude::*;

verus! {

/// A decoded request.
pub enum Request {
    Protocol,
    KeyEvent { event: Event, automatic: bool },
    ResetContext,
    EditResult { id: u64, outcome: Outcome, time_ms: u64 },
    /// The host reports a layout change, its own or the user's.
    LayoutNotice { source: String, layout: String },
    LearnedAdd { word: String },
    LearnedClear,
    Prepare { state: Snapshot, reverse: bool },
    Smart { state: Snapshot, automatic: bool },
    Authorize { state: Snapshot },
    Observe { state: Snapshot },
    Infer { text: String, automatic: bool },
    Configure {
        words: Vec<String>,
        exclusions: Vec<String>,
        learned: Vec<String>,
        policy: AutoPolicy,
    },
    Cancel,
}

/// What the bridge answers.
pub enum Reply {
    /// An answer of the key-history runtime.
    Runtime(Response),
    /// Protocol version 3, profile `lang-id-aggressive`, replies of at most
    /// 32768 bytes.
    Protocol,
    /// A cancelled transaction whose edit may already have happened.
    Indeterminate,
    /// A cancelled transaction with no edit under way.
    Rejected,
    /// A refused plan or authorization, with the reason.
    Refused(Rejection),
    /// A plan is prepared.
    Ready,
    /// A plan is prepared; it converts in this direction.
    ReadyMode(Direction),
    Ignored,
    /// Delete `length` characters starting `offset` characters from the caret
    /// and type `replacement`.
    Edit { offset: i64, length: usize, replacement: String },
    Completed,
    Pending,
    /// A suggestion for the history sent with the request.
    Inferred { remove: usize, replacement: String, layout_only: bool, mode: Direction },
    Busy,
    Configured,
    InvalidDictionary,
}

impl Reply {
    /// The `status` word of the reply; a protocol reply has none.
    pub fn status(&self) -> (s: &'static str)
        ensures
            self is Runtime ==> (self matches Reply::Runtime(x) && s@ == runtime::status_of(x@)),
            self is Protocol ==> s@ == ""@,
            self is Indeterminate ==> s@ == "indeterminate"@,
            self is Rejected || self is Refused ==> s@ == "rejected"@,
            self is Ready || self is ReadyMode ==> s@ == "ready"@,
            self is Ignored ==> s@ == "ignored"@,
            self is Edit ==> s@ == "edit"@,
            self is Completed ==> s@ == "completed"@,
            self is Pending ==> s@ == "pending"@,
            self is Inferred ==> s@ == "inferred"@,
            self is Busy ==> s@ == "busy"@,
            self is Configured ==> s@ == "configured"@,
            self is InvalidDictionary ==> s@ == "invalid-dictionary"@,
    {
        match self {
            Reply::Runtime(x) => x.status(),
            Reply::Protocol => "",
            Reply::Indeterminate => "indeterminate",
            Reply::Rejected => "rejected",
            Reply::Refused(_) => "rejected",
            Reply::Ready => "ready",
            Reply::ReadyMode(_) => "ready",
            Reply::Ignored => "ignored",
            Reply::Edit { .. } => "edit",
            Reply::Completed => "completed",
            Reply::Pending => "pending",
            Reply::Inferred { .. } => "inferred",
            Reply::Busy => "busy",
            Reply::Configured => "configured",
            Reply::InvalidDictionary => "invalid-dictionary",
        }
    }
}

/// Protocol version spoken by `Reply::Protocol`.
pub const PROTOCOL_VERSION: u64 = 3;

/// Largest reply, in bytes.
pub const MAX_RESPONSE_BYTES: usize = 32768;

/// Largest request, in bytes.
pub const MAX_REQUEST_BYTES: usize = 524288;

/// How long a prepared plan stays valid, in milliseconds.
pub const PLAN_TTL_MS: u64 = 500;

pub open spec fn plan_ttl() -> Duration {
    Duration { nanos: 500_000_000 }
}

pub struct BridgeView {
    pub runtime: RuntimeView,
    pub dictionary: UserDictionary,
    pub policy: AutoPolicy,
    pub plan: Option<Plan>,
    /// The plan of the edit under way, once authorized.
    pub flight: Option<Plan>,
    pub deadline: Option<Instant>,
}

pub struct Bridge {
    runtime: Runtime,
    dictionary: UserDictionary,
    policy: AutoPolicy,
    plan: Option<Plan>,
    flight: Option<InFlight>,
    deadline: Option<Instant>,
}

impl View for Bridge {
    type V = BridgeView;

    closed spec fn view(&self) -> BridgeView {
        BridgeView {
            runtime: self.runtime@,
            dictionary: self.dictionary,
            policy: self.policy,
            plan: self.plan,
            flight: match self.flight {
                Some(f) => Some(f.authorized()),
                Option::None => None,
            },
            deadline: self.deadline,
        }
    }
}

/// Cancelling forgets the history, the plan, the edit under way and the deadline.
pub open spec fn cancelled(v: BridgeView) -> BridgeView {
    BridgeView {
        runtime: reset_view(v.runtime),
        plan: None,
        flight: None,
        deadline: None,
        ..v
    }
}

/// `Indeterminate` when an edit was under way, else `Rejected`.
pub open spec fn cancel_reply(v: BridgeView) -> Reply {
    if v.flight is Some {
        Reply::Indeterminate
    } else {
        Reply::Rejected
    }
}

pub open spec fn is_cancel(old: BridgeView, new: BridgeView, r: Reply) -> bool {
    new == cancelled(old) && r == cancel_reply(old)
}

/// `p` is the plan for `snapshot` that replaces `start..caret` by
/// `replacement`, giving `after`, made at `now`.
pub open spec fn plan_is(
    p: Plan,
    snapshot: Snapshot,
    start: int,
    replacement: Seq<char>,
    after: Seq<char>,
    now: Instant,
) -> bool {
    &&& p.before_state() == snapshot
    &&& p.start() == start
    &&& p.end() == snapshot.caret
    &&& p.replacement_text() == replacement
    &&& p.after() == after
    &&& p.created() == now
    &&& p.ttl() == plan_ttl()
}

pub open spec fn armed(v: BridgeView, p: Plan, now: Instant) -> BridgeView {
    BridgeView {
        plan: Some(p),
        deadline: Some(Instant { nanos: (now.nanos + 500_000_000) as u64 }),
        ..v
    }
}

pub open spec fn busy(v: BridgeView) -> bool {
    v.plan is Some || v.flight is Some
}

pub open spec fn runtime_reply(old: BridgeView, new: BridgeView, r: Reply, step: (RuntimeView, ResponseView)) -> bool {
    new == (BridgeView { runtime: step.0, ..old }) && (r matches Reply::Runtime(x) && x@ == step.1)
}

pub open spec fn prepare_post(v: BridgeView, state: Snapshot, reverse: bool, now: Instant, new: BridgeView, r: Reply) -> bool {
    if busy(v) {
        is_cancel(v, new, r)
    } else {
        let d = if reverse {
            Direction::RuToUs
        } else {
            Direction::UsToRu
        };
        match manual_spec(state, d) {
            Err(e) => new == v && r == Reply::Refused(e),
            Ok((start, replacement, after)) => r == Reply::Ready && (new.plan matches Some(p)
                && plan_is(p, state, start, replacement, after, now) && new == armed(v, p, now)),
        }
    }
}

pub open spec fn smart_post<M: LanguageModel>(v: BridgeView, state: Snapshot, automatic: bool, now: Instant, model: M, new: BridgeView, r: Reply) -> bool {
    if busy(v) {
        is_cancel(v, new, r)
    } else if automatic {
        match automatic_spec(state, model, v.dictionary) {
            Err(e) => new == v && r == Reply::Refused(e),
            Ok(Option::None) => new == v && r == Reply::Ignored,
            Ok(Some((start, d, replacement, after))) => r == Reply::ReadyMode(d) && (
            new.plan matches Some(p) && plan_is(p, state, start, replacement, after, now)
                && new == armed(v, p, now)),
        }
    } else {
        match toggle_spec(state) {
            Err(e) => new == v && r == Reply::Refused(e),
            Ok((d, (start, replacement, after))) => r == Reply::ReadyMode(d) && (
            new.plan matches Some(p) && plan_is(p, state, start, replacement, after, now)
                && new == armed(v, p, now)),
        }
    }
}

/// Authorizing consumes the plan: an edit starts only when the plan has not
/// expired and the host's current state is exactly the planned one.
pub open spec fn authorize_post(v: BridgeView, state: Snapshot, now: Instant, new: BridgeView, r: Reply) -> bool {
    match v.plan {
        Option::None => is_cancel(v, new, r),
        Some(p) => if expired_at(p.created(), p.ttl(), now) {
            new == (BridgeView { plan: None, deadline: None, ..v }) && r == Reply::Refused(
                Rejection::Expired,
            )
        } else if !state.same(p.before_state()) || state.check_spec() is Err {
            new == (BridgeView { plan: None, deadline: None, ..v }) && r == Reply::Refused(
                Rejection::Changed,
            )
        } else {
            new == (BridgeView { plan: None, flight: Some(p), ..v }) && (r matches Reply::Edit {
                offset,
                length,
                replacement,
            } && offset == p.start() - p.end() && length == p.end() - p.start()
                && replacement@ == p.replacement_text())
        },
    }
}

/// An edit under way completes only on a readback that confirms it; a
/// readback of another field or an invalid one cancels it as indeterminate.
pub open spec fn observe_post(v: BridgeView, state: Snapshot, new: BridgeView, r: Reply) -> bool {
    match v.flight {
        Option::None => is_cancel(v, new, r),
        Some(p) => if confirms_spec(p, state) {
            new == (BridgeView { flight: None, deadline: None, ..v }) && r == Reply::Completed
        } else if state.target != p.before_state().target || state.epoch
            != p.before_state().epoch || state.check_spec() is Err {
            is_cancel(v, new, r)
        } else {
            new == v && r == Reply::Pending
        },
    }
}

pub open spec fn infer_post<M: LanguageModel>(v: BridgeView, text: Seq<char>, automatic: bool, model: M, new: BridgeView, r: Reply) -> bool {
    if busy(v) {
        is_cancel(v, new, r)
    } else {
        new == v && match suggestion_spec(text, automatic, model, v.dictionary, v.policy) {
            Option::None => r == Reply::Ignored,
            Some((remove, replacement, mode, layout_only)) => r matches Reply::Inferred {
                remove: x,
                replacement: y,
                layout_only: z,
                mode: m,
            } && x == remove && y@ == replacement && z == layout_only && m == mode,
        }
    }
}

/// Configuration is refused while anything is under way and applied only
/// when the words (taught and learned together) and the exclusions all pass
/// the user-dictionary rules.
pub open spec fn configure_post(
    v: BridgeView,
    words: Seq<Seq<char>>,
    exclusions: Seq<Seq<char>>,
    learned: Seq<Seq<char>>,
    policy: AutoPolicy,
    new: BridgeView,
    r: Reply,
) -> bool {
    if busy(v) || v.runtime.pending is Some {
        new == v && r == Reply::Busy
    } else {
        let all = words + learned;
        if list_error(all) is Some || list_error(exclusions) is Some {
            new == v && r == Reply::InvalidDictionary
        } else {
            r == Reply::Configured && new.policy == policy && new.plan == v.plan && new.flight
                == v.flight && new.deadline == v.deadline && new.runtime == reset_view(
                RuntimeView { words, exclusions, learned, policy, ..v.runtime },
            ) && new.dictionary.word_set() == Set::new(
                |w: Seq<char>| exists|i: int| 0 <= i < all.len() && lowercase(all[i]) == w,
            ) && new.dictionary.exclusion_set() == Set::new(
                |w: Seq<char>| exists|i: int| 0 <= i < exclusions.len() && lowercase(exclusions[i]) == w,
            )
        }
    }
}

/// What a request does once it passed the deadline and pending checks.
pub open spec fn dispatch_post<M: LanguageModel>(
    v: BridgeView,
    request: Request,
    now: Instant,
    model: M,
    new: BridgeView,
    r: Reply,
) -> bool {
    match request {
        Request::Protocol => new == v && r == Reply::Protocol,
        Request::KeyEvent { event, automatic } => if busy(v) {
            is_cancel(v, new, r)
        } else {
            runtime_reply(v, new, r, event_step(v.runtime, event@, automatic, model, v.dictionary))
        },
        Request::ResetContext => runtime_reply(v, new, r, (reset_view(v.runtime), ResponseView::Reset)),
        Request::EditResult { id, outcome, time_ms } => runtime_reply(
            v,
            new,
            r,
            result_step(v.runtime, id, outcome, time_ms),
        ),
        Request::LayoutNotice { source, layout } => runtime_reply(v, new, r, layout_step(v.runtime, source@, layout@)),
        Request::LearnedAdd { word } => runtime_reply(v, new, r, learn_step(v.runtime, word@)),
        Request::LearnedClear => runtime_reply(v, new, r, (RuntimeView { learned: Seq::empty(), ..v.runtime }, ResponseView::Cleared)),
        Request::Prepare { state, reverse } => prepare_post(v, state, reverse, now, new, r),
        Request::Smart { state, automatic } => smart_post(v, state, automatic, now, model, new, r),
        Request::Authorize { state } => authorize_post(v, state, now, new, r),
        Request::Observe { state } => observe_post(v, state, new, r),
        Request::Infer { text, automatic } => infer_post(v, text@, automatic, model, new, r),
        Request::Configure { words, exclusions, learned, policy } => configure_post(v, views(words@), views(exclusions@), views(learned@), policy, new, r),
        Request::Cancel => is_cancel(v, new, r),
    }
}

/// Whether a request starts a new suggestion or plan.
pub open spec fn proposes(request: Request) -> bool {
    request is Prepare || request is Smart || request is Infer
}

/// What `Bridge::request` does: an undecodable request, a request at or after
/// the deadline, and a proposal while an inferred edit is pending cancel;
/// everything else is dispatched.
pub open spec fn request_post<M: LanguageModel>(
    v: BridgeView,
    request: Option<Request>,
    now: Instant,
    model: M,
    new: BridgeView,
    r: Reply,
) -> bool {
    match request {
        Option::None => is_cancel(v, new, r),
        Some(req) => if (v.deadline matches Some(d) && now.nanos >= d.nanos) || (
        v.runtime.pending is Some && proposes(req)) {
            is_cancel(v, new, r)
        } else {
            dispatch_post(v, req, now, model, new, r)
        },
    }
}

/// Copies the entries of `a` and then those of `b`.
fn joined(a: &Vec<String>, b: &Vec<String>) -> (r: Vec<String>)
    ensures
        views(r@) == views(a@) + views(b@),
{
    let mut r: Vec<String> = Vec::new();
    let mut i: usize = 0;
    while i < a.len()
        invariant
            i <= a@.len(),
            views(r@) == views(a@).take(i as int),
        decreases a.len() - i,
    {
        let ghost before = r@;
        r.push(a[i].clone());
        assert(views(r@) =~= views(before).push(a@[i as int]@));
        assert(views(a@).take(i + 1) =~= views(a@).take(i as int).push(a@[i as int]@));
        i += 1;
    }
    let mut j: usize = 0;
    while j < b.len()
        invariant
            i == a@.len(),
            j <= b@.len(),
            views(r@) == views(a@) + views(b@).take(j as int),
        decreases b.len() - j,
    {
        let ghost before = r@;
        r.push(b[j].clone());
        assert(views(r@) =~= views(before).push(b@[j as int]@));
        assert(views(b@).take(j + 1) =~= views(b@).take(j as int).push(b@[j as int]@));
        j += 1;
    }
    assert(views(a@).take(a@.len() as int) =~= views(a@));
    assert(views(b@).take(b@.len() as int) =~= views(b@));
    r
}

impl Bridge {
    pub fn new() -> (b: Bridge)
        ensures
            b@.runtime == runtime::initial_view(),
            b@.plan is None,
            b@.flight is None,
            b@.deadline is None,
            b@.dictionary.word_set() == Set::<Seq<char>>::empty(),
            b@.dictionary.exclusion_set() == Set::<Seq<char>>::empty(),
            b@.policy == default_policy(),
    {
        Bridge {
            runtime: Runtime::default(),
            dictionary: UserDictionary::empty(),
            policy: AutoPolicy::default(),
            plan: None,
            flight: None,
            deadline: None,
        }
    }

    /// Learned words currently held by the runtime.
    pub fn learned_words(&self) -> (r: &[String])
        ensures
            views(r@) == self@.runtime.learned,
    {
        self.runtime.learned_words()
    }

    /// Soft exclusions recorded from reverse undo.
    pub fn soft_exclusions(&self) -> (r: &[String])
        ensures
            views(r@) == self@.runtime.exclusions,
    {
        self.runtime.exclusions()
    }

    /// Cancels the transaction: forgets the history, the plan, the edit under
    /// way and the deadline.
    fn cancel(&mut self) -> (r: Reply)
        ensures
            is_cancel(old(self)@, final(self)@, r),
    {
        self.runtime.reset();
        self.plan = None;
        self.deadline = None;
        let mut flight: Option<InFlight> = None;
        std::mem::swap(&mut flight, &mut self.flight);
        if flight.is_some() {
            Reply::Indeterminate
        } else {
            Reply::Rejected
        }
    }

    /// One call through the host's byte interface: an input longer than
    /// `MAX_REQUEST_BYTES` cancels the transaction and gets no reply;
    /// otherwise the request is handled.
    pub fn call<M: LanguageModel>(&mut self, input_len: usize, request: Option<Request>, now: Instant, model: &M) -> (r:
        Option<Reply>)
        requires
            now.nanos + 500_000_000 <= u64::MAX,
        ensures
            input_len > MAX_REQUEST_BYTES ==> r is None && final(self)@ == cancelled(old(self)@),
            input_len <= MAX_REQUEST_BYTES ==> (r matches Some(reply) && request_post(
                old(self)@,
                request,
                now,
                *model,
                final(self)@,
                reply,
            )),
    {
        if input_len > MAX_REQUEST_BYTES {
            self.cancel();
            return None;
        }
        Some(self.request(request, now, model))
    }

    /// Whether an encoded reply of `len` bytes fits the host's buffer; one
    /// that does not cancels the transaction.
    pub fn reply_fits(&mut self, len: usize) -> (b: bool)
        ensures
            b == (len <= MAX_RESPONSE_BYTES),
            b ==> final(self)@ == old(self)@,
            !b ==> final(self)@ == cancelled(old(self)@),
    {
        if len > MAX_RESPONSE_BYTES {
            self.cancel();
            false
        } else {
            true
        }
    }

    fn arm(&mut self, plan: Plan, now: Instant)
        requires
            now.nanos + 500_000_000 <= u64::MAX,
        ensures
            final(self)@ == armed(old(self)@, plan, now),
    {
        self.plan = Some(plan);
        self.deadline = Some(Instant { nanos: now.nanos + 500_000_000 });
    }

    /// Handles one request; `None` stands for bytes that did not decode.
    /// `model` identifies the language of a committed word.
    pub fn request<M: LanguageModel>(&mut self, request: Option<Request>, now: Instant, model: &M) -> (r:
        Reply)
        requires
            now.nanos + 500_000_000 <= u64::MAX,
        ensures
            request_post(old(self)@, request, now, *model, final(self)@, r),
    {
        let request = match request {
            Some(q) => q,
            None => {
                return self.cancel();
            },
        };
        let late = match self.deadline {
            Some(d) => now.nanos >= d.nanos,
            None => false,
        };
        if late {
            return self.cancel();
        }
        let proposal = match &request {
            Request::Prepare { .. } | Request::Smart { .. } | Request::Infer { .. } => true,
            _ => false,
        };
        if self.runtime.is_pending() && proposal {
            return self.cancel();
        }
        self.dispatch(request, now, model)
    }

    fn prepare(&mut self, state: Snapshot, reverse: bool, now: Instant) -> (r: Reply)
        requires
            now.nanos + 500_000_000 <= u64::MAX,
        ensures
            prepare_post(old(self)@, state, reverse, now, final(self)@, r),
    {
        if self.plan.is_some() || self.flight.is_some() {
            return self.cancel();
        }
        let direction = if reverse {
            Direction::RuToUs
        } else {
            Direction::UsToRu
        };
        match prepare_manual(state, direction, now, Duration::from_millis(PLAN_TTL_MS)) {
            Ok(plan) => {
                self.arm(plan, now);
                Reply::Ready
            },
            Err(reason) => Reply::Refused(reason),
        }
    }

    fn smart<M: LanguageModel>(&mut self, state: Snapshot, automatic: bool, now: Instant, model: &M) -> (r: Reply)
        requires
            now.nanos + 500_000_000 <= u64::MAX,
        ensures
            smart_post(old(self)@, state, automatic, now, *model, final(self)@, r),
    {
        if self.plan.is_some() || self.flight.is_some() {
            return self.cancel();
        }
        let ttl = Duration::from_millis(PLAN_TTL_MS);
        if automatic {
            match prepare_automatic_with_dictionary(state, now, ttl, &self.dictionary, model) {
                Ok(Some((plan, direction))) => {
                    self.arm(plan, now);
                    Reply::ReadyMode(direction)
                },
                Ok(None) => Reply::Ignored,
                Err(reason) => Reply::Refused(reason),
            }
        } else {
            match prepare_toggle(state, now, ttl) {
                Ok((plan, direction)) => {
                    self.arm(plan, now);
                    Reply::ReadyMode(direction)
                },
                Err(reason) => Reply::Refused(reason),
            }
        }
    }

    fn authorize(&mut self, state: Snapshot, now: Instant) -> (r: Reply)
        ensures
            authorize_post(old(self)@, state, now, final(self)@, r),
    {
        let mut taken: Option<Plan> = None;
        std::mem::swap(&mut taken, &mut self.plan);
        let plan = match taken {
            Some(p) => p,
            None => {
                return self.cancel();
            },
        };
        match InFlight::begin(plan, &state, now) {
            Ok(edit) => {
                let range = edit.plan().range();
                let span = range.end - range.start;
                let replacement = String::from_str(edit.plan().replacement());
                self.flight = Some(edit);
                Reply::Edit { offset: -(span as i64), length: span, replacement }
            },
            Err(reason) => {
                self.deadline = None;
                Reply::Refused(reason)
            },
        }
    }

    fn observe(&mut self, state: Snapshot) -> (r: Reply)
        ensures
            observe_post(old(self)@, state, final(self)@, r),
    {
        let confirmed;
        let foreign;
        match &self.flight {
            None => {
                return self.cancel();
            },
            Some(edit) => {
                confirmed = edit.confirms(&state);
                let before = edit.plan().before();
                foreign = state.target != before.target || state.epoch != before.epoch
                    || state.check().is_err();
            },
        }
        if confirmed {
            let mut taken: Option<InFlight> = None;
            std::mem::swap(&mut taken, &mut self.flight);
            match taken {
                Some(edit) => {
                    edit.finish(Some(&state));
                },
                None => {},
            }
            self.deadline = None;
            Reply::Completed
        } else if foreign {
            self.cancel()
        } else {
            Reply::Pending
        }
    }

    fn infer<M: LanguageModel>(&mut self, text: String, automatic: bool, model: &M) -> (r: Reply)
        ensures
            infer_post(old(self)@, text@, automatic, *model, final(self)@, r),
    {
        if self.plan.is_some() || self.flight.is_some() {
            return self.cancel();
        }
        match suggest_with_policy(text.as_str(), automatic, &self.dictionary, &self.policy, model) {
            Some(candidate) => Reply::Inferred {
                remove: candidate.remove,
                replacement: candidate.replacement,
                layout_only: candidate.layout_only,
                mode: candidate.direction,
            },
            None => Reply::Ignored,
        }
    }

    fn configure(&mut self, words: Vec<String>, exclusions: Vec<String>, learned: Vec<String>, policy: AutoPolicy) -> (r: Reply)
        ensures
            configure_post(old(self)@, views(words@), views(exclusions@), views(learned@), policy, final(self)@, r),
    {
        if self.plan.is_some() || self.flight.is_some() || self.runtime.is_pending() {
            return Reply::Busy;
        }
        let all_words = joined(&words, &learned);
        let no_more: Vec<String> = Vec::new();
        let excluded = joined(&exclusions, &no_more);
        proof {
            assert(views(exclusions@) + views(no_more@) =~= views(exclusions@));
        }
        let ghost aw = all_words@;
        let ghost ex = excluded@;
        match UserDictionary::new(all_words, excluded) {
            Ok(dictionary) => {
                proof {
                    let all = views(words@) + views(learned@);
                    assert(dictionary.word_set() =~= Set::new(
                        |w: Seq<char>| exists|i: int| 0 <= i < all.len() && lowercase(all[i]) == w,
                    )) by {
                        assert forall|w: Seq<char>| #![auto] dictionary.word_set().contains(w) implies (exists|i: int| 0 <= i < all.len() && lowercase(all[i]) == w) by {
                            let i = choose|i: int| 0 <= i < aw.len() && lowercase(aw[i]@) == w;
                            assert(views(aw)[i] == aw[i]@);
                        }
                        assert forall|w: Seq<char>| #![auto] (exists|i: int| 0 <= i < all.len() && lowercase(all[i]) == w) implies dictionary.word_set().contains(w) by {
                            let i = choose|i: int| 0 <= i < all.len() && lowercase(all[i]) == w;
                            assert(views(aw)[i] == aw[i]@);
                        }
                    }
                    let xs = views(exclusions@);
                    assert(dictionary.exclusion_set() =~= Set::new(
                        |w: Seq<char>| exists|i: int| 0 <= i < xs.len() && lowercase(xs[i]) == w,
                    )) by {
                        assert forall|w: Seq<char>| #![auto] dictionary.exclusion_set().contains(w) implies (exists|i: int| 0 <= i < xs.len() && lowercase(xs[i]) == w) by {
                            let i = choose|i: int| 0 <= i < ex.len() && lowercase(ex[i]@) == w;
                            assert(views(ex)[i] == ex[i]@);
                        }
                        assert forall|w: Seq<char>| #![auto] (exists|i: int| 0 <= i < xs.len() && lowercase(xs[i]) == w) implies dictionary.exclusion_set().contains(w) by {
                            let i = choose|i: int| 0 <= i < xs.len() && lowercase(xs[i]) == w;
                            assert(views(ex)[i] == ex[i]@);
                        }
                    }
                }
                self.policy = policy;
                self.runtime.configure(words, exclusions, learned, policy);
                self.dictionary = dictionary;
                Reply::Configured
            },
            Err(_) => Reply::InvalidDictionary,
        }
    }

    fn dispatch<M: LanguageModel>(&mut self, request: Request, now: Instant, model: &M) -> (r: Reply)
        requires
            now.nanos + 500_000_000 <= u64::MAX,
        ensures
            dispatch_post(old(self)@, request, now, *model, final(self)@, r),
    {
        match request {
            Request::Protocol => Reply::Protocol,
            Request::KeyEvent { event, automatic } => {
                if self.plan.is_some() || self.flight.is_some() {
                    return self.cancel();
                }
                Reply::Runtime(self.runtime.event(event, automatic, &self.dictionary, model))
            },
            Request::ResetContext => {
                self.runtime.reset();
                Reply::Runtime(Response::Reset)
            },
            Request::EditResult { id, outcome, time_ms } => Reply::Runtime(
                self.runtime.result(id, outcome, time_ms, &self.dictionary),
            ),
            Request::LayoutNotice { source, layout } => Reply::Runtime(
                self.runtime.layout_notice(source.as_str(), layout.as_str()),
            ),
            Request::LearnedAdd { word } => Reply::Runtime(self.runtime.learn_add(word)),
            Request::LearnedClear => Reply::Runtime(self.runtime.learn_clear()),
            Request::Prepare { state, reverse } => self.prepare(state, reverse, now),
            Request::Smart { state, automatic } => self.smart(state, automatic, now, model),
            Request::Authorize { state } => self.authorize(state, now),
            Request::Observe { state } => self.observe(state),
            Request::Infer { text, automatic } => self.infer(text, automatic, model),
            Request::Configure { words, exclusions, learned, policy } => self.configure(words, exclusions, learned, policy),
            Request::Cancel => self.cancel(),
        }
    }
}

impl Default for Bridge {
    fn default() -> (b: Bridge)
        ensures
            b@.runtime == runtime::initial_view(),
            b@.plan is None,
            b@.flight is None,
            b@.deadline is None,
    {
        Bridge::new()
    }
}


/// A request is answered `Completed` only when it is a readback that confirms
/// the plan of the edit under way.
pub proof fn law_completed_only_on_confirming_readback<M: LanguageModel>(
    v: BridgeView,
    request: Option<Request>,
    now: Instant,
    model: M,
    new: BridgeView,
    r: Reply,
)
    requires
        request_post(v, request, now, model, new, r),
        r == Reply::Completed,
    ensures
        request matches Some(Request::Observe { state }) && (v.flight matches Some(p)
            && confirms_spec(p, state)),
        new.flight is None,
{
}

/// A plan or an edit under way is never replaced: a new proposal cancels the
/// transaction instead, and an edit that may have happened is reported
/// indeterminate.
pub proof fn law_transaction_never_replaced<M: LanguageModel>(
    v: BridgeView,
    request: Request,
    now: Instant,
    model: M,
    new: BridgeView,
    r: Reply,
)
    requires
        request_post(v, Some(request), now, model, new, r),
        busy(v),
        request is Prepare || request is Smart || request is Infer,
    ensures
        new.plan is None,
        new.flight is None,
        v.flight is Some ==> r == Reply::Indeterminate,
{
}
} // verus!
