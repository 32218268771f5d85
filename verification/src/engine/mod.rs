//! Committed-text/range profile for cooperating editors: fresh snapshots,
//! authorized range plans, and an executor that never retries an edit whose
//! effect it could not confirm.
use crate::text::{
    append_chars, byte_len, ends_with_at, is_space_char, is_whitespace, lemma_byte_len_at_least_len,
    lemma_byte_len_concat, prefix_bytes, push_char, str_len, string_from, to_chars,
};
use crate::time::{Duration, Instant};
use vstd::prelude::*;

pub mod automatic;
pub mod inferred;
pub mod manual;
pub mod user_dictionary;

verus! {

/// Largest committed document, in UTF-8 bytes, that an edit plan may touch.
pub const MAX_DOCUMENT_BYTES: usize = 16384;

/// Largest replacement, in UTF-8 bytes.
pub const MAX_REPLACEMENT_BYTES: usize = 4096;

/// A fresh observation of one editor field. `caret` and `anchor` count Unicode
/// scalars, not bytes.
#[derive(Debug)]
pub struct Snapshot {
    pub target: u64,
    pub epoch: u64,
    pub revision: u64,
    pub text: String,
    pub caret: usize,
    pub anchor: usize,
    pub focused: Option<bool>,
    pub normal_field: Option<bool>,
    pub composing: Option<bool>,
    pub modifiers_clear: Option<bool>,
    pub unicode_range: Option<bool>,
}

#[derive(Debug, Clone, Copy, PartialEq, Eq, Structural)]
pub enum Origin {
    CommittedUser,
    OwnReplacement,
    Unknown,
}

#[derive(Debug, Clone, Copy, PartialEq, Eq, Structural)]
pub enum Rejection {
    Context,
    Selection,
    Unsupported,
    InvalidRange,
    Limit,
    Changed,
    Expired,
    Origin,
    InvalidSnippet,
}

#[derive(Debug, Clone, Copy, PartialEq, Eq, Structural)]
pub enum Outcome {
    Completed,
    FailedBeforeEdit(Rejection),
    IndeterminateAfterEdit,
}

#[derive(Debug, Clone, Copy, PartialEq, Eq, Structural)]
pub enum ApplyResult {
    Applied,
    Rejected(Rejection),
    Indeterminate,
}

impl Snapshot {
    /// Field-by-field equality, strings compared by their characters.
    pub open spec fn same(self, other: Snapshot) -> bool {
        &&& self.target == other.target
        &&& self.epoch == other.epoch
        &&& self.revision == other.revision
        &&& self.text@ == other.text@
        &&& self.caret == other.caret
        &&& self.anchor == other.anchor
        &&& self.focused == other.focused
        &&& self.normal_field == other.normal_field
        &&& self.composing == other.composing
        &&& self.modifiers_clear == other.modifiers_clear
        &&& self.unicode_range == other.unicode_range
    }

    /// Whether every context guard is positively known to allow an edit.
    pub open spec fn context_known(self) -> bool {
        &&& self.target != 0
        &&& self.focused == Some(true)
        &&& self.normal_field == Some(true)
        &&& self.composing == Some(false)
        &&& self.modifiers_clear == Some(true)
    }

    /// What `check` answers: the first failing guard in a fixed order.
    pub open spec fn check_spec(self) -> Result<(), Rejection> {
        if byte_len(self.text@) > MAX_DOCUMENT_BYTES {
            Err(Rejection::Limit)
        } else if !self.context_known() {
            Err(Rejection::Context)
        } else if self.unicode_range != Some(true) {
            Err(Rejection::Unsupported)
        } else if self.caret != self.anchor {
            Err(Rejection::Selection)
        } else if self.caret > self.text@.len() {
            Err(Rejection::InvalidRange)
        } else {
            Ok(())
        }
    }

    /// Refuses a snapshot unless it is bounded, focused in a normal field with
    /// no composition, known-clear modifiers, Unicode range editing, an empty
    /// selection and a caret inside the text.
    pub fn check(&self) -> (r: Result<(), Rejection>)
        ensures
            r == self.check_spec(),
    {
        if str_len(self.text.as_str()) > MAX_DOCUMENT_BYTES {
            return Err(Rejection::Limit);
        }
        if self.target == 0 || !matches!(self.focused, Some(true)) || !matches!(
            self.normal_field,
            Some(true)
        ) || !matches!(self.composing, Some(false)) || !matches!(
            self.modifiers_clear,
            Some(true)
        ) {
            return Err(Rejection::Context);
        }
        if !matches!(self.unicode_range, Some(true)) {
            return Err(Rejection::Unsupported);
        }
        if self.caret != self.anchor {
            return Err(Rejection::Selection);
        }
        if self.caret > self.text.as_str().unicode_len() {
            return Err(Rejection::InvalidRange);
        }
        Ok(())
    }

    /// Field-by-field comparison.
    pub fn same_as(&self, other: &Snapshot) -> (b: bool)
        ensures
            b == self.same(*other),
    {
        self.target == other.target && self.epoch == other.epoch && self.revision
            == other.revision && self.text == other.text && self.caret == other.caret
            && self.anchor == other.anchor && opt_eq(self.focused, other.focused) && opt_eq(
            self.normal_field,
            other.normal_field,
        ) && opt_eq(self.composing, other.composing) && opt_eq(
            self.modifiers_clear,
            other.modifiers_clear,
        ) && opt_eq(self.unicode_range, other.unicode_range)
    }
}

fn opt_eq(a: Option<bool>, b: Option<bool>) -> (r: bool)
    ensures
        r == (a == b),
{
    match (a, b) {
        (Some(x), Some(y)) => x == y,
        (None, None) => true,
        _ => false,
    }
}

impl Clone for Snapshot {
    fn clone(&self) -> (r: Snapshot)
        ensures
            r == *self,
    {
        Snapshot {
            target: self.target,
            epoch: self.epoch,
            revision: self.revision,
            text: self.text.clone(),
            caret: self.caret,
            anchor: self.anchor,
            focused: self.focused,
            normal_field: self.normal_field,
            composing: self.composing,
            modifiers_clear: self.modifiers_clear,
            unicode_range: self.unicode_range,
        }
    }
}

impl PartialEq for Snapshot {
    fn eq(&self, other: &Snapshot) -> (r: bool) {
        self.same_as(other)
    }
}

impl vstd::std_specs::cmp::PartialEqSpecImpl for Snapshot {
    open spec fn obeys_eq_spec() -> bool {
        true
    }

    open spec fn eq_spec(&self, other: &Snapshot) -> bool {
        self.same(*other)
    }
}

/// The characters of `text` with `text[start..end]` replaced by `rep`.
pub open spec fn replaced(text: Seq<char>, start: int, end: int, rep: Seq<char>) -> Seq<char> {
    text.take(start) + rep + text.skip(end)
}

/// What `replace_chars` answers.
pub open spec fn replace_spec(text: Seq<char>, start: int, end: int, rep: Seq<char>) -> Result<
    Seq<char>,
    Rejection,
> {
    if start > end || end > text.len() {
        Err(Rejection::InvalidRange)
    } else if byte_len(replaced(text, start, end, rep)) > MAX_DOCUMENT_BYTES {
        Err(Rejection::Limit)
    } else {
        Ok(replaced(text, start, end, rep))
    }
}

/// Byte offset of the `scalar`-th character boundary, or `None` past the end.
pub fn byte_offset(text: &str, scalar: usize) -> (r: Option<usize>)
    ensures
        match r {
            Some(b) => scalar <= text@.len() && b == byte_len(text@.take(scalar as int)),
            None => scalar > text@.len(),
        },
{
    let total = str_len(text);
    let chars = to_chars(text);
    if scalar > chars.len() {
        return None;
    }
    Some(prefix_bytes(&chars, scalar))
}

/// Replaces the characters `range` of `text`, refusing a bad range or a result
/// over the document limit.
pub fn replace_chars(text: &str, range: std::ops::Range<usize>, replacement: &str) -> (r: Result<
    String,
    Rejection,
>)
    ensures
        match r {
            Ok(s) => replace_spec(text@, range.start as int, range.end as int, replacement@) == Ok::<
                Seq<char>,
                Rejection,
            >(s@),
            Err(e) => replace_spec(text@, range.start as int, range.end as int, replacement@)
                == Err::<Seq<char>, Rejection>(e),
        },
{
    let chars = to_chars(text);
    if range.start > range.end || range.end > chars.len() {
        return Err(Rejection::InvalidRange);
    }
    let rep = to_chars(replacement);
    let mut out = string_from(&chars, 0, range.start);
    append_chars(&mut out, &rep, 0, rep.len());
    append_chars(&mut out, &chars, range.end, chars.len());
    proof {
        assert(rep@.subrange(0, rep@.len() as int) =~= rep@);
        assert(chars@.subrange(0, range.start as int) =~= chars@.take(range.start as int));
        assert(chars@.subrange(range.end as int, chars@.len() as int) =~= chars@.skip(
            range.end as int,
        ));
    }
    if str_len(out.as_str()) > MAX_DOCUMENT_BYTES {
        return Err(Rejection::Limit);
    }
    Ok(out)
}

/// Whether a plan created at `created` with lifetime `ttl` has expired at `now`.
/// A clock reading before the creation time also counts as expired.
pub open spec fn expired_at(created: Instant, ttl: Duration, now: Instant) -> bool {
    now.nanos < created.nanos || now.nanos - created.nanos >= ttl.nanos
}

/// A move-only edit transaction: replace `before.text[start..end]` by
/// `replacement`, which must yield `after_text` with the caret at `after_caret`.
pub struct Plan {
    before: Snapshot,
    start: usize,
    end: usize,
    replacement: String,
    after_text: String,
    after_caret: usize,
    created: Instant,
    ttl: Duration,
}

impl Plan {
    pub closed spec fn before_state(self) -> Snapshot {
        self.before
    }

    pub closed spec fn start(self) -> int {
        self.start as int
    }

    pub closed spec fn end(self) -> int {
        self.end as int
    }

    pub closed spec fn replacement_text(self) -> Seq<char> {
        self.replacement@
    }

    /// The text once the plan is applied.
    pub open spec fn after(self) -> Seq<char> {
        replaced(self.before_state().text@, self.start(), self.end(), self.replacement_text())
    }

    /// The caret once the plan is applied: just after the replacement.
    pub open spec fn after_caret(self) -> int {
        self.start() + self.replacement_text().len()
    }

    pub closed spec fn created(self) -> Instant {
        self.created
    }

    pub closed spec fn ttl(self) -> Duration {
        self.ttl
    }

    /// Every plan replaces a range that ends at the caret of a snapshot that
    /// passed `check`, and records the resulting text and caret.
    #[verifier::type_invariant]
    pub closed spec fn well_formed(self) -> bool {
        &&& self.before.check_spec() == Ok::<(), Rejection>(())
        &&& self.start <= self.end
        &&& self.end == self.before.caret
        &&& self.after_text@ == replaced(
            self.before.text@,
            self.start as int,
            self.end as int,
            self.replacement@,
        )
        &&& byte_len(self.after_text@) <= MAX_DOCUMENT_BYTES
        &&& self.after_caret == self.start + self.replacement@.len()
    }

    /// Builds a plan; the caller supplies a checked snapshot and the result of
    /// `replace_chars` for the range that ends at its caret.
    pub(crate) fn assemble(
        before: Snapshot,
        start: usize,
        replacement: String,
        after_text: String,
        created: Instant,
        ttl: Duration,
    ) -> (p: Plan)
        requires
            before.check_spec() == Ok::<(), Rejection>(()),
            start <= before.caret,
            replace_spec(before.text@, start as int, before.caret as int, replacement@) == Ok::<
                Seq<char>,
                Rejection,
            >(after_text@),
        ensures
            p.before_state() == before,
            p.start() == start,
            p.end() == before.caret,
            p.replacement_text() == replacement@,
            p.after() == after_text@,
            p.after_caret() == start + replacement@.len(),
            p.created() == created,
            p.ttl() == ttl,
    {
        let end = before.caret;
        proof {
            lemma_byte_len_at_least_len(replacement@);
            lemma_byte_len_concat(before.text@.take(start as int) + replacement@, before.text@.skip(end as int));
            lemma_byte_len_concat(before.text@.take(start as int), replacement@);
            lemma_byte_len_at_least_len(after_text@);
            assert(after_text@.len() == start + replacement@.len() + before.text@.skip(end as int).len());
        }
        let after_caret = start + replacement.as_str().unicode_len();
        Plan { before, start, end, replacement, after_text, after_caret, created, ttl }
    }

    /// Expired once `ttl` has elapsed since creation, or when the clock reads
    /// earlier than the creation time.
    pub fn expired(&self, now: Instant) -> (b: bool)
        ensures
            b == expired_at(self.created(), self.ttl(), now),
    {
        match now.checked_duration_since(self.created) {
            Some(age) => !(age.nanos < self.ttl.nanos),
            None => true,
        }
    }

    pub fn before(&self) -> (s: &Snapshot)
        ensures
            *s == self.before_state(),
    {
        &self.before
    }

    pub fn range(&self) -> (r: std::ops::Range<usize>)
        ensures
            r.start == self.start(),
            r.end == self.end(),
            r.start <= r.end,
            r.end == self.before_state().caret,
            r.end <= MAX_DOCUMENT_BYTES,
    {
        proof {
            use_type_invariant(self);
            lemma_byte_len_at_least_len(self.before.text@);
        }
        self.start..self.end
    }

    pub fn replacement(&self) -> (r: &str)
        ensures
            r@ == self.replacement_text(),
    {
        self.replacement.as_str()
    }
}

/// One static text rule, `:trigger` followed by Space.
pub struct StaticSnippet {
    suffix: String,
    replacement: String,
}

/// Whether a trigger/replacement pair is acceptable as a rule.
pub open spec fn snippet_valid(trigger: Seq<char>, replacement: Seq<char>) -> bool {
    &&& trigger.len() >= 2
    &&& trigger[0] == ':'
    &&& trigger.len() <= 64
    &&& forall|i: int| 0 <= i < trigger.len() ==> !is_space_char(#[trigger] trigger[i]) && trigger[i]
        != '\0'
    &&& forall|i: int| 0 <= i < replacement.len() ==> #[trigger] replacement[i] != '\0'
}

/// Where a rule with the given suffix matches before the caret: the start of
/// the trigger, when the suffix ends at the caret and is preceded by the start
/// of text or whitespace.
pub open spec fn snippet_start(suffix: Seq<char>, text: Seq<char>, caret: int) -> Option<int> {
    let k = suffix.len() as int;
    if k <= caret && text.subrange(caret - k, caret) == suffix && (caret - k == 0
        || is_space_char(text[caret - k - 1])) {
        Some(caret - k)
    } else {
        None
    }
}

impl StaticSnippet {
    pub closed spec fn suffix(self) -> Seq<char> {
        self.suffix@
    }

    pub closed spec fn output(self) -> Seq<char> {
        self.replacement@
    }

    /// Accepts `:name` triggers of 2 to 64 characters without whitespace or NUL
    /// and a NUL-free replacement of at most 4095 bytes. The rule matches the
    /// trigger followed by one Space and writes the replacement and one Space.
    pub fn new(trigger: &str, replacement: &str) -> (r: Result<StaticSnippet, Rejection>)
        ensures
            !snippet_valid(trigger@, replacement@) ==> r == Err::<StaticSnippet, Rejection>(
                Rejection::InvalidSnippet,
            ),
            snippet_valid(trigger@, replacement@) && byte_len(replacement@) + 1
                > MAX_REPLACEMENT_BYTES ==> r == Err::<StaticSnippet, Rejection>(Rejection::Limit),
            snippet_valid(trigger@, replacement@) && byte_len(replacement@) + 1
                <= MAX_REPLACEMENT_BYTES ==> (r matches Ok(s) && s.suffix() == trigger@.push(' ')
                && s.output() == replacement@.push(' ')),
    {
        let t = to_chars(trigger);
        let rep = to_chars(replacement);
        let mut ok = t.len() >= 2 && t[0] == ':' && t.len() <= 64;
        let mut i: usize = 0;
        while i < t.len()
            invariant
                i <= t@.len(),
                t@ == trigger@,
                ok == (t@.len() >= 2 && t@[0] == ':' && t@.len() <= 64 && forall|j: int|
                    0 <= j < i ==> !is_space_char(#[trigger] t@[j]) && t@[j] != '\0'),
            decreases t.len() - i,
        {
            if is_whitespace(t[i]) || t[i] == '\0' {
                ok = false;
            }
            i += 1;
        }
        let mut j: usize = 0;
        while j < rep.len()
            invariant
                j <= rep@.len(),
                rep@ == replacement@,
                ok == (t@.len() >= 2 && t@[0] == ':' && t@.len() <= 64 && (forall|k: int|
                    0 <= k < t@.len() ==> !is_space_char(#[trigger] t@[k]) && t@[k] != '\0')
                    && forall|k: int| 0 <= k < j ==> #[trigger] rep@[k] != '\0'),
            decreases rep.len() - j,
        {
            if rep[j] == '\0' {
                ok = false;
            }
            j += 1;
        }
        if !ok {
            return Err(Rejection::InvalidSnippet);
        }
        if str_len(replacement) >= MAX_REPLACEMENT_BYTES {
            return Err(Rejection::Limit);
        }
        let mut suffix = String::from_str(trigger);
        push_char(&mut suffix, ' ');
        let mut out = String::from_str(replacement);
        push_char(&mut out, ' ');
        Ok(StaticSnippet { suffix, replacement: out })
    }

    /// Plans the expansion of a trigger that the user has just committed,
    /// followed by the delimiter Space, ending at the caret. Own or unknown
    /// output never plans; no match is `Ok(None)`.
    pub fn prepare(&self, snapshot: Snapshot, origin: Origin, now: Instant, ttl: Duration) -> (r:
        Result<Option<Plan>, Rejection>)
        ensures
            origin != Origin::CommittedUser ==> r == Err::<Option<Plan>, Rejection>(
                Rejection::Origin,
            ),
            origin == Origin::CommittedUser && snapshot.check_spec() is Err ==> r == Err::<
                Option<Plan>,
                Rejection,
            >(snapshot.check_spec()->Err_0),
            origin == Origin::CommittedUser && snapshot.check_spec() is Ok ==> match snippet_start(
                self.suffix(),
                snapshot.text@,
                snapshot.caret as int,
            ) {
                None => r == Ok::<Option<Plan>, Rejection>(None),
                Some(start) => match replace_spec(
                    snapshot.text@,
                    start,
                    snapshot.caret as int,
                    self.output(),
                ) {
                    Err(e) => r == Err::<Option<Plan>, Rejection>(e),
                    Ok(after) => r matches Ok(Some(p)) && p.before_state() == snapshot && p.start()
                        == start && p.end() == snapshot.caret && p.replacement_text()
                        == self.output() && p.after() == after && p.created() == now && p.ttl()
                        == ttl,
                },
            },
    {
        if !matches!(origin, Origin::CommittedUser) {
            return Err(Rejection::Origin);
        }
        match snapshot.check() {
            Err(e) => {
                return Err(e);
            },
            Ok(()) => {},
        }
        let chars = to_chars(snapshot.text.as_str());
        let suffix = to_chars(self.suffix.as_str());
        let caret = snapshot.caret;
        if !ends_with_at(&chars, caret, &suffix) {
            return Ok(None);
        }
        let start = caret - suffix.len();
        if start > 0 && !is_whitespace(chars[start - 1]) {
            return Ok(None);
        }
        let after = replace_chars(snapshot.text.as_str(), start..caret, self.replacement.as_str());
        match after {
            Err(e) => Err(e),
            Ok(after_text) => {
                let replacement = self.replacement.clone();
                Ok(Some(Plan::assemble(snapshot, start, replacement, after_text, now, ttl)))
            },
        }
    }
}

/// A snapshot confirms a plan when it passes `check`, names the same target and
/// epoch at a later revision, and shows exactly the planned text and caret
/// with an empty selection.
pub open spec fn confirms_spec(plan: Plan, after: Snapshot) -> bool {
    &&& after.check_spec() is Ok
    &&& after.target == plan.before_state().target
    &&& after.epoch == plan.before_state().epoch
    &&& after.revision > plan.before_state().revision
    &&& after.text@ == plan.after()
    &&& after.caret == plan.after_caret()
    &&& after.anchor == plan.after_caret()
}

/// An edit authorized against a fresh snapshot. It is kept until readback or
/// timeout; dropping it never authorizes a retry.
pub struct InFlight {
    plan: Plan,
}

impl InFlight {
    pub closed spec fn authorized(self) -> Plan {
        self.plan
    }

    /// Authorizes a plan when it has not expired and the current snapshot is
    /// exactly the one the plan was made from and still passes `check`.
    pub fn begin(plan: Plan, current: &Snapshot, now: Instant) -> (r: Result<InFlight, Rejection>)
        ensures
            expired_at(plan.created(), plan.ttl(), now) ==> r matches Err(Rejection::Expired),
            !expired_at(plan.created(), plan.ttl(), now) && (!current.same(plan.before_state())
                || current.check_spec() is Err) ==> r matches Err(Rejection::Changed),
            !expired_at(plan.created(), plan.ttl(), now) && current.same(plan.before_state())
                && current.check_spec() is Ok ==> (r matches Ok(f) && f.authorized() == plan),
    {
        if plan.expired(now) {
            return Err(Rejection::Expired);
        }
        if !current.same_as(&plan.before) || current.check().is_err() {
            return Err(Rejection::Changed);
        }
        Ok(InFlight { plan })
    }

    pub fn plan(&self) -> (p: &Plan)
        ensures
            *p == self.authorized(),
    {
        &self.plan
    }

    /// Whether a readback shows the planned result.
    pub fn confirms(&self, after: &Snapshot) -> (b: bool)
        ensures
            b == confirms_spec(self.authorized(), *after),
    {
        proof {
            use_type_invariant(&self.plan);
        }
        after.check().is_ok() && after.target == self.plan.before.target && after.epoch
            == self.plan.before.epoch && after.revision > self.plan.before.revision
            && after.text == self.plan.after_text && after.caret == self.plan.after_caret
            && after.anchor == self.plan.after_caret
    }

    /// Completed only when a readback confirms the plan; anything else is
    /// indeterminate, never a failure that would invite a retry.
    pub fn finish(self, after: Option<&Snapshot>) -> (o: Outcome)
        ensures
            o == (if after matches Some(s) && confirms_spec(self.authorized(), *s) {
                Outcome::Completed
            } else {
                Outcome::IndeterminateAfterEdit
            }),
    {
        match after {
            Some(s) => {
                if self.confirms(s) {
                    Outcome::Completed
                } else {
                    Outcome::IndeterminateAfterEdit
                }
            },
            None => Outcome::IndeterminateAfterEdit,
        }
    }
}

/// An editor that can report a fresh snapshot and apply a plan. `apply` must
/// recheck the expected state immediately before its first mutation.
///
/// An implementation states what it does through `reports` and `applies`;
/// one that leaves them as they are promises nothing about its answers.
pub trait RangeEditor: Sized {
    /// Whether `snapshot` may answer `r` for the editor in this state.
    open spec fn reports(&self, r: Result<Snapshot, Rejection>) -> bool {
        true
    }

    /// Whether `apply`, given `plan` in this state, may leave the editor in
    /// state `after` and answer `r`.
    open spec fn applies(&self, plan: Plan, after: Self, r: ApplyResult) -> bool {
        true
    }

    fn snapshot(&self) -> (r: Result<Snapshot, Rejection>)
        ensures
            self.reports(r),
    ;

    fn apply<F: Fn() -> Instant>(&mut self, plan: &Plan, now: &F) -> (r: ApplyResult)
        requires
            forall|| now.requires(()),
        ensures
            old(self).applies(*plan, *final(self), r),
    ;
}

/// A snapshot the plan may be applied against: exactly the one it was made
/// from, still passing `check`.
pub open spec fn matches_plan(plan: Plan, s: Snapshot) -> bool {
    s.same(plan.before_state()) && s.check_spec() is Ok
}

/// The outcome once `apply` answered `r`, with `readback` the snapshot read
/// afterwards (read only when `r` is `Applied`).
pub open spec fn outcome_after_apply(plan: Plan, r: ApplyResult, readback: Result<Snapshot, Rejection>) -> Outcome {
    match r {
        ApplyResult::Rejected(reason) => Outcome::FailedBeforeEdit(reason),
        ApplyResult::Indeterminate => Outcome::IndeterminateAfterEdit,
        ApplyResult::Applied => if readback matches Ok(s) && confirms_spec(plan, s) {
            Outcome::Completed
        } else {
            Outcome::IndeterminateAfterEdit
        },
    }
}

/// Runs one plan against an editor: expiry first, then a fresh snapshot that
/// must match the plan, then one `apply`, then a readback. A rejection from
/// the editor is a failure before the edit; an indeterminate or unconfirmed
/// apply is never retried.
///
/// Exactly one of three things happens. The plan has expired at a clock
/// reading: `Expired`, and the editor is untouched. The clock reads unexpired
/// but the snapshot fails or differs from the plan's: `Changed`, and the
/// editor is untouched. Otherwise `apply` runs once, with the plan itself,
/// and the outcome follows from its answer and, after `Applied`, from the
/// readback.
pub fn execute<E: RangeEditor, F: Fn() -> Instant>(editor: &mut E, plan: Plan, now: F) -> (o:
    Outcome)
    requires
        forall|| now.requires(()),
    ensures
        ({
            ||| o == Outcome::FailedBeforeEdit(Rejection::Expired) && *final(editor) == *old(editor)
                && exists|t: Instant| #[trigger] now.ensures((), t) && expired_at(plan.created(), plan.ttl(), t)
            ||| o == Outcome::FailedBeforeEdit(Rejection::Changed) && *final(editor) == *old(editor)
                && (exists|t: Instant| #[trigger] now.ensures((), t) && !expired_at(plan.created(), plan.ttl(), t))
                && exists|s: Result<Snapshot, Rejection>| #[trigger] old(editor).reports(s) && !(s matches Ok(x) && matches_plan(plan, x))
            ||| (exists|t: Instant| #[trigger] now.ensures((), t) && !expired_at(plan.created(), plan.ttl(), t))
                && (exists|s: Snapshot| #[trigger] old(editor).reports(Ok(s)) && matches_plan(plan, s))
                && exists|r: ApplyResult, back: Result<Snapshot, Rejection>|
                    #![trigger old(editor).applies(plan, *final(editor), r), outcome_after_apply(plan, r, back)]
                    old(editor).applies(plan, *final(editor), r)
                    && (r is Applied ==> final(editor).reports(back))
                    && o == outcome_after_apply(plan, r, back)
        }),
{
    let t0 = now();
    assert(now.ensures((), t0));
    if plan.expired(t0) {
        return Outcome::FailedBeforeEdit(Rejection::Expired);
    }
    let snap = editor.snapshot();
    let current = match snap {
        Ok(s) => s,
        Err(_) => {
            assert(old(editor).reports(snap));
            return Outcome::FailedBeforeEdit(Rejection::Changed);
        },
    };
    let t1 = now();
    assert(now.ensures((), t1));
    let ghost p = plan;
    let edit = match InFlight::begin(plan, &current, t1) {
        Ok(edit) => edit,
        Err(reason) => {
            proof {
                if !expired_at(p.created(), p.ttl(), t1) {
                    assert(old(editor).reports(snap));
                }
            }
            return Outcome::FailedBeforeEdit(reason);
        },
    };
    assert(old(editor).reports(Ok(current)));
    assert(!expired_at(p.created(), p.ttl(), t1));
    assert(matches_plan(p, current));
    assert(edit.authorized() == p);
    let r = editor.apply(edit.plan(), &now);
    let ghost mut back = snap;
    let o = match r {
        ApplyResult::Rejected(reason) => Outcome::FailedBeforeEdit(reason),
        ApplyResult::Indeterminate => edit.finish(None),
        ApplyResult::Applied => {
            let after = editor.snapshot();
            proof {
                back = after;
            }
            match after {
                Ok(s) => edit.finish(Some(&s)),
                Err(_) => edit.finish(None),
            }
        },
    };
    assert(old(editor).applies(p, *editor, r));
    assert(r is Applied ==> editor.reports(back));
    assert(o == outcome_after_apply(p, r, back));
    o
}

} // verus!
