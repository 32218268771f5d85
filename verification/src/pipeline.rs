//! A chain of event-processing stages.
use crate::event::InputEvent;
use vstd::prelude::*;

verus! {

/// One processing stage. A stage may drop an event, pass it on, or turn it
/// into several events.
///
/// A stage states what it does through `gives`, `named` and `is_reset`; one
/// that leaves them as they are promises nothing about its output, its name
/// or its state after a reset.
pub trait PipelineStage {
    /// Whether the stage in this state, having first been given `earlier`,
    /// may give `out` for `event`.
    open spec fn gives(&self, earlier: Seq<InputEvent>, event: InputEvent, out: Seq<InputEvent>) -> bool {
        true
    }

    /// Whether `name` may be the stage's name.
    open spec fn named(&self, name: Seq<char>) -> bool {
        true
    }

    /// Whether the stage holds nothing over from earlier events.
    open spec fn is_reset(&self) -> bool {
        true
    }

    fn name(&self) -> (r: &str)
        ensures
            self.named(r@),
    ;

    /// What the stage gives for `event`; afterwards it gives, for later
    /// events, only what it would have given had `event` come first.
    fn process(&mut self, event: InputEvent) -> (out: Vec<InputEvent>)
        ensures
            old(self).gives(Seq::empty(), event, out@),
            forall|earlier: Seq<InputEvent>, e: InputEvent, o: Seq<InputEvent>|
                #[trigger] final(self).gives(earlier, e, o) ==> old(self).gives(seq![event] + earlier, e, o),
            forall|n: Seq<char>| #[trigger] final(self).named(n) == old(self).named(n),
    ;

    /// Forgets what the stage held over from earlier events.
    fn reset(&mut self)
        ensures
            final(self).is_reset(),
            forall|n: Seq<char>| #[trigger] final(self).named(n) == old(self).named(n),
    ;
}

pub struct Pipeline {
    stages: Vec<Box<dyn PipelineStage>>,
}

impl Pipeline {
    /// The stages, in the order they were added.
    pub closed spec fn stages(self) -> Seq<Box<dyn PipelineStage>> {
        self.stages@
    }

    /// Number of stages.
    pub open spec fn stage_count(self) -> nat {
        self.stages().len()
    }

    pub fn new() -> (p: Pipeline)
        ensures
            p.stages() == Seq::<Box<dyn PipelineStage>>::empty(),
    {
        Pipeline { stages: Vec::new() }
    }

    /// Appends a stage after the existing ones.
    pub fn add_stage(&mut self, stage: Box<dyn PipelineStage>)
        ensures
            final(self).stages() == old(self).stages().push(stage),
    {
        self.stages.push(stage);
    }

    /// Feeds the event through every stage in order; each stage is given
    /// every event the stage before it gave, once each, in order, and what it
    /// gives for them follows one run after another. With no stages the event
    /// passes unchanged.
    ///
    /// Stated over `between`, the event sequences between the stages: stage
    /// `k` gives for its `j`th input what it, as it was, gives after its
    /// earlier inputs; afterwards it gives only what it would have given after
    /// all of its inputs; its name stays.
    pub fn process(&mut self, event: InputEvent) -> (r: Vec<InputEvent>)
        ensures
            final(self).stage_count() == old(self).stage_count(),
            old(self).stage_count() == 0 ==> r@ == seq![event],
            exists|between: Seq<Seq<InputEvent>>|
                #![trigger between.len()]
                between.len() == old(self).stage_count() + 1 && between[0] == seq![event] && between.last() == r@
                    && forall|k: int| #![trigger between[k]] 0 <= k < old(self).stage_count() ==> ({
                        &&& exists|runs: Seq<Seq<InputEvent>>|
                            #![trigger runs.flatten()]
                            runs.len() == between[k].len() && between[k + 1] == runs.flatten() && forall|j: int|
                                #![trigger runs[j]]
                                0 <= j < runs.len() ==> old(self).stages()[k].gives(between[k].take(j), between[k][j], runs[j])
                        &&& forall|h: Seq<InputEvent>, e: InputEvent, o: Seq<InputEvent>|
                            #[trigger] final(self).stages()[k].gives(h, e, o) ==> old(self).stages()[k].gives(between[k] + h, e, o)
                        &&& forall|nm: Seq<char>| #[trigger] final(self).stages()[k].named(nm) == old(self).stages()[k].named(nm)
                    }),
    {
        let mut events: Vec<InputEvent> = Vec::new();
        events.push(event);
        let n = self.stages.len();
        let mut i: usize = 0;
        let ghost mut between: Seq<Seq<InputEvent>> = seq![events@];
        let ghost mut all_runs: Seq<Seq<Seq<InputEvent>>> = Seq::empty();
        while i < n
            invariant
                n == self.stages@.len(),
                n == old(self).stages@.len(),
                i <= n,
                i == 0 ==> events@ == seq![event],
                forall|k: int| i <= k < n ==> self.stages@[k] == old(self).stages@[k],
                between.len() == i + 1,
                all_runs.len() == i,
                between[0] == seq![event],
                between.last() == events@,
                forall|k: int| #![trigger all_runs[k]] 0 <= k < i ==> all_runs[k].len() == between[k].len()
                    && between[k + 1] == all_runs[k].flatten(),
                forall|k: int, j: int| #![trigger all_runs[k][j]] 0 <= k < i && 0 <= j < all_runs[k].len()
                    ==> old(self).stages@[k].gives(between[k].take(j), between[k][j], all_runs[k][j]),
                forall|k: int, h: Seq<InputEvent>, e: InputEvent, o: Seq<InputEvent>|
                    #![trigger self.stages@[k].gives(h, e, o)]
                    0 <= k < i && self.stages@[k].gives(h, e, o) ==> old(self).stages@[k].gives(between[k] + h, e, o),
                forall|k: int, nm: Seq<char>| #![trigger self.stages@[k].named(nm)]
                    0 <= k < i ==> self.stages@[k].named(nm) == old(self).stages@[k].named(nm),
            decreases n - i,
        {
            let ghost stage = self.stages@[i as int];
            let ghost before_stages = self.stages@;
            let mut next: Vec<InputEvent> = Vec::new();
            let mut j: usize = 0;
            let ghost mut runs: Seq<Seq<InputEvent>> = Seq::empty();
            proof {
                assert(runs.flatten() =~= Seq::<InputEvent>::empty());
                assert forall|h: Seq<InputEvent>, e: InputEvent, o: Seq<InputEvent>|
                    #[trigger] self.stages@[i as int].gives(h, e, o) implies stage.gives(events@.take(0) + h, e, o) by {
                    assert(events@.take(0) + h =~= h);
                }
            }
            while j < events.len()
                invariant
                    n == self.stages@.len(),
                    i < n,
                    j <= events@.len(),
                    forall|k: int| 0 <= k < n && k != i ==> self.stages@[k] == before_stages[k],
                    before_stages.len() == n,
                    runs.len() == j,
                    next@ == runs.flatten(),
                    forall|m: int| #![trigger runs[m]] 0 <= m < j ==> stage.gives(events@.take(m), events@[m], runs[m]),
                    forall|h: Seq<InputEvent>, e: InputEvent, o: Seq<InputEvent>|
                        #[trigger] self.stages@[i as int].gives(h, e, o) ==> stage.gives(events@.take(j as int) + h, e, o),
                    forall|nm: Seq<char>| #[trigger] self.stages@[i as int].named(nm) == stage.named(nm),
                decreases events.len() - j,
            {
                let ghost current = self.stages@[i as int];
                let mut out = self.stages[i].process(events[j]);
                let ghost produced = out@;
                next.append(&mut out);
                proof {
                    let runs0 = runs;
                    runs0.lemma_flatten_push(produced);
                    runs = runs.push(produced);
                    assert(current.gives(Seq::empty(), events@[j as int], produced));
                    assert(events@.take(j as int) + Seq::<InputEvent>::empty() =~= events@.take(j as int));
                    assert(stage.gives(events@.take(j as int), events@[j as int], runs[j as int]));
                    assert(forall|m: int| 0 <= m < j ==> runs[m] == runs0[m]);
                    assert forall|h: Seq<InputEvent>, e: InputEvent, o: Seq<InputEvent>|
                        #[trigger] self.stages@[i as int].gives(h, e, o) implies stage.gives(events@.take(j + 1) + h, e, o) by {
                        assert(current.gives(seq![events@[j as int]] + h, e, o));
                        assert(events@.take(j as int) + (seq![events@[j as int]] + h) =~= events@.take(j + 1) + h);
                    }
                }
                j += 1;
            }
            proof {
                assert(events@.take(j as int) =~= events@);
                assert(old(self).stages@[i as int] == stage);
                let between0 = between;
                let all_runs0 = all_runs;
                between = between.push(next@);
                all_runs = all_runs.push(runs);
                assert(forall|k: int| 0 <= k <= i ==> between[k] == between0[k]);
                assert(forall|k: int| 0 <= k < i ==> all_runs[k] == all_runs0[k]);
                assert(between[i + 1] == runs.flatten());
                assert(all_runs[i as int] == runs);
                assert forall|k: int, j2: int| #![trigger all_runs[k][j2]] 0 <= k < i + 1 && 0 <= j2 < all_runs[k].len()
                    implies old(self).stages@[k].gives(between[k].take(j2), between[k][j2], all_runs[k][j2]) by {
                    if k < i {
                        assert(all_runs[k] == all_runs0[k]);
                        assert(between[k] == between0[k]);
                        assert(all_runs0[k][j2] == all_runs[k][j2]);
                    } else {
                        assert(runs[j2] == all_runs[k][j2]);
                    }
                }
                assert forall|k: int, h: Seq<InputEvent>, e: InputEvent, o: Seq<InputEvent>|
                    0 <= k < i + 1 && #[trigger] self.stages@[k].gives(h, e, o) implies old(self).stages@[k].gives(between[k] + h, e, o) by {
                    if k < i {
                        assert(self.stages@[k] == before_stages[k]);
                        assert(before_stages[k].gives(h, e, o));
                        assert(between[k] == between0[k]);
                    }
                }
                assert forall|k: int, nm: Seq<char>| 0 <= k < i + 1 implies #[trigger] self.stages@[k].named(nm) == old(self).stages@[k].named(nm) by {
                    if k < i {
                        assert(self.stages@[k] == before_stages[k]);
                    }
                }
            }
            events = next;
            i += 1;
        }
        proof {
            assert forall|k: int| #![trigger between[k]] 0 <= k < n implies ({
                &&& exists|runs: Seq<Seq<InputEvent>>|
                    #![trigger runs.flatten()]
                    runs.len() == between[k].len() && between[k + 1] == runs.flatten() && forall|j: int|
                        #![trigger runs[j]]
                        0 <= j < runs.len() ==> old(self).stages@[k].gives(between[k].take(j), between[k][j], runs[j])
                &&& forall|h: Seq<InputEvent>, e: InputEvent, o: Seq<InputEvent>|
                    #[trigger] self.stages@[k].gives(h, e, o) ==> old(self).stages@[k].gives(between[k] + h, e, o)
                &&& forall|nm: Seq<char>| #[trigger] self.stages@[k].named(nm) == old(self).stages@[k].named(nm)
            }) by {
                let rk = all_runs[k];
                assert(rk.len() == between[k].len() && between[k + 1] == rk.flatten());
                assert(forall|j: int| 0 <= j < rk.len() ==> old(self).stages@[k].gives(between[k].take(j), between[k][j], #[trigger] rk[j]));
            }
            assert(between.len() == old(self).stage_count() + 1);
        }
        events
    }

    /// Resets every stage, in order; each keeps its name.
    pub fn reset(&mut self)
        ensures
            final(self).stage_count() == old(self).stage_count(),
            forall|k: int| #![trigger final(self).stages()[k]] 0 <= k < old(self).stage_count() ==> {
                &&& final(self).stages()[k].is_reset()
                &&& forall|nm: Seq<char>| #[trigger] final(self).stages()[k].named(nm) == old(self).stages()[k].named(nm)
            },
    {
        let n = self.stages.len();
        let mut i: usize = 0;
        while i < n
            invariant
                n == self.stages@.len(),
                n == old(self).stages@.len(),
                i <= n,
                forall|k: int| i <= k < n ==> self.stages@[k] == old(self).stages@[k],
                forall|k: int| #![trigger self.stages@[k]] 0 <= k < i ==> {
                    &&& self.stages@[k].is_reset()
                    &&& forall|nm: Seq<char>| #[trigger] self.stages@[k].named(nm) == old(self).stages@[k].named(nm)
                },
            decreases n - i,
        {
            let ghost before_stages = self.stages@;
            self.stages[i].reset();
            proof {
                assert(forall|k: int| 0 <= k < n && k != i ==> self.stages@[k] == before_stages[k]);
            }
            i += 1;
        }
    }

    /// The stages' names, in order.
    pub fn stage_names(&self) -> (r: Vec<&str>)
        ensures
            r@.len() == self.stage_count(),
            forall|k: int| #![trigger r@[k]] 0 <= k < self.stage_count() ==> self.stages()[k].named(r@[k]@),
    {
        let mut names: Vec<&str> = Vec::new();
        let mut i: usize = 0;
        while i < self.stages.len()
            invariant
                i <= self.stages@.len(),
                names@.len() == i,
                forall|k: int| #![trigger names@[k]] 0 <= k < i ==> self.stages@[k].named(names@[k]@),
            decreases self.stages.len() - i,
        {
            names.push(self.stages[i].name());
            i += 1;
        }
        names
    }
}

impl Default for Pipeline {
    fn default() -> (p: Pipeline)
        ensures
            p.stage_count() == 0,
    {
        Pipeline::new()
    }
}

} // verus!
