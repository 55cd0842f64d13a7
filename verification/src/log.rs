//! The action log: an append-only sequence of actions consumed through a
//! monotonic cursor, so that repeated processing passes never replay an
//! action that was already applied.

use vstd::prelude::*;

use crate::actions::{Action, ActionError, ActionV};
use crate::state::{wf_state, Engine, StateV};
use crate::transition::step;

verus! {

/// The mathematical image of an action vector, element by element.
pub open spec fn log_view(actions: Seq<Action>) -> Seq<ActionV> {
    Seq::new(actions.len(), |i: int| actions[i]@)
}

/// The state after running a sequence of actions in order, where a rejected
/// action leaves the state as it was and processing goes on.
pub open spec fn run_steps(s: StateV, acts: Seq<ActionV>) -> StateV
    decreases acts.len(),
{
    if acts.len() == 0 {
        s
    } else {
        step_or_stay(run_steps(s, acts.drop_last()), acts.last())
    }
}

/// One step, with a rejected action leaving the state unchanged.
pub open spec fn step_or_stay(s: StateV, a: ActionV) -> StateV {
    match step(s, a) {
        Ok(s2) => s2,
        Err(_) => s,
    }
}

/// The per-action outcome of one step.
pub open spec fn outcome_of(s: StateV, a: ActionV) -> Result<(), ActionError> {
    match step(s, a) {
        Ok(_) => Ok(()),
        Err(e) => Err(e),
    }
}

/// The outcomes of running a sequence of actions in order.
pub open spec fn run_outcomes(s: StateV, acts: Seq<ActionV>) -> Seq<Result<(), ActionError>>
    decreases acts.len(),
{
    if acts.len() == 0 {
        Seq::empty()
    } else {
        run_outcomes(s, acts.drop_last()).push(
            outcome_of(run_steps(s, acts.drop_last()), acts.last()),
        )
    }
}

/// The action log: an ordered, append-only action sequence, and the cursor
/// marking how much of it has already been processed.
pub struct ActionLog {
    /// Every action appended so far, in arrival order.
    pub actions: Vec<Action>,
    /// How many of them have been processed; never decreases, and never
    /// exceeds the number of actions.
    pub processed: usize,
}

impl ActionLog {
    /// The cursor lies within the log.
    pub open spec fn wf(self) -> bool {
        self.processed <= self.actions@.len()
    }

    /// An empty log with the cursor at the start.
    pub fn new() -> (l: ActionLog)
        ensures
            l.actions@.len() == 0,
            l.processed == 0,
            l.wf(),
    {
        ActionLog { actions: Vec::new(), processed: 0 }
    }

    /// Append one action behind the cursor; nothing already processed moves.
    pub fn append(&mut self, action: Action)
        requires
            old(self).wf(),
        ensures
            final(self).wf(),
            final(self).actions@ == old(self).actions@.push(action),
            final(self).processed == old(self).processed,
    {
        self.actions.push(action);
    }
}

impl Engine {
    /// One processing pass: apply every action the cursor has not passed yet,
    /// in arrival order, and advance the cursor past them. Each pending
    /// action yields one outcome; a rejected action leaves the state as of
    /// the last accepted one and later actions are still processed.
    pub fn process_log(&mut self, log: &mut ActionLog) -> (outcomes: Vec<
        Result<(), ActionError>,
    >)
        requires
            wf_state(old(self)@),
            old(log).wf(),
        ensures
            wf_state(final(self)@),
            final(log).wf(),
            final(log).actions@ == old(log).actions@,
            final(log).processed == old(log).actions@.len(),
            ({
                let pending = log_view(old(log).actions@).subrange(
                    old(log).processed as int,
                    old(log).actions@.len() as int,
                );
                &&& final(self)@ == run_steps(old(self)@, pending)
                &&& outcomes@ == run_outcomes(old(self)@, pending)
            }),
    {
        let ghost s0: StateV = self@;
        let ghost acts0 = log.actions@;
        let ghost all = log_view(acts0);
        let ghost p0 = log.processed as int;
        let mut outcomes: Vec<Result<(), ActionError>> = Vec::new();
        while log.processed < log.actions.len()
            invariant
                wf_state(self@),
                log.actions@ == acts0,
                all == log_view(acts0),
                0 <= p0 <= log.processed <= acts0.len(),
                all.len() == acts0.len(),
                self@ == run_steps(s0, all.subrange(p0, log.processed as int)),
                outcomes@ == run_outcomes(s0, all.subrange(p0, log.processed as int)),
            decreases acts0.len() - log.processed,
        {
            let ghost k = log.processed as int;
            let r = self.apply_action(&log.actions[log.processed]);
            outcomes.push(r);
            log.processed = log.processed + 1;
            proof {
                assert(all.len() == acts0.len());
                assert(all.subrange(p0, k + 1).drop_last() =~= all.subrange(p0, k));
                assert(all.subrange(p0, k + 1).last() == all[k]);
                assert(all[k] == acts0[k]@);
            }
        }
        proof {
            assert(all.subrange(p0, acts0.len() as int) =~= log_view(acts0).subrange(
                p0,
                acts0.len() as int,
            ));
        }
        outcomes
    }
}

} // verus!
