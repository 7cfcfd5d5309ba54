//! The state machine of a run: which device action comes next.
//!
//! The control loop outside the library performs each action and asks for
//! the next one; the decisions themselves are made here.

use crate::error::LbmError;
use vstd::prelude::*;

verus! {

/// Lifecycle of a run; phases only ever move forward.
#[derive(Clone, Copy, Debug, PartialEq, Eq, Structural)]
pub enum Phase {
    Uninitialized,
    Ready,
    Running,
    Done,
}

/// What the control loop must do next.
#[derive(Clone, Copy, Debug, PartialEq, Eq, Structural)]
pub enum Action {
    /// Build the program, allocate and upload the buffers, and seed the
    /// distributions with the equilibrium of the initial density and velocity.
    Initialize,
    /// One fused collide-and-stream pass, a full barrier, then the swap of
    /// the two distribution buffers.
    Dispatch { step: u64 },
    /// An observational readback of density and velocity after `step`.
    Readback { step: u64 },
    /// The mandatory final readback; afterwards the buffers are released.
    FinalReadback,
}

/// Progress of one run.
#[derive(Clone, Copy, Debug, PartialEq, Eq, Structural)]
pub struct Engine {
    pub phase: Phase,
    /// Number of passes to run.
    pub total_steps: u64,
    /// Readback period; zero disables periodic readbacks.
    pub output_interval: u64,
    /// Passes dispatched so far.
    pub steps_done: u64,
    /// A periodic readback is owed for the last dispatched pass.
    pub readback_due: bool,
}

pub open spec fn rank(p: Phase) -> int {
    match p {
        Phase::Uninitialized => 0,
        Phase::Ready => 1,
        Phase::Running => 2,
        Phase::Done => 3,
    }
}

/// A periodic readback follows pass `step`.
pub open spec fn readback_after(step: int, interval: int) -> bool {
    interval > 0 && step % interval == 0
}

impl Engine {
    pub open spec fn wf(&self) -> bool {
        &&& self.steps_done <= self.total_steps
        &&& (self.readback_due ==> self.phase == Phase::Running && self.steps_done >= 1)
        &&& (self.phase == Phase::Uninitialized || self.phase == Phase::Ready) ==> self.steps_done == 0
    }
}

/// The state after one decision and the action it hands out; `None` once
/// the run is over.
pub open spec fn advance(e: Engine) -> (Engine, Option<Action>) {
    match e.phase {
        Phase::Uninitialized => (Engine { phase: Phase::Ready, ..e }, Some(Action::Initialize)),
        Phase::Done => (e, None),
        _ => if e.readback_due {
            (
                Engine { readback_due: false, ..e },
                Some(Action::Readback { step: (e.steps_done - 1) as u64 }),
            )
        } else if e.steps_done < e.total_steps {
            (
                Engine {
                    phase: Phase::Running,
                    steps_done: (e.steps_done + 1) as u64,
                    readback_due: readback_after(e.steps_done as int, e.output_interval as int),
                    ..e
                },
                Some(Action::Dispatch { step: e.steps_done }),
            )
        } else {
            (Engine { phase: Phase::Done, ..e }, Some(Action::FinalReadback))
        },
    }
}

impl Engine {
    /// A run of `total_steps` passes with a readback after every pass whose
    /// index is a multiple of `output_interval` (none when it is zero).
    pub fn new(total_steps: u64, output_interval: u64) -> (r: Engine)
        ensures
            r.wf(),
            r == (Engine {
                phase: Phase::Uninitialized,
                total_steps,
                output_interval,
                steps_done: 0,
                readback_due: false,
            }),
    {
        Engine { phase: Phase::Uninitialized, total_steps, output_interval, steps_done: 0, readback_due: false }
    }

    /// Decides the next action and moves to the state that follows it. Once
    /// the run is done, further dispatch is refused.
    pub fn next_action(&mut self) -> (r: Result<Action, LbmError>)
        requires
            old(self).wf(),
        ensures
            final(self).wf(),
            *final(self) == advance(*old(self)).0,
            match advance(*old(self)).1 {
                Some(a) => r == Ok::<Action, LbmError>(a),
                None => r matches Err(LbmError::EngineFinalized),
            },
            rank(final(self).phase) >= rank(old(self).phase),
    {
        match self.phase {
            Phase::Uninitialized => {
                self.phase = Phase::Ready;
                Ok(Action::Initialize)
            },
            Phase::Done => Err(LbmError::EngineFinalized),
            _ => {
                if self.readback_due {
                    self.readback_due = false;
                    Ok(Action::Readback { step: self.steps_done - 1 })
                } else if self.steps_done < self.total_steps {
                    let step = self.steps_done;
                    self.phase = Phase::Running;
                    self.steps_done = step + 1;
                    self.readback_due = self.output_interval > 0 && step % self.output_interval == 0;
                    Ok(Action::Dispatch { step })
                } else {
                    self.phase = Phase::Done;
                    Ok(Action::FinalReadback)
                }
            },
        }
    }

    /// Whether the run is over.
    pub fn is_done(&self) -> (r: bool)
        ensures
            r == (self.phase == Phase::Done),
    {
        self.phase == Phase::Done
    }
}

/// The actions handed out by at most `fuel` decisions from `e`, stopping
/// when the run is over.
pub open spec fn actions(e: Engine, fuel: nat) -> Seq<Action>
    decreases fuel,
{
    if fuel == 0 {
        seq![]
    } else {
        match advance(e).1 {
            Some(a) => seq![a] + actions(advance(e).0, (fuel - 1) as nat),
            None => seq![],
        }
    }
}

/// Passes `t` to `total - 1`, each followed by its readback when one is due.
pub open spec fn passes_from(t: int, total: int, interval: int) -> Seq<Action>
    decreases total - t,
{
    if t >= total {
        seq![]
    } else {
        seq![Action::Dispatch { step: t as u64 }] + (if readback_after(t, interval) {
            seq![Action::Readback { step: t as u64 }]
        } else {
            seq![]
        }) + passes_from(t + 1, total, interval)
    }
}

/// The complete schedule of a run: initialization, every pass in order with
/// its periodic readbacks, and the final readback.
pub open spec fn schedule(total: int, interval: int) -> Seq<Action> {
    seq![Action::Initialize] + passes_from(0, total, interval) + seq![Action::FinalReadback]
}

proof fn lemma_actions_from_pass(e: Engine, fuel: nat)
    requires
        e.wf(),
        e.phase == Phase::Ready || e.phase == Phase::Running,
        !e.readback_due,
        fuel >= 2 * (e.total_steps - e.steps_done) + 1,
    ensures
        actions(e, fuel) == passes_from(e.steps_done as int, e.total_steps as int, e.output_interval as int)
            + seq![Action::FinalReadback],
        advance(e).0.wf(),
    decreases e.total_steps - e.steps_done,
{
    let t = e.steps_done as int;
    let total = e.total_steps as int;
    let k = e.output_interval as int;
    if t >= total {
        assert(actions(advance(e).0, (fuel - 1) as nat) == Seq::<Action>::empty()) by {
            if fuel - 1 > 0 {
                assert(advance(advance(e).0).1 is None);
            }
        }
        assert(actions(e, fuel) =~= seq![Action::FinalReadback]);
        assert(passes_from(t, total, k) =~= Seq::<Action>::empty());
        assert(passes_from(t, total, k) + seq![Action::FinalReadback] =~= seq![Action::FinalReadback]);
    } else {
        let e1 = advance(e).0;
        let rest = (fuel - 1) as nat;
        if readback_after(t, k) {
            let e2 = advance(e1).0;
            lemma_actions_from_pass(e2, (rest - 1) as nat);
            assert(actions(e1, rest) == seq![Action::Readback { step: t as u64 }] + actions(
                e2,
                (rest - 1) as nat,
            ));
            assert(actions(e, fuel) =~= passes_from(t, total, k) + seq![Action::FinalReadback]);
        } else {
            lemma_actions_from_pass(e1, rest);
            assert(actions(e, fuel) =~= passes_from(t, total, k) + seq![Action::FinalReadback]);
        }
    }
}

/// A run started by `Engine::new(total, interval)` hands out exactly the
/// schedule: initialization, `total` passes in order, a readback after each
/// pass whose index is a multiple of a nonzero interval, and one final
/// readback, after which nothing more is handed out.
pub proof fn lemma_run_schedule(total: u64, interval: u64, fuel: nat)
    requires
        fuel >= 2 * total + 2,
    ensures
        actions(
            Engine {
                phase: Phase::Uninitialized,
                total_steps: total,
                output_interval: interval,
                steps_done: 0,
                readback_due: false,
            },
            fuel,
        ) == schedule(total as int, interval as int),
{
    let e = Engine {
        phase: Phase::Uninitialized,
        total_steps: total,
        output_interval: interval,
        steps_done: 0,
        readback_due: false,
    };
    lemma_actions_from_pass(advance(e).0, (fuel - 1) as nat);
    assert(actions(e, fuel) =~= schedule(total as int, interval as int));
}

} // verus!
