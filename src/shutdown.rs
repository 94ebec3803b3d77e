//! Graceful termination of an owned external process.
//!
//! The escalation asks the process to terminate, polls for its exit once per
//! interval up to a limit, then forces termination. The caller performs each
//! step and reports what the last poll saw; whether the cooperative signal
//! could be sent does not change the course of the escalation.
use vstd::prelude::*;

verus! {

/// How many times the escalation polls for the process's exit.
pub const KILL_POLL_LIMIT: u8 = 12;

/// Seconds to wait before each poll.
pub const KILL_POLL_SECS: u64 = 1;

/// The most steps an escalation takes before it reports `Done`: the signal,
/// every poll, and the forced kill.
pub const ESCALATION_STEPS: u8 = 14;

/// What the owner of the process does next.
#[derive(Clone, Copy, Debug, PartialEq, Eq, Structural)]
pub enum ShutdownStep {
    /// Send the cooperative termination signal; log and go on if it fails.
    SendTerm,
    /// Wait `KILL_POLL_SECS`, then poll whether the process exited.
    SleepThenPoll,
    /// Force termination.
    ForceKill,
    /// The escalation is over.
    Done,
}

/// Where an escalation stands.
#[derive(Clone, Copy, Debug, PartialEq, Eq, Structural)]
pub enum ShutdownPhase {
    Start,
    /// The signal went out and `polls` polls were made.
    Polling { polls: u8 },
    Killing,
    Finished,
}

/// One step of the escalation; `exited` is what the last poll saw.
pub open spec fn shutdown_step(p: ShutdownPhase, exited: bool) -> (ShutdownPhase, ShutdownStep) {
    match p {
        ShutdownPhase::Start => (ShutdownPhase::Polling { polls: 0 }, ShutdownStep::SendTerm),
        ShutdownPhase::Polling { polls } => if polls > 0 && exited {
            (ShutdownPhase::Killing, ShutdownStep::ForceKill)
        } else if polls < KILL_POLL_LIMIT {
            (ShutdownPhase::Polling { polls: (polls + 1) as u8 }, ShutdownStep::SleepThenPoll)
        } else {
            (ShutdownPhase::Killing, ShutdownStep::ForceKill)
        },
        ShutdownPhase::Killing => (ShutdownPhase::Finished, ShutdownStep::Done),
        ShutdownPhase::Finished => (ShutdownPhase::Finished, ShutdownStep::Done),
    }
}

/// A phase that the escalation can reach.
pub open spec fn phase_wf(p: ShutdownPhase) -> bool {
    p matches ShutdownPhase::Polling { polls } ==> polls <= KILL_POLL_LIMIT
}

/// The escalation of one process.
pub struct GracefulShutdown {
    phase: ShutdownPhase,
}

impl View for GracefulShutdown {
    type V = ShutdownPhase;

    closed spec fn view(&self) -> ShutdownPhase {
        self.phase
    }
}

impl GracefulShutdown {
    pub closed spec fn wf(&self) -> bool {
        phase_wf(self.phase)
    }

    /// An escalation that has not started.
    pub fn new() -> (r: GracefulShutdown)
        ensures
            r@ == ShutdownPhase::Start,
            r.wf(),
    {
        GracefulShutdown { phase: ShutdownPhase::Start }
    }

    /// The next step, given what the last poll saw (ignored after any other step).
    pub fn next_step(&mut self, exited: bool) -> (r: ShutdownStep)
        requires
            old(self).wf(),
        ensures
            final(self).wf(),
            (final(self)@, r) == shutdown_step(old(self)@, exited),
    {
        let (p, s) = match self.phase {
            ShutdownPhase::Start => (ShutdownPhase::Polling { polls: 0 }, ShutdownStep::SendTerm),
            ShutdownPhase::Polling { polls } => if polls > 0 && exited {
                (ShutdownPhase::Killing, ShutdownStep::ForceKill)
            } else if polls < KILL_POLL_LIMIT {
                (ShutdownPhase::Polling { polls: polls + 1 }, ShutdownStep::SleepThenPoll)
            } else {
                (ShutdownPhase::Killing, ShutdownStep::ForceKill)
            },
            ShutdownPhase::Killing => (ShutdownPhase::Finished, ShutdownStep::Done),
            ShutdownPhase::Finished => (ShutdownPhase::Finished, ShutdownStep::Done),
        };
        self.phase = p;
        s
    }
}

/// The steps an escalation takes from `p` when the polls report `exits`.
pub open spec fn escalation(p: ShutdownPhase, exits: Seq<bool>) -> Seq<ShutdownStep>
    decreases exits.len(),
{
    if exits.len() == 0 {
        Seq::empty()
    } else {
        let (q, s) = shutdown_step(p, exits[0]);
        seq![s] + escalation(q, exits.drop_first())
    }
}

/// How many steps remain before `Done`, at most.
pub open spec fn steps_left(p: ShutdownPhase) -> nat {
    match p {
        ShutdownPhase::Start => ESCALATION_STEPS as nat,
        ShutdownPhase::Polling { polls } => (KILL_POLL_LIMIT - polls + 1) as nat,
        ShutdownPhase::Killing => 0,
        ShutdownPhase::Finished => 0,
    }
}

/// How many times `s` occurs in `steps`.
pub open spec fn count_step(steps: Seq<ShutdownStep>, s: ShutdownStep) -> nat
    decreases steps.len(),
{
    if steps.len() == 0 {
        0
    } else {
        (if steps[0] == s { 1nat } else { 0nat }) + count_step(steps.drop_first(), s)
    }
}

/// The most waits left from `p`.
pub open spec fn waits_left(p: ShutdownPhase) -> nat {
    match p {
        ShutdownPhase::Start => KILL_POLL_LIMIT as nat,
        ShutdownPhase::Polling { polls } => (KILL_POLL_LIMIT - polls) as nat,
        _ => 0,
    }
}

proof fn lemma_finished_stays(exits: Seq<bool>)
    ensures
        forall|i: int| 0 <= i < exits.len() ==> escalation(ShutdownPhase::Finished, exits)[i] == ShutdownStep::Done,
        escalation(ShutdownPhase::Finished, exits).len() == exits.len(),
        count_step(escalation(ShutdownPhase::Finished, exits), ShutdownStep::SleepThenPoll) == 0,
        count_step(escalation(ShutdownPhase::Finished, exits), ShutdownStep::ForceKill) == 0,
        count_step(escalation(ShutdownPhase::Finished, exits), ShutdownStep::SendTerm) == 0,
    decreases exits.len(),
{
    if exits.len() > 0 {
        lemma_finished_stays(exits.drop_first());
        let e = escalation(ShutdownPhase::Finished, exits);
        assert(e.drop_first() == escalation(ShutdownPhase::Finished, exits.drop_first()));
        assert forall|i: int| 0 <= i < exits.len() implies e[i] == ShutdownStep::Done by {
            if i > 0 {
                assert(e[i] == e.drop_first()[i - 1]);
            }
        }
    }
}

proof fn lemma_escalation_from(p: ShutdownPhase, exits: Seq<bool>)
    requires
        phase_wf(p),
        !(p is Finished),
        exits.len() >= steps_left(p) + 1,
    ensures
        escalation(p, exits).len() == exits.len(),
        escalation(p, exits).last() == ShutdownStep::Done,
        count_step(escalation(p, exits), ShutdownStep::SleepThenPoll) <= waits_left(p),
        count_step(escalation(p, exits), ShutdownStep::ForceKill) == (if p is Killing { 0nat } else { 1nat }),
        count_step(escalation(p, exits), ShutdownStep::SendTerm) == (if p is Start { 1nat } else { 0nat }),
    decreases exits.len(),
{
    let (q, s) = shutdown_step(p, exits[0]);
    let rest = exits.drop_first();
    let e = escalation(p, exits);
    assert(e.drop_first() == escalation(q, rest));
    if q is Finished {
        lemma_finished_stays(rest);
        if rest.len() > 0 {
            assert(e.last() == escalation(q, rest)[rest.len() - 1]);
        }
    } else {
        lemma_escalation_from(q, rest);
        assert(e.last() == escalation(q, rest).last());
    }
}

/// Whatever the polls report, the escalation of a process is over after at
/// most `ESCALATION_STEPS` steps: it sends the signal once, waits at most
/// `KILL_POLL_LIMIT` times, forces termination once, and reports `Done`.
pub proof fn lemma_escalation_bounded(exits: Seq<bool>)
    requires
        exits.len() == ESCALATION_STEPS + 1,
    ensures
        escalation(ShutdownPhase::Start, exits)[ESCALATION_STEPS as int] == ShutdownStep::Done,
        count_step(escalation(ShutdownPhase::Start, exits), ShutdownStep::SendTerm) == 1,
        count_step(escalation(ShutdownPhase::Start, exits), ShutdownStep::SleepThenPoll) <= KILL_POLL_LIMIT,
        count_step(escalation(ShutdownPhase::Start, exits), ShutdownStep::ForceKill) == 1,
{
    lemma_escalation_from(ShutdownPhase::Start, exits);
}

} // verus!
