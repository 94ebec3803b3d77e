//! The watchdog that supervises the DAQ reader task.
//!
//! The supervisor owns one child task at a time, each in a cancellation scope
//! of its own, numbered by generation. It reacts to three events: a heartbeat
//! from the child, a watchdog tick, and the outer cancellation. Its answer is
//! the list of scope operations that the application performs in order.
use vstd::prelude::*;

verus! {

/// Milliseconds between watchdog ticks.
pub const WATCHDOG_TICK_MS: u64 = 200;

/// Milliseconds to wait for a canceled child before abandoning it on respawn.
pub const RESPAWN_WAIT_MS: u64 = 1000;

/// Milliseconds of silence after which the reader task ends by itself.
pub const READ_IDLE_MS: u64 = 150;

/// What the supervisor is told.
#[derive(Clone, Copy, Debug, PartialEq, Eq, Structural)]
pub enum SupervisorEvent {
    /// The child produced a sample.
    Heartbeat,
    /// The watchdog interval elapsed.
    Tick,
    /// The daemon is shutting down.
    Cancel,
}

/// One operation on a child's scope, identified by its generation.
#[derive(Clone, Copy, Debug, PartialEq, Eq, Structural)]
pub enum ScopeStep {
    /// Start a child in a new scope.
    Spawn(u64),
    /// Cancel the scope.
    Cancel(u64),
    /// Wait for the canceled child, at most `RESPAWN_WAIT_MS`; log if it does not end.
    AwaitBounded(u64),
    /// Wait for the canceled child to end, without limit.
    AwaitFull(u64),
}

/// The abstract state of the supervisor.
pub struct SupervisorModel {
    /// Whether a heartbeat came since the last tick.
    pub heartbeat: bool,
    /// The generation of the current child.
    pub generation: u64,
    /// Whether the supervisor still runs (no cancellation yet).
    pub running: bool,
}

/// The generation after `g`.
pub open spec fn next_generation(g: u64) -> u64 {
    if g == u64::MAX {
        0
    } else {
        (g + 1) as u64
    }
}

/// One event applied to the supervisor.
pub open spec fn supervisor_step(m: SupervisorModel, ev: SupervisorEvent) -> (SupervisorModel, Seq<ScopeStep>) {
    if !m.running {
        (m, Seq::empty())
    } else {
        match ev {
            SupervisorEvent::Heartbeat => (SupervisorModel { heartbeat: true, ..m }, Seq::empty()),
            SupervisorEvent::Tick => if m.heartbeat {
                (SupervisorModel { heartbeat: false, ..m }, Seq::empty())
            } else {
                (
                    SupervisorModel { heartbeat: false, generation: next_generation(m.generation), ..m },
                    seq![
                        ScopeStep::Cancel(m.generation),
                        ScopeStep::AwaitBounded(m.generation),
                        ScopeStep::Spawn(next_generation(m.generation)),
                    ],
                )
            },
            SupervisorEvent::Cancel => (
                SupervisorModel { running: false, ..m },
                seq![ScopeStep::Cancel(m.generation), ScopeStep::AwaitFull(m.generation)],
            ),
        }
    }
}

/// The supervisor of the DAQ reader.
pub struct DaqSupervisor {
    heartbeat: bool,
    generation: u64,
    running: bool,
}

impl View for DaqSupervisor {
    type V = SupervisorModel;

    closed spec fn view(&self) -> SupervisorModel {
        SupervisorModel { heartbeat: self.heartbeat, generation: self.generation, running: self.running }
    }
}

impl DaqSupervisor {
    /// A running supervisor, and the steps that start its first child.
    pub fn start() -> (r: (DaqSupervisor, Vec<ScopeStep>))
        ensures
            r.0@ == (SupervisorModel { heartbeat: false, generation: 0, running: true }),
            r.1@ == seq![ScopeStep::Spawn(0)],
    {
        let mut steps: Vec<ScopeStep> = Vec::new();
        steps.push(ScopeStep::Spawn(0));
        (DaqSupervisor { heartbeat: false, generation: 0, running: true }, steps)
    }

    /// Applies one event; the steps are to be performed in order.
    pub fn on_event(&mut self, ev: SupervisorEvent) -> (r: Vec<ScopeStep>)
        ensures
            (final(self)@, r@) == supervisor_step(old(self)@, ev),
    {
        let mut steps: Vec<ScopeStep> = Vec::new();
        if !self.running {
            return steps;
        }
        match ev {
            SupervisorEvent::Heartbeat => {
                self.heartbeat = true;
            },
            SupervisorEvent::Tick => {
                if !self.heartbeat {
                    let old_gen = self.generation;
                    let new_gen = if old_gen == u64::MAX {
                        0
                    } else {
                        old_gen + 1
                    };
                    steps.push(ScopeStep::Cancel(old_gen));
                    steps.push(ScopeStep::AwaitBounded(old_gen));
                    steps.push(ScopeStep::Spawn(new_gen));
                    self.generation = new_gen;
                }
                self.heartbeat = false;
            },
            SupervisorEvent::Cancel => {
                steps.push(ScopeStep::Cancel(self.generation));
                steps.push(ScopeStep::AwaitFull(self.generation));
                self.running = false;
            },
        }
        proof {
            assert(steps@ =~= supervisor_step(old(self)@, ev).1);
        }
        steps
    }
}

/// The live (not yet canceled) scope after `step`, or `None` where the step
/// breaks the discipline: a child starts only when no scope is live, only the
/// live scope is canceled, and only a canceled scope is awaited.
pub open spec fn scope_after(live: Option<u64>, step: ScopeStep) -> Option<Option<u64>> {
    match step {
        ScopeStep::Spawn(g) => if live is None {
            Some(Some(g))
        } else {
            None
        },
        ScopeStep::Cancel(g) => if live == Some(g) {
            Some(None)
        } else {
            None
        },
        ScopeStep::AwaitBounded(g) => if live != Some(g) {
            Some(live)
        } else {
            None
        },
        ScopeStep::AwaitFull(g) => if live != Some(g) {
            Some(live)
        } else {
            None
        },
    }
}

/// The live scope after `steps`, or `None` where one breaks the discipline.
pub open spec fn scopes_after(live: Option<u64>, steps: Seq<ScopeStep>) -> Option<Option<u64>>
    decreases steps.len(),
{
    if steps.len() == 0 {
        Some(live)
    } else {
        match scope_after(live, steps[0]) {
            Some(l) => scopes_after(l, steps.drop_first()),
            None => None,
        }
    }
}

/// The live scope of a supervisor in state `m`.
pub open spec fn live_scope(m: SupervisorModel) -> Option<u64> {
    if m.running {
        Some(m.generation)
    } else {
        None
    }
}

/// The state after a run of events.
pub open spec fn run_state(m: SupervisorModel, evs: Seq<SupervisorEvent>) -> SupervisorModel
    decreases evs.len(),
{
    if evs.len() == 0 {
        m
    } else {
        run_state(supervisor_step(m, evs[0]).0, evs.drop_first())
    }
}

/// The scope operations emitted over a run of events, in order.
pub open spec fn run_steps(m: SupervisorModel, evs: Seq<SupervisorEvent>) -> Seq<ScopeStep>
    decreases evs.len(),
{
    if evs.len() == 0 {
        Seq::empty()
    } else {
        let (m1, s) = supervisor_step(m, evs[0]);
        s + run_steps(m1, evs.drop_first())
    }
}

/// How many children a run starts.
pub open spec fn spawns(steps: Seq<ScopeStep>) -> nat
    decreases steps.len(),
{
    if steps.len() == 0 {
        0
    } else {
        (if steps[0] is Spawn { 1nat } else { 0nat }) + spawns(steps.drop_first())
    }
}

/// How many ticks of `evs` find no heartbeat since the previous tick (or, for
/// the first, since `beat`), before any cancellation.
pub open spec fn silent_ticks(beat: bool, evs: Seq<SupervisorEvent>) -> nat
    decreases evs.len(),
{
    if evs.len() == 0 {
        0
    } else {
        match evs[0] {
            SupervisorEvent::Heartbeat => silent_ticks(true, evs.drop_first()),
            SupervisorEvent::Tick => (if beat { 0nat } else { 1nat }) + silent_ticks(false, evs.drop_first()),
            SupervisorEvent::Cancel => 0,
        }
    }
}

proof fn lemma_scopes_append(live: Option<u64>, a: Seq<ScopeStep>, b: Seq<ScopeStep>)
    ensures
        scopes_after(live, a + b) == (match scopes_after(live, a) {
            Some(l) => scopes_after(l, b),
            None => None,
        }),
    decreases a.len(),
{
    if a.len() > 0 {
        assert((a + b).drop_first() =~= a.drop_first() + b);
        match scope_after(live, a[0]) {
            Some(l) => lemma_scopes_append(l, a.drop_first(), b),
            None => {},
        }
    }
}

proof fn lemma_spawns_append(a: Seq<ScopeStep>, b: Seq<ScopeStep>)
    ensures
        spawns(a + b) == spawns(a) + spawns(b),
    decreases a.len(),
{
    if a.len() > 0 {
        assert((a + b).drop_first() =~= a.drop_first() + b);
        lemma_spawns_append(a.drop_first(), b);
    }
}

proof fn lemma_step_scopes(m: SupervisorModel, ev: SupervisorEvent)
    ensures
        scopes_after(live_scope(m), supervisor_step(m, ev).1) == Some(live_scope(supervisor_step(m, ev).0)),
        spawns(supervisor_step(m, ev).1) == (if m.running && ev == SupervisorEvent::Tick && !m.heartbeat {
            1nat
        } else {
            0nat
        }),
{
    let (m1, st) = supervisor_step(m, ev);
    let g = m.generation;
    let e = Seq::<ScopeStep>::empty();
    if m.running && ev == SupervisorEvent::Tick && !m.heartbeat {
        let n = next_generation(g);
        let s1 = st.drop_first();
        let s2 = s1.drop_first();
        assert(s1 =~= seq![ScopeStep::AwaitBounded(g), ScopeStep::Spawn(n)]);
        assert(s2 =~= seq![ScopeStep::Spawn(n)]);
        assert(s2.drop_first() =~= e);
        assert(scopes_after(Some(n), s2.drop_first()) == Some(Some(n)));
        assert(scopes_after(None, s2) == Some(Some(n)));
        assert(scopes_after(None, s1) == Some(Some(n)));
        assert(spawns(s2.drop_first()) == 0);
        assert(spawns(s2) == 1);
        assert(spawns(s1) == 1);
    } else if m.running && ev == SupervisorEvent::Cancel {
        let s1 = st.drop_first();
        assert(s1 =~= seq![ScopeStep::AwaitFull(g)]);
        assert(s1.drop_first() =~= e);
        assert(scopes_after(None, s1.drop_first()) == Some(None::<u64>));
        assert(scopes_after(None, s1) == Some(None::<u64>));
        assert(spawns(s1.drop_first()) == 0);
        assert(spawns(s1) == 0);
    } else {
        assert(st =~= e);
    }
}

/// At most one child is alive at any time: over any run of events, every
/// child starts only once the previous scope was canceled, only the live scope
/// is canceled, and only canceled scopes are awaited; at the end the live scope
/// is the supervisor's current one.
pub proof fn lemma_one_child_at_a_time(m: SupervisorModel, evs: Seq<SupervisorEvent>)
    ensures
        scopes_after(live_scope(m), run_steps(m, evs)) == Some(live_scope(run_state(m, evs))),
    decreases evs.len(),
{
    if evs.len() > 0 {
        let (m1, s) = supervisor_step(m, evs[0]);
        lemma_scopes_append(live_scope(m), s, run_steps(m1, evs.drop_first()));
        lemma_one_child_at_a_time(m1, evs.drop_first());
        lemma_step_scopes(m, evs[0]);
    }
}

/// Respawns follow silence exactly: over any run of a running supervisor, the
/// number of children started equals the number of ticks that found no
/// heartbeat since the previous tick, one per such tick.
pub proof fn lemma_respawn_per_silent_tick(m: SupervisorModel, evs: Seq<SupervisorEvent>)
    requires
        m.running,
    ensures
        spawns(run_steps(m, evs)) == silent_ticks(m.heartbeat, evs),
    decreases evs.len(),
{
    if evs.len() > 0 {
        let (m1, s) = supervisor_step(m, evs[0]);
        lemma_spawns_append(s, run_steps(m1, evs.drop_first()));
        lemma_step_scopes(m, evs[0]);
        if evs[0] == SupervisorEvent::Cancel {
            lemma_stopped_spawns_nothing(m1, evs.drop_first());
        } else {
            lemma_respawn_per_silent_tick(m1, evs.drop_first());
        }
    }
}

proof fn lemma_stopped_spawns_nothing(m: SupervisorModel, evs: Seq<SupervisorEvent>)
    requires
        !m.running,
    ensures
        run_steps(m, evs) == Seq::<ScopeStep>::empty(),
    decreases evs.len(),
{
    if evs.len() > 0 {
        lemma_stopped_spawns_nothing(m, evs.drop_first());
        assert(run_steps(m, evs) =~= Seq::<ScopeStep>::empty());
    }
}

} // verus!
