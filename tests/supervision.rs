use odysseus_daemon::shutdown::{GracefulShutdown, ShutdownStep, KILL_POLL_LIMIT};
use odysseus_daemon::supervisor::{DaqSupervisor, ScopeStep, SupervisorEvent};

#[test]
fn supervisor_starts_first_child() {
    let (_, steps) = DaqSupervisor::start();
    assert_eq!(steps, vec![ScopeStep::Spawn(0)]);
}

#[test]
fn heartbeat_keeps_child_alive() {
    let (mut s, _) = DaqSupervisor::start();
    assert!(s.on_event(SupervisorEvent::Heartbeat).is_empty());
    assert!(s.on_event(SupervisorEvent::Tick).is_empty());
}

#[test]
fn silent_tick_cancels_then_respawns() {
    let (mut s, _) = DaqSupervisor::start();
    assert_eq!(
        s.on_event(SupervisorEvent::Tick),
        vec![ScopeStep::Cancel(0), ScopeStep::AwaitBounded(0), ScopeStep::Spawn(1)]
    );
    // the flag was reset: a heartbeat from the new child keeps it
    assert!(s.on_event(SupervisorEvent::Heartbeat).is_empty());
    assert!(s.on_event(SupervisorEvent::Tick).is_empty());
    assert_eq!(
        s.on_event(SupervisorEvent::Tick),
        vec![ScopeStep::Cancel(1), ScopeStep::AwaitBounded(1), ScopeStep::Spawn(2)]
    );
}

#[test]
fn silence_over_several_ticks_respawns_once_per_tick() {
    let (mut s, _) = DaqSupervisor::start();
    assert!(s.on_event(SupervisorEvent::Heartbeat).is_empty());
    let mut spawns = 0;
    for _ in 0..4 {
        for step in s.on_event(SupervisorEvent::Tick) {
            if let ScopeStep::Spawn(_) = step {
                spawns += 1;
            }
        }
    }
    // the first tick saw the heartbeat; the three after it were silent
    assert_eq!(spawns, 3);
}

#[test]
fn cancel_awaits_child_and_stops() {
    let (mut s, _) = DaqSupervisor::start();
    s.on_event(SupervisorEvent::Tick);
    assert_eq!(
        s.on_event(SupervisorEvent::Cancel),
        vec![ScopeStep::Cancel(1), ScopeStep::AwaitFull(1)]
    );
    assert!(s.on_event(SupervisorEvent::Tick).is_empty());
    assert!(s.on_event(SupervisorEvent::Cancel).is_empty());
}

fn run(exit_at_poll: Option<usize>) -> Vec<ShutdownStep> {
    let mut g = GracefulShutdown::new();
    let mut steps = Vec::new();
    let mut polls = 0;
    let mut exited = false;
    loop {
        let s = g.next_step(exited);
        steps.push(s);
        match s {
            ShutdownStep::SleepThenPoll => {
                polls += 1;
                exited = exit_at_poll == Some(polls);
            }
            ShutdownStep::Done => break,
            _ => {}
        }
        assert!(steps.len() <= 15);
    }
    steps
}

#[test]
fn escalation_kills_after_twelve_polls() {
    let steps = run(None);
    assert_eq!(steps.len(), 15);
    assert_eq!(steps[0], ShutdownStep::SendTerm);
    assert_eq!(
        steps.iter().filter(|s| **s == ShutdownStep::SleepThenPoll).count(),
        KILL_POLL_LIMIT as usize
    );
    assert_eq!(steps[13], ShutdownStep::ForceKill);
    assert_eq!(steps[14], ShutdownStep::Done);
}

#[test]
fn escalation_stops_polling_once_exited() {
    let steps = run(Some(3));
    assert_eq!(
        steps,
        vec![
            ShutdownStep::SendTerm,
            ShutdownStep::SleepThenPoll,
            ShutdownStep::SleepThenPoll,
            ShutdownStep::SleepThenPoll,
            ShutdownStep::ForceKill,
            ShutdownStep::Done,
        ]
    );
}

#[test]
fn escalation_ignores_exit_before_first_poll() {
    let mut g = GracefulShutdown::new();
    assert_eq!(g.next_step(true), ShutdownStep::SendTerm);
    // an exit reported before any poll does not skip the wait
    assert_eq!(g.next_step(true), ShutdownStep::SleepThenPoll);
    assert_eq!(g.next_step(true), ShutdownStep::ForceKill);
    assert_eq!(g.next_step(false), ShutdownStep::Done);
    assert_eq!(g.next_step(false), ShutdownStep::Done);
}
