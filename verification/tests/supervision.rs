use wsw::supervisor::{
    initial_state, route_event, step, SupervisorAction, SupervisorEvent, SupervisorPhase,
};

#[test]
fn start_leads_to_a_spawn() {
    let s0 = initial_state();
    assert_eq!(s0.phase, SupervisorPhase::Idle);
    assert_eq!(s0.current_child, None);
    assert_eq!(s0.current_killtree, None);
    let (s1, a1) = step(&s0, &SupervisorEvent::StartRequested);
    assert_eq!(s1.phase, SupervisorPhase::Launching);
    assert_eq!(a1, SupervisorAction::SpawnChild);
}

#[test]
fn running_holds_the_attached_child() {
    let s0 = initial_state();
    let (s1, _) = step(&s0, &SupervisorEvent::StartRequested);
    let (s2, a2) = step(&s1, &SupervisorEvent::SpawnSucceeded { child: 7, killtree: 9 });
    assert_eq!(s2.phase, SupervisorPhase::Running);
    assert_eq!(s2.current_child, Some(7));
    assert_eq!(s2.current_killtree, Some(9));
    assert_eq!(a2, SupervisorAction::PollChild { child: 7 });
}

#[test]
fn child_exit_forces_a_backoff_before_the_next_spawn() {
    let s0 = initial_state();
    let (s1, _) = step(&s0, &SupervisorEvent::StartRequested);
    let (s2, _) = step(&s1, &SupervisorEvent::SpawnSucceeded { child: 7, killtree: 9 });
    let (s3, a3) = step(&s2, &SupervisorEvent::ChildExited { exit_code: 0 });
    assert_eq!(s3.phase, SupervisorPhase::Backoff);
    assert_eq!(s3.current_child, None);
    assert_eq!(s3.current_killtree, None);
    assert_eq!(a3, SupervisorAction::ReleaseAndBackoff { child: 7, killtree: 9 });
    let (s4, a4) = step(&s3, &SupervisorEvent::BackoffElapsed);
    assert_eq!(s4.phase, SupervisorPhase::Launching);
    assert_eq!(a4, SupervisorAction::SpawnChild);
}

#[test]
fn crash_loop_keeps_restarting_until_stopped() {
    let mut state = initial_state();
    let mut spawns = 0;
    let events = [
        SupervisorEvent::StartRequested,
        SupervisorEvent::SpawnSucceeded { child: 1, killtree: 2 },
        SupervisorEvent::ChildExited { exit_code: 1 },
        SupervisorEvent::BackoffElapsed,
        SupervisorEvent::SpawnSucceeded { child: 3, killtree: 4 },
        SupervisorEvent::ChildExited { exit_code: 1 },
        SupervisorEvent::BackoffElapsed,
    ];
    for e in events.iter() {
        let (next, action) = step(&state, e);
        if action == SupervisorAction::SpawnChild {
            spawns += 1;
        }
        assert_ne!(next.phase, SupervisorPhase::Terminated);
        state = next;
    }
    assert_eq!(spawns, 3);
    assert_eq!(state.phase, SupervisorPhase::Launching);
}

#[test]
fn stop_tears_down_child_then_killtree_then_reports() {
    let s0 = initial_state();
    let (s1, _) = step(&s0, &SupervisorEvent::StartRequested);
    let (s2, _) = step(&s1, &SupervisorEvent::SpawnSucceeded { child: 7, killtree: 9 });
    let (s3, a3) = step(&s2, &SupervisorEvent::StopRequested);
    assert_eq!(s3.phase, SupervisorPhase::StoppingChild);
    assert!(s3.stop_requested);
    assert_eq!(a3, SupervisorAction::KillChildAndKillTree { child: 7, killtree: 9 });
    let (s4, a4) = step(&s3, &SupervisorEvent::CleanupDone);
    assert_eq!(s4.phase, SupervisorPhase::Terminated);
    assert_eq!(s4.current_child, None);
    assert_eq!(s4.current_killtree, None);
    assert_eq!(a4, SupervisorAction::ReportStopped);
}

#[test]
fn stop_during_backoff_skips_the_respawn() {
    let s0 = initial_state();
    let (s1, _) = step(&s0, &SupervisorEvent::StartRequested);
    let (s2, _) = step(&s1, &SupervisorEvent::SpawnFailed);
    assert_eq!(s2.phase, SupervisorPhase::Backoff);
    let (s3, a3) = step(&s2, &SupervisorEvent::StopRequested);
    assert_eq!(s3.phase, SupervisorPhase::Terminated);
    assert_eq!(s3.current_child, None);
    assert_eq!(s3.current_killtree, None);
    assert_eq!(a3, SupervisorAction::ReportStopped);
}

#[test]
fn spawn_failure_backs_off_instead_of_dying() {
    let s0 = initial_state();
    let (s1, _) = step(&s0, &SupervisorEvent::StartRequested);
    let (s2, a2) = step(&s1, &SupervisorEvent::SpawnFailed);
    assert_eq!(s2.phase, SupervisorPhase::Backoff);
    assert_eq!(s2.current_child, None);
    assert_eq!(s2.current_killtree, None);
    assert_eq!(a2, SupervisorAction::Wait);
}

#[test]
fn routed_stop_still_delivers_the_cleanup_outcome() {
    // A stop observed while running: the first routed decision orders the
    // kill, and the pending cleanup outcome — not another stop — terminates
    // the machine, so the loop exits and Stopped can be published.
    let s0 = initial_state();
    let e0 = route_event(&s0, false, &SupervisorEvent::StartRequested);
    let (s1, _) = step(&s0, &e0);
    let (s2, _) = step(&s1, &SupervisorEvent::SpawnSucceeded { child: 7, killtree: 9 });
    let pending = SupervisorEvent::ChildStillRunning;

    let e1 = route_event(&s2, true, &pending);
    assert_eq!(e1, SupervisorEvent::StopRequested);
    let (s3, a3) = step(&s2, &e1);
    assert_eq!(s3.phase, SupervisorPhase::StoppingChild);
    assert_eq!(a3, SupervisorAction::KillChildAndKillTree { child: 7, killtree: 9 });

    let e2 = route_event(&s3, true, &SupervisorEvent::CleanupDone);
    assert_eq!(e2, SupervisorEvent::CleanupDone);
    let (s4, a4) = step(&s3, &e2);
    assert_eq!(s4.phase, SupervisorPhase::Terminated);
    assert_eq!(s4.current_child, None);
    assert_eq!(s4.current_killtree, None);
    assert_eq!(a4, SupervisorAction::ReportStopped);
}

#[test]
fn routed_stop_during_backoff_terminates_at_once() {
    let s0 = initial_state();
    let (s1, _) = step(&s0, &SupervisorEvent::StartRequested);
    let (s2, _) = step(&s1, &SupervisorEvent::SpawnSucceeded { child: 1, killtree: 2 });
    let (s3, _) = step(&s2, &SupervisorEvent::ChildExited { exit_code: 0 });
    let e = route_event(&s3, true, &SupervisorEvent::BackoffElapsed);
    assert_eq!(e, SupervisorEvent::StopRequested);
    let (s4, a4) = step(&s3, &e);
    assert_eq!(s4.phase, SupervisorPhase::Terminated);
    assert_eq!(a4, SupervisorAction::ReportStopped);
}

#[test]
fn routing_passes_outcomes_through_without_a_stop() {
    let s0 = initial_state();
    let pending = SupervisorEvent::StartRequested;
    assert_eq!(route_event(&s0, false, &pending), SupervisorEvent::StartRequested);
    let (s1, _) = step(&s0, &SupervisorEvent::StartRequested);
    let ok = SupervisorEvent::SpawnSucceeded { child: 3, killtree: 4 };
    assert_eq!(route_event(&s1, false, &ok), ok);
}
