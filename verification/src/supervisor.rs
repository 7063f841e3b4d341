//! The supervision state machine of service mode: it owns the running child
//! and its kill tree, reacts to spawn results, child exits, the stop flag and
//! backoff timers, and decides the next platform action. The surrounding
//! loop performs the actions and feeds the outcomes back as events.

use vstd::prelude::*;

verus! {

#[derive(Clone, Copy, PartialEq, Eq, Structural, Debug)]
pub enum SupervisorPhase {
    Idle,
    Launching,
    Running,
    StoppingChild,
    Backoff,
    Terminated,
}

/// The supervisor's whole runtime state. Child and kill tree are held as the
/// platform layer's opaque handle values.
#[derive(Clone, Copy, Debug)]
pub struct SupervisorState {
    pub phase: SupervisorPhase,
    pub stop_requested: bool,
    pub current_child: Option<u64>,
    pub current_killtree: Option<u64>,
}

/// What the platform layer reports back to the supervisor.
///
/// `SpawnSucceeded` means the Spawner completed all of its steps: the child
/// was started and attached to a fresh kill tree, and the output pumps are
/// live (or suppressed) — only then does the supervisor hold a child.
#[derive(Clone, Copy, PartialEq, Eq, Structural, Debug)]
pub enum SupervisorEvent {
    StartRequested,
    SpawnSucceeded { child: u64, killtree: u64 },
    SpawnFailed,
    ChildStillRunning,
    ChildExited { exit_code: u32 },
    StopRequested,
    BackoffElapsed,
    CleanupDone,
}

/// What the loop does next.
///
/// `ReleaseAndBackoff` releases the exited child's handle first, then closes
/// the kill tree (terminating any surviving descendants), then sleeps the
/// backoff floor of at least one second. `KillChildAndKillTree` kills the
/// child, closes the kill tree and joins the output pumps, reporting
/// `CleanupDone` after. `PollChild` sleeps at most one second, then checks
/// the stop flag and tries a non-blocking wait on the child.
#[derive(Clone, Copy, PartialEq, Eq, Structural, Debug)]
pub enum SupervisorAction {
    SpawnChild,
    PollChild { child: u64 },
    ReleaseAndBackoff { child: u64, killtree: u64 },
    KillChildAndKillTree { child: u64, killtree: u64 },
    ReportStopped,
    Wait,
}

/// The state the supervisor keeps between steps is well formed: a child and
/// a kill tree are held exactly while one is running or being stopped, never
/// one without the other, and the stop flag is recorded exactly in the two
/// phases a stop request leads to — observing a stop always leaves the
/// supervision loop.
pub open spec fn spec_inv(s: SupervisorState) -> bool {
    &&& (s.phase == SupervisorPhase::Running || s.phase == SupervisorPhase::StoppingChild) ==> (
    s.current_child is Some && s.current_killtree is Some)
    &&& (s.phase == SupervisorPhase::Idle || s.phase == SupervisorPhase::Launching || s.phase
        == SupervisorPhase::Backoff || s.phase == SupervisorPhase::Terminated) ==> (
    s.current_child is None && s.current_killtree is None)
    &&& s.stop_requested == (s.phase == SupervisorPhase::StoppingChild || s.phase
        == SupervisorPhase::Terminated)
}

pub open spec fn spec_initial_state() -> SupervisorState {
    SupervisorState {
        phase: SupervisorPhase::Idle,
        stop_requested: false,
        current_child: None,
        current_killtree: None,
    }
}

pub fn initial_state() -> (r: SupervisorState)
    ensures
        r == spec_initial_state(),
        spec_inv(r),
{
    SupervisorState {
        phase: SupervisorPhase::Idle,
        stop_requested: false,
        current_child: None,
        current_killtree: None,
    }
}

/// The whole transition relation, one case per phase and event. Events that
/// cannot occur in a phase leave the state unchanged.
pub open spec fn spec_step(s: SupervisorState, e: SupervisorEvent) -> (
    SupervisorState,
    SupervisorAction,
) {
    match s.phase {
        SupervisorPhase::Idle => match e {
            SupervisorEvent::StartRequested => (
                SupervisorState { phase: SupervisorPhase::Launching, ..s },
                SupervisorAction::SpawnChild,
            ),
            SupervisorEvent::StopRequested => (
                SupervisorState { phase: SupervisorPhase::Terminated, stop_requested: true, ..s },
                SupervisorAction::ReportStopped,
            ),
            _ => (s, SupervisorAction::Wait),
        },
        SupervisorPhase::Launching => match e {
            SupervisorEvent::SpawnSucceeded { child, killtree } => (
                SupervisorState {
                    phase: SupervisorPhase::Running,
                    current_child: Some(child),
                    current_killtree: Some(killtree),
                    ..s
                },
                SupervisorAction::PollChild { child },
            ),
            SupervisorEvent::SpawnFailed => (
                SupervisorState { phase: SupervisorPhase::Backoff, ..s },
                SupervisorAction::Wait,
            ),
            SupervisorEvent::StopRequested => (
                SupervisorState { phase: SupervisorPhase::Terminated, stop_requested: true, ..s },
                SupervisorAction::ReportStopped,
            ),
            _ => (s, SupervisorAction::Wait),
        },
        SupervisorPhase::Running => match e {
            SupervisorEvent::ChildStillRunning => (
                s,
                SupervisorAction::PollChild { child: s.current_child->0 },
            ),
            SupervisorEvent::ChildExited { exit_code } => (
                SupervisorState {
                    phase: SupervisorPhase::Backoff,
                    current_child: None,
                    current_killtree: None,
                    ..s
                },
                SupervisorAction::ReleaseAndBackoff {
                    child: s.current_child->0,
                    killtree: s.current_killtree->0,
                },
            ),
            SupervisorEvent::StopRequested => (
                SupervisorState {
                    phase: SupervisorPhase::StoppingChild,
                    stop_requested: true,
                    ..s
                },
                SupervisorAction::KillChildAndKillTree {
                    child: s.current_child->0,
                    killtree: s.current_killtree->0,
                },
            ),
            _ => (s, SupervisorAction::PollChild { child: s.current_child->0 }),
        },
        SupervisorPhase::StoppingChild => match e {
            SupervisorEvent::CleanupDone => (
                SupervisorState {
                    phase: SupervisorPhase::Terminated,
                    current_child: None,
                    current_killtree: None,
                    ..s
                },
                SupervisorAction::ReportStopped,
            ),
            SupervisorEvent::StopRequested => (
                SupervisorState { stop_requested: true, ..s },
                SupervisorAction::Wait,
            ),
            _ => (s, SupervisorAction::Wait),
        },
        SupervisorPhase::Backoff => match e {
            SupervisorEvent::BackoffElapsed => (
                SupervisorState { phase: SupervisorPhase::Launching, ..s },
                SupervisorAction::SpawnChild,
            ),
            SupervisorEvent::StopRequested => (
                SupervisorState { phase: SupervisorPhase::Terminated, stop_requested: true, ..s },
                SupervisorAction::ReportStopped,
            ),
            _ => (s, SupervisorAction::Wait),
        },
        SupervisorPhase::Terminated => match e {
            SupervisorEvent::StopRequested => (
                SupervisorState { stop_requested: true, ..s },
                SupervisorAction::Wait,
            ),
            _ => (s, SupervisorAction::Wait),
        },
    }
}

/// One decision of the supervisor.
pub fn step(s: &SupervisorState, e: &SupervisorEvent) -> (r: (
    SupervisorState,
    SupervisorAction,
))
    requires
        spec_inv(*s),
    ensures
        r == spec_step(*s, *e),
        spec_inv(r.0),
{
    let next = match s.phase {
        SupervisorPhase::Idle => match e {
            SupervisorEvent::StartRequested => (
                SupervisorState { phase: SupervisorPhase::Launching, ..*s },
                SupervisorAction::SpawnChild,
            ),
            SupervisorEvent::StopRequested => (
                SupervisorState { phase: SupervisorPhase::Terminated, stop_requested: true, ..*s },
                SupervisorAction::ReportStopped,
            ),
            _ => (*s, SupervisorAction::Wait),
        },
        SupervisorPhase::Launching => match e {
            SupervisorEvent::SpawnSucceeded { child, killtree } => (
                SupervisorState {
                    phase: SupervisorPhase::Running,
                    current_child: Some(*child),
                    current_killtree: Some(*killtree),
                    ..*s
                },
                SupervisorAction::PollChild { child: *child },
            ),
            SupervisorEvent::SpawnFailed => (
                SupervisorState { phase: SupervisorPhase::Backoff, ..*s },
                SupervisorAction::Wait,
            ),
            SupervisorEvent::StopRequested => (
                SupervisorState { phase: SupervisorPhase::Terminated, stop_requested: true, ..*s },
                SupervisorAction::ReportStopped,
            ),
            _ => (*s, SupervisorAction::Wait),
        },
        SupervisorPhase::Running => {
            let child = match s.current_child {
                Some(c) => c,
                None => 0,
            };
            let killtree = match s.current_killtree {
                Some(k) => k,
                None => 0,
            };
            match e {
                SupervisorEvent::ChildStillRunning => (*s, SupervisorAction::PollChild { child }),
                SupervisorEvent::ChildExited { .. } => (
                    SupervisorState {
                        phase: SupervisorPhase::Backoff,
                        current_child: None,
                        current_killtree: None,
                        ..*s
                    },
                    SupervisorAction::ReleaseAndBackoff { child, killtree },
                ),
                SupervisorEvent::StopRequested => (
                    SupervisorState {
                        phase: SupervisorPhase::StoppingChild,
                        stop_requested: true,
                        ..*s
                    },
                    SupervisorAction::KillChildAndKillTree { child, killtree },
                ),
                _ => (*s, SupervisorAction::PollChild { child }),
            }
        },
        SupervisorPhase::StoppingChild => match e {
            SupervisorEvent::CleanupDone => (
                SupervisorState {
                    phase: SupervisorPhase::Terminated,
                    current_child: None,
                    current_killtree: None,
                    ..*s
                },
                SupervisorAction::ReportStopped,
            ),
            SupervisorEvent::StopRequested => (
                SupervisorState { stop_requested: true, ..*s },
                SupervisorAction::Wait,
            ),
            _ => (*s, SupervisorAction::Wait),
        },
        SupervisorPhase::Backoff => match e {
            SupervisorEvent::BackoffElapsed => (
                SupervisorState { phase: SupervisorPhase::Launching, ..*s },
                SupervisorAction::SpawnChild,
            ),
            SupervisorEvent::StopRequested => (
                SupervisorState { phase: SupervisorPhase::Terminated, stop_requested: true, ..*s },
                SupervisorAction::ReportStopped,
            ),
            _ => (*s, SupervisorAction::Wait),
        },
        SupervisorPhase::Terminated => match e {
            SupervisorEvent::StopRequested => (
                SupervisorState { stop_requested: true, ..*s },
                SupervisorAction::Wait,
            ),
            _ => (*s, SupervisorAction::Wait),
        },
    };
    next
}

/// Every exit from the supervision loop leaves no handle behind: a step into
/// `Terminated` — and any step that leaves `Running`, `StoppingChild` or
/// `Backoff` — clears both `current_child` and `current_killtree`, and the
/// invariant is preserved by every step.
pub proof fn lemma_exit_clears_handles(s: SupervisorState, e: SupervisorEvent)
    requires
        spec_inv(s),
    ensures
        spec_inv(spec_step(s, e).0),
        spec_step(s, e).0.phase == SupervisorPhase::Terminated ==> spec_step(s, e).0.current_child
            is None && spec_step(s, e).0.current_killtree is None,
        spec_step(s, e).0.phase == SupervisorPhase::Backoff ==> spec_step(s, e).0.current_child
            is None && spec_step(s, e).0.current_killtree is None,
{
}

/// `Running` is entered only through a successful spawn, whose event means
/// the child is already attached to its kill tree: the new state holds
/// exactly that child and that kill tree.
pub proof fn lemma_running_only_after_attached_spawn(s: SupervisorState, e: SupervisorEvent)
    requires
        spec_inv(s),
    ensures
        (spec_step(s, e).0.phase == SupervisorPhase::Running && s.phase
            != SupervisorPhase::Running) ==> (e matches SupervisorEvent::SpawnSucceeded {
            child,
            killtree,
        } && spec_step(s, e).0.current_child == Some(child) && spec_step(s, e).0.current_killtree
            == Some(killtree)),
{
}

/// A child exit always costs at least one backoff: the exit moves the
/// supervisor to `Backoff` with an action that sleeps the backoff floor, and
/// a new spawn is issued only for the very first start or after a backoff
/// has elapsed — never directly from a child exit.
pub proof fn lemma_backoff_before_respawn(s: SupervisorState, e: SupervisorEvent)
    requires
        spec_inv(s),
    ensures
        spec_step(s, e).1 == SupervisorAction::SpawnChild ==> ((s.phase == SupervisorPhase::Idle
            && e == SupervisorEvent::StartRequested) || (s.phase == SupervisorPhase::Backoff && e
            == SupervisorEvent::BackoffElapsed)),
        (s.phase == SupervisorPhase::Running && (e matches SupervisorEvent::ChildExited { .. }))
            ==> (spec_step(s, e).0.phase == SupervisorPhase::Backoff && (spec_step(s, e).1 matches
        SupervisorAction::ReleaseAndBackoff { .. })),
{
}

/// The stop request is monotonic: once observed it never clears, and a
/// stopped supervisor stays stopped.
pub proof fn lemma_stop_is_monotonic(s: SupervisorState, e: SupervisorEvent)
    requires
        spec_inv(s),
    ensures
        s.stop_requested ==> spec_step(s, e).0.stop_requested,
        s.phase == SupervisorPhase::Terminated ==> spec_step(s, e).0.phase
            == SupervisorPhase::Terminated,
{
}

/// Which event the supervision loop hands to the machine next: the stop flag
/// turns into a `StopRequested` event exactly once, when the machine has not
/// yet recorded it; afterwards the pending outcome of the last performed
/// action goes through untouched, so a cleanup outcome is never discarded.
pub open spec fn spec_route_event(
    s: SupervisorState,
    stop_seen: bool,
    pending: SupervisorEvent,
) -> SupervisorEvent {
    if stop_seen && !s.stop_requested {
        SupervisorEvent::StopRequested
    } else {
        pending
    }
}

pub fn route_event(s: &SupervisorState, stop_seen: bool, pending: &SupervisorEvent) -> (r:
    SupervisorEvent)
    ensures
        r == spec_route_event(*s, stop_seen, *pending),
{
    if stop_seen && !s.stop_requested {
        SupervisorEvent::StopRequested
    } else {
        *pending
    }
}

/// One turn of the supervision loop: the routed event applied to the machine.
pub open spec fn spec_supervised_step(
    s: SupervisorState,
    stop_seen: bool,
    pending: SupervisorEvent,
) -> (SupervisorState, SupervisorAction) {
    spec_step(s, spec_route_event(s, stop_seen, pending))
}

/// The outcomes the platform loop may report for each action it performed:
/// a spawn succeeds or fails, a poll sees the child alive or gone, a release
/// ends with its backoff elapsed, and killing the child and closing the kill
/// tree always ends in `CleanupDone`.
pub open spec fn spec_action_outcome(a: SupervisorAction, e: SupervisorEvent) -> bool {
    match a {
        SupervisorAction::SpawnChild => (e matches SupervisorEvent::SpawnSucceeded { .. }) || e
            == SupervisorEvent::SpawnFailed,
        SupervisorAction::PollChild { .. } => e == SupervisorEvent::ChildStillRunning || (
        e matches SupervisorEvent::ChildExited { .. }),
        SupervisorAction::ReleaseAndBackoff { .. } => e == SupervisorEvent::BackoffElapsed,
        SupervisorAction::KillChildAndKillTree { .. } => e == SupervisorEvent::CleanupDone,
        SupervisorAction::ReportStopped => e == SupervisorEvent::CleanupDone,
        SupervisorAction::Wait => e == SupervisorEvent::BackoffElapsed,
    }
}

/// A live loop configuration: a well-formed state together with a pending
/// outcome; while a child is being stopped, the pending outcome is the
/// cleanup the machine itself ordered.
pub open spec fn spec_config_ok(s: SupervisorState, pending: SupervisorEvent) -> bool {
    &&& spec_inv(s)
    &&& s.phase == SupervisorPhase::StoppingChild ==> pending == SupervisorEvent::CleanupDone
}

/// The routed loop keeps its configuration: whatever the stop flag says and
/// whatever outcome the performed action reports, the next state is well
/// formed and a stopping machine always has its cleanup outcome pending.
pub proof fn lemma_routed_step_preserves_config(
    s: SupervisorState,
    stop_seen: bool,
    pending: SupervisorEvent,
    outcome: SupervisorEvent,
)
    requires
        spec_config_ok(s, pending),
        spec_action_outcome(spec_supervised_step(s, stop_seen, pending).1, outcome),
    ensures
        spec_config_ok(spec_supervised_step(s, stop_seen, pending).0, outcome),
{
}

/// Once a stop has been observed, the routed loop reaches `Terminated`
/// within two decisions: the first routed step either terminates the machine
/// at once or orders the child killed and the kill tree closed, and the
/// cleanup outcome of that order terminates it — no pending outcome can
/// displace the cleanup, and no further spawn can intervene.
pub proof fn lemma_stop_reaches_terminated(s: SupervisorState, pending: SupervisorEvent)
    requires
        spec_config_ok(s, pending),
    ensures
        ({
            let first = spec_supervised_step(s, true, pending);
            first.0.phase == SupervisorPhase::Terminated || ((
            first.1 matches SupervisorAction::KillChildAndKillTree { .. }) && spec_supervised_step(
                first.0,
                true,
                SupervisorEvent::CleanupDone,
            ).0.phase == SupervisorPhase::Terminated)
        }),
{
}

} // verus!
