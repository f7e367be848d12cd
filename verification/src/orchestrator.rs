//! Lifecycle orchestrator: starts three independent services, propagates a
//! graceful shutdown signal on an external termination request, and enforces
//! a hard deadline after which still-running services are forcibly aborted.
//! The decisions are a state machine over events; the application edge runs
//! the event loop (task joins, signal handlers, timers) and performs the
//! actions the machine returns.
use vstd::prelude::*;

verus! {

/// Seconds granted to the services between the graceful signal and the
/// forced abort.
pub const GRACE_PERIOD_SECS: u64 = 5;

/// Where the orchestrator stands in its lifecycle.
#[derive(Clone, Copy, PartialEq, Eq, Structural, Debug)]
pub enum Phase {
    /// Configuration and services are being constructed and spawned.
    Starting,
    /// All services run; waiting on completions and termination requests.
    Running,
    /// The graceful signal is set; waiting for services to exit voluntarily.
    Draining,
    /// The grace period elapsed; still-running services are being aborted.
    Aborting,
    /// All services are gone, voluntarily or by force.
    Terminated,
}

/// What the supervising loop observes.
#[derive(Clone, Copy, PartialEq, Eq, Structural, Debug)]
pub enum OrchEvent {
    /// One service task finished; the payload says whether it exited cleanly
    /// (a failed service is logged, and counts toward completion like a
    /// clean one — it does not cancel its siblings).
    TaskFinished(bool),
    /// An external termination request (interrupt or terminate).
    TerminationRequest,
    /// The grace timer started by the termination request ran out.
    GraceElapsed,
}

/// What the supervising loop must do next.
#[derive(Clone, Copy, PartialEq, Eq, Structural, Debug)]
pub enum OrchAction {
    /// Keep waiting for events.
    Wait,
    /// Broadcast the graceful cancellation signal and start the grace timer.
    SignalGraceful,
    /// Forcibly terminate every still-running service task.
    AbortAll,
}

/// The orchestrator's supervision state. The two signal flags are one-shot
/// and monotonic: once set they stay set.
pub struct Orchestrator {
    pub phase: Phase,
    /// Number of service tasks spawned.
    pub tasks_total: usize,
    /// Number of service tasks that have finished, cleanly or not.
    pub tasks_done: usize,
    /// Among the finished tasks, the number that reported an error.
    pub tasks_failed: usize,
    /// The graceful cancellation signal.
    pub graceful: bool,
    /// The abort signal that supersedes the graceful one.
    pub aborted: bool,
}

impl Orchestrator {
    /// Supervision invariant.
    pub open spec fn wf(self) -> bool {
        &&& self.tasks_done <= self.tasks_total
        &&& self.tasks_failed <= self.tasks_done
        &&& (self.phase == Phase::Draining ==> self.graceful)
        &&& (self.aborted ==> self.graceful)
        &&& (self.phase == Phase::Aborting ==> self.aborted)
        &&& (self.phase == Phase::Terminated ==> self.tasks_done == self.tasks_total
            || self.aborted)
    }

    /// The process exit status the orchestrator reports: success exactly
    /// when no forced abort was needed.
    pub open spec fn exit_status_spec(self) -> int {
        if self.aborted {
            1
        } else {
            0
        }
    }

    /// A fresh orchestrator about to spawn `tasks_total` service tasks.
    pub fn new(tasks_total: usize) -> (r: Orchestrator)
        ensures
            r.wf(),
            r.phase == Phase::Starting,
            r.tasks_total == tasks_total,
            r.tasks_done == 0,
            r.tasks_failed == 0,
            !r.graceful,
            !r.aborted,
    {
        Orchestrator {
            phase: Phase::Starting,
            tasks_total,
            tasks_done: 0,
            tasks_failed: 0,
            graceful: false,
            aborted: false,
        }
    }

    /// All services are spawned: enter the running phase.
    pub fn services_started(&mut self)
        requires
            old(self).wf(),
            old(self).phase == Phase::Starting,
        ensures
            final(self).wf(),
            *final(self) == (Orchestrator { phase: Phase::Running, ..*old(self) }),
    {
        self.phase = Phase::Running;
    }

    /// One supervision step at the model level.
    pub open spec fn step_spec(self, e: OrchEvent) -> (Orchestrator, OrchAction) {
        match e {
            OrchEvent::TaskFinished(ok) => {
                let done = self.tasks_done + 1;
                let failed = if ok {
                    self.tasks_failed as int
                } else {
                    self.tasks_failed + 1
                };
                let next = Orchestrator {
                    tasks_done: done as usize,
                    tasks_failed: failed as usize,
                    phase: if done == self.tasks_total {
                        Phase::Terminated
                    } else {
                        self.phase
                    },
                    ..self
                };
                (next, OrchAction::Wait)
            },
            OrchEvent::TerminationRequest => {
                if self.phase == Phase::Running {
                    (
                        Orchestrator { phase: Phase::Draining, graceful: true, ..self },
                        OrchAction::SignalGraceful,
                    )
                } else {
                    (Orchestrator { graceful: true, ..self }, OrchAction::Wait)
                }
            },
            OrchEvent::GraceElapsed => {
                if self.phase == Phase::Draining && self.tasks_done < self.tasks_total {
                    (
                        Orchestrator { phase: Phase::Aborting, aborted: true, ..self },
                        OrchAction::AbortAll,
                    )
                } else {
                    (self, OrchAction::Wait)
                }
            },
        }
    }

    /// One supervision step. A task-finished event presupposes a task was
    /// still running; the supervising loop observes at most `tasks_total`
    /// such events. The signal flags only ever go from unset to set.
    pub fn step(&mut self, e: OrchEvent) -> (action: OrchAction)
        requires
            old(self).wf(),
            old(self).phase != Phase::Starting,
            e matches OrchEvent::TaskFinished(_) ==> old(self).tasks_done < old(self).tasks_total,
        ensures
            final(self).wf(),
            (*final(self), action) == old(self).step_spec(e),
            old(self).graceful ==> final(self).graceful,
            old(self).aborted ==> final(self).aborted,
            old(self).tasks_done <= final(self).tasks_done,
    {
        match e {
            OrchEvent::TaskFinished(ok) => {
                self.tasks_done = self.tasks_done + 1;
                if !ok {
                    self.tasks_failed = self.tasks_failed + 1;
                }
                if self.tasks_done == self.tasks_total {
                    self.phase = Phase::Terminated;
                }
                OrchAction::Wait
            },
            OrchEvent::TerminationRequest => {
                self.graceful = true;
                if self.phase == Phase::Running {
                    self.phase = Phase::Draining;
                    OrchAction::SignalGraceful
                } else {
                    OrchAction::Wait
                }
            },
            OrchEvent::GraceElapsed => {
                if self.phase == Phase::Draining && self.tasks_done < self.tasks_total {
                    self.phase = Phase::Aborting;
                    self.aborted = true;
                    OrchAction::AbortAll
                } else {
                    OrchAction::Wait
                }
            },
        }
    }

    /// The forced abort completed: every remaining task was discarded.
    pub fn abort_completed(&mut self)
        requires
            old(self).wf(),
            old(self).phase == Phase::Aborting,
        ensures
            final(self).wf(),
            *final(self) == (Orchestrator { phase: Phase::Terminated, ..*old(self) }),
            final(self).exit_status_spec() == 1,
    {
        self.phase = Phase::Terminated;
    }

    /// The single exit status reported for the whole process: zero exactly
    /// when every service finished without a forced abort.
    pub fn exit_code(&self) -> (r: i32)
        requires
            self.wf(),
            self.phase == Phase::Terminated,
        ensures
            r == self.exit_status_spec(),
            r == 0 <==> !self.aborted,
    {
        if self.aborted {
            1
        } else {
            0
        }
    }
}

/// The orchestrator state after `k` further task completions.
pub open spec fn after_finishes(o: Orchestrator, k: int) -> Orchestrator
    decreases k,
{
    if k <= 0 {
        o
    } else {
        after_finishes(o.step_spec(OrchEvent::TaskFinished(true)).0, k - 1)
    }
}

/// Graceful shutdown: once the termination request has set the graceful
/// signal, if every remaining service observes it and exits within the
/// grace period, the orchestrator terminates with exit status zero and the
/// abort signal never fires.
pub proof fn lemma_graceful_shutdown(o: Orchestrator)
    requires
        o.wf(),
        o.phase == Phase::Running,
        o.tasks_done < o.tasks_total,
        !o.aborted,
    ensures
        ({
            let (d, a) = o.step_spec(OrchEvent::TerminationRequest);
            let done = after_finishes(d, o.tasks_total - o.tasks_done);
            &&& a == OrchAction::SignalGraceful
            &&& d.graceful
            &&& done.phase == Phase::Terminated
            &&& !done.aborted
            &&& done.exit_status_spec() == 0
        }),
{
    let (d, a) = o.step_spec(OrchEvent::TerminationRequest);
    lemma_finishes_terminate(d, o.tasks_total - o.tasks_done);
}

/// Counting the remaining completions down to zero terminates the machine
/// without touching the abort signal.
proof fn lemma_finishes_terminate(o: Orchestrator, k: int)
    requires
        o.wf(),
        k == o.tasks_total - o.tasks_done,
        k == 0 ==> o.phase == Phase::Terminated,
    ensures
        after_finishes(o, k).phase == Phase::Terminated,
        after_finishes(o, k).aborted == o.aborted,
        after_finishes(o, k).tasks_done == o.tasks_total,
        after_finishes(o, k).wf(),
    decreases k,
{
    if k <= 0 {
        assert(o.tasks_done == o.tasks_total);
    } else {
        let next = o.step_spec(OrchEvent::TaskFinished(true)).0;
        lemma_finishes_terminate(next, k - 1);
    }
}

/// A service failing while its siblings still run is logged and counted,
/// nothing more: no signal goes out, no sibling is cancelled, and the
/// orchestrator keeps waiting.
pub proof fn lemma_task_failure_does_not_cancel_siblings(o: Orchestrator)
    requires
        o.wf(),
        o.phase == Phase::Running,
        o.tasks_done + 1 < o.tasks_total,
    ensures
        ({
            let (next, action) = o.step_spec(OrchEvent::TaskFinished(false));
            &&& action == OrchAction::Wait
            &&& next.phase == Phase::Running
            &&& next.graceful == o.graceful
            &&& next.aborted == o.aborted
            &&& next.tasks_failed == o.tasks_failed + 1
            &&& next.tasks_done == o.tasks_done + 1
        }),
{
}

/// Forced abort: if a service never observes the graceful signal, the grace
/// timer's expiry aborts every still-running task and the process reports a
/// nonzero exit status.
pub proof fn lemma_forced_abort(o: Orchestrator)
    requires
        o.wf(),
        o.phase == Phase::Draining,
        o.tasks_done < o.tasks_total,
    ensures
        ({
            let (aborting, action) = o.step_spec(OrchEvent::GraceElapsed);
            &&& action == OrchAction::AbortAll
            &&& aborting.phase == Phase::Aborting
            &&& aborting.aborted
            &&& aborting.exit_status_spec() == 1
        }),
{
}

} // verus!
