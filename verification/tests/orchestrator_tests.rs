use mailcrab_backend::orchestrator::OrchAction;
use mailcrab_backend::orchestrator::OrchEvent;
use mailcrab_backend::orchestrator::Orchestrator;
use mailcrab_backend::orchestrator::Phase;
use mailcrab_backend::orchestrator::GRACE_PERIOD_SECS;

#[test]
fn grace_period_is_five_seconds() {
    assert_eq!(GRACE_PERIOD_SECS, 5);
}

#[test]
fn graceful_shutdown_exits_zero() {
    let mut o = Orchestrator::new(3);
    assert_eq!(o.phase, Phase::Starting);
    o.services_started();
    assert_eq!(o.phase, Phase::Running);

    // external termination request: the graceful signal goes out
    let action = o.step(OrchEvent::TerminationRequest);
    assert_eq!(action, OrchAction::SignalGraceful);
    assert_eq!(o.phase, Phase::Draining);
    assert!(o.graceful);

    // every service observes the signal and exits within the grace period
    for _ in 0..3 {
        let action = o.step(OrchEvent::TaskFinished(true));
        assert_eq!(action, OrchAction::Wait);
    }
    assert_eq!(o.phase, Phase::Terminated);
    assert!(!o.aborted);
    assert_eq!(o.exit_code(), 0);
}

#[test]
fn unobserved_signal_forces_abort_and_nonzero_exit() {
    let mut o = Orchestrator::new(3);
    o.services_started();
    o.step(OrchEvent::TerminationRequest);

    // two services exit voluntarily; one never observes the signal
    o.step(OrchEvent::TaskFinished(true));
    o.step(OrchEvent::TaskFinished(true));

    let action = o.step(OrchEvent::GraceElapsed);
    assert_eq!(action, OrchAction::AbortAll);
    assert_eq!(o.phase, Phase::Aborting);
    assert!(o.aborted);

    o.abort_completed();
    assert_eq!(o.phase, Phase::Terminated);
    assert_eq!(o.exit_code(), 1);
}

#[test]
fn failed_service_does_not_cancel_its_siblings() {
    let mut o = Orchestrator::new(3);
    o.services_started();

    // one service errors out while the others keep running: logged, no
    // cancellation, the orchestrator keeps waiting
    let action = o.step(OrchEvent::TaskFinished(false));
    assert_eq!(action, OrchAction::Wait);
    assert_eq!(o.phase, Phase::Running);
    assert!(!o.graceful);
    assert_eq!(o.tasks_failed, 1);

    // the remaining services finishing still terminates the process cleanly
    o.step(OrchEvent::TaskFinished(true));
    o.step(OrchEvent::TaskFinished(true));
    assert_eq!(o.phase, Phase::Terminated);
    assert_eq!(o.exit_code(), 0);
}

#[test]
fn termination_request_is_one_shot() {
    let mut o = Orchestrator::new(2);
    o.services_started();
    assert_eq!(o.step(OrchEvent::TerminationRequest), OrchAction::SignalGraceful);
    // a repeated request changes nothing and starts no second timer
    assert_eq!(o.step(OrchEvent::TerminationRequest), OrchAction::Wait);
    assert_eq!(o.phase, Phase::Draining);
    assert!(o.graceful);
}

#[test]
fn grace_elapsing_after_completion_does_not_abort() {
    let mut o = Orchestrator::new(1);
    o.services_started();
    o.step(OrchEvent::TerminationRequest);
    o.step(OrchEvent::TaskFinished(true));
    assert_eq!(o.phase, Phase::Terminated);
    // the timer fires after everything already finished: no abort
    assert_eq!(o.step(OrchEvent::GraceElapsed), OrchAction::Wait);
    assert!(!o.aborted);
    assert_eq!(o.exit_code(), 0);
}
