use simple_update_checker::run_timed::{
    Scheduler, SchedulerAction, SchedulerEvent, SchedulerState,
};

#[test]
fn test_scheduler_runs_on_interval() {
    let mut s = Scheduler::new();
    assert_eq!(SchedulerState::Idle, s.state);
    let a = s.handle_event(SchedulerEvent::IntervalElapsed);
    assert_eq!(SchedulerAction::BeginPass, a);
    assert_eq!(SchedulerState::Running, s.state);
}

#[test]
fn test_scheduler_rearms_after_pass() {
    let mut s = Scheduler::new();
    s.handle_event(SchedulerEvent::IntervalElapsed);
    let a = s.handle_event(SchedulerEvent::PassCompleted);
    assert_eq!(SchedulerAction::Rearm, a);
    assert_eq!(SchedulerState::Idle, s.state);
}

#[test]
fn test_scheduler_pass_failure_never_stops_the_loop() {
    let mut s = Scheduler::new();
    s.handle_event(SchedulerEvent::IntervalElapsed);
    let a = s.handle_event(SchedulerEvent::PassFailed("lookup failed".to_string()));
    assert_eq!(
        SchedulerAction::NotifyErrorAndRearm("lookup failed".to_string()),
        a
    );
    assert_eq!(SchedulerState::Idle, s.state);
    // The loop keeps going afterwards.
    let a = s.handle_event(SchedulerEvent::IntervalElapsed);
    assert_eq!(SchedulerAction::BeginPass, a);
}

#[test]
fn test_scheduler_shutdown_while_idle_exits() {
    let mut s = Scheduler::new();
    let a = s.handle_event(SchedulerEvent::ShutdownRequested);
    assert_eq!(SchedulerAction::Exit, a);
    assert_eq!(SchedulerState::Stopped, s.state);
}

#[test]
fn test_scheduler_shutdown_waits_for_running_pass() {
    // A shutdown request never aborts a pass in flight; it takes effect
    // when the pass reports back.
    let mut s = Scheduler::new();
    s.handle_event(SchedulerEvent::IntervalElapsed);
    let a = s.handle_event(SchedulerEvent::ShutdownRequested);
    assert_eq!(SchedulerAction::Wait, a);
    assert_eq!(SchedulerState::Running, s.state);
    let a = s.handle_event(SchedulerEvent::PassCompleted);
    assert_eq!(SchedulerAction::Exit, a);
    assert_eq!(SchedulerState::Stopped, s.state);
}
