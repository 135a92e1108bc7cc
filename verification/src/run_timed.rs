//! The scheduler's state machine: what the periodic check loop does next,
//! given where it stands and what just happened. The surrounding
//! application owns the clock, the signals and the passes; it feeds every
//! occurrence in as an event and performs the returned action, so all the
//! loop's decisions are taken — and verified — here.
//!
//! The loop sleeps in `Idle`, performs one check-and-notify pass in
//! `Running`, and only a shutdown request ends it. A failure of one pass is
//! turned into a best-effort error notification and never stops the loop; a
//! shutdown requested mid-pass takes effect at the next idle point.

use vstd::prelude::*;

verus! {

/// Where the scheduler loop stands.
#[derive(Debug, PartialEq, Eq, Structural, Clone, Copy)]
pub enum SchedulerState {
    /// Sleeping until the interval elapses.
    Idle,
    /// One check-and-notify pass is in flight.
    Running,
    /// The loop has ended; nothing runs any more.
    Stopped,
}

/// What just happened, as reported by the surrounding application.
#[derive(Debug, PartialEq)]
pub enum SchedulerEvent {
    /// The check interval elapsed.
    IntervalElapsed,
    /// The pass in flight finished; whatever it found was handled.
    PassCompleted,
    /// The pass in flight failed with this message.
    PassFailed(String),
    /// A termination signal arrived.
    ShutdownRequested,
}

/// What the surrounding application is to do next.
#[derive(Debug, PartialEq)]
pub enum SchedulerAction {
    /// Run one check-and-notify pass, then report how it went.
    BeginPass,
    /// Sleep for the configured interval, then report that it elapsed.
    Rearm,
    /// Send a best-effort error notification carrying this message —
    /// its own failure is only logged — then sleep as with `Rearm`.
    NotifyErrorAndRearm(String),
    /// Leave the loop.
    Exit,
    /// Nothing to do now.
    Wait,
}

/// The scheduler loop's whole state: where it stands, and whether a
/// shutdown was requested but not yet acted on.
#[derive(Debug, PartialEq, Eq, Structural, Clone, Copy)]
pub struct Scheduler {
    pub state: SchedulerState,
    pub shutdown_requested: bool,
}

impl Scheduler {
    /// A scheduler about to enter its loop: idle, no shutdown seen.
    pub fn new() -> (r: Self)
        ensures
            r.state is Idle,
            !r.shutdown_requested,
    {
        Scheduler { state: SchedulerState::Idle, shutdown_requested: false }
    }

    /// Feeds one event in and decides the next action:
    ///
    /// - A shutdown request ends an idle loop at once; a running pass is
    ///   never aborted, so the request is only noted and honoured when the
    ///   pass reports back.
    /// - An elapsed interval starts a pass — unless a shutdown was noted
    ///   meanwhile, which ends the loop instead.
    /// - A completed pass re-arms the timer; a failed one first asks for a
    ///   best-effort error notification. Neither ends the loop, unless a
    ///   shutdown was noted while the pass ran.
    /// - Events that the single-flow loop cannot produce in its current
    ///   state (a timer tick while running, a pass report while idle, or
    ///   anything after the end) ask for nothing.
    pub fn handle_event(&mut self, event: SchedulerEvent) -> (a: SchedulerAction)
        ensures
            ({
                let s = old(self).state;
                let down = old(self).shutdown_requested;
                match event {
                    SchedulerEvent::ShutdownRequested => {
                        &&& final(self).shutdown_requested
                        &&& final(self).state == (if s is Idle {
                            SchedulerState::Stopped
                        } else {
                            s
                        })
                        &&& a == (if s is Idle {
                            SchedulerAction::Exit
                        } else {
                            SchedulerAction::Wait
                        })
                    },
                    SchedulerEvent::IntervalElapsed => {
                        &&& final(self).shutdown_requested == down
                        &&& if s is Idle {
                            if down {
                                final(self).state is Stopped && a == SchedulerAction::Exit
                            } else {
                                final(self).state is Running && a == SchedulerAction::BeginPass
                            }
                        } else {
                            final(self).state == s && a == SchedulerAction::Wait
                        }
                    },
                    SchedulerEvent::PassCompleted => {
                        &&& final(self).shutdown_requested == down
                        &&& if s is Running {
                            if down {
                                final(self).state is Stopped && a == SchedulerAction::Exit
                            } else {
                                final(self).state is Idle && a == SchedulerAction::Rearm
                            }
                        } else {
                            final(self).state == s && a == SchedulerAction::Wait
                        }
                    },
                    SchedulerEvent::PassFailed(message) => {
                        &&& final(self).shutdown_requested == down
                        &&& if s is Running {
                            if down {
                                final(self).state is Stopped && a == SchedulerAction::Exit
                            } else {
                                final(self).state is Idle && a
                                    == SchedulerAction::NotifyErrorAndRearm(message)
                            }
                        } else {
                            final(self).state == s && a == SchedulerAction::Wait
                        }
                    },
                }
            }),
    {
        match event {
            SchedulerEvent::ShutdownRequested => {
                self.shutdown_requested = true;
                match self.state {
                    SchedulerState::Idle => {
                        self.state = SchedulerState::Stopped;
                        SchedulerAction::Exit
                    },
                    _ => SchedulerAction::Wait,
                }
            },
            SchedulerEvent::IntervalElapsed => {
                match self.state {
                    SchedulerState::Idle => {
                        if self.shutdown_requested {
                            self.state = SchedulerState::Stopped;
                            SchedulerAction::Exit
                        } else {
                            self.state = SchedulerState::Running;
                            SchedulerAction::BeginPass
                        }
                    },
                    _ => SchedulerAction::Wait,
                }
            },
            SchedulerEvent::PassCompleted => {
                match self.state {
                    SchedulerState::Running => {
                        if self.shutdown_requested {
                            self.state = SchedulerState::Stopped;
                            SchedulerAction::Exit
                        } else {
                            self.state = SchedulerState::Idle;
                            SchedulerAction::Rearm
                        }
                    },
                    _ => SchedulerAction::Wait,
                }
            },
            SchedulerEvent::PassFailed(message) => {
                match self.state {
                    SchedulerState::Running => {
                        if self.shutdown_requested {
                            self.state = SchedulerState::Stopped;
                            SchedulerAction::Exit
                        } else {
                            self.state = SchedulerState::Idle;
                            SchedulerAction::NotifyErrorAndRearm(message)
                        }
                    },
                    _ => SchedulerAction::Wait,
                }
            },
        }
    }
}

} // verus!
