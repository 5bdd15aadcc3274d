//! The lifecycle scheduler's state machine: which commands are accepted in
//! which state, what state they lead to, and what the periodic ticker does
//! on each tick. The timer and the background task are run by the caller,
//! which performs the actions this machine returns.

use vstd::prelude::*;
use crate::error::LifecycleError;

verus! {

/// Scheduler state.
#[derive(PartialEq, Eq, Structural, Clone, Copy, Debug)]
pub enum SchedulerState {
    Stopped,
    Running,
    Paused,
}

/// What the ticker does on a tick.
#[derive(PartialEq, Eq, Structural, Clone, Copy, Debug)]
pub enum TickAction {
    /// Run one transition cycle and wait for the next tick.
    RunCycle,
    /// Leave the loop: the ticker ends.
    StopTicker,
}

/// The scheduler's state and settings.
pub struct LifecycleScheduler {
    state: SchedulerState,
    interval_secs: u64,
    interval_nanos: u32,
    batch_size: usize,
}

/// The state a start leads to (`None`: refused, as when already running).
pub open spec fn start_step(s: SchedulerState) -> Option<SchedulerState> {
    if s == SchedulerState::Running {
        None
    } else {
        Some(SchedulerState::Running)
    }
}

/// The state a stop leads to (`None`: refused, as when already stopped).
pub open spec fn stop_step(s: SchedulerState) -> Option<SchedulerState> {
    if s == SchedulerState::Stopped {
        None
    } else {
        Some(SchedulerState::Stopped)
    }
}

/// The state a pause leads to (only a running scheduler pauses).
pub open spec fn pause_step(s: SchedulerState) -> Option<SchedulerState> {
    if s == SchedulerState::Running {
        Some(SchedulerState::Paused)
    } else {
        None
    }
}

/// The state a resume leads to (only a paused scheduler resumes).
pub open spec fn resume_step(s: SchedulerState) -> Option<SchedulerState> {
    if s == SchedulerState::Paused {
        Some(SchedulerState::Running)
    } else {
        None
    }
}

/// The error of a command refused in some state.
pub open spec fn scheduler_error(e: LifecycleError, text: Seq<char>) -> bool {
    e matches LifecycleError::SchedulerError(m) && m@ == text
}

impl LifecycleScheduler {
    pub closed spec fn state_spec(&self) -> SchedulerState {
        self.state
    }

    /// The check interval, as seconds and nanoseconds.
    pub closed spec fn interval_spec(&self) -> (u64, u32) {
        (self.interval_secs, self.interval_nanos)
    }

    pub closed spec fn batch_size_spec(&self) -> usize {
        self.batch_size
    }

    /// A stopped scheduler checking every hour, in batches of 100.
    pub fn new() -> (r: Self)
        ensures
            r.state_spec() == SchedulerState::Stopped,
            r.interval_spec() == (3600u64, 0u32),
            r.batch_size_spec() == 100,
    {
        LifecycleScheduler { state: SchedulerState::Stopped, interval_secs: 3600, interval_nanos: 0, batch_size: 100 }
    }

    /// Sets the check interval (seconds and nanoseconds below a second).
    pub fn with_interval(self, secs: u64, nanos: u32) -> (r: Self)
        ensures
            r.state_spec() == self.state_spec(),
            r.interval_spec() == (secs, nanos),
            r.batch_size_spec() == self.batch_size_spec(),
    {
        LifecycleScheduler { interval_secs: secs, interval_nanos: nanos, ..self }
    }

    /// Sets the batch size.
    pub fn with_batch_size(self, batch_size: usize) -> (r: Self)
        ensures
            r.state_spec() == self.state_spec(),
            r.interval_spec() == self.interval_spec(),
            r.batch_size_spec() == batch_size,
    {
        LifecycleScheduler { batch_size, ..self }
    }

    /// The current state.
    pub fn state(&self) -> (r: SchedulerState)
        ensures
            r == self.state_spec(),
    {
        self.state
    }

    /// The check interval, as seconds and nanoseconds.
    pub fn interval(&self) -> (r: (u64, u32))
        ensures
            r == self.interval_spec(),
    {
        (self.interval_secs, self.interval_nanos)
    }

    /// The batch size.
    pub fn batch_size(&self) -> (r: usize)
        ensures
            r == self.batch_size_spec(),
    {
        self.batch_size
    }

    /// Starts the scheduler: refused when it is running; otherwise (stopped
    /// or paused) it becomes Running and the caller starts a ticker.
    pub fn start(&mut self) -> (r: Result<(), LifecycleError>)
        ensures
            final(self).interval_spec() == old(self).interval_spec(),
            final(self).batch_size_spec() == old(self).batch_size_spec(),
            r is Ok <==> start_step(old(self).state_spec()) is Some,
            r is Ok ==> final(self).state_spec() == start_step(old(self).state_spec()).unwrap(),
            r is Err ==> final(self).state_spec() == old(self).state_spec(),
            r matches Err(e) ==> scheduler_error(e, "Scheduler already running"@),
    {
        if self.state == SchedulerState::Running {
            return Err(LifecycleError::SchedulerError("Scheduler already running".to_string()));
        }
        self.state = SchedulerState::Running;
        Ok(())
    }

    /// Stops the scheduler: refused when it is stopped; otherwise it becomes
    /// Stopped.
    pub fn stop(&mut self) -> (r: Result<(), LifecycleError>)
        ensures
            final(self).interval_spec() == old(self).interval_spec(),
            final(self).batch_size_spec() == old(self).batch_size_spec(),
            r is Ok <==> stop_step(old(self).state_spec()) is Some,
            r is Ok ==> final(self).state_spec() == stop_step(old(self).state_spec()).unwrap(),
            r is Err ==> final(self).state_spec() == old(self).state_spec(),
            r matches Err(e) ==> scheduler_error(e, "Scheduler not running"@),
    {
        if self.state == SchedulerState::Stopped {
            return Err(LifecycleError::SchedulerError("Scheduler not running".to_string()));
        }
        self.state = SchedulerState::Stopped;
        Ok(())
    }

    /// Pauses the scheduler: only a running scheduler can pause.
    pub fn pause(&mut self) -> (r: Result<(), LifecycleError>)
        ensures
            final(self).interval_spec() == old(self).interval_spec(),
            final(self).batch_size_spec() == old(self).batch_size_spec(),
            r is Ok <==> pause_step(old(self).state_spec()) is Some,
            r is Ok ==> final(self).state_spec() == pause_step(old(self).state_spec()).unwrap(),
            r is Err ==> final(self).state_spec() == old(self).state_spec(),
            r matches Err(e) ==> scheduler_error(e, "Scheduler not running"@),
    {
        if self.state != SchedulerState::Running {
            return Err(LifecycleError::SchedulerError("Scheduler not running".to_string()));
        }
        self.state = SchedulerState::Paused;
        Ok(())
    }

    /// Resumes the scheduler: only a paused scheduler can resume.
    pub fn resume(&mut self) -> (r: Result<(), LifecycleError>)
        ensures
            final(self).interval_spec() == old(self).interval_spec(),
            final(self).batch_size_spec() == old(self).batch_size_spec(),
            r is Ok <==> resume_step(old(self).state_spec()) is Some,
            r is Ok ==> final(self).state_spec() == resume_step(old(self).state_spec()).unwrap(),
            r is Err ==> final(self).state_spec() == old(self).state_spec(),
            r matches Err(e) ==> scheduler_error(e, "Scheduler not paused"@),
    {
        if self.state != SchedulerState::Paused {
            return Err(LifecycleError::SchedulerError("Scheduler not paused".to_string()));
        }
        self.state = SchedulerState::Running;
        Ok(())
    }

    /// What the ticker does on a tick: it runs a cycle only while the
    /// scheduler is running; a stopped or paused scheduler ends it.
    pub fn on_tick(&self) -> (r: TickAction)
        ensures
            r == (if self.state_spec() == SchedulerState::Running {
                TickAction::RunCycle
            } else {
                TickAction::StopTicker
            }),
    {
        if self.state == SchedulerState::Running {
            TickAction::RunCycle
        } else {
            TickAction::StopTicker
        }
    }

    /// Whether a manual cycle may run: refused only when stopped.
    pub fn check_trigger(&self) -> (r: Result<(), LifecycleError>)
        ensures
            r is Err <==> self.state_spec() == SchedulerState::Stopped,
            r matches Err(e) ==> scheduler_error(e, "Scheduler not running"@),
    {
        if self.state == SchedulerState::Stopped {
            return Err(LifecycleError::SchedulerError("Scheduler not running".to_string()));
        }
        Ok(())
    }
}

impl Default for LifecycleScheduler {
    fn default() -> (r: Self)
        ensures
            r.state_spec() == SchedulerState::Stopped,
            r.interval_spec() == (3600u64, 0u32),
            r.batch_size_spec() == 100,
    {
        LifecycleScheduler::new()
    }
}

/// Pausing a running scheduler and then resuming it brings it back to
/// Running.
pub proof fn lemma_pause_resume_round_trip()
    ensures
        pause_step(SchedulerState::Running) == Some(SchedulerState::Paused),
        resume_step(SchedulerState::Paused) == Some(SchedulerState::Running),
{
}

/// Whatever the state, after a stop command the scheduler is Stopped
/// (the command is refused only when it already was).
pub proof fn lemma_stop_ends_stopped(s: SchedulerState)
    ensures
        match stop_step(s) {
            Some(t) => t == SchedulerState::Stopped,
            None => s == SchedulerState::Stopped,
        },
{
}

/// A paused scheduler's ticker ends on its next tick, so resuming does
/// not bring periodic cycles back without a new start; a start from
/// Paused is accepted.
pub proof fn lemma_paused_ticker_ends(s: SchedulerState)
    requires
        s == SchedulerState::Paused,
    ensures
        start_step(s) == Some(SchedulerState::Running),
        s != SchedulerState::Running,
{
}

} // verus!
