//! The poll scheduler: a timer ticks at a fixed interval, and each tick
//! starts a sweep over all feeds unless one is still running. It can be
//! started and stopped; once stopped, a sweep in progress finishes the feed
//! at hand and ends.

use vstd::prelude::*;

verus! {

/// Default interval between ticks, in seconds.
pub const POLL_INTERVAL_SECS: u64 = 30;

/// Whether the scheduler waits for a tick or runs a sweep.
#[derive(Clone, Copy, Debug, PartialEq, Eq, Structural)]
pub enum Phase {
    Idle,
    Sweeping,
}

pub struct PollScheduler {
    running: bool,
    phase: Phase,
}

pub struct SchedulerView {
    pub running: bool,
    pub phase: Phase,
}

impl View for PollScheduler {
    type V = SchedulerView;

    closed spec fn view(&self) -> SchedulerView {
        SchedulerView { running: self.running, phase: self.phase }
    }
}

impl PollScheduler {
    /// A stopped, idle scheduler.
    pub fn new() -> (r: PollScheduler)
        ensures
            r@ == (SchedulerView { running: false, phase: Phase::Idle }),
    {
        PollScheduler { running: false, phase: Phase::Idle }
    }

    /// Lets ticks start sweeps.
    pub fn start(&mut self)
        ensures
            final(self)@ == (SchedulerView { running: true, ..old(self)@ }),
    {
        self.running = true;
    }

    /// Stops ticks from starting sweeps; a sweep in progress winds down.
    pub fn stop(&mut self)
        ensures
            final(self)@ == (SchedulerView { running: false, ..old(self)@ }),
    {
        self.running = false;
    }

    /// Whether the scheduler is running.
    pub fn is_running(&self) -> (r: bool)
        ensures
            r == self@.running,
    {
        self.running
    }

    /// Whether a sweep is in progress.
    pub fn is_sweeping(&self) -> (r: bool)
        ensures
            r == (self@.phase == Phase::Sweeping),
    {
        self.phase == Phase::Sweeping
    }

    /// A tick of the timer. Starts a sweep, and says so, where the scheduler
    /// runs and is idle; a tick during a sweep is dropped.
    pub fn on_tick(&mut self) -> (r: bool)
        ensures
            r == (old(self)@.running && old(self)@.phase == Phase::Idle),
            final(self)@ == (SchedulerView {
                phase: if r {
                    Phase::Sweeping
                } else {
                    old(self)@.phase
                },
                ..old(self)@
            }),
    {
        if self.running && self.phase == Phase::Idle {
            self.phase = Phase::Sweeping;
            true
        } else {
            false
        }
    }

    /// Whether the sweep in progress goes on to its next feed: only while
    /// the scheduler runs.
    pub fn continue_sweep(&self) -> (r: bool)
        ensures
            r == (self@.running && self@.phase == Phase::Sweeping),
    {
        self.running && self.phase == Phase::Sweeping
    }

    /// The sweep in progress has ended.
    pub fn on_sweep_done(&mut self)
        ensures
            final(self)@ == (SchedulerView { phase: Phase::Idle, ..old(self)@ }),
    {
        self.phase = Phase::Idle;
    }
}

} // verus!
