//! The lifecycle of a listening run: one cancellation signal per run, the
//! tasks it spawned, and the rule that a run is over only when every one of
//! them has ended.

use vstd::prelude::*;

verus! {

/// A request from the orchestrator to the running tasks.
#[derive(Debug, Clone, Copy, PartialEq, Eq, Structural)]
pub enum ThreadActions {
    Stop,
}

/// Where the controller is.
#[derive(Debug, Clone, Copy, PartialEq, Eq, Structural)]
pub enum RunState {
    /// No run; one may start.
    Idle,
    /// A run's tasks are live and its signal has not fired.
    Running,
    /// The signal has fired; the run's tasks are finishing.
    Stopping,
}

/// Why a run could not start.
#[derive(Debug, Clone, Copy, PartialEq, Eq, Structural)]
pub enum StartError {
    /// The previous run has not ended yet.
    NotIdle,
    /// Too many tasks, or too many runs, to count.
    TooMany,
}

/// What `start` hands back: the run's number, which its tasks carry, and
/// how many tasks to spawn (one watcher per source, the forwarder and the
/// sequencer).
#[derive(Debug, Clone, Copy, PartialEq, Eq, Structural)]
pub struct RunHandle {
    pub run: u64,
    pub tasks: usize,
}

/// The controller of listening runs.
#[derive(Debug, Clone, Copy, PartialEq, Eq, Structural)]
pub struct RunControl {
    pub state: RunState,
    /// The number of the current or last run; 0 before the first.
    pub run: u64,
    /// The tasks of the current run that have not ended.
    pub live_tasks: usize,
    /// Whether the current run's cancellation signal has fired.
    pub signal_fired: bool,
}

/// The controller's invariant: a run is over only when no task of it is
/// live, and a running run's signal has not fired.
pub open spec fn control_wf(c: RunControl) -> bool {
    &&& c.state == RunState::Idle ==> c.live_tasks == 0
    &&& c.state == RunState::Running ==> !c.signal_fired && c.live_tasks > 0
    &&& c.state == RunState::Stopping ==> c.signal_fired && c.live_tasks > 0
}

impl RunControl {
    pub fn new() -> (r: RunControl)
        ensures
            control_wf(r),
            r.state == RunState::Idle,
            r.run == 0,
    {
        RunControl { state: RunState::Idle, run: 0, live_tasks: 0, signal_fired: false }
    }

    /// Starts a run over `sources` trigger sources, with a fresh signal.
    pub fn start(&mut self, sources: usize) -> (r: Result<RunHandle, StartError>)
        requires
            control_wf(*old(self)),
        ensures
            control_wf(*final(self)),
            old(self).state != RunState::Idle ==> r == Err::<RunHandle, StartError>(StartError::NotIdle)
                && *final(self) == *old(self),
            old(self).state == RunState::Idle && (sources + 2 > usize::MAX || old(self).run == u64::MAX)
                ==> r == Err::<RunHandle, StartError>(StartError::TooMany) && *final(self) == *old(self),
            r is Ok <==> old(self).state == RunState::Idle && sources + 2 <= usize::MAX && old(self).run < u64::MAX,
            r matches Ok(h) ==> h.run == old(self).run + 1 && h.tasks == sources + 2 && *final(self) == (RunControl {
                state: RunState::Running,
                run: h.run,
                live_tasks: h.tasks,
                signal_fired: false,
            }),
    {
        if self.state != RunState::Idle {
            return Err(StartError::NotIdle);
        }
        if sources > usize::MAX - 2 || self.run == u64::MAX {
            return Err(StartError::TooMany);
        }
        let h = RunHandle { run: self.run + 1, tasks: sources + 2 };
        *self = RunControl { state: RunState::Running, run: h.run, live_tasks: h.tasks, signal_fired: false };
        Ok(h)
    }

    /// Fires the current run's signal. Returns whether it fired now.
    pub fn stop(&mut self, action: ThreadActions) -> (r: bool)
        requires
            control_wf(*old(self)),
        ensures
            control_wf(*final(self)),
            r == (old(self).state == RunState::Running),
            r ==> *final(self) == (RunControl { state: RunState::Stopping, signal_fired: true, ..*old(self) }),
            !r ==> *final(self) == *old(self),
    {
        match action {
            ThreadActions::Stop => {
                if self.state == RunState::Running {
                    self.state = RunState::Stopping;
                    self.signal_fired = true;
                    true
                } else {
                    false
                }
            },
        }
    }

    /// Whether a task of run `run` must stop: its run's signal has fired,
    /// or its run is over.
    pub fn is_cancelled(&self, run: u64) -> (r: bool)
        ensures
            r == (run != self.run || self.state == RunState::Idle || self.signal_fired),
    {
        run != self.run || self.state == RunState::Idle || self.signal_fired
    }

    /// Records that a task of run `run` has ended; when the last one ends
    /// the run is over. Reports of another run are ignored.
    pub fn task_finished(&mut self, run: u64) -> (r: RunState)
        requires
            control_wf(*old(self)),
        ensures
            control_wf(*final(self)),
            r == final(self).state,
            final(self).run == old(self).run,
            (run != old(self).run || old(self).state == RunState::Idle) ==> *final(self) == *old(self),
            run == old(self).run && old(self).state != RunState::Idle ==> *final(self) == (RunControl {
                live_tasks: (old(self).live_tasks - 1) as usize,
                state: if old(self).live_tasks == 1 {
                    RunState::Idle
                } else {
                    old(self).state
                },
                ..*old(self)
            }),
    {
        if run != self.run || self.state == RunState::Idle {
            return self.state;
        }
        self.live_tasks = self.live_tasks - 1;
        if self.live_tasks == 0 {
            self.state = RunState::Idle;
        }
        self.state
    }
}

} // verus!
