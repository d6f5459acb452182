//! One download of model files, driven event by event. Whoever fetches the
//! bytes reports each chunk here and carries out the action that comes back.
//!
//! Progress is the pair (bytes received, bytes expected); the fraction shown
//! to a user is their quotient, and is 1 exactly when the two are equal.
use vstd::prelude::*;
use crate::error::FailureReason;

verus! {

/// Where a download stands.
#[derive(Debug, Clone, Copy, PartialEq, Eq, Structural)]
pub enum DownloadState {
    Queued,
    Running,
    Completed,
    Cancelled,
    Failed(FailureReason),
}

/// What the fetching side reports.
#[derive(Debug, Clone, Copy, PartialEq, Eq, Structural)]
pub enum DownloadEvent {
    /// So many more bytes were written.
    Chunk(u64),
    /// Every file is there and its checksum holds.
    Finished,
    /// The transfer broke off.
    Failed(FailureReason),
}

/// What the fetching side has to do next.
#[derive(Debug, Clone, Copy, PartialEq, Eq, Structural)]
pub enum DownloadAction {
    /// The task is not running: nothing to do.
    Ignore,
    /// Push this progress to the sink and go on.
    ReportProgress { received: u64, total: u64 },
    /// Push full progress and install the files.
    Install,
    /// Stop and delete what was written so far.
    Discard(FailureReason),
}

/// A download of the files of one model.
#[derive(Debug, Clone, Copy, PartialEq, Eq, Structural)]
pub struct DownloadTask {
    pub task_id: u64,
    pub model_id: i64,
    pub received: u64,
    pub total: u64,
    pub state: DownloadState,
    pub cancel_requested: bool,
    pub progress_port: i64,
}

impl DownloadTask {
    /// Progress stays within the expected size and is full exactly on success.
    pub open spec fn wf(self) -> bool {
        &&& self.total >= 1
        &&& self.received <= self.total
        &&& (self.received == self.total <==> self.state is Completed)
    }

    /// Queued or running: the one task that bars any other.
    pub open spec fn is_active(self) -> bool {
        self.state is Queued || self.state is Running
    }

    /// The task after one event. A pending cancellation wins over whatever
    /// the event says; a chunk never fills the progress, only `Finished` does.
    pub open spec fn step(self, event: DownloadEvent) -> DownloadTask {
        if !(self.state is Running) {
            self
        } else if self.cancel_requested {
            DownloadTask { state: DownloadState::Cancelled, ..self }
        } else {
            match event {
                DownloadEvent::Chunk(n) => DownloadTask {
                    received: if self.received + n >= self.total {
                        (self.total - 1) as u64
                    } else {
                        (self.received + n) as u64
                    },
                    ..self
                },
                DownloadEvent::Finished => DownloadTask {
                    received: self.total,
                    state: DownloadState::Completed,
                    ..self
                },
                DownloadEvent::Failed(reason) => DownloadTask {
                    state: DownloadState::Failed(reason),
                    ..self
                },
            }
        }
    }

    /// The action that goes with `step`.
    pub open spec fn action(self, event: DownloadEvent) -> DownloadAction {
        let next = self.step(event);
        if !(self.state is Running) {
            DownloadAction::Ignore
        } else {
            match next.state {
                DownloadState::Completed => DownloadAction::Install,
                DownloadState::Cancelled => DownloadAction::Discard(FailureReason::Cancelled),
                DownloadState::Failed(reason) => DownloadAction::Discard(reason),
                _ => DownloadAction::ReportProgress { received: next.received, total: next.total },
            }
        }
    }

    /// The task after a run of events.
    pub open spec fn run(self, events: Seq<DownloadEvent>) -> DownloadTask
        decreases events.len(),
    {
        if events.len() == 0 {
            self
        } else {
            self.run(events.drop_last()).step(events.last())
        }
    }

    /// A task for `model_id` that waits to be started.
    pub fn queued(task_id: u64, model_id: i64, size: u64) -> (task: DownloadTask)
        ensures
            task == Self::spec_queued(task_id, model_id, size),
            task.wf(),
    {
        DownloadTask {
            task_id,
            model_id,
            received: 0,
            total: if size == 0 { 1 } else { size },
            state: DownloadState::Queued,
            cancel_requested: false,
            progress_port: 0,
        }
    }

    /// A task that waits to be started, with nothing received; a model of size 0 expects one byte.
    pub open spec fn spec_queued(task_id: u64, model_id: i64, size: u64) -> DownloadTask {
        DownloadTask {
            task_id,
            model_id,
            received: 0,
            total: if size == 0 { 1 } else { size },
            state: DownloadState::Queued,
            cancel_requested: false,
            progress_port: 0,
        }
    }

    /// Whether the task is well formed.
    pub fn is_well_formed(&self) -> (ok: bool)
        ensures
            ok == self.wf(),
    {
        let completed = match self.state {
            DownloadState::Completed => true,
            _ => false,
        };
        self.total >= 1 && self.received <= self.total && (self.received == self.total)
            == completed
    }

    /// Takes one event and says what to do.
    pub fn on_event(&mut self, event: DownloadEvent) -> (action: DownloadAction)
        requires
            old(self).wf(),
        ensures
            *final(self) == old(self).step(event),
            action == old(self).action(event),
            final(self).wf(),
    {
        match self.state {
            DownloadState::Running => {},
            _ => {
                return DownloadAction::Ignore;
            },
        }
        if self.cancel_requested {
            self.state = DownloadState::Cancelled;
            return DownloadAction::Discard(FailureReason::Cancelled);
        }
        match event {
            DownloadEvent::Chunk(n) => {
                let room: u64 = self.total - self.received;
                if n >= room {
                    self.received = self.total - 1;
                } else {
                    self.received = self.received + n;
                }
                DownloadAction::ReportProgress { received: self.received, total: self.total }
            },
            DownloadEvent::Finished => {
                self.received = self.total;
                self.state = DownloadState::Completed;
                DownloadAction::Install
            },
            DownloadEvent::Failed(reason) => {
                self.state = DownloadState::Failed(reason);
                DownloadAction::Discard(reason)
            },
        }
    }

    /// Numerator and denominator of the progress fraction.
    pub fn progress(&self) -> (p: (u64, u64))
        ensures
            p == (self.received, self.total),
    {
        (self.received, self.total)
    }
}

/// One event never lowers the progress, never changes the expected size, and
/// keeps the task well formed.
pub proof fn lemma_step_monotone(task: DownloadTask, event: DownloadEvent)
    requires
        task.wf(),
    ensures
        task.step(event).wf(),
        task.step(event).received >= task.received,
        task.step(event).total == task.total,
        task.step(event).task_id == task.task_id,
{
}

/// Over any run of events the progress never goes down, and it is full at
/// the end exactly if the task completed.
pub proof fn lemma_run_monotone(task: DownloadTask, events: Seq<DownloadEvent>)
    requires
        task.wf(),
    ensures
        task.run(events).wf(),
        task.run(events).received >= task.received,
        task.run(events).total == task.total,
        task.run(events).received == task.total <==> task.run(events).state is Completed,
    decreases events.len(),
{
    if events.len() > 0 {
        lemma_run_monotone(task, events.drop_last());
        lemma_step_monotone(task.run(events.drop_last()), events.last());
    }
}

/// Progress reported between two points of a run is ordered as the points are.
pub proof fn lemma_progress_ordered(task: DownloadTask, events: Seq<DownloadEvent>, k: int)
    requires
        task.wf(),
        0 <= k <= events.len(),
    ensures
        task.run(events.take(k)).received <= task.run(events).received,
    decreases events.len() - k,
{
    if k < events.len() {
        let shorter = events.drop_last();
        assert(shorter.take(k) == events.take(k));
        lemma_progress_ordered(task, shorter, k);
        lemma_run_monotone(task, shorter);
        lemma_step_monotone(task.run(shorter), events.last());
    } else {
        assert(events.take(k) == events);
    }
}

/// Once cancellation was asked of a running task, the next event ends it as
/// cancelled, below full progress, with the order to delete what was written.
pub proof fn lemma_cancel_observed(task: DownloadTask, event: DownloadEvent)
    requires
        task.wf(),
        task.state is Running,
        task.cancel_requested,
    ensures
        task.step(event).state is Cancelled,
        task.step(event).received < task.step(event).total,
        task.action(event) == DownloadAction::Discard(FailureReason::Cancelled),
{
}

/// A task that is over stays as it is, whatever is reported.
pub proof fn lemma_terminal_is_final(task: DownloadTask, event: DownloadEvent)
    requires
        !task.is_active(),
    ensures
        task.step(event) == task,
        task.action(event) == DownloadAction::Ignore,
{
}

} // verus!
