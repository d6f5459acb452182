//! Text completion outside of chat: each request is one task that can be
//! cancelled by its identifier.
use vstd::prelude::*;
use crate::error::AiError;

verus! {

/// One request for a completion, with the port that its text goes to.
#[derive(Debug, Clone, Copy, PartialEq, Eq, Structural)]
pub struct CompletionTask {
    pub task_id: u64,
    pub stream_port: i64,
}

/// The completion tasks under way.
pub struct CompletionTasks {
    pub tasks: Vec<CompletionTask>,
    pub next_task_id: u64,
}

/// Place `i` holds the task `task_id`.
pub open spec fn task_at(tasks: Seq<CompletionTask>, task_id: u64, i: int) -> bool {
    0 <= i < tasks.len() && tasks[i].task_id == task_id
}

/// Whether the task is under way.
pub open spec fn is_running(tasks: Seq<CompletionTask>, task_id: u64) -> bool {
    exists|i: int| task_at(tasks, task_id, i)
}

/// The place of the task, where it is under way.
pub open spec fn task_slot(tasks: Seq<CompletionTask>, task_id: u64) -> int {
    choose|i: int| task_at(tasks, task_id, i)
}

/// Later tasks have larger identifiers.
pub open spec fn numbered(tasks: Seq<CompletionTask>) -> bool {
    forall|i: int, j: int|
        0 <= i < j < tasks.len() ==> (#[trigger] tasks[i]).task_id < (#[trigger] tasks[j]).task_id
}

impl CompletionTasks {
    /// Tasks are numbered in ascending order, below the next number to hand out.
    pub open spec fn wf(&self) -> bool {
        &&& numbered(self.tasks@)
        &&& forall|i: int|
            0 <= i < self.tasks@.len() ==> (#[trigger] self.tasks@[i]).task_id < self.next_task_id
    }

    /// No task under way; the first one will have identifier 1.
    pub fn new() -> (tasks: Self)
        ensures
            tasks.wf(),
            tasks.tasks@.len() == 0,
            tasks.next_task_id == 1,
    {
        CompletionTasks { tasks: Vec::new(), next_task_id: 1 }
    }

    /// Whether the tasks are well formed.
    pub fn is_well_formed(&self) -> (ok: bool)
        ensures
            ok == self.wf(),
    {
        let n = self.tasks.len();
        let mut i: usize = 0;
        while i < n
            invariant
                i <= n,
                n == self.tasks.len(),
                forall|a: int, b: int|
                    0 <= a < b < i ==> (#[trigger] self.tasks@[a]).task_id < (
                    #[trigger] self.tasks@[b]).task_id,
                forall|a: int| 0 <= a < i ==> (#[trigger] self.tasks@[a]).task_id < self.next_task_id,
            decreases n - i,
        {
            if self.tasks[i].task_id >= self.next_task_id {
                return false;
            }
            if i > 0 && self.tasks[i - 1].task_id >= self.tasks[i].task_id {
                assert(!(self.tasks@[i - 1].task_id < self.tasks@[i as int].task_id));
                return false;
            }
            proof {
                assert forall|a: int| 0 <= a < i implies (#[trigger] self.tasks@[a]).task_id
                    < self.tasks@[i as int].task_id by {
                    if a < i - 1 {
                        assert(self.tasks@[a].task_id < self.tasks@[i - 1].task_id);
                    }
                }
            }
            i += 1;
        }
        true
    }

    /// Refuses a state that is not well formed, as an internal error.
    pub fn check(&self) -> (r: Result<(), AiError>)
        ensures
            r == if self.wf() {
                Ok::<(), AiError>(())
            } else {
                Err::<(), AiError>(AiError::InvariantViolated)
            },
    {
        if self.is_well_formed() {
            Ok(())
        } else {
            Err(AiError::InvariantViolated)
        }
    }

    /// Enters a task for one request and returns its identifier, which no
    /// running task has.
    pub fn create_complete_task(&mut self, stream_port: i64) -> (r: Result<u64, AiError>)
        requires
            old(self).wf(),
        ensures
            final(self).wf(),
            old(self).next_task_id == u64::MAX ==> r == Err::<u64, AiError>(
                AiError::IdentifiersExhausted,
            ) && *final(self) == *old(self),
            old(self).next_task_id < u64::MAX ==> r == Ok::<u64, AiError>(old(self).next_task_id)
                && final(self).next_task_id == old(self).next_task_id + 1 && final(self).tasks@
                == old(self).tasks@.push(
                (CompletionTask { task_id: old(self).next_task_id, stream_port }),
            ),
    {
        if self.next_task_id == u64::MAX {
            return Err(AiError::IdentifiersExhausted);
        }
        let task_id: u64 = self.next_task_id;
        let ghost before = self.tasks@;
        self.tasks.push(CompletionTask { task_id, stream_port });
        self.next_task_id = task_id + 1;
        proof {
            let now = self.tasks@;
            assert forall|i: int, j: int| 0 <= i < j < now.len() implies (
            #[trigger] now[i]).task_id < (#[trigger] now[j]).task_id by {
                if j < before.len() {
                    assert(before[i].task_id < before[j].task_id);
                } else {
                    assert(before[i].task_id < task_id);
                }
            }
            assert forall|i: int| 0 <= i < now.len() implies (#[trigger] now[i]).task_id
                < self.next_task_id by {
                if i < before.len() {
                    assert(before[i].task_id < task_id);
                }
            }
        }
        Ok(task_id)
    }

    /// Takes a task out. Returns it where it was running; a task that is
    /// unknown or over is no error.
    pub fn cancel_complete_task(&mut self, task_id: u64) -> (cancelled: Option<CompletionTask>)
        requires
            old(self).wf(),
        ensures
            final(self).wf(),
            final(self).next_task_id == old(self).next_task_id,
            !is_running(final(self).tasks@, task_id),
            !is_running(old(self).tasks@, task_id) ==> cancelled is None && final(self).tasks@
                == old(self).tasks@,
            is_running(old(self).tasks@, task_id) ==> cancelled == Some(
                old(self).tasks@[task_slot(old(self).tasks@, task_id)],
            ) && final(self).tasks@ == old(self).tasks@.remove(
                task_slot(old(self).tasks@, task_id),
            ),
    {
        let mut i: usize = 0;
        while i < self.tasks.len()
            invariant
                *self == *old(self),
                self.wf(),
                i <= self.tasks.len(),
                forall|j: int| 0 <= j < i ==> !task_at(self.tasks@, task_id, j),
            decreases self.tasks.len() - i,
        {
            if self.tasks[i].task_id == task_id {
                let ghost before = self.tasks@;
                proof {
                    let k = task_slot(before, task_id);
                    assert(task_at(before, task_id, i as int));
                    if k < i {
                        assert(before[k].task_id < before[i as int].task_id);
                    }
                    if i < k {
                        assert(before[i as int].task_id < before[k].task_id);
                    }
                }
                let task = self.tasks.remove(i);
                proof {
                    let now = self.tasks@;
                    assert forall|a: int| 0 <= a < now.len() implies (#[trigger] now[a]).task_id
                        < self.next_task_id && now[a].task_id != task_id by {
                        let b = if a < i { a } else { a + 1 };
                        assert(now[a] == before[b]);
                        assert(before[b].task_id < self.next_task_id);
                        if b < i {
                            assert(before[b].task_id < before[i as int].task_id);
                        } else {
                            assert(before[i as int].task_id < before[b].task_id);
                        }
                    }
                    assert forall|a: int, c: int| 0 <= a < c < now.len() implies (
                    #[trigger] now[a]).task_id < (#[trigger] now[c]).task_id by {
                        let b = if a < i { a } else { a + 1 };
                        let d = if c < i { c } else { c + 1 };
                        assert(now[a] == before[b]);
                        assert(now[c] == before[d]);
                        assert(before[b].task_id < before[d].task_id);
                    }
                }
                return Some(task);
            }
            i += 1;
        }
        None
    }
}

} // verus!
