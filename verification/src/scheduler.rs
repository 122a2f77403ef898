//! The cooperative task scheduler: a slab of tasks and a FIFO ready queue.
//!
//! A task is `Runnable` while it waits in the ready queue, `Running` while
//! it is being polled, `Idle` while it waits for a wakeup, and `Complete`
//! or `Cancelled` once it is finished.  Wakers are task ids: waking a task
//! moves it from `Idle` back into the ready queue.  Readiness is strictly
//! FIFO; there are no priorities and no work stealing.

use vstd::prelude::*;

verus! {

/// Where a task is in its life.
#[derive(Clone, Copy, Debug, PartialEq, Eq, Structural)]
pub enum TaskState {
    /// Waiting in the ready queue.
    Runnable,
    /// Being polled right now.
    Running,
    /// Waiting for its waker.
    Idle,
    /// Finished; the output sits in the task until the join handle takes it.
    Complete,
    /// Cancelled before completing.
    Cancelled,
}

/// One spawned task: its state, its output cell, the waker of the join
/// handle once one polled, and whether the join handle was dropped.
pub struct TaskEntry<T> {
    pub state: TaskState,
    pub output: Option<T>,
    pub join_waker: Option<u64>,
    pub detached: bool,
}

/// Polling a join handle either yields the task's output or parks.
pub enum JoinPoll<T> {
    Pending,
    Ready(T),
    /// The task was cancelled before completing.
    Cancelled,
}

/// A handle that resolves with its task's output.  Single-consumer; polled
/// on the same runtime thread.
#[derive(Clone, Copy, Debug, PartialEq, Eq, Structural)]
pub struct JoinHandle {
    pub task: usize,
}

/// The single-threaded cooperative scheduler.
pub struct Scheduler<T> {
    pub tasks: Vec<TaskEntry<T>>,
    pub ready: Vec<usize>,
}

impl<T> Scheduler<T> {
    pub open spec fn task(&self, i: int) -> TaskEntry<T>
        recommends
            0 <= i < self.tasks@.len(),
    {
        self.tasks@[i]
    }

    /// The ready queue holds exactly the runnable tasks, each once, in
    /// order; finished tasks hold their output until consumed.
    pub open spec fn wf(&self) -> bool {
        &&& forall|q: int| 0 <= q < self.ready@.len()
            ==> #[trigger] self.ready@[q] < self.tasks@.len()
        &&& forall|q: int| 0 <= q < self.ready@.len()
            ==> (#[trigger] self.task(self.ready@[q] as int)).state is Runnable
        &&& forall|i: int| 0 <= i < self.tasks@.len() && (#[trigger] self.task(i)).state is Runnable
            ==> self.ready@.contains(i as usize)
        &&& forall|q1: int, q2: int|
            0 <= q1 < q2 < self.ready@.len() ==> self.ready@[q1] != self.ready@[q2]
        &&& forall|i: int| 0 <= i < self.tasks@.len()
            ==> ((#[trigger] self.task(i)).output is Some <==> self.task(i).state is Complete)
    }

    pub fn new() -> (r: Scheduler<T>)
        ensures
            r.wf(),
            r.tasks@.len() == 0,
            r.ready@.len() == 0,
    {
        Scheduler { tasks: Vec::new(), ready: Vec::new() }
    }

    /// Spawns a task: it is allocated `Runnable`, queued at the back of the
    /// ready queue — strictly after everything already runnable — and its
    /// join handle is returned.
    pub fn spawn(&mut self) -> (h: JoinHandle)
        requires
            old(self).wf(),
        ensures
            final(self).wf(),
            h.task == old(self).tasks@.len(),
            final(self).tasks@.len() == old(self).tasks@.len() + 1,
            final(self).task(h.task as int) == (TaskEntry::<T> {
                state: TaskState::Runnable,
                output: None,
                join_waker: None,
                detached: false,
            }),
            forall|i: int| 0 <= i < old(self).tasks@.len()
                ==> final(self).task(i) == old(self).task(i),
            final(self).ready@ == old(self).ready@.push(h.task),
    {
        let id = self.tasks.len();
        self.tasks.push(TaskEntry {
            state: TaskState::Runnable,
            output: None,
            join_waker: None,
            detached: false,
        });
        self.ready.push(id);
        proof {
            assert forall|i: int|
                0 <= i < self.tasks@.len() && (#[trigger] self.task(i)).state is Runnable
                    implies self.ready@.contains(i as usize) by {
                if i < old(self).tasks@.len() {
                    assert(self.task(i) == old(self).task(i));
                    assert(old(self).ready@.contains(i as usize));
                    let q = choose|q: int|
                        0 <= q < old(self).ready@.len() && old(self).ready@[q] == i as usize;
                    assert(self.ready@[q] == i as usize);
                } else {
                    assert(i == id);
                    assert(self.ready@[self.ready@.len() - 1] == id);
                }
            }
            assert forall|q: int| 0 <= q < self.ready@.len()
                implies (#[trigger] self.task(self.ready@[q] as int)).state is Runnable by {
                if q < old(self).ready@.len() {
                    assert(self.ready@[q] == old(self).ready@[q]);
                    assert(old(self).task(old(self).ready@[q] as int).state is Runnable);
                } else {
                    assert(self.ready@[q] == id);
                }
            }
            assert forall|q1: int, q2: int|
                0 <= q1 < q2 < self.ready@.len() implies self.ready@[q1]
                != self.ready@[q2] by {
                if q2 == self.ready@.len() - 1 {
                    assert(self.ready@[q1] == old(self).ready@[q1]);
                    assert(old(self).task(old(self).ready@[q1] as int).state is Runnable);
                }
            }
            assert forall|i: int| 0 <= i < self.tasks@.len()
                implies ((#[trigger] self.task(i)).output is Some
                    <==> self.task(i).state is Complete) by {
                if i < old(self).tasks@.len() {
                    assert(self.task(i) == old(self).task(i));
                    assert(old(self).task(i).output is Some
                        <==> old(self).task(i).state is Complete);
                }
            }
        }
        JoinHandle { task: id }
    }

    /// Wakes a task: `Idle` becomes `Runnable` and joins the back of the
    /// ready queue; any other state — already queued, running, or finished —
    /// is left untouched, so a stray waker cannot corrupt the queue.
    pub fn wake(&mut self, id: usize)
        requires
            old(self).wf(),
        ensures
            final(self).wf(),
            final(self).tasks@.len() == old(self).tasks@.len(),
            id < old(self).tasks@.len() && old(self).task(id as int).state is Idle ==> {
                &&& final(self).task(id as int) == (TaskEntry {
                    state: TaskState::Runnable,
                    ..old(self).task(id as int)
                })
                &&& final(self).ready@ == old(self).ready@.push(id)
            },
            !(id < old(self).tasks@.len() && old(self).task(id as int).state is Idle)
                ==> *final(self) == *old(self),
            forall|i: int| 0 <= i < old(self).tasks@.len() && i != id
                ==> final(self).task(i) == old(self).task(i),
    {
        if id < self.tasks.len() {
            let is_idle = match self.tasks[id].state {
                TaskState::Idle => true,
                _ => false,
            };
            if is_idle {
                let entry = &mut self.tasks[id];
                entry.state = TaskState::Runnable;
                self.ready.push(id);
                proof {
                    assert forall|i: int|
                        0 <= i < self.tasks@.len() && (#[trigger] self.task(i)).state is Runnable
                            implies self.ready@.contains(i as usize) by {
                        if i != id {
                            assert(self.task(i) == old(self).task(i));
                            assert(old(self).ready@.contains(i as usize));
                            let q = choose|q: int|
                                0 <= q < old(self).ready@.len()
                                    && old(self).ready@[q] == i as usize;
                            assert(self.ready@[q] == i as usize);
                        } else {
                            assert(self.ready@[self.ready@.len() - 1] == id);
                        }
                    }
                    assert forall|q: int| 0 <= q < self.ready@.len()
                        implies (#[trigger] self.task(self.ready@[q] as int)).state
                        is Runnable by {
                        if q < old(self).ready@.len() {
                            assert(self.ready@[q] == old(self).ready@[q]);
                            assert(old(self).task(old(self).ready@[q] as int).state
                                is Runnable);
                            assert(old(self).ready@[q] != id);
                        } else {
                            assert(self.ready@[q] == id);
                        }
                    }
                    assert forall|q1: int, q2: int|
                        0 <= q1 < q2 < self.ready@.len() implies self.ready@[q1]
                        != self.ready@[q2] by {
                        if q2 == self.ready@.len() - 1 {
                            assert(self.ready@[q1] == old(self).ready@[q1]);
                            assert(old(self).task(old(self).ready@[q1] as int).state
                                is Runnable);
                            assert(old(self).ready@[q1] != id);
                        }
                    }
                    assert forall|i: int| 0 <= i < self.tasks@.len()
                        implies ((#[trigger] self.task(i)).output is Some
                            <==> self.task(i).state is Complete) by {
                        if i != id {
                            assert(self.task(i) == old(self).task(i));
                        }
                        assert(old(self).task(i).output is Some
                            <==> old(self).task(i).state is Complete);
                    }
                }
            }
        }
    }

    /// Takes the next task to poll: the front of the ready queue, which
    /// becomes `Running`.  Readiness is strictly first-in, first-out.
    pub fn next_task(&mut self) -> (r: Option<usize>)
        requires
            old(self).wf(),
        ensures
            final(self).wf(),
            final(self).tasks@.len() == old(self).tasks@.len(),
            old(self).ready@.len() == 0 ==> (r is None && *final(self) == *old(self)),
            old(self).ready@.len() > 0 ==> {
                &&& r == Some(old(self).ready@[0])
                &&& final(self).ready@ == old(self).ready@.drop_first()
                &&& final(self).task(old(self).ready@[0] as int) == (TaskEntry {
                    state: TaskState::Running,
                    ..old(self).task(old(self).ready@[0] as int)
                })
                &&& forall|i: int| 0 <= i < old(self).tasks@.len() && i != old(self).ready@[0]
                    ==> final(self).task(i) == old(self).task(i)
            },
    {
        let task_count = self.tasks.len();
        proof {
            // Binds the task count so indices fit in `usize` below.
            assert(task_count as int == self.tasks@.len());
        }
        if self.ready.len() == 0 {
            return None;
        }
        let id = self.ready.remove(0);
        proof {
            assert(self.ready@ == old(self).ready@.drop_first());
        }
        let entry = &mut self.tasks[id];
        entry.state = TaskState::Running;
        proof {
            assert(old(self).ready@[0] == id);
            assert forall|i: int|
                0 <= i < self.tasks@.len() && (#[trigger] self.task(i)).state is Runnable
                    implies self.ready@.contains(i as usize) by {
                if i == id {
                    assert(self.task(i).state is Running);
                    assert(false);
                }
                assert(self.task(i) == old(self).task(i));
                assert(old(self).task(i).state is Runnable);
                assert(old(self).ready@.contains(i as usize));
                let q = choose|q: int|
                    0 <= q < old(self).ready@.len() && old(self).ready@[q] == i as usize;
                assert(q != 0);
                assert(self.ready@[q - 1] == i as usize);
            }
            assert forall|q: int| 0 <= q < self.ready@.len()
                implies (#[trigger] self.task(self.ready@[q] as int)).state is Runnable by {
                assert(self.ready@[q] == old(self).ready@[q + 1]);
                assert(old(self).task(old(self).ready@[q + 1] as int).state is Runnable);
                assert(old(self).ready@[q + 1] != id);
            }
            assert forall|i: int| 0 <= i < self.tasks@.len()
                implies ((#[trigger] self.task(i)).output is Some
                    <==> self.task(i).state is Complete) by {
                if i != id {
                    assert(self.task(i) == old(self).task(i));
                }
                assert(old(self).task(i).output is Some
                    <==> old(self).task(i).state is Complete);
            }
        }
        Some(id)
    }

    /// A cooperative yield: the running task goes straight back to the end
    /// of the ready queue, behind every peer already waiting, instead of
    /// parking for a waker.
    pub fn yield_task(&mut self, id: usize)
        requires
            old(self).wf(),
            id < old(self).tasks@.len(),
            old(self).task(id as int).state is Running,
        ensures
            final(self).wf(),
            final(self).tasks@.len() == old(self).tasks@.len(),
            final(self).task(id as int) == (TaskEntry {
                state: TaskState::Runnable,
                ..old(self).task(id as int)
            }),
            final(self).ready@ == old(self).ready@.push(id),
            forall|i: int| 0 <= i < old(self).tasks@.len() && i != id
                ==> final(self).task(i) == old(self).task(i),
    {
        let entry = &mut self.tasks[id];
        entry.state = TaskState::Runnable;
        self.ready.push(id);
        proof {
            assert forall|i: int|
                0 <= i < self.tasks@.len() && (#[trigger] self.task(i)).state is Runnable
                    implies self.ready@.contains(i as usize) by {
                if i != id {
                    assert(self.task(i) == old(self).task(i));
                    assert(old(self).ready@.contains(i as usize));
                    let q = choose|q: int|
                        0 <= q < old(self).ready@.len() && old(self).ready@[q] == i as usize;
                    assert(self.ready@[q] == i as usize);
                } else {
                    assert(self.ready@[self.ready@.len() - 1] == id);
                }
            }
            assert forall|q: int| 0 <= q < self.ready@.len()
                implies (#[trigger] self.task(self.ready@[q] as int)).state is Runnable by {
                if q < old(self).ready@.len() {
                    assert(self.ready@[q] == old(self).ready@[q]);
                    assert(old(self).task(old(self).ready@[q] as int).state is Runnable);
                    assert(old(self).ready@[q] != id);
                } else {
                    assert(self.ready@[q] == id);
                }
            }
            assert forall|q1: int, q2: int|
                0 <= q1 < q2 < self.ready@.len() implies self.ready@[q1]
                != self.ready@[q2] by {
                if q2 == self.ready@.len() - 1 {
                    assert(self.ready@[q1] == old(self).ready@[q1]);
                    assert(old(self).task(old(self).ready@[q1] as int).state is Runnable);
                    assert(old(self).ready@[q1] != id);
                }
            }
            assert forall|i: int| 0 <= i < self.tasks@.len()
                implies ((#[trigger] self.task(i)).output is Some
                    <==> self.task(i).state is Complete) by {
                if i != id {
                    assert(self.task(i) == old(self).task(i));
                }
                assert(old(self).task(i).output is Some
                    <==> old(self).task(i).state is Complete);
            }
        }
    }

    /// Records that the polled task returned pending: it parks `Idle` until
    /// its waker fires.
    pub fn task_pending(&mut self, id: usize)
        requires
            old(self).wf(),
            id < old(self).tasks@.len(),
            old(self).task(id as int).state is Running,
        ensures
            final(self).wf(),
            final(self).tasks@.len() == old(self).tasks@.len(),
            final(self).ready@ == old(self).ready@,
            final(self).task(id as int) == (TaskEntry {
                state: TaskState::Idle,
                ..old(self).task(id as int)
            }),
            forall|i: int| 0 <= i < old(self).tasks@.len() && i != id
                ==> final(self).task(i) == old(self).task(i),
    {
        let entry = &mut self.tasks[id];
        entry.state = TaskState::Idle;
        proof {
            assert(old(self).task(id as int).output is Some
                <==> old(self).task(id as int).state is Complete);
            lemma_ready_frame(*old(self), *self, id as int);
        }
    }

    /// Records that the polled task completed: the output is stored and the
    /// join handle's waker, if one was registered, is handed back to be
    /// woken.
    pub fn task_complete(&mut self, id: usize, out: T) -> (w: Option<u64>)
        requires
            old(self).wf(),
            id < old(self).tasks@.len(),
            old(self).task(id as int).state is Running,
        ensures
            final(self).wf(),
            final(self).tasks@.len() == old(self).tasks@.len(),
            final(self).ready@ == old(self).ready@,
            w == old(self).task(id as int).join_waker,
            final(self).task(id as int) == (TaskEntry {
                state: TaskState::Complete,
                output: Some(out),
                ..old(self).task(id as int)
            }),
            forall|i: int| 0 <= i < old(self).tasks@.len() && i != id
                ==> final(self).task(i) == old(self).task(i),
    {
        let entry = &mut self.tasks[id];
        entry.state = TaskState::Complete;
        entry.output = Some(out);
        let w = entry.join_waker;
        proof {
            assert(old(self).task(id as int).output is Some
                <==> old(self).task(id as int).state is Complete);
            lemma_ready_frame(*old(self), *self, id as int);
        }
        w
    }

    /// One poll of a join handle: pending (with the waker recorded) until
    /// the task finishes, then its output — exactly once.
    pub fn poll_join(&mut self, h: JoinHandle, waker: u64) -> (r: JoinPoll<T>)
        requires
            old(self).wf(),
            h.task < old(self).tasks@.len(),
        ensures
            final(self).wf(),
            final(self).tasks@.len() == old(self).tasks@.len(),
            final(self).ready@ == old(self).ready@,
            forall|i: int| 0 <= i < old(self).tasks@.len() && i != h.task
                ==> final(self).task(i) == old(self).task(i),
            ({
                let t = old(self).task(h.task as int);
                match t.state {
                    TaskState::Complete => {
                        &&& (r matches JoinPoll::Ready(out) && Some(out) == t.output)
                        &&& final(self).task(h.task as int) == (TaskEntry {
                            state: TaskState::Idle,
                            output: None,
                            ..t
                        })
                    },
                    TaskState::Cancelled => {
                        &&& r is Cancelled
                        &&& *final(self) == *old(self)
                    },
                    _ => {
                        &&& r is Pending
                        &&& final(self).task(h.task as int) == (TaskEntry {
                            join_waker: Some(waker),
                            ..t
                        })
                    },
                }
            }),
    {
        let state = self.tasks[h.task].state;
        match state {
            TaskState::Complete => {
                let entry = &mut self.tasks[h.task];
                let out = entry.output.take().unwrap();
                entry.state = TaskState::Idle;
                proof {
                    assert(old(self).task(h.task as int).output is Some
                        <==> old(self).task(h.task as int).state is Complete);
                    lemma_ready_frame(*old(self), *self, h.task as int);
                }
                JoinPoll::Ready(out)
            }
            TaskState::Cancelled => JoinPoll::Cancelled,
            _ => {
                let entry = &mut self.tasks[h.task];
                entry.join_waker = Some(waker);
                proof {
                    assert(old(self).task(h.task as int).output is Some
                        <==> old(self).task(h.task as int).state is Complete);
                    lemma_ready_frame(*old(self), *self, h.task as int);
                }
                JoinPoll::Pending
            }
        }
    }

    /// Cancels a parked task: an `Idle` task becomes `Cancelled` and its
    /// join resolves as cancelled.  A task that is queued, running or
    /// already finished is left alone — cancellation never corrupts the
    /// ready queue.
    pub fn cancel_task(&mut self, id: usize)
        requires
            old(self).wf(),
        ensures
            final(self).wf(),
            final(self).tasks@.len() == old(self).tasks@.len(),
            final(self).ready@ == old(self).ready@,
            id < old(self).tasks@.len() && old(self).task(id as int).state is Idle ==>
                final(self).task(id as int) == (TaskEntry {
                    state: TaskState::Cancelled,
                    ..old(self).task(id as int)
                }),
            !(id < old(self).tasks@.len() && old(self).task(id as int).state is Idle)
                ==> *final(self) == *old(self),
            forall|i: int| 0 <= i < old(self).tasks@.len() && i != id
                ==> final(self).task(i) == old(self).task(i),
    {
        if id < self.tasks.len() {
            let is_idle = match self.tasks[id].state {
                TaskState::Idle => true,
                _ => false,
            };
            if is_idle {
                let entry = &mut self.tasks[id];
                entry.state = TaskState::Cancelled;
                proof {
                    assert(old(self).task(id as int).output is Some
                        <==> old(self).task(id as int).state is Complete);
                    lemma_ready_frame(*old(self), *self, id as int);
                }
            }
        }
    }

    /// Dropping a join handle detaches the task but does not cancel it: the
    /// task's state is exactly what it was.
    pub fn drop_join(&mut self, h: JoinHandle)
        requires
            old(self).wf(),
            h.task < old(self).tasks@.len(),
        ensures
            final(self).wf(),
            final(self).tasks@.len() == old(self).tasks@.len(),
            final(self).ready@ == old(self).ready@,
            final(self).task(h.task as int) == (TaskEntry {
                detached: true,
                join_waker: None,
                ..old(self).task(h.task as int)
            }),
            final(self).task(h.task as int).state == old(self).task(h.task as int).state,
            forall|i: int| 0 <= i < old(self).tasks@.len() && i != h.task
                ==> final(self).task(i) == old(self).task(i),
    {
        let entry = &mut self.tasks[h.task];
        entry.detached = true;
        entry.join_waker = None;
        proof {
            assert(old(self).task(h.task as int).output is Some
                <==> old(self).task(h.task as int).state is Complete);
            lemma_ready_frame(*old(self), *self, h.task as int);
        }
    }
}

/// A transition that leaves the ready queue alone and changes only task
/// `id` — without moving it into or out of `Runnable` — keeps the
/// scheduler well-formed.
proof fn lemma_ready_frame<T>(pre: Scheduler<T>, post: Scheduler<T>, id: int)
    requires
        pre.wf(),
        post.ready@ == pre.ready@,
        post.tasks@.len() == pre.tasks@.len(),
        0 <= id < post.tasks@.len(),
        forall|i: int| 0 <= i < post.tasks@.len() && i != id
            ==> post.task(i) == pre.task(i),
        post.task(id).state is Runnable <==> pre.task(id).state is Runnable,
        post.task(id).output is Some <==> post.task(id).state is Complete,
    ensures
        post.wf(),
{
    assert forall|q: int| 0 <= q < post.ready@.len()
        implies (#[trigger] post.task(post.ready@[q] as int)).state is Runnable by {
        assert(pre.task(pre.ready@[q] as int).state is Runnable);
    }
    assert forall|i: int|
        0 <= i < post.tasks@.len() && (#[trigger] post.task(i)).state is Runnable
            implies post.ready@.contains(i as usize) by {
        assert(pre.task(i).state is Runnable);
        assert(pre.ready@.contains(i as usize));
    }
    assert forall|i: int| 0 <= i < post.tasks@.len()
        implies ((#[trigger] post.task(i)).output is Some
            <==> post.task(i).state is Complete) by {
        if i != id {
            assert(post.task(i) == pre.task(i));
        }
    }
}

} // verus!
