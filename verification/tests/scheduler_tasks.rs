use snowfallio::scheduler::{JoinPoll, Scheduler, TaskState};

#[test]
fn ready_tasks_join_without_parking() {
    // Two tasks whose futures are already ready complete on the first
    // drain of the ready queue; the scheduler never has to park.
    let mut s: Scheduler<u64> = Scheduler::new();
    let ha = s.spawn();
    let hb = s.spawn();

    let a = s.next_task().unwrap();
    s.task_complete(a, 7);
    let b = s.next_task().unwrap();
    s.task_complete(b, 7);
    assert!(s.next_task().is_none());

    match s.poll_join(ha, 0) {
        JoinPoll::Ready(v) => assert_eq!(v, 7),
        _ => panic!("a completed task must resolve its join at once"),
    }
    match s.poll_join(hb, 0) {
        JoinPoll::Ready(v) => assert_eq!(v, 7),
        _ => panic!("a completed task must resolve its join at once"),
    }
}

#[test]
fn spawned_task_output_reaches_join() {
    let mut s: Scheduler<u64> = Scheduler::new();
    let h = s.spawn();
    let id = s.next_task().unwrap();
    assert_eq!(id, h.task);
    let woken = s.task_complete(id, 7);
    assert_eq!(woken, None);
    match s.poll_join(h, 3) {
        JoinPoll::Ready(v) => assert_eq!(v, 7),
        _ => panic!("join must yield the task output"),
    }
}

#[test]
fn dropping_join_handle_does_not_cancel() {
    let mut s: Scheduler<u64> = Scheduler::new();
    let h = s.spawn();
    // The handle is dropped before the task ever ran.
    s.drop_join(h);
    assert_eq!(s.tasks[h.task].state, TaskState::Runnable);

    // The task still runs to completion.
    let id = s.next_task().unwrap();
    let woken = s.task_complete(id, 9);
    assert_eq!(woken, None);
    assert_eq!(s.tasks[h.task].state, TaskState::Complete);
    assert_eq!(s.tasks[h.task].output, Some(9));
}

#[test]
fn readiness_is_fifo() {
    let mut s: Scheduler<u64> = Scheduler::new();
    let a = s.spawn();
    let b = s.spawn();
    let c = s.spawn();
    assert_eq!(s.next_task(), Some(a.task));
    assert_eq!(s.next_task(), Some(b.task));

    // a parks, then wakes: it requeues behind everything already runnable.
    s.task_pending(a.task);
    s.wake(a.task);
    assert_eq!(s.next_task(), Some(c.task));
    assert_eq!(s.next_task(), Some(a.task));
    assert_eq!(s.next_task(), None);
}

#[test]
fn join_parks_until_completion() {
    let mut s: Scheduler<u64> = Scheduler::new();
    let h = s.spawn();
    let id = s.next_task().unwrap();
    s.task_pending(id);

    // The join registers its waker while the task is idle.
    assert!(matches!(s.poll_join(h, 55), JoinPoll::Pending));

    // Completion hands that waker back so the joiner is woken.
    s.wake(id);
    let id = s.next_task().unwrap();
    let woken = s.task_complete(id, 3);
    assert_eq!(woken, Some(55));
    match s.poll_join(h, 55) {
        JoinPoll::Ready(v) => assert_eq!(v, 3),
        _ => panic!("join must resolve after completion"),
    }
}

#[test]
fn waking_a_queued_task_does_not_duplicate_it() {
    let mut s: Scheduler<u64> = Scheduler::new();
    let h = s.spawn();
    s.wake(h.task);
    assert_eq!(s.ready.len(), 1);
    assert_eq!(s.next_task(), Some(h.task));
    assert_eq!(s.next_task(), None);
}

#[test]
fn cancelled_task_resolves_join_as_cancelled() {
    let mut s: Scheduler<u64> = Scheduler::new();
    let h = s.spawn();
    let id = s.next_task().unwrap();
    s.task_pending(id);
    s.cancel_task(id);
    assert_eq!(s.tasks[h.task].state, TaskState::Cancelled);
    assert!(matches!(s.poll_join(h, 1), JoinPoll::Cancelled));
    // A stray waker on the cancelled task is ignored.
    s.wake(id);
    assert!(s.next_task().is_none());
}

#[test]
fn cancel_leaves_running_tasks_alone() {
    let mut s: Scheduler<u64> = Scheduler::new();
    let h = s.spawn();
    let id = s.next_task().unwrap();
    s.cancel_task(id);
    assert_eq!(s.tasks[h.task].state, TaskState::Running);
}

#[test]
fn yield_requeues_behind_peers() {
    let mut s: Scheduler<u64> = Scheduler::new();
    let a = s.spawn();
    let b = s.spawn();
    let id = s.next_task().unwrap();
    assert_eq!(id, a.task);
    // a yields: it goes to the back, behind b.
    s.yield_task(id);
    assert_eq!(s.next_task(), Some(b.task));
    assert_eq!(s.next_task(), Some(a.task));
    assert_eq!(s.next_task(), None);
}
