use snowfallio::shared_fd::{ClosePoll, FdAction, FdState, FdTable};

#[test]
fn sole_owner_close_submits_once() {
    let mut t = FdTable::new();
    let h = t.register(7);
    assert_eq!(h.raw_fd(), 7);
    let idx = h.idx;

    match t.close_begin(h) {
        FdAction::SubmitClose(fd) => assert_eq!(fd, 7),
        other => panic!("the sole owner must submit the close: {:?}", other),
    }

    // The awaiter parks until the kernel confirms, then resolves.
    assert!(matches!(t.closed_poll(idx, 1, false), ClosePoll::Pending));
    assert!(matches!(t.closed_poll(idx, 1, true), ClosePoll::Ready));
    assert!(matches!(t.closed_poll(idx, 1, true), ClosePoll::Ready));
}

#[test]
fn last_clone_submits_for_waiting_awaiter() {
    let mut t = FdTable::new();
    let h = t.register(9);
    let idx = h.idx;
    let clone_a = t.clone_fd(&h);
    let clone_b = t.clone_fd(&h);

    // With clones alive, closing only parks the request.
    assert!(matches!(t.close_begin(h), FdAction::Nop));
    assert!(matches!(t.closed_poll(idx, 77, false), ClosePoll::Pending));

    // Dropping a clone that is not the last does nothing.
    assert!(matches!(t.release(clone_a), FdAction::Nop));

    // The last clone to drop submits the close — exactly once — and wakes
    // the stored awaiter.
    match t.release(clone_b) {
        FdAction::SubmitCloseAndWake(fd, task) => {
            assert_eq!(fd, 9);
            assert_eq!(task, 77);
        }
        other => panic!("the last clone must carry out the close: {:?}", other),
    }
    assert!(matches!(t.closed_poll(idx, 77, true), ClosePoll::Ready));
}

#[test]
fn drop_without_close_submits_fallback() {
    let mut t = FdTable::new();
    let h = t.register(4);
    match t.release(h) {
        FdAction::SubmitClose(fd) => assert_eq!(fd, 4),
        other => panic!("dropping the last clone must close the fd: {:?}", other),
    }
}

#[test]
fn try_unwrap_needs_sole_ownership() {
    let mut t = FdTable::new();
    let h = t.register(3);
    let c = t.clone_fd(&h);

    // With two clones alive the handle is given back.
    let h = match t.try_unwrap(h) {
        Err(h) => h,
        Ok(_) => panic!("try_unwrap must fail while a clone is alive"),
    };
    assert!(matches!(t.release(c), FdAction::Nop));

    // The sole clone unwraps to the raw fd without closing it.
    assert_eq!(t.try_unwrap(h), Ok(3));
}

#[test]
fn closing_state_emits_nothing_further() {
    let mut t = FdTable::new();
    let h = t.register(5);
    let c = t.clone_fd(&h);
    assert!(matches!(t.close_begin(h), FdAction::Nop));
    match t.release(c) {
        FdAction::SubmitClose(5) => {}
        other => panic!("unexpected action: {:?}", other),
    }
    // The descriptor is now Closing; nothing submits a second close.
    match &t.entries[0] {
        Some(e) => assert_eq!(e.state, FdState::Closing),
        None => panic!("entry vanished"),
    }
}

#[test]
fn fallback_close_marks_closed() {
    let mut t = FdTable::new();
    let h = t.register(6);
    let idx = h.idx;
    assert!(matches!(t.close_begin(h), FdAction::SubmitClose(6)));
    // The close submission failed; the shell closed the fd directly.
    t.mark_closed(idx);
    assert!(matches!(t.closed_poll(idx, 1, false), ClosePoll::Ready));
}
