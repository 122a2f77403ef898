use snowfallio::driver::{start_cancelable, Inner};
use snowfallio::error::OpError;
use io_uring::opcode;
use snowfallio::op::{open_flags, to_ring_entry, Close, OpAble, OpPayload, SqeDesc, SqeOp};
use snowfallio::shared_fd::FdTable;
use snowfallio::uring::{Dispatch, Op, OpPoll, UringInner, UNTRACKED_USER_DATA};

#[test]
fn open_flags_compose() {
    let flags = open_flags(libc::O_CLOEXEC, libc::O_RDWR, libc::O_CREAT, 0x503);
    assert_eq!(
        flags,
        libc::O_CLOEXEC | libc::O_RDWR | libc::O_CREAT | (0x503 & !libc::O_ACCMODE)
    );
}

#[test]
fn poll_descriptor_carries_mask() {
    let mut table = FdTable::new();
    let mut inner = UringInner::new(16);
    let fd = table.register(5);
    let op = Op::poll_read(&mut inner, fd, false);
    let desc = &inner.staged[0];
    assert_eq!(desc.user_data, op.index as u64);
    match &desc.op {
        SqeOp::PollAdd { fd, mask } => {
            assert_eq!(*fd, 5);
            assert_eq!(*mask, libc::POLLIN as u32);
        }
        other => panic!("unexpected descriptor: {:?}", other),
    }

    let fd2 = table.register(5);
    Op::poll_write(&mut inner, fd2, false);
    match &inner.staged[1].op {
        SqeOp::PollAdd { mask, .. } => assert_eq!(*mask, libc::POLLOUT as u32),
        other => panic!("unexpected descriptor: {:?}", other),
    }
}

#[test]
fn splice_descriptor() {
    let mut table = FdTable::new();
    let mut inner = UringInner::new(16);
    let a = table.register(3);
    let b = table.register(4);
    Op::splice_to_pipe(&mut inner, a, b, 4096);
    match &inner.staged[0].op {
        SqeOp::Splice { fd_in, off_in, fd_out, off_out, len, flags } => {
            assert_eq!(*fd_in, 3);
            assert_eq!(*off_in, -1);
            assert_eq!(*fd_out, 4);
            assert_eq!(*off_out, -1);
            assert_eq!(*len, 4096);
            assert_eq!(*flags, libc::SPLICE_F_MOVE);
        }
        other => panic!("unexpected descriptor: {:?}", other),
    }
}

#[test]
fn submit_poll_dispatch_roundtrip() {
    let mut inner = UringInner::new(16);
    let mut op = inner.submit_with_data(OpPayload::Close(Close { fd: 9 }));
    let idx = op.index as u64;

    // Polling before the completion parks the waker.
    match inner.poll_op(&mut op, 42) {
        OpPoll::Pending => {}
        OpPoll::Ready(_) => panic!("completed before the kernel answered"),
    }

    // The completion arms the slot and returns the parked waker.
    match inner.dispatch(idx, 11, 7) {
        Dispatch::Wake(task) => assert_eq!(task, 42),
        _ => panic!("expected a wakeup"),
    }

    // The next poll consumes the completion.
    match inner.poll_op(&mut op, 42) {
        OpPoll::Ready(c) => {
            assert_eq!(c.meta.result, Ok(11));
            assert_eq!(c.meta.flags, 7);
            assert!(matches!(c.data, OpPayload::Close(Close { fd: 9 })));
        }
        OpPoll::Pending => panic!("completion was delivered but not observed"),
    }
}

#[test]
fn negative_result_is_kernel_error() {
    let mut inner = UringInner::new(16);
    let mut op = inner.submit_with_data(OpPayload::Close(Close { fd: 9 }));
    let idx = op.index as u64;
    inner.dispatch(idx, -11, 0);
    match inner.poll_op(&mut op, 1) {
        OpPoll::Ready(c) => {
            assert_eq!(c.meta.result, Err(11));
            assert_eq!(c.meta.io_result(), Err(OpError::KernelCompletion(11)));
        }
        OpPoll::Pending => panic!("completion was delivered but not observed"),
    }
}

#[test]
fn dropped_op_parks_payload_until_drained() {
    let mut inner = UringInner::new(16);
    let op = inner.submit_with_data(OpPayload::Close(Close { fd: 8 }));
    let idx = op.index as u64;

    // Dropping the in-flight op moves the payload into the slot and stages
    // a kernel cancel; nothing is freed yet.
    let staged_before = inner.staged.len();
    inner.drop_op(op);
    assert_eq!(inner.staged.len(), staged_before + 1);
    match &inner.staged[staged_before].op {
        SqeOp::AsyncCancel { target } => assert_eq!(*target, idx),
        other => panic!("unexpected descriptor: {:?}", other),
    }
    assert_eq!(inner.staged[staged_before].user_data, UNTRACKED_USER_DATA);

    // Only the kernel completion for that slot releases the payload.
    match inner.dispatch(idx, -125, 0) {
        Dispatch::Released(OpPayload::Close(Close { fd })) => assert_eq!(fd, 8),
        _ => panic!("the drained slot must release the parked payload"),
    }
}

#[test]
fn cancel_on_completed_slot_is_noop() {
    let mut inner = UringInner::new(16);
    let mut op = inner.submit_with_data(OpPayload::Close(Close { fd: 8 }));
    let canceller = op.op_canceller();
    let idx = op.index as u64;
    inner.dispatch(idx, 0, 0);

    // The slot already completed: cancelling stages nothing.
    let staged_before = inner.staged.len();
    inner.cancel_op(canceller);
    assert_eq!(inner.staged.len(), staged_before);

    // The op still observes its completion untouched.
    match inner.poll_op(&mut op, 1) {
        OpPoll::Ready(c) => assert_eq!(c.meta.result, Ok(0)),
        OpPoll::Pending => panic!("completion lost after the no-op cancel"),
    }
}

#[test]
fn cancel_on_pending_slot_stages_async_cancel() {
    let mut inner = UringInner::new(16);
    let op = inner.submit_with_data(OpPayload::Close(Close { fd: 8 }));
    let canceller = op.op_canceller();
    let staged_before = inner.staged.len();
    inner.cancel_op(canceller);
    assert_eq!(inner.staged.len(), staged_before + 1);
    match &inner.staged[staged_before].op {
        SqeOp::AsyncCancel { target } => assert_eq!(*target, op.index as u64),
        other => panic!("unexpected descriptor: {:?}", other),
    }
}

#[test]
fn try_submit_rejects_when_saturated() {
    let mut inner = UringInner::new(1);
    assert!(inner.try_submit_with_data(OpPayload::Close(Close { fd: 1 })).is_ok());
    match inner.try_submit_with_data(OpPayload::Close(Close { fd: 2 })) {
        Err((OpError::SubmissionRejected, OpPayload::Close(Close { fd }))) => {
            assert_eq!(fd, 2)
        }
        _ => panic!("a saturated queue must reject the submission and return the payload"),
    }
}

#[test]
fn unknown_and_duplicate_completions_are_fatal() {
    let mut inner = UringInner::new(16);
    assert!(matches!(inner.dispatch(3, 0, 0), Dispatch::Fatal));
    let op = inner.submit_with_data(OpPayload::Close(Close { fd: 1 }));
    let idx = op.index as u64;
    assert!(matches!(inner.dispatch(idx, 0, 0), Dispatch::Stored));
    assert!(matches!(inner.dispatch(idx, 0, 0), Dispatch::Fatal));
    assert!(matches!(inner.dispatch(UNTRACKED_USER_DATA, 0, 0), Dispatch::Untracked));
}

#[test]
fn slot_reuse_waits_for_drain() {
    let mut inner = UringInner::new(16);
    let op = inner.submit_with_data(OpPayload::Close(Close { fd: 1 }));
    let first = op.index;
    inner.drop_op(op);

    // The slot is detached but not drained: a new submission takes a fresh
    // slot.
    let op2 = inner.submit_with_data(OpPayload::Close(Close { fd: 2 }));
    assert_ne!(op2.index, first);

    // Once drained the slot is reusable.
    inner.dispatch(first as u64, -125, 0);
    let op3 = inner.submit_with_data(OpPayload::Close(Close { fd: 3 }));
    assert_eq!(op3.index, first);
}

#[test]
fn cancelable_start_refuses_after_cancel() {
    let mut inner = Inner { uring: UringInner::new(16) };
    match start_cancelable(&mut inner, true, OpPayload::Close(Close { fd: 5 })) {
        Err((OpError::Cancelled, OpPayload::Close(Close { fd }))) => assert_eq!(fd, 5),
        _ => panic!("a cancelled handle must refuse the submission"),
    }
    assert_eq!(inner.uring.staged.len(), 0);
    assert!(start_cancelable(&mut inner, false, OpPayload::Close(Close { fd: 5 })).is_ok());
    assert_eq!(inner.uring.staged.len(), 1);
}

#[test]
fn payload_emits_its_descriptor() {
    let mut table = FdTable::new();
    let fd = table.register(12);
    let payload = OpPayload::Fsync(snowfallio::op::Fsync { fd, data_sync: true });
    match payload.uring_op() {
        SqeOp::Fsync { fd, data_sync } => {
            assert_eq!(fd, 12);
            assert!(data_sync);
        }
        other => panic!("unexpected descriptor: {:?}", other),
    }
}

#[test]
fn open_descriptor_uses_cwd() {
    let mut inner = UringInner::new(16);
    let path = vec![47u8, 116, 109, 112];
    Op::open(&mut inner, path.clone(), libc::O_CLOEXEC | libc::O_RDONLY, 0o644).unwrap();
    match &inner.staged[0].op {
        SqeOp::OpenAt { dirfd, path: p, flags, mode } => {
            assert_eq!(*dirfd, libc::AT_FDCWD);
            assert_eq!(p, &path);
            assert_eq!(*flags, libc::O_CLOEXEC | libc::O_RDONLY);
            assert_eq!(*mode, 0o644);
        }
        other => panic!("unexpected descriptor: {:?}", other),
    }
}

#[test]
fn ring_entries_carry_slot_routing() {
    // The library-built ring entries carry exactly the opcode and user
    // data the model descriptor says.
    let close = to_ring_entry(&SqeDesc { op: SqeOp::Close { fd: 3 }, user_data: 17 }).unwrap();
    assert_eq!(close.get_user_data(), 17);
    assert_eq!(close.get_opcode(), opcode::Close::CODE as u32);

    let fsync = to_ring_entry(&SqeDesc {
        op: SqeOp::Fsync { fd: 3, data_sync: true },
        user_data: 5,
    })
    .unwrap();
    assert_eq!(fsync.get_user_data(), 5);
    assert_eq!(fsync.get_opcode(), opcode::Fsync::CODE as u32);

    let poll = to_ring_entry(&SqeDesc {
        op: SqeOp::PollAdd { fd: 3, mask: 1 },
        user_data: 6,
    })
    .unwrap();
    assert_eq!(poll.get_opcode(), opcode::PollAdd::CODE as u32);

    let cancel = to_ring_entry(&SqeDesc {
        op: SqeOp::AsyncCancel { target: 9 },
        user_data: UNTRACKED_USER_DATA,
    })
    .unwrap();
    assert_eq!(cancel.get_user_data(), UNTRACKED_USER_DATA);
    assert_eq!(cancel.get_opcode(), opcode::AsyncCancel::CODE as u32);

    let splice = to_ring_entry(&SqeDesc {
        op: SqeOp::Splice { fd_in: 1, off_in: -1, fd_out: 2, off_out: -1, len: 16, flags: 1 },
        user_data: 7,
    })
    .unwrap();
    assert_eq!(splice.get_opcode(), opcode::Splice::CODE as u32);

    // Entries that need caller-owned buffers are left to the shell.
    assert!(to_ring_entry(&SqeDesc { op: SqeOp::Accept { fd: 1 }, user_data: 0 }).is_none());
}

#[test]
fn open_rejects_interior_nul() {
    let mut inner = UringInner::new(16);
    let path = vec![47u8, 0, 116];
    assert!(matches!(
        Op::open(&mut inner, path, libc::O_RDONLY, 0),
        Err(OpError::InvalidArgument)
    ));
    // Nothing was staged for the rejected path.
    assert_eq!(inner.staged.len(), 0);
}
