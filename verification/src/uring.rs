//! The driver core: a slab of completion slots, the staged submission
//! queue, and the dispatcher that routes kernel completions back to the
//! operations awaiting them.
//!
//! Each in-flight operation owns one slot.  The slot index is carried as
//! the submission's user data, so a completion names exactly the slot it
//! resolves.  A slot is freed only once the kernel has returned its
//! completion; a dropped operation parks its payload in the slot
//! (`Ignored`) so that any buffer the kernel may still write into stays
//! alive until the completion is drained.

use vstd::prelude::*;
use crate::error::OpError;
use crate::op::{sqe_eq, Accept, Close, Fsync, Open, OpAble, OpPayload, PollAdd, Splice,
    SpliceDirection, SqeDesc, SqeOp};
use crate::shared_fd::SharedFd;

verus! {

/// User data that marks a submission whose completion is not routed to any
/// slot (cancel submissions and cross-thread wakeups).
pub const UNTRACKED_USER_DATA: u64 = 18446744073709551615;

/// What a completion delivered: the kernel result (a negative result is
/// carried as an OS error code) and the completion flags.
#[derive(Clone, Copy, Debug, PartialEq, Eq)]
pub struct CompletionMeta {
    pub result: Result<u32, i32>,
    pub flags: u32,
}

/// Interprets a raw kernel completion result.
pub open spec fn meta_of(result: i32, flags: u32) -> CompletionMeta {
    CompletionMeta {
        result: if result >= 0 {
            Ok(result as u32)
        } else if result == i32::MIN {
            Err(i32::MAX)
        } else {
            Err((0 - result) as i32)
        },
        flags,
    }
}

impl CompletionMeta {
    /// The completion as the caller's I/O result: a negative kernel result
    /// surfaces as a kernel completion error at the await point.
    pub fn io_result(self) -> (r: Result<u32, OpError>)
        ensures
            self.result matches Ok(n) ==> r == Result::<u32, OpError>::Ok(n),
            self.result matches Err(e) ==> r == Result::<u32, OpError>::Err(
                OpError::KernelCompletion(e)),
    {
        match self.result {
            Ok(n) => Ok(n),
            Err(e) => Err(OpError::KernelCompletion(e)),
        }
    }
}

/// One completion slot.
pub enum Slot {
    /// Not owned by any in-flight operation.
    Free,
    /// Submitted to the kernel; the waker of the awaiting task, once one
    /// polled.
    Submitted(Option<u64>),
    /// The completion arrived before the operation consumed it.
    Armed(CompletionMeta),
    /// The operation was dropped while in flight; its payload is parked
    /// here until the kernel drains the slot.
    Ignored(OpPayload),
}

/// An in-flight operation: the slot it owns and its payload.  The payload
/// stays in place until the completion fires or the operation is dropped.
pub struct Op {
    pub index: usize,
    pub data: Option<OpPayload>,
}

/// An opaque handle that can request cancellation of an in-flight
/// operation across an await point.
#[derive(Clone, Copy, Debug, PartialEq, Eq, Structural)]
pub struct OpCanceller {
    pub index: usize,
}

/// A consumed completion: the meta and the payload handed back to the
/// caller together with it.
pub struct Completion {
    pub meta: CompletionMeta,
    pub data: OpPayload,
}

/// Outcome of polling an in-flight operation.
pub enum OpPoll {
    Pending,
    Ready(Completion),
}

/// What the dispatcher decided for one kernel completion.
pub enum Dispatch {
    /// The completion carries the untracked user data; nothing to route.
    Untracked,
    /// The slot armed and its awaiting task must be woken.
    Wake(u64),
    /// The slot armed; no waker was registered yet.
    Stored,
    /// The slot was detached by a drop; its payload is released to the
    /// caller, which frees the buffer now that the kernel is done with it.
    Released(OpPayload),
    /// Unknown user data or a duplicate completion: a kernel or memory bug.
    /// The runtime must abort.
    Fatal,
}

/// The driver core.
pub struct UringInner {
    pub slots: Vec<Slot>,
    pub staged: Vec<SqeDesc>,
    pub capacity: usize,
}

impl UringInner {
    pub open spec fn slot(&self, i: int) -> Slot
        recommends
            0 <= i < self.slots@.len(),
    {
        self.slots@[i]
    }

    /// An operation handle that still owns its payload and a live slot.
    pub open spec fn op_live(&self, op: Op) -> bool {
        &&& op.index < self.slots@.len()
        &&& op.data is Some
        &&& (self.slot(op.index as int) is Submitted || self.slot(op.index as int) is Armed)
    }

    /// Every parked payload of `pre` is still parked, untouched, in `post`.
    /// Payloads leave a table only through [`UringInner::dispatch`], on the
    /// kernel completion of their own slot.
    pub open spec fn retains_ignored(pre: UringInner, post: UringInner) -> bool {
        &&& post.slots@.len() >= pre.slots@.len()
        &&& forall|i: int| 0 <= i < pre.slots@.len() && pre.slot(i) is Ignored
            ==> post.slot(i) == pre.slot(i)
    }

    pub fn new(capacity: usize) -> (r: UringInner)
        ensures
            r.slots@.len() == 0,
            r.staged@.len() == 0,
            r.capacity == capacity,
    {
        UringInner { slots: Vec::new(), staged: Vec::new(), capacity }
    }

    /// Picks the slot for a new submission: the first free one, or a fresh
    /// one appended at the end.  Never hands out a slot the kernel still
    /// owes a completion for.
    fn alloc_slot(&mut self) -> (i: usize)
        ensures
            i < final(self).slots@.len(),
            old(self).slots@.len() <= final(self).slots@.len(),
            i < old(self).slots@.len() ==> {
                &&& old(self).slot(i as int) is Free
                &&& final(self).slots@ == old(self).slots@
            },
            i >= old(self).slots@.len() ==> {
                &&& i == old(self).slots@.len()
                &&& final(self).slots@ == old(self).slots@.push(Slot::Free)
            },
            final(self).staged@ == old(self).staged@,
            final(self).capacity == old(self).capacity,
    {
        let n = self.slots.len();
        let mut i: usize = 0;
        while i < n
            invariant
                n == self.slots@.len(),
                i <= n,
                *self == *old(self),
            decreases n - i,
        {
            let is_free = match &self.slots[i] {
                Slot::Free => true,
                _ => false,
            };
            if is_free {
                return i;
            }
            i = i + 1;
        }
        self.slots.push(Slot::Free);
        n
    }

    /// Submits an operation: claims a slot, stages the submission entry
    /// with the slot index as user data, and hands back the in-flight
    /// operation, which keeps its payload pinned.
    pub fn submit_with_data(&mut self, data: OpPayload) -> (op: Op)
        ensures
            final(self).op_live(op),
            final(self).slot(op.index as int) == Slot::Submitted(None::<u64>),
            op.data == Some(data),
            final(self).staged@.len() == old(self).staged@.len() + 1,
            final(self).staged@.subrange(0, old(self).staged@.len() as int) == old(self).staged@,
            ({
                let d = final(self).staged@.last();
                &&& d.user_data == op.index as u64
                &&& data.is_sqe(d.op)
            }),
            op.index < old(self).slots@.len() ==> old(self).slot(op.index as int) is Free,
            forall|j: int| 0 <= j < old(self).slots@.len() && j != op.index ==>
                final(self).slot(j) == old(self).slot(j),
            UringInner::retains_ignored(*old(self), *final(self)),
            final(self).capacity == old(self).capacity,
    {
        let i = self.alloc_slot();
        let entry = data.uring_op();
        self.slots.set(i, Slot::Submitted(None));
        self.staged.push(SqeDesc { op: entry, user_data: i as u64 });
        Op { index: i, data: Some(data) }
    }

    /// Non-backpressuring submission: when the staged queue has reached the
    /// ring capacity the saturation is surfaced as an error and the payload
    /// is handed back, instead of waiting for the ring to drain.
    pub fn try_submit_with_data(&mut self, data: OpPayload) -> (r: Result<Op, (OpError, OpPayload)>)
        ensures
            old(self).staged@.len() >= old(self).capacity ==> {
                &&& r matches Err(e) && e.0 == OpError::SubmissionRejected && e.1 == data
                &&& *final(self) == *old(self)
            },
            old(self).staged@.len() < old(self).capacity ==> r is Ok,
            r matches Ok(op) ==> {
                &&& final(self).op_live(op)
                &&& final(self).slot(op.index as int) == Slot::Submitted(None::<u64>)
                &&& op.data == Some(data)
                &&& final(self).staged@.len() == old(self).staged@.len() + 1
                &&& final(self).staged@.subrange(0, old(self).staged@.len() as int)
                    == old(self).staged@
                &&& final(self).staged@.last().user_data == op.index as u64
                &&& data.is_sqe(final(self).staged@.last().op)
                &&& forall|j: int| 0 <= j < old(self).slots@.len() && j != op.index ==>
                    final(self).slot(j) == old(self).slot(j)
            },
            UringInner::retains_ignored(*old(self), *final(self)),
            final(self).capacity == old(self).capacity,
    {
        if self.staged.len() >= self.capacity {
            Err((OpError::SubmissionRejected, data))
        } else {
            Ok(self.submit_with_data(data))
        }
    }

    /// One poll of an in-flight operation: records the waker until the
    /// dispatcher arms the slot, then consumes the completion, frees the
    /// slot and returns the payload to its owner.
    pub fn poll_op(&mut self, op: &mut Op, waker: u64) -> (r: OpPoll)
        requires
            old(self).op_live(*old(op)),
        ensures
            final(self).slots@.len() == old(self).slots@.len(),
            final(self).staged@ == old(self).staged@,
            final(self).capacity == old(self).capacity,
            forall|j: int| 0 <= j < old(self).slots@.len() && j != old(op).index ==>
                final(self).slot(j) == old(self).slot(j),
            UringInner::retains_ignored(*old(self), *final(self)),
            old(self).slot(old(op).index as int) is Submitted ==> {
                &&& r is Pending
                &&& final(self).slot(old(op).index as int) == Slot::Submitted(Some(waker))
                &&& *final(op) == *old(op)
                &&& final(self).op_live(*final(op))
            },
            old(self).slot(old(op).index as int) matches Slot::Armed(meta) ==> {
                &&& (r matches OpPoll::Ready(c) && c.meta == meta
                     && c.data == old(op).data->Some_0)
                &&& final(self).slot(old(op).index as int) is Free
                &&& final(op).index == old(op).index
                &&& final(op).data is None
            },
    {
        let i = op.index;
        let armed = match &self.slots[i] {
            Slot::Armed(_) => true,
            _ => false,
        };
        if armed {
            let prev = replace_slot(&mut self.slots, i, Slot::Free);
            match prev {
                Slot::Armed(meta) => {
                    let data = op.data.take().unwrap();
                    OpPoll::Ready(Completion { meta, data })
                }
                _ => {
                    // Excluded by the slot state read above.
                    proof {
                        assert(false);
                    }
                    OpPoll::Pending
                }
            }
        } else {
            self.slots.set(i, Slot::Submitted(Some(waker)));
            OpPoll::Pending
        }
    }

    /// Drops an in-flight operation.  If its completion already arrived the
    /// slot is simply freed; otherwise the payload moves into the slot —
    /// keeping the kernel-visible buffer alive past the owner's lifetime —
    /// and a cancellation targeting the slot is staged.
    pub fn drop_op(&mut self, op: Op)
        requires
            old(self).op_live(op),
        ensures
            final(self).slots@.len() == old(self).slots@.len(),
            final(self).capacity == old(self).capacity,
            forall|j: int| 0 <= j < old(self).slots@.len() && j != op.index ==>
                final(self).slot(j) == old(self).slot(j),
            UringInner::retains_ignored(*old(self), *final(self)),
            old(self).slot(op.index as int) is Submitted ==> {
                &&& final(self).slot(op.index as int) == Slot::Ignored(op.data->Some_0)
                &&& final(self).staged@ == old(self).staged@.push(SqeDesc {
                    op: SqeOp::AsyncCancel { target: op.index as u64 },
                    user_data: UNTRACKED_USER_DATA,
                })
            },
            old(self).slot(op.index as int) is Armed ==> {
                &&& final(self).slot(op.index as int) is Free
                &&& final(self).staged@ == old(self).staged@
            },
    {
        let Op { index, data } = op;
        let submitted = match &self.slots[index] {
            Slot::Submitted(_) => true,
            _ => false,
        };
        if submitted {
            self.slots.set(index, Slot::Ignored(data.unwrap()));
            self.staged.push(SqeDesc {
                op: SqeOp::AsyncCancel { target: index as u64 },
                user_data: UNTRACKED_USER_DATA,
            });
        } else {
            self.slots.set(index, Slot::Free);
        }
    }

    /// Requests cancellation of the slot a canceller points at.  On a slot
    /// that is no longer in flight — already completed, or never submitted —
    /// this is a no-op: nothing is staged and no state changes.
    pub fn cancel_op(&mut self, canceller: OpCanceller)
        ensures
            final(self).slots@ == old(self).slots@,
            final(self).capacity == old(self).capacity,
            UringInner::retains_ignored(*old(self), *final(self)),
            ({
                let live = canceller.index < old(self).slots@.len()
                    && (old(self).slot(canceller.index as int) is Submitted
                        || old(self).slot(canceller.index as int) is Ignored);
                if live {
                    final(self).staged@ == old(self).staged@.push(SqeDesc {
                        op: SqeOp::AsyncCancel { target: canceller.index as u64 },
                        user_data: UNTRACKED_USER_DATA,
                    })
                } else {
                    final(self).staged@ == old(self).staged@
                }
            }),
    {
        if canceller.index < self.slots.len() {
            let live = match &self.slots[canceller.index] {
                Slot::Submitted(_) => true,
                Slot::Ignored(_) => true,
                _ => false,
            };
            if live {
                self.staged.push(SqeDesc {
                    op: SqeOp::AsyncCancel { target: canceller.index as u64 },
                    user_data: UNTRACKED_USER_DATA,
                });
            }
        }
    }

    /// Routes one kernel completion.  Untracked user data is skipped; a
    /// submitted slot arms and its waker (if any) is returned for
    /// scheduling; a detached slot is freed and its parked payload is
    /// released — only now may the buffer be freed.  Unknown user data or a
    /// duplicate completion is fatal: the runtime must abort.
    pub fn dispatch(&mut self, user_data: u64, result: i32, flags: u32) -> (r: Dispatch)
        ensures
            final(self).slots@.len() == old(self).slots@.len(),
            final(self).staged@ == old(self).staged@,
            final(self).capacity == old(self).capacity,
            user_data == UNTRACKED_USER_DATA ==> {
                &&& r is Untracked
                &&& *final(self) == *old(self)
            },
            user_data != UNTRACKED_USER_DATA && user_data >= old(self).slots@.len() ==> {
                &&& r is Fatal
                &&& *final(self) == *old(self)
            },
            user_data != UNTRACKED_USER_DATA && user_data < old(self).slots@.len() ==> {
                let i = user_data as int;
                &&& forall|j: int| 0 <= j < old(self).slots@.len() && j != i ==>
                    final(self).slot(j) == old(self).slot(j)
                &&& match old(self).slot(i) {
                    Slot::Free => r is Fatal && *final(self) == *old(self),
                    Slot::Armed(_) => r is Fatal && *final(self) == *old(self),
                    Slot::Submitted(w) => {
                        &&& final(self).slot(i) == Slot::Armed(meta_of(result, flags))
                        &&& match w {
                            Some(task) => r == Dispatch::Wake(task),
                            None => r is Stored,
                        }
                    },
                    Slot::Ignored(payload) => {
                        &&& final(self).slot(i) is Free
                        &&& (r matches Dispatch::Released(p) && p == payload)
                    },
                }
            },
    {
        if user_data == UNTRACKED_USER_DATA {
            return Dispatch::Untracked;
        }
        if user_data >= self.slots.len() as u64 {
            return Dispatch::Fatal;
        }
        let i = user_data as usize;
        let kind: u8 = match &self.slots[i] {
            Slot::Free => 0,
            Slot::Submitted(_) => 1,
            Slot::Armed(_) => 2,
            Slot::Ignored(_) => 3,
        };
        if kind == 1 {
            let errno = if result >= 0 {
                0i32
            } else if result == i32::MIN {
                i32::MAX
            } else {
                0 - result
            };
            let meta = CompletionMeta {
                result: if result >= 0 { Ok(result as u32) } else { Err(errno) },
                flags,
            };
            let prev = replace_slot(&mut self.slots, i, Slot::Armed(meta));
            match prev {
                Slot::Submitted(Some(task)) => Dispatch::Wake(task),
                Slot::Submitted(None) => Dispatch::Stored,
                _ => {
                    proof {
                        assert(false);
                    }
                    Dispatch::Fatal
                }
            }
        } else if kind == 3 {
            let prev = replace_slot(&mut self.slots, i, Slot::Free);
            match prev {
                Slot::Ignored(payload) => Dispatch::Released(payload),
                _ => {
                    proof {
                        assert(false);
                    }
                    Dispatch::Fatal
                }
            }
        } else {
            Dispatch::Fatal
        }
    }

    /// Hands the staged submission entries to the shell, which pushes them
    /// into the kernel ring.
    pub fn take_staged(&mut self) -> (r: Vec<SqeDesc>)
        ensures
            r@ == old(self).staged@,
            final(self).staged@.len() == 0,
            final(self).slots@ == old(self).slots@,
            final(self).capacity == old(self).capacity,
            UringInner::retains_ignored(*old(self), *final(self)),
    {
        let mut out: Vec<SqeDesc> = Vec::new();
        core::mem::swap(&mut out, &mut self.staged);
        out
    }
}

/// Swaps a new slot value in and hands the old one out.
fn replace_slot(slots: &mut Vec<Slot>, i: usize, new: Slot) -> (prev: Slot)
    requires
        i < old(slots)@.len(),
    ensures
        prev == old(slots)@[i as int],
        final(slots)@ == old(slots)@.update(i as int, new),
{
    let mut new = new;
    let r = &mut slots[i];
    core::mem::swap(r, &mut new);
    new
}

/// The table `post` extends `pre` by exactly one submission: `op` owns a
/// freshly submitted slot and the staged queue grew by one entry that
/// carries `op`'s slot index as user data and describes `want`.
pub open spec fn submitted_one(pre: UringInner, post: UringInner, op: Op, want: SqeOp) -> bool {
    &&& post.op_live(op)
    &&& post.slot(op.index as int) == Slot::Submitted(None::<u64>)
    &&& post.staged@.len() == pre.staged@.len() + 1
    &&& post.staged@.subrange(0, pre.staged@.len() as int) == pre.staged@
    &&& post.staged@.last().user_data == op.index as u64
    &&& sqe_eq(post.staged@.last().op, want)
    &&& post.capacity == pre.capacity
    &&& UringInner::retains_ignored(pre, post)
}

impl Op {
    /// The cancellation handle for this operation; usable across an await.
    pub fn op_canceller(&self) -> (r: OpCanceller)
        ensures
            r.index == self.index,
    {
        OpCanceller { index: self.index }
    }

    /// Accepts a connection on the shared descriptor; the payload keeps a
    /// clone of it alive for the lifetime of the operation.
    pub fn accept(inner: &mut UringInner, fd: SharedFd) -> (op: Op)
        ensures
            submitted_one(*old(inner), *final(inner), op, (SqeOp::Accept { fd: fd.raw })),
            op.data == Some(OpPayload::Accept((Accept { fd }))),
    {
        inner.submit_with_data(OpPayload::Accept(Accept { fd }))
    }

    /// Closes a raw descriptor.  Uses the non-backpressuring submission: a
    /// close runs while the runtime may be shutting down and must not wait
    /// for ring capacity.
    pub fn close(inner: &mut UringInner, fd: i32) -> (r: Result<Op, (OpError, OpPayload)>)
        ensures
            old(inner).staged@.len() >= old(inner).capacity ==> {
                &&& (r matches Err(e) && e.0 == OpError::SubmissionRejected
                    && e.1 == OpPayload::Close((Close { fd })))
                &&& *final(inner) == *old(inner)
            },
            old(inner).staged@.len() < old(inner).capacity ==> (r matches Ok(op)
                && submitted_one(*old(inner), *final(inner), op, (SqeOp::Close { fd }))
                && op.data == Some(OpPayload::Close((Close { fd })))),
            UringInner::retains_ignored(*old(inner), *final(inner)),
    {
        inner.try_submit_with_data(OpPayload::Close(Close { fd }))
    }

    /// Full file sync.
    pub fn fsync(inner: &mut UringInner, fd: SharedFd) -> (op: Op)
        ensures
            submitted_one(*old(inner), *final(inner), op,
                (SqeOp::Fsync { fd: fd.raw, data_sync: false })),
            op.data == Some(OpPayload::Fsync((Fsync { fd, data_sync: false }))),
    {
        inner.submit_with_data(OpPayload::Fsync(Fsync { fd, data_sync: false }))
    }

    /// Data-only sync.
    pub fn datasync(inner: &mut UringInner, fd: SharedFd) -> (op: Op)
        ensures
            submitted_one(*old(inner), *final(inner), op,
                (SqeOp::Fsync { fd: fd.raw, data_sync: true })),
            op.data == Some(OpPayload::Fsync((Fsync { fd, data_sync: true }))),
    {
        inner.submit_with_data(OpPayload::Fsync(Fsync { fd, data_sync: true }))
    }

    /// Opens a path with the given composed flags and creation mode.  A
    /// path with an interior NUL cannot be handed to the kernel as a C
    /// string and is rejected before anything is staged.
    pub fn open(inner: &mut UringInner, path: Vec<u8>, flags: i32, mode: u32)
        -> (r: Result<Op, OpError>)
        ensures
            (exists|i: int| 0 <= i < path@.len() && path@[i] == 0u8)
                <==> r == Result::<Op, OpError>::Err(OpError::InvalidArgument),
            r is Err ==> *final(inner) == *old(inner),
            r matches Ok(op) ==> (submitted_one(*old(inner), *final(inner), op,
                (SqeOp::OpenAt { dirfd: -100i32, path, flags, mode }))
                && op.data == Some(OpPayload::Open((Open { path, flags, mode })))),
    {
        let n = path.len();
        let mut i: usize = 0;
        while i < n
            invariant
                i <= n,
                n == path@.len(),
                forall|j: int| 0 <= j < i ==> path@[j] != 0u8,
            decreases n - i,
        {
            if path[i] == 0 {
                return Err(OpError::InvalidArgument);
            }
            i = i + 1;
        }
        Ok(inner.submit_with_data(OpPayload::Open(Open { path, flags, mode })))
    }

    /// Waits for read readiness.  `relaxed` only matters to readiness-based
    /// drivers and is accepted for interface parity.
    pub fn poll_read(inner: &mut UringInner, fd: SharedFd, relaxed: bool) -> (op: Op)
        ensures
            submitted_one(*old(inner), *final(inner), op,
                (SqeOp::PollAdd { fd: fd.raw, mask: 1u32 })),
            op.data == Some(OpPayload::PollAdd((PollAdd { fd, is_read: true }))),
    {
        let _ = relaxed;
        inner.submit_with_data(OpPayload::PollAdd(PollAdd { fd, is_read: true }))
    }

    /// Waits for write readiness.
    pub fn poll_write(inner: &mut UringInner, fd: SharedFd, relaxed: bool) -> (op: Op)
        ensures
            submitted_one(*old(inner), *final(inner), op,
                (SqeOp::PollAdd { fd: fd.raw, mask: 4u32 })),
            op.data == Some(OpPayload::PollAdd((PollAdd { fd, is_read: false }))),
    {
        let _ = relaxed;
        inner.submit_with_data(OpPayload::PollAdd(PollAdd { fd, is_read: false }))
    }

    /// Moves up to `len` bytes from a descriptor into a pipe.
    pub fn splice_to_pipe(inner: &mut UringInner, fd_in: SharedFd, fd_out: SharedFd, len: u32)
        -> (op: Op)
        ensures
            submitted_one(*old(inner), *final(inner), op, (SqeOp::Splice {
                fd_in: fd_in.raw,
                off_in: -1i64,
                fd_out: fd_out.raw,
                off_out: -1i64,
                len,
                flags: 1u32,
            })),
            op.data == Some(OpPayload::Splice((Splice {
                fd_in,
                fd_out,
                len,
                direction: SpliceDirection::ToPipe,
            }))),
    {
        inner.submit_with_data(OpPayload::Splice(Splice {
            fd_in,
            fd_out,
            len,
            direction: SpliceDirection::ToPipe,
        }))
    }

    /// Moves up to `len` bytes from a pipe into a descriptor.
    pub fn splice_from_pipe(inner: &mut UringInner, fd_in: SharedFd, fd_out: SharedFd, len: u32)
        -> (op: Op)
        ensures
            submitted_one(*old(inner), *final(inner), op, (SqeOp::Splice {
                fd_in: fd_in.raw,
                off_in: -1i64,
                fd_out: fd_out.raw,
                off_out: -1i64,
                len,
                flags: 1u32,
            })),
            op.data == Some(OpPayload::Splice((Splice {
                fd_in,
                fd_out,
                len,
                direction: SpliceDirection::FromPipe,
            }))),
    {
        inner.submit_with_data(OpPayload::Splice(Splice {
            fd_in,
            fd_out,
            len,
            direction: SpliceDirection::FromPipe,
        }))
    }
}

/// Retention composes: if two successive table transitions each keep every
/// parked payload in place, so does their composition.  Together with the
/// per-transition retention clauses this says that a dropped operation's
/// buffer survives any sequence of driver steps until the dispatcher
/// drains that very slot's completion.
pub proof fn lemma_retains_ignored_trans(a: UringInner, b: UringInner, c: UringInner)
    requires
        UringInner::retains_ignored(a, b),
        UringInner::retains_ignored(b, c),
    ensures
        UringInner::retains_ignored(a, c),
{
    assert forall|i: int| 0 <= i < a.slots@.len() && a.slot(i) is Ignored
        implies c.slot(i) == a.slot(i) by {
        assert(b.slot(i) == a.slot(i));
    }
}

} // verus!
