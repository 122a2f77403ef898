//! The driver facade and the traits the runtime is wired through.

use vstd::prelude::*;
use crate::error::OpError;
use crate::op::{OpAble, OpPayload};
use crate::uring::{Op, OpCanceller, OpPoll, Slot, UringInner};

verus! {

/// Unparks a runtime parked in the kernel from another thread.  The only
/// cross-thread interaction the runtime admits; implementations must be
/// thread-safe.
pub trait Unpark: Sync + Send + 'static {
    /// Makes the unpark token available, waking the parked thread.  The
    /// error is the OS error code of the wakeup transport.
    fn unpark(&self) -> Result<(), i32>;
}

/// The driver surface the runtime is built over.  Implementations flush
/// staged submissions into the kernel and drain completions; they report
/// failures as OS error codes.
pub trait Driver {
    /// Flushes the submission queue without sleeping.
    fn submit(&mut self) -> Result<(), i32>;

    /// Flushes, then sleeps in the kernel until at least one completion
    /// arrives, and drains all available completions.
    fn park(&mut self) -> Result<(), i32>;

    /// Like `park`, but wakes after at most `ms` milliseconds; zero must
    /// behave as `submit`.
    fn park_timeout(&mut self, ms: u64) -> Result<(), i32>;
}

/// The current driver's core, as handed to operations.
pub struct Inner {
    pub uring: UringInner,
}

impl Inner {
    /// Submits an operation through the slot table: a slot no undrained
    /// operation shares is claimed, the staged entry carries that slot's
    /// index as user data, and the payload stays pinned in the returned op.
    pub fn submit_with(&mut self, data: OpPayload) -> (op: Op)
        ensures
            final(self).uring.op_live(op),
            final(self).uring.slot(op.index as int) == Slot::Submitted(None::<u64>),
            op.data == Some(data),
            op.index < old(self).uring.slots@.len()
                ==> old(self).uring.slot(op.index as int) is Free,
            final(self).uring.staged@.len() == old(self).uring.staged@.len() + 1,
            final(self).uring.staged@.subrange(0, old(self).uring.staged@.len() as int)
                == old(self).uring.staged@,
            final(self).uring.staged@.last().user_data == op.index as u64,
            data.is_sqe(final(self).uring.staged@.last().op),
            forall|j: int| 0 <= j < old(self).uring.slots@.len() && j != op.index ==>
                final(self).uring.slot(j) == old(self).uring.slot(j),
            UringInner::retains_ignored(old(self).uring, final(self).uring),
    {
        self.uring.submit_with_data(data)
    }

    /// One poll of an in-flight operation: pending records the waker in
    /// the slot until the dispatcher arms it; once armed, the completion
    /// meta comes back together with the pinned payload and the slot frees.
    pub fn poll_op(&mut self, op: &mut Op, waker: u64) -> (r: OpPoll)
        requires
            old(self).uring.op_live(*old(op)),
        ensures
            UringInner::retains_ignored(old(self).uring, final(self).uring),
            forall|j: int| 0 <= j < old(self).uring.slots@.len() && j != old(op).index ==>
                final(self).uring.slot(j) == old(self).uring.slot(j),
            final(self).uring.staged@ == old(self).uring.staged@,
            old(self).uring.slot(old(op).index as int) is Submitted ==> {
                &&& r is Pending
                &&& final(self).uring.slot(old(op).index as int)
                    == Slot::Submitted(Some(waker))
                &&& *final(op) == *old(op)
                &&& final(self).uring.op_live(*final(op))
            },
            old(self).uring.slot(old(op).index as int) matches Slot::Armed(meta) ==> {
                &&& (r matches OpPoll::Ready(c) && c.meta == meta
                     && c.data == old(op).data->Some_0)
                &&& final(self).uring.slot(old(op).index as int) is Free
            },
    {
        self.uring.poll_op(op, waker)
    }

    /// Releases a dropped operation, parking its payload in the slot while
    /// the kernel still owes the completion.
    pub fn drop_op(&mut self, op: Op)
        requires
            old(self).uring.op_live(op),
        ensures
            UringInner::retains_ignored(old(self).uring, final(self).uring),
            old(self).uring.slot(op.index as int) is Submitted ==>
                final(self).uring.slot(op.index as int) == Slot::Ignored(
                    op.data->Some_0),
    {
        self.uring.drop_op(op)
    }

    /// Requests cancellation of the slot a canceller points at.  On a slot
    /// that is no longer in flight — completed, consumed, or never
    /// submitted — this is a no-op: no state changes and nothing is staged
    /// for the kernel.
    pub fn cancel_op(&mut self, canceller: OpCanceller)
        ensures
            final(self).uring.slots@ == old(self).uring.slots@,
            UringInner::retains_ignored(old(self).uring, final(self).uring),
            ({
                let live = canceller.index < old(self).uring.slots@.len()
                    && (old(self).uring.slot(canceller.index as int) is Submitted
                        || old(self).uring.slot(canceller.index as int) is Ignored);
                if live {
                    final(self).uring.staged@ == old(self).uring.staged@.push(
                        crate::op::SqeDesc {
                            op: crate::op::SqeOp::AsyncCancel {
                                target: canceller.index as u64,
                            },
                            user_data: crate::uring::UNTRACKED_USER_DATA,
                        })
                } else {
                    final(self).uring.staged@ == old(self).uring.staged@
                }
            }),
    {
        self.uring.cancel_op(canceller)
    }
}

/// Guards a cancellable operation before submission: an operation started
/// under an already-cancelled handle is never submitted; the payload is
/// handed straight back with the cancellation error.
pub fn start_cancelable(inner: &mut Inner, canceled: bool, data: OpPayload)
    -> (r: Result<Op, (OpError, OpPayload)>)
    ensures
        canceled ==> {
            &&& (r matches Err(e) && e.0 == OpError::Cancelled && e.1 == data)
            &&& *final(inner) == *old(inner)
        },
        !canceled ==> (r matches Ok(op) && final(inner).uring.op_live(op)
            && op.data == Some(data)),
        UringInner::retains_ignored(old(inner).uring, final(inner).uring),
{
    if canceled {
        Err((OpError::Cancelled, data))
    } else {
        Ok(inner.submit_with(data))
    }
}

} // verus!
