//! Cooperative cancellation of in-flight operations.
//!
//! A canceller is a flag plus the cancellation handle of the operation it
//! is associated with.  Cancelling hands that handle back so the driver
//! can submit the kernel cancel; an operation started under an
//! already-cancelled flag is never submitted at all (see
//! [`crate::driver::start_cancelable`]).

use vstd::prelude::*;
use crate::uring::OpCanceller;

verus! {

/// The shared state behind a canceller and its handles.
pub struct Canceller {
    pub canceled: bool,
    pub associated: Option<OpCanceller>,
}

impl Canceller {
    pub fn new() -> (r: Canceller)
        ensures
            !r.canceled,
            r.associated is None,
    {
        Canceller { canceled: false, associated: None }
    }

    /// Whether cancellation was signalled.
    pub fn canceled(&self) -> (r: bool)
        ensures
            r == self.canceled,
    {
        self.canceled
    }

    /// Signals cancellation.  The handle of the associated operation, if
    /// one is live, is handed back so the caller can submit its kernel
    /// cancel.
    pub fn cancel(&mut self) -> (r: Option<OpCanceller>)
        ensures
            final(self).canceled,
            r == old(self).associated,
            final(self).associated is None,
    {
        self.canceled = true;
        self.associated.take()
    }

    /// Associates a live operation with this canceller.  If cancellation
    /// was already signalled the handle is returned at once, so the caller
    /// submits the kernel cancel without waiting for another signal.
    pub fn associate_op(&mut self, c: OpCanceller) -> (r: Option<OpCanceller>)
        ensures
            final(self).canceled == old(self).canceled,
            old(self).canceled ==> (r == Some(c) && final(self).associated == old(self).associated),
            !old(self).canceled ==> (r is None && final(self).associated == Some(c)),
    {
        if self.canceled {
            Some(c)
        } else {
            self.associated = Some(c);
            None
        }
    }

    /// Drops the association when the operation completes or its guard is
    /// released.
    pub fn clear_op(&mut self)
        ensures
            final(self).canceled == old(self).canceled,
            final(self).associated is None,
    {
        self.associated = None;
    }
}

} // verus!
