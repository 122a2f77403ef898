//! The per-runtime context: what the thread-local slot of a running
//! runtime holds, and the generator of the unique thread ids runtimes are
//! bound to.  The shell installs a context for the lifetime of each
//! runtime it drives; the library fixes what the context records.

use vstd::prelude::*;
use crate::builder::BlockingHandle;
use crate::error::OpError;

verus! {

/// What a running runtime keeps in its thread-local slot: the id of the
/// thread it is bound to, whether a timer driver is wired in, and how
/// blocking work is handled.
#[derive(Clone, Copy, Debug, PartialEq, Eq, Structural)]
pub struct Context {
    pub thread_id: u64,
    pub timer_enabled: bool,
    pub blocking: BlockingHandle,
}

impl Context {
    pub fn new(thread_id: u64, timer_enabled: bool, blocking: BlockingHandle) -> (r: Context)
        ensures
            r == (Context { thread_id, timer_enabled, blocking }),
    {
        Context { thread_id, timer_enabled, blocking }
    }
}

/// Hands out the unique thread ids runtimes are built under: every id is
/// issued once, in order, and issuing fails exactly when they are spent.
pub struct ThreadIdGen {
    pub next: u64,
}

impl ThreadIdGen {
    pub fn new() -> (r: ThreadIdGen)
        ensures
            r.next == 0,
    {
        ThreadIdGen { next: 0 }
    }

    /// A fresh id, never issued before by this generator.
    pub fn fresh_id(&mut self) -> (r: Result<u64, OpError>)
        ensures
            old(self).next == u64::MAX <==> r == Result::<u64, OpError>::Err(
                OpError::ResourceExhausted),
            r is Err ==> *final(self) == *old(self),
            r matches Ok(id) ==> (id == old(self).next
                && final(self).next == old(self).next + 1),
    {
        if self.next == u64::MAX {
            return Err(OpError::ResourceExhausted);
        }
        let id = self.next;
        self.next = id + 1;
        Ok(id)
    }
}

} // verus!
