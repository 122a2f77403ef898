//! The runtime builder: ring capacity, blocking policy, and the timer
//! type-state.

use vstd::prelude::*;
use core::marker::PhantomData;
use crate::timer::TimeDriver;

verus! {

/// The smallest submission-ring capacity the builder accepts.
pub const MIN_ENTRIES: u32 = 256;

/// The ring capacity used when none was configured.
pub const DEFAULT_ENTRIES: u32 = 1024;

/// What to do with blocking work handed to the runtime.
#[derive(Clone, Copy, Debug, PartialEq, Eq, Structural)]
pub enum BlockingStrategy {
    /// Reject blocking work (the default).
    Panic,
    /// Run it inline on the runtime thread, accepting the latency.
    ExecuteLocal,
}

/// How blocking work is carried out: by a strategy on this thread, or by
/// an externally attached thread pool.
#[derive(Clone, Copy, Debug, PartialEq, Eq, Structural)]
pub enum BlockingHandle {
    Empty(BlockingStrategy),
    /// An external pool is attached; the pool itself lives with the shell
    /// that drives the runtime.
    Attached,
}

/// Marker for the drivers a timer driver can wrap.
pub trait TimeWrapable {}

/// Configures a runtime over the driver type `D`.
pub struct RuntimeBuilder<D> {
    pub entries: Option<u32>,
    pub blocking: BlockingHandle,
    pub mark: PhantomData<D>,
}

impl<D> RuntimeBuilder<D> {
    /// A builder with no capacity set and blocking work rejected.
    pub fn new() -> (r: RuntimeBuilder<D>)
        ensures
            r.entries is None,
            r.blocking == BlockingHandle::Empty(BlockingStrategy::Panic),
    {
        RuntimeBuilder { entries: None, blocking: BlockingHandle::Empty(BlockingStrategy::Panic), mark: PhantomData }
    }

    /// Sets the submission-ring capacity; anything below the minimum is
    /// raised to it.
    pub fn with_entries(self, entries: u32) -> (r: RuntimeBuilder<D>)
        ensures
            r.entries == Some(if entries < MIN_ENTRIES {
                MIN_ENTRIES
            } else {
                entries
            }),
            r.blocking == self.blocking,
    {
        if entries < MIN_ENTRIES {
            RuntimeBuilder { entries: Some(MIN_ENTRIES), ..self }
        } else {
            RuntimeBuilder { entries: Some(entries), ..self }
        }
    }

    /// The ring capacity the built driver uses: what was configured, or the
    /// default.
    pub fn effective_entries(&self) -> (r: u32)
        ensures
            r == (match self.entries {
                Some(e) => e,
                None => DEFAULT_ENTRIES,
            }),
            self.entries is Some ==> r == self.entries->Some_0,
            self.entries is None ==> r == DEFAULT_ENTRIES,
    {
        match self.entries {
            Some(e) => e,
            None => DEFAULT_ENTRIES,
        }
    }

    /// Sets the blocking strategy, overwriting any attached pool.
    pub fn with_blocking_strategy(self, strategy: BlockingStrategy) -> (r: RuntimeBuilder<D>)
        ensures
            r.entries == self.entries,
            r.blocking == BlockingHandle::Empty(strategy),
    {
        RuntimeBuilder { blocking: BlockingHandle::Empty(strategy), ..self }
    }

    /// Attaches an external thread pool, overwriting the blocking strategy.
    /// The pool itself is held by the shell; the builder records only that
    /// one is attached.
    pub fn attach_thread_pool(self) -> (r: RuntimeBuilder<D>)
        ensures
            r.entries == self.entries,
            r.blocking == BlockingHandle::Attached,
    {
        RuntimeBuilder { blocking: BlockingHandle::Attached, ..self }
    }
}

impl<D> Default for RuntimeBuilder<D> {
    /// Same as [`RuntimeBuilder::new`].
    fn default() -> (r: RuntimeBuilder<D>)
        ensures
            r.entries is None,
            r.blocking == BlockingHandle::Empty(BlockingStrategy::Panic),
    {
        RuntimeBuilder::new()
    }
}

impl<D: TimeWrapable> RuntimeBuilder<D> {
    /// Wraps the configured driver with the timer driver; the
    /// configuration carries over unchanged.
    pub fn enable_timer(self) -> (r: RuntimeBuilder<TimeDriver<D>>)
        ensures
            r.entries == self.entries,
            r.blocking == self.blocking,
    {
        let RuntimeBuilder { entries, blocking, mark: _ } = self;
        RuntimeBuilder { entries, blocking, mark: PhantomData }
    }

    /// Enables every optional capability; currently that is the timer.
    pub fn enable_all(self) -> (r: RuntimeBuilder<TimeDriver<D>>)
        ensures
            r.entries == self.entries,
            r.blocking == self.blocking,
    {
        self.enable_timer()
    }
}

} // verus!
