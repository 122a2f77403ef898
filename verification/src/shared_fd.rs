//! Reference-counted file descriptors with closure coordination.
//!
//! In-flight completion-based operations hold their own reference to the
//! descriptor; closing it before they drain would race with kernel writes
//! into user buffers.  The table below tracks, per descriptor, how many
//! clones are alive and where the descriptor is in its closing protocol,
//! and each transition says exactly when the one close submission happens.
//!
//! Shared ownership is modelled as an arena: every clone of a descriptor is
//! a [`SharedFd`] handle pointing at one [`FdTable`] entry that carries the
//! reference count and the close state.

use vstd::prelude::*;

verus! {

/// Where a shared descriptor is in its closing protocol.
#[derive(Clone, Copy, Debug, PartialEq, Eq, Structural)]
pub enum FdState {
    /// No close has been requested.
    Init,
    /// A close awaiter exists and waits for the remaining clones to drop;
    /// it may have registered a waker (a task id).
    Waiting(Option<u64>),
    /// The close submission has been emitted; the kernel confirmation is
    /// still outstanding.
    Closing,
    /// The kernel confirmed the close (or the fallback close ran).
    Closed,
}

/// One shared descriptor: the raw fd, how many clones are alive, its close
/// state, and whether a `close()` awaiter holds one of those clones.
pub struct FdEntry {
    pub fd: i32,
    pub refs: usize,
    pub state: FdState,
    pub close_requested: bool,
}

/// What the caller must carry out after a table transition.
#[derive(Clone, Copy, Debug, PartialEq, Eq, Structural)]
pub enum FdAction {
    /// Nothing to do.
    Nop,
    /// Submit a close operation for this raw fd (exactly one such action is
    /// ever emitted per descriptor).
    SubmitClose(i32),
    /// Submit a close operation and wake the stored close awaiter.
    SubmitCloseAndWake(i32, u64),
}

/// Outcome of polling the close awaiter.
#[derive(Clone, Copy, Debug, PartialEq, Eq, Structural)]
pub enum ClosePoll {
    Pending,
    Ready,
}

/// One clone of a shared descriptor.  Cloning and dropping go through the
/// [`FdTable`] so the reference count stays exact.
#[derive(Debug, PartialEq, Eq, Structural)]
pub struct SharedFd {
    pub idx: usize,
    pub raw: i32,
}

impl SharedFd {
    /// Returns the raw descriptor this handle shares.
    pub fn raw_fd(&self) -> (r: i32)
        ensures
            r == self.raw,
    {
        self.raw
    }
}

/// The arena of shared descriptors.
pub struct FdTable {
    pub entries: Vec<Option<FdEntry>>,
}

impl FdTable {
    /// A handle designates a live entry whose cached raw fd agrees with the
    /// table.
    pub open spec fn valid(&self, h: SharedFd) -> bool {
        &&& h.idx < self.entries@.len()
        &&& self.entries@[h.idx as int] is Some
        &&& self.entries@[h.idx as int]->Some_0.fd == h.raw
    }

    pub open spec fn entry(&self, i: int) -> FdEntry
        recommends
            0 <= i < self.entries@.len(),
            self.entries@[i] is Some,
    {
        self.entries@[i]->Some_0
    }

    /// Every live entry left the initial state exactly when a close was
    /// requested on it.
    pub open spec fn wf(&self) -> bool {
        forall|i: int| 0 <= i < self.entries@.len() && self.entries@[i] is Some ==> {
            let e = #[trigger] self.entries@[i]->Some_0;
            e.close_requested <==> !(e.state is Init)
        }
    }

    pub fn new() -> (r: FdTable)
        ensures
            r.entries@.len() == 0,
            r.wf(),
    {
        FdTable { entries: Vec::new() }
    }

    /// Constructs a shared descriptor from a raw fd: a fresh entry with a
    /// single clone in the initial state.
    pub fn register(&mut self, fd: i32) -> (h: SharedFd)
        requires
            old(self).wf(),
        ensures
            final(self).wf(),
            final(self).valid(h),
            h.raw == fd,
            h.idx == old(self).entries@.len(),
            final(self).entries@ == old(self).entries@.push(Some((FdEntry {
                fd,
                refs: 1,
                state: FdState::Init,
                close_requested: false,
            }))),
    {
        let h = SharedFd { idx: self.entries.len(), raw: fd };
        self.entries.push(Some(FdEntry {
            fd,
            refs: 1,
            state: FdState::Init,
            close_requested: false,
        }));
        h
    }

    /// A cheap clone: one more live reference to the same descriptor.
    pub fn clone_fd(&mut self, h: &SharedFd) -> (c: SharedFd)
        requires
            old(self).wf(),
            old(self).valid(*h),
            old(self).entry(h.idx as int).refs < usize::MAX,
        ensures
            final(self).wf(),
            final(self).valid(c),
            final(self).valid(*h),
            c.idx == h.idx,
            c.raw == h.raw,
            final(self).entry(h.idx as int) == (FdEntry {
                refs: (old(self).entry(h.idx as int).refs + 1) as usize,
                ..old(self).entry(h.idx as int)
            }),
            forall|j: int| 0 <= j < final(self).entries@.len() && j != h.idx ==>
                final(self).entries@[j] == old(self).entries@[j],
            final(self).entries@.len() == old(self).entries@.len(),
    {
        let entry = self.entries[h.idx].as_mut().unwrap();
        entry.refs = entry.refs + 1;
        SharedFd { idx: h.idx, raw: h.raw }
    }

    /// Consumes the sole clone and hands the raw fd back without closing it.
    /// With other clones alive the handle is returned unchanged.
    pub fn try_unwrap(&mut self, h: SharedFd) -> (r: Result<i32, SharedFd>)
        requires
            old(self).wf(),
            old(self).valid(h),
        ensures
            final(self).wf(),
            old(self).entry(h.idx as int).refs == 1 ==> {
                &&& r == Result::<i32, SharedFd>::Ok(h.raw)
                &&& final(self).entries@ == old(self).entries@.update(h.idx as int, None::<FdEntry>)
            },
            old(self).entry(h.idx as int).refs != 1 ==> {
                &&& r == Result::<i32, SharedFd>::Err(h)
                &&& final(self).entries@ == old(self).entries@
            },
    {
        let entry = self.entries[h.idx].as_ref().unwrap();
        if entry.refs == 1 {
            self.entries.set(h.idx, None);
            Ok(h.raw)
        } else {
            Err(h)
        }
    }
}

/// True for the actions that submit a close for the descriptor.
pub open spec fn emits_close(a: FdAction) -> bool {
    a is SubmitClose || a is SubmitCloseAndWake
}

/// What [`FdTable::close_begin`] does to one entry.
pub open spec fn close_begin_step(e: FdEntry) -> (FdEntry, FdAction) {
    if e.state is Init {
        if e.refs == 1 {
            (FdEntry { refs: 0, state: FdState::Closing, close_requested: true, ..e },
             FdAction::SubmitClose(e.fd))
        } else {
            (FdEntry { refs: (e.refs - 1) as usize, state: FdState::Waiting(None), close_requested: true, ..e },
             FdAction::Nop)
        }
    } else {
        (e, FdAction::Nop)
    }
}

/// What [`FdTable::release`] does to one entry.
pub open spec fn release_step(e: FdEntry) -> (FdEntry, FdAction) {
    if e.refs > 1 {
        (FdEntry { refs: (e.refs - 1) as usize, ..e }, FdAction::Nop)
    } else {
        match e.state {
            FdState::Init => (
                FdEntry { refs: 0, state: FdState::Closing, close_requested: true, ..e },
                FdAction::SubmitClose(e.fd),
            ),
            FdState::Waiting(w) => (
                FdEntry { refs: 0, state: FdState::Closing, ..e },
                match w {
                    Some(task) => FdAction::SubmitCloseAndWake(e.fd, task),
                    None => FdAction::SubmitClose(e.fd),
                },
            ),
            _ => (FdEntry { refs: 0, ..e }, FdAction::Nop),
        }
    }
}

impl FdTable {
    /// An fd cannot be closed until all in-flight operations on it have
    /// completed.  Consuming the last clone submits the close at once;
    /// otherwise the awaiter parks in `Waiting` and the last clone to drop
    /// submits the close on its behalf.
    pub fn close_begin(&mut self, h: SharedFd) -> (a: FdAction)
        requires
            old(self).wf(),
            old(self).valid(h),
            old(self).entry(h.idx as int).refs >= 1,
            !old(self).entry(h.idx as int).close_requested,
        ensures
            final(self).wf(),
            final(self).entries@.len() == old(self).entries@.len(),
            final(self).entries@[h.idx as int] == Some(close_begin_step(old(self).entry(h.idx as int)).0),
            a == close_begin_step(old(self).entry(h.idx as int)).1,
            forall|j: int| 0 <= j < final(self).entries@.len() && j != h.idx ==>
                final(self).entries@[j] == old(self).entries@[j],
    {
        let entry = self.entries[h.idx].as_mut().unwrap();
        if entry.refs == 1 {
            entry.refs = 0;
            entry.state = FdState::Closing;
            entry.close_requested = true;
            FdAction::SubmitClose(h.raw)
        } else {
            entry.refs = entry.refs - 1;
            entry.state = FdState::Waiting(None);
            entry.close_requested = true;
            FdAction::Nop
        }
    }

    /// Drops one clone.  The last clone to go either carries out the parked
    /// close request (waking the awaiter) or, when no close was ever
    /// requested, submits a best-effort close of its own.
    pub fn release(&mut self, h: SharedFd) -> (a: FdAction)
        requires
            old(self).wf(),
            old(self).valid(h),
            old(self).entry(h.idx as int).refs >= 1,
        ensures
            final(self).wf(),
            final(self).entries@.len() == old(self).entries@.len(),
            final(self).entries@[h.idx as int] == Some(release_step(old(self).entry(h.idx as int)).0),
            a == release_step(old(self).entry(h.idx as int)).1,
            forall|j: int| 0 <= j < final(self).entries@.len() && j != h.idx ==>
                final(self).entries@[j] == old(self).entries@[j],
    {
        let entry = self.entries[h.idx].as_mut().unwrap();
        if entry.refs > 1 {
            entry.refs = entry.refs - 1;
            FdAction::Nop
        } else {
            entry.refs = 0;
            match entry.state {
                FdState::Init => {
                    entry.state = FdState::Closing;
                    entry.close_requested = true;
                    FdAction::SubmitClose(h.raw)
                }
                FdState::Waiting(w) => {
                    entry.state = FdState::Closing;
                    match w {
                        Some(task) => FdAction::SubmitCloseAndWake(h.raw, task),
                        None => FdAction::SubmitClose(h.raw),
                    }
                }
                _ => FdAction::Nop,
            }
        }
    }

    /// One poll of the close awaiter.  `close_op_done` reports whether the
    /// close submission's kernel completion has been delivered.
    pub fn closed_poll(&mut self, idx: usize, waker: u64, close_op_done: bool) -> (p: ClosePoll)
        requires
            old(self).wf(),
            idx < old(self).entries@.len(),
            old(self).entries@[idx as int] is Some,
            old(self).entry(idx as int).close_requested,
        ensures
            final(self).wf(),
            final(self).entries@.len() == old(self).entries@.len(),
            forall|j: int| 0 <= j < final(self).entries@.len() && j != idx ==>
                final(self).entries@[j] == old(self).entries@[j],
            final(self).entries@[idx as int]
                == Some(closed_poll_step(old(self).entry(idx as int), waker, close_op_done)),
            p is Ready <==> closed_poll_step(old(self).entry(idx as int), waker, close_op_done)
                .state is Closed,
    {
        let entry = self.entries[idx].as_mut().unwrap();
        match entry.state {
            FdState::Init => {
                // Unreachable while `close_requested` holds; treated as a
                // fresh wait for totality of the match.
                entry.state = FdState::Waiting(Some(waker));
                ClosePoll::Pending
            }
            FdState::Waiting(_) => {
                entry.state = FdState::Waiting(Some(waker));
                ClosePoll::Pending
            }
            FdState::Closing => {
                if close_op_done {
                    entry.state = FdState::Closed;
                    ClosePoll::Ready
                } else {
                    ClosePoll::Pending
                }
            }
            FdState::Closed => ClosePoll::Ready,
        }
    }

    /// Records that the close submission could not be made and the caller
    /// fell back to an unprotected system close.
    pub fn mark_closed(&mut self, idx: usize)
        requires
            old(self).wf(),
            idx < old(self).entries@.len(),
            old(self).entries@[idx as int] is Some,
            old(self).entry(idx as int).state is Closing,
        ensures
            final(self).wf(),
            final(self).entries@.len() == old(self).entries@.len(),
            final(self).entries@[idx as int]
                == Some(mark_closed_step(old(self).entry(idx as int))),
            forall|j: int| 0 <= j < final(self).entries@.len() && j != idx ==>
                final(self).entries@[j] == old(self).entries@[j],
    {
        let entry = self.entries[idx].as_mut().unwrap();
        entry.state = FdState::Closed;
    }
}


/// What one poll of the close awaiter does to the entry (the poll result
/// itself is `Ready` exactly when the state comes out `Closed`).
pub open spec fn closed_poll_step(e: FdEntry, waker: u64, close_op_done: bool) -> FdEntry {
    match e.state {
        FdState::Init => FdEntry { state: FdState::Waiting(Some(waker)), ..e },
        FdState::Waiting(_) => FdEntry { state: FdState::Waiting(Some(waker)), ..e },
        FdState::Closing => if close_op_done {
            FdEntry { state: FdState::Closed, ..e }
        } else {
            e
        },
        FdState::Closed => e,
    }
}

/// What recording the fallback close does to the entry.
pub open spec fn mark_closed_step(e: FdEntry) -> FdEntry {
    FdEntry { state: FdState::Closed, ..e }
}

/// One step of the close protocol, as a caller can take it.
#[derive(Clone, Copy, Debug, PartialEq, Eq, Structural)]
pub enum FdStep {
    /// `close()` begins on one clone.
    Begin,
    /// One clone drops.
    Release,
    /// The close awaiter polls with this waker; the flag reports whether
    /// the close submission's completion has arrived.
    Poll(u64, bool),
    /// The fallback system close ran.
    MarkClosed,
}

/// The entry after a protocol step, with the action the step emits.
pub open spec fn fd_step(e: FdEntry, s: FdStep) -> (FdEntry, FdAction) {
    match s {
        FdStep::Begin => close_begin_step(e),
        FdStep::Release => release_step(e),
        FdStep::Poll(w, done) => (closed_poll_step(e, w, done), FdAction::Nop),
        FdStep::MarkClosed => (mark_closed_step(e), FdAction::Nop),
    }
}

/// How many close submissions a sequence of protocol steps emits, starting
/// from this entry.
pub open spec fn close_emissions(e: FdEntry, steps: Seq<FdStep>) -> nat
    decreases steps.len(),
{
    if steps.len() == 0 {
        0
    } else {
        let r = fd_step(e, steps[0]);
        (if emits_close(r.1) {
            1nat
        } else {
            0nat
        }) + close_emissions(r.0, steps.drop_first())
    }
}

/// The raw fd of a shared descriptor is closed at most once over its whole
/// life: along *any* sequence of protocol steps — closes beginning, clones
/// dropping, the awaiter polling, the fallback running — at most one close
/// is ever emitted, and none at all once the descriptor has reached
/// `Closing` or `Closed`.
pub proof fn lemma_close_once_on_any_trace(e: FdEntry, steps: Seq<FdStep>)
    ensures
        close_emissions(e, steps) <= 1,
        (e.state is Closing || e.state is Closed) ==> close_emissions(e, steps) == 0,
    decreases steps.len(),
{
    if steps.len() > 0 {
        let r = fd_step(e, steps[0]);
        lemma_close_exactly_once(e);
        lemma_close_once_on_any_trace(r.0, steps.drop_first());
        if e.state is Closing || e.state is Closed {
            assert(!emits_close(r.1));
            assert(r.0.state is Closing || r.0.state is Closed);
        } else if emits_close(r.1) {
            assert(r.0.state is Closing);
        }
    }
}

/// The raw fd of a shared descriptor is closed exactly once, and only once
/// no clone holds it any more.
///
/// Each transition of the table emits a close action only from a state in
/// which none was ever emitted (`Init` or `Waiting`, never `Closing` or
/// `Closed`), only when at most one clone remains (which that very
/// transition consumes), and it leaves the descriptor in `Closing`, from
/// which no transition emits again.  Along any sequence of transitions the
/// close is therefore submitted at most once, and only after the last clone
/// is released.
pub proof fn lemma_close_exactly_once(e: FdEntry)
    ensures
        emits_close(close_begin_step(e).1) ==> {
            &&& !(e.state is Closing) && !(e.state is Closed)
            &&& e.refs == 1
            &&& close_begin_step(e).0.state is Closing
            &&& close_begin_step(e).0.refs == 0
        },
        emits_close(release_step(e).1) ==> {
            &&& !(e.state is Closing) && !(e.state is Closed)
            &&& e.refs <= 1
            &&& release_step(e).0.state is Closing
            &&& release_step(e).0.refs == 0
        },
        (e.state is Closing || e.state is Closed) ==> {
            &&& !emits_close(close_begin_step(e).1)
            &&& !emits_close(release_step(e).1)
            &&& close_begin_step(e).0.state == e.state
            &&& release_step(e).0.state == e.state
        },
{
}

} // verus!
