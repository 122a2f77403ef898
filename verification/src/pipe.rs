//! Unix pipes over shared descriptors.

use vstd::prelude::*;
use crate::shared_fd::{FdTable, SharedFd};

verus! {

/// One end of a Unix pipe.
pub struct Pipe {
    pub fd: SharedFd,
}

impl Pipe {
    /// Wraps an existing shared descriptor.
    pub fn from_shared_fd(fd: SharedFd) -> (r: Pipe)
        ensures
            r.fd == fd,
    {
        Pipe { fd }
    }

    /// Registers a raw descriptor — one end of a freshly created pipe — and
    /// wraps it.
    pub fn from_raw(table: &mut FdTable, fd: i32) -> (r: Pipe)
        requires
            old(table).wf(),
        ensures
            final(table).wf(),
            final(table).valid(r.fd),
            r.fd.raw == fd,
    {
        Pipe { fd: table.register(fd) }
    }
}

} // verus!
