//! Submission descriptors: what each operation asks the kernel to do.
//!
//! Every operation payload implements [`OpAble`], which emits one
//! [`SqeOp`]: a plain-value picture of the kernel submission entry.  The
//! driver attaches the completion-slot index as user data and the
//! unverified shell materialises the descriptor into a real ring entry
//! (adding the pointers into caller-owned buffers where one is needed).

use vstd::prelude::*;
use crate::shared_fd::SharedFd;

verus! {

/// Relies on `libc::POLLIN`: readable-readiness mask, `0x1` on Linux.
#[verifier::external_body]
pub(crate) fn poll_in_mask() -> (r: u32)
    ensures
        r == 1u32,
{
    libc::POLLIN as u32
}

/// Relies on `libc::POLLOUT`: writable-readiness mask, `0x4` on Linux.
#[verifier::external_body]
pub(crate) fn poll_out_mask() -> (r: u32)
    ensures
        r == 4u32,
{
    libc::POLLOUT as u32
}

/// Relies on `libc::SPLICE_F_MOVE`: the move hint for `splice(2)`, `0x01`
/// on Linux.
#[verifier::external_body]
pub(crate) fn splice_move_flag() -> (r: u32)
    ensures
        r == 1u32,
{
    libc::SPLICE_F_MOVE
}

/// Relies on `libc::AT_FDCWD`: the pseudo-descriptor for the current
/// working directory, `-100` on Linux.
#[verifier::external_body]
pub(crate) fn at_fdcwd() -> (r: i32)
    ensures
        r == -100i32,
{
    libc::AT_FDCWD
}

/// Relies on `libc::O_ACCMODE`: the access-mode mask of the open flags,
/// `3` on the gnu targets this crate builds for (musl widens the mask with
/// `O_SEARCH`/`O_EXEC` bits).
#[verifier::external_body]
pub(crate) fn access_mode_mask() -> (r: i32)
    ensures
        r == 3i32,
{
    libc::O_ACCMODE
}

/// A submission descriptor as plain values.  Offsets of `-1` mean "no
/// offset" to the kernel, as with `splice(2)`.
#[derive(Clone, Debug)]
pub enum SqeOp {
    /// Accept a connection; the shell supplies the address-storage buffer.
    Accept { fd: i32 },
    /// Close a raw descriptor.
    Close { fd: i32 },
    /// Sync a file, optionally with data-sync-only semantics.
    Fsync { fd: i32, data_sync: bool },
    /// Open a path relative to `dirfd`; the shell materialises the path
    /// bytes as a C string.
    OpenAt { dirfd: i32, path: Vec<u8>, flags: i32, mode: u32 },
    /// Wait for readiness with the given poll mask.
    PollAdd { fd: i32, mask: u32 },
    /// Move up to `len` bytes between two descriptors.
    Splice { fd_in: i32, off_in: i64, fd_out: i32, off_out: i64, len: u32, flags: u32 },
    /// Ask the kernel to cancel the in-flight submission whose user data is
    /// `target`.
    AsyncCancel { target: u64 },
}

/// Descriptor equality up to the view of the path bytes.
pub open spec fn sqe_eq(a: SqeOp, b: SqeOp) -> bool {
    match (a, b) {
        (SqeOp::OpenAt { dirfd: d1, path: p1, flags: f1, mode: m1 },
         SqeOp::OpenAt { dirfd: d2, path: p2, flags: f2, mode: m2 }) => {
            d1 == d2 && p1@ == p2@ && f1 == f2 && m1 == m2
        },
        _ => a == b,
    }
}

/// A descriptor paired with the user data that routes its completion back
/// to a slot.
#[derive(Clone, Debug)]
pub struct SqeDesc {
    pub op: SqeOp,
    pub user_data: u64,
}

/// An operation payload that can emit one kernel submission descriptor.
pub trait OpAble: Sized {
    /// Whether `r` is the descriptor this payload stands for.
    spec fn is_sqe(&self, r: SqeOp) -> bool;

    /// Emits the submission descriptor.
    fn uring_op(&self) -> (r: SqeOp)
        ensures
            self.is_sqe(r),
    ;
}

/// Accept: holds a clone of the listening descriptor so it cannot be
/// closed while the accept is in flight.
pub struct Accept {
    pub fd: SharedFd,
}

impl OpAble for Accept {
    open spec fn is_sqe(&self, r: SqeOp) -> bool {
        r == (SqeOp::Accept { fd: self.fd.raw })
    }

    fn uring_op(&self) -> (r: SqeOp) {
        SqeOp::Accept { fd: self.fd.raw_fd() }
    }
}

/// Close: owns only the raw fd; a close must not pin the shared handle it
/// is tearing down.
pub struct Close {
    pub fd: i32,
}

impl OpAble for Close {
    open spec fn is_sqe(&self, r: SqeOp) -> bool {
        r == (SqeOp::Close { fd: self.fd })
    }

    fn uring_op(&self) -> (r: SqeOp) {
        SqeOp::Close { fd: self.fd }
    }
}

/// Fsync, with optional data-sync-only semantics.
pub struct Fsync {
    pub fd: SharedFd,
    pub data_sync: bool,
}

impl OpAble for Fsync {
    open spec fn is_sqe(&self, r: SqeOp) -> bool {
        r == (SqeOp::Fsync { fd: self.fd.raw, data_sync: self.data_sync })
    }

    fn uring_op(&self) -> (r: SqeOp) {
        SqeOp::Fsync { fd: self.fd.raw_fd(), data_sync: self.data_sync }
    }
}

/// Open a file for the given composed flags and creation mode.
pub struct Open {
    pub path: Vec<u8>,
    pub flags: i32,
    pub mode: u32,
}

impl OpAble for Open {
    open spec fn is_sqe(&self, r: SqeOp) -> bool {
        match r {
            SqeOp::OpenAt { dirfd, path, flags, mode } => {
                &&& dirfd == -100
                &&& path@ == self.path@
                &&& flags == self.flags
                &&& mode == self.mode
            },
            _ => false,
        }
    }

    fn uring_op(&self) -> (r: SqeOp) {
        SqeOp::OpenAt {
            dirfd: at_fdcwd(),
            path: self.path.clone(),
            flags: self.flags,
            mode: self.mode,
        }
    }
}

/// Composes the flags an open submission carries: close-on-exec, the access
/// mode, the creation mode, and the caller's custom flags with the
/// access-mode bits masked out.
pub fn open_flags(cloexec: i32, access_mode: i32, creation_mode: i32, custom_flags: i32) -> (r: i32)
    ensures
        r == (cloexec | access_mode | creation_mode | (custom_flags & !3i32)),
{
    let mask = access_mode_mask();
    cloexec | access_mode | creation_mode | (custom_flags & !mask)
}

/// Readiness poll; `is_read` selects the readable mask, otherwise the
/// writable one.
pub struct PollAdd {
    pub fd: SharedFd,
    pub is_read: bool,
}

impl OpAble for PollAdd {
    open spec fn is_sqe(&self, r: SqeOp) -> bool {
        r == (SqeOp::PollAdd { fd: self.fd.raw, mask: if self.is_read { 1u32 } else { 4u32 } })
    }

    fn uring_op(&self) -> (r: SqeOp) {
        let mask = if self.is_read {
            poll_in_mask()
        } else {
            poll_out_mask()
        };
        SqeOp::PollAdd { fd: self.fd.raw_fd(), mask }
    }
}

/// Which way a splice moves data relative to the pipe.
#[derive(Clone, Copy, Debug, PartialEq, Eq, Structural)]
pub enum SpliceDirection {
    FromPipe,
    ToPipe,
}

/// Splice between two descriptors, without offsets.
pub struct Splice {
    pub fd_in: SharedFd,
    pub fd_out: SharedFd,
    pub len: u32,
    pub direction: SpliceDirection,
}

impl OpAble for Splice {
    open spec fn is_sqe(&self, r: SqeOp) -> bool {
        r == (SqeOp::Splice {
            fd_in: self.fd_in.raw,
            off_in: -1i64,
            fd_out: self.fd_out.raw,
            off_out: -1i64,
            len: self.len,
            flags: 1u32,
        })
    }

    fn uring_op(&self) -> (r: SqeOp) {
        SqeOp::Splice {
            fd_in: self.fd_in.raw_fd(),
            off_in: -1,
            fd_out: self.fd_out.raw_fd(),
            off_out: -1,
            len: self.len,
            flags: splice_move_flag(),
        }
    }
}

/// The payloads the driver can hold in a slot while a dropped operation
/// waits for its kernel completion to drain.
pub enum OpPayload {
    Accept(Accept),
    Close(Close),
    Fsync(Fsync),
    Open(Open),
    PollAdd(PollAdd),
    Splice(Splice),
}

impl OpAble for OpPayload {
    open spec fn is_sqe(&self, r: SqeOp) -> bool {
        match self {
            OpPayload::Accept(p) => p.is_sqe(r),
            OpPayload::Close(p) => p.is_sqe(r),
            OpPayload::Fsync(p) => p.is_sqe(r),
            OpPayload::Open(p) => p.is_sqe(r),
            OpPayload::PollAdd(p) => p.is_sqe(r),
            OpPayload::Splice(p) => p.is_sqe(r),
        }
    }

    fn uring_op(&self) -> (r: SqeOp) {
        match self {
            OpPayload::Accept(p) => p.uring_op(),
            OpPayload::Close(p) => p.uring_op(),
            OpPayload::Fsync(p) => p.uring_op(),
            OpPayload::Open(p) => p.uring_op(),
            OpPayload::PollAdd(p) => p.uring_op(),
            OpPayload::Splice(p) => p.uring_op(),
        }
    }
}


/// Declares the ring-entry type of the submission queue so verified
/// signatures can carry it; its contents stay opaque.
#[verifier::external_type_specification]
#[verifier::external_body]
pub struct ExSqueueEntry(io_uring::squeue::Entry);

/// The ring entry a close submission builds, as a function of the raw fd
/// and the user data alone.
pub uninterp spec fn close_ring_entry(fd: i32, user_data: u64) -> io_uring::squeue::Entry;

/// The ring entry a full fsync builds.
pub uninterp spec fn fsync_ring_entry(fd: i32, user_data: u64) -> io_uring::squeue::Entry;

/// The ring entry a data-only sync builds.
pub uninterp spec fn datasync_ring_entry(fd: i32, user_data: u64) -> io_uring::squeue::Entry;

/// The ring entry a readiness poll builds.
pub uninterp spec fn poll_ring_entry(fd: i32, mask: u32, user_data: u64) -> io_uring::squeue::Entry;

/// The ring entry an offsetless splice builds.
pub uninterp spec fn splice_ring_entry(fd_in: i32, fd_out: i32, len: u32, flags: u32, user_data: u64) -> io_uring::squeue::Entry;

/// The ring entry an asynchronous cancel builds.
pub uninterp spec fn cancel_ring_entry(target: u64, user_data: u64) -> io_uring::squeue::Entry;

/// Relies on `io_uring::opcode::Close`: builds the close entry for this fd
/// carrying this user data; the result depends on the arguments alone.
#[verifier::external_body]
fn close_sqe(fd: i32, user_data: u64) -> (r: io_uring::squeue::Entry)
    ensures
        r == close_ring_entry(fd, user_data),
{
    io_uring::opcode::Close::new(io_uring::types::Fd(fd)).build().user_data(user_data)
}

/// Relies on `io_uring::opcode::Fsync`: builds the full-sync entry.
#[verifier::external_body]
fn fsync_sqe(fd: i32, user_data: u64) -> (r: io_uring::squeue::Entry)
    ensures
        r == fsync_ring_entry(fd, user_data),
{
    io_uring::opcode::Fsync::new(io_uring::types::Fd(fd)).build().user_data(user_data)
}

/// Relies on `io_uring::opcode::Fsync` with `FsyncFlags::DATASYNC`: builds
/// the data-only sync entry.
#[verifier::external_body]
fn datasync_sqe(fd: i32, user_data: u64) -> (r: io_uring::squeue::Entry)
    ensures
        r == datasync_ring_entry(fd, user_data),
{
    io_uring::opcode::Fsync::new(io_uring::types::Fd(fd))
        .flags(io_uring::types::FsyncFlags::DATASYNC)
        .build()
        .user_data(user_data)
}

/// Relies on `io_uring::opcode::PollAdd`: builds the readiness-poll entry
/// for this mask.
#[verifier::external_body]
fn poll_sqe(fd: i32, mask: u32, user_data: u64) -> (r: io_uring::squeue::Entry)
    ensures
        r == poll_ring_entry(fd, mask, user_data),
{
    io_uring::opcode::PollAdd::new(io_uring::types::Fd(fd), mask).build().user_data(user_data)
}

/// Relies on `io_uring::opcode::Splice`: builds the offsetless splice
/// entry.
#[verifier::external_body]
fn splice_sqe(fd_in: i32, fd_out: i32, len: u32, flags: u32, user_data: u64)
    -> (r: io_uring::squeue::Entry)
    ensures
        r == splice_ring_entry(fd_in, fd_out, len, flags, user_data),
{
    io_uring::opcode::Splice::new(
        io_uring::types::Fd(fd_in),
        -1,
        io_uring::types::Fd(fd_out),
        -1,
        len,
    )
    .flags(flags)
    .build()
    .user_data(user_data)
}

/// Relies on `io_uring::opcode::AsyncCancel`: builds the entry that cancels
/// the in-flight submission whose user data is `target`.
#[verifier::external_body]
fn cancel_sqe(target: u64, user_data: u64) -> (r: io_uring::squeue::Entry)
    ensures
        r == cancel_ring_entry(target, user_data),
{
    io_uring::opcode::AsyncCancel::new(target).build().user_data(user_data)
}

/// The real ring entry a staged descriptor materialises as, for the
/// submissions that carry no pointer into caller-owned memory.
pub open spec fn ring_entry_of(desc: SqeDesc) -> Option<io_uring::squeue::Entry> {
    match desc.op {
        SqeOp::Close { fd } => Some(close_ring_entry(fd, desc.user_data)),
        SqeOp::Fsync { fd, data_sync } => {
            if data_sync {
                Some(datasync_ring_entry(fd, desc.user_data))
            } else {
                Some(fsync_ring_entry(fd, desc.user_data))
            }
        },
        SqeOp::PollAdd { fd, mask } => Some(poll_ring_entry(fd, mask, desc.user_data)),
        SqeOp::Splice { fd_in, fd_out, len, flags, .. } => Some(splice_ring_entry(
            fd_in,
            fd_out,
            len,
            flags,
            desc.user_data,
        )),
        SqeOp::AsyncCancel { target } => Some(cancel_ring_entry(target, desc.user_data)),
        _ => None,
    }
}

/// Materialises a staged descriptor as a real ring entry where no pointer
/// into caller-owned memory is needed; an accept or open returns `None`
/// and the shell builds its entry around the buffer it owns.
pub fn to_ring_entry(desc: &SqeDesc) -> (r: Option<io_uring::squeue::Entry>)
    ensures
        r == ring_entry_of(*desc),
{
    match &desc.op {
        SqeOp::Close { fd } => Some(close_sqe(*fd, desc.user_data)),
        SqeOp::Fsync { fd, data_sync } => {
            if *data_sync {
                Some(datasync_sqe(*fd, desc.user_data))
            } else {
                Some(fsync_sqe(*fd, desc.user_data))
            }
        }
        SqeOp::PollAdd { fd, mask } => Some(poll_sqe(*fd, *mask, desc.user_data)),
        SqeOp::Splice { fd_in, fd_out, len, flags, .. } => {
            Some(splice_sqe(*fd_in, *fd_out, *len, *flags, desc.user_data))
        }
        SqeOp::AsyncCancel { target } => Some(cancel_sqe(*target, desc.user_data)),
        _ => None,
    }
}

} // verus!
