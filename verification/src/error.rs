//! Error model of the runtime.

use vstd::prelude::*;

verus! {

/// Why a runtime operation failed.
///
/// Submission failures surface synchronously at the submission call site;
/// completion failures surface at the await point of the corresponding op.
#[derive(Clone, Copy, Debug, PartialEq, Eq, Structural)]
pub enum OpError {
    /// The submission ring is saturated and a non-blocking submission was
    /// requested.
    SubmissionRejected,
    /// The kernel delivered a negative completion result; the payload is the
    /// OS error code.
    KernelCompletion(i32),
    /// The operation was cancelled by the user or by dropping its future.
    Cancelled,
    /// An argument was rejected before submission (empty address resolution,
    /// unsupported option).
    InvalidArgument,
    /// No slot, descriptor or timer could be allocated.
    ResourceExhausted,
}

} // verus!
