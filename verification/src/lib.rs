//! Core of a thread-per-core, completion-based asynchronous I/O runtime.
//!
//! The crate verifies the decision logic of the runtime: the submission
//! descriptors each operation emits, the slot table that routes kernel
//! completions back to futures, the shared file-descriptor close protocol,
//! the hierarchical timer wheel, the cooperative FIFO scheduler, and the
//! runtime builder.  The kernel itself (ring setup, syscalls, socket I/O)
//! is driven by an unverified shell that feeds events into these state
//! machines and carries their decisions out.

pub mod builder;
pub mod cancel;
pub mod context;
pub mod driver;
pub mod error;
pub mod net;
pub mod op;
pub mod pipe;
pub mod scheduler;
pub mod shared_fd;
pub mod timer;
pub mod ucred;
pub mod uring;
