use snowfallio::builder::{BlockingHandle, BlockingStrategy, RuntimeBuilder};
use snowfallio::context::{Context, ThreadIdGen};
use snowfallio::cancel::Canceller;
use snowfallio::error::OpError;
use snowfallio::net::{first_addr, keepalive_config, socket_domain, SockAddr, StreamMeta};
use snowfallio::pipe::Pipe;
use snowfallio::shared_fd::FdTable;
use snowfallio::ucred::peer_cred_from_raw;
use snowfallio::uring::OpCanceller;

struct FakeDriver;

impl snowfallio::builder::TimeWrapable for FakeDriver {}

#[test]
fn builder_clamps_entries() {
    let b: RuntimeBuilder<FakeDriver> = RuntimeBuilder::new();
    assert_eq!(b.effective_entries(), 1024);
    let b = b.with_entries(255);
    assert_eq!(b.entries, Some(256));
    let b = b.with_entries(100);
    assert_eq!(b.effective_entries(), 256);
    let b = b.with_entries(4096);
    assert_eq!(b.effective_entries(), 4096);
}

#[test]
fn builder_timer_wrap_keeps_config() {
    let b: RuntimeBuilder<FakeDriver> = RuntimeBuilder::new()
        .with_entries(512)
        .with_blocking_strategy(BlockingStrategy::ExecuteLocal);
    let b = b.enable_all();
    assert_eq!(b.entries, Some(512));
    assert_eq!(b.blocking, BlockingHandle::Empty(BlockingStrategy::ExecuteLocal));
}

#[test]
fn builder_blocking_options() {
    let b: RuntimeBuilder<FakeDriver> = RuntimeBuilder::new();
    assert_eq!(b.blocking, BlockingHandle::Empty(BlockingStrategy::Panic));
    let b = b.attach_thread_pool();
    assert_eq!(b.blocking, BlockingHandle::Attached);
    let b = b.with_blocking_strategy(BlockingStrategy::Panic);
    assert_eq!(b.blocking, BlockingHandle::Empty(BlockingStrategy::Panic));
}

#[test]
fn domains_match_the_platform() {
    let v4 = SockAddr::V4 { ip: [127, 0, 0, 1], port: 80 };
    let v6 = SockAddr::V6 { ip: [0; 16], port: 80, flowinfo: 0, scope_id: 0 };
    assert_eq!(socket_domain(&v4), libc::AF_INET);
    assert_eq!(socket_domain(&v6), libc::AF_INET6);
}

#[test]
fn empty_resolution_is_rejected() {
    let none: Vec<SockAddr> = Vec::new();
    assert_eq!(first_addr(&none), Err(OpError::InvalidArgument));
    let v4 = SockAddr::V4 { ip: [127, 0, 0, 1], port: 80 };
    let v6 = SockAddr::V6 { ip: [0; 16], port: 81, flowinfo: 0, scope_id: 0 };
    let some = vec![v4, v6];
    assert_eq!(first_addr(&some), Ok(v4));
}

#[test]
fn stream_meta_caches_first_success() {
    let mut m = StreamMeta::new();
    let addr = SockAddr::V4 { ip: [127, 0, 0, 1], port: 4242 };
    // A failed lookup is not cached.
    assert_eq!(m.local_addr(Err(111)), Err(111));
    assert_eq!(m.local, None);
    // The first success is cached.
    assert_eq!(m.local_addr(Ok(addr)), Ok(addr));
    // Later lookups are ignored: the cache never mutates again.
    let other = SockAddr::V4 { ip: [10, 0, 0, 1], port: 1 };
    assert_eq!(m.local_addr(Ok(other)), Ok(addr));
    assert_eq!(m.local_addr(Err(1)), Ok(addr));
    // The peer side is independent.
    assert_eq!(m.peer_addr(Ok(other)), Ok(other));
    assert_eq!(m.peer_addr(Ok(addr)), Ok(other));
}

#[test]
fn keepalive_config_builds() {
    // Applies each configured option; only type-level behaviour is
    // observable here, the socket update happens in the shell.
    let _k = keepalive_config(Some(7000), Some(1000), Some(3));
    let _k = keepalive_config(None, None, None);
}

#[test]
fn peer_cred_accepts_only_exact_replies() {
    let c = peer_cred_from_raw(0, 12, 12, 1000, 100, 4242).unwrap();
    assert_eq!(c.uid(), 1000);
    assert_eq!(c.gid(), 100);
    assert_eq!(c.pid(), Some(4242));
    assert!(peer_cred_from_raw(-1, 12, 12, 1000, 100, 4242).is_none());
    assert!(peer_cred_from_raw(0, 8, 12, 1000, 100, 4242).is_none());
}

#[test]
fn canceller_associates_and_cancels() {
    let mut c = Canceller::new();
    assert!(!c.canceled());
    // Associating before cancellation parks the handle.
    assert_eq!(c.associate_op(OpCanceller { index: 3 }), None);
    // Cancelling returns it so the kernel cancel can be submitted.
    assert_eq!(c.cancel(), Some(OpCanceller { index: 3 }));
    assert!(c.canceled());
    // An association after cancellation is bounced back at once.
    assert_eq!(c.associate_op(OpCanceller { index: 9 }), Some(OpCanceller { index: 9 }));
}

#[test]
fn pipe_wraps_shared_fd() {
    let mut t = FdTable::new();
    let p = Pipe::from_raw(&mut t, 44);
    assert_eq!(p.fd.raw_fd(), 44);
    let q = Pipe::from_shared_fd(t.clone_fd(&p.fd));
    assert_eq!(q.fd.raw_fd(), 44);
}

#[test]
fn thread_ids_are_unique_in_order() {
    let mut gen = ThreadIdGen::new();
    let a = gen.fresh_id().unwrap();
    let b = gen.fresh_id().unwrap();
    assert_eq!(a, 0);
    assert_eq!(b, 1);
    gen.next = u64::MAX;
    assert_eq!(gen.fresh_id(), Err(OpError::ResourceExhausted));
    let ctx = Context::new(b, true, BlockingHandle::Empty(BlockingStrategy::Panic));
    assert_eq!(ctx.thread_id, 1);
    assert!(ctx.timer_enabled);
}
