//! Network decision logic: socket addresses as plain values, the stream
//! metadata cache, and keepalive configuration.
//!
//! The sockets themselves are opened, connected and queried by the
//! unverified shell; what stands here is every decision the stream makes
//! around those calls.

use vstd::prelude::*;
use crate::error::OpError;

verus! {

/// Relies on `libc::AF_INET`: the IPv4 socket domain, `2` on Linux.
#[verifier::external_body]
pub(crate) fn af_inet() -> (r: i32)
    ensures
        r == 2i32,
{
    libc::AF_INET
}

/// Relies on `libc::AF_INET6`: the IPv6 socket domain, `10` on Linux.
#[verifier::external_body]
pub(crate) fn af_inet6() -> (r: i32)
    ensures
        r == 10i32,
{
    libc::AF_INET6
}

/// A socket address as plain values.
#[derive(Clone, Copy, Debug, PartialEq, Eq)]
pub enum SockAddr {
    V4 { ip: [u8; 4], port: u16 },
    V6 { ip: [u8; 16], port: u16, flowinfo: u32, scope_id: u32 },
}

/// The socket domain a connect must use for this address.
pub fn socket_domain(addr: &SockAddr) -> (r: i32)
    ensures
        addr is V4 ==> r == 2i32,
        addr is V6 ==> r == 10i32,
{
    match addr {
        SockAddr::V4 { .. } => af_inet(),
        SockAddr::V6 { .. } => af_inet6(),
    }
}

/// Picks the address a connect uses out of a resolution result: the first
/// one; an empty resolution is rejected before anything is opened.
pub fn first_addr(addrs: &Vec<SockAddr>) -> (r: Result<SockAddr, OpError>)
    ensures
        addrs@.len() == 0 <==> r == Result::<SockAddr, OpError>::Err(OpError::InvalidArgument),
        addrs@.len() > 0 ==> r == Result::<SockAddr, OpError>::Ok(addrs@[0]),
{
    if addrs.len() == 0 {
        Err(OpError::InvalidArgument)
    } else {
        Ok(addrs[0])
    }
}

/// The address cache of a stream: filled at most once, at the first
/// successful lookup, and never mutated afterwards.  The shell may fill it
/// as early as connect or accept time; whichever moment the lookup runs,
/// the cache admits exactly one value for the stream's lifetime.
pub struct StreamMeta {
    pub local: Option<SockAddr>,
    pub peer: Option<SockAddr>,
}

impl StreamMeta {
    /// A fresh stream knows neither of its addresses yet.
    pub fn new() -> (r: StreamMeta)
        ensures
            r.local is None,
            r.peer is None,
    {
        StreamMeta { local: None, peer: None }
    }

    /// The local address: the cached one if the stream ever looked it up,
    /// else the outcome of the lookup the shell just made, which is cached
    /// exactly when it succeeded.
    pub fn local_addr(&mut self, fetched: Result<SockAddr, i32>) -> (r: Result<SockAddr, i32>)
        ensures
            final(self).peer == old(self).peer,
            match old(self).local {
                Some(a) => r == Result::<SockAddr, i32>::Ok(a)
                    && final(self).local == old(self).local,
                None => r == fetched && final(self).local == (match fetched {
                    Ok(a) => Some(a),
                    Err(_) => None::<SockAddr>,
                }),
            },
    {
        match self.local {
            Some(a) => Ok(a),
            None => {
                match fetched {
                    Ok(a) => {
                        self.local = Some(a);
                        Ok(a)
                    }
                    Err(e) => Err(e),
                }
            }
        }
    }

    /// The peer address, cached the same way as the local one.
    pub fn peer_addr(&mut self, fetched: Result<SockAddr, i32>) -> (r: Result<SockAddr, i32>)
        ensures
            final(self).local == old(self).local,
            match old(self).peer {
                Some(a) => r == Result::<SockAddr, i32>::Ok(a)
                    && final(self).peer == old(self).peer,
                None => r == fetched && final(self).peer == (match fetched {
                    Ok(a) => Some(a),
                    Err(_) => None::<SockAddr>,
                }),
            },
    {
        match self.peer {
            Some(a) => Ok(a),
            None => {
                match fetched {
                    Ok(a) => {
                        self.peer = Some(a);
                        Ok(a)
                    }
                    Err(e) => Err(e),
                }
            }
        }
    }
}

/// Declares the keepalive-configuration type so verified signatures can
/// carry it; its contents stay opaque.
#[verifier::external_type_specification]
#[verifier::external_body]
pub struct ExTcpKeepalive(socket2::TcpKeepalive);

/// Relies on `socket2::TcpKeepalive::new`: an empty keepalive
/// configuration.
#[verifier::external_body]
fn keepalive_new() -> socket2::TcpKeepalive {
    socket2::TcpKeepalive::new()
}

/// Relies on `socket2::TcpKeepalive::with_time`: sets the idle time before
/// keepalive probes start.
#[verifier::external_body]
fn keepalive_with_time(k: socket2::TcpKeepalive, ms: u64) -> socket2::TcpKeepalive {
    k.with_time(core::time::Duration::from_millis(ms))
}

/// Relies on `socket2::TcpKeepalive::with_interval`: sets the interval
/// between probes.
#[verifier::external_body]
fn keepalive_with_interval(k: socket2::TcpKeepalive, ms: u64) -> socket2::TcpKeepalive {
    k.with_interval(core::time::Duration::from_millis(ms))
}

/// Relies on `socket2::TcpKeepalive::with_retries`: sets the number of
/// unanswered probes before the connection is dead.
#[verifier::external_body]
fn keepalive_with_retries(k: socket2::TcpKeepalive, n: u32) -> socket2::TcpKeepalive {
    k.with_retries(n)
}

/// Builds the keepalive configuration a `SO_KEEPALIVE` update applies:
/// each given option is set, each absent one left at its default.  The
/// shell applies the result to the socket.
pub fn keepalive_config(time_ms: Option<u64>, interval_ms: Option<u64>, retries: Option<u32>)
    -> socket2::TcpKeepalive
{
    let mut k = keepalive_new();
    if let Some(ms) = time_ms {
        k = keepalive_with_time(k, ms);
    }
    if let Some(ms) = interval_ms {
        k = keepalive_with_interval(k, ms);
    }
    if let Some(n) = retries {
        k = keepalive_with_retries(k, n);
    }
    k
}

} // verus!
