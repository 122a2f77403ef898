//! Peer credentials of a Unix-domain socket.

use vstd::prelude::*;

verus! {

/// Credentials of a process.
#[derive(Clone, Copy, Debug, PartialEq, Eq, Structural)]
pub struct UCred {
    /// PID (process ID) of the process.
    pub pid: Option<i32>,
    /// UID (user ID) of the process.
    pub uid: u32,
    /// GID (group ID) of the process.
    pub gid: u32,
}

impl UCred {
    /// Gets UID (user ID) of the process.
    pub fn uid(&self) -> (r: u32)
        ensures
            r == self.uid,
    {
        self.uid
    }

    /// Gets GID (group ID) of the process.
    pub fn gid(&self) -> (r: u32)
        ensures
            r == self.gid,
    {
        self.gid
    }

    /// Gets PID (process ID) of the process.
    pub fn pid(&self) -> (r: Option<i32>)
        ensures
            r == self.pid,
    {
        self.pid
    }
}

/// Interprets what the peer-credentials query returned: credentials exactly
/// when the call succeeded and filled the full structure; anything else is
/// rejected and the shell reports the OS error.
pub fn peer_cred_from_raw(ret: i32, got_len: u32, expected_len: u32, uid: u32, gid: u32, pid: i32)
    -> (r: Option<UCred>)
    ensures
        (ret == 0 && got_len == expected_len) <==> r is Some,
        (ret == 0 && got_len == expected_len) ==> r == Some(UCred {
            pid: Some(pid),
            uid,
            gid,
        }),
{
    if ret == 0 && got_len == expected_len {
        Some(UCred { pid: Some(pid), uid, gid })
    } else {
        None
    }
}

} // verus!
