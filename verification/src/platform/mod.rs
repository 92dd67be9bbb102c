//! Platform provider support: the decoding and record-building logic
//! shared by the OS-specific enumeration front ends. The front ends walk
//! the kernel tables and hand plain values here; everything that decides
//! or formats lives in these modules.

use vstd::prelude::*;
use crate::model::ProcessInfo;
use crate::text::dec_seq;
use crate::text::u64_to_dec;

pub mod bsd;
pub mod procdata;
pub mod sockets;

verus! {

/// Static provider options: skip every stat call, or follow symbolic
/// links when stating.
#[derive(Debug, Clone, Copy)]
pub struct ProviderConfig {
    pub avoid_stat: bool,
    pub follow_symlinks: bool,
}

impl Default for ProviderConfig {
    /// Stat normally and do not follow symbolic links.
    fn default() -> (r: Self)
        ensures
            r.avoid_stat == false,
            r.follow_symlinks == false,
    {
        ProviderConfig { avoid_stat: false, follow_symlinks: false }
    }
}

/// Assemble a process record from its identity fields: the full command
/// line when there is one, else the short name in brackets; the login
/// name when the user database gave one, else the decimal UID. The
/// descriptor list starts empty.
pub fn process_from_parts(
    pid: u32,
    ppid: Option<u32>,
    pgid: Option<u32>,
    comm: String,
    cmdline: String,
    user: Option<String>,
    uid: u32,
) -> (r: ProcessInfo)
    requires
        pid >= 1,
    ensures
        r.pid == pid,
        r.pid >= 1,
        r.ppid == ppid,
        r.pgid == pgid,
        r.uid == uid,
        r.comm@ == comm@,
        r.command@ == (if cmdline@.len() == 0 {
            "["@ + comm@ + "]"@
        } else {
            cmdline@
        }),
        r.command@.len() >= 1,
        r.user@ == (match user {
            Some(u) => u@,
            None => dec_seq(uid as nat),
        }),
        r.open_files@.len() == 0,
{
    let command = if cmdline.as_str().is_empty() {
        let mut c = String::from_str("[");
        c.append(comm.as_str());
        c.append("]");
        c
    } else {
        cmdline
    };
    let user_name = match user {
        Some(u) => u,
        None => u64_to_dec(uid as u64),
    };
    proof {
        reveal_strlit("[");
    }
    ProcessInfo {
        pid,
        ppid,
        pgid,
        command,
        comm,
        user: user_name,
        uid,
        open_files: Vec::new(),
    }
}

} // verus!
