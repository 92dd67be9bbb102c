//! The socket correlation table: kernel socket-table rows keyed by
//! inode, and the classification of socket descriptors against it.

use vstd::prelude::*;
use crate::model::{
    tcp_state_label, FdMode, FdType, FileType, NetworkInfo, OpenFileInfo, Protocol, TcpState,
};
use crate::text::{dec_seq, u64_to_dec};

verus! {

/// One row of the kernel socket tables, keyed by inode.
#[derive(Debug, Clone)]
pub struct SocketEntry {
    pub inode: u64,
    pub protocol: Protocol,
    pub local_addr: String,
    pub local_port: u16,
    pub remote_addr: String,
    pub remote_port: u16,
    pub state: TcpState,
    pub tx_queue: Option<u64>,
    pub rx_queue: Option<u64>,
}

/// The inode-to-socket map built once per enumeration call: rows from
/// the TCP, TCP6, UDP, UDP6 and UNIX tables, in insertion order. A
/// later row with the same inode shadows an earlier one.
#[derive(Debug)]
pub struct SocketTable {
    pub entries: Vec<SocketEntry>,
}

/// The entry that a lookup of `inode` finds: the last row with that
/// inode, or nothing.
pub open spec fn table_lookup(entries: Seq<SocketEntry>, inode: u64) -> Option<SocketEntry>
    decreases entries.len(),
{
    if entries.len() == 0 {
        None
    } else if entries.last().inode == inode {
        Some(entries.last())
    } else {
        table_lookup(entries.drop_last(), inode)
    }
}

impl SocketTable {
    /// An empty table.
    pub fn new() -> (r: Self)
        ensures
            r.entries@.len() == 0,
    {
        SocketTable { entries: Vec::new() }
    }

    /// Add one row; it shadows any earlier row with the same inode.
    pub fn push(&mut self, e: SocketEntry)
        ensures
            final(self).entries@ == old(self).entries@.push(e),
    {
        self.entries.push(e);
    }

    /// Look the inode up; the most recently added row wins.
    pub fn lookup(&self, inode: u64) -> (r: Option<&SocketEntry>)
        ensures
            match r {
                Some(e) => table_lookup(self.entries@, inode) == Some(*e),
                None => table_lookup(self.entries@, inode) is None,
            },
    {
        let n = self.entries.len();
        proof {
            assert(self.entries@.subrange(0, n as int) =~= self.entries@);
        }
        let mut i: usize = n;
        while i > 0
            invariant
                0 <= i <= n,
                n == self.entries@.len(),
                table_lookup(self.entries@, inode) == table_lookup(
                    self.entries@.subrange(0, i as int),
                    inode,
                ),
            decreases i,
        {
            let ghost pre = self.entries@.subrange(0, i as int);
            proof {
                assert(pre.last() == self.entries@[i - 1]);
                assert(pre.drop_last() =~= self.entries@.subrange(0, i as int - 1));
            }
            if self.entries[i - 1].inode == inode {
                return Some(&self.entries[i - 1]);
            }
            i = i - 1;
        }
        proof {
            assert(self.entries@.subrange(0, 0) =~= Seq::<SocketEntry>::empty());
        }
        None
    }
}

/// The formatted endpoint name of a socket found in the table:
/// `laddr:lport -> raddr:rport (STATE)` for TCP, the same with `UDP` or
/// `UDP6` as qualifier for UDP, and for unix sockets the bound path or
/// `unix socket inode=N` when unbound.
pub open spec fn socket_display_name(e: SocketEntry, inode: u64) -> Seq<char> {
    match e.protocol {
        Protocol::Tcp | Protocol::Tcp6 => e.local_addr@ + ":"@ + dec_seq(e.local_port as nat)
            + " -> "@ + e.remote_addr@ + ":"@ + dec_seq(e.remote_port as nat) + " ("@
            + tcp_state_label(e.state) + ")"@,
        Protocol::Udp => e.local_addr@ + ":"@ + dec_seq(e.local_port as nat) + " -> "@
            + e.remote_addr@ + ":"@ + dec_seq(e.remote_port as nat) + " (UDP)"@,
        Protocol::Udp6 => e.local_addr@ + ":"@ + dec_seq(e.local_port as nat) + " -> "@
            + e.remote_addr@ + ":"@ + dec_seq(e.remote_port as nat) + " (UDP6)"@,
        Protocol::Unix => if e.local_addr@.len() == 0 {
            "unix socket inode="@ + dec_seq(inode as nat)
        } else {
            e.local_addr@
        },
    }
}

/// The file-type tag of a socket found in the table.
pub open spec fn socket_file_type(p: Protocol) -> FileType {
    match p {
        Protocol::Tcp | Protocol::Udp => FileType::IPv4,
        Protocol::Tcp6 | Protocol::Udp6 => FileType::IPv6,
        Protocol::Unix => FileType::Unix,
    }
}

fn render_socket_name(e: &SocketEntry, inode: u64) -> (r: String)
    ensures
        r@ == socket_display_name(*e, inode),
{
    match e.protocol {
        Protocol::Unix => {
            if e.local_addr.as_str().is_empty() {
                let mut s = String::from_str("unix socket inode=");
                let d = u64_to_dec(inode);
                s.append(d.as_str());
                s
            } else {
                e.local_addr.clone()
            }
        },
        _ => {
            let mut s = e.local_addr.clone();
            s.append(":");
            let d = u64_to_dec(e.local_port as u64);
            s.append(d.as_str());
            s.append(" -> ");
            s.append(e.remote_addr.as_str());
            s.append(":");
            let d = u64_to_dec(e.remote_port as u64);
            s.append(d.as_str());
            match e.protocol {
                Protocol::Udp => {
                    s.append(" (UDP)");
                },
                Protocol::Udp6 => {
                    s.append(" (UDP6)");
                },
                _ => {
                    s.append(" (");
                    let st = e.state.label();
                    s.append(st.as_str());
                    s.append(")");
                },
            }
            assert(s@ =~= socket_display_name(*e, inode));
            s
        },
    }
}

/// What a descriptor classified against the table must look like: a
/// table hit gives the typed record with the formatted endpoint name
/// and the queue depths of that row; a miss gives a plain `SOCK` record
/// whose name is the fallback form.
pub open spec fn socket_record_is(
    r: OpenFileInfo,
    fd_num: u32,
    mode: FdMode,
    inode: u64,
    entries: Seq<SocketEntry>,
    fallback: Seq<char>,
) -> bool {
    &&& r.fd == FdType::Numbered(fd_num, mode)
    &&& r.mode == Some(mode)
    &&& r.device@.len() == 0
    &&& r.size_off is None
    &&& r.link_target is None
    &&& r.node@ == dec_seq(inode as nat)
    &&& match table_lookup(entries, inode) {
        Some(e) => {
            &&& r.file_type == socket_file_type(e.protocol)
            &&& r.name@ == socket_display_name(e, inode)
            &&& r.send_queue == e.tx_queue
            &&& r.recv_queue == e.rx_queue
        },
        None => {
            &&& r.file_type is Sock
            &&& r.name@ == fallback + "["@ + dec_seq(inode as nat) + "]"@
            &&& r.send_queue is None
            &&& r.recv_queue is None
        },
    }
}

fn socket_record(fd_num: u32, mode: FdMode, inode: u64, table: &SocketTable, fallback: &str) -> (r:
    OpenFileInfo)
    ensures
        socket_record_is(r, fd_num, mode, inode, table.entries@, fallback@),
        r.wf(),
{
    let node = u64_to_dec(inode);
    match table.lookup(inode) {
        Some(e) => {
            let name = render_socket_name(e, inode);
            let file_type = match e.protocol {
                Protocol::Tcp | Protocol::Udp => FileType::IPv4,
                Protocol::Tcp6 | Protocol::Udp6 => FileType::IPv6,
                Protocol::Unix => FileType::Unix,
            };
            OpenFileInfo {
                fd: FdType::Numbered(fd_num, mode),
                file_type,
                device: String::new(),
                size_off: None,
                node,
                name,
                mode: Some(mode),
                link_target: None,
                send_queue: e.tx_queue,
                recv_queue: e.rx_queue,
            }
        },
        None => {
            let mut name = String::from_str(fallback);
            name.append("[");
            let d = u64_to_dec(inode);
            name.append(d.as_str());
            name.append("]");
            assert(name@ =~= fallback@ + "["@ + dec_seq(inode as nat) + "]"@);
            OpenFileInfo {
                fd: FdType::Numbered(fd_num, mode),
                file_type: FileType::Sock,
                device: String::new(),
                size_off: None,
                node,
                name,
                mode: Some(mode),
                link_target: None,
                send_queue: None,
                recv_queue: None,
            }
        },
    }
}

/// Classify a descriptor whose target is a socket inode: a table hit
/// yields the typed network record, a miss the `socket:[inode]` form.
pub fn open_file_from_socket_inode(fd_num: u32, mode: FdMode, inode: u64, table: &SocketTable) -> (
    r: OpenFileInfo)
    ensures
        socket_record_is(r, fd_num, mode, inode, table.entries@, "socket:"@),
        r.wf(),
{
    socket_record(fd_num, mode, inode, table, "socket:")
}

/// Classify a descriptor whose target is a net inode: a table hit
/// yields the typed network record, a miss the `net:[inode]` form.
pub fn open_file_from_net_inode(fd_num: u32, mode: FdMode, inode: u64, table: &SocketTable) -> (r:
    OpenFileInfo)
    ensures
        socket_record_is(r, fd_num, mode, inode, table.entries@, "net:"@),
        r.wf(),
{
    socket_record(fd_num, mode, inode, table, "net:")
}

/// Build a descriptor record for a pipe inode.
pub fn open_file_from_pipe_inode(fd_num: u32, mode: FdMode, inode: u64) -> (r: OpenFileInfo)
    ensures
        r.fd == FdType::Numbered(fd_num, mode),
        r.mode == Some(mode),
        r.file_type is Pipe,
        r.device@.len() == 0,
        r.size_off is None,
        r.node@ == dec_seq(inode as nat),
        r.name@ == "pipe:["@ + dec_seq(inode as nat) + "]"@,
        r.link_target is None,
        r.send_queue is None,
        r.recv_queue is None,
        r.wf(),
{
    let mut name = String::from_str("pipe:[");
    let d = u64_to_dec(inode);
    name.append(d.as_str());
    name.append("]");
    assert(name@ =~= "pipe:["@ + dec_seq(inode as nat) + "]"@);
    OpenFileInfo {
        fd: FdType::Numbered(fd_num, mode),
        file_type: FileType::Pipe,
        device: String::new(),
        size_off: None,
        node: u64_to_dec(inode),
        name,
        mode: Some(mode),
        link_target: None,
        send_queue: None,
        recv_queue: None,
    }
}

/// Build a descriptor record for an anonymous inode with its label.
pub fn open_file_from_anon_inode(fd_num: u32, mode: FdMode, desc: String) -> (r: OpenFileInfo)
    ensures
        r.fd == FdType::Numbered(fd_num, mode),
        r.mode == Some(mode),
        r.file_type matches FileType::Unknown(s) && s@ == desc@,
        r.device@.len() == 0,
        r.size_off is None,
        r.node@.len() == 0,
        r.name@ == "anon_inode:["@ + desc@ + "]"@,
        r.link_target is None,
        r.send_queue is None,
        r.recv_queue is None,
        r.wf(),
{
    let mut name = String::from_str("anon_inode:[");
    name.append(desc.as_str());
    name.append("]");
    OpenFileInfo {
        fd: FdType::Numbered(fd_num, mode),
        file_type: FileType::Unknown(desc),
        device: String::new(),
        size_off: None,
        node: String::new(),
        name,
        mode: Some(mode),
        link_target: None,
        send_queue: None,
        recv_queue: None,
    }
}

/// Build a descriptor record for a memory FD with its label.
pub fn open_file_from_memfd(fd_num: u32, mode: FdMode, label: String) -> (r: OpenFileInfo)
    ensures
        r.fd == FdType::Numbered(fd_num, mode),
        r.mode == Some(mode),
        r.file_type is Reg,
        r.device@.len() == 0,
        r.size_off is None,
        r.node@.len() == 0,
        r.name@ == "memfd:"@ + label@,
        r.link_target is None,
        r.send_queue is None,
        r.recv_queue is None,
        r.wf(),
{
    let mut name = String::from_str("memfd:");
    name.append(label.as_str());
    OpenFileInfo {
        fd: FdType::Numbered(fd_num, mode),
        file_type: FileType::Reg,
        device: String::new(),
        size_off: None,
        node: String::new(),
        name,
        mode: Some(mode),
        link_target: None,
        send_queue: None,
        recv_queue: None,
    }
}

/// Build a descriptor record for a target of some other kind, with its
/// label and inode.
pub fn open_file_from_other(fd_num: u32, mode: FdMode, label: String, inode: u64) -> (r:
    OpenFileInfo)
    ensures
        r.fd == FdType::Numbered(fd_num, mode),
        r.mode == Some(mode),
        r.file_type matches FileType::Unknown(s) && s@ == label@,
        r.device@.len() == 0,
        r.size_off is None,
        r.node@ == dec_seq(inode as nat),
        r.name@ == label@ + ":["@ + dec_seq(inode as nat) + "]"@,
        r.link_target is None,
        r.send_queue is None,
        r.recv_queue is None,
        r.wf(),
{
    let mut name = label.clone();
    name.append(":[");
    let d = u64_to_dec(inode);
    name.append(d.as_str());
    name.append("]");
    OpenFileInfo {
        fd: FdType::Numbered(fd_num, mode),
        file_type: FileType::Unknown(label),
        device: String::new(),
        size_off: None,
        node: u64_to_dec(inode),
        name,
        mode: Some(mode),
        link_target: None,
        send_queue: None,
        recv_queue: None,
    }
}

/// The network connection records of a process: one per descriptor
/// inode that the socket table knows, in descriptor order, each carrying
/// that row's endpoint data and the process identity.
pub open spec fn connections_spec(
    inodes: Seq<u64>,
    entries: Seq<SocketEntry>,
    pid: Option<u32>,
) -> Seq<SocketEntry>
    decreases inodes.len(),
{
    if inodes.len() == 0 {
        Seq::empty()
    } else {
        let rest = connections_spec(inodes.drop_last(), entries, pid);
        match table_lookup(entries, inodes.last()) {
            Some(e) => rest.push(e),
            None => rest,
        }
    }
}

/// Join a process's socket descriptor inodes against the table: every
/// inode with a table row yields one connection record, in order; the
/// rest are dropped.
pub fn connections_for_inodes(
    inodes: &Vec<u64>,
    table: &SocketTable,
    pid: u32,
    command: &Option<String>,
) -> (r: Vec<NetworkInfo>)
    ensures
        ({
            let joined = connections_spec(inodes@, table.entries@, Some(pid));
            &&& r@.len() == joined.len()
            &&& forall|i: int|
                0 <= i < r@.len() ==> {
                    let e = joined[i];
                    &&& (#[trigger] r@[i]).protocol == e.protocol
                    &&& r@[i].local_addr@ == e.local_addr@
                    &&& r@[i].local_port == e.local_port
                    &&& r@[i].remote_addr@ == e.remote_addr@
                    &&& r@[i].remote_port == e.remote_port
                    &&& r@[i].state == e.state
                    &&& r@[i].pid == Some(pid)
                    &&& crate::model::opt_str_equiv(r@[i].command, *command)
                }
        }),
{
    let ghost iv = inodes@;
    let n = inodes.len();
    let mut out: Vec<NetworkInfo> = Vec::new();
    let mut k: usize = 0;
    while k < n
        invariant
            0 <= k <= n,
            n == inodes@.len(),
            iv == inodes@,
            ({
                let done = connections_spec(iv.subrange(0, k as int), table.entries@, Some(pid));
                &&& out@.len() == done.len()
                &&& forall|i: int|
                    0 <= i < out@.len() ==> {
                        let e = done[i];
                        &&& (#[trigger] out@[i]).protocol == e.protocol
                        &&& out@[i].local_addr@ == e.local_addr@
                        &&& out@[i].local_port == e.local_port
                        &&& out@[i].remote_addr@ == e.remote_addr@
                        &&& out@[i].remote_port == e.remote_port
                        &&& out@[i].state == e.state
                        &&& out@[i].pid == Some(pid)
                        &&& crate::model::opt_str_equiv(out@[i].command, *command)
                    }
            }),
        decreases n - k,
    {
        let ghost pre = iv.subrange(0, k as int);
        let ghost pre1 = iv.subrange(0, k as int + 1);
        proof {
            assert(pre1.drop_last() =~= pre);
            assert(pre1.last() == iv[k as int]);
        }
        match table.lookup(inodes[k]) {
            Some(e) => {
                let cmd = match command {
                    Some(c) => Some(c.clone()),
                    None => None,
                };
                let rec = network_info_from_entry(e, Some(pid), cmd);
                out.push(rec);
            },
            None => {},
        }
        k = k + 1;
    }
    proof {
        assert(iv.subrange(0, n as int) =~= iv);
    }
    out
}

/// One socket ownership fact gathered from a walk of the descriptor
/// tables: this inode was first seen held by this process.
#[derive(Debug, Clone)]
pub struct SocketOwner {
    pub inode: u64,
    pub pid: u32,
    pub comm: String,
}

/// The position of the first ownership fact for `inode`, or
/// `owners.len()` when no process was seen holding it.
pub open spec fn owner_idx(owners: Seq<SocketOwner>, inode: u64) -> nat
    decreases owners.len(),
{
    if owners.len() == 0 {
        0
    } else if owners[0].inode == inode {
        0
    } else {
        1 + owner_idx(owners.subrange(1, owners.len() as int), inode)
    }
}

proof fn lemma_owner_idx(owners: Seq<SocketOwner>, inode: u64)
    ensures
        owner_idx(owners, inode) <= owners.len(),
        owner_idx(owners, inode) < owners.len() ==> owners[owner_idx(owners, inode) as int].inode
            == inode,
        forall|j: int| 0 <= j < owner_idx(owners, inode) ==> owners[j].inode != inode,
    decreases owners.len(),
{
    if owners.len() > 0 && owners[0].inode != inode {
        let t = owners.subrange(1, owners.len() as int);
        lemma_owner_idx(t, inode);
        assert forall|j: int| 0 <= j < owner_idx(owners, inode) implies owners[j].inode
            != inode by {
            if j > 0 {
                assert(t[j - 1] == owners[j]);
            }
        }
    }
}

fn find_owner<'a>(owners: &'a Vec<SocketOwner>, inode: u64) -> (r: Option<&'a SocketOwner>)
    ensures
        match r {
            Some(o) => owner_idx(owners@, inode) < owners@.len() && *o == owners@[owner_idx(
                owners@,
                inode,
            ) as int],
            None => owner_idx(owners@, inode) == owners@.len(),
        },
{
    proof {
        lemma_owner_idx(owners@, inode);
    }
    let n = owners.len();
    let mut i: usize = 0;
    while i < n
        invariant
            0 <= i <= n,
            n == owners@.len(),
            forall|j: int| 0 <= j < i ==> owners@[j].inode != inode,
        decreases n - i,
    {
        if owners[i].inode == inode {
            proof {
                lemma_owner_idx(owners@, inode);
                if owner_idx(owners@, inode) < i {
                    assert(owners@[owner_idx(owners@, inode) as int].inode != inode);
                }
            }
            return Some(&owners[i]);
        }
        i = i + 1;
    }
    proof {
        lemma_owner_idx(owners@, inode);
        if owner_idx(owners@, inode) < n {
            assert(owners@[owner_idx(owners@, inode) as int].inode != inode);
        }
    }
    None
}

/// The full-system network view: one connection record per table row,
/// in table order, each attributed to the first process seen holding
/// its inode; a row nobody was seen holding carries no process, and an
/// empty command name is suppressed.
pub fn connections_for_table(table: &SocketTable, owners: &Vec<SocketOwner>) -> (r: Vec<
    NetworkInfo,
>)
    ensures
        r@.len() == table.entries@.len(),
        forall|i: int|
            0 <= i < r@.len() ==> {
                let e = table.entries@[i];
                let k = owner_idx(owners@, e.inode);
                &&& (#[trigger] r@[i]).protocol == e.protocol
                &&& r@[i].local_addr@ == e.local_addr@
                &&& r@[i].local_port == e.local_port
                &&& r@[i].remote_addr@ == e.remote_addr@
                &&& r@[i].remote_port == e.remote_port
                &&& r@[i].state == e.state
                &&& r@[i].pid == (if k < owners@.len() && owners@[k as int].pid > 0 {
                    Some(owners@[k as int].pid)
                } else {
                    None
                })
                &&& (match r@[i].command {
                    Some(c) => k < owners@.len() && owners@[k as int].comm@.len() > 0 && c@
                        == owners@[k as int].comm@,
                    None => k >= owners@.len() || owners@[k as int].comm@.len() == 0,
                })
            },
{
    let n = table.entries.len();
    let mut out: Vec<NetworkInfo> = Vec::new();
    let mut i: usize = 0;
    while i < n
        invariant
            0 <= i <= n,
            n == table.entries@.len(),
            out@.len() == i,
            forall|t: int|
                0 <= t < i ==> {
                    let e = table.entries@[t];
                    let k = owner_idx(owners@, e.inode);
                    &&& (#[trigger] out@[t]).protocol == e.protocol
                    &&& out@[t].local_addr@ == e.local_addr@
                    &&& out@[t].local_port == e.local_port
                    &&& out@[t].remote_addr@ == e.remote_addr@
                    &&& out@[t].remote_port == e.remote_port
                    &&& out@[t].state == e.state
                    &&& out@[t].pid == (if k < owners@.len() && owners@[k as int].pid > 0 {
                        Some(owners@[k as int].pid)
                    } else {
                        None
                    })
                    &&& (match out@[t].command {
                        Some(c) => k < owners@.len() && owners@[k as int].comm@.len() > 0 && c@
                            == owners@[k as int].comm@,
                        None => k >= owners@.len() || owners@[k as int].comm@.len() == 0,
                    })
                },
        decreases n - i,
    {
        let e = &table.entries[i];
        let (pid, command) = match find_owner(owners, e.inode) {
            Some(o) => {
                let pid = if o.pid > 0 {
                    Some(o.pid)
                } else {
                    None
                };
                let command = if o.comm.as_str().is_empty() {
                    None
                } else {
                    Some(o.comm.clone())
                };
                (pid, command)
            },
            None => (None, None),
        };
        let rec = network_info_from_entry(e, pid, command);
        out.push(rec);
        i = i + 1;
    }
    out
}

/// Build a network connection record from a socket-table row and the
/// process it was found under.
pub fn network_info_from_entry(e: &SocketEntry, pid: Option<u32>, command: Option<String>) -> (r:
    NetworkInfo)
    ensures
        r.protocol == e.protocol,
        r.local_addr@ == e.local_addr@,
        r.local_port == e.local_port,
        r.remote_addr@ == e.remote_addr@,
        r.remote_port == e.remote_port,
        r.state == e.state,
        r.pid == pid,
        match (r.command, command) {
            (Some(a), Some(b)) => a@ == b@,
            (None, None) => true,
            _ => false,
        },
{
    NetworkInfo {
        protocol: e.protocol,
        local_addr: e.local_addr.clone(),
        local_port: e.local_port,
        remote_addr: e.remote_addr.clone(),
        remote_port: e.remote_port,
        state: e.state.clone(),
        pid,
        command,
    }
}

} // verus!
