//! Decoding of BSD-class kernel process data: `FREAD`/`FWRITE` flag
//! pairs, vnode types, packed device words, network-byte-order ports,
//! and the assembly of descriptor records from pid-info results.

use vstd::prelude::*;
use crate::model::{
    tcp_state_label, FdMode, FdType, FileType, NetworkInfo, OpenFileInfo, Protocol, TcpState,
};
use crate::text::{
    dec_seq, dec_seq_signed, hex_seq, i64_to_dec, u64_to_dec, u64_to_hex,
};

verus! {

/// The access mode encoded in a kernel open-flag word as the
/// `FREAD`/`FWRITE` bit pair.
pub open spec fn openflags_mode(flags: u32) -> FdMode {
    let r = flags & 0x1 != 0;
    let w = flags & 0x2 != 0;
    if r && w {
        FdMode::ReadWrite
    } else if r {
        FdMode::Read
    } else if w {
        FdMode::Write
    } else {
        FdMode::Unknown
    }
}

/// Determine the access mode from a kernel `fi_openflags` word.
pub fn fd_mode_from_openflags(flags: u32) -> (r: FdMode)
    ensures
        r == openflags_mode(flags),
{
    let rd = flags & 0x1 != 0;
    let wr = flags & 0x2 != 0;
    if rd && wr {
        FdMode::ReadWrite
    } else if rd {
        FdMode::Read
    } else if wr {
        FdMode::Write
    } else {
        FdMode::Unknown
    }
}

/// Whether `t` is the file type denoted by a vnode type number: the
/// seven classical vnode kinds, `VNON` by its name, anything else
/// labelled with its number.
pub open spec fn vtype_file_type_is(vtype: i32, t: FileType) -> bool {
    if vtype == 1 {
        t is Reg
    } else if vtype == 2 {
        t is Dir
    } else if vtype == 3 {
        t is Blk
    } else if vtype == 4 {
        t is Chr
    } else if vtype == 5 {
        t is Link
    } else if vtype == 6 {
        t is Sock
    } else if vtype == 7 {
        t is Fifo
    } else if vtype == 0 {
        t matches FileType::Unknown(s) && s@ == "VNON"@
    } else {
        t matches FileType::Unknown(s) && s@ == "vtype="@ + dec_seq_signed(vtype as int)
    }
}

/// Map a vnode type number to a file type.
pub fn file_type_from_vtype(vtype: i32) -> (r: FileType)
    ensures
        vtype_file_type_is(vtype, r),
{
    if vtype == 1 {
        FileType::Reg
    } else if vtype == 2 {
        FileType::Dir
    } else if vtype == 3 {
        FileType::Blk
    } else if vtype == 4 {
        FileType::Chr
    } else if vtype == 5 {
        FileType::Link
    } else if vtype == 6 {
        FileType::Sock
    } else if vtype == 7 {
        FileType::Fifo
    } else if vtype == 0 {
        FileType::Unknown(String::from_str("VNON"))
    } else {
        let mut s = String::from_str("vtype=");
        let d = i64_to_dec(vtype as i64);
        s.append(d.as_str());
        FileType::Unknown(s)
    }
}

/// The `0xMAJ,MIN` rendering of a packed BSD device word: the major
/// number in the top 8 bits, the minor in the low 24, both in hex.
pub open spec fn bsd_device_label(dev: u32) -> Seq<char> {
    "0x"@ + hex_seq(((dev >> 24) & 0xff) as nat) + ","@ + hex_seq((dev & 0xffffff) as nat)
}

/// Format a packed BSD device word as `0xMAJ,MIN`.
pub fn format_device(dev: u32) -> (r: String)
    ensures
        r@ == bsd_device_label(dev),
{
    let major: u32 = (dev >> 24) & 0xff;
    let minor: u32 = dev & 0xffffff;
    let mut r = String::from_str("0x");
    let h = u64_to_hex(major as u64);
    r.append(h.as_str());
    r.append(",");
    let h = u64_to_hex(minor as u64);
    r.append(h.as_str());
    r
}

/// The byte-swap that turns a network-byte-order port into host order.
pub open spec fn port_swap(p: u16) -> u16 {
    ((p & 0xff) * 256 + (p >> 8)) as u16
}

/// Convert a network-byte-order port stored in an `i32` to a host-order
/// `u16`.
pub fn port_from_nbo(nbo: i32) -> (r: u16)
    ensures
        r == port_swap(#[verifier::truncate] (nbo as u16)),
{
    let p: u16 = #[verifier::truncate] (nbo as u16);
    let lo: u32 = (p & 0xff) as u32;
    let hi: u32 = (p >> 8) as u32;
    assert(lo < 256 && hi < 256) by (bit_vector)
        requires
            lo == (p & 0xff) as u32 && hi == (p >> 8) as u32,
    ;
    (lo * 256 + hi) as u16
}

/// A socket descriptor as the BSD pid-info call reports it, reduced to
/// plain values: a TCP endpoint with its state, an internet-protocol
/// endpoint that is UDP or raw IP, a unix-domain socket with its bound
/// path and connection handle, a kernel-control socket with its name,
/// or some other kind with its label.
pub enum BsdSocketInfo {
    Tcp {
        v6: bool,
        local_addr: String,
        remote_addr: String,
        local_port: u16,
        remote_port: u16,
        state: TcpState,
    },
    InProto {
        v6: bool,
        local_addr: String,
        remote_addr: String,
        local_port: u16,
        remote_port: u16,
        udp: bool,
    },
    UnixSock { path: String, conn: u64 },
    KernCtl { name: String },
    OtherKind { kind: String },
}

/// The endpoint rendering `laddr:lport -> raddr:rport (qualifier)`.
pub open spec fn bsd_endpoint_name(
    la: Seq<char>,
    lp: u16,
    ra: Seq<char>,
    rp: u16,
    qual: Seq<char>,
) -> Seq<char> {
    la + ":"@ + dec_seq(lp as nat) + " -> "@ + ra + ":"@ + dec_seq(rp as nat) + " ("@ + qual
        + ")"@
}

fn render_endpoint(la: &str, lp: u16, ra: &str, rp: u16, qual: &str) -> (r: String)
    ensures
        r@ == bsd_endpoint_name(la@, lp, ra@, rp, qual@),
{
    let mut s = la.to_owned();
    s.append(":");
    let d = u64_to_dec(lp as u64);
    s.append(d.as_str());
    s.append(" -> ");
    s.append(ra);
    s.append(":");
    let d = u64_to_dec(rp as u64);
    s.append(d.as_str());
    s.append(" (");
    s.append(qual);
    s.append(")");
    assert(s@ =~= bsd_endpoint_name(la@, lp, ra@, rp, qual@));
    s
}

/// What the descriptor record of a BSD socket must look like, per kind.
pub open spec fn bsd_socket_record_is(r: OpenFileInfo, fd_num: u32, info: BsdSocketInfo) -> bool {
    &&& r.fd == FdType::Numbered(fd_num, FdMode::ReadWrite)
    &&& r.mode == Some(FdMode::ReadWrite)
    &&& r.device@.len() == 0
    &&& r.size_off is None
    &&& r.link_target is None
    &&& r.send_queue is None
    &&& r.recv_queue is None
    &&& match info {
        BsdSocketInfo::Tcp { v6, local_addr, remote_addr, local_port, remote_port, state } => {
            &&& r.file_type == (if v6 {
                FileType::IPv6
            } else {
                FileType::IPv4
            })
            &&& r.node@ == "TCP"@
            &&& r.name@ == bsd_endpoint_name(
                local_addr@,
                local_port,
                remote_addr@,
                remote_port,
                tcp_state_label(state),
            )
        },
        BsdSocketInfo::InProto { v6, local_addr, remote_addr, local_port, remote_port, udp } => {
            &&& r.file_type == (if v6 {
                FileType::IPv6
            } else {
                FileType::IPv4
            })
            &&& r.node@ == (if udp {
                "UDP"@
            } else {
                "IP"@
            })
            &&& r.name@ == bsd_endpoint_name(
                local_addr@,
                local_port,
                remote_addr@,
                remote_port,
                if udp {
                    "UDP"@
                } else {
                    "IP"@
                },
            )
        },
        BsdSocketInfo::UnixSock { path, conn } => {
            &&& r.file_type is Unix
            &&& r.node@ == "unix"@
            &&& r.name@ == (if path@.len() == 0 {
                "unix socket 0x"@ + hex_seq(conn as nat)
            } else {
                path@
            })
        },
        BsdSocketInfo::KernCtl { name } => {
            &&& r.file_type is Systm
            &&& r.node@ == "kctl"@
            &&& r.name@ == name@
        },
        BsdSocketInfo::OtherKind { kind } => {
            &&& r.file_type is Sock
            &&& r.node@ == kind@
            &&& r.name@ == "socket (kind="@ + kind@ + ")"@
        },
    }
}

/// Build the descriptor record of a BSD socket from its reduced
/// pid-info data.
pub fn open_file_from_bsd_socket(fd_num: u32, info: BsdSocketInfo) -> (r: OpenFileInfo)
    ensures
        bsd_socket_record_is(r, fd_num, info),
        r.wf(),
{
    let (file_type, node, name) = match info {
        BsdSocketInfo::Tcp { v6, local_addr, remote_addr, local_port, remote_port, state } => {
            let st = state.label();
            let name = render_endpoint(
                local_addr.as_str(),
                local_port,
                remote_addr.as_str(),
                remote_port,
                st.as_str(),
            );
            let ft = if v6 {
                FileType::IPv6
            } else {
                FileType::IPv4
            };
            (ft, String::from_str("TCP"), name)
        },
        BsdSocketInfo::InProto { v6, local_addr, remote_addr, local_port, remote_port, udp } => {
            let qual = if udp {
                "UDP"
            } else {
                "IP"
            };
            let name = render_endpoint(
                local_addr.as_str(),
                local_port,
                remote_addr.as_str(),
                remote_port,
                qual,
            );
            let ft = if v6 {
                FileType::IPv6
            } else {
                FileType::IPv4
            };
            (ft, String::from_str(qual), name)
        },
        BsdSocketInfo::UnixSock { path, conn } => {
            let name = if path.as_str().is_empty() {
                let mut s = String::from_str("unix socket 0x");
                let h = u64_to_hex(conn);
                s.append(h.as_str());
                s
            } else {
                path
            };
            (FileType::Unix, String::from_str("unix"), name)
        },
        BsdSocketInfo::KernCtl { name } => (FileType::Systm, String::from_str("kctl"), name),
        BsdSocketInfo::OtherKind { kind } => {
            let mut s = String::from_str("socket (kind=");
            s.append(kind.as_str());
            s.append(")");
            (FileType::Sock, kind, s)
        },
    };
    OpenFileInfo {
        fd: FdType::Numbered(fd_num, FdMode::ReadWrite),
        file_type,
        device: String::new(),
        size_off: None,
        node,
        name,
        mode: Some(FdMode::ReadWrite),
        link_target: None,
        send_queue: None,
        recv_queue: None,
    }
}

/// Build the descriptor record of a vnode-backed BSD descriptor from
/// its stat fields. The symlink target is kept only when the vnode is
/// a symbolic link.
pub fn open_file_from_bsd_vnode(
    fd_num: u32,
    openflags: u32,
    vtype: i32,
    path: String,
    dev: u32,
    size: u64,
    ino: u64,
    link_target: Option<String>,
) -> (r: OpenFileInfo)
    ensures
        r.fd == FdType::Numbered(fd_num, openflags_mode(openflags)),
        r.mode == Some(openflags_mode(openflags)),
        vtype_file_type_is(vtype, r.file_type),
        r.device@ == bsd_device_label(dev),
        r.size_off == Some(size),
        r.node@ == dec_seq(ino as nat),
        r.name@ == path@,
        r.link_target == (if vtype == 5 {
            link_target
        } else {
            None::<String>
        }),
        r.send_queue is None,
        r.recv_queue is None,
        r.wf(),
{
    let mode = fd_mode_from_openflags(openflags);
    let file_type = file_type_from_vtype(vtype);
    let lt = if vtype == 5 {
        link_target
    } else {
        None
    };
    OpenFileInfo {
        fd: FdType::Numbered(fd_num, mode),
        file_type,
        device: format_device(dev),
        size_off: Some(size),
        node: u64_to_dec(ino),
        name: path,
        mode: Some(mode),
        link_target: lt,
        send_queue: None,
        recv_queue: None,
    }
}

/// Build the descriptor record of a BSD pipe: its endpoint handles in
/// the name, its inode as the node.
pub fn open_file_from_bsd_pipe(
    fd_num: u32,
    openflags: u32,
    size: u64,
    ino: u64,
    handle: u64,
    peer: u64,
) -> (r: OpenFileInfo)
    ensures
        r.fd == FdType::Numbered(fd_num, openflags_mode(openflags)),
        r.mode == Some(openflags_mode(openflags)),
        r.file_type is Pipe,
        r.device@.len() == 0,
        r.size_off == Some(size),
        r.node@ == dec_seq(ino as nat),
        r.name@ == "pipe 0x"@ + hex_seq(handle as nat) + " -> 0x"@ + hex_seq(peer as nat),
        r.link_target is None,
        r.wf(),
{
    let mode = fd_mode_from_openflags(openflags);
    let mut name = String::from_str("pipe 0x");
    let h = u64_to_hex(handle);
    name.append(h.as_str());
    name.append(" -> 0x");
    let h = u64_to_hex(peer);
    name.append(h.as_str());
    assert(name@ =~= "pipe 0x"@ + hex_seq(handle as nat) + " -> 0x"@ + hex_seq(peer as nat));
    OpenFileInfo {
        fd: FdType::Numbered(fd_num, mode),
        file_type: FileType::Pipe,
        device: String::new(),
        size_off: Some(size),
        node: u64_to_dec(ino),
        name,
        mode: Some(mode),
        link_target: None,
        send_queue: None,
        recv_queue: None,
    }
}

/// Build the descriptor record of a kqueue: its pending-event count and
/// state word in the name.
pub fn open_file_from_bsd_kqueue(fd_num: u32, openflags: u32, count: i64, state: u32) -> (r:
    OpenFileInfo)
    ensures
        r.fd == FdType::Numbered(fd_num, openflags_mode(openflags)),
        r.mode == Some(openflags_mode(openflags)),
        r.file_type is Kqueue,
        r.device@.len() == 0,
        r.size_off is None,
        r.node@ == "kqueue"@,
        r.name@ == "count="@ + dec_seq_signed(count as int) + ", state=0x"@ + hex_seq(
            state as nat,
        ),
        r.link_target is None,
        r.wf(),
{
    let mode = fd_mode_from_openflags(openflags);
    let mut name = String::from_str("count=");
    let d = i64_to_dec(count);
    name.append(d.as_str());
    name.append(", state=0x");
    let h = u64_to_hex(state as u64);
    name.append(h.as_str());
    assert(name@ =~= "count="@ + dec_seq_signed(count as int) + ", state=0x"@ + hex_seq(
        state as nat,
    ));
    OpenFileInfo {
        fd: FdType::Numbered(fd_num, mode),
        file_type: FileType::Kqueue,
        device: String::new(),
        size_off: None,
        node: String::from_str("kqueue"),
        name,
        mode: Some(mode),
        link_target: None,
        send_queue: None,
        recv_queue: None,
    }
}

/// Build the descriptor record of a BSD descriptor of some other kind,
/// from its kind label.
pub fn open_file_from_bsd_unknown(fd_num: u32, kind: String) -> (r: OpenFileInfo)
    ensures
        r.fd == FdType::Numbered(fd_num, FdMode::Unknown),
        r.mode == Some(FdMode::Unknown),
        r.file_type matches FileType::Unknown(s) && s@ == kind@,
        r.device@.len() == 0,
        r.size_off is None,
        r.node@.len() == 0,
        r.name@ == kind@ + " fd="@ + dec_seq(fd_num as nat),
        r.link_target is None,
        r.wf(),
{
    let mut name = kind.clone();
    name.append(" fd=");
    let d = u64_to_dec(fd_num as u64);
    name.append(d.as_str());
    OpenFileInfo {
        fd: FdType::Numbered(fd_num, FdMode::Unknown),
        file_type: FileType::Unknown(kind),
        device: String::new(),
        size_off: None,
        node: String::new(),
        name,
        mode: Some(FdMode::Unknown),
        link_target: None,
        send_queue: None,
        recv_queue: None,
    }
}

/// Build the network connection record of a BSD socket, when it is one
/// of the kinds the network view reports: TCP, UDP, or unix-domain.
pub fn network_info_from_bsd_socket(info: BsdSocketInfo, pid: u32, command: Option<String>) -> (r:
    Option<NetworkInfo>)
    ensures
        match info {
            BsdSocketInfo::Tcp { v6, local_addr, remote_addr, local_port, remote_port, state } => {
                &&& r matches Some(n)
                &&& n.protocol == (if v6 {
                    Protocol::Tcp6
                } else {
                    Protocol::Tcp
                })
                &&& n.local_addr@ == local_addr@
                &&& n.local_port == local_port
                &&& n.remote_addr@ == remote_addr@
                &&& n.remote_port == remote_port
                &&& n.state == state
                &&& n.pid == Some(pid)
            },
            BsdSocketInfo::InProto {
                v6,
                local_addr,
                remote_addr,
                local_port,
                remote_port,
                udp,
            } => {
                if udp {
                    &&& r matches Some(n)
                    &&& n.protocol == (if v6 {
                        Protocol::Udp6
                    } else {
                        Protocol::Udp
                    })
                    &&& n.local_addr@ == local_addr@
                    &&& n.local_port == local_port
                    &&& n.remote_addr@ == remote_addr@
                    &&& n.remote_port == remote_port
                    &&& n.state matches TcpState::Unknown(s) && s@ == "NONE"@
                    &&& n.pid == Some(pid)
                } else {
                    r is None
                }
            },
            BsdSocketInfo::UnixSock { path, conn } => {
                &&& r matches Some(n)
                &&& n.protocol == Protocol::Unix
                &&& n.local_addr@ == path@
                &&& n.local_port == 0
                &&& n.remote_addr@.len() == 0
                &&& n.remote_port == 0
                &&& n.state matches TcpState::Unknown(s) && s@ == "NONE"@
                &&& n.pid == Some(pid)
            },
            BsdSocketInfo::KernCtl { .. } => r is None,
            BsdSocketInfo::OtherKind { .. } => r is None,
        },
{
    match info {
        BsdSocketInfo::Tcp { v6, local_addr, remote_addr, local_port, remote_port, state } => {
            Some(
                NetworkInfo {
                    protocol: if v6 {
                        Protocol::Tcp6
                    } else {
                        Protocol::Tcp
                    },
                    local_addr,
                    local_port,
                    remote_addr,
                    remote_port,
                    state,
                    pid: Some(pid),
                    command,
                },
            )
        },
        BsdSocketInfo::InProto { v6, local_addr, remote_addr, local_port, remote_port, udp } => {
            if udp {
                Some(
                    NetworkInfo {
                        protocol: if v6 {
                            Protocol::Udp6
                        } else {
                            Protocol::Udp
                        },
                        local_addr,
                        local_port,
                        remote_addr,
                        remote_port,
                        state: TcpState::Unknown(String::from_str("NONE")),
                        pid: Some(pid),
                        command,
                    },
                )
            } else {
                None
            }
        },
        BsdSocketInfo::UnixSock { path, conn } => {
            Some(
                NetworkInfo {
                    protocol: Protocol::Unix,
                    local_addr: path,
                    local_port: 0,
                    remote_addr: String::new(),
                    remote_port: 0,
                    state: TcpState::Unknown(String::from_str("NONE")),
                    pid: Some(pid),
                    command,
                },
            )
        },
        BsdSocketInfo::KernCtl { .. } => None,
        BsdSocketInfo::OtherKind { .. } => None,
    }
}

} // verus!
