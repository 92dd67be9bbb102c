//! Domain model: typed records for processes, descriptors and socket
//! endpoints, with their rendering to the classical column labels.

use vstd::prelude::*;
use crate::text::{dec_seq, u64_to_dec, pad_right_seq, pad_right};

verus! {

/// Access mode of a numbered descriptor slot.
#[derive(Debug, Clone, Copy, PartialEq, Eq, Structural)]
pub enum FdMode {
    Read,
    Write,
    ReadWrite,
    Unknown,
}

/// The one-character rendering of an access mode: `r`, `w`, `u`, or a space.
pub open spec fn fd_mode_label(m: FdMode) -> Seq<char> {
    match m {
        FdMode::Read => "r"@,
        FdMode::Write => "w"@,
        FdMode::ReadWrite => "u"@,
        FdMode::Unknown => " "@,
    }
}

impl FdMode {
    /// Render the mode as its one-character column form.
    pub fn label(&self) -> (r: String)
        ensures
            r@ == fd_mode_label(*self),
    {
        match self {
            FdMode::Read => String::from_str("r"),
            FdMode::Write => String::from_str("w"),
            FdMode::ReadWrite => String::from_str("u"),
            FdMode::Unknown => String::from_str(" "),
        }
    }
}

/// Descriptor slot: one of the special pseudo-descriptors or a numbered
/// kernel file-table slot with its access mode.
#[derive(Debug, Clone, Copy, PartialEq, Eq, Structural)]
pub enum FdType {
    Cwd,
    Txt,
    Mem,
    Rtd,
    Mmap,
    Numbered(u32, FdMode),
}

/// The FD-column rendering of a descriptor slot.
pub open spec fn fd_label(fd: FdType) -> Seq<char> {
    match fd {
        FdType::Cwd => "cwd"@,
        FdType::Txt => "txt"@,
        FdType::Mem => "mem"@,
        FdType::Rtd => "rtd"@,
        FdType::Mmap => "mmap"@,
        FdType::Numbered(n, m) => dec_seq(n as nat) + fd_mode_label(m),
    }
}

impl FdType {
    /// Render the slot as it appears in the FD column.
    pub fn label(&self) -> (r: String)
        ensures
            r@ == fd_label(*self),
    {
        match self {
            FdType::Cwd => String::from_str("cwd"),
            FdType::Txt => String::from_str("txt"),
            FdType::Mem => String::from_str("mem"),
            FdType::Rtd => String::from_str("rtd"),
            FdType::Mmap => String::from_str("mmap"),
            FdType::Numbered(n, m) => {
                let mut s = u64_to_dec(*n as u64);
                let ml = m.label();
                s.append(ml.as_str());
                s
            },
        }
    }
}

/// File-type tag of a descriptor.
#[derive(Debug)]
pub enum FileType {
    Reg,
    Dir,
    Chr,
    Blk,
    Fifo,
    Sock,
    Link,
    Pipe,
    IPv4,
    IPv6,
    Unix,
    Kqueue,
    Systm,
    Unknown(String),
}

impl Clone for FileType {
    /// An exact copy.
    fn clone(&self) -> (r: Self)
        ensures
            r == *self,
    {
        match self {
            FileType::Reg => FileType::Reg,
            FileType::Dir => FileType::Dir,
            FileType::Chr => FileType::Chr,
            FileType::Blk => FileType::Blk,
            FileType::Fifo => FileType::Fifo,
            FileType::Sock => FileType::Sock,
            FileType::Link => FileType::Link,
            FileType::Pipe => FileType::Pipe,
            FileType::IPv4 => FileType::IPv4,
            FileType::IPv6 => FileType::IPv6,
            FileType::Unix => FileType::Unix,
            FileType::Kqueue => FileType::Kqueue,
            FileType::Systm => FileType::Systm,
            FileType::Unknown(s) => FileType::Unknown(s.clone()),
        }
    }
}

/// The TYPE-column rendering of a file-type tag.
pub open spec fn file_type_label(t: FileType) -> Seq<char> {
    match t {
        FileType::Reg => "REG"@,
        FileType::Dir => "DIR"@,
        FileType::Chr => "CHR"@,
        FileType::Blk => "BLK"@,
        FileType::Fifo => "FIFO"@,
        FileType::Sock => "SOCK"@,
        FileType::Link => "LINK"@,
        FileType::Pipe => "PIPE"@,
        FileType::IPv4 => "IPv4"@,
        FileType::IPv6 => "IPv6"@,
        FileType::Unix => "unix"@,
        FileType::Kqueue => "KQUEUE"@,
        FileType::Systm => "SYSTM"@,
        FileType::Unknown(s) => s@,
    }
}

/// Whether a file-type tag names a socket of some kind, which is what the
/// inet filter selects on.
pub open spec fn is_network_type(t: FileType) -> bool {
    t is IPv4 || t is IPv6 || t is Sock || t is Unix
}

impl FileType {
    /// Render the tag as it appears in the TYPE column.
    pub fn label(&self) -> (r: String)
        ensures
            r@ == file_type_label(*self),
    {
        match self {
            FileType::Reg => String::from_str("REG"),
            FileType::Dir => String::from_str("DIR"),
            FileType::Chr => String::from_str("CHR"),
            FileType::Blk => String::from_str("BLK"),
            FileType::Fifo => String::from_str("FIFO"),
            FileType::Sock => String::from_str("SOCK"),
            FileType::Link => String::from_str("LINK"),
            FileType::Pipe => String::from_str("PIPE"),
            FileType::IPv4 => String::from_str("IPv4"),
            FileType::IPv6 => String::from_str("IPv6"),
            FileType::Unix => String::from_str("unix"),
            FileType::Kqueue => String::from_str("KQUEUE"),
            FileType::Systm => String::from_str("SYSTM"),
            FileType::Unknown(s) => s.clone(),
        }
    }

    /// Whether this tag is one of the socket kinds.
    pub fn is_network(&self) -> (r: bool)
        ensures
            r == is_network_type(*self),
    {
        match self {
            FileType::IPv4 => true,
            FileType::IPv6 => true,
            FileType::Sock => true,
            FileType::Unix => true,
            _ => false,
        }
    }
}

/// One kernel file-table entry held by a process.
#[derive(Debug, Clone)]
pub struct OpenFileInfo {
    pub fd: FdType,
    pub file_type: FileType,
    pub device: String,
    pub size_off: Option<u64>,
    pub node: String,
    pub name: String,
    pub mode: Option<FdMode>,
    pub link_target: Option<String>,
    pub send_queue: Option<u64>,
    pub recv_queue: Option<u64>,
}

impl OpenFileInfo {
    /// A numbered slot always carries its own mode in the `mode` field.
    pub open spec fn wf(&self) -> bool {
        forall|n: u32, m: FdMode|
            self.fd == FdType::Numbered(n, m) ==> self.mode == Some(m)
    }
}

/// One process with its identity fields and, once populated, its
/// descriptor list.
#[derive(Debug, Clone)]
pub struct ProcessInfo {
    pub pid: u32,
    pub ppid: Option<u32>,
    pub pgid: Option<u32>,
    pub command: String,
    pub comm: String,
    pub user: String,
    pub uid: u32,
    pub open_files: Vec<OpenFileInfo>,
}

impl ProcessInfo {
    /// The number of descriptor records currently held.
    pub fn fd_count(&self) -> (r: usize)
        ensures
            r == self.open_files@.len(),
    {
        self.open_files.len()
    }

    /// A one-line summary: pid, short command and user, each left-aligned
    /// in a fixed-width field.
    pub fn display_line(&self) -> (r: String)
        ensures
            r@ == pad_right_seq(dec_seq(self.pid as nat), 8) + " "@ + pad_right_seq(
                self.comm@,
                20,
            ) + " "@ + pad_right_seq(self.user@, 12),
    {
        let p = u64_to_dec(self.pid as u64);
        let mut r = pad_right(p.as_str(), 8);
        r.append(" ");
        let c = pad_right(self.comm.as_str(), 20);
        r.append(c.as_str());
        r.append(" ");
        let u = pad_right(self.user.as_str(), 12);
        r.append(u.as_str());
        r
    }
}

/// Whether two optional strings hold the same text.
pub open spec fn opt_str_equiv(a: Option<String>, b: Option<String>) -> bool {
    match (a, b) {
        (Some(x), Some(y)) => x@ == y@,
        (None, None) => true,
        _ => false,
    }
}

/// Whether two file-type tags are alike: the same variant, with the
/// same label text when the variant carries one.
pub open spec fn file_type_equiv(a: FileType, b: FileType) -> bool {
    match (a, b) {
        (FileType::Reg, FileType::Reg) => true,
        (FileType::Dir, FileType::Dir) => true,
        (FileType::Chr, FileType::Chr) => true,
        (FileType::Blk, FileType::Blk) => true,
        (FileType::Fifo, FileType::Fifo) => true,
        (FileType::Sock, FileType::Sock) => true,
        (FileType::Link, FileType::Link) => true,
        (FileType::Pipe, FileType::Pipe) => true,
        (FileType::IPv4, FileType::IPv4) => true,
        (FileType::IPv6, FileType::IPv6) => true,
        (FileType::Unix, FileType::Unix) => true,
        (FileType::Kqueue, FileType::Kqueue) => true,
        (FileType::Systm, FileType::Systm) => true,
        (FileType::Unknown(x), FileType::Unknown(y)) => x@ == y@,
        _ => false,
    }
}

/// Alike tags render to the same TYPE column text and fall on the same
/// side of every variant test the filters make.
pub proof fn lemma_file_type_label_equiv(a: FileType, b: FileType)
    requires
        file_type_equiv(a, b),
    ensures
        file_type_label(a) == file_type_label(b),
        is_network_type(a) == is_network_type(b),
        (a is IPv4) == (b is IPv4),
        (a is IPv6) == (b is IPv6),
{
}

/// Whether two descriptor records carry the same observable data.
pub open spec fn open_file_equiv(a: OpenFileInfo, b: OpenFileInfo) -> bool {
    &&& a.fd == b.fd
    &&& file_type_equiv(a.file_type, b.file_type)
    &&& a.device@ == b.device@
    &&& a.size_off == b.size_off
    &&& a.node@ == b.node@
    &&& a.name@ == b.name@
    &&& a.mode == b.mode
    &&& opt_str_equiv(a.link_target, b.link_target)
    &&& a.send_queue == b.send_queue
    &&& a.recv_queue == b.recv_queue
}

/// Whether two process records carry the same observable data: the
/// identity fields agree and the descriptor lists are alike, record by
/// record.
pub open spec fn process_equiv(a: ProcessInfo, b: ProcessInfo) -> bool {
    &&& a.pid == b.pid
    &&& a.ppid == b.ppid
    &&& a.pgid == b.pgid
    &&& a.uid == b.uid
    &&& a.comm@ == b.comm@
    &&& a.user@ == b.user@
    &&& a.command@ == b.command@
    &&& a.open_files@.len() == b.open_files@.len()
    &&& forall|i: int|
        0 <= i < a.open_files@.len() ==> open_file_equiv(
            #[trigger] a.open_files@[i],
            b.open_files@[i],
        )
}

/// Transport protocol of a socket-table entry.
#[derive(Debug, Clone, Copy, PartialEq, Eq, Structural)]
pub enum Protocol {
    Tcp,
    Tcp6,
    Udp,
    Udp6,
    Unix,
}

/// The rendering of a protocol tag.
pub open spec fn protocol_label(p: Protocol) -> Seq<char> {
    match p {
        Protocol::Tcp => "TCP"@,
        Protocol::Tcp6 => "TCP6"@,
        Protocol::Udp => "UDP"@,
        Protocol::Udp6 => "UDP6"@,
        Protocol::Unix => "unix"@,
    }
}

impl Protocol {
    /// Render the protocol tag.
    pub fn label(&self) -> (r: String)
        ensures
            r@ == protocol_label(*self),
    {
        match self {
            Protocol::Tcp => String::from_str("TCP"),
            Protocol::Tcp6 => String::from_str("TCP6"),
            Protocol::Udp => String::from_str("UDP"),
            Protocol::Udp6 => String::from_str("UDP6"),
            Protocol::Unix => String::from_str("unix"),
        }
    }
}

/// TCP connection state as the user sees it.
#[derive(Debug)]
pub enum TcpState {
    Listen,
    Established,
    CloseWait,
    TimeWait,
    SynSent,
    SynRecv,
    FinWait1,
    FinWait2,
    Closing,
    LastAck,
    Closed,
    Unknown(String),
}

impl Clone for TcpState {
    /// An exact copy.
    fn clone(&self) -> (r: Self)
        ensures
            r == *self,
    {
        match self {
            TcpState::Listen => TcpState::Listen,
            TcpState::Established => TcpState::Established,
            TcpState::CloseWait => TcpState::CloseWait,
            TcpState::TimeWait => TcpState::TimeWait,
            TcpState::SynSent => TcpState::SynSent,
            TcpState::SynRecv => TcpState::SynRecv,
            TcpState::FinWait1 => TcpState::FinWait1,
            TcpState::FinWait2 => TcpState::FinWait2,
            TcpState::Closing => TcpState::Closing,
            TcpState::LastAck => TcpState::LastAck,
            TcpState::Closed => TcpState::Closed,
            TcpState::Unknown(s) => TcpState::Unknown(s.clone()),
        }
    }
}

/// The rendering of a TCP state.
pub open spec fn tcp_state_label(s: TcpState) -> Seq<char> {
    match s {
        TcpState::Listen => "LISTEN"@,
        TcpState::Established => "ESTABLISHED"@,
        TcpState::CloseWait => "CLOSE_WAIT"@,
        TcpState::TimeWait => "TIME_WAIT"@,
        TcpState::SynSent => "SYN_SENT"@,
        TcpState::SynRecv => "SYN_RECV"@,
        TcpState::FinWait1 => "FIN_WAIT1"@,
        TcpState::FinWait2 => "FIN_WAIT2"@,
        TcpState::Closing => "CLOSING"@,
        TcpState::LastAck => "LAST_ACK"@,
        TcpState::Closed => "CLOSED"@,
        TcpState::Unknown(t) => t@,
    }
}

impl TcpState {
    /// Render the state as the user sees it.
    pub fn label(&self) -> (r: String)
        ensures
            r@ == tcp_state_label(*self),
    {
        match self {
            TcpState::Listen => String::from_str("LISTEN"),
            TcpState::Established => String::from_str("ESTABLISHED"),
            TcpState::CloseWait => String::from_str("CLOSE_WAIT"),
            TcpState::TimeWait => String::from_str("TIME_WAIT"),
            TcpState::SynSent => String::from_str("SYN_SENT"),
            TcpState::SynRecv => String::from_str("SYN_RECV"),
            TcpState::FinWait1 => String::from_str("FIN_WAIT1"),
            TcpState::FinWait2 => String::from_str("FIN_WAIT2"),
            TcpState::Closing => String::from_str("CLOSING"),
            TcpState::LastAck => String::from_str("LAST_ACK"),
            TcpState::Closed => String::from_str("CLOSED"),
            TcpState::Unknown(t) => t.clone(),
        }
    }
}

/// One network endpoint joined from the kernel socket tables.
#[derive(Debug, Clone)]
pub struct NetworkInfo {
    pub protocol: Protocol,
    pub local_addr: String,
    pub local_port: u16,
    pub remote_addr: String,
    pub remote_port: u16,
    pub state: TcpState,
    pub pid: Option<u32>,
    pub command: Option<String>,
}

} // verus!
