//! Decoding of procfs-exposed process data: open-flag words, device
//! numbers, stat mode bits, and the assembly of descriptor records from
//! stat results.

use vstd::prelude::*;
use crate::model::{FdMode, FdType, FileType, OpenFileInfo};
use crate::text::{
    all_oct_digits, dec_seq, dec_val, oct_val, split_seq, starts_with_seq, trim_seq, u64_to_dec,
};

verus! {

/// The access mode encoded in the low two bits of a POSIX open-flag
/// word: 0 read, 1 write, 2 read-write.
pub open spec fn fd_mode_of_flags(flags: u32) -> FdMode {
    if flags % 4 == 0 {
        FdMode::Read
    } else if flags % 4 == 1 {
        FdMode::Write
    } else if flags % 4 == 2 {
        FdMode::ReadWrite
    } else {
        FdMode::Unknown
    }
}

/// Determine the access mode from a POSIX open-flag word.
pub fn fd_mode_from_flags(flags: u32) -> (r: FdMode)
    ensures
        r == fd_mode_of_flags(flags),
{
    let low = flags % 4;
    if low == 0 {
        FdMode::Read
    } else if low == 1 {
        FdMode::Write
    } else if low == 2 {
        FdMode::ReadWrite
    } else {
        FdMode::Unknown
    }
}

/// `s` with its leading zero characters removed.
pub open spec fn drop_zeros(s: Seq<char>) -> Seq<char>
    decreases s.len(),
{
    if s.len() > 0 && s[0] == '0' {
        drop_zeros(s.subrange(1, s.len() as int))
    } else {
        s
    }
}

proof fn lemma_drop_zeros_at(s: Seq<char>, k: int)
    requires
        0 <= k <= s.len(),
        forall|j: int| 0 <= j < k ==> s[j] == '0',
        k == s.len() || s[k] != '0',
    ensures
        drop_zeros(s) == s.subrange(k, s.len() as int),
    decreases k,
{
    if k == 0 {
        assert(s.subrange(0, s.len() as int) =~= s);
    } else {
        let t = s.subrange(1, s.len() as int);
        lemma_drop_zeros_at(t, k - 1);
        assert(t.subrange(k - 1, t.len() as int) =~= s.subrange(k, s.len() as int));
    }
}

/// The mode denoted by the text after `flags:` in an fdinfo record: the
/// digits are read as octal once leading zeros are stripped, falling
/// back to decimal; an unreadable value yields nothing.
pub open spec fn flags_value_mode(rest: Seq<char>) -> Option<FdMode> {
    let t = trim_seq(rest);
    let d = drop_zeros(t);
    let oct = if d.len() == 0 {
        "0"@
    } else {
        d
    };
    if oct.len() > 0 && all_oct_digits(oct) && oct_val(oct) <= u32::MAX {
        Some(fd_mode_of_flags(oct_val(oct) as u32))
    } else if t.len() > 0 && crate::text::all_digits(t) && dec_val(t) <= u32::MAX {
        Some(fd_mode_of_flags(dec_val(t) as u32))
    } else {
        None
    }
}

/// The mode denoted by a sequence of fdinfo lines: the first `flags:`
/// line with a readable value decides; with none the mode is unknown.
pub open spec fn fdinfo_lines_mode(lines: Seq<Seq<char>>) -> FdMode
    decreases lines.len(),
{
    if lines.len() == 0 {
        FdMode::Unknown
    } else if starts_with_seq(lines[0], "flags:"@) {
        let rest = lines[0].subrange("flags:"@.len() as int, lines[0].len() as int);
        match flags_value_mode(rest) {
            Some(m) => m,
            None => fdinfo_lines_mode(lines.drop_first()),
        }
    } else {
        fdinfo_lines_mode(lines.drop_first())
    }
}

/// The access mode recorded in the full text of an fdinfo record.
pub open spec fn fdinfo_mode_spec(content: Seq<char>) -> FdMode {
    fdinfo_lines_mode(split_seq(content, '\n'))
}

fn flags_value_mode_exec(rest: &str) -> (r: Option<FdMode>)
    ensures
        r == flags_value_mode(rest@),
{
    let t = crate::text::str_trim(rest);
    let tn = t.unicode_len();
    let mut z: usize = 0;
    while z < tn && t.get_char(z) == '0'
        invariant
            0 <= z <= tn,
            tn == t@.len(),
            forall|j: int| 0 <= j < z ==> t@[j] == '0',
        decreases tn - z,
    {
        z = z + 1;
    }
    proof {
        lemma_drop_zeros_at(t@, z as int);
    }
    let digits = t.substring_char(z, tn);
    let oct_str = if digits.is_empty() {
        proof {
            reveal_strlit("0");
        }
        assert("0"@ =~= seq!['0']);
        "0"
    } else {
        digits
    };
    match crate::text::parse_oct_u32(oct_str) {
        Some(v) => Some(fd_mode_from_flags(v)),
        None => {
            match crate::text::parse_u64(t) {
                Some(v) => {
                    if v <= 0xffff_ffff {
                        Some(fd_mode_from_flags(v as u32))
                    } else {
                        None
                    }
                },
                None => None,
            }
        },
    }
}

/// Determine the access mode from the text of `fdinfo` for a
/// descriptor, by its `flags:` line.
pub fn fd_mode_from_fdinfo(content: &str) -> (r: FdMode)
    ensures
        r == fdinfo_mode_spec(content@),
{
    let lines = crate::text::str_split(content, '\n');
    let ghost lv = crate::text::views_of(lines@);
    let n = lines.len();
    proof {
        assert(lv.subrange(0, n as int) =~= lv);
    }
    let mut k: usize = 0;
    while k < n
        invariant
            0 <= k <= n,
            n == lines@.len(),
            lv == crate::text::views_of(lines@),
            lv == split_seq(content@, '\n'),
            fdinfo_lines_mode(lv) == fdinfo_lines_mode(lv.subrange(k as int, n as int)),
        decreases n - k,
    {
        let ghost suffix = lv.subrange(k as int, n as int);
        proof {
            assert(suffix[0] == lv[k as int]);
            assert(suffix.drop_first() =~= lv.subrange(k as int + 1, n as int));
        }
        let line = &lines[k];
        if crate::text::str_starts_with(line.as_str(), "flags:") {
            let plen = "flags:".unicode_len();
            let llen = line.as_str().unicode_len();
            let rest = line.as_str().substring_char(plen, llen);
            match flags_value_mode_exec(rest) {
                Some(m) => {
                    return m;
                },
                None => {},
            }
        }
        k = k + 1;
    }
    proof {
        assert(lv.subrange(n as int, n as int) =~= Seq::<Seq<char>>::empty());
    }
    FdMode::Unknown
}

/// The `major,minor` rendering of a device number, with the fields laid
/// out as the kernel packs them.
pub open spec fn device_label(dev: u64) -> Seq<char> {
    dec_seq((((dev >> 8) & 0xfff) | ((dev >> 32) & !0xfffu64)) as nat) + ","@ + dec_seq(
        (((dev) & 0xff) | ((dev >> 12) & !0xffu64)) as nat,
    )
}

/// Format a device number as `major,minor`.
pub fn format_device(dev: u64) -> (r: String)
    ensures
        r@ == device_label(dev),
{
    let major: u64 = ((dev >> 8) & 0xfff) | ((dev >> 32) & !0xfffu64);
    let minor: u64 = ((dev) & 0xff) | ((dev >> 12) & !0xffu64);
    let mut r = u64_to_dec(major);
    r.append(",");
    let m = u64_to_dec(minor);
    r.append(m.as_str());
    r
}

/// Whether `t` is the file type encoded in the high bits of a stat
/// mode word.
pub open spec fn mode_file_type_is(mode: u32, t: FileType) -> bool {
    let m = mode & 0o170000;
    if m == 0o100000 {
        t is Reg
    } else if m == 0o040000 {
        t is Dir
    } else if m == 0o120000 {
        t is Link
    } else if m == 0o060000 {
        t is Blk
    } else if m == 0o020000 {
        t is Chr
    } else if m == 0o010000 {
        t is Fifo
    } else if m == 0o140000 {
        t is Sock
    } else {
        t matches FileType::Unknown(s) && s@ == "unknown"@
    }
}

/// Classify a stat mode word into a file type.
pub fn file_type_from_mode(mode: u32) -> (r: FileType)
    ensures
        mode_file_type_is(mode, r),
{
    let m = mode & 0o170000;
    if m == 0o100000 {
        FileType::Reg
    } else if m == 0o040000 {
        FileType::Dir
    } else if m == 0o120000 {
        FileType::Link
    } else if m == 0o060000 {
        FileType::Blk
    } else if m == 0o020000 {
        FileType::Chr
    } else if m == 0o010000 {
        FileType::Fifo
    } else if m == 0o140000 {
        FileType::Sock
    } else {
        FileType::Unknown(String::from_str("unknown"))
    }
}

/// The stat fields the descriptor records use: the mode word, the
/// device number, the size, and the inode.
#[derive(Debug, Clone, Copy)]
pub struct StatInfo {
    pub mode_bits: u32,
    pub dev: u64,
    pub size: u64,
    pub ino: u64,
}

/// What a path-backed descriptor record must look like, given the stat
/// result the front end obtained (or failed to obtain) and the symlink
/// target it resolved: under `avoid_stat` only the name is recorded;
/// a failed stat still yields a record with empty stat fields; a
/// successful one fills every column, and keeps the symlink target
/// only when the mode word marks a symbolic link.
pub open spec fn path_record_is(
    r: OpenFileInfo,
    name: Seq<char>,
    stat: Option<StatInfo>,
    link_target: Option<Seq<char>>,
    avoid_stat: bool,
) -> bool {
    &&& r.name@ == name
    &&& r.send_queue is None
    &&& r.recv_queue is None
    &&& if avoid_stat {
        &&& r.file_type matches FileType::Unknown(s) && s@.len() == 0
        &&& r.device@.len() == 0
        &&& r.size_off is None
        &&& r.node@.len() == 0
        &&& r.link_target is None
    } else {
        match stat {
            Some(st) => {
                &&& mode_file_type_is(st.mode_bits, r.file_type)
                &&& r.device@ == device_label(st.dev)
                &&& r.size_off == Some(st.size)
                &&& r.node@ == dec_seq(st.ino as nat)
                &&& if st.mode_bits & 0o170000 == 0o120000 {
                    match (r.link_target, link_target) {
                        (Some(a), Some(b)) => a@ == b,
                        (None, None) => true,
                        _ => false,
                    }
                } else {
                    r.link_target is None
                }
            },
            None => {
                &&& r.file_type matches FileType::Unknown(s) && s@ == "?"@
                &&& r.device@.len() == 0
                &&& r.size_off is None
                &&& r.node@.len() == 0
                &&& r.link_target is None
            },
        }
    }
}

fn stat_fields(stat: &Option<StatInfo>, link_target: Option<String>) -> (r: (
    FileType,
    String,
    Option<u64>,
    String,
    Option<String>,
))
    ensures
        match *stat {
            Some(st) => {
                &&& mode_file_type_is(st.mode_bits, r.0)
                &&& r.1@ == device_label(st.dev)
                &&& r.2 == Some(st.size)
                &&& r.3@ == dec_seq(st.ino as nat)
                &&& if st.mode_bits & 0o170000 == 0o120000 {
                    r.4 == link_target
                } else {
                    r.4 is None
                }
            },
            None => {
                &&& r.0 matches FileType::Unknown(s) && s@ == "?"@
                &&& r.1@.len() == 0
                &&& r.2 is None
                &&& r.3@.len() == 0
                &&& r.4 is None
            },
        },
{
    match stat {
        Some(st) => {
            let ft = file_type_from_mode(st.mode_bits);
            let dev = format_device(st.dev);
            let node = u64_to_dec(st.ino);
            let lt = if st.mode_bits & 0o170000 == 0o120000 {
                link_target
            } else {
                None
            };
            (ft, dev, Some(st.size), node, lt)
        },
        None => {
            (
                FileType::Unknown(String::from_str("?")),
                String::new(),
                None,
                String::new(),
                None,
            )
        },
    }
}

/// Build the record of a special descriptor (current directory, root,
/// executable image, or mapped file) from its path and stat result.
pub fn open_file_from_path(
    name: String,
    fd: FdType,
    stat: Option<StatInfo>,
    link_target: Option<String>,
    avoid_stat: bool,
) -> (r: OpenFileInfo)
    requires
        !(fd is Numbered),
    ensures
        r.fd == fd,
        r.mode is None,
        path_record_is(r, name@, stat, match link_target {
            Some(l) => Some(l@),
            None => None,
        }, avoid_stat),
        r.wf(),
{
    if avoid_stat {
        return OpenFileInfo {
            fd,
            file_type: FileType::Unknown(String::new()),
            device: String::new(),
            size_off: None,
            node: String::new(),
            name,
            mode: None,
            link_target: None,
            send_queue: None,
            recv_queue: None,
        };
    }
    let (file_type, device, size_off, node, lt) = stat_fields(&stat, link_target);
    OpenFileInfo {
        fd,
        file_type,
        device,
        size_off,
        node,
        name,
        mode: None,
        link_target: lt,
        send_queue: None,
        recv_queue: None,
    }
}

/// Build the record of one file-backed memory mapping: a `mem`
/// pseudo-descriptor read-only by nature; a failed stat still yields a
/// regular-file record with empty stat fields.
pub fn open_file_from_map_path(name: String, stat: Option<StatInfo>) -> (r: OpenFileInfo)
    ensures
        r.fd == FdType::Mem,
        r.mode == Some(FdMode::Read),
        r.name@ == name@,
        r.link_target is None,
        r.send_queue is None,
        r.recv_queue is None,
        match stat {
            Some(st) => {
                &&& mode_file_type_is(st.mode_bits, r.file_type)
                &&& r.device@ == device_label(st.dev)
                &&& r.size_off == Some(st.size)
                &&& r.node@ == dec_seq(st.ino as nat)
            },
            None => {
                &&& r.file_type is Reg
                &&& r.device@.len() == 0
                &&& r.size_off is None
                &&& r.node@.len() == 0
            },
        },
        r.wf(),
{
    let (file_type, device, size_off, node) = match stat {
        Some(st) => {
            (
                file_type_from_mode(st.mode_bits),
                format_device(st.dev),
                Some(st.size),
                u64_to_dec(st.ino),
            )
        },
        None => (FileType::Reg, String::new(), None, String::new()),
    };
    OpenFileInfo {
        fd: FdType::Mem,
        file_type,
        device,
        size_off,
        node,
        name,
        mode: Some(FdMode::Read),
        link_target: None,
        send_queue: None,
        recv_queue: None,
    }
}

/// Build the record of a numbered path-backed descriptor from its
/// path, slot, access mode and stat result.
pub fn open_file_from_fd_path(
    name: String,
    fd_num: u32,
    mode: FdMode,
    stat: Option<StatInfo>,
    link_target: Option<String>,
    avoid_stat: bool,
) -> (r: OpenFileInfo)
    ensures
        r.fd == FdType::Numbered(fd_num, mode),
        r.mode == Some(mode),
        path_record_is(r, name@, stat, match link_target {
            Some(l) => Some(l@),
            None => None,
        }, avoid_stat),
        r.wf(),
{
    if avoid_stat {
        return OpenFileInfo {
            fd: FdType::Numbered(fd_num, mode),
            file_type: FileType::Unknown(String::new()),
            device: String::new(),
            size_off: None,
            node: String::new(),
            name,
            mode: Some(mode),
            link_target: None,
            send_queue: None,
            recv_queue: None,
        };
    }
    let (file_type, device, size_off, node, lt) = stat_fields(&stat, link_target);
    OpenFileInfo {
        fd: FdType::Numbered(fd_num, mode),
        file_type,
        device,
        size_off,
        node,
        name,
        mode: Some(mode),
        link_target: lt,
        send_queue: None,
        recv_queue: None,
    }
}

} // verus!
