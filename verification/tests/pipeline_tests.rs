use loof::filter::{FilterConfig, InetFilter, PidFilter, UserFilter};
use loof::model::{FdMode, FdType, FileType, OpenFileInfo, ProcessInfo, Protocol, TcpState};
use loof::output::OutputFormatter;
use loof::pipeline::{filter_files, filter_processes, prune_empty_processes, render_output};
use loof::platform::procdata;
use loof::platform::sockets::{SocketEntry, SocketTable};
use loof::platform::{bsd, process_from_parts};
use loof::error::LoofError;

fn proc_named(pid: u32, user: &str, comm: &str) -> ProcessInfo {
    ProcessInfo {
        pid,
        ppid: None,
        pgid: None,
        command: comm.to_string(),
        comm: comm.to_string(),
        user: user.to_string(),
        uid: 0,
        open_files: Vec::new(),
    }
}

fn reg_file(name: &str) -> OpenFileInfo {
    OpenFileInfo {
        fd: FdType::Numbered(1, FdMode::Read),
        file_type: FileType::Reg,
        device: String::new(),
        size_off: Some(10),
        node: "5".to_string(),
        name: name.to_string(),
        mode: Some(FdMode::Read),
        link_target: None,
        send_queue: None,
        recv_queue: None,
    }
}

fn terse_formatter() -> OutputFormatter {
    OutputFormatter {
        cmd_width: 9,
        no_hostname: false,
        no_portname: false,
        list_uid: false,
        show_ppid: false,
        terse: true,
        field_output: None,
        tcp_info: None,
    }
}

#[test]
fn test_terse_self_pid_single_line() {
    // Selecting one PID in terse mode yields exactly one line: that PID.
    let me = 4242u32;
    let procs = vec![proc_named(1, "root", "init"), proc_named(me, "user", "loof")];
    let cfg = FilterConfig {
        pids: Some(PidFilter { included: vec![me], excluded: vec![] }),
        ..Default::default()
    };
    let kept = filter_processes(procs, &cfg);
    let rows = render_output(&terse_formatter(), &kept);
    assert_eq!(rows, vec!["4242"]);
}

#[test]
fn test_terse_excluded_pid_absent() {
    // Excluding PID 1 leaves no line equal to "1".
    let procs = vec![proc_named(1, "root", "init"), proc_named(33, "x", "y"), proc_named(
        100,
        "x",
        "y",
    )];
    let cfg = FilterConfig {
        pids: Some(PidFilter { included: vec![], excluded: vec![1] }),
        ..Default::default()
    };
    let kept = filter_processes(procs, &cfg);
    let rows = render_output(&terse_formatter(), &kept);
    assert!(!rows.iter().any(|r| r == "1"));
    assert_eq!(rows, vec!["33", "100"]);
}

#[test]
fn test_and_mode_with_unknown_user_rejects_all() {
    // AND of a matching PID and a nonexistent user selects nothing.
    let me = 4242u32;
    let procs = vec![proc_named(me, "user", "loof")];
    let cfg = FilterConfig {
        pids: Some(PidFilter { included: vec![me], excluded: vec![] }),
        users: Some(UserFilter {
            included: vec!["nonexistent_user_xyz".to_string()],
            excluded: vec![],
        }),
        and_mode: true,
        ..Default::default()
    };
    let kept = filter_processes(procs, &cfg);
    let rows = render_output(&terse_formatter(), &kept);
    assert!(rows.is_empty());
}

#[test]
fn test_file_filter_with_no_match_prunes_process() {
    // An active file-level filter that matches nothing empties the
    // process's list, and the prune pass then drops the process.
    let mut p = proc_named(10, "root", "worker");
    p.open_files = vec![reg_file("/var/log/a"), reg_file("/var/log/b")];
    let cfg = FilterConfig { dir_tree: Some("/tmp".to_string()), ..Default::default() };
    p.open_files = filter_files(p.open_files, &cfg);
    assert!(p.open_files.is_empty());
    let survivors = prune_empty_processes(vec![p]);
    assert!(survivors.is_empty());
}

#[test]
fn test_file_filter_keeps_matching_files() {
    let mut p = proc_named(10, "root", "worker");
    p.open_files = vec![reg_file("/tmp/a"), reg_file("/var/b"), reg_file("/tmp/c")];
    let cfg = FilterConfig { dir_tree: Some("/tmp".to_string()), ..Default::default() };
    p.open_files = filter_files(p.open_files, &cfg);
    let names: Vec<&str> = p.open_files.iter().map(|f| f.name.as_str()).collect();
    assert_eq!(names, vec!["/tmp/a", "/tmp/c"]);
    let survivors = prune_empty_processes(vec![p]);
    assert_eq!(survivors.len(), 1);
}

#[test]
fn test_columnar_placeholder_for_empty_process() {
    // A process with zero descriptors emits exactly one placeholder row
    // after the header, carrying only the identity columns.
    let fmt = OutputFormatter { terse: false, ..terse_formatter() };
    let procs = vec![proc_named(7, "root", "idle")];
    let rows = render_output(&fmt, &procs);
    assert_eq!(rows.len(), 2);
    assert!(rows[0].starts_with("COMMAND"));
    assert_eq!(rows[1], "idle          7 root    ");
}

#[test]
fn test_render_twice_identical() {
    // The same snapshot renders to the same lines, run after run.
    let fmt = OutputFormatter { terse: false, ..terse_formatter() };
    let mut p = proc_named(9, "root", "svc");
    p.open_files = vec![reg_file("/tmp/a")];
    let procs = vec![p];
    let first = render_output(&fmt, &procs);
    let second = render_output(&fmt, &procs);
    assert_eq!(first, second);
}

#[test]
fn test_field_mode_empty_process_only_identity_lines() {
    let fmt = OutputFormatter {
        terse: false,
        field_output: Some("pcn".to_string()),
        ..terse_formatter()
    };
    let procs = vec![proc_named(8, "root", "idle")];
    let rows = render_output(&fmt, &procs);
    assert_eq!(rows, vec!["p8", "cidle"]);
}

// -- Socket correlation --

fn tcp_entry(inode: u64) -> SocketEntry {
    SocketEntry {
        inode,
        protocol: Protocol::Tcp,
        local_addr: "127.0.0.1".to_string(),
        local_port: 80,
        remote_addr: "10.0.0.1".to_string(),
        remote_port: 12345,
        state: TcpState::Established,
        tx_queue: Some(3),
        rx_queue: Some(4),
    }
}

#[test]
fn test_socket_lookup_hit_formats_endpoint() {
    let mut table = SocketTable::new();
    table.push(tcp_entry(999));
    let f = loof::platform::sockets::open_file_from_socket_inode(5, FdMode::ReadWrite, 999, &table);
    assert!(matches!(f.file_type, FileType::IPv4));
    assert_eq!(f.name, "127.0.0.1:80 -> 10.0.0.1:12345 (ESTABLISHED)");
    assert_eq!(f.node, "999");
    assert_eq!(f.send_queue, Some(3));
    assert_eq!(f.recv_queue, Some(4));
    assert!(matches!(f.fd, FdType::Numbered(5, FdMode::ReadWrite)));
    assert_eq!(f.mode, Some(FdMode::ReadWrite));
}

#[test]
fn test_socket_lookup_miss_falls_back() {
    let table = SocketTable::new();
    let f = loof::platform::sockets::open_file_from_socket_inode(5, FdMode::Read, 123, &table);
    assert!(matches!(f.file_type, FileType::Sock));
    assert_eq!(f.name, "socket:[123]");
    let g = loof::platform::sockets::open_file_from_net_inode(5, FdMode::Read, 124, &table);
    assert_eq!(g.name, "net:[124]");
}

#[test]
fn test_socket_lookup_last_entry_wins() {
    let mut table = SocketTable::new();
    table.push(tcp_entry(7));
    let mut shadow = tcp_entry(7);
    shadow.local_port = 8080;
    table.push(shadow);
    let f = loof::platform::sockets::open_file_from_socket_inode(1, FdMode::Read, 7, &table);
    assert_eq!(f.name, "127.0.0.1:8080 -> 10.0.0.1:12345 (ESTABLISHED)");
}

#[test]
fn test_unix_socket_names() {
    let mut table = SocketTable::new();
    let mut e = tcp_entry(40);
    e.protocol = Protocol::Unix;
    e.local_addr = "/run/x.sock".to_string();
    table.push(e);
    let mut unbound = tcp_entry(41);
    unbound.protocol = Protocol::Unix;
    unbound.local_addr = String::new();
    table.push(unbound);
    let f = loof::platform::sockets::open_file_from_socket_inode(1, FdMode::Read, 40, &table);
    assert!(matches!(f.file_type, FileType::Unix));
    assert_eq!(f.name, "/run/x.sock");
    let g = loof::platform::sockets::open_file_from_socket_inode(1, FdMode::Read, 41, &table);
    assert_eq!(g.name, "unix socket inode=41");
}

#[test]
fn test_udp_qualifier_in_name() {
    let mut table = SocketTable::new();
    let mut e = tcp_entry(50);
    e.protocol = Protocol::Udp6;
    table.push(e);
    let f = loof::platform::sockets::open_file_from_socket_inode(1, FdMode::Read, 50, &table);
    assert!(matches!(f.file_type, FileType::IPv6));
    assert_eq!(f.name, "127.0.0.1:80 -> 10.0.0.1:12345 (UDP6)");
}

#[test]
fn test_pipe_and_special_targets() {
    let f = loof::platform::sockets::open_file_from_pipe_inode(2, FdMode::Write, 88);
    assert!(matches!(f.file_type, FileType::Pipe));
    assert_eq!(f.name, "pipe:[88]");
    let a = loof::platform::sockets::open_file_from_anon_inode(
        3,
        FdMode::Read,
        "eventfd".to_string(),
    );
    assert_eq!(a.name, "anon_inode:[eventfd]");
    let m = loof::platform::sockets::open_file_from_memfd(4, FdMode::Read, "shm".to_string());
    assert_eq!(m.name, "memfd:shm");
    assert!(matches!(m.file_type, FileType::Reg));
    let o = loof::platform::sockets::open_file_from_other(5, FdMode::Read, "io_uring".to_string(), 9);
    assert_eq!(o.name, "io_uring:[9]");
}

#[test]
fn test_connections_join_keeps_known_inodes() {
    let mut table = SocketTable::new();
    table.push(tcp_entry(70));
    table.push(tcp_entry(71));
    let inodes = vec![70u64, 999u64, 71u64];
    let conns = loof::platform::sockets::connections_for_inodes(
        &inodes,
        &table,
        321,
        &Some("svc".to_string()),
    );
    assert_eq!(conns.len(), 2);
    assert_eq!(conns[0].local_port, 80);
    assert_eq!(conns[0].pid, Some(321));
    assert_eq!(conns[0].command, Some("svc".to_string()));
    assert!(matches!(conns[1].protocol, Protocol::Tcp));
}

#[test]
fn test_full_system_join_attributes_first_owner() {
    let mut table = SocketTable::new();
    table.push(tcp_entry(80));
    table.push(tcp_entry(81));
    let owners = vec![
        loof::platform::sockets::SocketOwner { inode: 80, pid: 5, comm: "svc".to_string() },
        loof::platform::sockets::SocketOwner { inode: 80, pid: 6, comm: "late".to_string() },
    ];
    let conns = loof::platform::sockets::connections_for_table(&table, &owners);
    assert_eq!(conns.len(), 2);
    // The first owner seen for the inode wins.
    assert_eq!(conns[0].pid, Some(5));
    assert_eq!(conns[0].command, Some("svc".to_string()));
    // A row nobody was seen holding carries no process.
    assert_eq!(conns[1].pid, None);
    assert_eq!(conns[1].command, None);
}

// -- Process record assembly --

#[test]
fn test_process_record_brackets_empty_cmdline() {
    let p = process_from_parts(2, Some(1), Some(2), "kthreadd".to_string(), String::new(), None, 0);
    assert_eq!(p.command, "[kthreadd]");
    assert_eq!(p.user, "0");
    assert!(p.pid > 0);
    assert!(!p.command.is_empty());
}

#[test]
fn test_process_record_keeps_cmdline_and_user() {
    let p = process_from_parts(
        10,
        Some(1),
        None,
        "nginx".to_string(),
        "/usr/sbin/nginx -g daemon".to_string(),
        Some("www".to_string()),
        33,
    );
    assert_eq!(p.command, "/usr/sbin/nginx -g daemon");
    assert_eq!(p.user, "www");
    assert_eq!(p.uid, 33);
    assert!(p.open_files.is_empty());
}

// -- procfs decoding --

#[test]
fn test_fd_mode_from_flags_low_bits() {
    assert!(matches!(procdata::fd_mode_from_flags(0), FdMode::Read));
    assert!(matches!(procdata::fd_mode_from_flags(1), FdMode::Write));
    assert!(matches!(procdata::fd_mode_from_flags(0o100002), FdMode::ReadWrite));
}

#[test]
fn test_fd_mode_from_fdinfo_octal() {
    let content = "pos:\t0\nflags:\t0100002\nmnt_id:\t27\n";
    assert!(matches!(procdata::fd_mode_from_fdinfo(content), FdMode::ReadWrite));
    let content2 = "pos:\t0\nflags:\t02\n";
    assert!(matches!(procdata::fd_mode_from_fdinfo(content2), FdMode::ReadWrite));
    let content3 = "pos:\t0\n";
    assert!(matches!(procdata::fd_mode_from_fdinfo(content3), FdMode::Unknown));
}

#[test]
fn test_format_device_linux_encoding() {
    // dev = major 8, minor 1 packed the way the kernel packs them.
    let dev: u64 = (8u64 << 8) | 1;
    assert_eq!(procdata::format_device(dev), "8,1");
    let big: u64 = (259u64 << 8) | 5;
    assert_eq!(procdata::format_device(big), "259,5");
}

#[test]
fn test_file_type_from_mode_bits() {
    assert!(matches!(procdata::file_type_from_mode(0o100644), FileType::Reg));
    assert!(matches!(procdata::file_type_from_mode(0o040755), FileType::Dir));
    assert!(matches!(procdata::file_type_from_mode(0o120777), FileType::Link));
    assert!(matches!(procdata::file_type_from_mode(0o140000), FileType::Sock));
}

#[test]
fn test_path_record_link_target_kept_for_symlink() {
    let stat = procdata::StatInfo { mode_bits: 0o120777, dev: (8 << 8) | 1, size: 9, ino: 44 };
    let f = procdata::open_file_from_fd_path(
        "/tmp/link".to_string(),
        3,
        FdMode::Read,
        Some(stat),
        Some("/tmp/target".to_string()),
        false,
    );
    assert!(matches!(f.file_type, FileType::Link));
    assert_eq!(f.link_target, Some("/tmp/target".to_string()));
    assert_eq!(f.node, "44");
    // A regular file keeps no target even when one is offered.
    let rstat = procdata::StatInfo { mode_bits: 0o100644, dev: 0, size: 9, ino: 44 };
    let r = procdata::open_file_from_fd_path(
        "/tmp/file".to_string(),
        3,
        FdMode::Read,
        Some(rstat),
        Some("/tmp/target".to_string()),
        false,
    );
    assert!(r.link_target.is_none());
}

#[test]
fn test_path_record_stat_failure_keeps_name() {
    let f = procdata::open_file_from_path(
        "/proc/1/cwd".to_string(),
        FdType::Cwd,
        None,
        None,
        false,
    );
    assert_eq!(f.name, "/proc/1/cwd");
    assert!(matches!(f.file_type, FileType::Unknown(ref s) if s == "?"));
    assert!(f.size_off.is_none());
}

#[test]
fn test_map_record_falls_back_to_regular() {
    // A mapping whose backing file can no longer be stat'ed is still
    // recorded, as a regular file with empty stat columns.
    let f = procdata::open_file_from_map_path("/usr/lib/x.so".to_string(), None);
    assert!(matches!(f.fd, FdType::Mem));
    assert!(matches!(f.file_type, FileType::Reg));
    assert_eq!(f.mode, Some(FdMode::Read));
    assert!(f.size_off.is_none());
    let st = procdata::StatInfo { mode_bits: 0o100755, dev: (8 << 8) | 2, size: 120, ino: 9 };
    let g = procdata::open_file_from_map_path("/usr/lib/y.so".to_string(), Some(st));
    assert_eq!(g.size_off, Some(120));
    assert_eq!(g.device, "8,2");
    assert_eq!(g.node, "9");
}

#[test]
fn test_path_record_avoid_stat() {
    let stat = procdata::StatInfo { mode_bits: 0o100644, dev: 1, size: 2, ino: 3 };
    let f = procdata::open_file_from_path(
        "/tmp/x".to_string(),
        FdType::Txt,
        Some(stat),
        None,
        true,
    );
    assert!(matches!(f.file_type, FileType::Unknown(ref s) if s.is_empty()));
    assert!(f.size_off.is_none());
    assert_eq!(f.name, "/tmp/x");
}

// -- BSD decoding --

#[test]
fn test_bsd_openflags_mode() {
    assert!(matches!(bsd::fd_mode_from_openflags(0x1), FdMode::Read));
    assert!(matches!(bsd::fd_mode_from_openflags(0x2), FdMode::Write));
    assert!(matches!(bsd::fd_mode_from_openflags(0x3), FdMode::ReadWrite));
    assert!(matches!(bsd::fd_mode_from_openflags(0x0), FdMode::Unknown));
}

#[test]
fn test_bsd_vtype_classification() {
    assert!(matches!(bsd::file_type_from_vtype(1), FileType::Reg));
    assert!(matches!(bsd::file_type_from_vtype(2), FileType::Dir));
    assert!(matches!(bsd::file_type_from_vtype(5), FileType::Link));
    assert!(matches!(bsd::file_type_from_vtype(0), FileType::Unknown(ref s) if s == "VNON"));
    assert!(matches!(bsd::file_type_from_vtype(42), FileType::Unknown(ref s) if s == "vtype=42"));
}

#[test]
fn test_bsd_device_hex_encoding() {
    let dev: u32 = (1 << 24) | 5;
    assert_eq!(bsd::format_device(dev), "0x1,5");
    let dev2: u32 = (0xab << 24) | 0xcdef;
    assert_eq!(bsd::format_device(dev2), "0xab,cdef");
}

#[test]
fn test_port_from_network_byte_order() {
    // Port 80 in network byte order, as the kernel stores it.
    assert_eq!(bsd::port_from_nbo(0x5000), 80);
    assert_eq!(bsd::port_from_nbo(0x0150), 20481);
}

#[test]
fn test_bsd_socket_tcp_record() {
    let info = bsd::BsdSocketInfo::Tcp {
        v6: false,
        local_addr: "192.168.0.2".to_string(),
        remote_addr: "10.1.1.1".to_string(),
        local_port: 443,
        remote_port: 5555,
        state: TcpState::Listen,
    };
    let f = bsd::open_file_from_bsd_socket(9, info);
    assert!(matches!(f.file_type, FileType::IPv4));
    assert_eq!(f.node, "TCP");
    assert_eq!(f.name, "192.168.0.2:443 -> 10.1.1.1:5555 (LISTEN)");
}

#[test]
fn test_bsd_socket_unix_and_kqueue() {
    let un = bsd::BsdSocketInfo::UnixSock { path: String::new(), conn: 0x1f };
    let f = bsd::open_file_from_bsd_socket(1, un);
    assert_eq!(f.name, "unix socket 0x1f");
    let kq = bsd::open_file_from_bsd_kqueue(2, 0x3, 6, 0x10);
    assert!(matches!(kq.file_type, FileType::Kqueue));
    assert_eq!(kq.name, "count=6, state=0x10");
    let pipe = bsd::open_file_from_bsd_pipe(3, 0x1, 16, 77, 0xaa, 0xbb);
    assert_eq!(pipe.name, "pipe 0xaa -> 0xbb");
    assert_eq!(pipe.node, "77");
}

// -- Error rendering --

#[test]
fn test_error_messages() {
    assert_eq!(LoofError::Parse("bad".to_string()).message(), "Parse error: bad");
    assert_eq!(LoofError::ProcessNotFound(7).message(), "Process not found: PID 7");
    assert_eq!(
        LoofError::Platform("no table".to_string()).message(),
        "Platform error: no table"
    );
    assert_eq!(
        LoofError::PermissionDenied("pid 1".to_string()).message(),
        "Permission denied: pid 1"
    );
    assert_eq!(LoofError::Io("short read".to_string()).message(), "IO error: short read");
}

// -- Text utilities --

#[test]
fn test_decimal_rendering_bounds() {
    assert_eq!(loof::text::u64_to_dec(0), "0");
    assert_eq!(loof::text::u64_to_dec(u64::MAX), "18446744073709551615");
    assert_eq!(loof::text::i64_to_dec(-42), "-42");
    assert_eq!(loof::text::i64_to_dec(i64::MIN), "-9223372036854775808");
    assert_eq!(loof::text::u64_to_hex(0), "0");
    assert_eq!(loof::text::u64_to_hex(0xdeadbeef), "deadbeef");
}

#[test]
fn test_parse_bounds() {
    assert_eq!(loof::text::parse_u64("18446744073709551615"), Some(u64::MAX));
    assert_eq!(loof::text::parse_u64("18446744073709551616"), None);
    assert_eq!(loof::text::parse_u64(""), None);
    assert_eq!(loof::text::parse_u64("12a"), None);
    assert_eq!(loof::text::parse_u16("65535"), Some(65535));
    assert_eq!(loof::text::parse_u16("65536"), None);
    assert_eq!(loof::text::parse_oct_u32("17"), Some(0o17));
    assert_eq!(loof::text::parse_oct_u32("8"), None);
}

#[test]
fn test_trim_split_upper() {
    assert_eq!(loof::text::str_trim("  ab\t"), "ab");
    assert_eq!(loof::text::str_trim("   "), "");
    assert_eq!(loof::text::str_split("a,,b", ','), vec!["a", "", "b"]);
    assert_eq!(loof::text::str_split("", ','), vec![""]);
    assert_eq!(loof::text::str_to_upper("tcp6-x"), "TCP6-X");
    assert!(loof::text::str_contains("abcdef", "cde"));
    assert!(!loof::text::str_contains("abcdef", "ce"));
    assert!(loof::text::str_starts_with("abc", "ab"));
    assert!(!loof::text::str_starts_with("abc", "abcd"));
}

// -- Inet filter over correlated sockets --

#[test]
fn test_inet_filter_selects_correlated_socket() {
    let mut table = SocketTable::new();
    table.push(tcp_entry(60));
    let sock = loof::platform::sockets::open_file_from_socket_inode(3, FdMode::ReadWrite, 60, &table);
    // The formatted endpoint satisfies the port and host checks.
    let inet = InetFilter { port: Some(80), host: Some("10.0.0.1".to_string()), ..Default::default() };
    assert!(inet.matches_file(&sock));
    let wrong_port = InetFilter { port: Some(81), ..Default::default() };
    assert!(!wrong_port.matches_file(&sock));
    // A BSD socket record carries the protocol tag in its node field,
    // so the protocol check selects it.
    let bsd_sock = bsd::open_file_from_bsd_socket(
        3,
        bsd::BsdSocketInfo::Tcp {
            v6: false,
            local_addr: "127.0.0.1".to_string(),
            remote_addr: "10.0.0.1".to_string(),
            local_port: 80,
            remote_port: 90,
            state: TcpState::Established,
        },
    );
    let proto = InetFilter { protocol: Some("TCP".to_string()), ..Default::default() };
    assert!(proto.matches_file(&bsd_sock));
}
