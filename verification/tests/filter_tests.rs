use loof::filter::{
    parse_command_filter, parse_inet_filter, parse_pgid_filter, parse_pid_filter,
    parse_size_filter, parse_user_filter, CommandFilter, FilterConfig, InetFilter, PidFilter,
    PgidFilter, SizeOp, UserFilter,
};
use loof::model::{FdMode, FdType, FileType, OpenFileInfo, ProcessInfo};

fn make_proc(pid: u32, user: &str, comm: &str) -> ProcessInfo {
    ProcessInfo {
        pid,
        ppid: None,
        pgid: None,
        command: comm.to_string(),
        comm: comm.to_string(),
        user: user.to_string(),
        uid: 0,
        open_files: Vec::new(),
    }
}

fn make_file(name: &str, file_type: FileType) -> OpenFileInfo {
    OpenFileInfo {
        fd: FdType::Numbered(0, FdMode::Read),
        file_type,
        device: String::new(),
        size_off: None,
        node: String::new(),
        name: name.to_string(),
        mode: Some(FdMode::Read),
        link_target: None,
        send_queue: None,
        recv_queue: None,
    }
}

// -- PID filter parsing --

#[test]
fn test_parse_pid_include() {
    let f = parse_pid_filter("1234,5678").unwrap();
    assert_eq!(f.included, vec![1234, 5678]);
    assert!(f.excluded.is_empty());
}

#[test]
fn test_parse_pid_exclude() {
    let f = parse_pid_filter("^1234").unwrap();
    assert!(f.included.is_empty());
    assert_eq!(f.excluded, vec![1234]);
}

#[test]
fn test_parse_pid_mixed() {
    let f = parse_pid_filter("100,^200,300").unwrap();
    assert_eq!(f.included, vec![100, 300]);
    assert_eq!(f.excluded, vec![200]);
}

#[test]
fn test_parse_pid_invalid() {
    assert!(parse_pid_filter("abc").is_err());
}

// -- User filter parsing --

#[test]
fn test_parse_user_include() {
    let f = parse_user_filter("root,www");
    assert_eq!(f.included, vec!["root", "www"]);
    assert!(f.excluded.is_empty());
}

#[test]
fn test_parse_user_exclude() {
    let f = parse_user_filter("^root");
    assert!(f.included.is_empty());
    assert_eq!(f.excluded, vec!["root"]);
}

#[test]
fn test_parse_user_mixed() {
    let f = parse_user_filter("admin,^nobody,www");
    assert_eq!(f.included, vec!["admin", "www"]);
    assert_eq!(f.excluded, vec!["nobody"]);
}

// -- Command filter parsing --

#[test]
fn test_parse_command_include() {
    let f = parse_command_filter("nginx");
    assert_eq!(f.included, vec!["nginx"]);
    assert!(f.excluded.is_empty());
}

#[test]
fn test_parse_command_exclude() {
    let f = parse_command_filter("^nginx");
    assert!(f.included.is_empty());
    assert_eq!(f.excluded, vec!["nginx"]);
}

// -- Inet filter parsing --

#[test]
fn test_parse_inet_empty() {
    let f = parse_inet_filter("");
    assert!(f.protocol.is_none());
    assert!(f.host.is_none());
    assert!(f.port.is_none());
    assert!(f.ip_version.is_none());
}

#[test]
fn test_parse_inet_tcp_port() {
    let f = parse_inet_filter("TCP:80");
    assert_eq!(f.protocol, Some("TCP".to_string()));
    assert_eq!(f.port, Some(80));
    assert!(f.host.is_none());
    assert!(f.ip_version.is_none());
}

#[test]
fn test_parse_inet_ipv6_tcp_host_port() {
    let f = parse_inet_filter("6TCP@localhost:443");
    assert_eq!(f.ip_version, Some(6));
    assert_eq!(f.protocol, Some("TCP".to_string()));
    assert_eq!(f.host, Some("localhost".to_string()));
    assert_eq!(f.port, Some(443));
}

#[test]
fn test_parse_inet_udp() {
    let f = parse_inet_filter("UDP");
    assert_eq!(f.protocol, Some("UDP".to_string()));
    assert!(f.host.is_none());
    assert!(f.port.is_none());
    assert!(f.ip_version.is_none());
}

#[test]
fn test_parse_inet_port_only() {
    let f = parse_inet_filter(":8080");
    assert!(f.protocol.is_none());
    assert!(f.host.is_none());
    assert_eq!(f.port, Some(8080));
}

#[test]
fn test_parse_inet_host_only() {
    let f = parse_inet_filter("@192.168.1.1");
    assert!(f.protocol.is_none());
    assert_eq!(f.host, Some("192.168.1.1".to_string()));
    assert!(f.port.is_none());
}

#[test]
fn test_parse_inet_ipv4_only() {
    let f = parse_inet_filter("4");
    assert_eq!(f.ip_version, Some(4));
    assert!(f.protocol.is_none());
}

// -- Filter matching logic --

#[test]
fn test_matches_process_pid_include() {
    let config = FilterConfig {
        pids: Some(PidFilter { included: vec![100, 200], excluded: vec![] }),
        ..Default::default()
    };
    assert!(config.matches_process(&make_proc(100, "root", "bash")));
    assert!(!config.matches_process(&make_proc(300, "root", "bash")));
}

#[test]
fn test_matches_process_pid_exclude() {
    let config = FilterConfig {
        pids: Some(PidFilter { included: vec![], excluded: vec![100] }),
        ..Default::default()
    };
    assert!(!config.matches_process(&make_proc(100, "root", "bash")));
    assert!(config.matches_process(&make_proc(200, "root", "bash")));
}

#[test]
fn test_matches_process_user() {
    let config = FilterConfig {
        users: Some(UserFilter { included: vec!["root".to_string()], excluded: vec![] }),
        ..Default::default()
    };
    assert!(config.matches_process(&make_proc(1, "root", "init")));
    assert!(!config.matches_process(&make_proc(2, "www", "nginx")));
}

#[test]
fn test_matches_process_command_prefix() {
    let config = FilterConfig {
        commands: Some(CommandFilter { included: vec!["ngin".to_string()], excluded: vec![] }),
        ..Default::default()
    };
    assert!(config.matches_process(&make_proc(1, "root", "nginx")));
    assert!(!config.matches_process(&make_proc(2, "root", "bash")));
}

#[test]
fn test_matches_process_and_mode() {
    let config = FilterConfig {
        pids: Some(PidFilter { included: vec![100], excluded: vec![] }),
        users: Some(UserFilter { included: vec!["root".to_string()], excluded: vec![] }),
        and_mode: true,
        ..Default::default()
    };
    // Both PID and user must match
    assert!(config.matches_process(&make_proc(100, "root", "bash")));
    assert!(!config.matches_process(&make_proc(100, "www", "bash")));
    assert!(!config.matches_process(&make_proc(200, "root", "bash")));
}

#[test]
fn test_matches_process_or_mode() {
    let config = FilterConfig {
        pids: Some(PidFilter { included: vec![100], excluded: vec![] }),
        users: Some(UserFilter { included: vec!["www".to_string()], excluded: vec![] }),
        and_mode: false,
        ..Default::default()
    };
    // Either PID or user can match
    assert!(config.matches_process(&make_proc(100, "root", "bash")));
    assert!(config.matches_process(&make_proc(200, "www", "nginx")));
    assert!(!config.matches_process(&make_proc(200, "root", "bash")));
}

#[test]
fn test_matches_file_name() {
    let config = FilterConfig {
        names: vec!["/tmp/test.txt".to_string()],
        ..Default::default()
    };
    assert!(config.matches_file(&make_file("/tmp/test.txt", FileType::Reg)));
    assert!(!config.matches_file(&make_file("/tmp/other.txt", FileType::Reg)));
}

#[test]
fn test_matches_file_dir_tree() {
    let config = FilterConfig { dir_tree: Some("/tmp".to_string()), ..Default::default() };
    assert!(config.matches_file(&make_file("/tmp/a/b/c.txt", FileType::Reg)));
    assert!(!config.matches_file(&make_file("/var/log/syslog", FileType::Reg)));
}

#[test]
fn test_matches_file_dir_non_recursive() {
    let config = FilterConfig { dir: Some("/tmp".to_string()), ..Default::default() };
    assert!(config.matches_file(&make_file("/tmp/test.txt", FileType::Reg)));
    assert!(!config.matches_file(&make_file("/tmp/sub/test.txt", FileType::Reg)));
}

#[test]
fn test_inet_filter_matches_ipv4_tcp() {
    let inet = InetFilter {
        protocol: Some("TCP".to_string()),
        port: Some(80),
        ..Default::default()
    };
    let mut file = make_file("127.0.0.1:80 -> 10.0.0.1:12345 (ESTABLISHED)", FileType::IPv4);
    file.node = "TCP".to_string();
    assert!(inet.matches_file(&file));
}

#[test]
fn test_inet_filter_rejects_wrong_protocol() {
    let inet = InetFilter { protocol: Some("UDP".to_string()), ..Default::default() };
    let mut file = make_file("127.0.0.1:80 -> 10.0.0.1:12345", FileType::IPv4);
    file.node = "TCP".to_string();
    assert!(!inet.matches_file(&file));
}

#[test]
fn test_inet_filter_rejects_non_network() {
    let inet = InetFilter::default();
    let file = make_file("/tmp/test.txt", FileType::Reg);
    assert!(!inet.matches_file(&file));
}

#[test]
fn test_no_filters_matches_everything() {
    let config = FilterConfig::default();
    assert!(config.matches_process(&make_proc(1, "root", "init")));
    assert!(config.matches_file(&make_file("/any/path", FileType::Reg)));
}

// -- PGID filter parsing --

#[test]
fn test_parse_pgid_include() {
    let f = parse_pgid_filter("1234,5678").unwrap();
    assert_eq!(f.included, vec![1234, 5678]);
    assert!(f.excluded.is_empty());
}

#[test]
fn test_parse_pgid_exclude() {
    let f = parse_pgid_filter("^1234").unwrap();
    assert!(f.included.is_empty());
    assert_eq!(f.excluded, vec![1234]);
}

// -- Size filter parsing --

#[test]
fn test_parse_size_filter_greater() {
    let f = parse_size_filter("+1024").unwrap();
    assert!(matches!(f.op, SizeOp::GreaterThan));
    assert_eq!(f.bytes, 1024);
}

#[test]
fn test_parse_size_filter_less() {
    let f = parse_size_filter("-512").unwrap();
    assert!(matches!(f.op, SizeOp::LessThan));
    assert_eq!(f.bytes, 512);
}

#[test]
fn test_parse_size_filter_exact() {
    let f = parse_size_filter("2048").unwrap();
    assert!(matches!(f.op, SizeOp::Exact));
    assert_eq!(f.bytes, 2048);
}

#[test]
fn test_parse_size_filter_suffix() {
    let f = parse_size_filter("+10M").unwrap();
    assert!(matches!(f.op, SizeOp::GreaterThan));
    assert_eq!(f.bytes, 10 * 1_048_576);

    let f2 = parse_size_filter("5KB").unwrap();
    assert!(matches!(f2.op, SizeOp::Exact));
    assert_eq!(f2.bytes, 5 * 1024);

    let f3 = parse_size_filter("-2G").unwrap();
    assert!(matches!(f3.op, SizeOp::LessThan));
    assert_eq!(f3.bytes, 2 * 1_073_741_824);
}

// -- PGID filter matching --

#[test]
fn test_matches_process_pgid() {
    let config = FilterConfig {
        pgids: Some(PgidFilter { included: vec![42], excluded: vec![] }),
        ..Default::default()
    };
    let mut p = make_proc(1, "root", "bash");
    p.pgid = Some(42);
    assert!(config.matches_process(&p));

    let mut p2 = make_proc(2, "root", "bash");
    p2.pgid = Some(99);
    assert!(!config.matches_process(&p2));

    // Process with no pgid should not match when the included list is non-empty
    let p3 = make_proc(3, "root", "bash");
    assert!(!config.matches_process(&p3));
}

// -- Additional cases --

#[test]
fn test_size_filter_rejects_unknown_suffix() {
    assert!(parse_size_filter("10Q").is_none());
    assert!(parse_size_filter("").is_none());
    assert!(parse_size_filter("KB").is_none());
}

#[test]
fn test_size_filter_case_insensitive_suffix() {
    let f = parse_size_filter("3kb").unwrap();
    assert_eq!(f.bytes, 3 * 1024);
    let f2 = parse_size_filter("+1g").unwrap();
    assert!(matches!(f2.op, SizeOp::GreaterThan));
    assert_eq!(f2.bytes, 1_073_741_824);
}

#[test]
fn test_size_filter_ignores_file_without_size() {
    let config = FilterConfig {
        size_filter: parse_size_filter("+1"),
        ..Default::default()
    };
    // A file without a size never matches a size predicate.
    let file = make_file("/tmp/x", FileType::Reg);
    assert!(file.size_off.is_none());
    assert!(!config.matches_file(&file));
    let mut sized = make_file("/tmp/y", FileType::Reg);
    sized.size_off = Some(2);
    assert!(config.matches_file(&sized));
}

#[test]
fn test_empty_lists_pass_individual_filter() {
    // Empty included and excluded lists accept every value.
    let config = FilterConfig {
        pids: Some(PidFilter { included: vec![], excluded: vec![] }),
        users: Some(UserFilter { included: vec![], excluded: vec![] }),
        and_mode: true,
        ..Default::default()
    };
    assert!(config.matches_process(&make_proc(7, "nobody", "sleep")));
    assert!(config.matches_process(&make_proc(u32::MAX, "", "")));
}

#[test]
fn test_parse_pid_overflow_is_error() {
    assert!(parse_pid_filter("4294967295").is_ok());
    assert!(parse_pid_filter("4294967296").is_err());
}

#[test]
fn test_dir_tree_matches_directory_itself() {
    let config = FilterConfig { dir_tree: Some("/tmp".to_string()), ..Default::default() };
    assert!(config.matches_file(&make_file("/tmp", FileType::Dir)));
}

#[test]
fn test_inet_port_matches_name_substring() {
    let inet = InetFilter { port: Some(80), ..Default::default() };
    let mut hit = make_file("socket:[1234]", FileType::Sock);
    hit.name = "10.0.0.1:80 -> 10.0.0.2:90 (LISTEN)".to_string();
    assert!(inet.matches_file(&hit));
    let miss = make_file("10.0.0.1:90 -> 10.0.0.2:91 (LISTEN)", FileType::IPv4);
    assert!(!inet.matches_file(&miss));
}

#[test]
fn test_inet_protocol_case_insensitive() {
    let inet = InetFilter { protocol: Some("tcp".to_string()), ..Default::default() };
    let mut file = make_file("x", FileType::IPv4);
    file.node = "TCP".to_string();
    assert!(inet.matches_file(&file));
}

#[test]
fn test_parse_inet_host_empty_before_port() {
    let f = parse_inet_filter("@:8080");
    assert!(f.host.is_none());
    assert_eq!(f.port, Some(8080));
    assert!(f.protocol.is_none());
}

#[test]
fn test_from_cli_parse_error_reported() {
    let mut args = loof_test_args();
    args.pid = Some("12,zz".to_string());
    let r = FilterConfig::from_cli(&args);
    assert!(r.is_err());
    let msg = r.err().unwrap().message();
    assert!(msg.starts_with("Parse error:"));
}

#[test]
fn test_from_cli_builds_all_filters() {
    let mut args = loof_test_args();
    args.pid = Some("1,2".to_string());
    args.user = Some("root".to_string());
    args.inet = Some("TCP:80".to_string());
    args.size_filter = Some("+1K".to_string());
    args.dir_tree = Some("/tmp".to_string());
    args.and_mode = true;
    let c = FilterConfig::from_cli(&args).unwrap();
    assert_eq!(c.pids.as_ref().unwrap().included, vec![1, 2]);
    assert_eq!(c.users.as_ref().unwrap().included, vec!["root"]);
    assert_eq!(c.inet.as_ref().unwrap().port, Some(80));
    assert_eq!(c.size_filter.as_ref().unwrap().bytes, 1024);
    assert_eq!(c.dir_tree, Some("/tmp".to_string()));
    assert!(c.and_mode);
    assert!(!c.is_empty());
    assert!(FilterConfig::default().is_empty());
}

fn loof_test_args() -> loof::cli::CliArgs {
    loof::cli::CliArgs {
        pid: None,
        inet: None,
        user: None,
        command: None,
        terse: false,
        no_hostname: false,
        no_portname: false,
        and_mode: false,
        interactive: false,
        list_uid: false,
        show_ppid: false,
        field_output: None,
        repeat: None,
        fd_filter: None,
        dir_tree: None,
        dir: None,
        cmd_width: None,
        suppress_warnings: false,
        pgid: None,
        size_filter: None,
        avoid_blocking: false,
        cross_fs: false,
        avoid_stat: false,
        follow_symlinks: false,
        tcp_info: None,
        names: Vec::new(),
    }
}
