use loof::model::{FdMode, FdType, FileType, OpenFileInfo, ProcessInfo};
use loof::output::{format_size_off, OutputFormatter};
use loof::text::fit_str;

fn plain_formatter() -> OutputFormatter {
    OutputFormatter {
        cmd_width: 9,
        no_hostname: false,
        no_portname: false,
        list_uid: false,
        show_ppid: false,
        terse: false,
        field_output: None,
        tcp_info: None,
    }
}

fn proc_with_files(files: Vec<OpenFileInfo>) -> ProcessInfo {
    ProcessInfo {
        pid: 1234,
        ppid: Some(1),
        pgid: None,
        command: "/usr/sbin/nginx".to_string(),
        comm: "nginx".to_string(),
        user: "root".to_string(),
        uid: 0,
        open_files: files,
    }
}

fn cwd_file() -> OpenFileInfo {
    OpenFileInfo {
        fd: FdType::Cwd,
        file_type: FileType::Dir,
        device: "1,16".to_string(),
        size_off: Some(704),
        node: "2".to_string(),
        name: "/".to_string(),
        mode: None,
        link_target: None,
        send_queue: None,
        recv_queue: None,
    }
}

#[test]
fn test_fit_str_truncate() {
    assert_eq!(fit_str("longcommandname", 9), "longcomma");
}

#[test]
fn test_fit_str_pad() {
    assert_eq!(fit_str("sh", 9), "sh       ");
}

#[test]
fn test_format_size_off_some() {
    assert_eq!(format_size_off(Some(4096)), "4096");
}

#[test]
fn test_format_size_off_none() {
    assert_eq!(format_size_off(None), "0t0");
}

#[test]
fn test_default_cmd_width() {
    let fmt = OutputFormatter {
        cmd_width: 9,
        no_hostname: false,
        no_portname: false,
        list_uid: false,
        show_ppid: false,
        terse: false,
        field_output: None,
        tcp_info: None,
    };
    assert_eq!(fmt.cmd_width, 9);
}

#[test]
fn test_terse_output() {
    let fmt = OutputFormatter {
        cmd_width: 9,
        no_hostname: false,
        no_portname: false,
        list_uid: false,
        show_ppid: false,
        terse: true,
        field_output: None,
        tcp_info: None,
    };

    let procs = vec![
        ProcessInfo {
            pid: 100,
            ppid: None,
            pgid: None,
            command: "bash".to_string(),
            comm: "bash".to_string(),
            user: "root".to_string(),
            uid: 0,
            open_files: Vec::new(),
        },
        ProcessInfo {
            pid: 200,
            ppid: None,
            pgid: None,
            command: "nginx".to_string(),
            comm: "nginx".to_string(),
            user: "www".to_string(),
            uid: 33,
            open_files: Vec::new(),
        },
    ];

    let rows = fmt.render_terse_rows(&procs);
    assert_eq!(rows, vec!["100", "200"]);
}

#[test]
fn test_field_output_format() {
    let fmt = OutputFormatter {
        cmd_width: 9,
        no_hostname: false,
        no_portname: false,
        list_uid: false,
        show_ppid: false,
        terse: false,
        field_output: Some("pcun".to_string()),
        tcp_info: None,
    };

    let proc = ProcessInfo {
        pid: 1234,
        ppid: Some(1),
        pgid: None,
        command: "/usr/sbin/nginx".to_string(),
        comm: "nginx".to_string(),
        user: "root".to_string(),
        uid: 0,
        open_files: vec![OpenFileInfo {
            fd: FdType::Cwd,
            file_type: FileType::Dir,
            device: "1,16".to_string(),
            size_off: Some(704),
            node: "2".to_string(),
            name: "/".to_string(),
            mode: None,
            link_target: None,
            send_queue: None,
            recv_queue: None,
        }],
    };

    let rows = fmt.render_field_rows(&proc);
    assert_eq!(rows, vec!["p1234", "cnginx", "uroot", "n/"]);
}

#[test]
fn test_header_default_columns() {
    let fmt = plain_formatter();
    let h = fmt.render_header();
    assert!(h.starts_with("COMMAND"));
    assert!(h.contains("PID"));
    assert!(h.contains("USER"));
    assert!(h.contains("FD"));
    assert!(h.contains("TYPE"));
    assert!(h.contains("DEVICE"));
    assert!(h.contains("SIZE/OFF"));
    assert!(h.contains("NODE"));
    assert!(h.contains("NAME"));
    assert!(!h.contains("PPID"));
}

#[test]
fn test_header_shows_ppid_column() {
    let mut fmt = plain_formatter();
    fmt.show_ppid = true;
    let h = fmt.render_header();
    assert!(h.starts_with("COMMAND"));
    assert!(h.contains(" PPID "));
}

#[test]
fn test_file_row_layout() {
    let fmt = plain_formatter();
    let p = proc_with_files(vec![cwd_file()]);
    let rows = fmt.render_file_rows(&p);
    assert_eq!(rows.len(), 1);
    assert_eq!(
        rows[0],
        "nginx      1234 root      cwd     DIR     1,16       704     2 /"
    );
}

#[test]
fn test_file_row_uid_mode() {
    let mut fmt = plain_formatter();
    fmt.list_uid = true;
    let p = proc_with_files(vec![cwd_file()]);
    let rows = fmt.render_file_rows(&p);
    assert!(rows[0].contains(" 0 ") || rows[0].contains("0       "));
}

#[test]
fn test_command_truncated_to_exact_width() {
    let mut fmt = plain_formatter();
    fmt.cmd_width = 4;
    let mut p = proc_with_files(vec![cwd_file()]);
    p.comm = "verylongname".to_string();
    let rows = fmt.render_file_rows(&p);
    assert!(rows[0].starts_with("very "));
    assert_eq!(fit_str("verylongname", 4).len(), 4);
    assert_eq!(fit_str("verylongname", 4), "very");
}

#[test]
fn test_queue_annotation_with_tcp_info() {
    let mut fmt = plain_formatter();
    fmt.tcp_info = Some("sq".to_string());
    let mut sock = cwd_file();
    sock.fd = FdType::Numbered(3, FdMode::ReadWrite);
    sock.mode = Some(FdMode::ReadWrite);
    sock.file_type = FileType::IPv4;
    sock.name = "1.2.3.4:80 -> 5.6.7.8:9 (ESTABLISHED)".to_string();
    sock.send_queue = Some(11);
    sock.recv_queue = Some(22);
    let p = proc_with_files(vec![sock]);
    let rows = fmt.render_file_rows(&p);
    assert!(rows[0].ends_with(" QR=22 QS=11"));
}

#[test]
fn test_terse_rows_one_pid_per_process() {
    let fmt = plain_formatter();
    let procs = vec![proc_with_files(vec![]), {
        let mut p = proc_with_files(vec![]);
        p.pid = 77;
        p
    }];
    let rows = fmt.render_terse_rows(&procs);
    assert_eq!(rows, vec!["1234", "77"]);
}

#[test]
fn test_field_rows_default_letters() {
    let fmt = plain_formatter();
    let p = proc_with_files(vec![cwd_file()]);
    let rows = fmt.render_field_rows(&p);
    assert_eq!(
        rows,
        vec!["p1234", "cnginx", "uroot", "fcwd", "tDIR", "n/"]
    );
}

#[test]
fn test_field_rows_selected_letters() {
    let mut fmt = plain_formatter();
    fmt.field_output = Some("pcn".to_string());
    let p = proc_with_files(vec![cwd_file()]);
    let rows = fmt.render_field_rows(&p);
    assert!(rows.iter().any(|r| r.starts_with('p')));
    assert!(rows.iter().any(|r| r.starts_with('c')));
    assert!(rows.iter().any(|r| r.starts_with('n')));
    assert_eq!(rows, vec!["p1234", "cnginx", "n/"]);
}

#[test]
fn test_field_rows_ppid_suppressed_when_absent() {
    let mut fmt = plain_formatter();
    fmt.field_output = Some("pR".to_string());
    let mut p = proc_with_files(vec![]);
    p.ppid = None;
    let rows = fmt.render_field_rows(&p);
    assert_eq!(rows, vec!["p1234"]);
    p.ppid = Some(9);
    let rows2 = fmt.render_field_rows(&p);
    assert_eq!(rows2, vec!["p1234", "R9"]);
}

#[test]
fn test_field_rows_real_pgid() {
    let mut fmt = plain_formatter();
    fmt.field_output = Some("pg".to_string());
    let mut p = proc_with_files(vec![]);
    p.pgid = Some(555);
    let rows = fmt.render_field_rows(&p);
    assert_eq!(rows, vec!["p1234", "g555"]);
}

#[test]
fn test_placeholder_row_identity_columns() {
    let fmt = plain_formatter();
    let p = proc_with_files(vec![]);
    let row = fmt.render_placeholder_row(&p);
    assert_eq!(row, "nginx      1234 root    ");
}

#[test]
fn test_fd_labels() {
    assert_eq!(FdType::Cwd.label(), "cwd");
    assert_eq!(FdType::Txt.label(), "txt");
    assert_eq!(FdType::Rtd.label(), "rtd");
    assert_eq!(FdType::Mem.label(), "mem");
    assert_eq!(FdType::Numbered(3, FdMode::Write).label(), "3w");
    assert_eq!(FdType::Numbered(10, FdMode::ReadWrite).label(), "10u");
    assert_eq!(FdType::Numbered(0, FdMode::Unknown).label(), "0 ");
}

#[test]
fn test_type_labels() {
    assert_eq!(FileType::Reg.label(), "REG");
    assert_eq!(FileType::IPv6.label(), "IPv6");
    assert_eq!(FileType::Unix.label(), "unix");
    assert_eq!(FileType::Unknown("eventfd".to_string()).label(), "eventfd");
}

#[test]
fn test_display_line_columns() {
    let p = proc_with_files(vec![]);
    assert_eq!(p.display_line(), "1234     nginx                root        ");
    assert_eq!(p.fd_count(), 0);
}
