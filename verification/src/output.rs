//! Output formatter: the columnar, terse and field-delimited wire
//! formats, produced as rows of text for the binary front end to print.

use vstd::prelude::*;
use crate::cli::CliArgs;
use crate::model::{fd_label, file_type_label, OpenFileInfo, ProcessInfo};
use crate::text::{
    contains_seq, dec_seq, fit_seq, fit_str, pad_left, pad_left_seq, pad_right, pad_right_seq,
    u64_to_dec, views_of,
};

verus! {

/// Formats process and open-file data in the classical column and field
/// layouts.
#[derive(Debug)]
pub struct OutputFormatter {
    /// Width of the COMMAND column (default 9, configurable).
    pub cmd_width: usize,
    /// `-n`: suppress hostname resolution (print numeric addresses).
    pub no_hostname: bool,
    /// `-P`: suppress port-name resolution (print numeric ports).
    pub no_portname: bool,
    /// `-l`: list UID numbers instead of login names.
    pub list_uid: bool,
    /// `-R`: show the PPID column.
    pub show_ppid: bool,
    /// `-t`: terse output (PIDs only).
    pub terse: bool,
    /// `-F`: field-delimited output with the given field characters.
    pub field_output: Option<String>,
    /// `-T`: TCP/TPI info selection.
    pub tcp_info: Option<String>,
}

/// The USER column text: the login name, or the decimal UID under `-l`.
pub open spec fn user_display(fmt: OutputFormatter, p: ProcessInfo) -> Seq<char> {
    if fmt.list_uid {
        dec_seq(p.uid as nat)
    } else {
        p.user@
    }
}

/// The PPID column text: the decimal parent PID, or nothing.
pub open spec fn ppid_text(p: ProcessInfo) -> Seq<char> {
    match p.ppid {
        Some(x) => dec_seq(x as nat),
        None => Seq::empty(),
    }
}

/// The SIZE/OFF column text: the byte count when known, `0t0` otherwise.
pub open spec fn size_off_label(size: Option<u64>) -> Seq<char> {
    match size {
        Some(s) => dec_seq(s as nat),
        None => "0t0"@,
    }
}

/// Format the SIZE/OFF column value.
pub fn format_size_off(size: Option<u64>) -> (r: String)
    ensures
        r@ == size_off_label(size),
{
    match size {
        Some(s) => u64_to_dec(s),
        None => String::from_str("0t0"),
    }
}

/// The queue annotation appended to a network file's name when the
/// `-T` info selection contains `q` and both queue depths are known.
pub open spec fn queue_suffix(fmt: OutputFormatter, f: OpenFileInfo) -> Seq<char> {
    if (fmt.tcp_info matches Some(ti) && contains_seq(ti@, "q"@)) && (f.file_type is IPv4
        || f.file_type is IPv6) && f.recv_queue is Some && f.send_queue is Some {
        " QR="@ + dec_seq(f.recv_queue->0 as nat) + " QS="@ + dec_seq(f.send_queue->0 as nat)
    } else {
        Seq::empty()
    }
}

/// The header line of the columnar format: fixed labels padded to the
/// standard widths, with a PPID column only under `-R`.
pub open spec fn header_line(fmt: OutputFormatter) -> Seq<char> {
    pad_right_seq("COMMAND"@, fmt.cmd_width as int) + " "@ + pad_left_seq("PID"@, 5) + (
    if fmt.show_ppid {
        " "@ + pad_left_seq("PPID"@, 5)
    } else {
        Seq::empty()
    }) + " "@ + pad_right_seq("USER"@, 8) + " "@ + pad_left_seq("FD"@, 4) + "  "@ + pad_left_seq(
        "TYPE"@,
        6,
    ) + " "@ + pad_left_seq("DEVICE"@, 8) + "  "@ + pad_left_seq("SIZE/OFF"@, 8) + "  "@
        + pad_left_seq("NODE"@, 4) + " "@ + "NAME"@
}

/// One columnar data row for one descriptor of one process.
pub open spec fn file_row(fmt: OutputFormatter, p: ProcessInfo, f: OpenFileInfo) -> Seq<char> {
    fit_seq(p.comm@, fmt.cmd_width as int) + " "@ + pad_left_seq(dec_seq(p.pid as nat), 5) + (
    if fmt.show_ppid {
        " "@ + pad_left_seq(ppid_text(p), 5)
    } else {
        Seq::empty()
    }) + " "@ + pad_right_seq(user_display(fmt, p), 8) + " "@ + pad_left_seq(fd_label(f.fd), 4)
        + "  "@ + pad_left_seq(file_type_label(f.file_type), 6) + " "@ + pad_left_seq(f.device@, 8)
        + "  "@ + pad_left_seq(size_off_label(f.size_off), 8) + "  "@ + pad_left_seq(f.node@, 4)
        + " "@ + f.name@ + queue_suffix(fmt, f)
}

/// The placeholder row for a process with no descriptor records: the
/// identity columns only.
pub open spec fn placeholder_row(fmt: OutputFormatter, p: ProcessInfo) -> Seq<char> {
    fit_seq(p.comm@, fmt.cmd_width as int) + " "@ + pad_left_seq(dec_seq(p.pid as nat), 5) + (
    if fmt.show_ppid {
        " "@ + pad_left_seq(ppid_text(p), 5)
    } else {
        Seq::empty()
    }) + " "@ + pad_right_seq(user_display(fmt, p), 8)
}

impl OutputFormatter {
    /// Build an `OutputFormatter` from parsed CLI arguments.
    pub fn from_cli(args: &CliArgs) -> (r: Self)
        ensures
            r.cmd_width == (match args.cmd_width {
                Some(w) => w,
                None => 9usize,
            }),
            r.no_hostname == args.no_hostname,
            r.no_portname == args.no_portname,
            r.list_uid == args.list_uid,
            r.show_ppid == args.show_ppid,
            r.terse == args.terse,
            r.field_output is Some <==> args.field_output is Some,
            r.field_output matches Some(s) ==> args.field_output matches Some(a) && s@ == a@,
            r.tcp_info is Some <==> args.tcp_info is Some,
            r.tcp_info matches Some(s) ==> args.tcp_info matches Some(a) && s@ == a@,
    {
        OutputFormatter {
            cmd_width: match args.cmd_width {
                Some(w) => w,
                None => 9,
            },
            no_hostname: args.no_hostname,
            no_portname: args.no_portname,
            list_uid: args.list_uid,
            show_ppid: args.show_ppid,
            terse: args.terse,
            field_output: match &args.field_output {
                Some(s) => Some(s.clone()),
                None => None,
            },
            tcp_info: match &args.tcp_info {
                Some(s) => Some(s.clone()),
                None => None,
            },
        }
    }

    fn user_column(&self, p: &ProcessInfo) -> (r: String)
        ensures
            r@ == user_display(*self, *p),
    {
        if self.list_uid {
            u64_to_dec(p.uid as u64)
        } else {
            p.user.clone()
        }
    }

    /// Render the columnar header line.
    pub fn render_header(&self) -> (r: String)
        ensures
            r@ == header_line(*self),
    {
        let mut r = pad_right("COMMAND", self.cmd_width);
        r.append(" ");
        let c = pad_left("PID", 5);
        r.append(c.as_str());
        if self.show_ppid {
            r.append(" ");
            let c = pad_left("PPID", 5);
            r.append(c.as_str());
        }
        r.append(" ");
        let c = pad_right("USER", 8);
        r.append(c.as_str());
        r.append(" ");
        let c = pad_left("FD", 4);
        r.append(c.as_str());
        r.append("  ");
        let c = pad_left("TYPE", 6);
        r.append(c.as_str());
        r.append(" ");
        let c = pad_left("DEVICE", 8);
        r.append(c.as_str());
        r.append("  ");
        let c = pad_left("SIZE/OFF", 8);
        r.append(c.as_str());
        r.append("  ");
        let c = pad_left("NODE", 4);
        r.append(c.as_str());
        r.append(" ");
        r.append("NAME");
        assert(r@ =~= header_line(*self));
        r
    }

    /// Render one columnar data row.
    pub fn render_file_row(&self, p: &ProcessInfo, f: &OpenFileInfo) -> (r: String)
        ensures
            r@ == file_row(*self, *p, *f),
    {
        let mut r = fit_str(p.comm.as_str(), self.cmd_width);
        r.append(" ");
        let pid = u64_to_dec(p.pid as u64);
        let c = pad_left(pid.as_str(), 5);
        r.append(c.as_str());
        if self.show_ppid {
            r.append(" ");
            let ppid = match p.ppid {
                Some(x) => u64_to_dec(x as u64),
                None => String::new(),
            };
            let c = pad_left(ppid.as_str(), 5);
            r.append(c.as_str());
        }
        r.append(" ");
        let u = self.user_column(p);
        let c = pad_right(u.as_str(), 8);
        r.append(c.as_str());
        r.append(" ");
        let fd = f.fd.label();
        let c = pad_left(fd.as_str(), 4);
        r.append(c.as_str());
        r.append("  ");
        let t = f.file_type.label();
        let c = pad_left(t.as_str(), 6);
        r.append(c.as_str());
        r.append(" ");
        let c = pad_left(f.device.as_str(), 8);
        r.append(c.as_str());
        r.append("  ");
        let s = format_size_off(f.size_off);
        let c = pad_left(s.as_str(), 8);
        r.append(c.as_str());
        r.append("  ");
        let c = pad_left(f.node.as_str(), 4);
        r.append(c.as_str());
        r.append(" ");
        r.append(f.name.as_str());
        let has_q = match &self.tcp_info {
            Some(ti) => crate::text::str_contains(ti.as_str(), "q"),
            None => false,
        };
        let is_ip = match &f.file_type {
            crate::model::FileType::IPv4 => true,
            crate::model::FileType::IPv6 => true,
            _ => false,
        };
        if has_q && is_ip {
            match (f.recv_queue, f.send_queue) {
                (Some(rq), Some(sq)) => {
                    r.append(" QR=");
                    let d = u64_to_dec(rq);
                    r.append(d.as_str());
                    r.append(" QS=");
                    let d = u64_to_dec(sq);
                    r.append(d.as_str());
                },
                _ => {},
            }
        }
        assert(r@ =~= file_row(*self, *p, *f));
        r
    }

    /// Render the placeholder row for a process with no descriptors.
    pub fn render_placeholder_row(&self, p: &ProcessInfo) -> (r: String)
        ensures
            r@ == placeholder_row(*self, *p),
    {
        let mut r = fit_str(p.comm.as_str(), self.cmd_width);
        r.append(" ");
        let pid = u64_to_dec(p.pid as u64);
        let c = pad_left(pid.as_str(), 5);
        r.append(c.as_str());
        if self.show_ppid {
            r.append(" ");
            let ppid = match p.ppid {
                Some(x) => u64_to_dec(x as u64),
                None => String::new(),
            };
            let c = pad_left(ppid.as_str(), 5);
            r.append(c.as_str());
        }
        r.append(" ");
        let u = self.user_column(p);
        let c = pad_right(u.as_str(), 8);
        r.append(c.as_str());
        assert(r@ =~= placeholder_row(*self, *p));
        r
    }

    /// Render one row per descriptor of the process, in order.
    pub fn render_file_rows(&self, p: &ProcessInfo) -> (rows: Vec<String>)
        ensures
            rows@.len() == p.open_files@.len(),
            forall|i: int|
                0 <= i < rows@.len() ==> #[trigger] rows@[i]@ == file_row(
                    *self,
                    *p,
                    p.open_files@[i],
                ),
    {
        let mut rows: Vec<String> = Vec::new();
        let n = p.open_files.len();
        let mut i: usize = 0;
        while i < n
            invariant
                0 <= i <= n,
                n == p.open_files@.len(),
                rows@.len() == i,
                forall|j: int|
                    0 <= j < i ==> #[trigger] rows@[j]@ == file_row(*self, *p, p.open_files@[j]),
            decreases n - i,
        {
            let row = self.render_file_row(p, &p.open_files[i]);
            rows.push(row);
            i = i + 1;
        }
        rows
    }

    /// Render the terse output: one decimal PID per process, in order.
    pub fn render_terse_rows(&self, processes: &Vec<ProcessInfo>) -> (rows: Vec<String>)
        ensures
            rows@.len() == processes@.len(),
            forall|i: int|
                0 <= i < rows@.len() ==> #[trigger] rows@[i]@ == dec_seq(
                    processes@[i].pid as nat,
                ),
    {
        let mut rows: Vec<String> = Vec::new();
        let n = processes.len();
        let mut i: usize = 0;
        while i < n
            invariant
                0 <= i <= n,
                n == processes@.len(),
                rows@.len() == i,
                forall|j: int|
                    0 <= j < i ==> #[trigger] rows@[j]@ == dec_seq(processes@[j].pid as nat),
            decreases n - i,
        {
            rows.push(u64_to_dec(processes[i].pid as u64));
            i = i + 1;
        }
        rows
    }
}

/// The field characters in effect: the `-F` argument, or the default
/// letter set.
pub open spec fn field_letters(fmt: OutputFormatter) -> Seq<char> {
    match fmt.field_output {
        Some(s) => s@,
        None => "pcuftn"@,
    }
}

/// The process-level field lines selected by `fields`, one tagged line
/// per recognized letter: `p` pid, `c` command, `u` user, `R` ppid
/// (suppressed when absent), `g` pgid (suppressed when absent).
pub open spec fn field_process_rows(
    fmt: OutputFormatter,
    p: ProcessInfo,
    fields: Seq<char>,
) -> Seq<Seq<char>>
    decreases fields.len(),
{
    if fields.len() == 0 {
        Seq::empty()
    } else {
        let c = fields[0];
        let rest = field_process_rows(fmt, p, fields.subrange(1, fields.len() as int));
        let this: Seq<Seq<char>> = if c == 'p' {
            seq!["p"@ + dec_seq(p.pid as nat)]
        } else if c == 'c' {
            seq!["c"@ + p.comm@]
        } else if c == 'u' {
            seq!["u"@ + user_display(fmt, p)]
        } else if c == 'R' {
            match p.ppid {
                Some(x) => seq!["R"@ + dec_seq(x as nat)],
                None => Seq::empty(),
            }
        } else if c == 'g' {
            match p.pgid {
                Some(g) => seq!["g"@ + dec_seq(g as nat)],
                None => Seq::empty(),
            }
        } else {
            Seq::empty()
        };
        this + rest
    }
}

/// The file-level field lines for one descriptor: `f` fd, `t` type,
/// `D` device, `s` size (suppressed when absent), `i` node, `n` name.
pub open spec fn field_file_rows(
    fmt: OutputFormatter,
    f: OpenFileInfo,
    fields: Seq<char>,
) -> Seq<Seq<char>>
    decreases fields.len(),
{
    if fields.len() == 0 {
        Seq::empty()
    } else {
        let c = fields[0];
        let rest = field_file_rows(fmt, f, fields.subrange(1, fields.len() as int));
        let this: Seq<Seq<char>> = if c == 'f' {
            seq!["f"@ + fd_label(f.fd)]
        } else if c == 't' {
            seq!["t"@ + file_type_label(f.file_type)]
        } else if c == 'D' {
            seq!["D"@ + f.device@]
        } else if c == 's' {
            match f.size_off {
                Some(s) => seq!["s"@ + dec_seq(s as nat)],
                None => Seq::empty(),
            }
        } else if c == 'i' {
            seq!["i"@ + f.node@]
        } else if c == 'n' {
            seq!["n"@ + f.name@]
        } else {
            Seq::empty()
        };
        this + rest
    }
}

/// The file-level field lines of a whole descriptor list, in order.
pub open spec fn field_file_rows_all(
    fmt: OutputFormatter,
    files: Seq<OpenFileInfo>,
    fields: Seq<char>,
) -> Seq<Seq<char>>
    decreases files.len(),
{
    if files.len() == 0 {
        Seq::empty()
    } else {
        field_file_rows(fmt, files[0], fields) + field_file_rows_all(
            fmt,
            files.subrange(1, files.len() as int),
            fields,
        )
    }
}

/// All field-delimited lines of one process: its process-level fields
/// once, then the file-level fields of each descriptor.
pub open spec fn field_rows_spec(fmt: OutputFormatter, p: ProcessInfo) -> Seq<Seq<char>> {
    field_process_rows(fmt, p, field_letters(fmt)) + field_file_rows_all(
        fmt,
        p.open_files@,
        field_letters(fmt),
    )
}

/// Whether two formatters select the same output: every switch equal
/// and the string-valued options equal in text.
pub open spec fn formatter_equiv(a: OutputFormatter, b: OutputFormatter) -> bool {
    &&& a.cmd_width == b.cmd_width
    &&& a.no_hostname == b.no_hostname
    &&& a.no_portname == b.no_portname
    &&& a.list_uid == b.list_uid
    &&& a.show_ppid == b.show_ppid
    &&& a.terse == b.terse
    &&& crate::model::opt_str_equiv(a.field_output, b.field_output)
    &&& crate::model::opt_str_equiv(a.tcp_info, b.tcp_info)
}

/// Alike formatters and alike records render to the same columnar row.
pub proof fn lemma_file_row_equiv(
    f1: OutputFormatter,
    f2: OutputFormatter,
    p1: ProcessInfo,
    p2: ProcessInfo,
    a: OpenFileInfo,
    b: OpenFileInfo,
)
    requires
        formatter_equiv(f1, f2),
        crate::model::process_equiv(p1, p2),
        crate::model::open_file_equiv(a, b),
    ensures
        file_row(f1, p1, a) == file_row(f2, p2, b),
{
    crate::model::lemma_file_type_label_equiv(a.file_type, b.file_type);
    assert(queue_suffix(f1, a) == queue_suffix(f2, b));
}

/// Alike formatters and alike processes render to the same placeholder
/// row.
pub proof fn lemma_placeholder_row_equiv(
    f1: OutputFormatter,
    f2: OutputFormatter,
    p1: ProcessInfo,
    p2: ProcessInfo,
)
    requires
        formatter_equiv(f1, f2),
        crate::model::process_equiv(p1, p2),
    ensures
        placeholder_row(f1, p1) == placeholder_row(f2, p2),
{
}

proof fn lemma_field_process_rows_equiv(
    f1: OutputFormatter,
    f2: OutputFormatter,
    p1: ProcessInfo,
    p2: ProcessInfo,
    fields: Seq<char>,
)
    requires
        formatter_equiv(f1, f2),
        crate::model::process_equiv(p1, p2),
    ensures
        field_process_rows(f1, p1, fields) == field_process_rows(f2, p2, fields),
    decreases fields.len(),
{
    if fields.len() > 0 {
        lemma_field_process_rows_equiv(f1, f2, p1, p2, fields.subrange(1, fields.len() as int));
    }
}

proof fn lemma_field_file_rows_equiv(
    f1: OutputFormatter,
    f2: OutputFormatter,
    a: OpenFileInfo,
    b: OpenFileInfo,
    fields: Seq<char>,
)
    requires
        formatter_equiv(f1, f2),
        crate::model::open_file_equiv(a, b),
    ensures
        field_file_rows(f1, a, fields) == field_file_rows(f2, b, fields),
    decreases fields.len(),
{
    crate::model::lemma_file_type_label_equiv(a.file_type, b.file_type);
    if fields.len() > 0 {
        lemma_field_file_rows_equiv(f1, f2, a, b, fields.subrange(1, fields.len() as int));
    }
}

proof fn lemma_field_file_rows_all_equiv(
    f1: OutputFormatter,
    f2: OutputFormatter,
    fs1: Seq<OpenFileInfo>,
    fs2: Seq<OpenFileInfo>,
    fields: Seq<char>,
)
    requires
        formatter_equiv(f1, f2),
        fs1.len() == fs2.len(),
        forall|i: int|
            0 <= i < fs1.len() ==> crate::model::open_file_equiv(#[trigger] fs1[i], fs2[i]),
    ensures
        field_file_rows_all(f1, fs1, fields) == field_file_rows_all(f2, fs2, fields),
    decreases fs1.len(),
{
    if fs1.len() > 0 {
        lemma_field_file_rows_equiv(f1, f2, fs1[0], fs2[0], fields);
        let r1 = fs1.subrange(1, fs1.len() as int);
        let r2 = fs2.subrange(1, fs2.len() as int);
        assert forall|i: int| 0 <= i < r1.len() implies crate::model::open_file_equiv(
            #[trigger] r1[i],
            r2[i],
        ) by {
            assert(r1[i] == fs1[i + 1]);
            assert(r2[i] == fs2[i + 1]);
        }
        lemma_field_file_rows_all_equiv(f1, f2, r1, r2, fields);
    }
}

/// Alike formatters and alike processes render to the same
/// field-delimited lines.
pub proof fn lemma_field_rows_equiv(
    f1: OutputFormatter,
    f2: OutputFormatter,
    p1: ProcessInfo,
    p2: ProcessInfo,
)
    requires
        formatter_equiv(f1, f2),
        crate::model::process_equiv(p1, p2),
    ensures
        field_rows_spec(f1, p1) == field_rows_spec(f2, p2),
{
    assert(field_letters(f1) == field_letters(f2));
    lemma_field_process_rows_equiv(f1, f2, p1, p2, field_letters(f1));
    lemma_field_file_rows_all_equiv(f1, f2, p1.open_files@, p2.open_files@, field_letters(f1));
}

impl OutputFormatter {
    fn push_process_field_rows(&self, p: &ProcessInfo, fields: &str, rows: &mut Vec<String>)
        ensures
            views_of(final(rows)@) == views_of(old(rows)@) + field_process_rows(
                *self,
                *p,
                fields@,
            ),
    {
        let n = fields.unicode_len();
        let ghost fv = fields@;
        proof {
            assert(fv.subrange(0, n as int) =~= fv);
        }
        let mut i: usize = 0;
        while i < n
            invariant
                0 <= i <= n,
                n == fv.len(),
                fv == fields@,
                views_of(old(rows)@) + field_process_rows(*self, *p, fv) == views_of(rows@)
                    + field_process_rows(*self, *p, fv.subrange(i as int, n as int)),
            decreases n - i,
        {
            let ghost suffix = fv.subrange(i as int, n as int);
            proof {
                assert(suffix[0] == fv[i as int]);
                assert(suffix.subrange(1, suffix.len() as int) =~= fv.subrange(
                    i as int + 1,
                    n as int,
                ));
            }
            let ghost old_rows = views_of(rows@);
            let ghost rest1 = field_process_rows(*self, *p, fv.subrange(i as int + 1, n as int));
            let c = fields.get_char(i);
            if c == 'p' {
                let mut s = String::from_str("p");
                let d = u64_to_dec(p.pid as u64);
                s.append(d.as_str());
                rows.push(s);
                assert(views_of(rows@) =~= old_rows + seq!["p"@ + dec_seq(p.pid as nat)]);
            } else if c == 'c' {
                let mut s = String::from_str("c");
                s.append(p.comm.as_str());
                rows.push(s);
                assert(views_of(rows@) =~= old_rows + seq!["c"@ + p.comm@]);
            } else if c == 'u' {
                let mut s = String::from_str("u");
                let u = self.user_column(p);
                s.append(u.as_str());
                rows.push(s);
                assert(views_of(rows@) =~= old_rows + seq!["u"@ + user_display(*self, *p)]);
            } else if c == 'R' {
                match p.ppid {
                    Some(x) => {
                        let mut s = String::from_str("R");
                        let d = u64_to_dec(x as u64);
                        s.append(d.as_str());
                        rows.push(s);
                        assert(views_of(rows@) =~= old_rows + seq!["R"@ + dec_seq(x as nat)]);
                    },
                    None => {},
                }
            } else if c == 'g' {
                match p.pgid {
                    Some(g) => {
                        let mut s = String::from_str("g");
                        let d = u64_to_dec(g as u64);
                        s.append(d.as_str());
                        rows.push(s);
                        assert(views_of(rows@) =~= old_rows + seq!["g"@ + dec_seq(g as nat)]);
                    },
                    None => {},
                }
            }
            assert(views_of(old(rows)@) + field_process_rows(*self, *p, fv) =~= views_of(rows@)
                + field_process_rows(*self, *p, fv.subrange(i as int + 1, n as int)));
            i = i + 1;
        }
        proof {
            assert(fv.subrange(n as int, n as int) =~= Seq::<char>::empty());
            assert(views_of(rows@) + Seq::<Seq<char>>::empty() =~= views_of(rows@));
        }
    }

    fn push_file_field_rows(&self, f: &OpenFileInfo, fields: &str, rows: &mut Vec<String>)
        ensures
            views_of(final(rows)@) == views_of(old(rows)@) + field_file_rows(
                *self,
                *f,
                fields@,
            ),
    {
        let n = fields.unicode_len();
        let ghost fv = fields@;
        proof {
            assert(fv.subrange(0, n as int) =~= fv);
        }
        let mut i: usize = 0;
        while i < n
            invariant
                0 <= i <= n,
                n == fv.len(),
                fv == fields@,
                views_of(old(rows)@) + field_file_rows(*self, *f, fv) == views_of(rows@)
                    + field_file_rows(*self, *f, fv.subrange(i as int, n as int)),
            decreases n - i,
        {
            let ghost suffix = fv.subrange(i as int, n as int);
            proof {
                assert(suffix[0] == fv[i as int]);
                assert(suffix.subrange(1, suffix.len() as int) =~= fv.subrange(
                    i as int + 1,
                    n as int,
                ));
            }
            let ghost old_rows = views_of(rows@);
            let c = fields.get_char(i);
            if c == 'f' {
                let mut s = String::from_str("f");
                let d = f.fd.label();
                s.append(d.as_str());
                rows.push(s);
                assert(views_of(rows@) =~= old_rows + seq!["f"@ + fd_label(f.fd)]);
            } else if c == 't' {
                let mut s = String::from_str("t");
                let d = f.file_type.label();
                s.append(d.as_str());
                rows.push(s);
                assert(views_of(rows@) =~= old_rows + seq!["t"@ + file_type_label(f.file_type)]);
            } else if c == 'D' {
                let mut s = String::from_str("D");
                s.append(f.device.as_str());
                rows.push(s);
                assert(views_of(rows@) =~= old_rows + seq!["D"@ + f.device@]);
            } else if c == 's' {
                match f.size_off {
                    Some(sz) => {
                        let mut s = String::from_str("s");
                        let d = u64_to_dec(sz);
                        s.append(d.as_str());
                        rows.push(s);
                        assert(views_of(rows@) =~= old_rows + seq!["s"@ + dec_seq(sz as nat)]);
                    },
                    None => {},
                }
            } else if c == 'i' {
                let mut s = String::from_str("i");
                s.append(f.node.as_str());
                rows.push(s);
                assert(views_of(rows@) =~= old_rows + seq!["i"@ + f.node@]);
            } else if c == 'n' {
                let mut s = String::from_str("n");
                s.append(f.name.as_str());
                rows.push(s);
                assert(views_of(rows@) =~= old_rows + seq!["n"@ + f.name@]);
            }
            assert(views_of(old(rows)@) + field_file_rows(*self, *f, fv) =~= views_of(rows@)
                + field_file_rows(*self, *f, fv.subrange(i as int + 1, n as int)));
            i = i + 1;
        }
        proof {
            assert(fv.subrange(n as int, n as int) =~= Seq::<char>::empty());
            assert(views_of(rows@) + Seq::<Seq<char>>::empty() =~= views_of(rows@));
        }
    }

    /// Render the field-delimited lines of one process: its
    /// process-level fields once, then the file-level fields of each
    /// descriptor in order.
    pub fn render_field_rows(&self, p: &ProcessInfo) -> (rows: Vec<String>)
        ensures
            views_of(rows@) == field_rows_spec(*self, *p),
    {
        let fields = match &self.field_output {
            Some(s) => s.clone(),
            None => String::from_str("pcuftn"),
        };
        let mut rows: Vec<String> = Vec::new();
        self.push_process_field_rows(p, fields.as_str(), &mut rows);
        let ghost files = p.open_files@;
        let n = p.open_files.len();
        proof {
            assert(files.subrange(0, n as int) =~= files);
            assert(views_of(rows@) + field_file_rows_all(*self, files, fields@) =~= views_of(
                rows@,
            ) + field_file_rows_all(*self, files.subrange(0, n as int), fields@));
        }
        let ghost head = views_of(rows@);
        let mut i: usize = 0;
        while i < n
            invariant
                0 <= i <= n,
                n == p.open_files@.len(),
                files == p.open_files@,
                fields@ == field_letters(*self),
                head + field_file_rows_all(*self, files, fields@) == views_of(rows@)
                    + field_file_rows_all(*self, files.subrange(i as int, n as int), fields@),
                head == field_process_rows(*self, *p, field_letters(*self)),
            decreases n - i,
        {
            let ghost suffix = files.subrange(i as int, n as int);
            proof {
                assert(suffix[0] == files[i as int]);
                assert(suffix.subrange(1, suffix.len() as int) =~= files.subrange(
                    i as int + 1,
                    n as int,
                ));
            }
            self.push_file_field_rows(&p.open_files[i], fields.as_str(), &mut rows);
            assert(head + field_file_rows_all(*self, files, fields@) =~= views_of(rows@)
                + field_file_rows_all(*self, files.subrange(i as int + 1, n as int), fields@));
            i = i + 1;
        }
        proof {
            assert(files.subrange(n as int, n as int) =~= Seq::<OpenFileInfo>::empty());
            assert(views_of(rows@) + Seq::<Seq<char>>::empty() =~= views_of(rows@));
            assert(views_of(rows@) =~= field_rows_spec(*self, *p));
        }
        rows
    }
}

} // verus!
