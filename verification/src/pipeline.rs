//! Pipeline driver logic: the filtering and pruning passes over a
//! process snapshot, and the dispatch to the output formats. The binary
//! front end enumerates processes and descriptors and hands the
//! snapshot here.

use vstd::prelude::*;
use crate::filter::{matches_file_spec, matches_process_spec, FilterConfig};
use crate::model::{OpenFileInfo, ProcessInfo};
use crate::output::{
    field_rows_spec, file_row, header_line, placeholder_row, OutputFormatter,
};
use crate::text::{dec_seq, views_of};

verus! {

/// The subsequence of processes that pass the process-level filters,
/// in order.
pub open spec fn process_filter_seq(s: Seq<ProcessInfo>, c: FilterConfig) -> Seq<ProcessInfo>
    decreases s.len(),
{
    if s.len() == 0 {
        Seq::empty()
    } else {
        let rest = process_filter_seq(s.drop_first(), c);
        if matches_process_spec(c, s[0]) {
            seq![s[0]] + rest
        } else {
            rest
        }
    }
}

/// The subsequence of files that pass the file-level filters, in order.
pub open spec fn file_filter_seq(s: Seq<OpenFileInfo>, c: FilterConfig) -> Seq<OpenFileInfo>
    decreases s.len(),
{
    if s.len() == 0 {
        Seq::empty()
    } else {
        let rest = file_filter_seq(s.drop_first(), c);
        if matches_file_spec(c, s[0]) {
            seq![s[0]] + rest
        } else {
            rest
        }
    }
}

/// The subsequence of processes that still hold at least one
/// descriptor record, in order.
pub open spec fn prune_seq(s: Seq<ProcessInfo>) -> Seq<ProcessInfo>
    decreases s.len(),
{
    if s.len() == 0 {
        Seq::empty()
    } else {
        let rest = prune_seq(s.drop_first());
        if s[0].open_files@.len() > 0 {
            seq![s[0]] + rest
        } else {
            rest
        }
    }
}

/// Keep the processes that pass the process-level filters.
pub fn filter_processes(procs: Vec<ProcessInfo>, cfg: &FilterConfig) -> (r: Vec<ProcessInfo>)
    ensures
        r@ == process_filter_seq(procs@, *cfg),
{
    let ghost orig = procs@;
    let mut rem = procs;
    let mut out: Vec<ProcessInfo> = Vec::new();
    proof {
        assert(out@ + process_filter_seq(orig, *cfg) =~= process_filter_seq(orig, *cfg));
    }
    while rem.len() > 0
        invariant
            process_filter_seq(orig, *cfg) == out@ + process_filter_seq(rem@, *cfg),
        decreases rem@.len(),
    {
        let ghost pre = rem@;
        let p = rem.remove(0);
        proof {
            assert(pre.drop_first() =~= rem@);
            assert(p == pre[0]);
        }
        let ghost old_out = out@;
        if cfg.matches_process(&p) {
            out.push(p);
            proof {
                assert(old_out + (seq![pre[0]] + process_filter_seq(rem@, *cfg)) =~= out@
                    + process_filter_seq(rem@, *cfg));
            }
        }
        proof {
            assert(rem@.len() < pre.len());
        }
    }
    proof {
        assert(out@ + process_filter_seq(rem@, *cfg) =~= out@);
    }
    out
}

/// Keep the files that pass the file-level filters.
pub fn filter_files(files: Vec<OpenFileInfo>, cfg: &FilterConfig) -> (r: Vec<OpenFileInfo>)
    ensures
        r@ == file_filter_seq(files@, *cfg),
{
    let ghost orig = files@;
    let mut rem = files;
    let mut out: Vec<OpenFileInfo> = Vec::new();
    proof {
        assert(out@ + file_filter_seq(orig, *cfg) =~= file_filter_seq(orig, *cfg));
    }
    while rem.len() > 0
        invariant
            file_filter_seq(orig, *cfg) == out@ + file_filter_seq(rem@, *cfg),
        decreases rem@.len(),
    {
        let ghost pre = rem@;
        let f = rem.remove(0);
        proof {
            assert(pre.drop_first() =~= rem@);
            assert(f == pre[0]);
        }
        let ghost old_out = out@;
        if cfg.matches_file(&f) {
            out.push(f);
            proof {
                assert(old_out + (seq![pre[0]] + file_filter_seq(rem@, *cfg)) =~= out@
                    + file_filter_seq(rem@, *cfg));
            }
        }
    }
    proof {
        assert(out@ + file_filter_seq(rem@, *cfg) =~= out@);
    }
    out
}

/// Drop the processes whose descriptor list came out empty. The driver
/// applies this exactly when a file-level filter is active, so that a
/// filter with no matching descriptor prunes the whole process.
pub fn prune_empty_processes(procs: Vec<ProcessInfo>) -> (r: Vec<ProcessInfo>)
    ensures
        r@ == prune_seq(procs@),
        forall|i: int| 0 <= i < r@.len() ==> #[trigger] r@[i].open_files@.len() > 0,
{
    let ghost orig = procs@;
    let mut rem = procs;
    let mut out: Vec<ProcessInfo> = Vec::new();
    proof {
        assert(out@ + prune_seq(orig) =~= prune_seq(orig));
    }
    while rem.len() > 0
        invariant
            prune_seq(orig) == out@ + prune_seq(rem@),
            forall|i: int| 0 <= i < out@.len() ==> #[trigger] out@[i].open_files@.len() > 0,
        decreases rem@.len(),
    {
        let ghost pre = rem@;
        let p = rem.remove(0);
        proof {
            assert(pre.drop_first() =~= rem@);
            assert(p == pre[0]);
        }
        let ghost old_out = out@;
        if p.fd_count() > 0 {
            out.push(p);
            proof {
                assert(old_out + (seq![pre[0]] + prune_seq(rem@)) =~= out@ + prune_seq(rem@));
            }
        }
    }
    proof {
        assert(out@ + prune_seq(rem@) =~= out@);
    }
    out
}

/// A file-level filter that matches none of a process's descriptors
/// empties its list, so the prune pass that follows drops the whole
/// process: the emptied process never stands in the pruned snapshot.
pub proof fn lemma_file_filter_prunes(c: FilterConfig, files: Seq<OpenFileInfo>)
    requires
        forall|i: int| 0 <= i < files.len() ==> !matches_file_spec(c, #[trigger] files[i]),
    ensures
        file_filter_seq(files, c).len() == 0,
    decreases files.len(),
{
    if files.len() > 0 {
        let rest = files.drop_first();
        assert forall|i: int| 0 <= i < rest.len() implies !matches_file_spec(
            c,
            #[trigger] rest[i],
        ) by {
            assert(rest[i] == files[i + 1]);
        }
        lemma_file_filter_prunes(c, rest);
    }
}

/// A process that holds no descriptor records contributes exactly one
/// placeholder row in columnar mode, exactly one PID line in terse
/// mode, and only its process-level lines in field mode.
pub proof fn lemma_empty_process_rows(fmt: OutputFormatter, p: ProcessInfo)
    requires
        p.open_files@.len() == 0,
    ensures
        columnar_proc_rows(fmt, p) == seq![placeholder_row(fmt, p)],
        terse_rows_spec(seq![p]) == seq![dec_seq(p.pid as nat)],
        field_rows_spec(fmt, p) == crate::output::field_process_rows(
            fmt,
            p,
            crate::output::field_letters(fmt),
        ),
{
    assert(terse_rows_spec(seq![p]) =~= seq![dec_seq(p.pid as nat)]);
    assert(crate::output::field_file_rows_all(fmt, p.open_files@, crate::output::field_letters(fmt))
        =~= Seq::<Seq<char>>::empty());
    assert(field_rows_spec(fmt, p) =~= crate::output::field_process_rows(
        fmt,
        p,
        crate::output::field_letters(fmt),
    ));
}

/// The columnar rows of one process: its descriptor rows, or one
/// placeholder row when it holds none.
pub open spec fn columnar_proc_rows(fmt: OutputFormatter, p: ProcessInfo) -> Seq<Seq<char>> {
    if p.open_files@.len() == 0 {
        seq![placeholder_row(fmt, p)]
    } else {
        Seq::new(p.open_files@.len(), |i: int| file_row(fmt, p, p.open_files@[i]))
    }
}

/// The columnar rows of a whole snapshot, in order, without the header.
pub open spec fn columnar_rows_all(fmt: OutputFormatter, procs: Seq<ProcessInfo>) -> Seq<
    Seq<char>,
>
    decreases procs.len(),
{
    if procs.len() == 0 {
        Seq::empty()
    } else {
        columnar_proc_rows(fmt, procs[0]) + columnar_rows_all(fmt, procs.drop_first())
    }
}

/// The field-delimited rows of a whole snapshot, in order.
pub open spec fn field_rows_all(fmt: OutputFormatter, procs: Seq<ProcessInfo>) -> Seq<Seq<char>>
    decreases procs.len(),
{
    if procs.len() == 0 {
        Seq::empty()
    } else {
        field_rows_spec(fmt, procs[0]) + field_rows_all(fmt, procs.drop_first())
    }
}

/// The terse rows: one decimal PID per process.
pub open spec fn terse_rows_spec(procs: Seq<ProcessInfo>) -> Seq<Seq<char>> {
    Seq::new(procs.len(), |i: int| dec_seq(procs[i].pid as nat))
}

/// Every line of a run, in the mode the options select, in precedence
/// order: terse beats field-delimited beats columnar. Columnar output
/// opens with the header line.
pub open spec fn output_rows_spec(fmt: OutputFormatter, procs: Seq<ProcessInfo>) -> Seq<
    Seq<char>,
> {
    if fmt.terse {
        terse_rows_spec(procs)
    } else if fmt.field_output is Some {
        field_rows_all(fmt, procs)
    } else {
        seq![header_line(fmt)] + columnar_rows_all(fmt, procs)
    }
}

/// Whether two snapshots carry the same observable data, process by
/// process.
pub open spec fn procs_equiv(a: Seq<ProcessInfo>, b: Seq<ProcessInfo>) -> bool {
    a.len() == b.len() && forall|i: int|
        0 <= i < a.len() ==> crate::model::process_equiv(#[trigger] a[i], b[i])
}

proof fn lemma_columnar_proc_rows_equiv(
    f1: OutputFormatter,
    f2: OutputFormatter,
    p1: ProcessInfo,
    p2: ProcessInfo,
)
    requires
        crate::output::formatter_equiv(f1, f2),
        crate::model::process_equiv(p1, p2),
    ensures
        columnar_proc_rows(f1, p1) == columnar_proc_rows(f2, p2),
{
    if p1.open_files@.len() == 0 {
        crate::output::lemma_placeholder_row_equiv(f1, f2, p1, p2);
    } else {
        assert forall|i: int| 0 <= i < p1.open_files@.len() implies file_row(
            f1,
            p1,
            p1.open_files@[i],
        ) == file_row(f2, p2, p2.open_files@[i]) by {
            crate::output::lemma_file_row_equiv(
                f1,
                f2,
                p1,
                p2,
                p1.open_files@[i],
                p2.open_files@[i],
            );
        }
        assert(columnar_proc_rows(f1, p1) =~= columnar_proc_rows(f2, p2));
    }
}

proof fn lemma_columnar_rows_all_equiv(
    f1: OutputFormatter,
    f2: OutputFormatter,
    a: Seq<ProcessInfo>,
    b: Seq<ProcessInfo>,
)
    requires
        crate::output::formatter_equiv(f1, f2),
        procs_equiv(a, b),
    ensures
        columnar_rows_all(f1, a) == columnar_rows_all(f2, b),
    decreases a.len(),
{
    if a.len() > 0 {
        lemma_columnar_proc_rows_equiv(f1, f2, a[0], b[0]);
        let r1 = a.drop_first();
        let r2 = b.drop_first();
        assert forall|i: int| 0 <= i < r1.len() implies crate::model::process_equiv(
            #[trigger] r1[i],
            r2[i],
        ) by {
            assert(r1[i] == a[i + 1]);
            assert(r2[i] == b[i + 1]);
        }
        lemma_columnar_rows_all_equiv(f1, f2, r1, r2);
    }
}

proof fn lemma_field_rows_all_equiv(
    f1: OutputFormatter,
    f2: OutputFormatter,
    a: Seq<ProcessInfo>,
    b: Seq<ProcessInfo>,
)
    requires
        crate::output::formatter_equiv(f1, f2),
        procs_equiv(a, b),
    ensures
        field_rows_all(f1, a) == field_rows_all(f2, b),
    decreases a.len(),
{
    if a.len() > 0 {
        crate::output::lemma_field_rows_equiv(f1, f2, a[0], b[0]);
        let r1 = a.drop_first();
        let r2 = b.drop_first();
        assert forall|i: int| 0 <= i < r1.len() implies crate::model::process_equiv(
            #[trigger] r1[i],
            r2[i],
        ) by {
            assert(r1[i] == a[i + 1]);
            assert(r2[i] == b[i + 1]);
        }
        lemma_field_rows_all_equiv(f1, f2, r1, r2);
    }
}

/// One filtering pass cannot tell two snapshots apart that carry the
/// same data: it keeps the records at the same positions, and what it
/// keeps still carries the same data.
pub proof fn lemma_process_filter_equiv(c: FilterConfig, a: Seq<ProcessInfo>, b: Seq<ProcessInfo>)
    requires
        procs_equiv(a, b),
    ensures
        procs_equiv(process_filter_seq(a, c), process_filter_seq(b, c)),
    decreases a.len(),
{
    if a.len() > 0 {
        crate::filter::lemma_matches_process_equiv(c, a[0], b[0]);
        let ra = a.drop_first();
        let rb = b.drop_first();
        assert forall|i: int| 0 <= i < ra.len() implies crate::model::process_equiv(
            #[trigger] ra[i],
            rb[i],
        ) by {
            assert(ra[i] == a[i + 1]);
            assert(rb[i] == b[i + 1]);
        }
        lemma_process_filter_equiv(c, ra, rb);
        if matches_process_spec(c, a[0]) {
            let fa = seq![a[0]] + process_filter_seq(ra, c);
            let fb = seq![b[0]] + process_filter_seq(rb, c);
            assert forall|i: int| 0 <= i < fa.len() implies crate::model::process_equiv(
                #[trigger] fa[i],
                fb[i],
            ) by {
                if i > 0 {
                    assert(fa[i] == process_filter_seq(ra, c)[i - 1]);
                    assert(fb[i] == process_filter_seq(rb, c)[i - 1]);
                }
            }
        }
    }
}

/// The file-level pass cannot tell two descriptor lists apart that
/// carry the same data.
pub proof fn lemma_file_filter_equiv(c: FilterConfig, a: Seq<OpenFileInfo>, b: Seq<OpenFileInfo>)
    requires
        a.len() == b.len(),
        forall|i: int|
            0 <= i < a.len() ==> crate::model::open_file_equiv(#[trigger] a[i], b[i]),
    ensures
        file_filter_seq(a, c).len() == file_filter_seq(b, c).len(),
        forall|i: int|
            0 <= i < file_filter_seq(a, c).len() ==> crate::model::open_file_equiv(
                #[trigger] file_filter_seq(a, c)[i],
                file_filter_seq(b, c)[i],
            ),
    decreases a.len(),
{
    if a.len() > 0 {
        crate::filter::lemma_matches_file_equiv(c, a[0], b[0]);
        let ra = a.drop_first();
        let rb = b.drop_first();
        assert forall|i: int| 0 <= i < ra.len() implies crate::model::open_file_equiv(
            #[trigger] ra[i],
            rb[i],
        ) by {
            assert(ra[i] == a[i + 1]);
            assert(rb[i] == b[i + 1]);
        }
        lemma_file_filter_equiv(c, ra, rb);
        if matches_file_spec(c, a[0]) {
            let fa = seq![a[0]] + file_filter_seq(ra, c);
            let fb = seq![b[0]] + file_filter_seq(rb, c);
            assert forall|i: int| 0 <= i < fa.len() implies crate::model::open_file_equiv(
                #[trigger] fa[i],
                fb[i],
            ) by {
                if i > 0 {
                    assert(fa[i] == file_filter_seq(ra, c)[i - 1]);
                    assert(fb[i] == file_filter_seq(rb, c)[i - 1]);
                }
            }
        }
    }
}

/// The prune pass cannot tell two snapshots apart that carry the same
/// data.
pub proof fn lemma_prune_equiv(a: Seq<ProcessInfo>, b: Seq<ProcessInfo>)
    requires
        procs_equiv(a, b),
    ensures
        procs_equiv(prune_seq(a), prune_seq(b)),
    decreases a.len(),
{
    if a.len() > 0 {
        let ra = a.drop_first();
        let rb = b.drop_first();
        assert forall|i: int| 0 <= i < ra.len() implies crate::model::process_equiv(
            #[trigger] ra[i],
            rb[i],
        ) by {
            assert(ra[i] == a[i + 1]);
            assert(rb[i] == b[i + 1]);
        }
        lemma_prune_equiv(ra, rb);
        if a[0].open_files@.len() > 0 {
            let fa = seq![a[0]] + prune_seq(ra);
            let fb = seq![b[0]] + prune_seq(rb);
            assert forall|i: int| 0 <= i < fa.len() implies crate::model::process_equiv(
                #[trigger] fa[i],
                fb[i],
            ) by {
                if i > 0 {
                    assert(fa[i] == prune_seq(ra)[i - 1]);
                    assert(fb[i] == prune_seq(rb)[i - 1]);
                }
            }
        }
    }
}

/// The output is a pure function of the snapshot: two runs over
/// snapshots that carry the same data, under options that select the
/// same output, produce identical lines, whatever the mode.
pub proof fn lemma_output_deterministic(
    f1: OutputFormatter,
    f2: OutputFormatter,
    a: Seq<ProcessInfo>,
    b: Seq<ProcessInfo>,
)
    requires
        crate::output::formatter_equiv(f1, f2),
        procs_equiv(a, b),
    ensures
        output_rows_spec(f1, a) == output_rows_spec(f2, b),
{
    if f1.terse {
        assert(terse_rows_spec(a) =~= terse_rows_spec(b));
    } else if f1.field_output is Some {
        lemma_field_rows_all_equiv(f1, f2, a, b);
    } else {
        lemma_columnar_rows_all_equiv(f1, f2, a, b);
    }
}

/// Render every output line of a filtered snapshot.
pub fn render_output(fmt: &OutputFormatter, procs: &Vec<ProcessInfo>) -> (rows: Vec<String>)
    ensures
        views_of(rows@) == output_rows_spec(*fmt, procs@),
{
    if fmt.terse {
        let rows = fmt.render_terse_rows(procs);
        proof {
            assert(views_of(rows@) =~= terse_rows_spec(procs@));
        }
        rows
    } else if fmt.field_output.is_some() {
        let mut rows: Vec<String> = Vec::new();
        let n = procs.len();
        let ghost pv = procs@;
        proof {
            assert(pv.subrange(0, n as int) =~= pv);
            assert(views_of(rows@) + field_rows_all(*fmt, pv) =~= field_rows_all(*fmt, pv));
        }
        let mut i: usize = 0;
        while i < n
            invariant
                0 <= i <= n,
                n == procs@.len(),
                pv == procs@,
                field_rows_all(*fmt, pv) == views_of(rows@) + field_rows_all(
                    *fmt,
                    pv.subrange(i as int, n as int),
                ),
            decreases n - i,
        {
            let ghost suffix = pv.subrange(i as int, n as int);
            proof {
                assert(suffix[0] == pv[i as int]);
                assert(suffix.drop_first() =~= pv.subrange(i as int + 1, n as int));
            }
            let ghost old_rows = views_of(rows@);
            let mut proc_rows = fmt.render_field_rows(&procs[i]);
            let ghost pr = views_of(proc_rows@);
            rows.append(&mut proc_rows);
            proof {
                assert(views_of(rows@) =~= old_rows + pr);
                assert(old_rows + (pr + field_rows_all(*fmt, pv.subrange(i as int + 1, n as int)))
                    =~= views_of(rows@) + field_rows_all(*fmt, pv.subrange(i as int + 1, n as int)));
            }
            i = i + 1;
        }
        proof {
            assert(pv.subrange(n as int, n as int) =~= Seq::<ProcessInfo>::empty());
            assert(views_of(rows@) + Seq::<Seq<char>>::empty() =~= views_of(rows@));
        }
        rows
    } else {
        let mut rows: Vec<String> = Vec::new();
        rows.push(fmt.render_header());
        let n = procs.len();
        let ghost pv = procs@;
        let ghost head = seq![header_line(*fmt)];
        proof {
            assert(views_of(rows@) =~= head);
            assert(pv.subrange(0, n as int) =~= pv);
            assert(head + columnar_rows_all(*fmt, pv) =~= views_of(rows@) + columnar_rows_all(
                *fmt,
                pv.subrange(0, n as int),
            ));
        }
        let mut i: usize = 0;
        while i < n
            invariant
                0 <= i <= n,
                n == procs@.len(),
                pv == procs@,
                head == seq![header_line(*fmt)],
                head + columnar_rows_all(*fmt, pv) == views_of(rows@) + columnar_rows_all(
                    *fmt,
                    pv.subrange(i as int, n as int),
                ),
            decreases n - i,
        {
            let ghost suffix = pv.subrange(i as int, n as int);
            proof {
                assert(suffix[0] == pv[i as int]);
                assert(suffix.drop_first() =~= pv.subrange(i as int + 1, n as int));
            }
            let ghost old_rows = views_of(rows@);
            let p = &procs[i];
            if p.fd_count() == 0 {
                rows.push(fmt.render_placeholder_row(p));
                proof {
                    assert(views_of(rows@) =~= old_rows + columnar_proc_rows(*fmt, pv[i as int]));
                }
            } else {
                let mut proc_rows = fmt.render_file_rows(p);
                let ghost pr = views_of(proc_rows@);
                rows.append(&mut proc_rows);
                proof {
                    assert(pr =~= columnar_proc_rows(*fmt, pv[i as int]));
                    assert(views_of(rows@) =~= old_rows + pr);
                }
            }
            proof {
                assert(head + columnar_rows_all(*fmt, pv) =~= views_of(rows@) + columnar_rows_all(
                    *fmt,
                    pv.subrange(i as int + 1, n as int),
                ));
            }
            i = i + 1;
        }
        proof {
            assert(pv.subrange(n as int, n as int) =~= Seq::<ProcessInfo>::empty());
            assert(views_of(rows@) + Seq::<Seq<char>>::empty() =~= views_of(rows@));
        }
        rows
    }
}

} // verus!
