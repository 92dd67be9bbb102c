//! Command-line selection arguments and the `+X` flag rewriter that turns
//! the classical `+D`/`+d`/`+c` forms into their long-flag equivalents
//! before argument parsing.

use vstd::prelude::*;
use crate::text::views_of;

verus! {

broadcast use vstd::string::group_string_axioms;

/// Parsed command-line arguments. The binary front end fills this from
/// the raw argument vector; the selection strings stay unparsed here and
/// are handed to the filter engine.
#[derive(Debug, Clone)]
pub struct CliArgs {
    /// `-p`: select by PID (comma-separated, prefix `^` to exclude).
    pub pid: Option<String>,
    /// `-i`: select network files matching a spec.
    pub inet: Option<String>,
    /// `-u`: select by user (comma-separated, prefix `^` to exclude).
    pub user: Option<String>,
    /// `-c`: select by command-name prefix (prefix `^` to exclude).
    pub command: Option<String>,
    /// `-t`: terse output, PIDs only.
    pub terse: bool,
    /// `-n`: no hostname resolution.
    pub no_hostname: bool,
    /// `-P`: no port-name resolution.
    pub no_portname: bool,
    /// `-a`: AND the selections (default is OR).
    pub and_mode: bool,
    /// `-I`: enter the interactive browser.
    pub interactive: bool,
    /// `-l`: list UID numbers instead of login names.
    pub list_uid: bool,
    /// `-R`: show the parent-PID column.
    pub show_ppid: bool,
    /// `-F`: field output mode with the given field characters.
    pub field_output: Option<String>,
    /// `-r`: repeat interval in seconds.
    pub repeat: Option<u64>,
    /// `-d`: FD set filter.
    pub fd_filter: Option<String>,
    /// `--dir-tree` (`+D`): select files under a directory, recursively.
    pub dir_tree: Option<String>,
    /// `--dir` (`+d`): select files directly inside a directory.
    pub dir: Option<String>,
    /// `--cmd-width` (`+c`): width of the COMMAND column.
    pub cmd_width: Option<usize>,
    /// `-w`: suppress warnings.
    pub suppress_warnings: bool,
    /// `-g`: select by process-group ID.
    pub pgid: Option<String>,
    /// `-s`: file size filter.
    pub size_filter: Option<String>,
    /// `-b`: accepted for compatibility, no effect.
    pub avoid_blocking: bool,
    /// `-x`: accepted for compatibility, no effect.
    pub cross_fs: bool,
    /// `-S`: avoid stat() calls on files.
    pub avoid_stat: bool,
    /// `-L`: follow symbolic links.
    pub follow_symlinks: bool,
    /// `-T`: TCP/TPI info selection.
    pub tcp_info: Option<String>,
    /// Positional arguments: file names to search for.
    pub names: Vec<String>,
}

/// The rewriting of the tokens after the program name: `+D`, `+d` and
/// `+c` each become their long form, and the token that follows one of
/// them is kept as it stands, never rewritten itself.
pub open spec fn rewrite_tokens(toks: Seq<Seq<char>>) -> Seq<Seq<char>>
    decreases toks.len(),
{
    if toks.len() == 0 {
        Seq::empty()
    } else if toks[0] == "+D"@ || toks[0] == "+d"@ || toks[0] == "+c"@ {
        let repl = if toks[0] == "+D"@ {
            "--dir-tree"@
        } else if toks[0] == "+d"@ {
            "--dir"@
        } else {
            "--cmd-width"@
        };
        if toks.len() == 1 {
            seq![repl]
        } else {
            seq![repl, toks[1]] + rewrite_tokens(toks.subrange(2, toks.len() as int))
        }
    } else {
        seq![toks[0]] + rewrite_tokens(toks.subrange(1, toks.len() as int))
    }
}

/// The whole argument vector after preprocessing: the program name is
/// kept as-is, the rest is rewritten.
pub open spec fn preprocess_spec(args: Seq<Seq<char>>) -> Seq<Seq<char>> {
    if args.len() == 0 {
        Seq::empty()
    } else {
        seq![args[0]] + rewrite_tokens(args.subrange(1, args.len() as int))
    }
}

proof fn lemma_rewrite_plain(toks: Seq<Seq<char>>)
    requires
        forall|i: int|
            0 <= i < toks.len() ==> (#[trigger] toks[i].len() == 0 || toks[i][0] != '+'),
    ensures
        rewrite_tokens(toks) == toks,
    decreases toks.len(),
{
    reveal_strlit("+D");
    reveal_strlit("+d");
    reveal_strlit("+c");
    if toks.len() > 0 {
        assert(toks[0] != "+D"@ && toks[0] != "+d"@ && toks[0] != "+c"@) by {
            if toks[0] == "+D"@ || toks[0] == "+d"@ || toks[0] == "+c"@ {
                assert(toks[0].len() == 2);
                assert(toks[0][0] == '+');
            }
        }
        let rest = toks.subrange(1, toks.len() as int);
        assert forall|i: int| 0 <= i < rest.len() implies (#[trigger] rest[i].len() == 0
            || rest[i][0] != '+') by {
            assert(rest[i] == toks[i + 1]);
        }
        lemma_rewrite_plain(rest);
        assert(seq![toks[0]] + rest =~= toks);
    } else {
        assert(rewrite_tokens(toks) =~= toks);
    }
}

/// Preprocessing is the identity on an argument vector none of whose
/// tokens after the program name begins with `+`, and therefore
/// idempotent on such vectors.
pub proof fn lemma_preprocess_plain(args: Seq<Seq<char>>)
    requires
        forall|i: int|
            1 <= i < args.len() ==> (#[trigger] args[i].len() == 0 || args[i][0] != '+'),
    ensures
        preprocess_spec(args) == args,
        preprocess_spec(preprocess_spec(args)) == preprocess_spec(args),
{
    if args.len() > 0 {
        let rest = args.subrange(1, args.len() as int);
        assert forall|i: int| 0 <= i < rest.len() implies (#[trigger] rest[i].len() == 0
            || rest[i][0] != '+') by {
            assert(rest[i] == args[i + 1]);
        }
        lemma_rewrite_plain(rest);
        assert(seq![args[0]] + rest =~= args);
    } else {
        assert(preprocess_spec(args) =~= args);
    }
}

/// Rewrite lsof-style `+` prefix flags into their `--long` equivalents
/// before argument parsing: `+D DIR` to `--dir-tree DIR`, `+d DIR` to
/// `--dir DIR`, `+c WIDTH` to `--cmd-width WIDTH`.
pub fn preprocess_args(args: Vec<String>) -> (r: Vec<String>)
    ensures
        views_of(r@) == preprocess_spec(views_of(args@)),
{
    let mut result: Vec<String> = Vec::new();
    let n = args.len();
    if n == 0 {
        assert(views_of(result@) =~= preprocess_spec(views_of(args@)));
        return result;
    }
    result.push(args[0].clone());
    let ghost av = views_of(args@);
    let mut i: usize = 1;
    while i < n
        invariant
            1 <= i <= n,
            n == args@.len(),
            av == views_of(args@),
            av.len() == n,
            preprocess_spec(av) == views_of(result@) + rewrite_tokens(
                av.subrange(i as int, n as int),
            ),
        decreases n - i,
    {
        let ghost suffix = av.subrange(i as int, n as int);
        proof {
            assert(suffix[0] == av[i as int]);
        }
        let arg = &args[i];
        let is_big_d = crate::text::str_eq(arg.as_str(), "+D");
        let is_small_d = crate::text::str_eq(arg.as_str(), "+d");
        let is_c = crate::text::str_eq(arg.as_str(), "+c");
        if is_big_d || is_small_d || is_c {
            if is_big_d {
                result.push(String::from_str("--dir-tree"));
            } else if is_small_d {
                result.push(String::from_str("--dir"));
            } else {
                result.push(String::from_str("--cmd-width"));
            }
            if i + 1 < n {
                proof {
                    assert(suffix[1] == av[i as int + 1]);
                    assert(suffix.subrange(2, suffix.len() as int) =~= av.subrange(
                        i as int + 2,
                        n as int,
                    ));
                }
                result.push(args[i + 1].clone());
                proof {
                    assert(views_of(result@) + rewrite_tokens(av.subrange(i as int + 2, n as int))
                        =~= preprocess_spec(av));
                }
                i = i + 2;
            } else {
                proof {
                    assert(suffix.len() == 1);
                    assert(views_of(result@) + rewrite_tokens(av.subrange(n as int, n as int))
                        =~= preprocess_spec(av));
                }
                i = i + 1;
            }
        } else {
            proof {
                assert(suffix.subrange(1, suffix.len() as int) =~= av.subrange(
                    i as int + 1,
                    n as int,
                ));
            }
            result.push(arg.clone());
            proof {
                assert(views_of(result@) + rewrite_tokens(av.subrange(i as int + 1, n as int))
                    =~= preprocess_spec(av));
            }
            i = i + 1;
        }
    }
    proof {
        assert(av.subrange(n as int, n as int) =~= Seq::<Seq<char>>::empty());
        assert(views_of(result@) + rewrite_tokens(Seq::empty()) =~= views_of(result@));
    }
    result
}

} // verus!
