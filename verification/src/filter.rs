//! Filter engine: the selection grammar parsed from the command line and
//! the two-level matching over processes and their open files.

use vstd::prelude::*;
use crate::cli::CliArgs;
use crate::error::LoofError;
use crate::model::{is_network_type, OpenFileInfo, ProcessInfo};
use crate::text::{
    all_digits, contains_seq, dec_seq, dec_val, starts_with_seq, trim_seq, upper_seq, views_of,
};

verus! {

/// Top-level filter configuration built from CLI arguments.
#[derive(Debug)]
pub struct FilterConfig {
    pub pids: Option<PidFilter>,
    pub pgids: Option<PgidFilter>,
    pub users: Option<UserFilter>,
    pub commands: Option<CommandFilter>,
    pub inet: Option<InetFilter>,
    pub dir_tree: Option<String>,
    pub dir: Option<String>,
    pub names: Vec<String>,
    pub and_mode: bool,
    pub size_filter: Option<SizeFilter>,
}

impl Default for FilterConfig {
    /// The empty configuration: no filter active, OR composition.
    fn default() -> (r: Self)
        ensures
            r.pids is None,
            r.pgids is None,
            r.users is None,
            r.commands is None,
            r.inet is None,
            r.dir_tree is None,
            r.dir is None,
            r.names@.len() == 0,
            r.and_mode == false,
            r.size_filter is None,
    {
        FilterConfig {
            pids: None,
            pgids: None,
            users: None,
            commands: None,
            inet: None,
            dir_tree: None,
            dir: None,
            names: Vec::new(),
            and_mode: false,
            size_filter: None,
        }
    }
}

/// PID-based filter with included/excluded lists.
#[derive(Debug)]
pub struct PidFilter {
    pub included: Vec<u32>,
    pub excluded: Vec<u32>,
}

impl Default for PidFilter {
    /// Both lists empty.
    fn default() -> (r: Self)
        ensures
            r.included@.len() == 0,
            r.excluded@.len() == 0,
    {
        PidFilter { included: Vec::new(), excluded: Vec::new() }
    }
}

/// PGID-based filter with included/excluded lists.
#[derive(Debug)]
pub struct PgidFilter {
    pub included: Vec<u32>,
    pub excluded: Vec<u32>,
}

impl Default for PgidFilter {
    /// Both lists empty.
    fn default() -> (r: Self)
        ensures
            r.included@.len() == 0,
            r.excluded@.len() == 0,
    {
        PgidFilter { included: Vec::new(), excluded: Vec::new() }
    }
}

/// Size comparison operator.
#[derive(Debug, Clone, Copy, PartialEq, Eq, Structural)]
pub enum SizeOp {
    GreaterThan,
    LessThan,
    Exact,
}

/// File size filter.
#[derive(Debug, Clone, Copy, PartialEq, Eq, Structural)]
pub struct SizeFilter {
    pub op: SizeOp,
    pub bytes: u64,
}

/// User-based filter with included/excluded lists.
#[derive(Debug)]
pub struct UserFilter {
    pub included: Vec<String>,
    pub excluded: Vec<String>,
}

impl Default for UserFilter {
    /// Both lists empty.
    fn default() -> (r: Self)
        ensures
            r.included@.len() == 0,
            r.excluded@.len() == 0,
    {
        UserFilter { included: Vec::new(), excluded: Vec::new() }
    }
}

/// Command-name filter with included/excluded lists (prefix match).
#[derive(Debug)]
pub struct CommandFilter {
    pub included: Vec<String>,
    pub excluded: Vec<String>,
}

impl Default for CommandFilter {
    /// Both lists empty.
    fn default() -> (r: Self)
        ensures
            r.included@.len() == 0,
            r.excluded@.len() == 0,
    {
        CommandFilter { included: Vec::new(), excluded: Vec::new() }
    }
}

/// Network filter parsed from an `-i` spec.
#[derive(Debug)]
pub struct InetFilter {
    /// Protocol substring to look for (stored uppercased), or any.
    pub protocol: Option<String>,
    /// Host substring to look for, or any.
    pub host: Option<String>,
    /// Port to look for, or any.
    pub port: Option<u16>,
    /// IP version 4 or 6, or both.
    pub ip_version: Option<u8>,
}

impl Default for InetFilter {
    /// Match every network file.
    fn default() -> (r: Self)
        ensures
            r.protocol is None,
            r.host is None,
            r.port is None,
            r.ip_version is None,
    {
        InetFilter { protocol: None, host: None, port: None, ip_version: None }
    }
}

// ---------------------------------------------------------------------------
// Membership helpers
// ---------------------------------------------------------------------------

/// A value passes an included/excluded pair when it is not excluded, and the
/// included list is empty or holds it.
pub open spec fn ie_passes_u32(inc: Seq<u32>, exc: Seq<u32>, v: u32) -> bool {
    !exc.contains(v) && (inc.len() == 0 || inc.contains(v))
}

/// The included/excluded rule over strings, by contents.
pub open spec fn ie_passes_str(inc: Seq<Seq<char>>, exc: Seq<Seq<char>>, v: Seq<char>) -> bool {
    !exc.contains(v) && (inc.len() == 0 || inc.contains(v))
}

/// Whether any pattern in `pats` is a prefix of `s`.
pub open spec fn prefix_any(pats: Seq<Seq<char>>, s: Seq<char>) -> bool {
    exists|i: int| 0 <= i < pats.len() && starts_with_seq(s, #[trigger] pats[i])
}

/// With both the included and the excluded list empty, every value
/// passes the individual filter: numeric, by name, and by command
/// prefix alike.
pub proof fn lemma_empty_lists_pass(
    v: u32,
    s: Seq<char>,
    inc: Seq<u32>,
    exc: Seq<u32>,
    sinc: Seq<Seq<char>>,
    sexc: Seq<Seq<char>>,
)
    requires
        inc.len() == 0,
        exc.len() == 0,
        sinc.len() == 0,
        sexc.len() == 0,
    ensures
        ie_passes_u32(inc, exc, v),
        ie_passes_str(sinc, sexc, s),
        !prefix_any(sexc, s) && (sinc.len() == 0 || prefix_any(sinc, s)),
{
    if exc.contains(v) {
        let i = choose|i: int| 0 <= i < exc.len() && exc[i] == v;
    }
    if sexc.contains(s) {
        let i = choose|i: int| 0 <= i < sexc.len() && sexc[i] == s;
    }
    if prefix_any(sexc, s) {
        let i = choose|i: int| 0 <= i < sexc.len() && starts_with_seq(s, #[trigger] sexc[i]);
    }
}

/// The process-level filters cannot tell two process records apart
/// that carry the same data: the same configuration accepts either
/// both or neither.
pub proof fn lemma_matches_process_equiv(c: FilterConfig, a: ProcessInfo, b: ProcessInfo)
    requires
        crate::model::process_equiv(a, b),
    ensures
        matches_process_spec(c, a) == matches_process_spec(c, b),
{
}

/// The file-level filters cannot tell two descriptor records apart
/// that carry the same data.
pub proof fn lemma_matches_file_equiv(c: FilterConfig, a: OpenFileInfo, b: OpenFileInfo)
    requires
        crate::model::open_file_equiv(a, b),
    ensures
        matches_file_spec(c, a) == matches_file_spec(c, b),
{
    crate::model::lemma_file_type_label_equiv(a.file_type, b.file_type);
}

fn contains_u32(v: &Vec<u32>, x: u32) -> (r: bool)
    ensures
        r == v@.contains(x),
{
    let n = v.len();
    let mut i: usize = 0;
    while i < n
        invariant
            0 <= i <= n,
            n == v@.len(),
            forall|j: int| 0 <= j < i ==> v@[j] != x,
        decreases n - i,
    {
        if v[i] == x {
            return true;
        }
        i = i + 1;
    }
    false
}

fn contains_string(v: &Vec<String>, x: &str) -> (r: bool)
    ensures
        r == views_of(v@).contains(x@),
{
    let n = v.len();
    let mut i: usize = 0;
    while i < n
        invariant
            0 <= i <= n,
            n == v@.len(),
            forall|j: int| 0 <= j < i ==> views_of(v@)[j] != x@,
        decreases n - i,
    {
        if crate::text::str_eq(v[i].as_str(), x) {
            assert(views_of(v@)[i as int] == x@);
            return true;
        }
        i = i + 1;
    }
    false
}

fn any_prefix_of(v: &Vec<String>, s: &str) -> (r: bool)
    ensures
        r == prefix_any(views_of(v@), s@),
{
    let n = v.len();
    let mut i: usize = 0;
    while i < n
        invariant
            0 <= i <= n,
            n == v@.len(),
            forall|j: int| 0 <= j < i ==> !starts_with_seq(s@, #[trigger] views_of(v@)[j]),
        decreases n - i,
    {
        if crate::text::str_starts_with(s, v[i].as_str()) {
            assert(starts_with_seq(s@, views_of(v@)[i as int]));
            return true;
        }
        i = i + 1;
    }
    false
}

// ---------------------------------------------------------------------------
// Parsing
// ---------------------------------------------------------------------------

/// The included/excluded numeric lists denoted by a token sequence:
/// tokens are trimmed, empty ones are skipped, a leading `^` marks an
/// exclusion, and any token that is not a decimal number that fits a
/// `u32` spoils the whole parse.
pub open spec fn u32_list_tokens(toks: Seq<Seq<char>>) -> Option<(Seq<u32>, Seq<u32>)>
    decreases toks.len(),
{
    if toks.len() == 0 {
        Some((Seq::empty(), Seq::empty()))
    } else {
        let t = trim_seq(toks[0]);
        let rest = u32_list_tokens(toks.drop_first());
        if t.len() == 0 {
            rest
        } else if t[0] == '^' {
            let d = t.subrange(1, t.len() as int);
            if d.len() > 0 && all_digits(d) && dec_val(d) <= u32::MAX {
                match rest {
                    None => None,
                    Some(ie) => Some((ie.0, seq![dec_val(d) as u32] + ie.1)),
                }
            } else {
                None
            }
        } else {
            if all_digits(t) && dec_val(t) <= u32::MAX {
                match rest {
                    None => None,
                    Some(ie) => Some((seq![dec_val(t) as u32] + ie.0, ie.1)),
                }
            } else {
                None
            }
        }
    }
}

/// The parse of a comma-separated numeric selection string.
pub open spec fn u32_list_spec(s: Seq<char>) -> Option<(Seq<u32>, Seq<u32>)> {
    u32_list_tokens(crate::text::split_seq(s, ','))
}

fn parse_u32_list(s: &str) -> (r: Option<(Vec<u32>, Vec<u32>)>)
    ensures
        r is Some <==> u32_list_spec(s@) is Some,
        r matches Some(p) ==> Some((p.0@, p.1@)) == u32_list_spec(s@),
{
    let toks = crate::text::str_split(s, ',');
    let ghost tv = views_of(toks@);
    let mut inc: Vec<u32> = Vec::new();
    let mut exc: Vec<u32> = Vec::new();
    let n = toks.len();
    proof {
        assert(tv.subrange(0, n as int) =~= tv);
        if u32_list_tokens(tv) is Some {
            let ie = u32_list_tokens(tv)->0;
            assert(inc@ + ie.0 =~= ie.0);
            assert(exc@ + ie.1 =~= ie.1);
        }
    }
    let mut k: usize = 0;
    while k < n
        invariant
            0 <= k <= n,
            n == toks@.len(),
            tv == views_of(toks@),
            tv == crate::text::split_seq(s@, ','),
            match u32_list_tokens(tv.subrange(k as int, n as int)) {
                None => u32_list_tokens(tv) is None,
                Some(ie) => u32_list_tokens(tv) == Some((inc@ + ie.0, exc@ + ie.1)),
            },
        decreases n - k,
    {
        let ghost suffix = tv.subrange(k as int, n as int);
        proof {
            assert(suffix[0] == tv[k as int]);
            assert(suffix.drop_first() =~= tv.subrange(k as int + 1, n as int));
        }
        let t = crate::text::str_trim(toks[k].as_str());
        let tn = t.unicode_len();
        if tn == 0 {
            k = k + 1;
            continue;
        }
        if t.get_char(0) == '^' {
            let d = t.substring_char(1, tn);
            match crate::text::parse_u32(d) {
                Some(v) => {
                    let ghost old_exc = exc@;
                    exc.push(v);
                    proof {
                        if u32_list_tokens(suffix) is Some {
                            let ie = u32_list_tokens(suffix)->0;
                            let ie1 = u32_list_tokens(suffix.drop_first())->0;
                            assert(ie.1 =~= seq![v] + ie1.1);
                            assert(old_exc + ie.1 =~= exc@ + ie1.1);
                        }
                    }
                },
                None => {
                    return None;
                },
            }
        } else {
            match crate::text::parse_u32(t) {
                Some(v) => {
                    let ghost old_inc = inc@;
                    inc.push(v);
                    proof {
                        if u32_list_tokens(suffix) is Some {
                            let ie = u32_list_tokens(suffix)->0;
                            let ie1 = u32_list_tokens(suffix.drop_first())->0;
                            assert(ie.0 =~= seq![v] + ie1.0);
                            assert(old_inc + ie.0 =~= inc@ + ie1.0);
                        }
                    }
                },
                None => {
                    return None;
                },
            }
        }
        k = k + 1;
    }
    proof {
        assert(tv.subrange(n as int, n as int) =~= Seq::<Seq<char>>::empty());
        assert(inc@ + Seq::<u32>::empty() =~= inc@);
        assert(exc@ + Seq::<u32>::empty() =~= exc@);
    }
    Some((inc, exc))
}

/// Parse a PID filter string: comma-separated PIDs, prefix `^` to
/// exclude. Fails with a parse error when any token is not a number.
pub fn parse_pid_filter(s: &str) -> (r: Result<PidFilter, LoofError>)
    ensures
        r is Ok <==> u32_list_spec(s@) is Some,
        r matches Ok(f) ==> Some((f.included@, f.excluded@)) == u32_list_spec(s@),
        r matches Err(e) ==> e is Parse,
{
    match parse_u32_list(s) {
        Some(p) => Ok(PidFilter { included: p.0, excluded: p.1 }),
        None => {
            let mut m = String::from_str("invalid PID: ");
            m.append(s);
            Err(LoofError::Parse(m))
        },
    }
}

/// Parse a PGID filter string: comma-separated PGIDs, prefix `^` to
/// exclude. Fails with a parse error when any token is not a number.
pub fn parse_pgid_filter(s: &str) -> (r: Result<PgidFilter, LoofError>)
    ensures
        r is Ok <==> u32_list_spec(s@) is Some,
        r matches Ok(f) ==> Some((f.included@, f.excluded@)) == u32_list_spec(s@),
        r matches Err(e) ==> e is Parse,
{
    match parse_u32_list(s) {
        Some(p) => Ok(PgidFilter { included: p.0, excluded: p.1 }),
        None => {
            let mut m = String::from_str("invalid PGID: ");
            m.append(s);
            Err(LoofError::Parse(m))
        },
    }
}

/// The included/excluded name lists denoted by a token sequence: tokens
/// are trimmed, empty ones are skipped, a leading `^` marks an exclusion.
pub open spec fn str_list_tokens(toks: Seq<Seq<char>>) -> (Seq<Seq<char>>, Seq<Seq<char>>)
    decreases toks.len(),
{
    if toks.len() == 0 {
        (Seq::empty(), Seq::empty())
    } else {
        let t = trim_seq(toks[0]);
        let rest = str_list_tokens(toks.drop_first());
        if t.len() == 0 {
            rest
        } else if t[0] == '^' {
            (rest.0, seq![t.subrange(1, t.len() as int)] + rest.1)
        } else {
            (seq![t] + rest.0, rest.1)
        }
    }
}

/// The parse of a comma-separated name selection string.
pub open spec fn str_list_spec(s: Seq<char>) -> (Seq<Seq<char>>, Seq<Seq<char>>) {
    str_list_tokens(crate::text::split_seq(s, ','))
}

/// Parse a user filter string: comma-separated user names, prefix `^`
/// to exclude.
pub fn parse_user_filter(s: &str) -> (r: UserFilter)
    ensures
        (views_of(r.included@), views_of(r.excluded@)) == str_list_spec(s@),
{
    let toks = crate::text::str_split(s, ',');
    let ghost tv = views_of(toks@);
    let mut inc: Vec<String> = Vec::new();
    let mut exc: Vec<String> = Vec::new();
    let n = toks.len();
    proof {
        assert(tv.subrange(0, n as int) =~= tv);
        let ie = str_list_tokens(tv);
        assert(views_of(inc@) + ie.0 =~= ie.0);
        assert(views_of(exc@) + ie.1 =~= ie.1);
    }
    let mut k: usize = 0;
    while k < n
        invariant
            0 <= k <= n,
            n == toks@.len(),
            tv == views_of(toks@),
            tv == crate::text::split_seq(s@, ','),
            ({
                let rest = str_list_tokens(tv.subrange(k as int, n as int));
                str_list_tokens(tv) == (views_of(inc@) + rest.0, views_of(exc@) + rest.1)
            }),
        decreases n - k,
    {
        let ghost suffix = tv.subrange(k as int, n as int);
        proof {
            assert(suffix[0] == tv[k as int]);
            assert(suffix.drop_first() =~= tv.subrange(k as int + 1, n as int));
        }
        let ghost old_inc = views_of(inc@);
        let ghost old_exc = views_of(exc@);
        let ghost rest1 = str_list_tokens(tv.subrange(k as int + 1, n as int));
        let t = crate::text::str_trim(toks[k].as_str());
        let tn = t.unicode_len();
        if tn > 0 {
            if t.get_char(0) == '^' {
                exc.push(t.substring_char(1, tn).to_owned());
                proof {
                    assert(views_of(exc@) =~= old_exc + seq![trim_seq(tv[k as int]).subrange(
                        1,
                        trim_seq(tv[k as int]).len() as int,
                    )]);
                    assert(old_exc + (seq![trim_seq(tv[k as int]).subrange(
                        1,
                        trim_seq(tv[k as int]).len() as int,
                    )] + rest1.1) =~= views_of(exc@) + rest1.1);
                }
            } else {
                inc.push(t.to_owned());
                proof {
                    assert(views_of(inc@) =~= old_inc + seq![trim_seq(tv[k as int])]);
                    assert(old_inc + (seq![trim_seq(tv[k as int])] + rest1.0) =~= views_of(inc@)
                        + rest1.0);
                }
            }
        }
        k = k + 1;
    }
    proof {
        assert(tv.subrange(n as int, n as int) =~= Seq::<Seq<char>>::empty());
        assert(views_of(inc@) + Seq::<Seq<char>>::empty() =~= views_of(inc@));
        assert(views_of(exc@) + Seq::<Seq<char>>::empty() =~= views_of(exc@));
    }
    UserFilter { included: inc, excluded: exc }
}

/// The parse of a command filter string: one trimmed token, a leading
/// `^` marking an exclusion.
pub open spec fn command_spec(s: Seq<char>) -> (Seq<Seq<char>>, Seq<Seq<char>>) {
    let t = trim_seq(s);
    if t.len() == 0 {
        (Seq::empty(), Seq::empty())
    } else if t[0] == '^' {
        (Seq::empty(), seq![t.subrange(1, t.len() as int)])
    } else {
        (seq![t], Seq::empty())
    }
}

/// Parse a command filter string: a command name prefix, with `^` to
/// exclude.
pub fn parse_command_filter(s: &str) -> (r: CommandFilter)
    ensures
        (views_of(r.included@), views_of(r.excluded@)) == command_spec(s@),
{
    let mut inc: Vec<String> = Vec::new();
    let mut exc: Vec<String> = Vec::new();
    let t = crate::text::str_trim(s);
    let tn = t.unicode_len();
    if tn > 0 {
        if t.get_char(0) == '^' {
            exc.push(t.substring_char(1, tn).to_owned());
        } else {
            inc.push(t.to_owned());
        }
    }
    proof {
        assert(views_of(inc@) =~= command_spec(s@).0);
        assert(views_of(exc@) =~= command_spec(s@).1);
    }
    CommandFilter { included: inc, excluded: exc }
}

/// The index of the first non-digit character in `s`, or `s.len()`.
pub open spec fn find_nondigit(s: Seq<char>) -> nat
    decreases s.len(),
{
    if s.len() == 0 {
        0
    } else if !crate::text::is_digit(s[0]) {
        0
    } else {
        1 + find_nondigit(s.subrange(1, s.len() as int))
    }
}

proof fn lemma_find_nondigit(s: Seq<char>)
    ensures
        find_nondigit(s) <= s.len(),
        find_nondigit(s) < s.len() ==> !crate::text::is_digit(s[find_nondigit(s) as int]),
        forall|j: int| 0 <= j < find_nondigit(s) ==> crate::text::is_digit(#[trigger] s[j]),
    decreases s.len(),
{
    if s.len() > 0 && crate::text::is_digit(s[0]) {
        let t = s.subrange(1, s.len() as int);
        lemma_find_nondigit(t);
        assert forall|j: int| 0 <= j < find_nondigit(s) implies crate::text::is_digit(
            #[trigger] s[j],
        ) by {
            if j > 0 {
                assert(t[j - 1] == s[j]);
            }
        }
    }
}

fn find_nondigit_in(s: &str) -> (i: usize)
    ensures
        i == find_nondigit(s@),
{
    let n = s.unicode_len();
    let mut i: usize = 0;
    while i < n
        invariant
            0 <= i <= n,
            n == s@.len(),
            forall|j: int| 0 <= j < i ==> crate::text::is_digit(#[trigger] s@[j]),
        decreases n - i,
    {
        let c = s.get_char(i);
        if c < '0' || c > '9' {
            proof {
                lemma_find_nondigit(s@);
                if find_nondigit(s@) < i {
                    assert(crate::text::is_digit(s@[find_nondigit(s@) as int]));
                }
            }
            return i;
        }
        i = i + 1;
    }
    proof {
        lemma_find_nondigit(s@);
        if find_nondigit(s@) < n {
            assert(crate::text::is_digit(s@[find_nondigit(s@) as int]));
        }
    }
    n
}

/// The multiplier denoted by an (uppercased) size suffix.
pub open spec fn size_multiplier(su: Seq<char>) -> Option<u64> {
    if su.len() == 0 {
        Some(1)
    } else if su == "K"@ || su == "KB"@ {
        Some(1024)
    } else if su == "M"@ || su == "MB"@ {
        Some(1048576)
    } else if su == "G"@ || su == "GB"@ {
        Some(1073741824)
    } else {
        None
    }
}

/// The parse of a size spec `[+|-]N[K|KB|M|MB|G|GB]`: `+` means
/// greater-than, `-` less-than, none exact; the suffix is read
/// case-insensitively. A spec with no digits, an unknown suffix, or a
/// byte count beyond `u64` yields nothing.
pub open spec fn size_spec(s: Seq<char>) -> Option<SizeFilter> {
    let t = trim_seq(s);
    if t.len() == 0 {
        None
    } else {
        let op = if t[0] == '+' {
            SizeOp::GreaterThan
        } else if t[0] == '-' {
            SizeOp::LessThan
        } else {
            SizeOp::Exact
        };
        let r0 = if t[0] == '+' || t[0] == '-' {
            t.subrange(1, t.len() as int)
        } else {
            t
        };
        let rest = trim_seq(r0);
        let ne = find_nondigit(rest);
        let num = rest.subrange(0, ne as int);
        let suffix = rest.subrange(ne as int, rest.len() as int);
        if num.len() == 0 || dec_val(num) > u64::MAX {
            None
        } else {
            match size_multiplier(upper_seq(suffix)) {
                None => None,
                Some(m) => if dec_val(num) * m > u64::MAX {
                    None
                } else {
                    Some(SizeFilter { op, bytes: (dec_val(num) * m) as u64 })
                },
            }
        }
    }
}

/// Parse a size filter string.
pub fn parse_size_filter(s: &str) -> (r: Option<SizeFilter>)
    ensures
        r == size_spec(s@),
{
    let t = crate::text::str_trim(s);
    let tn = t.unicode_len();
    if tn == 0 {
        return None;
    }
    let c0 = t.get_char(0);
    let op = if c0 == '+' {
        SizeOp::GreaterThan
    } else if c0 == '-' {
        SizeOp::LessThan
    } else {
        SizeOp::Exact
    };
    let r0 = if c0 == '+' || c0 == '-' {
        t.substring_char(1, tn)
    } else {
        t
    };
    let rest = crate::text::str_trim(r0);
    let rn = rest.unicode_len();
    proof {
        lemma_find_nondigit(rest@);
    }
    let ne = find_nondigit_in(rest);
    let num = rest.substring_char(0, ne);
    let suffix = rest.substring_char(ne, rn);
    let base = match crate::text::parse_u64(num) {
        Some(b) => b,
        None => {
            proof {
                lemma_find_nondigit(rest@);
                assert(all_digits(num@));
            }
            return None;
        },
    };
    let su = crate::text::str_to_upper(suffix);
    let mult: u64 = if su.as_str().is_empty() {
        1
    } else if crate::text::str_eq(su.as_str(), "K") || crate::text::str_eq(su.as_str(), "KB") {
        1024
    } else if crate::text::str_eq(su.as_str(), "M") || crate::text::str_eq(su.as_str(), "MB") {
        1048576
    } else if crate::text::str_eq(su.as_str(), "G") || crate::text::str_eq(su.as_str(), "GB") {
        1073741824
    } else {
        return None;
    };
    match base.checked_mul(mult) {
        Some(b) => Some(SizeFilter { op, bytes: b }),
        None => None,
    }
}

/// The ghost shape of an inet filter: its string fields by contents.
pub struct InetFilterModel {
    pub protocol: Option<Seq<char>>,
    pub host: Option<Seq<char>>,
    pub port: Option<u16>,
    pub ip_version: Option<u8>,
}

impl View for InetFilter {
    type V = InetFilterModel;

    open spec fn view(&self) -> InetFilterModel {
        InetFilterModel {
            protocol: match self.protocol {
                Some(p) => Some(p@),
                None => None,
            },
            host: match self.host {
                Some(h) => Some(h@),
                None => None,
            },
            port: self.port,
            ip_version: self.ip_version,
        }
    }
}

/// The port denoted by a digit string, if it fits a `u16`.
pub open spec fn u16_of(s: Seq<char>) -> Option<u16> {
    if s.len() > 0 && all_digits(s) && dec_val(s) <= u16::MAX {
        Some(dec_val(s) as u16)
    } else {
        None
    }
}

/// The parse of an inet spec `[46][PROTO][@HOST][:PORT]`: an optional
/// leading `4` or `6` picks the IP version; the letters before `@` or
/// `:` name a protocol, stored uppercased; `@` introduces a host
/// substring, running to `:` or the end; `:` introduces a port number.
/// The empty spec matches every network file.
pub open spec fn inet_spec(s: Seq<char>) -> InetFilterModel {
    if s.len() == 0 {
        InetFilterModel { protocol: None, host: None, port: None, ip_version: None }
    } else {
        let ver: Option<u8> = if s[0] == '4' {
            Some(4u8)
        } else if s[0] == '6' {
            Some(6u8)
        } else {
            None
        };
        let r1 = if ver is Some {
            s.subrange(1, s.len() as int)
        } else {
            s
        };
        let pe = crate::text::find_idx2(r1, '@', ':');
        let protocol: Option<Seq<char>> = if pe > 0 {
            Some(upper_seq(r1.subrange(0, pe as int)))
        } else {
            None
        };
        let r2 = r1.subrange(pe as int, r1.len() as int);
        let host: Option<Seq<char>> = if r2.len() > 0 && r2[0] == '@' {
            let hr = r2.subrange(1, r2.len() as int);
            let he = crate::text::find_idx(hr, ':');
            if he > 0 {
                Some(hr.subrange(0, he as int))
            } else {
                None
            }
        } else {
            None
        };
        let r3 = if r2.len() > 0 && r2[0] == '@' {
            let hr = r2.subrange(1, r2.len() as int);
            let he = crate::text::find_idx(hr, ':');
            hr.subrange(he as int, hr.len() as int)
        } else {
            r2
        };
        let port: Option<u16> = if r3.len() > 0 && r3[0] == ':' {
            u16_of(r3.subrange(1, r3.len() as int))
        } else {
            None
        };
        InetFilterModel { protocol, host, port, ip_version: ver }
    }
}

/// Parse an inet filter spec string.
pub fn parse_inet_filter(s: &str) -> (r: InetFilter)
    ensures
        r@ == inet_spec(s@),
{
    let n = s.unicode_len();
    if n == 0 {
        return InetFilter::default();
    }
    let c0 = s.get_char(0);
    let (ver, rem) = if c0 == '4' {
        (Some(4u8), s.substring_char(1, n))
    } else if c0 == '6' {
        (Some(6u8), s.substring_char(1, n))
    } else {
        (None, s)
    };
    let rlen = rem.unicode_len();
    proof {
        crate::text::lemma_find_idx2(rem@, '@', ':');
    }
    let pe = crate::text::find_in_str2(rem, '@', ':');
    let protocol = if pe > 0 {
        Some(crate::text::str_to_upper(rem.substring_char(0, pe)))
    } else {
        None
    };
    let rem2 = rem.substring_char(pe, rlen);
    let r2len = rem2.unicode_len();
    let at_host = r2len > 0 && rem2.get_char(0) == '@';
    let (host, rem3) = if at_host {
        let hr = rem2.substring_char(1, r2len);
        let hlen = hr.unicode_len();
        proof {
            crate::text::lemma_find_idx(hr@, ':');
        }
        let he = crate::text::find_in_str(hr, ':');
        let h = if he > 0 {
            Some(hr.substring_char(0, he).to_owned())
        } else {
            None
        };
        (h, hr.substring_char(he, hlen))
    } else {
        (None, rem2)
    };
    let r3len = rem3.unicode_len();
    let port = if r3len > 0 && rem3.get_char(0) == ':' {
        crate::text::parse_u16(rem3.substring_char(1, r3len))
    } else {
        None
    };
    let r = InetFilter { protocol, host, port, ip_version: ver };
    proof {
        let m = inet_spec(s@);
        assert(r@.ip_version == m.ip_version);
        assert(r@.protocol == m.protocol);
        assert(r@.host == m.host);
        assert(r@.port == m.port);
    }
    r
}

// ---------------------------------------------------------------------------
// Process-level matching
// ---------------------------------------------------------------------------

/// Whether the PID filter, if active, accepts the process.
pub open spec fn check_pid_spec(c: FilterConfig, p: ProcessInfo) -> bool {
    match c.pids {
        None => true,
        Some(f) => ie_passes_u32(f.included@, f.excluded@, p.pid),
    }
}

/// Whether the PGID filter, if active, accepts the process. A process
/// with no PGID passes only when the included list is empty.
pub open spec fn check_pgid_spec(c: FilterConfig, p: ProcessInfo) -> bool {
    match c.pgids {
        None => true,
        Some(f) => match p.pgid {
            None => f.included@.len() == 0,
            Some(g) => ie_passes_u32(f.included@, f.excluded@, g),
        },
    }
}

/// Whether the user filter, if active, accepts the process.
pub open spec fn check_user_spec(c: FilterConfig, p: ProcessInfo) -> bool {
    match c.users {
        None => true,
        Some(f) => ie_passes_str(views_of(f.included@), views_of(f.excluded@), p.user@),
    }
}

/// Whether the command filter, if active, accepts the process: excluded
/// when any excluded token is a prefix of the short command name, included
/// when the included list is empty or some included token is a prefix.
pub open spec fn check_command_spec(c: FilterConfig, p: ProcessInfo) -> bool {
    match c.commands {
        None => true,
        Some(f) => !prefix_any(views_of(f.excluded@), p.comm@) && (f.included@.len() == 0
            || prefix_any(views_of(f.included@), p.comm@)),
    }
}

/// Whether any process-level filter is active.
pub open spec fn process_filters_active(c: FilterConfig) -> bool {
    c.pids is Some || c.pgids is Some || c.users is Some || c.commands is Some
}

/// The process-level decision: with no active filter every process passes;
/// in AND mode every active filter must accept; in OR mode one active
/// accepting filter suffices.
pub open spec fn matches_process_spec(c: FilterConfig, p: ProcessInfo) -> bool {
    if !process_filters_active(c) {
        true
    } else if c.and_mode {
        &&& (c.pids is Some ==> check_pid_spec(c, p))
        &&& (c.pgids is Some ==> check_pgid_spec(c, p))
        &&& (c.users is Some ==> check_user_spec(c, p))
        &&& (c.commands is Some ==> check_command_spec(c, p))
    } else {
        ||| (c.pids is Some && check_pid_spec(c, p))
        ||| (c.pgids is Some && check_pgid_spec(c, p))
        ||| (c.users is Some && check_user_spec(c, p))
        ||| (c.commands is Some && check_command_spec(c, p))
    }
}

// ---------------------------------------------------------------------------
// File-level matching
// ---------------------------------------------------------------------------

/// Whether the file's name equals any listed name.
pub open spec fn name_any(names: Seq<Seq<char>>, n: Seq<char>) -> bool {
    exists|i: int| 0 <= i < names.len() && #[trigger] names[i] == n
}

/// Whether a size filter accepts the file's size-or-offset; a file
/// without one never matches.
pub open spec fn size_matches(f: SizeFilter, size_off: Option<u64>) -> bool {
    match size_off {
        None => false,
        Some(s) => match f.op {
            SizeOp::GreaterThan => s > f.bytes,
            SizeOp::LessThan => s < f.bytes,
            SizeOp::Exact => s == f.bytes,
        },
    }
}

/// Whether `name` lies in the tree rooted at `dir`: it starts with
/// `dir/`, or equals `dir` itself.
pub open spec fn dir_tree_match(name: Seq<char>, dir: Seq<char>) -> bool {
    let pfx = if dir.len() > 0 && dir.last() == '/' {
        dir
    } else {
        dir.push('/')
    };
    starts_with_seq(name, pfx) || name == dir
}

/// The index of the last `/` in `s`, or -1 when there is none.
pub open spec fn rfind_slash(s: Seq<char>) -> int
    decreases s.len(),
{
    if s.len() == 0 {
        -1
    } else if s.last() == '/' {
        s.len() - 1
    } else {
        rfind_slash(s.drop_last())
    }
}

proof fn lemma_rfind_slash(s: Seq<char>)
    ensures
        -1 <= rfind_slash(s) < s.len(),
        rfind_slash(s) >= 0 ==> s[rfind_slash(s)] == '/',
        forall|j: int| rfind_slash(s) < j < s.len() ==> s[j] != '/',
    decreases s.len(),
{
    if s.len() > 0 && s.last() != '/' {
        let t = s.drop_last();
        lemma_rfind_slash(t);
        assert forall|j: int| rfind_slash(s) < j < s.len() implies s[j] != '/' by {
            if j < s.len() - 1 {
                assert(t[j] == s[j]);
            }
        }
    }
}

/// The textual parent of a path: what stands before the last `/`. A name
/// with no `/` has the empty parent; `/` itself and the empty name have
/// none; a name directly under the root has parent `/`.
pub open spec fn parent_seq(name: Seq<char>) -> Option<Seq<char>> {
    if name.len() == 0 {
        None
    } else {
        let i = rfind_slash(name);
        if i < 0 {
            Some(Seq::empty())
        } else if i == 0 {
            if name.len() == 1 {
                None
            } else {
                Some(seq!['/'])
            }
        } else {
            Some(name.subrange(0, i))
        }
    }
}

/// Whether `name` stands directly inside `dir`: its parent equals `dir`
/// exactly.
pub open spec fn dir_match(name: Seq<char>, dir: Seq<char>) -> bool {
    parent_seq(name) == Some(dir)
}

/// Check if a file path is inside a directory tree (recursive).
pub fn file_in_dir_tree(file_name: &str, dir: &str) -> (r: bool)
    ensures
        r == dir_tree_match(file_name@, dir@),
{
    proof {
        reveal_strlit("/");
    }
    let n = dir.unicode_len();
    let mut pfx = dir.to_owned();
    if !(n > 0 && dir.get_char(n - 1) == '/') {
        pfx.append("/");
        assert(pfx@ =~= dir@.push('/'));
    }
    if crate::text::str_starts_with(file_name, pfx.as_str()) {
        return true;
    }
    crate::text::str_eq(file_name, dir)
}

/// Check if a file path is directly inside a directory (non-recursive).
pub fn file_in_dir(file_name: &str, dir: &str) -> (r: bool)
    ensures
        r == dir_match(file_name@, dir@),
{
    proof {
        reveal_strlit("/");
        lemma_rfind_slash(file_name@);
    }
    let n = file_name.unicode_len();
    if n == 0 {
        return false;
    }
    let mut j: usize = n;
    while j > 0 && file_name.get_char(j - 1) != '/'
        invariant
            0 <= j <= n,
            n == file_name@.len(),
            forall|k: int| j <= k < n ==> file_name@[k] != '/',
        decreases j,
    {
        j = j - 1;
    }
    let ghost ri = rfind_slash(file_name@);
    proof {
        if j > 0 {
            if ri > j - 1 {
                assert(file_name@[ri] != '/');
            }
            if ri < j - 1 {
                assert(file_name@[j - 1] != '/');
            }
            assert(ri == j - 1);
        } else {
            if ri >= 0 {
                assert(file_name@[ri] != '/');
            }
            assert(ri == -1);
        }
    }
    if j == 0 {
        // No slash at all: the parent is the empty path.
        if dir.unicode_len() == 0 {
            assert(dir@ =~= Seq::<char>::empty());
            true
        } else {
            false
        }
    } else if j == 1 {
        if n == 1 {
            false
        } else {
            let r = crate::text::str_eq(dir, "/");
            assert("/"@ =~= seq!['/']);
            r
        }
    } else {
        let par = file_name.substring_char(0, j - 1);
        crate::text::str_eq(par, dir)
    }
}

/// Whether any file-level filter is active.
pub open spec fn file_filters_active(c: FilterConfig) -> bool {
    c.inet is Some || c.dir_tree is Some || c.dir is Some || c.names@.len() > 0
        || c.size_filter is Some
}

/// Whether the inet filter accepts the file: it must be a socket kind;
/// a requested IP version selects the exact type; a requested protocol
/// must occur in the node field, case-insensitively; a requested port
/// must occur in the name as `:PORT`; a requested host must occur in
/// the name.
pub open spec fn inet_matches_spec(f: InetFilter, file: OpenFileInfo) -> bool {
    &&& is_network_type(file.file_type)
    &&& (f.ip_version == Some(4u8) ==> file.file_type is IPv4)
    &&& (f.ip_version == Some(6u8) ==> file.file_type is IPv6)
    &&& (f.protocol matches Some(p) ==> contains_seq(upper_seq(file.node@), upper_seq(p@)))
    &&& (f.port matches Some(pt) ==> contains_seq(file.name@, seq![':'] + dec_seq(pt as nat)))
    &&& (f.host matches Some(h) ==> contains_seq(file.name@, h@))
}

impl InetFilter {
    /// Check whether an open file matches this inet filter.
    pub fn matches_file(&self, file: &OpenFileInfo) -> (r: bool)
        ensures
            r == inet_matches_spec(*self, *file),
    {
        if !file.file_type.is_network() {
            return false;
        }
        match &self.ip_version {
            Some(v) => {
                if *v == 4 {
                    match &file.file_type {
                        crate::model::FileType::IPv4 => {},
                        _ => {
                            return false;
                        },
                    }
                } else if *v == 6 {
                    match &file.file_type {
                        crate::model::FileType::IPv6 => {},
                        _ => {
                            return false;
                        },
                    }
                }
            },
            None => {},
        }
        match &self.protocol {
            Some(p) => {
                let pu = crate::text::str_to_upper(p.as_str());
                let nu = crate::text::str_to_upper(file.node.as_str());
                if !crate::text::str_contains(nu.as_str(), pu.as_str()) {
                    return false;
                }
            },
            None => {},
        }
        match &self.port {
            Some(pt) => {
                proof {
                    reveal_strlit(":");
                }
                let mut ps = String::from_str(":");
                let d = crate::text::u64_to_dec(*pt as u64);
                ps.append(d.as_str());
                assert(ps@ =~= seq![':'] + dec_seq(*pt as nat));
                if !crate::text::str_contains(file.name.as_str(), ps.as_str()) {
                    return false;
                }
            },
            None => {},
        }
        match &self.host {
            Some(h) => {
                if !crate::text::str_contains(file.name.as_str(), h.as_str()) {
                    return false;
                }
            },
            None => {},
        }
        true
    }
}

/// The file-level decision: with no active filter every file passes; in
/// AND mode every active filter must accept; in OR mode one active
/// accepting filter suffices.
pub open spec fn matches_file_spec(c: FilterConfig, f: OpenFileInfo) -> bool {
    if !file_filters_active(c) {
        true
    } else if c.and_mode {
        &&& (c.inet matches Some(i) ==> inet_matches_spec(i, f))
        &&& (c.dir_tree matches Some(d) ==> dir_tree_match(f.name@, d@))
        &&& (c.dir matches Some(d) ==> dir_match(f.name@, d@))
        &&& (c.names@.len() > 0 ==> name_any(views_of(c.names@), f.name@))
        &&& (c.size_filter matches Some(sf) ==> size_matches(sf, f.size_off))
    } else {
        ||| (c.inet matches Some(i) && inet_matches_spec(i, f))
        ||| (c.dir_tree matches Some(d) && dir_tree_match(f.name@, d@))
        ||| (c.dir matches Some(d) && dir_match(f.name@, d@))
        ||| (c.names@.len() > 0 && name_any(views_of(c.names@), f.name@))
        ||| (c.size_filter matches Some(sf) && size_matches(sf, f.size_off))
    }
}

/// How a configuration corresponds to the CLI arguments it was built
/// from: each selection string parsed by its own grammar, each absent
/// argument leaving its filter inactive.
pub open spec fn config_from_cli(c: FilterConfig, args: CliArgs) -> bool {
    &&& (match args.pid {
        None => c.pids is None,
        Some(s) => c.pids matches Some(f) && Some((f.included@, f.excluded@)) == u32_list_spec(
            s@,
        ),
    })
    &&& (match args.pgid {
        None => c.pgids is None,
        Some(s) => c.pgids matches Some(f) && Some((f.included@, f.excluded@)) == u32_list_spec(
            s@,
        ),
    })
    &&& (match args.user {
        None => c.users is None,
        Some(s) => c.users matches Some(f) && (views_of(f.included@), views_of(f.excluded@))
            == str_list_spec(s@),
    })
    &&& (match args.command {
        None => c.commands is None,
        Some(s) => c.commands matches Some(f) && (views_of(f.included@), views_of(f.excluded@))
            == command_spec(s@),
    })
    &&& (match args.inet {
        None => c.inet is None,
        Some(s) => c.inet matches Some(f) && f@ == inet_spec(s@),
    })
    &&& (match args.size_filter {
        None => c.size_filter is None,
        Some(s) => c.size_filter == size_spec(s@),
    })
    &&& (match args.dir_tree {
        None => c.dir_tree is None,
        Some(s) => c.dir_tree matches Some(d) && d@ == s@,
    })
    &&& (match args.dir {
        None => c.dir is None,
        Some(s) => c.dir matches Some(d) && d@ == s@,
    })
    &&& views_of(c.names@) == views_of(args.names@)
    &&& c.and_mode == args.and_mode
}

impl FilterConfig {
    /// Build a `FilterConfig` from parsed CLI arguments. Fails exactly
    /// when the PID or PGID selection string does not parse.
    pub fn from_cli(args: &CliArgs) -> (r: Result<FilterConfig, LoofError>)
        ensures
            r is Ok <==> (match args.pid {
                Some(s) => u32_list_spec(s@) is Some,
                None => true,
            }) && (match args.pgid {
                Some(s) => u32_list_spec(s@) is Some,
                None => true,
            }),
            r matches Ok(c) ==> config_from_cli(c, *args),
            r matches Err(e) ==> e is Parse,
    {
        let pids = match &args.pid {
            Some(s) => match parse_pid_filter(s.as_str()) {
                Ok(f) => Some(f),
                Err(e) => {
                    return Err(e);
                },
            },
            None => None,
        };
        let pgids = match &args.pgid {
            Some(s) => match parse_pgid_filter(s.as_str()) {
                Ok(f) => Some(f),
                Err(e) => {
                    return Err(e);
                },
            },
            None => None,
        };
        let users = match &args.user {
            Some(s) => Some(parse_user_filter(s.as_str())),
            None => None,
        };
        let commands = match &args.command {
            Some(s) => Some(parse_command_filter(s.as_str())),
            None => None,
        };
        let inet = match &args.inet {
            Some(s) => Some(parse_inet_filter(s.as_str())),
            None => None,
        };
        let size_filter = match &args.size_filter {
            Some(s) => parse_size_filter(s.as_str()),
            None => None,
        };
        let dir_tree = match &args.dir_tree {
            Some(s) => Some(s.clone()),
            None => None,
        };
        let dir = match &args.dir {
            Some(s) => Some(s.clone()),
            None => None,
        };
        let mut names: Vec<String> = Vec::new();
        let nn = args.names.len();
        let mut i: usize = 0;
        while i < nn
            invariant
                0 <= i <= nn,
                nn == args.names@.len(),
                names@.len() == i,
                forall|j: int| 0 <= j < i ==> #[trigger] names@[j] == args.names@[j],
            decreases nn - i,
        {
            names.push(args.names[i].clone());
            i = i + 1;
        }
        proof {
            assert(views_of(names@) =~= views_of(args.names@));
        }
        Ok(
            FilterConfig {
                pids,
                pgids,
                users,
                commands,
                inet,
                dir_tree,
                dir,
                names,
                and_mode: args.and_mode,
                size_filter,
            },
        )
    }

    /// Returns `true` if no filters are configured at all.
    pub fn is_empty(&self) -> (r: bool)
        ensures
            r == (!process_filters_active(*self) && !file_filters_active(*self)),
    {
        self.pids.is_none() && self.pgids.is_none() && self.users.is_none()
            && self.commands.is_none() && self.inet.is_none() && self.dir_tree.is_none()
            && self.dir.is_none() && self.names.is_empty() && self.size_filter.is_none()
    }

    /// Check whether a process matches the configured process-level
    /// filters (PID, PGID, user, command).
    pub fn matches_process(&self, proc: &ProcessInfo) -> (r: bool)
        ensures
            r == matches_process_spec(*self, *proc),
    {
        if self.pids.is_none() && self.pgids.is_none() && self.users.is_none()
            && self.commands.is_none() {
            return true;
        }
        let pid_match = self.check_pid(proc);
        let pgid_match = self.check_pgid(proc);
        let user_match = self.check_user(proc);
        let cmd_match = self.check_command(proc);
        if self.and_mode {
            let mut pass = true;
            if self.pids.is_some() {
                pass = pass && pid_match;
            }
            if self.pgids.is_some() {
                pass = pass && pgid_match;
            }
            if self.users.is_some() {
                pass = pass && user_match;
            }
            if self.commands.is_some() {
                pass = pass && cmd_match;
            }
            pass
        } else {
            let mut any = false;
            if self.pids.is_some() {
                any = any || pid_match;
            }
            if self.pgids.is_some() {
                any = any || pgid_match;
            }
            if self.users.is_some() {
                any = any || user_match;
            }
            if self.commands.is_some() {
                any = any || cmd_match;
            }
            any
        }
    }

    /// Check whether an open file matches the configured file-level
    /// filters (inet, directories, names, size).
    pub fn matches_file(&self, file: &OpenFileInfo) -> (r: bool)
        ensures
            r == matches_file_spec(*self, *file),
    {
        if self.inet.is_none() && self.dir_tree.is_none() && self.dir.is_none()
            && self.names.is_empty() && self.size_filter.is_none() {
            return true;
        }
        let inet_r = match &self.inet {
            Some(i) => i.matches_file(file),
            None => false,
        };
        let dir_tree_r = match &self.dir_tree {
            Some(d) => file_in_dir_tree(file.name.as_str(), d.as_str()),
            None => false,
        };
        let dir_r = match &self.dir {
            Some(d) => file_in_dir(file.name.as_str(), d.as_str()),
            None => false,
        };
        let names_r = self.names.len() > 0 && contains_string(&self.names, file.name.as_str());
        proof {
            if views_of(self.names@).contains(file.name@) {
                let i = choose|i: int|
                    0 <= i < views_of(self.names@).len() && views_of(self.names@)[i]
                        == file.name@;
                assert(name_any(views_of(self.names@), file.name@));
            }
            if name_any(views_of(self.names@), file.name@) {
                let i = choose|i: int|
                    0 <= i < views_of(self.names@).len() && #[trigger] views_of(self.names@)[i]
                        == file.name@;
                assert(views_of(self.names@).contains(file.name@));
            }
        }
        let size_r = match &self.size_filter {
            Some(sf) => match file.size_off {
                Some(s) => match sf.op {
                    SizeOp::GreaterThan => s > sf.bytes,
                    SizeOp::LessThan => s < sf.bytes,
                    SizeOp::Exact => s == sf.bytes,
                },
                None => false,
            },
            None => false,
        };
        if self.and_mode {
            let mut pass = true;
            if self.inet.is_some() {
                pass = pass && inet_r;
            }
            if self.dir_tree.is_some() {
                pass = pass && dir_tree_r;
            }
            if self.dir.is_some() {
                pass = pass && dir_r;
            }
            if self.names.len() > 0 {
                pass = pass && names_r;
            }
            if self.size_filter.is_some() {
                pass = pass && size_r;
            }
            pass
        } else {
            let mut any = false;
            if self.inet.is_some() {
                any = any || inet_r;
            }
            if self.dir_tree.is_some() {
                any = any || dir_tree_r;
            }
            if self.dir.is_some() {
                any = any || dir_r;
            }
            if self.names.len() > 0 {
                any = any || names_r;
            }
            if self.size_filter.is_some() {
                any = any || size_r;
            }
            any
        }
    }

    fn check_pid(&self, proc: &ProcessInfo) -> (r: bool)
        ensures
            r == check_pid_spec(*self, *proc),
    {
        match &self.pids {
            None => true,
            Some(f) => {
                if contains_u32(&f.excluded, proc.pid) {
                    return false;
                }
                if f.included.is_empty() {
                    true
                } else {
                    contains_u32(&f.included, proc.pid)
                }
            },
        }
    }

    fn check_pgid(&self, proc: &ProcessInfo) -> (r: bool)
        ensures
            r == check_pgid_spec(*self, *proc),
    {
        match &self.pgids {
            None => true,
            Some(f) => {
                let pgid = match proc.pgid {
                    Some(p) => p,
                    None => {
                        return f.included.is_empty();
                    },
                };
                if contains_u32(&f.excluded, pgid) {
                    return false;
                }
                if f.included.is_empty() {
                    true
                } else {
                    contains_u32(&f.included, pgid)
                }
            },
        }
    }

    fn check_user(&self, proc: &ProcessInfo) -> (r: bool)
        ensures
            r == check_user_spec(*self, *proc),
    {
        match &self.users {
            None => true,
            Some(f) => {
                if contains_string(&f.excluded, proc.user.as_str()) {
                    return false;
                }
                if f.included.is_empty() {
                    true
                } else {
                    contains_string(&f.included, proc.user.as_str())
                }
            },
        }
    }

    fn check_command(&self, proc: &ProcessInfo) -> (r: bool)
        ensures
            r == check_command_spec(*self, *proc),
    {
        match &self.commands {
            None => true,
            Some(f) => {
                if any_prefix_of(&f.excluded, proc.comm.as_str()) {
                    return false;
                }
                if f.included.is_empty() {
                    true
                } else {
                    any_prefix_of(&f.included, proc.comm.as_str())
                }
            },
        }
    }
}

} // verus!
