//! The Spawner's decisions: which executable a command line begins with,
//! which directory the child runs in, and the exact process invocation the
//! service mode performs.

use vstd::prelude::*;

use crate::text::{find_char, first_index_of, is_space, is_space_char, lemma_first_index_of_at,
    trim_spec};

verus! {

/// The leading executable token of a command line, as the supervisor reads
/// it: either a double-quoted path (at least one character, no quote inside)
/// or a bare run of non-whitespace, non-quote characters, and in both forms
/// the token must be followed by whitespace or the end of the line.
pub open spec fn spec_extract_executable(s: Seq<char>) -> Option<Seq<char>> {
    if s.len() == 0 {
        None
    } else if s[0] == '"' {
        let close = 1 + first_index_of(s.skip(1), '"');
        if close < s.len() && close > 1 {
            if close + 1 == s.len() || is_space_char(s[close as int + 1]) {
                Some(s.subrange(1, close as int))
            } else {
                None
            }
        } else {
            None
        }
    } else {
        let k = first_break(s);
        if k == 0 {
            None
        } else if k == s.len() {
            Some(s)
        } else if is_space_char(s[k as int]) {
            Some(s.take(k as int))
        } else {
            None
        }
    }
}

/// The length of the leading run of characters that are neither whitespace
/// nor a double quote.
pub open spec fn first_break(s: Seq<char>) -> nat
    decreases s.len(),
{
    if s.len() == 0 {
        0
    } else if is_space_char(s[0]) || s[0] == '"' {
        0
    } else {
        1 + first_break(s.drop_first())
    }
}

pub proof fn lemma_first_break_at(s: Seq<char>, k: int)
    requires
        0 <= k <= s.len(),
        forall|j: int| 0 <= j < k ==> !is_space_char(s[j]) && s[j] != '"',
        k < s.len() ==> is_space_char(s[k]) || s[k] == '"',
    ensures
        first_break(s) == k,
    decreases k,
{
    if k == 0 {
    } else {
        lemma_first_break_at(s.drop_first(), k - 1);
    }
}

pub fn extract_executable(command: &str) -> (r: Option<String>)
    ensures
        match r {
            Some(exe) => spec_extract_executable(command@) == Some(exe@),
            None => spec_extract_executable(command@) is None,
        },
{
    let n = command.unicode_len();
    if n == 0 {
        return None;
    }
    if command.get_char(0) == '"' {
        let ghost tail = command@.skip(1);
        match find_char(command, 1, '"') {
            Some(j) => {
                proof {
                    lemma_first_index_of_at(tail, '"', j - 1);
                }
                if j == 1 {
                    return None;
                }
                if j + 1 == n || is_space(command.get_char(j + 1)) {
                    let inside = command.substring_char(1, j);
                    proof {
                        assert(inside@ =~= command@.subrange(1, j as int));
                    }
                    Some(inside.to_owned())
                } else {
                    None
                }
            },
            None => {
                proof {
                    lemma_first_index_of_at(tail, '"', tail.len() as int);
                }
                None
            },
        }
    } else {
        let mut k: usize = 0;
        while k < n && !is_space(command.get_char(k)) && command.get_char(k) != '"'
            invariant
                n == command@.len(),
                0 <= k <= n,
                forall|j: int| 0 <= j < k ==> !is_space_char(command@[j]) && command@[j] != '"',
            decreases n - k,
        {
            k += 1;
        }
        proof {
            lemma_first_break_at(command@, k as int);
        }
        if k == 0 {
            None
        } else if k == n {
            Some(command.to_owned())
        } else if is_space(command.get_char(k)) {
            let token = command.substring_char(0, k);
            proof {
                assert(token@ =~= command@.take(k as int));
            }
            Some(token.to_owned())
        } else {
            None
        }
    }
}

pub open spec fn is_sep_char(c: char) -> bool {
    c == '\\' || c == '/'
}

/// The index of the last path separator, or -1 when there is none.
pub open spec fn last_sep(s: Seq<char>) -> int
    decreases s.len(),
{
    if s.len() == 0 {
        -1
    } else if is_sep_char(s.last()) {
        s.len() - 1
    } else {
        last_sep(s.drop_last())
    }
}

/// The textual parent of a path: everything before the last separator, and
/// empty for a bare file name.
pub open spec fn spec_parent_dir(p: Seq<char>) -> Seq<char> {
    let i = last_sep(p);
    if i >= 0 {
        p.take(i)
    } else {
        Seq::empty()
    }
}

proof fn lemma_last_sep_at(s: Seq<char>, k: int)
    requires
        -1 <= k < s.len(),
        k >= 0 ==> is_sep_char(s[k]),
        forall|j: int| k < j < s.len() ==> !is_sep_char(s[j]),
    ensures
        last_sep(s) == k,
    decreases s.len(),
{
    if s.len() == 0 {
    } else if is_sep_char(s.last()) {
        assert(k == s.len() - 1);
    } else {
        lemma_last_sep_at(s.drop_last(), k);
    }
}

pub fn parent_dir(p: &str) -> (r: String)
    ensures
        r@ == spec_parent_dir(p@),
{
    let n = p.unicode_len();
    let mut j: usize = n;
    while j > 0 && p.get_char(j - 1) != '\\' && p.get_char(j - 1) != '/'
        invariant
            n == p@.len(),
            0 <= j <= n,
            forall|i: int| j <= i < n ==> !is_sep_char(p@[i]),
        decreases j,
    {
        j -= 1;
    }
    if j == 0 {
        proof {
            lemma_last_sep_at(p@, -1);
        }
        String::new()
    } else {
        proof {
            lemma_last_sep_at(p@, j - 1);
        }
        let parent = p.substring_char(0, j - 1);
        proof {
            assert(parent@ =~= spec_parent_dir(p@));
        }
        parent.to_owned()
    }
}

/// Relies on `which::which`: it searches this process's PATH for the named
/// executable. The outcome depends on the environment, so nothing is
/// promised of it; callers state what holds of every answer.
#[verifier::external_body]
fn which_lookup(exe: &str) -> Option<String> {
    match which::which(exe) {
        Ok(p) => match p.to_str() {
            Some(s) => Some(s.to_string()),
            None => None,
        },
        Err(_) => None,
    }
}

/// The working directory derived from the command line alone: the parent of
/// its executable token; when the token is bare, the parent of whatever the
/// PATH search found; `.` when everything else failed.
pub open spec fn spec_resolve_from_cmd(cmd: Seq<char>, lookup: Option<Seq<char>>) -> Seq<char> {
    match spec_extract_executable(cmd) {
        Some(exe) => {
            let par = spec_parent_dir(exe);
            if par.len() > 0 {
                par
            } else {
                match lookup {
                    Some(p) => {
                        let lp = spec_parent_dir(p);
                        if lp.len() > 0 {
                            lp
                        } else {
                            "."@
                        }
                    },
                    None => "."@,
                }
            }
        },
        None => "."@,
    }
}

/// The effective working directory: a provided non-empty directory wins
/// verbatim; otherwise the command line decides.
pub open spec fn spec_resolve_working_dir(
    cmd: Seq<char>,
    wd: Option<Seq<char>>,
    lookup: Option<Seq<char>>,
) -> Seq<char> {
    match wd {
        Some(d) => if d.len() > 0 {
            d
        } else {
            spec_resolve_from_cmd(cmd, lookup)
        },
        None => spec_resolve_from_cmd(cmd, lookup),
    }
}

/// The working-directory decision applied to a given PATH answer, exact for
/// every answer: the token's own parent wins, else the parent of the answer,
/// else the current directory. The environment-bound search is thereby
/// pinned one call down from `find_working_dir`.
pub fn resolve_with_lookup(cmdline: &str, lookup: &Option<String>) -> (r: String)
    ensures
        r@ == spec_resolve_from_cmd(
            cmdline@,
            match lookup {
                Some(p) => Some(p@),
                None => None,
            },
        ),
{
    match extract_executable(cmdline) {
        Some(exe) => {
            let par = parent_dir(exe.as_str());
            if par.as_str().unicode_len() > 0 {
                par
            } else {
                match lookup {
                    Some(p) => {
                        let lp = parent_dir(p.as_str());
                        if lp.as_str().unicode_len() > 0 {
                            lp
                        } else {
                            ".".to_owned()
                        }
                    },
                    None => ".".to_owned(),
                }
            }
        },
        None => ".".to_owned(),
    }
}

fn resolve_from_cmd(cmdline: &str) -> (r: String)
    ensures
        exists|lk: Option<Seq<char>>| r@ == #[trigger] spec_resolve_from_cmd(cmdline@, lk),
{
    let lookup: Option<String> = match extract_executable(cmdline) {
        Some(exe) => {
            let par = parent_dir(exe.as_str());
            if par.as_str().unicode_len() == 0 {
                which_lookup(exe.as_str())
            } else {
                None
            }
        },
        None => None,
    };
    let r = resolve_with_lookup(cmdline, &lookup);
    proof {
        assert(r@ == spec_resolve_from_cmd(
            cmdline@,
            match lookup {
                Some(p) => Some(p@),
                None => None,
            },
        ));
    }
    r
}

/// Picks the directory the child runs in. The PATH search consults the
/// environment, so the contract quantifies over whatever it answered; every
/// branch that does not consult it is pinned exactly.
pub fn find_working_dir(cmdline: &str, working_dir: Option<String>) -> (r: String)
    ensures
        exists|lk: Option<Seq<char>>|
            r@ == #[trigger] spec_resolve_working_dir(cmdline@, working_dir.deep_view(), lk),
{
    let ghost wdv = working_dir.deep_view();
    match working_dir {
        Some(d) => {
            proof {
                assert(wdv == Some(d@));
            }
            if d.as_str().unicode_len() > 0 {
                proof {
                    assert(d@ == spec_resolve_working_dir(cmdline@, wdv, None::<Seq<char>>));
                }
                d
            } else {
                let r = resolve_from_cmd(cmdline);
                proof {
                    let lk = choose|lk: Option<Seq<char>>|
                        r@ == spec_resolve_from_cmd(cmdline@, lk);
                    assert(r@ == spec_resolve_working_dir(cmdline@, wdv, lk));
                }
                r
            }
        },
        None => {
            let r = resolve_from_cmd(cmdline);
            proof {
                let lk = choose|lk: Option<Seq<char>>| r@ == spec_resolve_from_cmd(cmdline@, lk);
                assert(r@ == spec_resolve_working_dir(cmdline@, wdv, lk));
            }
            r
        },
    }
}

/// The process invocation service mode performs: the whole command line is
/// handed to the shell as one argument, stdin is closed, and both output
/// streams are piped unless log capture is disabled.
#[derive(Debug)]
pub struct SpawnPlan {
    pub program: String,
    pub args: Vec<String>,
    pub working_dir: String,
    pub capture_output: bool,
}

/// The Spawner's own failure: a command line with nothing to run.
#[derive(Clone, Copy, PartialEq, Eq, Structural, Debug)]
pub enum SpawnPlanError {
    NotFound,
}

/// Builds the invocation for a command line: `NotFound` exactly when the
/// command is blank; otherwise the shell, the single `-Command` argument
/// carrying the command line verbatim, the resolved working directory, and
/// whether the output pumps are wanted.
pub fn spawn_plan(cmdline: &str, working_dir: Option<String>, disable_logs: bool) -> (r: Result<
    SpawnPlan,
    SpawnPlanError,
>)
    ensures
        (r is Err) <==> trim_spec(cmdline@).len() == 0,
        r matches Err(e) ==> e == SpawnPlanError::NotFound,
        r matches Ok(p) ==> {
            &&& p.program@ == "powershell.exe"@
            &&& p.args.deep_view() == seq!["-Command"@, cmdline@]
            &&& exists|lk: Option<Seq<char>>|
                p.working_dir@ == #[trigger] spec_resolve_working_dir(
                    cmdline@,
                    working_dir.deep_view(),
                    lk,
                )
            &&& p.capture_output == !disable_logs
        },
{
    let trimmed = crate::text::trim(cmdline);
    if trimmed.unicode_len() == 0 {
        return Err(SpawnPlanError::NotFound);
    }
    let dir = find_working_dir(cmdline, working_dir);
    let mut args: Vec<String> = Vec::new();
    args.push("-Command".to_owned());
    args.push(cmdline.to_owned());
    proof {
        assert(args.deep_view() =~= seq!["-Command"@, cmdline@]);
    }
    Ok(
        SpawnPlan {
            program: "powershell.exe".to_owned(),
            args,
            working_dir: dir,
            capture_output: !disable_logs,
        },
    )
}

} // verus!
