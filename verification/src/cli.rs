//! The tool's own command-line surface: the rotation policy keywords, the
//! subcommands, the launch specification that `install` persists into the
//! service registration, and the encoder and parser that carry it through the
//! registered argument list and back.

use vstd::prelude::*;

use crate::digits::{all_digits, parse_usize, spec_decimal, spec_parse_digits, u64_to_string};
use crate::text::str_eq;

verus! {

/// The code point of `c` with an ASCII capital folded to its small letter.
pub open spec fn lower_cp(c: char) -> u32 {
    if 65 <= c as u32 <= 90 {
        (c as u32 + 32) as u32
    } else {
        c as u32
    }
}

/// Equality up to ASCII case.
pub open spec fn spec_ci_eq(a: Seq<char>, b: Seq<char>) -> bool {
    a.len() == b.len() && forall|i: int| 0 <= i < a.len() ==> lower_cp(a[i]) == lower_cp(b[i])
}

fn ci_eq(a: &str, b: &str) -> (r: bool)
    ensures
        r == spec_ci_eq(a@, b@),
{
    let an = a.unicode_len();
    let bn = b.unicode_len();
    if an != bn {
        return false;
    }
    let mut i: usize = 0;
    while i < an
        invariant
            an == a@.len(),
            an == b@.len(),
            0 <= i <= an,
            forall|j: int| 0 <= j < i ==> lower_cp(a@[j]) == lower_cp(b@[j]),
        decreases an - i,
    {
        let ca = a.get_char(i) as u32;
        let cb = b.get_char(i) as u32;
        let fa = if 65 <= ca && ca <= 90 {
            ca + 32
        } else {
            ca
        };
        let fb = if 65 <= cb && cb <= 90 {
            cb + 32
        } else {
            cb
        };
        if fa != fb {
            return false;
        }
        i += 1;
    }
    true
}

/// How often the on-disk log rolls over.
#[derive(Clone, Copy, PartialEq, Eq, Structural, Debug)]
pub enum LogRotation {
    Minutely,
    Hourly,
    Daily,
    Never,
}

pub open spec fn spec_rotation_keyword(r: LogRotation) -> Seq<char> {
    match r {
        LogRotation::Minutely => "minutely"@,
        LogRotation::Hourly => "hourly"@,
        LogRotation::Daily => "daily"@,
        LogRotation::Never => "never"@,
    }
}

/// The rotation policy a keyword names, up to ASCII case.
pub open spec fn spec_rotation_from(s: Seq<char>) -> Option<LogRotation> {
    if spec_ci_eq(s, "minutely"@) {
        Some(LogRotation::Minutely)
    } else if spec_ci_eq(s, "hourly"@) {
        Some(LogRotation::Hourly)
    } else if spec_ci_eq(s, "daily"@) {
        Some(LogRotation::Daily)
    } else if spec_ci_eq(s, "never"@) {
        Some(LogRotation::Never)
    } else {
        None
    }
}

impl LogRotation {
    pub fn to_string(&self) -> (r: String)
        ensures
            r@ == spec_rotation_keyword(*self),
    {
        match self {
            LogRotation::Minutely => "minutely".to_owned(),
            LogRotation::Hourly => "hourly".to_owned(),
            LogRotation::Daily => "daily".to_owned(),
            LogRotation::Never => "never".to_owned(),
        }
    }

    pub fn from_str(s: &str) -> (r: Result<LogRotation, String>)
        ensures
            match r {
                Ok(rot) => spec_rotation_from(s@) == Some(rot),
                Err(m) => {
                    &&& spec_rotation_from(s@) is None
                    &&& m@ == "Invalid log rotation: "@ + s@
                },
            },
    {
        if ci_eq(s, "minutely") {
            Ok(LogRotation::Minutely)
        } else if ci_eq(s, "hourly") {
            Ok(LogRotation::Hourly)
        } else if ci_eq(s, "daily") {
            Ok(LogRotation::Daily)
        } else if ci_eq(s, "never") {
            Ok(LogRotation::Never)
        } else {
            Err(crate::text::concat2("Invalid log rotation: ", s))
        }
    }
}

/// Its own keyword names each policy back: parsing what `to_string` rendered
/// returns the same policy.
pub proof fn lemma_rotation_keyword_round_trip(rot: LogRotation)
    ensures
        spec_rotation_from(spec_rotation_keyword(rot)) == Some(rot),
{
    reveal_strlit("minutely");
    reveal_strlit("hourly");
    reveal_strlit("daily");
    reveal_strlit("never");
    assert(spec_ci_eq("minutely"@, "minutely"@));
    assert(spec_ci_eq("hourly"@, "hourly"@));
    assert(spec_ci_eq("daily"@, "daily"@));
    assert(spec_ci_eq("never"@, "never"@));
    assert(!spec_ci_eq("hourly"@, "minutely"@));
    assert(!spec_ci_eq("daily"@, "minutely"@));
    assert(!spec_ci_eq("daily"@, "hourly"@));
    assert(!spec_ci_eq("never"@, "minutely"@));
    assert(!spec_ci_eq("never"@, "hourly"@));
    assert(lower_cp("never"@[0]) != lower_cp("daily"@[0]));
    assert(!spec_ci_eq("never"@, "daily"@));
}

/// What `install` persists about the wrapped process, re-encoded into the
/// registered argument list and recovered from it in service mode.
#[derive(Debug, Clone)]
pub struct LaunchSpec {
    pub command: String,
    pub working_dir: Option<String>,
    pub disable_logs: bool,
    pub log_rotation: LogRotation,
    pub max_log_files: usize,
}

pub ghost struct LaunchSpecView {
    pub command: Seq<char>,
    pub working_dir: Option<Seq<char>>,
    pub disable_logs: bool,
    pub log_rotation: LogRotation,
    pub max_log_files: nat,
}

impl View for LaunchSpec {
    type V = LaunchSpecView;

    open spec fn view(&self) -> LaunchSpecView {
        LaunchSpecView {
            command: self.command@,
            working_dir: match self.working_dir {
                Some(d) => Some(d@),
                None => None,
            },
            disable_logs: self.disable_logs,
            log_rotation: self.log_rotation,
            max_log_files: self.max_log_files as nat,
        }
    }
}

impl LaunchSpec {
    /// A retention count of zero keeps no log at all; `install` requires at
    /// least one file.
    pub open spec fn well_formed(&self) -> bool {
        self.max_log_files >= 1
    }
}

/// The parsed command line, one variant per verb.
#[derive(Debug)]
pub enum Commands {
    Logs { name: String, follow: bool, full: bool },
    List,
    Start { name: String },
    Stop { name: String },
    Status { name: String },
    Restart { name: String },
    Install { name: String, launch: LaunchSpec },
    Uninstall { name: String },
    Run { name: String, launch: LaunchSpec },
}

/// The whole invocation; no subcommand means "print help".
pub struct Cli {
    pub command: Option<Commands>,
}

/// The `run` verb recovered from the registered argument list.
pub struct RunRequest {
    pub name: String,
    pub launch: LaunchSpec,
}

/// The argument list `install` registers: the hidden `run` verb plus the
/// launch specification, field by field.
pub open spec fn spec_encode_launch_args(name: Seq<char>, l: LaunchSpecView) -> Seq<Seq<char>> {
    seq!["run"@, "--cmd"@, l.command, "--name"@, name] + (match l.working_dir {
        Some(d) => seq!["--working-dir"@, d],
        None => seq![],
    }) + (if l.disable_logs {
        seq!["--disable-logs"@]
    } else {
        seq![]
    }) + seq![
        "--log-rotation"@,
        spec_rotation_keyword(l.log_rotation),
        "--max-log-files"@,
        spec_decimal(l.max_log_files),
    ]
}

pub fn encode_launch_arguments(name: &str, launch: &LaunchSpec) -> (r: Vec<String>)
    ensures
        r.deep_view() == spec_encode_launch_args(name@, launch@),
{
    let mut r: Vec<String> = Vec::new();
    r.push("run".to_owned());
    r.push("--cmd".to_owned());
    r.push(launch.command.clone());
    r.push("--name".to_owned());
    r.push(name.to_owned());
    match &launch.working_dir {
        Some(d) => {
            r.push("--working-dir".to_owned());
            r.push(d.clone());
        },
        None => {},
    }
    if launch.disable_logs {
        r.push("--disable-logs".to_owned());
    }
    r.push("--log-rotation".to_owned());
    r.push(launch.log_rotation.to_string());
    r.push("--max-log-files".to_owned());
    r.push(u64_to_string(launch.max_log_files as u64));
    proof {
        assert(r.deep_view() =~= spec_encode_launch_args(name@, launch@));
    }
    r
}

/// The fields gathered while walking the flags of a `run` argument list.
pub ghost struct RunAccView {
    pub cmd: Option<Seq<char>>,
    pub name: Option<Seq<char>>,
    pub working_dir: Option<Seq<char>>,
    pub disable_logs: bool,
    pub log_rotation: LogRotation,
    pub max_log_files: nat,
}

/// The defaults the run flags carry: daily rotation, thirty files kept.
pub open spec fn spec_initial_acc() -> RunAccView {
    RunAccView {
        cmd: None,
        name: None,
        working_dir: None,
        disable_logs: false,
        log_rotation: LogRotation::Daily,
        max_log_files: 30,
    }
}

/// One pass over the flags from position `i`: every flag may repeat (the last
/// value wins), an unknown flag or a missing or malformed value fails the
/// whole parse.
pub open spec fn spec_parse_flags(args: Seq<Seq<char>>, i: int, acc: RunAccView) -> Option<
    RunAccView,
>
    decreases args.len() - i,
{
    if i >= args.len() {
        Some(acc)
    } else {
        let a = args[i];
        if a == "--cmd"@ || a == "-c"@ {
            if i + 1 < args.len() {
                spec_parse_flags(args, i + 2, RunAccView { cmd: Some(args[i + 1]), ..acc })
            } else {
                None
            }
        } else if a == "--name"@ || a == "-n"@ {
            if i + 1 < args.len() {
                spec_parse_flags(args, i + 2, RunAccView { name: Some(args[i + 1]), ..acc })
            } else {
                None
            }
        } else if a == "--working-dir"@ {
            if i + 1 < args.len() {
                spec_parse_flags(args, i + 2, RunAccView { working_dir: Some(args[i + 1]), ..acc })
            } else {
                None
            }
        } else if a == "--disable-logs"@ || a == "-d"@ {
            spec_parse_flags(args, i + 1, RunAccView { disable_logs: true, ..acc })
        } else if a == "--log-rotation"@ || a == "-l"@ {
            if i + 1 < args.len() {
                match spec_rotation_from(args[i + 1]) {
                    Some(rot) => spec_parse_flags(
                        args,
                        i + 2,
                        RunAccView { log_rotation: rot, ..acc },
                    ),
                    None => None,
                }
            } else {
                None
            }
        } else if a == "--max-log-files"@ || a == "-m"@ {
            if i + 1 < args.len() && args[i + 1].len() > 0 && all_digits(args[i + 1])
                && spec_parse_digits(args[i + 1]) <= usize::MAX {
                spec_parse_flags(
                    args,
                    i + 2,
                    RunAccView { max_log_files: spec_parse_digits(args[i + 1]), ..acc },
                )
            } else {
                None
            }
        } else {
            None
        }
    }
}

/// A full `run` argument list: the verb itself, then its flags; `--cmd` is
/// required, a missing `--name` defaults to the reserved prefix.
pub open spec fn spec_parse_run(args: Seq<Seq<char>>) -> Option<(Seq<char>, LaunchSpecView)> {
    if args.len() >= 1 && args[0] == "run"@ {
        match spec_parse_flags(args, 1, spec_initial_acc()) {
            Some(acc) => match acc.cmd {
                Some(c) => Some(
                    (
                        match acc.name {
                            Some(n) => n,
                            None => crate::service::spec_prefix(),
                        },
                        LaunchSpecView {
                            command: c,
                            working_dir: acc.working_dir,
                            disable_logs: acc.disable_logs,
                            log_rotation: acc.log_rotation,
                            max_log_files: acc.max_log_files,
                        },
                    ),
                ),
                None => None,
            },
            None => None,
        }
    } else {
        None
    }
}

pub fn parse_run_command(args: &Vec<String>) -> (r: Option<RunRequest>)
    ensures
        match r {
            Some(req) => spec_parse_run(args.deep_view()) == Some((req.name@, req.launch@)),
            None => spec_parse_run(args.deep_view()) is None,
        },
{
    let ghost dv = args.deep_view();
    proof {
        assert(forall|j: int| 0 <= j < dv.len() ==> #[trigger] dv[j] == args@[j].deep_view());
    }
    let n = args.len();
    if n == 0 || !str_eq(args[0].as_str(), "run") {
        return None;
    }
    let mut cmd: Option<String> = None;
    let mut name: Option<String> = None;
    let mut working_dir: Option<String> = None;
    let mut disable_logs: bool = false;
    let mut log_rotation: LogRotation = LogRotation::Daily;
    let mut max_log_files: usize = 30;
    let mut i: usize = 1;
    while i < n
        invariant
            n == args@.len(),
            dv == args.deep_view(),
            dv.len() == n,
            forall|j: int| 0 <= j < dv.len() ==> #[trigger] dv[j] == args@[j].deep_view(),
            1 <= i <= n,
            spec_parse_flags(dv, 1, spec_initial_acc()) == spec_parse_flags(
                dv,
                i as int,
                RunAccView {
                    cmd: match cmd {
                        Some(ref c) => Some(c@),
                        None => None,
                    },
                    name: match name {
                        Some(ref m) => Some(m@),
                        None => None,
                    },
                    working_dir: match working_dir {
                        Some(ref w) => Some(w@),
                        None => None,
                    },
                    disable_logs: disable_logs,
                    log_rotation: log_rotation,
                    max_log_files: max_log_files as nat,
                },
            ),
        decreases n - i,
    {
        let a = args[i].as_str();
        if str_eq(a, "--cmd") || str_eq(a, "-c") {
            if i + 1 < n {
                cmd = Some(args[i + 1].clone());
                i += 2;
            } else {
                return None;
            }
        } else if str_eq(a, "--name") || str_eq(a, "-n") {
            if i + 1 < n {
                name = Some(args[i + 1].clone());
                i += 2;
            } else {
                return None;
            }
        } else if str_eq(a, "--working-dir") {
            if i + 1 < n {
                working_dir = Some(args[i + 1].clone());
                i += 2;
            } else {
                return None;
            }
        } else if str_eq(a, "--disable-logs") || str_eq(a, "-d") {
            disable_logs = true;
            i += 1;
        } else if str_eq(a, "--log-rotation") || str_eq(a, "-l") {
            if i + 1 < n {
                match LogRotation::from_str(args[i + 1].as_str()) {
                    Ok(rot) => {
                        log_rotation = rot;
                        i += 2;
                    },
                    Err(_) => {
                        return None;
                    },
                }
            } else {
                return None;
            }
        } else if str_eq(a, "--max-log-files") || str_eq(a, "-m") {
            if i + 1 < n {
                match parse_usize(args[i + 1].as_str()) {
                    Some(v) => {
                        max_log_files = v;
                        i += 2;
                    },
                    None => {
                        return None;
                    },
                }
            } else {
                return None;
            }
        } else {
            return None;
        }
    }
    match cmd {
        Some(c) => {
            let out_name = match name {
                Some(m) => m,
                None => "wsw".to_owned(),
            };
            Some(
                RunRequest {
                    name: out_name,
                    launch: LaunchSpec {
                        command: c,
                        working_dir,
                        disable_logs,
                        log_rotation,
                        max_log_files,
                    },
                },
            )
        },
        None => None,
    }
}

/// The persisted launch specification round-trips: re-parsing the argument
/// list that `install` registers under a service yields the `run` verb with
/// exactly the installed name and fields.
#[verifier::rlimit(100)]
pub proof fn lemma_launch_args_round_trip(name: Seq<char>, l: LaunchSpecView)
    requires
        l.max_log_files <= usize::MAX,
    ensures
        spec_parse_run(spec_encode_launch_args(name, l)) == Some((name, l)),
{
    reveal_strlit("run");
    reveal_strlit("--cmd");
    reveal_strlit("-c");
    reveal_strlit("--name");
    reveal_strlit("-n");
    reveal_strlit("--working-dir");
    reveal_strlit("--disable-logs");
    reveal_strlit("-d");
    reveal_strlit("--log-rotation");
    reveal_strlit("-l");
    reveal_strlit("--max-log-files");
    reveal_strlit("-m");
    reveal_strlit("wsw");
    lemma_rotation_keyword_round_trip(l.log_rotation);
    crate::digits::lemma_decimal_round_trip(l.max_log_files);
    // The flag strings are distinguished by their lengths (and one character
    // for the two of equal length); stating the lengths brings the revealed
    // literal views into play.
    assert("run"@.len() == 3);
    assert("--cmd"@.len() == 5);
    assert("-c"@.len() == 2);
    assert("--name"@.len() == 6);
    assert("-n"@.len() == 2);
    assert("--working-dir"@.len() == 13);
    assert("--disable-logs"@.len() == 14);
    assert("-d"@.len() == 2);
    assert("--log-rotation"@.len() == 14);
    assert("-l"@.len() == 2);
    assert("--max-log-files"@.len() == 15);
    assert("-m"@.len() == 2);
    assert("--log-rotation"@[2] != "--disable-logs"@[2]);
    let args = spec_encode_launch_args(name, l);
    let kw = spec_rotation_keyword(l.log_rotation);
    let mx = spec_decimal(l.max_log_files);
    let a0 = spec_initial_acc();
    let a1 = RunAccView { cmd: Some(l.command), ..a0 };
    let a2 = RunAccView { name: Some(name), ..a1 };
    let a3 = RunAccView { working_dir: l.working_dir, ..a2 };
    let a4 = RunAccView { disable_logs: l.disable_logs, ..a3 };
    let a5 = RunAccView { log_rotation: l.log_rotation, ..a4 };
    let a6 = RunAccView { max_log_files: l.max_log_files, ..a5 };
    match l.working_dir {
        Some(d) => {
            if l.disable_logs {
                assert(args =~= seq![
                    "run"@,
                    "--cmd"@,
                    l.command,
                    "--name"@,
                    name,
                    "--working-dir"@,
                    d,
                    "--disable-logs"@,
                    "--log-rotation"@,
                    kw,
                    "--max-log-files"@,
                    mx,
                ]);
                assert(spec_parse_flags(args, 1, a0) == spec_parse_flags(args, 3, a1));
                assert(spec_parse_flags(args, 3, a1) == spec_parse_flags(args, 5, a2));
                assert(spec_parse_flags(args, 5, a2) == spec_parse_flags(args, 7, a3));
                assert(spec_parse_flags(args, 7, a3) == spec_parse_flags(args, 8, a4));
                assert(spec_parse_flags(args, 8, a4) == spec_parse_flags(args, 10, a5));
                assert(spec_parse_flags(args, 10, a5) == spec_parse_flags(args, 12, a6));
                assert(spec_parse_flags(args, 12, a6) == Some(a6));
            } else {
                assert(args =~= seq![
                    "run"@,
                    "--cmd"@,
                    l.command,
                    "--name"@,
                    name,
                    "--working-dir"@,
                    d,
                    "--log-rotation"@,
                    kw,
                    "--max-log-files"@,
                    mx,
                ]);
                assert(spec_parse_flags(args, 1, a0) == spec_parse_flags(args, 3, a1));
                assert(spec_parse_flags(args, 3, a1) == spec_parse_flags(args, 5, a2));
                assert(spec_parse_flags(args, 5, a2) == spec_parse_flags(args, 7, a3));
                assert(a3 == a4);
                assert(spec_parse_flags(args, 7, a4) == spec_parse_flags(args, 9, a5));
                assert(spec_parse_flags(args, 9, a5) == spec_parse_flags(args, 11, a6));
                assert(spec_parse_flags(args, 11, a6) == Some(a6));
            }
        },
        None => {
            if l.disable_logs {
                assert(args =~= seq![
                    "run"@,
                    "--cmd"@,
                    l.command,
                    "--name"@,
                    name,
                    "--disable-logs"@,
                    "--log-rotation"@,
                    kw,
                    "--max-log-files"@,
                    mx,
                ]);
                assert(a2 == a3);
                assert(spec_parse_flags(args, 1, a0) == spec_parse_flags(args, 3, a1));
                assert(spec_parse_flags(args, 3, a1) == spec_parse_flags(args, 5, a2));
                assert(spec_parse_flags(args, 5, a3) == spec_parse_flags(args, 6, a4));
                assert(spec_parse_flags(args, 6, a4) == spec_parse_flags(args, 8, a5));
                assert(spec_parse_flags(args, 8, a5) == spec_parse_flags(args, 10, a6));
                assert(spec_parse_flags(args, 10, a6) == Some(a6));
            } else {
                assert(args =~= seq![
                    "run"@,
                    "--cmd"@,
                    l.command,
                    "--name"@,
                    name,
                    "--log-rotation"@,
                    kw,
                    "--max-log-files"@,
                    mx,
                ]);
                assert(a2 == a3 && a3 == a4);
                assert(spec_parse_flags(args, 1, a0) == spec_parse_flags(args, 3, a1));
                assert(spec_parse_flags(args, 3, a1) == spec_parse_flags(args, 5, a2));
                assert(spec_parse_flags(args, 5, a4) == spec_parse_flags(args, 7, a5));
                assert(spec_parse_flags(args, 7, a5) == spec_parse_flags(args, 9, a6));
                assert(spec_parse_flags(args, 9, a6) == Some(a6));
            }
        },
    }
    assert(spec_parse_flags(args, 1, a0) == Some(a6));
    assert(spec_parse_run(args) == Some(
        (
            name,
            LaunchSpecView {
                command: l.command,
                working_dir: l.working_dir,
                disable_logs: l.disable_logs,
                log_rotation: l.log_rotation,
                max_log_files: l.max_log_files,
            },
        ),
    ));
}

} // verus!
