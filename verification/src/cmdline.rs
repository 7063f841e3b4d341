//! The registered command line as one string: how an argument list is quoted
//! into it, how it splits back into tokens, and how the stored `--cmd` value
//! is read out of it for the `status` verb.

use vstd::prelude::*;

use crate::runner::{first_break, lemma_first_break_at};
use crate::text::{find_char, first_index_of, is_space, is_space_char, lemma_first_index_of_at,
    str_eq};

verus! {

/// The tokens of a command-line string: runs separated by whitespace, with
/// double quotes grouping a token (the quotes themselves not part of it); an
/// unclosed quote takes the rest of the line.
pub open spec fn spec_tokenize(s: Seq<char>) -> Seq<Seq<char>>
    decreases s.len(),
    via spec_tokenize_decreases
{
    if s.len() == 0 {
        seq![]
    } else if is_space_char(s[0]) {
        spec_tokenize(s.drop_first())
    } else if s[0] == '"' {
        let close = 1 + first_index_of(s.skip(1), '"');
        if close < s.len() {
            seq![s.subrange(1, close as int)] + spec_tokenize(s.skip(close as int + 1))
        } else {
            seq![s.skip(1)]
        }
    } else {
        let k = 1 + first_break(s.drop_first());
        seq![s.take(k as int)] + spec_tokenize(s.skip(k as int))
    }
}

pub proof fn lemma_first_break_le(s: Seq<char>)
    ensures
        first_break(s) <= s.len(),
    decreases s.len(),
{
    if s.len() > 0 && !is_space_char(s[0]) && s[0] != '"' {
        lemma_first_break_le(s.drop_first());
    }
}

#[via_fn]
proof fn spec_tokenize_decreases(s: Seq<char>) {
    if s.len() > 0 && !is_space_char(s[0]) && s[0] != '"' {
        lemma_first_break_le(s.drop_first());
    }
}

pub fn tokenize(s: &str) -> (r: Vec<String>)
    ensures
        r.deep_view() == spec_tokenize(s@),
{
    let n = s.unicode_len();
    let mut r: Vec<String> = Vec::new();
    let mut i: usize = 0;
    proof {
        assert(s@.skip(0) =~= s@);
        assert(r.deep_view() =~= Seq::<Seq<char>>::empty());
        assert(Seq::<Seq<char>>::empty() + spec_tokenize(s@) =~= spec_tokenize(s@));
    }
    while i < n
        invariant
            n == s@.len(),
            0 <= i <= n,
            spec_tokenize(s@) == r.deep_view() + spec_tokenize(s@.skip(i as int)),
        decreases n - i,
    {
        let ghost rem = s@.skip(i as int);
        let c = s.get_char(i);
        if is_space(c) {
            proof {
                assert(rem.drop_first() =~= s@.skip(i + 1));
            }
            i += 1;
        } else if c == '"' {
            let ghost rem1 = s@.skip(i + 1);
            proof {
                assert(rem.skip(1) =~= rem1);
            }
            match find_char(s, i + 1, '"') {
                Some(j) => {
                    proof {
                        lemma_first_index_of_at(rem1, '"', j - (i + 1));
                        assert(rem.subrange(1, (j - i) as int) =~= s@.subrange(i + 1, j as int));
                        assert(rem.skip((j - i) as int + 1) =~= s@.skip(j + 1));
                    }
                    let token = s.substring_char(i + 1, j);
                    let ghost old_dv = r.deep_view();
                    r.push(token.to_owned());
                    proof {
                        assert(r.deep_view() =~= old_dv.push(token@));
                        assert(old_dv.push(token@) + spec_tokenize(s@.skip(j + 1)) =~= old_dv + (
                        seq![token@] + spec_tokenize(s@.skip(j + 1))));
                    }
                    i = j + 1;
                },
                None => {
                    proof {
                        lemma_first_index_of_at(rem1, '"', rem1.len() as int);
                        assert(rem.skip(1) =~= s@.subrange(i + 1, n as int));
                    }
                    let token = s.substring_char(i + 1, n);
                    let ghost old_dv = r.deep_view();
                    r.push(token.to_owned());
                    proof {
                        assert(r.deep_view() =~= old_dv.push(token@));
                        assert(old_dv.push(token@) =~= old_dv + seq![token@]);
                        assert(s@.skip(n as int) =~= Seq::<char>::empty());
                    }
                    i = n;
                },
            }
        } else {
            let mut k: usize = i;
            while k < n && !is_space(s.get_char(k)) && s.get_char(k) != '"'
                invariant
                    n == s@.len(),
                    i <= k <= n,
                    forall|j: int| i <= j < k ==> !is_space_char(s@[j]) && s@[j] != '"',
                decreases n - k,
            {
                k += 1;
            }
            proof {
                lemma_first_break_at(rem, k - i);
                assert(rem.drop_first() =~= s@.skip(i + 1));
                lemma_first_break_at(s@.skip(i + 1), k - i - 1);
                assert(rem.take((k - i) as int) =~= s@.subrange(i as int, k as int));
                assert(rem.skip((k - i) as int) =~= s@.skip(k as int));
            }
            let token = s.substring_char(i, k);
            let ghost old_dv = r.deep_view();
            r.push(token.to_owned());
            proof {
                assert(r.deep_view() =~= old_dv.push(token@));
                assert(old_dv.push(token@) + spec_tokenize(s@.skip(k as int)) =~= old_dv + (
                seq![token@] + spec_tokenize(s@.skip(k as int))));
            }
            i = k;
        }
    }
    proof {
        assert(s@.skip(n as int) =~= Seq::<char>::empty());
        assert(r.deep_view() =~= r.deep_view() + spec_tokenize(s@.skip(n as int)));
    }
    r
}

/// The characters that force an argument into quotes when the service
/// registration composes its command line (a double quote, a space, a line
/// feed, a horizontal tab, a vertical tab).
pub open spec fn spec_needs_quoting_char(c: char) -> bool {
    c == '"' || c == ' ' || c == '\n' || c == '\t' || c == '\u{b}'
}

/// One argument as it stands in the stored command line: wrapped in double
/// quotes when empty or when it holds a character that needs quoting.
pub open spec fn spec_quote_arg(a: Seq<char>) -> Seq<char> {
    if a.len() == 0 || exists|i: int| 0 <= i < a.len() && spec_needs_quoting_char(a[i]) {
        seq!['"'] + a + seq!['"']
    } else {
        a
    }
}

/// The arguments joined by single spaces, each quoted as stored.
pub open spec fn spec_join_quoted(args: Seq<Seq<char>>) -> Seq<char>
    decreases args.len(),
{
    if args.len() == 0 {
        seq![]
    } else if args.len() == 1 {
        spec_quote_arg(args[0])
    } else {
        spec_quote_arg(args[0]) + seq![' '] + spec_join_quoted(args.drop_first())
    }
}

/// An argument the quoting scheme carries faithfully: it holds no double
/// quote, and none of the whitespace the quoting rule does not cover.
pub open spec fn spec_tokenizable_arg(a: Seq<char>) -> bool {
    forall|i: int| 0 <= i < a.len() ==> a[i] != '"' && a[i] != '\r' && a[i] != '\u{c}'
}

proof fn lemma_tokenize_quoted_head(a: Seq<char>, rest: Seq<char>)
    requires
        spec_tokenizable_arg(a),
        rest.len() > 0 ==> rest[0] == ' ',
    ensures
        spec_tokenize(seq!['"'] + a + seq!['"'] + rest) == seq![a] + spec_tokenize(rest),
{
    let s = seq!['"'] + a + seq!['"'] + rest;
    assert(s[0] == '"');
    assert(!is_space_char('"'));
    let tail = s.skip(1);
    assert(tail =~= a + seq!['"'] + rest);
    lemma_first_index_of_at(tail, '"', a.len() as int);
    let close = 1 + first_index_of(tail, '"');
    assert(close == a.len() + 1);
    assert(close < s.len());
    assert(s.subrange(1, close as int) =~= a);
    assert(s.skip(close as int + 1) =~= rest);
}

proof fn lemma_tokenize_bare_head(a: Seq<char>, rest: Seq<char>)
    requires
        a.len() > 0,
        forall|i: int| 0 <= i < a.len() ==> !spec_needs_quoting_char(a[i]),
        spec_tokenizable_arg(a),
        rest.len() > 0 ==> rest[0] == ' ',
    ensures
        spec_tokenize(a + rest) == seq![a] + spec_tokenize(rest),
{
    let s = a + rest;
    assert(!is_space_char(s[0]) && s[0] != '"') by {
        assert(s[0] == a[0]);
        assert(!spec_needs_quoting_char(a[0]) && a[0] != '\r' && a[0] != '\u{c}');
    }
    assert(forall|j: int| 0 <= j < a.len() ==> !is_space_char(s[j]) && s[j] != '"') by {
        assert(forall|j: int| 0 <= j < a.len() ==> s[j] == a[j]);
    }
    lemma_first_break_at(s, a.len() as int);
    assert(s.drop_first() =~= s.skip(1));
    lemma_first_break_at(s.skip(1), a.len() - 1);
    let k = 1 + first_break(s.drop_first());
    assert(k == a.len());
    assert(s.take(k as int) =~= a);
    assert(s.skip(k as int) =~= rest);
}

proof fn lemma_tokenize_skip_space(rest: Seq<char>)
    ensures
        spec_tokenize(seq![' '] + rest) == spec_tokenize(rest),
{
    let s = seq![' '] + rest;
    assert(is_space_char(s[0]));
    assert(s.drop_first() =~= rest);
}

/// Splitting the stored command line recovers the arguments it was composed
/// from, as long as no argument holds a double quote or whitespace the
/// quoting rule does not cover.
pub proof fn lemma_tokenize_join_round_trip(args: Seq<Seq<char>>)
    requires
        forall|i: int| 0 <= i < args.len() ==> spec_tokenizable_arg(#[trigger] args[i]),
    ensures
        spec_tokenize(spec_join_quoted(args)) == args,
    decreases args.len(),
{
    if args.len() == 0 {
        assert(spec_tokenize(spec_join_quoted(args)) =~= args);
    } else {
        let a = args[0];
        let rest_args = args.drop_first();
        assert(forall|i: int|
            0 <= i < rest_args.len() ==> spec_tokenizable_arg(#[trigger] rest_args[i])) by {
            assert(forall|i: int|
                0 <= i < rest_args.len() ==> rest_args[i] == args[i + 1]);
        }
        lemma_tokenize_join_round_trip(rest_args);
        if args.len() == 1 {
            if a.len() == 0 || exists|i: int| 0 <= i < a.len() && spec_needs_quoting_char(a[i]) {
                assert(spec_quote_arg(a) =~= seq!['"'] + a + seq!['"'] + Seq::<char>::empty());
                lemma_tokenize_quoted_head(a, Seq::<char>::empty());
                assert(seq![a] + spec_tokenize(Seq::<char>::empty()) =~= args);
            } else {
                assert(spec_quote_arg(a) =~= a + Seq::<char>::empty());
                lemma_tokenize_bare_head(a, Seq::<char>::empty());
                assert(seq![a] + spec_tokenize(Seq::<char>::empty()) =~= args);
            }
        } else {
            let rest = seq![' '] + spec_join_quoted(rest_args);
            assert(rest[0] == ' ');
            lemma_tokenize_skip_space(spec_join_quoted(rest_args));
            if a.len() == 0 || exists|i: int| 0 <= i < a.len() && spec_needs_quoting_char(a[i]) {
                assert(spec_join_quoted(args) =~= seq!['"'] + a + seq!['"'] + rest);
                lemma_tokenize_quoted_head(a, rest);
            } else {
                assert(spec_join_quoted(args) =~= a + rest);
                lemma_tokenize_bare_head(a, rest);
            }
            assert(seq![a] + spec_tokenize(rest) =~= seq![a] + rest_args);
            assert(seq![a] + rest_args =~= args);
        }
    }
}

proof fn lemma_digits_tokenizable(s: Seq<char>)
    requires
        crate::digits::all_digits(s),
    ensures
        spec_tokenizable_arg(s),
{
    assert forall|i: int| 0 <= i < s.len() implies s[i] != '"' && s[i] != '\r' && s[i]
        != '\u{c}' by {
        assert(crate::digits::is_digit_char(s[i]));
        assert('"' as u32 == 34 && '\r' as u32 == 13 && '\u{c}' as u32 == 12);
    }
}

proof fn lemma_encoded_args_tokenizable(name: Seq<char>, l: crate::cli::LaunchSpecView)
    requires
        spec_tokenizable_arg(name),
        spec_tokenizable_arg(l.command),
        l.working_dir matches Some(d) ==> spec_tokenizable_arg(d),
    ensures
        forall|i: int|
            0 <= i < crate::cli::spec_encode_launch_args(name, l).len()
                ==> spec_tokenizable_arg(
                #[trigger] crate::cli::spec_encode_launch_args(name, l)[i],
            ),
{
    reveal_strlit("run");
    reveal_strlit("--cmd");
    reveal_strlit("--name");
    reveal_strlit("--working-dir");
    reveal_strlit("--disable-logs");
    reveal_strlit("--log-rotation");
    reveal_strlit("--max-log-files");
    reveal_strlit("minutely");
    reveal_strlit("hourly");
    reveal_strlit("daily");
    reveal_strlit("never");
    assert(spec_tokenizable_arg("run"@));
    assert(spec_tokenizable_arg("--cmd"@));
    assert(spec_tokenizable_arg("--name"@));
    assert(spec_tokenizable_arg("--working-dir"@));
    assert(spec_tokenizable_arg("--disable-logs"@));
    assert(spec_tokenizable_arg("--log-rotation"@));
    assert(spec_tokenizable_arg("--max-log-files"@));
    let kw = crate::cli::spec_rotation_keyword(l.log_rotation);
    assert(spec_tokenizable_arg(kw)) by {
        match l.log_rotation {
            crate::cli::LogRotation::Minutely => assert(spec_tokenizable_arg("minutely"@)),
            crate::cli::LogRotation::Hourly => assert(spec_tokenizable_arg("hourly"@)),
            crate::cli::LogRotation::Daily => assert(spec_tokenizable_arg("daily"@)),
            crate::cli::LogRotation::Never => assert(spec_tokenizable_arg("never"@)),
        }
    }
    let mx = crate::digits::spec_decimal(l.max_log_files);
    assert(spec_tokenizable_arg(mx)) by {
        crate::digits::lemma_decimal_round_trip(l.max_log_files);
        lemma_digits_tokenizable(mx);
    }
    let args = crate::cli::spec_encode_launch_args(name, l);
    match l.working_dir {
        Some(d) => {
            if l.disable_logs {
                assert(args =~= seq![
                    "run"@,
                    "--cmd"@,
                    l.command,
                    "--name"@,
                    name,
                    "--working-dir"@,
                    d,
                    "--disable-logs"@,
                    "--log-rotation"@,
                    kw,
                    "--max-log-files"@,
                    mx,
                ]);
            } else {
                assert(args =~= seq![
                    "run"@,
                    "--cmd"@,
                    l.command,
                    "--name"@,
                    name,
                    "--working-dir"@,
                    d,
                    "--log-rotation"@,
                    kw,
                    "--max-log-files"@,
                    mx,
                ]);
            }
        },
        None => {
            if l.disable_logs {
                assert(args =~= seq![
                    "run"@,
                    "--cmd"@,
                    l.command,
                    "--name"@,
                    name,
                    "--disable-logs"@,
                    "--log-rotation"@,
                    kw,
                    "--max-log-files"@,
                    mx,
                ]);
            } else {
                assert(args =~= seq![
                    "run"@,
                    "--cmd"@,
                    l.command,
                    "--name"@,
                    name,
                    "--log-rotation"@,
                    kw,
                    "--max-log-files"@,
                    mx,
                ]);
            }
        },
    }
}

/// The full persisted round trip, at the level of the one command-line
/// string the service database stores: the executable path followed by the
/// quoted launch arguments, split back into tokens and re-parsed as this
/// tool's own command line, yields the `run` verb with exactly the installed
/// name and launch specification. It asks only that the executable path and
/// the installed values carry no double quote (and none of the whitespace
/// the quoting rule leaves bare).
pub proof fn lemma_stored_command_line_round_trip(
    exe: Seq<char>,
    name: Seq<char>,
    l: crate::cli::LaunchSpecView,
)
    requires
        l.max_log_files <= usize::MAX,
        spec_tokenizable_arg(exe),
        spec_tokenizable_arg(name),
        spec_tokenizable_arg(l.command),
        l.working_dir matches Some(d) ==> spec_tokenizable_arg(d),
    ensures
        crate::cli::spec_parse_run(
            spec_tokenize(
                spec_join_quoted(seq![exe] + crate::cli::spec_encode_launch_args(name, l)),
            ).drop_first(),
        ) == Some((name, l)),
{
    let encoded = crate::cli::spec_encode_launch_args(name, l);
    let args = seq![exe] + encoded;
    lemma_encoded_args_tokenizable(name, l);
    assert(forall|i: int| 0 <= i < args.len() ==> spec_tokenizable_arg(#[trigger] args[i])) by {
        assert(args[0] == exe);
        assert(forall|i: int| 1 <= i < args.len() ==> args[i] == encoded[i - 1]);
    }
    lemma_tokenize_join_round_trip(args);
    assert(spec_tokenize(spec_join_quoted(args)).drop_first() =~= encoded);
    crate::cli::lemma_launch_args_round_trip(name, l);
}

/// The value stored after the first `--cmd` (or `-c`) token, if any.
pub open spec fn spec_cmd_of_tokens(tokens: Seq<Seq<char>>) -> Option<Seq<char>>
    decreases tokens.len(),
{
    if tokens.len() == 0 {
        None
    } else if tokens[0] == "--cmd"@ || tokens[0] == "-c"@ {
        if tokens.len() >= 2 {
            Some(tokens[1])
        } else {
            None
        }
    } else {
        spec_cmd_of_tokens(tokens.drop_first())
    }
}

/// The wrapped command recorded in a stored service command line: the token
/// after `--cmd`, with the line split as the tokenizer splits it.
pub fn wrapped_command_of(binpath: &str) -> (r: Option<String>)
    ensures
        match r {
            Some(c) => spec_cmd_of_tokens(spec_tokenize(binpath@)) == Some(c@),
            None => spec_cmd_of_tokens(spec_tokenize(binpath@)) is None,
        },
{
    let tokens = tokenize(binpath);
    let ghost tv = tokens.deep_view();
    proof {
        assert(tv == spec_tokenize(binpath@));
    }
    proof {
        assert(forall|j: int| 0 <= j < tv.len() ==> #[trigger] tv[j] == tokens@[j].deep_view());
    }
    let n = tokens.len();
    let mut i: usize = 0;
    proof {
        assert(tv.skip(0) =~= tv);
    }
    while i < n
        invariant
            n == tokens@.len(),
            tv == tokens.deep_view(),
            tv == spec_tokenize(binpath@),
            tv.len() == n,
            forall|j: int| 0 <= j < tv.len() ==> #[trigger] tv[j] == tokens@[j].deep_view(),
            0 <= i <= n,
            spec_cmd_of_tokens(tv) == spec_cmd_of_tokens(tv.skip(i as int)),
        decreases n - i,
    {
        let t = tokens[i].as_str();
        if str_eq(t, "--cmd") || str_eq(t, "-c") {
            proof {
                assert(t@ == tv[i as int]);
                assert(tv.skip(i as int)[0] == tv[i as int]);
            }
            if i + 1 < n {
                let value = tokens[i + 1].as_str().to_owned();
                proof {
                    assert(tv.skip(i as int)[1] == tv[i + 1]);
                    assert(spec_cmd_of_tokens(tv.skip(i as int)) == Some(tv.skip(i as int)[1]));
                    assert(value@ == tv[i + 1]);
                }
                return Some(value);
            } else {
                proof {
                    assert(tv.skip(i as int).len() == 1);
                    assert(spec_cmd_of_tokens(tv.skip(i as int)) is None);
                }
                return None;
            }
        }
        proof {
            assert(tv.skip(i as int).drop_first() =~= tv.skip(i + 1));
        }
        i += 1;
    }
    proof {
        assert(tv.skip(n as int) =~= Seq::<Seq<char>>::empty());
    }
    None
}

} // verus!
