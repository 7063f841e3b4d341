//! Where the log lives and how its lines read back: the wrapped-process
//! marker, the log file name, the directory choice, and the extraction of a
//! wrapped-process message from a formatted log line.

use vstd::prelude::*;

use crate::text::{
    find_char, first_index_of, lemma_first_index_of_at, starts_with, str_starts_with, trim,
    trim_spec, trim_start, trim_start_spec,
};

verus! {

/// The marker every wrapped-process line carries in the on-disk log.
pub open spec fn spec_service_log_prefix() -> Seq<char> {
    "|SVC-LOG| "@
}

pub fn service_log_prefix() -> (r: &'static str)
    ensures
        r@ == spec_service_log_prefix(),
{
    "|SVC-LOG| "
}

/// Log files are named `<service name>.log` plus the rotation stamp the
/// file sink appends.
pub open spec fn spec_log_filename_prefix(name: Seq<char>) -> Seq<char> {
    name + ".log"@
}

pub fn get_log_filename_prefix(name: &str) -> (r: String)
    ensures
        r@ == spec_log_filename_prefix(name@),
{
    crate::text::concat2(name, ".log")
}

/// The log directory: `<PROGRAMDATA>\wsw\logs` when that variable is set and
/// usable, else `<exe dir>\logs`, else a `logs` directory beside the current
/// working directory.
pub open spec fn spec_log_dir(programdata: Option<Seq<char>>, exe_dir: Option<Seq<char>>) -> Seq<
    char,
> {
    match programdata {
        Some(p) => p + "\\wsw\\logs"@,
        None => match exe_dir {
            Some(e) => e + "\\logs"@,
            None => "logs"@,
        },
    }
}

pub fn choose_log_dir(programdata: &Option<String>, exe_dir: &Option<String>) -> (r: String)
    ensures
        r@ == spec_log_dir(
            match programdata {
                Some(p) => Some(p@),
                None => None,
            },
            match exe_dir {
                Some(e) => Some(e@),
                None => None,
            },
        ),
{
    match programdata {
        Some(p) => crate::text::concat2(p.as_str(), "\\wsw\\logs"),
        None => match exe_dir {
            Some(e) => crate::text::concat2(e.as_str(), "\\logs"),
            None => "logs".to_owned(),
        },
    }
}

/// The wrapped-process message of a formatted log line
/// (`YYYY-MM-DD HH:MM:SS  LEVEL  MESSAGE`): the text after the timestamp and
/// the level, with the marker stripped; `None` when the line is not a
/// marked wrapped-process line.
pub open spec fn spec_extract_message(line: Seq<char>) -> Option<Seq<char>> {
    if line.len() < 21 {
        None
    } else {
        let after = line.skip(21);
        let sp = first_index_of(after, ' ');
        if sp < after.len() {
            let msg_start = 21 + sp + 1;
            if msg_start < line.len() {
                let t = trim_start_spec(line.skip(msg_start as int));
                if starts_with(t, spec_service_log_prefix()) {
                    Some(trim_spec(t.skip(spec_service_log_prefix().len() as int)))
                } else {
                    None
                }
            } else {
                None
            }
        } else {
            None
        }
    }
}

pub fn extract_message<'a>(line: &'a str) -> (r: Option<&'a str>)
    ensures
        match r {
            Some(m) => spec_extract_message(line@) == Some(m@),
            None => spec_extract_message(line@) is None,
        },
{
    let n = line.unicode_len();
    if n < 21 {
        return None;
    }
    let ghost after = line@.skip(21);
    match find_char(line, 21, ' ') {
        Some(sp) => {
            proof {
                lemma_first_index_of_at(after, ' ', sp - 21);
            }
            let msg_start = sp + 1;
            if msg_start < n {
                let message = line.substring_char(msg_start, n);
                let t = trim_start(message);
                if str_starts_with(t, "|SVC-LOG| ") {
                    let plen = service_log_prefix().unicode_len();
                    let tn = t.unicode_len();
                    let stripped = t.substring_char(plen, tn);
                    proof {
                        assert(stripped@ =~= t@.skip(spec_service_log_prefix().len() as int));
                    }
                    Some(trim(stripped))
                } else {
                    None
                }
            } else {
                None
            }
        },
        None => {
            proof {
                lemma_first_index_of_at(after, ' ', after.len() as int);
            }
            None
        },
    }
}

} // verus!
