//! Service naming, observed service status, list-output rows, and the
//! classification of Service Control Manager errors into operator messages.

use vstd::prelude::*;

use crate::text::{concat2, concat3, starts_with, str_eq, str_starts_with};

verus! {

/// The reserved service-name stem that marks a service as owned by this tool.
pub open spec fn spec_prefix() -> Seq<char> {
    "wsw"@
}

pub fn service_name_prefix() -> (r: &'static str)
    ensures
        r@ == spec_prefix(),
{
    "wsw"
}

/// The stored service name: the bare prefix stays itself, any other name is
/// stored as `<prefix>-<name>`.
pub open spec fn spec_service_name(name: Seq<char>) -> Seq<char> {
    if name == spec_prefix() {
        spec_prefix()
    } else {
        spec_prefix() + "-"@ + name
    }
}

pub fn get_service_name(name: &str) -> (r: String)
    ensures
        r@ == spec_service_name(name@),
{
    if str_eq(name, "wsw") {
        "wsw".to_owned()
    } else {
        concat3("wsw", "-", name)
    }
}

/// The name a listed service is displayed under: the bare prefix shows as
/// `[default]`, a `<prefix>-` name shows as the remainder, anything else is
/// shown as stored.
pub open spec fn spec_display_name(raw: Seq<char>) -> Seq<char> {
    if raw == spec_prefix() {
        "[default]"@
    } else if starts_with(raw, spec_prefix() + "-"@) {
        raw.skip((spec_prefix() + "-"@).len() as int)
    } else {
        raw
    }
}

pub fn display_service_name(raw: &str) -> (r: String)
    ensures
        r@ == spec_display_name(raw@),
{
    if str_eq(raw, "wsw") {
        "[default]".to_owned()
    } else {
        let dashed = concat2("wsw", "-");
        if str_starts_with(raw, dashed.as_str()) {
            let plen = dashed.as_str().unicode_len();
            let n = raw.unicode_len();
            raw.substring_char(plen, n).to_owned()
        } else {
            raw.to_owned()
        }
    }
}

/// A name round-trips through storage and display: installing under `name`
/// and listing shows `[default]` for the bare prefix and `name` itself for
/// every other name.
pub proof fn lemma_name_display_round_trip(name: Seq<char>)
    ensures
        spec_display_name(spec_service_name(name)) == if name == spec_prefix() {
            "[default]"@
        } else {
            name
        },
{
    reveal_strlit("wsw");
    reveal_strlit("-");
    if name == spec_prefix() {
    } else {
        let raw = spec_prefix() + "-"@ + name;
        let dashed = spec_prefix() + "-"@;
        assert(raw.len() == 4 + name.len());
        assert(raw != spec_prefix());
        assert(raw.take(dashed.len() as int) =~= dashed);
        assert(raw.skip(dashed.len() as int) =~= name);
    }
}

/// The closed set of observed service states.
#[derive(Clone, Copy, PartialEq, Eq, Structural, Debug)]
pub enum ServiceStateKind {
    Stopped,
    StartPending,
    StopPending,
    Running,
    ContinuePending,
    PausePending,
    Paused,
    Unknown,
}

/// The `dwCurrentState` values the Service Control Manager reports.
pub open spec fn spec_state_from_code(code: u32) -> ServiceStateKind {
    if code == 1 {
        ServiceStateKind::Stopped
    } else if code == 2 {
        ServiceStateKind::StartPending
    } else if code == 3 {
        ServiceStateKind::StopPending
    } else if code == 4 {
        ServiceStateKind::Running
    } else if code == 5 {
        ServiceStateKind::ContinuePending
    } else if code == 6 {
        ServiceStateKind::PausePending
    } else if code == 7 {
        ServiceStateKind::Paused
    } else {
        ServiceStateKind::Unknown
    }
}

pub fn state_from_code(code: u32) -> (r: ServiceStateKind)
    ensures
        r == spec_state_from_code(code),
{
    if code == 1 {
        ServiceStateKind::Stopped
    } else if code == 2 {
        ServiceStateKind::StartPending
    } else if code == 3 {
        ServiceStateKind::StopPending
    } else if code == 4 {
        ServiceStateKind::Running
    } else if code == 5 {
        ServiceStateKind::ContinuePending
    } else if code == 6 {
        ServiceStateKind::PausePending
    } else if code == 7 {
        ServiceStateKind::Paused
    } else {
        ServiceStateKind::Unknown
    }
}

pub open spec fn spec_status_label(k: ServiceStateKind) -> Seq<char> {
    match k {
        ServiceStateKind::Stopped => "Stopped"@,
        ServiceStateKind::StartPending => "StartPending"@,
        ServiceStateKind::StopPending => "StopPending"@,
        ServiceStateKind::Running => "Running"@,
        ServiceStateKind::ContinuePending => "ContinuePending"@,
        ServiceStateKind::PausePending => "PausePending"@,
        ServiceStateKind::Paused => "Paused"@,
        ServiceStateKind::Unknown => "Unknown"@,
    }
}

pub fn status_label(k: ServiceStateKind) -> (r: String)
    ensures
        r@ == spec_status_label(k),
{
    match k {
        ServiceStateKind::Stopped => "Stopped".to_owned(),
        ServiceStateKind::StartPending => "StartPending".to_owned(),
        ServiceStateKind::StopPending => "StopPending".to_owned(),
        ServiceStateKind::Running => "Running".to_owned(),
        ServiceStateKind::ContinuePending => "ContinuePending".to_owned(),
        ServiceStateKind::PausePending => "PausePending".to_owned(),
        ServiceStateKind::Paused => "Paused".to_owned(),
        ServiceStateKind::Unknown => "Unknown".to_owned(),
    }
}

/// Membership in the closed set of human status strings.
pub open spec fn is_closed_status_label(s: Seq<char>) -> bool {
    exists|k: ServiceStateKind| s == spec_status_label(k)
}

/// The rows of the `list` verb before display mangling: one `(raw name,
/// status label)` pair for each enumerated service whose name carries the
/// reserved prefix, in enumeration order.
pub open spec fn spec_raw_rows(entries: Seq<(Seq<char>, u32)>) -> Seq<(Seq<char>, Seq<char>)>
    decreases entries.len(),
{
    if entries.len() == 0 {
        seq![]
    } else {
        let head = spec_raw_rows(entries.drop_last());
        let e = entries.last();
        if starts_with(e.0, spec_prefix()) {
            head.push((e.0, spec_status_label(spec_state_from_code(e.1))))
        } else {
            head
        }
    }
}

/// The rows as printed: the raw name replaced by its display name.
pub open spec fn spec_list_rows(entries: Seq<(Seq<char>, u32)>) -> Seq<(Seq<char>, Seq<char>)>
    decreases entries.len(),
{
    if entries.len() == 0 {
        seq![]
    } else {
        let head = spec_list_rows(entries.drop_last());
        let e = entries.last();
        if starts_with(e.0, spec_prefix()) {
            head.push((spec_display_name(e.0), spec_status_label(spec_state_from_code(e.1))))
        } else {
            head
        }
    }
}

/// Filters an enumeration of `(service name, state code)` pairs down to the
/// services this tool owns and maps each to its display name and its human
/// status label.
pub fn wrapper_service_rows(entries: &Vec<(String, u32)>) -> (r: Vec<(String, String)>)
    ensures
        r.deep_view() == spec_list_rows(entries.deep_view()),
{
    let n = entries.len();
    let mut r: Vec<(String, String)> = Vec::new();
    let mut i: usize = 0;
    proof {
        assert(r.deep_view() =~= spec_list_rows(entries.deep_view().take(0)));
    }
    while i < n
        invariant
            n == entries@.len(),
            0 <= i <= n,
            entries.deep_view().len() == n,
            forall|j: int|
                0 <= j < n ==> #[trigger] entries.deep_view()[j] == entries@[j].deep_view(),
            r.deep_view() == spec_list_rows(entries.deep_view().take(i as int)),
        decreases n - i,
    {
        let ghost dv = entries.deep_view();
        proof {
            assert(dv.take(i + 1).drop_last() =~= dv.take(i as int));
            assert(dv.take(i + 1).last() == dv[i as int]);
        }
        let name: &String = &entries[i].0;
        let code: u32 = entries[i].1;
        if str_starts_with(name.as_str(), "wsw") {
            let disp = display_service_name(name.as_str());
            let label = status_label(state_from_code(code));
            let ghost old_dv = r.deep_view();
            r.push((disp, label));
            proof {
                assert(r.deep_view() =~= old_dv.push((disp.deep_view(), label.deep_view())));
            }
        }
        i += 1;
    }
    proof {
        assert(entries.deep_view().take(n as int) =~= entries.deep_view());
    }
    r
}

/// How many enumerated entries carry exactly this service name.
pub open spec fn count_entries_named(entries: Seq<(Seq<char>, u32)>, name: Seq<char>) -> nat
    decreases entries.len(),
{
    if entries.len() == 0 {
        0
    } else {
        count_entries_named(entries.drop_last(), name) + if entries.last().0 == name {
            1nat
        } else {
            0nat
        }
    }
}

/// How many rows carry exactly this name.
pub open spec fn count_rows_named(rows: Seq<(Seq<char>, Seq<char>)>, name: Seq<char>) -> nat
    decreases rows.len(),
{
    if rows.len() == 0 {
        0
    } else {
        count_rows_named(rows.drop_last(), name) + if rows.last().0 == name {
            1nat
        } else {
            0nat
        }
    }
}

proof fn lemma_raw_rows_count(entries: Seq<(Seq<char>, u32)>, name: Seq<char>)
    requires
        starts_with(name, spec_prefix()),
    ensures
        count_rows_named(spec_raw_rows(entries), name) == count_entries_named(entries, name),
    decreases entries.len(),
{
    if entries.len() == 0 {
    } else {
        lemma_raw_rows_count(entries.drop_last(), name);
        let head = spec_raw_rows(entries.drop_last());
        let e = entries.last();
        if starts_with(e.0, spec_prefix()) {
            assert(head.push((e.0, spec_status_label(spec_state_from_code(e.1)))).drop_last()
                =~= head);
        }
    }
}

proof fn lemma_rows_are_displayed_raw_rows(entries: Seq<(Seq<char>, u32)>)
    ensures
        spec_list_rows(entries).len() == spec_raw_rows(entries).len(),
        forall|i: int|
            0 <= i < spec_raw_rows(entries).len() ==> #[trigger] spec_list_rows(entries)[i] == (
            spec_display_name(spec_raw_rows(entries)[i].0),
            spec_raw_rows(entries)[i].1,
            ),
        forall|i: int|
            0 <= i < spec_raw_rows(entries).len() ==> is_closed_status_label(
                #[trigger] spec_raw_rows(entries)[i].1,
            ),
    decreases entries.len(),
{
    if entries.len() == 0 {
    } else {
        lemma_rows_are_displayed_raw_rows(entries.drop_last());
        let e = entries.last();
        if starts_with(e.0, spec_prefix()) {
            let k = spec_state_from_code(e.1);
            assert(is_closed_status_label(spec_status_label(k)));
        }
    }
}

/// A service this tool registered appears in the `list` output exactly once:
/// an enumeration holding exactly one entry under the stored name produces
/// exactly one row for it, under its display name, and every row's status
/// string is drawn from the closed status set.
pub proof fn lemma_list_one_row_per_service(entries: Seq<(Seq<char>, u32)>, name: Seq<char>)
    requires
        starts_with(name, spec_prefix()),
        count_entries_named(entries, name) == 1,
    ensures
        count_rows_named(spec_raw_rows(entries), name) == 1,
        spec_list_rows(entries).len() == spec_raw_rows(entries).len(),
        forall|i: int|
            0 <= i < spec_raw_rows(entries).len() ==> #[trigger] spec_list_rows(entries)[i] == (
            spec_display_name(spec_raw_rows(entries)[i].0),
            spec_raw_rows(entries)[i].1,
            ),
        forall|i: int|
            0 <= i < spec_list_rows(entries).len() ==> is_closed_status_label(
                #[trigger] spec_list_rows(entries)[i].1,
            ),
{
    lemma_raw_rows_count(entries, name);
    lemma_rows_are_displayed_raw_rows(entries);
}

/// The error kinds the operator verbs distinguish, keyed by the Win32 error
/// code the Service Control Manager call returned.
#[derive(Clone, Copy, PartialEq, Eq, Structural, Debug)]
pub enum WinErrorKind {
    AccessDenied,
    ServiceDoesNotExist,
    ServiceAlreadyExists,
    ServiceAlreadyRunning,
    ServiceNotActive,
    Other,
}

/// Win32 error codes: 5 ERROR_ACCESS_DENIED, 1056 ERROR_SERVICE_ALREADY_RUNNING,
/// 1060 ERROR_SERVICE_DOES_NOT_EXIST, 1062 ERROR_SERVICE_NOT_ACTIVE,
/// 1073 ERROR_SERVICE_EXISTS.
pub open spec fn spec_classify_error(code: u32) -> WinErrorKind {
    if code == 5 {
        WinErrorKind::AccessDenied
    } else if code == 1056 {
        WinErrorKind::ServiceAlreadyRunning
    } else if code == 1060 {
        WinErrorKind::ServiceDoesNotExist
    } else if code == 1062 {
        WinErrorKind::ServiceNotActive
    } else if code == 1073 {
        WinErrorKind::ServiceAlreadyExists
    } else {
        WinErrorKind::Other
    }
}

pub fn classify_error(code: u32) -> (r: WinErrorKind)
    ensures
        r == spec_classify_error(code),
{
    if code == 5 {
        WinErrorKind::AccessDenied
    } else if code == 1056 {
        WinErrorKind::ServiceAlreadyRunning
    } else if code == 1060 {
        WinErrorKind::ServiceDoesNotExist
    } else if code == 1062 {
        WinErrorKind::ServiceNotActive
    } else if code == 1073 {
        WinErrorKind::ServiceAlreadyExists
    } else {
        WinErrorKind::Other
    }
}

/// The distinct message an access-denied failure is surfaced with.
pub open spec fn spec_access_denied_message() -> Seq<char> {
    "Access denied — run as Administrator or add the privilege."@
}

pub fn access_denied_message() -> (r: String)
    ensures
        r@ == spec_access_denied_message(),
{
    "Access denied — run as Administrator or add the privilege.".to_owned()
}

pub open spec fn spec_os_error_suffix(code: u32) -> Seq<char> {
    "' (OS error "@ + crate::digits::spec_decimal(code as nat) + ")."@
}

fn os_error_suffix(code: u32) -> (r: String)
    ensures
        r@ == spec_os_error_suffix(code),
{
    let digits = crate::digits::u64_to_string(code as u64);
    let mut s = "' (OS error ".to_owned();
    s.append(digits.as_str());
    s.append(").");
    s
}

/// The stderr line of the `start` verb when starting failed with this Win32
/// error code.
pub open spec fn spec_start_error_message(code: u32, name: Seq<char>) -> Seq<char> {
    match spec_classify_error(code) {
        WinErrorKind::ServiceDoesNotExist => "Service '"@ + name + "' is not installed."@,
        WinErrorKind::AccessDenied => spec_access_denied_message(),
        WinErrorKind::ServiceAlreadyRunning => "Service '"@ + name + "' is already running."@,
        _ => "Failed to start service '"@ + name + spec_os_error_suffix(code),
    }
}

pub fn handle_start_error(code: u32, name: &str) -> (r: String)
    ensures
        r@ == spec_start_error_message(code, name@),
{
    match classify_error(code) {
        WinErrorKind::ServiceDoesNotExist => concat3("Service '", name, "' is not installed."),
        WinErrorKind::AccessDenied => access_denied_message(),
        WinErrorKind::ServiceAlreadyRunning => concat3(
            "Service '",
            name,
            "' is already running.",
        ),
        _ => {
            let mut s = concat2("Failed to start service '", name);
            let suffix = os_error_suffix(code);
            s.append(suffix.as_str());
            s
        },
    }
}

/// The stderr line of the `stop` verb when stopping failed with this Win32
/// error code.
pub open spec fn spec_stop_error_message(code: u32, name: Seq<char>) -> Seq<char> {
    match spec_classify_error(code) {
        WinErrorKind::ServiceDoesNotExist => "Service '"@ + name + "' is not installed."@,
        WinErrorKind::AccessDenied => spec_access_denied_message(),
        WinErrorKind::ServiceNotActive => "Service '"@ + name + "' is already stopped."@,
        _ => "Failed to stop service '"@ + name + spec_os_error_suffix(code),
    }
}

pub fn handle_stop_error(code: u32, name: &str) -> (r: String)
    ensures
        r@ == spec_stop_error_message(code, name@),
{
    match classify_error(code) {
        WinErrorKind::ServiceDoesNotExist => concat3("Service '", name, "' is not installed."),
        WinErrorKind::AccessDenied => access_denied_message(),
        WinErrorKind::ServiceNotActive => concat3("Service '", name, "' is already stopped."),
        _ => {
            let mut s = concat2("Failed to stop service '", name);
            let suffix = os_error_suffix(code);
            s.append(suffix.as_str());
            s
        },
    }
}

/// The stderr line of the `install` verb when registration failed.
pub open spec fn spec_install_error_message(code: u32, name: Seq<char>) -> Seq<char> {
    match spec_classify_error(code) {
        WinErrorKind::AccessDenied => spec_access_denied_message(),
        WinErrorKind::ServiceAlreadyExists => "Service '"@ + name + "' already exists."@,
        _ => "Failed to install the service '"@ + name + spec_os_error_suffix(code),
    }
}

pub fn install_error_message(code: u32, name: &str) -> (r: String)
    ensures
        r@ == spec_install_error_message(code, name@),
{
    match classify_error(code) {
        WinErrorKind::AccessDenied => access_denied_message(),
        WinErrorKind::ServiceAlreadyExists => concat3("Service '", name, "' already exists."),
        _ => {
            let mut s = concat2("Failed to install the service '", name);
            let suffix = os_error_suffix(code);
            s.append(suffix.as_str());
            s
        },
    }
}

/// The stderr line of the `uninstall` verb when removal failed.
pub open spec fn spec_uninstall_error_message(code: u32, name: Seq<char>) -> Seq<char> {
    match spec_classify_error(code) {
        WinErrorKind::AccessDenied => spec_access_denied_message(),
        WinErrorKind::ServiceDoesNotExist => "Service '"@ + name + "' is not installed."@,
        _ => "Failed to uninstall the service '"@ + name + spec_os_error_suffix(code),
    }
}

pub fn uninstall_error_message(code: u32, name: &str) -> (r: String)
    ensures
        r@ == spec_uninstall_error_message(code, name@),
{
    match classify_error(code) {
        WinErrorKind::AccessDenied => access_denied_message(),
        WinErrorKind::ServiceDoesNotExist => concat3("Service '", name, "' is not installed."),
        _ => {
            let mut s = concat2("Failed to uninstall the service '", name);
            let suffix = os_error_suffix(code);
            s.append(suffix.as_str());
            s
        },
    }
}

/// What a status-polling wait does next.
#[derive(Clone, Copy, PartialEq, Eq, Structural, Debug)]
pub enum WaitOutcome {
    Reached,
    TimedOut,
    Poll,
}

pub open spec fn spec_wait_step(
    current: ServiceStateKind,
    target: ServiceStateKind,
    elapsed_secs: u64,
    timeout_secs: u64,
) -> WaitOutcome {
    if current == target {
        WaitOutcome::Reached
    } else if elapsed_secs > timeout_secs {
        WaitOutcome::TimedOut
    } else {
        WaitOutcome::Poll
    }
}

/// One decision of `wait_for_service_status`: the target state ends the wait,
/// an expired timeout fails it, anything else polls again after a second.
pub fn wait_for_state_step(
    current: ServiceStateKind,
    target: ServiceStateKind,
    elapsed_secs: u64,
    timeout_secs: u64,
) -> (r: WaitOutcome)
    ensures
        r == spec_wait_step(current, target, elapsed_secs, timeout_secs),
{
    if current == target {
        WaitOutcome::Reached
    } else if elapsed_secs > timeout_secs {
        WaitOutcome::TimedOut
    } else {
        WaitOutcome::Poll
    }
}

/// The status the Service Control Manager reports for one service, read-only.
pub struct ServiceStatus {
    pub current_state: ServiceStateKind,
    pub exit_code: u32,
    pub process_id: Option<u32>,
}

pub open spec fn spec_pid_cell(pid: Option<u32>) -> Seq<char> {
    match pid {
        Some(p) => crate::digits::spec_decimal(p as nat),
        None => "Not running"@,
    }
}

pub open spec fn spec_exit_code_cell(state: ServiceStateKind, exit_code: u32) -> Seq<char> {
    if state == ServiceStateKind::Stopped {
        crate::digits::spec_decimal(exit_code as nat)
    } else {
        "N/A"@
    }
}

/// The rows of the `status` verb's table, in print order; `command_line` is
/// the wrapped command parsed out of the stored registration.
pub open spec fn spec_status_rows(
    name: Seq<char>,
    status: ServiceStatus,
    command_line: Option<Seq<char>>,
) -> Seq<(Seq<char>, Seq<char>)> {
    let head = seq![
        ("Service Name"@, name),
        ("Status"@, spec_status_label(status.current_state)),
        ("PID"@, spec_pid_cell(status.process_id)),
    ];
    let with_cmd = match command_line {
        Some(c) => head.push(("Command"@, c)),
        None => head,
    };
    with_cmd.push(("Exit Code"@, spec_exit_code_cell(status.current_state, status.exit_code)))
}

pub fn status_rows(name: &str, status: &ServiceStatus, command_line: &Option<String>) -> (r: Vec<
    (String, String),
>)
    ensures
        r.deep_view() == spec_status_rows(
            name@,
            *status,
            match command_line {
                Some(c) => Some(c@),
                None => None,
            },
        ),
{
    let mut r: Vec<(String, String)> = Vec::new();
    r.push(("Service Name".to_owned(), name.to_owned()));
    r.push(("Status".to_owned(), status_label(status.current_state)));
    let pid_cell = match status.process_id {
        Some(p) => crate::digits::u64_to_string(p as u64),
        None => "Not running".to_owned(),
    };
    r.push(("PID".to_owned(), pid_cell));
    match command_line {
        Some(c) => {
            r.push(("Command".to_owned(), c.clone()));
        },
        None => {},
    }
    let exit_cell = if matches!(status.current_state, ServiceStateKind::Stopped) {
        crate::digits::u64_to_string(status.exit_code as u64)
    } else {
        "N/A".to_owned()
    };
    r.push(("Exit Code".to_owned(), exit_cell));
    proof {
        assert(r.deep_view() =~= spec_status_rows(
            name@,
            *status,
            match command_line {
                Some(c) => Some(c@),
                None => None,
            },
        ));
    }
    r
}

} // verus!
