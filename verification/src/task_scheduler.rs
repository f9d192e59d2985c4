//! Windows Task Scheduler integration: which registered task belongs to the
//! launcher, what to create, delete and report, and how to read what
//! `schtasks` and the health query answered.
//!
//! Running `schtasks`, querying PowerShell and storing the registry file
//! happen around these functions, which take what was observed.

use crate::config::{task_name_check, validate_task_name};
use crate::schedule::{compile_spec, ScheduleConfig, ScheduleSpec};
use crate::text::{
    ascii_lower, chars_eq, chars_eq_str, contains_chars, contains_seq, decimal, opt_view, owned,
    push_chars, push_decimal, push_hex_upper, push_signed_decimal, push_str, replace_char,
    replace_char_vec, signed_decimal, str_chars, string_from_chars, to_ascii_lower, to_lowercase,
    trim, trim_chars, trim_end_char, trim_end_char_vec, trim_start_char, trim_start_char_vec,
    trim_str, unicode_lowercase, hex_upper, str_eq, contains_char, join, join_chars,
};
use crate::windows_text::{decode_output_text_in, decoded_output, text_opt};
use vstd::prelude::*;

verus! {

/// State of a scheduled task as Windows reports it.
#[derive(Debug, Clone, Copy, PartialEq, Eq, Structural)]
pub enum ScheduledTaskState {
    Ready,
    Running,
    Disabled,
    Queued,
    Unknown,
}

/// What the health query found for a task name.
#[derive(Debug)]
pub struct TaskProbe {
    pub installed: bool,
    pub state: Option<String>,
    pub enabled: bool,
    pub next_run_time: Option<String>,
    pub last_run_time: Option<String>,
    pub last_result: Option<i64>,
    pub missed_runs: u32,
    pub action_path: Option<String>,
    pub action_arguments: Option<String>,
}

impl TaskProbe {
    /// A probe of a task that is not installed (std's `Default`).
    pub fn default() -> (p: TaskProbe)
        ensures
            !p.installed,
            p.state is None,
            !p.enabled,
            p.next_run_time is None,
            p.last_run_time is None,
            p.last_result is None,
            p.missed_runs == 0,
            p.action_path is None,
            p.action_arguments is None,
    {
        TaskProbe {
            installed: false,
            state: None,
            enabled: false,
            next_run_time: None,
            last_run_time: None,
            last_result: None,
            missed_runs: 0,
            action_path: None,
            action_arguments: None,
        }
    }
}

/// What one `schtasks` invocation produced. `stdout_code_page` and
/// `stderr_code_page` are the platform's decoding of each stream in the
/// console's code page, where it has one; they are read only when the
/// stream is not valid UTF-8.
#[derive(Debug)]
pub struct SchedulerOutput {
    pub success: bool,
    pub exit_code: Option<i32>,
    pub stdout: Vec<u8>,
    pub stderr: Vec<u8>,
    pub stdout_code_page: Option<String>,
    pub stderr_code_page: Option<String>,
}

/// Standard output of a `schtasks` run as text.
pub open spec fn stdout_text(o: SchedulerOutput) -> Seq<char> {
    decoded_output(o.stdout@, text_opt(o.stdout_code_page))
}

/// Standard error of a `schtasks` run as text.
pub open spec fn stderr_text(o: SchedulerOutput) -> Seq<char> {
    decoded_output(o.stderr@, text_opt(o.stderr_code_page))
}

/// A path compared the way Windows compares executable paths: trimmed,
/// unquoted, with `/` as `\`, without trailing `\`, lower-cased.
pub open spec fn normalized_path(v: Seq<char>) -> Seq<char> {
    unicode_lowercase(
        trim_end_char(
            replace_char(trim_end_char(trim_start_char(trim(v), '"'), '"'), '/', '\\'),
            '\\',
        ),
    )
}

/// Normalizes a Windows path for comparison.
pub fn normalize_windows_path(value: &str) -> (r: String)
    ensures
        r@ == normalized_path(value@),
{
    let t = trim_str(value);
    let a = trim_start_char_vec(&t, '"');
    let b = trim_end_char_vec(&a, '"');
    let c = replace_char_vec(&b, '/', '\\');
    let d = trim_end_char_vec(&c, '\\');
    let s = string_from_chars(&d);
    to_lowercase(s.as_str())
}

/// Whether two Windows paths name the same file, ignoring case, quotes and
/// separator style.
pub fn windows_paths_equal(left: &str, right: &str) -> (r: bool)
    ensures
        r == (normalized_path(left@) == normalized_path(right@)),
{
    let l = normalize_windows_path(left);
    let r = normalize_windows_path(right);
    let lv = str_chars(l.as_str());
    let rv = str_chars(r.as_str());
    chars_eq(&lv, &rv)
}

/// The action arguments as the launcher reads them: trimmed, empty when
/// absent.
pub open spec fn probe_arguments(args: Option<Seq<char>>) -> Seq<char> {
    match args {
        Some(a) => trim(a),
        None => Seq::empty(),
    }
}

/// Whether a probed task runs this launcher: installed, its action's path
/// is `executable_path`, and its arguments are `--scheduled` (or the older
/// `--headless`).
pub open spec fn probe_matches_app_spec(
    installed: bool,
    action_path: Option<Seq<char>>,
    action_arguments: Option<Seq<char>>,
    executable_path: Seq<char>,
) -> bool {
    &&& installed
    &&& action_path is Some
    &&& normalized_path(action_path->0) == normalized_path(executable_path)
    &&& (probe_arguments(action_arguments) == "--scheduled"@ || probe_arguments(action_arguments)
        == "--headless"@)
}

/// Decides [`probe_matches_app_spec`] for a probe.
pub fn probe_matches_app(probe: &TaskProbe, executable_path: &str) -> (r: bool)
    ensures
        r == probe_matches_app_spec(
            probe.installed,
            opt_view(probe.action_path),
            opt_view(probe.action_arguments),
            executable_path@,
        ),
{
    if !probe.installed {
        return false;
    }
    let action_path = match &probe.action_path {
        Some(p) => p,
        None => return false,
    };
    let args = match &probe.action_arguments {
        Some(a) => trim_str(a.as_str()),
        None => Vec::new(),
    };
    proof {
        if probe.action_arguments is None {
            assert(args@ =~= Seq::<char>::empty());
        }
    }
    windows_paths_equal(action_path.as_str(), executable_path) && (chars_eq_str(
        &args,
        "--scheduled",
    ) || chars_eq_str(&args, "--headless"))
}

/// Whether the task still uses the older `--headless` argument.
pub fn probe_uses_legacy_headless(probe: &TaskProbe) -> (r: bool)
    ensures
        r == (probe.action_arguments is Some && trim(probe.action_arguments->0@)
            == "--headless"@),
{
    match &probe.action_arguments {
        Some(a) => {
            let t = trim_str(a.as_str());
            chars_eq_str(&t, "--headless")
        },
        None => false,
    }
}

/// The task state named by the health query, case-insensitively.
pub open spec fn task_state_spec(value: Seq<char>) -> ScheduledTaskState {
    let l = value.map_values(|c: char| ascii_lower(c));
    if l == "ready"@ {
        ScheduledTaskState::Ready
    } else if l == "running"@ {
        ScheduledTaskState::Running
    } else if l == "disabled"@ {
        ScheduledTaskState::Disabled
    } else if l == "queued"@ {
        ScheduledTaskState::Queued
    } else {
        ScheduledTaskState::Unknown
    }
}

/// Reads the task state reported by the health query.
pub fn parse_task_state(value: &str) -> (r: ScheduledTaskState)
    ensures
        r == task_state_spec(value@),
{
    let v = str_chars(value);
    let l = to_ascii_lower(&v);
    if chars_eq_str(&l, "ready") {
        ScheduledTaskState::Ready
    } else if chars_eq_str(&l, "running") {
        ScheduledTaskState::Running
    } else if chars_eq_str(&l, "disabled") {
        ScheduledTaskState::Disabled
    } else if chars_eq_str(&l, "queued") {
        ScheduledTaskState::Queued
    } else {
        ScheduledTaskState::Unknown
    }
}

/// A task result code in hexadecimal, its bits read as unsigned, as
/// `0x{:X}`.
pub open spec fn result_hex(value: i64) -> Seq<char> {
    "0x"@ + hex_upper((value as u64) as nat)
}

/// Formats a task result code in hexadecimal.
pub fn format_result_hex(value: i64) -> (r: String)
    ensures
        r@ == result_hex(value),
{
    let mut v: Vec<char> = Vec::new();
    push_str(&mut v, "0x");
    push_hex_upper(&mut v, value as u64);
    string_from_chars(&v)
}

/// A readable label for a task result code.
pub open spec fn result_label(value: i64) -> Seq<char> {
    if value == 0 {
        "成功"@
    } else if value == 1 {
        "应用返回失败"@
    } else if value == 2 {
        "应用收到停止请求"@
    } else if value == 0x41300 {
        "Ready"@
    } else if value == 0x41301 {
        "Running"@
    } else if value == 0x41302 {
        "Disabled"@
    } else if value == 0x41303 {
        "尚未运行"@
    } else {
        "未知结果 "@ + result_hex(value)
    }
}

/// Labels a task result code.
pub fn result_code_label(value: i64) -> (r: String)
    ensures
        r@ == result_label(value),
{
    if value == 0 {
        owned("成功")
    } else if value == 1 {
        owned("应用返回失败")
    } else if value == 2 {
        owned("应用收到停止请求")
    } else if value == 0x41300 {
        owned("Ready")
    } else if value == 0x41301 {
        owned("Running")
    } else if value == 0x41302 {
        owned("Disabled")
    } else if value == 0x41303 {
        owned("尚未运行")
    } else {
        let mut v: Vec<char> = Vec::new();
        push_str(&mut v, "未知结果 ");
        let hex = format_result_hex(value);
        push_str(&mut v, hex.as_str());
        string_from_chars(&v)
    }
}

/// Phrases with which `schtasks` says that a task does not exist, lower
/// case, in English and Chinese.
pub open spec fn not_found_markers() -> Seq<Seq<char>> {
    seq![
        "cannot find the file specified"@,
        "cannot find the specified file"@,
        "the system cannot find"@,
        "系统找不到指定的文件"@,
        "找不到指定的文件"@,
        "找不到该任务"@,
    ]
}

/// Both output streams of a `schtasks` run as text, joined by a newline.
pub open spec fn combined_output(o: SchedulerOutput) -> Seq<char> {
    stdout_text(o) + seq!['\n'] + stderr_text(o)
}

/// Whether a failed `schtasks` run says that the task does not exist: exit
/// code 1 and one of the known phrases in its lower-cased output. Other
/// failures, such as a denied access, do not count.
pub open spec fn task_not_found_spec(o: SchedulerOutput) -> bool {
    &&& o.exit_code == Some(1i32)
    &&& exists|i: int|
        0 <= i < not_found_markers().len() && contains_seq(
            unicode_lowercase(combined_output(o)),
            #[trigger] not_found_markers()[i],
        )
}

/// Decides [`task_not_found_spec`] for an output.
pub fn task_not_found(output: &SchedulerOutput) -> (r: bool)
    ensures
        r == task_not_found_spec(*output),
{
    match output.exit_code {
        Some(code) => {
            if code != 1 {
                return false;
            }
        },
        None => return false,
    }
    let out = decode_output_text_in(output.stdout.as_slice(), &output.stdout_code_page);
    let err = decode_output_text_in(output.stderr.as_slice(), &output.stderr_code_page);
    let mut combined: Vec<char> = Vec::new();
    push_str(&mut combined, out.as_str());
    combined.push('\n');
    push_str(&mut combined, err.as_str());
    assert(combined@ =~= combined_output(*output));
    let joined = string_from_chars(&combined);
    let lower_s = to_lowercase(joined.as_str());
    let lower = str_chars(lower_s.as_str());
    let markers: [&str; 6] = [
        "cannot find the file specified",
        "cannot find the specified file",
        "the system cannot find",
        "系统找不到指定的文件",
        "找不到指定的文件",
        "找不到该任务",
    ];
    let ghost ms = not_found_markers();
    let mut i: usize = 0;
    while i < 6
        invariant
            i <= 6,
            lower@ == unicode_lowercase(combined_output(*output)),
            forall|k: int| 0 <= k < 6 ==> (#[trigger] markers@[k])@ == ms[k],
            ms == not_found_markers(),
            output.exit_code == Some(1i32),
            forall|k: int| 0 <= k < i ==> !contains_seq(lower@, #[trigger] ms[k]),
        decreases 6 - i,
    {
        let m = str_chars(markers[i]);
        if contains_chars(&lower, &m) {
            assert(contains_seq(
                unicode_lowercase(combined_output(*output)),
                not_found_markers()[i as int],
            ));
            return true;
        }
        i = i + 1;
    }
    false
}


/// The exit code as the failure message shows it.
pub open spec fn exit_code_text(code: Option<i32>) -> Seq<char> {
    match code {
        Some(c) => signed_decimal(c as int),
        None => "unknown"@,
    }
}

/// Message for a failed `schtasks` run: the action, the exit code and
/// both trimmed output streams.
pub open spec fn command_failure_spec(action: Seq<char>, o: SchedulerOutput) -> Seq<char> {
    action + "失败 (exit code: "@ + exit_code_text(o.exit_code) + "): stdout=["@ + trim(
        stdout_text(o),
    ) + "] stderr=["@ + trim(stderr_text(o)) + "]"@
}

/// Describes a failed `schtasks` run.
pub fn command_failure(action: &str, output: &SchedulerOutput) -> (r: String)
    ensures
        r@ == command_failure_spec(action@, *output),
{
    let out = decode_output_text_in(output.stdout.as_slice(), &output.stdout_code_page);
    let err = decode_output_text_in(output.stderr.as_slice(), &output.stderr_code_page);
    let out_t = trim_str(out.as_str());
    let err_t = trim_str(err.as_str());
    let mut m: Vec<char> = Vec::new();
    push_str(&mut m, action);
    push_str(&mut m, "失败 (exit code: ");
    match output.exit_code {
        Some(c) => push_signed_decimal(&mut m, c as i64),
        None => push_str(&mut m, "unknown"),
    }
    push_str(&mut m, "): stdout=[");
    push_chars(&mut m, &out_t);
    push_str(&mut m, "] stderr=[");
    push_chars(&mut m, &err_t);
    push_str(&mut m, "]");
    assert(m@ =~= command_failure_spec(action@, *output));
    string_from_chars(&m)
}

/// Why an executable path is refused for a task action, else the trimmed
/// path.
pub open spec fn executable_path_check(exe: Seq<char>) -> Result<Seq<char>, Seq<char>> {
    let t = trim(exe);
    if t.len() == 0 {
        Err("计划任务 executable path 不能为空"@)
    } else if t.contains('"') {
        Err("计划任务 executable path 不能包含双引号"@)
    } else {
        Ok(t)
    }
}

/// View of a string result.
pub open spec fn string_result_view(r: Result<String, String>) -> Result<Seq<char>, Seq<char>> {
    match r {
        Ok(s) => Ok(s@),
        Err(e) => Err(e@),
    }
}

/// Checks the path of the launcher executable for use in a task action.
pub fn validate_executable_path(exe_path: &str) -> (r: Result<String, String>)
    ensures
        string_result_view(r) == executable_path_check(exe_path@),
{
    let t = trim_str(exe_path);
    if t.len() == 0 {
        return Err(owned("计划任务 executable path 不能为空"));
    }
    if contains_char(&t, '"') {
        return Err(owned("计划任务 executable path 不能包含双引号"));
    }
    Ok(string_from_chars(&t))
}

/// Version of the registry of tasks that the launcher created.
pub const SCHEDULER_STATE_VERSION: u32 = 1;

/// A task the launcher created, as remembered in its registry.
#[derive(Debug)]
pub struct ManagedTaskRegistration {
    pub task_name: String,
    pub executable_path: String,
    pub applied_schedule: ScheduleConfig,
    pub registered_at: String,
}

/// The registry of tasks the launcher created.
#[derive(Debug)]
pub struct SchedulerState {
    pub version: u32,
    pub registrations: Vec<ManagedTaskRegistration>,
}

impl SchedulerState {
    /// An empty registry of the current version (std's `Default`).
    pub fn default() -> (s: SchedulerState)
        ensures
            s.version == SCHEDULER_STATE_VERSION,
            s.registrations@.len() == 0,
    {
        SchedulerState { version: SCHEDULER_STATE_VERSION, registrations: Vec::new() }
    }
}

/// Names of the registered tasks, in registry order.
pub open spec fn registered_names(regs: Seq<ManagedTaskRegistration>) -> Seq<Seq<char>> {
    regs.map_values(|r: ManagedTaskRegistration| r.task_name@)
}

/// Checks the version of a loaded registry; `path` names its file.
pub fn check_state_version(version: u32, path: &str) -> (r: Result<(), String>)
    ensures
        r is Ok <==> version == SCHEDULER_STATE_VERSION,
        r matches Err(e) ==> e@ == "不支持的 scheduler state 版本 "@ + decimal(version as nat) + " ["@
            + path@ + "]"@,
{
    if version == SCHEDULER_STATE_VERSION {
        return Ok(());
    }
    let mut m: Vec<char> = Vec::new();
    push_str(&mut m, "不支持的 scheduler state 版本 ");
    push_decimal(&mut m, version as u64);
    push_str(&mut m, " [");
    push_str(&mut m, path);
    push_str(&mut m, "]");
    Err(string_from_chars(&m))
}

/// Finds the first registration of `name`.
pub fn find_registration(state: &SchedulerState, name: &str) -> (r: Option<usize>)
    ensures
        match r {
            Some(i) => i < state.registrations.len() && state.registrations@[i as int].task_name@ == name@
                && forall|j: int| 0 <= j < i ==> (#[trigger] state.registrations@[j]).task_name@ != name@,
            None => forall|j: int| 0 <= j < state.registrations.len() ==> (#[trigger] state.registrations@[j]).task_name@ != name@,
        },
{
    let mut i: usize = 0;
    while i < state.registrations.len()
        invariant
            i <= state.registrations.len(),
            forall|j: int| 0 <= j < i ==> (#[trigger] state.registrations@[j]).task_name@ != name@,
        decreases state.registrations.len() - i,
    {
        if str_eq(state.registrations[i].task_name.as_str(), name) {
            return Some(i);
        }
        i = i + 1;
    }
    None
}

/// The registrations that do not belong to `name`, in order.
pub open spec fn without_name(regs: Seq<ManagedTaskRegistration>, name: Seq<char>) -> Seq<ManagedTaskRegistration> {
    regs.filter(|r: ManagedTaskRegistration| r.task_name@ != name)
}

/// Forgets every registration of `task_name`.
pub fn remove_registration(state: &mut SchedulerState, task_name: &str)
    ensures
        final(state).version == old(state).version,
        final(state).registrations@ == without_name(old(state).registrations@, task_name@),
{
    let mut kept: Vec<ManagedTaskRegistration> = Vec::new();
    let ghost regs = state.registrations@;
    let mut old_regs: Vec<ManagedTaskRegistration> = Vec::new();
    std::mem::swap(&mut old_regs, &mut state.registrations);
    assert(old_regs@ == regs);
    let mut i: usize = 0;
    let n = old_regs.len();
    let mut rest = old_regs;
    assert(regs.skip(0) =~= regs);
    while rest.len() > 0
        invariant
            rest.len() <= n == regs.len(),
            i == n - rest.len(),
            rest@ == regs.skip(i as int),
            kept@ == without_name(regs.take(i as int), task_name@),
        decreases rest.len(),
    {
        let r = rest.remove(0);
        assert(regs.take(i + 1).drop_last() =~= regs.take(i as int));
        assert(r == regs[i as int]);
        if !str_eq(r.task_name.as_str(), task_name) {
            kept.push(r);
        }
        proof {
            reveal(Seq::filter);
        }
        i = i + 1;
        assert(rest@ =~= regs.skip(i as int));
    }
    assert(regs.take(n as int) =~= regs);
    state.registrations = kept;
}


/// Whether a probed task belongs to the launcher: by the executable it was
/// registered with when the registry knows it, else by the current
/// executable.
pub open spec fn owned_by_launcher(p: TaskProbe, registered_exe: Option<Seq<char>>, exe: Seq<char>) -> bool {
    let path = match registered_exe {
        Some(r) => r,
        None => exe,
    };
    probe_matches_app_spec(p.installed, opt_view(p.action_path), opt_view(p.action_arguments), path)
}

/// The executable a registration was made with, if there is one.
pub open spec fn registered_exe(r: Option<&ManagedTaskRegistration>) -> Option<Seq<char>> {
    match r {
        Some(reg) => Some(reg.executable_path@),
        None => None,
    }
}

fn matches_owner(probe: &TaskProbe, registration: Option<&ManagedTaskRegistration>, exe: &str) -> (r: bool)
    ensures
        r == owned_by_launcher(*probe, registered_exe(registration), exe@),
{
    match registration {
        Some(reg) => probe_matches_app(probe, reg.executable_path.as_str()),
        None => probe_matches_app(probe, exe),
    }
}

/// `name` in the brackets the messages use.
pub open spec fn bracketed(prefix: Seq<char>, name: Seq<char>, suffix: Seq<char>) -> Seq<char> {
    prefix + "["@ + name + "]"@ + suffix
}

fn bracketed_message(prefix: &str, name: &str, suffix: &str) -> (r: String)
    ensures
        r@ == bracketed(prefix@, name@, suffix@),
{
    let mut m: Vec<char> = Vec::new();
    push_str(&mut m, prefix);
    push_str(&mut m, "[");
    push_str(&mut m, name);
    push_str(&mut m, "]");
    push_str(&mut m, suffix);
    string_from_chars(&m)
}

/// Decides whether an install may proceed over what the query found under
/// the task's name. A task that exists and does not belong to the launcher
/// is never overwritten. On success, tells whether an older task of the
/// launcher is being taken over without a registration.
pub fn install_ownership(
    task_name: &str,
    exe_path: &str,
    registration: Option<&ManagedTaskRegistration>,
    existing: &TaskProbe,
) -> (r: Result<bool, String>)
    ensures
        r is Err <==> existing.installed && !owned_by_launcher(*existing, registered_exe(registration), exe_path@),
        r matches Err(e) ==> e@ == bracketed("计划任务 "@, task_name@, " 已存在但不属于 Codex Launcher，拒绝覆盖"@),
        r matches Ok(adopted) ==> adopted == (existing.installed && registration is None
            && owned_by_launcher(*existing, None, exe_path@)),
{
    let owned = matches_owner(existing, registration, exe_path);
    if existing.installed && !owned {
        return Err(bracketed_message("计划任务 ", task_name, " 已存在但不属于 Codex Launcher，拒绝覆盖"));
    }
    Ok(existing.installed && registration.is_none() && owned)
}

/// The `schtasks` arguments that create (or replace) the task: its name,
/// the action running the launcher with `--scheduled`, the trigger
/// arguments, and `/F`.
pub open spec fn create_args_spec(task_name: Seq<char>, exe: Seq<char>, trigger: Seq<Seq<char>>) -> Seq<Seq<char>> {
    seq!["/Create"@, "/TN"@, task_name, "/TR"@, "\""@ + exe + "\" --scheduled"@] + trigger + seq![
        "/F"@,
    ]
}

/// Builds the `schtasks` arguments that create the task.
pub fn create_task_args(task_name: &str, exe_path: &str, trigger_args: &Vec<String>) -> (r: Vec<String>)
    ensures
        r.deep_view() == create_args_spec(task_name@, exe_path@, trigger_args.deep_view()),
{
    let mut r: Vec<String> = Vec::new();
    r.push(owned("/Create"));
    r.push(owned("/TN"));
    r.push(owned(task_name));
    r.push(owned("/TR"));
    let mut action: Vec<char> = Vec::new();
    push_str(&mut action, "\"");
    push_str(&mut action, exe_path);
    push_str(&mut action, "\" --scheduled");
    r.push(string_from_chars(&action));
    let ghost head = r.deep_view();
    assert(head =~= seq!["/Create"@, "/TN"@, task_name@, "/TR"@, "\""@ + exe_path@ + "\" --scheduled"@]);
    let mut i: usize = 0;
    while i < trigger_args.len()
        invariant
            i <= trigger_args.len(),
            r.deep_view() == head + trigger_args.deep_view().take(i as int),
        decreases trigger_args.len() - i,
    {
        let ghost before = r.deep_view();
        assert(trigger_args.deep_view()[i as int] == trigger_args@[i as int]@);
        r.push(owned(trigger_args[i].as_str()));
        assert(r.deep_view() =~= before.push(trigger_args@[i as int]@));
        i = i + 1;
        assert(r.deep_view() =~= head + trigger_args.deep_view().take(i as int));
    }
    let ghost before_f = r.deep_view();
    r.push(owned("/F"));
    assert(r.deep_view() =~= before_f.push("/F"@));
    assert(trigger_args.deep_view().take(trigger_args.len() as int) =~= trigger_args.deep_view());
    assert(r.deep_view() =~= create_args_spec(task_name@, exe_path@, trigger_args.deep_view()));
    r
}

/// Reads the result of the create command.
pub fn create_result(output: &SchedulerOutput) -> (r: Result<(), String>)
    ensures
        r is Ok <==> output.success,
        r matches Err(e) ==> e@ == command_failure_spec("创建或更新计划任务"@, *output),
{
    if output.success {
        Ok(())
    } else {
        Err(command_failure("创建或更新计划任务", output))
    }
}

/// Checks the task as queried after creating it: it must now run the
/// launcher.
pub fn verify_created(task_name: &str, verified: &TaskProbe, exe_path: &str) -> (r: Result<(), String>)
    ensures
        r is Ok <==> verified.installed && owned_by_launcher(*verified, None, exe_path@),
        r matches Err(e) ==> e@ == bracketed("计划任务 "@, task_name@, " 创建后验证失败：Action 未指向当前 Codex Launcher --scheduled"@),
{
    if !verified.installed || !probe_matches_app(verified, exe_path) {
        return Err(bracketed_message("计划任务 ", task_name, " 创建后验证失败：Action 未指向当前 Codex Launcher --scheduled"));
    }
    Ok(())
}

/// Records a created task, replacing any earlier registration of its name.
pub fn register_task(
    state: &mut SchedulerState,
    task_name: &str,
    exe_path: &str,
    schedule: &ScheduleConfig,
    registered_at: String,
)
    ensures
        final(state).version == old(state).version,
        final(state).registrations@.len() == without_name(old(state).registrations@, task_name@).len() + 1,
        final(state).registrations@.drop_last() == without_name(old(state).registrations@, task_name@),
        final(state).registrations@.last().task_name@ == task_name@,
        final(state).registrations@.last().executable_path@ == exe_path@,
        final(state).registrations@.last().applied_schedule@ == schedule@,
        final(state).registrations@.last().registered_at == registered_at,
{
    remove_registration(state, task_name);
    let ghost kept = state.registrations@;
    state.registrations.push(ManagedTaskRegistration {
        task_name: owned(task_name),
        executable_path: owned(exe_path),
        applied_schedule: schedule.duplicate(),
        registered_at,
    });
    assert(state.registrations@.drop_last() =~= kept);
}

/// Names of registrations other than `name`, in registry order.
pub open spec fn other_names(regs: Seq<ManagedTaskRegistration>, name: Seq<char>) -> Seq<Seq<char>> {
    registered_names(without_name(regs, name))
}

/// Lists the registered tasks other than `task_name`.
pub fn stale_task_names(state: &SchedulerState, task_name: &str) -> (r: Vec<String>)
    ensures
        r.deep_view() == other_names(state.registrations@, task_name@),
{
    let ghost regs = state.registrations@;
    let mut r: Vec<String> = Vec::new();
    let mut i: usize = 0;
    while i < state.registrations.len()
        invariant
            i <= state.registrations.len(),
            regs == state.registrations@,
            r.deep_view() == other_names(regs.take(i as int), task_name@),
        decreases state.registrations.len() - i,
    {
        let ghost before = r.deep_view();
        assert(regs.take(i + 1).drop_last() =~= regs.take(i as int));
        proof {
            reveal(Seq::filter);
        }
        if !str_eq(state.registrations[i].task_name.as_str(), task_name) {
            r.push(owned(state.registrations[i].task_name.as_str()));
            assert(r.deep_view() =~= before.push(regs[i as int].task_name@));
            assert(without_name(regs.take(i + 1), task_name@) == without_name(regs.take(i as int), task_name@).push(regs[i as int]));
        } else {
            assert(without_name(regs.take(i + 1), task_name@) == without_name(regs.take(i as int), task_name@));
        }
        assert(r.deep_view() =~= other_names(regs.take(i + 1), task_name@));
        i = i + 1;
    }
    assert(regs.take(state.registrations.len() as int) =~= regs);
    r
}

/// How removing a launcher task ended.
#[derive(Debug, Clone, Copy, PartialEq, Eq, Structural)]
pub enum ManagedCleanupOutcome {
    Removed,
    NotFound,
    NotOwned,
}

/// The notice an install adds about cleaning up an older task, if any.
pub open spec fn cleanup_notice_spec(old_name: Seq<char>, result: Result<ManagedCleanupOutcome, Seq<char>>) -> Option<Seq<char>> {
    match result {
        Ok(ManagedCleanupOutcome::NotOwned) => Some(bracketed("旧任务 "@, old_name, " ownership 已变化，未自动删除"@)),
        Ok(_) => None,
        Err(e) => Some(bracketed("旧任务 "@, old_name, " 清理失败: "@ + e)),
    }
}

/// View of a cleanup result.
pub open spec fn cleanup_result_view(r: Result<ManagedCleanupOutcome, String>) -> Result<ManagedCleanupOutcome, Seq<char>> {
    match r {
        Ok(o) => Ok(o),
        Err(e) => Err(e@),
    }
}

/// Describes what cleaning up an older task gave, when it needs telling.
pub fn cleanup_notice(old_name: &str, result: &Result<ManagedCleanupOutcome, String>) -> (r: Option<String>)
    ensures
        opt_view(r) == cleanup_notice_spec(old_name@, cleanup_result_view(*result)),
{
    match result {
        Ok(ManagedCleanupOutcome::NotOwned) => Some(bracketed_message("旧任务 ", old_name, " ownership 已变化，未自动删除")),
        Ok(_) => None,
        Err(e) => {
            let mut suffix: Vec<char> = Vec::new();
            push_str(&mut suffix, " 清理失败: ");
            push_str(&mut suffix, e.as_str());
            let sfx = string_from_chars(&suffix);
            Some(bracketed_message("旧任务 ", old_name, sfx.as_str()))
        },
    }
}

/// Notice when an older `--headless` task was taken over.
pub open spec fn legacy_notice() -> Seq<char> {
    "已接管 legacy --headless 任务并升级为 --scheduled"@
}

/// The notice of an install that took over the launcher's own task from
/// before it was recorded: only when that task still ran `--headless`.
pub fn legacy_takeover_notice(adopted: bool, existing: &TaskProbe) -> (r: Option<String>)
    ensures
        r is Some <==> adopted && existing.action_arguments is Some && trim(
            existing.action_arguments->0@,
        ) == "--headless"@,
        r matches Some(n) ==> n@ == legacy_notice(),
{
    if adopted && probe_uses_legacy_headless(existing) {
        Some(owned("已接管 legacy --headless 任务并升级为 --scheduled"))
    } else {
        None
    }
}

/// The message of a finished install.
pub open spec fn install_message_spec(task_name: Seq<char>, summary: Seq<char>, notices: Seq<Seq<char>>) -> Seq<char> {
    let base = bracketed("计划任务 "@, task_name, " 已成功创建或更新（"@ + summary + "）"@);
    if notices.len() == 0 {
        base
    } else {
        base + "；"@ + join(notices, "；"@)
    }
}

/// Builds the message of a finished install.
pub fn install_message(task_name: &str, summary: &str, notices: &Vec<String>) -> (r: String)
    ensures
        r@ == install_message_spec(task_name@, summary@, notices.deep_view()),
{
    let mut suffix: Vec<char> = Vec::new();
    push_str(&mut suffix, " 已成功创建或更新（");
    push_str(&mut suffix, summary);
    push_str(&mut suffix, "）");
    let sfx = string_from_chars(&suffix);
    let base = bracketed_message("计划任务 ", task_name, sfx.as_str());
    if notices.len() == 0 {
        return base;
    }
    let mut parts: Vec<Vec<char>> = Vec::new();
    let mut i: usize = 0;
    while i < notices.len()
        invariant
            i <= notices.len(),
            parts.deep_view() == notices.deep_view().take(i as int),
        decreases notices.len() - i,
    {
        let ghost before = parts.deep_view();
        assert(notices.deep_view()[i as int] == notices@[i as int]@);
        let c = str_chars(notices[i].as_str());
        assert(c.deep_view() =~= c@);
        parts.push(c);
        assert(parts.deep_view() =~~= before.push(notices@[i as int]@));
        i = i + 1;
        assert(parts.deep_view() =~= notices.deep_view().take(i as int));
    }
    assert(notices.deep_view().take(notices.len() as int) =~= notices.deep_view());
    let joined = join_chars(&parts, "；");
    let mut m = str_chars(base.as_str());
    push_str(&mut m, "；");
    push_chars(&mut m, &joined);
    string_from_chars(&m)
}


/// What to do with a task the launcher is asked to remove.
#[derive(Debug, Clone, Copy, PartialEq, Eq, Structural)]
pub enum CleanupDecision {
    /// Nothing is installed under the name: forget it.
    NotFound,
    /// Something else owns the name: leave it alone.
    NotOwned,
    /// The launcher owns it: run the delete command.
    Delete,
}

/// Decides how to remove a task from what the query found.
pub fn cleanup_decision(
    probe: &TaskProbe,
    registration: Option<&ManagedTaskRegistration>,
    current_exe_path: &str,
) -> (r: CleanupDecision)
    ensures
        r == if !probe.installed {
            CleanupDecision::NotFound
        } else if owned_by_launcher(*probe, registered_exe(registration), current_exe_path@) {
            CleanupDecision::Delete
        } else {
            CleanupDecision::NotOwned
        },
{
    if !probe.installed {
        return CleanupDecision::NotFound;
    }
    if matches_owner(probe, registration, current_exe_path) {
        CleanupDecision::Delete
    } else {
        CleanupDecision::NotOwned
    }
}

/// The `schtasks` arguments that delete a task.
pub fn delete_task_args(task_name: &str) -> (r: Vec<String>)
    ensures
        r.deep_view() == seq!["/Delete"@, "/TN"@, task_name@, "/F"@],
{
    let mut r: Vec<String> = Vec::new();
    r.push(owned("/Delete"));
    r.push(owned("/TN"));
    r.push(owned(task_name));
    r.push(owned("/F"));
    assert(r.deep_view() =~= seq!["/Delete"@, "/TN"@, task_name@, "/F"@]);
    r
}

/// Reads the result of the delete command: done, already gone, or failed.
pub fn delete_outcome(output: &SchedulerOutput) -> (r: Result<ManagedCleanupOutcome, String>)
    ensures
        output.success ==> r == Ok::<ManagedCleanupOutcome, String>(ManagedCleanupOutcome::Removed),
        !output.success && task_not_found_spec(*output)
            ==> r == Ok::<ManagedCleanupOutcome, String>(ManagedCleanupOutcome::NotFound),
        !output.success && !task_not_found_spec(*output)
            ==> (r matches Err(e) && e@ == command_failure_spec("删除计划任务"@, *output)),
{
    if output.success {
        Ok(ManagedCleanupOutcome::Removed)
    } else if task_not_found(output) {
        Ok(ManagedCleanupOutcome::NotFound)
    } else {
        Err(command_failure("删除计划任务", output))
    }
}

/// The answer to an uninstall request, by how the removal ended.
pub fn uninstall_message(task_name: &str, outcome: ManagedCleanupOutcome) -> (r: Result<String, String>)
    ensures
        string_result_view(r) == match outcome {
            ManagedCleanupOutcome::Removed => Ok(bracketed("计划任务 "@, trim(task_name@), " 已成功删除"@)),
            ManagedCleanupOutcome::NotFound => Ok(bracketed("计划任务 "@, trim(task_name@), " 不存在，无需删除"@)),
            ManagedCleanupOutcome::NotOwned => Err(bracketed("计划任务 "@, trim(task_name@), " 不属于 Codex Launcher，拒绝删除"@)),
        },
{
    let t = trim_str(task_name);
    let name = string_from_chars(&t);
    match outcome {
        ManagedCleanupOutcome::Removed => Ok(bracketed_message("计划任务 ", name.as_str(), " 已成功删除")),
        ManagedCleanupOutcome::NotFound => Ok(bracketed_message("计划任务 ", name.as_str(), " 不存在，无需删除")),
        ManagedCleanupOutcome::NotOwned => Err(bracketed_message("计划任务 ", name.as_str(), " 不属于 Codex Launcher，拒绝删除")),
    }
}

/// Summary of removing every launcher task.
#[derive(Debug)]
pub struct CleanupReport {
    pub removed: u32,
    pub not_found: u32,
    pub skipped: Vec<String>,
}

/// Counts and messages after a run of removals, and the failures so far.
pub open spec fn report_after(results: Seq<(Seq<char>, Result<ManagedCleanupOutcome, Seq<char>>)>) -> (nat, nat, Seq<Seq<char>>, Seq<Seq<char>>)
    decreases results.len(),
{
    if results.len() == 0 {
        (0, 0, seq![], seq![])
    } else {
        let (removed, not_found, skipped, failures) = report_after(results.drop_last());
        let (name, r) = results.last();
        match r {
            Ok(ManagedCleanupOutcome::Removed) => (removed + 1, not_found, skipped, failures),
            Ok(ManagedCleanupOutcome::NotFound) => (removed, not_found + 1, skipped, failures),
            Ok(ManagedCleanupOutcome::NotOwned) => (removed, not_found, skipped.push(bracketed("任务 "@, name, " ownership 不匹配，已跳过"@)), failures),
            Err(e) => (removed, not_found, skipped, failures.push("["@ + name + "] "@ + e)),
        }
    }
}

/// View of the removal results.
pub open spec fn results_view(v: Seq<(String, Result<ManagedCleanupOutcome, String>)>) -> Seq<(Seq<char>, Result<ManagedCleanupOutcome, Seq<char>>)> {
    v.map_values(|p: (String, Result<ManagedCleanupOutcome, String>)| (p.0@, cleanup_result_view(p.1)))
}

/// Combines the results of removing each launcher task: counts of removed
/// and already-missing tasks and a note per foreign task, or, if any
/// removal failed, one error listing every failure.
pub fn cleanup_report(results: Vec<(String, Result<ManagedCleanupOutcome, String>)>) -> (r: Result<CleanupReport, String>)
    requires
        results.len() < u32::MAX,
    ensures
        ({
            let (removed, not_found, skipped, failures) = report_after(results_view(results@));
            if failures.len() == 0 {
                r matches Ok(rep) && rep.removed == removed && rep.not_found == not_found && rep.skipped.deep_view() == skipped
            } else {
                r matches Err(e) && e@ == "清理 managed 计划任务失败: "@ + join(failures, "; "@)
            }
        }),
{
    let ghost rv = results_view(results@);
    let mut removed: u32 = 0;
    let mut not_found: u32 = 0;
    let mut skipped: Vec<String> = Vec::new();
    let mut failures: Vec<Vec<char>> = Vec::new();
    let n = results.len();
    let mut rest = results;
    let mut i: usize = 0;
    assert(rv.skip(0) =~= rv);
    while rest.len() > 0
        invariant
            n < u32::MAX,
            i + rest.len() == n == rv.len(),
            results_view(rest@) == rv.skip(i as int),
            ({
                let (rm, nf, sk, fl) = report_after(rv.take(i as int));
                &&& removed == rm
                &&& not_found == nf
                &&& skipped.deep_view() == sk
                &&& failures.deep_view() == fl
            }),
            removed <= i,
            not_found <= i,
        decreases rest.len(),
    {
        let ghost rr = results_view(rest@);
        let (name, result) = rest.remove(0);
        assert(rr[0] == (name@, cleanup_result_view(result)));
        assert(rv.take(i + 1).drop_last() =~= rv.take(i as int));
        assert(rv.take(i + 1).last() == rv[i as int]);
        assert(rv[i as int] == rr[0]);
        assert(results_view(rest@) =~= rr.drop_first());
        match result {
            Ok(ManagedCleanupOutcome::Removed) => {
                removed = removed + 1;
            },
            Ok(ManagedCleanupOutcome::NotFound) => {
                not_found = not_found + 1;
            },
            Ok(ManagedCleanupOutcome::NotOwned) => {
                let ghost before = skipped.deep_view();
                skipped.push(bracketed_message("任务 ", name.as_str(), " ownership 不匹配，已跳过"));
                assert(skipped.deep_view() =~= before.push(bracketed("任务 "@, name@, " ownership 不匹配，已跳过"@)));
            },
            Err(e) => {
                let ghost before = failures.deep_view();
                let mut f: Vec<char> = Vec::new();
                push_str(&mut f, "[");
                push_str(&mut f, name.as_str());
                push_str(&mut f, "] ");
                push_str(&mut f, e.as_str());
                assert(f.deep_view() =~= f@);
                failures.push(f);
                assert(failures.deep_view() =~~= before.push("["@ + name@ + "] "@ + e@));
            },
        }
        i = i + 1;
        assert(rv.skip(i as int) =~= rr.drop_first());
    }
    assert(rv.take(n as int) =~= rv);
    if failures.len() == 0 {
        return Ok(CleanupReport { removed, not_found, skipped });
    }
    let joined = join_chars(&failures, "; ");
    let mut m: Vec<char> = Vec::new();
    push_str(&mut m, "清理 managed 计划任务失败: ");
    push_chars(&mut m, &joined);
    Err(string_from_chars(&m))
}

/// Reads the detail query's result.
pub fn task_detail(output: &SchedulerOutput) -> (r: Result<String, String>)
    ensures
        output.success && trim(stdout_text(*output)).len() > 0 ==> (r matches Ok(s) && s@ == trim(stdout_text(*output))),
        output.success && trim(stdout_text(*output)).len() == 0 ==> (r matches Err(e) && e@ == "schtasks 查询成功但未返回任务详情"@),
        !output.success ==> (r matches Err(e) && e@ == command_failure_spec("获取计划任务详情"@, *output)),
{
    if output.success {
        let out = decode_output_text_in(output.stdout.as_slice(), &output.stdout_code_page);
        let t = trim_str(out.as_str());
        if t.len() == 0 {
            Err(owned("schtasks 查询成功但未返回任务详情"))
        } else {
            Ok(string_from_chars(&t))
        }
    } else {
        Err(command_failure("获取计划任务详情", output))
    }
}


/// How a scheduled task of the launcher is doing.
#[derive(Debug)]
pub struct TaskHealth {
    pub installed: bool,
    pub state: Option<ScheduledTaskState>,
    pub state_label: Option<String>,
    pub enabled: bool,
    pub next_run_time: Option<String>,
    pub last_run_time: Option<String>,
    pub last_result: Option<i64>,
    pub last_result_hex: Option<String>,
    pub last_result_label: Option<String>,
    pub missed_runs: u32,
    pub action_path: Option<String>,
    pub action_arguments: Option<String>,
    pub action_matches_app: bool,
    pub managed: bool,
    pub config_drift: bool,
    pub applied_schedule_summary: Option<String>,
    pub desired_schedule_summary: String,
    pub stale_managed_tasks: Vec<String>,
    pub warnings: Vec<String>,
}

/// Whether the task on Windows differs from what the configuration wants:
/// missing, not running the launcher, unknown to the registry, or
/// registered with another schedule.
pub open spec fn drift_spec(installed: bool, action_matches: bool, applied: Option<ScheduleSpec>, desired: ScheduleSpec) -> bool {
    !installed || !action_matches || applied is None || applied->0 != desired
}

/// The warnings of a health report, in order.
pub open spec fn health_warnings(
    installed: bool,
    action_matches: bool,
    enabled: bool,
    missed_runs: u32,
    last_result: Option<i64>,
    drift: bool,
    stale: Seq<Seq<char>>,
) -> Seq<Seq<char>> {
    let w1: Seq<Seq<char>> = if installed && !action_matches {
        seq!["同名任务的 Action 不属于当前 Codex Launcher"@]
    } else {
        seq![]
    };
    let w2: Seq<Seq<char>> = if installed && !enabled {
        seq!["Windows 计划任务已禁用"@]
    } else {
        seq![]
    };
    let w3: Seq<Seq<char>> = if missed_runs > 0 {
        seq!["Windows 记录了 "@ + decimal(missed_runs as nat) + " 次错过运行"@]
    } else {
        seq![]
    };
    let w4: Seq<Seq<char>> = match last_result {
        Some(r) => if r != 0 {
            seq!["上次运行结果为 "@ + result_label(r)]
        } else {
            seq![]
        },
        None => seq![],
    };
    let w5: Seq<Seq<char>> = if drift {
        seq!["当前配置尚未应用到 Windows 计划任务"@]
    } else {
        seq![]
    };
    let w6: Seq<Seq<char>> = if stale.len() > 0 {
        seq!["仍记录旧 managed 任务："@ + join(stale, "、"@)]
    } else {
        seq![]
    };
    w1 + w2 + w3 + w4 + w5 + w6
}

/// The task has drifted from the configuration unless it is installed,
/// runs the launcher and is registered with exactly the desired schedule:
/// a registered schedule other than the desired one is drift whatever the
/// query found, and a report with drift warns that the configuration is not
/// applied.
pub proof fn law_changed_schedule_is_drift(
    installed: bool,
    action_matches: bool,
    applied: Option<ScheduleSpec>,
    desired: ScheduleSpec,
    enabled: bool,
    missed_runs: u32,
    last_result: Option<i64>,
    stale: Seq<Seq<char>>,
)
    ensures
        drift_spec(installed, action_matches, applied, desired) <==> !(installed && action_matches
            && applied == Some(desired)),
        (applied matches Some(a) && a != desired) ==> drift_spec(
            installed,
            action_matches,
            applied,
            desired,
        ),
        drift_spec(installed, action_matches, applied, desired) ==> health_warnings(
            installed,
            action_matches,
            enabled,
            missed_runs,
            last_result,
            true,
            stale,
        ).contains("当前配置尚未应用到 Windows 计划任务"@),
{
    let w = health_warnings(installed, action_matches, enabled, missed_runs, last_result, true, stale);
    let w1: Seq<Seq<char>> = if installed && !action_matches {
        seq!["同名任务的 Action 不属于当前 Codex Launcher"@]
    } else {
        seq![]
    };
    let w2: Seq<Seq<char>> = if installed && !enabled {
        seq!["Windows 计划任务已禁用"@]
    } else {
        seq![]
    };
    let w3: Seq<Seq<char>> = if missed_runs > 0 {
        seq!["Windows 记录了 "@ + decimal(missed_runs as nat) + " 次错过运行"@]
    } else {
        seq![]
    };
    let w4: Seq<Seq<char>> = match last_result {
        Some(r) => if r != 0 {
            seq!["上次运行结果为 "@ + result_label(r)]
        } else {
            seq![]
        },
        None => seq![],
    };
    let k: int = (w1.len() + w2.len() + w3.len() + w4.len()) as int;
    assert(w[k] == "当前配置尚未应用到 Windows 计划任务"@);
}

/// A report without drift carries no warning that the configuration is not
/// applied.
pub proof fn law_no_drift_no_drift_warning(
    installed: bool,
    action_matches: bool,
    enabled: bool,
    missed_runs: u32,
    last_result: Option<i64>,
    stale: Seq<Seq<char>>,
)
    ensures
        !health_warnings(installed, action_matches, enabled, missed_runs, last_result, false, stale)
            .contains("当前配置尚未应用到 Windows 计划任务"@),
{
    let w = health_warnings(installed, action_matches, enabled, missed_runs, last_result, false, stale);
    let msg = "当前配置尚未应用到 Windows 计划任务"@;
    reveal_strlit("当前配置尚未应用到 Windows 计划任务");
    reveal_strlit("同名任务的 Action 不属于当前 Codex Launcher");
    reveal_strlit("Windows 计划任务已禁用");
    reveal_strlit("Windows 记录了 ");
    reveal_strlit("上次运行结果为 ");
    reveal_strlit("仍记录旧 managed 任务：");
    if w.contains(msg) {
        let i = choose|i: int| 0 <= i < w.len() && w[i] == msg;
        assert(w[i][0] == msg[0]);
        assert(w[i][0] == '同' || w[i][0] == 'W' || w[i][0] == '上' || w[i][0] == '仍');
    }
}

fn push_warning(w: &mut Vec<String>, text: String)
    ensures
        final(w).deep_view() == old(w).deep_view().push(text@),
{
    let ghost before = w.deep_view();
    w.push(text);
    assert(w.deep_view() =~= before.push(text@));
}

fn strings_to_chars(v: &Vec<String>) -> (r: Vec<Vec<char>>)
    ensures
        r.deep_view() == v.deep_view(),
{
    let mut r: Vec<Vec<char>> = Vec::new();
    let mut i: usize = 0;
    while i < v.len()
        invariant
            i <= v.len(),
            r.deep_view() == v.deep_view().take(i as int),
        decreases v.len() - i,
    {
        let ghost before = r.deep_view();
        let c = str_chars(v[i].as_str());
        assert(c.deep_view() =~= c@);
        assert(v.deep_view()[i as int] == v@[i as int]@);
        r.push(c);
        assert(r.deep_view() =~~= before.push(v@[i as int]@));
        i = i + 1;
        assert(r.deep_view() =~= v.deep_view().take(i as int));
    }
    assert(v.deep_view().take(v.len() as int) =~= v.deep_view());
    r
}

fn copy_opt(o: &Option<String>) -> (r: Option<String>)
    ensures
        opt_view(r) == opt_view(*o),
{
    match o {
        Some(s) => Some(owned(s.as_str())),
        None => None,
    }
}

/// Builds the health report of `task_name` (trimmed) from the registry and
/// what the query found. Fails only when the registered schedule no longer
/// compiles.
pub fn task_health(
    task_name: &str,
    desired_schedule: &ScheduleConfig,
    desired_schedule_summary: String,
    state: &SchedulerState,
    probe: &TaskProbe,
    current_exe_path: &str,
) -> (r: Result<TaskHealth, String>)
    ensures
        ({
            let idx = first_registration(state.registrations@, task_name@);
            let applied: Option<ScheduleSpec> = match idx {
                Some(i) => Some(state.registrations@[i].applied_schedule@),
                None => None,
            };
            let matches = owned_by_launcher(*probe, None, current_exe_path@);
            let drift = drift_spec(probe.installed, matches, applied, desired_schedule@);
            let stale = other_names(state.registrations@, task_name@);
            match applied {
                Some(a) if compile_spec(a) is Err => r matches Err(e) && e@ == compile_spec(a)->Err_0,
                _ => r matches Ok(h) && {
                    &&& h.installed == probe.installed
                    &&& h.state == match probe.state {
                        Some(s) => Some(task_state_spec(s@)),
                        None => None,
                    }
                    &&& opt_view(h.state_label) == opt_view(probe.state)
                    &&& h.enabled == probe.enabled
                    &&& opt_view(h.next_run_time) == opt_view(probe.next_run_time)
                    &&& opt_view(h.last_run_time) == opt_view(probe.last_run_time)
                    &&& h.last_result == probe.last_result
                    &&& opt_view(h.last_result_hex) == match probe.last_result {
                        Some(v) => Some(result_hex(v)),
                        None => None,
                    }
                    &&& opt_view(h.last_result_label) == match probe.last_result {
                        Some(v) => Some(result_label(v)),
                        None => None,
                    }
                    &&& h.missed_runs == probe.missed_runs
                    &&& opt_view(h.action_path) == opt_view(probe.action_path)
                    &&& opt_view(h.action_arguments) == opt_view(probe.action_arguments)
                    &&& h.action_matches_app == matches
                    &&& h.managed == idx is Some
                    &&& h.config_drift == drift
                    &&& opt_view(h.applied_schedule_summary) == match applied {
                        Some(a) => Some(compile_spec(a)->Ok_0.summary),
                        None => None,
                    }
                    &&& h.desired_schedule_summary == desired_schedule_summary
                    &&& h.stale_managed_tasks.deep_view() == stale
                    &&& h.warnings.deep_view() == health_warnings(
                        probe.installed,
                        matches,
                        probe.enabled,
                        probe.missed_runs,
                        probe.last_result,
                        drift,
                        stale,
                    )
                },
            }
        }),
{
    let idx = find_registration(state, task_name);
    proof {
        lemma_first_registration(state.registrations@, task_name@, idx);
    }
    let action_matches_app = probe_matches_app(probe, current_exe_path);
    let applied_schedule_summary = match idx {
        Some(i) => match state.registrations[i].applied_schedule.summary() {
            Ok(s) => Some(s),
            Err(e) => return Err(e),
        },
        None => None,
    };
    let config_drift = match idx {
        Some(i) => !probe.installed || !action_matches_app
            || !state.registrations[i].applied_schedule.same_as(desired_schedule),
        None => true,
    };
    let stale_managed_tasks = stale_task_names(state, task_name);
    let parsed_state = match &probe.state {
        Some(s) => Some(parse_task_state(s.as_str())),
        None => None,
    };
    let mut warnings: Vec<String> = Vec::new();
    if probe.installed && !action_matches_app {
        push_warning(&mut warnings, owned("同名任务的 Action 不属于当前 Codex Launcher"));
    }
    if probe.installed && !probe.enabled {
        push_warning(&mut warnings, owned("Windows 计划任务已禁用"));
    }
    if probe.missed_runs > 0 {
        let mut m: Vec<char> = Vec::new();
        push_str(&mut m, "Windows 记录了 ");
        push_decimal(&mut m, probe.missed_runs as u64);
        push_str(&mut m, " 次错过运行");
        push_warning(&mut warnings, string_from_chars(&m));
    }
    if let Some(result) = probe.last_result {
        if result != 0 {
            let mut m: Vec<char> = Vec::new();
            push_str(&mut m, "上次运行结果为 ");
            let label = result_code_label(result);
            push_str(&mut m, label.as_str());
            push_warning(&mut warnings, string_from_chars(&m));
        }
    }
    if config_drift {
        push_warning(&mut warnings, owned("当前配置尚未应用到 Windows 计划任务"));
    }
    if stale_managed_tasks.len() > 0 {
        let parts = strings_to_chars(&stale_managed_tasks);
        let joined = join_chars(&parts, "、");
        let mut m: Vec<char> = Vec::new();
        push_str(&mut m, "仍记录旧 managed 任务：");
        push_chars(&mut m, &joined);
        push_warning(&mut warnings, string_from_chars(&m));
    }
    proof {
        let stale = other_names(state.registrations@, task_name@);
        assert(warnings.deep_view() =~= health_warnings(
            probe.installed,
            action_matches_app,
            probe.enabled,
            probe.missed_runs,
            probe.last_result,
            config_drift,
            stale,
        ));
    }
    Ok(TaskHealth {
        installed: probe.installed,
        state: parsed_state,
        state_label: copy_opt(&probe.state),
        enabled: probe.enabled,
        next_run_time: copy_opt(&probe.next_run_time),
        last_run_time: copy_opt(&probe.last_run_time),
        last_result: probe.last_result,
        last_result_hex: match probe.last_result {
            Some(v) => Some(format_result_hex(v)),
            None => None,
        },
        last_result_label: match probe.last_result {
            Some(v) => Some(result_code_label(v)),
            None => None,
        },
        missed_runs: probe.missed_runs,
        action_path: copy_opt(&probe.action_path),
        action_arguments: copy_opt(&probe.action_arguments),
        action_matches_app,
        managed: idx.is_some(),
        config_drift,
        applied_schedule_summary,
        desired_schedule_summary,
        stale_managed_tasks,
        warnings,
    })
}

/// Index of the first registration of `name`.
pub open spec fn first_registration(regs: Seq<ManagedTaskRegistration>, name: Seq<char>) -> Option<int>
    decreases regs.len(),
{
    if regs.len() == 0 {
        None
    } else {
        match first_registration(regs.drop_last(), name) {
            Some(i) => Some(i),
            None => if regs.last().task_name@ == name {
                Some(regs.len() - 1)
            } else {
                None
            },
        }
    }
}

proof fn lemma_first_registration(regs: Seq<ManagedTaskRegistration>, name: Seq<char>, found: Option<usize>)
    requires
        match found {
            Some(i) => i < regs.len() && regs[i as int].task_name@ == name
                && forall|j: int| 0 <= j < i ==> (#[trigger] regs[j]).task_name@ != name,
            None => forall|j: int| 0 <= j < regs.len() ==> (#[trigger] regs[j]).task_name@ != name,
        },
    ensures
        first_registration(regs, name) == match found {
            Some(i) => Some(i as int),
            None => None::<int>,
        },
    decreases regs.len(),
{
    if regs.len() > 0 {
        let pre = regs.drop_last();
        match found {
            Some(i) => {
                if i < regs.len() - 1 {
                    assert forall|j: int| 0 <= j < i implies (#[trigger] pre[j]).task_name@ != name by {
                        assert(pre[j] == regs[j]);
                    }
                    assert(pre[i as int] == regs[i as int]);
                    lemma_first_registration(pre, name, found);
                } else {
                    assert forall|j: int| 0 <= j < pre.len() implies (#[trigger] pre[j]).task_name@ != name by {
                        assert(pre[j] == regs[j]);
                    }
                    lemma_first_registration(pre, name, None);
                }
            },
            None => {
                assert forall|j: int| 0 <= j < pre.len() implies (#[trigger] pre[j]).task_name@ != name by {
                    assert(pre[j] == regs[j]);
                }
                lemma_first_registration(pre, name, None);
            },
        }
    }
}


/// Lexicographic order of strings by code point, which is std's order on
/// `String` (UTF-8 preserves it).
pub open spec fn chars_lt(a: Seq<char>, b: Seq<char>) -> bool
    decreases a.len(),
{
    if a.len() == 0 {
        b.len() > 0
    } else if b.len() == 0 {
        false
    } else if a[0] != b[0] {
        (a[0] as u32) < (b[0] as u32)
    } else {
        chars_lt(a.drop_first(), b.drop_first())
    }
}

proof fn lemma_chars_lt_total(a: Seq<char>, b: Seq<char>)
    ensures
        a != b ==> chars_lt(a, b) || chars_lt(b, a),
        !chars_lt(a, a),
    decreases a.len(),
{
    if a.len() > 0 && b.len() > 0 && a[0] == b[0] {
        lemma_chars_lt_total(a.drop_first(), b.drop_first());
        if a.drop_first() == b.drop_first() {
            assert(a =~= seq![a[0]] + a.drop_first());
            assert(b =~= seq![b[0]] + b.drop_first());
        }
    }
    if a.len() > 0 {
        lemma_chars_lt_total(a.drop_first(), a.drop_first());
    }
    if a.len() == 0 && b.len() == 0 {
        assert(a =~= b);
    }
    if a.len() > 0 && b.len() > 0 && a[0] != b[0] {
        vstd::utf8::char_u32_cast(a[0], a[0] as u32);
        vstd::utf8::char_u32_cast(b[0], b[0] as u32);
        assert((a[0] as u32) != (b[0] as u32));
    }
}

/// Decides [`chars_lt`].
pub fn chars_less(a: &Vec<char>, b: &Vec<char>) -> (r: bool)
    ensures
        r == chars_lt(a@, b@),
{
    let mut i: usize = 0;
    assert(a@.skip(0) =~= a@);
    assert(b@.skip(0) =~= b@);
    while i < a.len() && i < b.len() && a[i] == b[i]
        invariant
            i <= a.len(),
            i <= b.len(),
            chars_lt(a@, b@) == chars_lt(a@.skip(i as int), b@.skip(i as int)),
        decreases a.len() - i,
    {
        assert(a@.skip(i as int).drop_first() =~= a@.skip(i + 1));
        assert(b@.skip(i as int).drop_first() =~= b@.skip(i + 1));
        i = i + 1;
    }
    if i == a.len() {
        return i < b.len();
    }
    if i == b.len() {
        return false;
    }
    (a[i] as u32) < (b[i] as u32)
}

/// `s[k] < s[k + 1]`.
pub open spec fn adjacent_lt(s: Seq<Seq<char>>, k: int) -> bool {
    chars_lt(s[k], s[k + 1])
}

/// Strictly increasing, as the items of a `BTreeSet<String>`.
pub open spec fn sorted_names(s: Seq<Seq<char>>) -> bool {
    forall|k: int| 0 <= k < s.len() - 1 ==> #[trigger] adjacent_lt(s, k)
}

fn names_contain(names: &Vec<String>, x: &Vec<char>) -> (r: bool)
    ensures
        r == names.deep_view().contains(x@),
{
    let mut i: usize = 0;
    while i < names.len()
        invariant
            i <= names.len(),
            forall|k: int| 0 <= k < i ==> names.deep_view()[k] != x@,
        decreases names.len() - i,
    {
        assert(names.deep_view()[i as int] == names@[i as int]@);
        if chars_eq_str(x, names[i].as_str()) {
            assert(names.deep_view()[i as int] == x@);
            return true;
        }
        i = i + 1;
    }
    false
}

/// Adds a name to a sorted list of distinct names, where it belongs.
fn insert_sorted(names: &mut Vec<String>, x: &Vec<char>)
    requires
        sorted_names(old(names).deep_view()),
        old(names).deep_view().no_duplicates(),
    ensures
        sorted_names(final(names).deep_view()),
        final(names).deep_view().no_duplicates(),
        final(names).deep_view().to_set() == old(names).deep_view().to_set().insert(x@),
{
    if names_contain(names, x) {
        assert(old(names).deep_view().to_set().insert(x@) =~= old(names).deep_view().to_set());
        return;
    }
    let ghost s = names.deep_view();
    let mut k: usize = 0;
    while k < names.len()
        invariant
            k <= names.len(),
            s == names.deep_view(),
            !s.contains(x@),
            k > 0 ==> chars_lt(s[k - 1], x@),
        ensures
            k <= names.len(),
            s == names.deep_view(),
            k > 0 ==> chars_lt(s[k - 1], x@),
            k < names.len() ==> !chars_lt(s[k as int], x@),
        decreases names.len() - k,
    {
        let cur = str_chars(names[k].as_str());
        assert(s[k as int] == names@[k as int]@);
        if !chars_less(&cur, x) {
            break;
        }
        k = k + 1;
    }
    proof {
        if k < s.len() {
            lemma_chars_lt_total(s[k as int], x@);
            assert(s[k as int] != x@);
            assert(chars_lt(x@, s[k as int]));
        }
    }
    names.insert(k, string_from_chars(x));
    proof {
        let t = names.deep_view();
        assert(t =~= s.insert(k as int, x@));
        assert forall|j: int| 0 <= j < t.len() - 1 implies #[trigger] adjacent_lt(t, j) by {
            if j < k - 1 {
                assert(adjacent_lt(s, j));
            } else if j == k - 1 {
            } else if j == k {
            } else {
                assert(adjacent_lt(s, j - 1));
            }
        }
        assert forall|y: Seq<char>| t.contains(y) <==> (s.contains(y) || y == x@) by {
            if t.contains(y) {
                let a = choose|a: int| 0 <= a < t.len() && t[a] == y;
                if a < k {
                    assert(s[a] == y);
                } else if a > k {
                    assert(s[a - 1] == y);
                }
            }
            if s.contains(y) {
                let a = choose|a: int| 0 <= a < s.len() && s[a] == y;
                if a < k {
                    assert(t[a] == y);
                } else {
                    assert(t[a + 1] == y);
                }
            }
            if y == x@ {
                assert(t[k as int] == y);
            }
        }
        assert(t.to_set() =~= s.to_set().insert(x@));
        assert forall|a: int, b: int| 0 <= a < t.len() && 0 <= b < t.len() && a != b implies t[a] != t[b] by {
            if a != k as int && b != k as int {
                let sa = if a < k { a } else { a - 1 };
                let sb = if b < k { b } else { b - 1 };
                assert(t[a] == s[sa]);
                assert(t[b] == s[sb]);
            } else if a == k as int {
                let sb = if b < k { b } else { b - 1 };
                assert(t[b] == s[sb]);
                assert(s.contains(s[sb]));
            } else {
                let sa = if a < k { a } else { a - 1 };
                assert(t[a] == s[sa]);
                assert(s.contains(s[sa]));
            }
        }
    }
}

/// Every task the launcher should remove: each registered name and the
/// fallback name (trimmed, when not empty), each once, in string order.
pub fn cleanup_targets(state: &SchedulerState, fallback_task_name: Option<&str>) -> (r: Result<
    Vec<String>,
    String,
>)
    ensures
        match fallback_task_name {
            Some(f) if trim(f@).len() > 0 && task_name_check(f@) is Err => r matches Err(e) && task_name_check(f@) == Err::<(), Seq<char>>(e@),
            _ => r matches Ok(names) && {
                &&& sorted_names(names.deep_view())
                &&& names.deep_view().no_duplicates()
                &&& names.deep_view().to_set() == match fallback_task_name {
                    Some(f) if trim(f@).len() > 0 => registered_names(state.registrations@).to_set().insert(trim(f@)),
                    _ => registered_names(state.registrations@).to_set(),
                }
            },
        },
{
    let ghost regs = registered_names(state.registrations@);
    let mut names: Vec<String> = Vec::new();
    let mut i: usize = 0;
    while i < state.registrations.len()
        invariant
            i <= state.registrations.len(),
            regs == registered_names(state.registrations@),
            sorted_names(names.deep_view()),
            names.deep_view().no_duplicates(),
            names.deep_view().to_set() == regs.take(i as int).to_set(),
        decreases state.registrations.len() - i,
    {
        let x = str_chars(state.registrations[i].task_name.as_str());
        insert_sorted(&mut names, &x);
        assert(regs.take(i + 1) =~= regs.take(i as int).push(x@));
        proof {
            broadcast use vstd::seq_lib::group_seq_properties;
        }
        assert(regs.take(i + 1).to_set() =~= regs.take(i as int).to_set().insert(x@));
        i = i + 1;
    }
    assert(regs.take(state.registrations.len() as int) =~= regs);
    if let Some(f) = fallback_task_name {
        let t = trim_str(f);
        if t.len() > 0 {
            match validate_task_name(f) {
                Ok(()) => {},
                Err(e) => return Err(e),
            }
            insert_sorted(&mut names, &t);
        }
    }
    Ok(names)
}

} // verus!
