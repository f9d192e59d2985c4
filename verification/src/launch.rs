//! How the launcher was started and how a non-interactive run reports its
//! end to the process that started it.
use crate::config::AppConfig;
use crate::retry::{RunMode, RunOptions, RunStatus};
use crate::text::{owned, push_str, str_eq, string_from_chars};
use vstd::prelude::*;

verus! {

/// What the process was started to do.
#[derive(Debug, Clone, Copy, PartialEq, Eq, Structural)]
pub enum LaunchMode {
    Gui,
    Headless,
    UninstallCleanup,
}

/// The mode that command-line arguments select: `--uninstall-cleanup`
/// anywhere wins, else `--headless` anywhere, else the window.
pub open spec fn launch_mode_spec(args: Seq<Seq<char>>) -> LaunchMode {
    if args.contains("--uninstall-cleanup"@) {
        LaunchMode::UninstallCleanup
    } else if args.contains("--headless"@) {
        LaunchMode::Headless
    } else {
        LaunchMode::Gui
    }
}

impl LaunchMode {
    /// Selects the mode from the command-line arguments (program name
    /// excluded).
    pub fn detect(arguments: Vec<String>) -> (m: LaunchMode)
        ensures
            m == launch_mode_spec(arguments.deep_view()),
    {
        let ghost args = arguments.deep_view();
        let mut headless = false;
        let mut i: usize = 0;
        while i < arguments.len()
            invariant
                i <= arguments.len(),
                args == arguments.deep_view(),
                forall|k: int| 0 <= k < i ==> args[k] != "--uninstall-cleanup"@,
                headless == args.take(i as int).contains("--headless"@),
            decreases arguments.len() - i,
        {
            assert(args[i as int] == arguments@[i as int]@);
            assert(args.take(i + 1) =~= args.take(i as int).push(args[i as int]));
            assert(args.take(i + 1).contains("--headless"@) == (args.take(i as int).contains(
                "--headless"@,
            ) || args[i as int] == "--headless"@)) by {
                let t = args.take(i + 1);
                if t.contains("--headless"@) {
                    let j = choose|j: int| 0 <= j < t.len() && t[j] == "--headless"@;
                    if j < i {
                        assert(args.take(i as int)[j] == t[j]);
                    }
                }
                if args.take(i as int).contains("--headless"@) {
                    let j = choose|j: int| 0 <= j < i && args.take(i as int)[j] == "--headless"@;
                    assert(t[j] == args.take(i as int)[j]);
                }
                if args[i as int] == "--headless"@ {
                    assert(t[i as int] == args[i as int]);
                }
            }
            if str_eq(arguments[i].as_str(), "--uninstall-cleanup") {
                assert(args.contains(args[i as int]));
                return LaunchMode::UninstallCleanup;
            }
            if str_eq(arguments[i].as_str(), "--headless") {
                headless = true;
            }
            i = i + 1;
        }
        assert(args.take(arguments.len() as int) =~= args);
        if headless {
            LaunchMode::Headless
        } else {
            LaunchMode::Gui
        }
    }
}

/// How a non-interactive run ended.
#[derive(Debug, Clone, PartialEq, Eq)]
pub enum HeadlessOutcome {
    Success,
    ConfigFailure(String),
    StartFailure(String),
    RunFailure(String),
    Stopped(String),
}

impl HeadlessOutcome {
    /// The process exit code: 0 on success, 2 when stopped, 1 on failure.
    pub fn exit_code(&self) -> (c: u8)
        ensures
            c == match self {
                HeadlessOutcome::Success => 0u8,
                HeadlessOutcome::Stopped(_) => 2u8,
                _ => 1u8,
            },
    {
        match self {
            HeadlessOutcome::Success => 0,
            HeadlessOutcome::Stopped(_) => 2,
            _ => 1,
        }
    }

    /// The message to log, for every outcome but success.
    pub fn error_message(&self) -> (m: Option<&str>)
        ensures
            match self {
                HeadlessOutcome::Success => m is None,
                HeadlessOutcome::ConfigFailure(s) | HeadlessOutcome::StartFailure(s)
                | HeadlessOutcome::RunFailure(s) | HeadlessOutcome::Stopped(s) => m is Some
                    && m->0@ == s@,
            },
    {
        match self {
            HeadlessOutcome::Success => None,
            HeadlessOutcome::ConfigFailure(s) => Some(s.as_str()),
            HeadlessOutcome::StartFailure(s) => Some(s.as_str()),
            HeadlessOutcome::RunFailure(s) => Some(s.as_str()),
            HeadlessOutcome::Stopped(s) => Some(s.as_str()),
        }
    }
}

/// Name of a run status as `{:?}` prints it.
pub open spec fn status_name(s: RunStatus) -> Seq<char> {
    match s {
        RunStatus::Starting => "Starting"@,
        RunStatus::Running => "Running"@,
        RunStatus::Success => "Success"@,
        RunStatus::Failed => "Failed"@,
        RunStatus::Stopped => "Stopped"@,
    }
}

fn status_name_str(s: RunStatus) -> (r: &'static str)
    ensures
        r@ == status_name(s),
{
    match s {
        RunStatus::Starting => "Starting",
        RunStatus::Running => "Running",
        RunStatus::Success => "Success",
        RunStatus::Failed => "Failed",
        RunStatus::Stopped => "Stopped",
    }
}

/// The outcome of a non-interactive run from how the run ended: its
/// terminal status and message, or the error of waiting for it.
pub fn headless_outcome(finished: Result<(RunStatus, String), String>) -> (o: HeadlessOutcome)
    ensures
        match finished {
            Ok((RunStatus::Success, _)) => o == HeadlessOutcome::Success,
            Ok((RunStatus::Stopped, m)) => o matches HeadlessOutcome::Stopped(s) && s@ == "run 已停止: "@ + m@,
            Ok((st, m)) => o matches HeadlessOutcome::RunFailure(s) && s@ == "run 结束: "@ + status_name(st) + ": "@ + m@,
            Err(e) => o matches HeadlessOutcome::RunFailure(s) && s@ == e@,
        },
{
    match finished {
        Ok((RunStatus::Success, _)) => HeadlessOutcome::Success,
        Ok((RunStatus::Stopped, m)) => {
            let mut v: Vec<char> = Vec::new();
            push_str(&mut v, "run 已停止: ");
            push_str(&mut v, m.as_str());
            HeadlessOutcome::Stopped(string_from_chars(&v))
        },
        Ok((st, m)) => {
            let mut v: Vec<char> = Vec::new();
            push_str(&mut v, "run 结束: ");
            push_str(&mut v, status_name_str(st));
            push_str(&mut v, ": ");
            push_str(&mut v, m.as_str());
            HeadlessOutcome::RunFailure(string_from_chars(&v))
        },
        Err(e) => HeadlessOutcome::RunFailure(e),
    }
}

/// How the uninstaller's cleanup ended.
#[derive(Debug, Clone, PartialEq, Eq)]
pub enum UninstallCleanupOutcome {
    Completed,
    Skipped,
    Failed(String),
}

impl UninstallCleanupOutcome {
    /// The process exit code: 1 on failure, else 0.
    pub fn exit_code(&self) -> (c: u8)
        ensures
            c == match self {
                UninstallCleanupOutcome::Failed(_) => 1u8,
                _ => 0u8,
            },
    {
        match self {
            UninstallCleanupOutcome::Failed(_) => 1,
            _ => 0,
        }
    }
}

/// Milliseconds in `minutes`, saturating at the largest `u64`.
pub open spec fn minutes_to_ms(minutes: u64) -> u64 {
    if minutes * 60000 > u64::MAX {
        u64::MAX
    } else {
        (minutes * 60000) as u64
    }
}

fn minutes_ms(minutes: u64) -> (r: u64)
    ensures
        r == minutes_to_ms(minutes),
{
    if minutes > u64::MAX / 60000 {
        u64::MAX
    } else {
        minutes * 60000
    }
}

/// The options of a retry run with the configured command, directory,
/// interval, budget, allow-list and keep-alive.
pub fn run_options_from_config(config: AppConfig) -> (o: RunOptions)
    ensures
        o.command == config.command,
        o.work_dir == config.work_dir,
        o.interval_seconds == config.interval,
        o.max_tries == config.max_tries,
        o.concurrency == 1,
        o.allowed_base_urls == config.allowed_base_urls,
        o.keep_alive == config.keep_alive,
        o.keep_alive_interval_ms == minutes_to_ms(config.keep_alive_interval_minutes),
        o.run_mode == RunMode::Retry,
{
    let ms = minutes_ms(config.keep_alive_interval_minutes);
    let keep_alive = config.keep_alive;
    RunOptions::new(
        config.command,
        config.work_dir,
        config.interval,
        config.max_tries,
        config.allowed_base_urls,
    ).with_keep_alive(keep_alive, ms)
}

/// The options of a manual keep-alive run: keep-alive on, one worker.
pub fn manual_keep_alive_options(config: AppConfig) -> (o: RunOptions)
    ensures
        o.command == config.command,
        o.work_dir == config.work_dir,
        o.interval_seconds == config.interval,
        o.max_tries == config.max_tries,
        o.allowed_base_urls == config.allowed_base_urls,
        o.keep_alive,
        o.keep_alive_interval_ms == minutes_to_ms(config.keep_alive_interval_minutes),
        o.run_mode == RunMode::ManualKeepAlive,
{
    let ms = minutes_ms(config.keep_alive_interval_minutes);
    run_options_from_config(config).with_keep_alive(true, ms).with_run_mode(
        RunMode::ManualKeepAlive,
    )
}

} // verus!
