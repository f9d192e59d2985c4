//! The retry engine's decisions: run options and their validation, the
//! shared attempt budget, what one finished attempt means for the run, how
//! concurrent workers' outcomes combine, and the keep-alive cycle.
//!
//! Spawning children, reading pipes, sleeping and writing files happen
//! around these functions; each function here takes what was observed and
//! returns what to do next.
use crate::config::{
    unit_result_view, MAX_CONCURRENCY, MAX_INTERVAL_SECONDS, MAX_TRIES_LIMIT,
};
use crate::output::{get_snippet, snippet_spec, HIGH_DEMAND_MSG};
use crate::notifications::{compact_local_time, lower_hex, utc_rfc3339_text};
use crate::text::{
    decimal, owned, push_decimal, push_signed_decimal, push_str, signed_decimal, str_chars, string_from_chars,
    trim, trim_str,
};
use std::collections::BTreeMap;
use vstd::prelude::*;

verus! {

/// Lifecycle of a run.
#[derive(Debug, Clone, Copy, PartialEq, Eq, Structural)]
pub enum RunStatus {
    Starting,
    Running,
    Success,
    Failed,
    Stopped,
}

impl RunStatus {
    /// Whether the run is still going: starting or running.
    pub fn is_active(self) -> (r: bool)
        ensures
            r == (self == RunStatus::Starting || self == RunStatus::Running),
    {
        match self {
            RunStatus::Starting | RunStatus::Running => true,
            _ => false,
        }
    }
}

/// Whether a run in state `s` is still going.
pub open spec fn status_is_active(s: RunStatus) -> bool {
    s == RunStatus::Starting || s == RunStatus::Running
}

/// How a run treats success.
#[derive(Debug, Clone, Copy, PartialEq, Eq, Structural)]
pub enum RunMode {
    /// Retry until one attempt succeeds.
    Retry,
    /// Run repeatedly on a single worker until keep-alive is switched off.
    ManualKeepAlive,
}

impl RunMode {
    /// The mode of a run that nobody configured (std's `Default`).
    pub fn default() -> (m: RunMode)
        ensures
            m == RunMode::Retry,
    {
        RunMode::Retry
    }
}

/// What a run executes and how.
#[derive(Debug, Clone)]
pub struct RunOptions {
    pub command: String,
    pub work_dir: String,
    pub interval_seconds: u64,
    pub max_tries: u64,
    pub concurrency: u64,
    pub allowed_base_urls: String,
    pub keep_alive: bool,
    pub keep_alive_interval_ms: u64,
    pub run_mode: RunMode,
}

/// Default keep-alive interval: five minutes.
pub const DEFAULT_KEEP_ALIVE_INTERVAL_MS: u64 = 300000;

/// Why a set of run options is refused, if it is; `work_dir_is_dir` is what
/// the file system said of the working directory.
pub open spec fn run_options_check(o: RunOptions, work_dir_is_dir: bool) -> Result<(), Seq<char>> {
    if trim(o.command@).len() == 0 {
        Err("command 不能为空"@)
    } else if !work_dir_is_dir {
        Err("工作目录不存在或不是目录: "@ + o.work_dir@)
    } else if !(1 <= o.interval_seconds <= MAX_INTERVAL_SECONDS) {
        Err("重试间隔必须在 1..=86400 秒之间"@)
    } else if o.max_tries > MAX_TRIES_LIMIT {
        Err("最大尝试次数不能超过 100000"@)
    } else if !(1 <= o.concurrency <= MAX_CONCURRENCY) {
        Err("并发线程数必须在 1..=16 之间"@)
    } else if o.keep_alive && o.keep_alive_interval_ms == 0 {
        Err("保活间隔必须大于 0"@)
    } else {
        Ok(())
    }
}

impl RunOptions {
    /// Options for a plain retry run on one worker.
    pub fn new(
        command: String,
        work_dir: String,
        interval_seconds: u64,
        max_tries: u64,
        allowed_base_urls: String,
    ) -> (o: RunOptions)
        ensures
            o.command == command,
            o.work_dir == work_dir,
            o.interval_seconds == interval_seconds,
            o.max_tries == max_tries,
            o.concurrency == 1,
            o.allowed_base_urls == allowed_base_urls,
            !o.keep_alive,
            o.keep_alive_interval_ms == DEFAULT_KEEP_ALIVE_INTERVAL_MS,
            o.run_mode == RunMode::Retry,
    {
        RunOptions {
            command,
            work_dir,
            interval_seconds,
            max_tries,
            concurrency: 1,
            allowed_base_urls,
            keep_alive: false,
            keep_alive_interval_ms: DEFAULT_KEEP_ALIVE_INTERVAL_MS,
            run_mode: RunMode::Retry,
        }
    }

    /// Sets keep-alive and its interval.
    pub fn with_keep_alive(self, keep_alive: bool, keep_alive_interval_ms: u64) -> (o: RunOptions)
        ensures
            o == (RunOptions { keep_alive, keep_alive_interval_ms, ..self }),
    {
        RunOptions { keep_alive, keep_alive_interval_ms, ..self }
    }

    /// Sets the number of concurrent workers.
    pub fn with_concurrency(self, concurrency: u64) -> (o: RunOptions)
        ensures
            o == (RunOptions { concurrency, ..self }),
    {
        RunOptions { concurrency, ..self }
    }

    /// Sets the run mode.
    pub fn with_run_mode(self, run_mode: RunMode) -> (o: RunOptions)
        ensures
            o == (RunOptions { run_mode, ..self }),
    {
        RunOptions { run_mode, ..self }
    }

    /// Workers the run actually uses: one in manual keep-alive mode, else
    /// the configured number, at least one.
    pub fn effective_concurrency(&self) -> (r: u64)
        ensures
            r == effective_concurrency_spec(*self),
            r >= 1,
    {
        match self.run_mode {
            RunMode::ManualKeepAlive => 1,
            RunMode::Retry => if self.concurrency >= 1 {
                self.concurrency
            } else {
                1
            },
        }
    }

    /// Checks the options, given what the file system said of the working
    /// directory. The first failing rule decides the message.
    pub fn validate_with(&self, work_dir_is_dir: bool) -> (r: Result<(), String>)
        ensures
            unit_result_view(r) == run_options_check(*self, work_dir_is_dir),
    {
        let command = trim_str(self.command.as_str());
        if command.len() == 0 {
            return Err(owned("command 不能为空"));
        }
        if !work_dir_is_dir {
            let mut m: Vec<char> = Vec::new();
            push_str(&mut m, "工作目录不存在或不是目录: ");
            push_str(&mut m, self.work_dir.as_str());
            return Err(string_from_chars(&m));
        }
        if !(1 <= self.interval_seconds && self.interval_seconds <= MAX_INTERVAL_SECONDS) {
            return Err(owned("重试间隔必须在 1..=86400 秒之间"));
        }
        if self.max_tries > MAX_TRIES_LIMIT {
            return Err(owned("最大尝试次数不能超过 100000"));
        }
        if !(1 <= self.concurrency && self.concurrency <= MAX_CONCURRENCY) {
            return Err(owned("并发线程数必须在 1..=16 之间"));
        }
        if self.keep_alive && self.keep_alive_interval_ms == 0 {
            return Err(owned("保活间隔必须大于 0"));
        }
        Ok(())
    }

    /// Checks the options against the rules and the file system. Whatever
    /// the file system answers, the result is what `validate_with` gives for
    /// that answer.
    pub fn validate(&self) -> (r: Result<(), String>)
        ensures
            exists|dir_ok: bool| unit_result_view(r) == run_options_check(*self, dir_ok),
            trim(self.command@).len() == 0 ==> unit_result_view(r) == run_options_check(
                *self,
                false,
            ),
    {
        let dir_ok = crate::config::path_is_dir(self.work_dir.as_str());
        self.validate_with(dir_ok)
    }
}

/// Workers a run uses.
pub open spec fn effective_concurrency_spec(o: RunOptions) -> u64 {
    match o.run_mode {
        RunMode::ManualKeepAlive => 1,
        RunMode::Retry => if o.concurrency >= 1 {
            o.concurrency
        } else {
            1
        },
    }
}

/// The run's shared tally, from which every status snapshot is built.
pub struct StatusBuilder {
    pub run_id: String,
    pub owner_pid: u32,
    pub child_pids: BTreeMap<usize, u32>,
    pub run_mode: RunMode,
    pub concurrency: u64,
    pub active_workers: u64,
    pub keep_alive_enabled: bool,
    pub command: String,
    pub work_dir: String,
    pub log_file: String,
    pub latest_log: String,
    pub max_tries: u64,
    pub interval_seconds: u64,
    pub attempt: u64,
    pub retry_count: u64,
    pub success_notification_attempted: bool,
    pub high_demand_count: u64,
    pub last_exit_code: Option<i32>,
    pub last_error_snippet: String,
    pub result_preview: String,
    pub started_at: String,
}

/// Whether the budget leaves room for another attempt: `max_tries == 0`
/// means unlimited, otherwise all workers together make at most
/// `max_tries` attempts.
pub open spec fn has_remaining(max_tries: u64, attempt: u64) -> bool {
    max_tries == 0 || attempt < max_tries
}

/// Attempt counter after one reservation, and whether it was granted.
pub open spec fn reserve_step(max_tries: u64, attempt: nat) -> (nat, bool) {
    if max_tries == 0 || attempt < max_tries {
        (attempt + 1, true)
    } else {
        (attempt, false)
    }
}

/// Counter and number of granted reservations after `n` reservations on a
/// fresh run, in whatever order the workers made them.
pub open spec fn after_reservations(max_tries: u64, n: nat) -> (nat, nat)
    decreases n,
{
    if n == 0 {
        (0, 0)
    } else {
        let (attempt, granted) = after_reservations(max_tries, (n - 1) as nat);
        let (next, ok) = reserve_step(max_tries, attempt);
        (next, if ok { granted + 1 } else { granted })
    }
}

/// However many reservations the workers of a run make, the counter equals
/// the reservations granted, and with a budget set it never exceeds it.
pub proof fn law_attempt_budget_is_shared(max_tries: u64, n: nat)
    ensures
        after_reservations(max_tries, n).0 == after_reservations(max_tries, n).1,
        max_tries > 0 ==> after_reservations(max_tries, n).1 <= max_tries,
        max_tries > 0 ==> after_reservations(max_tries, n).1 == if n <= max_tries {
            n
        } else {
            max_tries as nat
        },
        max_tries == 0 ==> after_reservations(max_tries, n).1 == n,
    decreases n,
{
    if n > 0 {
        law_attempt_budget_is_shared(max_tries, (n - 1) as nat);
    }
}

impl StatusBuilder {
    /// A fresh tally for a run that has not attempted anything yet.
    pub fn new(
        run_id: String,
        options: &RunOptions,
        owner_pid: u32,
        log_file: String,
        latest_log: String,
        started_at: String,
    ) -> (b: StatusBuilder)
        ensures
            b.run_id == run_id,
            b.owner_pid == owner_pid,
            b.child_pids@ == Map::<usize, u32>::empty(),
            b.run_mode == options.run_mode,
            b.concurrency == effective_concurrency_spec(*options),
            b.active_workers == 0,
            b.keep_alive_enabled == options.keep_alive,
            b.command@ == options.command@,
            b.work_dir@ == options.work_dir@,
            b.log_file == log_file,
            b.latest_log == latest_log,
            b.max_tries == options.max_tries,
            b.interval_seconds == options.interval_seconds,
            b.attempt == 0,
            b.retry_count == 0,
            !b.success_notification_attempted,
            b.high_demand_count == 0,
            b.last_exit_code is None,
            b.last_error_snippet@.len() == 0,
            b.result_preview@.len() == 0,
            b.started_at == started_at,
    {
        StatusBuilder {
            run_id,
            owner_pid,
            child_pids: BTreeMap::new(),
            run_mode: options.run_mode,
            concurrency: options.effective_concurrency(),
            active_workers: 0,
            keep_alive_enabled: options.keep_alive,
            command: options.command.clone(),
            work_dir: options.work_dir.clone(),
            log_file,
            latest_log,
            max_tries: options.max_tries,
            interval_seconds: options.interval_seconds,
            attempt: 0,
            retry_count: 0,
            success_notification_attempted: false,
            high_demand_count: 0,
            last_exit_code: None,
            last_error_snippet: String::new(),
            result_preview: String::new(),
            started_at,
        }
    }

    /// Whether the shared budget allows another attempt.
    pub fn has_remaining_attempts(&self) -> (r: bool)
        ensures
            r == has_remaining(self.max_tries, self.attempt),
    {
        self.max_tries == 0 || self.attempt < self.max_tries
    }

    /// Reserves the next attempt of the race phase: `None` when the budget
    /// is spent, else the new attempt number.
    pub fn reserve_attempt(&mut self) -> (r: Option<u64>)
        requires
            old(self).max_tries > 0 || old(self).attempt < u64::MAX,
        ensures
            (final(self).attempt as nat, r is Some) == reserve_step(
                old(self).max_tries,
                old(self).attempt as nat,
            ),
            r is Some ==> r->0 == final(self).attempt,
            *final(self) == (StatusBuilder { attempt: final(self).attempt, ..*old(self) }),
    {
        if !self.has_remaining_attempts() {
            return None;
        }
        self.attempt = self.attempt + 1;
        Some(self.attempt)
    }

    /// Counts an attempt of the keep-alive phase, which the budget does not
    /// limit.
    pub fn bump_attempt(&mut self) -> (r: u64)
        requires
            old(self).attempt < u64::MAX,
        ensures
            r == old(self).attempt + 1,
            *final(self) == (StatusBuilder { attempt: r, ..*old(self) }),
    {
        self.attempt = self.attempt + 1;
        self.attempt
    }

    /// Records (or, with `None`, forgets) the child process of a worker.
    pub fn set_worker_pid(&mut self, worker_id: usize, child_pid: Option<u32>)
        ensures
            final(self).child_pids@ == match child_pid {
                Some(pid) => old(self).child_pids@.insert(worker_id, pid),
                None => old(self).child_pids@.remove(worker_id),
            },
            *final(self) == (StatusBuilder { child_pids: final(self).child_pids, ..*old(self) }),
    {
        match child_pid {
            Some(pid) => {
                self.child_pids.insert(worker_id, pid);
            },
            None => {
                self.child_pids.remove(&worker_id);
            },
        }
    }

    /// A worker of the race phase has finished.
    pub fn worker_finished(&mut self)
        ensures
            final(self).active_workers == if old(self).active_workers > 0 {
                (old(self).active_workers - 1) as u64
            } else {
                0
            },
            *final(self) == (StatusBuilder {
                active_workers: final(self).active_workers,
                ..*old(self)
            }),
    {
        if self.active_workers > 0 {
            self.active_workers = self.active_workers - 1;
        }
    }

    /// The run is over: no worker and no child remain.
    pub fn clear_workers(&mut self)
        ensures
            final(self).child_pids@ == Map::<usize, u32>::empty(),
            final(self).active_workers == 0,
            *final(self) == (StatusBuilder {
                child_pids: final(self).child_pids,
                active_workers: 0,
                ..*old(self)
            }),
    {
        self.child_pids.clear();
        self.active_workers = 0;
    }

    /// Marks the success notification as sent and tells whether it had
    /// been sent before; only the first caller gets `false`.
    pub fn take_success_notification(&mut self) -> (already: bool)
        ensures
            already == old(self).success_notification_attempted,
            final(self).success_notification_attempted,
            notices_sent(old(self).success_notification_attempted, 1) == (if already {
                0nat
            } else {
                1nat
            }),
            *final(self) == (StatusBuilder {
                success_notification_attempted: true,
                ..*old(self)
            }),
    {
        let already = self.success_notification_attempted;
        self.success_notification_attempted = true;
        assert(notices_sent(true, 0) == 0);
        already
    }
}

/// How many of `n` successive calls of
/// [`StatusBuilder::take_success_notification`], starting from the flag
/// `attempted`, answer `false` and so send the success notification.
pub open spec fn notices_sent(attempted: bool, n: nat) -> nat
    decreases n,
{
    if n == 0 {
        0
    } else {
        (if attempted {
            0nat
        } else {
            1nat
        }) + notices_sent(true, (n - 1) as nat)
    }
}

/// The success notification goes out at most once per run: however many
/// workers or keep-alive rounds reach success, only the first of them
/// sends it, and none does once it was sent.
pub proof fn law_success_notified_once(attempted: bool, n: nat)
    ensures
        notices_sent(attempted, n) <= 1,
        notices_sent(attempted, n) == (if !attempted && n > 0 {
            1nat
        } else {
            0nat
        }),
    decreases n,
{
    if n > 0 {
        law_success_notified_once(true, (n - 1) as nat);
    }
}

/// What one finished attempt means for its worker.
#[derive(Debug)]
pub enum AttemptVerdict {
    /// The command succeeded with this exit code.
    Succeeded(i32),
    /// The attempt failed and budget remains: log the message, wait the
    /// retry interval and try again.
    Retry(String),
    /// The worker stops with this failure.
    Failed(String),
}

/// Model of an [`AttemptVerdict`].
pub enum VerdictView {
    Succeeded(i32),
    Retry(Seq<char>),
    Failed(Seq<char>),
}

impl View for AttemptVerdict {
    type V = VerdictView;

    open spec fn view(&self) -> VerdictView {
        match self {
            AttemptVerdict::Succeeded(c) => VerdictView::Succeeded(*c),
            AttemptVerdict::Retry(m) => VerdictView::Retry(m@),
            AttemptVerdict::Failed(m) => VerdictView::Failed(m@),
        }
    }
}

/// Message for a child that ended without an exit code.
pub open spec fn no_exit_code_message() -> Seq<char> {
    "子进程异常终止，Windows 未提供 exit code"@
}

/// `" (exit=" code ")"` as the log writes it.
pub open spec fn exit_suffix(code: i32) -> Seq<char> {
    " (exit="@ + signed_decimal(code as int) + ")"@
}

/// Message for a failed attempt that used up the budget.
pub open spec fn exhausted_message(max_tries: u64, code: i32) -> Seq<char> {
    "命令未成功且已达到最大尝试次数 "@ + decimal(max_tries as nat) + exit_suffix(code)
}

/// Message logged before waiting to retry.
pub open spec fn retry_message(high_demand: bool, code: i32, interval_seconds: u64) -> Seq<char> {
    if high_demand {
        "检测到高负载，"@ + decimal(interval_seconds as nat) + " 秒后重试"@
    } else {
        "命令异常退出"@ + exit_suffix(code) + "，"@ + decimal(interval_seconds as nat)
            + " 秒后重试"@
    }
}

fn push_exit_suffix(out: &mut Vec<char>, code: i32)
    ensures
        final(out)@ == old(out)@ + exit_suffix(code),
{
    push_str(out, " (exit=");
    push_signed_decimal(out, code as i64);
    push_str(out, ")");
    assert(out@ =~= old(out)@ + exit_suffix(code));
}

impl StatusBuilder {
    /// Records a finished attempt and decides what the worker does next.
    /// A clean exit without the high-demand marker succeeds; anything else
    /// is counted and retried while the shared budget allows.
    pub fn settle_attempt(
        &mut self,
        exit_code: Option<i32>,
        high_demand: bool,
        preview: String,
    ) -> (v: AttemptVerdict)
        requires
            old(self).high_demand_count < u64::MAX,
            old(self).retry_count < u64::MAX,
        ensures
            final(self).result_preview == preview,
            final(self).attempt == old(self).attempt,
            final(self).max_tries == old(self).max_tries,
            final(self).child_pids == old(self).child_pids,
            final(self).run_id == old(self).run_id,
            final(self).success_notification_attempted == old(self).success_notification_attempted,
            final(self).active_workers == old(self).active_workers,
            final(self).keep_alive_enabled == old(self).keep_alive_enabled,
            exit_code is None ==> {
                &&& v@ == VerdictView::Failed(no_exit_code_message())
                &&& final(self).last_error_snippet@ == no_exit_code_message()
                &&& final(self).last_exit_code == old(self).last_exit_code
                &&& final(self).high_demand_count == old(self).high_demand_count
                &&& final(self).retry_count == old(self).retry_count
            },
            exit_code is Some ==> final(self).last_exit_code == exit_code,
            exit_code == Some(0i32) && !high_demand ==> {
                &&& v@ == VerdictView::Succeeded(0)
                &&& final(self).last_error_snippet == old(self).last_error_snippet
                &&& final(self).high_demand_count == old(self).high_demand_count
                &&& final(self).retry_count == old(self).retry_count
            },
            exit_code is Some && !(exit_code == Some(0i32) && !high_demand) ==> {
                let code = exit_code->0;
                &&& final(self).high_demand_count == old(self).high_demand_count + if high_demand {
                    1int
                } else {
                    0int
                }
                &&& final(self).last_error_snippet@ == if high_demand {
                    snippet_spec(HIGH_DEMAND_MSG@, 280)
                } else {
                    preview@
                }
                &&& !has_remaining(old(self).max_tries, old(self).attempt) ==> {
                    &&& v@ == VerdictView::Failed(exhausted_message(old(self).max_tries, code))
                    &&& final(self).retry_count == old(self).retry_count
                }
                &&& has_remaining(old(self).max_tries, old(self).attempt) ==> {
                    &&& v@ == VerdictView::Retry(
                        retry_message(high_demand, code, old(self).interval_seconds),
                    )
                    &&& final(self).retry_count == old(self).retry_count + 1
                }
            },
    {
        let code = match exit_code {
            None => {
                self.last_error_snippet = owned("子进程异常终止，Windows 未提供 exit code");
                self.result_preview = preview;
                return AttemptVerdict::Failed(owned("子进程异常终止，Windows 未提供 exit code"));
            },
            Some(code) => code,
        };
        self.last_exit_code = Some(code);
        if code == 0 && !high_demand {
            self.result_preview = preview;
            return AttemptVerdict::Succeeded(code);
        }
        if high_demand {
            self.high_demand_count = self.high_demand_count + 1;
            self.last_error_snippet = get_snippet(HIGH_DEMAND_MSG, 280);
            self.result_preview = preview;
        } else {
            self.last_error_snippet = preview.clone();
            self.result_preview = preview;
        }
        if !self.has_remaining_attempts() {
            let mut m: Vec<char> = Vec::new();
            push_str(&mut m, "命令未成功且已达到最大尝试次数 ");
            push_decimal(&mut m, self.max_tries);
            push_exit_suffix(&mut m, code);
            assert(m@ =~= exhausted_message(self.max_tries, code));
            return AttemptVerdict::Failed(string_from_chars(&m));
        }
        self.retry_count = self.retry_count + 1;
        let mut m: Vec<char> = Vec::new();
        if high_demand {
            push_str(&mut m, "检测到高负载，");
            push_decimal(&mut m, self.interval_seconds);
            push_str(&mut m, " 秒后重试");
        } else {
            push_str(&mut m, "命令异常退出");
            push_exit_suffix(&mut m, code);
            push_str(&mut m, "，");
            push_decimal(&mut m, self.interval_seconds);
            push_str(&mut m, " 秒后重试");
        }
        assert(m@ =~= retry_message(high_demand, code, self.interval_seconds));
        AttemptVerdict::Retry(string_from_chars(&m))
    }
}

/// How a worker's loop (or the whole run) ended.
#[derive(Debug)]
pub enum LoopOutcome {
    Success(String),
    Failed(String),
    Stopped(String),
}

/// Model of a [`LoopOutcome`].
pub enum LoopView {
    Success(Seq<char>),
    Failed(Seq<char>),
    Stopped(Seq<char>),
}

impl View for LoopOutcome {
    type V = LoopView;

    open spec fn view(&self) -> LoopView {
        match self {
            LoopOutcome::Success(m) => LoopView::Success(m@),
            LoopOutcome::Failed(m) => LoopView::Failed(m@),
            LoopOutcome::Stopped(m) => LoopView::Stopped(m@),
        }
    }
}

/// Message when the user stopped the run.
pub open spec fn user_stopped_message() -> Seq<char> {
    "用户停止了任务"@
}

/// Message when a stop request for this run was found on disk.
pub open spec fn remote_stop_message() -> Seq<char> {
    "收到匹配 run ID 的远程停止请求"@
}

/// What interrupts a worker before its next attempt: the run's cancellation
/// first, then a stop request for this run (or the failure to read one).
pub open spec fn interrupt_spec(cancelled: bool, stop_requested: Result<bool, Seq<char>>) -> Option<
    LoopView,
> {
    if cancelled {
        Some(LoopView::Stopped(user_stopped_message()))
    } else {
        match stop_requested {
            Ok(true) => Some(LoopView::Stopped(remote_stop_message())),
            Ok(false) => None,
            Err(e) => Some(LoopView::Failed(e)),
        }
    }
}

/// View of a read that may fail with a message.
pub open spec fn bool_result_view(r: Result<bool, String>) -> Result<bool, Seq<char>> {
    match r {
        Ok(b) => Ok(b),
        Err(e) => Err(e@),
    }
}

/// View of an optional outcome.
pub open spec fn opt_loop_view(o: Option<LoopOutcome>) -> Option<LoopView> {
    match o {
        Some(x) => Some(x@),
        None => None,
    }
}

/// Decides whether a worker must stop before its next attempt.
pub fn check_interrupts(cancelled: bool, stop_requested: Result<bool, String>) -> (r: Option<
    LoopOutcome,
>)
    ensures
        opt_loop_view(r) == interrupt_spec(cancelled, bool_result_view(stop_requested)),
{
    if cancelled {
        return Some(LoopOutcome::Stopped(owned("用户停止了任务")));
    }
    match stop_requested {
        Ok(true) => Some(LoopOutcome::Stopped(owned("收到匹配 run ID 的远程停止请求"))),
        Ok(false) => None,
        Err(e) => Some(LoopOutcome::Failed(e)),
    }
}

/// A worker goes on to its next attempt only when the run is not cancelled
/// and the stop-request read found no request. A cancelled run stops as the
/// user asked; otherwise a stop request for this run stops it remotely and
/// a failed read fails it with the read's message.
pub proof fn law_interrupts_stop_the_worker(cancelled: bool, stop_requested: Result<bool, Seq<char>>)
    ensures
        interrupt_spec(cancelled, stop_requested) is None <==> (!cancelled && stop_requested
            == Ok::<bool, Seq<char>>(false)),
        cancelled ==> interrupt_spec(cancelled, stop_requested) == Some(
            LoopView::Stopped("用户停止了任务"@),
        ),
        !cancelled && stop_requested == Ok::<bool, Seq<char>>(true) ==> interrupt_spec(
            cancelled,
            stop_requested,
        ) == Some(LoopView::Stopped("收到匹配 run ID 的远程停止请求"@)),
        !cancelled && stop_requested is Err ==> interrupt_spec(cancelled, stop_requested) == Some(
            LoopView::Failed(stop_requested->Err_0),
        ),
{
}

/// How one concurrent worker of the race phase ended.
#[derive(Debug)]
pub enum WorkerOutcome {
    Succeeded(i32),
    Failed(String),
    Stopped(String),
    /// The budget was spent by other workers before this one ran.
    Exhausted(String),
    /// Cancelled because another worker won; takes no part in the verdict.
    Superseded,
}

/// Model of a [`WorkerOutcome`].
pub enum WorkerView {
    Succeeded(i32),
    Failed(Seq<char>),
    Stopped(Seq<char>),
    Exhausted(Seq<char>),
    Superseded,
}

impl View for WorkerOutcome {
    type V = WorkerView;

    open spec fn view(&self) -> WorkerView {
        match self {
            WorkerOutcome::Succeeded(c) => WorkerView::Succeeded(*c),
            WorkerOutcome::Failed(m) => WorkerView::Failed(m@),
            WorkerOutcome::Stopped(m) => WorkerView::Stopped(m@),
            WorkerOutcome::Exhausted(m) => WorkerView::Exhausted(m@),
            WorkerOutcome::Superseded => WorkerView::Superseded,
        }
    }
}

/// A worker's outcome from how its loop ended: a stop counts only when the
/// whole run was cancelled; otherwise another worker won.
pub open spec fn worker_outcome_spec(outcome: LoopView, run_cancelled: bool) -> WorkerView {
    match outcome {
        LoopView::Success(m) => WorkerView::Failed("抢跑线程收到意外的成功信号: "@ + m),
        LoopView::Failed(m) => WorkerView::Failed(m),
        LoopView::Stopped(m) => if run_cancelled {
            WorkerView::Stopped(m)
        } else {
            WorkerView::Superseded
        },
    }
}

/// Classifies how a race worker's loop ended.
pub fn worker_outcome(outcome: LoopOutcome, run_cancelled: bool) -> (r: WorkerOutcome)
    ensures
        r@ == worker_outcome_spec(outcome@, run_cancelled),
{
    match outcome {
        LoopOutcome::Success(m) => {
            let mut v: Vec<char> = Vec::new();
            push_str(&mut v, "抢跑线程收到意外的成功信号: ");
            push_str(&mut v, m.as_str());
            WorkerOutcome::Failed(string_from_chars(&v))
        },
        LoopOutcome::Failed(m) => WorkerOutcome::Failed(m),
        LoopOutcome::Stopped(m) => if run_cancelled {
            WorkerOutcome::Stopped(m)
        } else {
            WorkerOutcome::Superseded
        },
    }
}

/// Message for a worker that found the budget spent.
pub open spec fn budget_spent_message(max_tries: u64) -> Seq<char> {
    "命令未成功且已达到最大尝试次数 "@ + decimal(max_tries as nat)
}

/// The outcome of a worker whose reservation was refused.
pub fn budget_spent(max_tries: u64) -> (r: WorkerOutcome)
    ensures
        r@ == WorkerView::Exhausted(budget_spent_message(max_tries)),
{
    let mut v: Vec<char> = Vec::new();
    push_str(&mut v, "命令未成功且已达到最大尝试次数 ");
    push_decimal(&mut v, max_tries);
    assert(v@ =~= budget_spent_message(max_tries));
    WorkerOutcome::Exhausted(string_from_chars(&v))
}

/// What woke a worker that waits before its next retry.
pub enum RetryWake {
    /// The run was cancelled.
    Cancelled,
    /// The retry interval has elapsed.
    Elapsed,
    /// The periodic check for a stop request for this run, with its result.
    Poll(Result<bool, String>),
}

/// What a waiting worker does after one wake-up: `None` keeps waiting,
/// `Some(Ok(()))` retries, `Some(Err(o))` ends the worker with `o`.
pub open spec fn retry_wait_spec(wake: RetryWake) -> Option<Result<(), LoopView>> {
    match wake {
        RetryWake::Cancelled => Some(Err(LoopView::Stopped("用户在重试等待期间停止了任务"@))),
        RetryWake::Elapsed => Some(Ok(())),
        RetryWake::Poll(r) => match r {
            Ok(true) => Some(Err(LoopView::Stopped(remote_stop_message()))),
            Ok(false) => None,
            Err(e) => Some(Err(LoopView::Failed(e@))),
        },
    }
}

/// View of a wait decision.
pub open spec fn wait_view(r: Option<Result<(), LoopOutcome>>) -> Option<Result<(), LoopView>> {
    match r {
        None => None,
        Some(Ok(())) => Some(Ok(())),
        Some(Err(o)) => Some(Err(o@)),
    }
}

/// Decides what a worker waiting to retry does after one wake-up.
pub fn retry_wait_step(wake: RetryWake) -> (r: Option<Result<(), LoopOutcome>>)
    ensures
        wait_view(r) == retry_wait_spec(wake),
{
    match wake {
        RetryWake::Cancelled => Some(
            Err(LoopOutcome::Stopped(owned("用户在重试等待期间停止了任务"))),
        ),
        RetryWake::Elapsed => Some(Ok(())),
        RetryWake::Poll(r) => match r {
            Ok(true) => Some(Err(LoopOutcome::Stopped(owned("收到匹配 run ID 的远程停止请求")))),
            Ok(false) => None,
            Err(e) => Some(Err(LoopOutcome::Failed(e))),
        },
    }
}

/// The race phase's verdict.
#[derive(Debug)]
pub enum RaceOutcome {
    Succeeded(i32),
    Failed(String),
    Stopped(String),
}

/// Model of a [`RaceOutcome`].
pub enum RaceView {
    Succeeded(i32),
    Failed(Seq<char>),
    Stopped(Seq<char>),
}

impl View for RaceOutcome {
    type V = RaceView;

    open spec fn view(&self) -> RaceView {
        match self {
            RaceOutcome::Succeeded(c) => RaceView::Succeeded(*c),
            RaceOutcome::Failed(m) => RaceView::Failed(m@),
            RaceOutcome::Stopped(m) => RaceView::Stopped(m@),
        }
    }
}

/// Exit code of the first worker that succeeded.
pub open spec fn first_success(s: Seq<WorkerView>) -> Option<i32>
    decreases s.len(),
{
    if s.len() == 0 {
        None
    } else {
        match first_success(s.drop_last()) {
            Some(c) => Some(c),
            None => match s.last() {
                WorkerView::Succeeded(c) => Some(c),
                _ => None,
            },
        }
    }
}

/// Message of the first worker that was stopped.
pub open spec fn first_stopped(s: Seq<WorkerView>) -> Option<Seq<char>>
    decreases s.len(),
{
    if s.len() == 0 {
        None
    } else {
        match first_stopped(s.drop_last()) {
            Some(m) => Some(m),
            None => match s.last() {
                WorkerView::Stopped(m) => Some(m),
                _ => None,
            },
        }
    }
}

/// Message of the first worker that failed.
pub open spec fn first_failed(s: Seq<WorkerView>) -> Option<Seq<char>>
    decreases s.len(),
{
    if s.len() == 0 {
        None
    } else {
        match first_failed(s.drop_last()) {
            Some(m) => Some(m),
            None => match s.last() {
                WorkerView::Failed(m) => Some(m),
                _ => None,
            },
        }
    }
}

/// Message of the first worker that found the budget spent.
pub open spec fn first_exhausted(s: Seq<WorkerView>) -> Option<Seq<char>>
    decreases s.len(),
{
    if s.len() == 0 {
        None
    } else {
        match first_exhausted(s.drop_last()) {
            Some(m) => Some(m),
            None => match s.last() {
                WorkerView::Exhausted(m) => Some(m),
                _ => None,
            },
        }
    }
}

/// The race's verdict from its workers' outcomes in the order they ended:
/// any success wins (the first one); else the first stop; else the first
/// failure, with a spent budget ranking last; with nothing at all, the run
/// counts as stopped.
pub open spec fn race_verdict(s: Seq<WorkerView>) -> RaceView {
    match first_success(s) {
        Some(c) => RaceView::Succeeded(c),
        None => match first_stopped(s) {
            Some(m) => RaceView::Stopped(m),
            None => match first_failed(s) {
                Some(m) => RaceView::Failed(m),
                None => match first_exhausted(s) {
                    Some(m) => RaceView::Failed(m),
                    None => RaceView::Stopped(user_stopped_message()),
                },
            },
        },
    }
}

/// Collects the outcomes of the race's workers as they end.
pub struct RaceTally {
    succeeded: Option<i32>,
    stopped: Option<String>,
    failed: Option<String>,
    exhausted: Option<String>,
    seen: Ghost<Seq<WorkerView>>,
}

/// View of an optional message.
pub open spec fn opt_str_view(o: Option<String>) -> Option<Seq<char>> {
    match o {
        Some(m) => Some(m@),
        None => None,
    }
}

impl RaceTally {
    /// The outcomes recorded so far, in the order they came.
    pub closed spec fn seen(&self) -> Seq<WorkerView> {
        self.seen@
    }

    /// Each kept value is the first of its kind among the outcomes seen.
    pub closed spec fn wf(&self) -> bool {
        &&& self.succeeded == first_success(self.seen@)
        &&& opt_str_view(self.stopped) == first_stopped(self.seen@)
        &&& opt_str_view(self.failed) == first_failed(self.seen@)
        &&& opt_str_view(self.exhausted) == first_exhausted(self.seen@)
    }

    /// A tally of no outcomes.
    pub fn new() -> (t: RaceTally)
        ensures
            t.wf(),
            t.seen() == Seq::<WorkerView>::empty(),
    {
        RaceTally {
            succeeded: None,
            stopped: None,
            failed: None,
            exhausted: None,
            seen: Ghost(Seq::empty()),
        }
    }

    /// Records one worker's outcome; returns whether it is the first
    /// success, in which case the remaining workers are to be cancelled.
    pub fn record(&mut self, outcome: WorkerOutcome) -> (cancel_rest: bool)
        requires
            old(self).wf(),
        ensures
            final(self).wf(),
            final(self).seen() == old(self).seen().push(outcome@),
            cancel_rest == (first_success(old(self).seen()) is None
                && outcome@ is Succeeded),
    {
        let ghost s = self.seen@.push(outcome@);
        assert(s.drop_last() =~= self.seen@);
        let mut cancel_rest = false;
        match outcome {
            WorkerOutcome::Succeeded(c) => {
                if self.succeeded.is_none() {
                    self.succeeded = Some(c);
                    cancel_rest = true;
                }
            },
            WorkerOutcome::Stopped(m) => {
                if self.stopped.is_none() {
                    self.stopped = Some(m);
                }
            },
            WorkerOutcome::Failed(m) => {
                if self.failed.is_none() {
                    self.failed = Some(m);
                }
            },
            WorkerOutcome::Exhausted(m) => {
                if self.exhausted.is_none() {
                    self.exhausted = Some(m);
                }
            },
            WorkerOutcome::Superseded => {},
        }
        self.seen = Ghost(s);
        cancel_rest
    }

    /// The race's verdict once every worker has ended.
    pub fn finish(self) -> (r: RaceOutcome)
        requires
            self.wf(),
        ensures
            r@ == race_verdict(self.seen()),
    {
        if let Some(c) = self.succeeded {
            return RaceOutcome::Succeeded(c);
        }
        if let Some(m) = self.stopped {
            return RaceOutcome::Stopped(m);
        }
        if let Some(m) = self.failed {
            return RaceOutcome::Failed(m);
        }
        if let Some(m) = self.exhausted {
            return RaceOutcome::Failed(m);
        }
        RaceOutcome::Stopped(owned("用户停止了任务"))
    }
}

proof fn lemma_first_success_at(s: Seq<WorkerView>, i: int)
    requires
        0 <= i < s.len(),
        s[i] is Succeeded,
        forall|j: int| 0 <= j < i ==> !(#[trigger] s[j] is Succeeded),
    ensures
        first_success(s) == Some(s[i]->Succeeded_0),
    decreases s.len(),
{
    if i < s.len() - 1 {
        lemma_first_success_at(s.drop_last(), i);
    } else {
        lemma_no_success_before(s.drop_last());
    }
}

proof fn lemma_no_success_before(s: Seq<WorkerView>)
    requires
        forall|j: int| 0 <= j < s.len() ==> !(#[trigger] s[j] is Succeeded),
    ensures
        first_success(s) is None,
    decreases s.len(),
{
    if s.len() > 0 {
        lemma_no_success_before(s.drop_last());
    }
}

/// In the race, the first worker to succeed decides the run, whatever the
/// other workers reported before or after it.
pub proof fn law_first_success_wins(s: Seq<WorkerView>, i: int)
    requires
        0 <= i < s.len(),
        s[i] is Succeeded,
        forall|j: int| 0 <= j < i ==> !(#[trigger] s[j] is Succeeded),
    ensures
        race_verdict(s) == RaceView::Succeeded(s[i]->Succeeded_0),
{
    lemma_first_success_at(s, i);
}

/// Message when keep-alive was switched off.
pub open spec fn keep_alive_off_message() -> Seq<char> {
    "保活已关闭，当前 run 正常结束"@
}

/// Message of a successful finish.
pub open spec fn success_message(code: i32) -> Seq<char> {
    "命令成功完成"@ + exit_suffix(code)
}

/// Status message while keep-alive waits for its next run.
pub open spec fn keep_alive_message(code: i32, interval_ms: u64) -> Seq<char> {
    success_message(code) + "，保活已开启，"@ + decimal((interval_ms / 1000) as nat)
        + " 秒后再次执行"@
}

/// Message of the success notification sent while keep-alive continues.
pub open spec fn first_success_message(code: i32) -> Seq<char> {
    "命令首次成功完成"@ + exit_suffix(code) + "，保活继续运行"@
}

/// Whether keep-alive is on: an override written for this run wins over
/// the run's own setting; a failure to read the override fails the run.
pub fn keep_alive_setting(override_read: Result<Option<bool>, String>, run_setting: bool) -> (r:
    Result<bool, LoopOutcome>)
    ensures
        match override_read {
            Ok(Some(enabled)) => r == Ok::<bool, LoopOutcome>(enabled),
            Ok(None) => r == Ok::<bool, LoopOutcome>(run_setting),
            Err(e) => r is Err && r->Err_0@ == LoopView::Failed(e@),
        },
{
    match override_read {
        Ok(Some(enabled)) => Ok(enabled),
        Ok(None) => Ok(run_setting),
        Err(e) => Err(LoopOutcome::Failed(e)),
    }
}

/// What follows a successful attempt.
#[derive(Debug)]
pub enum AfterSuccess {
    /// The run ends with this outcome.
    Finish(LoopOutcome),
    /// Keep-alive is on: publish `status_message` as running, send the
    /// success notification (once per run) with `notice`, then wait.
    KeepAlive { status_message: String, notice: String },
}

/// Decides what follows a successful attempt, given whether keep-alive is
/// on.
pub fn after_success(exit_code: i32, keep_alive: bool, interval_ms: u64) -> (r: AfterSuccess)
    ensures
        !keep_alive ==> r is Finish && r->Finish_0@ == LoopView::Success(success_message(exit_code)),
        keep_alive ==> r is KeepAlive && r->status_message@ == keep_alive_message(
            exit_code,
            interval_ms,
        ) && r->notice@ == first_success_message(exit_code),
{
    let mut done: Vec<char> = Vec::new();
    push_str(&mut done, "命令成功完成");
    push_exit_suffix(&mut done, exit_code);
    if !keep_alive {
        assert(done@ =~= success_message(exit_code));
        return AfterSuccess::Finish(LoopOutcome::Success(string_from_chars(&done)));
    }
    let mut status: Vec<char> = Vec::new();
    push_str(&mut status, "命令成功完成");
    push_exit_suffix(&mut status, exit_code);
    push_str(&mut status, "，保活已开启，");
    push_decimal(&mut status, interval_ms / 1000);
    push_str(&mut status, " 秒后再次执行");
    assert(status@ =~= keep_alive_message(exit_code, interval_ms));
    let mut notice: Vec<char> = Vec::new();
    push_str(&mut notice, "命令首次成功完成");
    push_exit_suffix(&mut notice, exit_code);
    push_str(&mut notice, "，保活继续运行");
    assert(notice@ =~= first_success_message(exit_code));
    AfterSuccess::KeepAlive {
        status_message: string_from_chars(&status),
        notice: string_from_chars(&notice),
    }
}

/// What woke the worker that waits for the next keep-alive run. Each
/// variant that needs it carries the keep-alive setting read at that
/// moment (see [`keep_alive_setting`]).
pub enum KeepAliveWake {
    /// The run was cancelled.
    Cancelled,
    /// The run's keep-alive switch changed to this value.
    SwitchChanged(bool),
    /// The switch's channel closed.
    SwitchClosed,
    /// The keep-alive interval elapsed.
    Elapsed(Result<bool, LoopOutcome>),
    /// The periodic check: stop request for this run, then the setting.
    Poll(Result<bool, String>, Result<bool, LoopOutcome>),
}

/// What a keep-alive wait does after one wake-up: `None` keeps waiting,
/// `Some(Ok(()))` runs the command again, `Some(Err(o))` ends the run.
pub open spec fn keep_alive_wait_spec(wake: KeepAliveWake) -> Option<Result<(), LoopView>> {
    match wake {
        KeepAliveWake::Cancelled => Some(Err(LoopView::Stopped("用户在保活等待期间停止了任务"@))),
        KeepAliveWake::SwitchChanged(on) => if on {
            None
        } else {
            Some(Err(LoopView::Success(keep_alive_off_message())))
        },
        KeepAliveWake::SwitchClosed => Some(Err(LoopView::Failed("运行时保活控制通道意外关闭"@))),
        KeepAliveWake::Elapsed(setting) => match setting {
            Ok(true) => Some(Ok(())),
            Ok(false) => Some(Err(LoopView::Success(keep_alive_off_message()))),
            Err(o) => Some(Err(o@)),
        },
        KeepAliveWake::Poll(stop, setting) => match stop {
            Ok(true) => Some(Err(LoopView::Stopped(remote_stop_message()))),
            Err(e) => Some(Err(LoopView::Failed(e@))),
            Ok(false) => match setting {
                Ok(true) => None,
                Ok(false) => Some(Err(LoopView::Success(keep_alive_off_message()))),
                Err(o) => Some(Err(o@)),
            },
        },
    }
}

/// Decides what the keep-alive wait does after one wake-up.
pub fn keep_alive_wait_step(wake: KeepAliveWake) -> (r: Option<Result<(), LoopOutcome>>)
    ensures
        wait_view(r) == keep_alive_wait_spec(wake),
{
    match wake {
        KeepAliveWake::Cancelled => Some(
            Err(LoopOutcome::Stopped(owned("用户在保活等待期间停止了任务"))),
        ),
        KeepAliveWake::SwitchChanged(on) => if on {
            None
        } else {
            Some(Err(LoopOutcome::Success(owned("保活已关闭，当前 run 正常结束"))))
        },
        KeepAliveWake::SwitchClosed => Some(
            Err(LoopOutcome::Failed(owned("运行时保活控制通道意外关闭"))),
        ),
        KeepAliveWake::Elapsed(setting) => match setting {
            Ok(true) => Some(Ok(())),
            Ok(false) => Some(Err(LoopOutcome::Success(owned("保活已关闭，当前 run 正常结束")))),
            Err(o) => Some(Err(o)),
        },
        KeepAliveWake::Poll(stop, setting) => match stop {
            Ok(true) => Some(Err(LoopOutcome::Stopped(owned("收到匹配 run ID 的远程停止请求")))),
            Err(e) => Some(Err(LoopOutcome::Failed(e))),
            Ok(false) => match setting {
                Ok(true) => None,
                Ok(false) => Some(
                    Err(LoopOutcome::Success(owned("保活已关闭，当前 run 正常结束"))),
                ),
                Err(o) => Some(Err(o)),
            },
        },
    }
}

/// Maps the race's verdict onto the run: a stop or a failure ends the run
/// (`Ok`), while a success hands its exit code on (`Err`) so that the
/// keep-alive setting can decide what happens next.
pub fn race_to_loop(race: RaceOutcome) -> (r: Result<LoopOutcome, i32>)
    ensures
        match race@ {
            RaceView::Succeeded(c) => r == Err::<LoopOutcome, i32>(c),
            RaceView::Stopped(m) => r is Ok && r->Ok_0@ == LoopView::Stopped(m),
            RaceView::Failed(m) => r is Ok && r->Ok_0@ == LoopView::Failed(m),
        },
{
    match race {
        RaceOutcome::Succeeded(c) => Err(c),
        RaceOutcome::Stopped(m) => Ok(LoopOutcome::Stopped(m)),
        RaceOutcome::Failed(m) => Ok(LoopOutcome::Failed(m)),
    }
}

/// The terminal status and message of a finished run.
pub fn terminal_of(outcome: LoopOutcome) -> (r: (RunStatus, String))
    ensures
        match outcome@ {
            LoopView::Success(m) => r.0 == RunStatus::Success && r.1@ == m,
            LoopView::Failed(m) => r.0 == RunStatus::Failed && r.1@ == m,
            LoopView::Stopped(m) => r.0 == RunStatus::Stopped && r.1@ == m,
        },
{
    match outcome {
        LoopOutcome::Success(m) => (RunStatus::Success, m),
        LoopOutcome::Failed(m) => (RunStatus::Failed, m),
        LoopOutcome::Stopped(m) => (RunStatus::Stopped, m),
    }
}

/// Whether a finished run's notification goes through the once-per-run
/// success path (a successful retry run) rather than straight out.
pub fn uses_success_notification_once(status: RunStatus, mode: RunMode) -> (r: bool)
    ensures
        r == (status == RunStatus::Success && mode == RunMode::Retry),
{
    status == RunStatus::Success && mode == RunMode::Retry
}

/// Shortest gap between two log-line notices, in milliseconds.
pub const LOG_NOTICE_INTERVAL_MS: u64 = 100;

/// Limits how often the UI is told that the log grew.
pub struct LogNoticeThrottle {
    pub last_emitted_ms: Option<u64>,
}

impl LogNoticeThrottle {
    /// A throttle that has emitted nothing (std's `Default`).
    pub fn default() -> (t: LogNoticeThrottle)
        ensures
            t.last_emitted_ms is None,
    {
        LogNoticeThrottle { last_emitted_ms: None }
    }

    /// Whether to emit a notice at monotonic time `now_ms`: yes unless the
    /// last notice was less than the interval ago; an emitted notice
    /// becomes the last one.
    pub fn should_emit(&mut self, now_ms: u64) -> (r: bool)
        ensures
            r == match old(self).last_emitted_ms {
                None => true,
                Some(last) => !(now_ms < last + LOG_NOTICE_INTERVAL_MS),
            },
            r ==> final(self).last_emitted_ms == Some(now_ms),
            !r ==> final(self).last_emitted_ms == old(self).last_emitted_ms,
    {
        if let Some(last) = self.last_emitted_ms {
            if now_ms < last || now_ms - last < LOG_NOTICE_INTERVAL_MS {
                return false;
            }
        }
        self.last_emitted_ms = Some(now_ms);
        true
    }
}


/// The system lines a run logs before its first attempt.
pub open spec fn start_lines_spec(o: RunOptions) -> Seq<Seq<char>> {
    let base = seq!["开始执行: "@ + o.command@, "工作目录: "@ + o.work_dir@];
    let c = effective_concurrency_spec(o);
    let with_workers = if c > 1 {
        base.push("并发线程数: "@ + decimal(c as nat) + "（任一线程成功即终止其余线程）"@)
    } else {
        base
    };
    if o.run_mode == RunMode::ManualKeepAlive {
        with_workers.push("运行模式: 手动保活"@)
    } else {
        with_workers
    }
}

fn push_line(lines: &mut Vec<String>, v: &Vec<char>)
    ensures
        final(lines).deep_view() == old(lines).deep_view().push(v@),
{
    let ghost before = lines.deep_view();
    lines.push(string_from_chars(v));
    assert(lines.deep_view() =~= before.push(v@));
}

/// The system lines a run logs before its first attempt: the command, the
/// directory, the number of workers when more than one, and manual
/// keep-alive mode.
pub fn start_log_lines(options: &RunOptions) -> (r: Vec<String>)
    ensures
        r.deep_view() == start_lines_spec(*options),
{
    let mut lines: Vec<String> = Vec::new();
    let mut a: Vec<char> = Vec::new();
    push_str(&mut a, "开始执行: ");
    push_str(&mut a, options.command.as_str());
    push_line(&mut lines, &a);
    let mut b: Vec<char> = Vec::new();
    push_str(&mut b, "工作目录: ");
    push_str(&mut b, options.work_dir.as_str());
    push_line(&mut lines, &b);
    let c = options.effective_concurrency();
    if c > 1 {
        let mut w: Vec<char> = Vec::new();
        push_str(&mut w, "并发线程数: ");
        push_decimal(&mut w, c);
        push_str(&mut w, "（任一线程成功即终止其余线程）");
        push_line(&mut lines, &w);
    }
    if options.run_mode == RunMode::ManualKeepAlive {
        let mut m: Vec<char> = Vec::new();
        push_str(&mut m, "运行模式: 手动保活");
        push_line(&mut lines, &m);
    }
    assert(lines.deep_view() =~= start_lines_spec(*options));
    lines
}

/// File name of a run's full log.
pub fn log_file_name(run_id: &str) -> (r: String)
    ensures
        r@ == "codex-retry-"@ + run_id@ + ".log"@,
{
    let mut v: Vec<char> = Vec::new();
    push_str(&mut v, "codex-retry-");
    push_str(&mut v, run_id);
    push_str(&mut v, ".log");
    string_from_chars(&v)
}

/// A fresh run id: the local time as `YYYYmmdd-HHMMSS`, a hyphen, and the
/// first eight digits of a random id, which are lower-case hexadecimal.
pub fn new_run_id() -> (r: String)
    ensures
        exists|ts: Seq<char>, rnd: Seq<char>|
            #![trigger compact_local_time(ts), lower_hex(rnd)]
            compact_local_time(ts) && rnd.len() == 8 && lower_hex(rnd) && r@ == ts + "-"@ + rnd,
{
    let ts = crate::notifications::local_time_compact();
    let id = crate::notifications::new_uuid_simple();
    let chars = str_chars(id.as_str());
    let short = crate::text::copy_range(&chars, 0, 8);
    let mut v = str_chars(ts.as_str());
    push_str(&mut v, "-");
    crate::text::push_chars(&mut v, &short);
    assert(v@ == ts@ + "-"@ + short@);
    assert(lower_hex(short@)) by {
        assert forall|i: int| 0 <= i < short@.len() implies ('0' <= #[trigger] short@[i] <= '9') || (
        'a' <= short@[i] <= 'f') by {
            assert(short@[i] == id@[i]);
        }
    }
    string_from_chars(&v)
}

/// The message of an attempt that starts.
pub fn attempt_message(attempt: u64) -> (r: String)
    ensures
        r@ == "第 "@ + decimal(attempt as nat) + " 次尝试执行中"@,
{
    let mut v: Vec<char> = Vec::new();
    push_str(&mut v, "第 ");
    push_decimal(&mut v, attempt);
    push_str(&mut v, " 次尝试执行中");
    string_from_chars(&v)
}

/// The message when the command's process could not be started.
pub fn spawn_failure_message(error: &str) -> (r: String)
    ensures
        r@ == "启动子进程失败: "@ + error@,
{
    let mut v: Vec<char> = Vec::new();
    push_str(&mut v, "启动子进程失败: ");
    push_str(&mut v, error);
    string_from_chars(&v)
}

impl StatusBuilder {
    /// Records that the first child could not be started; returns the
    /// run's failure message.
    pub fn record_start_failure(&mut self, error: &str) -> (message: String)
        ensures
            message@ == "启动子进程失败: "@ + error@,
            final(self).last_error_snippet@ == snippet_spec(message@, 280),
            final(self).result_preview@ == message@,
            final(self).attempt == old(self).attempt,
            final(self).max_tries == old(self).max_tries,
    {
        let message = spawn_failure_message(error);
        self.last_error_snippet = get_snippet(message.as_str(), 280);
        self.result_preview = owned(message.as_str());
        message
    }
}

/// The message when reading one of the child's pipes failed.
pub fn read_failure_message(source: crate::capture::StreamSource, error: &str) -> (r: String)
    ensures
        r@ == "读取 "@ + crate::capture::stream_label(source) + " 失败: "@ + error@,
{
    let mut v: Vec<char> = Vec::new();
    push_str(&mut v, "读取 ");
    push_str(&mut v, source.label());
    push_str(&mut v, " 失败: ");
    push_str(&mut v, error);
    string_from_chars(&v)
}

/// Whether a run may start under the allow-list, given the current Codex
/// base URL as read from Codex's configuration (`None` when none could be
/// found). An empty allow-list allows any start.
pub fn base_url_preflight(allowed_base_urls: &str, current: Result<Option<String>, String>) -> (r: Result<(), String>)
    ensures
        trim(allowed_base_urls@).len() == 0 ==> r is Ok,
        trim(allowed_base_urls@).len() > 0 ==> match current {
            Err(e) => r == Err::<(), String>(e),
            Ok(None) => r matches Err(e) && e@ == "无法读取当前 Codex provider 的 base_url，已阻止启动"@,
            Ok(Some(url)) => match crate::config::allowed_spec(url@, allowed_base_urls@) {
                Ok(true) => r is Ok,
                Ok(false) => r matches Err(e) && e@ == "当前 Codex base_url 不在允许列表中。当前: "@
                    + url@ + "；允许: "@ + allowed_base_urls@,
                Err(e) => r matches Err(m) && m@ == e,
            },
        },
{
    let t = trim_str(allowed_base_urls);
    if t.len() == 0 {
        return Ok(());
    }
    match current {
        Err(e) => Err(e),
        Ok(None) => Err(owned("无法读取当前 Codex provider 的 base_url，已阻止启动")),
        Ok(Some(url)) => match crate::config::is_base_url_allowed(url.as_str(), allowed_base_urls) {
            Ok(true) => Ok(()),
            Ok(false) => {
                let mut v: Vec<char> = Vec::new();
                push_str(&mut v, "当前 Codex base_url 不在允许列表中。当前: ");
                push_str(&mut v, url.as_str());
                push_str(&mut v, "；允许: ");
                push_str(&mut v, allowed_base_urls);
                Err(string_from_chars(&v))
            },
            Err(e) => Err(e),
        },
    }
}

/// Whether `file_name` names the full log of a run: `codex-retry-*.log`.
pub open spec fn is_run_log_name(file_name: Seq<char>) -> bool {
    &&& crate::text::starts_with(file_name, "codex-retry-"@)
    &&& file_name.len() >= 4 && file_name.skip(file_name.len() - 4) == ".log"@
}

/// Whether a file of the log directory is the full log of a past run that
/// may be deleted: a run log that is neither the latest log
/// (`same_as_latest`) nor the log of the run still active
/// (`same_as_active`).
pub open spec fn history_log_decision(file_name: Seq<char>, same_as_latest: bool, same_as_active: bool) -> bool {
    is_run_log_name(file_name) && !same_as_latest && !same_as_active
}

/// Decides [`history_log_decision`] once the entry's path has been compared
/// with the latest log and with the active run's log.
pub fn is_history_log_with(file_name: &str, same_as_latest: bool, same_as_active: bool) -> (r: bool)
    ensures
        r == history_log_decision(file_name@, same_as_latest, same_as_active),
{
    let name = str_chars(file_name);
    let prefix = str_chars("codex-retry-");
    let n = name.len();
    let is_run_log = crate::text::matches_at(&name, &prefix, 0) && n >= 4 && {
        let tail = crate::text::copy_range(&name, n - 4, n);
        crate::text::chars_eq_str(&tail, ".log")
    };
    proof {
        if n >= 4 {
            assert(name@.subrange(n - 4, n as int) =~= name@.skip(n - 4));
        }
    }
    is_run_log && !same_as_latest && !same_as_active
}

/// Compares two paths with std's `Path` equality. std compares paths by
/// their components, so a repeated separator or a trailing one does not
/// tell two paths apart, and on Windows neither does `/` against `\`;
/// which other spellings count as equal depends on the platform, so all
/// that is stated is that a path equals itself.
#[verifier::external_body]
fn same_path(a: &str, b: &str) -> (r: bool)
    ensures
        a@ == b@ ==> r,
{
    std::path::Path::new(a) == std::path::Path::new(b)
}

/// Whether the directory entry `file_name` at `path` is the full log of a
/// past run that may be deleted: a run log whose path is, as `Path`
/// compares, neither `latest_log` nor the active run's log.
pub fn is_history_log(file_name: &str, path: &str, latest_log: &str, active_log: &Option<String>) -> (r: bool)
    ensures
        exists|same_as_latest: bool, same_as_active: bool|
            #![trigger history_log_decision(file_name@, same_as_latest, same_as_active)]
            {
                &&& r == history_log_decision(file_name@, same_as_latest, same_as_active)
                &&& path@ == latest_log@ ==> same_as_latest
                &&& (match *active_log {
                    Some(a) => a@ == path@ ==> same_as_active,
                    None => !same_as_active,
                })
            },
{
    let same_as_latest = same_path(path, latest_log);
    let same_as_active = match active_log {
        Some(a) => same_path(a.as_str(), path),
        None => false,
    };
    let r = is_history_log_with(file_name, same_as_latest, same_as_active);
    assert(history_log_decision(file_name@, same_as_latest, same_as_active) == r);
    r
}

} // verus!

verus! {

/// A run's persisted status. The progress bar is left out: it is a float
/// that the caller computes from [`StatusBuilder::progress`].
#[derive(Debug, Clone)]
pub struct TaskStatus {
    pub run_id: String,
    pub owner_pid: u32,
    pub child_pid: Option<u32>,
    pub child_pids: Vec<u32>,
    pub status: RunStatus,
    pub run_mode: RunMode,
    pub keep_alive_enabled: bool,
    pub concurrency: u64,
    pub active_workers: u64,
    pub message: String,
    pub command: String,
    pub work_dir: String,
    pub log_file: String,
    pub latest_log: String,
    pub attempt: u64,
    pub retry_count: u64,
    pub high_demand_count: u64,
    pub max_tries: u64,
    pub interval_seconds: u64,
    pub last_exit_code: Option<i32>,
    pub last_error_snippet: String,
    pub result_preview: String,
    pub started_at: String,
    pub updated_at: String,
}

/// Payload of the event that tells the UI a run's log grew.
#[derive(Debug, Clone)]
pub struct LogEvent {
    pub run_id: String,
}

/// Which progress value a status shows.
#[derive(Debug, Clone, Copy, PartialEq, Eq, Structural)]
pub enum Progress {
    /// An active run with a budget: `attempt / max_tries` as a percentage,
    /// capped at 99 until the run ends.
    Fraction { attempt: u64, max_tries: u64 },
    /// An active run without a budget: 0.
    Unbounded,
    /// A finished run: 100.
    Finished,
}

/// Strictly increasing worker ids.
pub open spec fn ascending(keys: Seq<usize>) -> bool {
    forall|i: int, j: int| 0 <= i < j < keys.len() ==> keys[i] < keys[j]
}

/// `pids` lists the map's values ordered by worker id.
pub open spec fn in_worker_order(m: Map<usize, u32>, pids: Seq<u32>) -> bool {
    exists|keys: Seq<usize>|
        {
            &&& ascending(keys)
            &&& keys.to_set() == m.dom()
            &&& pids == keys.map_values(|k: usize| m[k])
        }
}

/// The first pid of a list, if any.
pub open spec fn first_pid(pids: Seq<u32>) -> Option<u32> {
    if pids.len() > 0 {
        Some(pids[0])
    } else {
        None
    }
}

fn pids_in_worker_order(m: &BTreeMap<usize, u32>) -> (out: Vec<u32>)
    ensures
        in_worker_order(m@, out@),
{
    broadcast use vstd::std_specs::btree::group_btree_axioms;
    broadcast use vstd::laws_cmp::group_laws_cmp;

    let mut out: Vec<u32> = Vec::new();
    let vals = m.values();
    assert(vstd::std_specs::btree::key_obeys_cmp_spec::<usize>());
    let ghost keys = choose|key_seq: Seq<usize>|
        {
            &&& vstd::std_specs::btree::increasing_seq(key_seq)
            &&& key_seq.to_set() == m@.dom()
            &&& key_seq.no_duplicates()
            &&& vstd::std_specs::iter::IteratorSpec::remaining(&vals) == key_seq.map(
                |i: int, k| &m@[k],
            )
        };
    for v in it: vals
        invariant
            it.seq() == keys.map(|i: int, k| &m@[k]),
            out@ == it.seq().take(it.index()).map_values(|r: &u32| *r),
    {
        out.push(*v);
    }
    proof {
        assert(out@ =~= keys.map_values(|k: usize| m@[k]));
        assert forall|i: int, j: int| 0 <= i < j < keys.len() implies keys[i] < keys[j] by {
            assert(vstd::std_specs::cmp::OrdSpec::cmp_spec(&keys[i], &keys[j]) is Less);
        }
    }
    out
}

impl StatusBuilder {
    /// The status to persist for the run as it stands, in state `status`
    /// with `message`; `updated_at` is the current time.
    pub fn build(&self, status: RunStatus, message: String) -> (t: TaskStatus)
        ensures
            t.run_id == self.run_id,
            t.owner_pid == self.owner_pid,
            in_worker_order(self.child_pids@, t.child_pids@),
            t.child_pid == first_pid(t.child_pids@),
            t.status == status,
            t.run_mode == self.run_mode,
            t.keep_alive_enabled == self.keep_alive_enabled,
            t.concurrency == self.concurrency,
            t.active_workers == self.active_workers,
            t.message == message,
            t.command@ == self.command@,
            t.work_dir@ == self.work_dir@,
            t.log_file@ == self.log_file@,
            t.latest_log@ == self.latest_log@,
            t.attempt == self.attempt,
            t.retry_count == self.retry_count,
            t.high_demand_count == self.high_demand_count,
            t.max_tries == self.max_tries,
            t.interval_seconds == self.interval_seconds,
            t.last_exit_code == self.last_exit_code,
            t.last_error_snippet@ == self.last_error_snippet@,
            t.result_preview@ == self.result_preview@,
            t.started_at@ == self.started_at@,
            utc_rfc3339_text(t.updated_at@),
    {
        let child_pids = pids_in_worker_order(&self.child_pids);
        let child_pid = if child_pids.len() > 0 {
            Some(child_pids[0])
        } else {
            None
        };
        TaskStatus {
            run_id: self.run_id.clone(),
            owner_pid: self.owner_pid,
            child_pid,
            child_pids,
            status,
            run_mode: self.run_mode,
            keep_alive_enabled: self.keep_alive_enabled,
            concurrency: self.concurrency,
            active_workers: self.active_workers,
            message,
            command: self.command.clone(),
            work_dir: self.work_dir.clone(),
            log_file: self.log_file.clone(),
            latest_log: self.latest_log.clone(),
            attempt: self.attempt,
            retry_count: self.retry_count,
            high_demand_count: self.high_demand_count,
            max_tries: self.max_tries,
            interval_seconds: self.interval_seconds,
            last_exit_code: self.last_exit_code,
            last_error_snippet: self.last_error_snippet.clone(),
            result_preview: self.result_preview.clone(),
            started_at: self.started_at.clone(),
            updated_at: crate::notifications::utc_now_rfc3339(),
        }
    }

    /// Which progress value a status in state `status` shows.
    pub fn progress(&self, status: RunStatus) -> (p: Progress)
        ensures
            p == (if status_is_active(status) && self.max_tries > 0 {
                Progress::Fraction { attempt: self.attempt, max_tries: self.max_tries }
            } else if status_is_active(status) {
                Progress::Unbounded
            } else {
                Progress::Finished
            }),
    {
        if status.is_active() && self.max_tries > 0 {
            Progress::Fraction { attempt: self.attempt, max_tries: self.max_tries }
        } else if status.is_active() {
            Progress::Unbounded
        } else {
            Progress::Finished
        }
    }
}

impl TaskStatus {
    /// Marks the run `run_id` failed with `message` when the status still
    /// shows it active: its children and workers are gone, the snippet
    /// repeats the message and `updated_at` moves to now. Returns whether
    /// the status changed; any other status is left as it is.
    pub fn fail_if_active(&mut self, run_id: &str, message: &str) -> (changed: bool)
        ensures
            changed == (old(self).run_id@ == run_id@ && status_is_active(old(self).status)),
            !changed ==> *final(self) == *old(self),
            changed ==> {
                &&& final(self).status == RunStatus::Failed
                &&& final(self).child_pid is None
                &&& final(self).child_pids@.len() == 0
                &&& final(self).active_workers == 0
                &&& final(self).message@ == message@
                &&& final(self).last_error_snippet@ == snippet_spec(message@, 280)
                &&& utc_rfc3339_text(final(self).updated_at@)
                &&& *final(self) == (TaskStatus {
                    status: RunStatus::Failed,
                    child_pid: None,
                    child_pids: final(self).child_pids,
                    active_workers: 0,
                    message: final(self).message,
                    last_error_snippet: final(self).last_error_snippet,
                    updated_at: final(self).updated_at,
                    ..*old(self)
                })
            },
    {
        if !crate::text::str_eq(self.run_id.as_str(), run_id) || !self.status.is_active() {
            return false;
        }
        self.status = RunStatus::Failed;
        self.child_pid = None;
        self.child_pids = Vec::new();
        self.active_workers = 0;
        self.message = owned(message);
        self.last_error_snippet = get_snippet(message, 280);
        self.updated_at = crate::notifications::utc_now_rfc3339();
        true
    }
}

impl TaskStatus {
    /// Records that the task driving this run panicked: the run failed with
    /// `message`, its child is gone and `updated_at` moves to now; the
    /// other fields stay as they were.
    pub fn mark_panicked(&mut self, message: &str)
        ensures
            final(self).message@ == message@,
            final(self).last_error_snippet@ == snippet_spec(message@, 280),
            utc_rfc3339_text(final(self).updated_at@),
            *final(self) == (TaskStatus {
                status: RunStatus::Failed,
                child_pid: None,
                message: final(self).message,
                last_error_snippet: final(self).last_error_snippet,
                updated_at: final(self).updated_at,
                ..*old(self)
            }),
    {
        self.status = RunStatus::Failed;
        self.child_pid = None;
        self.message = owned(message);
        self.last_error_snippet = get_snippet(message, 280);
        self.updated_at = crate::notifications::utc_now_rfc3339();
    }
}

} // verus!
