//! Notification events about runs: what they carry, how they are worded
//! for each channel, which of them are sent, and how channel results are
//! combined and logged.
use crate::config::{DesktopNotificationConfig, EmailNotificationConfig, ServerChanConfig};
use crate::retry::{RunMode, RunStatus};
use crate::server_chan::{bound_chars, bounded, DeliveryReceipt};
use crate::text::{
    decimal, join, join_chars, owned, push_decimal, push_signed_decimal, push_str, signed_decimal,
    str_chars, string_from_chars, trim, trim_str,
};
use vstd::prelude::*;

verus! {

/// Longest event message, in characters.
pub const MAX_EVENT_MESSAGE_CHARS: usize = 800;

/// Longest desktop notification body, in characters.
pub const MAX_DESKTOP_BODY_CHARS: usize = 360;

/// Whether the Server Chan send key is stored.
#[derive(Debug, Clone, Copy, PartialEq, Eq, Structural)]
pub struct ServerChanCredentialStatus {
    pub configured: bool,
}

/// Whether the SMTP password is stored.
#[derive(Debug, Clone, Copy, PartialEq, Eq, Structural)]
pub struct EmailCredentialStatus {
    pub configured: bool,
}

/// Kinds of notification.
#[derive(Debug, Clone, Copy, PartialEq, Eq, Structural)]
pub enum NotificationEventType {
    RunSucceeded,
    RunFailed,
    RunStopped,
    StartFailed,
    Test,
}

/// Stable key of an event kind.
pub open spec fn event_key(t: NotificationEventType) -> Seq<char> {
    match t {
        NotificationEventType::RunSucceeded => "runSucceeded"@,
        NotificationEventType::RunFailed => "runFailed"@,
        NotificationEventType::RunStopped => "runStopped"@,
        NotificationEventType::StartFailed => "startFailed"@,
        NotificationEventType::Test => "test"@,
    }
}

/// Title of an event kind.
pub open spec fn event_title(t: NotificationEventType) -> Seq<char> {
    match t {
        NotificationEventType::RunSucceeded => "[Codex Launcher] 重试流程首次成功"@,
        NotificationEventType::RunFailed => "[Codex Launcher] 任务失败"@,
        NotificationEventType::RunStopped => "[Codex Launcher] 任务已停止"@,
        NotificationEventType::StartFailed => "[Codex Launcher] 任务启动失败"@,
        NotificationEventType::Test => "[Codex Launcher] 测试通知"@,
    }
}

impl NotificationEventType {
    /// The kind's stable key, used in event ids and logs.
    pub fn key(self) -> (r: &'static str)
        ensures
            r@ == event_key(self),
    {
        match self {
            NotificationEventType::RunSucceeded => "runSucceeded",
            NotificationEventType::RunFailed => "runFailed",
            NotificationEventType::RunStopped => "runStopped",
            NotificationEventType::StartFailed => "startFailed",
            NotificationEventType::Test => "test",
        }
    }

    /// The kind's title.
    pub fn title(self) -> (r: &'static str)
        ensures
            r@ == event_title(self),
    {
        match self {
            NotificationEventType::RunSucceeded => "[Codex Launcher] 重试流程首次成功",
            NotificationEventType::RunFailed => "[Codex Launcher] 任务失败",
            NotificationEventType::RunStopped => "[Codex Launcher] 任务已停止",
            NotificationEventType::StartFailed => "[Codex Launcher] 任务启动失败",
            NotificationEventType::Test => "[Codex Launcher] 测试通知",
        }
    }
}

/// What an event reads of a finished run's status.
#[derive(Debug)]
pub struct TerminalStatus {
    pub run_id: String,
    pub status: RunStatus,
    pub run_mode: RunMode,
    pub attempt: u64,
    pub retry_count: u64,
    pub max_tries: u64,
    pub last_exit_code: Option<i32>,
    pub high_demand_count: u64,
    pub message: String,
    pub started_at: String,
    pub updated_at: String,
}

/// A notification about a run.
#[derive(Debug)]
pub struct NotificationEvent {
    pub schema_version: u32,
    pub event_id: String,
    pub event_type: NotificationEventType,
    pub occurred_at: String,
    pub run_id: String,
    pub run_mode: Option<RunMode>,
    pub status: RunStatus,
    pub attempt: u64,
    pub retry_count: u64,
    pub max_tries: u64,
    pub exit_code: Option<i32>,
    pub high_demand_count: u64,
    pub duration_seconds: u64,
    pub message: String,
}

/// What `chrono::DateTime::parse_from_rfc3339` makes of `s`: the instant's
/// Unix seconds and sub-second nanoseconds, or `None` when `s` is not
/// RFC 3339.
pub uninterp spec fn rfc3339_instant(s: Seq<char>) -> Option<(i64, u32)>;

/// Calls `chrono::DateTime::parse_from_rfc3339` and reads `timestamp` and
/// `timestamp_subsec_nanos`; the result is named [`rfc3339_instant`].
#[verifier::external_body]
fn parse_rfc3339(s: &str) -> (r: Option<(i64, u32)>)
    ensures
        r == rfc3339_instant(s@),
{
    match chrono::DateTime::parse_from_rfc3339(s) {
        Ok(t) => Some((t.timestamp(), t.timestamp_subsec_nanos())),
        Err(_) => None,
    }
}

/// Whole seconds from `start` to `end`, truncated toward zero, as chrono's
/// `TimeDelta::num_seconds` of their difference.
pub open spec fn whole_seconds_between(start: (i64, u32), end: (i64, u32)) -> int {
    let total = (end.0 - start.0) * 1000000000 + (end.1 - start.1);
    if total >= 0 {
        total / 1000000000
    } else {
        -((-total) / 1000000000)
    }
}

/// Seconds a run took: from its start to its last update, never negative,
/// and 0 when either time does not parse (saturating at `u64::MAX`, far
/// beyond the range chrono can represent).
pub open spec fn elapsed_spec(started_at: Seq<char>, updated_at: Seq<char>) -> u64 {
    match (rfc3339_instant(started_at), rfc3339_instant(updated_at)) {
        (Some(s), Some(u)) => {
            let d = whole_seconds_between(s, u);
            if d < 0 {
                0
            } else if d > u64::MAX {
                u64::MAX
            } else {
                d as u64
            }
        },
        _ => 0,
    }
}

/// Seconds between two RFC 3339 times.
pub fn elapsed_seconds(started_at: &str, updated_at: &str) -> (r: u64)
    ensures
        r == elapsed_spec(started_at@, updated_at@),
{
    match (parse_rfc3339(started_at), parse_rfc3339(updated_at)) {
        (Some(s), Some(u)) => {
            let total: i128 = (u.0 as i128 - s.0 as i128) * 1000000000 + (u.1 as i128 - s.1 as i128);
            if total < 0 {
                return 0;
            }
            let d: i128 = total / 1000000000;
            if d > 18446744073709551615i128 {
                u64::MAX
            } else {
                d as u64
            }
        },
        _ => 0,
    }
}

/// The event kind for a finished run's status; an active status cannot be
/// terminal and counts as a failure.
pub open spec fn terminal_event_type(s: RunStatus) -> NotificationEventType {
    match s {
        RunStatus::Success => NotificationEventType::RunSucceeded,
        RunStatus::Failed => NotificationEventType::RunFailed,
        RunStatus::Stopped => NotificationEventType::RunStopped,
        _ => NotificationEventType::RunFailed,
    }
}

impl NotificationEvent {
    /// The event for a finished run. It carries counters, the bounded
    /// message and the duration, and never the command, paths or output.
    pub fn from_terminal(status: &TerminalStatus) -> (e: NotificationEvent)
        ensures
            e.schema_version == 1,
            e.event_type == terminal_event_type(status.status),
            e.event_id@ == status.run_id@ + ":"@ + event_key(e.event_type),
            e.occurred_at@ == status.updated_at@,
            e.run_id@ == status.run_id@,
            e.run_mode == Some(status.run_mode),
            e.status == status.status,
            e.attempt == status.attempt,
            e.retry_count == status.retry_count,
            e.max_tries == status.max_tries,
            e.exit_code == status.last_exit_code,
            e.high_demand_count == status.high_demand_count,
            e.duration_seconds == elapsed_spec(status.started_at@, status.updated_at@),
            e.message@ == bounded(status.message@, MAX_EVENT_MESSAGE_CHARS as nat),
    {
        let event_type = match status.status {
            RunStatus::Success => NotificationEventType::RunSucceeded,
            RunStatus::Failed => NotificationEventType::RunFailed,
            RunStatus::Stopped => NotificationEventType::RunStopped,
            _ => NotificationEventType::RunFailed,
        };
        let mut id: Vec<char> = Vec::new();
        push_str(&mut id, status.run_id.as_str());
        push_str(&mut id, ":");
        push_str(&mut id, event_type.key());
        let message = str_chars(status.message.as_str());
        NotificationEvent {
            schema_version: 1,
            event_id: string_from_chars(&id),
            event_type,
            occurred_at: owned(status.updated_at.as_str()),
            run_id: owned(status.run_id.as_str()),
            run_mode: Some(status.run_mode),
            status: status.status,
            attempt: status.attempt,
            retry_count: status.retry_count,
            max_tries: status.max_tries,
            exit_code: status.last_exit_code,
            high_demand_count: status.high_demand_count,
            duration_seconds: elapsed_seconds(status.started_at.as_str(), status.updated_at.as_str()),
            message: bound_chars(&message, MAX_EVENT_MESSAGE_CHARS),
        }
    }

    /// An event not tied to a run, with the given kind, id prefix, run id,
    /// status and message.
    fn standalone(
        event_type: NotificationEventType,
        id_prefix: &str,
        uuid: &str,
        occurred_at: String,
        run_id: &str,
        status: RunStatus,
        message: &str,
    ) -> (e: NotificationEvent)
        ensures
            e.schema_version == 1,
            e.event_type == event_type,
            e.event_id@ == id_prefix@ + ":"@ + uuid@,
            e.occurred_at == occurred_at,
            e.run_id@ == run_id@,
            e.run_mode is None,
            e.status == status,
            e.attempt == 0,
            e.retry_count == 0,
            e.max_tries == 0,
            e.exit_code is None,
            e.high_demand_count == 0,
            e.duration_seconds == 0,
            e.message@ == bounded(message@, MAX_EVENT_MESSAGE_CHARS as nat),
    {
        let mut id: Vec<char> = Vec::new();
        push_str(&mut id, id_prefix);
        push_str(&mut id, ":");
        push_str(&mut id, uuid);
        let m = str_chars(message);
        NotificationEvent {
            schema_version: 1,
            event_id: string_from_chars(&id),
            event_type,
            occurred_at,
            run_id: owned(run_id),
            run_mode: None,
            status,
            attempt: 0,
            retry_count: 0,
            max_tries: 0,
            exit_code: None,
            high_demand_count: 0,
            duration_seconds: 0,
            message: bound_chars(&m, MAX_EVENT_MESSAGE_CHARS),
        }
    }

    /// The event for a run that could not start, stamped now with a fresh
    /// random id.
    pub fn start_failed(message: &str) -> (e: NotificationEvent)
        ensures
            e.schema_version == 1,
            e.event_type == NotificationEventType::StartFailed,
            e.event_id@.len() == 38,
            e.event_id@.take(6) == "start:"@,
            utc_rfc3339_text(e.occurred_at@),
            e.run_id@ == "not-started"@,
            e.run_mode is None,
            e.status == RunStatus::Failed,
            e.attempt == 0 && e.retry_count == 0 && e.max_tries == 0,
            e.exit_code is None,
            e.high_demand_count == 0,
            e.duration_seconds == 0,
            e.message@ == bounded(message@, MAX_EVENT_MESSAGE_CHARS as nat),
    {
        let occurred_at = utc_now_rfc3339();
        let uuid = new_uuid_simple();
        let e = NotificationEvent::standalone(
            NotificationEventType::StartFailed,
            "start",
            uuid.as_str(),
            occurred_at,
            "not-started",
            RunStatus::Failed,
            message,
        );
        proof {
            reveal_strlit("start");
            reveal_strlit(":");
            reveal_strlit("start:");
            assert(e.event_id@.take(6) =~= "start:"@);
        }
        e
    }

    /// A test event, stamped now with a fresh random id.
    pub fn test(message: &str) -> (e: NotificationEvent)
        ensures
            e.schema_version == 1,
            e.event_type == NotificationEventType::Test,
            e.event_id@.len() == 37,
            e.event_id@.take(5) == "test:"@,
            utc_rfc3339_text(e.occurred_at@),
            e.run_id@ == "test"@,
            e.run_mode is None,
            e.status == RunStatus::Success,
            e.attempt == 0 && e.retry_count == 0 && e.max_tries == 0,
            e.exit_code is None,
            e.high_demand_count == 0,
            e.duration_seconds == 0,
            e.message@ == bounded(message@, MAX_EVENT_MESSAGE_CHARS as nat),
    {
        let occurred_at = utc_now_rfc3339();
        let uuid = new_uuid_simple();
        let e = NotificationEvent::standalone(
            NotificationEventType::Test,
            "test",
            uuid.as_str(),
            occurred_at,
            "test",
            RunStatus::Success,
            message,
        );
        proof {
            reveal_strlit("test");
            reveal_strlit(":");
            reveal_strlit("test:");
            assert(e.event_id@.take(5) =~= "test:"@);
        }
        e
    }

    /// The event's title.
    pub fn title(&self) -> (r: &'static str)
        ensures
            r@ == event_title(self.event_type),
    {
        self.event_type.title()
    }
}

/// Whether `s` has the length of `layout` and, where `layout` holds `#`,
/// an ASCII digit, and elsewhere the layout's own character.
pub open spec fn fits_layout(s: Seq<char>, layout: Seq<char>) -> bool {
    &&& s.len() == layout.len()
    &&& forall|i: int|
        0 <= i < s.len() ==> if layout[i] == '#' {
            '0' <= #[trigger] s[i] <= '9'
        } else {
            s[i] == layout[i]
        }
}

/// A year as chrono's `%Y` (and RFC 3339) writes it: four digits for the
/// years 0 to 9999, else a sign followed by at least four digits.
pub open spec fn year_field(y: Seq<char>) -> bool {
    ||| fits_layout(y, "####"@)
    ||| (y.len() >= 5 && (y[0] == '+' || y[0] == '-') && forall|i: int|
        1 <= i < y.len() ==> '0' <= #[trigger] y[i] <= '9')
}

/// A year field followed by the fixed-width `rest` of a time layout.
pub open spec fn year_then(s: Seq<char>, rest: Seq<char>) -> bool {
    s.len() >= rest.len() && year_field(s.take(s.len() - rest.len())) && fits_layout(
        s.skip(s.len() - rest.len()),
        rest,
    )
}

/// The local time as `%Y%m%d-%H%M%S` lays it out.
pub open spec fn compact_local_time(s: Seq<char>) -> bool {
    year_then(s, "####-######"@)
}

/// The local time as `%Y-%m-%d %H:%M:%S` lays it out.
pub open spec fn local_time_stamp(s: Seq<char>) -> bool {
    year_then(s, "-##-## ##:##:##"@)
}

/// The fraction `to_rfc3339` writes: none, or a dot and 3, 6 or 9 digits.
pub open spec fn rfc3339_fraction(f: Seq<char>) -> bool {
    ||| f.len() == 0
    ||| fits_layout(f, ".###"@)
    ||| fits_layout(f, ".######"@)
    ||| fits_layout(f, ".#########"@)
}

/// A UTC instant as chrono's `to_rfc3339` writes it: year, `-MM-DDTHH:MM:SS`,
/// an optional fraction, and the offset `+00:00`.
pub open spec fn utc_rfc3339_text(s: Seq<char>) -> bool {
    exists|y: Seq<char>, m: Seq<char>, f: Seq<char>|
        #![trigger year_field(y), fits_layout(m, "-##-##T##:##:##"@), rfc3339_fraction(f)]
        year_field(y) && fits_layout(m, "-##-##T##:##:##"@) && rfc3339_fraction(f) && s == y
            + m + f + "+00:00"@
}

/// Whether every character of `s` is a lower-case hexadecimal digit.
pub open spec fn lower_hex(s: Seq<char>) -> bool {
    forall|i: int|
        0 <= i < s.len() ==> ('0' <= #[trigger] s[i] <= '9') || ('a' <= s[i] <= 'f')
}

/// The current time from `chrono::Utc::now().to_rfc3339()`. Which instant
/// depends on the clock; chrono's `write_rfc3339` always lays it out as
/// [`utc_rfc3339_text`] says (a UTC offset is written `+00:00`).
#[verifier::external_body]
pub(crate) fn utc_now_rfc3339() -> (r: String)
    ensures
        utc_rfc3339_text(r@),
{
    chrono::Utc::now().to_rfc3339()
}

/// A fresh random id from `uuid::Uuid::new_v4().simple()`, which uuid
/// writes as 32 lower-case hexadecimal digits (its `LowerHex` form).
#[verifier::external_body]
pub(crate) fn new_uuid_simple() -> (r: String)
    ensures
        r@.len() == 32,
        lower_hex(r@),
{
    uuid::Uuid::new_v4().simple().to_string()
}

/// The local time from chrono's `Local::now().format("%Y%m%d-%H%M%S")`.
/// Which time depends on the clock; the layout is always
/// [`compact_local_time`] (`%Y` is four zero-padded digits for the years 0
/// to 9999, else signed; the other fields are two zero-padded digits).
#[verifier::external_body]
pub(crate) fn local_time_compact() -> (r: String)
    ensures
        compact_local_time(r@),
{
    chrono::Local::now().format("%Y%m%d-%H%M%S").to_string()
}

/// The local time from chrono's `Local::now().format("%Y-%m-%d %H:%M:%S")`.
/// Which time depends on the clock; the layout is always
/// [`local_time_stamp`].
#[verifier::external_body]
pub(crate) fn local_time_now() -> (r: String)
    ensures
        local_time_stamp(r@),
{
    chrono::Local::now().format("%Y-%m-%d %H:%M:%S").to_string()
}

/// Label of a run mode.
pub open spec fn run_mode_text(m: RunMode) -> Seq<char> {
    match m {
        RunMode::Retry => "普通重试"@,
        RunMode::ManualKeepAlive => "手动保活"@,
    }
}

/// Labels a run mode.
pub fn run_mode_label(mode: RunMode) -> (r: &'static str)
    ensures
        r@ == run_mode_text(mode),
{
    match mode {
        RunMode::Retry => "普通重试",
        RunMode::ManualKeepAlive => "手动保活",
    }
}

/// Label of a run status.
pub open spec fn run_status_text(s: RunStatus) -> Seq<char> {
    match s {
        RunStatus::Starting => "启动中"@,
        RunStatus::Running => "运行中"@,
        RunStatus::Success => "成功"@,
        RunStatus::Failed => "失败"@,
        RunStatus::Stopped => "已停止"@,
    }
}

/// Labels a run status.
pub fn run_status_label(status: RunStatus) -> (r: &'static str)
    ensures
        r@ == run_status_text(status),
{
    match status {
        RunStatus::Starting => "启动中",
        RunStatus::Running => "运行中",
        RunStatus::Success => "成功",
        RunStatus::Failed => "失败",
        RunStatus::Stopped => "已停止",
    }
}

/// The attempt budget as shown: `无限` for unlimited.
pub open spec fn max_tries_text(max_tries: u64) -> Seq<char> {
    if max_tries == 0 {
        "无限"@
    } else {
        decimal(max_tries as nat)
    }
}

/// Shows the attempt budget.
pub fn max_tries_label(max_tries: u64) -> (r: String)
    ensures
        r@ == max_tries_text(max_tries),
{
    if max_tries == 0 {
        owned("无限")
    } else {
        crate::text::decimal_string(max_tries)
    }
}

/// Cuts text to `max_chars` characters, marking the cut with `...`.
pub fn bound_text(value: &str, max_chars: usize) -> (r: String)
    ensures
        r@ == bounded(value@, max_chars as nat),
{
    let v = str_chars(value);
    bound_chars(&v, max_chars)
}

/// The markdown body of an event, as sent by push and e-mail.
pub open spec fn markdown_spec(e: NotificationEvent) -> Seq<char> {
    "**状态**："@ + run_status_text(e.status) + "\n\n- Run ID：`"@ + e.run_id@ + "`\n- 运行模式："@
        + match e.run_mode {
        Some(m) => run_mode_text(m),
        None => "尚未启动"@,
    } + "\n- Attempt："@ + decimal(e.attempt as nat) + " / "@ + max_tries_text(e.max_tries)
        + "\n- Retry count："@ + decimal(e.retry_count as nat) + "\n- Exit code："@
        + match e.exit_code {
        Some(c) => signed_decimal(c as int),
        None => "N/A"@,
    } + "\n- High-demand："@ + decimal(e.high_demand_count as nat) + "\n- 耗时："@ + decimal(
        e.duration_seconds as nat,
    ) + " 秒\n- 时间："@ + e.occurred_at@ + "\n\n**消息**\n\n"@ + e.message@
}

/// The markdown body of an event opens with its status, and shows on lines
/// of their own the event's attempt number against its limit, then its
/// retry count.
pub proof fn law_markdown_shows_attempt_and_retries(e: NotificationEvent)
    ensures
        markdown_spec(e).take(("**状态**："@ + run_status_text(e.status)).len() as int)
            == "**状态**："@ + run_status_text(e.status),
        exists|head: Seq<char>, tail: Seq<char>|
            #![auto]
            markdown_spec(e) == head + "\n- Attempt："@ + decimal(e.attempt as nat) + " / "@
                + max_tries_text(e.max_tries) + "\n- Retry count："@ + decimal(e.retry_count as nat)
                + "\n"@ + tail,
        ({
            let last = "\n\n**消息**\n\n"@ + e.message@;
            markdown_spec(e).len() >= last.len() && markdown_spec(e).skip(
                markdown_spec(e).len() - last.len(),
            ) == last
        }),
{
    let mode = match e.run_mode {
        Some(m) => run_mode_text(m),
        None => "尚未启动"@,
    };
    let status = "**状态**："@ + run_status_text(e.status);
    let head = status + "\n\n- Run ID：`"@ + e.run_id@ + "`\n- 运行模式："@ + mode;
    let exit = match e.exit_code {
        Some(c) => signed_decimal(c as int),
        None => "N/A"@,
    };
    let tail = "- Exit code："@ + exit + "\n- High-demand："@ + decimal(e.high_demand_count as nat)
        + "\n- 耗时："@ + decimal(e.duration_seconds as nat) + " 秒\n- 时间："@ + e.occurred_at@
        + "\n\n**消息**\n\n"@ + e.message@;
    reveal_strlit("\n- Exit code：");
    reveal_strlit("- Exit code：");
    reveal_strlit("\n");
    assert("\n- Exit code："@ =~= "\n"@ + "- Exit code："@);
    let body = head + "\n- Attempt："@ + decimal(e.attempt as nat) + " / "@ + max_tries_text(e.max_tries)
        + "\n- Retry count："@ + decimal(e.retry_count as nat) + "\n"@ + tail;
    assert(markdown_spec(e) =~= body);
    assert(markdown_spec(e).take(status.len() as int) =~= status);
    let last = "\n\n**消息**\n\n"@ + e.message@;
    assert(markdown_spec(e).skip(markdown_spec(e).len() - last.len()) =~= last);
}

/// The desktop body of an event: the test message alone, or counters and
/// the message, bounded.
pub open spec fn desktop_spec(e: NotificationEvent) -> Seq<char> {
    if e.event_type == NotificationEventType::Test {
        bounded(e.message@, MAX_DESKTOP_BODY_CHARS as nat)
    } else {
        bounded(
            "Attempt "@ + decimal(e.attempt as nat) + " / "@ + max_tries_text(e.max_tries)
                + " · Retry "@ + decimal(e.retry_count as nat) + " · 耗时 "@ + decimal(
                e.duration_seconds as nat,
            ) + " 秒\n"@ + e.message@,
            MAX_DESKTOP_BODY_CHARS as nat,
        )
    }
}

impl NotificationEvent {
    /// The markdown body for push and e-mail.
    pub fn markdown_description(&self) -> (r: String)
        ensures
            r@ == markdown_spec(*self),
    {
        let mut m: Vec<char> = Vec::new();
        push_str(&mut m, "**状态**：");
        push_str(&mut m, run_status_label(self.status));
        push_str(&mut m, "\n\n- Run ID：`");
        push_str(&mut m, self.run_id.as_str());
        push_str(&mut m, "`\n- 运行模式：");
        match self.run_mode {
            Some(mode) => push_str(&mut m, run_mode_label(mode)),
            None => push_str(&mut m, "尚未启动"),
        }
        push_str(&mut m, "\n- Attempt：");
        push_decimal(&mut m, self.attempt);
        push_str(&mut m, " / ");
        let max = max_tries_label(self.max_tries);
        push_str(&mut m, max.as_str());
        push_str(&mut m, "\n- Retry count：");
        push_decimal(&mut m, self.retry_count);
        push_str(&mut m, "\n- Exit code：");
        match self.exit_code {
            Some(c) => push_signed_decimal(&mut m, c as i64),
            None => push_str(&mut m, "N/A"),
        }
        push_str(&mut m, "\n- High-demand：");
        push_decimal(&mut m, self.high_demand_count);
        push_str(&mut m, "\n- 耗时：");
        push_decimal(&mut m, self.duration_seconds);
        push_str(&mut m, " 秒\n- 时间：");
        push_str(&mut m, self.occurred_at.as_str());
        push_str(&mut m, "\n\n**消息**\n\n");
        push_str(&mut m, self.message.as_str());
        assert(m@ =~= markdown_spec(*self));
        string_from_chars(&m)
    }

    /// The body of a desktop notification.
    pub fn desktop_description(&self) -> (r: String)
        ensures
            r@ == desktop_spec(*self),
    {
        if self.event_type == NotificationEventType::Test {
            return bound_text(self.message.as_str(), MAX_DESKTOP_BODY_CHARS);
        }
        let mut m: Vec<char> = Vec::new();
        push_str(&mut m, "Attempt ");
        push_decimal(&mut m, self.attempt);
        push_str(&mut m, " / ");
        let max = max_tries_label(self.max_tries);
        push_str(&mut m, max.as_str());
        push_str(&mut m, " · Retry ");
        push_decimal(&mut m, self.retry_count);
        push_str(&mut m, " · 耗时 ");
        push_decimal(&mut m, self.duration_seconds);
        push_str(&mut m, " 秒\n");
        push_str(&mut m, self.message.as_str());
        assert(m@ =~= "Attempt "@ + decimal(self.attempt as nat) + " / "@ + max_tries_text(
            self.max_tries,
        ) + " · Retry "@ + decimal(self.retry_count as nat) + " · 耗时 "@ + decimal(
            self.duration_seconds as nat,
        ) + " 秒\n"@ + self.message@);
        bound_chars(&m, MAX_DESKTOP_BODY_CHARS)
    }
}

/// Whether a run event is sent at all: only the success of a retry run.
pub open spec fn should_notify_spec(e: NotificationEvent) -> bool {
    e.event_type == NotificationEventType::RunSucceeded && e.run_mode == Some(RunMode::Retry)
        && e.status == RunStatus::Success
}

/// Decides [`should_notify_spec`].
pub fn should_notify(event: &NotificationEvent) -> (r: bool)
    ensures
        r == should_notify_spec(*event),
{
    event.event_type == NotificationEventType::RunSucceeded && event.run_mode == Some(
        RunMode::Retry,
    ) && event.status == RunStatus::Success
}

/// View of a channel result.
pub open spec fn channel_view(r: Result<(), String>) -> Result<(), Seq<char>> {
    match r {
        Ok(()) => Ok(()),
        Err(e) => Err(e@),
    }
}

/// The errors of the channels that failed, each labelled with its
/// channel, in channel order.
pub open spec fn channel_errors(server_chan: Result<(), Seq<char>>, desktop: Result<(), Seq<char>>, email: Result<(), Seq<char>>) -> Seq<Seq<char>> {
    let a: Seq<Seq<char>> = match server_chan {
        Err(e) => seq!["Server酱: "@ + e],
        Ok(()) => seq![],
    };
    let b: Seq<Seq<char>> = match desktop {
        Err(e) => seq!["桌面通知: "@ + e],
        Ok(()) => seq![],
    };
    let c: Seq<Seq<char>> = match email {
        Err(e) => seq!["邮件: "@ + e],
        Ok(()) => seq![],
    };
    a + b + c
}

fn push_labelled(errors: &mut Vec<Vec<char>>, label: &str, error: &String)
    ensures
        final(errors).deep_view() == old(errors).deep_view().push(label@ + error@),
{
    let ghost before = errors.deep_view();
    let mut v: Vec<char> = Vec::new();
    push_str(&mut v, label);
    push_str(&mut v, error.as_str());
    assert(v.deep_view() =~= v@);
    errors.push(v);
    assert(errors.deep_view() =~~= before.push(label@ + error@));
}

/// Combines the results of the three channels: success only when all
/// succeeded, else every failure, labelled and joined with `; `. A failing
/// channel never hides another channel's result.
pub fn merge_channel_results(
    server_chan_result: Result<(), String>,
    desktop_result: Result<(), String>,
    email_result: Result<(), String>,
) -> (r: Result<(), String>)
    ensures
        ({
            let errs = channel_errors(
                channel_view(server_chan_result),
                channel_view(desktop_result),
                channel_view(email_result),
            );
            channel_view(r) == if errs.len() == 0 {
                Ok::<(), Seq<char>>(())
            } else {
                Err(join(errs, "; "@))
            }
        }),
{
    let mut errors: Vec<Vec<char>> = Vec::new();
    if let Err(e) = &server_chan_result {
        push_labelled(&mut errors, "Server酱: ", e);
    }
    if let Err(e) = &desktop_result {
        push_labelled(&mut errors, "桌面通知: ", e);
    }
    if let Err(e) = &email_result {
        push_labelled(&mut errors, "邮件: ", e);
    }
    assert(errors.deep_view() =~= channel_errors(
        channel_view(server_chan_result),
        channel_view(desktop_result),
        channel_view(email_result),
    ));
    if errors.len() == 0 {
        Ok(())
    } else {
        let joined = join_chars(&errors, "; ");
        Err(string_from_chars(&joined))
    }
}


fn failed_outcome(error: &str) -> (r: String)
    ensures
        r@ == "failed error="@ + bounded(error@, 240),
{
    let b = bound_text(error, 240);
    let mut v: Vec<char> = Vec::new();
    push_str(&mut v, "failed error=");
    push_str(&mut v, b.as_str());
    string_from_chars(&v)
}

/// Log outcome of a push delivery.
pub open spec fn server_chan_outcome_spec(result: Result<DeliveryReceipt, String>) -> Seq<char> {
    match result {
        Ok(receipt) => "success attempts="@ + decimal(receipt.attempts as nat),
        Err(e) => "failed error="@ + bounded(e@, 240),
    }
}

/// Log outcome of a desktop or e-mail delivery.
pub open spec fn channel_outcome_spec(result: Result<(), String>) -> Seq<char> {
    match result {
        Ok(()) => "success"@,
        Err(e) => "failed error="@ + bounded(e@, 240),
    }
}

/// Describes a push delivery for the log.
pub fn server_chan_outcome(result: &Result<DeliveryReceipt, String>) -> (r: String)
    ensures
        r@ == server_chan_outcome_spec(*result),
{
    match result {
        Ok(receipt) => {
            let mut v: Vec<char> = Vec::new();
            push_str(&mut v, "success attempts=");
            push_decimal(&mut v, receipt.attempts as u64);
            string_from_chars(&v)
        },
        Err(e) => failed_outcome(e.as_str()),
    }
}

/// Describes a desktop or e-mail delivery for the log.
pub fn channel_outcome(result: &Result<(), String>) -> (r: String)
    ensures
        r@ == channel_outcome_spec(*result),
{
    match result {
        Ok(()) => owned("success"),
        Err(e) => failed_outcome(e.as_str()),
    }
}

/// A line of the notification log.
pub open spec fn delivery_entry_spec(timestamp: Seq<char>, channel: Seq<char>, e: NotificationEvent, outcome: Seq<char>) -> Seq<char> {
    "["@ + timestamp + "] channel="@ + channel + " eventId="@ + e.event_id@ + " type="@ + event_key(
        e.event_type,
    ) + " "@ + outcome
}

/// Builds a line of the notification log.
pub fn delivery_entry(timestamp: &str, channel: &str, event: &NotificationEvent, outcome: &str) -> (r: String)
    ensures
        r@ == delivery_entry_spec(timestamp@, channel@, *event, outcome@),
{
    let mut v: Vec<char> = Vec::new();
    push_str(&mut v, "[");
    push_str(&mut v, timestamp);
    push_str(&mut v, "] channel=");
    push_str(&mut v, channel);
    push_str(&mut v, " eventId=");
    push_str(&mut v, event.event_id.as_str());
    push_str(&mut v, " type=");
    push_str(&mut v, event.event_type.key());
    push_str(&mut v, " ");
    push_str(&mut v, outcome);
    assert(v@ =~= delivery_entry_spec(timestamp@, channel@, *event, outcome@));
    string_from_chars(&v)
}

/// The log line for a push delivery, stamped now.
pub fn record_server_chan_delivery(event: &NotificationEvent, result: &Result<DeliveryReceipt, String>) -> (r: String)
    ensures
        ({
            let outcome = server_chan_outcome_spec(*result);
            exists|ts: Seq<char>| local_time_stamp(ts) && r@ == #[trigger] delivery_entry_spec(ts, "serverChan"@, *event, outcome)
        }),
{
    let outcome = server_chan_outcome(result);
    let ts = local_time_now();
    let r = delivery_entry(ts.as_str(), "serverChan", event, outcome.as_str());
    assert(r@ == delivery_entry_spec(ts@, "serverChan"@, *event, server_chan_outcome_spec(*result)));
    r
}

/// The log line for a desktop delivery, stamped now.
pub fn record_desktop_delivery(event: &NotificationEvent, result: &Result<(), String>) -> (r: String)
    ensures
        ({
            let outcome = channel_outcome_spec(*result);
            exists|ts: Seq<char>| local_time_stamp(ts) && r@ == #[trigger] delivery_entry_spec(ts, "desktop"@, *event, outcome)
        }),
{
    let outcome = channel_outcome(result);
    let ts = local_time_now();
    let r = delivery_entry(ts.as_str(), "desktop", event, outcome.as_str());
    assert(r@ == delivery_entry_spec(ts@, "desktop"@, *event, channel_outcome_spec(*result)));
    r
}

/// The log line for an e-mail delivery, stamped now.
pub fn record_email_delivery(event: &NotificationEvent, result: &Result<(), String>) -> (r: String)
    ensures
        ({
            let outcome = channel_outcome_spec(*result);
            exists|ts: Seq<char>| local_time_stamp(ts) && r@ == #[trigger] delivery_entry_spec(ts, "email"@, *event, outcome)
        }),
{
    let outcome = channel_outcome(result);
    let ts = local_time_now();
    let r = delivery_entry(ts.as_str(), "email", event, outcome.as_str());
    assert(r@ == delivery_entry_spec(ts@, "email"@, *event, channel_outcome_spec(*result)));
    r
}

/// Whether a channel sends an event: it must be enabled and the event must
/// be one that is sent.
pub fn channel_sends(enabled: bool, event: &NotificationEvent) -> (r: bool)
    ensures
        r == (enabled && should_notify_spec(*event)),
{
    enabled && should_notify(event)
}

/// What a channel does with a stored secret it read: use it, or fail with
/// `missing` when there is none, or with the read error.
pub fn secret_for_delivery(read: Result<Option<String>, String>, missing: &str) -> (r: Result<String, String>)
    ensures
        match read {
            Ok(Some(s)) => r == Ok::<String, String>(s),
            Ok(None) => r matches Err(e) && e@ == missing@,
            Err(e) => r == Err::<String, String>(e),
        },
{
    match read {
        Ok(Some(s)) => Ok(s),
        Ok(None) => Err(owned(missing)),
        Err(e) => Err(e),
    }
}

/// The push channel's decision on a run event, given the stored key when
/// it was read: skip, fail, or deliver with the key.
pub fn server_chan_key(settings: ServerChanConfig, read: Result<Option<String>, String>) -> (r: Result<String, String>)
    ensures
        match read {
            Ok(Some(s)) => r == Ok::<String, String>(s),
            Ok(None) => r matches Err(e) && e@ == "通知已启用，但尚未配置 Server酱 SendKey"@,
            Err(e) => r == Err::<String, String>(e),
        },
{
    secret_for_delivery(read, "通知已启用，但尚未配置 Server酱 SendKey")
}

/// Whether the e-mail settings name a server, a sender and a recipient.
pub open spec fn email_complete(s: EmailNotificationConfig) -> bool {
    trim(s.smtp_host@).len() > 0 && trim(s.smtp_username@).len() > 0 && trim(s.to_address@).len()
        > 0
}

/// Checks that e-mail settings are complete before a run event is mailed.
pub fn email_settings_check(settings: &EmailNotificationConfig) -> (r: Result<(), String>)
    ensures
        r is Ok <==> email_complete(*settings),
        r matches Err(e) ==> e@ == "邮件通知已启用，但 SMTP 配置不完整"@,
{
    let host = trim_str(settings.smtp_host.as_str());
    let user = trim_str(settings.smtp_username.as_str());
    let to = trim_str(settings.to_address.as_str());
    if host.len() == 0 || user.len() == 0 || to.len() == 0 {
        return Err(owned("邮件通知已启用，但 SMTP 配置不完整"));
    }
    Ok(())
}

/// Checks the settings of a test e-mail: a server and a recipient.
pub fn test_email_settings_check(settings: &EmailNotificationConfig) -> (r: Result<(), String>)
    ensures
        trim(settings.smtp_host@).len() == 0 ==> (r matches Err(e) && e@ == "SMTP 服务器地址不能为空"@),
        trim(settings.smtp_host@).len() > 0 && trim(settings.to_address@).len() == 0 ==> (r matches Err(e) && e@ == "收件人地址不能为空"@),
        trim(settings.smtp_host@).len() > 0 && trim(settings.to_address@).len() > 0 ==> r is Ok,
{
    let host = trim_str(settings.smtp_host.as_str());
    if host.len() == 0 {
        return Err(owned("SMTP 服务器地址不能为空"));
    }
    let to = trim_str(settings.to_address.as_str());
    if to.len() == 0 {
        return Err(owned("收件人地址不能为空"));
    }
    Ok(())
}

/// The answer to a successful test push.
pub fn test_push_message(receipt: DeliveryReceipt) -> (r: String)
    ensures
        r@ == "测试通知发送成功（HTTP 尝试 "@ + decimal(receipt.attempts as nat) + " 次）"@,
{
    let mut v: Vec<char> = Vec::new();
    push_str(&mut v, "测试通知发送成功（HTTP 尝试 ");
    push_decimal(&mut v, receipt.attempts as u64);
    push_str(&mut v, " 次）");
    string_from_chars(&v)
}

} // verus!
