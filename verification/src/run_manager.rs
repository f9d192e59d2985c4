//! Ownership of the one run a process may drive, and stop requests
//! addressed to a run by its id.
//!
//! The lock file, the cancellation tokens and the stop-request file live
//! around this state; each operation here decides what happens to the
//! reservation and what the caller must do.
use crate::text::{owned, push_decimal, push_str, str_eq, string_from_chars, trim, trim_str};
use vstd::prelude::*;

verus! {

/// Version of the stop-request file format.
pub const STOP_REQUEST_VERSION: u32 = 1;

/// A request, written to disk, that the run with `run_id` stop.
#[derive(Debug, Clone)]
pub struct StopRequest {
    pub version: u32,
    pub run_id: String,
    pub requested_at: String,
}

/// Where a stop request took effect.
#[derive(Debug, Clone, Copy, PartialEq, Eq, Structural)]
pub enum StopTarget {
    /// The run belongs to this process and was cancelled directly.
    Local,
    /// The run belongs to another process; a stop request was written.
    Remote,
}

/// How waiting for this process's run to end on shutdown ended.
#[derive(Debug, Clone, PartialEq, Eq)]
pub enum ShutdownWaitResult {
    NoLocalRun,
    Completed(String),
    TimedOut(String),
}

/// Whether the stop request on disk (if any) is addressed to `run_id`; a
/// request of another format version is an error. `path` names the file.
pub open spec fn stop_requested_spec(request: Option<(u32, Seq<char>)>, run_id: Seq<char>, path: Seq<char>) -> Result<bool, Seq<char>> {
    match request {
        None => Ok(false),
        Some((version, id)) => if version != STOP_REQUEST_VERSION {
            Err("不支持的 stop request 版本 "@ + crate::text::decimal(version as nat) + " ["@ + path
                + "]"@)
        } else {
            Ok(id == run_id)
        },
    }
}

/// View of a stop request.
pub open spec fn request_view(r: Option<&StopRequest>) -> Option<(u32, Seq<char>)> {
    match r {
        Some(q) => Some((q.version, q.run_id@)),
        None => None,
    }
}

/// View of a yes/no answer that may fail.
pub open spec fn answer_view(r: Result<bool, String>) -> Result<bool, Seq<char>> {
    match r {
        Ok(b) => Ok(b),
        Err(e) => Err(e@),
    }
}

/// Whether the stop request read from `path` (none when the file does not
/// exist) asks the run `run_id` to stop. A request for another run never
/// stops this one.
pub fn is_stop_requested(request: Option<&StopRequest>, run_id: &str, path: &str) -> (r: Result<bool, String>)
    ensures
        answer_view(r) == stop_requested_spec(request_view(request), run_id@, path@),
{
    match request {
        None => Ok(false),
        Some(q) => {
            if q.version != STOP_REQUEST_VERSION {
                let mut m: Vec<char> = Vec::new();
                push_str(&mut m, "不支持的 stop request 版本 ");
                push_decimal(&mut m, q.version as u64);
                push_str(&mut m, " [");
                push_str(&mut m, path);
                push_str(&mut m, "]");
                return Err(string_from_chars(&m));
            }
            Ok(str_eq(q.run_id.as_str(), run_id))
        },
    }
}

/// Whether the stop request read from disk should be removed when the run
/// `run_id` ends: only a request addressed to it.
pub fn clears_stop_request(request: Option<&StopRequest>, run_id: &str) -> (r: bool)
    ensures
        r == (request is Some && request->0.run_id@ == run_id@),
{
    match request {
        Some(q) => str_eq(q.run_id.as_str(), run_id),
        None => false,
    }
}

/// The run this process drives, if any.
#[derive(Debug)]
pub struct ActiveRun {
    pub run_id: String,
    pub child_pid: Option<u32>,
}

/// This process's reservation of its single run.
#[derive(Debug)]
pub struct RunRegistry {
    pub active: Option<ActiveRun>,
}

/// The id of the reserved run.
pub open spec fn active_id(r: RunRegistry) -> Option<Seq<char>> {
    match r.active {
        Some(a) => Some(a.run_id@),
        None => None,
    }
}

/// The reservation after `reserve(run_id)` on a registry holding `active`,
/// and whether the reservation was granted.
pub open spec fn after_reserve(active: Option<Seq<char>>, run_id: Seq<char>) -> (Option<Seq<char>>, bool) {
    match active {
        None => (Some(run_id), true),
        Some(current) => (Some(current), false),
    }
}

/// The reservation after `release(run_id)` on a registry holding `active`.
pub open spec fn after_release(active: Option<Seq<char>>, run_id: Seq<char>) -> Option<Seq<char>> {
    if active == Some(run_id) {
        None
    } else {
        active
    }
}

/// Reservations of one process never overlap: with `first` reserved, a
/// reservation of `second` is refused and changes nothing; once `first` is
/// released, it is granted.
pub proof fn law_reservations_do_not_overlap(first: Seq<char>, second: Seq<char>)
    ensures
        after_reserve(None, first) == (Some(first), true),
        after_reserve(Some(first), second) == (Some(first), false),
        after_release(Some(first), second) == (if first == second {
            None
        } else {
            Some(first)
        }),
        after_reserve(after_release(Some(first), first), second) == (Some(second), true),
{
}

impl RunRegistry {
    /// No run reserved.
    pub fn new() -> (r: RunRegistry)
        ensures
            r.active is None,
    {
        RunRegistry { active: None }
    }

    /// Reserves the process's run; fails while another run is reserved.
    pub fn reserve(&mut self, run_id: &str) -> (r: Result<(), String>)
        ensures
            (active_id(*final(self)), r is Ok) == after_reserve(active_id(*old(self)), run_id@),
            old(self).active is None ==> r is Ok && active_id(*final(self)) == Some(run_id@)
                && final(self).active->0.child_pid is None,
            old(self).active is Some ==> (r matches Err(e) && e@ == "本进程已有任务在运行: "@
                + old(self).active->0.run_id@),
            old(self).active is Some ==> *final(self) == *old(self),
    {
        if let Some(current) = &self.active {
            let mut m: Vec<char> = Vec::new();
            push_str(&mut m, "本进程已有任务在运行: ");
            push_str(&mut m, current.run_id.as_str());
            return Err(string_from_chars(&m));
        }
        self.active = Some(ActiveRun { run_id: owned(run_id), child_pid: None });
        Ok(())
    }

    /// Decides how to stop the run `run_id`: cancel it here when this
    /// process drives it, refuse when this process drives another run, and
    /// otherwise write a stop request for its owner. Never changes the
    /// reservation.
    pub fn request_stop(&self, run_id: &str) -> (r: Result<StopTarget, String>)
        ensures
            trim(run_id@).len() == 0 ==> (r matches Err(e) && e@ == "停止请求缺少 run ID"@),
            trim(run_id@).len() > 0 && self.active is Some && self.active->0.run_id@ != run_id@
                ==> (r matches Err(e) && e@ == "run ID 已变化，当前本地 run 为 "@
                + self.active->0.run_id@ + "，拒绝停止 "@ + run_id@),
            trim(run_id@).len() > 0 && self.active is Some && self.active->0.run_id@ == run_id@
                ==> r == Ok::<StopTarget, String>(StopTarget::Local),
            trim(run_id@).len() > 0 && self.active is None ==> r == Ok::<StopTarget, String>(
                StopTarget::Remote,
            ),
    {
        let t = trim_str(run_id);
        if t.len() == 0 {
            return Err(owned("停止请求缺少 run ID"));
        }
        match &self.active {
            Some(local) => {
                if !str_eq(local.run_id.as_str(), run_id) {
                    let mut m: Vec<char> = Vec::new();
                    push_str(&mut m, "run ID 已变化，当前本地 run 为 ");
                    push_str(&mut m, local.run_id.as_str());
                    push_str(&mut m, "，拒绝停止 ");
                    push_str(&mut m, run_id);
                    return Err(string_from_chars(&m));
                }
                Ok(StopTarget::Local)
            },
            None => Ok(StopTarget::Remote),
        }
    }

    /// The id of the run this process drives.
    pub fn local_owned_run_id(&self) -> (r: Option<String>)
        ensures
            crate::text::opt_view(r) == active_id(*self),
    {
        match &self.active {
            Some(a) => Some(owned(a.run_id.as_str())),
            None => None,
        }
    }

    /// Records the child process of the run `run_id`.
    pub fn set_child_pid(&mut self, run_id: &str, child_pid: Option<u32>) -> (r: Result<(), String>)
        ensures
            old(self).active is None ==> (r matches Err(e) && e@ == "run reservation 已释放: "@
                + run_id@) && *final(self) == *old(self),
            old(self).active is Some && old(self).active->0.run_id@ != run_id@ ==> (r matches Err(
                e,
            ) && e@ == "run reservation 不匹配，当前 "@ + old(self).active->0.run_id@ + "，请求 "@
                + run_id@) && *final(self) == *old(self),
            old(self).active is Some && old(self).active->0.run_id@ == run_id@ ==> r is Ok
                && active_id(*final(self)) == active_id(*old(self))
                && final(self).active->0.child_pid == child_pid,
    {
        match &mut self.active {
            None => {
                let mut m: Vec<char> = Vec::new();
                push_str(&mut m, "run reservation 已释放: ");
                push_str(&mut m, run_id);
                Err(string_from_chars(&m))
            },
            Some(local) => {
                if !str_eq(local.run_id.as_str(), run_id) {
                    let mut m: Vec<char> = Vec::new();
                    push_str(&mut m, "run reservation 不匹配，当前 ");
                    push_str(&mut m, local.run_id.as_str());
                    push_str(&mut m, "，请求 ");
                    push_str(&mut m, run_id);
                    return Err(string_from_chars(&m));
                }
                local.child_pid = child_pid;
                Ok(())
            },
        }
    }

    /// Ends the reservation of the run `run_id`; a release for another run
    /// changes nothing.
    pub fn release(&mut self, run_id: &str)
        ensures
            active_id(*final(self)) == after_release(active_id(*old(self)), run_id@),
            active_id(*old(self)) == Some(run_id@) ==> final(self).active is None,
            active_id(*old(self)) != Some(run_id@) ==> *final(self) == *old(self),
    {
        let matches = match &self.active {
            Some(a) => str_eq(a.run_id.as_str(), run_id),
            None => false,
        };
        if matches {
            self.active = None;
        }
    }
}

/// Whether a refused non-blocking exclusive lock on the run lock means that
/// another process holds it: the call would block, or Windows reports a
/// sharing violation (32) or a lock violation (33).
pub fn is_lock_contention(would_block: bool, os_code: Option<i32>) -> (r: bool)
    ensures
        r == (would_block || os_code == Some(32i32) || os_code == Some(33i32)),
{
    would_block || match os_code {
        Some(code) => code == 32 || code == 33,
        None => false,
    }
}

/// Message for a run lock that could not be taken at the start of a run.
pub open spec fn run_lock_failure_spec(contended: bool, path: Seq<char>, error: Seq<char>) -> Seq<char> {
    if contended {
        "已有另一个 Codex Launcher run 正在执行"@
    } else {
        "获取 run lock 失败 ["@ + path + "]: "@ + error
    }
}

/// Why a run could not start when its lock at `path` was refused with
/// `error`: another run holds it, or the lock itself failed.
pub fn run_lock_failure(would_block: bool, os_code: Option<i32>, path: &str, error: &str) -> (r: String)
    ensures
        r@ == run_lock_failure_spec(
            would_block || os_code == Some(32i32) || os_code == Some(33i32),
            path@,
            error@,
        ),
{
    if is_lock_contention(would_block, os_code) {
        return owned("已有另一个 Codex Launcher run 正在执行");
    }
    let mut m: Vec<char> = Vec::new();
    push_str(&mut m, "获取 run lock 失败 [");
    push_str(&mut m, path);
    push_str(&mut m, "]: ");
    push_str(&mut m, error);
    string_from_chars(&m)
}

/// The answer to a stop request: which way the stop signal went.
pub fn stop_reply(target: StopTarget) -> (r: String)
    ensures
        r@ == match target {
            StopTarget::Local => "已向本地 run 发送停止信号"@,
            StopTarget::Remote => "已写入带 run ID 的远程停止请求"@,
        },
{
    match target {
        StopTarget::Local => owned("已向本地 run 发送停止信号"),
        StopTarget::Remote => owned("已写入带 run ID 的远程停止请求"),
    }
}

/// The answer to switching keep-alive of a run this process drives
/// (`local`) or another process drives.
pub open spec fn keep_alive_reply_spec(local: bool, enabled: bool) -> Seq<char> {
    let scope = if local {
        "本地 run"@
    } else {
        "远程 run"@
    };
    if enabled {
        scope + " 的保活已开启"@
    } else {
        scope + " 的保活已关闭；若正在保活等待，将立即正常结束"@
    }
}

/// Builds the answer of [`keep_alive_reply_spec`].
pub fn keep_alive_reply(local: bool, enabled: bool) -> (r: String)
    ensures
        r@ == keep_alive_reply_spec(local, enabled),
{
    let mut m: Vec<char> = Vec::new();
    if local {
        push_str(&mut m, "本地 run");
    } else {
        push_str(&mut m, "远程 run");
    }
    if enabled {
        push_str(&mut m, " 的保活已开启");
    } else {
        push_str(&mut m, " 的保活已关闭；若正在保活等待，将立即正常结束");
    }
    string_from_chars(&m)
}

} // verus!
