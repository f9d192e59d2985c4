//! The status mirror page that a browser can refresh while a run goes on.
use crate::retry::{status_is_active, RunStatus, TaskStatus};
use crate::output::snippet_spec;
use crate::text::{decimal, push_decimal, push_str, str_chars, string_from_chars};
use vstd::prelude::*;

verus! {

/// `c` as HTML text: `&`, `<`, `>` and `"` become entities.
pub open spec fn html_char(c: char) -> Seq<char> {
    if c == '&' {
        "&amp;"@
    } else if c == '<' {
        "&lt;"@
    } else if c == '>' {
        "&gt;"@
    } else if c == '"' {
        "&quot;"@
    } else {
        seq![c]
    }
}

/// `s` as HTML text.
pub open spec fn html_escaped(s: Seq<char>) -> Seq<char>
    decreases s.len(),
{
    if s.len() == 0 {
        seq![]
    } else {
        html_escaped(s.drop_last()) + html_char(s.last())
    }
}

fn push_html_escaped(out: &mut Vec<char>, value: &str)
    ensures
        final(out)@ == old(out)@ + html_escaped(value@),
{
    let v = str_chars(value);
    let mut i: usize = 0;
    while i < v.len()
        invariant
            i <= v.len(),
            v@ == value@,
            out@ == old(out)@ + html_escaped(v@.take(i as int)),
        decreases v.len() - i,
    {
        let c = v[i];
        assert(v@.take(i + 1).drop_last() =~= v@.take(i as int));
        assert(v@.take(i + 1).last() == c);
        if c == '&' {
            push_str(out, "&amp;");
        } else if c == '<' {
            push_str(out, "&lt;");
        } else if c == '>' {
            push_str(out, "&gt;");
        } else if c == '"' {
            push_str(out, "&quot;");
        } else {
            out.push(c);
        }
        i = i + 1;
        assert(out@ =~= old(out)@ + html_escaped(v@.take(i as int)));
    }
    assert(v@.take(v.len() as int) =~= v@);
}

/// Escapes text for HTML.
pub fn html_escape(value: &str) -> (r: String)
    ensures
        r@ == html_escaped(value@),
{
    let mut v: Vec<char> = Vec::new();
    push_html_escaped(&mut v, value);
    assert(v@ =~= html_escaped(value@));
    string_from_chars(&v)
}

/// Badge text and color of a status.
pub open spec fn badge(status: RunStatus) -> (Seq<char>, Seq<char>) {
    match status {
        RunStatus::Starting => ("启动中"@, "#6b7280"@),
        RunStatus::Running => ("运行中"@, "#2563eb"@),
        RunStatus::Success => ("成功"@, "#16a34a"@),
        RunStatus::Failed => ("失败"@, "#dc2626"@),
        RunStatus::Stopped => ("已停止"@, "#ca8a04"@),
    }
}

/// The page for a status; the preview is the result preview, or the last
/// error when there is none. Every text from the run is escaped.
pub open spec fn status_page_spec(s: TaskStatus) -> Seq<char> {
    let (label, color) = badge(s.status);
    let preview = if s.result_preview@.len() == 0 {
        s.last_error_snippet@
    } else {
        s.result_preview@
    };
    "<!DOCTYPE html>\n<html lang=\"zh-CN\">\n<head>\n  <meta charset=\"UTF-8\" />\n  <meta http-equiv=\"refresh\" content=\"2\" />\n  <title>Codex 重试进度</title>\n  <style>\n    body { font-family: system-ui, sans-serif; background: #0b1220; color: #e5e7eb; padding: 20px; }\n    .card { background: #111827; border: 1px solid #1f2937; border-radius: 12px; padding: 20px; max-width: 800px; margin: 0 auto; }\n    .badge { background: "@ + color + "; color: #fff; padding: 4px 10px; border-radius: 999px; display: inline-block; font-weight: bold; }\n    .metric { background: #0f172a; padding: 10px; border-radius: 8px; margin: 5px 0; }\n  </style>\n</head>\n<body>\n  <div class=\"card\">\n    <div class=\"badge\">"@ + label + "</div>\n    <h1>Codex 重试进度</h1>\n    <p>Run ID: "@ + html_escaped(s.run_id@) + "</p>\n    <div class=\"metric\">尝试次数: "@ + decimal(s.attempt as nat) + "</div>\n    <div class=\"metric\">高负载次数: "@ + decimal(s.high_demand_count as nat) + "</div>\n    <div class=\"metric\">并发线程数: "@ + decimal(s.concurrency as nat) + "（活跃 "@ + decimal(s.active_workers as nat) + "）</div>\n    <p><strong>状态:</strong> "@ + html_escaped(s.message@) + "</p>\n    <p><strong>命令:</strong> <code>"@ + html_escaped(s.command@) + "</code></p>\n    <pre>"@ + html_escaped(preview) + "</pre>\n  </div>\n</body>\n</html>"@
}

/// Renders the status page of a run.
pub fn render_status_html(status: &TaskStatus) -> (r: String)
    ensures
        r@ == status_page_spec(*status),
{
    let (label, color) = match status.status {
        RunStatus::Starting => ("启动中", "#6b7280"),
        RunStatus::Running => ("运行中", "#2563eb"),
        RunStatus::Success => ("成功", "#16a34a"),
        RunStatus::Failed => ("失败", "#dc2626"),
        RunStatus::Stopped => ("已停止", "#ca8a04"),
    };
    let preview = if status.result_preview.as_str().is_empty() {
        status.last_error_snippet.as_str()
    } else {
        status.result_preview.as_str()
    };
    let mut v: Vec<char> = Vec::new();
    push_str(&mut v, "<!DOCTYPE html>\n<html lang=\"zh-CN\">\n<head>\n  <meta charset=\"UTF-8\" />\n  <meta http-equiv=\"refresh\" content=\"2\" />\n  <title>Codex 重试进度</title>\n  <style>\n    body { font-family: system-ui, sans-serif; background: #0b1220; color: #e5e7eb; padding: 20px; }\n    .card { background: #111827; border: 1px solid #1f2937; border-radius: 12px; padding: 20px; max-width: 800px; margin: 0 auto; }\n    .badge { background: ");
    push_str(&mut v, color);
    push_str(&mut v, "; color: #fff; padding: 4px 10px; border-radius: 999px; display: inline-block; font-weight: bold; }\n    .metric { background: #0f172a; padding: 10px; border-radius: 8px; margin: 5px 0; }\n  </style>\n</head>\n<body>\n  <div class=\"card\">\n    <div class=\"badge\">");
    push_str(&mut v, label);
    push_str(&mut v, "</div>\n    <h1>Codex 重试进度</h1>\n    <p>Run ID: ");
    push_html_escaped(&mut v, status.run_id.as_str());
    push_str(&mut v, "</p>\n    <div class=\"metric\">尝试次数: ");
    push_decimal(&mut v, status.attempt);
    push_str(&mut v, "</div>\n    <div class=\"metric\">高负载次数: ");
    push_decimal(&mut v, status.high_demand_count);
    push_str(&mut v, "</div>\n    <div class=\"metric\">并发线程数: ");
    push_decimal(&mut v, status.concurrency);
    push_str(&mut v, "（活跃 ");
    push_decimal(&mut v, status.active_workers);
    push_str(&mut v, "）</div>\n    <p><strong>状态:</strong> ");
    push_html_escaped(&mut v, status.message.as_str());
    push_str(&mut v, "</p>\n    <p><strong>命令:</strong> <code>");
    push_html_escaped(&mut v, status.command.as_str());
    push_str(&mut v, "</code></p>\n    <pre>");
    push_html_escaped(&mut v, preview);
    push_str(&mut v, "</pre>\n  </div>\n</body>\n</html>");
    assert(v@ =~= status_page_spec(*status));
    string_from_chars(&v)
}

/// Message recorded when a run's owner exited without writing its outcome.
pub open spec fn stale_owner_message() -> Seq<char> {
    "run owner 已退出，未能持久化 terminal status；已在恢复检查中标记为失败"@
}

/// Recovery check once the run lock could be taken, proving that the owner
/// of the run `observed_run_id` is gone: if `current` (the status read
/// again) still shows that run active, it is marked failed. Returns whether
/// the status changed.
pub fn reconcile_stale(current: &mut TaskStatus, observed_run_id: &str) -> (changed: bool)
    ensures
        changed == (old(current).run_id@ == observed_run_id@ && status_is_active(
            old(current).status,
        )),
        !changed ==> *final(current) == *old(current),
        changed ==> {
            &&& final(current).status == RunStatus::Failed
            &&& final(current).child_pid is None
            &&& final(current).child_pids@.len() == 0
            &&& final(current).active_workers == 0
            &&& final(current).message@ == stale_owner_message()
            &&& final(current).last_error_snippet@ == snippet_spec(stale_owner_message(), 280)
            &&& crate::notifications::utc_rfc3339_text(final(current).updated_at@)
            &&& *final(current) == (TaskStatus {
                status: RunStatus::Failed,
                child_pid: None,
                child_pids: final(current).child_pids,
                active_workers: 0,
                message: final(current).message,
                last_error_snippet: final(current).last_error_snippet,
                updated_at: final(current).updated_at,
                ..*old(current)
            })
        },
{
    let message = "run owner 已退出，未能持久化 terminal status；已在恢复检查中标记为失败";
    proof {
        reveal_strlit("run owner 已退出，未能持久化 terminal status；已在恢复检查中标记为失败");
    }
    current.fail_if_active(observed_run_id, message)
}

} // verus!
