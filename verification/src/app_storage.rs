//! Where the launcher keeps its files, and how a diagnostic log is kept
//! under a size limit.
use crate::output::floor_char_boundary;
use crate::text::{owned, push_str, str_chars, string_from_chars};
use vstd::prelude::*;
use vstd::string::StringSliceAdditionalSpecFns;
use vstd::utf8::{decode_utf8, encode_utf8, is_char_boundary, valid_utf8};

verus! {

/// The files and directories of the launcher, under one root.
#[derive(Debug, Clone)]
pub struct AppPaths {
    pub root_dir: String,
    pub logs_dir: String,
    pub config_file: String,
    pub config_v1_backup: String,
    pub scheduler_state: String,
    pub status_file: String,
    pub status_html: String,
    pub latest_log: String,
    pub run_lock: String,
    pub maintenance_lock: String,
    pub stop_request: String,
    pub keep_alive_request: String,
    pub crash_log: String,
    pub headless_log: String,
    pub notifications_log: String,
    pub uninstall_log: String,
    pub webview_data_dir: String,
}

/// Whether `c` separates path components on a platform whose main
/// separator is `sep` (`/` always does).
pub open spec fn is_separator(c: char, sep: char) -> bool {
    c == '/' || c == sep
}

/// `base` joined with the relative `name`, as `PathBuf::join`: a separator
/// is added unless `base` is empty, already ends with one, or (on Windows)
/// is a bare drive such as `C:`.
pub open spec fn joined(base: Seq<char>, name: Seq<char>, sep: char) -> Seq<char> {
    if base.len() == 0 || is_separator(base.last(), sep) || (sep == '\\' && base.len() == 2
        && base[1] == ':') {
        base + name
    } else {
        base + seq![sep] + name
    }
}

/// The platform's main path separator, std's `path::MAIN_SEPARATOR`,
/// which std documents as `/` or `\`.
#[verifier::external_body]
pub(crate) fn main_separator() -> (c: char)
    ensures
        c == '/' || c == '\\',
{
    std::path::MAIN_SEPARATOR
}

pub(crate) fn join(base: &str, name: &str, sep: char) -> (r: String)
    ensures
        r@ == joined(base@, name@, sep),
{
    let b = str_chars(base);
    let n = b.len();
    let mut v = str_chars(base);
    let bare_drive = sep == '\\' && n == 2 && b[1] == ':';
    if !(n == 0 || b[n - 1] == '/' || b[n - 1] == sep || bare_drive) {
        v.push(sep);
    }
    push_str(&mut v, name);
    proof {
        if n > 0 {
            assert(b@.last() == b@[n - 1]);
        }
    }
    string_from_chars(&v)
}

impl AppPaths {
    /// The launcher's paths under `root_dir`, joined with the platform's
    /// separator.
    pub fn from_root(root_dir: String) -> (p: AppPaths)
        ensures
            p.root_dir@ == root_dir@,
            exists|sep: char|
                (sep == '/' || sep == '\\') && {
                    &&& p.logs_dir@ == #[trigger] joined(root_dir@, "logs"@, sep)
                    &&& p.config_file@ == joined(root_dir@, "launcher-config.json"@, sep)
                    &&& p.config_v1_backup@ == joined(
                        root_dir@,
                        "launcher-config.v1.backup.json"@,
                        sep,
                    )
                    &&& p.scheduler_state@ == joined(root_dir@, "scheduler-state.json"@, sep)
                    &&& p.status_file@ == joined(root_dir@, "status.json"@, sep)
                    &&& p.status_html@ == joined(root_dir@, "status.html"@, sep)
                    &&& p.run_lock@ == joined(root_dir@, "run.lock"@, sep)
                    &&& p.maintenance_lock@ == joined(root_dir@, "maintenance.lock"@, sep)
                    &&& p.stop_request@ == joined(root_dir@, "stop-request.json"@, sep)
                    &&& p.keep_alive_request@ == joined(root_dir@, "keep-alive-request.json"@, sep)
                    &&& p.crash_log@ == joined(joined(root_dir@, "logs"@, sep), "crash.log"@, sep)
                    &&& p.headless_log@ == joined(joined(root_dir@, "logs"@, sep), "headless.log"@, sep)
                    &&& p.notifications_log@ == joined(joined(root_dir@, "logs"@, sep), "notifications.log"@, sep)
                    &&& p.uninstall_log@ == joined(joined(root_dir@, "logs"@, sep), "uninstall.log"@, sep)
                    &&& p.latest_log@ == joined(joined(root_dir@, "logs"@, sep), "latest.log"@, sep)
                    &&& p.webview_data_dir@ == joined(root_dir@, "webview2"@, sep)
                },
    {
        let sep = main_separator();
        let r = root_dir.as_str();
        let logs_dir = join(r, "logs", sep);
        let l = logs_dir.as_str();
        let p = AppPaths {
            logs_dir: owned(l),
            config_file: join(r, "launcher-config.json", sep),
            config_v1_backup: join(r, "launcher-config.v1.backup.json", sep),
            scheduler_state: join(r, "scheduler-state.json", sep),
            status_file: join(r, "status.json", sep),
            status_html: join(r, "status.html", sep),
            run_lock: join(r, "run.lock", sep),
            maintenance_lock: join(r, "maintenance.lock", sep),
            stop_request: join(r, "stop-request.json", sep),
            keep_alive_request: join(r, "keep-alive-request.json", sep),
            crash_log: join(l, "crash.log", sep),
            headless_log: join(l, "headless.log", sep),
            notifications_log: join(l, "notifications.log", sep),
            uninstall_log: join(l, "uninstall.log", sep),
            latest_log: join(l, "latest.log", sep),
            webview_data_dir: join(r, "webview2", sep),
            root_dir: owned(r),
        };
        assert(p.logs_dir@ == joined(root_dir@, "logs"@, sep));
        p
    }
}


/// Where the next character boundary at or after `i` lies.
pub open spec fn ceil_boundary(bytes: Seq<u8>, i: int) -> int
    decreases bytes.len() - i,
{
    if i >= bytes.len() {
        bytes.len() as int
    } else if i >= 0 && is_char_boundary(bytes, i) {
        i
    } else {
        ceil_boundary(bytes, i + 1)
    }
}

/// The end of `s` that fits in `max` bytes, cut forward to a character
/// boundary.
pub open spec fn fitting_tail(s: Seq<char>, max: nat) -> Seq<char> {
    let b = encode_utf8(s);
    if b.len() > max {
        decode_utf8(b.skip(ceil_boundary(b, b.len() - max)))
    } else {
        s
    }
}

proof fn lemma_ceil_boundary(bytes: Seq<u8>, i: int)
    requires
        valid_utf8(bytes),
        0 <= i <= bytes.len(),
    ensures
        i <= ceil_boundary(bytes, i) <= bytes.len(),
        is_char_boundary(bytes, ceil_boundary(bytes, i)),
    decreases bytes.len() - i,
{
    broadcast use vstd::utf8::group_utf8_lib;

    if i < bytes.len() && !is_char_boundary(bytes, i) {
        lemma_ceil_boundary(bytes, i + 1);
    }
}

/// The end of `text` that fits in `max` bytes.
fn tail_fitting(text: &str, max: usize) -> (r: String)
    ensures
        r@ == fitting_tail(text@, max as nat),
        encode_utf8(r@).len() <= max || encode_utf8(text@).len() <= max,
        encode_utf8(r@).len() <= encode_utf8(text@).len(),
{
    broadcast use vstd::utf8::group_utf8_lib;

    let len = text.as_bytes().len();
    if len <= max {
        return owned(text);
    }
    let ghost b = text.spec_bytes();
    let mut start = len - max;
    proof {
        lemma_ceil_boundary(b, start as int);
    }
    while start < len && !text.is_char_boundary(start)
        invariant
            len == b.len(),
            b == text.spec_bytes(),
            len - max <= start <= len,
            ceil_boundary(b, (len - max) as int) == ceil_boundary(b, start as int),
        decreases len - start,
    {
        start = start + 1;
    }
    proof {
        lemma_ceil_boundary(b, start as int);
        assert(ceil_boundary(b, start as int) == start);
    }
    let (_, rest) = text.split_at(start);
    proof {
        assert(rest.spec_bytes() =~= b.skip(start as int));
        assert(decode_utf8(encode_utf8(rest@)) == rest@);
    }
    owned(rest)
}

proof fn lemma_encode_concat(a: Seq<char>, b: Seq<char>)
    ensures
        encode_utf8(a + b) == encode_utf8(a) + encode_utf8(b),
    decreases a.len(),
{
    if a.len() > 0 {
        lemma_encode_concat(a.drop_first(), b);
        assert((a + b).drop_first() =~= a.drop_first() + b);
        assert((a + b)[0] == a[0]);
        assert(encode_utf8(a + b) =~= vstd::utf8::encode_scalar(a[0] as u32) + encode_utf8(a.drop_first() + b));
    } else {
        assert(a + b =~= b);
    }
}

/// Marker written when older entries of a diagnostic log are dropped.
pub open spec fn truncation_marker() -> Seq<char> {
    "[older diagnostic entries truncated]\n"@
}

/// How to bring a new entry into a bounded log.
#[derive(Debug)]
pub enum LogWrite {
    /// Append this record.
    Append(String),
    /// Replace the whole file with this text.
    Replace(String),
}

/// An entry as a line: with a final newline, added when it has none.
pub open spec fn log_line(entry: Seq<char>) -> Seq<char> {
    if entry.len() > 0 && entry.last() == '\n' {
        entry
    } else {
        entry.push('\n')
    }
}

/// The record for an entry: its line, reduced to its last `max` bytes.
pub open spec fn log_record(entry: Seq<char>, max: nat) -> Seq<char> {
    fitting_tail(log_line(entry), max)
}

/// The write that adds `entry` to a log limited to `max` bytes that holds
/// `existing_len` bytes: `(true, text)` appends `text`, `(false, text)`
/// replaces the file with `text`.
pub open spec fn planned_log_write(entry: Seq<char>, max: nat, existing_len: nat) -> Result<
    (bool, Seq<char>),
    Seq<char>,
> {
    if max == 0 {
        Err("bounded log 最大字节数必须大于 0"@)
    } else {
        let record = log_record(entry, max);
        let marker = if truncation_marker().len() <= max {
            truncation_marker()
        } else {
            Seq::<char>::empty()
        };
        if existing_len + encode_utf8(record).len() > max {
            Ok((false, marker + fitting_tail(record, (max - encode_utf8(marker).len()) as nat)))
        } else {
            Ok((true, record))
        }
    }
}

/// The bytes of a log that held `old` once `text` is appended to it
/// (`append`) or has replaced it.
pub open spec fn file_after(old: Seq<u8>, append: bool, text: Seq<char>) -> Seq<u8> {
    if append {
        old + encode_utf8(text)
    } else {
        encode_utf8(text)
    }
}

proof fn lemma_fitting_tail(s: Seq<char>, max: nat)
    ensures
        encode_utf8(fitting_tail(s, max)).len() <= max || encode_utf8(s).len() <= max,
        encode_utf8(s).len() <= max ==> fitting_tail(s, max) == s,
{
    broadcast use vstd::utf8::group_utf8_lib;

    let b = encode_utf8(s);
    if b.len() > max {
        let k = ceil_boundary(b, b.len() - max);
        lemma_ceil_boundary(b, b.len() - max);
        assert(b.skip(k) =~= b.subrange(k, b.len() as int));
        assert(valid_utf8(b.subrange(k, b.len() as int)));
        assert(encode_utf8(decode_utf8(b.skip(k))) == b.skip(k));
    }
}

/// Whatever a bounded log held, as long as it was valid UTF-8: a limit of
/// zero is refused; otherwise the log after the planned write is valid
/// UTF-8 and holds at most `max` bytes, and when the entry's line fits
/// after what the log held, it is appended as it is.
pub proof fn law_bounded_log_stays_within_limit(entry: Seq<char>, max: nat, old: Seq<u8>)
    requires
        valid_utf8(old),
    ensures
        planned_log_write(entry, max, old.len()) is Err <==> max == 0,
        planned_log_write(entry, max, old.len()) matches Ok((append, text)) ==> {
            &&& file_after(old, append, text).len() <= max
            &&& valid_utf8(file_after(old, append, text))
            &&& old.len() + encode_utf8(log_line(entry)).len() <= max ==> append && file_after(
                old,
                append,
                text,
            ) == old + encode_utf8(log_line(entry))
        },
{
    broadcast use vstd::utf8::group_utf8_lib;

    if max > 0 {
        let line = log_line(entry);
        let record = log_record(entry, max);
        lemma_fitting_tail(line, max);
        reveal_strlit("[older diagnostic entries truncated]\n");
        let marker = if truncation_marker().len() <= max {
            truncation_marker()
        } else {
            Seq::<char>::empty()
        };
        assert(vstd::utf8::is_ascii_chars(truncation_marker()));
        assert(encode_utf8(Seq::<char>::empty()) =~= Seq::<u8>::empty());
        assert(encode_utf8(marker).len() <= max);
        let tail = fitting_tail(record, (max - encode_utf8(marker).len()) as nat);
        lemma_fitting_tail(record, (max - encode_utf8(marker).len()) as nat);
        lemma_encode_concat(marker, tail);
    }
}

/// Decides how to add `entry` to a log limited to `max_bytes` that now
/// holds `existing_len` bytes: append the record when it fits; else
/// replace the file with the truncation marker (when it fits the limit)
/// followed by as much of the record as fits.
pub fn plan_bounded_log_write(entry: &str, max_bytes: usize, existing_len: u64) -> (r: Result<
    LogWrite,
    String,
>)
    ensures
        planned_log_write(entry@, max_bytes as nat, existing_len as nat) == match r {
            Ok(LogWrite::Append(text)) => Ok::<(bool, Seq<char>), Seq<char>>((true, text@)),
            Ok(LogWrite::Replace(text)) => Ok::<(bool, Seq<char>), Seq<char>>((false, text@)),
            Err(e) => Err::<(bool, Seq<char>), Seq<char>>(e@),
        },
        r matches Ok(LogWrite::Append(text)) ==> existing_len + encode_utf8(text@).len() <= max_bytes,
        r matches Ok(LogWrite::Replace(text)) ==> encode_utf8(text@).len() <= max_bytes,
{
    broadcast use vstd::utf8::group_utf8_lib;

    if max_bytes == 0 {
        return Err(owned("bounded log 最大字节数必须大于 0"));
    }
    let mut line = str_chars(entry);
    let n = line.len();
    if !(n > 0 && line[n - 1] == '\n') {
        line.push('\n');
    }
    proof {
        if n > 0 {
            assert(entry@.last() == line@[n - 1]);
        }
    }
    let line_s = string_from_chars(&line);
    let record = tail_fitting(line_s.as_str(), max_bytes);
    let record_len = record.as_str().as_bytes().len();
    if existing_len as u128 + record_len as u128 > max_bytes as u128 {
        let full_marker = "[older diagnostic entries truncated]\n";
        proof {
            reveal_strlit("[older diagnostic entries truncated]\n");
            assert(vstd::utf8::is_ascii_chars(full_marker@));
            vstd::utf8::is_ascii_chars_encode_utf8(full_marker@);
        }
        let marker: &str = if full_marker.as_bytes().len() <= max_bytes {
            full_marker
        } else {
            ""
        };
        proof {
            reveal_strlit("");
            assert(""@ =~= Seq::<char>::empty());
            assert(encode_utf8(Seq::<char>::empty()) =~= Seq::<u8>::empty());
        }
        let available = max_bytes - marker.as_bytes().len();
        let kept = tail_fitting(record.as_str(), available);
        let mut text = str_chars(marker);
        push_str(&mut text, kept.as_str());
        let out = string_from_chars(&text);
        proof {
            lemma_encode_concat(marker@, kept@);
        }
        return Ok(LogWrite::Replace(out));
    }
    Ok(LogWrite::Append(record))
}

/// Whether a failed atomic replace of a file is tried again, and after how
/// many milliseconds: only a transient sharing conflict (Windows error 5, 32
/// or 33) is, up to attempt 40, waiting one millisecond more per attempt,
/// ten at most.
pub fn replace_retry_delay_ms(os_code: Option<i32>, attempt: u64) -> (r: Option<u64>)
    ensures
        r == (if (os_code == Some(5i32) || os_code == Some(32i32) || os_code == Some(33i32))
            && attempt < 40 {
            Some(if attempt + 1 < 10 { (attempt + 1) as u64 } else { 10u64 })
        } else {
            None::<u64>
        }),
{
    let transient = match os_code {
        Some(code) => code == 5 || code == 32 || code == 33,
        None => false,
    };
    if !transient || attempt >= 40 {
        return None;
    }
    if attempt + 1 < 10 {
        Some(attempt + 1)
    } else {
        Some(10)
    }
}

} // verus!
