//! Incremental reading of the normalized latest log for the window: where
//! to start, how much to read, and which complete lines a read yields.
//!
//! Opening, seeking and reading the file happen around these functions,
//! which take the file's length and the bytes read.
use crate::text::{decimal, opt_view, owned, push_decimal, push_str, str_chars, str_eq, string_from_chars};
use vstd::prelude::*;
use vstd::utf8::{decode_utf8, valid_utf8};

verus! {

/// Most bytes one snapshot reads.
pub const MAX_SNAPSHOT_BYTES: u64 = 524288;

/// Backlog shown when a window reconnects to an active run.
pub const INITIAL_BACKLOG_BYTES: u64 = 2097152;

/// Longest normalized log record, in bytes.
pub const MAX_NORMALIZED_RECORD_BYTES: u64 = 263168;

/// What the window asks for: the run it shows and how far it has read.
#[derive(Debug, Clone)]
pub struct SnapshotRequest {
    pub run_id: Option<String>,
    pub byte_offset: u64,
}

/// The lines one snapshot returns and where the next one starts.
#[derive(Debug)]
pub struct LogChunk {
    /// The window must drop what it shows and start over.
    pub reset: bool,
    pub log_lines: Vec<String>,
    pub new_byte_offset: u64,
    /// More complete lines are waiting.
    pub has_more: bool,
    /// The start was moved forward past older history.
    pub history_truncated: bool,
}

/// Whether the window follows another run than the current one.
pub open spec fn run_changed(request: Option<Seq<char>>, current: Option<Seq<char>>) -> bool {
    request != current
}

fn opt_str_differs(a: &Option<String>, b: &Option<String>) -> (r: bool)
    ensures
        r == (opt_view(*a) != opt_view(*b)),
{
    match (a, b) {
        (Some(x), Some(y)) => !str_eq(x.as_str(), y.as_str()),
        (None, None) => false,
        _ => true,
    }
}

/// The snapshot when the latest log does not exist yet.
pub fn missing_log_chunk(request: &SnapshotRequest, current_run_id: &Option<String>) -> (c: LogChunk)
    ensures
        c.reset == (run_changed(opt_view(request.run_id), opt_view(*current_run_id))
            || request.byte_offset > 0),
        c.log_lines@.len() == 0,
        c.new_byte_offset == 0,
        !c.has_more,
        !c.history_truncated,
{
    LogChunk {
        reset: opt_str_differs(&request.run_id, current_run_id) || request.byte_offset > 0,
        log_lines: Vec::new(),
        new_byte_offset: 0,
        has_more: false,
        history_truncated: false,
    }
}

/// Where a read starts.
#[derive(Debug, Clone, Copy, PartialEq, Eq, Structural)]
pub struct ReadPlan {
    pub reset: bool,
    pub start: u64,
    /// When set, the start must be moved to the first record boundary at
    /// or after this offset, and the window reset.
    pub align_from: Option<u64>,
}

/// Plans a read of a log of `file_len` bytes: from the window's offset
/// when it still follows this run and the offset is inside the file, else
/// from the beginning; a window connecting afresh to an active run with a
/// long log starts at the last 2 MiB instead.
pub fn plan_read(
    request: &SnapshotRequest,
    current_run_id: &Option<String>,
    current_run_active: bool,
    file_len: u64,
) -> (p: ReadPlan)
    ensures
        ({
            let reset = run_changed(opt_view(request.run_id), opt_view(*current_run_id))
                || request.byte_offset > file_len;
            let backlog = request.run_id is None && current_run_active && file_len
                > INITIAL_BACKLOG_BYTES;
            &&& p.reset == (reset || backlog)
            &&& p.start == if reset {
                0
            } else {
                request.byte_offset
            }
            &&& p.align_from == if backlog {
                Some((file_len - INITIAL_BACKLOG_BYTES) as u64)
            } else {
                None::<u64>
            }
        }),
{
    let reset = opt_str_differs(&request.run_id, current_run_id) || request.byte_offset > file_len;
    let start = if reset {
        0
    } else {
        request.byte_offset
    };
    if request.run_id.is_none() && current_run_active && file_len > INITIAL_BACKLOG_BYTES {
        ReadPlan { reset: true, start, align_from: Some(file_len - INITIAL_BACKLOG_BYTES) }
    } else {
        ReadPlan { reset, start, align_from: None }
    }
}

/// Index of the first `\n` in `s`.
pub open spec fn first_newline(s: Seq<u8>) -> Option<int>
    decreases s.len(),
{
    if s.len() == 0 {
        None
    } else if s[0] == 10 {
        Some(0)
    } else {
        match first_newline(s.drop_first()) {
            Some(i) => Some(i + 1),
            None => None,
        }
    }
}

/// Index of the last `\n` in `s`.
pub open spec fn last_newline(s: Seq<u8>) -> Option<int>
    decreases s.len(),
{
    if s.len() == 0 {
        None
    } else if s.last() == 10 {
        Some(s.len() - 1)
    } else {
        last_newline(s.drop_last())
    }
}

fn find_first_newline(s: &[u8]) -> (r: Option<usize>)
    ensures
        r matches Some(i) ==> i < s.len(),
        match r {
            Some(i) => first_newline(s@) == Some(i as int),
            None => first_newline(s@) is None,
        },
{
    let mut i: usize = 0;
    assert(s@.skip(0) =~= s@);
    while i < s.len()
        invariant
            i <= s.len(),
            forall|k: int| 0 <= k < i ==> s@[k] != 10,
            first_newline(s@) == match first_newline(s@.skip(i as int)) {
                Some(j) => Some(j + i),
                None => None,
            },
        decreases s.len() - i,
    {
        let ghost rest = s@.skip(i as int);
        assert(rest[0] == s@[i as int]);
        if s[i] == 10 {
            return Some(i);
        }
        assert(rest.drop_first() =~= s@.skip(i + 1));
        i = i + 1;
    }
    assert(s@.skip(i as int) =~= Seq::<u8>::empty());
    None
}

fn find_last_newline(s: &[u8]) -> (r: Option<usize>)
    ensures
        r matches Some(i) ==> i < s.len(),
        match r {
            Some(i) => last_newline(s@) == Some(i as int),
            None => last_newline(s@) is None,
        },
{
    let mut j: usize = s.len();
    assert(s@.take(s.len() as int) =~= s@);
    while j > 0
        invariant
            j <= s.len(),
            last_newline(s@) == last_newline(s@.take(j as int)),
        decreases j,
    {
        let ghost pre = s@.take(j as int);
        assert(pre.last() == s@[j - 1]);
        if s[j - 1] == 10 {
            return Some(j - 1);
        }
        assert(pre.drop_last() =~= s@.take(j - 1));
        j = j - 1;
    }
    None
}

/// Moves a reconnect start to the first record boundary at or after
/// `candidate`, given the bytes read there (at most one record's worth).
pub fn align_to_next_record(candidate: u64, bytes: &[u8]) -> (r: Result<u64, String>)
    requires
        candidate + bytes@.len() <= u64::MAX,
    ensures
        candidate == 0 ==> r == Ok::<u64, String>(0),
        candidate > 0 && first_newline(bytes@) is Some ==> r == Ok::<u64, String>(
            (candidate + first_newline(bytes@)->0 + 1) as u64,
        ),
        candidate > 0 && first_newline(bytes@) is None ==> (r matches Err(e) && e@
            == "无法在 263168 bytes 内对齐 normalized log record boundary"@),
{
    if candidate == 0 {
        return Ok(0);
    }
    match find_first_newline(bytes) {
        Some(i) => Ok(candidate + i as u64 + 1),
        None => Err(owned("无法在 263168 bytes 内对齐 normalized log record boundary")),
    }
}

/// Bytes to read from `start` in a log of `file_len` bytes, and how many
/// remain there.
pub fn read_limit(file_len: u64, start: u64) -> (r: (u64, u64))
    ensures
        r.0 == if file_len > start {
            (file_len - start) as u64
        } else {
            0
        },
        r.1 == if r.0 < MAX_SNAPSHOT_BYTES {
            r.0
        } else {
            MAX_SNAPSHOT_BYTES
        },
{
    let available = if file_len > start {
        file_len - start
    } else {
        0
    };
    let limit = if available < MAX_SNAPSHOT_BYTES {
        available
    } else {
        MAX_SNAPSHOT_BYTES
    };
    (available, limit)
}

/// The text of `std::str::from_utf8`'s error for `bytes`.
pub uninterp spec fn utf8_error_text(bytes: Seq<u8>) -> Seq<char>;

/// Calls std's `str::from_utf8`: the text of valid UTF-8, else its error's
/// message, named [`utf8_error_text`].
#[verifier::external_body]
fn utf8_decode(bytes: &[u8]) -> (r: Result<String, String>)
    ensures
        r is Ok <==> valid_utf8(bytes@),
        r matches Ok(t) ==> t@ == decode_utf8(bytes@),
        r matches Err(e) ==> e@ == utf8_error_text(bytes@),
{
    match std::str::from_utf8(bytes) {
        Ok(text) => Ok(text.to_owned()),
        Err(error) => Err(error.to_string()),
    }
}

/// A line without its trailing `\r`, if it has one.
pub open spec fn without_cr(l: Seq<char>) -> Seq<char> {
    if l.len() > 0 && l.last() == '\r' {
        l.drop_last()
    } else {
        l
    }
}

/// The lines of `text` (which ends with a newline): split at `\n`, each
/// without a trailing `\r`.
pub open spec fn log_lines_spec(text: Seq<char>) -> Seq<Seq<char>> {
    crate::text::split_on(text.drop_last(), '\n', '\n').map_values(|l: Seq<char>| without_cr(l))
}

/// The chunk a read yields. `bytes` were read from `start`, `read_limit`
/// of the `available` bytes there; only complete lines are returned.
pub open spec fn chunk_spec(
    bytes: Seq<u8>,
    start: u64,
    file_len: u64,
    available: u64,
    read_limit: u64,
    path: Seq<char>,
) -> Result<(Seq<Seq<char>>, u64, bool), Seq<char>> {
    match last_newline(bytes) {
        None => if read_limit < available {
            Err("normalized log record 超过 snapshot 上限 524288 bytes ["@ + path + "]"@)
        } else {
            Ok((seq![], start, false))
        },
        Some(i) => {
            let complete = bytes.take(i + 1);
            if !valid_utf8(complete) {
                Err("normalized log 不是有效 UTF-8 ["@ + path + " offset="@ + decimal(start as nat)
                    + "]: "@ + utf8_error_text(complete))
            } else {
                let next = start + i + 1;
                Ok((log_lines_spec(decode_utf8(complete)), next as u64, next < file_len && read_limit < available))
            }
        },
    }
}

fn strip_cr_lines(pieces: Vec<Vec<char>>) -> (r: Vec<String>)
    ensures
        r.deep_view() == pieces.deep_view().map_values(|l: Seq<char>| without_cr(l)),
{
    let ghost pv = pieces.deep_view();
    let mut out: Vec<String> = Vec::new();
    let mut i: usize = 0;
    while i < pieces.len()
        invariant
            i <= pieces.len(),
            pv == pieces.deep_view(),
            out.deep_view() == pv.take(i as int).map_values(|l: Seq<char>| without_cr(l)),
        decreases pieces.len() - i,
    {
        let ghost before = out.deep_view();
        let p = &pieces[i];
        assert(pv[i as int] == p@);
        let n = p.len();
        let line = if n > 0 && p[n - 1] == '\r' {
            crate::text::copy_range(p, 0, n - 1)
        } else {
            crate::text::copy_range(p, 0, n)
        };
        proof {
            if n > 0 && p@[n - 1] == '\r' {
                assert(line@ =~= p@.drop_last());
            } else {
                assert(line@ =~= p@);
            }
        }
        out.push(string_from_chars(&line));
        assert(out.deep_view() =~= before.push(without_cr(pv[i as int])));
        assert(pv.take(i + 1) =~= pv.take(i as int).push(pv[i as int]));
        i = i + 1;
        assert(out.deep_view() =~= pv.take(i as int).map_values(|l: Seq<char>| without_cr(l)));
    }
    assert(pv.take(pieces.len() as int) =~= pv);
    out
}

/// View of a read's outcome.
pub open spec fn chunk_view(r: Result<LogChunk, String>, reset: bool, truncated: bool) -> Result<(Seq<Seq<char>>, u64, bool), Seq<char>> {
    match r {
        Ok(c) => Ok((c.log_lines.deep_view(), c.new_byte_offset, c.has_more)),
        Err(e) => Err(e@),
    }
}

/// Turns the bytes of a read into a chunk (see [`chunk_spec`]); `path`
/// names the log in errors.
pub fn chunk_from_bytes(
    bytes: &[u8],
    start: u64,
    file_len: u64,
    available: u64,
    read_limit: u64,
    reset: bool,
    history_truncated: bool,
    path: &str,
) -> (r: Result<LogChunk, String>)
    requires
        start + bytes@.len() <= u64::MAX,
    ensures
        chunk_view(r, reset, history_truncated) == chunk_spec(bytes@, start, file_len, available, read_limit, path@),
        r matches Ok(c) ==> c.reset == reset && c.history_truncated == history_truncated,
{
    let last = match find_last_newline(bytes) {
        None => {
            if read_limit < available {
                let mut m: Vec<char> = Vec::new();
                push_str(&mut m, "normalized log record 超过 snapshot 上限 524288 bytes [");
                push_str(&mut m, path);
                push_str(&mut m, "]");
                return Err(string_from_chars(&m));
            }
            let empty: Vec<String> = Vec::new();
            assert(empty.deep_view() =~= Seq::<Seq<char>>::empty());
            return Ok(LogChunk { reset, log_lines: empty, new_byte_offset: start, has_more: false, history_truncated });
        },
        Some(i) => i,
    };
    let complete = &bytes[0..last + 1];
    assert(complete@ =~= bytes@.take(last + 1));
    let text = match utf8_decode(complete) {
        Ok(t) => t,
        Err(e) => {
            let mut m: Vec<char> = Vec::new();
            push_str(&mut m, "normalized log 不是有效 UTF-8 [");
            push_str(&mut m, path);
            push_str(&mut m, " offset=");
            push_decimal(&mut m, start);
            push_str(&mut m, "]: ");
            push_str(&mut m, e.as_str());
            return Err(string_from_chars(&m));
        },
    };
    let chars = str_chars(text.as_str());
    let body = if chars.len() > 0 {
        crate::text::copy_range(&chars, 0, chars.len() - 1)
    } else {
        Vec::new()
    };
    proof {
        if chars.len() == 0 {
            assert(body@ =~= chars@.drop_last());
        }
    }
    let pieces = crate::text::split_on_chars(&body, '\n', '\n');
    let lines = strip_cr_lines(pieces);
    let next = start + last as u64 + 1;
    Ok(LogChunk {
        reset,
        log_lines: lines,
        new_byte_offset: next,
        has_more: next < file_len && read_limit < available,
        history_truncated,
    })
}

} // verus!
