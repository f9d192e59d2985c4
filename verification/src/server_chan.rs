//! Server Chan push delivery: which keys are accepted, how HTTP and
//! business answers are read, what is retried, and how secrets are kept
//! out of messages.
use crate::text::{owned, push_chars, push_decimal, push_str, str_chars, string_from_chars, trim, trim_str};
use vstd::prelude::*;
use vstd::string::StringSliceAdditionalSpecFns;
use vstd::utf8::encode_utf8;

verus! {

/// Longest accepted send key, in bytes.
pub const MAX_SEND_KEY_BYTES: usize = 256;

/// Attempts per delivery.
pub const MAX_DELIVERY_ATTEMPTS: usize = 2;

/// Message when the push service did not confirm a delivery in time.
pub open spec fn unconfirmed_delivery_message() -> Seq<char> {
    "Server酱响应确认超时；通知可能已送达，请检查微信后再决定是否重试"@
}

/// The answer when the push service did not confirm a delivery in time.
pub fn unconfirmed_delivery() -> (r: String)
    ensures
        r@ == unconfirmed_delivery_message(),
{
    owned("Server酱响应确认超时；通知可能已送达，请检查微信后再决定是否重试")
}

/// A confirmed delivery and the attempts it took.
#[derive(Debug, Clone, Copy, PartialEq, Eq, Structural)]
pub struct DeliveryReceipt {
    pub attempts: usize,
}

/// A failed attempt, and whether trying again may help.
#[derive(Debug)]
pub struct DeliveryError {
    pub message: String,
    pub retryable: bool,
}

impl DeliveryError {
    /// A failure that retrying cannot fix.
    pub fn permanent(message: String) -> (e: DeliveryError)
        ensures
            e.message == message,
            !e.retryable,
    {
        DeliveryError { message, retryable: false }
    }

    /// A failure that a retry may fix.
    pub fn transient(message: String) -> (e: DeliveryError)
        ensures
            e.message == message,
            e.retryable,
    {
        DeliveryError { message, retryable: true }
    }
}

/// Bytes a send key may hold: ASCII letters and digits, `_` and `-`.
pub open spec fn is_key_byte(b: u8) -> bool {
    (48 <= b <= 57) || (65 <= b <= 90) || (97 <= b <= 122) || b == 95 || b == 45
}

/// Why a send key is refused, if it is; else the trimmed key. Only
/// letters, digits, `_` and `-` are allowed, so a key cannot add path
/// segments or a query to the endpoint.
pub open spec fn send_key_check(key: Seq<char>) -> Result<Seq<char>, Seq<char>> {
    let t = trim(key);
    if t.len() == 0 {
        Err("Server酱 SendKey 不能为空"@)
    } else if encode_utf8(t).len() > MAX_SEND_KEY_BYTES {
        Err("Server酱 SendKey 不能超过 256 bytes"@)
    } else if exists|i: int| 0 <= i < encode_utf8(t).len() && !is_key_byte(#[trigger] encode_utf8(t)[i]) {
        Err("Server酱 SendKey 包含不允许的字符"@)
    } else {
        Ok(t)
    }
}

/// Checks a Server Chan send key.
pub fn validate_send_key(send_key: &str) -> (r: Result<String, String>)
    ensures
        match r {
            Ok(k) => send_key_check(send_key@) == Ok::<Seq<char>, Seq<char>>(k@),
            Err(e) => send_key_check(send_key@) == Err::<Seq<char>, Seq<char>>(e@),
        },
{
    let t = trim_str(send_key);
    if t.len() == 0 {
        return Err(owned("Server酱 SendKey 不能为空"));
    }
    let key = string_from_chars(&t);
    let bytes = key.as_str().as_bytes();
    if bytes.len() > MAX_SEND_KEY_BYTES {
        return Err(owned("Server酱 SendKey 不能超过 256 bytes"));
    }
    let mut i: usize = 0;
    while i < bytes.len()
        invariant
            i <= bytes.len(),
            bytes@ == encode_utf8(trim(send_key@)),
            trim(send_key@).len() > 0,
            bytes.len() <= MAX_SEND_KEY_BYTES,
            forall|k: int| 0 <= k < i ==> is_key_byte(#[trigger] bytes@[k]),
        decreases bytes.len() - i,
    {
        let b = bytes[i];
        if !((48 <= b && b <= 57) || (65 <= b && b <= 90) || (97 <= b && b <= 122) || b == 95 || b
            == 45) {
            assert(!is_key_byte(encode_utf8(trim(send_key@))[i as int]));
            return Err(owned("Server酱 SendKey 包含不允许的字符"));
        }
        i = i + 1;
    }
    Ok(key)
}

/// The failure for an HTTP status other than success: request timeout,
/// rate limiting and server errors may be retried, anything else not.
pub fn http_error(status: u16) -> (e: DeliveryError)
    ensures
        e.message@ == "Server酱返回 HTTP "@ + crate::text::decimal(status as nat),
        e.retryable == (status == 408 || status == 429 || (500 <= status <= 599)),
{
    let mut m: Vec<char> = Vec::new();
    push_str(&mut m, "Server酱返回 HTTP ");
    push_decimal(&mut m, status as u64);
    let message = string_from_chars(&m);
    if status == 408 || status == 429 || (500 <= status && status <= 599) {
        DeliveryError::transient(message)
    } else {
        DeliveryError::permanent(message)
    }
}

/// The failure for a request that did not get an answer: a connection
/// failure may be retried; a timeout after connecting may already have
/// delivered, so it is not retried.
pub fn network_error(is_connect: bool, is_timeout: bool) -> (e: DeliveryError)
    ensures
        is_connect && is_timeout ==> e.message@ == "连接 Server酱超时"@ && e.retryable,
        is_connect && !is_timeout ==> e.message@ == "无法连接 Server酱服务"@ && e.retryable,
        !is_connect && is_timeout ==> e.message@ == unconfirmed_delivery_message() && !e.retryable,
        !is_connect && !is_timeout ==> e.message@ == "Server酱网络请求失败"@ && e.retryable,
{
    if is_connect && is_timeout {
        DeliveryError::transient(owned("连接 Server酱超时"))
    } else if is_connect {
        DeliveryError::transient(owned("无法连接 Server酱服务"))
    } else if is_timeout {
        DeliveryError::permanent(unconfirmed_delivery())
    } else {
        DeliveryError::transient(owned("Server酱网络请求失败"))
    }
}

/// `s` with every occurrence of `secret` replaced, left to right and
/// without overlaps, as std's `str::replace`; an empty `secret` inserts
/// the replacement around every character.
pub open spec fn replace_all(s: Seq<char>, secret: Seq<char>, with: Seq<char>) -> Seq<char>
    decreases s.len(),
{
    if secret.len() == 0 {
        if s.len() == 0 {
            with
        } else {
            with + seq![s[0]] + replace_all(s.drop_first(), secret, with)
        }
    } else if s.len() < secret.len() {
        s
    } else if s.take(secret.len() as int) == secret {
        with + replace_all(s.skip(secret.len() as int), secret, with)
    } else {
        seq![s[0]] + replace_all(s.drop_first(), secret, with)
    }
}

/// At most `max_chars` characters of `s`, with `...` appended when any were
/// cut.
pub open spec fn bounded(s: Seq<char>, max_chars: nat) -> Seq<char> {
    if s.len() > max_chars {
        s.take(max_chars as int) + "..."@
    } else {
        s
    }
}

/// Cuts text to `max_chars` characters, marking the cut with `...`.
pub fn bound_chars(v: &Vec<char>, max_chars: usize) -> (r: String)
    ensures
        r@ == bounded(v@, max_chars as nat),
{
    if v.len() > max_chars {
        let mut out: Vec<char> = Vec::new();
        let mut i: usize = 0;
        while i < max_chars
            invariant
                i <= max_chars < v.len(),
                out@ == v@.take(i as int),
            decreases max_chars - i,
        {
            out.push(v[i]);
            i = i + 1;
            assert(out@ =~= v@.take(i as int));
        }
        push_str(&mut out, "...");
        string_from_chars(&out)
    } else {
        string_from_chars(v)
    }
}

fn replace_all_chars(s: &Vec<char>, secret: &Vec<char>, with: &str) -> (r: Vec<char>)
    ensures
        r@ == replace_all(s@, secret@, with@),
{
    let mut out: Vec<char> = Vec::new();
    let mut i: usize = 0;
    let n = s.len();
    let m = secret.len();
    assert(s@.skip(0) =~= s@);
    while i < n && (m == 0 || n - i >= m)
        invariant
            i <= n == s.len(),
            m == secret.len(),
            out@ + replace_all(s@.skip(i as int), secret@, with@) == replace_all(s@, secret@, with@),
        decreases n - i,
    {
        let ghost rest = s@.skip(i as int);
        let ghost before = out@;
        assert(rest.drop_first() =~= s@.skip(i + 1));
        assert(rest[0] == s@[i as int]);
        if m == 0 {
            assert(replace_all(rest, secret@, with@) == with@ + seq![s@[i as int]] + replace_all(
                s@.skip(i + 1),
                secret@,
                with@,
            ));
            push_str(&mut out, with);
            out.push(s[i]);
            assert(out@ + replace_all(s@.skip(i + 1), secret@, with@) =~= before + (with@ + seq![
                s@[i as int],
            ] + replace_all(s@.skip(i + 1), secret@, with@)));
            i = i + 1;
        } else {
            let mut k: usize = 0;
            let mut same = true;
            while k < m
                invariant
                    k <= m == secret.len(),
                    i + m <= n == s.len(),
                    same == (forall|j: int| 0 <= j < k ==> s@[i + j] == secret@[j]),
                decreases m - k,
            {
                if s[i + k] != secret[k] {
                    same = false;
                }
                k = k + 1;
            }
            if same {
                assert(rest.take(m as int) =~= secret@);
                assert(rest.skip(m as int) =~= s@.skip(i + m));
                push_str(&mut out, with);
                assert(out@ + replace_all(s@.skip(i + m), secret@, with@) =~= before + (with@
                    + replace_all(rest.skip(m as int), secret@, with@)));
                i = i + m;
            } else {
                assert(rest.take(m as int) != secret@) by {
                    let j = choose|j: int| 0 <= j < m && s@[i + j] != secret@[j];
                    assert(rest.take(m as int)[j] == s@[i + j]);
                }
                out.push(s[i]);
                assert(out@ + replace_all(s@.skip(i + 1), secret@, with@) =~= before + (seq![
                    s@[i as int],
                ] + replace_all(rest.drop_first(), secret@, with@)));
                i = i + 1;
            }
        }
    }
    if m == 0 {
        assert(s@.skip(i as int) =~= Seq::<char>::empty());
        push_str(&mut out, with);
        return out;
    }
    let ghost tail = s@.skip(i as int);
    assert(replace_all(tail, secret@, with@) == tail);
    let mut j = i;
    while j < n
        invariant
            i <= j <= n == s.len(),
            out@ + s@.skip(j as int) == replace_all(s@, secret@, with@),
        decreases n - j,
    {
        assert(s@.skip(j as int) =~= seq![s@[j as int]] + s@.skip(j + 1));
        let ghost before = out@;
        out.push(s[j]);
        assert(out@ + s@.skip(j + 1) =~= before + s@.skip(j as int));
        j = j + 1;
    }
    assert(s@.skip(n as int) =~= Seq::<char>::empty());
    assert(out@ =~= out@ + s@.skip(n as int));
    out
}

/// Whether `s` occurs in `t` at position `i`.
pub open spec fn occurs_at(t: Seq<char>, s: Seq<char>, i: int) -> bool {
    0 <= i && i + s.len() <= t.len() && t.subrange(i, i + s.len()) == s
}

/// Whether `s` occurs anywhere in `t`.
pub open spec fn occurs(t: Seq<char>, s: Seq<char>) -> bool {
    exists|i: int| occurs_at(t, s, i)
}

/// The replacement text of a redacted secret.
pub open spec fn redaction() -> Seq<char> {
    "[REDACTED]"@
}

/// Until the first inserted `[`, the text after replacement is the text
/// before it.
proof fn lemma_replaced_prefix(t: Seq<char>, secret: Seq<char>, k: int)
    requires
        secret.len() > 0,
        0 <= k <= replace_all(t, secret, redaction()).len(),
        forall|j: int| 0 <= j < k ==> replace_all(t, secret, redaction())[j] != '[',
    ensures
        k <= t.len(),
        replace_all(t, secret, redaction()).take(k) == t.take(k),
    decreases t.len(),
{
    reveal_strlit("[REDACTED]");
    let out = replace_all(t, secret, redaction());
    if t.len() < secret.len() {
    } else if t.take(secret.len() as int) == secret {
        if k > 0 {
            assert(out[0] == '[');
        }
    } else if k > 0 {
        let rest = replace_all(t.drop_first(), secret, redaction());
        assert(out == seq![t[0]] + rest);
        assert forall|j: int| 0 <= j < k - 1 implies rest[j] != '[' by {
            assert(out[j + 1] == rest[j]);
        }
        lemma_replaced_prefix(t.drop_first(), secret, k - 1);
        assert(out.take(k) =~= seq![t[0]] + rest.take(k - 1));
        assert(t.take(k) =~= seq![t[0]] + t.drop_first().take(k - 1));
    }
}

/// A secret without brackets that does not occur in the replacement text
/// does not occur in the text after replacement.
proof fn lemma_replaced_omits(t: Seq<char>, secret: Seq<char>)
    requires
        secret.len() > 0,
        forall|j: int| 0 <= j < secret.len() ==> secret[j] != '[' && secret[j] != ']',
        !occurs(redaction(), secret),
    ensures
        !occurs(replace_all(t, secret, redaction()), secret),
    decreases t.len(),
{
    reveal_strlit("[REDACTED]");
    let r = redaction();
    let m = secret.len() as int;
    let out = replace_all(t, secret, r);
    if t.len() < secret.len() {
    } else if t.take(m) == secret {
        let x = replace_all(t.skip(m), secret, r);
        lemma_replaced_omits(t.skip(m), secret);
        assert(out == r + x);
        assert forall|i: int| !occurs_at(out, secret, i) by {
            if occurs_at(out, secret, i) {
                if i + m <= r.len() {
                    assert(out.subrange(i, i + m) =~= r.subrange(i, i + m));
                    assert(occurs_at(r, secret, i));
                } else if i >= r.len() {
                    assert(out.subrange(i, i + m) =~= x.subrange(i - r.len(), i - r.len() + m));
                    assert(occurs_at(x, secret, i - r.len()));
                } else {
                    assert(secret[r.len() - 1 - i] == out.subrange(i, i + m)[r.len() - 1 - i]);
                    assert(out[r.len() - 1] == ']');
                }
            }
        }
    } else {
        let x = replace_all(t.drop_first(), secret, r);
        lemma_replaced_omits(t.drop_first(), secret);
        assert(out == seq![t[0]] + x);
        assert forall|i: int| !occurs_at(out, secret, i) by {
            if occurs_at(out, secret, i) {
                if i >= 1 {
                    assert(out.subrange(i, i + m) =~= x.subrange(i - 1, i - 1 + m));
                    assert(occurs_at(x, secret, i - 1));
                } else {
                    assert forall|j: int| 0 <= j < m - 1 implies x[j] != '[' by {
                        assert(x[j] == out.subrange(0, m)[j + 1]);
                    }
                    lemma_replaced_prefix(t.drop_first(), secret, m - 1);
                    assert(t.take(m) =~= seq![t[0]] + t.drop_first().take(m - 1));
                    assert(out.subrange(0, m) =~= seq![t[0]] + x.take(m - 1));
                }
            }
        }
    }
}

/// A bounded message repeats a key only if the text before bounding did,
/// for a key without dots.
proof fn lemma_bounded_omits(t: Seq<char>, secret: Seq<char>, max_chars: nat)
    requires
        secret.len() > 0,
        forall|j: int| 0 <= j < secret.len() ==> secret[j] != '.',
        !occurs(t, secret),
    ensures
        !occurs(bounded(t, max_chars), secret),
{
    reveal_strlit("...");
    let m = secret.len() as int;
    let n = max_chars as int;
    if t.len() > max_chars {
        let out = bounded(t, max_chars);
        assert(out == t.take(n) + "..."@);
        assert forall|i: int| !occurs_at(out, secret, i) by {
            if occurs_at(out, secret, i) {
                if i + m <= n {
                    assert(out.subrange(i, i + m) =~= t.subrange(i, i + m));
                    assert(occurs_at(t, secret, i));
                } else {
                    assert(secret[m - 1] == out.subrange(i, i + m)[m - 1]);
                    assert(out[i + m - 1] == '.');
                }
            }
        }
    }
}

/// Redaction keeps a key out of a message: a key that is not empty, holds
/// no `[`, `]` or `.` (a valid send key holds none), and does not occur in
/// `[REDACTED]` itself never occurs in the redacted, bounded text.
pub proof fn law_redacted_message_omits_key(value: Seq<char>, secret: Seq<char>, max_chars: nat)
    requires
        secret.len() > 0,
        forall|j: int|
            0 <= j < secret.len() ==> secret[j] != '[' && secret[j] != ']' && secret[j] != '.',
        !occurs(redaction(), secret),
    ensures
        !occurs(bounded(replace_all(value, secret, redaction()), max_chars), secret),
{
    lemma_replaced_omits(value, secret);
    lemma_bounded_omits(replace_all(value, secret, redaction()), secret, max_chars);
}

/// Replaces `secret` in `value` and bounds the result to `max_chars`
/// characters (see [`law_redacted_message_omits_key`] for when the key
/// can then no longer be read in it).
pub fn redact_and_bound(value: &str, secret: &str, max_chars: usize) -> (r: String)
    ensures
        r@ == bounded(replace_all(value@, secret@, "[REDACTED]"@), max_chars as nat),
{
    let v = str_chars(value);
    let s = str_chars(secret);
    let replaced = replace_all_chars(&v, &s, "[REDACTED]");
    bound_chars(&replaced, max_chars)
}


/// What `serde_json` reads from a response body: `None` when it is not
/// JSON; else the `code` field as an `i64` and the `message` field as a
/// string, each when present with that type.
pub uninterp spec fn json_code_message(body: Seq<u8>) -> Option<(Option<i64>, Option<Seq<char>>)>;

/// View of the fields read from a response.
pub open spec fn fields_view(f: Option<(Option<i64>, Option<String>)>) -> Option<(Option<i64>, Option<Seq<char>>)> {
    match f {
        None => None,
        Some((code, message)) => Some((code, match message {
            Some(m) => Some(m@),
            None => None,
        })),
    }
}

/// Calls `serde_json::from_slice` for a `Value` and reads its `code` and
/// `message` fields; the result is named [`json_code_message`].
#[verifier::external_body]
fn read_business_fields(body: &[u8]) -> (r: Option<(Option<i64>, Option<String>)>)
    ensures
        fields_view(r) == json_code_message(body@),
{
    match serde_json::from_slice::<serde_json::Value>(body) {
        Ok(v) => Some((
            v.get("code").and_then(serde_json::Value::as_i64),
            v.get("message").and_then(serde_json::Value::as_str).map(String::from),
        )),
        Err(_) => None,
    }
}

/// The error detail of a business failure: the redacted, bounded message
/// when there is one and it is not empty.
pub open spec fn business_detail(message: Option<Seq<char>>, send_key: Seq<char>) -> Seq<char> {
    match message {
        Some(m) => {
            let d = bounded(replace_all(m, send_key, "[REDACTED]"@), 240);
            if d.len() == 0 {
                "未提供错误详情"@
            } else {
                d
            }
        },
        None => "未提供错误详情"@,
    }
}

/// What a business answer means: only `code == 0` is a delivery; every
/// failure is permanent and never repeats the send key.
pub open spec fn business_spec(fields: Option<(Option<i64>, Option<Seq<char>>)>, send_key: Seq<char>) -> Result<(), Seq<char>> {
    match fields {
        None => Err("Server酱返回了无效 JSON"@),
        Some((None, _)) => Err("Server酱响应缺少业务 code"@),
        Some((Some(code), message)) => if code == 0 {
            Ok(())
        } else {
            Err("Server酱业务错误 code="@ + crate::text::signed_decimal(code as int) + ": "@
                + business_detail(message, send_key))
        },
    }
}

/// Reads the business answer from the fields of a response.
pub fn business_result(fields: Option<(Option<i64>, Option<String>)>, send_key: &str) -> (r: Result<(), DeliveryError>)
    ensures
        match r {
            Ok(()) => business_spec(fields_view(fields), send_key@) is Ok,
            Err(e) => business_spec(fields_view(fields), send_key@) == Err::<(), Seq<char>>(e.message@) && !e.retryable,
        },
{
    match fields {
        None => Err(DeliveryError::permanent(owned("Server酱返回了无效 JSON"))),
        Some((None, _)) => Err(DeliveryError::permanent(owned("Server酱响应缺少业务 code"))),
        Some((Some(code), message)) => {
            if code == 0 {
                return Ok(());
            }
            let detail = match message {
                Some(m) => {
                    let d = redact_and_bound(m.as_str(), send_key, 240);
                    let dv = str_chars(d.as_str());
                    if dv.len() == 0 {
                        owned("未提供错误详情")
                    } else {
                        d
                    }
                },
                None => owned("未提供错误详情"),
            };
            let mut v: Vec<char> = Vec::new();
            push_str(&mut v, "Server酱业务错误 code=");
            crate::text::push_signed_decimal(&mut v, code);
            push_str(&mut v, ": ");
            push_str(&mut v, detail.as_str());
            Err(DeliveryError::permanent(string_from_chars(&v)))
        },
    }
}

/// Reads a response body of the push service.
pub fn parse_business_response(body: &[u8], send_key: &str) -> (r: Result<(), DeliveryError>)
    ensures
        match r {
            Ok(()) => business_spec(json_code_message(body@), send_key@) is Ok,
            Err(e) => business_spec(json_code_message(body@), send_key@) == Err::<(), Seq<char>>(e.message@) && !e.retryable,
        },
{
    let fields = read_business_fields(body);
    business_result(fields, send_key)
}

/// What follows one delivery attempt.
#[derive(Debug)]
pub enum DeliveryStep {
    /// Delivery is over with this answer.
    Done(Result<DeliveryReceipt, String>),
    /// Wait the retry delay and try again.
    Retry,
}

/// Decides what follows attempt number `attempt` (counted from 1): a
/// success is confirmed with its attempt count; a retryable failure is
/// retried while attempts remain; any other failure ends the delivery.
pub fn delivery_step(attempt: usize, result: Result<(), DeliveryError>) -> (s: DeliveryStep)
    ensures
        match result {
            Ok(()) => s matches DeliveryStep::Done(Ok(receipt)) && receipt.attempts == attempt,
            Err(e) => if e.retryable && attempt < MAX_DELIVERY_ATTEMPTS {
                s is Retry
            } else {
                s matches DeliveryStep::Done(Err(m)) && m@ == e.message@
            },
        },
        attempt >= MAX_DELIVERY_ATTEMPTS ==> s is Done,
{
    match result {
        Ok(()) => DeliveryStep::Done(Ok(DeliveryReceipt { attempts: attempt })),
        Err(e) => if e.retryable && attempt < MAX_DELIVERY_ATTEMPTS {
            DeliveryStep::Retry
        } else {
            DeliveryStep::Done(Err(e.message))
        },
    }
}

/// Largest business answer read from the push service, in bytes.
pub const MAX_RESPONSE_BYTES: usize = 8192;

/// Whether a further chunk of `chunk_len` bytes may be added to the
/// `received` bytes of an answer: the whole answer stays within 8 KiB.
pub fn accept_response_chunk(received: usize, chunk_len: usize) -> (r: Result<(), DeliveryError>)
    ensures
        received + chunk_len <= MAX_RESPONSE_BYTES ==> r is Ok,
        received + chunk_len > MAX_RESPONSE_BYTES ==> (r matches Err(e) && !e.retryable
            && e.message@ == "Server酱响应超过 8 KiB 安全上限"@),
{
    if received > MAX_RESPONSE_BYTES || chunk_len > MAX_RESPONSE_BYTES - received {
        return Err(DeliveryError::permanent(owned("Server酱响应超过 8 KiB 安全上限")));
    }
    Ok(())
}

/// What pushing a path segment onto a URL gives.
pub enum SegmentPush {
    /// The new URL.
    Pushed(String),
    /// The base does not parse.
    NotParsed,
    /// The base cannot take path segments (it cannot be a base).
    CannotBeBase,
}

/// Model of a [`SegmentPush`].
pub enum SegmentPushView {
    Pushed(Seq<char>),
    NotParsed,
    CannotBeBase,
}

impl View for SegmentPush {
    type V = SegmentPushView;

    open spec fn view(&self) -> SegmentPushView {
        match self {
            SegmentPush::Pushed(u) => SegmentPushView::Pushed(u@),
            SegmentPush::NotParsed => SegmentPushView::NotParsed,
            SegmentPush::CannotBeBase => SegmentPushView::CannotBeBase,
        }
    }
}

/// What `url::Url::parse(base)` followed by `path_segments_mut().push(segment)`
/// gives, the URL taken by `as_str`.
pub uninterp spec fn url_push_segment(base: Seq<char>, segment: Seq<char>) -> SegmentPushView;

/// Parses `base` with `url::Url::parse` and pushes `segment` as a new path
/// segment, which `url` percent-encodes as needed; the result is named
/// [`url_push_segment`].
#[verifier::external_body]
fn push_url_segment(base: &str, segment: &str) -> (r: SegmentPush)
    ensures
        r@ == url_push_segment(base@, segment@),
{
    let mut url = match url::Url::parse(base) {
        Ok(url) => url,
        Err(_) => return SegmentPush::NotParsed,
    };
    match url.path_segments_mut() {
        Ok(mut segments) => {
            segments.push(segment);
        },
        Err(()) => return SegmentPush::CannotBeBase,
    }
    SegmentPush::Pushed(url.as_str().to_string())
}

/// The push service's fixed origin.
pub open spec fn server_chan_origin() -> Seq<char> {
    "https://sctapi.ftqq.com/"@
}

/// The delivery endpoint of a send key: the fixed origin with the path
/// segment `<key>.send`.
pub fn build_endpoint(send_key: &str) -> (r: Result<String, DeliveryError>)
    ensures
        match url_push_segment(server_chan_origin(), send_key@ + ".send"@) {
            SegmentPushView::Pushed(u) => r matches Ok(s) && s@ == u,
            SegmentPushView::NotParsed => r matches Err(e) && !e.retryable
                && e.message@ == "Server酱固定 endpoint 无效"@,
            SegmentPushView::CannotBeBase => r matches Err(e) && !e.retryable
                && e.message@ == "Server酱固定 endpoint 不能写入 path"@,
        },
{
    let mut segment: Vec<char> = Vec::new();
    push_str(&mut segment, send_key);
    push_str(&mut segment, ".send");
    let segment = string_from_chars(&segment);
    match push_url_segment("https://sctapi.ftqq.com/", segment.as_str()) {
        SegmentPush::Pushed(u) => Ok(u),
        SegmentPush::NotParsed => Err(DeliveryError::permanent(owned("Server酱固定 endpoint 无效"))),
        SegmentPush::CannotBeBase => Err(
            DeliveryError::permanent(owned("Server酱固定 endpoint 不能写入 path")),
        ),
    }
}

} // verus!
