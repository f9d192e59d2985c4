//! The launcher's configuration: limits, validation of each setting, and
//! the allow-list of Codex base URLs.
use crate::text::{
    chars_eq_ignore_ascii_case, eq_ignore_ascii_case, opt_view, owned, push_chars, push_str,
    split_on, split_on_chars, str_chars, str_eq, string_from_chars, trim, trim_chars,
    trim_end_char, trim_end_char_vec, trim_str,
};
use crate::schedule::{compile_spec, default_schedule, ScheduleConfig, ScheduleSpec};
use crate::app_storage::{join, joined, main_separator};
use crate::text::{decimal, push_decimal};
use vstd::prelude::*;

verus! {

/// The configuration format this build reads and writes.
pub const CURRENT_CONFIG_VERSION: u32 = 2;

/// Longest retry interval, in seconds.
pub const MAX_INTERVAL_SECONDS: u64 = 86400;

/// Largest allowed attempt budget (`0` means unlimited).
pub const MAX_TRIES_LIMIT: u64 = 100000;

/// Longest keep-alive interval, in minutes.
pub const MAX_KEEP_ALIVE_INTERVAL_MINUTES: u64 = 1440;

/// Most concurrent workers a run may use.
pub const MAX_CONCURRENCY: u64 = 16;

/// The view of a result that carries a message on failure.
pub open spec fn unit_result_view(r: Result<(), String>) -> Result<(), Seq<char>> {
    match r {
        Ok(()) => Ok(()),
        Err(e) => Err(e@),
    }
}


/// Characters that `char::is_control` reports: the C0 and C1 controls and
/// DEL.
pub open spec fn is_control(c: char) -> bool {
    c <= '\u{1f}' || ('\u{7f}' <= c && c <= '\u{9f}')
}

/// Characters that Task Scheduler or the shell do not accept in a name.
pub open spec fn is_forbidden_name_char(c: char) -> bool {
    is_control(c) || c == '<' || c == '>' || c == ':' || c == '"' || c == '/' || c == '\\' || c
        == '|' || c == '?' || c == '*' || c == '&' || c == '^' || c == '%' || c == '$' || c == ';'
}

/// Why a task name is refused, if it is. The name is taken trimmed.
pub open spec fn task_name_check(name: Seq<char>) -> Result<(), Seq<char>> {
    let t = trim(name);
    if t.len() == 0 {
        Err("计划任务名称不能为空"@)
    } else if t.len() > 238 {
        Err("计划任务名称不能超过 238 个字符"@)
    } else if exists|i: int| 0 <= i < t.len() && is_forbidden_name_char(#[trigger] t[i]) {
        Err("计划任务名称包含不允许的字符"@)
    } else {
        Ok(())
    }
}

/// Checks a scheduled-task name.
pub fn validate_task_name(task_name: &str) -> (r: Result<(), String>)
    ensures
        unit_result_view(r) == task_name_check(task_name@),
{
    let t = trim_str(task_name);
    if t.len() == 0 {
        return Err(owned("计划任务名称不能为空"));
    }
    if t.len() > 238 {
        return Err(owned("计划任务名称不能超过 238 个字符"));
    }
    let mut i: usize = 0;
    while i < t.len()
        invariant
            i <= t.len(),
            t@ == trim(task_name@),
            0 < t.len() <= 238,
            forall|k: int| 0 <= k < i ==> !is_forbidden_name_char(#[trigger] t@[k]),
        decreases t.len() - i,
    {
        let c = t[i];
        if c <= '\u{1f}' || ('\u{7f}' <= c && c <= '\u{9f}') || c == '<' || c == '>' || c == ':'
            || c == '"' || c == '/' || c == '\\' || c == '|' || c == '?' || c == '*' || c == '&'
            || c == '^' || c == '%' || c == '$' || c == ';' {
            assert(is_forbidden_name_char(trim(task_name@)[i as int]));
            return Err(owned("计划任务名称包含不允许的字符"));
        }
        i = i + 1;
    }
    Ok(())
}

/// The non-empty trimmed pieces of an allow-list.
pub open spec fn nonempty_trimmed(parts: Seq<Seq<char>>) -> Seq<Seq<char>>
    decreases parts.len(),
{
    if parts.len() == 0 {
        seq![]
    } else {
        let prev = nonempty_trimmed(parts.drop_last());
        if trim(parts.last()).len() == 0 {
            prev
        } else {
            prev.push(trim(parts.last()))
        }
    }
}

/// The entries of an allow-list of base URLs: separated by `;` or the
/// full-width `；`, trimmed, empty ones dropped.
pub open spec fn allowed_url_entries(list: Seq<char>) -> Seq<Seq<char>> {
    nonempty_trimmed(split_on(list, ';', '；'))
}

/// Splits an allow-list of base URLs into its entries.
pub fn split_allowed_urls(allowed_urls: &str) -> (r: Vec<String>)
    ensures
        r.deep_view() == allowed_url_entries(allowed_urls@),
{
    let v = str_chars(allowed_urls);
    let pieces = split_on_chars(&v, ';', '；');
    let ghost ps = pieces.deep_view();
    let mut out: Vec<String> = Vec::new();
    let mut i: usize = 0;
    while i < pieces.len()
        invariant
            i <= pieces.len(),
            ps == pieces.deep_view(),
            out.deep_view() == nonempty_trimmed(ps.take(i as int)),
        decreases pieces.len() - i,
    {
        assert(ps.take(i + 1).drop_last() =~= ps.take(i as int));
        assert(ps.take(i + 1).last() == ps[i as int]);
        assert(pieces[i as int]@ == ps[i as int]);
        let t = trim_chars(&pieces[i]);
        let ghost before = out.deep_view();
        if t.len() > 0 {
            let s = string_from_chars(&t);
            out.push(s);
            assert(out.deep_view() =~= before.push(t@));
        }
        assert(out.deep_view() =~= nonempty_trimmed(ps.take(i + 1)));
        i = i + 1;
    }
    assert(ps.take(pieces.len() as int) =~= ps);
    out
}


/// The parts of a parsed URL that the allow-list reads.
#[derive(Debug)]
pub struct UrlParts {
    pub scheme: String,
    pub host: Option<String>,
    pub username: String,
    pub password: Option<String>,
    /// The explicit port, or the scheme's default port.
    pub port: Option<u16>,
    pub path: String,
    pub query: Option<String>,
    /// The whole URL as the parser serialized it.
    pub serialization: String,
}

/// Model of [`UrlParts`].
pub struct UrlView {
    pub scheme: Seq<char>,
    pub host: Option<Seq<char>>,
    pub username: Seq<char>,
    pub password: Option<Seq<char>>,
    pub port: Option<u16>,
    pub path: Seq<char>,
    pub query: Option<Seq<char>>,
    pub serialization: Seq<char>,
}

impl View for UrlParts {
    type V = UrlView;

    open spec fn view(&self) -> UrlView {
        UrlView {
            scheme: self.scheme@,
            host: opt_view(self.host),
            username: self.username@,
            password: opt_view(self.password),
            port: self.port,
            path: self.path@,
            query: opt_view(self.query),
            serialization: self.serialization@,
        }
    }
}

/// What `url::Url::parse` makes of `input`: the parts read through its
/// accessors (`scheme`, `host_str`, `username`, `password`,
/// `port_or_known_default`, `path`, `query`, `as_str`), or the text of its
/// parse error.
pub uninterp spec fn url_parse_result(input: Seq<char>) -> Result<UrlView, Seq<char>>;

/// The path of the URL serialized as `url` after `Url::set_path(path)`, as
/// `url::Url::path` then reports it.
pub uninterp spec fn url_path_after_set(url: Seq<char>, path: Seq<char>) -> Seq<char>;

/// View of a parse result.
pub open spec fn parts_result_view(r: Result<UrlParts, String>) -> Result<UrlView, Seq<char>> {
    match r {
        Ok(p) => Ok(p@),
        Err(e) => Err(e@),
    }
}

/// Calls `url::Url::parse` and reads the parts; the result is named
/// [`url_parse_result`].
#[verifier::external_body]
fn parse_url(input: &str) -> (r: Result<UrlParts, String>)
    ensures
        parts_result_view(r) == url_parse_result(input@),
{
    match url::Url::parse(input) {
        Ok(u) => Ok(UrlParts {
            scheme: u.scheme().to_string(),
            host: u.host_str().map(String::from),
            username: u.username().to_string(),
            password: u.password().map(String::from),
            port: u.port_or_known_default(),
            path: u.path().to_string(),
            query: u.query().map(String::from),
            serialization: u.as_str().to_string(),
        }),
        Err(e) => Err(e.to_string()),
    }
}

/// Parses `url` again with `url::Url::parse`, calls `set_path(path)` and
/// reads `path()`; `None` when `url` does not parse. The new path is named
/// [`url_path_after_set`].
#[verifier::external_body]
fn url_with_path(url: &str, path: &str) -> (r: Option<String>)
    ensures
        r is None <==> url_parse_result(url@) is Err,
        r is Some ==> r->0@ == url_path_after_set(url@, path@),
{
    match url::Url::parse(url) {
        Ok(mut u) => {
            u.set_path(path);
            Some(u.path().to_string())
        },
        Err(_) => None,
    }
}

/// The path an allow-list compares: without trailing `/`, except the root.
pub open spec fn comparable_path(path: Seq<char>) -> Seq<char> {
    if path == "/"@ {
        "/"@
    } else {
        trim_end_char(path, '/')
    }
}

/// Checks a parsed base URL: it must be http or https with a host and must
/// not carry credentials. On success, gives the path to set on it.
pub open spec fn base_url_check(value: Seq<char>, parsed: Result<UrlView, Seq<char>>) -> Result<
    (UrlView, Seq<char>),
    Seq<char>,
> {
    match parsed {
        Err(e) => Err("base URL 无效 ["@ + trim(value) + "]: "@ + e),
        Ok(p) => if !(p.scheme == "http"@ || p.scheme == "https"@) || p.host is None {
            Err("base URL 必须是带 host 的 http/https URL: "@ + value)
        } else if p.username.len() > 0 || p.password is Some {
            Err("base URL 不能包含用户名或密码: "@ + value)
        } else {
            Ok((p, comparable_path(p.path)))
        },
    }
}

/// View of a checked base URL.
pub open spec fn checked_view(r: Result<(UrlParts, String), String>) -> Result<
    (UrlView, Seq<char>),
    Seq<char>,
> {
    match r {
        Ok((p, path)) => Ok((p@, path@)),
        Err(e) => Err(e@),
    }
}

/// Checks what the URL parser returned for `value` (see
/// [`base_url_check`]).
pub fn checked_base_url(value: &str, parsed: Result<UrlParts, String>) -> (r: Result<
    (UrlParts, String),
    String,
>)
    ensures
        checked_view(r) == base_url_check(value@, parts_result_view(parsed)),
{
    match parsed {
        Err(e) => {

            let mut m: Vec<char> = Vec::new();
            push_str(&mut m, "base URL 无效 [");
            let t = trim_str(value);
            push_chars(&mut m, &t);
            push_str(&mut m, "]: ");
            push_str(&mut m, e.as_str());
            assert(m@ =~= "base URL 无效 ["@ + trim(value@) + "]: "@ + e@);
            Err(string_from_chars(&m))
        },
        Ok(p) => {
            let http = str_eq(p.scheme.as_str(), "http") || str_eq(p.scheme.as_str(), "https");
            if !http || p.host.is_none() {
                let mut m: Vec<char> = Vec::new();
                push_str(&mut m, "base URL 必须是带 host 的 http/https URL: ");
                push_str(&mut m, value);
                return Err(string_from_chars(&m));
            }
            let user = str_chars(p.username.as_str());
            if user.len() > 0 || p.password.is_some() {
                let mut m: Vec<char> = Vec::new();
                push_str(&mut m, "base URL 不能包含用户名或密码: ");
                push_str(&mut m, value);
                return Err(string_from_chars(&m));
            }
            let path_chars = str_chars(p.path.as_str());
            let path = if str_eq(p.path.as_str(), "/") {
                owned("/")
            } else {
                let t = trim_end_char_vec(&path_chars, '/');
                string_from_chars(&t)
            };
            Ok((p, path))
        },
    }
}

/// A base URL as the allow-list reads it: parsed, checked, and with its
/// path normalized through the parser.
pub open spec fn base_url_spec(value: Seq<char>) -> Result<UrlView, Seq<char>> {
    match base_url_check(value, url_parse_result(trim(value))) {
        Err(e) => Err(e),
        Ok((p, path)) => Ok(
            UrlView {
                path: match url_parse_result(p.serialization) {
                    Ok(_) => url_path_after_set(p.serialization, path),
                    Err(_) => path,
                },
                ..p
            },
        ),
    }
}

/// Parses and checks a base URL of the allow-list.
pub fn parse_base_url(value: &str) -> (r: Result<UrlParts, String>)
    ensures
        parts_result_view(r) == base_url_spec(value@),
{
    let t = trim_str(value);
    let trimmed = string_from_chars(&t);
    let parsed = parse_url(trimmed.as_str());
    match checked_base_url(value, parsed) {
        Err(e) => Err(e),
        Ok((p, path)) => {
            let new_path = match url_with_path(p.serialization.as_str(), path.as_str()) {
                Some(np) => np,
                None => path,
            };
            Ok(UrlParts { path: new_path, ..p })
        },
    }
}

/// Whether two base URLs name the same endpoint: scheme and host compared
/// without ASCII case, then port (explicit or default), path and query
/// exactly.
pub open spec fn urls_equal(a: UrlView, b: UrlView) -> bool {
    &&& eq_ignore_ascii_case(a.scheme, b.scheme)
    &&& a.host is Some && b.host is Some && eq_ignore_ascii_case(a.host->0, b.host->0)
    &&& a.port == b.port
    &&& a.path == b.path
    &&& a.query == b.query
}

fn opt_str_eq(a: &Option<String>, b: &Option<String>) -> (r: bool)
    ensures
        r == (opt_view(*a) == opt_view(*b)),
{
    match (a, b) {
        (Some(x), Some(y)) => str_eq(x.as_str(), y.as_str()),
        (None, None) => true,
        _ => false,
    }
}

/// Decides [`urls_equal`].
pub fn base_urls_equal(left: &UrlParts, right: &UrlParts) -> (r: bool)
    ensures
        r == urls_equal(left@, right@),
{
    let ls = str_chars(left.scheme.as_str());
    let rs = str_chars(right.scheme.as_str());
    if !chars_eq_ignore_ascii_case(&ls, &rs) {
        return false;
    }
    let hosts = match (&left.host, &right.host) {
        (Some(l), Some(r)) => {
            let lh = str_chars(l.as_str());
            let rh = str_chars(r.as_str());
            chars_eq_ignore_ascii_case(&lh, &rh)
        },
        _ => false,
    };
    hosts && left.port == right.port && str_eq(left.path.as_str(), right.path.as_str())
        && opt_str_eq(&left.query, &right.query)
}


/// The first entry of an allow-list that is not a valid base URL, with
/// its error.
pub open spec fn first_bad_entry(entries: Seq<Seq<char>>) -> Option<Seq<char>>
    decreases entries.len(),
{
    if entries.len() == 0 {
        None
    } else {
        match base_url_spec(entries[0]) {
            Err(e) => Some(e),
            Ok(_) => first_bad_entry(entries.drop_first()),
        }
    }
}

/// Whether `current` passes the allow-list: an empty list allows anything;
/// otherwise `current` and every entry must be valid base URLs, and one
/// entry must name the same endpoint.
pub open spec fn allowed_spec(current: Seq<char>, allowed: Seq<char>) -> Result<bool, Seq<char>> {
    let entries = allowed_url_entries(allowed);
    if entries.len() == 0 {
        Ok(true)
    } else {
        match base_url_spec(current) {
            Err(e) => Err(e),
            Ok(c) => match first_bad_entry(entries) {
                Some(e) => Err(e),
                None => Ok(
                    exists|i: int|
                        0 <= i < entries.len() && urls_equal(
                            c,
                            #[trigger] base_url_spec(entries[i])->Ok_0,
                        ),
                ),
            },
        }
    }
}

proof fn lemma_no_bad_entry(entries: Seq<Seq<char>>)
    requires
        forall|k: int| 0 <= k < entries.len() ==> (#[trigger] base_url_spec(entries[k])) is Ok,
    ensures
        first_bad_entry(entries) is None,
    decreases entries.len(),
{
    if entries.len() > 0 {
        let rest = entries.drop_first();
        assert forall|k: int| 0 <= k < rest.len() implies (#[trigger] base_url_spec(rest[k])) is Ok by {
            assert(rest[k] == entries[k + 1]);
        }
        lemma_no_bad_entry(rest);
    }
}

/// With a non-empty allow-list whose entries, like the current URL, are all
/// valid base URLs, the check answers yes when an entry at any position
/// names the same endpoint as the current URL, and no when none does.
pub proof fn law_allow_list_matches_any_entry(current: Seq<char>, allowed: Seq<char>, i: int)
    requires
        allowed_url_entries(allowed).len() > 0,
        base_url_spec(current) is Ok,
        forall|k: int|
            0 <= k < allowed_url_entries(allowed).len() ==> (#[trigger] base_url_spec(
                allowed_url_entries(allowed)[k],
            )) is Ok,
    ensures
        0 <= i < allowed_url_entries(allowed).len() && urls_equal(
            base_url_spec(current)->Ok_0,
            base_url_spec(allowed_url_entries(allowed)[i])->Ok_0,
        ) ==> allowed_spec(current, allowed) == Ok::<bool, Seq<char>>(true),
        (forall|k: int|
            0 <= k < allowed_url_entries(allowed).len() ==> !urls_equal(
                base_url_spec(current)->Ok_0,
                #[trigger] base_url_spec(allowed_url_entries(allowed)[k])->Ok_0,
            )) ==> allowed_spec(current, allowed) == Ok::<bool, Seq<char>>(false),
{
    lemma_no_bad_entry(allowed_url_entries(allowed));
}

proof fn lemma_bad_entry_found(entries: Seq<Seq<char>>, i: int)
    requires
        0 <= i < entries.len(),
        base_url_spec(entries[i]) is Err,
    ensures
        first_bad_entry(entries) is Some,
    decreases entries.len(),
{
    if base_url_spec(entries[0]) is Ok {
        assert(entries.drop_first()[i - 1] == entries[i]);
        lemma_bad_entry_found(entries.drop_first(), i - 1);
    }
}

/// With a non-empty allow-list, the check fails (answers neither yes nor
/// no) when the current URL or any entry is not a valid base URL; an
/// invalid current URL fails with its own error.
pub proof fn law_invalid_urls_fail_the_check(current: Seq<char>, allowed: Seq<char>, i: int)
    requires
        allowed_url_entries(allowed).len() > 0,
    ensures
        base_url_spec(current) is Err ==> allowed_spec(current, allowed) == Err::<bool, Seq<char>>(
            base_url_spec(current)->Err_0,
        ),
        0 <= i < allowed_url_entries(allowed).len() && base_url_spec(allowed_url_entries(allowed)[i])
            is Err ==> allowed_spec(current, allowed) is Err,
{
    if 0 <= i < allowed_url_entries(allowed).len() && base_url_spec(allowed_url_entries(allowed)[i]) is Err {
        lemma_bad_entry_found(allowed_url_entries(allowed), i);
    }
}

/// An empty allow-list lets every URL through.
pub proof fn law_empty_allow_list_allows(current: Seq<char>, allowed: Seq<char>)
    requires
        allowed_url_entries(allowed).len() == 0,
    ensures
        allowed_spec(current, allowed) == Ok::<bool, Seq<char>>(true),
{
}

/// View of a yes/no answer that may fail with a message.
pub open spec fn bool_result_view(r: Result<bool, String>) -> Result<bool, Seq<char>> {
    match r {
        Ok(b) => Ok(b),
        Err(e) => Err(e@),
    }
}

/// Whether the Codex base URL `current_url` is on the allow-list.
pub fn is_base_url_allowed(current_url: &str, allowed_urls: &str) -> (r: Result<bool, String>)
    ensures
        bool_result_view(r) == allowed_spec(current_url@, allowed_urls@),
{
    let candidates = split_allowed_urls(allowed_urls);
    let ghost entries = candidates.deep_view();
    if candidates.len() == 0 {
        return Ok(true);
    }
    let current = match parse_base_url(current_url) {
        Ok(c) => c,
        Err(e) => return Err(e),
    };
    let mut parsed: Vec<UrlParts> = Vec::new();
    let mut i: usize = 0;
    assert(entries.skip(0) =~= entries);
    while i < candidates.len()
        invariant
            i <= candidates.len(),
            entries == candidates.deep_view(),
            entries == allowed_url_entries(allowed_urls@),
            entries.len() > 0,
            base_url_spec(current_url@) == Ok::<UrlView, Seq<char>>(current@),
            parsed.len() == i,
            first_bad_entry(entries) == first_bad_entry(entries.skip(i as int)),
            forall|k: int|
                0 <= k < i ==> base_url_spec(entries[k]) == Ok::<UrlView, Seq<char>>(
                    (#[trigger] parsed@[k])@,
                ),
        decreases candidates.len() - i,
    {
        assert(candidates[i as int]@ == entries[i as int]);
        let ghost rest = entries.skip(i as int);
        assert(rest[0] == entries[i as int]);
        assert(rest.drop_first() =~= entries.skip(i + 1));
        match parse_base_url(candidates[i].as_str()) {
            Ok(p) => parsed.push(p),
            Err(e) => return Err(e),
        }
        i = i + 1;
    }
    assert(entries.skip(candidates.len() as int) =~= Seq::<Seq<char>>::empty());
    let mut j: usize = 0;
    while j < parsed.len()
        invariant
            j <= parsed.len() == entries.len(),
            entries == allowed_url_entries(allowed_urls@),
            entries.len() > 0,
            base_url_spec(current_url@) == Ok::<UrlView, Seq<char>>(current@),
            first_bad_entry(entries) is None,
            forall|k: int|
                0 <= k < parsed.len() ==> base_url_spec(entries[k]) == Ok::<UrlView, Seq<char>>(
                    (#[trigger] parsed@[k])@,
                ),
            forall|k: int| 0 <= k < j ==> !urls_equal(current@, (#[trigger] parsed@[k])@),
        decreases parsed.len() - j,
    {
        if base_urls_equal(&current, &parsed[j]) {
            assert(base_url_spec(entries[j as int])->Ok_0 == parsed@[j as int]@);
            return Ok(true);
        }
        j = j + 1;
    }
    assert forall|k: int| 0 <= k < entries.len() implies !urls_equal(
        current@,
        #[trigger] base_url_spec(entries[k])->Ok_0,
    ) by {
        assert(base_url_spec(entries[k])->Ok_0 == parsed@[k]@);
    }
    Ok(false)
}


/// Server Chan push settings (the send key itself is kept in the
/// credential store).
#[derive(Debug, Clone, Copy, PartialEq, Eq, Structural)]
pub struct ServerChanConfig {
    pub enabled: bool,
}

impl ServerChanConfig {
    /// Disabled (std's `Default`).
    pub fn default() -> (c: ServerChanConfig)
        ensures
            !c.enabled,
    {
        ServerChanConfig { enabled: false }
    }
}

/// Desktop notification settings.
#[derive(Debug, Clone, Copy, PartialEq, Eq, Structural)]
pub struct DesktopNotificationConfig {
    pub enabled: bool,
}

impl DesktopNotificationConfig {
    /// Enabled (std's `Default`).
    pub fn default() -> (c: DesktopNotificationConfig)
        ensures
            c.enabled,
    {
        DesktopNotificationConfig { enabled: true }
    }
}

/// E-mail notification settings (the password is kept in the credential
/// store).
#[derive(Debug, Clone)]
pub struct EmailNotificationConfig {
    pub enabled: bool,
    pub smtp_host: String,
    pub smtp_port: u16,
    pub smtp_username: String,
    pub to_address: String,
}

impl EmailNotificationConfig {
    /// The SMTP port used when none is configured: implicit TLS.
    pub fn default_port() -> (p: u16)
        ensures
            p == 465,
    {
        465
    }

    /// Disabled, with empty addresses and port 0 (std's `Default`).
    pub fn default() -> (c: EmailNotificationConfig)
        ensures
            !c.enabled,
            c.smtp_host@.len() == 0,
            c.smtp_port == 0,
            c.smtp_username@.len() == 0,
            c.to_address@.len() == 0,
    {
        EmailNotificationConfig {
            enabled: false,
            smtp_host: String::new(),
            smtp_port: 0,
            smtp_username: String::new(),
            to_address: String::new(),
        }
    }
}

/// Why an allow-list is refused, if it is: its first entry that is not a
/// valid base URL.
pub open spec fn allow_list_check(list: Seq<char>) -> Result<(), Seq<char>> {
    match first_bad_entry(allowed_url_entries(list)) {
        Some(e) => Err(e),
        None => Ok(()),
    }
}

/// Checks every entry of an allow-list.
pub fn check_allowed_entries(list: &str) -> (r: Result<(), String>)
    ensures
        unit_result_view(r) == allow_list_check(list@),
{
    let candidates = split_allowed_urls(list);
    let ghost entries = candidates.deep_view();
    let mut i: usize = 0;
    assert(entries.skip(0) =~= entries);
    while i < candidates.len()
        invariant
            i <= candidates.len(),
            entries == candidates.deep_view(),
            entries == allowed_url_entries(list@),
            first_bad_entry(entries) == first_bad_entry(entries.skip(i as int)),
        decreases candidates.len() - i,
    {
        assert(candidates[i as int]@ == entries[i as int]);
        let ghost rest = entries.skip(i as int);
        assert(rest[0] == entries[i as int]);
        assert(rest.drop_first() =~= entries.skip(i + 1));
        match parse_base_url(candidates[i].as_str()) {
            Ok(_) => {},
            Err(e) => return Err(e),
        }
        i = i + 1;
    }
    assert(entries.skip(candidates.len() as int) =~= Seq::<Seq<char>>::empty());
    Ok(())
}

/// The launcher's persisted settings.
#[derive(Debug, Clone)]
pub struct AppConfig {
    pub config_version: u32,
    pub command: String,
    pub work_dir: String,
    pub interval: u64,
    pub max_tries: u64,
    pub concurrency: u64,
    pub task_name: String,
    pub schedule: ScheduleConfig,
    pub allowed_base_urls: String,
    pub keep_alive: bool,
    pub keep_alive_interval_minutes: u64,
    pub desktop_notification: DesktopNotificationConfig,
    pub server_chan: ServerChanConfig,
    pub email: EmailNotificationConfig,
}

impl AppConfig {
    /// A fresh configuration (std's `Default`).
    pub fn default() -> (c: AppConfig)
        ensures
            c.config_version == CURRENT_CONFIG_VERSION,
            c.command@.len() == 0,
            c.work_dir@.len() == 0,
            c.interval == 10,
            c.max_tries == 0,
            c.concurrency == 1,
            c.task_name@ == "CodexDailyRetry0840"@,
            c.schedule@ == default_schedule(),
            c.allowed_base_urls@.len() == 0,
            !c.keep_alive,
            c.keep_alive_interval_minutes == 5,
            c.desktop_notification.enabled,
            !c.server_chan.enabled,
            !c.email.enabled,
            c.email.smtp_port == 465,
            c.email.smtp_host@.len() == 0,
            c.email.smtp_username@.len() == 0,
            c.email.to_address@.len() == 0,
    {
        let mut email = EmailNotificationConfig::default();
        email.smtp_port = EmailNotificationConfig::default_port();
        AppConfig {
            config_version: CURRENT_CONFIG_VERSION,
            command: String::new(),
            work_dir: String::new(),
            interval: 10,
            max_tries: 0,
            concurrency: 1,
            task_name: owned("CodexDailyRetry0840"),
            schedule: ScheduleConfig::default(),
            allowed_base_urls: String::new(),
            keep_alive: false,
            keep_alive_interval_minutes: 5,
            desktop_notification: DesktopNotificationConfig::default(),
            server_chan: ServerChanConfig::default(),
            email,
        }
    }
}

/// Why a configuration is refused, if it is; `work_dir_is_dir` is what the
/// file system said of the trimmed working directory. The first failing
/// rule decides the message.
pub open spec fn app_config_check(c: AppConfig, work_dir_is_dir: bool) -> Result<(), Seq<char>> {
    if c.config_version != CURRENT_CONFIG_VERSION {
        Err("不支持的配置版本 "@ + decimal(c.config_version as nat) + "，当前支持版本为 2"@)
    } else if trim(c.command@).len() == 0 {
        Err("command 不能为空"@)
    } else if trim(c.work_dir@).len() == 0 {
        Err("工作目录不能为空"@)
    } else if !work_dir_is_dir {
        Err("工作目录不存在或不是目录: "@ + trim(c.work_dir@))
    } else if !(1 <= c.interval <= MAX_INTERVAL_SECONDS) {
        Err("重试间隔必须在 1..=86400 秒之间"@)
    } else if c.max_tries > MAX_TRIES_LIMIT {
        Err("最大尝试次数不能超过 100000"@)
    } else if !(1 <= c.concurrency <= MAX_CONCURRENCY) {
        Err("并发线程数必须在 1..=16 之间"@)
    } else if !(1 <= c.keep_alive_interval_minutes <= MAX_KEEP_ALIVE_INTERVAL_MINUTES) {
        Err("保活间隔必须在 1..=1440 分钟之间"@)
    } else if task_name_check(c.task_name@) is Err {
        task_name_check(c.task_name@)
    } else if compile_spec(c.schedule@) is Err {
        Err(compile_spec(c.schedule@)->Err_0)
    } else {
        allow_list_check(c.allowed_base_urls@)
    }
}

/// Whether `path` names an existing directory. Calls std's `Path::is_dir`,
/// which asks the file system; its answer may change between calls, so
/// nothing is promised of it.
#[verifier::external_body]
pub(crate) fn path_is_dir(path: &str) -> (r: bool) {
    std::path::Path::new(path).is_dir()
}

impl AppConfig {
    /// Checks the configuration, given what the file system said of the
    /// trimmed working directory.
    pub fn validate_with(&self, work_dir_is_dir: bool) -> (r: Result<(), String>)
        ensures
            unit_result_view(r) == app_config_check(*self, work_dir_is_dir),
    {
        if self.config_version != CURRENT_CONFIG_VERSION {
            let mut m: Vec<char> = Vec::new();
            push_str(&mut m, "不支持的配置版本 ");
            push_decimal(&mut m, self.config_version as u64);
            push_str(&mut m, "，当前支持版本为 2");
            return Err(string_from_chars(&m));
        }
        let command = trim_str(self.command.as_str());
        if command.len() == 0 {
            return Err(owned("command 不能为空"));
        }
        let work_dir = trim_str(self.work_dir.as_str());
        if work_dir.len() == 0 {
            return Err(owned("工作目录不能为空"));
        }
        if !work_dir_is_dir {
            let mut m: Vec<char> = Vec::new();
            push_str(&mut m, "工作目录不存在或不是目录: ");
            push_chars(&mut m, &work_dir);
            return Err(string_from_chars(&m));
        }
        if !(1 <= self.interval && self.interval <= MAX_INTERVAL_SECONDS) {
            return Err(owned("重试间隔必须在 1..=86400 秒之间"));
        }
        if self.max_tries > MAX_TRIES_LIMIT {
            return Err(owned("最大尝试次数不能超过 100000"));
        }
        if !(1 <= self.concurrency && self.concurrency <= MAX_CONCURRENCY) {
            return Err(owned("并发线程数必须在 1..=16 之间"));
        }
        if !(1 <= self.keep_alive_interval_minutes && self.keep_alive_interval_minutes
            <= MAX_KEEP_ALIVE_INTERVAL_MINUTES) {
            return Err(owned("保活间隔必须在 1..=1440 分钟之间"));
        }
        match validate_task_name(self.task_name.as_str()) {
            Ok(()) => {},
            Err(e) => return Err(e),
        }
        match self.schedule.validate() {
            Ok(()) => {},
            Err(e) => return Err(e),
        }
        check_allowed_entries(self.allowed_base_urls.as_str())
    }

    /// Checks the configuration against the rules and the file system.
    /// Whatever the file system answers, the result is what
    /// `validate_with` gives for that answer.
    pub fn validate(&self) -> (r: Result<(), String>)
        ensures
            exists|dir_ok: bool| unit_result_view(r) == app_config_check(*self, dir_ok),
    {
        let work_dir = trim_str(self.work_dir.as_str());
        let dir = string_from_chars(&work_dir);
        let dir_ok = path_is_dir(dir.as_str());
        self.validate_with(dir_ok)
    }
}


/// The version a stored configuration declares: absent means the first
/// format; it must be a positive integer that fits in `u32`.
pub open spec fn config_version_spec(field: Option<Option<u64>>) -> Result<u32, Seq<char>> {
    match field {
        None => Ok(1),
        Some(None) => Err("configVersion 必须是非负整数"@),
        Some(Some(v)) => if v > u32::MAX {
            Err("configVersion 必须是非负整数"@)
        } else if v == 0 {
            Err("configVersion 不能为 0"@)
        } else {
            Ok(v as u32)
        },
    }
}

/// Reads the declared version from the `configVersion` field: `None` when
/// the field is absent, `Some(None)` when it is not a non-negative integer.
pub fn config_version_from(field: Option<Option<u64>>) -> (r: Result<u32, String>)
    ensures
        match r {
            Ok(v) => config_version_spec(field) == Ok::<u32, Seq<char>>(v),
            Err(e) => config_version_spec(field) == Err::<u32, Seq<char>>(e@),
        },
{
    match field {
        None => Ok(1),
        Some(None) => Err(owned("configVersion 必须是非负整数")),
        Some(Some(v)) => {
            if v > 4294967295u64 {
                Err(owned("configVersion 必须是非负整数"))
            } else if v == 0 {
                Err(owned("configVersion 不能为 0"))
            } else {
                Ok(v as u32)
            }
        },
    }
}

impl AppConfig {
    /// Fills what a loaded configuration leaves open: the default working
    /// directory, the current Codex base URL as the allow-list (when one
    /// was found), and a single worker instead of zero.
    pub fn fill_defaults(&mut self, default_work_dir: String, codex_base_url: Option<String>)
        ensures
            trim(old(self).work_dir@).len() == 0 ==> final(self).work_dir == default_work_dir,
            trim(old(self).work_dir@).len() != 0 ==> final(self).work_dir == old(self).work_dir,
            trim(old(self).allowed_base_urls@).len() == 0 ==> final(self).allowed_base_urls@
                == match codex_base_url {
                Some(u) => u@,
                None => Seq::<char>::empty(),
            },
            trim(old(self).allowed_base_urls@).len() != 0 ==> final(self).allowed_base_urls
                == old(self).allowed_base_urls,
            final(self).concurrency == if old(self).concurrency == 0 {
                1
            } else {
                old(self).concurrency
            },
            final(self).command == old(self).command,
            final(self).config_version == old(self).config_version,
            final(self).interval == old(self).interval,
            final(self).max_tries == old(self).max_tries,
            final(self).task_name == old(self).task_name,
            final(self).keep_alive == old(self).keep_alive,
            final(self).keep_alive_interval_minutes == old(self).keep_alive_interval_minutes,
    {
        let w = trim_str(self.work_dir.as_str());
        if w.len() == 0 {
            self.work_dir = default_work_dir;
        }
        let a = trim_str(self.allowed_base_urls.as_str());
        if a.len() == 0 {
            self.allowed_base_urls = match codex_base_url {
                Some(u) => u,
                None => String::new(),
            };
        }
        if self.concurrency == 0 {
            self.concurrency = 1;
        }
    }
}

/// The URL of the provider called `name` (names in a provider table are
/// unique).
pub open spec fn provider_url(providers: Seq<(Seq<char>, Seq<char>)>, name: Seq<char>) -> Option<
    Seq<char>,
>
    decreases providers.len(),
{
    if providers.len() == 0 {
        None
    } else if providers[0].0 == name {
        Some(providers[0].1)
    } else {
        provider_url(providers.drop_first(), name)
    }
}

/// The base URL of the active Codex provider: the one the configuration
/// names, else the only one defined, else none.
pub open spec fn select_base_url_spec(
    active: Option<Seq<char>>,
    providers: Seq<(Seq<char>, Seq<char>)>,
) -> Option<Seq<char>> {
    let named = match active {
        Some(name) => provider_url(providers, name),
        None => None,
    };
    if named is Some {
        named
    } else if providers.len() == 1 {
        Some(providers[0].1)
    } else {
        None
    }
}

/// View of a provider table: each provider's name and trimmed base URL.
pub open spec fn providers_view(v: Seq<(String, String)>) -> Seq<(Seq<char>, Seq<char>)> {
    v.map_values(|p: (String, String)| (p.0@, p.1@))
}

/// Picks the base URL of the active Codex provider from the providers that
/// define one.
pub fn select_base_url(active: Option<String>, providers: &Vec<(String, String)>) -> (r: Option<
    String,
>)
    ensures
        opt_view(r) == select_base_url_spec(opt_view(active), providers_view(providers@)),
{
    let ghost pv = providers_view(providers@);
    if let Some(name) = &active {
        let mut i: usize = 0;
        assert(pv.skip(0) =~= pv);
        while i < providers.len()
            invariant
                i <= providers.len(),
                pv == providers_view(providers@),
                opt_view(active) == Some(name@),
                provider_url(pv, name@) == provider_url(pv.skip(i as int), name@),
            decreases providers.len() - i,
        {
            let ghost rest = pv.skip(i as int);
            assert(rest[0] == (providers@[i as int].0@, providers@[i as int].1@));
            assert(rest.drop_first() =~= pv.skip(i + 1));
            if str_eq(providers[i].0.as_str(), name.as_str()) {
                return Some(owned(providers[i].1.as_str()));
            }
            i = i + 1;
        }
        assert(pv.skip(providers.len() as int) =~= Seq::<(Seq<char>, Seq<char>)>::empty());
    }
    if providers.len() == 1 {
        return Some(owned(providers[0].1.as_str()));
    }
    None
}

/// The schedule that a version-1 configuration's `dailyAt` text becomes:
/// daily at that time, trimmed (`"08:40"` when the field is missing or not
/// a string), every day.
pub fn migrate_v1_schedule(daily_at: Option<&str>) -> (s: ScheduleConfig)
    ensures
        s@ == (ScheduleSpec::Daily {
            time: trim(
                match daily_at {
                    Some(t) => t@,
                    None => "08:40"@,
                },
            ),
            every_days: 1,
        }),
{
    let time = match daily_at {
        Some(t) => trim_str(t),
        None => trim_str("08:40"),
    };
    ScheduleConfig::Daily { time: string_from_chars(&time), every_days: 1 }
}

// ---------------------------------------------------------------------------
// Codex's own configuration.
// ---------------------------------------------------------------------------

/// What the launcher reads of Codex's `config.toml`: the active provider's
/// name, and each provider of the `model_providers` table with its
/// `base_url` when that is a string.
#[derive(Debug, Clone)]
pub struct CodexToml {
    pub model_provider: Option<String>,
    pub providers: Vec<(String, Option<String>)>,
}

/// Model of a [`CodexToml`].
pub struct CodexTomlView {
    pub model_provider: Option<Seq<char>>,
    pub providers: Seq<(Seq<char>, Option<Seq<char>>)>,
}

impl View for CodexToml {
    type V = CodexTomlView;

    open spec fn view(&self) -> CodexTomlView {
        CodexTomlView {
            model_provider: opt_view(self.model_provider),
            providers: self.providers@.map_values(
                |p: (String, Option<String>)| (p.0@, opt_view(p.1)),
            ),
        }
    }
}

/// What `toml::from_str` makes of a `config.toml` text, read as a
/// [`CodexToml`], or the parser's error message.
pub uninterp spec fn codex_toml_fields(content: Seq<char>) -> Result<CodexTomlView, Seq<char>>;

/// Model of a parse result.
pub open spec fn codex_toml_result_view(r: Result<CodexToml, String>) -> Result<
    CodexTomlView,
    Seq<char>,
> {
    match r {
        Ok(t) => Ok(t@),
        Err(e) => Err(e@),
    }
}

/// Parses `content` with `toml::from_str` into a `toml::Value` and reads
/// the active provider's name and each provider's `base_url`; the error is
/// the parser's message. The result is named [`codex_toml_fields`].
#[verifier::external_body]
fn parse_codex_toml(content: &str) -> (r: Result<CodexToml, String>)
    ensures
        codex_toml_result_view(r) == codex_toml_fields(content@),
{
    let value: toml::Value = match toml::from_str(content) {
        Ok(value) => value,
        Err(error) => return Err(error.to_string()),
    };
    let model_provider = value.get("model_provider").and_then(toml::Value::as_str).map(str::to_owned);
    let providers = match value.get("model_providers").and_then(toml::Value::as_table) {
        Some(table) => table.iter().map(|(name, item)| {
            (name.clone(), item.get("base_url").and_then(toml::Value::as_str).map(str::to_owned))
        }).collect(),
        None => Vec::new(),
    };
    Ok(CodexToml { model_provider, providers })
}

/// The providers that define a base URL, each with that URL trimmed, in
/// table order.
pub open spec fn providers_with_urls(providers: Seq<(Seq<char>, Option<Seq<char>>)>) -> Seq<
    (Seq<char>, Seq<char>),
>
    decreases providers.len(),
{
    if providers.len() == 0 {
        seq![]
    } else {
        let rest = providers_with_urls(providers.drop_last());
        match providers.last().1 {
            Some(url) => rest.push((providers.last().0, trim(url))),
            None => rest,
        }
    }
}

/// The base URL that Codex's configuration selects: that of the active
/// provider, else that of the only provider with a URL, else none.
pub fn base_url_from_fields(fields: &CodexToml) -> (r: Option<String>)
    ensures
        opt_view(r) == select_base_url_spec(
            fields@.model_provider,
            providers_with_urls(fields@.providers),
        ),
{
    let mut with_urls: Vec<(String, String)> = Vec::new();
    let mut i: usize = 0;
    while i < fields.providers.len()
        invariant
            i <= fields.providers@.len(),
            providers_view(with_urls@) == providers_with_urls(fields@.providers.take(i as int)),
        decreases fields.providers@.len() - i,
    {
        let ghost before = fields@.providers.take(i as int);
        assert(fields@.providers.take(i + 1).drop_last() =~= before);
        match &fields.providers[i].1 {
            Some(url) => {
                let t = trim_str(url.as_str());
                with_urls.push((owned(fields.providers[i].0.as_str()), string_from_chars(&t)));
                assert(providers_view(with_urls@) =~= providers_with_urls(fields@.providers.take(i + 1)));
            },
            None => {},
        }
        i = i + 1;
    }
    assert(fields@.providers.take(fields.providers@.len() as int) =~= fields@.providers);
    let active = match &fields.model_provider {
        Some(name) => Some(owned(name.as_str())),
        None => None,
    };
    select_base_url(active, &with_urls)
}

/// The Codex base URL from the text of Codex's `config.toml` at `path`:
/// `None` when the configuration selects none, an error when the text is
/// not TOML.
pub fn codex_base_url_from(path: &str, content: &str) -> (r: Result<Option<String>, String>)
    ensures
        match codex_toml_fields(content@) {
            Ok(fields) => r is Ok && opt_view(r->Ok_0) == select_base_url_spec(
                fields.model_provider,
                providers_with_urls(fields.providers),
            ),
            Err(e) => r is Err && r->Err_0@ == "解析 Codex 配置失败 ["@ + path@ + "]: "@ + e,
        },
{
    match parse_codex_toml(content) {
        Ok(fields) => Ok(base_url_from_fields(&fields)),
        Err(e) => {
            let mut m: Vec<char> = Vec::new();
            push_str(&mut m, "解析 Codex 配置失败 [");
            push_str(&mut m, path);
            push_str(&mut m, "]: ");
            push_str(&mut m, e.as_str());
            Err(string_from_chars(&m))
        },
    }
}

/// Where Codex keeps `config.toml` on a platform whose separator is `sep`:
/// under `CODEX_HOME` when that is set and not blank, else under `.codex`
/// in the home directory, else in the working directory.
pub open spec fn codex_config_path_spec(
    codex_home: Option<Seq<char>>,
    home_dir: Option<Seq<char>>,
    sep: char,
) -> Seq<char> {
    match codex_home {
        Some(h) if trim(h).len() > 0 => joined(h, "config.toml"@, sep),
        _ => match home_dir {
            Some(d) => joined(joined(d, ".codex"@, sep), "config.toml"@, sep),
            None => "config.toml"@,
        },
    }
}

/// Where Codex keeps `config.toml`, given the `CODEX_HOME` variable and the
/// home directory.
pub fn codex_config_path(codex_home: Option<String>, home_dir: Option<String>) -> (r: String)
    ensures
        exists|sep: char|
            (sep == '/' || sep == '\\') && r@ == #[trigger] codex_config_path_spec(
                opt_view(codex_home),
                opt_view(home_dir),
                sep,
            ),
{
    let sep = main_separator();
    let r = match &codex_home {
        Some(h) if trim_str(h.as_str()).len() > 0 => join(h.as_str(), "config.toml", sep),
        _ => match &home_dir {
            Some(d) => {
                let dir = join(d.as_str(), ".codex", sep);
                join(dir.as_str(), "config.toml", sep)
            },
            None => owned("config.toml"),
        },
    };
    assert(r@ == codex_config_path_spec(opt_view(codex_home), opt_view(home_dir), sep));
    r
}

/// What a stored configuration of `version` needs before it is read:
/// `Ok(true)` when it is a version-1 file to migrate, `Ok(false)` when it
/// is current, and an error for a version newer than this build reads.
pub fn stored_version_check(version: u32, path: &str) -> (r: Result<bool, String>)
    ensures
        version > CURRENT_CONFIG_VERSION ==> (r matches Err(e) && e@ == "配置校验失败 ["@ + path@
            + "]: 不支持的配置版本 "@ + decimal(version as nat) + "，当前支持版本为 2"@),
        version <= CURRENT_CONFIG_VERSION ==> r == Ok::<bool, String>(version == 1),
{
    if version > CURRENT_CONFIG_VERSION {
        let mut m: Vec<char> = Vec::new();
        push_str(&mut m, "配置校验失败 [");
        push_str(&mut m, path);
        push_str(&mut m, "]: 不支持的配置版本 ");
        push_decimal(&mut m, version as u64);
        push_str(&mut m, "，当前支持版本为 2");
        return Err(string_from_chars(&m));
    }
    Ok(version == 1)
}

} // verus!
