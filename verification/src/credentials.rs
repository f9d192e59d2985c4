//! Secrets the launcher keeps outside its configuration file: the Server
//! Chan send key and the SMTP password, in the operating system's
//! credential store, and an in-memory store with the same interface.
use crate::text::owned;
use vstd::prelude::*;

verus! {

/// The credential-store service name of the launcher.
pub const CREDENTIAL_SERVICE: &'static str = "CodexLauncher";

/// The account under which the send key is stored.
pub const SERVER_CHAN_ACCOUNT: &'static str = "serverchan-sendkey";

/// The account under which the SMTP password is stored.
pub const EMAIL_SMTP_ACCOUNT: &'static str = "email-smtp-password";

/// `keyring`'s handle on one credential of the platform store.
#[verifier::external_type_specification]
#[verifier::external_body]
pub struct ExKeyringEntry(keyring::Entry);

/// How a credential-store operation ended.
#[derive(Debug)]
pub enum StoreOutcome<T> {
    Done(T),
    /// No credential is stored under the entry.
    NoEntry,
    /// Any other failure of the store.
    Failed,
}

/// Calls `keyring::Entry::new(service, user)`; `None` when the store
/// cannot create the entry. What it returns depends on the platform's
/// store, so nothing is promised of it.
#[verifier::external_body]
fn keyring_entry(service: &str, user: &str) -> (r: Option<keyring::Entry>) {
    keyring::Entry::new(service, user).ok()
}

/// Calls `keyring::Entry::get_password`, telling a missing entry
/// (`keyring::Error::NoEntry`) from other failures. The answer depends on
/// the store's contents, so nothing is promised of it.
#[verifier::external_body]
fn entry_get_password(entry: &keyring::Entry) -> (r: StoreOutcome<String>) {
    match entry.get_password() {
        Ok(password) => StoreOutcome::Done(password),
        Err(keyring::Error::NoEntry) => StoreOutcome::NoEntry,
        Err(_) => StoreOutcome::Failed,
    }
}

/// Calls `keyring::Entry::set_password`; whether it succeeds depends on
/// the store, so nothing is promised of it.
#[verifier::external_body]
fn entry_set_password(entry: &keyring::Entry, password: &str) -> (r: bool) {
    entry.set_password(password).is_ok()
}

/// Calls `keyring::Entry::delete_credential`, telling a missing entry from
/// other failures. The answer depends on the store, so nothing is promised
/// of it.
#[verifier::external_body]
fn entry_delete(entry: &keyring::Entry) -> (r: StoreOutcome<()>) {
    match entry.delete_credential() {
        Ok(()) => StoreOutcome::Done(()),
        Err(keyring::Error::NoEntry) => StoreOutcome::NoEntry,
        Err(_) => StoreOutcome::Failed,
    }
}

/// What a read of a stored secret gives: the secret, nothing when none is
/// stored, or the error `failed` for any other failure.
pub fn read_outcome(outcome: StoreOutcome<String>, failed: &str) -> (r: Result<Option<String>, String>)
    ensures
        match outcome {
            StoreOutcome::Done(s) => r == Ok::<Option<String>, String>(Some(s)),
            StoreOutcome::NoEntry => r == Ok::<Option<String>, String>(None),
            StoreOutcome::Failed => r matches Err(e) && e@ == failed@,
        },
{
    match outcome {
        StoreOutcome::Done(s) => Ok(Some(s)),
        StoreOutcome::NoEntry => Ok(None),
        StoreOutcome::Failed => Err(owned(failed)),
    }
}

/// What a deletion gives: whether a secret was removed, or the error
/// `failed`.
pub fn delete_outcome(outcome: StoreOutcome<()>, failed: &str) -> (r: Result<bool, String>)
    ensures
        match outcome {
            StoreOutcome::Done(()) => r == Ok::<bool, String>(true),
            StoreOutcome::NoEntry => r == Ok::<bool, String>(false),
            StoreOutcome::Failed => r matches Err(e) && e@ == failed@,
        },
{
    match outcome {
        StoreOutcome::Done(()) => Ok(true),
        StoreOutcome::NoEntry => Ok(false),
        StoreOutcome::Failed => Err(owned(failed)),
    }
}

/// Opens an entry of the store, or fails with `failed`.
fn open_entry(user: &str, failed: &str) -> (r: Result<keyring::Entry, String>)
    ensures
        r matches Err(e) ==> e@ == failed@,
{
    match keyring_entry(CREDENTIAL_SERVICE, user) {
        Some(e) => Ok(e),
        None => Err(owned(failed)),
    }
}

/// A store of the Server Chan send key.
pub trait CredentialStore {
    /// The stored key, if any.
    fn get_send_key(&mut self) -> (r: Result<Option<String>, String>);

    /// Stores the key, replacing any earlier one.
    fn set_send_key(&mut self, send_key: &str) -> (r: Result<(), String>);

    /// Removes the key; tells whether there was one.
    fn delete_send_key(&mut self) -> (r: Result<bool, String>);
}

/// The send key in the Windows Credential Manager.
#[derive(Debug)]
pub struct WindowsCredentialStore;

impl CredentialStore for WindowsCredentialStore {
    fn get_send_key(&mut self) -> (r: Result<Option<String>, String>)
        ensures
            r matches Err(e) ==> e@ == "初始化 Windows Credential Manager entry 失败"@ || e@
                == "从 Windows Credential Manager 读取 Server酱凭据失败"@,
    {
        let entry = match open_entry(SERVER_CHAN_ACCOUNT, "初始化 Windows Credential Manager entry 失败") {
            Ok(e) => e,
            Err(e) => return Err(e),
        };
        read_outcome(entry_get_password(&entry), "从 Windows Credential Manager 读取 Server酱凭据失败")
    }

    fn set_send_key(&mut self, send_key: &str) -> (r: Result<(), String>)
        ensures
            r matches Err(e) ==> e@ == "初始化 Windows Credential Manager entry 失败"@ || e@
                == "写入 Windows Credential Manager 失败"@,
    {
        let entry = match open_entry(SERVER_CHAN_ACCOUNT, "初始化 Windows Credential Manager entry 失败") {
            Ok(e) => e,
            Err(e) => return Err(e),
        };
        if entry_set_password(&entry, send_key) {
            Ok(())
        } else {
            Err(owned("写入 Windows Credential Manager 失败"))
        }
    }

    fn delete_send_key(&mut self) -> (r: Result<bool, String>)
        ensures
            r matches Err(e) ==> e@ == "初始化 Windows Credential Manager entry 失败"@ || e@
                == "从 Windows Credential Manager 删除 Server酱凭据失败"@,
    {
        let entry = match open_entry(SERVER_CHAN_ACCOUNT, "初始化 Windows Credential Manager entry 失败") {
            Ok(e) => e,
            Err(e) => return Err(e),
        };
        delete_outcome(entry_delete(&entry), "从 Windows Credential Manager 删除 Server酱凭据失败")
    }
}

/// A send-key store in memory, for tests, that can be told to fail.
#[derive(Debug)]
pub struct MemoryCredentialStore {
    pub value: Option<String>,
    pub fail: bool,
}

/// The message of a store told to fail.
pub open spec fn backend_failure_message() -> Seq<char> {
    "fake credential backend failure"@
}

impl MemoryCredentialStore {
    /// An empty store (std's `Default`).
    pub fn default() -> (s: MemoryCredentialStore)
        ensures
            s.value is None,
            !s.fail,
    {
        MemoryCredentialStore { value: None, fail: false }
    }

    /// A store holding `send_key`.
    pub fn with_send_key(send_key: &str) -> (s: MemoryCredentialStore)
        ensures
            s.value is Some && s.value->0@ == send_key@,
            !s.fail,
    {
        MemoryCredentialStore { value: Some(owned(send_key)), fail: false }
    }

    /// Makes every later operation fail (or succeed again).
    pub fn set_failure(&mut self, fail: bool)
        ensures
            final(self).fail == fail,
            final(self).value == old(self).value,
    {
        self.fail = fail;
    }

    /// Fails when the store is told to.
    pub fn check_failure(&self) -> (r: Result<(), String>)
        ensures
            r is Ok <==> !self.fail,
            r matches Err(e) ==> e@ == backend_failure_message(),
    {
        if self.fail {
            Err(owned("fake credential backend failure"))
        } else {
            Ok(())
        }
    }
}

impl CredentialStore for MemoryCredentialStore {
    fn get_send_key(&mut self) -> (r: Result<Option<String>, String>)
        ensures
            *final(self) == *old(self),
            old(self).fail ==> (r matches Err(e) && e@ == backend_failure_message()),
            !old(self).fail ==> (r matches Ok(v) && match (v, old(self).value) {
                (Some(a), Some(b)) => a@ == b@,
                (None, None) => true,
                _ => false,
            }),
    {
        match self.check_failure() {
            Ok(()) => {},
            Err(e) => return Err(e),
        }
        match &self.value {
            Some(v) => Ok(Some(owned(v.as_str()))),
            None => Ok(None),
        }
    }

    fn set_send_key(&mut self, send_key: &str) -> (r: Result<(), String>)
        ensures
            final(self).fail == old(self).fail,
            old(self).fail ==> (r matches Err(e) && e@ == backend_failure_message()),
            old(self).fail ==> final(self).value == old(self).value,
            !old(self).fail ==> r is Ok && final(self).value is Some && final(self).value->0@
                == send_key@,
    {
        match self.check_failure() {
            Ok(()) => {},
            Err(e) => return Err(e),
        }
        self.value = Some(owned(send_key));
        Ok(())
    }

    fn delete_send_key(&mut self) -> (r: Result<bool, String>)
        ensures
            final(self).fail == old(self).fail,
            old(self).fail ==> (r matches Err(e) && e@ == backend_failure_message()),
            old(self).fail ==> final(self).value == old(self).value,
            !old(self).fail ==> r == Ok::<bool, String>(old(self).value is Some),
            !old(self).fail ==> final(self).value is None,
    {
        match self.check_failure() {
            Ok(()) => {},
            Err(e) => return Err(e),
        }
        let had = self.value.is_some();
        self.value = None;
        Ok(had)
    }
}

/// The stored SMTP password, if any. What the store holds is not known
/// here; a failure is one of the two messages below.
pub fn get_email_password() -> (r: Result<Option<String>, String>)
    ensures
        r matches Err(e) ==> e@ == "初始化邮件 Credential Manager entry 失败"@ || e@
            == "从 Windows Credential Manager 读取邮件密码失败"@,
{
    let entry = match open_entry(EMAIL_SMTP_ACCOUNT, "初始化邮件 Credential Manager entry 失败") {
        Ok(e) => e,
        Err(e) => return Err(e),
    };
    read_outcome(entry_get_password(&entry), "从 Windows Credential Manager 读取邮件密码失败")
}

/// Stores the SMTP password.
pub fn set_email_password(password: &str) -> (r: Result<(), String>)
    ensures
        r matches Err(e) ==> e@ == "初始化邮件 Credential Manager entry 失败"@ || e@
            == "写入邮件密码到 Windows Credential Manager 失败"@,
{
    let entry = match open_entry(EMAIL_SMTP_ACCOUNT, "初始化邮件 Credential Manager entry 失败") {
        Ok(e) => e,
        Err(e) => return Err(e),
    };
    if entry_set_password(&entry, password) {
        Ok(())
    } else {
        Err(owned("写入邮件密码到 Windows Credential Manager 失败"))
    }
}

/// Removes the SMTP password; tells whether there was one. A failure is
/// one of the two messages below.
pub fn delete_email_password() -> (r: Result<bool, String>)
    ensures
        r matches Err(e) ==> e@ == "初始化邮件 Credential Manager entry 失败"@ || e@
            == "从 Windows Credential Manager 删除邮件密码失败"@,
{
    let entry = match open_entry(EMAIL_SMTP_ACCOUNT, "初始化邮件 Credential Manager entry 失败") {
        Ok(e) => e,
        Err(e) => return Err(e),
    };
    delete_outcome(entry_delete(&entry), "从 Windows Credential Manager 删除邮件密码失败")
}

} // verus!
