//! What is decided before an e-mail goes out: the sender and recipient
//! addresses as `lettre` reads them, and the kind of TLS the SMTP port
//! calls for.
use crate::text::{push_str, string_from_chars};
use vstd::prelude::*;

verus! {

/// `lettre`'s parsed e-mail address with an optional display name.
#[verifier::external_type_specification]
#[verifier::external_body]
pub struct ExMailbox(lettre::message::Mailbox);

/// The message of `lettre`'s `AddressError` when `address` is not a valid
/// mailbox, `None` when it parses.
pub uninterp spec fn mailbox_parse_error(address: Seq<char>) -> Option<Seq<char>>;

/// Parses `address` with `lettre`'s `FromStr` for `Mailbox`; a failure
/// gives the error's message. Whether it fails and the message are named by
/// [`mailbox_parse_error`].
#[verifier::external_body]
fn parse_mailbox(address: &str) -> (r: Result<lettre::message::Mailbox, String>)
    ensures
        match r {
            Ok(_) => mailbox_parse_error(address@) is None,
            Err(e) => mailbox_parse_error(address@) == Some(e@),
        },
{
    address.parse::<lettre::message::Mailbox>().map_err(|error| error.to_string())
}

/// How the SMTP connection is secured.
#[derive(Debug, Clone, Copy, PartialEq, Eq, Structural)]
pub enum SmtpSecurity {
    /// TLS from the first byte (SMTPS, port 465).
    ImplicitTls,
    /// A plain connection upgraded with STARTTLS, which must succeed.
    StartTls,
}

/// Port 465 speaks TLS at once; every other port must upgrade with
/// STARTTLS.
pub fn smtp_security(port: u16) -> (s: SmtpSecurity)
    ensures
        s == (if port == 465 {
            SmtpSecurity::ImplicitTls
        } else {
            SmtpSecurity::StartTls
        }),
{
    if port == 465 {
        SmtpSecurity::ImplicitTls
    } else {
        SmtpSecurity::StartTls
    }
}

/// The parts of an e-mail that are settled before connecting.
pub struct EmailEnvelope {
    pub from: lettre::message::Mailbox,
    pub to: lettre::message::Mailbox,
    pub security: SmtpSecurity,
}

/// The error for an e-mail whose addresses do not parse: the sender is
/// checked first.
pub open spec fn envelope_error(from: Seq<char>, to: Seq<char>) -> Option<Seq<char>> {
    match mailbox_parse_error(from) {
        Some(e) => Some("发件人地址格式错误: "@ + e),
        None => match mailbox_parse_error(to) {
            Some(e) => Some("收件人地址格式错误: "@ + e),
            None => None,
        },
    }
}

fn labelled(label: &str, error: &str) -> (r: String)
    ensures
        r@ == label@ + error@,
{
    let mut m: Vec<char> = Vec::new();
    push_str(&mut m, label);
    push_str(&mut m, error);
    string_from_chars(&m)
}

/// Reads the sender (the SMTP user name) and the recipient as mailboxes
/// and picks the TLS mode of `smtp_port`.
pub fn prepare_email(smtp_username: &str, to_address: &str, smtp_port: u16) -> (r: Result<
    EmailEnvelope,
    String,
>)
    ensures
        match envelope_error(smtp_username@, to_address@) {
            Some(e) => r is Err && r->Err_0@ == e,
            None => r is Ok && r->Ok_0.security == (if smtp_port == 465 {
                SmtpSecurity::ImplicitTls
            } else {
                SmtpSecurity::StartTls
            }),
        },
{
    let from = match parse_mailbox(smtp_username) {
        Ok(m) => m,
        Err(e) => return Err(labelled("发件人地址格式错误: ", e.as_str())),
    };
    let to = match parse_mailbox(to_address) {
        Ok(m) => m,
        Err(e) => return Err(labelled("收件人地址格式错误: ", e.as_str())),
    };
    Ok(EmailEnvelope { from, to, security: smtp_security(smtp_port) })
}

} // verus!
