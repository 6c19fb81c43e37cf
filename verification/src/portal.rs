//! What the portal client sends and how it reads what comes back.
//!
//! The transport itself is the caller's: it sends the bodies built here to the
//! addresses named here and hands the outcome back as a `Reply`.

use crate::codec::{encrypt_password, encrypt_username, identifier_encoding, secret_encoding};
use crate::status::{
    offline, offline_because, parse_status, status_of, NetworkStatus, StatusView,
};
use crate::supervisor::Event;
use crate::text::{contains_text, str_contains};
use vstd::prelude::*;
use vstd::string::*;
use vstd::utf8::*;

verus! {

/// Address that answers a status probe to a GET.
pub const STATUS_URL: &'static str = "http://172.16.154.130/cgi-bin/rad_user_info";

/// Address that takes login and logout forms by POST.
pub const LOGIN_URL: &'static str = "http://172.16.154.130:69/cgi-bin/srun_portal";

/// Content type of the forms.
pub const FORM_CONTENT_TYPE: &'static str = "application/x-www-form-urlencoded";

/// Seconds after which a request to the portal is given up.
pub const REQUEST_TIMEOUT_SECS: u64 = 10;

/// How a request to the portal ended.
#[derive(Clone, Debug)]
pub enum Reply {
    /// The portal answered with this text.
    Body(String),
    /// The portal answered, but its answer could not be read as text.
    Unreadable,
    /// The request did not get through; the text says why.
    Failed(String),
}

/// Result of a login or a logout.
#[derive(Debug)]
pub struct LoginResult {
    pub success: bool,
    pub message: String,
}

/// A login result as plain values.
pub struct OutcomeView {
    pub success: bool,
    pub message: Seq<char>,
}

impl View for LoginResult {
    type V = OutcomeView;

    open spec fn view(&self) -> OutcomeView {
        OutcomeView { success: self.success, message: self.message@ }
    }
}

/// True for the bytes that a form carries as they are: ASCII letters and
/// digits, `-`, `.`, `_` and `~`.
pub open spec fn is_unreserved(b: u8) -> bool {
    ||| 0x30 <= b <= 0x39
    ||| 0x41 <= b <= 0x5a
    ||| 0x61 <= b <= 0x7a
    ||| b == 0x2d
    ||| b == 0x2e
    ||| b == 0x5f
    ||| b == 0x7e
}

/// The upper-case hexadecimal digit for a value below 16.
pub open spec fn hex_digit(d: u8) -> char {
    if d < 10 {
        ((0x30 + d) as u8) as char
    } else {
        ((0x41 - 10 + d) as u8) as char
    }
}

/// One byte as a form carries it: itself where it is unreserved, else `%` and
/// its two hexadecimal digits.
pub open spec fn escaped(b: u8) -> Seq<char> {
    if is_unreserved(b) {
        seq![b as char]
    } else {
        seq!['%', hex_digit(b >> 4), hex_digit(b & 15)]
    }
}

/// The percent-encoding of a run of bytes: every byte escaped, in order.
pub open spec fn percent_encoding(bytes: Seq<u8>) -> Seq<char> {
    bytes.map_values(|b: u8| escaped(b)).flatten()
}

/// Percent-encodes a text with `urlencoding::encode`. Trusted: that crate
/// writes every byte of the text's UTF-8 form that is an ASCII letter or digit
/// or one of `-`, `.`, `_`, `~` as it is, and every other byte as `%` followed
/// by its two upper-case hexadecimal digits.
#[verifier::external_body]
fn percent_encode(text: &str) -> (encoded: String)
    ensures
        encoded@ == percent_encoding(text.spec_bytes()),
{
    urlencoding::encode(text).into_owned()
}

/// What the login form holds after the two credentials.
pub open spec fn login_parameters() -> Seq<char> {
    "&ac_id=1&drop=0&pop=1&type=10&n=117&mbytes=0&minutes=0&mac=02:00:00:00:00:00"@
}

/// The login form for an account name and the bytes of its password: the
/// action, the two encoded credentials percent-encoded, and the fixed
/// parameters.
pub open spec fn login_form(username: Seq<char>, password: Seq<u8>) -> Seq<char> {
    "action=login&username="@ + percent_encoding(encode_utf8(identifier_encoding(username)))
        + "&password="@ + percent_encoding(encode_utf8(secret_encoding(password)))
        + login_parameters()
}

/// The logout form.
pub open spec fn logout_form() -> Seq<char> {
    "action=logout"@
}

/// Builds the body of a login request.
pub fn login_body(username: &str, password: &str) -> (body: String)
    ensures
        body@ == login_form(username@, password.spec_bytes()),
{
    let wire_name = encrypt_username(username);
    let wire_secret = encrypt_password(password);
    let mut body = "action=login&username=".to_owned();
    body.append(percent_encode(wire_name.as_str()).as_str());
    body.append("&password=");
    body.append(percent_encode(wire_secret.as_str()).as_str());
    body.append("&ac_id=1&drop=0&pop=1&type=10&n=117&mbytes=0&minutes=0&mac=02:00:00:00:00:00");
    body
}

/// Builds the body of a logout request.
pub fn logout_body() -> (body: String)
    ensures
        body@ == logout_form(),
{
    "action=logout".to_owned()
}

/// The status that the outcome of a probe stands for: the status read from the
/// answer, offline where the answer is unreadable, and offline with the reason
/// where the request failed.
pub open spec fn probe_outcome(reply: Reply) -> StatusView {
    match reply {
        Reply::Body(text) => status_of(text@),
        Reply::Unreadable => offline(),
        Reply::Failed(reason) => offline_because(reason@),
    }
}

/// Turns the outcome of a status probe into a status.
pub fn status_from_reply(reply: Reply) -> (status: NetworkStatus)
    ensures
        status@ == probe_outcome(reply),
        status@.well_formed(),
        !(reply is Failed) ==> status@.error_message.len() == 0,
        reply is Failed ==> !status.is_online,
{
    match reply {
        Reply::Body(text) => parse_status(text.as_str()),
        Reply::Unreadable => NetworkStatus::default(),
        Reply::Failed(reason) => NetworkStatus::offline_because(reason),
    }
}

/// True when an answer to a login says that the host is now, or was already,
/// logged in.
pub open spec fn login_accepted(body: Seq<char>) -> bool {
    contains_text(body, "login_ok"@) || contains_text(body, "already_online"@)
}

/// True when an answer to a logout says that the host is now, or was already,
/// logged out.
pub open spec fn logout_accepted(body: Seq<char>) -> bool {
    contains_text(body, "logout_ok"@) || contains_text(body, "not_online"@)
}

/// Message of an accepted login.
pub open spec fn login_message() -> Seq<char> {
    "\u{767b}\u{5f55}\u{6210}\u{529f}"@
}

/// Message of an accepted logout.
pub open spec fn logout_message() -> Seq<char> {
    "\u{6ce8}\u{9500}\u{6210}\u{529f}"@
}

/// The text that the portal answered with; empty where the answer could not be
/// read, and none where the request failed.
pub open spec fn answer_text(reply: Reply) -> Option<Seq<char>> {
    match reply {
        Reply::Body(text) => Some(text@),
        Reply::Unreadable => Some(Seq::empty()),
        Reply::Failed(_) => None,
    }
}

/// The result of a login: accepted where the answer says so, else refused
/// with the answer itself, or with the reason where the request failed.
pub open spec fn login_outcome(reply: Reply) -> OutcomeView {
    match reply {
        Reply::Failed(reason) => OutcomeView { success: false, message: reason@ },
        _ => {
            let text = answer_text(reply).unwrap();
            if login_accepted(text) {
                OutcomeView { success: true, message: login_message() }
            } else {
                OutcomeView { success: false, message: text }
            }
        },
    }
}

/// The result of a logout: accepted where the answer says so, else refused
/// with the answer itself, or with the reason where the request failed.
pub open spec fn logout_outcome(reply: Reply) -> OutcomeView {
    match reply {
        Reply::Failed(reason) => OutcomeView { success: false, message: reason@ },
        _ => {
            let text = answer_text(reply).unwrap();
            if logout_accepted(text) {
                OutcomeView { success: true, message: logout_message() }
            } else {
                OutcomeView { success: false, message: text }
            }
        },
    }
}

/// The answer of a reply that got through, as text.
fn into_answer(reply: Reply) -> (text: Result<String, String>)
    ensures
        match text {
            Ok(t) => answer_text(reply) == Some(t@),
            Err(reason) => reply == Reply::Failed(reason),
        },
{
    match reply {
        Reply::Body(text) => Ok(text),
        Reply::Unreadable => Ok(String::new()),
        Reply::Failed(reason) => Err(reason),
    }
}

/// Classifies the outcome of a login request.
pub fn login_result(reply: Reply) -> (result: LoginResult)
    ensures
        result@ == login_outcome(reply),
{
    match into_answer(reply) {
        Ok(text) => {
            if str_contains(text.as_str(), "login_ok") || str_contains(
                text.as_str(),
                "already_online",
            ) {
                LoginResult { success: true, message: "\u{767b}\u{5f55}\u{6210}\u{529f}".to_owned() }
            } else {
                LoginResult { success: false, message: text }
            }
        },
        Err(reason) => LoginResult { success: false, message: reason },
    }
}

/// The event that reports a login to the supervisor: whether it was accepted.
pub fn login_event(result: &LoginResult) -> (event: Event)
    ensures
        event == (Event::LoginFinished { accepted: result.success }),
{
    Event::LoginFinished { accepted: result.success }
}

/// Classifies the outcome of a logout request.
pub fn logout_result(reply: Reply) -> (result: LoginResult)
    ensures
        result@ == logout_outcome(reply),
{
    match into_answer(reply) {
        Ok(text) => {
            if str_contains(text.as_str(), "logout_ok") || str_contains(
                text.as_str(),
                "not_online",
            ) {
                LoginResult { success: true, message: "\u{6ce8}\u{9500}\u{6210}\u{529f}".to_owned() }
            } else {
                LoginResult { success: false, message: text }
            }
        },
        Err(reason) => LoginResult { success: false, message: reason },
    }
}

} // verus!
