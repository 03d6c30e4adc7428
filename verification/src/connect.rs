//! How a JMAP mail account's failures are answered in Camel's vocabulary.
//!
//! Two answers a Camel service gives are spelled in Camel's own terms. The
//! authentication verdict has three values, and only `REJECTED` makes Camel
//! forget the stored password and ask again — so it is reserved for the one
//! failure asking again can fix. And the error a caller branches on is a
//! domain and a code: `CAMEL_SERVICE_ERROR_UNAVAILABLE` is what puts a store
//! offline rather than reporting the account broken, and `G_IO_ERROR_CANCELLED`
//! is the one code every layer agrees means the user pressed Stop.

use vstd::prelude::*;

use crate::folders::FolderRole;
use crate::text::{push_str, string_of};

verus! {

/// What a failed request to the server was, as far as anything here branches
/// on it.
#[derive(Debug, Clone, Copy, PartialEq, Eq, Structural)]
pub enum ClientFailure {
    /// The user pressed Stop.
    Cancelled,
    /// The server could not be reached.
    Transport,
    /// The server refused the credentials: the one failure a new password can
    /// fix.
    WrongPassword,
    /// A message over the account's `maxSizeUpload`.
    TooLarge,
    /// Anything else the server answered: a 403, a method error, a malformed
    /// response.
    Other,
}

/// A JMAP mail account that could not be opened, or an operation on it that
/// failed.
#[derive(Debug, PartialEq, Eq)]
pub enum StoreError {
    /// The settings do not describe a server that may be contacted at all —
    /// fixed by editing the account, never by retrying. Carries what is wrong.
    Config(String),
    /// The server refused, failed, or is unreachable. Carries the client's own
    /// sentence for it.
    Client { failure: ClientFailure, message: String },
    /// The account uses OAuth 2.0 and no access token could be had.
    OAuth2(String),
    /// The store was asked for something that needs a server, and it has no
    /// connection.
    Disconnected,
    /// Camel asked for a folder the account does not have, by path.
    NoFolder(String),
    /// Camel asked for a folder by purpose, and no mailbox claims that role.
    NoRole(FolderRole),
    /// Camel asked for a message the account does not hold, by uid.
    NoMessage(String),
    /// A message was to be sent from an address the account has no identity
    /// for.
    NoIdentity(String),
    /// A message was to be sent and the account has no mailbox an outgoing
    /// message may be put in.
    NoOutgoingFolder,
    /// Camel asked how full the account is, and no quota of it applies to
    /// Mail: nothing to report, which is not a failure of the connection.
    NoQuota,
}

/// What the `authenticate_sync` vfunc answers with.
#[derive(Debug, Clone, Copy, PartialEq, Eq, Structural)]
pub enum AuthenticationResult {
    Accepted,
    Rejected,
    Error,
}

/// The domain and code of the `GError` a failure is reported as.
#[derive(Debug, Clone, Copy, PartialEq, Eq, Structural)]
pub enum ErrorCode {
    /// `G_IO_ERROR_CANCELLED`.
    IoCancelled,
    /// `G_IO_ERROR_NOT_SUPPORTED`.
    IoNotSupported,
    /// `CAMEL_STORE_ERROR_NO_FOLDER`.
    StoreNoFolder,
    /// `CAMEL_FOLDER_ERROR_INVALID_UID`.
    FolderInvalidUid,
    /// `CAMEL_FOLDER_ERROR_INVALID`.
    FolderInvalid,
    /// `CAMEL_SERVICE_ERROR_URL_INVALID`.
    ServiceUrlInvalid,
    /// `CAMEL_SERVICE_ERROR_NOT_CONNECTED`.
    ServiceNotConnected,
    /// `CAMEL_SERVICE_ERROR_UNAVAILABLE`.
    ServiceUnavailable,
    /// `CAMEL_SERVICE_ERROR_CANT_AUTHENTICATE`.
    ServiceCantAuthenticate,
    /// `CAMEL_SERVICE_ERROR_INVALID`.
    ServiceInvalid,
}

/// Whether `e` is the server refusing the credentials.
pub open spec fn is_wrong_password(e: StoreError) -> bool {
    e matches StoreError::Client { failure: ClientFailure::WrongPassword, .. }
}

/// The authentication verdict for `e`.
pub open spec fn spec_authentication_result(e: StoreError) -> AuthenticationResult {
    if is_wrong_password(e) {
        AuthenticationResult::Rejected
    } else {
        AuthenticationResult::Error
    }
}

/// The code `e` is reported with.
pub open spec fn spec_code(e: StoreError) -> ErrorCode {
    match e {
        StoreError::Client { failure: ClientFailure::Cancelled, .. } => ErrorCode::IoCancelled,
        StoreError::NoFolder(_) | StoreError::NoRole(_) => ErrorCode::StoreNoFolder,
        StoreError::NoMessage(_) => ErrorCode::FolderInvalidUid,
        StoreError::Client { failure: ClientFailure::TooLarge, .. } => ErrorCode::FolderInvalid,
        StoreError::Config(_) => ErrorCode::ServiceUrlInvalid,
        StoreError::Disconnected => ErrorCode::ServiceNotConnected,
        StoreError::Client { failure: ClientFailure::Transport, .. } => ErrorCode::ServiceUnavailable,
        StoreError::Client { failure: ClientFailure::WrongPassword, .. } =>
            ErrorCode::ServiceCantAuthenticate,
        StoreError::OAuth2(_) => ErrorCode::ServiceCantAuthenticate,
        StoreError::NoQuota => ErrorCode::IoNotSupported,
        _ => ErrorCode::ServiceInvalid,
    }
}

/// The name RFC 8621 §2 gives a role.
pub open spec fn role_name(role: FolderRole) -> Seq<char> {
    match role {
        FolderRole::Inbox => "inbox"@,
        FolderRole::Drafts => "drafts"@,
        FolderRole::Sent => "sent"@,
        FolderRole::Trash => "trash"@,
        FolderRole::Junk => "junk"@,
        FolderRole::Archive => "archive"@,
    }
}

/// The name RFC 8621 §2 gives `role`.
pub fn as_jmap(role: FolderRole) -> (name: &'static str)
    ensures
        name@ == role_name(role),
{
    match role {
        FolderRole::Inbox => "inbox",
        FolderRole::Drafts => "drafts",
        FolderRole::Sent => "sent",
        FolderRole::Trash => "trash",
        FolderRole::Junk => "junk",
        FolderRole::Archive => "archive",
    }
}

/// The sentence `e` is reported with.
pub open spec fn spec_message(e: StoreError) -> Seq<char> {
    match e {
        StoreError::Config(m) => m@,
        StoreError::Client { message, .. } => message@,
        StoreError::OAuth2(m) => m@,
        StoreError::Disconnected => "not connected to the JMAP server"@,
        StoreError::NoFolder(path) => "no such folder: "@ + path@,
        StoreError::NoRole(role) => "no mailbox of this account has the "@ + role_name(role)
            + " role"@,
        StoreError::NoMessage(uid) => "no such message: "@ + uid@,
        StoreError::NoIdentity(address) => "this account cannot send mail as "@ + address@,
        StoreError::NoOutgoingFolder =>
            "this account has no Drafts or Sent folder to send a message from"@,
        StoreError::NoQuota => "this account has no quota that applies to mail"@,
    }
}

/// Whether `e` is the server telling an OAuth 2.0 account its token was not
/// taken, which is reported as an `OAuth2` failure carrying that sentence.
pub open spec fn spec_reclassified(e: StoreError) -> StoreError {
    match e {
        StoreError::Client { failure: ClientFailure::WrongPassword, message } => StoreError::OAuth2(
            message,
        ),
        other => other,
    }
}

impl StoreError {
    /// What `authenticate_sync` answers with: `REJECTED` — forget the password
    /// and ask again — only for a wrong password; `ERROR` for everything else,
    /// an OAuth 2.0 failure included, since `REJECTED` would also discard a
    /// refresh token over what may be a transient failure.
    pub fn authentication_result(&self) -> (r: AuthenticationResult)
        ensures
            r == spec_authentication_result(*self),
    {
        match self {
            StoreError::Client { failure: ClientFailure::WrongPassword, .. } =>
                AuthenticationResult::Rejected,
            _ => AuthenticationResult::Error,
        }
    }

    /// Turns a server's refusal of an OAuth 2.0 bearer token into the same
    /// `OAuth2` failure a failed fetch of that token gets: report it, do not
    /// discard the grant. Only for attempts that sent such a token.
    pub fn reclassify_oauth2_rejection(self) -> (e: Self)
        ensures
            e == spec_reclassified(self),
    {
        match self {
            StoreError::Client { failure: ClientFailure::WrongPassword, message } =>
                StoreError::OAuth2(message),
            other => other,
        }
    }

    /// The domain and code a caller in C branches on.
    pub fn code(&self) -> (c: ErrorCode)
        ensures
            c == spec_code(*self),
    {
        match self {
            StoreError::Client { failure: ClientFailure::Cancelled, .. } => ErrorCode::IoCancelled,
            StoreError::NoFolder(_) | StoreError::NoRole(_) => ErrorCode::StoreNoFolder,
            StoreError::NoMessage(_) => ErrorCode::FolderInvalidUid,
            StoreError::Client { failure: ClientFailure::TooLarge, .. } => ErrorCode::FolderInvalid,
            StoreError::Config(_) => ErrorCode::ServiceUrlInvalid,
            StoreError::Disconnected => ErrorCode::ServiceNotConnected,
            StoreError::Client { failure: ClientFailure::Transport, .. } =>
                ErrorCode::ServiceUnavailable,
            StoreError::Client { failure: ClientFailure::WrongPassword, .. } =>
                ErrorCode::ServiceCantAuthenticate,
            StoreError::OAuth2(_) => ErrorCode::ServiceCantAuthenticate,
            StoreError::NoQuota => ErrorCode::IoNotSupported,
            _ => ErrorCode::ServiceInvalid,
        }
    }

    /// The sentence this failure is reported with.
    pub fn message(&self) -> (m: String)
        ensures
            m@ == spec_message(*self),
    {
        let mut out: Vec<char> = Vec::new();
        match self {
            StoreError::Config(m) => push_str(&mut out, m.as_str()),
            StoreError::Client { message, .. } => push_str(&mut out, message.as_str()),
            StoreError::OAuth2(m) => push_str(&mut out, m.as_str()),
            StoreError::Disconnected => push_str(&mut out, "not connected to the JMAP server"),
            StoreError::NoFolder(path) => {
                push_str(&mut out, "no such folder: ");
                push_str(&mut out, path.as_str());
            },
            StoreError::NoRole(role) => {
                push_str(&mut out, "no mailbox of this account has the ");
                push_str(&mut out, as_jmap(*role));
                push_str(&mut out, " role");
            },
            StoreError::NoMessage(uid) => {
                push_str(&mut out, "no such message: ");
                push_str(&mut out, uid.as_str());
            },
            StoreError::NoIdentity(address) => {
                push_str(&mut out, "this account cannot send mail as ");
                push_str(&mut out, address.as_str());
            },
            StoreError::NoOutgoingFolder => push_str(
                &mut out,
                "this account has no Drafts or Sent folder to send a message from",
            ),
            StoreError::NoQuota => push_str(&mut out, "this account has no quota that applies to mail"),
        }
        proof {
            assert(out@ =~= spec_message(*self));
        }
        string_of(out.as_slice())
    }
}

/// What `authenticate_sync` answers for an attempt's outcome, and whether it
/// also reports the failure as an error: a rejection is not an error — it is
/// the prompt — while every other failure carries one.
pub fn report_authentication(outcome: &Result<(), StoreError>) -> (r: (AuthenticationResult, bool))
    ensures
        match outcome {
            Ok(()) => r == (AuthenticationResult::Accepted, false),
            Err(e) => r == (spec_authentication_result(*e), spec_authentication_result(*e)
                == AuthenticationResult::Error),
        },
{
    match outcome {
        Ok(()) => (AuthenticationResult::Accepted, false),
        Err(failure) => {
            let result = failure.authentication_result();
            (result, result == AuthenticationResult::Error)
        },
    }
}

/// Only the server refusing the credentials makes Camel ask for a password
/// again, and a refusal of an OAuth 2.0 token never does once reclassified:
/// no prompt loop a password cannot end, and no consent screen over one
/// rejected token.
pub proof fn law_only_a_wrong_password_prompts(e: StoreError)
    ensures
        spec_authentication_result(e) != AuthenticationResult::Accepted,
        spec_authentication_result(e) == AuthenticationResult::Rejected <==> is_wrong_password(e),
        spec_authentication_result(spec_reclassified(e)) == AuthenticationResult::Error,
        spec_code(spec_reclassified(e)) != ErrorCode::ServiceInvalid || spec_code(e)
            == ErrorCode::ServiceInvalid,
{
}

/// A cancelled operation is always reported as cancelled, and an unreachable
/// server always as the code that takes a store offline.
pub proof fn law_cancel_and_offline_codes(message: String)
    ensures
        spec_code(StoreError::Client { failure: ClientFailure::Cancelled, message })
            == ErrorCode::IoCancelled,
        spec_code(StoreError::Client { failure: ClientFailure::Transport, message })
            == ErrorCode::ServiceUnavailable,
        spec_code(StoreError::Disconnected) == ErrorCode::ServiceNotConnected,
{
}

/// What to authenticate as.
#[derive(Debug, PartialEq, Eq)]
pub enum Credentials {
    /// Nothing: the server's 401 is what turns into a prompt.
    Anonymous,
    /// HTTP Basic, user name and password.
    Basic { user: String, password: String },
    /// A bearer token: an API token or an OAuth 2.0 access token.
    Bearer(String),
}

/// What to authenticate as, given the account's user name and whatever Camel
/// got out of its session: both, or nothing at all — a user name with an empty
/// password is not a weaker credential but a wrong one.
pub fn password_credentials(user: Option<&str>, password: Option<&str>) -> (c: Credentials)
    ensures
        match (user, password) {
            (Some(u), Some(p)) => c matches Credentials::Basic { user: cu, password: cp } && cu@
                == u@ && cp@ == p@,
            _ => c == Credentials::Anonymous,
        },
{
    match (user, password) {
        (Some(user), Some(password)) => Credentials::Basic {
            user: user.to_owned(),
            password: password.to_owned(),
        },
        _ => Credentials::Anonymous,
    }
}

/// The API-token sibling of [`password_credentials`]: the token as a bearer
/// credential, or nothing for an account nobody has been prompted for yet.
pub fn bearer_credentials(password: Option<&str>) -> (c: Credentials)
    ensures
        match password {
            Some(p) => c matches Credentials::Bearer(t) && t@ == p@,
            None => c == Credentials::Anonymous,
        },
{
    match password {
        Some(password) => Credentials::Bearer(password.to_owned()),
        None => Credentials::Anonymous,
    }
}

/// What a failure to get an OAuth 2.0 access token is reported as: the
/// sentence the session gave, or a sentence of its own when it gave none.
pub fn oauth2_failure(message: Option<String>) -> (e: StoreError)
    ensures
        match message {
            Some(m) => e == StoreError::OAuth2(m),
            None => e matches StoreError::OAuth2(m) && m@
                == "no OAuth 2.0 access token could be obtained"@,
        },
{
    match message {
        Some(m) => StoreError::OAuth2(m),
        None => StoreError::OAuth2("no OAuth 2.0 access token could be obtained".to_owned()),
    }
}

} // verus!
