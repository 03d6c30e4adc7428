use jmap_mail::connect::{
    as_jmap, bearer_credentials, password_credentials, report_authentication,
    AuthenticationResult, ClientFailure, Credentials, ErrorCode, StoreError,
};
use jmap_mail::folders::FolderRole;

fn client(failure: ClientFailure) -> StoreError {
    StoreError::Client { failure, message: "server said no".to_owned() }
}

#[test]
fn only_a_wrong_password_is_a_rejection() {
    assert_eq!(client(ClientFailure::WrongPassword).authentication_result(), AuthenticationResult::Rejected);
    assert_eq!(client(ClientFailure::Transport).authentication_result(), AuthenticationResult::Error);
    assert_eq!(StoreError::OAuth2("no token".to_owned()).authentication_result(), AuthenticationResult::Error);
}

#[test]
fn a_rejected_token_is_reported_not_prompted_for() {
    let e = client(ClientFailure::WrongPassword).reclassify_oauth2_rejection();
    assert_eq!(e, StoreError::OAuth2("server said no".to_owned()));
    assert_eq!(e.authentication_result(), AuthenticationResult::Error);
    assert_eq!(StoreError::Disconnected.reclassify_oauth2_rejection(), StoreError::Disconnected);
}

#[test]
fn every_failure_has_its_code() {
    assert_eq!(client(ClientFailure::Cancelled).code(), ErrorCode::IoCancelled);
    assert_eq!(client(ClientFailure::TooLarge).code(), ErrorCode::FolderInvalid);
    assert_eq!(client(ClientFailure::Transport).code(), ErrorCode::ServiceUnavailable);
    assert_eq!(client(ClientFailure::WrongPassword).code(), ErrorCode::ServiceCantAuthenticate);
    assert_eq!(StoreError::Config("bad".to_owned()).code(), ErrorCode::ServiceUrlInvalid);
    assert_eq!(StoreError::Disconnected.code(), ErrorCode::ServiceNotConnected);
    assert_eq!(StoreError::NoFolder("x".to_owned()).code(), ErrorCode::StoreNoFolder);
    assert_eq!(StoreError::NoRole(FolderRole::Trash).code(), ErrorCode::StoreNoFolder);
    assert_eq!(StoreError::NoMessage("M1".to_owned()).code(), ErrorCode::FolderInvalidUid);
    assert_eq!(StoreError::NoIdentity("a@b".to_owned()).code(), ErrorCode::ServiceInvalid);
    assert_eq!(StoreError::NoOutgoingFolder.code(), ErrorCode::ServiceInvalid);
    assert_eq!(StoreError::OAuth2("x".to_owned()).code(), ErrorCode::ServiceCantAuthenticate);
    assert_eq!(StoreError::NoQuota.code(), ErrorCode::IoNotSupported);
}

#[test]
fn every_failure_has_its_sentence() {
    assert_eq!(StoreError::Disconnected.message(), "not connected to the JMAP server");
    assert_eq!(StoreError::NoFolder("Lists".to_owned()).message(), "no such folder: Lists");
    assert_eq!(
        StoreError::NoRole(FolderRole::Junk).message(),
        "no mailbox of this account has the junk role"
    );
    assert_eq!(StoreError::NoMessage("M9".to_owned()).message(), "no such message: M9");
    assert_eq!(client(ClientFailure::Transport).message(), "server said no");
    assert_eq!(as_jmap(FolderRole::Archive), "archive");
}

#[test]
fn authentication_reports_an_error_only_when_it_is_not_a_prompt() {
    assert_eq!(report_authentication(&Ok(())), (AuthenticationResult::Accepted, false));
    assert_eq!(
        report_authentication(&Err(client(ClientFailure::WrongPassword))),
        (AuthenticationResult::Rejected, false)
    );
    assert_eq!(
        report_authentication(&Err(StoreError::Disconnected)),
        (AuthenticationResult::Error, true)
    );
}

#[test]
fn credentials_are_both_halves_or_nothing() {
    assert_eq!(
        password_credentials(Some("me"), Some("pw")),
        Credentials::Basic { user: "me".to_owned(), password: "pw".to_owned() }
    );
    assert_eq!(password_credentials(Some("me"), None), Credentials::Anonymous);
    assert_eq!(password_credentials(None, Some("pw")), Credentials::Anonymous);
    assert_eq!(bearer_credentials(Some("tok")), Credentials::Bearer("tok".to_owned()));
    assert_eq!(bearer_credentials(None), Credentials::Anonymous);
}
