use tau_gui::account::{AccountControl, AccountSheet, AuthOutcome, AuthRequest};
use tau_gui::proto::auth::AuthState;
use tau_gui::view::RuntimeState;

fn signed_in() -> AuthState {
    AuthState::SignedIn { email: Some("me@example.com".into()), account_id: Some("acct".into()) }
}

#[test]
fn opening_the_sheet_asks_for_the_state_and_connects_on_request() {
    let mut sheet = AccountSheet::new();
    assert_eq!(sheet.open_sheet(), AuthRequest::Status);
    assert!(sheet.open && sheet.loading);
    assert_eq!(
        sheet.controls(),
        vec![("Connecting...".to_string(), AccountControl::Connect)]
    );
    let outcome = sheet.finish(AuthRequest::Status, Ok(AuthState::SignedOut), &RuntimeState::Ready);
    assert_eq!(outcome, AuthOutcome { next: None, retry_daemon: false });
    assert!(!sheet.loading && sheet.open);
    assert_eq!(sheet.controls(), vec![("Connect ChatGPT".to_string(), AccountControl::Connect)]);

    sheet.begin(AuthRequest::Begin);
    let pending = AuthState::Pending { authorize_url: "https://auth.example/x".into() };
    let outcome = sheet.finish(AuthRequest::Begin, Ok(pending), &RuntimeState::Ready);
    assert_eq!(outcome.next, Some(AuthRequest::Wait));
    assert_eq!(sheet.link().as_deref(), Some("https://auth.example/x"));
    assert_eq!(
        sheet.controls().into_iter().map(|(_, c)| c).collect::<Vec<_>>(),
        vec![AccountControl::OpenBrowser, AccountControl::CopyLink, AccountControl::Cancel]
    );
    assert_eq!(
        sheet.body(),
        vec!["Authorization is waiting in your browser.".to_string(), "https://auth.example/x".to_string()]
    );

    let outcome = sheet.finish(AuthRequest::Wait, Ok(signed_in()), &RuntimeState::Ready);
    assert!(outcome.retry_daemon);
    assert!(!sheet.open);
    assert_eq!(sheet.body(), vec!["Connected".to_string(), "me@example.com".to_string(), "acct".to_string()]);
    assert_eq!(sheet.controls(), vec![("Sign Out".to_string(), AccountControl::SignOut)]);
}

#[test]
fn a_connected_account_retries_only_a_connection_that_needed_it() {
    let mut sheet = AccountSheet::new();
    sheet.open_sheet();
    let outcome = sheet.finish(AuthRequest::Status, Ok(signed_in()), &RuntimeState::Failed("other".into()));
    assert!(!outcome.retry_daemon);
    assert!(!sheet.open);
    sheet.open_sheet();
    let outcome = sheet.finish(
        AuthRequest::Status,
        Ok(signed_in()),
        &RuntimeState::Failed("Connect a ChatGPT Plus or Pro account".into()),
    );
    assert!(outcome.retry_daemon);
}

#[test]
fn errors_are_shown_and_cleared_by_the_next_attempt() {
    let mut sheet = AccountSheet::new();
    sheet.begin(AuthRequest::Logout);
    let outcome = sheet.finish(AuthRequest::Logout, Err("offline".into()), &RuntimeState::Ready);
    assert_eq!(outcome, AuthOutcome { next: None, retry_daemon: false });
    assert_eq!(sheet.error.as_deref(), Some("offline"));
    assert_eq!(sheet.status, AuthState::SignedOut);
    sheet.begin(AuthRequest::Cancel);
    assert_eq!(sheet.error.as_deref(), Some("offline"));
    sheet.begin(AuthRequest::Begin);
    assert_eq!(sheet.error, None);
    sheet.finish(AuthRequest::Begin, Ok(AuthState::Failed { message: "denied".into() }), &RuntimeState::Ready);
    assert_eq!(sheet.controls(), vec![("Try Again".to_string(), AccountControl::TryAgain)]);
    assert_eq!(sheet.body(), vec!["denied".to_string()]);
    sheet.close_sheet();
    assert!(!sheet.open);
}
