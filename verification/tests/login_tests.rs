use garlemald_client::crypto::SESSION_ID_LEN;
use garlemald_client::login::{
    classify_login_line, login_window_args, navigation_action, outcome_from_lines, parse_session_id,
    login_step, read_error_outcome, unreported_outcome, LineRead, LoginOutcome, LoginStartError, NavigationAction,
};

#[test]
fn parses_session_id_from_full_uri() {
    let uri = format!("ffxiv://login_success?sessionId={}", "a".repeat(SESSION_ID_LEN));
    let got = parse_session_id(&uri);
    assert_eq!(got.as_deref(), Some(&*"a".repeat(SESSION_ID_LEN)));
}

#[test]
fn rejects_wrong_length_session_id() {
    let uri = "ffxiv://login_success?sessionId=tooshort";
    assert!(parse_session_id(uri).is_none());
}

#[test]
fn ignores_extra_query_params() {
    let good = "a".repeat(SESSION_ID_LEN);
    let uri = format!("ffxiv://login_success?other=1&sessionId={good}&trailing=2");
    assert_eq!(parse_session_id(&uri).as_deref(), Some(&*good));
}

#[test]
fn returns_none_for_missing_query() {
    assert!(parse_session_id("ffxiv://login_success").is_none());
}

#[test]
fn pair_without_equals_stops_the_scan() {
    let good = "b".repeat(SESSION_ID_LEN);
    let uri = format!("ffxiv://login_success?flag&sessionId={good}");
    assert!(parse_session_id(&uri).is_none());
}

#[test]
fn success_redirect_reports_and_exits_zero() {
    let id = "c".repeat(SESSION_ID_LEN);
    let a = navigation_action(&format!("ffxiv://login_success?sessionId={id}"));
    assert_eq!(a, NavigationAction::ReportAndExit { line: format!("SESSION_ID={id}"), code: 0 });
}

#[test]
fn success_redirect_without_id_reports_error() {
    let a = navigation_action("ffxiv://login_success?sessionId=short");
    assert_eq!(
        a,
        NavigationAction::ReportAndExit {
            line: "LOGIN_ERROR=login_success URL missing a 56-char sessionId".to_string(),
            code: 1
        }
    );
}

#[test]
fn other_ffxiv_links_are_blocked_and_pages_load() {
    assert_eq!(navigation_action("ffxiv://something_else"), NavigationAction::Block);
    assert_eq!(navigation_action("https://example.com/login"), NavigationAction::Allow);
}

#[test]
fn output_lines_are_classified() {
    assert_eq!(classify_login_line("SESSION_ID=abc"), Some(LoginOutcome::Success("abc".to_string())));
    assert_eq!(classify_login_line("LOGIN_CANCELLED"), Some(LoginOutcome::Cancelled));
    assert_eq!(classify_login_line("LOGIN_ERROR=boom"), Some(LoginOutcome::Error("boom".to_string())));
    assert_eq!(classify_login_line("some log output"), None);
}

#[test]
fn first_reporting_line_decides() {
    let lines = vec![
        "starting".to_string(),
        "LOGIN_CANCELLED".to_string(),
        "SESSION_ID=late".to_string(),
    ];
    assert_eq!(outcome_from_lines(&lines), LoginOutcome::Cancelled);
    assert_eq!(
        outcome_from_lines(&vec!["noise".to_string()]),
        LoginOutcome::Error("login window exited without reporting an outcome".to_string())
    );
    assert_eq!(outcome_from_lines(&Vec::new()), unreported_outcome());
}

#[test]
fn login_window_arguments() {
    assert_eq!(login_window_args(""), Err(LoginStartError::EmptyUrl));
    assert_eq!(LoginStartError::EmptyUrl.message(), "login URL is empty");
    assert_eq!(
        login_window_args("http://127.0.0.1/login").unwrap(),
        vec!["--login-webview".to_string(), "http://127.0.0.1/login".to_string()]
    );
}

#[test]
fn read_errors_become_error_outcomes() {
    assert_eq!(read_error_outcome("broken pipe"), LoginOutcome::Error("reading login stdout: broken pipe".to_string()));
}

#[test]
fn each_read_of_the_login_output_decides_or_not() {
    assert_eq!(login_step(LineRead::Line("webview starting")), None);
    assert_eq!(login_step(LineRead::Line("SESSION_ID=abc")), Some(LoginOutcome::Success("abc".to_string())));
    assert_eq!(login_step(LineRead::Line("LOGIN_CANCELLED")), Some(LoginOutcome::Cancelled));
    assert_eq!(login_step(LineRead::Line("LOGIN_ERROR=boom")), Some(LoginOutcome::Error("boom".to_string())));
    assert_eq!(
        login_step(LineRead::Failed("pipe closed")),
        Some(LoginOutcome::Error("reading login stdout: pipe closed".to_string()))
    );
    assert_eq!(
        login_step(LineRead::Closed),
        Some(LoginOutcome::Error("login window exited without reporting an outcome".to_string()))
    );
}
