use shop_automation::cart::LoginProbe;
use shop_automation::session::{
    cookie_script, escape_for_script, login_script, session_step, SessionAction, SessionCookie, SessionError,
    SessionEvent, SessionMode, SessionState, LOGIN_SCRIPT_HEAD, LOGIN_SCRIPT_MIDDLE, LOGIN_SCRIPT_TAIL,
};

const IN: LoginProbe = LoginProbe { sign_in_control: false, log_out_control: true, account_menu: false };
const OUT: LoginProbe = LoginProbe { sign_in_control: true, log_out_control: false, account_menu: false };

fn drive(mode: SessionMode, events: &[SessionEvent]) -> (SessionState, Vec<SessionAction>) {
    let mut state = SessionState::Start;
    let mut actions = Vec::new();
    for e in events {
        let (s, a) = session_step(mode, state, *e);
        state = s;
        actions.push(a);
    }
    (state, actions)
}

#[test]
fn valid_cookies_restore_without_login() {
    let (state, actions) = drive(
        SessionMode::Restore,
        &[SessionEvent::Begin, SessionEvent::CookiesRestored, SessionEvent::RestoreProbed(IN), SessionEvent::Saved],
    );
    assert_eq!(state, SessionState::Established);
    assert_eq!(actions, vec![SessionAction::LoadCookies, SessionAction::Probe, SessionAction::SaveCookies, SessionAction::Done]);
}

#[test]
fn stale_cookies_log_in_once() {
    let (state, actions) = drive(
        SessionMode::Restore,
        &[
            SessionEvent::Begin,
            SessionEvent::CookiesRestored,
            SessionEvent::RestoreProbed(OUT),
            SessionEvent::LoginProbed(IN),
            SessionEvent::Saved,
        ],
    );
    assert_eq!(state, SessionState::Established);
    assert_eq!(actions.iter().filter(|a| **a == SessionAction::Login).count(), 1);
}

#[test]
fn failed_login_is_final() {
    let (state, actions) = drive(
        SessionMode::Restore,
        &[
            SessionEvent::Begin,
            SessionEvent::NoSavedCookies,
            SessionEvent::LoginProbed(OUT),
            SessionEvent::LoginProbed(IN),
        ],
    );
    assert_eq!(state, SessionState::Failed(SessionError::LoginFailed));
    assert_eq!(actions[2], SessionAction::Fail(SessionError::LoginFailed));
    assert_eq!(actions[3], SessionAction::Idle);
}

#[test]
fn forced_login_skips_cookies() {
    let (state, actions) = drive(SessionMode::ForceLogin, &[SessionEvent::Begin, SessionEvent::NoCredentials]);
    assert_eq!(actions[0], SessionAction::Login);
    assert_eq!(state, SessionState::Failed(SessionError::NoCredentials));
}

#[test]
fn cookie_assignment_text() {
    let c = SessionCookie {
        name: "sid".to_string(),
        value: "abc".to_string(),
        domain: ".supervalu.ie".to_string(),
        path: "/".to_string(),
        secure: true,
        http_only: true,
        same_site: Some("Lax".to_string()),
    };
    assert_eq!(cookie_script(&c), "document.cookie = \"sid=abc; domain=.supervalu.ie; path=/; secure; SameSite=Lax;\";");
    let plain = SessionCookie { secure: false, same_site: None, ..c };
    assert_eq!(cookie_script(&plain), "document.cookie = \"sid=abc; domain=.supervalu.ie; path=/; \";");
}

#[test]
fn quotes_escaped() {
    assert_eq!(escape_for_script("o'brien"), "o\\'brien");
    assert_eq!(escape_for_script("say \"hi\""), "say \\\"hi\\\"");
    assert_eq!(escape_for_script("plain"), "plain");
}

#[test]
fn backslash_and_line_breaks_escaped() {
    assert_eq!(escape_for_script("a\\"), "a\\\\");
    assert_eq!(escape_for_script("x\ny\rz"), "x\\ny\\rz");
    assert_eq!(escape_for_script("p\u{2028}q\u{2029}"), "p\\u2028q\\u2029");
}

#[test]
fn trailing_backslash_cannot_close_value() {
    let s = login_script("me@x.ie\\", "');alert(1);//");
    let expected = format!(
        "{}me@x.ie\\\\{}\\');alert(1);//{}",
        LOGIN_SCRIPT_HEAD, LOGIN_SCRIPT_MIDDLE, LOGIN_SCRIPT_TAIL
    );
    assert_eq!(s, expected);
}

#[test]
fn cookie_fields_escaped() {
    let c = SessionCookie {
        name: "k".to_string(),
        value: "a\"b\\c".to_string(),
        domain: "d".to_string(),
        path: "/".to_string(),
        secure: false,
        http_only: false,
        same_site: None,
    };
    assert_eq!(cookie_script(&c), "document.cookie = \"k=a\\\"b\\\\c; domain=d; path=/; \";");
}

#[test]
fn login_script_embeds_escaped_credentials() {
    let s = login_script("a'b@x.ie", "p'w");
    let expected = format!("{}a\\'b@x.ie{}p\\'w{}", LOGIN_SCRIPT_HEAD, LOGIN_SCRIPT_MIDDLE, LOGIN_SCRIPT_TAIL);
    assert_eq!(s, expected);
}
