use vstd::prelude::*;
use vstd::string::*;
use crate::cart::LoginProbe;
use crate::text::{push_char, push_str};

verus! {

/// A cookie of the storefront session, as far as restoring it needs.
#[derive(Debug)]
pub struct SessionCookie {
    pub name: String,
    pub value: String,
    pub domain: String,
    pub path: String,
    pub secure: bool,
    pub http_only: bool,
    pub same_site: Option<String>,
}

/// The script text that sets `c` in the page, each field escaped so that it
/// reads as itself inside the quoted cookie string.
pub open spec fn cookie_script_spec(c: SessionCookie) -> Seq<char> {
    "document.cookie = \""@ + script_escaped(c.name@) + "="@ + script_escaped(c.value@)
        + "; domain="@ + script_escaped(c.domain@) + "; path="@ + script_escaped(c.path@)
        + "; "@ + (if c.secure {
        "secure; "@
    } else {
        Seq::empty()
    }) + match c.same_site {
        Some(s) => "SameSite="@ + script_escaped(s@) + ";"@,
        None => Seq::empty(),
    } + "\";"@
}

/// Builds the script that sets a saved cookie in the page.
pub fn cookie_script(c: &SessionCookie) -> (r: String)
    ensures
        r@ == cookie_script_spec(*c),
{
    let mut s = String::from_str("document.cookie = \"");
    let t = escape_for_script(c.name.as_str());
    push_str(&mut s, t.as_str());
    push_str(&mut s, "=");
    let t = escape_for_script(c.value.as_str());
    push_str(&mut s, t.as_str());
    push_str(&mut s, "; domain=");
    let t = escape_for_script(c.domain.as_str());
    push_str(&mut s, t.as_str());
    push_str(&mut s, "; path=");
    let t = escape_for_script(c.path.as_str());
    push_str(&mut s, t.as_str());
    push_str(&mut s, "; ");
    if c.secure {
        push_str(&mut s, "secure; ");
    }
    match &c.same_site {
        Some(v) => {
            push_str(&mut s, "SameSite=");
            let t = escape_for_script(v.as_str());
            push_str(&mut s, t.as_str());
            push_str(&mut s, ";");
        },
        None => {},
    }
    push_str(&mut s, "\";");
    proof {
        let t = cookie_script_spec(*c);
        assert(s@ =~= t);
    }
    s
}

/// A character that ends a line in script source.
pub open spec fn is_line_terminator(c: char) -> bool {
    c == '\n' || c == '\r' || c == '\u{2028}' || c == '\u{2029}'
}

/// How one character is written inside a quoted script string so that it
/// stands for itself: backslash, both quotes and the line terminators are
/// escaped, everything else is kept.
pub open spec fn escape_char(c: char) -> Seq<char> {
    if c == '\\' {
        seq!['\\', '\\']
    } else if c == '\'' {
        seq!['\\', '\'']
    } else if c == '"' {
        seq!['\\', '"']
    } else if c == '\n' {
        seq!['\\', 'n']
    } else if c == '\r' {
        seq!['\\', 'r']
    } else if c == '\u{2028}' {
        seq!['\\', 'u', '2', '0', '2', '8']
    } else if c == '\u{2029}' {
        seq!['\\', 'u', '2', '0', '2', '9']
    } else {
        seq![c]
    }
}

/// `s` written inside a quoted script string: each character escaped.
pub open spec fn script_escaped(s: Seq<char>) -> Seq<char>
    decreases s.len(),
{
    if s.len() == 0 {
        Seq::empty()
    } else {
        script_escaped(s.drop_last()) + escape_char(s.last())
    }
}

fn push_escaped(out: &mut String, c: char)
    ensures
        final(out)@ == old(out)@ + escape_char(c),
{
    if c == '\\' {
        push_char(out, '\\');
        push_char(out, '\\');
    } else if c == '\'' {
        push_char(out, '\\');
        push_char(out, '\'');
    } else if c == '"' {
        push_char(out, '\\');
        push_char(out, '"');
    } else if c == '\n' {
        push_char(out, '\\');
        push_char(out, 'n');
    } else if c == '\r' {
        push_char(out, '\\');
        push_char(out, 'r');
    } else if c == '\u{2028}' {
        push_str(out, "\\u2028");
        proof {
            reveal_strlit("\\u2028");
        }
    } else if c == '\u{2029}' {
        push_str(out, "\\u2029");
        proof {
            reveal_strlit("\\u2029");
        }
    } else {
        push_char(out, c);
    }
    assert(final(out)@ =~= old(out)@ + escape_char(c));
}

/// Escapes `s` so that, inside a quoted script string, it reads as exactly
/// its own characters.
pub fn escape_for_script(s: &str) -> (r: String)
    ensures
        r@ == script_escaped(s@),
{
    let n = s.unicode_len();
    let mut out = String::new();
    let mut i: usize = 0;
    while i < n
        invariant
            n == s@.len(),
            i <= n,
            out@ == script_escaped(s@.take(i as int)),
        decreases n - i,
    {
        let c = s.get_char(i);
        push_escaped(&mut out, c);
        assert(s@.take(i + 1).drop_last() =~= s@.take(i as int));
        i = i + 1;
    }
    assert(s@.take(n as int) =~= s@);
    out
}

/// Escaped text holds no line terminator, so it cannot break the line of
/// script it stands in.
pub proof fn lemma_escaped_has_no_line_break(s: Seq<char>)
    ensures
        forall|i: int|
            0 <= i < script_escaped(s).len() ==> !is_line_terminator(
                #[trigger] script_escaped(s)[i],
            ),
    decreases s.len(),
{
    if s.len() > 0 {
        lemma_escaped_has_no_line_break(s.drop_last());
        let p = script_escaped(s.drop_last());
        let t = escape_char(s.last());
        assert forall|i: int| 0 <= i < script_escaped(s).len() implies !is_line_terminator(
            #[trigger] script_escaped(s)[i],
        ) by {
            if i >= p.len() {
                assert(script_escaped(s)[i] == t[i - p.len()]);
            } else {
                assert(script_escaped(s)[i] == p[i]);
            }
        };
    }
}

/// The login form script up to the e-mail value.
pub const LOGIN_SCRIPT_HEAD: &'static str = r#"
(() => {
    const emailInput = document.querySelector('input[type="email"], input[name="email"], input[id*="email"], input[placeholder*="email"]');
    if (emailInput) {
        emailInput.value = '"#;

/// The login form script between the e-mail and the password values.
pub const LOGIN_SCRIPT_MIDDLE: &'static str = r#"';
        emailInput.dispatchEvent(new Event('input', { bubbles: true }));
        emailInput.dispatchEvent(new Event('change', { bubbles: true }));
    }
    const passwordInput = document.querySelector('input[type="password"], input[name="password"], input[id*="password"]');
    if (passwordInput) {
        passwordInput.value = '"#;

/// The login form script after the password value.
pub const LOGIN_SCRIPT_TAIL: &'static str = r#"';
        passwordInput.dispatchEvent(new Event('input', { bubbles: true }));
        passwordInput.dispatchEvent(new Event('change', { bubbles: true }));
    }
    setTimeout(() => {
        const loginButton = document.querySelector('button[type="submit"], button[class*="login"], button[aria-label*="Sign in"], button[aria-label*="Log in"]');
        if (loginButton) {
            loginButton.click();
        }
    }, 500);
    return true;
})()
"#;

/// The script that fills in and submits the login form.
pub open spec fn login_script_spec(email: Seq<char>, password: Seq<char>) -> Seq<char> {
    LOGIN_SCRIPT_HEAD@ + script_escaped(email) + LOGIN_SCRIPT_MIDDLE@ + script_escaped(password)
        + LOGIN_SCRIPT_TAIL@
}

/// Builds the login form script for the given credentials.
pub fn login_script(email: &str, password: &str) -> (r: String)
    ensures
        r@ == login_script_spec(email@, password@),
{
    let mut s = String::from_str(LOGIN_SCRIPT_HEAD);
    let e = escape_for_script(email);
    push_str(&mut s, e.as_str());
    push_str(&mut s, LOGIN_SCRIPT_MIDDLE);
    let p = escape_for_script(password);
    push_str(&mut s, p.as_str());
    push_str(&mut s, LOGIN_SCRIPT_TAIL);
    s
}

/// How a session is to be had: from saved cookies where they still work, or
/// by a fresh login in any case.
#[derive(Debug, Clone, Copy, PartialEq, Eq, Structural)]
pub enum SessionMode {
    Restore,
    ForceLogin,
}

/// Why no session could be established.
#[derive(Debug, Clone, Copy, PartialEq, Eq, Structural)]
pub enum SessionError {
    LoginFailed,
    NoCredentials,
}

/// Where session setup stands.
#[derive(Debug, Clone, Copy, PartialEq, Eq, Structural)]
pub enum SessionState {
    Start,
    AwaitCookies,
    AwaitRestoreProbe,
    AwaitLogin,
    AwaitSave,
    Established,
    Failed(SessionError),
}

/// What the browser side reports back.
#[derive(Debug, Clone, Copy, PartialEq, Eq, Structural)]
pub enum SessionEvent {
    Begin,
    /// Saved cookies were loaded, set in the page, and the page reloaded.
    CookiesRestored,
    NoSavedCookies,
    /// The login probe after restoring cookies.
    RestoreProbed(LoginProbe),
    /// The login probe after the login form was submitted.
    LoginProbed(LoginProbe),
    NoCredentials,
    Saved,
}

/// What the browser side is asked to do next.
#[derive(Debug, Clone, Copy, PartialEq, Eq, Structural)]
pub enum SessionAction {
    /// Load the saved cookies and, if there are any, set them and reload.
    LoadCookies,
    /// Run the login probe on the current page.
    Probe,
    /// Fill in and submit the login form, then run the login probe.
    Login,
    /// Write the current cookie set over the saved one.
    SaveCookies,
    /// The session is established.
    Done,
    Fail(SessionError),
    /// The event does not fit the current state; nothing to do.
    Idle,
}

/// One step of session setup.
pub open spec fn session_step_spec(mode: SessionMode, state: SessionState, event: SessionEvent) -> (
    SessionState,
    SessionAction,
) {
    match (state, event) {
        (SessionState::Start, SessionEvent::Begin) => match mode {
            SessionMode::ForceLogin => (SessionState::AwaitLogin, SessionAction::Login),
            SessionMode::Restore => (SessionState::AwaitCookies, SessionAction::LoadCookies),
        },
        (SessionState::AwaitCookies, SessionEvent::CookiesRestored) => (
            SessionState::AwaitRestoreProbe,
            SessionAction::Probe,
        ),
        (SessionState::AwaitCookies, SessionEvent::NoSavedCookies) => (
            SessionState::AwaitLogin,
            SessionAction::Login,
        ),
        (SessionState::AwaitRestoreProbe, SessionEvent::RestoreProbed(p)) => if p.signed_in() {
            (SessionState::AwaitSave, SessionAction::SaveCookies)
        } else {
            (SessionState::AwaitLogin, SessionAction::Login)
        },
        (SessionState::AwaitLogin, SessionEvent::LoginProbed(p)) => if p.signed_in() {
            (SessionState::AwaitSave, SessionAction::SaveCookies)
        } else {
            (
                SessionState::Failed(SessionError::LoginFailed),
                SessionAction::Fail(SessionError::LoginFailed),
            )
        },
        (SessionState::AwaitLogin, SessionEvent::NoCredentials) => (
            SessionState::Failed(SessionError::NoCredentials),
            SessionAction::Fail(SessionError::NoCredentials),
        ),
        (SessionState::AwaitSave, SessionEvent::Saved) => (
            SessionState::Established,
            SessionAction::Done,
        ),
        _ => (state, SessionAction::Idle),
    }
}

/// Decides the next state and action of session setup.
pub fn session_step(mode: SessionMode, state: SessionState, event: SessionEvent) -> (r: (
    SessionState,
    SessionAction,
))
    ensures
        r == session_step_spec(mode, state, event),
{
    match (state, event) {
        (SessionState::Start, SessionEvent::Begin) => match mode {
            SessionMode::ForceLogin => (SessionState::AwaitLogin, SessionAction::Login),
            SessionMode::Restore => (SessionState::AwaitCookies, SessionAction::LoadCookies),
        },
        (SessionState::AwaitCookies, SessionEvent::CookiesRestored) => (
            SessionState::AwaitRestoreProbe,
            SessionAction::Probe,
        ),
        (SessionState::AwaitCookies, SessionEvent::NoSavedCookies) => (
            SessionState::AwaitLogin,
            SessionAction::Login,
        ),
        (SessionState::AwaitRestoreProbe, SessionEvent::RestoreProbed(p)) => {
            if p.is_logged_in() {
                (SessionState::AwaitSave, SessionAction::SaveCookies)
            } else {
                (SessionState::AwaitLogin, SessionAction::Login)
            }
        },
        (SessionState::AwaitLogin, SessionEvent::LoginProbed(p)) => {
            if p.is_logged_in() {
                (SessionState::AwaitSave, SessionAction::SaveCookies)
            } else {
                (
                    SessionState::Failed(SessionError::LoginFailed),
                    SessionAction::Fail(SessionError::LoginFailed),
                )
            }
        },
        (SessionState::AwaitLogin, SessionEvent::NoCredentials) => (
            SessionState::Failed(SessionError::NoCredentials),
            SessionAction::Fail(SessionError::NoCredentials),
        ),
        (SessionState::AwaitSave, SessionEvent::Saved) => (
            SessionState::Established,
            SessionAction::Done,
        ),
        _ => (state, SessionAction::Idle),
    }
}

/// The state and actions after feeding `events` in order, from `Start`.
pub open spec fn session_run(mode: SessionMode, events: Seq<SessionEvent>) -> (
    SessionState,
    Seq<SessionAction>,
)
    decreases events.len(),
{
    if events.len() == 0 {
        (SessionState::Start, Seq::empty())
    } else {
        let (s, acts) = session_run(mode, events.drop_last());
        let (s2, a) = session_step_spec(mode, s, events.last());
        (s2, acts.push(a))
    }
}

/// Login has not been asked for yet in this state.
pub open spec fn before_login(state: SessionState) -> bool {
    state is Start || state is AwaitCookies || state is AwaitRestoreProbe
}

/// How many of `acts` ask for a login.
pub open spec fn login_count(acts: Seq<SessionAction>) -> nat
    decreases acts.len(),
{
    if acts.len() == 0 {
        0
    } else {
        login_count(acts.drop_last()) + if acts.last() == SessionAction::Login {
            1nat
        } else {
            0nat
        }
    }
}

/// Whatever the events, a restore run asks for a login at most once, and
/// only after leaving the states that precede it.
pub proof fn lemma_login_at_most_once(events: Seq<SessionEvent>)
    ensures
        before_login(session_run(SessionMode::Restore, events).0) ==> login_count(
            session_run(SessionMode::Restore, events).1,
        ) == 0,
        login_count(session_run(SessionMode::Restore, events).1) <= 1,
        session_run(SessionMode::Restore, events).0 is Start ==> events.len() == 0 || login_count(
            session_run(SessionMode::Restore, events).1,
        ) == 0,
    decreases events.len(),
{
    if events.len() > 0 {
        lemma_login_at_most_once(events.drop_last());
        let (st, acts) = session_run(SessionMode::Restore, events.drop_last());
        let (st2, a) = session_step_spec(SessionMode::Restore, st, events.last());
        assert(acts.push(a).drop_last() =~= acts);
        assert(login_count(acts.push(a)) == login_count(acts) + if a == SessionAction::Login {
            1nat
        } else {
            0nat
        });
        assert(!before_login(st) ==> a != SessionAction::Login && !before_login(st2));
        assert(a == SessionAction::Login ==> !before_login(st2));
    }
}

/// With saved cookies that still work, restoring asks for no login and ends
/// with the session established and the cookies saved.
pub proof fn lemma_restore_with_valid_cookies(p: LoginProbe)
    requires
        p.signed_in(),
    ensures
        ({
            let (state, acts) = session_run(
                SessionMode::Restore,
                seq![SessionEvent::Begin, SessionEvent::CookiesRestored, SessionEvent::RestoreProbed(p), SessionEvent::Saved],
            );
            state == SessionState::Established && acts == seq![
                SessionAction::LoadCookies,
                SessionAction::Probe,
                SessionAction::SaveCookies,
                SessionAction::Done,
            ] && login_count(acts) == 0
        }),
{
    let m = SessionMode::Restore;
    let e1 = seq![SessionEvent::Begin];
    let e2 = e1.push(SessionEvent::CookiesRestored);
    let e3 = e2.push(SessionEvent::RestoreProbed(p));
    let e4 = e3.push(SessionEvent::Saved);
    assert(e1.drop_last() =~= Seq::<SessionEvent>::empty());
    assert(e2.drop_last() =~= e1);
    assert(e3.drop_last() =~= e2);
    assert(e4.drop_last() =~= e3);
    assert(e4 =~= seq![SessionEvent::Begin, SessionEvent::CookiesRestored, SessionEvent::RestoreProbed(p), SessionEvent::Saved]);
    let a1 = seq![SessionAction::LoadCookies];
    let a2 = a1.push(SessionAction::Probe);
    let a3 = a2.push(SessionAction::SaveCookies);
    let a4 = a3.push(SessionAction::Done);
    assert(e1.last() == SessionEvent::Begin);
    assert(session_run(m, e1.drop_last()) == (SessionState::Start, Seq::<SessionAction>::empty()));
    assert(session_run(m, e1).1 =~= a1);
    assert(session_run(m, e1) == (SessionState::AwaitCookies, a1));
    assert(session_run(m, e2) == (SessionState::AwaitRestoreProbe, a2));
    assert(session_run(m, e3) == (SessionState::AwaitSave, a3));
    assert(session_run(m, e4) == (SessionState::Established, a4));
    assert(a1.drop_last() =~= Seq::<SessionAction>::empty());
    assert(a2.drop_last() =~= a1);
    assert(a3.drop_last() =~= a2);
    assert(a4.drop_last() =~= a3);
    assert(login_count(Seq::<SessionAction>::empty()) == 0);
    assert(a1.last() == SessionAction::LoadCookies);
    assert(login_count(a1) == 0);
    assert(login_count(a2) == 0);
    assert(login_count(a3) == 0);
    assert(login_count(a4) == 0);
    assert(a4 =~= seq![
        SessionAction::LoadCookies,
        SessionAction::Probe,
        SessionAction::SaveCookies,
        SessionAction::Done,
    ]);
}

/// With saved cookies that no longer work, restoring falls through to exactly
/// one login attempt, whose probe decides between an established session and
/// a failed login.
pub proof fn lemma_restore_with_stale_cookies(stale: LoginProbe, after: LoginProbe)
    requires
        !stale.signed_in(),
    ensures
        ({
            let (state, acts) = session_run(
                SessionMode::Restore,
                seq![SessionEvent::Begin, SessionEvent::CookiesRestored, SessionEvent::RestoreProbed(stale), SessionEvent::LoginProbed(after)],
            );
            &&& acts.take(3) == seq![SessionAction::LoadCookies, SessionAction::Probe, SessionAction::Login]
            &&& login_count(acts) == 1
            &&& after.signed_in() ==> state == SessionState::AwaitSave && acts.last() == SessionAction::SaveCookies
            &&& !after.signed_in() ==> state == SessionState::Failed(SessionError::LoginFailed)
        }),
{
    let m = SessionMode::Restore;
    let e1 = seq![SessionEvent::Begin];
    let e2 = e1.push(SessionEvent::CookiesRestored);
    let e3 = e2.push(SessionEvent::RestoreProbed(stale));
    let e4 = e3.push(SessionEvent::LoginProbed(after));
    assert(e1.drop_last() =~= Seq::<SessionEvent>::empty());
    assert(e2.drop_last() =~= e1);
    assert(e3.drop_last() =~= e2);
    assert(e4.drop_last() =~= e3);
    assert(e4 =~= seq![SessionEvent::Begin, SessionEvent::CookiesRestored, SessionEvent::RestoreProbed(stale), SessionEvent::LoginProbed(after)]);
    let last = if after.signed_in() {
        SessionAction::SaveCookies
    } else {
        SessionAction::Fail(SessionError::LoginFailed)
    };
    let a1 = seq![SessionAction::LoadCookies];
    let a2 = a1.push(SessionAction::Probe);
    let a3 = a2.push(SessionAction::Login);
    let a4 = a3.push(last);
    assert(e1.last() == SessionEvent::Begin);
    assert(session_run(m, e1.drop_last()) == (SessionState::Start, Seq::<SessionAction>::empty()));
    assert(session_run(m, e1).1 =~= a1);
    assert(session_run(m, e1) == (SessionState::AwaitCookies, a1));
    assert(session_run(m, e2) == (SessionState::AwaitRestoreProbe, a2));
    assert(session_run(m, e3) == (SessionState::AwaitLogin, a3));
    assert(session_run(m, e4).1 == a4);
    assert(a1.drop_last() =~= Seq::<SessionAction>::empty());
    assert(a2.drop_last() =~= a1);
    assert(a3.drop_last() =~= a2);
    assert(a4.drop_last() =~= a3);
    assert(login_count(Seq::<SessionAction>::empty()) == 0);
    assert(a1.last() == SessionAction::LoadCookies);
    assert(login_count(a1) == 0);
    assert(login_count(a2) == 0);
    assert(login_count(a3) == 1);
    assert(login_count(a4) == 1);
    assert(a4.take(3) =~= seq![SessionAction::LoadCookies, SessionAction::Probe, SessionAction::Login]);
}

} // verus!
