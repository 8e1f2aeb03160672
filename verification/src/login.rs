//! Password sign-in: throttling of failed attempts per session, the reply to
//! each attempt, and the message keys that the sign-in page shows.

use vstd::prelude::*;
use vstd::string::StringExecFns;
use vstd::utf8::is_ascii_chars;

use crate::auth_state::{after_sign_in_route, post_login_route, AppRoute, AuthSnapshot};
use crate::text::{ascii_lowercase_text, contains_text, has_infix, lowercase_text, same_text, to_lowercase};

verus! {

/// Failed attempts after which a session is locked.
pub const MAX_LOGIN_ATTEMPTS: u32 = 5;

/// How long a locked session stays locked, in seconds.
pub const LOCKOUT_SECONDS: i64 = 300;

/// What a session stores about failed sign-in attempts: the count of
/// consecutive failures and the time (seconds since the epoch) until which
/// sign-in is refused. Missing entries read as 0.
#[derive(Clone, Copy, Debug, PartialEq, Eq, Structural)]
pub struct LoginThrottle {
    pub fail_count: Option<u32>,
    pub locked_until: Option<i64>,
}

/// What checking the submitted credentials gave.
#[derive(Clone, Copy, Debug, PartialEq, Eq, Structural)]
pub enum SignInOutcome {
    /// The credentials belong to an account that may sign in.
    Authenticated { password_reset_required: bool },
    /// Unknown user, wrong password or inactive account.
    Rejected,
    /// The account store failed.
    BackendFailed,
}

/// The server's answer to a sign-in attempt.
#[derive(Clone, Copy, Debug, PartialEq, Eq, Structural)]
pub enum LoginReply {
    /// Signed in; the browser is sent to this page.
    Redirect(AppRoute),
    /// 401: the credentials were refused.
    InvalidCredentials,
    /// 429: too many failed attempts; sign-in is refused for a while.
    TooManyAttempts,
    /// 500: the account store failed.
    Internal,
}

impl LoginReply {
    /// The HTTP status of the reply (302 for the redirect).
    pub fn status_code(&self) -> (r: u16)
        ensures
            r == match self {
                LoginReply::Redirect(_) => 302u16,
                LoginReply::InvalidCredentials => 401u16,
                LoginReply::TooManyAttempts => 429u16,
                LoginReply::Internal => 500u16,
            },
    {
        match self {
            LoginReply::Redirect(_) => 302,
            LoginReply::InvalidCredentials => 401,
            LoginReply::TooManyAttempts => 429,
            LoginReply::Internal => 500,
        }
    }

    /// The message key of a refusal; none for the redirect.
    pub fn error_key(&self) -> (r: Option<&'static str>)
        ensures
            match self {
                LoginReply::Redirect(_) => r is None,
                LoginReply::InvalidCredentials | LoginReply::TooManyAttempts => r matches Some(k) && k@
                    == "error_invalid_credentials"@,
                LoginReply::Internal => r matches Some(k) && k@ == "error_internal"@,
            },
    {
        match self {
            LoginReply::Redirect(_) => None,
            LoginReply::InvalidCredentials => Some("error_invalid_credentials"),
            LoginReply::TooManyAttempts => Some("error_invalid_credentials"),
            LoginReply::Internal => Some("error_internal"),
        }
    }
}

impl LoginThrottle {
    /// A session without failed attempts.
    pub fn fresh() -> (r: LoginThrottle)
        ensures
            r == (LoginThrottle { fail_count: None, locked_until: None }),
    {
        LoginThrottle { fail_count: None, locked_until: None }
    }

    /// The count of consecutive failures.
    pub open spec fn failures(self) -> u32 {
        match self.fail_count {
            Some(n) => n,
            None => 0,
        }
    }

    /// The time until which sign-in is refused.
    pub open spec fn lock_end(self) -> i64 {
        match self.locked_until {
            Some(t) => t,
            None => 0,
        }
    }

    /// The session refuses sign-in at time `now`.
    pub open spec fn locked_at(self, now: i64) -> bool {
        self.lock_end() > now
    }
}

/// The session and reply after the credentials have been checked: success
/// clears the failures and the lock and sends the user on; a rejection counts
/// one more failure, and the failure that reaches the limit locks the session
/// for `LOCKOUT_SECONDS` and starts the count again; a store failure changes
/// nothing.
pub open spec fn after_authentication(t: LoginThrottle, now: i64, outcome: SignInOutcome) -> (LoginThrottle, LoginReply) {
    match outcome {
        SignInOutcome::Authenticated { password_reset_required } => (
            LoginThrottle { fail_count: Some(0), locked_until: None },
            LoginReply::Redirect(after_sign_in_route(password_reset_required)),
        ),
        SignInOutcome::Rejected => {
            let n = if t.failures() == u32::MAX {
                u32::MAX
            } else {
                (t.failures() + 1) as u32
            };
            if n >= MAX_LOGIN_ATTEMPTS {
                (
                    LoginThrottle { fail_count: Some(0), locked_until: Some((now + LOCKOUT_SECONDS) as i64) },
                    LoginReply::TooManyAttempts,
                )
            } else {
                (LoginThrottle { fail_count: Some(n), locked_until: t.locked_until }, LoginReply::InvalidCredentials)
            }
        },
        SignInOutcome::BackendFailed => (t, LoginReply::Internal),
    }
}

/// The attempt is a rejection that reaches the limit of failures, so the
/// session is locked from `now` on (the only case in which the lock's end is
/// computed).
pub open spec fn rejection_locks(t: LoginThrottle, outcome: SignInOutcome) -> bool {
    outcome is Rejected && (if t.failures() == u32::MAX {
        u32::MAX
    } else {
        (t.failures() + 1) as u32
    }) >= MAX_LOGIN_ATTEMPTS
}

/// One sign-in attempt at time `now`: a locked session is refused without
/// checking the credentials; otherwise the check's outcome decides.
pub open spec fn login_step(t: LoginThrottle, now: i64, outcome: SignInOutcome) -> (LoginThrottle, LoginReply) {
    if t.locked_at(now) {
        (t, LoginReply::TooManyAttempts)
    } else {
        after_authentication(t, now, outcome)
    }
}

/// Whether the session refuses sign-in at time `now` (the credentials are
/// then not checked at all).
pub fn login_locked(t: &LoginThrottle, now: i64) -> (r: bool)
    ensures
        r == t.locked_at(now),
{
    let until = match t.locked_until {
        Some(v) => v,
        None => 0,
    };
    until > now
}

/// The session and reply once the credentials have been checked.
pub fn record_login_outcome(t: &LoginThrottle, now: i64, outcome: SignInOutcome) -> (r: (LoginThrottle, LoginReply))
    requires
        rejection_locks(*t, outcome) ==> now <= i64::MAX - LOCKOUT_SECONDS,
    ensures
        r == after_authentication(*t, now, outcome),
{
    match outcome {
        SignInOutcome::Authenticated { password_reset_required } => (
            LoginThrottle { fail_count: Some(0), locked_until: None },
            LoginReply::Redirect(post_login_route(password_reset_required)),
        ),
        SignInOutcome::Rejected => {
            let count = match t.fail_count {
                Some(v) => v,
                None => 0,
            };
            let n = count.saturating_add(1);
            if n >= MAX_LOGIN_ATTEMPTS {
                (
                    LoginThrottle { fail_count: Some(0), locked_until: Some(now + LOCKOUT_SECONDS) },
                    LoginReply::TooManyAttempts,
                )
            } else {
                (LoginThrottle { fail_count: Some(n), locked_until: t.locked_until }, LoginReply::InvalidCredentials)
            }
        },
        SignInOutcome::BackendFailed => (*t, LoginReply::Internal),
    }
}

/// One sign-in attempt, for an outcome that is known up front.
pub fn login_user_step(t: &LoginThrottle, now: i64, outcome: SignInOutcome) -> (r: (LoginThrottle, LoginReply))
    requires
        !t.locked_at(now) && rejection_locks(*t, outcome) ==> now <= i64::MAX - LOCKOUT_SECONDS,
    ensures
        r == login_step(*t, now, outcome),
{
    if login_locked(t, now) {
        (*t, LoginReply::TooManyAttempts)
    } else {
        record_login_outcome(t, now, outcome)
    }
}

/// A locked session refuses every attempt, right or wrong, and stays as it is.
pub proof fn locked_session_refuses_sign_in(t: LoginThrottle, now: i64, outcome: SignInOutcome)
    requires
        t.locked_at(now),
    ensures
        login_step(t, now, outcome) == (t, LoginReply::TooManyAttempts),
{
}

/// Five consecutive rejected attempts on a fresh session: the first four are
/// answered 401, the fifth 429, and the session is then locked for
/// `LOCKOUT_SECONDS` from the fifth attempt.
pub proof fn fifth_rejection_locks_session(n1: i64, n2: i64, n3: i64, n4: i64, n5: i64, later: i64)
    requires
        0 <= n1 <= i64::MAX - LOCKOUT_SECONDS,
        0 <= n2 <= i64::MAX - LOCKOUT_SECONDS,
        0 <= n3 <= i64::MAX - LOCKOUT_SECONDS,
        0 <= n4 <= i64::MAX - LOCKOUT_SECONDS,
        0 <= n5 <= i64::MAX - LOCKOUT_SECONDS,
        n5 <= later < n5 + LOCKOUT_SECONDS,
    ensures
        ({
            let t0 = LoginThrottle { fail_count: None, locked_until: None };
            let (t1, r1) = login_step(t0, n1, SignInOutcome::Rejected);
            let (t2, r2) = login_step(t1, n2, SignInOutcome::Rejected);
            let (t3, r3) = login_step(t2, n3, SignInOutcome::Rejected);
            let (t4, r4) = login_step(t3, n4, SignInOutcome::Rejected);
            let (t5, r5) = login_step(t4, n5, SignInOutcome::Rejected);
            &&& r1 == LoginReply::InvalidCredentials
            &&& r2 == LoginReply::InvalidCredentials
            &&& r3 == LoginReply::InvalidCredentials
            &&& r4 == LoginReply::InvalidCredentials
            &&& r5 == LoginReply::TooManyAttempts
            &&& t5.locked_until == Some((n5 + LOCKOUT_SECONDS) as i64)
            &&& t5.locked_at(later)
        }),
{
}

/// A rejected attempt on an unlocked session, whatever locks it had before:
/// the attempt that brings the consecutive failures to the limit locks the
/// session for `LOCKOUT_SECONDS` from now, answers 429 and starts the count
/// again; an earlier attempt counts one more failure, keeps the lock's end and
/// answers 401.
pub proof fn rejection_counts_and_locks_at_limit(t: LoginThrottle, now: i64)
    requires
        !t.locked_at(now),
        now <= i64::MAX - LOCKOUT_SECONDS,
    ensures
        t.failures() + 1 >= MAX_LOGIN_ATTEMPTS ==> login_step(t, now, SignInOutcome::Rejected) == (
            LoginThrottle { fail_count: Some(0), locked_until: Some((now + LOCKOUT_SECONDS) as i64) },
            LoginReply::TooManyAttempts,
        ),
        t.failures() + 1 < MAX_LOGIN_ATTEMPTS ==> login_step(t, now, SignInOutcome::Rejected) == (
            LoginThrottle { fail_count: Some((t.failures() + 1) as u32), locked_until: t.locked_until },
            LoginReply::InvalidCredentials,
        ),
        t.failures() + 1 >= MAX_LOGIN_ATTEMPTS ==> login_step(t, now, SignInOutcome::Rejected).0.locked_at(now),
{
}

/// A successful sign-in on an unlocked session clears the failure count and
/// the lock, and sends the user to the page for their reset state.
pub proof fn sign_in_clears_failures(t: LoginThrottle, now: i64, password_reset_required: bool)
    requires
        !t.locked_at(now),
    ensures
        login_step(t, now, SignInOutcome::Authenticated { password_reset_required }) == (
            LoginThrottle { fail_count: Some(0), locked_until: None },
            LoginReply::Redirect(after_sign_in_route(password_reset_required)),
        ),
{
}

/// A lock ends at its end time: from then on the session checks credentials
/// again.
pub proof fn lock_expires(t: LoginThrottle, now: i64)
    requires
        t.lock_end() <= now,
    ensures
        !t.locked_at(now),
        login_step(t, now, SignInOutcome::Rejected) == after_authentication(t, now, SignInOutcome::Rejected),
{
}

/// The message key that the sign-in page shows for a server error text: the
/// first of these rules that matches, comparing the lower-cased text by
/// substring, and `error_internal` when none does.
pub open spec fn login_error_key(raw: Seq<char>) -> Seq<char> {
    let lower = lowercase_text(raw);
    if raw == "error_invalid_credentials"@ || has_infix(lower, "invalid credentials"@) {
        "error_invalid_credentials"@
    } else if raw == "error_missing_csrf"@ || has_infix(lower, "csrf"@) {
        "error_missing_csrf"@
    } else if raw == "error_security_token"@ || has_infix(lower, "security token"@) {
        "error_security_token"@
    } else if raw == "error_session"@ || has_infix(lower, "session error"@) {
        "error_session"@
    } else if raw == "error_session_refresh_failed"@ || has_infix(lower, "session refresh failed"@) {
        "error_session_refresh_failed"@
    } else if raw == "error_passkey_failed"@ || has_infix(lower, "passkey"@) {
        "error_passkey_failed"@
    } else if raw == "error_passkey_session_refresh_failed"@ || has_infix(
        lower,
        "passkey login succeeded but session refresh failed"@,
    ) {
        "error_passkey_session_refresh_failed"@
    } else if raw == "error_unsupported_target"@ || has_infix(lower, "requires hydrate"@) {
        "error_unsupported_target"@
    } else {
        "error_internal"@
    }
}

/// The message key for a server error text shown on the sign-in page.
pub fn normalize_login_error_key(raw: &str) -> (r: &'static str)
    ensures
        r@ == login_error_key(raw@),
{
    let lower = to_lowercase(raw);
    let l = lower.as_str();
    if same_text(raw, "error_invalid_credentials") || contains_text(l, "invalid credentials") {
        return "error_invalid_credentials";
    }
    if same_text(raw, "error_missing_csrf") || contains_text(l, "csrf") {
        return "error_missing_csrf";
    }
    if same_text(raw, "error_security_token") || contains_text(l, "security token") {
        return "error_security_token";
    }
    if same_text(raw, "error_session") || contains_text(l, "session error") {
        return "error_session";
    }
    if same_text(raw, "error_session_refresh_failed") || contains_text(l, "session refresh failed") {
        return "error_session_refresh_failed";
    }
    if same_text(raw, "error_passkey_failed") || contains_text(l, "passkey") {
        return "error_passkey_failed";
    }
    if same_text(raw, "error_passkey_session_refresh_failed") || contains_text(
        l,
        "passkey login succeeded but session refresh failed",
    ) {
        return "error_passkey_session_refresh_failed";
    }
    if same_text(raw, "error_unsupported_target") || contains_text(l, "requires hydrate") {
        return "error_unsupported_target";
    }
    "error_internal"
}

/// The keys that the sign-in page shows a message for.
pub open spec fn is_login_error_key(k: Seq<char>) -> bool {
    ||| k == "error_invalid_credentials"@
    ||| k == "error_missing_csrf"@
    ||| k == "error_security_token"@
    ||| k == "error_session"@
    ||| k == "error_session_refresh_failed"@
    ||| k == "error_passkey_failed"@
    ||| k == "error_unsupported_target"@
    ||| k == "error_internal"@
}

proof fn lemma_lower_word(k: Seq<char>)
    requires
        forall|i: int| 0 <= i < k.len() ==> ('a' <= #[trigger] k[i] && k[i] <= 'z') || k[i] == '_',
    ensures
        lowercase_text(k) == k,
{
    assert(is_ascii_chars(k));
    assert(ascii_lowercase_text(k) =~= k);
}

proof fn lemma_no_infix_without_char(hay: Seq<char>, needle: Seq<char>, c: char)
    requires
        needle.contains(c),
        !hay.contains(c),
    ensures
        !has_infix(hay, needle),
{
    if has_infix(hay, needle) {
        let i = choose|i: int| 0 <= i && i + needle.len() <= hay.len() && #[trigger] hay.subrange(i, i + needle.len()) == needle;
        let j = choose|j: int| 0 <= j < needle.len() && needle[j] == c;
        assert(hay.subrange(i, i + needle.len())[j] == hay[i + j]);
        assert(hay.contains(hay[i + j]));
    }
}

proof fn lemma_infix_of_prefix(hay: Seq<char>, needle: Seq<char>, m: Seq<char>)
    requires
        has_infix(hay, needle),
        m.len() <= needle.len(),
        needle.take(m.len() as int) == m,
    ensures
        has_infix(hay, m),
{
    let i = choose|i: int| 0 <= i && i + needle.len() <= hay.len() && #[trigger] hay.subrange(i, i + needle.len()) == needle;
    assert(hay.subrange(i, i + m.len()) =~= needle.take(m.len() as int));
}

/// Each key that the sign-in page shows a message for maps to itself.
pub proof fn known_login_error_keys_are_fixed(k: Seq<char>)
    requires
        is_login_error_key(k),
    ensures
        login_error_key(k) == k,
{
    reveal_strlit("error_invalid_credentials");
    reveal_strlit("error_missing_csrf");
    reveal_strlit("error_security_token");
    reveal_strlit("error_session");
    reveal_strlit("error_session_refresh_failed");
    reveal_strlit("error_passkey_failed");
    reveal_strlit("error_passkey_session_refresh_failed");
    reveal_strlit("error_unsupported_target");
    reveal_strlit("error_internal");
    reveal_strlit("invalid credentials");
    reveal_strlit("csrf");
    reveal_strlit("security token");
    reveal_strlit("session error");
    reveal_strlit("session refresh failed");
    reveal_strlit("passkey");
    reveal_strlit("passkey login succeeded but session refresh failed");
    reveal_strlit("requires hydrate");
    lemma_lower_word(k);
    assert(!k.contains(' '));
    assert("invalid credentials"@.contains(' ')) by { assert("invalid credentials"@[7] == ' '); }
    assert("security token"@.contains(' ')) by { assert("security token"@[8] == ' '); }
    assert("session error"@.contains(' ')) by { assert("session error"@[7] == ' '); }
    assert("session refresh failed"@.contains(' ')) by { assert("session refresh failed"@[7] == ' '); }
    assert("passkey login succeeded but session refresh failed"@.contains(' ')) by {
        assert("passkey login succeeded but session refresh failed"@[7] == ' ');
    }
    assert("requires hydrate"@.contains(' ')) by { assert("requires hydrate"@[8] == ' '); }
    lemma_no_infix_without_char(k, "invalid credentials"@, ' ');
    lemma_no_infix_without_char(k, "security token"@, ' ');
    lemma_no_infix_without_char(k, "session error"@, ' ');
    lemma_no_infix_without_char(k, "session refresh failed"@, ' ');
    lemma_no_infix_without_char(k, "passkey login succeeded but session refresh failed"@, ' ');
    lemma_no_infix_without_char(k, "requires hydrate"@, ' ');
    assert("csrf"@.contains('c') && "csrf"@.contains('f')) by {
        assert("csrf"@[0] == 'c');
        assert("csrf"@[3] == 'f');
    }
    assert("passkey"@.contains('k')) by { assert("passkey"@[4] == 'k'); }
    if k == "error_security_token"@ {
        assert(!k.contains('f'));
        lemma_no_infix_without_char(k, "csrf"@, 'f');
        assert(k[6] != "error_invalid_credentials"@[6]);
    } else if k != "error_invalid_credentials"@ && k != "error_missing_csrf"@ {
        assert(!k.contains('c'));
        lemma_no_infix_without_char(k, "csrf"@, 'c');
        if k == "error_unsupported_target"@ || k == "error_internal"@ {
            assert(!k.contains('k'));
            lemma_no_infix_without_char(k, "passkey"@, 'k');
        }
    }
}

/// The sign-in page's message key is always one of the keys it shows a
/// message for; the passkey-refresh key is never chosen, since its text
/// names a passkey, which an earlier rule catches.
pub proof fn login_error_key_is_known(raw: Seq<char>)
    ensures
        is_login_error_key(login_error_key(raw)),
{
    reveal_strlit("error_invalid_credentials");
    reveal_strlit("error_missing_csrf");
    reveal_strlit("error_security_token");
    reveal_strlit("error_session");
    reveal_strlit("error_session_refresh_failed");
    reveal_strlit("error_passkey_failed");
    reveal_strlit("error_passkey_session_refresh_failed");
    reveal_strlit("error_unsupported_target");
    reveal_strlit("error_internal");
    reveal_strlit("invalid credentials");
    reveal_strlit("csrf");
    reveal_strlit("security token");
    reveal_strlit("session error");
    reveal_strlit("session refresh failed");
    reveal_strlit("passkey");
    reveal_strlit("passkey login succeeded but session refresh failed");
    reveal_strlit("requires hydrate");
    let lower = lowercase_text(raw);
    if raw == "error_passkey_session_refresh_failed"@ {
        lemma_lower_word(raw);
        assert(lower.subrange(6, 6 + "passkey"@.len() as int) =~= "passkey"@);
        assert(has_infix(lower, "passkey"@));
    }
    if has_infix(lower, "passkey login succeeded but session refresh failed"@) {
        assert("passkey login succeeded but session refresh failed"@.take(7) =~= "passkey"@);
        lemma_infix_of_prefix(lower, "passkey login succeeded but session refresh failed"@, "passkey"@);
    }
    assert(raw == "error_passkey_session_refresh_failed"@ || has_infix(
        lower,
        "passkey login succeeded but session refresh failed"@,
    ) ==> has_infix(lower, "passkey"@));
    assert("error_passkey_session_refresh_failed"@.len() == 36);
    assert("error_passkey_failed"@.len() == 20);
    assert("error_session_refresh_failed"@.len() == 28);
    assert(login_error_key(raw) != "error_passkey_session_refresh_failed"@);
}

/// Mapping an error text to its key a second time changes nothing.
pub proof fn login_error_key_is_idempotent(raw: Seq<char>)
    ensures
        login_error_key(login_error_key(raw)) == login_error_key(raw),
{
    login_error_key_is_known(raw);
    known_login_error_keys_are_fixed(login_error_key(raw));
}

/// Whether the user of a refreshed auth snapshot must change their password
/// (no user counts as no).
pub open spec fn snapshot_requires_reset(snap: AuthSnapshot) -> bool {
    match snap.user {
        Some(u) => u.password_reset_required,
        None => false,
    }
}

/// Where the sign-in page goes once a sign-in succeeded and the auth snapshot
/// was fetched again: the password page when a reset is pending, the
/// protected page otherwise; nowhere when the snapshot could not be fetched.
pub fn sign_in_destination(snapshot: Option<&AuthSnapshot>) -> (r: Option<AppRoute>)
    ensures
        r == match snapshot {
            Some(snap) => Some(after_sign_in_route(snapshot_requires_reset(*snap))),
            None => None::<AppRoute>,
        },
{
    match snapshot {
        Some(snap) => {
            let reset = match &snap.user {
                Some(u) => u.password_reset_required,
                None => false,
            };
            Some(post_login_route(reset))
        },
        None => None,
    }
}

/// The state of the sign-in form: whether a password or a passkey sign-in is
/// under way, and the passkey error shown (a message key or a server text).
pub struct SignInForm {
    pub password_pending: bool,
    pub passkey_pending: bool,
    pub passkey_error: Option<String>,
}

/// How a passkey sign-in ended.
pub enum PasskeyOutcome {
    /// The ceremony or the server refused; the error text is shown.
    Failed(String),
    /// The user is signed in; the auth snapshot fetched afterwards, or none
    /// when it could not be fetched.
    SignedIn(Option<AuthSnapshot>),
}

impl SignInForm {
    /// Whether the sign-in buttons can be used: a CSRF token is ready and no
    /// sign-in is under way.
    pub fn buttons_enabled(&self, has_csrf: bool) -> (r: bool)
        ensures
            r == (has_csrf && !self.password_pending && !self.passkey_pending),
    {
        has_csrf && !self.password_pending && !self.passkey_pending
    }

    /// Starts a passkey sign-in: ignored (`false`) while one is under way or
    /// without a CSRF token; otherwise it is under way and its error cleared.
    pub fn start_passkey(&mut self, has_csrf: bool) -> (r: bool)
        ensures
            r == (!old(self).passkey_pending && has_csrf),
            final(self).password_pending == old(self).password_pending,
            r ==> final(self).passkey_pending && final(self).passkey_error is None,
            !r ==> final(self).passkey_pending == old(self).passkey_pending && final(self).passkey_error
                == old(self).passkey_error,
    {
        if self.passkey_pending || !has_csrf {
            return false;
        }
        self.passkey_pending = true;
        self.passkey_error = None;
        true
    }

    /// Ends a passkey sign-in: it is no longer under way. A refusal shows its
    /// error text; a sign-in whose snapshot could not be fetched shows
    /// `error_passkey_session_refresh_failed`; otherwise the page goes where
    /// `sign_in_destination` says.
    pub fn finish_passkey(&mut self, outcome: PasskeyOutcome) -> (r: Option<AppRoute>)
        ensures
            !final(self).passkey_pending,
            final(self).password_pending == old(self).password_pending,
            match outcome {
                PasskeyOutcome::Failed(e) => r is None && final(self).passkey_error == Some(e),
                PasskeyOutcome::SignedIn(None) => r is None && (final(self).passkey_error matches Some(m) && m@
                    == "error_passkey_session_refresh_failed"@),
                PasskeyOutcome::SignedIn(Some(snap)) => r == Some(after_sign_in_route(snapshot_requires_reset(snap)))
                    && final(self).passkey_error == old(self).passkey_error,
            },
    {
        let r = match outcome {
            PasskeyOutcome::Failed(e) => {
                self.passkey_error = Some(e);
                None
            },
            PasskeyOutcome::SignedIn(None) => {
                self.passkey_error = Some(String::from_str("error_passkey_session_refresh_failed"));
                None
            },
            PasskeyOutcome::SignedIn(Some(snap)) => sign_in_destination(Some(&snap)),
        };
        self.passkey_pending = false;
        r
    }
}

} // verus!
