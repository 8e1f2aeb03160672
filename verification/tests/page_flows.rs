use auth_template::account::{
    new_credential_row, passkey_failure_message, passkey_sign_in_check, take_discoverable_state, webauthn_user_handle,
    AccountError, AccountProfileDto, PasswordPage, PasswordSubmit, ProfilePage, ProfileSubmit, RegistrationSlot,
};
use auth_template::admin::{admin_user_row, check_card_form, AdminError, AdminUserRow};
use auth_template::auth::{derive_session_auth_hash, User, UserRecord};
use auth_template::auth_state::{AppRoute, AuthSnapshot, UserSummary};
use auth_template::csrf::CsrfSession;
use auth_template::demo::{add_two, admin_add_two, DemoError};
use auth_template::login::{
    login_user_step, normalize_login_error_key, sign_in_destination, LoginReply, LoginThrottle, PasskeyOutcome,
    SignInForm, SignInOutcome,
};
use auth_template::paths::{lp, Locale};
use auth_template::roles::{PermissionSet, Role, RoleSet};
use auth_template::user_cards::{finish_deletion, start_deletion, DeletionStart, PendingActions, UserCards};

fn rec(id: i64, status: &str, reset: bool, handle: Option<&str>) -> UserRecord {
    UserRecord {
        id,
        username: format!("u{id}"),
        first_name: String::new(),
        last_name: String::new(),
        email: format!("u{id}@x.io"),
        password_hash: "h".to_string(),
        status: status.to_string(),
        password_reset_required: reset,
        webauthn_user_handle: handle.map(|h| h.to_string()),
    }
}

fn row(id: i64) -> AdminUserRow {
    admin_user_row(rec(id, "active", false, None), vec!["user".to_string()], String::new(), String::new())
}

fn ids(cards: &UserCards) -> Vec<i64> {
    cards.as_slice().iter().map(|r| r.id).collect()
}

fn page(new_pw: &str, confirm: &str) -> PasswordPage {
    PasswordPage {
        current_password: "old".to_string(),
        new_password: new_pw.to_string(),
        confirm_password: confirm.to_string(),
        pending: false,
        error: None,
        success: None,
    }
}

#[test]
fn passkey_sign_in_refusals_and_statuses() {
    let mut slot: Option<u8> = None;
    assert_eq!(take_discoverable_state(&mut slot), Err(AccountError::MissingDiscoverableAuthState));
    let mut slot = Some(7u8);
    assert_eq!(take_discoverable_state(&mut slot), Ok(7));
    assert_eq!(slot, None);
    assert_eq!(AccountError::MissingDiscoverableAuthState.passkey_sign_in_status(), Some(400));
    assert_eq!(AccountError::InvalidCredentials.passkey_sign_in_status(), Some(401));
    assert_eq!(AccountError::UnknownUserForDiscoverableCredential.passkey_sign_in_status(), Some(401));
    assert_eq!(AccountError::NoPasskeysRegisteredForUser.passkey_sign_in_status(), Some(401));
    assert_eq!(AccountError::SessionError.passkey_sign_in_status(), None);
    assert_eq!(AccountError::MissingDiscoverableAuthState.code(), "err_missing_discoverable_auth_state");
    assert_eq!(AccountError::MissingRegistrationState.code(), "err_missing_registration_state");
    assert_eq!(AccountError::SessionError.code(), "err_session_error");
    assert!(matches!(passkey_sign_in_check(false, Some(rec(1, "active", false, None)), 1), Err(AccountError::MissingDiscoverableAuthState)));
    assert!(matches!(passkey_sign_in_check(true, Some(rec(1, "disabled", false, None)), 1), Err(AccountError::InvalidCredentials)));
    assert!(passkey_sign_in_check(true, Some(rec(1, " Active ", false, None)), 1).is_ok());
}

#[test]
fn passkey_registration_finish() {
    let mut empty: RegistrationSlot<u8> = RegistrationSlot { state: None, name: Some("Laptop".to_string()) };
    assert!(matches!(empty.take(), Err(AccountError::MissingRegistrationState)));
    assert_eq!(empty.name, Some("Laptop".to_string()));
    let mut slot = RegistrationSlot { state: Some(3u8), name: Some("Laptop".to_string()) };
    match slot.take() {
        Ok((s, n)) => {
            assert_eq!(s, 3);
            assert_eq!(n, "Laptop");
        },
        Err(e) => panic!("refused: {}", e.code()),
    }
    assert!(slot.state.is_none() && slot.name.is_none());
    let mut unnamed = RegistrationSlot { state: Some(1u8), name: None };
    assert_eq!(unnamed.take().ok().map(|(_, n)| n), Some("Passkey".to_string()));
    let row = new_credential_row(9, "Laptop".to_string(), &[0xfb, 0xff], "{}".to_string());
    assert_eq!(row.user_id, 9);
    assert_eq!(row.credential_id, "-_8");
    assert_eq!(row.sign_count, 0);
    assert_eq!(row.name, "Laptop");
    assert_eq!(row.passkey_json, "{}");
}

#[test]
fn uuid_forms_accepted_as_user_handles() {
    let ok = [
        "936da01f9abd4d9d80c702af85c822a8",
        "936DA01F-9ABD-4D9D-80C7-02AF85C822A8",
        "{936da01f-9abd-4d9d-80c7-02af85c822a8}",
        "URN:uuid:936da01f-9abd-4d9d-80c7-02af85c822a8",
    ];
    for h in ok {
        assert_eq!(webauthn_user_handle(&rec(1, "active", false, Some(h))), Ok(h.to_string()));
    }
    let bad = ["936da01f-9abd-4d9d-80c7-02af85c822a", "936da01g9abd4d9d80c702af85c822a8", "(936da01f-9abd-4d9d-80c7-02af85c822a8)"];
    for h in bad {
        assert_eq!(webauthn_user_handle(&rec(1, "active", false, Some(h))), Err(AccountError::InvalidWebauthnUserHandle));
    }
}

#[test]
fn password_page_steps() {
    let mut p = page("0123456789", "0123456789");
    assert_eq!(p.submit(false), PasswordSubmit::Refused);
    assert_eq!(p.error, Some("error_missing_csrf"));
    let mut p = page("0123456789", "012345678x");
    assert_eq!(p.submit(true), PasswordSubmit::Refused);
    assert_eq!(p.error, Some("error_password_mismatch"));
    let mut p = page("short", "short");
    assert_eq!(p.submit(true), PasswordSubmit::Refused);
    assert_eq!(p.error, Some("error_password_too_short"));
    let mut p = page("0123456789", "0123456789");
    assert_eq!(p.submit(true), PasswordSubmit::Send);
    assert!(p.pending);
    assert_eq!(p.submit(true), PasswordSubmit::Ignored);
    assert!(p.finish(Ok(())));
    assert!(!p.pending);
    assert_eq!(p.current_password, "");
    assert_eq!(p.new_password, "");
    assert_eq!(p.confirm_password, "");
    assert_eq!(p.success, Some("success_password_updated"));
    let mut p = page("0123456789", "0123456789");
    p.submit(true);
    assert!(!p.finish(Err("err_current_password_incorrect".to_string())));
    assert_eq!(p.error, Some("error_current_password_incorrect"));
    assert_eq!(p.new_password, "0123456789");
    p.submit(true);
    p.finish(Err("boom".to_string()));
    assert_eq!(p.error, Some("error_unknown"));
}

#[test]
fn passkey_failure_text() {
    assert_eq!(passkey_failure_message("Registration failed", "No window"), "Registration failed: No window");
}

#[test]
fn deletion_steps() {
    let mut cards = UserCards::from_results(vec![row(3), row(1), row(2)]);
    let mut pending = PendingActions::new();
    assert!(matches!(start_deletion(&mut cards, &mut pending, 2, false), DeletionStart::MissingCsrf));
    assert!(matches!(start_deletion(&mut cards, &mut pending, 9, true), DeletionStart::Ignored));
    let removed = match start_deletion(&mut cards, &mut pending, 2, true) {
        DeletionStart::Started(r) => r,
        _ => panic!("the deletion should start"),
    };
    assert_eq!(ids(&cards), vec![1, 3]);
    assert!(pending.is_pending_row(2));
    assert!(matches!(start_deletion(&mut cards, &mut pending, 2, true), DeletionStart::Ignored));
    let (ok, msg) = finish_deletion(&mut cards, &mut pending, 2, removed, Err("err_internal".to_string()));
    assert!(!ok);
    assert_eq!(msg, "err_internal");
    assert_eq!(ids(&cards), vec![1, 2, 3]);
    assert!(!pending.is_pending_row(2));
    let removed = match start_deletion(&mut cards, &mut pending, 1, true) {
        DeletionStart::Started(r) => r,
        _ => panic!("the deletion should start"),
    };
    let (ok, msg) = finish_deletion(&mut cards, &mut pending, 1, removed, Ok(()));
    assert!(ok);
    assert_eq!(msg, "msg_user_deleted");
    assert_eq!(ids(&cards), vec![2, 3]);
}

#[test]
fn user_debug_text_hides_hashes() {
    let u = User {
        id: 42,
        username: "alice".to_string(),
        password_hash: "$argon2id$secret".to_string(),
        status: "active".to_string(),
        password_reset_required: false,
        session_auth_hash: "derived-secret".to_string(),
        roles: RoleSet { user: true, admin: true, staff: false },
        permissions: PermissionSet::from_names(vec!["staff.read".to_string(), "admin.read".to_string()]),
    };
    let t = u.debug_text();
    assert_eq!(
        t,
        "User { id: 42, username: \"alice\", password_hash: \"[redacted]\", status: \"active\", password_reset_required: false, session_auth_hash: \"[derived]\", roles: {Admin, User}, permissions: {Permission(\"admin.read\"), Permission(\"staff.read\")} }"
    );
    assert!(!t.contains("secret"));
    let v = User {
        id: 0,
        username: "a\"b".to_string(),
        password_hash: String::new(),
        status: String::new(),
        password_reset_required: true,
        session_auth_hash: String::new(),
        roles: RoleSet::single(Role::Staff),
        permissions: PermissionSet::new(),
    };
    assert_eq!(
        v.debug_text(),
        "User { id: 0, username: \"a\\\"b\", password_hash: \"[redacted]\", status: \"\", password_reset_required: true, session_auth_hash: \"[derived]\", roles: {Staff}, permissions: {} }"
    );
}

#[test]
fn fresh_tokens_are_base64_of_32_bytes() {
    let mut s = CsrfSession { token: None };
    let t = s.get_token();
    assert_eq!(t.token.len(), 43);
    assert!(t.token.chars().all(|c| c.is_ascii_alphanumeric() || c == '-' || c == '_'));
    let r = s.rotate();
    assert_eq!(r.token.len(), 43);
    assert_eq!(s.require(&r.token), Ok(()));
}

#[test]
fn locked_session_at_the_end_of_time() {
    let t = LoginThrottle { fail_count: Some(4), locked_until: Some(i64::MAX) };
    let (t2, reply) = login_user_step(&t, i64::MAX - 1, SignInOutcome::Rejected);
    assert_eq!(reply, LoginReply::TooManyAttempts);
    assert_eq!(t2, t);
}

#[test]
fn login_error_keys_are_stable() {
    for raw in ["Invalid credentials!", "CSRF", "x", "passkey", "error_session", "requires hydrate"] {
        let k = normalize_login_error_key(raw);
        assert_eq!(normalize_login_error_key(k), k);
    }
    assert_eq!(normalize_login_error_key("error_passkey_session_refresh_failed"), "error_passkey_failed");
}

fn strs(xs: &[&str]) -> Vec<String> {
    xs.iter().map(|x| x.to_string()).collect()
}

fn plain_user(admin: bool) -> User {
    User {
        id: 3,
        username: "u".to_string(),
        password_hash: "h".to_string(),
        status: "active".to_string(),
        password_reset_required: false,
        session_auth_hash: "h".to_string(),
        roles: RoleSet { user: !admin, admin, staff: false },
        permissions: PermissionSet::new(),
    }
}

fn snapshot(reset: Option<bool>) -> AuthSnapshot {
    AuthSnapshot {
        user: reset.map(|r| UserSummary {
            id: 1,
            username: "u".to_string(),
            roles: RoleSet { user: true, admin: false, staff: false },
            password_reset_required: r,
        }),
        permissions: PermissionSet::new(),
    }
}

fn profile(first: &str) -> AccountProfileDto {
    AccountProfileDto {
        username: "bob".to_string(),
        first_name: first.to_string(),
        last_name: "B".to_string(),
        email: "b@x.io".to_string(),
    }
}

#[test]
fn card_form_trims_the_status() {
    let roles = strs(&["user"]);
    assert_eq!(check_card_form("bob", "b@x", " active ", &roles), Ok(()));
    assert_eq!(check_card_form("bob", "b@x", "\tdisabled\n", &roles), Ok(()));
    assert_eq!(check_card_form("bob", "b@x", " Active ", &roles), Err(AdminError::InvalidStatus));
    assert_eq!(check_card_form("bob", "b@x", "active", &strs(&["x"])), Err(AdminError::RolesRequired));
}

#[test]
fn refusals_come_before_the_sum() {
    assert_eq!(add_two(None, i32::MAX, 1), Err(DemoError::NotAuthenticated));
    assert_eq!(admin_add_two(None, i32::MAX, 1), Err(DemoError::NotAuthenticated));
    assert_eq!(admin_add_two(Some(&plain_user(false)), i32::MAX, 1), Err(DemoError::Forbidden));
    assert_eq!(add_two(Some(&plain_user(false)), i32::MAX, 0), Ok(i32::MAX));
    assert_eq!(admin_add_two(Some(&plain_user(true)), i32::MIN, 0), Ok(i32::MIN));
}

#[test]
fn role_change_changes_session_hash() {
    let perms = PermissionSet::new();
    let a = derive_session_auth_hash("h", "active", false, &RoleSet { user: true, admin: false, staff: false }, &perms);
    let b = derive_session_auth_hash("h", "active", false, &RoleSet { user: true, admin: true, staff: false }, &perms);
    let c = derive_session_auth_hash("h", "active", false, &RoleSet { user: false, admin: false, staff: true }, &perms);
    assert_ne!(a, b);
    assert_ne!(a, c);
    assert_ne!(b, c);
}

#[test]
fn localized_links_ignore_slashes_and_white_space() {
    for l in [Locale::De, Locale::En] {
        assert_eq!(lp(l, "/account"), lp(l, "account"));
        assert_eq!(lp(l, "//account"), lp(l, "account"));
        assert_eq!(lp(l, " \t account \n"), lp(l, "account"));
        assert_eq!(lp(l, "\u{2003}/x\u{a0}"), lp(l, "/x"));
    }
    assert_eq!(lp(Locale::En, "///account"), "/en/account");
}

#[test]
fn profile_page_steps() {
    let mut p = ProfilePage {
        username: String::new(),
        first_name: String::new(),
        last_name: String::new(),
        email: String::new(),
        pending: false,
        loaded: false,
        error: None,
        success: None,
    };
    assert!(!p.should_load(false, true));
    assert!(!p.should_load(true, false));
    assert!(p.should_load(true, true));
    assert!(p.start_load());
    assert!(!p.start_load());
    assert!(!p.should_load(true, true));
    p.finish_load(Ok(profile("Bo")));
    assert!(p.loaded && !p.pending);
    assert_eq!(p.first_name, "Bo");
    assert!(!p.should_load(true, true));

    assert_eq!(p.submit(false), ProfileSubmit::Refused);
    assert_eq!(p.error, Some("error_missing_csrf"));
    assert_eq!(p.submit(true), ProfileSubmit::Send);
    assert!(p.pending && p.error.is_none());
    assert_eq!(p.submit(true), ProfileSubmit::Ignored);
    assert!(!p.finish_save(Err("err_email_taken".to_string())));
    assert_eq!(p.error, Some("error_email_taken"));
    assert!(!p.pending);
    assert_eq!(p.submit(true), ProfileSubmit::Send);
    assert!(p.finish_save(Ok(profile("Bob"))));
    assert_eq!(p.first_name, "Bob");
    assert_eq!(p.success, Some("success_profile_updated"));
    assert!(p.error.is_none());

    let mut q = ProfilePage {
        username: String::new(),
        first_name: String::new(),
        last_name: String::new(),
        email: String::new(),
        pending: false,
        loaded: false,
        error: None,
        success: None,
    };
    assert!(q.start_load());
    q.finish_load(Err("boom".to_string()));
    assert_eq!(q.error, Some("error_unknown"));
    assert!(!q.loaded && !q.pending);
}

#[test]
fn sign_in_form_guards() {
    let mut f = SignInForm { password_pending: false, passkey_pending: false, passkey_error: None };
    assert!(!f.buttons_enabled(false));
    assert!(f.buttons_enabled(true));
    assert!(!f.start_passkey(false));
    assert!(!f.passkey_pending);
    assert!(f.start_passkey(true));
    assert!(!f.buttons_enabled(true));
    assert!(!f.start_passkey(true));
    assert_eq!(f.finish_passkey(PasskeyOutcome::Failed("err_invalid_credentials".to_string())), None);
    assert_eq!(f.passkey_error, Some("err_invalid_credentials".to_string()));
    assert!(f.start_passkey(true));
    assert!(f.passkey_error.is_none());
    assert_eq!(f.finish_passkey(PasskeyOutcome::SignedIn(None)), None);
    assert_eq!(f.passkey_error, Some("error_passkey_session_refresh_failed".to_string()));
    assert!(f.start_passkey(true));
    assert_eq!(f.finish_passkey(PasskeyOutcome::SignedIn(Some(snapshot(Some(true))))), Some(AppRoute::AccountPassword));
    assert!(f.start_passkey(true));
    assert_eq!(f.finish_passkey(PasskeyOutcome::SignedIn(Some(snapshot(Some(false))))), Some(AppRoute::Protected));
    assert!(!f.passkey_pending);

    f.password_pending = true;
    assert!(!f.buttons_enabled(true));

    assert_eq!(sign_in_destination(None), None);
    assert_eq!(sign_in_destination(Some(&snapshot(None))), Some(AppRoute::Protected));
    assert_eq!(sign_in_destination(Some(&snapshot(Some(true)))), Some(AppRoute::AccountPassword));
}
