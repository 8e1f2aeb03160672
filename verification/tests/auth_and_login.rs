use auth_template::auth::{
    admit_account, authenticate_record, build_user, derive_session_auth_hash, join_strings, passkey_login_allowed,
    status_is_active, user_id_for_lookup, BackendError, UserRecord,
};
use auth_template::auth_state::AppRoute;
use auth_template::login::{
    login_locked, login_user_step, normalize_login_error_key, record_login_outcome, LoginReply, LoginThrottle,
    SignInOutcome, LOCKOUT_SECONDS, MAX_LOGIN_ATTEMPTS,
};
use auth_template::roles::{PermissionSet, RoleSet};

fn strings(v: &[&str]) -> Vec<String> {
    v.iter().map(|s| s.to_string()).collect()
}

fn record(status: &str, hash: &str, reset: bool) -> UserRecord {
    UserRecord {
        id: 3,
        username: "alice".to_string(),
        first_name: "Alice".to_string(),
        last_name: String::new(),
        email: "alice@example.org".to_string(),
        password_hash: hash.to_string(),
        status: status.to_string(),
        password_reset_required: reset,
        webauthn_user_handle: None,
    }
}

#[test]
fn joining_strings() {
    assert_eq!(join_strings(&strings(&["a", "b", "c"]), ","), "a,b,c");
    assert_eq!(join_strings(&strings(&[]), ","), "");
    assert_eq!(join_strings(&strings(&["x"]), ", "), "x");
}

#[test]
fn session_auth_hash_holds_the_policy_fields() {
    let roles = RoleSet { user: true, admin: true, staff: false };
    let perms = PermissionSet::from_names(strings(&["staff.read", "admin.read"]));
    assert_eq!(
        derive_session_auth_hash("$argon2$x", " Active ", true, &roles, &perms),
        "$argon2$x|status=active|password_reset_required=true|roles=admin,user|permissions=admin.read,staff.read"
    );
    let none = PermissionSet::new();
    assert_eq!(
        derive_session_auth_hash("h", "disabled", false, &RoleSet::empty(), &none),
        "h|status=disabled|password_reset_required=false|roles=|permissions="
    );
}

#[test]
fn session_hash_changes_with_the_reset_flag() {
    let roles = RoleSet::empty();
    let perms = PermissionSet::new();
    assert_ne!(
        derive_session_auth_hash("h", "active", true, &roles, &perms),
        derive_session_auth_hash("h", "active", false, &roles, &perms)
    );
}

#[test]
fn building_the_signed_in_user() {
    let u = build_user(
        record("active", "hash", false),
        strings(&["Admin", "user"]),
        strings(&["admin.read", "admin.read"]),
    );
    assert_eq!(u.id(), 3);
    assert_eq!(u.username, "alice");
    assert_eq!(u.roles, RoleSet { user: true, admin: true, staff: false });
    assert_eq!(u.permissions.names(), strings(&["admin.read"]));
    assert_eq!(
        u.session_auth_hash(),
        "hash|status=active|password_reset_required=false|roles=admin,user|permissions=admin.read"
    );
}

#[test]
fn active_status() {
    assert!(status_is_active("active"));
    assert!(status_is_active("  ACTIVE "));
    assert!(!status_is_active("disabled"));
    assert!(!status_is_active(""));
}

#[test]
fn password_sign_in_checks_hash_and_status() {
    let hash = password_auth::generate_hash("s3cret-password");
    let active = record("active", &hash, false);
    assert!(authenticate_record(Some(active.clone()), "s3cret-password").is_some());
    assert!(authenticate_record(Some(active.clone()), "wrong").is_none());
    assert!(authenticate_record(Some(record("disabled", &hash, false)), "s3cret-password").is_none());
    assert!(authenticate_record(None, "s3cret-password").is_none());
    assert!(admit_account(active.clone(), true).is_some());
    assert!(admit_account(active, false).is_none());
    assert!(admit_account(record("disabled", "h", false), true).is_none());
}

#[test]
fn passkey_sign_in_policy() {
    assert!(passkey_login_allowed(&record("active", "h", false)));
    assert!(!passkey_login_allowed(&record("active", "h", true)));
    assert!(!passkey_login_allowed(&record("disabled", "h", false)));
}

#[test]
fn user_ids_for_lookup() {
    assert_eq!(user_id_for_lookup(42).ok(), Some(42));
    match user_id_for_lookup(u64::MAX) {
        Err(e) => assert_eq!(e.message(), "internal error: user id conversion overflow"),
        Ok(_) => panic!("an id beyond i64 must be refused"),
    }
    assert_eq!(BackendError::Internal("x".to_string()).message(), "internal error: x");
}

#[test]
fn five_rejections_lock_the_session() {
    let mut t = LoginThrottle::fresh();
    for i in 0..4 {
        let (next, reply) = login_user_step(&t, 1000 + i, SignInOutcome::Rejected);
        assert_eq!(reply, LoginReply::InvalidCredentials);
        assert_eq!(reply.status_code(), 401);
        t = next;
    }
    assert_eq!(t.fail_count, Some(4));
    let (t5, r5) = login_user_step(&t, 2000, SignInOutcome::Rejected);
    assert_eq!(r5, LoginReply::TooManyAttempts);
    assert_eq!(r5.status_code(), 429);
    assert_eq!(t5, LoginThrottle { fail_count: Some(0), locked_until: Some(2000 + LOCKOUT_SECONDS) });
    assert!(login_locked(&t5, 2299));
    assert!(!login_locked(&t5, 2300));
    let (t6, r6) = login_user_step(&t5, 2100, SignInOutcome::Authenticated { password_reset_required: false });
    assert_eq!(r6, LoginReply::TooManyAttempts);
    assert_eq!(t6, t5);
    assert_eq!(MAX_LOGIN_ATTEMPTS, 5);
}

#[test]
fn successful_sign_in_clears_failures() {
    let t = LoginThrottle { fail_count: Some(3), locked_until: Some(10) };
    let (t1, r1) = login_user_step(&t, 50, SignInOutcome::Authenticated { password_reset_required: true });
    assert_eq!(t1, LoginThrottle { fail_count: Some(0), locked_until: None });
    assert_eq!(r1, LoginReply::Redirect(AppRoute::AccountPassword));
    assert_eq!(r1.status_code(), 302);
    assert_eq!(r1.error_key(), None);
    let (_, r2) = record_login_outcome(&t, 50, SignInOutcome::Authenticated { password_reset_required: false });
    assert_eq!(r2, LoginReply::Redirect(AppRoute::Protected));
}

#[test]
fn backend_failure_changes_nothing() {
    let t = LoginThrottle { fail_count: Some(2), locked_until: None };
    let (t1, r1) = login_user_step(&t, 5, SignInOutcome::BackendFailed);
    assert_eq!(t1, t);
    assert_eq!(r1, LoginReply::Internal);
    assert_eq!(r1.status_code(), 500);
    assert_eq!(r1.error_key(), Some("error_internal"));
    assert_eq!(LoginReply::TooManyAttempts.error_key(), Some("error_invalid_credentials"));
}

#[test]
fn login_error_keys() {
    assert_eq!(normalize_login_error_key("error_invalid_credentials"), "error_invalid_credentials");
    assert_eq!(normalize_login_error_key("ServerError: Invalid Credentials"), "error_invalid_credentials");
    assert_eq!(normalize_login_error_key("missing CSRF token"), "error_missing_csrf");
    assert_eq!(normalize_login_error_key("bad security token"), "error_security_token");
    assert_eq!(normalize_login_error_key("Session error"), "error_session");
    assert_eq!(normalize_login_error_key("session refresh failed"), "error_session_refresh_failed");
    assert_eq!(
        normalize_login_error_key("Passkey login succeeded but session refresh failed"),
        "error_session_refresh_failed"
    );
    assert_eq!(normalize_login_error_key("passkey rejected"), "error_passkey_failed");
    assert_eq!(normalize_login_error_key("this requires hydrate"), "error_unsupported_target");
    assert_eq!(normalize_login_error_key("boom"), "error_internal");
}
