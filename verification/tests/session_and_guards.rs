use auth_template::auth::User;
use auth_template::auth_state::{
    header_links, make_auth_snapshot, post_login_route, redirect_target, route_access, AppRoute, AuthSnapshot,
    AuthState, UserSummary,
};
use auth_template::csrf::{csrf_context_value, new_token, CsrfError, CsrfSession, CsrfToken};
use auth_template::roles::{PermissionSet, Role, RoleSet};

fn summary(roles: RoleSet, reset: bool) -> UserSummary {
    UserSummary { id: 9, username: "zoe".to_string(), roles, password_reset_required: reset }
}

fn state(user: Option<UserSummary>) -> AuthState {
    let mut s = AuthState::new();
    s.apply_snapshot(AuthSnapshot { user, permissions: PermissionSet::from_names(vec!["admin.read".to_string()]) });
    s
}

fn is_base64_url(s: &str) -> bool {
    s.chars().all(|c| c.is_ascii_alphanumeric() || c == '-' || c == '_')
}

#[test]
fn auth_state_queries() {
    let fresh = AuthState::new();
    assert!(!fresh.ready);
    assert!(!fresh.logged_in());
    assert_eq!(fresh.username(), None);
    let s = state(Some(summary(RoleSet { user: true, admin: true, staff: false }, false)));
    assert!(s.ready);
    assert!(s.logged_in());
    assert_eq!(s.username(), Some("zoe".to_string()));
    assert!(s.is_admin());
    assert!(!s.is_staff());
    assert!(s.has_role(Role::User));
    assert!(s.has_perm("admin.read"));
    assert!(!s.has_perm("staff.read"));
    assert!(!s.requires_password_reset());
}

#[test]
fn refresh_and_sign_out() {
    let mut s = state(Some(summary(RoleSet::single(Role::User), false)));
    s.begin_refresh();
    assert!(!s.ready);
    assert!(s.logged_in());
    s.sign_out();
    assert!(s.ready);
    assert!(!s.logged_in());
    assert!(!s.has_perm("admin.read"));
}

#[test]
fn snapshot_of_a_session() {
    let u = User {
        id: 4,
        username: "ann".to_string(),
        password_hash: "h".to_string(),
        status: "active".to_string(),
        password_reset_required: true,
        session_auth_hash: "h".to_string(),
        roles: RoleSet::single(Role::Staff),
        permissions: PermissionSet::from_names(vec!["staff.read".to_string()]),
    };
    let snap = make_auth_snapshot(Some(&u));
    let su = snap.user.unwrap();
    assert_eq!(su.id, 4);
    assert_eq!(su.username, "ann");
    assert!(su.password_reset_required);
    assert_eq!(snap.permissions.names(), vec!["staff.read".to_string()]);
    let none = make_auth_snapshot(None);
    assert!(none.user.is_none());
    assert!(none.permissions.is_empty());
}

#[test]
fn guards_wait_for_the_snapshot() {
    let s = AuthState::new();
    assert_eq!(route_access(&s, AppRoute::Protected), None);
    assert_eq!(route_access(&s, AppRoute::Admin), None);
    assert_eq!(route_access(&s, AppRoute::Home), Some(true));
}

#[test]
fn visitors_go_to_sign_in() {
    let s = state(None);
    assert_eq!(route_access(&s, AppRoute::Account), Some(false));
    assert_eq!(route_access(&s, AppRoute::AccountPassword), Some(false));
    assert_eq!(redirect_target(&s, AppRoute::Account), AppRoute::Login);
    assert_eq!(route_access(&s, AppRoute::Contact), Some(true));
}

#[test]
fn pending_reset_confines_to_the_password_page() {
    let s = state(Some(summary(RoleSet { user: true, admin: true, staff: false }, true)));
    assert_eq!(route_access(&s, AppRoute::Protected), Some(false));
    assert_eq!(route_access(&s, AppRoute::Admin), Some(false));
    assert_eq!(route_access(&s, AppRoute::AccountPassword), Some(true));
    assert_eq!(redirect_target(&s, AppRoute::Admin), AppRoute::AccountPassword);
    assert_eq!(redirect_target(&s, AppRoute::AccountPassword), AppRoute::Login);
}

#[test]
fn admin_page_needs_the_admin_role() {
    let plain = state(Some(summary(RoleSet::single(Role::User), false)));
    assert_eq!(route_access(&plain, AppRoute::Admin), Some(false));
    assert_eq!(route_access(&plain, AppRoute::AccountWebauthn), Some(true));
    let admin = state(Some(summary(RoleSet::single(Role::Admin), false)));
    assert_eq!(route_access(&admin, AppRoute::Admin), Some(true));
}

#[test]
fn after_sign_in_and_header() {
    assert_eq!(post_login_route(true), AppRoute::AccountPassword);
    assert_eq!(post_login_route(false), AppRoute::Protected);
    assert_eq!(header_links(&AuthState::new()), vec![AppRoute::Home, AppRoute::Contact]);
    assert_eq!(header_links(&state(None)), vec![AppRoute::Home, AppRoute::Contact, AppRoute::Login]);
    let admin = state(Some(summary(RoleSet::single(Role::Admin), false)));
    assert_eq!(
        header_links(&admin),
        vec![AppRoute::Home, AppRoute::Contact, AppRoute::Protected, AppRoute::Account, AppRoute::Admin, AppRoute::Logout]
    );
    let user = state(Some(summary(RoleSet::single(Role::User), false)));
    assert_eq!(
        header_links(&user),
        vec![AppRoute::Home, AppRoute::Contact, AppRoute::Protected, AppRoute::Account, AppRoute::Logout]
    );
    assert_eq!(AppRoute::AccountWebauthn.path_key(), "account_webauthn_path");
}

#[test]
fn tokens_are_43_url_safe_characters() {
    let t = new_token();
    assert_eq!(t.len(), 43);
    assert!(is_base64_url(&t));
    assert_ne!(t, new_token());
}

#[test]
fn issued_token_is_accepted_and_nothing_else() {
    let mut s = CsrfSession { token: None };
    assert!(!s.verify_csrf_token(""));
    assert_eq!(s.require("x"), Err(CsrfError::Missing));
    let t = s.get_token();
    assert_eq!(s.token.as_deref(), Some(t.token.as_str()));
    assert!(s.verify_csrf_token(&t.token));
    assert_eq!(s.require(&t.token), Ok(()));
    assert!(!s.verify_csrf_token(&t.token[..42]));
    let again = s.get_or_create_csrf_token();
    assert_eq!(again, t.token);
    let rotated = s.rotate();
    assert_ne!(rotated.token, t.token);
    assert!(!s.verify_csrf_token(&t.token));
    assert!(s.verify_csrf_token(&rotated.token));
    let fresh = s.set_new_csrf_token();
    assert!(s.verify_csrf_token(&fresh));
    assert_eq!(CsrfError::Missing.code(), "err_missing_csrf");
    assert_eq!(CsrfError::Session.code(), "err_session");
}

#[test]
fn csrf_context_starts_empty_for_an_empty_token() {
    assert_eq!(csrf_context_value(&CsrfToken { token: String::new() }), None);
    assert_eq!(csrf_context_value(&CsrfToken { token: "abc".to_string() }), Some("abc".to_string()));
}
