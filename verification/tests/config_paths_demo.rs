use auth_template::auth::{Credentials, User};
use auth_template::config::{app_env, csp_value, hsts_value, rate_limits, secure_cookies, AppEnv};
use auth_template::demo::{
    add_two, admin_add_two, demo_login_reply, is_logged_in, logout_failure_message, DemoBackend, DemoError, LogoutStep,
};
use auth_template::login::SignInOutcome;
use auth_template::paths::{lp, trim_leading_slashes, Locale};
use auth_template::roles::{PermissionSet, Role, RoleSet};

fn user(roles: RoleSet) -> User {
    User {
        id: 1,
        username: "u".to_string(),
        password_hash: "h".to_string(),
        status: "active".to_string(),
        password_reset_required: false,
        session_auth_hash: "h".to_string(),
        roles,
        permissions: PermissionSet::new(),
    }
}

fn creds(username: &str, password: &str) -> Credentials {
    Credentials { username: username.to_string(), password: password.to_string() }
}

#[test]
fn environment_names() {
    assert_eq!(app_env(Some("prod")), AppEnv::Prod);
    assert_eq!(app_env(Some("production")), AppEnv::Prod);
    assert_eq!(app_env(Some("test")), AppEnv::Test);
    assert_eq!(app_env(Some("Prod")), AppEnv::Dev);
    assert_eq!(app_env(Some(" prod")), AppEnv::Dev);
    assert_eq!(app_env(None), AppEnv::Dev);
}

#[test]
fn environment_settings() {
    assert!(secure_cookies(AppEnv::Prod));
    assert!(!secure_cookies(AppEnv::Test));
    assert!(!secure_cookies(AppEnv::Dev));
    assert_eq!(rate_limits(AppEnv::Prod), (5, 10));
    assert_eq!(rate_limits(AppEnv::Dev), (50, 100));
    assert_eq!(rate_limits(AppEnv::Test), (50, 100));
    assert_eq!(hsts_value(AppEnv::Prod), "max-age=31536000; includeSubDomains");
    assert_eq!(hsts_value(AppEnv::Test), "max-age=0");
    assert_eq!(
        csp_value(AppEnv::Prod),
        "default-src 'self'; base-uri 'self'; object-src 'none'; frame-ancestors 'none'; img-src 'self' data:; style-src 'self' 'unsafe-inline'; script-src 'self' 'unsafe-inline'; connect-src 'self';"
    );
    assert!(csp_value(AppEnv::Dev).contains("connect-src 'self' ws: wss:;"));
    assert!(auth_template::demo::csp_value(AppEnv::Prod).contains("script-src 'self'; connect-src"));
    assert_eq!(auth_template::demo::csp_value(AppEnv::Test), csp_value(AppEnv::Test));
}

#[test]
fn localized_links() {
    assert_eq!(Locale::De.as_str(), "de");
    assert_eq!(Locale::En.as_str(), "en");
    assert_eq!(lp(Locale::De, ""), "/de/");
    assert_eq!(lp(Locale::En, "   "), "/en/");
    assert_eq!(lp(Locale::En, "/"), "/en/");
    assert_eq!(lp(Locale::En, "//account/password"), "/en/account/password");
    assert_eq!(lp(Locale::De, " contact "), "/de/contact");
    assert_eq!(lp(Locale::De, "https://example.org/x"), "https://example.org/x");
    assert_eq!(lp(Locale::De, " mailto:a@b.c "), "mailto:a@b.c");
    assert_eq!(lp(Locale::En, "tel:+49"), "tel:+49");
    assert_eq!(lp(Locale::En, "#top"), "#top");
    assert_eq!(lp(Locale::En, "http:/x"), "/en/http:/x");
    assert_eq!(Locale::from_code("en"), Some(Locale::En));
    assert_eq!(Locale::from_code("EN"), None);
    assert_eq!(Locale::switched(Locale::De, "en"), Locale::En);
    assert_eq!(Locale::switched(Locale::En, "fr"), Locale::En);
    assert_eq!(trim_leading_slashes("///a/b"), "a/b");
    assert_eq!(trim_leading_slashes("a/"), "a/");
}

#[test]
fn demo_store_signs_in_both_accounts() {
    let b = DemoBackend::new();
    let admin = b.authenticate(&creds("admin", "password")).unwrap();
    assert_eq!(admin.id(), 2);
    assert_eq!(admin.roles, RoleSet::single(Role::Admin));
    assert!(admin.permissions.contains("admin.read"));
    assert_eq!(admin.session_auth_hash(), admin.password_hash.as_str());
    let user = b.authenticate(&creds("user", "password")).unwrap();
    assert_eq!(user.id(), 1);
    assert!(user.permissions.is_empty());
    assert!(b.authenticate(&creds("user", "wrong")).is_none());
    assert!(b.authenticate(&creds("nobody", "password")).is_none());
    assert!(b.authenticate(&creds("Admin", "password")).is_none());
    assert_eq!(b.get_user(2).unwrap().username, "admin");
    assert!(b.get_user(3).is_none());
}

#[test]
fn secured_demo_endpoints() {
    let plain = user(RoleSet::single(Role::User));
    let admin = user(RoleSet::single(Role::Admin));
    assert!(!is_logged_in(None));
    assert!(is_logged_in(Some(&plain)));
    assert_eq!(add_two(Some(&plain), 21, 21), Ok(42));
    assert_eq!(add_two(None, 21, 21), Err(DemoError::NotAuthenticated));
    assert_eq!(admin_add_two(Some(&admin), 21, 21), Ok(42));
    assert_eq!(admin_add_two(Some(&plain), 21, 21), Err(DemoError::Forbidden));
    assert_eq!(admin_add_two(None, -1, 1), Err(DemoError::NotAuthenticated));
    assert_eq!(DemoError::NotAuthenticated.code(), "err_not_authenticated");
    assert_eq!(DemoError::Forbidden.message(), "Forbidden");
    assert_eq!(DemoError::NotAuthenticated.message(), "Not authenticated");
}

#[test]
fn demo_sign_in_replies() {
    assert_eq!(demo_login_reply(SignInOutcome::Authenticated { password_reset_required: true }), (302, Ok("/protected")));
    assert_eq!(demo_login_reply(SignInOutcome::Rejected), (401, Err("Invalid credentials")));
    assert_eq!(demo_login_reply(SignInOutcome::BackendFailed), (500, Err("Internal error")));
}

#[test]
fn demo_sign_out_failures() {
    assert_eq!(logout_failure_message(LogoutStep::SignOut), "Internal error");
    assert_eq!(logout_failure_message(LogoutStep::CycleSession), "Session error");
    assert_eq!(logout_failure_message(LogoutStep::RotateCsrf), "CSRF error");
}
