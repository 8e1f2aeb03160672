use auth_template::account::{
    accept_user_handle, account_change_password, account_profile, apply_profile_update, b64u_decode, b64u_encode,
    check_password_form, ensure_webauthn_handle, normalize_profile, passkey_delete_decision, passkey_login_account,
    passkey_name, registration_name, webauthn_user_handle, AccountError,
};
use auth_template::auth::{authenticate_record, UserRecord};

fn rec(hash: &str, reset: bool, handle: Option<&str>) -> UserRecord {
    UserRecord {
        id: 11,
        username: "bo".to_string(),
        first_name: "Bo".to_string(),
        last_name: "B".to_string(),
        email: "bo@x.io".to_string(),
        password_hash: hash.to_string(),
        status: "active".to_string(),
        password_reset_required: reset,
        webauthn_user_handle: handle.map(|h| h.to_string()),
    }
}

fn is_hyphenated_uuid(s: &str) -> bool {
    s.len() == 36
        && s.chars().enumerate().all(|(i, c)| {
            if i == 8 || i == 13 || i == 18 || i == 23 {
                c == '-'
            } else {
                c.is_ascii_digit() || ('a'..='f').contains(&c)
            }
        })
}

#[test]
fn password_change_clears_the_reset_flag() {
    let hash = password_auth::generate_hash("old password!");
    let u = match account_change_password(
        Some(rec(&hash, true, None)),
        "old password!",
        "  new password 1 ",
        "  new password 1 ",
    ) {
        Ok(u) => u,
        Err(e) => panic!("refused: {}", e.code()),
    };
    assert!(!u.password_reset_required);
    assert_eq!(u.username, "bo");
    assert!(password_auth::verify_password("new password 1", &u.password_hash).is_ok());
    assert!(authenticate_record(Some(u), "new password 1").is_some());
}

#[test]
fn password_change_refusals_in_order() {
    let hash = password_auth::generate_hash("old password!");
    let refused = |r: Result<UserRecord, AccountError>| match r {
        Ok(_) => None,
        Err(e) => Some(e),
    };
    assert_eq!(
        refused(account_change_password(None, "x", "new password 1", "new password 2")),
        Some(AccountError::PasswordMismatch)
    );
    assert_eq!(refused(account_change_password(None, "x", " short  ", " short  ")), Some(AccountError::PasswordTooShort));
    assert_eq!(
        refused(account_change_password(None, "x", "long enough!", "long enough!")),
        Some(AccountError::UserNotFound)
    );
    assert_eq!(
        refused(account_change_password(Some(rec(&hash, false, None)), "wrong", "long enough!", "long enough!")),
        Some(AccountError::CurrentPasswordIncorrect)
    );
    assert_eq!(AccountError::CurrentPasswordIncorrect.code(), "err_current_password_incorrect");
}

#[test]
fn browser_side_password_form() {
    assert_eq!(check_password_form("0123456789", "0123456789"), Ok(()));
    assert_eq!(check_password_form("0123456789", "012345678"), Err(AccountError::PasswordMismatch));
    assert_eq!(check_password_form("short", "short"), Err(AccountError::PasswordTooShort));
}

#[test]
fn profile_reads_and_updates() {
    let u = rec("h", false, None);
    let p = account_profile(&u);
    assert_eq!(p.username, "bo");
    assert_eq!(p.email, "bo@x.io");
    let f = match normalize_profile(" Bo2 ", " Bob ", "", " BO2@X.IO ") {
        Ok(f) => f,
        Err(e) => panic!("refused: {}", e.code()),
    };
    assert_eq!(f.username, "Bo2");
    assert_eq!(f.email, "bo2@x.io");
    assert!(matches!(normalize_profile("", "", "", "a@b"), Err(AccountError::UsernameRequired)));
    assert!(matches!(normalize_profile("x", "", "", "ab"), Err(AccountError::InvalidEmail)));
    match apply_profile_update(Some(u), f, false, false) {
        Ok((updated, profile)) => {
            assert_eq!(updated.username, "Bo2");
            assert_eq!(updated.id, 11);
            assert_eq!(updated.password_hash, "h");
            assert_eq!(profile.first_name, "Bob");
        },
        Err(e) => panic!("refused: {}", e.code()),
    }
}

#[test]
fn profile_update_refusals() {
    let fields = || normalize_profile("a", "", "", "a@b").ok().unwrap();
    assert!(matches!(apply_profile_update(None, fields(), true, true), Err(AccountError::UsernameExists)));
    assert!(matches!(apply_profile_update(None, fields(), false, true), Err(AccountError::EmailTaken)));
    assert!(matches!(apply_profile_update(None, fields(), false, false), Err(AccountError::UserNotFound)));
}

#[test]
fn passkey_rules() {
    assert_eq!(passkey_delete_decision(None, 3), Ok(false));
    assert_eq!(passkey_delete_decision(Some(4), 3), Err(AccountError::Forbidden));
    assert_eq!(passkey_delete_decision(Some(3), 3), Ok(true));
    assert_eq!(passkey_name("  My key "), Ok("My key".to_string()));
    assert_eq!(passkey_name("   "), Err(AccountError::PasskeyNameRequired));
    assert_eq!(registration_name(Some("Laptop".to_string())), "Laptop");
    assert_eq!(registration_name(None), "Passkey");
}

#[test]
fn passkey_sign_in_account_checks() {
    assert!(matches!(passkey_login_account(None, 1), Err(AccountError::UnknownUserForDiscoverableCredential)));
    assert!(matches!(passkey_login_account(Some(rec("h", true, None)), 1), Err(AccountError::InvalidCredentials)));
    let mut disabled = rec("h", false, None);
    disabled.status = "disabled".to_string();
    assert!(matches!(passkey_login_account(Some(disabled), 1), Err(AccountError::InvalidCredentials)));
    assert!(matches!(passkey_login_account(Some(rec("h", false, None)), 0), Err(AccountError::NoPasskeysRegisteredForUser)));
    assert!(passkey_login_account(Some(rec("h", false, None)), 2).is_ok());
}

#[test]
fn webauthn_user_handles() {
    let (with, added) = ensure_webauthn_handle(rec("h", false, None));
    assert!(added);
    let h = with.webauthn_user_handle.clone().unwrap();
    assert!(is_hyphenated_uuid(&h));
    assert_eq!(webauthn_user_handle(&with), Ok(h.clone()));
    let (same, added2) = ensure_webauthn_handle(with);
    assert!(!added2);
    assert_eq!(same.webauthn_user_handle, Some(h));
    assert_eq!(webauthn_user_handle(&rec("h", false, None)), Err(AccountError::MissingWebauthnUserHandle));
    assert_eq!(
        webauthn_user_handle(&rec("h", false, Some("not-a-uuid"))),
        Err(AccountError::InvalidWebauthnUserHandle)
    );
    assert_eq!(accept_user_handle("x".to_string(), true), Ok("x".to_string()));
    assert_eq!(accept_user_handle("x".to_string(), false), Err(AccountError::InvalidWebauthnUserHandle));
}

#[test]
fn base64url_round_trip() {
    assert_eq!(b64u_encode(b"hello"), "aGVsbG8");
    assert_eq!(b64u_encode(&[0xfb, 0xff]), "-_8");
    assert_eq!(b64u_encode(&[]), "");
    assert_eq!(b64u_decode("aGVsbG8"), Ok(b"hello".to_vec()));
    assert_eq!(b64u_decode("aGVsbG8="), Err(AccountError::Base64UrlDecodeFailed));
    assert_eq!(b64u_decode("aGVsbG9"), Err(AccountError::Base64UrlDecodeFailed));
    assert_eq!(b64u_decode("a"), Err(AccountError::Base64UrlDecodeFailed));
    assert_eq!(AccountError::Base64UrlDecodeFailed.code(), "err_base64url_decode_failed");
}

#[test]
fn passkey_page_requests() {
    assert!(matches!(
        auth_template::account::passkey_registration_request(true, true, "key"),
        auth_template::account::PasskeyRegistration::Busy
    ));
    assert!(matches!(
        auth_template::account::passkey_registration_request(false, false, "key"),
        auth_template::account::PasskeyRegistration::MissingCsrf
    ));
    assert!(matches!(
        auth_template::account::passkey_registration_request(false, true, "   "),
        auth_template::account::PasskeyRegistration::NameRequired
    ));
    match auth_template::account::passkey_registration_request(false, true, " Laptop ") {
        auth_template::account::PasskeyRegistration::Start(n) => assert_eq!(n, "Laptop"),
        _ => panic!("the registration should start"),
    }
    assert_eq!(
        auth_template::account::passkey_deletion_request(false, true, 8),
        auth_template::account::PasskeyDeletion::Start(8)
    );
    assert_eq!(
        auth_template::account::passkey_deletion_request(true, false, 8),
        auth_template::account::PasskeyDeletion::Busy
    );
    assert_eq!(
        auth_template::account::passkey_deletion_request(false, false, 8),
        auth_template::account::PasskeyDeletion::MissingCsrf
    );
}

#[test]
fn account_requests_need_a_signed_in_user() {
    let u = auth_template::auth::User {
        id: 3,
        username: "bo".to_string(),
        password_hash: "h".to_string(),
        status: "active".to_string(),
        password_reset_required: false,
        session_auth_hash: "h".to_string(),
        roles: auth_template::roles::RoleSet::empty(),
        permissions: auth_template::roles::PermissionSet::new(),
    };
    assert_eq!(auth_template::account::require_user(Some(u)).ok().map(|u| u.id), Some(3));
    assert!(matches!(auth_template::account::require_user(None), Err(AccountError::NotAuthenticated)));
}
