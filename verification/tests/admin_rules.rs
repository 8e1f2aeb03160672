use auth_template::admin::{
    admin_user_row, check_create_conflicts, check_delete, check_update_conflicts, check_user_form, new_account,
    normalize_roles, normalize_status, normalize_user_fields, parse_roles_csv, require_admin, roles_of_names,
    roles_to_csv, search_term, toggle_role, validate_new_user, validate_user_update, with_enabled,
    with_password_reset_required, AdminError, MIN_PASSWORD_BYTES,
};
use auth_template::auth::{User, UserRecord};
use auth_template::roles::{PermissionSet, RoleSet};

fn strings(v: &[&str]) -> Vec<String> {
    v.iter().map(|s| s.to_string()).collect()
}

fn record(status: &str) -> UserRecord {
    UserRecord {
        id: 7,
        username: "alice".to_string(),
        first_name: "Alice".to_string(),
        last_name: "Doe".to_string(),
        email: "alice@example.org".to_string(),
        password_hash: "hash".to_string(),
        status: status.to_string(),
        password_reset_required: false,
        webauthn_user_handle: None,
    }
}

fn user(roles: RoleSet) -> User {
    User {
        id: 1,
        username: "u".to_string(),
        password_hash: "h".to_string(),
        status: "active".to_string(),
        password_reset_required: false,
        session_auth_hash: "h".to_string(),
        roles,
        permissions: PermissionSet::new(),
    }
}

#[test]
fn status_is_normalized() {
    assert_eq!(normalize_status(" ACTIVE "), Some("active"));
    assert_eq!(normalize_status("Disabled"), Some("disabled"));
    assert_eq!(normalize_status("locked"), None);
    assert_eq!(normalize_status(""), None);
}

#[test]
fn roles_csv_is_parsed_sorted_and_deduplicated() {
    assert_eq!(parse_roles_csv("admin, user"), Ok(strings(&["admin", "user"])));
    assert_eq!(parse_roles_csv(" STAFF ,,staff"), Ok(strings(&["staff"])));
    assert_eq!(parse_roles_csv("user,root"), Err(AdminError::InvalidRole));
    assert_eq!(parse_roles_csv(" , "), Err(AdminError::RolesRequired));
    assert_eq!(parse_roles_csv(""), Err(AdminError::RolesRequired));
}

#[test]
fn role_lists_are_canonical() {
    assert_eq!(normalize_roles(strings(&[" User", "ADMIN", "root", "user"])), strings(&["admin", "user"]));
    assert_eq!(roles_to_csv(&strings(&["staff", "admin"])), "admin,staff");
    assert_eq!(roles_to_csv(&strings(&[])), "");
    assert_eq!(roles_of_names(&strings(&["x"])), RoleSet { user: false, admin: false, staff: false });
}

#[test]
fn toggling_a_role_sets_exactly_that_role() {
    let roles = strings(&["user"]);
    assert_eq!(toggle_role(&roles, "admin", true), strings(&["admin", "user"]));
    assert_eq!(toggle_role(&strings(&["admin", "user"]), "admin", false), strings(&["user"]));
    assert_eq!(toggle_role(&roles, "user", true), strings(&["user"]));
}

#[test]
fn identity_fields_are_normalized_and_checked() {
    let f = normalize_user_fields(" bob ", " Bob ", " B ", " Bob@Example.ORG ").unwrap();
    assert_eq!(f.username, "bob");
    assert_eq!(f.first_name, "Bob");
    assert_eq!(f.last_name, "B");
    assert_eq!(f.email, "bob@example.org");
    assert!(matches!(normalize_user_fields("  ", "", "", "a@b"), Err(AdminError::UsernameRequired)));
    assert!(matches!(normalize_user_fields("bob", "", "", "bob.example.org"), Err(AdminError::InvalidEmail)));
    assert!(matches!(normalize_user_fields("bob", "", "", "   "), Err(AdminError::InvalidEmail)));
}

#[test]
fn new_user_requests_are_checked_in_order() {
    let ok = validate_new_user("carol", "", "", "c@x.io", "0123456789", "Active", "user").unwrap();
    assert_eq!(ok.fields.username, "carol");
    assert_eq!(ok.status, "active");
    assert_eq!(ok.roles, strings(&["user"]));
    assert_eq!(ok.password, "0123456789");
    assert!(matches!(
        validate_new_user("", "", "", "bad", "short", "x", "root"),
        Err(AdminError::UsernameRequired)
    ));
    assert!(matches!(
        validate_new_user("c", "", "", "c@x", "012345678", "x", "root"),
        Err(AdminError::PasswordTooShort)
    ));
    assert!(matches!(
        validate_new_user("c", "", "", "c@x", "0123456789", "x", "root"),
        Err(AdminError::InvalidStatus)
    ));
    assert!(matches!(
        validate_new_user("c", "", "", "c@x", "0123456789", "disabled", "root"),
        Err(AdminError::InvalidRole)
    ));
    assert_eq!(MIN_PASSWORD_BYTES, 10);
}

#[test]
fn user_updates_are_checked_in_order() {
    let ok = validate_user_update(" dave ", "D", "", "D@X.io", "disabled", "staff,user").unwrap();
    assert_eq!(ok.fields.username, "dave");
    assert_eq!(ok.fields.email, "d@x.io");
    assert_eq!(ok.status, "disabled");
    assert_eq!(ok.roles, strings(&["staff", "user"]));
    assert!(matches!(validate_user_update("d", "", "", "d@x", "on", "user"), Err(AdminError::InvalidStatus)));
    assert!(matches!(validate_user_update("d", "", "", "d@x", "active", ""), Err(AdminError::RolesRequired)));
}

#[test]
fn store_conflicts() {
    assert_eq!(check_create_conflicts(true, true), Err(AdminError::UsernameExists));
    assert_eq!(check_create_conflicts(false, true), Err(AdminError::EmailTaken));
    assert_eq!(check_create_conflicts(false, false), Ok(()));
    assert_eq!(check_update_conflicts(false, true, true, None), Err(AdminError::UserNotFound));
    assert_eq!(check_update_conflicts(true, true, false, None), Err(AdminError::UsernameExists));
    assert_eq!(check_update_conflicts(true, false, true, None), Err(AdminError::EmailTaken));
    assert_eq!(check_update_conflicts(true, false, false, Some("   ")), Ok(None));
    assert_eq!(check_update_conflicts(true, false, false, Some(" short ")), Err(AdminError::PasswordTooShort));
    assert_eq!(
        check_update_conflicts(true, false, false, Some(" long enough pw ")),
        Ok(Some("long enough pw".to_string()))
    );
}

#[test]
fn new_account_hashes_the_password() {
    let input = validate_new_user("erin", "Erin", "E", "e@x.io", "correct horse", "active", "user").unwrap();
    let acc = new_account(input, true);
    assert_eq!(acc.username, "erin");
    assert_eq!(acc.status, "active");
    assert!(acc.password_reset_required);
    assert!(acc.webauthn_user_handle.is_none());
    assert_ne!(acc.password_hash, "correct horse");
    assert!(password_auth::verify_password("correct horse", &acc.password_hash).is_ok());
}

#[test]
fn flags_and_status_updates() {
    let r = with_password_reset_required(Some(record("active")), true).ok().unwrap();
    assert!(r.password_reset_required);
    assert_eq!(r.username, "alice");
    assert!(matches!(with_password_reset_required(None, false), Err(AdminError::UserNotFound)));
    let forced = auth_template::admin::force_password_reset(Some(record("active"))).ok().unwrap();
    assert!(forced.password_reset_required);
    assert!(matches!(auth_template::admin::force_password_reset(None), Err(AdminError::UserNotFound)));
    assert_eq!(with_enabled(Some(record("active")), false).ok().unwrap().status, "disabled");
    assert_eq!(with_enabled(Some(record("disabled")), true).ok().unwrap().status, "active");
    assert!(matches!(with_enabled(None, true), Err(AdminError::UserNotFound)));
}

#[test]
fn admin_requirement() {
    assert_eq!(require_admin(None), Err(AdminError::NotAuthenticated));
    let plain = user(RoleSet { user: true, admin: false, staff: true });
    assert_eq!(require_admin(Some(&plain)), Err(AdminError::Forbidden));
    let admin = user(RoleSet { user: false, admin: true, staff: false });
    assert_eq!(require_admin(Some(&admin)), Ok(()));
    assert_eq!(AdminError::Forbidden.code(), "err_forbidden");
    assert_eq!(AdminError::CannotDeleteSelf.code(), "err_cannot_delete_self");
}

#[test]
fn deletion_and_search() {
    assert_eq!(check_delete(5, 5), Err(AdminError::CannotDeleteSelf));
    assert_eq!(check_delete(5, 6), Ok(()));
    assert_eq!(search_term("  Al "), Some("al".to_string()));
    assert_eq!(search_term(" a "), None);
}

#[test]
fn admin_rows_sort_roles_and_default_status() {
    let row = admin_user_row(record("  "), strings(&["user", "Admin"]), "t1".to_string(), "t2".to_string());
    assert_eq!(row.status, "active");
    assert_eq!(row.roles, strings(&["Admin", "user"]));
    assert!(row.is_admin);
    assert_eq!(row.created_at, "t1");
    let row2 = admin_user_row(record("disabled"), strings(&["staff"]), String::new(), String::new());
    assert_eq!(row2.status, "disabled");
    assert!(!row2.is_admin);
}

#[test]
fn browser_side_user_form_check() {
    let roles = strings(&["user"]);
    assert_eq!(check_user_form("bob", "b@x", Some("0123456789"), "active", &roles), Ok(()));
    assert_eq!(check_user_form(" ", "b@x", None, "active", &roles), Err(AdminError::UsernameRequired));
    assert_eq!(check_user_form("bob", "bx", None, "active", &roles), Err(AdminError::InvalidEmail));
    assert_eq!(check_user_form("bob", "b@x", Some("short"), "active", &roles), Err(AdminError::PasswordTooShort));
    assert_eq!(check_user_form("bob", "b@x", None, "Active", &roles), Err(AdminError::InvalidStatus));
    assert_eq!(check_user_form("bob", "b@x", None, "disabled", &strings(&["root"])), Err(AdminError::RolesRequired));
}

#[test]
fn user_card_editing() {
    let mut row = admin_user_row(record("active"), strings(&["User"]), "c".to_string(), "u".to_string());
    assert!(!row.is_admin);
    assert!(auth_template::admin::row_has_role(&row.roles, "user"));
    auth_template::admin::toggle_row_role(&mut row, "admin", true);
    assert_eq!(row.roles, strings(&["admin", "user"]));
    assert!(row.is_admin);
    assert!(auth_template::admin::row_has_role(&row.roles, "ADMIN"));
    auth_template::admin::toggle_row_role(&mut row, "admin", false);
    assert_eq!(row.roles, strings(&["user"]));
    assert!(!row.is_admin);
    assert_eq!(row.username, "alice");
    assert_eq!(row.created_at, "c");
    assert_eq!(auth_template::admin::selected_status("disabled"), "disabled");
    assert_eq!(auth_template::admin::selected_status("Disabled"), "active");
    assert!(auth_template::admin::selected_reset_flag("true"));
    assert!(!auth_template::admin::selected_reset_flag("yes"));
}

#[test]
fn new_user_form_and_search_box() {
    assert_eq!(auth_template::admin::draft_roles(true, false, true), strings(&["staff", "user"]));
    assert_eq!(auth_template::admin::draft_roles(false, false, false), strings(&[]));
    assert_eq!(auth_template::admin::client_search_query("  äb "), Some("äb".to_string()));
    assert_eq!(auth_template::admin::client_search_query(" a "), None);
    assert_eq!(auth_template::admin::row_new_password("  "), None);
    assert_eq!(auth_template::admin::row_new_password(" new pw "), Some(" new pw ".to_string()));
}

#[test]
fn applying_an_update() {
    let input = validate_user_update("alice2", "A", "D", "A2@x.io", "disabled", "staff").unwrap();
    let mut existing = record("active");
    existing.webauthn_user_handle = Some("handle".to_string());
    let kept = auth_template::admin::apply_user_update(existing.clone(), &input, true, None);
    assert_eq!(kept.id, 7);
    assert_eq!(kept.username, "alice2");
    assert_eq!(kept.email, "a2@x.io");
    assert_eq!(kept.status, "disabled");
    assert!(kept.password_reset_required);
    assert_eq!(kept.password_hash, "hash");
    assert_eq!(kept.webauthn_user_handle, Some("handle".to_string()));
    let changed = auth_template::admin::apply_user_update(existing, &input, false, Some("brand new pw".to_string()));
    assert!(password_auth::verify_password("brand new pw", &changed.password_hash).is_ok());
    assert!(!changed.password_reset_required);
}
