use auth_template::messages::{
    admin_page_message, password_page_message, profile_page_message, protected_page_message, webauthn_page_message,
};

#[test]
fn password_page_messages() {
    assert_eq!(password_page_message("err_password_mismatch"), "error_password_mismatch");
    assert_eq!(password_page_message("err_session_error"), "error_session");
    assert_eq!(password_page_message("err_email_taken"), "error_unknown");
    assert_eq!(password_page_message(""), "error_unknown");
}

#[test]
fn profile_page_messages() {
    assert_eq!(profile_page_message("err_email_taken"), "error_email_taken");
    assert_eq!(profile_page_message("err_username_exists"), "error_username_exists");
    assert_eq!(profile_page_message("err_password_mismatch"), "error_unknown");
}

#[test]
fn passkey_page_messages() {
    assert_eq!(webauthn_page_message("err_passkey_name_required"), Some("msg_passkey_name_required"));
    assert_eq!(webauthn_page_message("err_no_window"), Some("err_no_window"));
    assert_eq!(webauthn_page_message("err_server_only"), Some("err_server_only"));
    assert_eq!(webauthn_page_message("something else"), None);
}

#[test]
fn admin_and_protected_page_messages() {
    assert_eq!(admin_page_message("msg_user_created"), Some("msg_user_created"));
    assert_eq!(admin_page_message("err_cannot_delete_self"), Some("err_cannot_delete_self"));
    assert_eq!(admin_page_message("err_internal"), None);
    assert_eq!(protected_page_message("err_not_authenticated"), Some("not_authenticated"));
    assert_eq!(protected_page_message("err_forbidden"), None);
}
