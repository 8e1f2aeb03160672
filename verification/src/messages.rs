//! Which translated message each page shows for a message key that the
//! server sends. The translations themselves live in the locale files; these
//! tables decide which entry a key is shown with, and what happens to a key
//! that a page does not know.

use vstd::prelude::*;

verus! {

/// The translation key of the first entry of `table` whose message key is
/// `raw`, if there is one.
pub open spec fn lookup_key(table: Seq<(Seq<char>, Seq<char>)>, raw: Seq<char>) -> Option<Seq<char>>
    decreases table.len(),
{
    if table.len() == 0 {
        None
    } else if table[0].0 == raw {
        Some(table[0].1)
    } else {
        lookup_key(table.drop_first(), raw)
    }
}

/// The texts of a table of pairs.
pub open spec fn pairs_text(v: Seq<(&'static str, &'static str)>) -> Seq<(Seq<char>, Seq<char>)> {
    v.map_values(|p: (&'static str, &'static str)| (p.0@, p.1@))
}

/// The view of an optional text.
pub open spec fn opt_key(o: Option<&'static str>) -> Option<Seq<char>> {
    match o {
        Some(v) => Some(v@),
        None => None,
    }
}

fn find_key(table: &Vec<(&'static str, &'static str)>, raw: &str) -> (r: Option<&'static str>)
    ensures
        opt_key(r) == lookup_key(pairs_text(table@), raw@),
{
    let ghost t = pairs_text(table@);
    assert(t.skip(0) =~= t);
    let mut i: usize = 0;
    while i < table.len()
        invariant
            i <= table.len(),
            t == pairs_text(table@),
            lookup_key(t, raw@) == lookup_key(t.skip(i as int), raw@),
        decreases table.len() - i,
    {
        let (k, v) = table[i];
        assert(t.skip(i as int)[0] == (k@, v@));
        assert(t.skip(i as int).drop_first() =~= t.skip(i + 1));
        if crate::text::same_text(k, raw) {
            return Some(v);
        }
        i += 1;
    }
    assert(t.skip(i as int).len() == 0);
    None
}

/// The password page: message keys and the translation keys (under `account`) they are
/// shown with.
pub open spec fn password_page_table() -> Seq<(Seq<char>, Seq<char>)> {
    seq![
        ("err_missing_csrf"@, "error_missing_csrf"@),
        ("err_password_mismatch"@, "error_password_mismatch"@),
        ("err_password_too_short"@, "error_password_too_short"@),
        ("err_current_password_incorrect"@, "error_current_password_incorrect"@),
        ("err_user_not_found"@, "error_user_not_found"@),
        ("err_not_authenticated"@, "error_not_authenticated"@),
        ("err_forbidden"@, "error_forbidden"@),
        ("err_session_error"@, "error_session"@),
    ]
}

fn password_page_pairs() -> (r: Vec<(&'static str, &'static str)>)
    ensures
        pairs_text(r@) == password_page_table(),
{
    let mut v: Vec<(&'static str, &'static str)> = Vec::new();
    v.push(("err_missing_csrf", "error_missing_csrf"));
    v.push(("err_password_mismatch", "error_password_mismatch"));
    v.push(("err_password_too_short", "error_password_too_short"));
    v.push(("err_current_password_incorrect", "error_current_password_incorrect"));
    v.push(("err_user_not_found", "error_user_not_found"));
    v.push(("err_not_authenticated", "error_not_authenticated"));
    v.push(("err_forbidden", "error_forbidden"));
    v.push(("err_session_error", "error_session"));
    assert(pairs_text(v@) =~= password_page_table());
    v
}

/// The profile page: message keys and the translation keys (under `account`) they are
/// shown with.
pub open spec fn profile_page_table() -> Seq<(Seq<char>, Seq<char>)> {
    seq![
        ("err_missing_csrf"@, "error_missing_csrf"@),
        ("err_user_not_found"@, "error_user_not_found"@),
        ("err_not_authenticated"@, "error_not_authenticated"@),
        ("err_forbidden"@, "error_forbidden"@),
        ("err_session_error"@, "error_session"@),
        ("err_invalid_email"@, "error_invalid_email"@),
        ("err_email_taken"@, "error_email_taken"@),
        ("err_username_exists"@, "error_username_exists"@),
    ]
}

fn profile_page_pairs() -> (r: Vec<(&'static str, &'static str)>)
    ensures
        pairs_text(r@) == profile_page_table(),
{
    let mut v: Vec<(&'static str, &'static str)> = Vec::new();
    v.push(("err_missing_csrf", "error_missing_csrf"));
    v.push(("err_user_not_found", "error_user_not_found"));
    v.push(("err_not_authenticated", "error_not_authenticated"));
    v.push(("err_forbidden", "error_forbidden"));
    v.push(("err_session_error", "error_session"));
    v.push(("err_invalid_email", "error_invalid_email"));
    v.push(("err_email_taken", "error_email_taken"));
    v.push(("err_username_exists", "error_username_exists"));
    assert(pairs_text(v@) =~= profile_page_table());
    v
}

/// The passkey page: message keys and the translation keys (under `account_webauthn`) they are
/// shown with.
pub open spec fn webauthn_page_table() -> Seq<(Seq<char>, Seq<char>)> {
    seq![
        ("err_not_authenticated"@, "err_not_authenticated"@),
        ("err_forbidden"@, "err_forbidden"@),
        ("err_user_not_found"@, "err_user_not_found"@),
        ("err_session_error"@, "err_session_error"@),
        ("err_missing_registration_state"@, "err_missing_registration_state"@),
        ("err_missing_discoverable_auth_state"@, "err_missing_discoverable_auth_state"@),
        ("err_unknown_user_for_discoverable_credential"@, "err_unknown_user_for_discoverable_credential"@),
        ("err_no_passkeys_registered_for_user"@, "err_no_passkeys_registered_for_user"@),
        ("err_passkey_json_serialize_failed"@, "err_passkey_json_serialize_failed"@),
        ("err_invalid_stored_passkey_json"@, "err_invalid_stored_passkey_json"@),
        ("err_base64url_decode_failed"@, "err_base64url_decode_failed"@),
        ("err_missing_webauthn_user_handle"@, "err_missing_webauthn_user_handle"@),
        ("err_invalid_webauthn_user_handle"@, "err_invalid_webauthn_user_handle"@),
        ("err_passkey_name_required"@, "msg_passkey_name_required"@),
        ("err_webauthn_requires_wasm"@, "err_webauthn_requires_wasm"@),
        ("err_no_window"@, "err_no_window"@),
        ("err_navigator_credentials_create_failed"@, "err_navigator_credentials_create_failed"@),
        ("err_create_credential_rejected"@, "err_create_credential_rejected"@),
        ("err_create_credential_invalid_response"@, "err_create_credential_invalid_response"@),
        ("err_navigator_credentials_get_failed"@, "err_navigator_credentials_get_failed"@),
        ("err_get_credential_rejected"@, "err_get_credential_rejected"@),
        ("err_get_credential_invalid_response"@, "err_get_credential_invalid_response"@),
        ("err_server_only"@, "err_server_only"@),
    ]
}

fn webauthn_page_pairs() -> (r: Vec<(&'static str, &'static str)>)
    ensures
        pairs_text(r@) == webauthn_page_table(),
{
    let mut v: Vec<(&'static str, &'static str)> = Vec::new();
    v.push(("err_not_authenticated", "err_not_authenticated"));
    v.push(("err_forbidden", "err_forbidden"));
    v.push(("err_user_not_found", "err_user_not_found"));
    v.push(("err_session_error", "err_session_error"));
    v.push(("err_missing_registration_state", "err_missing_registration_state"));
    v.push(("err_missing_discoverable_auth_state", "err_missing_discoverable_auth_state"));
    v.push(("err_unknown_user_for_discoverable_credential", "err_unknown_user_for_discoverable_credential"));
    v.push(("err_no_passkeys_registered_for_user", "err_no_passkeys_registered_for_user"));
    v.push(("err_passkey_json_serialize_failed", "err_passkey_json_serialize_failed"));
    v.push(("err_invalid_stored_passkey_json", "err_invalid_stored_passkey_json"));
    v.push(("err_base64url_decode_failed", "err_base64url_decode_failed"));
    v.push(("err_missing_webauthn_user_handle", "err_missing_webauthn_user_handle"));
    v.push(("err_invalid_webauthn_user_handle", "err_invalid_webauthn_user_handle"));
    v.push(("err_passkey_name_required", "msg_passkey_name_required"));
    v.push(("err_webauthn_requires_wasm", "err_webauthn_requires_wasm"));
    v.push(("err_no_window", "err_no_window"));
    v.push(("err_navigator_credentials_create_failed", "err_navigator_credentials_create_failed"));
    v.push(("err_create_credential_rejected", "err_create_credential_rejected"));
    v.push(("err_create_credential_invalid_response", "err_create_credential_invalid_response"));
    v.push(("err_navigator_credentials_get_failed", "err_navigator_credentials_get_failed"));
    v.push(("err_get_credential_rejected", "err_get_credential_rejected"));
    v.push(("err_get_credential_invalid_response", "err_get_credential_invalid_response"));
    v.push(("err_server_only", "err_server_only"));
    assert(pairs_text(v@) =~= webauthn_page_table());
    v
}

/// The administration page: message keys and the translation keys (under `admin`) they are
/// shown with.
pub open spec fn admin_page_table() -> Seq<(Seq<char>, Seq<char>)> {
    seq![
        ("msg_missing_csrf"@, "msg_missing_csrf"@),
        ("msg_user_created"@, "msg_user_created"@),
        ("msg_user_updated"@, "msg_user_updated"@),
        ("msg_user_deleted"@, "msg_user_deleted"@),
        ("msg_user_status_updated"@, "msg_user_status_updated"@),
        ("msg_password_reset_flag_set"@, "msg_password_reset_flag_set"@),
        ("err_not_authenticated"@, "err_not_authenticated"@),
        ("err_forbidden"@, "err_forbidden"@),
        ("err_server_only"@, "err_server_only"@),
        ("err_username_required"@, "err_username_required"@),
        ("err_password_too_short"@, "err_password_too_short"@),
        ("err_username_exists"@, "err_username_exists"@),
        ("err_user_not_found"@, "err_user_not_found"@),
        ("err_invalid_email"@, "err_invalid_email"@),
        ("err_email_taken"@, "err_email_taken"@),
        ("err_invalid_status"@, "err_invalid_status"@),
        ("err_invalid_role"@, "err_invalid_role"@),
        ("err_roles_required"@, "err_roles_required"@),
        ("err_cannot_delete_self"@, "err_cannot_delete_self"@),
    ]
}

fn admin_page_pairs() -> (r: Vec<(&'static str, &'static str)>)
    ensures
        pairs_text(r@) == admin_page_table(),
{
    let mut v: Vec<(&'static str, &'static str)> = Vec::new();
    v.push(("msg_missing_csrf", "msg_missing_csrf"));
    v.push(("msg_user_created", "msg_user_created"));
    v.push(("msg_user_updated", "msg_user_updated"));
    v.push(("msg_user_deleted", "msg_user_deleted"));
    v.push(("msg_user_status_updated", "msg_user_status_updated"));
    v.push(("msg_password_reset_flag_set", "msg_password_reset_flag_set"));
    v.push(("err_not_authenticated", "err_not_authenticated"));
    v.push(("err_forbidden", "err_forbidden"));
    v.push(("err_server_only", "err_server_only"));
    v.push(("err_username_required", "err_username_required"));
    v.push(("err_password_too_short", "err_password_too_short"));
    v.push(("err_username_exists", "err_username_exists"));
    v.push(("err_user_not_found", "err_user_not_found"));
    v.push(("err_invalid_email", "err_invalid_email"));
    v.push(("err_email_taken", "err_email_taken"));
    v.push(("err_invalid_status", "err_invalid_status"));
    v.push(("err_invalid_role", "err_invalid_role"));
    v.push(("err_roles_required", "err_roles_required"));
    v.push(("err_cannot_delete_self", "err_cannot_delete_self"));
    assert(pairs_text(v@) =~= admin_page_table());
    v
}

/// The translation key (under `account`) of a server message on the password
/// page; an unknown key is shown as `error_unknown`.
pub fn password_page_message(raw: &str) -> (r: &'static str)
    ensures
        r@ == match lookup_key(password_page_table(), raw@) {
            Some(k) => k,
            None => "error_unknown"@,
        },
{
    match find_key(&password_page_pairs(), raw) {
        Some(k) => k,
        None => "error_unknown",
    }
}

/// The translation key (under `account`) of a server message on the profile
/// page; an unknown key is shown as `error_unknown`.
pub fn profile_page_message(raw: &str) -> (r: &'static str)
    ensures
        r@ == match lookup_key(profile_page_table(), raw@) {
            Some(k) => k,
            None => "error_unknown"@,
        },
{
    match find_key(&profile_page_pairs(), raw) {
        Some(k) => k,
        None => "error_unknown",
    }
}

/// The translation key (under `account_webauthn`) of a server message on the
/// passkey page; `None` for an unknown key, which is shown as it is.
pub fn webauthn_page_message(raw: &str) -> (r: Option<&'static str>)
    ensures
        opt_key(r) == lookup_key(webauthn_page_table(), raw@),
{
    find_key(&webauthn_page_pairs(), raw)
}

/// The translation key (under `admin`) of a message on the administration
/// page; `None` for an unknown key, which is shown as it is.
pub fn admin_page_message(raw: &str) -> (r: Option<&'static str>)
    ensures
        opt_key(r) == lookup_key(admin_page_table(), raw@),
{
    find_key(&admin_page_pairs(), raw)
}

/// The translation key (under `protected`) of a server message on the
/// protected page: only "err_not_authenticated" is translated; any other key
/// is shown as it is.
pub fn protected_page_message(raw: &str) -> (r: Option<&'static str>)
    ensures
        opt_key(r) == if raw@ == "err_not_authenticated"@ {
            Some("not_authenticated"@)
        } else {
            None::<Seq<char>>
        },
{
    if crate::text::same_text(raw, "err_not_authenticated") {
        Some("not_authenticated")
    } else {
        None
    }
}

} // verus!
