//! The account pages of a signed-in user: password change, profile, and the
//! rules around passkeys (names, ownership, user handles, passkey sign-in).

use vstd::prelude::*;
use vstd::string::StringExecFns;

use crate::admin::{fields_error, normalize_user_fields, AdminError, UserFields, MIN_PASSWORD_BYTES};
use crate::csrf::{base64_url_decode, base64_url_encode, base64_url_text, base64_url_text_is_injective};
use crate::auth::{is_active_status, passkey_login_allowed, passkey_sign_in_allowed, User, UserRecord};
use crate::password::{generate_hash, password_matches_hash, verify_password};
use crate::messages::{lookup_key, password_page_message, password_page_table, profile_page_message, profile_page_table};
use crate::text::{byte_count, byte_len, keyword_text, trim, trim_text};

verus! {

/// Why an account request was refused.
#[derive(Clone, Copy, Debug, PartialEq, Eq, Structural)]
pub enum AccountError {
    NotAuthenticated,
    PasswordMismatch,
    PasswordTooShort,
    UserNotFound,
    CurrentPasswordIncorrect,
    UsernameRequired,
    InvalidEmail,
    UsernameExists,
    EmailTaken,
    Forbidden,
    PasskeyNameRequired,
    MissingWebauthnUserHandle,
    InvalidWebauthnUserHandle,
    UnknownUserForDiscoverableCredential,
    InvalidCredentials,
    NoPasskeysRegisteredForUser,
    Base64UrlDecodeFailed,
    SessionError,
    MissingRegistrationState,
    MissingDiscoverableAuthState,
}

impl AccountError {
    /// The message key that the server reports for the error.
    pub fn code(&self) -> (r: &'static str)
        ensures
            r@ == match self {
                AccountError::NotAuthenticated => "err_not_authenticated"@,
                AccountError::PasswordMismatch => "err_password_mismatch"@,
                AccountError::PasswordTooShort => "err_password_too_short"@,
                AccountError::UserNotFound => "err_user_not_found"@,
                AccountError::CurrentPasswordIncorrect => "err_current_password_incorrect"@,
                AccountError::UsernameRequired => "err_username_required"@,
                AccountError::InvalidEmail => "err_invalid_email"@,
                AccountError::UsernameExists => "err_username_exists"@,
                AccountError::EmailTaken => "err_email_taken"@,
                AccountError::Forbidden => "err_forbidden"@,
                AccountError::PasskeyNameRequired => "err_passkey_name_required"@,
                AccountError::MissingWebauthnUserHandle => "err_missing_webauthn_user_handle"@,
                AccountError::InvalidWebauthnUserHandle => "err_invalid_webauthn_user_handle"@,
                AccountError::UnknownUserForDiscoverableCredential => "err_unknown_user_for_discoverable_credential"@,
                AccountError::InvalidCredentials => "error_invalid_credentials"@,
                AccountError::NoPasskeysRegisteredForUser => "err_no_passkeys_registered_for_user"@,
                AccountError::Base64UrlDecodeFailed => "err_base64url_decode_failed"@,
                AccountError::SessionError => "err_session_error"@,
                AccountError::MissingRegistrationState => "err_missing_registration_state"@,
                AccountError::MissingDiscoverableAuthState => "err_missing_discoverable_auth_state"@,
            },
    {
        match self {
            AccountError::NotAuthenticated => "err_not_authenticated",
            AccountError::PasswordMismatch => "err_password_mismatch",
            AccountError::PasswordTooShort => "err_password_too_short",
            AccountError::UserNotFound => "err_user_not_found",
            AccountError::CurrentPasswordIncorrect => "err_current_password_incorrect",
            AccountError::UsernameRequired => "err_username_required",
            AccountError::InvalidEmail => "err_invalid_email",
            AccountError::UsernameExists => "err_username_exists",
            AccountError::EmailTaken => "err_email_taken",
            AccountError::Forbidden => "err_forbidden",
            AccountError::PasskeyNameRequired => "err_passkey_name_required",
            AccountError::MissingWebauthnUserHandle => "err_missing_webauthn_user_handle",
            AccountError::InvalidWebauthnUserHandle => "err_invalid_webauthn_user_handle",
            AccountError::UnknownUserForDiscoverableCredential => "err_unknown_user_for_discoverable_credential",
            AccountError::InvalidCredentials => "error_invalid_credentials",
            AccountError::NoPasskeysRegisteredForUser => "err_no_passkeys_registered_for_user",
            AccountError::Base64UrlDecodeFailed => "err_base64url_decode_failed",
            AccountError::SessionError => "err_session_error",
            AccountError::MissingRegistrationState => "err_missing_registration_state",
            AccountError::MissingDiscoverableAuthState => "err_missing_discoverable_auth_state",
        }
    }

    /// The HTTP status that a passkey sign-in answers a refusal with: 400
    /// without a pending sign-in challenge, 401 for an unknown account, an
    /// account that may not sign in, or one without passkeys; none set for
    /// other errors (the server's default answer for a failed request).
    pub fn passkey_sign_in_status(&self) -> (r: Option<u16>)
        ensures
            r == match self {
                AccountError::MissingDiscoverableAuthState => Some(400u16),
                AccountError::UnknownUserForDiscoverableCredential | AccountError::InvalidCredentials
                | AccountError::NoPasskeysRegisteredForUser => Some(401u16),
                _ => None::<u16>,
            },
    {
        match self {
            AccountError::MissingDiscoverableAuthState => Some(400),
            AccountError::UnknownUserForDiscoverableCredential | AccountError::InvalidCredentials
            | AccountError::NoPasskeysRegisteredForUser => Some(401),
            _ => None,
        }
    }
}

/// The profile fields of an account, as the profile page shows them.
pub struct AccountProfileDto {
    pub username: String,
    pub first_name: String,
    pub last_name: String,
    pub email: String,
}

/// A registered passkey, as the passkey page lists it.
pub struct WebauthnCredentialRow {
    pub id: i64,
    pub name: String,
    pub created_at: String,
}

/// Why a password change is refused, if it is, checking in order: the two
/// new entries differ, the trimmed new password is shorter than ten bytes,
/// the account is gone, the current password does not verify.
pub open spec fn password_change_error(
    current: Option<UserRecord>,
    current_password: Seq<char>,
    new_password: Seq<char>,
    new_password_confirm: Seq<char>,
) -> Option<AccountError> {
    if new_password != new_password_confirm {
        Some(AccountError::PasswordMismatch)
    } else if byte_len(trim_text(new_password)) < MIN_PASSWORD_BYTES {
        Some(AccountError::PasswordTooShort)
    } else if current is None {
        Some(AccountError::UserNotFound)
    } else if !password_matches_hash(current_password, current->0.password_hash@) {
        Some(AccountError::CurrentPasswordIncorrect)
    } else {
        None
    }
}

/// A signed-in user's password change, given their account as stored (if it
/// still exists): on success the account with a hash of the trimmed new
/// password and without a pending reset.
pub fn account_change_password(
    current: Option<UserRecord>,
    current_password: &str,
    new_password: &str,
    new_password_confirm: &str,
) -> (r: Result<UserRecord, AccountError>)
    requires
        byte_len(trim_text(new_password@)) <= 0xFFFF_FFFF,
    ensures
        match r {
            Ok(u) => {
                &&& password_change_error(current, current_password@, new_password@, new_password_confirm@) is None
                &&& u == (UserRecord {
                    password_hash: u.password_hash,
                    password_reset_required: false,
                    ..current->0
                })
                &&& password_matches_hash(trim_text(new_password@), u.password_hash@)
            },
            Err(e) => password_change_error(current, current_password@, new_password@, new_password_confirm@)
                == Some(e),
        },
{
    let a = String::from_str(new_password);
    let b = String::from_str(new_password_confirm);
    if a != b {
        return Err(AccountError::PasswordMismatch);
    }
    let new_password = trim(new_password);
    if byte_count(new_password.as_str()) < MIN_PASSWORD_BYTES {
        return Err(AccountError::PasswordTooShort);
    }
    let u = match current {
        None => {
            return Err(AccountError::UserNotFound);
        },
        Some(u) => u,
    };
    if !verify_password(current_password, u.password_hash.as_str()) {
        return Err(AccountError::CurrentPasswordIncorrect);
    }
    let new_hash = generate_hash(new_password.as_str());
    Ok(UserRecord { password_hash: new_hash, password_reset_required: false, ..u })
}

/// The browser-side check of the password form: the two new entries match and
/// the new password has at least ten bytes (untrimmed).
pub fn check_password_form(new_password: &str, confirm: &str) -> (r: Result<(), AccountError>)
    ensures
        r == if new_password@ != confirm@ {
            Err(AccountError::PasswordMismatch)
        } else if byte_len(new_password@) < MIN_PASSWORD_BYTES {
            Err(AccountError::PasswordTooShort)
        } else {
            Ok(())
        },
{
    let a = String::from_str(new_password);
    let b = String::from_str(confirm);
    if a != b {
        return Err(AccountError::PasswordMismatch);
    }
    if byte_count(new_password) < MIN_PASSWORD_BYTES {
        return Err(AccountError::PasswordTooShort);
    }
    Ok(())
}

/// A password change goes through exactly when the two new entries match,
/// the trimmed new password is long enough, the account still exists and the
/// submitted current password verifies against its stored hash; a pending
/// reset does not waive that check, and a current password that does not
/// verify is refused as such once the new entries pass.
pub proof fn password_change_needs_current_password(
    current: Option<UserRecord>,
    current_password: Seq<char>,
    new_password: Seq<char>,
    new_password_confirm: Seq<char>,
)
    ensures
        password_change_error(current, current_password, new_password, new_password_confirm) is None <==> {
            &&& new_password == new_password_confirm
            &&& byte_len(trim_text(new_password)) >= MIN_PASSWORD_BYTES
            &&& current matches Some(u) && password_matches_hash(current_password, u.password_hash@)
        },
        (current matches Some(u) && new_password == new_password_confirm && byte_len(trim_text(new_password))
            >= MIN_PASSWORD_BYTES && !password_matches_hash(current_password, u.password_hash@))
            ==> password_change_error(current, current_password, new_password, new_password_confirm) == Some(
            AccountError::CurrentPasswordIncorrect,
        ),
{
}

/// After a successful password change the account no longer needs a reset,
/// and password sign-in with the new password (as stored, trimmed) admits it
/// while its status is active.
pub proof fn password_change_clears_reset_and_admits_new_password(
    current: UserRecord,
    current_password: Seq<char>,
    new_password: Seq<char>,
    updated: UserRecord,
)
    requires
        updated == (UserRecord {
            password_hash: updated.password_hash,
            password_reset_required: false,
            ..current
        }),
        password_matches_hash(trim_text(new_password), updated.password_hash@),
        is_active_status(current.status@),
    ensures
        !updated.password_reset_required,
        crate::auth::password_sign_in(Some(updated), trim_text(new_password)) == Some(updated),
        passkey_sign_in_allowed(updated),
{
}

/// The profile of an account.
pub fn account_profile(u: &UserRecord) -> (r: AccountProfileDto)
    ensures
        r.username == u.username,
        r.first_name == u.first_name,
        r.last_name == u.last_name,
        r.email == u.email,
{
    AccountProfileDto {
        username: u.username.clone(),
        first_name: u.first_name.clone(),
        last_name: u.last_name.clone(),
        email: u.email.clone(),
    }
}

/// The account error for a refused identity field.
fn account_error_of(e: AdminError) -> (r: AccountError)
    ensures
        e == AdminError::UsernameRequired ==> r == AccountError::UsernameRequired,
        e == AdminError::InvalidEmail ==> r == AccountError::InvalidEmail,
{
    match e {
        AdminError::UsernameRequired => AccountError::UsernameRequired,
        _ => AccountError::InvalidEmail,
    }
}

/// Normalises and checks the fields of the profile form: trimmed, the email
/// lower-cased; a username is required and the email must hold an `@`.
pub fn normalize_profile(username: &str, first_name: &str, last_name: &str, email: &str) -> (r: Result<UserFields, AccountError>)
    ensures
        match r {
            Ok(f) => fields_error(username@, email@) is None && crate::admin::fields_match(f, username@, first_name@, last_name@, email@),
            Err(e) => (fields_error(username@, email@) == Some(AdminError::UsernameRequired) && e == AccountError::UsernameRequired)
                || (fields_error(username@, email@) == Some(AdminError::InvalidEmail) && e == AccountError::InvalidEmail),
        },
{
    match normalize_user_fields(username, first_name, last_name, email) {
        Ok(f) => Ok(f),
        Err(e) => Err(account_error_of(e)),
    }
}

/// A profile update given the store's answers, checked in order: the new
/// username or email is taken by another account, the account is gone.
/// On success the account with the new fields and the profile it now shows.
pub fn apply_profile_update(
    current: Option<UserRecord>,
    fields: UserFields,
    username_taken: bool,
    email_taken: bool,
) -> (r: Result<(UserRecord, AccountProfileDto), AccountError>)
    ensures
        username_taken ==> r == Err::<(UserRecord, AccountProfileDto), AccountError>(AccountError::UsernameExists),
        !username_taken && email_taken ==> r == Err::<(UserRecord, AccountProfileDto), AccountError>(AccountError::EmailTaken),
        !username_taken && !email_taken && current is None ==> r == Err::<(UserRecord, AccountProfileDto), AccountError>(AccountError::UserNotFound),
        !username_taken && !email_taken && current is Some ==> (r matches Ok((u, p)) && u == (UserRecord {
            username: fields.username,
            first_name: fields.first_name,
            last_name: fields.last_name,
            email: fields.email,
            ..current->0
        }) && p.username == fields.username && p.first_name == fields.first_name
            && p.last_name == fields.last_name && p.email == fields.email),
{
    if username_taken {
        return Err(AccountError::UsernameExists);
    }
    if email_taken {
        return Err(AccountError::EmailTaken);
    }
    let u = match current {
        None => {
            return Err(AccountError::UserNotFound);
        },
        Some(u) => u,
    };
    let profile = AccountProfileDto {
        username: fields.username.clone(),
        first_name: fields.first_name.clone(),
        last_name: fields.last_name.clone(),
        email: fields.email.clone(),
    };
    let updated = UserRecord {
        username: fields.username,
        first_name: fields.first_name,
        last_name: fields.last_name,
        email: fields.email,
        ..u
    };
    Ok((updated, profile))
}

/// Whether a passkey may be deleted by the signed-in user: nothing to do when
/// it does not exist; refused when another account owns it; deleted
/// otherwise.
pub fn passkey_delete_decision(owner: Option<i64>, user_id: u64) -> (r: Result<bool, AccountError>)
    ensures
        r == match owner {
            None => Ok(false),
            Some(o) => if o != user_id as i64 {
                Err(AccountError::Forbidden)
            } else {
                Ok(true)
            },
        },
{
    match owner {
        None => Ok(false),
        Some(o) => {
            if o != user_id as i64 {
                Err(AccountError::Forbidden)
            } else {
                Ok(true)
            }
        },
    }
}

/// The name of a passkey being registered: trimmed, and required.
pub fn passkey_name(name: &str) -> (r: Result<String, AccountError>)
    ensures
        match r {
            Ok(n) => n@ == trim_text(name@) && n@.len() > 0,
            Err(e) => trim_text(name@).len() == 0 && e == AccountError::PasskeyNameRequired,
        },
{
    let n = trim(name);
    if n.as_str().is_empty() {
        Err(AccountError::PasskeyNameRequired)
    } else {
        Ok(n)
    }
}

/// The name stored for a finished registration: the name kept in the session,
/// or "Passkey" when there is none.
pub fn registration_name(stored: Option<String>) -> (r: String)
    ensures
        match stored {
            Some(n) => r == n,
            None => r@ == "Passkey"@,
        },
{
    match stored {
        Some(n) => n,
        None => String::from_str("Passkey"),
    }
}

/// The check of a passkey sign-in once the credential names an account:
/// refused for an unknown account, for an account that may not sign in, and
/// for an account without registered passkeys.
pub fn passkey_login_account(found: Option<UserRecord>, passkey_count: usize) -> (r: Result<UserRecord, AccountError>)
    ensures
        r == match found {
            None => Err(AccountError::UnknownUserForDiscoverableCredential),
            Some(u) => if !passkey_sign_in_allowed(u) {
                Err(AccountError::InvalidCredentials)
            } else if passkey_count == 0 {
                Err(AccountError::NoPasskeysRegisteredForUser)
            } else {
                Ok(u)
            },
        },
{
    match found {
        None => Err(AccountError::UnknownUserForDiscoverableCredential),
        Some(u) => {
            if !passkey_login_allowed(&u) {
                Err(AccountError::InvalidCredentials)
            } else if passkey_count == 0 {
                Err(AccountError::NoPasskeysRegisteredForUser)
            } else {
                Ok(u)
            }
        },
    }
}

/// The lower-case hexadecimal digits.
pub open spec fn is_lower_hex(c: char) -> bool {
    ('0' <= c && c <= '9') || ('a' <= c && c <= 'f')
}

/// The hyphenated form of a UUID: 36 characters, hyphens at positions 8, 13,
/// 18 and 23, lower-case hexadecimal digits elsewhere.
pub open spec fn is_hyphenated_uuid_text(s: Seq<char>) -> bool {
    &&& s.len() == 36
    &&& forall|i: int|
        0 <= i < 36 ==> if i == 8 || i == 13 || i == 18 || i == 23 {
            #[trigger] s[i] == '-'
        } else {
            is_lower_hex(s[i])
        }
}

/// A hexadecimal digit in either case.
pub open spec fn is_hex_digit(c: char) -> bool {
    ('0' <= c && c <= '9') || ('a' <= c && c <= 'f') || ('A' <= c && c <= 'F')
}

/// 36 characters: hyphens at positions 8, 13, 18 and 23, hexadecimal digits
/// (either case) elsewhere.
pub open spec fn is_hyphenated_hex(s: Seq<char>) -> bool {
    &&& s.len() == 36
    &&& forall|i: int|
        0 <= i < 36 ==> if i == 8 || i == 13 || i == 18 || i == 23 {
            #[trigger] s[i] == '-'
        } else {
            is_hex_digit(s[i])
        }
}

/// Whether `uuid::Uuid::parse_str` accepts a text: 32 hexadecimal digits; the
/// hyphenated form; the hyphenated form in braces; or "urn:uuid:" (in any
/// ASCII case) followed by the hyphenated form. Digits may be of either case.
pub open spec fn uuid_text_parses(s: Seq<char>) -> bool {
    ||| (s.len() == 32 && forall|i: int| 0 <= i < 32 ==> is_hex_digit(#[trigger] s[i]))
    ||| is_hyphenated_hex(s)
    ||| (s.len() == 38 && s[0] == '{' && s[37] == '}' && is_hyphenated_hex(s.subrange(1, 37)))
    ||| (s.len() == 45 && crate::text::eq_ignore_ascii_case_text(s.take(9), "urn:uuid:"@)
        && is_hyphenated_hex(s.skip(9)))
}

/// `uuid::Uuid::new_v4().to_string()`: a random UUID in hyphenated form. Only
/// the form is stated: the value is random.
#[verifier::external_body]
pub(crate) fn new_uuid_text() -> (r: String)
    ensures
        is_hyphenated_uuid_text(r@),
{
    uuid::Uuid::new_v4().to_string()
}

/// `uuid::Uuid::parse_str(..).is_ok()`: whether the text is a UUID in one of
/// the forms that the crate parses, as `uuid_text_parses` lists them.
#[verifier::external_body]
fn uuid_parses(s: &str) -> (r: bool)
    ensures
        r == uuid_text_parses(s@),
{
    uuid::Uuid::parse_str(s).is_ok()
}

/// An account with a passkey user handle: unchanged when it has one; given a
/// fresh random UUID otherwise. Also reports whether the handle was added.
pub fn ensure_webauthn_handle(u: UserRecord) -> (r: (UserRecord, bool))
    ensures
        u.webauthn_user_handle is Some ==> r.0 == u && !r.1,
        u.webauthn_user_handle is None ==> r.1,
        u.webauthn_user_handle is None ==> r.0 == (UserRecord { webauthn_user_handle: r.0.webauthn_user_handle, ..u }),
        u.webauthn_user_handle is None ==> (r.0.webauthn_user_handle matches Some(h) && is_hyphenated_uuid_text(h@)),
{
    match u.webauthn_user_handle {
        Some(_) => (u, false),
        None => {
            let h = new_uuid_text();
            (UserRecord { webauthn_user_handle: Some(h), ..u }, true)
        },
    }
}

/// The passkey user handle of an account, checked to be a UUID.
pub fn webauthn_user_handle(u: &UserRecord) -> (r: Result<String, AccountError>)
    ensures
        r == match u.webauthn_user_handle {
            None => Err(AccountError::MissingWebauthnUserHandle),
            Some(h) => if uuid_text_parses(h@) {
                Ok(h)
            } else {
                Err(AccountError::InvalidWebauthnUserHandle)
            },
        },
{
    match &u.webauthn_user_handle {
        None => Err(AccountError::MissingWebauthnUserHandle),
        Some(h) => {
            let parses = uuid_parses(h.as_str());
            accept_user_handle(h.clone(), parses)
        },
    }
}

/// A stored passkey user handle, once it is known whether it parses as a
/// UUID: kept when it does, refused when it does not.
pub fn accept_user_handle(handle: String, parses: bool) -> (r: Result<String, AccountError>)
    ensures
        r == if parses {
            Ok::<String, AccountError>(handle)
        } else {
            Err(AccountError::InvalidWebauthnUserHandle)
        },
{
    if parses {
        Ok(handle)
    } else {
        Err(AccountError::InvalidWebauthnUserHandle)
    }
}

/// The URL-safe base64 text, without padding, that carries passkey data
/// between browser and server.
pub fn b64u_encode(bytes: &[u8]) -> (r: String)
    ensures
        r@ == base64_url_text(bytes@),
{
    base64_url_encode(bytes)
}

/// The bytes of passkey data sent as URL-safe base64 without padding; a text
/// that is not such an encoding is refused.
pub fn b64u_decode(s: &str) -> (r: Result<Vec<u8>, AccountError>)
    ensures
        r matches Ok(b) ==> base64_url_text(b@) == s@,
        r is Err <==> !(exists|b: Seq<u8>| base64_url_text(b) == s@),
        r matches Err(e) ==> e == AccountError::Base64UrlDecodeFailed,
        forall|b: Seq<u8>| #[trigger] base64_url_text(b) == s@ ==> (r matches Ok(v) && v@ == b),
{
    match base64_url_decode(s) {
        Some(v) => {
            proof {
                assert forall|b: Seq<u8>| #[trigger] base64_url_text(b) == s@ implies v@ == b by {
                    base64_url_text_is_injective(v@, b);
                }
            }
            Ok(v)
        },
        None => Err(AccountError::Base64UrlDecodeFailed),
    }
}

/// What the passkey page does when a passkey is to be registered.
#[derive(Clone, Debug)]
pub enum PasskeyRegistration {
    /// Another passkey action is under way: nothing happens.
    Busy,
    /// There is no CSRF token yet (message `msg_missing_csrf`).
    MissingCsrf,
    /// The name is empty (message `msg_passkey_name_required`).
    NameRequired,
    /// The registration starts under this (trimmed) name.
    Start(String),
}

/// The passkey page's decision on a registration request, checked in order:
/// an action under way, a missing CSRF token, an empty name.
pub fn passkey_registration_request(busy: bool, has_csrf: bool, draft_name: &str) -> (r: PasskeyRegistration)
    ensures
        busy ==> r is Busy,
        !busy && !has_csrf ==> r is MissingCsrf,
        !busy && has_csrf && trim_text(draft_name@).len() == 0 ==> r is NameRequired,
        !busy && has_csrf && trim_text(draft_name@).len() > 0 ==> (r matches PasskeyRegistration::Start(n) && n@
            == trim_text(draft_name@)),
{
    if busy {
        return PasskeyRegistration::Busy;
    }
    if !has_csrf {
        return PasskeyRegistration::MissingCsrf;
    }
    let name = trim(draft_name);
    if name.as_str().is_empty() {
        PasskeyRegistration::NameRequired
    } else {
        PasskeyRegistration::Start(name)
    }
}

/// What the passkey page does when a passkey is to be deleted.
#[derive(Clone, Copy, Debug, PartialEq, Eq, Structural)]
pub enum PasskeyDeletion {
    /// Another passkey action is under way: nothing happens.
    Busy,
    /// There is no CSRF token yet (message `msg_missing_csrf`).
    MissingCsrf,
    /// The deletion of this passkey starts.
    Start(i64),
}

/// The passkey page's decision on a deletion request.
pub fn passkey_deletion_request(busy: bool, has_csrf: bool, id: i64) -> (r: PasskeyDeletion)
    ensures
        r == if busy {
            PasskeyDeletion::Busy
        } else if !has_csrf {
            PasskeyDeletion::MissingCsrf
        } else {
            PasskeyDeletion::Start(id)
        },
{
    if busy {
        PasskeyDeletion::Busy
    } else if !has_csrf {
        PasskeyDeletion::MissingCsrf
    } else {
        PasskeyDeletion::Start(id)
    }
}

/// The signed-in user that an account request acts for; refused for a
/// visitor.
pub fn require_user(user: Option<User>) -> (r: Result<User, AccountError>)
    ensures
        match user {
            Some(u) => r == Ok::<User, AccountError>(u),
            None => r == Err::<User, AccountError>(AccountError::NotAuthenticated),
        },
{
    match user {
        Some(u) => Ok(u),
        None => Err(AccountError::NotAuthenticated),
    }
}

/// Takes the pending passkey sign-in challenge out of the session, so that it
/// can be used once only: refused (and the session left as it is) when there
/// is none.
pub fn take_discoverable_state<S>(slot: &mut Option<S>) -> (r: Result<S, AccountError>)
    ensures
        match *old(slot) {
            None => r == Err::<S, AccountError>(AccountError::MissingDiscoverableAuthState) && *final(slot)
                == *old(slot),
            Some(st) => r == Ok::<S, AccountError>(st) && *final(slot) is None,
        },
{
    match slot.take() {
        Some(st) => Ok(st),
        None => Err(AccountError::MissingDiscoverableAuthState),
    }
}

/// The checks of a passkey sign-in after the challenge was taken from the
/// session: refused without a challenge, then as `passkey_login_account`
/// refuses.
pub fn passkey_sign_in_check(has_challenge: bool, found: Option<UserRecord>, passkey_count: usize) -> (r: Result<
    UserRecord,
    AccountError,
>)
    ensures
        !has_challenge ==> r == Err::<UserRecord, AccountError>(AccountError::MissingDiscoverableAuthState),
        has_challenge ==> r == match found {
            None => Err(AccountError::UnknownUserForDiscoverableCredential),
            Some(u) => if !passkey_sign_in_allowed(u) {
                Err(AccountError::InvalidCredentials)
            } else if passkey_count == 0 {
                Err(AccountError::NoPasskeysRegisteredForUser)
            } else {
                Ok(u)
            },
        },
{
    if !has_challenge {
        return Err(AccountError::MissingDiscoverableAuthState);
    }
    passkey_login_account(found, passkey_count)
}

/// What a session holds of a passkey registration under way: the pending
/// registration challenge and the name chosen for the passkey.
pub struct RegistrationSlot<S> {
    pub state: Option<S>,
    pub name: Option<String>,
}

impl<S> RegistrationSlot<S> {
    /// Takes the pending registration out of the session, for one use: the
    /// challenge and the name under which the passkey is stored ("Passkey"
    /// when none was kept). Refused, and the session left as it is, when no
    /// registration is pending; otherwise both entries are removed.
    pub fn take(&mut self) -> (r: Result<(S, String), AccountError>)
        ensures
            match old(self).state {
                None => r matches Err(e) && e == AccountError::MissingRegistrationState && final(self).state
                    == old(self).state && final(self).name == old(self).name,
                Some(st) => {
                    &&& r matches Ok((s2, n)) && s2 == st && match old(self).name {
                        Some(kept) => n == kept,
                        None => n@ == "Passkey"@,
                    }
                    &&& final(self).state is None
                    &&& final(self).name is None
                },
            },
    {
        if self.state.is_none() {
            return Err(AccountError::MissingRegistrationState);
        }
        let st = match self.state.take() {
            Some(st) => st,
            None => {
                return Err(AccountError::MissingRegistrationState);
            },
        };
        let name = registration_name(self.name.take());
        Ok((st, name))
    }
}

/// A registered passkey's row as it is stored.
pub struct NewWebauthnCredential {
    pub user_id: i64,
    pub credential_id: String,
    pub passkey_json: String,
    pub sign_count: i64,
    pub name: String,
}

/// The row stored for a finished passkey registration: owned by the user,
/// under the given name, the credential id in URL-safe base64 without
/// padding, the serialized passkey, and a sign count of 0.
pub fn new_credential_row(user_id: u64, name: String, credential_id: &[u8], passkey_json: String) -> (r:
    NewWebauthnCredential)
    ensures
        r.user_id == user_id as i64,
        r.name == name,
        r.credential_id@ == base64_url_text(credential_id@),
        r.passkey_json == passkey_json,
        r.sign_count == 0,
{
    NewWebauthnCredential {
        user_id: user_id as i64,
        credential_id: b64u_encode(credential_id),
        passkey_json,
        sign_count: 0,
        name,
    }
}

/// The state of the password page: the three fields, whether a change is
/// under way, and the message shown (translation keys under `account`).
pub struct PasswordPage {
    pub current_password: String,
    pub new_password: String,
    pub confirm_password: String,
    pub pending: bool,
    pub error: Option<&'static str>,
    pub success: Option<&'static str>,
}

/// What a submit of the password page leads to.
#[derive(Clone, Copy, Debug, PartialEq, Eq, Structural)]
pub enum PasswordSubmit {
    /// A change is already under way: nothing happens.
    Ignored,
    /// The form was refused in the browser; the page shows the error.
    Refused,
    /// The change is sent to the server.
    Send,
}

/// The view of an optional message key.
pub open spec fn opt_message(m: Option<&'static str>) -> Option<Seq<char>> {
    match m {
        Some(k) => Some(k@),
        None => None,
    }
}

/// The key shown for a refusal of the password form in the browser.
pub open spec fn password_form_error_key(new_password: Seq<char>, confirm: Seq<char>) -> Option<Seq<char>> {
    if new_password != confirm {
        Some("error_password_mismatch"@)
    } else if byte_len(new_password) < MIN_PASSWORD_BYTES {
        Some("error_password_too_short"@)
    } else {
        None
    }
}

impl PasswordPage {
    /// Handles a submit of the form: ignored while a change is under way;
    /// refused without a CSRF token, then as `check_password_form` refuses;
    /// otherwise the change is under way and the messages are cleared. The
    /// fields are kept in every case.
    pub fn submit(&mut self, has_csrf: bool) -> (r: PasswordSubmit)
        ensures
            final(self).current_password == old(self).current_password,
            final(self).new_password == old(self).new_password,
            final(self).confirm_password == old(self).confirm_password,
            old(self).pending ==> r == PasswordSubmit::Ignored && final(self).pending && final(self).error
                == old(self).error && final(self).success == old(self).success,
            !old(self).pending && !has_csrf ==> r == PasswordSubmit::Refused && !final(self).pending
                && opt_message(final(self).error) == Some("error_missing_csrf"@) && final(self).success is None,
            !old(self).pending && has_csrf ==> match password_form_error_key(
                old(self).new_password@,
                old(self).confirm_password@,
            ) {
                Some(k) => r == PasswordSubmit::Refused && !final(self).pending && opt_message(final(self).error)
                    == Some(k) && final(self).success is None,
                None => r == PasswordSubmit::Send && final(self).pending && final(self).error is None
                    && final(self).success is None,
            },
    {
        if self.pending {
            return PasswordSubmit::Ignored;
        }
        if !has_csrf {
            self.error = Some("error_missing_csrf");
            self.success = None;
            return PasswordSubmit::Refused;
        }
        match check_password_form(self.new_password.as_str(), self.confirm_password.as_str()) {
            Err(AccountError::PasswordMismatch) => {
                self.error = Some("error_password_mismatch");
                self.success = None;
                PasswordSubmit::Refused
            },
            Err(_) => {
                self.error = Some("error_password_too_short");
                self.success = None;
                PasswordSubmit::Refused
            },
            Ok(()) => {
                self.pending = true;
                self.error = None;
                self.success = None;
                PasswordSubmit::Send
            },
        }
    }

    /// Handles the server's answer to a password change: the change is no
    /// longer under way; on success the three fields are cleared, the success
    /// message is shown and the result is `true` (the CSRF token and the auth
    /// snapshot are then refreshed); on failure the server's message is shown
    /// as the password page translates it, and the result is `false`.
    pub fn finish(&mut self, outcome: Result<(), String>) -> (r: bool)
        ensures
            !final(self).pending,
            match outcome {
                Ok(()) => {
                    &&& r
                    &&& final(self).current_password@ == Seq::<char>::empty()
                    &&& final(self).new_password@ == Seq::<char>::empty()
                    &&& final(self).confirm_password@ == Seq::<char>::empty()
                    &&& opt_message(final(self).success) == Some("success_password_updated"@)
                    &&& final(self).error is None
                },
                Err(e) => {
                    &&& !r
                    &&& final(self).current_password == old(self).current_password
                    &&& final(self).new_password == old(self).new_password
                    &&& final(self).confirm_password == old(self).confirm_password
                    &&& final(self).success is None
                    &&& opt_message(final(self).error) == Some(
                        match lookup_key(password_page_table(), e@) {
                            Some(k) => k,
                            None => "error_unknown"@,
                        },
                    )
                },
            },
    {
        let r = match outcome {
            Ok(()) => {
                self.current_password = String::new();
                self.new_password = String::new();
                self.confirm_password = String::new();
                self.success = Some("success_password_updated");
                self.error = None;
                true
            },
            Err(e) => {
                self.error = Some(password_page_message(e.as_str()));
                self.success = None;
                false
            },
        };
        self.pending = false;
        r
    }
}

/// The message the passkey page shows when a registration or deletion
/// fails: the translated prefix, ": ", then the detail (the translated
/// error, or the server's text where the page has no translation for it).
pub fn passkey_failure_message(prefix: &str, detail: &str) -> (r: String)
    ensures
        r@ == prefix@ + ": "@ + detail@,
{
    let mut r = String::from_str(prefix);
    r.append(": ");
    r.append(detail);
    r
}

/// The state of the profile page: the four fields, whether a request is under
/// way, whether the profile was loaded, and the message shown (translation
/// keys under `account`).
pub struct ProfilePage {
    pub username: String,
    pub first_name: String,
    pub last_name: String,
    pub email: String,
    pub pending: bool,
    pub loaded: bool,
    pub error: Option<&'static str>,
    pub success: Option<&'static str>,
}

/// What a submit of the profile page leads to.
#[derive(Clone, Copy, Debug, PartialEq, Eq, Structural)]
pub enum ProfileSubmit {
    /// A request is already under way: nothing happens.
    Ignored,
    /// There is no CSRF token; the page shows `error_missing_csrf`.
    Refused,
    /// The four fields are sent to the server as they stand.
    Send,
}

/// The key the profile page shows for a server error text.
pub open spec fn profile_error_key(raw: Seq<char>) -> Seq<char> {
    match lookup_key(profile_page_table(), raw) {
        Some(k) => k,
        None => "error_unknown"@,
    }
}

impl ProfilePage {
    /// Whether the page starts loading the profile: once the auth snapshot has
    /// arrived with a signed-in user, while the profile is not loaded and no
    /// request is under way.
    pub fn should_load(&self, auth_ready: bool, logged_in: bool) -> (r: bool)
        ensures
            r == (auth_ready && logged_in && !self.loaded && !self.pending),
    {
        auth_ready && logged_in && !self.loaded && !self.pending
    }

    /// Starts loading the profile: ignored (`false`) while a request is under
    /// way; otherwise the request is under way and the error is cleared.
    pub fn start_load(&mut self) -> (r: bool)
        ensures
            r == !old(self).pending,
            final(self).pending,
            r ==> final(self).error is None,
            !r ==> final(self).error == old(self).error,
            final(self).username == old(self).username,
            final(self).first_name == old(self).first_name,
            final(self).last_name == old(self).last_name,
            final(self).email == old(self).email,
            final(self).loaded == old(self).loaded,
            final(self).success == old(self).success,
    {
        if self.pending {
            return false;
        }
        self.pending = true;
        self.error = None;
        true
    }

    /// Takes the loaded profile: on success its four fields and the page is
    /// loaded; on failure the server's message as the page translates it. The
    /// request is no longer under way.
    pub fn finish_load(&mut self, outcome: Result<AccountProfileDto, String>)
        ensures
            !final(self).pending,
            final(self).success == old(self).success,
            match outcome {
                Ok(p) => {
                    &&& final(self).username == p.username
                    &&& final(self).first_name == p.first_name
                    &&& final(self).last_name == p.last_name
                    &&& final(self).email == p.email
                    &&& final(self).loaded
                    &&& final(self).error == old(self).error
                },
                Err(e) => {
                    &&& final(self).username == old(self).username
                    &&& final(self).first_name == old(self).first_name
                    &&& final(self).last_name == old(self).last_name
                    &&& final(self).email == old(self).email
                    &&& final(self).loaded == old(self).loaded
                    &&& opt_message(final(self).error) == Some(profile_error_key(e@))
                },
            },
    {
        match outcome {
            Ok(p) => {
                self.username = p.username;
                self.first_name = p.first_name;
                self.last_name = p.last_name;
                self.email = p.email;
                self.loaded = true;
            },
            Err(e) => {
                self.error = Some(profile_page_message(e.as_str()));
            },
        }
        self.pending = false;
    }

    /// Handles a submit of the form: ignored while a request is under way;
    /// refused without a CSRF token; otherwise the request is under way and
    /// the messages are cleared. The fields are kept in every case.
    pub fn submit(&mut self, has_csrf: bool) -> (r: ProfileSubmit)
        ensures
            final(self).username == old(self).username,
            final(self).first_name == old(self).first_name,
            final(self).last_name == old(self).last_name,
            final(self).email == old(self).email,
            final(self).loaded == old(self).loaded,
            old(self).pending ==> r == ProfileSubmit::Ignored && final(self).pending && final(self).error
                == old(self).error && final(self).success == old(self).success,
            !old(self).pending && !has_csrf ==> r == ProfileSubmit::Refused && !final(self).pending
                && opt_message(final(self).error) == Some("error_missing_csrf"@) && final(self).success is None,
            !old(self).pending && has_csrf ==> r == ProfileSubmit::Send && final(self).pending
                && final(self).error is None && final(self).success is None,
    {
        if self.pending {
            return ProfileSubmit::Ignored;
        }
        if !has_csrf {
            self.error = Some("error_missing_csrf");
            self.success = None;
            return ProfileSubmit::Refused;
        }
        self.pending = true;
        self.error = None;
        self.success = None;
        ProfileSubmit::Send
    }

    /// Handles the server's answer to a profile update: the request is no
    /// longer under way; on success the names and email become the stored
    /// ones, the page counts as loaded, the success message is shown and the
    /// result is `true` (the CSRF token and the auth snapshot are then
    /// refreshed); on failure the server's message is shown as the page
    /// translates it, and the result is `false`.
    pub fn finish_save(&mut self, outcome: Result<AccountProfileDto, String>) -> (r: bool)
        ensures
            !final(self).pending,
            final(self).username == old(self).username,
            match outcome {
                Ok(p) => {
                    &&& r
                    &&& final(self).first_name == p.first_name
                    &&& final(self).last_name == p.last_name
                    &&& final(self).email == p.email
                    &&& final(self).loaded
                    &&& opt_message(final(self).success) == Some("success_profile_updated"@)
                    &&& final(self).error is None
                },
                Err(e) => {
                    &&& !r
                    &&& final(self).first_name == old(self).first_name
                    &&& final(self).last_name == old(self).last_name
                    &&& final(self).email == old(self).email
                    &&& final(self).loaded == old(self).loaded
                    &&& final(self).success is None
                    &&& opt_message(final(self).error) == Some(profile_error_key(e@))
                },
            },
    {
        let r = match outcome {
            Ok(p) => {
                self.first_name = p.first_name;
                self.last_name = p.last_name;
                self.email = p.email;
                self.success = Some("success_profile_updated");
                self.error = None;
                self.loaded = true;
                true
            },
            Err(e) => {
                self.error = Some(profile_page_message(e.as_str()));
                self.success = None;
                false
            },
        };
        self.pending = false;
        r
    }

    /// After the auth snapshot was refreshed: the username field shows the
    /// signed-in user's name ("" without one).
    pub fn show_username(&mut self, name: Option<String>)
        ensures
            final(self).username@ == match name {
                Some(n) => n@,
                None => Seq::<char>::empty(),
            },
            final(self).first_name == old(self).first_name,
            final(self).last_name == old(self).last_name,
            final(self).email == old(self).email,
            final(self).pending == old(self).pending,
            final(self).loaded == old(self).loaded,
            final(self).error == old(self).error,
            final(self).success == old(self).success,
    {
        self.username = match name {
            Some(n) => n,
            None => String::new(),
        };
    }
}

} // verus!
