//! Seeding the first administrator, and optionally a staff account: the opt-in
//! flags, the choice and check of the seeded passwords, what happens to an
//! account that already exists, and the summary that is printed afterwards.

use vstd::prelude::*;
use vstd::string::StringExecFns;
use vstd::utf8::is_ascii_chars;

use crate::account::{is_hyphenated_uuid_text, is_lower_hex, new_uuid_text};
use crate::admin::active_text;
use crate::auth::UserRecord;
use crate::password::{generate_hash, password_matches_hash};
use crate::roles::RoleSet;
use crate::text::{
    byte_count, byte_len, chars_of, eq_ignore_ascii_case, eq_ignore_ascii_case_text, keyword, keyword_text,
    lowercase_text, push_char, same_text, to_lowercase, trim, trim_text,
};

verus! {

/// Whether a flag value, trimmed and lower-cased, switches the flag on.
pub open spec fn is_on_word(w: Seq<char>) -> bool {
    w == "1"@ || w == "true"@ || w == "yes"@ || w == "on"@
}

/// Reads a boolean flag from its raw value ("" when the variable is unset):
/// "1", "true", "yes" and "on", in any case and with surrounding whitespace,
/// switch it on; anything else leaves it off.
pub fn env_bool(raw: &str) -> (r: bool)
    ensures
        r == is_on_word(keyword_text(raw@)),
{
    let k = keyword(raw);
    same_text(k.as_str(), "1") || same_text(k.as_str(), "true") || same_text(k.as_str(), "yes")
        || same_text(k.as_str(), "on")
}

/// Where a seeded password came from.
#[derive(Clone, Copy, Debug, PartialEq, Eq, Structural)]
pub enum PasswordSource {
    ExplicitEnv,
    GeneratedRandom,
    DevInsecureDefault,
}

/// The label under which the summary reports a password's source.
pub open spec fn source_label_text(src: PasswordSource) -> Seq<char> {
    match src {
        PasswordSource::ExplicitEnv => "explicit_env"@,
        PasswordSource::GeneratedRandom => "generated_random"@,
        PasswordSource::DevInsecureDefault => "dev_insecure_default"@,
    }
}

/// The label under which the summary reports a password's source.
pub fn password_source_label(src: PasswordSource) -> (r: &'static str)
    ensures
        r@ == source_label_text(src),
{
    match src {
        PasswordSource::ExplicitEnv => "explicit_env",
        PasswordSource::GeneratedRandom => "generated_random",
        PasswordSource::DevInsecureDefault => "dev_insecure_default",
    }
}

/// What is wrong with a password that was handed in for seeding.
#[derive(Clone, Copy, Debug, PartialEq, Eq, Structural)]
pub enum PasswordFault {
    /// Set, but nothing is left after trimming.
    Empty,
    /// One of the well-known default words.
    Weak,
    /// Shorter than twelve bytes.
    TooShort,
}

/// Why seeding was refused.
#[derive(Clone, Debug)]
pub enum SeedError {
    /// The explicit opt-in flag is not set.
    NotAllowed,
    /// The staff account was to be called "admin".
    StaffNamedAdmin,
    /// The password given in the named variable is not acceptable.
    Password { name: String, fault: PasswordFault },
}

/// `e` is the refusal of the password in variable `name` for `fault`.
pub open spec fn is_password_error(e: SeedError, name: Seq<char>, fault: PasswordFault) -> bool {
    e matches SeedError::Password { name: n, fault: f } && n@ == name && f == fault
}

/// The text that follows the variable's name in a password refusal.
pub open spec fn fault_text(f: PasswordFault) -> Seq<char> {
    match f {
        PasswordFault::Empty => " was provided but empty"@,
        PasswordFault::Weak => " uses a forbidden weak/default value"@,
        PasswordFault::TooShort => " must be at least 12 characters in secure mode"@,
    }
}

impl SeedError {
    /// The message reported for the refusal.
    pub open spec fn message_text(self) -> Seq<char> {
        match self {
            SeedError::NotAllowed => "Refusing to seed admin without explicit opt-in.\nSet SEED_ALLOW_ADMIN=1 and run again."@,
            SeedError::StaffNamedAdmin => "SEED_STAFF_USERNAME must not be 'admin'"@,
            SeedError::Password { name, fault } => name@ + fault_text(fault),
        }
    }

    /// The message reported for the refusal.
    pub fn message(&self) -> (r: String)
        ensures
            r@ == self.message_text(),
    {
        match self {
            SeedError::NotAllowed => String::from_str(
                "Refusing to seed admin without explicit opt-in.\nSet SEED_ALLOW_ADMIN=1 and run again.",
            ),
            SeedError::StaffNamedAdmin => String::from_str("SEED_STAFF_USERNAME must not be 'admin'"),
            SeedError::Password { name, fault } => {
                let mut s = name.clone();
                match fault {
                    PasswordFault::Empty => s.append(" was provided but empty"),
                    PasswordFault::Weak => s.append(" uses a forbidden weak/default value"),
                    PasswordFault::TooShort => s.append(" must be at least 12 characters in secure mode"),
                }
                s
            },
        }
    }
}

/// The well-known default words that are never accepted as a password.
pub open spec fn is_weak_word(w: Seq<char>) -> bool {
    w == "password"@ || w == "admin"@ || w == "user"@ || w == "changeme"@
}

/// What the strength check finds wrong with a password, if anything: a
/// default word (compared lower-cased) first, then a length under 12 bytes.
pub open spec fn strength_fault(value: Seq<char>) -> Option<PasswordFault> {
    if is_weak_word(lowercase_text(value)) {
        Some(PasswordFault::Weak)
    } else if byte_len(value) < 12 {
        Some(PasswordFault::TooShort)
    } else {
        None
    }
}

/// Checks a password given for seeding in secure mode: it must not be a
/// default word and must have at least 12 bytes. `name` is the variable it
/// came from, which the refusal names.
pub fn validate_strong_password(name: &str, value: &str) -> (r: Result<(), SeedError>)
    ensures
        match strength_fault(value@) {
            None => r is Ok,
            Some(f) => r is Err && is_password_error(r->Err_0, name@, f),
        },
{
    let lower = to_lowercase(value);
    if same_text(lower.as_str(), "password") || same_text(lower.as_str(), "admin") || same_text(
        lower.as_str(),
        "user",
    ) || same_text(lower.as_str(), "changeme") {
        return Err(SeedError::Password { name: String::from_str(name), fault: PasswordFault::Weak });
    }
    if byte_count(value) < 12 {
        return Err(SeedError::Password { name: String::from_str(name), fault: PasswordFault::TooShort });
    }
    Ok(())
}

/// `uuid::Uuid::new_v4().simple().to_string()`: a random UUID written as 32
/// lower-case hexadecimal digits. Only that form is stated: the value is random.
#[verifier::external_body]
fn new_uuid_simple_text() -> (r: String)
    ensures
        r@.len() == 32,
        forall|i: int| 0 <= i < 32 ==> is_lower_hex(#[trigger] r@[i]),
{
    uuid::Uuid::new_v4().simple().to_string()
}

/// All characters are lower-case hexadecimal digits.
pub open spec fn all_lower_hex(s: Seq<char>) -> bool {
    forall|i: int| 0 <= i < s.len() ==> is_lower_hex(#[trigger] s[i])
}

/// The generated passphrase for `label` built from the two random parts.
pub open spec fn passphrase_text(label: Seq<char>, a: Seq<char>, b: Seq<char>) -> Seq<char> {
    "example-app-"@ + label + "-"@ + a + "-"@ + b
}

/// `p` is a passphrase generated for `label`: "example-app-", the label, and
/// two groups of 12 lower-case hexadecimal digits, each after a hyphen.
pub open spec fn is_generated_passphrase(label: Seq<char>, p: Seq<char>) -> bool {
    exists|a: Seq<char>, b: Seq<char>|
        a.len() == 12 && b.len() == 12 && all_lower_hex(a) && all_lower_hex(b) && p
            == #[trigger] passphrase_text(label, a, b)
}

/// The passphrase for `label` from two random hexadecimal texts, of which the
/// first 12 characters each are used.
pub fn passphrase_from(label: &str, a: &str, b: &str) -> (r: String)
    requires
        is_ascii_chars(a@),
        is_ascii_chars(b@),
        a@.len() >= 12,
        b@.len() >= 12,
    ensures
        r@ == passphrase_text(label@, a@.take(12), b@.take(12)),
{
    let ca = chars_of(a);
    let cb = chars_of(b);
    let mut r = String::from_str("example-app-");
    r.append(label);
    r.append("-");
    let mut i: usize = 0;
    while i < 12
        invariant
            i <= 12,
            ca@ == a@,
            a@.len() >= 12,
            r@ == "example-app-"@ + label@ + "-"@ + a@.take(i as int),
        decreases 12 - i,
    {
        push_char(&mut r, ca[i]);
        assert(a@.take(i + 1) == a@.take(i as int).push(a@[i as int]));
        i += 1;
    }
    r.append("-");
    let mut j: usize = 0;
    while j < 12
        invariant
            j <= 12,
            cb@ == b@,
            b@.len() >= 12,
            r@ == "example-app-"@ + label@ + "-"@ + a@.take(12) + "-"@ + b@.take(j as int),
        decreases 12 - j,
    {
        push_char(&mut r, cb[j]);
        assert(b@.take(j + 1) == b@.take(j as int).push(b@[j as int]));
        j += 1;
    }
    r
}

proof fn lemma_hex_is_ascii(s: Seq<char>)
    requires
        all_lower_hex(s),
    ensures
        is_ascii_chars(s),
{
    assert forall|i: int| 0 <= i < s.len() implies (#[trigger] s[i] as u32) < 128 by {
        assert(is_lower_hex(s[i]));
    }
}

/// A random passphrase for `label`, for a password that nobody set.
pub fn generate_random_passphrase(label: &str) -> (r: String)
    ensures
        is_generated_passphrase(label@, r@),
{
    let a = new_uuid_simple_text();
    let b = new_uuid_simple_text();
    proof {
        lemma_hex_is_ascii(a@);
        lemma_hex_is_ascii(b@);
    }
    let r = passphrase_from(label, a.as_str(), b.as_str());
    proof {
        assert(all_lower_hex(a@.take(12)));
        assert(all_lower_hex(b@.take(12)));
        assert(r@ == passphrase_text(label@, a@.take(12), b@.take(12)));
    }
    r
}

/// What is wrong with a password given explicitly, if anything: nothing may be
/// left empty after trimming; outside insecure development mode the trimmed
/// password must also pass the strength check.
pub open spec fn explicit_password_fault(value: Seq<char>, dev_insecure: bool) -> Option<PasswordFault> {
    let pw = trim_text(value);
    if pw.len() == 0 {
        Some(PasswordFault::Empty)
    } else if dev_insecure {
        None
    } else {
        strength_fault(pw)
    }
}

/// `r` is a correct outcome of choosing the password held in variable `name`,
/// whose value is `value` (`None` when unset): an explicit value is trimmed
/// and checked; without one, insecure development mode uses "password", and
/// otherwise a passphrase for "admin" is generated.
pub open spec fn password_resolution(
    name: Seq<char>,
    value: Option<Seq<char>>,
    dev_insecure: bool,
    r: Result<(String, PasswordSource), SeedError>,
) -> bool {
    match value {
        Some(v) => match explicit_password_fault(v, dev_insecure) {
            Some(f) => r is Err && is_password_error(r->Err_0, name, f),
            None => r is Ok && r->Ok_0.0@ == trim_text(v) && r->Ok_0.1 == PasswordSource::ExplicitEnv,
        },
        None => if dev_insecure {
            r is Ok && r->Ok_0.0@ == "password"@ && r->Ok_0.1 == PasswordSource::DevInsecureDefault
        } else {
            r is Ok && is_generated_passphrase("admin"@, r->Ok_0.0@) && r->Ok_0.1
                == PasswordSource::GeneratedRandom
        },
    }
}

/// An explicit value was given and is refused.
pub open spec fn explicit_value_refused(value: Option<Seq<char>>, dev_insecure: bool) -> bool {
    value matches Some(v) && explicit_password_fault(v, dev_insecure) is Some
}

/// The view of an optional text.
pub open spec fn opt_text(o: Option<&str>) -> Option<Seq<char>> {
    match o {
        Some(v) => Some(v@),
        None => None,
    }
}

/// Chooses the password for a seeded account from the value of variable
/// `name` (`None` when it is unset).
pub fn resolve_password(name: &str, value: Option<&str>, dev_insecure: bool) -> (r: Result<
    (String, PasswordSource),
    SeedError,
>)
    ensures
        password_resolution(name@, opt_text(value), dev_insecure, r),
{
    match value {
        Some(v) => {
            let pw = trim(v);
            if pw.as_str().is_empty() {
                return Err(SeedError::Password { name: String::from_str(name), fault: PasswordFault::Empty });
            }
            if !dev_insecure {
                match validate_strong_password(name, pw.as_str()) {
                    Ok(()) => {},
                    Err(e) => {
                        return Err(e);
                    },
                }
            }
            Ok((pw, PasswordSource::ExplicitEnv))
        },
        None => {
            if dev_insecure {
                Ok((String::from_str("password"), PasswordSource::DevInsecureDefault))
            } else {
                Ok((generate_random_passphrase("admin"), PasswordSource::GeneratedRandom))
            }
        },
    }
}

/// The insecure default password is only ever chosen in insecure development
/// mode, and only when no password was given.
pub proof fn insecure_default_needs_dev_mode(
    name: Seq<char>,
    value: Option<Seq<char>>,
    dev_insecure: bool,
    r: Result<(String, PasswordSource), SeedError>,
)
    requires
        password_resolution(name, value, dev_insecure, r),
        r matches Ok((_, src)) && src == PasswordSource::DevInsecureDefault,
    ensures
        dev_insecure,
        value is None,
{
}

/// Outside insecure development mode no accepted password is a default word
/// or shorter than 12 bytes: an explicit one passed the strength check, and a
/// generated one is a passphrase of the documented form.
pub proof fn secure_mode_passwords_are_strong(
    name: Seq<char>,
    value: Option<Seq<char>>,
    r: Result<(String, PasswordSource), SeedError>,
)
    requires
        password_resolution(name, value, false, r),
        r is Ok,
    ensures
        r->Ok_0.1 != PasswordSource::DevInsecureDefault,
        r->Ok_0.1 == PasswordSource::ExplicitEnv ==> strength_fault(r->Ok_0.0@) is None,
        r->Ok_0.1 == PasswordSource::GeneratedRandom ==> is_generated_passphrase("admin"@, r->Ok_0.0@),
        strength_fault(r->Ok_0.0@) is None,
{
    match value {
        Some(v) => {
            assert(explicit_password_fault(v, false) is None);
            assert(trim_text(v).len() != 0);
        },
        None => {
            lemma_generated_passphrase_is_strong(r->Ok_0.0@);
        },
    }
}

proof fn lemma_generated_passphrase_is_strong(p: Seq<char>)
    requires
        is_generated_passphrase("admin"@, p),
    ensures
        strength_fault(p) is None,
{
    let (a, b) = choose|a: Seq<char>, b: Seq<char>|
        a.len() == 12 && b.len() == 12 && all_lower_hex(a) && all_lower_hex(b) && p
            == #[trigger] passphrase_text("admin"@, a, b);
    reveal_strlit("example-app-");
    reveal_strlit("admin");
    reveal_strlit("-");
    reveal_strlit("password");
    reveal_strlit("user");
    reveal_strlit("changeme");
    lemma_hex_is_ascii(a);
    lemma_hex_is_ascii(b);
    assert(p.len() == 43);
    assert(is_ascii_chars(p)) by {
        assert forall|i: int| 0 <= i < p.len() implies '\0' <= #[trigger] p[i] <= '\u{7f}' by {
            if i < 17 {
            } else if i == 17 || i == 30 {
            } else if i < 30 {
                assert(p[i] == a[i - 18]);
            } else {
                assert(p[i] == b[i - 31]);
            }
        }
    }
    vstd::utf8::is_ascii_chars_encode_utf8(p);
    assert(lowercase_text(p).len() == 43);
}

/// The database that seeding writes to when none is configured.
pub open spec fn default_database_url() -> Seq<char> {
    "sqlite://app.sqlite?mode=rwc"@
}

/// The database to seed: the configured URL, or the default one.
pub fn database_url(raw: Option<&str>) -> (r: String)
    ensures
        r@ == match raw {
            Some(v) => v@,
            None => default_database_url(),
        },
{
    match raw {
        Some(v) => String::from_str(v),
        None => String::from_str("sqlite://app.sqlite?mode=rwc"),
    }
}

/// The name of the staff account: the configured one, trimmed, or "staff".
pub fn staff_username(raw: Option<&str>) -> (r: String)
    ensures
        r@ == trim_text(
            match raw {
                Some(v) => v@,
                None => "staff"@,
            },
        ),
{
    match raw {
        Some(v) => trim(v),
        None => trim("staff"),
    }
}

/// The raw values of the variables that control seeding. A flag that is unset
/// holds ""; an optional value that is unset is `None`.
pub struct SeedEnv {
    /// SEED_ALLOW_ADMIN
    pub allow_admin: String,
    /// SEED_DEV_INSECURE
    pub dev_insecure: String,
    /// SEED_ADMIN_FORCE_RESET
    pub admin_force_reset: String,
    /// SEED_STAFF
    pub seed_staff: String,
    /// SEED_STAFF_FORCE_RESET
    pub staff_force_reset: String,
    /// SEED_STAFF_USERNAME
    pub staff_username: Option<String>,
    /// SEED_ADMIN_PASSWORD
    pub admin_password: Option<String>,
    /// SEED_STAFF_PASSWORD
    pub staff_password: Option<String>,
    /// DATABASE_URL
    pub database_url: Option<String>,
}

/// The staff account to seed.
pub struct StaffSeed {
    pub username: String,
    pub force_reset: bool,
    pub password: String,
    pub source: PasswordSource,
}

/// What seeding will do, decided before the database is touched.
pub struct SeedPlan {
    pub database_url: String,
    pub admin_force_reset: bool,
    pub admin_password: String,
    pub admin_source: PasswordSource,
    pub staff: Option<StaffSeed>,
}

/// The view of an optional owned text.
pub open spec fn opt_string_text(o: Option<String>) -> Option<Seq<char>> {
    match o {
        Some(v) => Some(v@),
        None => None,
    }
}

/// The staff account's name as the variables give it.
pub open spec fn planned_staff_name(env: SeedEnv) -> Seq<char> {
    trim_text(
        match env.staff_username {
            Some(v) => v@,
            None => "staff"@,
        },
    )
}

/// A staff account is to be seeded.
pub open spec fn wants_staff(env: SeedEnv) -> bool {
    is_on_word(keyword_text(env.seed_staff@))
}

/// Insecure development mode is on.
pub open spec fn dev_mode(env: SeedEnv) -> bool {
    is_on_word(keyword_text(env.dev_insecure@))
}

fn opt_str(o: &Option<String>) -> (r: Option<&str>)
    ensures
        opt_text(r) == opt_string_text(*o),
{
    match o {
        Some(v) => Some(v.as_str()),
        None => None,
    }
}

/// Decides what seeding will do. Refuses without the explicit opt-in; refuses
/// a staff account named "admin" (in any ASCII case); then chooses the admin
/// password and, when a staff account is wanted, the staff password, refusing
/// the first one that is not acceptable.
pub fn plan_seed(env: &SeedEnv) -> (r: Result<SeedPlan, SeedError>)
    ensures
        !is_on_word(keyword_text(env.allow_admin@)) ==> r matches Err(SeedError::NotAllowed),
        is_on_word(keyword_text(env.allow_admin@)) && wants_staff(*env) && eq_ignore_ascii_case_text(
            planned_staff_name(*env),
            "admin"@,
        ) ==> r matches Err(SeedError::StaffNamedAdmin),
        r matches Ok(plan) ==> {
            &&& is_on_word(keyword_text(env.allow_admin@))
            &&& plan.database_url@ == match env.database_url {
                Some(v) => v@,
                None => default_database_url(),
            }
            &&& plan.admin_force_reset == is_on_word(keyword_text(env.admin_force_reset@))
            &&& password_resolution(
                "SEED_ADMIN_PASSWORD"@,
                opt_string_text(env.admin_password),
                dev_mode(*env),
                Ok((plan.admin_password, plan.admin_source)),
            )
            &&& (plan.staff is Some) == wants_staff(*env)
            &&& plan.staff matches Some(st) ==> {
                &&& !eq_ignore_ascii_case_text(planned_staff_name(*env), "admin"@)
                &&& st.username@ == planned_staff_name(*env)
                &&& st.force_reset == is_on_word(keyword_text(env.staff_force_reset@))
                &&& password_resolution(
                    "SEED_STAFF_PASSWORD"@,
                    opt_string_text(env.staff_password),
                    dev_mode(*env),
                    Ok((st.password, st.source)),
                )
            }
        },
        r matches Err(e) ==> match e {
            SeedError::NotAllowed => !is_on_word(keyword_text(env.allow_admin@)),
            SeedError::StaffNamedAdmin => wants_staff(*env) && eq_ignore_ascii_case_text(
                planned_staff_name(*env),
                "admin"@,
            ),
            SeedError::Password { .. } => if explicit_value_refused(
                opt_string_text(env.admin_password),
                dev_mode(*env),
            ) {
                password_resolution(
                    "SEED_ADMIN_PASSWORD"@,
                    opt_string_text(env.admin_password),
                    dev_mode(*env),
                    Err(e),
                )
            } else {
                wants_staff(*env) && password_resolution(
                    "SEED_STAFF_PASSWORD"@,
                    opt_string_text(env.staff_password),
                    dev_mode(*env),
                    Err(e),
                )
            },
        },
        r is Ok <==> {
            &&& is_on_word(keyword_text(env.allow_admin@))
            &&& !(wants_staff(*env) && eq_ignore_ascii_case_text(planned_staff_name(*env), "admin"@))
            &&& !explicit_value_refused(opt_string_text(env.admin_password), dev_mode(*env))
            &&& !(wants_staff(*env) && explicit_value_refused(
                opt_string_text(env.staff_password),
                dev_mode(*env),
            ))
        },
{
    if !env_bool(env.allow_admin.as_str()) {
        return Err(SeedError::NotAllowed);
    }
    let url = database_url(opt_str(&env.database_url));
    let dev_insecure = env_bool(env.dev_insecure.as_str());
    let force_reset = env_bool(env.admin_force_reset.as_str());
    let seed_staff = env_bool(env.seed_staff.as_str());
    let staff_force_reset = env_bool(env.staff_force_reset.as_str());
    let staff_name = staff_username(opt_str(&env.staff_username));
    if seed_staff && eq_ignore_ascii_case(staff_name.as_str(), "admin") {
        return Err(SeedError::StaffNamedAdmin);
    }
    let (admin_password, admin_source) = match resolve_password(
        "SEED_ADMIN_PASSWORD",
        opt_str(&env.admin_password),
        dev_insecure,
    ) {
        Ok(p) => p,
        Err(e) => {
            return Err(e);
        },
    };
    let staff = if seed_staff {
        match resolve_password("SEED_STAFF_PASSWORD", opt_str(&env.staff_password), dev_insecure) {
            Ok((password, source)) => Some(
                StaffSeed { username: staff_name, force_reset: staff_force_reset, password, source },
            ),
            Err(e) => {
                return Err(e);
            },
        }
    } else {
        None
    };
    Ok(SeedPlan { database_url: url, admin_force_reset: force_reset, admin_password, admin_source, staff })
}

/// What seeding did to an account.
#[derive(Clone, Copy, Debug, PartialEq, Eq, Structural)]
pub enum SeedAction {
    Created,
    ExistingKept,
    ExistingPasswordReset,
}

impl SeedAction {
    /// The label under which the summary reports the action.
    pub open spec fn label_text(self) -> Seq<char> {
        match self {
            SeedAction::Created => "created"@,
            SeedAction::ExistingKept => "existing_kept"@,
            SeedAction::ExistingPasswordReset => "existing_password_reset"@,
        }
    }

    /// The label under which the summary reports the action.
    pub fn label(&self) -> (r: &'static str)
        ensures
            r@ == self.label_text(),
    {
        match self {
            SeedAction::Created => "created",
            SeedAction::ExistingKept => "existing_kept",
            SeedAction::ExistingPasswordReset => "existing_password_reset",
        }
    }

    /// Whether the seeded password was stored: always, unless an existing
    /// account was kept as it was.
    pub fn password_applied(&self) -> (r: bool)
        ensures
            r == !(*self is ExistingKept),
    {
        match self {
            SeedAction::ExistingKept => false,
            _ => true,
        }
    }
}

/// The e-mail address given to a seeded account.
pub open spec fn seed_email_text(username: Seq<char>) -> Seq<char> {
    username + "@example.invalid"@
}

/// Seeds the account `username`. An existing account is kept as it is, or,
/// with `force_reset`, gets the new password hash and nothing else. Otherwise
/// a new active account is made: first name the user name, empty last name,
/// address "<username>@example.invalid", no reset pending, a fresh random
/// passkey user handle, and id 0 until the store assigns one.
pub fn upsert_seed_user(existing: Option<UserRecord>, username: &str, password_hash: &str, force_reset: bool) -> (r: (
    UserRecord,
    SeedAction,
))
    ensures
        existing matches Some(u) ==> if force_reset {
            &&& r.1 == SeedAction::ExistingPasswordReset
            &&& r.0 == (UserRecord { password_hash: r.0.password_hash, ..u })
            &&& r.0.password_hash@ == password_hash@
        } else {
            r.1 == SeedAction::ExistingKept && r.0 == u
        },
        existing is None ==> {
            &&& r.1 == SeedAction::Created
            &&& r.0.id == 0
            &&& r.0.username@ == username@
            &&& r.0.first_name@ == username@
            &&& r.0.last_name@ == Seq::<char>::empty()
            &&& r.0.email@ == seed_email_text(username@)
            &&& r.0.password_hash@ == password_hash@
            &&& r.0.status@ == active_text()
            &&& !r.0.password_reset_required
            &&& r.0.webauthn_user_handle matches Some(h) && is_hyphenated_uuid_text(h@)
        },
{
    match existing {
        Some(u) => {
            if !force_reset {
                (u, SeedAction::ExistingKept)
            } else {
                (UserRecord { password_hash: String::from_str(password_hash), ..u }, SeedAction::ExistingPasswordReset)
            }
        },
        None => {
            let mut email = String::from_str(username);
            email.append("@example.invalid");
            proof {
                reveal_strlit("active");
                assert("active"@ =~= active_text());
            }
            let u = UserRecord {
                id: 0,
                username: String::from_str(username),
                first_name: String::from_str(username),
                last_name: String::new(),
                email,
                password_hash: String::from_str(password_hash),
                status: String::from_str("active"),
                password_reset_required: false,
                webauthn_user_handle: Some(new_uuid_text()),
            };
            (u, SeedAction::Created)
        },
    }
}

/// The hash under which a seeded password is stored.
pub fn seed_password_hash(password: &str) -> (r: String)
    requires
        byte_len(password@) <= 0xFFFF_FFFF,
    ensures
        password_matches_hash(password@, r@),
{
    generate_hash(password)
}

/// The roles a seeded account holds: "user" and "admin" for the
/// administrator, "user" and "staff" for the staff account.
pub fn seeded_roles(staff: bool) -> (r: RoleSet)
    ensures
        r == (RoleSet { user: true, admin: !staff, staff: staff }),
{
    RoleSet { user: true, admin: !staff, staff: staff }
}

/// The permission granted to the seeded account's own role: "admin.read" to
/// the admin role, "staff.read" to the staff role.
pub fn seeded_permission(staff: bool) -> (r: &'static str)
    ensures
        r@ == if staff {
            "staff.read"@
        } else {
            "admin.read"@
        },
{
    if staff {
        "staff.read"
    } else {
        "admin.read"
    }
}

/// What the summary reports of one seeded account.
pub struct SeedReport {
    pub action: SeedAction,
    pub username: String,
    pub source: PasswordSource,
    pub webauthn_user_handle: Option<String>,
    pub password: String,
}

/// The passkey user handle as the summary prints it.
pub open spec fn handle_text(h: Option<String>) -> Seq<char> {
    match h {
        Some(v) => v@,
        None => "<missing>"@,
    }
}

/// The summary block for the administrator. The plaintext password is only
/// printed when it was stored.
pub open spec fn admin_summary_text(rep: SeedReport) -> Seq<char> {
    if rep.action is ExistingKept {
        "Seed admin result:\n- action="@ + rep.action.label_text() + "\n- username=admin\n- password_source="@
            + source_label_text(rep.source)
            + "\n- password_applied=false (existing password kept; set SEED_ADMIN_FORCE_RESET=1 to rotate)\n- roles=[user,admin]\n- permission=[admin.read]\n- webauthn_user_handle="@
            + handle_text(rep.webauthn_user_handle) + "\n"@
    } else {
        "Seed admin result:\n- action="@ + rep.action.label_text() + "\n- username=admin\n- password_source="@
            + source_label_text(rep.source)
            + "\n- password_applied=true\n- roles=[user,admin]\n- permission=[admin.read]\n- webauthn_user_handle="@
            + handle_text(rep.webauthn_user_handle)
            + "\n\nEffective plaintext credential (store securely):\nadmin="@ + rep.password@ + "\n"@
    }
}

/// The summary block for the staff account. The plaintext password is only
/// printed when it was stored.
pub open spec fn staff_summary_text(rep: SeedReport) -> Seq<char> {
    if rep.action is ExistingKept {
        "\nSeed staff result:\n- action="@ + rep.action.label_text() + "\n- username="@ + rep.username@
            + "\n- password_source="@ + source_label_text(rep.source)
            + "\n- password_applied=false (existing password kept; set SEED_STAFF_FORCE_RESET=1 to rotate)\n- roles=[user,staff]\n- permission=[staff.read]\n- webauthn_user_handle="@
            + handle_text(rep.webauthn_user_handle) + "\n"@
    } else {
        "\nSeed staff result:\n- action="@ + rep.action.label_text() + "\n- username="@ + rep.username@
            + "\n- password_source="@ + source_label_text(rep.source)
            + "\n- password_applied=true\n- roles=[user,staff]\n- permission=[staff.read]\n- webauthn_user_handle="@
            + handle_text(rep.webauthn_user_handle)
            + "\n\nEffective plaintext credential (store securely):\n"@ + rep.username@ + "="@
            + rep.password@ + "\n"@
    }
}

/// When seeding stores the administrator's password (a new account, or an
/// existing one whose password is reset), the summary reports it as applied
/// and ends with the plaintext credential `admin=<password>`, so that the new
/// password can be used.
pub proof fn stored_admin_password_is_printed(rep: SeedReport)
    requires
        rep.action is Created || rep.action is ExistingPasswordReset,
    ensures
        exists|a: Seq<char>, b: Seq<char>| admin_summary_text(rep) == a + "\n- password_applied=true\n"@ + b,
        exists|a: Seq<char>| admin_summary_text(rep) == a + ("\nadmin="@ + rep.password@ + "\n"@),
{
    let t = admin_summary_text(rep);
    let l3 = "\n- password_applied=true\n- roles=[user,admin]\n- permission=[admin.read]\n- webauthn_user_handle="@;
    let x = "\n- password_applied=true\n"@;
    let r3 = "- roles=[user,admin]\n- permission=[admin.read]\n- webauthn_user_handle="@;
    let l4 = "\n\nEffective plaintext credential (store securely):\nadmin="@;
    let p4 = "\n\nEffective plaintext credential (store securely):"@;
    let y = "\nadmin="@;
    reveal_strlit("\n- password_applied=true\n- roles=[user,admin]\n- permission=[admin.read]\n- webauthn_user_handle=");
    reveal_strlit("\n- password_applied=true\n");
    reveal_strlit("- roles=[user,admin]\n- permission=[admin.read]\n- webauthn_user_handle=");
    reveal_strlit("\n\nEffective plaintext credential (store securely):\nadmin=");
    reveal_strlit("\n\nEffective plaintext credential (store securely):");
    reveal_strlit("\nadmin=");
    assert(l3 =~= x + r3);
    assert(l4 =~= p4 + y);
    let head = "Seed admin result:\n- action="@ + rep.action.label_text() + "\n- username=admin\n- password_source="@
        + source_label_text(rep.source);
    let h = handle_text(rep.webauthn_user_handle);
    let pw = rep.password@;
    let nl = "\n"@;
    assert(t == head + l3 + h + l4 + pw + nl);
    let b = r3 + h + l4 + pw + nl;
    assert(t =~= head + x + b);
    let a2 = head + l3 + h + p4;
    assert(t =~= a2 + (y + pw + nl));
}

/// When seeding keeps an existing administrator's password, the summary says
/// so and ends with the passkey handle line: no credential is printed.
pub proof fn kept_admin_password_is_not_printed(rep: SeedReport)
    requires
        rep.action is ExistingKept,
    ensures
        exists|a: Seq<char>, b: Seq<char>| admin_summary_text(rep) == a + "\n- password_applied=false "@ + b,
        exists|a: Seq<char>| admin_summary_text(rep) == a + ("\n- webauthn_user_handle="@ + handle_text(
            rep.webauthn_user_handle,
        ) + "\n"@),
{
    let t = admin_summary_text(rep);
    let l3 = "\n- password_applied=false (existing password kept; set SEED_ADMIN_FORCE_RESET=1 to rotate)\n- roles=[user,admin]\n- permission=[admin.read]\n- webauthn_user_handle="@;
    let x = "\n- password_applied=false "@;
    let r3 = "(existing password kept; set SEED_ADMIN_FORCE_RESET=1 to rotate)\n- roles=[user,admin]\n- permission=[admin.read]\n- webauthn_user_handle="@;
    let p3 = "\n- password_applied=false (existing password kept; set SEED_ADMIN_FORCE_RESET=1 to rotate)\n- roles=[user,admin]\n- permission=[admin.read]"@;
    let y = "\n- webauthn_user_handle="@;
    reveal_strlit("\n- password_applied=false (existing password kept; set SEED_ADMIN_FORCE_RESET=1 to rotate)\n- roles=[user,admin]\n- permission=[admin.read]\n- webauthn_user_handle=");
    reveal_strlit("\n- password_applied=false ");
    reveal_strlit("(existing password kept; set SEED_ADMIN_FORCE_RESET=1 to rotate)\n- roles=[user,admin]\n- permission=[admin.read]\n- webauthn_user_handle=");
    reveal_strlit("\n- password_applied=false (existing password kept; set SEED_ADMIN_FORCE_RESET=1 to rotate)\n- roles=[user,admin]\n- permission=[admin.read]");
    reveal_strlit("\n- webauthn_user_handle=");
    assert(l3 =~= x + r3);
    assert(l3 =~= p3 + y);
    let head = "Seed admin result:\n- action="@ + rep.action.label_text() + "\n- username=admin\n- password_source="@
        + source_label_text(rep.source);
    let h = handle_text(rep.webauthn_user_handle);
    let nl = "\n"@;
    assert(t == head + l3 + h + nl);
    assert(t =~= head + x + (r3 + h + nl));
    assert(t =~= (head + p3) + (y + h + nl));
}

/// When seeding stores the staff account's password, the summary reports it
/// as applied and ends with the plaintext credential `<username>=<password>`.
pub proof fn stored_staff_password_is_printed(rep: SeedReport)
    requires
        rep.action is Created || rep.action is ExistingPasswordReset,
    ensures
        exists|a: Seq<char>, b: Seq<char>| staff_summary_text(rep) == a + "\n- password_applied=true\n"@ + b,
        exists|a: Seq<char>| staff_summary_text(rep) == a + ("\n"@ + rep.username@ + "="@ + rep.password@
            + "\n"@),
{
    let t = staff_summary_text(rep);
    let l3 = "\n- password_applied=true\n- roles=[user,staff]\n- permission=[staff.read]\n- webauthn_user_handle="@;
    let x = "\n- password_applied=true\n"@;
    let r3 = "- roles=[user,staff]\n- permission=[staff.read]\n- webauthn_user_handle="@;
    let l4 = "\n\nEffective plaintext credential (store securely):\n"@;
    let p4 = "\n\nEffective plaintext credential (store securely):"@;
    let y = "\n"@;
    reveal_strlit("\n- password_applied=true\n- roles=[user,staff]\n- permission=[staff.read]\n- webauthn_user_handle=");
    reveal_strlit("\n- password_applied=true\n");
    reveal_strlit("- roles=[user,staff]\n- permission=[staff.read]\n- webauthn_user_handle=");
    reveal_strlit("\n\nEffective plaintext credential (store securely):\n");
    reveal_strlit("\n\nEffective plaintext credential (store securely):");
    reveal_strlit("\n");
    assert(l3 =~= x + r3);
    assert(l4 =~= p4 + y);
    let head = "\nSeed staff result:\n- action="@ + rep.action.label_text() + "\n- username="@ + rep.username@
        + "\n- password_source="@ + source_label_text(rep.source);
    let h = handle_text(rep.webauthn_user_handle);
    let tail = rep.username@ + "="@ + rep.password@ + "\n"@;
    assert(t == head + l3 + h + l4 + rep.username@ + "="@ + rep.password@ + "\n"@);
    assert(t =~= head + x + (r3 + h + l4 + tail));
    assert(t =~= (head + l3 + h + p4) + (y + rep.username@ + "="@ + rep.password@ + "\n"@));
}

fn append_handle(s: &mut String, h: &Option<String>)
    ensures
        final(s)@ == old(s)@ + handle_text(*h),
{
    match h {
        Some(v) => s.append(v.as_str()),
        None => s.append("<missing>"),
    }
}

fn append_admin_summary(s: &mut String, rep: &SeedReport)
    ensures
        final(s)@ == old(s)@ + admin_summary_text(*rep),
{
    s.append("Seed admin result:\n- action=");
    s.append(rep.action.label());
    s.append("\n- username=admin\n- password_source=");
    s.append(password_source_label(rep.source));
    if rep.action.password_applied() {
        s.append("\n- password_applied=true\n- roles=[user,admin]\n- permission=[admin.read]\n- webauthn_user_handle=");
        append_handle(s, &rep.webauthn_user_handle);
        s.append("\n\nEffective plaintext credential (store securely):\nadmin=");
        s.append(rep.password.as_str());
        s.append("\n");
    } else {
        s.append(
            "\n- password_applied=false (existing password kept; set SEED_ADMIN_FORCE_RESET=1 to rotate)\n- roles=[user,admin]\n- permission=[admin.read]\n- webauthn_user_handle=",
        );
        append_handle(s, &rep.webauthn_user_handle);
        s.append("\n");
    }
}

fn append_staff_summary(s: &mut String, rep: &SeedReport)
    ensures
        final(s)@ == old(s)@ + staff_summary_text(*rep),
{
    s.append("\nSeed staff result:\n- action=");
    s.append(rep.action.label());
    s.append("\n- username=");
    s.append(rep.username.as_str());
    s.append("\n- password_source=");
    s.append(password_source_label(rep.source));
    if rep.action.password_applied() {
        s.append("\n- password_applied=true\n- roles=[user,staff]\n- permission=[staff.read]\n- webauthn_user_handle=");
        append_handle(s, &rep.webauthn_user_handle);
        s.append("\n\nEffective plaintext credential (store securely):\n");
        s.append(rep.username.as_str());
        s.append("=");
        s.append(rep.password.as_str());
        s.append("\n");
    } else {
        s.append(
            "\n- password_applied=false (existing password kept; set SEED_STAFF_FORCE_RESET=1 to rotate)\n- roles=[user,staff]\n- permission=[staff.read]\n- webauthn_user_handle=",
        );
        append_handle(s, &rep.webauthn_user_handle);
        s.append("\n");
    }
}

/// The summary printed after seeding: the administrator's block, then the
/// staff account's block when one was seeded.
pub fn seed_summary(admin: &SeedReport, staff: &Option<SeedReport>) -> (r: String)
    ensures
        r@ == admin_summary_text(*admin) + match staff {
            Some(st) => staff_summary_text(*st),
            None => Seq::<char>::empty(),
        },
{
    let mut s = String::new();
    append_admin_summary(&mut s, admin);
    match staff {
        Some(st) => append_staff_summary(&mut s, st),
        None => {},
    }
    s
}

} // verus!
