//! The self-contained demonstration server: a fixed in-memory store of two
//! accounts, the secured demonstration endpoints, and the stricter script
//! policy that the demonstration server sends in production.

use vstd::prelude::*;
use vstd::string::StringExecFns;

use crate::admin::active_text;
use crate::auth::{Credentials, User};
use crate::config::AppEnv;
use crate::login::SignInOutcome;
use crate::password::{generate_hash, password_matches_hash, verify_password};
use crate::roles::{PermissionSet, RoleSet};
use crate::text::{byte_len, same_text};

verus! {

/// Two users are the same account: equal fields, and the same permissions.
pub open spec fn same_user(a: User, b: User) -> bool {
    &&& a.id == b.id
    &&& a.username == b.username
    &&& a.password_hash == b.password_hash
    &&& a.status == b.status
    &&& a.password_reset_required == b.password_reset_required
    &&& a.session_auth_hash == b.session_auth_hash
    &&& a.roles == b.roles
    &&& a.permissions.sorted_names() == b.permissions.sorted_names()
}

impl Clone for User {
    fn clone(&self) -> (r: Self)
        ensures
            same_user(r, *self),
    {
        User {
            id: self.id,
            username: self.username.clone(),
            password_hash: self.password_hash.clone(),
            status: self.status.clone(),
            password_reset_required: self.password_reset_required,
            session_auth_hash: self.session_auth_hash.clone(),
            roles: self.roles,
            permissions: self.permissions.clone(),
        }
    }
}

/// `u` is a demonstration account with this id, name, roles and permissions:
/// active, no reset pending, its password "password", and its session bound to
/// its password hash.
pub open spec fn is_demo_account(
    u: User,
    id: u64,
    username: Seq<char>,
    roles: RoleSet,
    permissions: Set<Seq<char>>,
) -> bool {
    &&& u.id == id
    &&& u.username@ == username
    &&& password_matches_hash("password"@, u.password_hash@)
    &&& u.session_auth_hash@ == u.password_hash@
    &&& u.status@ == active_text()
    &&& !u.password_reset_required
    &&& u.roles == roles
    &&& u.permissions.sorted_names().to_set() == permissions
}

/// The in-memory account store: accounts with distinct ids and names.
pub struct DemoBackend {
    users: Vec<User>,
}

/// Whether some account has this name and accepts this password.
pub open spec fn admits(accounts: Seq<User>, username: Seq<char>, password: Seq<char>) -> bool {
    exists|i: int|
        0 <= i < accounts.len() && (#[trigger] accounts[i]).username@ == username && password_matches_hash(
            password,
            accounts[i].password_hash@,
        )
}

impl DemoBackend {
    /// No two accounts share an id or a name.
    #[verifier::type_invariant]
    spec fn distinct_accounts(self) -> bool {
        forall|i: int, j: int|
            0 <= i < j < self.users@.len() ==> (#[trigger] self.users@[i]).id != (#[trigger] self.users@[j]).id
                && self.users@[i].username@ != self.users@[j].username@
    }

    /// The stored accounts.
    pub closed spec fn accounts(self) -> Seq<User> {
        self.users@
    }

    fn demo_user(id: u64, username: &str, roles: RoleSet, permissions: PermissionSet) -> (r: User)
        ensures
            r.id == id,
            r.username@ == username@,
            password_matches_hash("password"@, r.password_hash@),
            r.session_auth_hash@ == r.password_hash@,
            r.status@ == active_text(),
            !r.password_reset_required,
            r.roles == roles,
            r.permissions.sorted_names() == permissions.sorted_names(),
    {
        proof {
            reveal_strlit("password");
            vstd::utf8::is_ascii_chars_encode_utf8("password"@);
            reveal_strlit("active");
            assert("active"@ =~= active_text());
        }
        let hash = generate_hash("password");
        User {
            id,
            username: String::from_str(username),
            password_hash: hash.clone(),
            status: String::from_str("active"),
            password_reset_required: false,
            session_auth_hash: hash,
            roles,
            permissions,
        }
    }

    /// The store with its two accounts, both with password "password": "user"
    /// (id 1) with the user role and no permission, and "admin" (id 2) with
    /// the admin role and the "admin.read" permission.
    pub fn new() -> (r: DemoBackend)
        ensures
            r.accounts().len() == 2,
            is_demo_account(
                r.accounts()[0],
                1,
                "user"@,
                RoleSet { user: true, admin: false, staff: false },
                Set::empty(),
            ),
            is_demo_account(
                r.accounts()[1],
                2,
                "admin"@,
                RoleSet { user: false, admin: true, staff: false },
                set!["admin.read"@],
            ),
    {
        let user = DemoBackend::demo_user(
            1,
            "user",
            RoleSet { user: true, admin: false, staff: false },
            PermissionSet::new(),
        );
        let mut admin_permissions = PermissionSet::new();
        admin_permissions.insert(String::from_str("admin.read"));
        let admin = DemoBackend::demo_user(
            2,
            "admin",
            RoleSet { user: false, admin: true, staff: false },
            admin_permissions,
        );
        let mut users: Vec<User> = Vec::new();
        users.push(user);
        users.push(admin);
        proof {
            reveal_strlit("user");
            reveal_strlit("admin");
            assert("user"@.len() != "admin"@.len());
            assert(users@[0].username@ != users@[1].username@);
        }
        let r = DemoBackend { users };
        proof {
            assert(r.accounts()[0].permissions.sorted_names().to_set() =~= Set::<Seq<char>>::empty());
            assert(r.accounts()[1].permissions.sorted_names().to_set() =~= set!["admin.read"@]);
        }
        r
    }

    /// Signs in: the account stored under the submitted name, when the
    /// submitted password verifies against its hash.
    pub fn authenticate(&self, creds: &Credentials) -> (r: Option<User>)
        ensures
            r is Some <==> admits(self.accounts(), creds.username@, creds.password@),
            r matches Some(u) ==> exists|i: int|
                0 <= i < self.accounts().len() && same_user(u, #[trigger] self.accounts()[i])
                    && self.accounts()[i].username@ == creds.username@,
    {
        proof {
            use_type_invariant(self);
        }
        let mut i: usize = 0;
        while i < self.users.len()
            invariant
                i <= self.users.len(),
                self.users@ == self.accounts(),
                self.distinct_accounts(),
                forall|k: int| 0 <= k < i ==> (#[trigger] self.accounts()[k]).username@ != creds.username@,
            decreases self.users.len() - i,
        {
            if same_text(self.users[i].username.as_str(), creds.username.as_str()) {
                if verify_password(creds.password.as_str(), self.users[i].password_hash.as_str()) {
                    return Some(self.users[i].clone());
                }
                return None;
            }
            i += 1;
        }
        None
    }

    /// The account with this id, if one is stored.
    pub fn get_user(&self, id: u64) -> (r: Option<User>)
        ensures
            r is Some <==> exists|i: int| 0 <= i < self.accounts().len() && (#[trigger] self.accounts()[i]).id == id,
            r matches Some(u) ==> exists|i: int|
                0 <= i < self.accounts().len() && same_user(u, #[trigger] self.accounts()[i]) && u.id == id,
    {
        let mut i: usize = 0;
        while i < self.users.len()
            invariant
                i <= self.users.len(),
                self.users@ == self.accounts(),
                forall|k: int| 0 <= k < i ==> (#[trigger] self.accounts()[k]).id != id,
            decreases self.users.len() - i,
        {
            if self.users[i].id == id {
                return Some(self.users[i].clone());
            }
            i += 1;
        }
        None
    }
}

/// Why a secured demonstration request was refused.
#[derive(Clone, Copy, Debug, PartialEq, Eq, Structural)]
pub enum DemoError {
    NotAuthenticated,
    Forbidden,
}

impl DemoError {
    /// The message key under which the pages show the refusal.
    pub fn code(&self) -> (r: &'static str)
        ensures
            r@ == match self {
                DemoError::NotAuthenticated => "err_not_authenticated"@,
                DemoError::Forbidden => "err_forbidden"@,
            },
    {
        match self {
            DemoError::NotAuthenticated => "err_not_authenticated",
            DemoError::Forbidden => "err_forbidden",
        }
    }

    /// The plain message that the demonstration server reports.
    pub fn message(&self) -> (r: &'static str)
        ensures
            r@ == match self {
                DemoError::NotAuthenticated => "Not authenticated"@,
                DemoError::Forbidden => "Forbidden"@,
            },
    {
        match self {
            DemoError::NotAuthenticated => "Not authenticated",
            DemoError::Forbidden => "Forbidden",
        }
    }
}

/// Whether the session has a signed-in user.
pub fn is_logged_in(user: Option<&User>) -> (r: bool)
    ensures
        r == (user is Some),
{
    user.is_some()
}

/// Adds two numbers for any signed-in user; refuses a visitor.
pub fn add_two(user: Option<&User>, a: i32, b: i32) -> (r: Result<i32, DemoError>)
    requires
        user is Some ==> i32::MIN <= a + b <= i32::MAX,
    ensures
        r == if user is Some {
            Ok::<i32, DemoError>((a + b) as i32)
        } else {
            Err(DemoError::NotAuthenticated)
        },
{
    if user.is_none() {
        return Err(DemoError::NotAuthenticated);
    }
    Ok(a + b)
}

/// Adds two numbers for a signed-in administrator; refuses a visitor, and a
/// user without the admin role.
pub fn admin_add_two(user: Option<&User>, a: i32, b: i32) -> (r: Result<i32, DemoError>)
    requires
        (user matches Some(u) && u.roles.admin) ==> i32::MIN <= a + b <= i32::MAX,
    ensures
        r == match user {
            None => Err(DemoError::NotAuthenticated),
            Some(u) => if u.roles.admin {
                Ok::<i32, DemoError>((a + b) as i32)
            } else {
                Err(DemoError::Forbidden)
            },
        },
{
    match user {
        None => Err(DemoError::NotAuthenticated),
        Some(u) => {
            if !u.roles.admin {
                return Err(DemoError::Forbidden);
            }
            Ok(a + b)
        },
    }
}

/// The Content-Security-Policy of the demonstration server in production: as
/// the main server's, but scripts from the site only, without inline scripts.
pub open spec fn demo_prod_csp_text() -> Seq<char> {
    "default-src 'self'; base-uri 'self'; object-src 'none'; frame-ancestors 'none'; img-src 'self' data:; style-src 'self' 'unsafe-inline'; script-src 'self'; connect-src 'self';"@
}

/// The Content-Security-Policy header value of the demonstration server;
/// outside production it is the main server's.
pub fn csp_value(env: AppEnv) -> (r: &'static str)
    ensures
        r@ == if env == AppEnv::Prod {
            demo_prod_csp_text()
        } else {
            crate::config::dev_csp_text()
        },
{
    match env {
        AppEnv::Prod => "default-src 'self'; base-uri 'self'; object-src 'none'; frame-ancestors 'none'; img-src 'self' data:; style-src 'self' 'unsafe-inline'; script-src 'self'; connect-src 'self';",
        _ => "default-src 'self' 'unsafe-inline' 'unsafe-eval' data: blob:; img-src 'self' data: blob:; style-src 'self' 'unsafe-inline'; script-src 'self' 'unsafe-inline' 'unsafe-eval'; connect-src 'self' ws: wss:;",
    }
}

/// The demonstration server's answer to a sign-in attempt: the HTTP status,
/// and the page it sends a signed-in user to or the message of the refusal.
/// Success goes to "/protected" (302); refused credentials are answered 401
/// "Invalid credentials"; a store failure 500 "Internal error".
pub fn demo_login_reply(outcome: SignInOutcome) -> (r: (u16, Result<&'static str, &'static str>))
    ensures
        match outcome {
            SignInOutcome::Authenticated { .. } => r.0 == 302 && (r.1 matches Ok(p) && p@ == "/protected"@),
            SignInOutcome::Rejected => r.0 == 401 && (r.1 matches Err(m) && m@ == "Invalid credentials"@),
            SignInOutcome::BackendFailed => r.0 == 500 && (r.1 matches Err(m) && m@ == "Internal error"@),
        },
{
    match outcome {
        SignInOutcome::Authenticated { .. } => (302, Ok("/protected")),
        SignInOutcome::Rejected => (401, Err("Invalid credentials")),
        SignInOutcome::BackendFailed => (500, Err("Internal error")),
    }
}

/// The steps of signing out on the demonstration server, in order: end the
/// signed-in session, give the session a new id, replace its CSRF token.
#[derive(Clone, Copy, Debug, PartialEq, Eq, Structural)]
pub enum LogoutStep {
    SignOut,
    CycleSession,
    RotateCsrf,
}

/// The message of the 500 answer when a sign-out step fails.
pub fn logout_failure_message(step: LogoutStep) -> (r: &'static str)
    ensures
        r@ == match step {
            LogoutStep::SignOut => "Internal error"@,
            LogoutStep::CycleSession => "Session error"@,
            LogoutStep::RotateCsrf => "CSRF error"@,
        },
{
    match step {
        LogoutStep::SignOut => "Internal error",
        LogoutStep::CycleSession => "Session error",
        LogoutStep::RotateCsrf => "CSRF error",
    }
}

} // verus!
