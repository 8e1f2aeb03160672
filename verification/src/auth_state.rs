//! What the browser knows of the signed-in user (the auth snapshot the server
//! sends), and the route guards that decide which pages it may open.

use vstd::prelude::*;

use crate::auth::User;
use crate::roles::{PermissionSet, Role, RoleSet};

verus! {

/// The signed-in user as pages see it.
pub struct UserSummary {
    pub id: u64,
    pub username: String,
    pub roles: RoleSet,
    pub password_reset_required: bool,
}

impl Clone for UserSummary {
    fn clone(&self) -> (r: Self)
        ensures
            r == *self,
    {
        UserSummary {
            id: self.id,
            username: self.username.clone(),
            roles: self.roles,
            password_reset_required: self.password_reset_required,
        }
    }
}

/// What the server reports of the session: the user, if signed in, and the
/// user's permissions.
pub struct AuthSnapshot {
    pub user: Option<UserSummary>,
    pub permissions: PermissionSet,
}

/// The auth state that pages share: whether the snapshot has arrived, the
/// user, and the user's permissions.
pub struct AuthState {
    pub ready: bool,
    pub user: Option<UserSummary>,
    pub permissions: PermissionSet,
}

/// The snapshot of a session with the given signed-in user (if any).
pub fn make_auth_snapshot(user: Option<&User>) -> (r: AuthSnapshot)
    ensures
        match user {
            Some(u) => r.user == Some(
                UserSummary {
                    id: u.id,
                    username: u.username,
                    roles: u.roles,
                    password_reset_required: u.password_reset_required,
                },
            ) && r.permissions.sorted_names() == u.permissions.sorted_names(),
            None => r.user is None && r.permissions.sorted_names().len() == 0,
        },
{
    match user {
        Some(u) => AuthSnapshot {
            user: Some(
                UserSummary {
                    id: u.id,
                    username: u.username.clone(),
                    roles: u.roles,
                    password_reset_required: u.password_reset_required,
                },
            ),
            permissions: u.permissions.clone(),
        },
        None => AuthSnapshot { user: None, permissions: PermissionSet::new() },
    }
}

impl AuthState {
    /// The state before any snapshot has arrived.
    pub fn new() -> (r: AuthState)
        ensures
            !r.ready,
            r.user is None,
            r.permissions.sorted_names().len() == 0,
    {
        AuthState { ready: false, user: None, permissions: PermissionSet::new() }
    }

    /// A user is signed in.
    pub open spec fn is_logged_in(&self) -> bool {
        self.user is Some
    }

    /// The signed-in user must change their password first.
    pub open spec fn must_reset_password(&self) -> bool {
        match self.user {
            Some(u) => u.password_reset_required,
            None => false,
        }
    }

    /// The signed-in user holds a role.
    pub open spec fn holds_role(&self, role: Role) -> bool {
        match self.user {
            Some(u) => u.roles.has(role),
            None => false,
        }
    }

    /// Whether a user is signed in.
    pub fn logged_in(&self) -> (r: bool)
        ensures
            r == self.is_logged_in(),
    {
        self.user.is_some()
    }

    /// Whether the signed-in user must change their password first.
    pub fn requires_password_reset(&self) -> (r: bool)
        ensures
            r == self.must_reset_password(),
    {
        match &self.user {
            Some(u) => u.password_reset_required,
            None => false,
        }
    }

    /// The signed-in user's name.
    pub fn username(&self) -> (r: Option<String>)
        ensures
            match self.user {
                Some(u) => r == Some(u.username),
                None => r is None,
            },
    {
        match &self.user {
            Some(u) => Some(u.username.clone()),
            None => None,
        }
    }

    /// Whether the signed-in user holds a role.
    pub fn has_role(&self, role: Role) -> (r: bool)
        ensures
            r == self.holds_role(role),
    {
        match &self.user {
            Some(u) => u.roles.contains(role),
            None => false,
        }
    }

    /// Whether the signed-in user is an administrator.
    pub fn is_admin(&self) -> (r: bool)
        ensures
            r == self.holds_role(Role::Admin),
    {
        self.has_role(Role::Admin)
    }

    /// Whether the signed-in user is staff.
    pub fn is_staff(&self) -> (r: bool)
        ensures
            r == self.holds_role(Role::Staff),
    {
        self.has_role(Role::Staff)
    }

    /// Whether the signed-in user holds the named permission.
    pub fn has_perm(&self, perm: &str) -> (r: bool)
        ensures
            r == self.permissions.has(perm@),
    {
        self.permissions.contains(perm)
    }

    /// Takes over a snapshot from the server: its user and permissions, and
    /// marks the state ready.
    pub fn apply_snapshot(&mut self, snap: AuthSnapshot)
        ensures
            final(self).ready,
            final(self).user == snap.user,
            final(self).permissions.sorted_names() == snap.permissions.sorted_names(),
    {
        self.user = snap.user;
        self.permissions = snap.permissions;
        self.ready = true;
    }

    /// Marks the state as waiting for a fresh snapshot (after signing in).
    pub fn begin_refresh(&mut self)
        ensures
            !final(self).ready,
            final(self).user == old(self).user,
            final(self).permissions.sorted_names() == old(self).permissions.sorted_names(),
    {
        self.ready = false;
    }

    /// The state after signing out: no user, no permissions, ready.
    pub fn sign_out(&mut self)
        ensures
            final(self).ready,
            final(self).user is None,
            final(self).permissions.sorted_names().len() == 0,
    {
        self.user = None;
        self.permissions = PermissionSet::new();
        self.ready = true;
    }
}

/// The pages of the application.
#[derive(Clone, Copy, Debug, PartialEq, Eq, Structural)]
pub enum AppRoute {
    Home,
    Contact,
    Privacy,
    Imprint,
    Login,
    Logout,
    Protected,
    Account,
    AccountProfile,
    AccountPassword,
    AccountWebauthn,
    Admin,
}

impl AppRoute {
    /// The translation key of the route's path.
    pub fn path_key(&self) -> (r: &'static str)
        ensures
            r@ == match self {
                AppRoute::Home => "home_path"@,
                AppRoute::Contact => "contact_path"@,
                AppRoute::Privacy => "privacy_path"@,
                AppRoute::Imprint => "imprint_path"@,
                AppRoute::Login => "login_path"@,
                AppRoute::Logout => "logout_path"@,
                AppRoute::Protected => "protected_path"@,
                AppRoute::Account => "account_path"@,
                AppRoute::AccountProfile => "account_profile_path"@,
                AppRoute::AccountPassword => "account_password_path"@,
                AppRoute::AccountWebauthn => "account_webauthn_path"@,
                AppRoute::Admin => "admin_path"@,
            },
    {
        match self {
            AppRoute::Home => "home_path",
            AppRoute::Contact => "contact_path",
            AppRoute::Privacy => "privacy_path",
            AppRoute::Imprint => "imprint_path",
            AppRoute::Login => "login_path",
            AppRoute::Logout => "logout_path",
            AppRoute::Protected => "protected_path",
            AppRoute::Account => "account_path",
            AppRoute::AccountProfile => "account_profile_path",
            AppRoute::AccountPassword => "account_password_path",
            AppRoute::AccountWebauthn => "account_webauthn_path",
            AppRoute::Admin => "admin_path",
        }
    }
}

/// Whether a route needs a guard (a signed-in user).
pub open spec fn is_guarded(route: AppRoute) -> bool {
    match route {
        AppRoute::Protected | AppRoute::Account | AppRoute::AccountProfile
        | AppRoute::AccountPassword | AppRoute::AccountWebauthn | AppRoute::Admin => true,
        _ => false,
    }
}

/// The guard of a route: undecided until the snapshot has arrived; then the
/// password page admits any signed-in user, the admin page admits
/// administrators without a pending password reset, and the other guarded
/// pages admit signed-in users without a pending password reset. Public pages
/// admit everyone.
pub open spec fn route_condition(auth: AuthState, route: AppRoute) -> Option<bool> {
    if !is_guarded(route) {
        Some(true)
    } else if !auth.ready {
        None
    } else {
        match route {
            AppRoute::AccountPassword => Some(auth.is_logged_in()),
            AppRoute::Admin => Some(auth.holds_role(Role::Admin) && !auth.must_reset_password()),
            _ => Some(auth.is_logged_in() && !auth.must_reset_password()),
        }
    }
}

/// Where a refused visitor of a guarded page is sent: the password page for a
/// signed-in user with a pending reset, the sign-in page otherwise (and
/// always for the password page itself).
pub open spec fn route_redirect(auth: AuthState, route: AppRoute) -> AppRoute {
    if route != AppRoute::AccountPassword && auth.ready && auth.is_logged_in()
        && auth.must_reset_password() {
        AppRoute::AccountPassword
    } else {
        AppRoute::Login
    }
}

/// The guard of a route, for the current auth state.
pub fn route_access(auth: &AuthState, route: AppRoute) -> (r: Option<bool>)
    ensures
        r == route_condition(*auth, route),
{
    match route {
        AppRoute::Protected | AppRoute::Account | AppRoute::AccountProfile
        | AppRoute::AccountWebauthn => {
            if !auth.ready {
                None
            } else {
                Some(auth.logged_in() && !auth.requires_password_reset())
            }
        },
        AppRoute::AccountPassword => {
            if !auth.ready {
                None
            } else {
                Some(auth.logged_in())
            }
        },
        AppRoute::Admin => {
            if !auth.ready {
                None
            } else {
                Some(auth.is_admin() && !auth.requires_password_reset())
            }
        },
        _ => Some(true),
    }
}

/// Where a refused visitor of a guarded route is sent.
pub fn redirect_target(auth: &AuthState, route: AppRoute) -> (r: AppRoute)
    ensures
        r == route_redirect(*auth, route),
{
    let protected_redirect = if auth.ready && auth.logged_in() && auth.requires_password_reset() {
        AppRoute::AccountPassword
    } else {
        AppRoute::Login
    };
    match route {
        AppRoute::AccountPassword => AppRoute::Login,
        _ => protected_redirect,
    }
}

/// Where a user is sent after signing in: the password page when a reset is
/// pending, the protected page otherwise.
pub open spec fn after_sign_in_route(password_reset_required: bool) -> AppRoute {
    if password_reset_required {
        AppRoute::AccountPassword
    } else {
        AppRoute::Protected
    }
}

/// Where a user is sent after signing in.
pub fn post_login_route(password_reset_required: bool) -> (r: AppRoute)
    ensures
        r == after_sign_in_route(password_reset_required),
{
    if password_reset_required {
        AppRoute::AccountPassword
    } else {
        AppRoute::Protected
    }
}

/// The navigation links the header shows: Home and Contact always; once the
/// snapshot has arrived, Login for visitors, and Protected, Account, Admin
/// (for administrators) and Logout for signed-in users.
pub fn header_links(auth: &AuthState) -> (r: Vec<AppRoute>)
    ensures
        r@ == seq![AppRoute::Home, AppRoute::Contact] + if !auth.ready {
            Seq::<AppRoute>::empty()
        } else if !auth.is_logged_in() {
            seq![AppRoute::Login]
        } else if auth.holds_role(Role::Admin) {
            seq![AppRoute::Protected, AppRoute::Account, AppRoute::Admin, AppRoute::Logout]
        } else {
            seq![AppRoute::Protected, AppRoute::Account, AppRoute::Logout]
        },
{
    let mut r = Vec::new();
    r.push(AppRoute::Home);
    r.push(AppRoute::Contact);
    if auth.ready {
        if !auth.logged_in() {
            r.push(AppRoute::Login);
        } else {
            r.push(AppRoute::Protected);
            r.push(AppRoute::Account);
            if auth.is_admin() {
                r.push(AppRoute::Admin);
            }
            r.push(AppRoute::Logout);
        }
    }
    assert(r@ =~= seq![AppRoute::Home, AppRoute::Contact] + if !auth.ready {
        Seq::<AppRoute>::empty()
    } else if !auth.is_logged_in() {
        seq![AppRoute::Login]
    } else if auth.holds_role(Role::Admin) {
        seq![AppRoute::Protected, AppRoute::Account, AppRoute::Admin, AppRoute::Logout]
    } else {
        seq![AppRoute::Protected, AppRoute::Account, AppRoute::Logout]
    });
    r
}

/// A signed-in user with a pending password reset is kept to the password
/// page: every other guarded page refuses them and sends them there.
pub proof fn pending_reset_confines_to_password_page(auth: AuthState, route: AppRoute)
    requires
        auth.ready,
        auth.is_logged_in(),
        auth.must_reset_password(),
        is_guarded(route),
    ensures
        route_condition(auth, route) == Some(route == AppRoute::AccountPassword),
        route != AppRoute::AccountPassword ==> route_redirect(auth, route) == AppRoute::AccountPassword,
{
}

/// Once the snapshot has arrived, a signed-in user without a pending password
/// reset may open every page but the admin page, whatever roles they hold;
/// the admin page admits them exactly when they hold the admin role.
pub proof fn signed_in_user_opens_non_admin_pages(auth: AuthState, route: AppRoute)
    requires
        auth.ready,
        auth.is_logged_in(),
        !auth.must_reset_password(),
    ensures
        route != AppRoute::Admin ==> route_condition(auth, route) == Some(true),
        route_condition(auth, AppRoute::Admin) == Some(auth.holds_role(Role::Admin)),
        route_condition(auth, AppRoute::AccountProfile) == Some(true),
{
}

/// The admin page admits only administrators.
pub proof fn admin_page_requires_admin_role(auth: AuthState)
    ensures
        route_condition(auth, AppRoute::Admin) == Some(true) ==> auth.holds_role(Role::Admin)
            && auth.ready,
{
}

/// Visitors who are not signed in are refused every guarded page and sent to
/// the sign-in page.
pub proof fn visitors_are_sent_to_sign_in(auth: AuthState, route: AppRoute)
    requires
        auth.ready,
        !auth.is_logged_in(),
        is_guarded(route),
    ensures
        route_condition(auth, route) == Some(false),
        route_redirect(auth, route) == AppRoute::Login,
{
}

/// The page that sign-in sends a user to admits that user once the new
/// snapshot is in place.
pub proof fn sign_in_target_admits_user(auth: AuthState, u: UserSummary)
    requires
        auth.ready,
        auth.user == Some(u),
    ensures
        route_condition(auth, after_sign_in_route(u.password_reset_required)) == Some(true),
{
}

} // verus!
