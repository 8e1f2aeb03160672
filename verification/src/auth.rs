//! Accounts and sign-in: the stored account record, the signed-in user that a
//! session carries, the session auth hash that ties a session to the account's
//! policy fields, and the checks that password and passkey sign-in apply.

use vstd::prelude::*;
use vstd::string::StringExecFns;

use crate::admin::active_text;
use crate::password::{password_matches_hash, verify_password};
use crate::roles::{roles_for_names, roles_from_names, PermissionSet, Role, RoleSet};
use crate::text::{
    eq_ignore_ascii_case, eq_ignore_ascii_case_text, keyword, keyword_text, strictly_sorted_same_texts_are_equal,
    strictly_sorted_texts, texts_of, trim, trim_text,
};

verus! {

/// An account as the `users` table stores it (timestamps aside).
pub struct UserRecord {
    pub id: i64,
    pub username: String,
    pub first_name: String,
    pub last_name: String,
    pub email: String,
    pub password_hash: String,
    pub status: String,
    pub password_reset_required: bool,
    pub webauthn_user_handle: Option<String>,
}

impl Clone for UserRecord {
    fn clone(&self) -> (r: Self)
        ensures
            r == *self,
    {
        let handle = match &self.webauthn_user_handle {
            Some(h) => Some(h.clone()),
            None => None,
        };
        UserRecord {
            id: self.id,
            username: self.username.clone(),
            first_name: self.first_name.clone(),
            last_name: self.last_name.clone(),
            email: self.email.clone(),
            password_hash: self.password_hash.clone(),
            status: self.status.clone(),
            password_reset_required: self.password_reset_required,
            webauthn_user_handle: handle,
        }
    }
}

/// The signed-in user that a session carries.
pub struct User {
    pub id: u64,
    pub username: String,
    pub password_hash: String,
    pub status: String,
    pub password_reset_required: bool,
    pub session_auth_hash: String,
    pub roles: RoleSet,
    pub permissions: PermissionSet,
}

impl User {
    /// The user's id (what the session stores).
    pub fn id(&self) -> (r: u64)
        ensures
            r == self.id,
    {
        self.id
    }

    /// The hash that the session layer compares to decide whether a session is
    /// still valid for this user.
    pub fn session_auth_hash(&self) -> (r: &str)
        ensures
            r@ == self.session_auth_hash@,
    {
        self.session_auth_hash.as_str()
    }
}

/// A username and password as a sign-in form submits them.
pub struct Credentials {
    pub username: String,
    pub password: String,
}

/// A failure of the account store.
pub enum BackendError {
    Internal(String),
}

impl BackendError {
    /// The error's message, as its `Display` shows it.
    pub fn message(&self) -> (r: String)
        ensures
            match self {
                BackendError::Internal(m) => r@ == "internal error: "@ + m@,
            },
    {
        match self {
            BackendError::Internal(m) => {
                let mut s = String::from_str("internal error: ");
                s.append(m.as_str());
                s
            },
        }
    }
}

/// The texts `ts` joined with `sep` between neighbours (`[..].join(sep)`).
pub open spec fn join_texts(ts: Seq<Seq<char>>, sep: Seq<char>) -> Seq<char>
    decreases ts.len(),
{
    if ts.len() == 0 {
        Seq::empty()
    } else if ts.len() == 1 {
        ts[0]
    } else {
        join_texts(ts.drop_last(), sep) + sep + ts.last()
    }
}

/// The strings of `v` joined with `sep` between neighbours.
pub fn join_strings(v: &Vec<String>, sep: &str) -> (r: String)
    ensures
        r@ == join_texts(texts_of(v@), sep@),
{
    let mut r = String::new();
    let mut i: usize = 0;
    while i < v.len()
        invariant
            i <= v.len(),
            r@ == join_texts(texts_of(v@).take(i as int), sep@),
        decreases v.len() - i,
    {
        proof {
            let t = texts_of(v@).take(i + 1);
            assert(t.drop_last() =~= texts_of(v@).take(i as int));
            assert(t.last() == v@[i as int]@);
            if i == 0 {
                assert(r@ =~= Seq::<char>::empty());
            }
        }
        if i > 0 {
            r.append(sep);
        }
        r.append(v[i].as_str());
        i += 1;
    }
    assert(texts_of(v@).take(v.len() as int) =~= texts_of(v@));
    r
}

/// How `format!("{}")` shows a boolean.
pub open spec fn bool_text(b: bool) -> Seq<char> {
    if b {
        "true"@
    } else {
        "false"@
    }
}

/// The session auth hash of an account: the password hash, the normalised
/// status, the reset flag, and the sorted role and permission names, so that a
/// change to any of them ends the account's existing sessions.
pub open spec fn session_auth_hash_text(
    password_hash: Seq<char>,
    status: Seq<char>,
    password_reset_required: bool,
    roles: RoleSet,
    permissions: Seq<Seq<char>>,
) -> Seq<char> {
    password_hash + "|status="@ + keyword_text(status) + "|password_reset_required="@ + bool_text(
        password_reset_required,
    ) + "|roles="@ + join_texts(roles.sorted_names(), ","@) + "|permissions="@ + join_texts(
        permissions,
        ","@,
    )
}

/// The session auth hash of an account with these policy fields.
pub fn derive_session_auth_hash(
    password_hash: &str,
    status: &str,
    password_reset_required: bool,
    roles: &RoleSet,
    permissions: &PermissionSet,
) -> (r: String)
    ensures
        r@ == session_auth_hash_text(
            password_hash@,
            status@,
            password_reset_required,
            *roles,
            permissions.sorted_names(),
        ),
{
    let normalized_status = keyword(status);
    let role_names = roles.names();
    let permission_names = permissions.names();
    let mut s = String::from_str(password_hash);
    s.append("|status=");
    s.append(normalized_status.as_str());
    s.append("|password_reset_required=");
    if password_reset_required {
        s.append("true");
    } else {
        s.append("false");
    }
    s.append("|roles=");
    let joined_roles = join_strings(&role_names, ",");
    s.append(joined_roles.as_str());
    s.append("|permissions=");
    let joined_permissions = join_strings(&permission_names, ",");
    s.append(joined_permissions.as_str());
    s
}

/// The signed-in user for an account record, given the names of the roles
/// assigned to it and the names of the permissions those roles grant.
pub fn build_user(u: UserRecord, role_names: Vec<String>, permission_names: Vec<String>) -> (r: User)
    ensures
        r.id == u.id as u64,
        r.username == u.username,
        r.password_hash == u.password_hash,
        r.status == u.status,
        r.password_reset_required == u.password_reset_required,
        r.roles == roles_for_names(texts_of(role_names@)),
        r.permissions.sorted_names().to_set() == texts_of(permission_names@).to_set(),
        strictly_sorted_texts(r.permissions.sorted_names()),
        r.session_auth_hash@ == session_auth_hash_text(
            u.password_hash@,
            u.status@,
            u.password_reset_required,
            r.roles,
            r.permissions.sorted_names(),
        ),
{
    let roles = roles_from_names(&role_names);
    let permissions = PermissionSet::from_names(permission_names);
    let session_auth_hash = derive_session_auth_hash(
        u.password_hash.as_str(),
        u.status.as_str(),
        u.password_reset_required,
        &roles,
        &permissions,
    );
    User {
        id: u.id as u64,
        username: u.username,
        password_hash: u.password_hash,
        status: u.status,
        password_reset_required: u.password_reset_required,
        session_auth_hash,
        roles,
        permissions,
    }
}

/// An account status that allows signing in: "active" in any ASCII case,
/// surrounding whitespace ignored.
pub open spec fn is_active_status(status: Seq<char>) -> bool {
    eq_ignore_ascii_case_text(trim_text(status), active_text())
}

/// Whether an account status allows signing in.
pub fn status_is_active(status: &str) -> (r: bool)
    ensures
        r == is_active_status(status@),
{
    let t = trim(status);
    proof {
        reveal_strlit("active");
        assert("active"@ =~= active_text());
    }
    eq_ignore_ascii_case(t.as_str(), "active")
}

/// Which account a password sign-in admits: the account found under the
/// submitted username, when the password verifies against its hash and its
/// status is active; none otherwise.
pub open spec fn password_sign_in(record: Option<UserRecord>, password: Seq<char>) -> Option<UserRecord> {
    match record {
        None => None,
        Some(u) => if password_matches_hash(password, u.password_hash@) && is_active_status(u.status@) {
            Some(u)
        } else {
            None
        },
    }
}

/// The password check of sign-in, applied to the account found under the
/// submitted username (if any).
pub fn authenticate_record(record: Option<UserRecord>, password: &str) -> (r: Option<UserRecord>)
    ensures
        r == password_sign_in(record, password@),
{
    match record {
        None => None,
        Some(u) => {
            let password_ok = verify_password(password, u.password_hash.as_str());
            admit_account(u, password_ok)
        },
    }
}

/// The sign-in decision once the password has been checked against the
/// account's hash: the account, when the password verified and its status is
/// active; none otherwise.
pub fn admit_account(u: UserRecord, password_ok: bool) -> (r: Option<UserRecord>)
    ensures
        r == if password_ok && is_active_status(u.status@) {
            Some(u)
        } else {
            None
        },
{
    if !password_ok {
        return None;
    }
    if !status_is_active(u.status.as_str()) {
        return None;
    }
    Some(u)
}

/// The key under which the account of a session's user id is looked up; an
/// id beyond the range of stored ids is an error.
pub fn user_id_for_lookup(user_id: u64) -> (r: Result<i64, BackendError>)
    ensures
        match r {
            Ok(id) => user_id <= i64::MAX && id == user_id,
            Err(BackendError::Internal(m)) => user_id > i64::MAX && m@ == "user id conversion overflow"@,
        },
{
    if user_id <= i64::MAX as u64 {
        Ok(user_id as i64)
    } else {
        Err(BackendError::Internal(String::from_str("user id conversion overflow")))
    }
}

/// Whether an account may finish a passkey sign-in: the same account policy
/// as password sign-in (an active status), and no pending password reset.
pub open spec fn passkey_sign_in_allowed(u: UserRecord) -> bool {
    is_active_status(u.status@) && !u.password_reset_required
}

/// Whether an account may finish a passkey sign-in.
pub fn passkey_login_allowed(u: &UserRecord) -> (r: bool)
    ensures
        r == passkey_sign_in_allowed(*u),
{
    status_is_active(u.status.as_str()) && !u.password_reset_required
}

/// An account whose status is not active cannot sign in, neither with a
/// password nor with a passkey.
pub proof fn inactive_account_cannot_sign_in(u: UserRecord, password: Seq<char>)
    requires
        !is_active_status(u.status@),
    ensures
        password_sign_in(Some(u), password) is None,
        !passkey_sign_in_allowed(u),
{
}

/// Password sign-in admits exactly the active accounts whose hash the
/// password verifies against, and admits them as they are stored: a pending
/// password reset does not keep an account out (it is sent on to the password
/// page instead), and the flag has no say in whether the account is admitted.
pub proof fn verified_active_account_signs_in(u: UserRecord, password: Seq<char>)
    ensures
        password_sign_in(Some(u), password) is Some <==> (password_matches_hash(password, u.password_hash@)
            && is_active_status(u.status@)),
        password_sign_in(Some(u), password) is Some ==> password_sign_in(Some(u), password) == Some(u),
        password_sign_in(Some(u), password) is Some <==> password_sign_in(
            Some(UserRecord { password_reset_required: !u.password_reset_required, ..u }),
            password,
        ) is Some,
        password_sign_in(None, password) is None,
{
}

/// Passkey sign-in admits only accounts that password sign-in would admit
/// with a verifying password: the policy checks are the same, and passkey
/// sign-in additionally refuses accounts that must reset their password.
pub proof fn passkey_policy_implies_password_policy(u: UserRecord, password: Seq<char>)
    requires
        passkey_sign_in_allowed(u),
        password_matches_hash(password, u.password_hash@),
    ensures
        password_sign_in(Some(u), password) == Some(u),
        !u.password_reset_required,
{
}

proof fn lemma_middle_differs(x: Seq<char>, y1: Seq<char>, y2: Seq<char>, z: Seq<char>)
    requires
        y1 != y2,
    ensures
        x + y1 + z != x + y2 + z,
{
    let a = x + y1 + z;
    let b = x + y2 + z;
    if y1.len() == y2.len() {
        assert(!(y1 =~= y2));
        let i = choose|i: int| 0 <= i < y1.len() && y1[i] != y2[i];
        assert(a[x.len() + i] == y1[i]);
        assert(b[x.len() + i] == y2[i]);
    } else {
        assert(a.len() != b.len());
    }
}

/// Setting or clearing the password-reset flag changes the session auth hash,
/// so sessions opened before the change stop being valid.
pub proof fn session_hash_tracks_reset_flag(
    password_hash: Seq<char>,
    status: Seq<char>,
    roles: RoleSet,
    permissions: Seq<Seq<char>>,
)
    ensures
        session_auth_hash_text(password_hash, status, true, roles, permissions)
            != session_auth_hash_text(password_hash, status, false, roles, permissions),
{
    reveal_strlit("true");
    reveal_strlit("false");
    let x = password_hash + "|status="@ + keyword_text(status) + "|password_reset_required="@;
    let a = session_auth_hash_text(password_hash, status, true, roles, permissions);
    let b = session_auth_hash_text(password_hash, status, false, roles, permissions);
    assert(a[x.len() as int] == 't');
    assert(b[x.len() as int] == 'f');
}

/// A new password hash changes the session auth hash, so a password change
/// ends the account's other sessions.
pub proof fn session_hash_tracks_password_hash(
    old_hash: Seq<char>,
    new_hash: Seq<char>,
    status: Seq<char>,
    password_reset_required: bool,
    roles: RoleSet,
    permissions: Seq<Seq<char>>,
)
    requires
        old_hash != new_hash,
    ensures
        session_auth_hash_text(old_hash, status, password_reset_required, roles, permissions)
            != session_auth_hash_text(new_hash, status, password_reset_required, roles, permissions),
{
    let rest = "|status="@ + keyword_text(status) + "|password_reset_required="@ + bool_text(
        password_reset_required,
    ) + "|roles="@ + join_texts(roles.sorted_names(), ","@) + "|permissions="@ + join_texts(
        permissions,
        ","@,
    );
    assert(session_auth_hash_text(old_hash, status, password_reset_required, roles, permissions)
        =~= Seq::<char>::empty() + old_hash + rest);
    assert(session_auth_hash_text(new_hash, status, password_reset_required, roles, permissions)
        =~= Seq::<char>::empty() + new_hash + rest);
    lemma_middle_differs(Seq::empty(), old_hash, new_hash, rest);
}

/// A change of the normalised account status changes the session auth hash,
/// so disabling an account ends its sessions.
pub proof fn session_hash_tracks_status(
    password_hash: Seq<char>,
    old_status: Seq<char>,
    new_status: Seq<char>,
    password_reset_required: bool,
    roles: RoleSet,
    permissions: Seq<Seq<char>>,
)
    requires
        keyword_text(old_status) != keyword_text(new_status),
    ensures
        session_auth_hash_text(password_hash, old_status, password_reset_required, roles, permissions)
            != session_auth_hash_text(password_hash, new_status, password_reset_required, roles, permissions),
{
    let x = password_hash + "|status="@;
    let rest = "|password_reset_required="@ + bool_text(password_reset_required) + "|roles="@
        + join_texts(roles.sorted_names(), ","@) + "|permissions="@ + join_texts(permissions, ","@);
    assert(session_auth_hash_text(password_hash, old_status, password_reset_required, roles, permissions)
        =~= x + keyword_text(old_status) + rest);
    assert(session_auth_hash_text(password_hash, new_status, password_reset_required, roles, permissions)
        =~= x + keyword_text(new_status) + rest);
    lemma_middle_differs(x, keyword_text(old_status), keyword_text(new_status), rest);
}

/// The letters that tell the roles of a joined role list apart: 'm' only in
/// "admin", 't' only in "staff", 'u' only in "user".
proof fn lemma_role_letters(r: RoleSet)
    ensures
        join_texts(r.sorted_names(), ","@).contains('m') == r.admin,
        join_texts(r.sorted_names(), ","@).contains('t') == r.staff,
        join_texts(r.sorted_names(), ","@).contains('u') == r.user,
{
    reveal_with_fuel(join_texts, 4);
    reveal_strlit(",");
    let j = join_texts(r.sorted_names(), ","@);
    if r.admin == true && r.staff == true && r.user == true {
        assert(j =~= seq!['a', 'd', 'm', 'i', 'n', ',', 's', 't', 'a', 'f', 'f', ',', 'u', 's', 'e', 'r']);
        assert(j[2] == 'm');
        assert(j[7] == 't');
        assert(j[12] == 'u');
    } else if r.admin == true && r.staff == true && r.user == false {
        assert(j =~= seq!['a', 'd', 'm', 'i', 'n', ',', 's', 't', 'a', 'f', 'f']);
        assert(j[2] == 'm');
        assert(j[7] == 't');
    } else if r.admin == true && r.staff == false && r.user == true {
        assert(j =~= seq!['a', 'd', 'm', 'i', 'n', ',', 'u', 's', 'e', 'r']);
        assert(j[2] == 'm');
        assert(j[6] == 'u');
    } else if r.admin == true && r.staff == false && r.user == false {
        assert(j =~= seq!['a', 'd', 'm', 'i', 'n']);
        assert(j[2] == 'm');
    } else if r.admin == false && r.staff == true && r.user == true {
        assert(j =~= seq!['s', 't', 'a', 'f', 'f', ',', 'u', 's', 'e', 'r']);
        assert(j[1] == 't');
        assert(j[6] == 'u');
    } else if r.admin == false && r.staff == true && r.user == false {
        assert(j =~= seq!['s', 't', 'a', 'f', 'f']);
        assert(j[1] == 't');
    } else if r.admin == false && r.staff == false && r.user == true {
        assert(j =~= seq!['u', 's', 'e', 'r']);
        assert(j[0] == 'u');
    } else if r.admin == false && r.staff == false && r.user == false {
        assert(j =~= Seq::<char>::empty());
    }
}

/// A change of an account's roles changes the session auth hash, so sessions
/// opened before the change stop being valid.
pub proof fn session_hash_tracks_roles(
    password_hash: Seq<char>,
    status: Seq<char>,
    password_reset_required: bool,
    old_roles: RoleSet,
    new_roles: RoleSet,
    permissions: Seq<Seq<char>>,
)
    requires
        old_roles != new_roles,
    ensures
        session_auth_hash_text(password_hash, status, password_reset_required, old_roles, permissions)
            != session_auth_hash_text(password_hash, status, password_reset_required, new_roles, permissions),
{
    lemma_role_letters(old_roles);
    lemma_role_letters(new_roles);
    let j1 = join_texts(old_roles.sorted_names(), ","@);
    let j2 = join_texts(new_roles.sorted_names(), ","@);
    assert(j1 != j2);
    let x = password_hash + "|status="@ + keyword_text(status) + "|password_reset_required="@ + bool_text(
        password_reset_required,
    ) + "|roles="@;
    let rest = "|permissions="@ + join_texts(permissions, ","@);
    assert(session_auth_hash_text(password_hash, status, password_reset_required, old_roles, permissions)
        =~= x + j1 + rest);
    assert(session_auth_hash_text(password_hash, status, password_reset_required, new_roles, permissions)
        =~= x + j2 + rest);
    lemma_middle_differs(x, j1, j2, rest);
}

/// The session auth hash depends on which permissions an account has, not on
/// how they were listed: two permission lists in the order a permission set
/// keeps (increasing, as `build_user` gives) with the same names give the
/// same hash.
pub proof fn session_hash_ignores_permission_listing(
    password_hash: Seq<char>,
    status: Seq<char>,
    password_reset_required: bool,
    roles: RoleSet,
    p1: Seq<Seq<char>>,
    p2: Seq<Seq<char>>,
)
    requires
        strictly_sorted_texts(p1),
        strictly_sorted_texts(p2),
        p1.to_set() == p2.to_set(),
    ensures
        session_auth_hash_text(password_hash, status, password_reset_required, roles, p1)
            == session_auth_hash_text(password_hash, status, password_reset_required, roles, p2),
{
    strictly_sorted_same_texts_are_equal(p1, p2);
}

/// What `format!("{:?}", s)` gives for a string: the string in double
/// quotes, with escapes.
pub uninterp spec fn str_debug_text(s: Seq<char>) -> Seq<char>;

/// A printable ASCII character that `Debug` for strings writes as it is.
pub open spec fn debug_plain_char(c: char) -> bool {
    ' ' <= c && c <= '~' && c != '"' && c != '\\'
}

/// `<str as Debug>::fmt`, through `format!("{:?}", s)`: the string quoted
/// and escaped. The contract names the result `str_debug_text`, and states
/// that a string of printable ASCII characters other than `"` and `\`, which
/// need no escape, is only put in double quotes.
#[verifier::external_body]
fn debug_str(s: &str) -> (r: String)
    ensures
        r@ == str_debug_text(s@),
        (forall|i: int| 0 <= i < s@.len() ==> debug_plain_char(#[trigger] s@[i])) ==> r@ == "\""@ + s@
            + "\""@,
{
    format!("{:?}", s)
}

/// The decimal digit for 0 to 9.
pub open spec fn digit_char(d: int) -> char {
    (48 + d) as char
}

/// The decimal text of a number, without leading zeros.
pub open spec fn decimal_text(n: nat) -> Seq<char>
    decreases n,
{
    if n < 10 {
        seq![digit_char(n as int)]
    } else {
        decimal_text(n / 10) + seq![digit_char((n % 10) as int)]
    }
}

fn push_decimal(s: &mut String, n: u64)
    ensures
        final(s)@ == old(s)@ + decimal_text(n as nat),
    decreases n,
{
    if n >= 10 {
        push_decimal(s, n / 10);
    }
    let d: u8 = (n % 10) as u8;
    crate::text::push_char(s, (48u8 + d) as char);
    proof {
        assert(old(s)@ + decimal_text(n as nat) =~= if n >= 10 {
            old(s)@ + decimal_text((n / 10) as nat) + seq![digit_char((n % 10) as int)]
        } else {
            old(s)@ + seq![digit_char(n as int)]
        });
    }
}

/// How `Debug` names a role.
pub open spec fn role_debug_name(r: Role) -> Seq<char> {
    match r {
        Role::Admin => "Admin"@,
        Role::Staff => "Staff"@,
        Role::User => "User"@,
    }
}

/// The debug names of the roles of a set, in sorted order.
pub open spec fn role_debug_names(roles: RoleSet) -> Seq<Seq<char>> {
    (if roles.admin { seq![role_debug_name(Role::Admin)] } else { Seq::empty() }) + (if roles.staff {
        seq![role_debug_name(Role::Staff)]
    } else {
        Seq::empty()
    }) + (if roles.user { seq![role_debug_name(Role::User)] } else { Seq::empty() })
}

/// How a permission is shown: `Permission("name")`.
pub open spec fn permission_debug_text(name: Seq<char>) -> Seq<char> {
    "Permission("@ + str_debug_text(name) + ")"@
}

/// The debug text of a set of items: `{a, b}`.
pub open spec fn set_debug_text(items: Seq<Seq<char>>) -> Seq<char> {
    "{"@ + join_texts(items, ", "@) + "}"@
}

/// The debug text of a user: its id, name, status, reset flag, roles and
/// permissions; the password hash shows as "[redacted]" and the session auth
/// hash as "[derived]", so neither is revealed. Roles and permissions are
/// listed in sorted order.
pub open spec fn user_debug_text(u: User) -> Seq<char> {
    "User { id: "@ + decimal_text(u.id as nat) + ", username: "@ + str_debug_text(u.username@)
        + ", password_hash: \"[redacted]\", status: "@ + str_debug_text(u.status@)
        + ", password_reset_required: "@ + bool_text(u.password_reset_required)
        + ", session_auth_hash: \"[derived]\", roles: "@ + set_debug_text(role_debug_names(u.roles))
        + ", permissions: "@ + set_debug_text(
        u.permissions.sorted_names().map_values(|n: Seq<char>| permission_debug_text(n)),
    ) + " }"@
}

fn append_set(s: &mut String, items: &Vec<String>)
    ensures
        final(s)@ == old(s)@ + set_debug_text(texts_of(items@)),
{
    s.append("{");
    let joined = join_strings(items, ", ");
    s.append(joined.as_str());
    s.append("}");
}

impl User {
    /// The user's debug text, with both hashes left out.
    pub fn debug_text(&self) -> (r: String)
        ensures
            r@ == user_debug_text(*self),
    {
        let mut s = String::from_str("User { id: ");
        push_decimal(&mut s, self.id);
        s.append(", username: ");
        let name = debug_str(self.username.as_str());
        s.append(name.as_str());
        s.append(", password_hash: \"[redacted]\", status: ");
        let status = debug_str(self.status.as_str());
        s.append(status.as_str());
        s.append(", password_reset_required: ");
        if self.password_reset_required {
            s.append("true");
        } else {
            s.append("false");
        }
        s.append(", session_auth_hash: \"[derived]\", roles: ");
        let mut roles: Vec<String> = Vec::new();
        if self.roles.admin {
            roles.push(String::from_str("Admin"));
        }
        if self.roles.staff {
            roles.push(String::from_str("Staff"));
        }
        if self.roles.user {
            roles.push(String::from_str("User"));
        }
        assert(texts_of(roles@) =~= role_debug_names(self.roles));
        append_set(&mut s, &roles);
        s.append(", permissions: ");
        let names = self.permissions.names();
        let mut items: Vec<String> = Vec::new();
        let mut i: usize = 0;
        while i < names.len()
            invariant
                i <= names.len(),
                texts_of(names@) == self.permissions.sorted_names(),
                texts_of(items@) == texts_of(names@).take(i as int).map_values(
                    |n: Seq<char>| permission_debug_text(n),
                ),
            decreases names.len() - i,
        {
            let mut item = String::from_str("Permission(");
            let d = debug_str(names[i].as_str());
            item.append(d.as_str());
            item.append(")");
            let ghost before = items@;
            let ghost item_text = item@;
            items.push(item);
            proof {
                assert(item_text == permission_debug_text(names@[i as int]@));
                assert(texts_of(items@) =~= texts_of(before).push(item_text));
                assert(texts_of(names@).take(i + 1) =~= texts_of(names@).take(i as int).push(names@[i as int]@));
                assert(texts_of(items@) =~= texts_of(names@).take(i + 1).map_values(
                    |n: Seq<char>| permission_debug_text(n),
                ));
            }
            i += 1;
        }
        assert(texts_of(names@).take(names.len() as int) =~= texts_of(names@));
        append_set(&mut s, &items);
        s.append(" }");
        s
    }
}

/// The debug text of a user does not depend on its password hash or its
/// session auth hash: users that differ only there show the same text.
pub proof fn debug_text_hides_hashes(u: User, v: User)
    requires
        u.id == v.id,
        u.username == v.username,
        u.status == v.status,
        u.password_reset_required == v.password_reset_required,
        u.roles == v.roles,
        u.permissions.sorted_names() == v.permissions.sorted_names(),
    ensures
        user_debug_text(u) == user_debug_text(v),
{
}

} // verus!
