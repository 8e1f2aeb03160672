//! Rules of the administration screens: account status and role lists as
//! entered in forms, validation of created and edited accounts, and the rows
//! that the user table shows.

use vstd::prelude::*;
use vstd::string::StringExecFns;

use crate::auth::{User, UserRecord};
use crate::password::{generate_hash, password_matches_hash};
use crate::roles::{admin_text, staff_text, user_text, Role, RoleSet};
use crate::text::{
    byte_count, byte_len, chars_of, eq_ignore_ascii_case, eq_ignore_ascii_case_text, has_char, keyword,
    keyword_text, lemma_keyword_of_lower_word, same_text, sort_texts, sorted_texts, text_of, texts_of,
    trim, trim_text,
};

verus! {

/// Why an administrative request was refused.
#[derive(Clone, Copy, Debug, PartialEq, Eq, Structural)]
pub enum AdminError {
    NotAuthenticated,
    Forbidden,
    UsernameRequired,
    InvalidEmail,
    PasswordTooShort,
    InvalidStatus,
    InvalidRole,
    RolesRequired,
    UsernameExists,
    EmailTaken,
    UserNotFound,
    CannotDeleteSelf,
}

impl AdminError {
    /// The message key that the server reports for the error.
    pub fn code(&self) -> (r: &'static str)
        ensures
            r@ == match self {
                AdminError::NotAuthenticated => "err_not_authenticated"@,
                AdminError::Forbidden => "err_forbidden"@,
                AdminError::UsernameRequired => "err_username_required"@,
                AdminError::InvalidEmail => "err_invalid_email"@,
                AdminError::PasswordTooShort => "err_password_too_short"@,
                AdminError::InvalidStatus => "err_invalid_status"@,
                AdminError::InvalidRole => "err_invalid_role"@,
                AdminError::RolesRequired => "err_roles_required"@,
                AdminError::UsernameExists => "err_username_exists"@,
                AdminError::EmailTaken => "err_email_taken"@,
                AdminError::UserNotFound => "err_user_not_found"@,
                AdminError::CannotDeleteSelf => "err_cannot_delete_self"@,
            },
    {
        match self {
            AdminError::NotAuthenticated => "err_not_authenticated",
            AdminError::Forbidden => "err_forbidden",
            AdminError::UsernameRequired => "err_username_required",
            AdminError::InvalidEmail => "err_invalid_email",
            AdminError::PasswordTooShort => "err_password_too_short",
            AdminError::InvalidStatus => "err_invalid_status",
            AdminError::InvalidRole => "err_invalid_role",
            AdminError::RolesRequired => "err_roles_required",
            AdminError::UsernameExists => "err_username_exists",
            AdminError::EmailTaken => "err_email_taken",
            AdminError::UserNotFound => "err_user_not_found",
            AdminError::CannotDeleteSelf => "err_cannot_delete_self",
        }
    }
}

/// The text "active".
pub open spec fn active_text() -> Seq<char> {
    seq!['a', 'c', 't', 'i', 'v', 'e']
}

/// The text "disabled".
pub open spec fn disabled_text() -> Seq<char> {
    seq!['d', 'i', 's', 'a', 'b', 'l', 'e', 'd']
}

/// The account status that a status field names, if any: "active" or
/// "disabled", after trimming and lower-casing.
pub open spec fn status_for(input: Seq<char>) -> Option<Seq<char>> {
    let k = keyword_text(input);
    if k == active_text() {
        Some(active_text())
    } else if k == disabled_text() {
        Some(disabled_text())
    } else {
        None
    }
}

/// The canonical account status that a status field names.
pub fn normalize_status(input: &str) -> (r: Option<&'static str>)
    ensures
        match r {
            Some(t) => status_for(input@) == Some(t@),
            None => status_for(input@) is None,
        },
{
    let s = keyword(input);
    proof {
        reveal_strlit("active");
        reveal_strlit("disabled");
        assert("active"@ =~= active_text());
        assert("disabled"@ =~= disabled_text());
    }
    if s == String::from_str("active") {
        Some("active")
    } else if s == String::from_str("disabled") {
        Some("disabled")
    } else {
        None
    }
}

/// A role keyword that forms accept: "user", "admin" or "staff".
pub open spec fn allowed_role_text(t: Seq<char>) -> bool {
    t == user_text() || t == admin_text() || t == staff_text()
}

/// The pieces of a text between commas (`str::split(',')`): one more piece
/// than there are commas, empty pieces included.
pub open spec fn comma_pieces(s: Seq<char>) -> Seq<Seq<char>>
    decreases s.len(),
{
    if s.len() == 0 {
        seq![Seq::empty()]
    } else {
        let rest = comma_pieces(s.drop_last());
        if s.last() == ',' {
            rest.push(Seq::empty())
        } else {
            rest.update(rest.len() - 1, rest.last().push(s.last()))
        }
    }
}

proof fn lemma_comma_pieces_nonempty(s: Seq<char>)
    ensures
        comma_pieces(s).len() >= 1,
    decreases s.len(),
{
    if s.len() > 0 {
        lemma_comma_pieces_nonempty(s.drop_last());
    }
}

/// Some text in `ts` becomes the keyword `t` once trimmed and lower-cased.
pub open spec fn names_keyword(ts: Seq<Seq<char>>, t: Seq<char>) -> bool {
    exists|i: int| 0 <= i < ts.len() && keyword_text(#[trigger] ts[i]) == t
}

/// The roles among the keywords of the texts `ts`.
pub open spec fn keyword_roles(ts: Seq<Seq<char>>) -> RoleSet {
    RoleSet {
        user: names_keyword(ts, user_text()),
        admin: names_keyword(ts, admin_text()),
        staff: names_keyword(ts, staff_text()),
    }
}

/// A piece that names something, but not a role.
pub open spec fn invalid_role_piece(p: Seq<char>) -> bool {
    keyword_text(p).len() > 0 && !allowed_role_text(keyword_text(p))
}

/// What a comma-separated role list means: an error when a piece names
/// something other than a role, or when no piece names a role; otherwise the
/// named roles, each once, in sorted order.
pub open spec fn roles_csv_meaning(input: Seq<char>) -> Result<Seq<Seq<char>>, AdminError> {
    let ps = comma_pieces(input);
    if exists|i: int| 0 <= i < ps.len() && invalid_role_piece(#[trigger] ps[i]) {
        Err(AdminError::InvalidRole)
    } else if keyword_roles(ps).is_empty_set() {
        Err(AdminError::RolesRequired)
    } else {
        Ok(keyword_roles(ps).sorted_names())
    }
}

/// The role set `roles` with the role named by one piece of a role list added,
/// and whether the piece names something other than a role.
fn take_role_piece(roles: RoleSet, piece: &Vec<char>) -> (r: (RoleSet, bool))
    ensures
        r.1 == invalid_role_piece(piece@),
        forall|x: Role| #[trigger] r.0.has(x) == (roles.has(x) || keyword_text(piece@) == x.name_text()),
{
    let mut out = roles;
    let p = text_of(piece);
    let k = keyword(p.as_str());
    proof {
        reveal_strlit("admin");
        reveal_strlit("staff");
        reveal_strlit("user");
        assert("admin"@ =~= admin_text());
        assert("staff"@ =~= staff_text());
        assert("user"@ =~= user_text());
    }
    if k.as_str().is_empty() {
        return (out, false);
    }
    if k == String::from_str("admin") {
        out.insert(Role::Admin);
    } else if k == String::from_str("staff") {
        out.insert(Role::Staff);
    } else if k == String::from_str("user") {
        out.insert(Role::User);
    } else {
        return (out, true);
    }
    (out, false)
}

proof fn lemma_keyword_roles_push(done: Seq<Seq<char>>, p: Seq<char>, before: RoleSet, after: RoleSet)
    requires
        before == keyword_roles(done),
        forall|x: Role| #[trigger] after.has(x) == (before.has(x) || keyword_text(p) == x.name_text()),
    ensures
        after == keyword_roles(done.push(p)),
{
    let nd = done.push(p);
    assert forall|x: Role| after.has(x) == keyword_roles(nd).has(x) by {
        if keyword_text(p) == x.name_text() {
            assert(keyword_text(nd[done.len() as int]) == x.name_text());
        }
        if keyword_roles(nd).has(x) {
            let k = choose|k: int| 0 <= k < nd.len() && keyword_text(#[trigger] nd[k]) == x.name_text();
            if k < done.len() {
                assert(nd[k] == done[k]);
            }
        }
        if before.has(x) {
            let k = choose|k: int| 0 <= k < done.len() && keyword_text(#[trigger] done[k]) == x.name_text();
            assert(nd[k] == done[k]);
        }
    }
    assert(after.has(Role::User) == keyword_roles(nd).has(Role::User));
    assert(after.has(Role::Admin) == keyword_roles(nd).has(Role::Admin));
    assert(after.has(Role::Staff) == keyword_roles(nd).has(Role::Staff));
}

/// Parses a comma-separated role list such as `"admin, user"`.
pub fn parse_roles_csv(input: &str) -> (r: Result<Vec<String>, AdminError>)
    ensures
        match r {
            Ok(v) => roles_csv_meaning(input@) == Ok::<Seq<Seq<char>>, AdminError>(texts_of(v@)),
            Err(e) => roles_csv_meaning(input@) == Err::<Seq<Seq<char>>, AdminError>(e),
        },
{
    let cs = chars_of(input);
    let mut roles = RoleSet::empty();
    let mut invalid = false;
    let mut cur: Vec<char> = Vec::new();
    let ghost mut done: Seq<Seq<char>> = Seq::empty();
    let mut i: usize = 0;
    assert(input@.take(0) =~= Seq::<char>::empty());
    assert(roles == keyword_roles(done));
    while i < cs.len()
        invariant
            cs@ == input@,
            i <= cs.len(),
            comma_pieces(input@.take(i as int)) == done.push(cur@),
            invalid == exists|k: int| 0 <= k < done.len() && invalid_role_piece(#[trigger] done[k]),
            roles == keyword_roles(done),
        decreases cs.len() - i,
    {
        let c = cs[i];
        assert(input@.take(i + 1).drop_last() =~= input@.take(i as int));
        assert(input@.take(i + 1).last() == c);
        if c == ',' {
            let ghost before = roles;
            let (next, bad) = take_role_piece(roles, &cur);
            roles = next;
            proof {
                lemma_keyword_roles_push(done, cur@, before, roles);
                let nd = done.push(cur@);
                if bad {
                    assert(invalid_role_piece(nd[done.len() as int]));
                }
                if invalid {
                    let k = choose|k: int| 0 <= k < done.len() && invalid_role_piece(#[trigger] done[k]);
                    assert(nd[k] == done[k]);
                }
                if exists|k: int| 0 <= k < nd.len() && invalid_role_piece(#[trigger] nd[k]) {
                    let k = choose|k: int| 0 <= k < nd.len() && invalid_role_piece(#[trigger] nd[k]);
                    if k < done.len() {
                        assert(nd[k] == done[k]);
                    }
                }
                done = nd;
            }
            invalid = invalid || bad;
            cur = Vec::new();
            assert(cur@ =~= Seq::<char>::empty());
        } else {
            cur.push(c);
        }
        i += 1;
    }
    assert(input@.take(cs.len() as int) =~= input@);
    let ghost before = roles;
    let (next, bad) = take_role_piece(roles, &cur);
    roles = next;
    proof {
        lemma_keyword_roles_push(done, cur@, before, roles);
        let nd = done.push(cur@);
        if bad {
            assert(invalid_role_piece(nd[done.len() as int]));
        }
        if invalid {
            let k = choose|k: int| 0 <= k < done.len() && invalid_role_piece(#[trigger] done[k]);
            assert(nd[k] == done[k]);
        }
        if exists|k: int| 0 <= k < nd.len() && invalid_role_piece(#[trigger] nd[k]) {
            let k = choose|k: int| 0 <= k < nd.len() && invalid_role_piece(#[trigger] nd[k]);
            if k < done.len() {
                assert(nd[k] == done[k]);
            }
        }
    }
    if invalid || bad {
        return Err(AdminError::InvalidRole);
    }
    if roles.is_empty() {
        return Err(AdminError::RolesRequired);
    }
    Ok(roles.names())
}

/// The role set that a list of role names stands for, once each name is
/// trimmed and lower-cased and names other than roles are dropped.
pub fn roles_of_names(roles: &[String]) -> (r: RoleSet)
    ensures
        r == keyword_roles(texts_of(roles@)),
{
    let ghost ts = texts_of(roles@);
    let mut set = RoleSet::empty();
    let mut i: usize = 0;
    assert(set == keyword_roles(ts.take(0)));
    while i < roles.len()
        invariant
            i <= roles.len(),
            ts == texts_of(roles@),
            set == keyword_roles(ts.take(i as int)),
        decreases roles.len() - i,
    {
        let piece = chars_of(roles[i].as_str());
        let ghost before = set;
        let (next, _bad) = take_role_piece(set, &piece);
        set = next;
        proof {
            lemma_keyword_roles_push(ts.take(i as int), ts[i as int], before, set);
            assert(ts.take(i + 1) =~= ts.take(i as int).push(ts[i as int]));
        }
        i += 1;
    }
    assert(ts.take(roles.len() as int) =~= ts);
    set
}

/// A role list in canonical form: each name trimmed and lower-cased, names
/// other than "user", "admin" and "staff" dropped, sorted, without repeats.
pub fn normalize_roles(roles: Vec<String>) -> (r: Vec<String>)
    ensures
        texts_of(r@) == keyword_roles(texts_of(roles@)).sorted_names(),
{
    roles_of_names(roles.as_slice()).names()
}

/// The canonical role list joined with commas, as forms submit it.
pub fn roles_to_csv(roles: &[String]) -> (r: String)
    ensures
        r@ == crate::auth::join_texts(keyword_roles(texts_of(roles@)).sorted_names(), ","@),
{
    let names = roles_of_names(roles).names();
    crate::auth::join_strings(&names, ",")
}

/// The role set of a role list after the check box of `role` was set to
/// `checked`: roles other than `role` stay as they were; `role` itself is
/// present exactly when the box is checked (or when it was present and the
/// box names it in another spelling).
pub open spec fn toggled_roles(roles: Seq<Seq<char>>, role: Seq<char>, checked: bool) -> RoleSet {
    let kept = keyword_roles(roles);
    RoleSet {
        user: (kept.user && user_text() != role) || (checked && keyword_text(role) == user_text()),
        admin: (kept.admin && admin_text() != role) || (checked && keyword_text(role) == admin_text()),
        staff: (kept.staff && staff_text() != role) || (checked && keyword_text(role) == staff_text()),
    }
}

/// The canonical role list after the check box of `role` was set to `checked`.
pub fn toggle_role(roles: &[String], role: &str, checked: bool) -> (r: Vec<String>)
    ensures
        texts_of(r@) == toggled_roles(texts_of(roles@), role@, checked).sorted_names(),
{
    let kept = roles_of_names(roles);
    proof {
        reveal_strlit("admin");
        reveal_strlit("staff");
        reveal_strlit("user");
        assert("admin"@ =~= admin_text());
        assert("staff"@ =~= staff_text());
        assert("user"@ =~= user_text());
    }
    let mut next = RoleSet::empty();
    if kept.user && !same_text("user", role) {
        next.insert(Role::User);
    }
    if kept.admin && !same_text("admin", role) {
        next.insert(Role::Admin);
    }
    if kept.staff && !same_text("staff", role) {
        next.insert(Role::Staff);
    }
    if checked {
        let k = keyword(role);
        if k == String::from_str("user") {
            next.insert(Role::User);
        } else if k == String::from_str("admin") {
            next.insert(Role::Admin);
        } else if k == String::from_str("staff") {
            next.insert(Role::Staff);
        }
    }
    let ghost want = toggled_roles(texts_of(roles@), role@, checked);
    assert(next.has(Role::User) == want.has(Role::User));
    assert(next.has(Role::Admin) == want.has(Role::Admin));
    assert(next.has(Role::Staff) == want.has(Role::Staff));
    assert(next == want);
    next.names()
}

/// Setting the check box of a role in canonical spelling adds the role,
/// clearing it removes the role, and the other roles keep their state.
pub proof fn toggle_role_sets_exactly_that_role(roles: Seq<Seq<char>>, role: Role, checked: bool)
    ensures
        toggled_roles(roles, role.name_text(), checked).has(role) == checked,
        forall|other: Role|
            other != role ==> #[trigger] toggled_roles(roles, role.name_text(), checked).has(other)
                == keyword_roles(roles).has(other),
{
    lemma_keyword_of_lower_word(admin_text());
    lemma_keyword_of_lower_word(staff_text());
    lemma_keyword_of_lower_word(user_text());
    assert(admin_text() != staff_text());
    assert(admin_text() != user_text());
    assert(staff_text() != user_text());
}

/// The canonical role list is its own canonical form: normalising twice is
/// normalising once.
pub proof fn canonical_roles_are_stable(set: RoleSet)
    ensures
        keyword_roles(set.sorted_names()) == set,
{
    lemma_keyword_of_lower_word(admin_text());
    lemma_keyword_of_lower_word(staff_text());
    lemma_keyword_of_lower_word(user_text());
    let ns = set.sorted_names();
    let k = keyword_roles(ns);
    assert(admin_text() != staff_text());
    assert(admin_text() != user_text());
    assert(staff_text() != user_text());
    if set.admin {
        assert(keyword_text(ns[0]) == admin_text());
    }
    if set.staff {
        let i = if set.admin { 1int } else { 0int };
        assert(keyword_text(ns[i]) == staff_text());
    }
    if set.user {
        let i = ns.len() - 1;
        assert(keyword_text(ns[i]) == user_text());
    }
    if k.admin {
        let i = choose|i: int| 0 <= i < ns.len() && keyword_text(#[trigger] ns[i]) == admin_text();
        assert(ns[i] == admin_text() || ns[i] == staff_text() || ns[i] == user_text());
    }
    if k.staff {
        let i = choose|i: int| 0 <= i < ns.len() && keyword_text(#[trigger] ns[i]) == staff_text();
        assert(ns[i] == admin_text() || ns[i] == staff_text() || ns[i] == user_text());
    }
    if k.user {
        let i = choose|i: int| 0 <= i < ns.len() && keyword_text(#[trigger] ns[i]) == user_text();
        assert(ns[i] == admin_text() || ns[i] == staff_text() || ns[i] == user_text());
    }
}


proof fn lemma_comma_pieces_extend(s: Seq<char>, b: Seq<char>)
    requires
        !b.contains(','),
    ensures
        comma_pieces(s + b) == comma_pieces(s).update(
            comma_pieces(s).len() - 1,
            comma_pieces(s).last() + b,
        ),
    decreases b.len(),
{
    lemma_comma_pieces_nonempty(s);
    if b.len() == 0 {
        assert(s + b =~= s);
        assert(comma_pieces(s).last() + b =~= comma_pieces(s).last());
        assert(comma_pieces(s).update(comma_pieces(s).len() - 1, comma_pieces(s).last())
            =~= comma_pieces(s));
    } else {
        let b1 = b.drop_last();
        let c = b.last();
        assert(!b1.contains(',')) by {
            if b1.contains(',') {
                let i = choose|i: int| 0 <= i < b1.len() && b1[i] == ',';
                assert(b[i] == ',');
            }
        }
        assert(c != ',') by {
            assert(b[b.len() - 1] == c);
        }
        lemma_comma_pieces_extend(s, b1);
        assert((s + b).drop_last() =~= s + b1);
        assert((s + b).last() == c);
        lemma_comma_pieces_nonempty(s + b1);
        let ps = comma_pieces(s);
        let rest = comma_pieces(s + b1);
        assert(rest.last() == ps.last() + b1);
        assert(rest.last().push(c) =~= ps.last() + b);
        assert(rest.update(rest.len() - 1, rest.last().push(c)) =~= ps.update(
            ps.len() - 1,
            ps.last() + b,
        ));
    }
}

proof fn lemma_comma_pieces_join(ts: Seq<Seq<char>>)
    requires
        ts.len() > 0,
        forall|i: int| 0 <= i < ts.len() ==> !(#[trigger] ts[i]).contains(','),
    ensures
        comma_pieces(crate::auth::join_texts(ts, ","@)) == ts,
    decreases ts.len(),
{
    reveal_strlit(",");
    if ts.len() == 1 {
        lemma_comma_pieces_extend(Seq::empty(), ts[0]);
        assert(Seq::<char>::empty() + ts[0] =~= ts[0]);
        assert(comma_pieces(Seq::<char>::empty()) == seq![Seq::<char>::empty()]);
        assert(Seq::<char>::empty() + ts[0] =~= ts[0]);
        assert(seq![Seq::<char>::empty()].update(0, Seq::<char>::empty() + ts[0]) =~= ts);
    } else {
        let init = ts.drop_last();
        assert forall|i: int| 0 <= i < init.len() implies !(#[trigger] init[i]).contains(',') by {
            assert(init[i] == ts[i]);
        }
        lemma_comma_pieces_join(init);
        let j = crate::auth::join_texts(init, ","@);
        let jc = j + ","@;
        assert(jc =~= j.push(','));
        assert(jc.drop_last() =~= j);
        assert(comma_pieces(jc) == init.push(Seq::empty()));
        assert(!ts.last().contains(',')) by {
            assert(ts[ts.len() - 1] == ts.last());
        }
        lemma_comma_pieces_extend(jc, ts.last());
        assert(Seq::<char>::empty() + ts.last() =~= ts.last());
        assert(init.push(Seq::empty()).update(init.len() as int, Seq::<char>::empty() + ts.last())
            =~= ts);
    }
}

/// The canonical role list, written as a comma-separated list the way the
/// user table submits it, parses back to the same roles.
pub proof fn roles_csv_round_trip(set: RoleSet)
    requires
        !set.is_empty_set(),
    ensures
        roles_csv_meaning(crate::auth::join_texts(set.sorted_names(), ","@)) == Ok::<
            Seq<Seq<char>>,
            AdminError,
        >(set.sorted_names()),
{
    let ns = set.sorted_names();
    lemma_keyword_of_lower_word(admin_text());
    lemma_keyword_of_lower_word(staff_text());
    lemma_keyword_of_lower_word(user_text());
    assert forall|i: int| 0 <= i < ns.len() implies !(#[trigger] ns[i]).contains(',') && (ns[i]
        == admin_text() || ns[i] == staff_text() || ns[i] == user_text()) by {
        if ns[i].contains(',') {
            let k = choose|k: int| 0 <= k < ns[i].len() && ns[i][k] == ',';
        }
    }
    lemma_comma_pieces_join(ns);
    canonical_roles_are_stable(set);
    assert forall|i: int| 0 <= i < ns.len() implies !invalid_role_piece(#[trigger] ns[i]) by {}
}

/// An email address that forms accept: not empty and holding an `@`.
pub open spec fn email_acceptable(email: Seq<char>) -> bool {
    email.len() > 0 && email.contains('@')
}

/// The identity fields of an account form, trimmed; the email also
/// lower-cased.
pub struct UserFields {
    pub username: String,
    pub first_name: String,
    pub last_name: String,
    pub email: String,
}

/// What the identity fields of a form normalise to.
pub open spec fn fields_match(f: UserFields, username: Seq<char>, first_name: Seq<char>, last_name: Seq<char>, email: Seq<char>) -> bool {
    &&& f.username@ == trim_text(username)
    &&& f.first_name@ == trim_text(first_name)
    &&& f.last_name@ == trim_text(last_name)
    &&& f.email@ == keyword_text(email)
}

/// Why the identity fields of a form are refused, if they are: an empty
/// username, then an unacceptable email.
pub open spec fn fields_error(username: Seq<char>, email: Seq<char>) -> Option<AdminError> {
    if trim_text(username).len() == 0 {
        Some(AdminError::UsernameRequired)
    } else if !email_acceptable(keyword_text(email)) {
        Some(AdminError::InvalidEmail)
    } else {
        None
    }
}

/// Normalises and checks the identity fields of an account form.
pub fn normalize_user_fields(username: &str, first_name: &str, last_name: &str, email: &str) -> (r: Result<UserFields, AdminError>)
    ensures
        match r {
            Ok(f) => fields_error(username@, email@) is None && fields_match(f, username@, first_name@, last_name@, email@),
            Err(e) => fields_error(username@, email@) == Some(e),
        },
{
    let username = trim(username);
    let first_name = trim(first_name);
    let last_name = trim(last_name);
    let email = keyword(email);
    if username.as_str().is_empty() {
        return Err(AdminError::UsernameRequired);
    }
    if email.as_str().is_empty() || !has_char(email.as_str(), '@') {
        return Err(AdminError::InvalidEmail);
    }
    Ok(UserFields { username, first_name, last_name, email })
}

/// The least number of bytes of a password that forms accept.
pub const MIN_PASSWORD_BYTES: usize = 10;

/// A checked request to create an account.
pub struct NewUserInput {
    pub fields: UserFields,
    pub password: String,
    pub status: &'static str,
    pub roles: Vec<String>,
}

/// Why a request to create an account is refused, if it is, checking in
/// order: the identity fields, the password length (in bytes, untrimmed), the
/// status, the role list.
pub open spec fn new_user_error(
    username: Seq<char>,
    email: Seq<char>,
    password: Seq<char>,
    status: Seq<char>,
    roles_csv: Seq<char>,
) -> Option<AdminError> {
    if fields_error(username, email) is Some {
        fields_error(username, email)
    } else if byte_len(password) < MIN_PASSWORD_BYTES {
        Some(AdminError::PasswordTooShort)
    } else if status_for(status) is None {
        Some(AdminError::InvalidStatus)
    } else if roles_csv_meaning(roles_csv) is Err {
        Some(roles_csv_meaning(roles_csv)->Err_0)
    } else {
        None
    }
}

/// Checks a request to create an account, before the store is consulted.
pub fn validate_new_user(
    username: &str,
    first_name: &str,
    last_name: &str,
    email: &str,
    password: &str,
    status: &str,
    roles_csv: &str,
) -> (r: Result<NewUserInput, AdminError>)
    ensures
        match r {
            Ok(input) => {
                &&& new_user_error(username@, email@, password@, status@, roles_csv@) is None
                &&& fields_match(input.fields, username@, first_name@, last_name@, email@)
                &&& input.password@ == password@
                &&& status_for(status@) == Some(input.status@)
                &&& roles_csv_meaning(roles_csv@) == Ok::<Seq<Seq<char>>, AdminError>(texts_of(input.roles@))
            },
            Err(e) => new_user_error(username@, email@, password@, status@, roles_csv@) == Some(e),
        },
{
    let fields = normalize_user_fields(username, first_name, last_name, email)?;
    if byte_count(password) < MIN_PASSWORD_BYTES {
        return Err(AdminError::PasswordTooShort);
    }
    let status = match normalize_status(status) {
        Some(s) => s,
        None => {
            return Err(AdminError::InvalidStatus);
        },
    };
    let roles = parse_roles_csv(roles_csv)?;
    Ok(NewUserInput { fields, password: String::from_str(password), status, roles })
}

/// The store's answer to the uniqueness checks of a new account.
pub fn check_create_conflicts(username_exists: bool, email_taken: bool) -> (r: Result<(), AdminError>)
    ensures
        r == if username_exists {
            Err(AdminError::UsernameExists)
        } else if email_taken {
            Err(AdminError::EmailTaken)
        } else {
            Ok(())
        },
{
    if username_exists {
        return Err(AdminError::UsernameExists);
    }
    if email_taken {
        return Err(AdminError::EmailTaken);
    }
    Ok(())
}

/// The columns of a new account row (the store assigns the id and the
/// timestamps).
pub struct NewAccount {
    pub username: String,
    pub first_name: String,
    pub last_name: String,
    pub email: String,
    pub password_hash: String,
    pub status: String,
    pub password_reset_required: bool,
    pub webauthn_user_handle: Option<String>,
}

/// The row of an account created from a checked request: its fields, a fresh
/// hash of its password, no passkey handle yet.
pub fn new_account(input: NewUserInput, reset_required: bool) -> (r: NewAccount)
    requires
        byte_len(input.password@) <= 0xFFFF_FFFF,
    ensures
        r.username == input.fields.username,
        r.first_name == input.fields.first_name,
        r.last_name == input.fields.last_name,
        r.email == input.fields.email,
        password_matches_hash(input.password@, r.password_hash@),
        r.status@ == input.status@,
        r.password_reset_required == reset_required,
        r.webauthn_user_handle is None,
{
    let hash = generate_hash(input.password.as_str());
    NewAccount {
        username: input.fields.username,
        first_name: input.fields.first_name,
        last_name: input.fields.last_name,
        email: input.fields.email,
        password_hash: hash,
        status: String::from_str(input.status),
        password_reset_required: reset_required,
        webauthn_user_handle: None,
    }
}

/// A checked request to edit an account.
pub struct UserUpdateInput {
    pub fields: UserFields,
    pub status: &'static str,
    pub roles: Vec<String>,
}

/// Why a request to edit an account is refused before the store is
/// consulted, if it is: the identity fields, the status, the role list.
pub open spec fn user_update_error(username: Seq<char>, email: Seq<char>, status: Seq<char>, roles_csv: Seq<char>) -> Option<AdminError> {
    if fields_error(username, email) is Some {
        fields_error(username, email)
    } else if status_for(status) is None {
        Some(AdminError::InvalidStatus)
    } else if roles_csv_meaning(roles_csv) is Err {
        Some(roles_csv_meaning(roles_csv)->Err_0)
    } else {
        None
    }
}

/// Checks a request to edit an account, before the store is consulted.
pub fn validate_user_update(
    username: &str,
    first_name: &str,
    last_name: &str,
    email: &str,
    status: &str,
    roles_csv: &str,
) -> (r: Result<UserUpdateInput, AdminError>)
    ensures
        match r {
            Ok(input) => {
                &&& user_update_error(username@, email@, status@, roles_csv@) is None
                &&& fields_match(input.fields, username@, first_name@, last_name@, email@)
                &&& status_for(status@) == Some(input.status@)
                &&& roles_csv_meaning(roles_csv@) == Ok::<Seq<Seq<char>>, AdminError>(texts_of(input.roles@))
            },
            Err(e) => user_update_error(username@, email@, status@, roles_csv@) == Some(e),
        },
{
    let fields = normalize_user_fields(username, first_name, last_name, email)?;
    let status = match normalize_status(status) {
        Some(s) => s,
        None => {
            return Err(AdminError::InvalidStatus);
        },
    };
    let roles = parse_roles_csv(roles_csv)?;
    Ok(UserUpdateInput { fields, status, roles })
}

/// The store's answers for an edit, checked in order: the account exists, its
/// new username and email are not taken by another account, and a new
/// password (trimmed; blank means none) is long enough. Gives the password to
/// apply, if any.
pub fn check_update_conflicts(
    existing: bool,
    name_taken: bool,
    email_taken: bool,
    new_password: Option<&str>,
) -> (r: Result<Option<String>, AdminError>)
    ensures
        !existing ==> r == Err::<Option<String>, AdminError>(AdminError::UserNotFound),
        existing && name_taken ==> r == Err::<Option<String>, AdminError>(AdminError::UsernameExists),
        existing && !name_taken && email_taken ==> r == Err::<Option<String>, AdminError>(AdminError::EmailTaken),
        existing && !name_taken && !email_taken ==> match new_password {
            None => r == Ok::<Option<String>, AdminError>(None),
            Some(p) => if trim_text(p@).len() == 0 {
                r == Ok::<Option<String>, AdminError>(None)
            } else if byte_len(trim_text(p@)) < MIN_PASSWORD_BYTES {
                r == Err::<Option<String>, AdminError>(AdminError::PasswordTooShort)
            } else {
                r matches Ok(Some(t)) && t@ == trim_text(p@)
            },
        },
{
    if !existing {
        return Err(AdminError::UserNotFound);
    }
    if name_taken {
        return Err(AdminError::UsernameExists);
    }
    if email_taken {
        return Err(AdminError::EmailTaken);
    }
    match new_password {
        None => Ok(None),
        Some(p) => {
            let t = trim(p);
            if t.as_str().is_empty() {
                Ok(None)
            } else if byte_count(t.as_str()) < MIN_PASSWORD_BYTES {
                Err(AdminError::PasswordTooShort)
            } else {
                Ok(Some(t))
            }
        },
    }
}

/// An account after an administrator's edit: the new identity fields, status
/// and reset flag, and a fresh hash of the new password when one is given.
pub fn apply_user_update(
    existing: UserRecord,
    input: &UserUpdateInput,
    reset_required: bool,
    password: Option<String>,
) -> (r: UserRecord)
    requires
        password matches Some(p) ==> byte_len(p@) <= 0xFFFF_FFFF,
    ensures
        r.id == existing.id,
        r.username == input.fields.username,
        r.first_name == input.fields.first_name,
        r.last_name == input.fields.last_name,
        r.email == input.fields.email,
        r.status@ == input.status@,
        r.password_reset_required == reset_required,
        r.webauthn_user_handle == existing.webauthn_user_handle,
        match password {
            None => r.password_hash == existing.password_hash,
            Some(p) => password_matches_hash(p@, r.password_hash@),
        },
{
    let hash = match &password {
        None => existing.password_hash,
        Some(p) => generate_hash(p.as_str()),
    };
    UserRecord {
        id: existing.id,
        username: input.fields.username.clone(),
        first_name: input.fields.first_name.clone(),
        last_name: input.fields.last_name.clone(),
        email: input.fields.email.clone(),
        password_hash: hash,
        status: String::from_str(input.status),
        password_reset_required: reset_required,
        webauthn_user_handle: existing.webauthn_user_handle,
    }
}

/// The account, as read from the store, with its password-reset flag set as
/// given; refused when there is no such account.
pub fn with_password_reset_required(existing: Option<UserRecord>, required: bool) -> (r: Result<
    UserRecord,
    AdminError,
>)
    ensures
        match existing {
            None => r == Err::<UserRecord, AdminError>(AdminError::UserNotFound),
            Some(u) => r == Ok::<UserRecord, AdminError>(UserRecord { password_reset_required: required, ..u }),
        },
{
    match existing {
        None => Err(AdminError::UserNotFound),
        Some(u) => Ok(UserRecord { password_reset_required: required, ..u }),
    }
}

/// Forcing a password reset: exactly setting the reset flag.
pub fn force_password_reset(existing: Option<UserRecord>) -> (r: Result<UserRecord, AdminError>)
    ensures
        match existing {
            None => r == Err::<UserRecord, AdminError>(AdminError::UserNotFound),
            Some(u) => r == Ok::<UserRecord, AdminError>(UserRecord { password_reset_required: true, ..u }),
        },
{
    with_password_reset_required(existing, true)
}

/// The account, as read from the store, enabled ("active") or disabled
/// ("disabled"); refused when there is no such account.
pub fn with_enabled(existing: Option<UserRecord>, enabled: bool) -> (r: Result<UserRecord, AdminError>)
    ensures
        match existing {
            None => r == Err::<UserRecord, AdminError>(AdminError::UserNotFound),
            Some(u) => r matches Ok(v) && v.status@ == (if enabled {
                active_text()
            } else {
                disabled_text()
            }) && v == (UserRecord { status: v.status, ..u }),
        },
{
    proof {
        reveal_strlit("active");
        reveal_strlit("disabled");
        assert("active"@ =~= active_text());
        assert("disabled"@ =~= disabled_text());
    }
    match existing {
        None => Err(AdminError::UserNotFound),
        Some(u) => {
            let status = if enabled {
                String::from_str("active")
            } else {
                String::from_str("disabled")
            };
            Ok(UserRecord { status, ..u })
        },
    }
}

/// The guard of administrative requests: a signed-in administrator.
pub fn require_admin(user: Option<&User>) -> (r: Result<(), AdminError>)
    ensures
        r == match user {
            None => Err(AdminError::NotAuthenticated),
            Some(u) => if u.roles.has(Role::Admin) {
                Ok(())
            } else {
                Err(AdminError::Forbidden)
            },
        },
{
    match user {
        None => Err(AdminError::NotAuthenticated),
        Some(u) => {
            if u.roles.contains(Role::Admin) {
                Ok(())
            } else {
                Err(AdminError::Forbidden)
            }
        },
    }
}

/// An administrator may delete any account but their own.
pub fn check_delete(admin_id: u64, id: i64) -> (r: Result<(), AdminError>)
    ensures
        r is Err <==> admin_id as i64 == id,
        r is Err ==> r == Err::<(), AdminError>(AdminError::CannotDeleteSelf),
{
    if admin_id as i64 == id {
        Err(AdminError::CannotDeleteSelf)
    } else {
        Ok(())
    }
}

/// The search text of the user search: the query trimmed and lower-cased;
/// none when it has fewer than two bytes (the search then lists nobody).
pub fn search_term(query: &str) -> (r: Option<String>)
    ensures
        match r {
            Some(q) => q@ == keyword_text(query@) && byte_len(q@) >= 2,
            None => byte_len(keyword_text(query@)) < 2,
        },
{
    let q = keyword(query);
    if byte_count(q.as_str()) < 2 {
        None
    } else {
        Some(q)
    }
}

/// A row of the administrators' user table.
pub struct AdminUserRow {
    pub id: i64,
    pub username: String,
    pub first_name: String,
    pub last_name: String,
    pub email: String,
    pub status: String,
    pub roles: Vec<String>,
    pub is_admin: bool,
    pub password_reset_required: bool,
    pub created_at: String,
    pub updated_at: String,
}

/// The table row of an account, given the names of its roles and its
/// timestamps as shown: the role names sorted, the admin mark set when one
/// of them is "admin" in any ASCII case, and a blank status shown as
/// "active".
pub fn admin_user_row(u: UserRecord, role_names: Vec<String>, created_at: String, updated_at: String) -> (r: AdminUserRow)
    ensures
        r.id == u.id,
        r.username == u.username,
        r.first_name == u.first_name,
        r.last_name == u.last_name,
        r.email == u.email,
        r.status@ == if trim_text(u.status@).len() == 0 { active_text() } else { u.status@ },
        sorted_texts(texts_of(r.roles@)),
        texts_of(r.roles@).to_multiset() == texts_of(role_names@).to_multiset(),
        r.is_admin == exists|i: int|
            0 <= i < role_names.len() && eq_ignore_ascii_case_text(#[trigger] role_names@[i]@, admin_text()),
        r.password_reset_required == u.password_reset_required,
        r.created_at == created_at,
        r.updated_at == updated_at,
{
    proof {
        reveal_strlit("admin");
        reveal_strlit("active");
        assert("admin"@ =~= admin_text());
        assert("active"@ =~= active_text());
    }
    let mut is_admin = false;
    let mut i: usize = 0;
    while i < role_names.len()
        invariant
            i <= role_names.len(),
            "admin"@ == admin_text(),
            is_admin == exists|k: int|
                0 <= k < i && eq_ignore_ascii_case_text(#[trigger] role_names@[k]@, admin_text()),
        decreases role_names.len() - i,
    {
        if eq_ignore_ascii_case(role_names[i].as_str(), "admin") {
            is_admin = true;
        }
        i += 1;
    }
    let roles = sort_texts(role_names);
    let status = if trim(u.status.as_str()).as_str().is_empty() {
        String::from_str("active")
    } else {
        u.status
    };
    AdminUserRow {
        id: u.id,
        username: u.username,
        first_name: u.first_name,
        last_name: u.last_name,
        email: u.email,
        status,
        roles,
        is_admin,
        password_reset_required: u.password_reset_required,
        created_at,
        updated_at,
    }
}

/// The browser-side check of an account form in the user table, before it is
/// sent: username and email present (trimmed), the email holding an `@`, a
/// password of at least ten bytes (for new accounts), the status exactly
/// "active" or "disabled" (the new-user form checks the selected status as it
/// is; `check_card_form` trims a card's status first), and at least one role.
pub fn check_user_form(
    username: &str,
    email: &str,
    password: Option<&str>,
    status: &str,
    roles: &[String],
) -> (r: Result<(), AdminError>)
    ensures
        r == if trim_text(username@).len() == 0 {
            Err(AdminError::UsernameRequired)
        } else if !email_acceptable(trim_text(email@)) {
            Err(AdminError::InvalidEmail)
        } else if password matches Some(p) && byte_len(p@) < MIN_PASSWORD_BYTES {
            Err(AdminError::PasswordTooShort)
        } else if status@ != active_text() && status@ != disabled_text() {
            Err(AdminError::InvalidStatus)
        } else if keyword_roles(texts_of(roles@)).is_empty_set() {
            Err(AdminError::RolesRequired)
        } else {
            Ok(())
        },
{
    proof {
        reveal_strlit("active");
        reveal_strlit("disabled");
        assert("active"@ =~= active_text());
        assert("disabled"@ =~= disabled_text());
    }
    let u = trim(username);
    if u.as_str().is_empty() {
        return Err(AdminError::UsernameRequired);
    }
    let e = trim(email);
    if e.as_str().is_empty() || !has_char(e.as_str(), '@') {
        return Err(AdminError::InvalidEmail);
    }
    match password {
        Some(p) => {
            if byte_count(p) < MIN_PASSWORD_BYTES {
                return Err(AdminError::PasswordTooShort);
            }
        },
        None => {},
    }
    if !same_text(status, "active") && !same_text(status, "disabled") {
        return Err(AdminError::InvalidStatus);
    }
    if roles_of_names(roles).is_empty() {
        return Err(AdminError::RolesRequired);
    }
    Ok(())
}

/// Some name of the list equals `name`, ignoring ASCII case.
pub open spec fn lists_role(roles: Seq<Seq<char>>, name: Seq<char>) -> bool {
    exists|i: int| 0 <= i < roles.len() && eq_ignore_ascii_case_text(#[trigger] roles[i], name)
}

/// Whether a user card's role list holds `name`, ignoring ASCII case (what
/// the role check boxes show).
pub fn row_has_role(roles: &[String], name: &str) -> (r: bool)
    ensures
        r == lists_role(texts_of(roles@), name@),
{
    let ghost ts = texts_of(roles@);
    let mut i: usize = 0;
    while i < roles.len()
        invariant
            i <= roles.len(),
            ts == texts_of(roles@),
            forall|k: int| 0 <= k < i ==> !eq_ignore_ascii_case_text(#[trigger] ts[k], name@),
        decreases roles.len() - i,
    {
        if eq_ignore_ascii_case(roles[i].as_str(), name) {
            assert(eq_ignore_ascii_case_text(ts[i as int], name@));
            return true;
        }
        i += 1;
    }
    false
}

proof fn lemma_canonical_lists_admin(set: RoleSet)
    ensures
        lists_role(set.sorted_names(), admin_text()) == set.admin,
{
    let ns = set.sorted_names();
    reveal_strlit("admin");
    if set.admin {
        assert(eq_ignore_ascii_case_text(ns[0], admin_text()));
    }
    if lists_role(ns, admin_text()) {
        let i = choose|i: int| 0 <= i < ns.len() && eq_ignore_ascii_case_text(#[trigger] ns[i], admin_text());
        if !set.admin {
            assert(ns[i] == staff_text() || ns[i] == user_text());
            if ns[i] == staff_text() {
                assert(crate::text::ascii_lower(ns[i][0]) != crate::text::ascii_lower(admin_text()[0]));
            } else {
                assert(ns[i].len() != admin_text().len());
            }
        }
    }
}

/// A user card after the check box of `role` was set to `checked`: its roles
/// toggled into canonical form, and its administrator flag recomputed from
/// them; every other field stays.
pub fn toggle_row_role(row: &mut AdminUserRow, role: &str, checked: bool)
    ensures
        texts_of(final(row).roles@) == toggled_roles(texts_of(old(row).roles@), role@, checked).sorted_names(),
        final(row).is_admin == toggled_roles(texts_of(old(row).roles@), role@, checked).admin,
        final(row).id == old(row).id,
        final(row).username == old(row).username,
        final(row).first_name == old(row).first_name,
        final(row).last_name == old(row).last_name,
        final(row).email == old(row).email,
        final(row).status == old(row).status,
        final(row).password_reset_required == old(row).password_reset_required,
        final(row).created_at == old(row).created_at,
        final(row).updated_at == old(row).updated_at,
{
    let next = toggle_role(row.roles.as_slice(), role, checked);
    proof {
        reveal_strlit("admin");
        assert("admin"@ =~= admin_text());
        lemma_canonical_lists_admin(toggled_roles(texts_of(row.roles@), role@, checked));
    }
    let is_admin = row_has_role(next.as_slice(), "admin");
    row.roles = next;
    row.is_admin = is_admin;
}

/// The status that the status selection of a user card stands for:
/// "disabled" for exactly that value, "active" for any other.
pub fn selected_status(value: &str) -> (r: &'static str)
    ensures
        r@ == if value@ == disabled_text() {
            disabled_text()
        } else {
            active_text()
        },
{
    proof {
        reveal_strlit("active");
        reveal_strlit("disabled");
        assert("active"@ =~= active_text());
        assert("disabled"@ =~= disabled_text());
    }
    if same_text(value, "disabled") {
        "disabled"
    } else {
        "active"
    }
}

/// The reset flag that the reset selection of a user card stands for: set for
/// exactly "true".
pub fn selected_reset_flag(value: &str) -> (r: bool)
    ensures
        r == (value@ == "true"@),
{
    same_text(value, "true")
}

/// The roles chosen with the three check boxes of the new-user form, in
/// canonical form.
pub fn draft_roles(user: bool, admin: bool, staff: bool) -> (r: Vec<String>)
    ensures
        texts_of(r@) == (RoleSet { user, admin, staff }).sorted_names(),
{
    RoleSet { user, admin, staff }.names()
}

/// The search the user table starts: the trimmed query when it has at least
/// two characters; none (the results are cleared) otherwise.
pub fn client_search_query(raw: &str) -> (r: Option<String>)
    ensures
        match r {
            Some(q) => q@ == trim_text(raw@) && q@.len() >= 2,
            None => trim_text(raw@).len() < 2,
        },
{
    let q = trim(raw);
    let n = chars_of(q.as_str()).len();
    if n < 2 {
        None
    } else {
        Some(q)
    }
}

/// The new password typed into a user card: sent along only when something
/// other than whitespace was typed, and then as typed.
pub fn row_new_password(draft: &str) -> (r: Option<String>)
    ensures
        match r {
            Some(p) => p@ == draft@ && trim_text(draft@).len() > 0,
            None => trim_text(draft@).len() == 0,
        },
{
    if trim(draft).as_str().is_empty() {
        None
    } else {
        Some(String::from_str(draft))
    }
}

/// The browser-side check of a user card before its changes are saved: as
/// `check_user_form` without a password, on the card's status trimmed.
pub fn check_card_form(username: &str, email: &str, status: &str, roles: &[String]) -> (r: Result<(), AdminError>)
    ensures
        r == if trim_text(username@).len() == 0 {
            Err(AdminError::UsernameRequired)
        } else if !email_acceptable(trim_text(email@)) {
            Err(AdminError::InvalidEmail)
        } else if trim_text(status@) != active_text() && trim_text(status@) != disabled_text() {
            Err(AdminError::InvalidStatus)
        } else if keyword_roles(texts_of(roles@)).is_empty_set() {
            Err(AdminError::RolesRequired)
        } else {
            Ok(())
        },
{
    let st = trim(status);
    check_user_form(username, email, None, st.as_str(), roles)
}

} // verus!
