//! Roles, permissions and the sets of them that a signed-in user carries.

use vstd::prelude::*;
use vstd::string::StringExecFns;

use crate::text::{
    eq_ignore_ascii_case, eq_ignore_ascii_case_text, same_text, lemma_text_lt_total, lemma_text_lt_transitive,
    strictly_sorted_texts, text_less, text_lt, texts_of,
};

verus! {

/// A role that an account can hold.
#[derive(Clone, Copy, Debug, PartialEq, Eq, Hash, Structural)]
pub enum Role {
    User,
    Admin,
    Staff,
}

/// The text "admin".
pub open spec fn admin_text() -> Seq<char> {
    seq!['a', 'd', 'm', 'i', 'n']
}

/// The text "staff".
pub open spec fn staff_text() -> Seq<char> {
    seq!['s', 't', 'a', 'f', 'f']
}

/// The text "user".
pub open spec fn user_text() -> Seq<char> {
    seq!['u', 's', 'e', 'r']
}

impl Role {
    /// The lower-case name under which the role is stored.
    pub open spec fn name_text(self) -> Seq<char> {
        match self {
            Role::Admin => admin_text(),
            Role::Staff => staff_text(),
            Role::User => user_text(),
        }
    }

    /// The lower-case name under which the role is stored.
    pub fn name(&self) -> (r: &'static str)
        ensures
            r@ == self.name_text(),
    {
        match self {
            Role::Admin => {
                proof {
                    reveal_strlit("admin");
                }
                "admin"
            },
            Role::Staff => {
                proof {
                    reveal_strlit("staff");
                }
                "staff"
            },
            Role::User => {
                proof {
                    reveal_strlit("user");
                }
                "user"
            },
        }
    }
}

/// A named permission such as `admin.read`.
#[derive(Clone, Debug)]
pub struct Permission(pub String);

/// The role that a stored role name stands for: "admin" and "staff" in any
/// ASCII case name those roles; every other name counts as the plain user role.
pub open spec fn role_for_name(name: Seq<char>) -> Role {
    if eq_ignore_ascii_case_text(name, admin_text()) {
        Role::Admin
    } else if eq_ignore_ascii_case_text(name, staff_text()) {
        Role::Staff
    } else {
        Role::User
    }
}

/// The role that a stored role name stands for.
pub fn role_from_name(name: &str) -> (r: Role)
    ensures
        r == role_for_name(name@),
{
    proof {
        reveal_strlit("admin");
        reveal_strlit("staff");
    }
    if eq_ignore_ascii_case(name, "admin") {
        Role::Admin
    } else if eq_ignore_ascii_case(name, "staff") {
        Role::Staff
    } else {
        Role::User
    }
}

/// A set of roles.
#[derive(Clone, Copy, Debug, PartialEq, Eq, Structural)]
pub struct RoleSet {
    pub user: bool,
    pub admin: bool,
    pub staff: bool,
}

impl RoleSet {
    /// Whether the set holds a role.
    pub open spec fn has(self, role: Role) -> bool {
        match role {
            Role::User => self.user,
            Role::Admin => self.admin,
            Role::Staff => self.staff,
        }
    }

    /// The set holds no role.
    pub open spec fn is_empty_set(self) -> bool {
        !self.user && !self.admin && !self.staff
    }

    /// The names of the roles in the set, in sorted order.
    pub open spec fn sorted_names(self) -> Seq<Seq<char>> {
        (if self.admin { seq![admin_text()] } else { Seq::empty() }) + (if self.staff {
            seq![staff_text()]
        } else {
            Seq::empty()
        }) + (if self.user { seq![user_text()] } else { Seq::empty() })
    }

    /// The empty set.
    pub fn empty() -> (r: RoleSet)
        ensures
            r.is_empty_set(),
    {
        RoleSet { user: false, admin: false, staff: false }
    }

    /// The set holding just one role.
    pub fn single(role: Role) -> (r: RoleSet)
        ensures
            forall|x: Role| r.has(x) == (x == role),
    {
        let mut r = RoleSet::empty();
        r.insert(role);
        r
    }

    /// Whether the set holds a role.
    pub fn contains(&self, role: Role) -> (r: bool)
        ensures
            r == self.has(role),
    {
        match role {
            Role::User => self.user,
            Role::Admin => self.admin,
            Role::Staff => self.staff,
        }
    }

    /// Adds a role to the set.
    pub fn insert(&mut self, role: Role)
        ensures
            forall|x: Role| final(self).has(x) == (old(self).has(x) || x == role),
    {
        match role {
            Role::User => self.user = true,
            Role::Admin => self.admin = true,
            Role::Staff => self.staff = true,
        }
    }

    /// Whether the set holds no role.
    pub fn is_empty(&self) -> (r: bool)
        ensures
            r == self.is_empty_set(),
    {
        !self.user && !self.admin && !self.staff
    }

    /// The names of the roles in the set, sorted.
    pub fn names(&self) -> (r: Vec<String>)
        ensures
            texts_of(r@) == self.sorted_names(),
    {
        let mut r: Vec<String> = Vec::new();
        if self.admin {
            r.push(String::from_str(Role::Admin.name()));
        }
        if self.staff {
            r.push(String::from_str(Role::Staff.name()));
        }
        if self.user {
            r.push(String::from_str(Role::User.name()));
        }
        assert(texts_of(r@) =~= self.sorted_names());
        r
    }
}

/// The role set of an account whose stored role names are `names`: each name
/// maps to its role, and an account without any role counts as a plain user.
pub open spec fn roles_for_names(names: Seq<Seq<char>>) -> RoleSet {
    RoleSet {
        user: names.len() == 0 || exists|i: int|
            0 <= i < names.len() && role_for_name(#[trigger] names[i]) == Role::User,
        admin: exists|i: int| 0 <= i < names.len() && role_for_name(#[trigger] names[i]) == Role::Admin,
        staff: exists|i: int| 0 <= i < names.len() && role_for_name(#[trigger] names[i]) == Role::Staff,
    }
}

/// The role set of an account whose stored role names are `names`.
pub fn roles_from_names(names: &Vec<String>) -> (r: RoleSet)
    ensures
        r == roles_for_names(texts_of(names@)),
{
    let ghost ns = texts_of(names@);
    let mut set = RoleSet::empty();
    let mut i: usize = 0;
    while i < names.len()
        invariant
            i <= names.len(),
            ns == texts_of(names@),
            forall|x: Role|
                set.has(x) == (exists|k: int| 0 <= k < i && role_for_name(#[trigger] ns[k]) == x),
        decreases names.len() - i,
    {
        let role = role_from_name(names[i].as_str());
        set.insert(role);
        proof {
            assert forall|x: Role|
                set.has(x) == (exists|k: int| 0 <= k < i + 1 && role_for_name(#[trigger] ns[k]) == x) by {
                if set.has(x) && x == role {
                    assert(role_for_name(ns[i as int]) == x);
                }
            }
        }
        i += 1;
    }
    proof {
        assert(set.has(Role::Admin) == roles_for_names(ns).admin);
        assert(set.has(Role::Staff) == roles_for_names(ns).staff);
        assert(set.has(Role::User) == (exists|k: int|
            0 <= k < names.len() && role_for_name(#[trigger] ns[k]) == Role::User));
        if names.len() > 0 {
            let x = role_for_name(ns[0]);
            assert(set.has(x));
        }
    }
    if set.is_empty() {
        set.insert(Role::User);
    }
    set
}

/// A set of permissions, held as the permission names in increasing order.
pub struct PermissionSet {
    names: Vec<String>,
}

impl PermissionSet {
    #[verifier::type_invariant]
    spec fn sorted_without_repeats(self) -> bool {
        strictly_sorted_texts(texts_of(self.names@))
    }

    /// The permission names, in increasing order.
    pub closed spec fn sorted_names(self) -> Seq<Seq<char>> {
        texts_of(self.names@)
    }

    /// Whether the set holds the permission with this name.
    pub open spec fn has(self, name: Seq<char>) -> bool {
        self.sorted_names().contains(name)
    }

    /// The empty set.
    pub fn new() -> (r: PermissionSet)
        ensures
            r.sorted_names() == Seq::<Seq<char>>::empty(),
    {
        let r = PermissionSet { names: Vec::new() };
        assert(texts_of(r.names@) =~= Seq::<Seq<char>>::empty());
        r
    }

    /// Whether the set holds the permission with this name.
    pub fn contains(&self, name: &str) -> (r: bool)
        ensures
            r == self.has(name@),
    {
        let mut i: usize = 0;
        while i < self.names.len()
            invariant
                i <= self.names.len(),
                forall|k: int| 0 <= k < i ==> (#[trigger] self.names@[k])@ != name@,
            decreases self.names.len() - i,
        {
            if same_text(self.names[i].as_str(), name) {
                assert(self.sorted_names()[i as int] == name@);
                return true;
            }
            i += 1;
        }
        assert(!self.sorted_names().contains(name@)) by {
            if self.sorted_names().contains(name@) {
                let k = choose|k: int| 0 <= k < self.sorted_names().len() && self.sorted_names()[k] == name@;
                assert(self.names@[k]@ == name@);
            }
        }
        false
    }

    /// Adds a permission name; the set is unchanged when the name is present.
    pub fn insert(&mut self, name: String)
        ensures
            final(self).sorted_names().to_set() == old(self).sorted_names().to_set().insert(name@),
    {
        proof {
            use_type_invariant(&*self);
        }
        let ghost before = texts_of(self.names@);
        let mut p: usize = 0;
        while p < self.names.len() && text_less(self.names[p].as_str(), name.as_str())
            invariant
                p <= self.names.len(),
                before == texts_of(self.names@),
                strictly_sorted_texts(before),
                forall|i: int| 0 <= i < p ==> text_lt(#[trigger] before[i], name@),
            decreases self.names.len() - p,
        {
            p += 1;
        }
        if p < self.names.len() && same_text(self.names[p].as_str(), name.as_str()) {
            assert(before.to_set() =~= before.to_set().insert(name@)) by {
                assert(before[p as int] == name@);
            }
            return;
        }
        proof {
            if p < self.names.len() {
                lemma_text_lt_total(before[p as int], name@);
                assert(!text_lt(before[p as int], name@));
                assert(text_lt(name@, before[p as int]));
            }
        }
        let ghost nv = name@;
        let mut names = Vec::new();
        std::mem::swap(&mut names, &mut self.names);
        names.insert(p, name);
        proof {
            let after = texts_of(names@);
            assert(after =~= before.insert(p as int, nv));
            assert forall|i: int, j: int| 0 <= i < j < after.len() implies text_lt(
                #[trigger] after[i],
                #[trigger] after[j],
            ) by {
                if j < p {
                    assert(after[i] == before[i] && after[j] == before[j]);
                } else if j == p {
                    assert(after[i] == before[i]);
                } else if i < p {
                    assert(after[i] == before[i] && after[j] == before[j - 1]);
                    if j - 1 > p {
                        lemma_text_lt_transitive(nv, before[p as int], before[j - 1]);
                    }
                    lemma_text_lt_transitive(before[i], nv, before[j - 1]);
                } else if i == p {
                    assert(after[j] == before[j - 1]);
                    if j - 1 > p {
                        lemma_text_lt_transitive(nv, before[p as int], before[j - 1]);
                    }
                } else {
                    assert(after[i] == before[i - 1] && after[j] == before[j - 1]);
                }
            }
            assert(after.to_set() =~= before.to_set().insert(nv)) by {
                assert forall|t: Seq<char>| after.to_set().contains(t) == before.to_set().insert(nv).contains(t) by {
                    if after.contains(t) {
                        let k = choose|k: int| 0 <= k < after.len() && after[k] == t;
                        if k < p {
                            assert(before[k] == t);
                        } else if k > p {
                            assert(before[k - 1] == t);
                        }
                    }
                    if before.contains(t) {
                        let k = choose|k: int| 0 <= k < before.len() && before[k] == t;
                        if k < p {
                            assert(after[k] == t);
                        } else {
                            assert(after[k + 1] == t);
                        }
                    }
                    if t == nv {
                        assert(after[p as int] == t);
                    }
                }
            }
        }
        self.names = names;
    }

    /// The set of the given permission names (repetitions collapse).
    pub fn from_names(names: Vec<String>) -> (r: PermissionSet)
        ensures
            r.sorted_names().to_set() == texts_of(names@).to_set(),
            strictly_sorted_texts(r.sorted_names()),
    {
        let mut r = PermissionSet::new();
        let mut i: usize = 0;
        assert(texts_of(names@).take(0).to_set() =~= Set::<Seq<char>>::empty());
        assert(r.sorted_names().to_set() =~= Set::<Seq<char>>::empty());
        while i < names.len()
            invariant
                i <= names.len(),
                r.sorted_names().to_set() == texts_of(names@).take(i as int).to_set(),
            decreases names.len() - i,
        {
            r.insert(names[i].clone());
            proof {
                assert(texts_of(names@).take(i + 1) =~= texts_of(names@).take(i as int).push(
                    names@[i as int]@,
                ));
                assert(texts_of(names@).take(i + 1).to_set() =~= texts_of(names@).take(
                    i as int,
                ).to_set().insert(names@[i as int]@)) by {
                    texts_of(names@).take(i as int).lemma_push_to_set_commute(names@[i as int]@);
                }
            }
            i += 1;
        }
        assert(texts_of(names@).take(names.len() as int) =~= texts_of(names@));
        proof {
            use_type_invariant(&r);
        }
        r
    }

    /// The permission names, in increasing order.
    pub fn names(&self) -> (r: Vec<String>)
        ensures
            texts_of(r@) == self.sorted_names(),
            strictly_sorted_texts(self.sorted_names()),
    {
        proof {
            use_type_invariant(self);
        }
        self.names.clone()
    }

    /// Whether the set is empty.
    pub fn is_empty(&self) -> (r: bool)
        ensures
            r == (self.sorted_names().len() == 0),
    {
        self.names.len() == 0
    }
}

impl Clone for PermissionSet {
    fn clone(&self) -> (r: Self)
        ensures
            r.sorted_names() == self.sorted_names(),
    {
        proof {
            use_type_invariant(self);
        }
        PermissionSet { names: self.names.clone() }
    }
}

} // verus!
