//! The user cards of the administration page: search results kept in order
//! of id, a card taken out while its deletion is under way and put back when
//! the deletion fails, and the actions under way on each card.

use vstd::prelude::*;
use vstd::string::StringExecFns;

use crate::admin::AdminUserRow;

verus! {

/// The ids of the rows, in order.
pub open spec fn row_ids(s: Seq<AdminUserRow>) -> Seq<i64> {
    s.map_values(|r: AdminUserRow| r.id)
}

/// The rows are in non-decreasing order of id.
pub open spec fn ids_ascending(s: Seq<AdminUserRow>) -> bool {
    forall|i: int, j: int| 0 <= i < j < s.len() ==> (#[trigger] s[i]).id <= (#[trigger] s[j]).id
}

/// The rows are in increasing order of id, so no id occurs twice.
pub open spec fn ids_strictly_ascending(s: Seq<AdminUserRow>) -> bool {
    forall|i: int, j: int| 0 <= i < j < s.len() ==> (#[trigger] s[i]).id < (#[trigger] s[j]).id
}

/// `x` put after every row whose id is at most its own, counting from the end
/// (where a row of the same id already is, `x` goes after it).
pub open spec fn insert_by_id(s: Seq<AdminUserRow>, x: AdminUserRow) -> Seq<AdminUserRow>
    decreases s.len(),
{
    if s.len() == 0 {
        seq![x]
    } else if s.last().id <= x.id {
        s.push(x)
    } else {
        insert_by_id(s.drop_last(), x).push(s.last())
    }
}

/// The rows ordered by id, rows of equal id in their given order (what a
/// stable sort by id gives).
pub open spec fn sort_by_id(s: Seq<AdminUserRow>) -> Seq<AdminUserRow>
    decreases s.len(),
{
    if s.len() == 0 {
        s
    } else {
        insert_by_id(sort_by_id(s.drop_last()), s.last())
    }
}

/// The rows without those of id `id`, the others in their order.
pub open spec fn without_id(s: Seq<AdminUserRow>, id: i64) -> Seq<AdminUserRow>
    decreases s.len(),
{
    if s.len() == 0 {
        s
    } else if s[0].id == id {
        without_id(s.drop_first(), id)
    } else {
        seq![s[0]] + without_id(s.drop_first(), id)
    }
}

/// The position of the first row of id `id`, if there is one.
pub open spec fn first_with_id(s: Seq<AdminUserRow>, id: i64) -> Option<int>
    decreases s.len(),
{
    if s.len() == 0 {
        None
    } else if s[0].id == id {
        Some(0)
    } else {
        match first_with_id(s.drop_first(), id) {
            Some(k) => Some(k + 1),
            None => None,
        }
    }
}

proof fn lemma_first_with_id(s: Seq<AdminUserRow>, id: i64)
    ensures
        match first_with_id(s, id) {
            Some(k) => 0 <= k < s.len() && s[k].id == id && forall|j: int| 0 <= j < k ==> (#[trigger] s[j]).id != id,
            None => forall|j: int| 0 <= j < s.len() ==> (#[trigger] s[j]).id != id,
        },
    decreases s.len(),
{
    if s.len() > 0 {
        lemma_first_with_id(s.drop_first(), id);
        assert forall|j: int| 1 <= j < s.len() implies #[trigger] s[j] == s.drop_first()[j - 1] by {}
    }
}

proof fn lemma_insert_by_id_at(s: Seq<AdminUserRow>, x: AdminUserRow, p: int)
    requires
        0 <= p <= s.len(),
        forall|k: int| p <= k < s.len() ==> (#[trigger] s[k]).id > x.id,
        p == 0 || s[p - 1].id <= x.id,
    ensures
        insert_by_id(s, x) == s.insert(p, x),
    decreases s.len(),
{
    if s.len() == 0 {
        assert(s.insert(p, x) =~= seq![x]);
    } else if p == s.len() {
        assert(s.insert(p, x) =~= s.push(x));
    } else {
        let t = s.drop_last();
        assert forall|k: int| p <= k < t.len() implies (#[trigger] t[k]).id > x.id by {
            assert(t[k] == s[k]);
        }
        lemma_insert_by_id_at(t, x, p);
        assert(s.insert(p, x) =~= t.insert(p, x).push(s.last()));
    }
}

proof fn lemma_insert_by_id_props(s: Seq<AdminUserRow>, x: AdminUserRow)
    requires
        ids_ascending(s),
    ensures
        ids_ascending(insert_by_id(s, x)),
        insert_by_id(s, x).to_multiset() =~= s.to_multiset().insert(x),
        insert_by_id(s, x).len() == s.len() + 1,
        forall|i: int|
            0 <= i < insert_by_id(s, x).len() ==> #[trigger] insert_by_id(s, x)[i] == x || s.contains(
                insert_by_id(s, x)[i],
            ),
    decreases s.len(),
{
    broadcast use vstd::seq_lib::group_to_multiset_ensures;

    let r = insert_by_id(s, x);
    if s.len() == 0 {
        assert(r =~= seq![x]);
        assert(seq![x] =~= Seq::<AdminUserRow>::empty().push(x));
    } else if s.last().id <= x.id {
        assert forall|i: int| 0 <= i < r.len() implies #[trigger] r[i] == x || s.contains(r[i]) by {
            if i < s.len() {
                assert(r[i] == s[i]);
            }
        }
    } else {
        let t = s.drop_last();
        assert(ids_ascending(t));
        lemma_insert_by_id_props(t, x);
        let rt = insert_by_id(t, x);
        assert(s =~= t.push(s.last()));
        assert forall|i: int| 0 <= i < rt.len() implies (#[trigger] rt[i]).id <= s.last().id by {
            if rt[i] != x {
                assert(t.contains(rt[i]));
                let k = choose|k: int| 0 <= k < t.len() && t[k] == rt[i];
                assert(s[k] == t[k]);
            }
        }
        assert forall|i: int, j: int| 0 <= i < j < r.len() implies (#[trigger] r[i]).id <= (#[trigger] r[j]).id by {
            if j < rt.len() {
                assert(r[i] == rt[i] && r[j] == rt[j]);
            } else {
                assert(r[i] == rt[i]);
            }
        }
        assert forall|i: int| 0 <= i < r.len() implies #[trigger] r[i] == x || s.contains(r[i]) by {
            if i < rt.len() {
                assert(r[i] == rt[i]);
                if rt[i] != x {
                    let k = choose|k: int| 0 <= k < t.len() && t[k] == rt[i];
                    assert(s[k] == t[k]);
                }
            } else {
                assert(r[i] == s[s.len() - 1]);
            }
        }
    }
}

proof fn lemma_without_id_props(s: Seq<AdminUserRow>, id: i64)
    ensures
        forall|i: int|
            0 <= i < without_id(s, id).len() ==> s.contains(#[trigger] without_id(s, id)[i]) && without_id(
                s,
                id,
            )[i].id != id,
        ids_ascending(s) ==> ids_ascending(without_id(s, id)),
    decreases s.len(),
{
    if s.len() > 0 {
        let t = s.drop_first();
        lemma_without_id_props(t, id);
        let w = without_id(t, id);
        assert forall|i: int| 0 <= i < w.len() implies s.contains(#[trigger] w[i]) by {
            let k = choose|k: int| 0 <= k < t.len() && t[k] == w[i];
            assert(s[k + 1] == t[k]);
        }
        if ids_ascending(s) {
            assert(ids_ascending(t)) by {
                assert forall|i: int, j: int| 0 <= i < j < t.len() implies (#[trigger] t[i]).id <= (#[trigger] t[j]).id by {
                    assert(t[i] == s[i + 1] && t[j] == s[j + 1]);
                }
            }
        }
        if s[0].id != id {
            let r = without_id(s, id);
            assert(r =~= seq![s[0]] + w);
            assert forall|i: int| 0 <= i < r.len() implies s.contains(#[trigger] r[i]) && r[i].id != id by {
                if i == 0 {
                    assert(s[0] == r[0]);
                } else {
                    assert(r[i] == w[i - 1]);
                }
            }
            if ids_ascending(s) {
                assert forall|i: int, j: int| 0 <= i < j < r.len() implies (#[trigger] r[i]).id <= (#[trigger] r[j]).id by {
                    if i == 0 {
                        assert(r[j] == w[j - 1]);
                        let k = choose|k: int| 0 <= k < s.len() && s[k] == w[j - 1];
                        if k > 0 {
                            assert(s[0].id <= s[k].id);
                        }
                    } else {
                        assert(r[i] == w[i - 1] && r[j] == w[j - 1]);
                    }
                }
            }
        }
    }
}

proof fn lemma_without_unique_id(s: Seq<AdminUserRow>, id: i64, k: int)
    requires
        ids_strictly_ascending(s),
        0 <= k < s.len(),
        s[k].id == id,
    ensures
        without_id(s, id) == s.remove(k),
    decreases s.len(),
{
    let t = s.drop_first();
    assert(ids_strictly_ascending(t)) by {
        assert forall|i: int, j: int| 0 <= i < j < t.len() implies (#[trigger] t[i]).id < (#[trigger] t[j]).id by {
            assert(t[i] == s[i + 1] && t[j] == s[j + 1]);
        }
    }
    if k == 0 {
        assert forall|j: int| 0 <= j < t.len() implies (#[trigger] t[j]).id != id by {
            assert(t[j] == s[j + 1]);
            assert(s[0].id < s[j + 1].id);
        }
        lemma_without_absent_id(t, id);
        assert(s.remove(0) =~= t);
    } else {
        assert(s[0].id < s[k].id);
        assert(t[k - 1] == s[k]);
        lemma_without_unique_id(t, id, k - 1);
        assert(s.remove(k) =~= seq![s[0]] + t.remove(k - 1));
    }
}

proof fn lemma_without_absent_id(s: Seq<AdminUserRow>, id: i64)
    requires
        forall|j: int| 0 <= j < s.len() ==> (#[trigger] s[j]).id != id,
    ensures
        without_id(s, id) == s,
    decreases s.len(),
{
    if s.len() > 0 {
        let t = s.drop_first();
        assert forall|j: int| 0 <= j < t.len() implies (#[trigger] t[j]).id != id by {
            assert(t[j] == s[j + 1]);
        }
        lemma_without_absent_id(t, id);
        assert(s =~= seq![s[0]] + t);
    }
}

/// Sorting by id orders the rows by id and keeps every row, each as often as
/// it was given.
pub proof fn sort_by_id_orders_and_keeps_rows(s: Seq<AdminUserRow>)
    ensures
        ids_ascending(sort_by_id(s)),
        sort_by_id(s).to_multiset() =~= s.to_multiset(),
    decreases s.len(),
{
    broadcast use vstd::seq_lib::group_to_multiset_ensures;

    if s.len() > 0 {
        sort_by_id_orders_and_keeps_rows(s.drop_last());
        lemma_insert_by_id_props(sort_by_id(s.drop_last()), s.last());
        assert(s =~= s.drop_last().push(s.last()));
    }
}

fn insert_row(v: &mut Vec<AdminUserRow>, x: AdminUserRow)
    requires
        ids_ascending(old(v)@),
    ensures
        final(v)@ == insert_by_id(old(v)@, x),
{
    let mut p: usize = v.len();
    while p > 0 && v[p - 1].id > x.id
        invariant
            p <= v.len(),
            forall|k: int| p <= k < v.len() ==> (#[trigger] v@[k]).id > x.id,
        decreases p,
    {
        p -= 1;
    }
    proof {
        lemma_insert_by_id_at(v@, x, p as int);
    }
    v.insert(p, x);
}

/// The cards of a search result.
pub struct UserCards {
    rows: Vec<AdminUserRow>,
}

impl UserCards {
    /// The cards are in order of id.
    #[verifier::type_invariant]
    spec fn in_id_order(self) -> bool {
        ids_ascending(self.rows@)
    }

    /// The cards' rows, in the order shown.
    pub closed spec fn rows(self) -> Seq<AdminUserRow> {
        self.rows@
    }

    /// No cards.
    pub fn new() -> (r: UserCards)
        ensures
            r.rows() == Seq::<AdminUserRow>::empty(),
    {
        UserCards { rows: Vec::new() }
    }

    /// The cards for the rows of a search result, in order of id.
    pub fn from_results(results: Vec<AdminUserRow>) -> (r: UserCards)
        ensures
            r.rows() == sort_by_id(results@),
    {
        let ghost orig = results@;
        assert(orig.len() == results.len());
        let mut rest = results;
        let mut out: Vec<AdminUserRow> = Vec::new();
        let mut i: usize = 0;
        assert(orig.take(0) =~= Seq::<AdminUserRow>::empty());
        while rest.len() > 0
            invariant
                i <= orig.len(),
                orig.len() <= usize::MAX,
                rest@ == orig.skip(i as int),
                out@ == sort_by_id(orig.take(i as int)),
            decreases rest.len(),
        {
            proof {
                sort_by_id_orders_and_keeps_rows(orig.take(i as int));
            }
            let x = rest.remove(0);
            assert(x == orig[i as int]);
            insert_row(&mut out, x);
            proof {
                assert(orig.take(i + 1).drop_last() =~= orig.take(i as int));
                assert(orig.take(i + 1).last() == orig[i as int]);
                assert(rest@ =~= orig.skip(i + 1));
            }
            i += 1;
        }
        assert(orig.take(i as int) =~= orig);
        proof {
            sort_by_id_orders_and_keeps_rows(orig);
        }
        UserCards { rows: out }
    }

    /// The cards' rows, in the order shown.
    pub fn as_slice(&self) -> (r: &[AdminUserRow])
        ensures
            r@ == self.rows(),
            ids_ascending(self.rows()),
    {
        proof {
            use_type_invariant(self);
        }
        self.rows.as_slice()
    }

    /// Whether no card is shown.
    pub fn is_empty(&self) -> (r: bool)
        ensures
            r == (self.rows().len() == 0),
    {
        self.rows.len() == 0
    }

    /// The card of the user with id `id`: the first one, if several.
    pub fn find(&self, id: i64) -> (r: Option<&AdminUserRow>)
        ensures
            match first_with_id(self.rows(), id) {
                Some(k) => r matches Some(x) && *x == self.rows()[k],
                None => r is None,
            },
    {
        proof {
            lemma_first_with_id(self.rows@, id);
        }
        let mut i: usize = 0;
        while i < self.rows.len()
            invariant
                i <= self.rows.len(),
                self.rows@ == self.rows(),
                forall|j: int| 0 <= j < i ==> (#[trigger] self.rows@[j]).id != id,
                match first_with_id(self.rows(), id) {
                    Some(k) => 0 <= k < self.rows().len() && self.rows()[k].id == id && forall|j: int|
                        0 <= j < k ==> (#[trigger] self.rows()[j]).id != id,
                    None => forall|j: int| 0 <= j < self.rows().len() ==> (#[trigger] self.rows()[j]).id != id,
                },
            decreases self.rows.len() - i,
        {
            if self.rows[i].id == id {
                return Some(&self.rows[i]);
            }
            i += 1;
        }
        None
    }

    /// Takes out the cards of the user with id `id` (while the deletion is
    /// under way), and gives back the first of them, if there was one.
    pub fn remove(&mut self, id: i64) -> (r: Option<AdminUserRow>)
        ensures
            final(self).rows() == without_id(old(self).rows(), id),
            match first_with_id(old(self).rows(), id) {
                Some(k) => r == Some(old(self).rows()[k]),
                None => r is None,
            },
    {
        proof {
            use_type_invariant(&*self);
            lemma_first_with_id(self.rows@, id);
            lemma_without_id_props(self.rows@, id);
        }
        let ghost orig = self.rows@;
        let mut rest: Vec<AdminUserRow> = Vec::new();
        std::mem::swap(&mut rest, &mut self.rows);
        let mut kept: Vec<AdminUserRow> = Vec::new();
        let mut first: Option<AdminUserRow> = None;
        let ghost mut i: int = 0;
        assert(orig.skip(0) =~= orig);
        while rest.len() > 0
            invariant
                0 <= i <= orig.len(),
                rest@ == orig.skip(i),
                without_id(orig, id) == kept@ + without_id(rest@, id),
                first is None ==> forall|j: int| 0 <= j < i ==> (#[trigger] orig[j]).id != id,
                first matches Some(f) ==> (first_with_id(orig, id) matches Some(k) && k < i && f == orig[k]),
                match first_with_id(orig, id) {
                    Some(k) => 0 <= k < orig.len() && orig[k].id == id && forall|j: int|
                        0 <= j < k ==> (#[trigger] orig[j]).id != id,
                    None => forall|j: int| 0 <= j < orig.len() ==> (#[trigger] orig[j]).id != id,
                },
            decreases rest.len(),
        {
            let ghost before = rest@;
            let x = rest.remove(0);
            proof {
                assert(x == orig[i]);
                assert(rest@ =~= orig.skip(i + 1));
                assert(before.drop_first() =~= rest@);
            }
            if x.id == id {
                if first.is_none() {
                    first = Some(x);
                }
            } else {
                kept.push(x);
                proof {
                    assert(without_id(before, id) == seq![x] + without_id(rest@, id));
                }
            }
            proof {
                i = i + 1;
            }
        }
        proof {
            assert(without_id(rest@, id) =~= Seq::<AdminUserRow>::empty());
            assert(kept@ =~= without_id(orig, id));
        }
        self.rows = kept;
        first
    }

    /// Puts a card back after its deletion failed: it goes after every card
    /// whose id is at most its own, so the cards stay in order of id.
    pub fn restore(&mut self, row: AdminUserRow)
        ensures
            final(self).rows() == insert_by_id(old(self).rows(), row),
    {
        proof {
            use_type_invariant(&*self);
            lemma_insert_by_id_props(self.rows@, row);
        }
        let mut rows: Vec<AdminUserRow> = Vec::new();
        std::mem::swap(&mut rows, &mut self.rows);
        insert_row(&mut rows, row);
        self.rows = rows;
    }
}

/// A deletion that fails leaves the cards as they were: taking out the card
/// of a user and putting it back gives the same cards, in the same order
/// (for cards whose ids are distinct, as a search result's are).
pub proof fn failed_deletion_restores_cards(s: Seq<AdminUserRow>, id: i64)
    requires
        ids_strictly_ascending(s),
        first_with_id(s, id) is Some,
    ensures
        insert_by_id(without_id(s, id), s[first_with_id(s, id)->0]) == s,
{
    lemma_first_with_id(s, id);
    let k = first_with_id(s, id)->0;
    lemma_without_unique_id(s, id, k);
    let t = s.remove(k);
    assert forall|j: int| k <= j < t.len() implies (#[trigger] t[j]).id > s[k].id by {
        assert(t[j] == s[j + 1]);
    }
    if k > 0 {
        assert(t[k - 1] == s[k - 1]);
    }
    lemma_insert_by_id_at(t, s[k], k);
    assert(t.insert(k, s[k]) =~= s);
}

/// After a card is taken out, no card of that user is left.
pub proof fn removed_user_has_no_card(s: Seq<AdminUserRow>, id: i64)
    ensures
        forall|i: int| 0 <= i < without_id(s, id).len() ==> (#[trigger] without_id(s, id)[i]).id != id,
{
    lemma_without_id_props(s, id);
}

/// What is under way on a card.
#[derive(Clone, Copy, Debug, PartialEq, Eq, Structural)]
pub enum PendingKind {
    Save,
    Delete,
}

/// The actions under way, per card: a set of (user id, action) pairs.
pub struct PendingActions {
    entries: Vec<(i64, PendingKind)>,
}

impl PendingActions {
    /// No pair is held twice.
    #[verifier::type_invariant]
    spec fn no_repeats(self) -> bool {
        self.entries@.no_duplicates()
    }

    /// The pairs under way.
    pub closed spec fn pending(self) -> Set<(i64, PendingKind)> {
        self.entries@.to_set()
    }

    /// Nothing under way.
    pub fn new() -> (r: PendingActions)
        ensures
            r.pending() == Set::<(i64, PendingKind)>::empty(),
    {
        let r = PendingActions { entries: Vec::new() };
        assert(r.entries@.to_set() =~= Set::<(i64, PendingKind)>::empty());
        r
    }

    fn position(&self, id: i64, kind: PendingKind) -> (r: Option<usize>)
        ensures
            match r {
                Some(i) => i < self.entries.len() && self.entries@[i as int] == (id, kind),
                None => !self.entries@.contains((id, kind)),
            },
    {
        let mut i: usize = 0;
        while i < self.entries.len()
            invariant
                i <= self.entries.len(),
                forall|j: int| 0 <= j < i ==> self.entries@[j] != (id, kind),
            decreases self.entries.len() - i,
        {
            let (eid, ekind) = self.entries[i];
            if eid == id && ekind == kind {
                return Some(i);
            }
            i += 1;
        }
        None
    }

    /// Marks an action on a card as under way (`on`) or as finished.
    pub fn set_pending(&mut self, id: i64, kind: PendingKind, on: bool)
        ensures
            final(self).pending() == if on {
                old(self).pending().insert((id, kind))
            } else {
                old(self).pending().remove((id, kind))
            },
    {
        proof {
            use_type_invariant(&*self);
        }
        let ghost before = self.entries@;
        let found = self.position(id, kind);
        if on {
            if found.is_none() {
                let mut entries: Vec<(i64, PendingKind)> = Vec::new();
                std::mem::swap(&mut entries, &mut self.entries);
                entries.push((id, kind));
                proof {
                    assert(entries@ == before.push((id, kind)));
                    assert(entries@.no_duplicates()) by {
                        assert forall|a: int, b: int| 0 <= a < b < entries@.len() implies entries@[a] != entries@[b] by {
                            if b == before.len() {
                                assert(before.contains(before[a]));
                            }
                        }
                    }
                    before.lemma_push_to_set_commute((id, kind));
                }
                self.entries = entries;
            } else {
                proof {
                    assert(before.to_set() =~= before.to_set().insert((id, kind))) by {
                        assert(before.to_set().contains((id, kind)));
                    }
                }
            }
        } else {
            match found {
                Some(i) => {
                    let mut entries: Vec<(i64, PendingKind)> = Vec::new();
                    std::mem::swap(&mut entries, &mut self.entries);
                    entries.remove(i);
                    proof {
                        assert(entries@ == before.remove(i as int));
                        assert(entries@.no_duplicates()) by {
                            assert forall|a: int, b: int| 0 <= a < b < entries@.len() implies entries@[a] != entries@[b] by {
                                let a2 = if a < i { a } else { a + 1 };
                                let b2 = if b < i { b } else { b + 1 };
                                assert(entries@[a] == before[a2] && entries@[b] == before[b2]);
                            }
                        }
                        assert forall|p: (i64, PendingKind)| #[trigger] entries@.to_set().contains(p) == before.to_set().remove((id, kind)).contains(p) by {
                            if entries@.contains(p) {
                                let a = choose|a: int| 0 <= a < entries@.len() && entries@[a] == p;
                                let a2 = if a < i { a } else { a + 1 };
                                assert(before[a2] == p);
                                assert(a2 != i as int);
                            }
                            if before.contains(p) && p != (id, kind) {
                                let a = choose|a: int| 0 <= a < before.len() && before[a] == p;
                                assert(a != i as int);
                                let a2 = if a < i { a } else { a - 1 };
                                assert(entries@[a2] == p);
                            }
                        }
                        assert(entries@.to_set() =~= before.to_set().remove((id, kind)));
                    }
                    self.entries = entries;
                },
                None => {
                    proof {
                        assert(before.to_set() =~= before.to_set().remove((id, kind)));
                    }
                },
            }
        }
    }

    /// Whether anything is under way on the card of user `id` (its controls
    /// are then disabled).
    pub fn is_pending_row(&self, id: i64) -> (r: bool)
        ensures
            r == (self.pending().contains((id, PendingKind::Save)) || self.pending().contains(
                (id, PendingKind::Delete),
            )),
    {
        let save = self.position(id, PendingKind::Save).is_some();
        let delete = self.position(id, PendingKind::Delete).is_some();
        save || delete
    }
}

/// Something is under way on the card of user `id`.
pub open spec fn row_pending(p: Set<(i64, PendingKind)>, id: i64) -> bool {
    p.contains((id, PendingKind::Save)) || p.contains((id, PendingKind::Delete))
}

/// How a click on a card's delete button is handled.
pub enum DeletionStart {
    /// Something is under way on the card, or there is no such card: nothing
    /// happens.
    Ignored,
    /// There is no CSRF token: the page flashes `msg_missing_csrf` as an
    /// error.
    MissingCsrf,
    /// The card was taken out and its deletion is under way.
    Started(AdminUserRow),
}

/// Starts deleting the card of user `id`: ignored while something is under
/// way on it; refused without a CSRF token; ignored when no card has that
/// id; otherwise the user's cards are taken out and the deletion is marked
/// as under way.
pub fn start_deletion(cards: &mut UserCards, pending: &mut PendingActions, id: i64, has_csrf: bool) -> (r:
    DeletionStart)
    ensures
        row_pending(old(pending).pending(), id) ==> r is Ignored && final(cards).rows() == old(cards).rows()
            && final(pending).pending() == old(pending).pending(),
        !row_pending(old(pending).pending(), id) && !has_csrf ==> r is MissingCsrf && final(cards).rows()
            == old(cards).rows() && final(pending).pending() == old(pending).pending(),
        !row_pending(old(pending).pending(), id) && has_csrf ==> match first_with_id(old(cards).rows(), id) {
            None => r is Ignored && final(cards).rows() == old(cards).rows() && final(pending).pending()
                == old(pending).pending(),
            Some(k) => {
                &&& r matches DeletionStart::Started(row) && row == old(cards).rows()[k]
                &&& final(cards).rows() == without_id(old(cards).rows(), id)
                &&& final(pending).pending() == old(pending).pending().insert((id, PendingKind::Delete))
            },
        },
{
    if pending.is_pending_row(id) {
        return DeletionStart::Ignored;
    }
    if !has_csrf {
        return DeletionStart::MissingCsrf;
    }
    let ghost before = cards.rows();
    match cards.remove(id) {
        None => {
            proof {
                lemma_first_with_id(before, id);
                lemma_without_absent_id(before, id);
            }
            DeletionStart::Ignored
        },
        Some(row) => {
            pending.set_pending(id, PendingKind::Delete, true);
            DeletionStart::Started(row)
        },
    }
}

/// Finishes the deletion of the card of user `id` once the server answered:
/// the deletion is no longer under way; on success the card stays out and
/// the page flashes `msg_user_deleted`; on failure the card is put back in
/// order of id and the page flashes the error text. Returns the flash:
/// whether it reports success, and its message.
pub fn finish_deletion(
    cards: &mut UserCards,
    pending: &mut PendingActions,
    id: i64,
    removed: AdminUserRow,
    outcome: Result<(), String>,
) -> (r: (bool, String))
    ensures
        final(pending).pending() == old(pending).pending().remove((id, PendingKind::Delete)),
        match outcome {
            Ok(()) => final(cards).rows() == old(cards).rows() && r.0 && r.1@ == "msg_user_deleted"@,
            Err(e) => final(cards).rows() == insert_by_id(old(cards).rows(), removed) && !r.0 && r.1 == e,
        },
{
    pending.set_pending(id, PendingKind::Delete, false);
    match outcome {
        Ok(()) => (true, String::from_str("msg_user_deleted")),
        Err(e) => {
            cards.restore(removed);
            (false, e)
        },
    }
}

} // verus!
