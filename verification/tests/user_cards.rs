use auth_template::admin::{admin_user_row, AdminUserRow};
use auth_template::auth::UserRecord;
use auth_template::user_cards::{PendingActions, PendingKind, UserCards};

fn row(id: i64, name: &str) -> AdminUserRow {
    let rec = UserRecord {
        id,
        username: name.to_string(),
        first_name: String::new(),
        last_name: String::new(),
        email: format!("{name}@x.io"),
        password_hash: "h".to_string(),
        status: "active".to_string(),
        password_reset_required: false,
        webauthn_user_handle: None,
    };
    admin_user_row(rec, vec!["user".to_string()], String::new(), String::new())
}

fn ids(cards: &UserCards) -> Vec<i64> {
    cards.as_slice().iter().map(|r| r.id).collect()
}

fn names(cards: &UserCards) -> Vec<String> {
    cards.as_slice().iter().map(|r| r.username.clone()).collect()
}

#[test]
fn results_are_shown_in_order_of_id() {
    let cards = UserCards::from_results(vec![row(7, "g"), row(2, "b"), row(9, "i"), row(2, "b2")]);
    assert_eq!(ids(&cards), vec![2, 2, 7, 9]);
    assert_eq!(names(&cards), vec!["b", "b2", "g", "i"]);
    assert!(!cards.is_empty());
    assert!(UserCards::new().is_empty());
    assert_eq!(cards.find(2).unwrap().username, "b");
    assert!(cards.find(3).is_none());
}

#[test]
fn failed_deletion_puts_the_card_back() {
    let mut cards = UserCards::from_results(vec![row(5, "e"), row(1, "a"), row(3, "c")]);
    let removed = cards.remove(3).unwrap();
    assert_eq!(removed.username, "c");
    assert_eq!(ids(&cards), vec![1, 5]);
    assert!(cards.remove(4).is_none());
    assert_eq!(ids(&cards), vec![1, 5]);
    cards.restore(removed);
    assert_eq!(ids(&cards), vec![1, 3, 5]);
    assert_eq!(names(&cards), vec!["a", "c", "e"]);
}

#[test]
fn removing_takes_out_every_card_of_the_user() {
    let mut cards = UserCards::from_results(vec![row(4, "x"), row(4, "y"), row(6, "z")]);
    let removed = cards.remove(4).unwrap();
    assert_eq!(removed.username, "x");
    assert_eq!(ids(&cards), vec![6]);
}

#[test]
fn actions_under_way() {
    let mut p = PendingActions::new();
    assert!(!p.is_pending_row(1));
    p.set_pending(1, PendingKind::Save, true);
    p.set_pending(1, PendingKind::Save, true);
    p.set_pending(2, PendingKind::Delete, true);
    assert!(p.is_pending_row(1));
    assert!(p.is_pending_row(2));
    assert!(!p.is_pending_row(3));
    p.set_pending(1, PendingKind::Save, false);
    assert!(!p.is_pending_row(1));
    p.set_pending(2, PendingKind::Save, false);
    assert!(p.is_pending_row(2));
    p.set_pending(2, PendingKind::Delete, false);
    assert!(!p.is_pending_row(2));
}
