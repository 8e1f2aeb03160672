use auth_template::roles::{role_from_name, roles_from_names, PermissionSet, Role, RoleSet};
use auth_template::text::{
    byte_count, contains_text, eq_ignore_ascii_case, has_char, keyword, same_text, sort_texts, starts_with_text,
    text_less, trim,
};

fn strings(v: &[&str]) -> Vec<String> {
    v.iter().map(|s| s.to_string()).collect()
}

#[test]
fn trim_removes_unicode_whitespace_on_both_sides() {
    assert_eq!(trim("  hi there \t\n"), "hi there");
    assert_eq!(trim("\u{3000}x\u{a0}"), "x");
    assert_eq!(trim("   "), "");
}

#[test]
fn keyword_trims_then_lowercases() {
    assert_eq!(keyword("  AdMin "), "admin");
    assert_eq!(keyword("ÄBC"), "äbc");
}

#[test]
fn byte_count_counts_utf8_bytes() {
    assert_eq!(byte_count("abc"), 3);
    assert_eq!(byte_count("é"), 2);
    assert_eq!(byte_count(""), 0);
}

#[test]
fn comparisons_of_text() {
    assert!(same_text("abc", "abc"));
    assert!(!same_text("abc", "abd"));
    assert!(eq_ignore_ascii_case("ADMIN", "admin"));
    assert!(!eq_ignore_ascii_case("admin", "admins"));
    assert!(contains_text("an invalid credentials error", "invalid credentials"));
    assert!(!contains_text("csr", "csrf"));
    assert!(starts_with_text("https://x", "https://"));
    assert!(!starts_with_text("http", "https://"));
    assert!(has_char("a@b", '@'));
    assert!(!has_char("ab", '@'));
}

#[test]
fn text_order_is_lexicographic() {
    assert!(text_less("admin", "staff"));
    assert!(text_less("a", "ab"));
    assert!(!text_less("b", "ab"));
    assert!(!text_less("x", "x"));
    assert_eq!(sort_texts(strings(&["user", "admin", "staff", "admin"])), strings(&["admin", "admin", "staff", "user"]));
}

#[test]
fn role_names_and_lookup() {
    assert_eq!(Role::Admin.name(), "admin");
    assert_eq!(Role::Staff.name(), "staff");
    assert_eq!(Role::User.name(), "user");
    assert_eq!(role_from_name("ADMIN"), Role::Admin);
    assert_eq!(role_from_name("Staff"), Role::Staff);
    assert_eq!(role_from_name("anything"), Role::User);
}

#[test]
fn role_sets() {
    let mut s = RoleSet::empty();
    assert!(s.is_empty());
    s.insert(Role::Staff);
    s.insert(Role::Admin);
    assert!(s.contains(Role::Admin));
    assert!(!s.contains(Role::User));
    assert_eq!(s.names(), strings(&["admin", "staff"]));
    assert_eq!(RoleSet::single(Role::User), RoleSet { user: true, admin: false, staff: false });
    let from = roles_from_names(&strings(&["Admin", "editor"]));
    assert_eq!(from, RoleSet { user: true, admin: true, staff: false });
}

#[test]
fn permission_sets_are_sorted_without_repeats() {
    let mut p = PermissionSet::new();
    assert!(p.is_empty());
    p.insert("staff.read".to_string());
    p.insert("admin.read".to_string());
    p.insert("staff.read".to_string());
    assert_eq!(p.names(), strings(&["admin.read", "staff.read"]));
    assert!(p.contains("admin.read"));
    assert!(!p.contains("admin.write"));
    let q = PermissionSet::from_names(strings(&["b", "a", "b"]));
    assert_eq!(q.names(), strings(&["a", "b"]));
    assert_eq!(q.clone().names(), strings(&["a", "b"]));
}
