use auth_template::auth::UserRecord;
use auth_template::roles::RoleSet;
use auth_template::seed::{
    database_url, env_bool, generate_random_passphrase, passphrase_from, password_source_label, plan_seed,
    resolve_password, seed_summary, seeded_permission, seeded_roles, staff_username, upsert_seed_user,
    validate_strong_password, PasswordFault, PasswordSource, SeedAction, SeedEnv, SeedError, SeedReport,
};

fn env() -> SeedEnv {
    SeedEnv {
        allow_admin: "1".to_string(),
        dev_insecure: String::new(),
        admin_force_reset: String::new(),
        seed_staff: String::new(),
        staff_force_reset: String::new(),
        staff_username: None,
        admin_password: None,
        staff_password: None,
        database_url: None,
    }
}

fn is_generated(label: &str, p: &str) -> bool {
    let prefix = format!("example-app-{}-", label);
    if !p.starts_with(&prefix) {
        return false;
    }
    let rest = &p[prefix.len()..];
    rest.len() == 25
        && rest.chars().enumerate().all(|(i, c)| {
            if i == 12 {
                c == '-'
            } else {
                c.is_ascii_digit() || ('a'..='f').contains(&c)
            }
        })
}

fn password_error(e: &SeedError) -> Option<(String, PasswordFault)> {
    match e {
        SeedError::Password { name, fault } => Some((name.clone(), *fault)),
        _ => None,
    }
}

#[test]
fn flags() {
    assert!(env_bool("1"));
    assert!(env_bool(" TRUE "));
    assert!(env_bool("Yes"));
    assert!(env_bool("on"));
    assert!(!env_bool(""));
    assert!(!env_bool("0"));
    assert!(!env_bool("enabled"));
}

#[test]
fn source_labels() {
    assert_eq!(password_source_label(PasswordSource::ExplicitEnv), "explicit_env");
    assert_eq!(password_source_label(PasswordSource::GeneratedRandom), "generated_random");
    assert_eq!(password_source_label(PasswordSource::DevInsecureDefault), "dev_insecure_default");
}

#[test]
fn strong_password_check() {
    assert!(validate_strong_password("P", "a much longer one").is_ok());
    let weak = validate_strong_password("SEED_ADMIN_PASSWORD", "ChangeMe").unwrap_err();
    assert_eq!(password_error(&weak), Some(("SEED_ADMIN_PASSWORD".to_string(), PasswordFault::Weak)));
    assert_eq!(weak.message(), "SEED_ADMIN_PASSWORD uses a forbidden weak/default value");
    let short = validate_strong_password("P", "elevenchars").unwrap_err();
    assert_eq!(password_error(&short), Some(("P".to_string(), PasswordFault::TooShort)));
    assert_eq!(short.message(), "P must be at least 12 characters in secure mode");
    assert!(validate_strong_password("P", "twelve chars").is_ok());
}

#[test]
fn passphrases() {
    assert_eq!(
        passphrase_from("admin", "0123456789abcdef", "fedcba9876543210"),
        "example-app-admin-0123456789ab-fedcba987654"
    );
    let p = generate_random_passphrase("admin");
    assert!(is_generated("admin", &p));
    assert_ne!(p, generate_random_passphrase("admin"));
}

#[test]
fn password_resolution() {
    let (pw, src) = resolve_password("X", Some("  a strong password  "), false).unwrap();
    assert_eq!(pw, "a strong password");
    assert_eq!(src, PasswordSource::ExplicitEnv);
    let (pw, src) = resolve_password("X", Some("pw"), true).unwrap();
    assert_eq!((pw.as_str(), src), ("pw", PasswordSource::ExplicitEnv));
    let empty = resolve_password("X", Some("   "), true).unwrap_err();
    assert_eq!(empty.message(), "X was provided but empty");
    assert_eq!(password_error(&resolve_password("X", Some("admin"), false).unwrap_err()).unwrap().1, PasswordFault::Weak);
    let (pw, src) = resolve_password("X", None, true).unwrap();
    assert_eq!((pw.as_str(), src), ("password", PasswordSource::DevInsecureDefault));
    let (pw, src) = resolve_password("SEED_STAFF_PASSWORD", None, false).unwrap();
    assert_eq!(src, PasswordSource::GeneratedRandom);
    assert!(is_generated("admin", &pw));
}

#[test]
fn defaults() {
    assert_eq!(database_url(None), "sqlite://app.sqlite?mode=rwc");
    assert_eq!(database_url(Some("postgres://x")), "postgres://x");
    assert_eq!(staff_username(None), "staff");
    assert_eq!(staff_username(Some("  helper ")), "helper");
}

#[test]
fn seeding_needs_the_opt_in() {
    let mut e = env();
    e.allow_admin = "no".to_string();
    let err = plan_seed(&e).err().unwrap();
    assert!(matches!(err, SeedError::NotAllowed));
    assert_eq!(err.message(), "Refusing to seed admin without explicit opt-in.\nSet SEED_ALLOW_ADMIN=1 and run again.");
}

#[test]
fn staff_may_not_be_called_admin() {
    let mut e = env();
    e.seed_staff = "true".to_string();
    e.staff_username = Some(" ADMIN ".to_string());
    let err = plan_seed(&e).err().unwrap();
    assert!(matches!(err, SeedError::StaffNamedAdmin));
    assert_eq!(err.message(), "SEED_STAFF_USERNAME must not be 'admin'");
    e.seed_staff = String::new();
    assert!(plan_seed(&e).is_ok());
}

#[test]
fn seed_plans() {
    let mut e = env();
    e.admin_password = Some("a strong admin pw".to_string());
    e.admin_force_reset = "yes".to_string();
    let plan = plan_seed(&e).ok().unwrap();
    assert_eq!(plan.database_url, "sqlite://app.sqlite?mode=rwc");
    assert!(plan.admin_force_reset);
    assert_eq!(plan.admin_password, "a strong admin pw");
    assert_eq!(plan.admin_source, PasswordSource::ExplicitEnv);
    assert!(plan.staff.is_none());

    let mut e = env();
    e.seed_staff = "1".to_string();
    e.dev_insecure = "on".to_string();
    e.staff_force_reset = "1".to_string();
    let plan = plan_seed(&e).ok().unwrap();
    assert_eq!(plan.admin_password, "password");
    assert_eq!(plan.admin_source, PasswordSource::DevInsecureDefault);
    let st = plan.staff.unwrap();
    assert_eq!(st.username, "staff");
    assert!(st.force_reset);
    assert_eq!(st.password, "password");

    let mut e = env();
    e.seed_staff = "1".to_string();
    e.staff_password = Some("short".to_string());
    let err = plan_seed(&e).err().unwrap();
    assert_eq!(password_error(&err), Some(("SEED_STAFF_PASSWORD".to_string(), PasswordFault::TooShort)));

    let mut e = env();
    e.admin_password = Some("user".to_string());
    e.seed_staff = "1".to_string();
    e.staff_password = Some("".to_string());
    let err = plan_seed(&e).err().unwrap();
    assert_eq!(password_error(&err), Some(("SEED_ADMIN_PASSWORD".to_string(), PasswordFault::Weak)));
}

fn existing() -> UserRecord {
    UserRecord {
        id: 5,
        username: "admin".to_string(),
        first_name: "admin".to_string(),
        last_name: String::new(),
        email: "admin@example.invalid".to_string(),
        password_hash: "old".to_string(),
        status: "active".to_string(),
        password_reset_required: true,
        webauthn_user_handle: Some("h".to_string()),
    }
}

#[test]
fn upserting_seeded_accounts() {
    let (kept, action) = upsert_seed_user(Some(existing()), "admin", "new", false);
    assert_eq!(action, SeedAction::ExistingKept);
    assert_eq!(kept.password_hash, "old");
    assert!(!action.password_applied());
    let (reset, action) = upsert_seed_user(Some(existing()), "admin", "new", true);
    assert_eq!(action, SeedAction::ExistingPasswordReset);
    assert_eq!(reset.password_hash, "new");
    assert!(reset.password_reset_required);
    assert_eq!(reset.id, 5);
    let (created, action) = upsert_seed_user(None, "helper", "hash", false);
    assert_eq!(action, SeedAction::Created);
    assert_eq!(action.label(), "created");
    assert!(action.password_applied());
    assert_eq!(created.username, "helper");
    assert_eq!(created.first_name, "helper");
    assert_eq!(created.last_name, "");
    assert_eq!(created.email, "helper@example.invalid");
    assert_eq!(created.status, "active");
    assert!(!created.password_reset_required);
    assert_eq!(created.webauthn_user_handle.unwrap().len(), 36);
    assert_eq!(SeedAction::ExistingPasswordReset.label(), "existing_password_reset");
    assert_eq!(SeedAction::ExistingKept.label(), "existing_kept");
}

#[test]
fn seeded_grants() {
    assert_eq!(seeded_roles(false), RoleSet { user: true, admin: true, staff: false });
    assert_eq!(seeded_roles(true), RoleSet { user: true, admin: false, staff: true });
    assert_eq!(seeded_permission(false), "admin.read");
    assert_eq!(seeded_permission(true), "staff.read");
}

#[test]
fn summary_text() {
    let admin = SeedReport {
        action: SeedAction::Created,
        username: "admin".to_string(),
        source: PasswordSource::GeneratedRandom,
        webauthn_user_handle: Some("3e429a8c-be40-4604-b0ca-8cacdeb6d3f2".to_string()),
        password: "example-app-admin-6c4d88cb3f23-2f26cde80584".to_string(),
    };
    assert_eq!(
        seed_summary(&admin, &None),
        "Seed admin result:\n- action=created\n- username=admin\n- password_source=generated_random\n- password_applied=true\n- roles=[user,admin]\n- permission=[admin.read]\n- webauthn_user_handle=3e429a8c-be40-4604-b0ca-8cacdeb6d3f2\n\nEffective plaintext credential (store securely):\nadmin=example-app-admin-6c4d88cb3f23-2f26cde80584\n"
    );
    let kept = SeedReport {
        action: SeedAction::ExistingKept,
        username: "admin".to_string(),
        source: PasswordSource::ExplicitEnv,
        webauthn_user_handle: None,
        password: "secret".to_string(),
    };
    let staff = SeedReport {
        action: SeedAction::ExistingKept,
        username: "helper".to_string(),
        source: PasswordSource::DevInsecureDefault,
        webauthn_user_handle: Some("h".to_string()),
        password: "password".to_string(),
    };
    let text = seed_summary(&kept, &Some(staff));
    assert_eq!(
        text,
        "Seed admin result:\n- action=existing_kept\n- username=admin\n- password_source=explicit_env\n- password_applied=false (existing password kept; set SEED_ADMIN_FORCE_RESET=1 to rotate)\n- roles=[user,admin]\n- permission=[admin.read]\n- webauthn_user_handle=<missing>\n\nSeed staff result:\n- action=existing_kept\n- username=helper\n- password_source=dev_insecure_default\n- password_applied=false (existing password kept; set SEED_STAFF_FORCE_RESET=1 to rotate)\n- roles=[user,staff]\n- permission=[staff.read]\n- webauthn_user_handle=h\n"
    );
    assert!(!text.contains("secret"));
    let staff_new = SeedReport {
        action: SeedAction::Created,
        username: "helper".to_string(),
        source: PasswordSource::ExplicitEnv,
        webauthn_user_handle: Some("h".to_string()),
        password: "pw-helper-123".to_string(),
    };
    let text2 = seed_summary(&admin, &Some(staff_new));
    assert!(text2.ends_with("\nEffective plaintext credential (store securely):\nhelper=pw-helper-123\n"));
}
