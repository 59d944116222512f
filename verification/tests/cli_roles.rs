use nervemq::api::auth::Role;
use nervemq::cli::{
    api_key_owner, api_key_row, check_new_password, check_removable_user, pad, parse_role,
    role_name, user_row,
};

#[test]
fn parse_role_accepts_known_roles_case_insensitively() {
    assert!(matches!(parse_role("user"), Ok(Role::User)));
    assert!(matches!(parse_role("Admin"), Ok(Role::Admin)));
    assert!(parse_role("superuser").is_err());
}

#[test]
fn role_name_round_trips_parse_role() {
    for name in ["user", "admin"] {
        assert_eq!(role_name(&parse_role(name).unwrap()), name);
    }
}

#[test]
fn parse_role_reports_the_lowercased_name() {
    assert_eq!(
        parse_role("SuperUser").unwrap_err(),
        "invalid role 'superuser': must be 'user' or 'admin'"
    );
    assert!(matches!(parse_role("USER"), Ok(Role::User)));
}

#[test]
fn roles_rank_admin_above_user() {
    assert!(Role::Admin.at_least(&Role::User));
    assert!(Role::Admin.at_least(&Role::Admin));
    assert!(Role::User.at_least(&Role::User));
    assert!(!Role::User.at_least(&Role::Admin));
    assert_eq!(Role::default(), Role::User);
}

#[test]
fn listing_rows_are_padded() {
    assert_eq!(pad("ab", 5), "ab   ");
    assert_eq!(pad("abcdef", 3), "abcdef");
    assert_eq!(pad("é", 3), "é  ");
    assert_eq!(user_row("bob@example.com", &Role::Admin), format!("{:<40} admin", "bob@example.com"));
    assert_eq!(api_key_row("k", "ns", "bob@example.com"), format!("{:<24} {:<24} bob@example.com", "k", "ns"));
}

#[test]
fn passwords_must_be_confirmed() {
    assert_eq!(check_new_password("", ""), Err("password must not be empty".to_string()));
    assert_eq!(check_new_password("a", "b"), Err("passwords do not match".to_string()));
    assert_eq!(check_new_password("a", "a"), Ok(()));
}

#[test]
fn the_root_administrator_cannot_be_removed() {
    assert!(check_removable_user("bob@example.com", "admin@example.com").is_ok());
    let err = check_removable_user("admin@example.com", "admin@example.com").unwrap_err();
    assert!(err.starts_with("'admin@example.com' is the root administrator"));
    assert!(err.ends_with("it cannot be deleted"));
    assert_eq!(api_key_owner(None, "root@x"), "root@x");
    assert_eq!(api_key_owner(Some("u@x".to_string()), "root@x"), "u@x");
}

#[test]
fn parse_email_validates() {
    assert_eq!(
        nervemq::cli::parse_email("bob@example.com").unwrap().as_str(),
        "bob@example.com"
    );
    assert!(nervemq::cli::parse_email("not-an-email").is_err());
}
