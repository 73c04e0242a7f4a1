use account_ledger::session::{cookie_value, check_login, check_session_login, session_login, visit_step,
    UserLoginForm};

fn lookup(header: &str, name: &str) -> Option<String> {
    cookie_value(header.as_bytes(), name.as_bytes())
        .map(|v| String::from_utf8(v).unwrap())
}

#[test]
fn cookie_value_finds_a_plain_entry() {
    assert_eq!(lookup("username=alice", "username"), Some("alice".to_string()));
}

#[test]
fn cookie_value_finds_an_entry_among_several() {
    let header = "theme=dark; username=alice; lang=en";
    assert_eq!(lookup(header, "username"), Some("alice".to_string()));
    assert_eq!(lookup(header, "theme"), Some("dark".to_string()));
    assert_eq!(lookup(header, "lang"), Some("en".to_string()));
}

#[test]
fn cookie_value_trims_spaces_around_name_and_value() {
    let header = "a=1;  username =  alice  ; b=2";
    assert_eq!(lookup(header, "username"), Some("alice".to_string()));
}

#[test]
fn cookie_value_misses_absent_names() {
    assert_eq!(lookup("username=alice", "user"), None);
    assert_eq!(lookup("username=alice", "username2"), None);
    assert_eq!(lookup("", "username"), None);
}

#[test]
fn cookie_value_skips_empty_values() {
    assert_eq!(lookup("username=; other=x", "username"), None);
    assert_eq!(lookup("username=   ; other=x", "username"), None);
}

#[test]
fn cookie_value_skips_entries_without_separator() {
    assert_eq!(lookup("garbage; username=alice", "username"), Some("alice".to_string()));
    assert_eq!(lookup("username", "username"), None);
}

#[test]
fn cookie_value_takes_the_first_match() {
    assert_eq!(lookup("id=1; id=2", "id"), Some("1".to_string()));
}

#[test]
fn cookie_value_session_id_header() {
    let header = "axum_rs_session_id=3f2b9c";
    assert_eq!(lookup(header, "axum_rs_session_id"), Some("3f2b9c".to_string()));
}

#[test]
fn check_login_accepts_only_the_demo_credentials() {
    let good = UserLoginForm { username: "axum.rs".to_string(), password: "axum.rs".to_string() };
    let bad = UserLoginForm { username: "axum.rs".to_string(), password: "wrong".to_string() };
    assert!(check_login(&good));
    assert!(!check_login(&bad));
}

#[test]
fn check_session_login_accepts_only_the_demo_credentials() {
    let good = UserLoginForm { username: "test".to_string(), password: "123123".to_string() };
    let bad = UserLoginForm { username: "test".to_string(), password: "321321".to_string() };
    assert!(check_session_login(&good));
    assert!(!check_session_login(&bad));
}

#[test]
fn visit_step_counts_then_resets() {
    assert_eq!(visit_step(0), Some(1));
    assert_eq!(visit_step(10), Some(11));
    assert_eq!(visit_step(11), None);
}

#[test]
fn session_login_creates_a_session_only_for_valid_credentials() {
    let good = UserLoginForm { username: "test".to_string(), password: "123123".to_string() };
    let session = session_login(good).unwrap();
    assert_eq!(session.username, "test");
    assert_eq!(session.level, 1);
    let bad = UserLoginForm { username: "test".to_string(), password: "oops".to_string() };
    assert!(session_login(bad).is_none());
}
