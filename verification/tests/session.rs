use riplakish::session::{check_login, get_token, login};
use riplakish::store::Database;

fn session_db() -> Database {
    Database::new(
        false,
        "http://localhost:3009".to_string(),
        "admin".to_string(),
        "hunter2".to_string(),
        "riplakish.db".to_string(),
    )
}

#[test]
fn token_is_read_from_a_lone_cookie() {
    assert_eq!(get_token("X-Token=abc123"), Some("abc123".to_string()));
}

#[test]
fn token_is_read_from_a_later_segment() {
    assert_eq!(get_token("theme=dark;X-Token=abc123"), Some("abc123".to_string()));
    assert_eq!(get_token("theme=dark;X-Token=abc123;lang=en"), Some("abc123".to_string()));
}

#[test]
fn token_value_is_cut_at_the_next_equals_sign_and_trimmed() {
    assert_eq!(get_token("X-Token=abc=def"), Some("abc".to_string()));
    assert_eq!(get_token("X-Token= abc123 "), Some("abc123".to_string()));
    assert_eq!(get_token("X-Token="), Some("".to_string()));
}

#[test]
fn header_without_the_cookie_names_no_token() {
    assert_eq!(get_token(""), None);
    assert_eq!(get_token("theme=dark"), None);
    assert_eq!(get_token("theme=dark;lang=en"), None);
    // the cookie name must begin its segment: padding hides it
    assert_eq!(get_token("theme=dark; X-Token=abc123"), None);
    assert_eq!(get_token("x-token=abc123"), None);
}

#[test]
fn check_login_round_trip() {
    let mut db = session_db();
    let now: u64 = 1_000_000;
    let token = login(&mut db, "admin".to_string(), "hunter2".to_string(), now)
        .expect("matching credentials earn a token");
    let header = format!("theme=dark;X-Token={token}");
    assert!(check_login(&mut db, header.as_str(), now + 10));
    // past the expiry the same header stops validating, and the row leaves
    assert!(!check_login(&mut db, header.as_str(), now + 3600));
    assert!(!check_login(&mut db, header.as_str(), now + 10));
}

#[test]
fn check_login_without_a_token_touches_nothing() {
    let mut db = session_db();
    assert!(!check_login(&mut db, "theme=dark", 1_000));
    assert!(!check_login(&mut db, "", 1_000));
}
