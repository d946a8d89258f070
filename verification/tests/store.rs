use riplakish::store::Database;

fn store_db() -> Database {
    Database::new(
        false,
        "http://localhost:3009".to_string(),
        "admin".to_string(),
        "hunter2".to_string(),
        "riplakish.db".to_string(),
    )
}

#[test]
fn f1() {
    let mut db = store_db();
    assert!(db.insert_url("https://google.com", "asdf"));
    assert!(db.get_url("asdf".to_string()) == Some("https://google.com".to_string()));
}

#[test]
fn log() {
    let mut db = store_db();
    assert!(db.log(
        "asdf".to_string(),
        "google.com".to_string(),
        "127.0.0.1".to_string(),
        "10/11/2026 12:00:00".to_string(),
    ));
}

#[test]
fn stats() {
    let mut db = store_db();
    assert!(db.insert_url("https://google.com", "asdf"));
    assert!(!db.get_stats().is_empty());
}

#[test]
fn login() {
    let mut db = store_db();
    let now: u64 = 1_000_000;
    assert!(db.insert_token("asdf".to_string(), now));
    assert!(db.check_token("asdf".to_string(), now));
}

#[test]
fn lookup_returns_inserted_url_until_changed() {
    let mut db = store_db();
    assert!(db.insert_url("https://example.com", "abcd"));
    assert_eq!(db.get_url("abcd".to_string()), Some("https://example.com".to_string()));
    // unrelated operations leave the mapping alone
    assert!(db.insert_url("https://other.example", "wxyz"));
    assert!(db.log(
        "abcd".to_string(),
        "https://example.com".to_string(),
        "10.0.0.1".to_string(),
        "ts".to_string(),
    ));
    assert_eq!(db.get_url("abcd".to_string()), Some("https://example.com".to_string()));
    // a URL update changes what the code returns
    assert!(db.modify_url("abcd".to_string(), "https://changed.example".to_string()));
    assert_eq!(db.get_url("abcd".to_string()), Some("https://changed.example".to_string()));
    // a removal makes the code unknown
    assert!(db.remove_url("abcd".to_string()));
    assert_eq!(db.get_url("abcd".to_string()), None);
    assert_eq!(db.get_url("wxyz".to_string()), Some("https://other.example".to_string()));
}

#[test]
fn later_insert_shadows_earlier_one() {
    let mut db = store_db();
    assert!(db.insert_url("https://first.example", "dup0"));
    assert!(db.insert_url("https://second.example", "dup0"));
    assert_eq!(db.get_url("dup0".to_string()), Some("https://second.example".to_string()));
}

#[test]
fn guarded_inserts_are_rejected() {
    let mut db = store_db();
    assert!(!db.insert_url("https://example.com/?q=1", "abcd"));
    assert!(!db.insert_url("https://example.com", "ab'd"));
    assert!(!db.remove_url("a b".to_string()));
    assert!(!db.modify_url("abcd".to_string(), "bad url".to_string()));
    assert!(!db.modify_comment("abcd".to_string(), "two words".to_string()));
    assert!(!db.log(
        "ab;cd".to_string(),
        "https://example.com".to_string(),
        "127.0.0.1".to_string(),
        "ts".to_string(),
    ));
    assert!(!db.insert_token("tok;en".to_string(), 0));
    assert!(!db.check_token("tok en".to_string(), 0));
    // nothing reached the tables
    assert!(db.get_stats().is_empty());
}

#[test]
fn stats_count_log_rows_by_code() {
    let mut db = store_db();
    assert!(db.insert_url("https://a.example", "aaaa"));
    assert!(db.insert_url("https://b.example", "bbbb"));
    assert!(db.log(
        "aaaa".to_string(),
        "https://a.example".to_string(),
        "10.0.0.1".to_string(),
        "t1".to_string(),
    ));
    assert!(db.log(
        "aaaa".to_string(),
        "https://a.example".to_string(),
        "10.0.0.2".to_string(),
        "t2".to_string(),
    ));
    let stats = db.get_stats();
    assert_eq!(stats.len(), 2);
    assert_eq!(stats[0].url, "https://a.example");
    assert_eq!(stats[0].code, "aaaa");
    assert_eq!(stats[0].comment, "");
    assert_eq!(stats[0].visits, 2);
    assert_eq!(stats[1].code, "bbbb");
    assert_eq!(stats[1].visits, 0);
}

#[test]
fn comment_update_shows_in_stats() {
    let mut db = store_db();
    assert!(db.insert_url("https://a.example", "aaaa"));
    assert!(db.modify_comment("aaaa".to_string(), "landing-page".to_string()));
    let stats = db.get_stats();
    assert_eq!(stats.len(), 1);
    assert_eq!(stats[0].comment, "landing-page");
}

#[test]
fn get_logs_returns_every_entry_in_order() {
    let mut db = store_db();
    assert!(db.log(
        "abcd".to_string(),
        "https://example.com".to_string(),
        "10.0.0.1".to_string(),
        "t1".to_string(),
    ));
    assert!(db.log(
        "wxyz".to_string(),
        "https://other.example".to_string(),
        "10.0.0.2".to_string(),
        "t2".to_string(),
    ));
    assert!(db.log(
        "abcd".to_string(),
        "https://example.com".to_string(),
        "10.0.0.3".to_string(),
        "t3".to_string(),
    ));
    let logs = db.get_logs("abcd".to_string());
    assert_eq!(logs.len(), 2);
    assert_eq!(logs[0].timestamp, "t1");
    assert_eq!(logs[0].ip, "10.0.0.1");
    assert_eq!(logs[0].url, "https://example.com");
    assert_eq!(logs[1].timestamp, "t3");
    assert_eq!(logs[1].ip, "10.0.0.3");
    // later operations do not disturb what was already on file
    assert!(db.remove_url("abcd".to_string()));
    let logs_after = db.get_logs("abcd".to_string());
    assert_eq!(logs_after.len(), 2);
    assert_eq!(logs_after[0].ip, "10.0.0.1");
    assert_eq!(logs_after[1].ip, "10.0.0.3");
}

#[test]
fn future_token_stays_valid_and_intact() {
    let mut db = store_db();
    let now: u64 = 1_000_000;
    assert!(db.insert_token("livetoken".to_string(), now));
    // expiry is one hour past insertion: valid strictly before it
    assert!(db.check_token("livetoken".to_string(), now + 3599));
    // the row survived the check
    assert!(db.check_token("livetoken".to_string(), now + 3599));
}

#[test]
fn expired_token_is_invalid_and_deleted() {
    let mut db = store_db();
    let now: u64 = 1_000_000;
    assert!(db.insert_token("oldtoken".to_string(), now));
    // at the expiry second the token no longer validates, and the row leaves
    assert!(!db.check_token("oldtoken".to_string(), now + 3600));
    // even a query at a permissive time finds nothing
    assert!(!db.check_token("oldtoken".to_string(), now));
}

#[test]
fn valid_check_purges_expired_rows() {
    let mut db = store_db();
    assert!(db.insert_token("early".to_string(), 1_000));
    assert!(db.insert_token("late".to_string(), 500_000));
    // "early" expired at 4600; a valid check of "late" at 500_100 purges it
    assert!(db.check_token("late".to_string(), 500_100));
    // "early" is gone: checking it at a time it would still have been live finds nothing
    assert!(!db.check_token("early".to_string(), 2_000));
    // "late" itself was left intact
    assert!(db.check_token("late".to_string(), 500_200));
}

#[test]
fn unknown_token_changes_nothing() {
    let mut db = store_db();
    assert!(db.insert_token("kept".to_string(), 1_000));
    assert!(!db.check_token("missing".to_string(), 2_000));
    assert!(db.check_token("kept".to_string(), 2_000));
}

#[test]
fn reinserting_a_token_never_extends_the_first_row() {
    let mut db = store_db();
    assert!(db.insert_token("tok1".to_string(), 1_000));
    // a second row under the same value does not touch the first one,
    // and the first row is the one a check consults
    assert!(db.insert_token("tok1".to_string(), 2_000));
    // at 4_600 the first row is expired, so the check fails and removes
    // every row carrying the value, the fresher one included
    assert!(!db.check_token("tok1".to_string(), 4_600));
    assert!(!db.check_token("tok1".to_string(), 3_000));
}

#[test]
fn credentials_compare_exactly() {
    let db = store_db();
    assert!(db.check_credentials(&"admin".to_string(), &"hunter2".to_string()));
    assert!(!db.check_credentials(&"admin".to_string(), &"hunter3".to_string()));
    assert!(!db.check_credentials(&"Admin".to_string(), &"hunter2".to_string()));
}
