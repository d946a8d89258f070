use riplakish::actor::{Operation, Reply};
use riplakish::resolver::{add_redirect, resolve, Resolution};
use riplakish::session::login;
use riplakish::store::Database;

fn pipeline_db() -> Database {
    Database::new(
        false,
        "http://localhost:3009".to_string(),
        "admin".to_string(),
        "hunter2".to_string(),
        "riplakish.db".to_string(),
    )
}

#[test]
fn resolving_unknown_code_is_not_found_and_logs_nothing() {
    let mut db = pipeline_db();
    let r = resolve(
        &mut db,
        "none".to_string(),
        "10.0.0.1".to_string(),
        "t1".to_string(),
    );
    assert!(matches!(r, Resolution::NotFound));
    assert!(db.get_logs("none".to_string()).is_empty());
    assert!(db.get_stats().is_empty());
}

#[test]
fn resolving_guard_rejected_code_is_bad_request() {
    let mut db = pipeline_db();
    let r = resolve(
        &mut db,
        "a b".to_string(),
        "10.0.0.1".to_string(),
        "t1".to_string(),
    );
    assert!(matches!(r, Resolution::BadRequest));
    assert!(db.get_logs("a b".to_string()).is_empty());
}

#[test]
fn end_to_end_insert_lookup_resolve_and_one_log_row() {
    let mut db = pipeline_db();
    assert!(db.insert_url("https://example.com", "abcd"));
    assert_eq!(db.get_url("abcd".to_string()), Some("https://example.com".to_string()));
    let r = resolve(
        &mut db,
        "abcd".to_string(),
        "203.0.113.7".to_string(),
        "10/11/2026 12:00:00".to_string(),
    );
    match r {
        Resolution::Redirected(url) => assert_eq!(url, "https://example.com"),
        _ => panic!("expected a redirect"),
    }
    let logs = db.get_logs("abcd".to_string());
    assert_eq!(logs.len(), 1);
    assert_eq!(logs[0].ip, "203.0.113.7");
    assert_eq!(logs[0].url, "https://example.com");
    assert_eq!(logs[0].timestamp, "10/11/2026 12:00:00");
}

#[test]
fn log_failure_does_not_block_the_redirect() {
    let mut db = pipeline_db();
    assert!(db.insert_url("https://example.com", "abcd"));
    // a forwarded-for list is not a single address and fails the guard
    let r = resolve(
        &mut db,
        "abcd".to_string(),
        "203.0.113.7, 198.51.100.2".to_string(),
        "t1".to_string(),
    );
    assert!(matches!(r, Resolution::Redirected(_)));
    assert!(db.get_logs("abcd".to_string()).is_empty());
}

#[test]
fn add_redirect_generates_a_working_code() {
    let mut db = pipeline_db();
    let code = add_redirect(&mut db, "https://example.com".to_string());
    let code = code.expect("a fresh store has room for a new code");
    assert_eq!(code.len(), 4);
    assert!(code.chars().all(|c| c.is_ascii_hexdigit()));
    assert_eq!(db.get_url(code), Some("https://example.com".to_string()));
}

#[test]
fn add_redirect_rejects_a_guarded_url() {
    let mut db = pipeline_db();
    assert!(add_redirect(&mut db, "https://example.com/?q=1".to_string()).is_none());
    assert!(db.get_stats().is_empty());
}

#[test]
fn login_issues_a_checkable_token() {
    let mut db = pipeline_db();
    let now: u64 = 1_000_000;
    let token = login(&mut db, "admin".to_string(), "hunter2".to_string(), now);
    let token = token.expect("matching credentials earn a token");
    assert_eq!(token.len(), 32);
    assert!(db.check_token(token.clone(), now + 10));
    assert!(!db.check_token(token, now + 3600));
}

#[test]
fn login_rejects_wrong_credentials() {
    let mut db = pipeline_db();
    assert!(login(&mut db, "admin".to_string(), "wrong".to_string(), 0).is_none());
    assert!(login(&mut db, "user".to_string(), "hunter2".to_string(), 0).is_none());
}

#[test]
fn actor_batch_observes_one_serial_order() {
    let mut db = pipeline_db();
    let now: u64 = 1_000_000;
    let ops = vec![
        Operation::GetRedirect { code: "abcd".to_string() },
        Operation::InsertRedirect { url: "https://example.com".to_string(), code: "abcd".to_string() },
        Operation::GetRedirect { code: "abcd".to_string() },
        Operation::UpdateRedirectUrl { code: "abcd".to_string(), url: "https://changed.example".to_string() },
        Operation::GetRedirect { code: "abcd".to_string() },
        Operation::RemoveRedirect { code: "abcd".to_string() },
        Operation::GetRedirect { code: "abcd".to_string() },
    ];
    let replies = riplakish::actor::run(&mut db, ops, now, "t1".to_string());
    assert_eq!(replies.len(), 7);
    // each read sees exactly the mutations queued before it
    assert!(matches!(&replies[0], Reply::Url(None)));
    assert!(matches!(&replies[1], Reply::Flag(true)));
    match &replies[2] {
        Reply::Url(Some(u)) => assert_eq!(u, "https://example.com"),
        _ => panic!("expected the inserted URL"),
    }
    assert!(matches!(&replies[3], Reply::Flag(true)));
    match &replies[4] {
        Reply::Url(Some(u)) => assert_eq!(u, "https://changed.example"),
        _ => panic!("expected the updated URL"),
    }
    assert!(matches!(&replies[5], Reply::Flag(true)));
    assert!(matches!(&replies[6], Reply::Url(None)));
}

#[test]
fn actor_step_answers_each_operation_kind() {
    let mut db = pipeline_db();
    let now: u64 = 1_000_000;
    let r = riplakish::actor::step(
        &mut db,
        Operation::InsertLog {
            code: "abcd".to_string(),
            url: "https://example.com".to_string(),
            ip: "10.0.0.1".to_string(),
        },
        now,
        "t1".to_string(),
    );
    assert!(matches!(r, Reply::Flag(true)));
    let r = riplakish::actor::step(&mut db, Operation::GetLogs { code: "abcd".to_string() }, now, "t2".to_string());
    match r {
        Reply::Logs(logs) => {
            assert_eq!(logs.len(), 1);
            assert_eq!(logs[0].timestamp, "t1");
        },
        _ => panic!("expected the log listing"),
    }
    let r = riplakish::actor::step(&mut db, Operation::InsertToken { token: "abcd1234".to_string() }, now, "t3".to_string());
    assert!(matches!(r, Reply::Flag(true)));
    let r = riplakish::actor::step(&mut db, Operation::CheckToken { token: "abcd1234".to_string() }, now, "t4".to_string());
    assert!(matches!(r, Reply::Flag(true)));
    let r = riplakish::actor::step(&mut db, Operation::GetStats, now, "t5".to_string());
    assert!(matches!(r, Reply::Stats(_)));
}
