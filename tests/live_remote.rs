use filesync::hashing::hash_content;
use filesync::index::{get_file, init_db, insert_file};
use filesync::intent::Intent;
use filesync::models::{FileRow, LoginTokenData};
use filesync::remote::{auth_step, build_file_form, delete_url, login_url, refresh_url, register_url, upload_url, AuthAction, AuthEvent, AuthPhase, PartBody};
use filesync::time::{check_expiry_time, from_rfc3339, is_expired_at, to_rfc3339, Timestamp};
use filesync::tokens::{access_token_millis, config_file_error, rotate_access};
use filesync::watch::{admit_event, live_change, ChangeKind, Debouncer};

fn s(x: &str) -> String {
    x.to_string()
}

fn ts(secs: i64) -> Timestamp {
    Timestamp { secs, nanos: 0 }
}

#[test]
fn burst_on_one_path_is_processed_once() {
    let mut d = Debouncer::new();
    let p = s("/tmp/w/a.txt");
    let admitted: Vec<bool> = [1000u64, 1020, 1040, 1060, 1080].iter().map(|t| admit_event(&mut d, &p, false, *t)).collect();
    assert_eq!(admitted, vec![true, false, false, false, false]);
    assert!(!admit_event(&mut d, &p, false, 1500));
    assert!(admit_event(&mut d, &p, false, 1501));
}

#[test]
fn debounce_is_per_path() {
    let mut d = Debouncer::new();
    assert!(d.should_process(&s("a"), 10));
    assert!(d.should_process(&s("b"), 20));
    assert!(!d.should_process(&s("a"), 30));
}

#[test]
fn temp_file_events_are_dropped() {
    let mut d = Debouncer::new();
    let p = s("/tmp/w/.a.txt.swp");
    assert!(!admit_event(&mut d, &p, false, 0));
    assert!(!admit_event(&mut d, &p, false, 10_000));
    let mut idx = init_db();
    let r = live_change(&mut idx, &s("/tmp/w"), &s("/tmp/w"), ChangeKind::Other, &p, None, ts(0));
    assert!(r.is_none());
}

#[test]
fn editor_save_burst_uploads_once() {
    let mut idx = init_db();
    let root = s("/tmp/w");
    insert_file(&mut idx, &FileRow::new(s("/tmp/w/a.txt"), hash_content(b"hello"), ts(1)), &root).unwrap();
    let mut d = Debouncer::new();
    let p = s("/tmp/w/a.txt");
    let mut intents = Vec::new();
    for (i, t) in [5000u64, 5020, 5040, 5060, 5080].iter().enumerate() {
        let kind = if i % 2 == 0 { ChangeKind::Modify } else { ChangeKind::Create };
        if admit_event(&mut d, &p, false, *t) {
            if let Some(x) = live_change(&mut idx, &root, &root, kind, &p, Some(hash_content(b"hello!")), ts(9)) {
                intents.push(x);
            }
        }
    }
    assert_eq!(intents.len(), 1);
    assert!(matches!(&intents[0], Intent::Upload(r) if r.path() == "/tmp/w/a.txt"));
    let rows = get_file(&idx, &p, &root);
    assert_eq!(rows[0].hash(), hash_content(b"hello!"));
    assert_eq!(rows[0].last_modified(), ts(9));
}

#[test]
fn created_file_is_inserted() {
    let mut idx = init_db();
    let root = s("/tmp/w");
    let r = live_change(&mut idx, &root, &root, ChangeKind::Create, &s("/tmp/w/n.txt"), Some(s("h")), ts(3));
    assert!(matches!(r, Some(Intent::Upload(_))));
    assert_eq!(get_file(&idx, &s("/tmp/w/n.txt"), &root).len(), 1);
}

#[test]
fn unreadable_change_does_nothing() {
    let mut idx = init_db();
    let root = s("/tmp/w");
    let r = live_change(&mut idx, &root, &root, ChangeKind::Modify, &s("/tmp/w/n.txt"), None, ts(3));
    assert!(r.is_none());
    assert!(get_file(&idx, &s("/tmp/w/n.txt"), &root).is_empty());
}

#[test]
fn removal_deletes_row_and_remote_file() {
    let mut idx = init_db();
    let root = s("/tmp/w");
    insert_file(&mut idx, &FileRow::new(s("/tmp/w/sub/b.txt"), s("h"), ts(1)), &root).unwrap();
    let r = live_change(&mut idx, &root, &root, ChangeKind::Remove, &s("/tmp/w/sub/b.txt"), None, ts(0));
    assert!(matches!(r, Some(Intent::Delete(ref p)) if p == "/tmp/w/sub/b.txt"));
    assert!(get_file(&idx, &s("/tmp/w/sub/b.txt"), &root).is_empty());
}

#[test]
fn expired_token_is_refreshed_before_upload() {
    let now = ts(1_700_000_000);
    let expires_ms = (1_700_000_000usize - 10) * 1000;
    let (phase, action) = auth_step(
        AuthPhase::Initial,
        AuthEvent::Tokens { access_token: s("old"), expires_at_millis: expires_ms },
        now,
    );
    assert_eq!(phase, AuthPhase::Refreshing);
    assert!(matches!(action, AuthAction::Refresh));
    let (phase, action) = auth_step(phase, AuthEvent::Refreshed, now);
    assert_eq!(phase, AuthPhase::Reloading);
    assert!(matches!(action, AuthAction::LoadTokens));
    let (phase, action) = auth_step(
        phase,
        AuthEvent::Tokens { access_token: s("new"), expires_at_millis: (1_700_000_000usize + 900) * 1000 },
        now,
    );
    assert_eq!(phase, AuthPhase::Finished);
    assert!(matches!(action, AuthAction::Send(ref t) if t == "new"));
}

#[test]
fn valid_token_is_sent_directly() {
    let now = ts(100);
    let (phase, action) = auth_step(AuthPhase::Initial, AuthEvent::Tokens { access_token: s("tok"), expires_at_millis: 100_001 }, now);
    assert_eq!(phase, AuthPhase::Finished);
    assert!(matches!(action, AuthAction::Send(ref t) if t == "tok"));
}

#[test]
fn expiry_at_the_exact_instant() {
    assert!(is_expired_at(ts(100), 100_000));
    assert!(!is_expired_at(ts(100), 100_001));
    assert!(is_expired_at(Timestamp { secs: 100, nanos: 5_000_000 }, 100_005));
    assert!(check_expiry_time(0));
    assert!(!check_expiry_time(usize::MAX));
}

#[test]
fn failures_abort_the_call() {
    let (phase, action) = auth_step(AuthPhase::Refreshing, AuthEvent::Failed(s("network down")), ts(0));
    assert_eq!(phase, AuthPhase::Finished);
    assert!(matches!(action, AuthAction::Abort(ref m) if m == "network down"));
    let (_, action) = auth_step(AuthPhase::Initial, AuthEvent::Refreshed, ts(0));
    assert!(matches!(action, AuthAction::Abort(_)));
}

#[test]
fn endpoint_urls() {
    assert_eq!(login_url("http://h:1"), "http://h:1/auth/login");
    assert_eq!(register_url("http://h:1"), "http://h:1/auth/register");
    assert_eq!(refresh_url("http://h:1"), "http://h:1/auth/refresh");
    assert_eq!(upload_url("http://h:1"), "http://h:1/file/upload");
    assert_eq!(delete_url("http://h:1", "a/b"), "http://h:1/file/delete?path=a/b");
}

#[test]
fn form_layout_of_one_record() {
    let rows = vec![FileRow::new(s("/tmp/w/sub/b.txt"), s("h"), ts(0))];
    let parts = build_file_form(&rows).ok().unwrap();
    let names: Vec<&str> = parts.iter().map(|p| p.name.as_str()).collect();
    assert_eq!(names, vec!["last_modified_b.txt", "path_b.txt", "file_b.txt"]);
    assert!(matches!(&parts[0].body, PartBody::Text(t) if t == "1970-01-01T00:00:00+00:00"));
    assert!(matches!(&parts[1].body, PartBody::Text(t) if t == "/tmp/w/sub"));
    assert!(matches!(&parts[2].body, PartBody::File(f) if f == "/tmp/w/sub/b.txt"));
}

#[test]
fn rfc3339_round_trip() {
    let t = Timestamp { secs: 1_700_000_000, nanos: 123_000_000 };
    let text = to_rfc3339(t).unwrap();
    assert_eq!(text, "2023-11-14T22:13:20.123+00:00");
    assert_eq!(from_rfc3339(&text), Ok(t));
    assert_eq!(from_rfc3339("2023-11-14T23:13:20+01:00"), Ok(ts(1_700_000_000)));
    assert!(from_rfc3339("yesterday").is_err());
}

fn tokens() -> LoginTokenData {
    LoginTokenData { access_token: s("a"), refresh_token: s("r"), token_type: s("bearer"), expires_at: 1_700_000_000 }
}

#[test]
fn access_token_in_milliseconds() {
    assert_eq!(access_token_millis(&tokens()), Some((s("a"), 1_700_000_000_000)));
    let mut big = tokens();
    big.expires_at = usize::MAX / 10;
    assert_eq!(access_token_millis(&big), None);
}

#[test]
fn rotation_keeps_refresh_token() {
    let mut t = tokens();
    rotate_access(&mut t, s("b"), 42);
    assert_eq!(t.access_token, "b");
    assert_eq!(t.expires_at, 42);
    assert_eq!(t.refresh_token, "r");
    assert_eq!(t.token_type, "bearer");
}

#[test]
fn missing_url_message() {
    assert_eq!(config_file_error(), "Please set a URL before continuing");
}

#[test]
fn repeated_change_leaves_same_index() {
    let mut idx = init_db();
    let root = s("/tmp/w");
    let p = s("/tmp/w/a.txt");
    live_change(&mut idx, &root, &root, ChangeKind::Modify, &p, Some(s("h")), ts(4));
    live_change(&mut idx, &root, &root, ChangeKind::Modify, &p, Some(s("h")), ts(4));
    let rows = filesync::index::get_files(&idx, &root);
    assert_eq!(rows.len(), 1);
    assert_eq!(rows[0].hash(), "h");
}

#[test]
fn form_fails_only_for_unwritable_time() {
    let rows = vec![FileRow::new(s("/tmp/w/a.txt"), s("h"), Timestamp { secs: i64::MAX, nanos: 0 })];
    assert!(build_file_form(&rows).is_err());
    assert!(to_rfc3339(Timestamp { secs: 0, nanos: 2_000_000_000 }).is_none());
    let fine = vec![FileRow::new(s("/tmp/w/a.txt"), s("h"), Timestamp { secs: -8_000_000_000_000, nanos: 999_999_999 })];
    assert!(build_file_form(&fine).is_ok());
}
