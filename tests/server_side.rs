use filesync::api::{authorization_error, bad_request_error, conflict_error, internal_server_error, not_found_error, okay_response, ResponseBody};
use argon2::PasswordHasher;
use filesync::auth::{access_claims, extract_user_info, login_check, password_hash_for, refresh_claims, register_check, require_user};
use filesync::errors::{AuthError, DbError};
use filesync::index::{get_file, init_db, LocalIndex};
use filesync::models::{AuthRequest, FileRequest, UserRow};
use filesync::server::{check_file_delete, delete_target, file_metadata, list_files};
use filesync::time::Timestamp;
use filesync::upload::{classify_field, FieldKind, FilePlan, UploadSession};

fn s(x: &str) -> String {
    x.to_string()
}

fn upload_one(idx: &mut LocalIndex, user: &str, name: &str, rel: &str) -> UploadSession {
    let mut session = UploadSession::new(s(user));
    session.record_last_modified(name, " 2024-01-02T03:04:05+00:00 \n");
    session.record_path(name, rel);
    let field = format!("file_{}", name);
    match session.plan_file(idx, Some(name), &field) {
        FilePlan::Write { filename, stored_path, .. } => {
            session.complete_file(idx, &filename, &stored_path, Some(s("hash")), Timestamp { secs: 0, nanos: 0 });
        }
        FilePlan::Skip => {}
    }
    session
}

#[test]
fn duplicate_upload_is_rejected() {
    let mut idx = init_db();
    let first = upload_one(&mut idx, "alice", "a.txt", "docs");
    let second = upload_one(&mut idx, "alice", "a.txt", "docs");
    assert_eq!(first.uploaded().get("a.txt").map(|x| x.as_str()), Some("Success!"));
    assert!(first.failed().is_empty());
    assert_eq!(second.failed().get("a.txt").map(|x| x.as_str()), Some("File already exists"));
    assert!(second.uploaded().is_empty());
    assert!(second.any_processed());
    let rows = get_file(&idx, &s("uploads/alice/docs/a.txt"), &s("alice"));
    assert_eq!(rows.len(), 1);
    assert_eq!(rows[0].last_modified(), Timestamp { secs: 1704164645, nanos: 0 });
}

#[test]
fn same_path_for_two_users() {
    let mut idx = init_db();
    let a = upload_one(&mut idx, "alice", "a.txt", "");
    let b = upload_one(&mut idx, "bob", "a.txt", "");
    assert!(a.failed().is_empty());
    assert!(b.failed().is_empty());
    assert_eq!(get_file(&idx, &s("uploads/bob/a.txt"), &s("bob")).len(), 1);
}

#[test]
fn traversal_and_absolute_paths_are_refused() {
    let mut idx = init_db();
    for rel in ["../etc", "/abs", "a/../../b"] {
        let session = upload_one(&mut idx, "alice", "a.txt", rel);
        assert_eq!(
            session.failed().get("a.txt").map(|x| x.as_str()),
            Some("Invalid path: must be relative and not contain '..'")
        );
    }
}

#[test]
fn file_name_is_sanitized() {
    let mut idx = init_db();
    let mut session = UploadSession::new(s("alice"));
    match session.plan_file(&idx, Some("../x/y.txt"), "file_y.txt") {
        FilePlan::Write { filename, disk_path, stored_path, dir } => {
            assert!(!filename.contains('/'));
            assert_eq!(filename, "..xy.txt");
            assert_eq!(dir, "uploads/alice");
            assert_eq!(disk_path, "uploads/alice/..xy.txt");
            assert_eq!(stored_path, "uploads/alice/..xy.txt");
            session.complete_file(&mut idx, &filename, &stored_path, None, Timestamp { secs: 0, nanos: 0 });
            assert_eq!(session.failed().get("..xy.txt").map(|x| x.as_str()), Some("Failed to hash file"));
        }
        FilePlan::Skip => panic!("expected a plan"),
    }
}

#[test]
fn missing_file_name_and_bad_time() {
    let idx = init_db();
    let mut session = UploadSession::new(s("alice"));
    assert!(!session.any_processed());
    assert!(matches!(session.plan_file(&idx, None, "file_q"), FilePlan::Skip));
    assert_eq!(session.failed().get("Unknown file file_q").map(|x| x.as_str()), Some("Missing filename"));
    session.record_last_modified("q", "not a date");
    assert!(session.failed().get("q").is_some());
    session.record_no_content(None);
    assert_eq!(session.failed().get("Unknown N/A field").map(|x| x.as_str()), Some("No content found"));
}

#[test]
fn time_defaults_to_now() {
    let mut idx = init_db();
    let mut session = UploadSession::new(s("u"));
    session.complete_file(&mut idx, "f", "uploads/u/f", Some(s("h")), Timestamp { secs: 77, nanos: 0 });
    let rows = get_file(&idx, &s("uploads/u/f"), &s("u"));
    assert_eq!(rows[0].last_modified(), Timestamp { secs: 77, nanos: 0 });
    session.complete_file(&mut idx, "f", "uploads/u/f", Some(s("h")), Timestamp { secs: 78, nanos: 0 });
    assert_eq!(session.failed().get("f").map(|x| x.as_str()), Some("row already exists"));
}

#[test]
fn field_kinds() {
    assert!(matches!(classify_field("last_modified_a.txt"), FieldKind::LastModified(ref f) if f == "a.txt"));
    assert!(matches!(classify_field("path_a.txt"), FieldKind::Path(ref f) if f == "a.txt"));
    assert!(matches!(classify_field("file_a.txt"), FieldKind::File));
    assert!(matches!(classify_field("other"), FieldKind::Other));
}

#[test]
fn listing_and_metadata_are_relative() {
    let mut idx = init_db();
    upload_one(&mut idx, "alice", "a.txt", "docs");
    let listed = list_files(&idx, &s("alice"));
    assert_eq!(listed.len(), 1);
    assert_eq!(listed[0].path(), "docs/a.txt");
    let found = file_metadata(&idx, &s("alice"), &FileRequest::new(Some(s("docs/a.txt"))));
    assert_eq!(found.ok().map(|r| r.path().to_string()), Some(s("docs/a.txt")));
    let missing = file_metadata(&idx, &s("alice"), &FileRequest::new(Some(s("nope"))));
    assert!(matches!(missing, Err(ref e) if e.code == 404));
    let no_path = file_metadata(&idx, &s("alice"), &FileRequest::new(None));
    assert!(matches!(no_path, Err(ref e) if e.code == 400));
}

#[test]
fn delete_requests() {
    let mut idx = init_db();
    upload_one(&mut idx, "alice", "a.txt", "docs");
    let target = delete_target(&s("alice"), &FileRequest::new(Some(s("docs/a.txt")))).ok().unwrap();
    assert_eq!(target, "uploads/alice/docs/a.txt");
    assert!(check_file_delete(&idx, &s("alice"), &target).is_ok());
    assert!(matches!(check_file_delete(&idx, &s("bob"), &target), Err(ref e) if e.code == 404));
    assert!(matches!(delete_target(&s("alice"), &FileRequest::new(None)), Err(ref e) if e.code == 400));
}

#[test]
fn envelopes() {
    let ok = okay_response();
    assert_eq!((ok.code, ok.status.as_str()), (200, "OK"));
    let cases = [
        (internal_server_error(s("e")), 500, "INTERNAL_SERVER_ERROR"),
        (not_found_error(s("e")), 404, "NOT_FOUND"),
        (bad_request_error(s("e")), 400, "BAD_REQUEST"),
        (conflict_error(s("e")), 409, "CONFLICT"),
        (authorization_error(s("e")), 401, "UNAUTHORIZED"),
    ];
    for (r, code, status) in cases {
        assert_eq!(r.code, code);
        assert_eq!(r.status, status);
        assert!(matches!(r.body, ResponseBody::Error(ref m) if m == "e"));
    }
}

#[test]
fn credentials_of_requests() {
    let both = AuthRequest { username: Some(s("u")), password: Some(s("p")) };
    assert!(matches!(extract_user_info(&both), Ok((ref u, ref p)) if u == "u" && p == "p"));
    let no_user = AuthRequest { username: None, password: Some(s("p")) };
    assert!(matches!(extract_user_info(&no_user), Err(AuthError::UsernameNotFound)));
    let no_pw = AuthRequest { username: Some(s("u")), password: None };
    assert!(matches!(extract_user_info(&no_pw), Err(AuthError::PasswordNotFound)));
    assert_eq!(AuthError::IncorrectPassword.message(), "Incorrect password");
    assert_eq!(AuthError::Other(s("x")).message(), "Other error x");
    assert_eq!(DbError::Custom(s("x")).message(), "custom error x");
}

#[test]
fn token_lifetimes() {
    let a = access_claims(s("u"), 1000).unwrap();
    assert_eq!((a.sub.as_str(), a.exp), ("u", 1900));
    let r = refresh_claims(s("u"), 1000).unwrap();
    assert_eq!(r.exp, 1000 + 7 * 24 * 3600);
    assert!(access_claims(s("u"), usize::MAX - 10).is_none());
}

fn phc_of(password: &str) -> String {
    let salt = argon2::password_hash::SaltString::from_b64("c2FsdHNhbHRzYWx0").unwrap();
    argon2::Argon2::default().hash_password(password.as_bytes(), &salt).unwrap().to_string()
}

#[test]
fn password_checks() {
    let phc = phc_of("secret");
    assert!(filesync::auth::check_password(&s("secret"), &phc));
    assert!(!filesync::auth::check_password(&s("wrong"), &phc));
    assert!(!filesync::auth::check_password(&s("secret"), &s("")));
    assert!(!filesync::auth::check_password(&s("secret"), &s("not a phc string")));
}

#[test]
fn login_and_registration_decisions() {
    let stored = password_hash_for(&s("pw")).ok().unwrap();
    assert!(filesync::auth::check_password(&s("pw"), &stored));
    let users = vec![UserRow::new(s("u"), stored)];
    assert!(login_check(&users, &s("pw")).is_ok());
    assert!(matches!(login_check(&users, &s("nope")), Err(ref e) if e.code == 401 && e.status == "UNAUTHORIZED"));
    assert!(matches!(login_check(&vec![], &s("pw")), Err(ref e) if e.code == 404));
    let broken = vec![UserRow::new(s("u"), s("garbage"))];
    assert!(matches!(login_check(&broken, &s("pw")), Err(ref e) if e.code == 500));
    assert!(matches!(register_check(&users), Err(ref e) if e.code == 409));
    assert!(register_check(&vec![]).is_ok());
    assert!(require_user(&users).is_ok());
    assert!(matches!(require_user(&vec![]), Err(ref e) if e.code == 404));
}

#[test]
fn declared_path_is_trimmed() {
    let mut idx = init_db();
    let session = upload_one(&mut idx, "alice", "a.txt", "  docs\n");
    assert!(session.failed().is_empty());
    assert_eq!(get_file(&idx, &s("uploads/alice/docs/a.txt"), &s("alice")).len(), 1);
}

#[test]
fn requests_cannot_leave_the_user_directory() {
    let idx = init_db();
    for p in ["/etc", "../bob/a.txt", "docs/../../x", ".."] {
        let d = delete_target(&s("alice"), &FileRequest::new(Some(s(p))));
        assert!(matches!(d, Err(ref e) if e.code == 400), "{}", p);
        let m = file_metadata(&idx, &s("alice"), &FileRequest::new(Some(s(p))));
        assert!(matches!(m, Err(ref e) if e.code == 400), "{}", p);
    }
    let d = delete_target(&s(".."), &FileRequest::new(Some(s("x"))));
    assert!(matches!(d, Err(ref e) if e.code == 400));
    let ok = delete_target(&s("alice"), &FileRequest::new(Some(s("docs/a.txt")))).ok().unwrap();
    assert!(ok.starts_with("uploads/alice/"));
}
