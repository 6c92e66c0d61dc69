use filesync::errors::DbError;
use filesync::hashing::hash_content;
use filesync::index::{get_file, get_files, init_db, insert_file, remove_file, update_file, LocalIndex};
use filesync::intent::Intent;
use filesync::models::FileRow;
use filesync::remote::{build_file_form, PartBody};
use filesync::sync::{sync, WalkedFile};
use filesync::time::Timestamp;

fn s(x: &str) -> String {
    x.to_string()
}

fn ts(secs: i64) -> Timestamp {
    Timestamp { secs, nanos: 0 }
}

fn row(path: &str, hash: &str, secs: i64) -> FileRow {
    FileRow::new(s(path), s(hash), ts(secs))
}

fn walked(path: &str, content: &[u8], secs: i64) -> WalkedFile {
    WalkedFile { path: s(path), hash: Some(hash_content(content)), last_modified: ts(secs) }
}

fn uploads(intents: &[Intent]) -> Vec<String> {
    intents
        .iter()
        .filter_map(|i| match i {
            Intent::Upload(r) => Some(r.path().to_string()),
            Intent::Delete(_) => None,
        })
        .collect()
}

fn deletes(intents: &[Intent]) -> Vec<String> {
    intents
        .iter()
        .filter_map(|i| match i {
            Intent::Delete(p) => Some(p.clone()),
            Intent::Upload(_) => None,
        })
        .collect()
}

fn fresh_tree() -> Vec<WalkedFile> {
    vec![walked("/tmp/w/a.txt", b"hello", 100), walked("/tmp/w/sub/b.txt", b"world", 200)]
}

#[test]
fn insert_then_duplicate_is_refused() {
    let mut idx = init_db();
    let root = s("/tmp/w");
    assert!(insert_file(&mut idx, &row("/tmp/w/a.txt", "h1", 1), &root).is_ok());
    let again = insert_file(&mut idx, &row("/tmp/w/a.txt", "h2", 2), &root);
    assert!(matches!(again, Err(DbError::AlreadyExists)));
    let got = get_file(&idx, &s("/tmp/w/a.txt"), &root);
    assert_eq!(got.len(), 1);
    assert_eq!(got[0].hash(), "h1");
}

#[test]
fn same_path_under_two_roots() {
    let mut idx = init_db();
    assert!(insert_file(&mut idx, &row("p", "h1", 1), &s("r1")).is_ok());
    assert!(insert_file(&mut idx, &row("p", "h2", 1), &s("r2")).is_ok());
    assert_eq!(get_files(&idx, &s("r1")).len(), 1);
    assert_eq!(get_files(&idx, &s("r2")).len(), 1);
}

#[test]
fn update_and_remove() {
    let mut idx = init_db();
    let root = s("r");
    update_file(&mut idx, &row("p", "h", 1), &root);
    assert_eq!(get_file(&idx, &s("p"), &root).len(), 0);
    insert_file(&mut idx, &row("p", "h", 1), &root).unwrap();
    update_file(&mut idx, &row("p", "h2", 5), &root);
    let got = get_file(&idx, &s("p"), &root);
    assert_eq!(got[0].hash(), "h2");
    assert_eq!(got[0].last_modified(), ts(5));
    remove_file(&mut idx, &s("p"), &root);
    remove_file(&mut idx, &s("p"), &root);
    assert!(get_files(&idx, &root).is_empty());
}

#[test]
fn uniqueness_over_a_sequence_of_operations() {
    let mut idx = init_db();
    let root = s("r");
    for i in 0..5 {
        let _ = insert_file(&mut idx, &row("x", &format!("h{}", i), i), &root);
        update_file(&mut idx, &row("x", &format!("u{}", i), i), &root);
        let _ = insert_file(&mut idx, &row("y", "h", i), &root);
    }
    let rows = get_files(&idx, &root);
    assert_eq!(rows.len(), 2);
    assert_ne!(rows[0].path(), rows[1].path());
}

fn run_fresh() -> (LocalIndex, Vec<Intent>) {
    let mut idx = init_db();
    let intents = sync(&mut idx, &s("/tmp/w"), &s("/tmp/w"), &fresh_tree());
    (idx, intents)
}

#[test]
fn fresh_tree_is_indexed_and_uploaded() {
    let (idx, intents) = run_fresh();
    let rows = get_files(&idx, &s("/tmp/w"));
    assert_eq!(rows.len(), 2);
    let a = get_file(&idx, &s("/tmp/w/a.txt"), &s("/tmp/w"));
    let b = get_file(&idx, &s("/tmp/w/sub/b.txt"), &s("/tmp/w"));
    assert_eq!(a[0].hash(), blake3::hash(b"hello").to_hex().to_string());
    assert_eq!(b[0].hash(), blake3::hash(b"world").to_hex().to_string());
    assert_eq!(uploads(&intents), vec![s("/tmp/w/a.txt"), s("/tmp/w/sub/b.txt")]);
    assert!(deletes(&intents).is_empty());
    let records: Vec<FileRow> = intents
        .into_iter()
        .filter_map(|i| match i {
            Intent::Upload(r) => Some(r),
            Intent::Delete(_) => None,
        })
        .collect();
    let parts = build_file_form(&records).ok().unwrap();
    let file_parts: Vec<&str> = parts
        .iter()
        .filter(|p| matches!(p.body, PartBody::File(_)))
        .map(|p| p.name.as_str())
        .collect();
    assert_eq!(file_parts, vec!["file_a.txt", "file_b.txt"]);
    assert_eq!(parts.len(), 6);
}

#[test]
fn second_run_emits_nothing() {
    let (mut idx, _) = run_fresh();
    let again = sync(&mut idx, &s("/tmp/w"), &s("/tmp/w"), &fresh_tree());
    assert!(again.is_empty());
    assert_eq!(get_files(&idx, &s("/tmp/w")).len(), 2);
}

#[test]
fn deleted_offline_is_removed() {
    let (mut idx, _) = run_fresh();
    let tree = vec![walked("/tmp/w/a.txt", b"hello", 100)];
    let intents = sync(&mut idx, &s("/tmp/w"), &s("/tmp/w"), &tree);
    assert_eq!(deletes(&intents), vec![s("/tmp/w/sub/b.txt")]);
    assert!(uploads(&intents).is_empty());
    assert!(get_file(&idx, &s("/tmp/w/sub/b.txt"), &s("/tmp/w")).is_empty());
    let delete_url = filesync::remote::delete_url("http://h", &deletes(&intents)[0]);
    assert_eq!(delete_url, "http://h/file/delete?path=/tmp/w/sub/b.txt");
}

#[test]
fn temp_files_are_ignored_by_sync() {
    let mut idx = init_db();
    let tree = vec![walked("/tmp/w/.a.txt.swp", b"x", 1)];
    let intents = sync(&mut idx, &s("/tmp/w"), &s("/tmp/w"), &tree);
    assert!(intents.is_empty());
    assert!(get_files(&idx, &s("/tmp/w")).is_empty());
}

#[test]
fn changed_content_is_updated_and_uploaded() {
    let (mut idx, _) = run_fresh();
    let tree = vec![walked("/tmp/w/a.txt", b"hello!", 300), walked("/tmp/w/sub/b.txt", b"world", 200)];
    let intents = sync(&mut idx, &s("/tmp/w"), &s("/tmp/w"), &tree);
    assert_eq!(uploads(&intents), vec![s("/tmp/w/a.txt")]);
    let a = get_file(&idx, &s("/tmp/w/a.txt"), &s("/tmp/w"));
    assert_eq!(a[0].hash(), hash_content(b"hello!"));
    assert_eq!(a[0].last_modified(), ts(300));
}

#[test]
fn same_time_counts_as_unchanged() {
    let (mut idx, _) = run_fresh();
    let tree = vec![walked("/tmp/w/a.txt", b"other", 100), walked("/tmp/w/sub/b.txt", b"world", 999)];
    let intents = sync(&mut idx, &s("/tmp/w"), &s("/tmp/w"), &tree);
    assert!(intents.is_empty());
}

#[test]
fn unreadable_file_is_skipped_and_its_row_removed() {
    let (mut idx, _) = run_fresh();
    let tree = vec![
        walked("/tmp/w/a.txt", b"hello", 100),
        WalkedFile { path: s("/tmp/w/sub/b.txt"), hash: None, last_modified: ts(200) },
    ];
    let intents = sync(&mut idx, &s("/tmp/w"), &s("/tmp/w"), &tree);
    assert_eq!(deletes(&intents), vec![s("/tmp/w/sub/b.txt")]);
}

#[test]
fn every_indexed_path_is_on_disk_after_sync() {
    let mut idx = init_db();
    let root = s("/tmp/w");
    insert_file(&mut idx, &row("/tmp/w/gone.txt", "h", 1), &root).unwrap();
    insert_file(&mut idx, &row("/other/keep.txt", "h", 1), &s("/other")).unwrap();
    let tree = fresh_tree();
    sync(&mut idx, &root, &root, &tree);
    let on_disk = ["/tmp/w/a.txt", "/tmp/w/sub/b.txt"];
    for r in get_files(&idx, &root) {
        assert!(on_disk.contains(&r.path()));
    }
    assert_eq!(get_files(&idx, &s("/other")).len(), 1);
}

#[test]
fn supplied_root_spelling_is_the_key() {
    let mut idx = init_db();
    let tree = vec![walked("/private/tmp/w/a.txt", b"hello", 1)];
    let intents = sync(&mut idx, &s("/tmp/w"), &s("/private/tmp/w"), &tree);
    assert_eq!(uploads(&intents), vec![s("/tmp/w/a.txt")]);
}
