use filesync::hashing::hash_content;
use filesync::paths::{check_file_path, escapes_base, extract_filename_filepath, format_file_path, join, relative_path, to_scope_path};

fn s(x: &str) -> String {
    x.to_string()
}

#[test]
fn eligible_plain_file() {
    assert!(check_file_path(&s("/tmp/w/a.txt"), false));
}

#[test]
fn temp_markers_are_not_eligible() {
    assert!(!check_file_path(&s("/tmp/w/.a.txt.swp"), false));
    assert!(!check_file_path(&s("/tmp/w/notes~"), false));
    assert!(!check_file_path(&s("/tmp/w/build.tmp"), false));
    assert!(check_file_path(&s("/tmp/w/tmp"), false));
}

#[test]
fn directories_are_not_eligible() {
    assert!(!check_file_path(&s("/tmp/w/sub"), true));
}

#[test]
fn normalize_backslashes_and_leading_dot_slash() {
    assert_eq!(format_file_path(&s("a\\b\\c.txt")), "a/b/c.txt");
    assert_eq!(format_file_path(&s("./a/b")), "a/b");
    assert_eq!(format_file_path(&s("././a")), "a");
    assert_eq!(format_file_path(&s(".\\a")), "a");
    assert_eq!(format_file_path(&s("a/./b")), "a/./b");
    assert_eq!(format_file_path(&s("")), "");
}

#[test]
fn normalize_is_idempotent_on_samples() {
    for x in ["./.\\./x\\y", "..\\a", "a\\.\\b", "./", "."] {
        let once = format_file_path(&s(x));
        let twice = format_file_path(&once);
        assert_eq!(once, twice);
        assert!(!once.contains('\\'));
        assert!(!once.starts_with("./"));
    }
}

#[test]
fn scope_path_keeps_supplied_root() {
    let r = to_scope_path(&s("/tmp/w"), &s("/private/tmp/w"), &s("/private/tmp/w/sub/b.txt"));
    assert_eq!(r, Some(s("/tmp/w/sub/b.txt")));
    let r = to_scope_path(&s("./w"), &s("/home/u/w"), &s("/home/u/w/a.txt"));
    assert_eq!(r, Some(s("w/a.txt")));
}

#[test]
fn scope_path_outside_root_is_none() {
    assert_eq!(to_scope_path(&s("/tmp/w"), &s("/tmp/w"), &s("/tmp/wx/a.txt")), None);
    assert_eq!(to_scope_path(&s("/tmp/w"), &s("/tmp/w"), &s("/etc/passwd")), None);
}

#[test]
fn relative_and_join() {
    assert_eq!(relative_path("/a/", "/a/b"), Some(s("b")));
    assert_eq!(relative_path("/a", "/a"), Some(s("")));
    assert_eq!(join("uploads/u", "f.txt"), "uploads/u/f.txt");
    assert_eq!(join("uploads/u/", "f.txt"), "uploads/u/f.txt");
    assert_eq!(join("", "f.txt"), "f.txt");
}

#[test]
fn split_file_name_and_directory() {
    assert_eq!(extract_filename_filepath(&s("/tmp/w/sub/b.txt")), (s("b.txt"), s("/tmp/w/sub")));
    assert_eq!(extract_filename_filepath(&s("a.txt")), (s("a.txt"), s("")));
    assert_eq!(extract_filename_filepath(&s("/a.txt")), (s("a.txt"), s("")));
}

#[test]
fn unsafe_relative_paths() {
    assert!(escapes_base("../x"));
    assert!(escapes_base("a/../b"));
    assert!(escapes_base("a/.."));
    assert!(escapes_base("/abs"));
    assert!(!escapes_base("a/b"));
    assert!(!escapes_base("a..b/c"));
    assert!(!escapes_base("..."));
}

#[test]
fn hash_of_empty_input() {
    assert_eq!(hash_content(b""), "af1349b9f5f9a1a6a0404dea36dcc9499bcb25c9adc112b7cc9a93cae41f3262");
}

#[test]
fn hash_is_blake3_hex() {
    let h = hash_content(b"hello");
    assert_eq!(h, blake3::hash(b"hello").to_hex().to_string());
    assert_eq!(h.len(), 64);
    assert!(h.chars().all(|c| c.is_ascii_digit() || ('a'..='f').contains(&c)));
    assert_ne!(h, "hello");
}

#[test]
fn hash_is_stable_for_identical_bytes() {
    let a = vec![7u8; 20000];
    let b = vec![7u8; 20000];
    assert_eq!(hash_content(&a), hash_content(&b));
    assert_ne!(hash_content(b"hello"), hash_content(b"hello!"));
}

#[test]
fn eligibility_uses_the_file_name() {
    assert!(!check_file_path(&s("/tmp/w/b.swp/"), false));
    assert!(!check_file_path(&s("/tmp/w/x.tmp/."), false));
    assert!(!check_file_path(&s("/tmp/w/x~//"), false));
    assert!(check_file_path(&s("/tmp/w/a.txt/."), false));
    assert!(check_file_path(&s("/tmp/w/x.swp/.."), false));
    assert_eq!(filesync::paths::file_name(&s("/tmp/w/b.swp/./")), "b.swp");
    assert_eq!(filesync::paths::file_name(&s("/")), "");
    assert_eq!(filesync::paths::file_name(&s("./")), "");
    assert_eq!(filesync::paths::file_name(&s("a/..")), "");
    assert_eq!(filesync::paths::file_name(&s("a")), "a");
}
