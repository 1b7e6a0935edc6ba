use std::path::Path;
use warthog::paths::{file_name, file_stem};
use warthog::text::{str_equals, str_starts_with};

fn std_stem(p: &str) -> Option<Vec<u8>> {
    Path::new(p).file_stem().map(|s| s.to_str().unwrap().as_bytes().to_vec())
}

fn std_name(p: &str) -> Option<Vec<u8>> {
    Path::new(p).file_name().map(|s| s.to_str().unwrap().as_bytes().to_vec())
}

const CASES: &[&str] = &[
    "/home/user/project",
    "/home/user/song.tar.gz",
    ".bashrc",
    "foo.",
    "a/b/.",
    "a/..",
    "/",
    "",
    ".",
    "..",
    "a//b//",
    "...",
    "./x.txt",
    "a/./",
    "dir/.hidden.ext",
    "/.",
    "x/../y.rs",
];

#[test]
fn file_names_match_std() {
    for c in CASES {
        assert_eq!(file_name(c.as_bytes()), std_name(c), "file name of {:?}", c);
    }
}

#[test]
fn file_stems_match_std() {
    for c in CASES {
        assert_eq!(file_stem(c.as_bytes()), std_stem(c), "file stem of {:?}", c);
    }
}

#[test]
fn file_stem_examples() {
    assert_eq!(file_stem(b"/home/user/song.tar.gz"), Some(b"song.tar".to_vec()));
    assert_eq!(file_stem(b".bashrc"), Some(b".bashrc".to_vec()));
    assert_eq!(file_stem(b"/music/Album"), Some(b"Album".to_vec()));
    assert_eq!(file_stem(b"/"), None);
    assert_eq!(file_stem(b"a/.."), None);
    assert_eq!(file_stem(&[0x2f, 0xff, 0x2e, 0x61]), Some(vec![0xff]));
}

#[test]
fn string_helpers() {
    assert!(str_equals("abc", "abc"));
    assert!(!str_equals("abc", "abd"));
    assert!(!str_equals("abc", "ab"));
    assert!(str_starts_with("/home/user/project/file", "/home/user/project"));
    assert!(str_starts_with("abc", ""));
    assert!(!str_starts_with("/home", "/home/user"));
    assert!(!str_starts_with("/home/usr", "/home/user"));
    assert!(str_starts_with("é/x", "é"));
}
