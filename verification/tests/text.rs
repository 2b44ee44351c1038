use std::path::Path;

use mergefox::git::Oid;
use mergefox::path_order::order_key_of;
use mergefox::path_set::PathSet;
use mergefox::paths::{
    components_of, directory_of, extension_of, file_name_of, is_path, join, plain_of, same_path,
    with_extension,
};
use mergefox::text::{
    blank, decimal, format_size, join_with, lines_of, pad_start, split_lines, take_chars,
    to_lower_ascii, trimmed,
};

#[test]
fn lines_and_sizes() {
    assert_eq!(split_lines("a\r\nb"), vec!["a\r\n".to_string(), "b".to_string()]);
    assert_eq!(lines_of("a\r\nb\n"), vec!["a".to_string(), "b".to_string()]);
    assert_eq!(decimal(0), "0");
    assert_eq!(decimal(u64::MAX), "18446744073709551615");
    assert_eq!(pad_start("7", ' ', 3), "  7");
    assert_eq!(trimmed("\u{3000} x\t"), "x");
    assert!(blank(" \u{a0}") && !blank("x"));
    assert_eq!(take_chars("äöü", 2), "äö");
    assert_eq!(to_lower_ascii("ÄB"), "Äb");
    assert_eq!(join_with(&["a".into(), "b".into()], ", "), "a, b");
    for n in [0u64, 1, 1023, 1024, 1536, 1_048_575, 1_048_576, 1_100_000, 1_153_434, 10_000_000_000, u64::MAX] {
        assert_eq!(format_size(n), size(n));
    }
}

fn size(n: u64) -> String {
    if n < 1024 {
        format!("{n} B")
    } else if n < 1024 * 1024 {
        format!("{} KB", n / 1024)
    } else {
        format!("{:.1} MB", n as f64 / (1024.0 * 1024.0))
    }
}

#[test]
fn parts_of_paths() {
    for p in ["a/b.c", "/x", "a/", "a/./", "..", "a/..", ".hid", "a/.hid.x", "", "/", "a//b.tar.gz"] {
        let path = std::path::Path::new(p);
        assert_eq!(file_name_of(p).as_deref(), path.file_name().and_then(|n| n.to_str()));
        assert_eq!(extension_of(p).as_deref(), path.extension().and_then(|n| n.to_str()));
        assert_eq!(
            std::path::PathBuf::from(with_extension(p, "new")),
            path.with_extension("new")
        );
    }
    assert_eq!(directory_of("a/b/c"), "a/b");
    assert_eq!(join("a", "b"), "a/b");
    assert_eq!(join("", "b"), "b");
}

#[test]
fn names_of_objects() {
    let mut oid = Oid { bytes: [0; 20] };
    oid.bytes[0] = 0x0f;
    oid.bytes[1] = 0xa0;
    assert_eq!(oid.short(), "0fa0000");
    assert_eq!(oid.to_hex().len(), 40);
}

#[test]
fn sets_hold_each_path_once() {
    let mut s = PathSet::new();
    s.insert("a");
    s.insert("a");
    s.insert("b");
    assert_eq!(s.len(), 2);
    s.retain(&["b".to_string()]);
    assert!(!s.contains("a") && s.contains("b"));
    s.remove("b");
    assert_eq!(s.len(), 0);
}

#[test]
fn sets_hold_paths_by_their_components() {
    let mut s = PathSet::new();
    s.insert("a//b");
    s.insert("a/./b/");
    s.insert("./a/b");
    assert_eq!(s.len(), 2);
    assert!(s.contains("a/b") && !s.contains("b"));
    s.retain(&["a/b/.".to_string()]);
    assert!(s.contains("a/b") && !s.contains("./a/b"));
    s.remove("a/b");
    assert_eq!(s.len(), 0);
}

#[test]
fn paths_are_written_by_their_components() {
    assert_eq!(components_of("/a//./b/"), vec!["/".to_string(), "a".into(), "b".into()]);
    assert_eq!(components_of("./a/.."), vec![".".to_string(), "a".into(), "..".into()]);
    assert!(components_of("").is_empty());
    assert_eq!(plain_of("//a/./b/."), "/a/b");
    assert_eq!(plain_of("/."), "/");
    assert_eq!(plain_of("././a"), "./a");
    assert!(is_path(&Some("a/b".to_string()), "a//b"));
    assert!(!is_path(&None, "a"));
}

#[test]
fn paths_go_as_those_of_the_system() {
    let all = [
        "", "/", "//", "/.", ".", "./", "..", "./.", "a", "a/", "a/.", "./a", "../a", "a/..", "a/../b",
        "a/b", "a//b", "a/./b", "a-b", "a.b", "ab", "a/b/c", "/a", "//a", "/a/b", "é", "é/a", ".a",
        "..a", "a\u{1}b", "a b",
    ];
    for a in all {
        for b in all {
            assert_eq!(same_path(a, b), Path::new(a) == Path::new(b), "{a:?} {b:?}");
            assert_eq!(
                order_key_of(a) < order_key_of(b),
                Path::new(a) < Path::new(b),
                "{a:?} {b:?}"
            );
        }
    }
}
