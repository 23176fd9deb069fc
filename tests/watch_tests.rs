use canopy::paths::{extension, file_name, is_code_file, should_ignore_path};
use canopy::watch::{plan_event, stronger, ChangeKind, Debouncer, UpdateAction, WatchEvent};

#[test]
fn test_is_code_file() {
    assert!(is_code_file("test.rs"));
    assert!(is_code_file("main.ts"));
    assert!(is_code_file("app.js"));
    assert!(!is_code_file("readme.md"));
    assert!(!is_code_file("image.png"));
}

#[test]
fn code_extensions_from_the_watch_list() {
    for p in ["a.tsx", "a.jsx", "a.mjs", "a.cjs", "a.py", "a.go", "A.java", "a.c", "a.h", "a.cpp", "a.cc", "a.cxx", "a.hpp", "a.hh"] {
        assert!(is_code_file(p), "{}", p);
    }
    assert!(!is_code_file("Makefile"));
    assert!(!is_code_file(".rs"));
}

#[test]
fn extensions_and_file_names() {
    assert_eq!(extension("src/lib.rs"), Some("rs"));
    assert_eq!(extension("archive.tar.gz"), Some("gz"));
    assert_eq!(extension(".gitignore"), None);
    assert_eq!(extension("noext"), None);
    assert_eq!(file_name("a/b/c.txt"), "c.txt");
}

#[test]
fn excluded_directories_are_ignored() {
    assert!(should_ignore_path("target/debug/main.rs"));
    assert!(should_ignore_path("web/node_modules/x/index.js"));
    assert!(should_ignore_path("repo/.git/HEAD"));
    assert!(should_ignore_path(".canopy/cache.json"));
    assert!(!should_ignore_path("src/targets/main.rs"));
    assert!(!should_ignore_path("src/main.rs"));
}

#[test]
fn events_become_actions() {
    assert_eq!(plan_event(&WatchEvent::Modified("src/a.rs".to_string())), UpdateAction::Reindex("src/a.rs".to_string()));
    assert_eq!(plan_event(&WatchEvent::Created("src/a.rs".to_string())), UpdateAction::Reindex("src/a.rs".to_string()));
    assert_eq!(plan_event(&WatchEvent::Removed("src/a.rs".to_string())), UpdateAction::Remove("src/a.rs".to_string()));
    assert_eq!(plan_event(&WatchEvent::Modified("README.md".to_string())), UpdateAction::Ignore);
    assert_eq!(plan_event(&WatchEvent::Modified("target/a.rs".to_string())), UpdateAction::Ignore);
    assert_eq!(plan_event(&WatchEvent::ChangesFlushed), UpdateAction::Ignore);
}

#[test]
fn strongest_kind_wins() {
    assert_eq!(stronger(ChangeKind::Modified, ChangeKind::Removed), ChangeKind::Removed);
    assert_eq!(stronger(ChangeKind::Created, ChangeKind::Modified), ChangeKind::Created);
    assert_eq!(stronger(ChangeKind::Removed, ChangeKind::Created), ChangeKind::Removed);
}

#[test]
fn rapid_modifies_coalesce_into_one_event() {
    let mut d = Debouncer::new(100);
    d.record("a.rs".to_string(), ChangeKind::Modified, 0);
    d.record("a.rs".to_string(), ChangeKind::Modified, 30);
    d.record("a.rs".to_string(), ChangeKind::Modified, 60);
    assert!(d.flush(120).is_empty());
    let out = d.flush(160);
    assert_eq!(out, vec![WatchEvent::Modified("a.rs".to_string()), WatchEvent::ChangesFlushed]);
    assert!(d.flush(1000).is_empty());
}

#[test]
fn coalescing_keeps_the_strongest_kind() {
    let mut d = Debouncer::new(50);
    d.record("a.rs".to_string(), ChangeKind::Created, 0);
    d.record("b.rs".to_string(), ChangeKind::Modified, 10);
    d.record("a.rs".to_string(), ChangeKind::Modified, 20);
    d.record("b.rs".to_string(), ChangeKind::Removed, 100);
    let out = d.flush(80);
    assert_eq!(out, vec![WatchEvent::Created("a.rs".to_string())]);
    let out = d.flush(150);
    assert_eq!(out, vec![WatchEvent::Removed("b.rs".to_string()), WatchEvent::ChangesFlushed]);
}
