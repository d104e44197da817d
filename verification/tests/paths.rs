use host_bridge::paths::{is_absolute, join, needs_separator, SEPARATOR};
use std::path::Path;

fn std_join(base: &str, name: &str) -> String {
    Path::new(base).join(name).to_string_lossy().into_owned()
}

#[test]
fn separator_is_a_slash() {
    assert_eq!(SEPARATOR, '/');
}

#[test]
fn absolute_paths_start_with_a_separator() {
    assert!(is_absolute("/"));
    assert!(is_absolute("/usr/lib"));
    assert!(!is_absolute(""));
    assert!(!is_absolute("usr/lib"));
    assert!(!is_absolute(".ssh"));
    assert!(!is_absolute("a/"));
}

#[test]
fn separator_is_needed_after_an_open_end() {
    assert!(needs_separator("/tmp/fakehome"));
    assert!(needs_separator("a"));
    assert!(!needs_separator(""));
    assert!(!needs_separator("/"));
    assert!(!needs_separator("/tmp/fakehome/"));
}

#[test]
fn join_puts_one_separator_between() {
    assert_eq!(join("/tmp/fakehome", ".ssh"), "/tmp/fakehome/.ssh");
    assert_eq!(join("/tmp/fakehome/.ssh", "id_rsa"), "/tmp/fakehome/.ssh/id_rsa");
    assert_eq!(join("a", "b"), "a/b");
}

#[test]
fn join_adds_no_separator_after_a_closed_end() {
    assert_eq!(join("/tmp/fakehome/", ".ssh"), "/tmp/fakehome/.ssh");
    assert_eq!(join("/", ".ssh"), "/.ssh");
}

#[test]
fn join_onto_the_empty_path_gives_the_name() {
    assert_eq!(join("", ".ssh"), ".ssh");
    assert_eq!(join("", ""), "");
}

#[test]
fn join_with_an_empty_name_closes_the_base() {
    assert_eq!(join("a", ""), "a/");
    assert_eq!(join("a/", ""), "a/");
}

#[test]
fn join_with_an_absolute_name_gives_the_name() {
    assert_eq!(join("/tmp/fakehome", "/etc/passwd"), "/etc/passwd");
    assert_eq!(join("", "/"), "/");
}

#[test]
fn join_counts_characters_not_bytes() {
    assert_eq!(join("/home/zoë", ".ssh"), "/home/zoë/.ssh");
    assert_eq!(join("/home/日本", "鍵"), "/home/日本/鍵");
    assert!(needs_separator("é"));
}

#[test]
fn join_agrees_with_the_standard_library() {
    let bases = ["", "/", "a", "a/", "/tmp/fakehome", "/tmp/fakehome/", "rel/dir", "/home/zoë", "//", "a//"];
    let names = ["", ".ssh", "id_rsa", "remote-worker-linux-x64", "x/y", "/abs", "/", "é"];
    for base in bases {
        for name in names {
            assert_eq!(join(base, name), std_join(base, name), "base {:?}, name {:?}", base, name);
        }
    }
}
