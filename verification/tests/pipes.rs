//! The built-in pipes and the registry.

use cco::template::pipes::{apply_pipe, capitalize_all, capitalize_once, Pipe, PipesMap};

#[test]
fn capitalize_once_empty() {
    assert_eq!(capitalize_once(""), "");
}

#[test]
fn capitalize_once_lowercase() {
    assert_eq!(capitalize_once("abc"), "Abc");
}

#[test]
fn capitalize_once_already_capitalized() {
    assert_eq!(capitalize_once("Abc"), "Abc");
}

#[test]
fn capitalize_all_drops_separators() {
    assert_eq!(capitalize_all("foo-bar", '-'), "FooBar");
}

#[test]
fn capitalize_all_single_segment() {
    assert_eq!(capitalize_all("foo", '-'), "Foo");
}

#[test]
fn capitalize_all_empty_segments() {
    assert_eq!(capitalize_all("-a--b-", '-'), "AB");
}

#[test]
fn registry_default_lookup() {
    let pipes = PipesMap::with_defaults();
    assert!(matches!(pipes.get("capitalize_once"), Some(Pipe::CapitalizeOnce)));
    assert!(matches!(pipes.get("capitalize_all"), Some(Pipe::CapitalizeAll)));
    assert!(pipes.get("CAPITALIZE_ONCE").is_none());
    assert!(pipes.get("unknown").is_none());
}

#[test]
fn registry_insert_replaces() {
    let mut pipes = PipesMap::new();
    assert!(pipes.get("p").is_none());
    pipes.insert("p".to_owned(), Pipe::CapitalizeOnce);
    pipes.insert("p".to_owned(), Pipe::CapitalizeAll);
    assert!(matches!(pipes.get("p"), Some(Pipe::CapitalizeAll)));
}

#[test]
fn apply_pipe_dispatch() {
    assert_eq!(apply_pipe(Pipe::CapitalizeOnce, "one-two"), "One-two");
    assert_eq!(apply_pipe(Pipe::CapitalizeAll, "one-two"), "OneTwo");
}
