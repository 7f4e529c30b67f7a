//! Path-string handling.

use cco::bindings::Bindings;
use cco::cli::parse_key_val;
use cco::path::{file_name, get_ext, join_path, parent_path, parse_path};

#[test]
fn get_ext_finds_last_dot() {
    assert_eq!(get_ext("archive.tar.gz").unwrap(), "gz");
    assert_eq!(get_ext("main.rs").unwrap(), "rs");
    assert_eq!(get_ext("trailing.").unwrap(), "");
    assert!(get_ext("Makefile").is_none());
}

#[test]
fn parse_path_substitutes() {
    let mut vars = Bindings::new();
    vars.insert("name".to_owned(), "item".to_owned());
    assert_eq!(parse_path("src/{(name)}.rs", &vars).unwrap(), "src/item.rs");
    assert!(parse_path("src/{(other)}.rs", &vars).is_err());
}

#[test]
fn file_name_final_segment() {
    assert_eq!(file_name("a/b/c").unwrap(), "c");
    assert_eq!(file_name("c").unwrap(), "c");
    assert_eq!(file_name("a/b/").unwrap(), "b");
    assert!(file_name("").is_none());
    assert!(file_name("/").is_none());
    assert!(file_name("..").is_none());
    assert!(file_name("a/..").is_none());
    assert!(file_name(".").is_none());
}

#[test]
fn parent_path_drops_final_segment() {
    assert_eq!(parent_path("a/b/c").unwrap(), "a/b");
    assert_eq!(parent_path("a/b/").unwrap(), "a");
    assert_eq!(parent_path("c").unwrap(), "");
    assert_eq!(parent_path("/a").unwrap(), "/");
    assert!(parent_path("").is_none());
    assert!(parent_path("///").is_none());
}

#[test]
fn join_path_inserts_separator_once() {
    assert_eq!(join_path("a", "b"), "a/b");
    assert_eq!(join_path("a/", "b"), "a/b");
    assert_eq!(join_path("", "b"), "b");
}

#[test]
fn parse_key_val_splits_at_first_equals() {
    assert_eq!(parse_key_val("k=v").unwrap(), ("k".to_owned(), "v".to_owned()));
    assert_eq!(parse_key_val("a=b=c").unwrap(), ("a".to_owned(), "b=c".to_owned()));
    assert_eq!(parse_key_val("=v").unwrap(), ("".to_owned(), "v".to_owned()));
    assert!(parse_key_val("novalue").is_none());
}
