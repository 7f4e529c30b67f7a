//! Variable binding and attachment.

use cco::bindings::Bindings;
use cco::commands::{generate, generate2};
use cco::traits::append::Append;

#[test]
fn generate_should_attach_variables() {
    let mut files_variables = Bindings::new();
    files_variables.insert("namespace".to_owned(), "app".to_owned());
    let cli_variables = vec![];
    let output_name = "foo".to_owned();

    generate::attatch_variables(&mut files_variables, cli_variables, output_name);
    assert_eq!(files_variables.get("namespace").unwrap(), "app");
    assert_eq!(files_variables.get("name").unwrap(), "foo");
}

#[test]
fn generate2_should_attach_variables() {
    let mut files_variables = Bindings::new();
    files_variables.insert("namespace".to_owned(), "app".to_owned());
    let cli_variables = vec![];
    let output_name = "foo".to_owned();

    generate2::attatch_variables(&mut files_variables, cli_variables, output_name);
    assert_eq!(files_variables.get("namespace").unwrap(), "app");
    assert_eq!(files_variables.get("name").unwrap(), "foo");
}

#[test]
fn attach_keeps_existing_output_key() {
    // A binding under the output segment's own key blocks the implicit
    // `name` binding.
    let mut vars = Bindings::new();
    vars.insert("foo".to_owned(), "kept".to_owned());
    generate::attatch_variables(&mut vars, vec![], "foo".to_owned());
    assert!(vars.get("name").is_none());
    assert_eq!(vars.get("foo").unwrap(), "kept");
}

#[test]
fn attach_cli_overrides_win() {
    let mut vars = Bindings::new();
    vars.insert("namespace".to_owned(), "app".to_owned());
    let cli = vec![
        ("namespace".to_owned(), "cli".to_owned()),
        ("extra".to_owned(), "1".to_owned()),
    ];
    generate::attatch_variables(&mut vars, cli, "out".to_owned());
    assert_eq!(vars.get("namespace").unwrap(), "cli");
    assert_eq!(vars.get("extra").unwrap(), "1");
    assert_eq!(vars.get("name").unwrap(), "out");
}

#[test]
fn bindings_insert_get_contains() {
    let mut vars = Bindings::new();
    assert!(!vars.contains_key("a"));
    vars.insert("a".to_owned(), "1".to_owned());
    vars.insert("b".to_owned(), "2".to_owned());
    vars.insert("a".to_owned(), "3".to_owned());
    assert!(vars.contains_key("a"));
    assert_eq!(vars.get("a").unwrap(), "3");
    assert_eq!(vars.get("b").unwrap(), "2");
    assert!(vars.get("c").is_none());
}

#[test]
fn bindings_append_prefers_appended() {
    let mut left = Bindings::new();
    left.insert("a".to_owned(), "1".to_owned());
    left.insert("b".to_owned(), "2".to_owned());
    let mut right = Bindings::new();
    right.insert("b".to_owned(), "9".to_owned());
    right.insert("c".to_owned(), "3".to_owned());
    left.append(right);
    assert_eq!(left.get("a").unwrap(), "1");
    assert_eq!(left.get("b").unwrap(), "9");
    assert_eq!(left.get("c").unwrap(), "3");
}
