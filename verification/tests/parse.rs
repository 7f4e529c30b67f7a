//! The substitution engine and the scanner.

use cco::bindings::Bindings;
use cco::template::parse::{
    apply_pipes, parse, DefaultTemplateParse, ParamsBrowser, _parse,
};
use cco::template::pipes::PipesMap;

fn one_binding(key: &str, value: &str) -> Bindings {
    let mut vars = Bindings::new();
    vars.insert(key.to_owned(), value.to_owned());
    vars
}

#[test]
fn literal_text_is_identity() {
    let vars = Bindings::new();
    assert_eq!(parse("no markers here", &vars).unwrap(), "no markers here");
    assert_eq!(parse("", &vars).unwrap(), "");
    assert_eq!(parse("half {( open", &vars).unwrap(), "half {( open");
    assert_eq!(parse(")} close then {( open", &vars).unwrap(), ")} close then {( open");
}

#[test]
fn bound_variable_substitutes() {
    let vars = one_binding("name", "v");
    assert_eq!(parse("{(name)}", &vars).unwrap(), "v");
    assert_eq!(parse("Hello {(name)}!", &vars).unwrap(), "Hello v!");
}

#[test]
fn several_placeholders_in_order() {
    let mut vars = Bindings::new();
    vars.insert("a".to_owned(), "1".to_owned());
    vars.insert("b".to_owned(), "2".to_owned());
    assert_eq!(parse("{(a)}-{(b)}-{(a)}", &vars).unwrap(), "1-2-1");
}

#[test]
fn unbound_variable_error_spans_markers() {
    let vars = Bindings::new();
    let err = parse("{(name)}", &vars).unwrap_err();
    assert_eq!(err.start, 0);
    assert_eq!(err.end, 8);

    let err = parse("ab {(x)} cd", &vars).unwrap_err();
    assert_eq!(err.start, 3);
    assert_eq!(err.end, 8);
}

#[test]
fn pipe_chain_applies() {
    let vars = one_binding("name", "ann");
    assert_eq!(parse("{(name|capitalize_once)}", &vars).unwrap(), "Ann");
}

#[test]
fn pipe_chain_is_sequential() {
    let vars = one_binding("name", "foo-bar");
    assert_eq!(parse("{(name|capitalize_all|capitalize_once)}", &vars).unwrap(), "FooBar");
}

#[test]
fn unknown_pipe_is_skipped() {
    let vars = one_binding("name", "ann");
    assert_eq!(parse("{(name|nope)}", &vars).unwrap(), "ann");
    assert_eq!(parse("{(name|nope|capitalize_once)}", &vars).unwrap(), "Ann");
}

#[test]
fn most_recent_open_marker_wins() {
    // An open marker inside an unterminated placeholder discards the
    // earlier open marker: only `{(b)}` is a placeholder.
    let vars = one_binding("b", "B");
    assert_eq!(parse("{(a{(b)}", &vars).unwrap(), "{(aB");
}

#[test]
fn dangling_open_marker_is_literal() {
    let vars = one_binding("a", "A");
    assert_eq!(parse("{(a)} and {(tail", &vars).unwrap(), "A and {(tail");
}

#[test]
fn empty_name_is_a_placeholder() {
    let vars = one_binding("", "E");
    assert_eq!(parse("{()}", &vars).unwrap(), "E");
}

#[test]
fn scanner_yields_spans_in_order() {
    let mut browser = ParamsBrowser::new("x{(a)}y{(bc)}");
    let first = browser.next().unwrap();
    assert_eq!(first.name, "a");
    assert_eq!(first.start, 1);
    assert_eq!(first.end, 6);
    let second = browser.next().unwrap();
    assert_eq!(second.name, "bc");
    assert_eq!(second.start, 7);
    assert_eq!(second.end, 13);
    assert!(browser.next().is_none());
}

#[test]
fn parser_with_vars_substitutes() {
    let vars = one_binding("namespace", "app");
    let parser = DefaultTemplateParse::with_vars(vars);
    assert_eq!(parser.parse("use {(namespace)};").unwrap(), "use app;");
}

#[test]
fn underscore_parse_uses_given_registry() {
    let vars = one_binding("name", "ann");
    let empty_registry = PipesMap::new();
    // With no pipes registered, every pipe name is unknown and skipped.
    assert_eq!(_parse("{(name|capitalize_once)}", &vars, &empty_registry).unwrap(), "ann");
}

#[test]
fn apply_pipes_runs_chain() {
    let pipes = PipesMap::with_defaults();
    let names = vec!["capitalize_once".to_owned()];
    assert_eq!(apply_pipes("ann", &names, &pipes), "Ann");
    let none: Vec<String> = vec![];
    assert_eq!(apply_pipes("ann", &none, &pipes), "ann");
}

#[test]
fn simple_parse_resolves_whole_name() {
    // The plain variant looks the whole name up, pipes included, and
    // keeps literal text around the placeholder.
    let vars = one_binding("a|capitalize_once", "v");
    assert_eq!(cco::template::parse("x {(a|capitalize_once)} y", &vars).unwrap(), "x v y");
    assert!(cco::template::parse("{(missing)}", &vars).is_err());
}
