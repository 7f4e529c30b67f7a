//! The tree generator, over in-memory template trees.

use cco::bindings::Bindings;
use cco::commands::generate::{
    generate, GenerationPlan, TemplateNode, TemplateSource,
};
use cco::commands::generate::error::{Error, TemplateError};
use cco::config::toml_config::TomlConfig;
use cco::config::Config;

fn config_with(templates_path: &str, pairs: &[(&str, &str)]) -> Config {
    let mut variables = Bindings::new();
    for (k, v) in pairs {
        variables.insert((*k).to_owned(), (*v).to_owned());
    }
    Config {
        toml_config: TomlConfig { templates_path: templates_path.to_owned(), variables },
    }
}

fn file_node(name: &str, lines: &[&str]) -> TemplateNode {
    TemplateNode::File {
        name: name.to_owned(),
        lines: lines.iter().map(|l| (*l).to_owned()).collect(),
    }
}

fn run(
    cli: Vec<(String, String)>,
    template_name: &str,
    output: &str,
    config: Config,
    entries: Vec<TemplateNode>,
) -> Result<GenerationPlan, Error> {
    generate(
        cli,
        template_name.to_owned(),
        output.to_owned(),
        config,
        TemplateSource::Directory(entries),
    )
}

#[test]
fn should_generate_file() {
    let config = config_with("./files/templates/", &[("namespace", "app")]);
    let entries = vec![file_node("foo", &["{(namespace)}"])];
    let plan = run(vec![], "foo", "./files/output/bar", config, entries).unwrap();

    assert_eq!(plan.dirs.len(), 1);
    assert_eq!(plan.dirs[0], "./files/output");
    assert_eq!(plan.files.len(), 1);
    assert_eq!(plan.files[0].path, "./files/output/foo");
    assert_eq!(plan.files[0].lines, vec!["app".to_owned()]);
}

#[test]
fn should_validate_template_is_dir() {
    let config = config_with("./files/templates/", &[("namespace", "app")]);
    let error = generate(
        vec![],
        "temp2".to_owned(),
        "./files/output/bar2".to_owned(),
        config,
        TemplateSource::NotADirectory,
    )
    .unwrap_err();
    assert!(matches!(error, Error::TemplateNotValid { .. }));
}

#[test]
fn should_parse_filenames() {
    let config = config_with("./files/templates/", &[]);
    let entries = vec![file_node("{(name)}.txt", &["message"])];
    let plan = run(vec![], "filename_template", "./files/output/myoutput", config, entries)
        .unwrap();

    assert_eq!(plan.files.len(), 1);
    assert_eq!(plan.files[0].path, "./files/output/myoutput.txt");
    assert_eq!(plan.files[0].lines, vec!["message".to_owned()]);
}

#[test]
fn should_generate_recursively() {
    let config = config_with("./files/templates/", &[]);
    let entries = vec![
        file_node("{(name)}.txt", &["message"]),
        TemplateNode::Dir {
            name: "child_dir".to_owned(),
            entries: vec![file_node("{(name)}.txt", &["message"])],
        },
    ];
    let plan = run(vec![], "parent_dir", "./files/output/item1", config, entries).unwrap();

    assert_eq!(plan.dirs.len(), 2);
    assert_eq!(plan.dirs[0], "./files/output");
    assert_eq!(plan.dirs[1], "./files/output/child_dir");
    let paths = plan.file_paths();
    assert_eq!(paths.len(), 2);
    assert_eq!(paths[0], "./files/output/item1.txt");
    assert_eq!(paths[1], "./files/output/child_dir/item1.txt");
    assert_eq!(plan.files[0].lines, vec!["message".to_owned()]);
    assert_eq!(plan.files[1].lines, vec!["message".to_owned()]);
}

#[test]
fn missing_template_reports_not_found() {
    let config = config_with("./files/templates/", &[]);
    let error = generate(
        vec![],
        "absent".to_owned(),
        "./files/output/x".to_owned(),
        config,
        TemplateSource::Missing,
    )
    .unwrap_err();
    match error {
        Error::TemplateNotFound(not_found) => {
            assert_eq!(not_found.template, "absent");
            assert_eq!(not_found.templates_dir, "./files/templates/");
            assert_eq!(not_found.templates().0, "./files/templates/");
        }
        other => panic!("expected TemplateNotFound, got {other:?}"),
    }
}

#[test]
fn invalid_output_name_is_rejected() {
    let config = config_with("./files/templates/", &[]);
    let error = generate(
        vec![],
        "foo".to_owned(),
        "..".to_owned(),
        config,
        TemplateSource::Directory(vec![]),
    )
    .unwrap_err();
    assert!(matches!(error, Error::OutputNameInvalid));
}

#[test]
fn symlink_entry_is_unsupported() {
    let config = config_with("./files/templates/", &[]);
    let entries = vec![TemplateNode::Symlink { name: "link".to_owned() }];
    let error = run(vec![], "tpl", "./out/x", config, entries).unwrap_err();
    match error {
        Error::UnsupportedEntryKind(path) => assert_eq!(path, "./files/templates/tpl/link"),
        other => panic!("expected UnsupportedEntryKind, got {other:?}"),
    }
}

#[test]
fn unbound_variable_in_line_aborts() {
    let config = config_with("./tpl/", &[]);
    let entries = vec![
        file_node("ok.txt", &["fine"]),
        file_node("bad.txt", &["pre {(missing)} post"]),
        file_node("never.txt", &["unreached"]),
    ];
    let error = run(vec![], "t", "./out/item", config, entries).unwrap_err();
    match error {
        Error::Template(TemplateError::VariableNotFound { filename, source, span }) => {
            assert_eq!(filename, "./tpl/t/bad.txt");
            assert_eq!(source, "pre {(missing)} post");
            assert_eq!(span, (4, 11));
        }
        other => panic!("expected VariableNotFound, got {other:?}"),
    }
}

#[test]
fn unbound_variable_in_filename_aborts() {
    let config = config_with("./tpl/", &[]);
    let entries = vec![file_node("{(missing)}.txt", &[])];
    let error = run(vec![], "t", "./out/item", config, entries).unwrap_err();
    match error {
        Error::Template(TemplateError::VariableNotFound { filename, source, span }) => {
            assert_eq!(filename, "{(missing)}.txt");
            assert_eq!(source, "{(missing)}.txt");
            assert_eq!(span, (0, 11));
        }
        other => panic!("expected VariableNotFound, got {other:?}"),
    }
}

#[test]
fn generation_is_deterministic() {
    // Two runs over identical inputs plan byte-identical output.
    let mk = || {
        let config = config_with("./files/templates/", &[("namespace", "app")]);
        let entries = vec![
            file_node("{(name)}.rs", &["mod {(namespace)};", "literal"]),
            TemplateNode::Dir {
                name: "{(namespace)}_dir".to_owned(),
                entries: vec![file_node("inner", &["{(name)}"])],
            },
        ];
        (config, entries)
    };
    let (c1, e1) = mk();
    let (c2, e2) = mk();
    let p1 = run(vec![], "t", "./out/item", c1, e1).unwrap();
    let p2 = run(vec![], "t", "./out/item", c2, e2).unwrap();
    assert_eq!(p1.dirs, p2.dirs);
    assert_eq!(p1.file_paths(), p2.file_paths());
    for (f1, f2) in p1.files.iter().zip(p2.files.iter()) {
        assert_eq!(f1.lines, f2.lines);
    }
}

#[test]
fn template_without_placeholders_round_trips() {
    // Content with no marker pairs is reproduced byte-for-byte.
    let config = config_with("./tpl/", &[]);
    let lines = ["fn main() {", "    println!(\"hi\");", "}", "", "# half {( marker"];
    let entries = vec![file_node("plain.rs", &lines)];
    let plan = run(vec![], "t", "./out/item", config, entries).unwrap();
    let expected: Vec<String> = lines.iter().map(|l| (*l).to_owned()).collect();
    assert_eq!(plan.files[0].lines, expected);
    assert_eq!(plan.files[0].path, "./out/plain.rs");
}
