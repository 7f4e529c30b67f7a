//! Configuration merging.

use cco::bindings::Bindings;
use cco::config::toml_config::error::TomlConfigError;
use cco::config::toml_config::{ConfigCandidate, PartialTomlConfig, TomlConfig};

fn candidate(path: &str, config: Option<PartialTomlConfig>) -> ConfigCandidate {
    ConfigCandidate { path: path.to_owned(), config }
}

#[test]
fn reads_correctly() {
    // Two readable configuration files: the later one overrides the
    // variables, the earlier one supplies the templates path.
    let mut foo_vars = Bindings::new();
    foo_vars.insert("namespace".to_owned(), "bar".to_owned());
    let mut bar_vars = Bindings::new();
    bar_vars.insert("namespace".to_owned(), "foo".to_owned());

    let candidates = vec![
        candidate(
            "./tests/mock-config/foo/.codecrc.toml",
            Some(PartialTomlConfig {
                templates_path: Some("./templates".to_owned()),
                variables: Some(foo_vars),
            }),
        ),
        candidate(
            "./tests/mock-config/bar/.codecrc.toml",
            Some(PartialTomlConfig { templates_path: None, variables: Some(bar_vars) }),
        ),
    ];

    let config = TomlConfig::try_new(candidates).unwrap();
    assert_eq!(config.templates_path, "./templates");
    assert_eq!(config.variables.get("namespace").unwrap(), "foo");
}

#[test]
fn unreadable_candidates_report_not_found() {
    let candidates = vec![candidate("./a/.codecrc.toml", None), candidate(
        "./b/.codecrc.toml",
        None,
    )];
    let error = TomlConfig::try_new(candidates).unwrap_err();
    match error {
        TomlConfigError::NotFoundIn(not_found) => {
            assert_eq!(not_found.0.len(), 2);
            assert_eq!(not_found.0[0], "./a/.codecrc.toml");
            assert_eq!(
                not_found.message(),
                "Toml config not found in:\n./a/.codecrc.toml or\n./b/.codecrc.toml"
            );
        }
        other => panic!("expected NotFoundIn, got {other:?}"),
    }
}

#[test]
fn missing_templates_path_is_reported() {
    let candidates = vec![candidate(
        "./a/.codecrc.toml",
        Some(PartialTomlConfig { templates_path: None, variables: None }),
    )];
    let error = TomlConfig::try_new(candidates).unwrap_err();
    assert!(matches!(error, TomlConfigError::MissingField(f) if f == "templates_path"));
}

#[test]
fn try_from_defaults_variables() {
    let config = TomlConfig::try_from(PartialTomlConfig {
        templates_path: Some("./t".to_owned()),
        variables: None,
    })
    .unwrap();
    assert_eq!(config.templates_path, "./t");
    assert!(config.variables.get("anything").is_none());
}
