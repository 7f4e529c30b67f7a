//! Error construction and mapping.

use cco::commands::generate::error::{Error, TemplateError};
use cco::diagnostics::filename_invalid::FilenameInvalidDiagnostic;
use cco::template::parse::error::{InternalError, ParamNotFound, PipeUndefined};

#[test]
fn pipe_undefined_new_keeps_fields() {
    let err = PipeUndefined::new("shout".to_owned(), (3, 8));
    assert_eq!(err.pipename, "shout");
    assert_eq!(err.slice, (3, 8));
}

#[test]
fn from_parse_error_maps_param_not_found() {
    let inner = InternalError::ParamNotFound(ParamNotFound { start: 4, end: 15 });
    let error = Error::from_parse_error(inner, "pre {(missing)}".to_owned(), "file.txt".to_owned());
    match error {
        Error::Template(TemplateError::VariableNotFound { filename, source, span }) => {
            assert_eq!(filename, "file.txt");
            assert_eq!(source, "pre {(missing)}");
            assert_eq!(span, (4, 11));
        }
        other => panic!("expected VariableNotFound, got {other:?}"),
    }
}

#[test]
fn from_parse_error_maps_pipe_not_found() {
    let inner = InternalError::PipeNotFound(PipeUndefined::new("shout".to_owned(), (2, 9)));
    let error = Error::from_parse_error(inner, "{(a|shout)}".to_owned(), "f".to_owned());
    match error {
        Error::Template(TemplateError::PipeNotFound { pipe, filename, source, span }) => {
            assert_eq!(pipe, "shout");
            assert_eq!(filename, "f");
            assert_eq!(source, "{(a|shout)}");
            assert_eq!(span, (2, 9));
        }
        other => panic!("expected PipeNotFound, got {other:?}"),
    }
}

#[test]
fn error_constructors_carry_context() {
    let error = Error::template_not_found("tpl".to_owned(), "/templates".to_owned());
    match error {
        Error::TemplateNotFound(not_found) => {
            assert_eq!(not_found.template, "tpl");
            assert_eq!(not_found.templates_dir, "/templates");
        }
        other => panic!("expected TemplateNotFound, got {other:?}"),
    }

    let error = Error::template_invalid("tpl".to_owned(), "/templates/tpl".to_owned());
    assert!(matches!(
        error,
        Error::TemplateNotValid { template_name, templates_dir }
            if template_name == "tpl" && templates_dir == "/templates/tpl"
    ));
}

#[test]
fn filename_invalid_diagnostic_keeps_alias() {
    let diagnostic = FilenameInvalidDiagnostic::new("the output file".to_owned());
    assert_eq!(diagnostic.file_alias, "the output file");
}
