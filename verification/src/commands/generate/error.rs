//! Errors of a generation run, with enough positional and path context for
//! a caller to render a precise diagnostic.

use vstd::prelude::*;

use crate::template::parse::error::InternalError;

verus! {

/// A substitution failure, carrying the text it happened in (`source`),
/// the name of where that text came from (`filename`), and the
/// placeholder's `(start, length)` span within the text.
#[derive(Debug)]
pub enum TemplateError {
    VariableNotFound { filename: String, source: String, span: (usize, usize) },
    PipeNotFound { pipe: String, filename: String, source: String, span: (usize, usize) },
}

/// The named template does not exist under the templates directory.
#[derive(Debug)]
pub struct TemplateNotFoundError {
    pub template: String,
    pub templates_dir: String,
}

/// The directory whose entries are the templates a user can choose from;
/// listing it is the caller's concern.
#[derive(Debug)]
pub struct TemplateDisplay(pub String);

impl TemplateNotFoundError {
    /// Where the available templates can be listed from.
    pub fn templates(&self) -> (r: TemplateDisplay)
        ensures
            r.0@ == self.templates_dir@,
    {
        TemplateDisplay(self.templates_dir.clone())
    }
}

/// Why a generation run aborted.
#[derive(Debug)]
pub enum Error {
    /// The output path has no resolvable final segment.
    OutputNameInvalid,
    /// Reading the named path failed.
    CouldNotRead(String),
    /// Writing the named path failed.
    CouldNotWrite(String),
    /// Opening the named path failed.
    NotOpenable(String),
    /// The template path exists but is not a directory.
    TemplateNotValid { template_name: String, templates_dir: String },
    /// A placeholder could not be substituted.
    Template(TemplateError),
    /// The template path does not exist.
    TemplateNotFound(TemplateNotFoundError),
    /// The tree walk met an entry kind it does not support (a symbolic
    /// link), which is reported rather than skipped or followed.
    UnsupportedEntryKind(String),
}

impl Error {
    /// The error for a template missing from the templates directory.
    pub fn template_not_found(name: String, templates_path: String) -> (r: Self)
        ensures
            r == Error::TemplateNotFound(
                TemplateNotFoundError { template: name, templates_dir: templates_path },
            ),
    {
        Error::TemplateNotFound(
            TemplateNotFoundError { template: name, templates_dir: templates_path },
        )
    }

    /// The error for a template path that is not a directory.
    pub fn template_invalid(template_name: String, templates_dir: String) -> (r: Self)
        ensures
            r == (Error::TemplateNotValid { template_name, templates_dir }),
    {
        Error::TemplateNotValid { template_name, templates_dir }
    }

    /// Wraps a substitution failure with the text it happened in and the
    /// name of where that text came from.
    pub fn from_parse_error(error: InternalError, content: String, filename: String) -> (r: Self)
        requires
            error matches InternalError::ParamNotFound(p) ==> p.start <= p.end,
        ensures
            match error {
                InternalError::ParamNotFound(p) => r == Error::Template(
                    TemplateError::VariableNotFound {
                        filename,
                        source: content,
                        span: (p.start, (p.end - p.start) as usize),
                    },
                ),
                InternalError::PipeNotFound(u) => r == Error::Template(
                    TemplateError::PipeNotFound {
                        pipe: u.pipename,
                        filename,
                        source: content,
                        span: u.slice,
                    },
                ),
            },
    {
        match error {
            InternalError::ParamNotFound(p) => Error::Template(
                TemplateError::VariableNotFound {
                    filename,
                    source: content,
                    span: (p.start, p.end - p.start),
                },
            ),
            InternalError::PipeNotFound(u) => Error::Template(
                TemplateError::PipeNotFound {
                    pipe: u.pipename,
                    filename,
                    source: content,
                    span: u.slice,
                },
            ),
        }
    }
}

} // verus!
