//! Errors of the substitution engine.
//!
//! `ParamNotFound` carries the half-open `[start, end)` span of the
//! offending placeholder within the parsed text, so a caller can underline
//! it in a diagnostic. `PipeUndefined` names an unregistered pipe; the
//! engine itself skips unknown pipes silently (see
//! [`super::apply_pipes`]), so this error is kept for callers that choose
//! to surface the stricter policy.

use vstd::prelude::*;

verus! {

/// An internal (non-I/O) substitution failure.
#[derive(Debug)]
pub enum InternalError {
    ParamNotFound(ParamNotFound),
    PipeNotFound(PipeUndefined),
}

/// A placeholder named a variable with no binding; `[start, end)` spans the
/// whole placeholder, markers included.
#[derive(Debug)]
pub struct ParamNotFound {
    pub start: usize,
    pub end: usize,
}

/// A placeholder named a pipe absent from the registry.
#[derive(Debug)]
pub struct PipeUndefined {
    pub pipename: String,
    pub slice: (usize, usize),
}

impl PipeUndefined {
    pub fn new(pipename: String, slice: (usize, usize)) -> (r: Self)
        ensures
            r.pipename == pipename,
            r.slice == slice,
    {
        PipeUndefined { pipename, slice }
    }
}

} // verus!
