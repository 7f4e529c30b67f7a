//! Explicitly discarding a value that would otherwise warn when unused.

use vstd::prelude::*;

verus! {

/// Deliberately does nothing with the value; reads as documentation at the
/// call site that a result is intentionally dropped.
pub trait Ignore {
    fn ignore(&self) {
    }
}

impl<T, E> Ignore for Result<T, E> {

}

impl<T> Ignore for Option<T> {

}

} // verus!
