//! Merging one collection into another of the same type.

use vstd::prelude::*;

verus! {

/// A collection that can absorb another instance of itself; entries of the
/// absorbed instance win over entries already present.
pub trait Append {
    fn append(&mut self, appended: Self) where Self: core::marker::Sized;
}

} // verus!
