use vstd::prelude::*;

verus! {

/// Keeps the float traits closed: only the policies and representations of
/// this crate implement them.
pub trait Sealed {
}

} // verus!
