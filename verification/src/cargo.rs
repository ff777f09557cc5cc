use vstd::prelude::*;

verus! {

/// The operations on package manifests.
pub struct Cargo {}

} // verus!
