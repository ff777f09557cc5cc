use vstd::prelude::*;

verus! {

/// The person and organization a package is published under.
#[derive(Debug, Clone, PartialEq, Eq)]
pub struct Author {
    pub name: String,
    pub organization: String,
    pub email: String,
}

} // verus!
