//! Snapshot of a CoreML `MLKey`.

use vstd::prelude::*;

verus! {

/// Snapshot of an `MLKey`: a name and an optional scope.
#[derive(Debug, Clone, PartialEq, Eq, PartialOrd, Ord)]
pub struct MLKey {
    /// Key name.
    pub name: String,
    /// Optional scoped suffix.
    pub scope: Option<String>,
}

impl MLKey {
    /// A key with the given name and scope.
    pub fn new(name: String, scope: Option<String>) -> (key: Self)
        ensures
            key.name == name,
            key.scope == scope,
    {
        MLKey { name, scope }
    }
}

} // verus!
