//! The errors that the resource registries report.

use vstd::prelude::*;

verus! {

/// Failure of a resource registry operation.
#[derive(Clone, Copy, Debug, PartialEq, Eq, Structural)]
pub enum RegistryError {
    /// A key is not in use, or an index is past the end of a replica list.
    InvalidKey,
    /// The registry has no room for the resources to store.
    Exhausted,
    /// The GPU objects handed in do not match the description in number or kind.
    BackingMismatch,
}

} // verus!
