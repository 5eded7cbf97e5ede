//! The built-in shaders, by name.

use vstd::prelude::*;

verus! {

/// Identity of a built-in shader module.
#[derive(Debug, Clone, Copy, PartialEq, Eq, Hash, Structural)]
pub enum ShaderId {
    ForwardVert,
    ForwardFrag,
    CompositionVert,
    CompositionFrag,
}

} // verus!
