//! Keys of the buffer registry, one type per arena.

use vstd::prelude::*;

verus! {

/// Key of one physical buffer.
#[derive(Clone, Copy, Debug, PartialEq, Eq, Hash, Structural)]
pub struct BufferKey(pub u64);

/// Key of a list of buffers, one per frame slot.
#[derive(Clone, Copy, Debug, PartialEq, Eq, Hash, Structural)]
pub struct LogicalBufferKey(pub u64);

} // verus!
