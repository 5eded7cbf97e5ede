//! Keys of the image registry, one type per arena.

use vstd::prelude::*;

verus! {

/// Key of one physical image.
#[derive(Clone, Copy, Debug, PartialEq, Eq, Hash, Structural)]
pub struct ImageKey(pub u64);

/// Key of one physical image view.
#[derive(Clone, Copy, Debug, PartialEq, Eq, Hash, Structural)]
pub struct ImageViewKey(pub u64);

/// Key of a list of images, one per frame slot or presentation image.
#[derive(Clone, Copy, Debug, PartialEq, Eq, Hash, Structural)]
pub struct LogicalImageKey(pub u64);

/// Key of a list of image views, one per frame slot or presentation image.
#[derive(Clone, Copy, Debug, PartialEq, Eq, Hash, Structural)]
pub struct LogicalImageViewKey(pub u64);

} // verus!
