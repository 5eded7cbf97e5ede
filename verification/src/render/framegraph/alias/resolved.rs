//! What the aliases of one graph build resolve to.

use crate::image::{CompositeImageKey, CompositeImageViewKey};
use crate::render::framegraph::graph::{list_aliases, listed_aliases, ImageAlias};
use vstd::prelude::*;

use super::table::AliasTable;

verus! {

/// The composite keys of every alias of one graph build: one key for the
/// image and one for its view. Valid until the graph is built anew.
#[derive(Debug)]
pub struct ResolvedRegistry {
    pub images: AliasTable<CompositeImageKey>,
    pub image_views: AliasTable<CompositeImageViewKey>,
}

impl ResolvedRegistry {
    /// A registry in which no alias resolves.
    pub fn new() -> (registry: Self)
        ensures
            registry.images@ == Map::<ImageAlias, CompositeImageKey>::empty(),
            registry.image_views@ == Map::<ImageAlias, CompositeImageViewKey>::empty(),
    {
        ResolvedRegistry { images: AliasTable::new(), image_views: AliasTable::new() }
    }

    /// The aliases whose image resolves, in the order of the aliases, each
    /// once.
    pub fn aliases(&self) -> (aliases: Vec<ImageAlias>)
        ensures
            aliases@ == listed_aliases(self.images@.dom()),
    {
        list_aliases(
            [
                self.images.contains_key(ImageAlias::SwapchainImage),
                self.images.contains_key(ImageAlias::ForwardColor),
                self.images.contains_key(ImageAlias::DepthBuffer),
            ],
            Ghost(self.images@.dom()),
        )
    }
}

} // verus!
