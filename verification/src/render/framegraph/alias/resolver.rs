//! Resolution: the declared aliases become physical resources of the image
//! registry, and every alias gets its composite keys.

use crate::arena::SLOT_LIMIT;
use crate::image::manager::{owned_image, owned_view};
use crate::image::{
    CompositeImageKey, CompositeImageViewKey, ImageBacking, ImageLifetime, ImageManager, ImageSpec,
};
use crate::render::framegraph::graph::ImageAlias;
use crate::vk::Handle;
use vstd::prelude::*;

use super::data::{ImageDesc, ImageKeys};
use super::registry::{
    alias_extent, create_image_view_spec, is_first_unresolvable, plan_for, planned_image, plans,
    replica_count, spec_replica_count, view_spec_of, AliasError, AliasRegistry,
    ImageResolveContext, PlannedImage,
};
use super::resolved::ResolvedRegistry;
use super::table::AliasTable;

verus! {

/// The GPU objects that were created for one planned image: the images, in
/// the order of the instances, and one view of each.
#[derive(Debug)]
pub struct ResourceBacking {
    pub images: Vec<ImageBacking>,
    pub views: Vec<Handle>,
}

/// The alias of lowest position of which `failing` holds.
pub open spec fn first_alias(failing: spec_fn(ImageAlias) -> bool) -> Option<ImageAlias> {
    if failing(ImageAlias::SwapchainImage) {
        Some(ImageAlias::SwapchainImage)
    } else if failing(ImageAlias::ForwardColor) {
        Some(ImageAlias::ForwardColor)
    } else if failing(ImageAlias::DepthBuffer) {
        Some(ImageAlias::DepthBuffer)
    } else {
        None
    }
}

/// Whether `alias` is declared and its size does not resolve.
pub open spec fn unresolvable(
    declared: Map<ImageAlias, ImageDesc>,
    ctx: ImageResolveContext,
    alias: ImageAlias,
) -> bool {
    declared.contains_key(alias) && alias_extent(declared, ctx, alias) is None
}

/// Whether `alias` is declared and the GPU objects handed in for it are
/// missing or not as many as its description asks for.
pub open spec fn mismatched(
    declared: Map<ImageAlias, ImageDesc>,
    ctx: ImageResolveContext,
    backing: Map<ImageAlias, ResourceBacking>,
    alias: ImageAlias,
) -> bool {
    declared.contains_key(alias) && !(backing.contains_key(alias) && declared[alias].lifetime
        != ImageLifetime::External && backing[alias].images@.len() == spec_replica_count(
        declared[alias].lifetime,
        ctx.frame_count,
    ) && backing[alias].views@.len() == spec_replica_count(
        declared[alias].lifetime,
        ctx.frame_count,
    ))
}

/// The number of instances still to store for `alias`.
pub open spec fn instances_needed(
    declared: Map<ImageAlias, ImageDesc>,
    ctx: ImageResolveContext,
    done: Set<ImageAlias>,
    alias: ImageAlias,
) -> nat {
    if declared.contains_key(alias) && !done.contains(alias) {
        spec_replica_count(declared[alias].lifetime, ctx.frame_count) as nat
    } else {
        0
    }
}

/// The number of lists still to store for `alias`.
pub open spec fn lists_needed(
    declared: Map<ImageAlias, ImageDesc>,
    done: Set<ImageAlias>,
    alias: ImageAlias,
) -> nat {
    if declared.contains_key(alias) && !done.contains(alias) && declared[alias].lifetime
        == ImageLifetime::PerFrame {
        1
    } else {
        0
    }
}

/// The number of instances still to store for the aliases outside `done`.
pub open spec fn all_instances_needed(
    declared: Map<ImageAlias, ImageDesc>,
    ctx: ImageResolveContext,
    done: Set<ImageAlias>,
) -> nat {
    instances_needed(declared, ctx, done, ImageAlias::SwapchainImage) + instances_needed(
        declared,
        ctx,
        done,
        ImageAlias::ForwardColor,
    ) + instances_needed(declared, ctx, done, ImageAlias::DepthBuffer)
}

/// The number of lists still to store for the aliases outside `done`.
pub open spec fn all_lists_needed(declared: Map<ImageAlias, ImageDesc>, done: Set<ImageAlias>) -> nat {
    lists_needed(declared, done, ImageAlias::SwapchainImage) + lists_needed(
        declared,
        done,
        ImageAlias::ForwardColor,
    ) + lists_needed(declared, done, ImageAlias::DepthBuffer)
}

/// Whether a registry that holds `held` images, lists of images, views and
/// lists of views has room for what the aliases outside `done` still need.
pub open spec fn has_room(
    declared: Map<ImageAlias, ImageDesc>,
    ctx: ImageResolveContext,
    done: Set<ImageAlias>,
    held: (nat, nat, nat, nat),
) -> bool {
    &&& held.0 + all_instances_needed(declared, ctx, done) <= SLOT_LIMIT
    &&& held.1 + all_lists_needed(declared, done) <= SLOT_LIMIT
    &&& held.2 + all_instances_needed(declared, ctx, done) <= SLOT_LIMIT
    &&& held.3 + all_lists_needed(declared, done) <= SLOT_LIMIT
}

/// What a registry holds, in numbers.
pub open spec fn held_by(manager: ImageManager) -> (nat, nat, nat, nat) {
    (
        manager.images().len(),
        manager.logical_images().len(),
        manager.image_views().len(),
        manager.logical_image_views().len(),
    )
}

/// What a registry that holds `held` comes to hold once the aliases outside
/// `done` have their resources: one image and one view for every instance,
/// and one list of each for every alias with an instance per frame.
pub open spec fn held_with(
    held: (nat, nat, nat, nat),
    declared: Map<ImageAlias, ImageDesc>,
    ctx: ImageResolveContext,
    done: Set<ImageAlias>,
) -> (nat, nat, nat, nat) {
    (
        held.0 + all_instances_needed(declared, ctx, done),
        held.1 + all_lists_needed(declared, done),
        held.2 + all_instances_needed(declared, ctx, done),
        held.3 + all_lists_needed(declared, done),
    )
}

/// Why a resolution is refused, if it is: a size that does not resolve
/// comes first, then GPU objects that do not match, then want of room; of
/// several aliases at fault the one of lowest position is named.
pub open spec fn resolve_error(
    declared: Map<ImageAlias, ImageDesc>,
    ctx: ImageResolveContext,
    backing: Map<ImageAlias, ResourceBacking>,
    held: (nat, nat, nat, nat),
) -> Option<AliasError> {
    match first_alias(|alias: ImageAlias| unresolvable(declared, ctx, alias)) {
        Some(alias) => Some(AliasError::UnresolvableSizeDependency(alias)),
        None => match first_alias(|alias: ImageAlias| mismatched(declared, ctx, backing, alias)) {
            Some(alias) => Some(AliasError::BackingMismatch(alias)),
            None => if has_room(declared, ctx, Set::empty(), held) {
                None
            } else {
                Some(AliasError::Exhausted)
            },
        },
    }
}

/// Whether the registry holds, behind `keys`, exactly the images of
/// `backing`, created from `spec`, and one view of each.
pub open spec fn backs(
    manager: ImageManager,
    keys: ImageKeys,
    spec: ImageSpec,
    backing: ResourceBacking,
) -> bool {
    &&& match keys.image {
        CompositeImageKey::Global(key) => {
            &&& spec.lifetime == ImageLifetime::Global
            &&& manager.images().contains_key(key.0)
            &&& manager.images()[key.0] == owned_image(spec, backing.images@[0])
        },
        CompositeImageKey::PerFrame(list) => {
            &&& spec.lifetime == ImageLifetime::PerFrame
            &&& manager.logical_images().contains_key(list.0)
            &&& !manager.logical_images()[list.0].external
            &&& manager.logical_images()[list.0].keys@.len() == backing.images@.len()
            &&& forall|r: int|
                0 <= r < backing.images@.len() ==> {
                    &&& manager.images().contains_key(
                        #[trigger] manager.logical_images()[list.0].keys@[r],
                    )
                    &&& manager.images()[manager.logical_images()[list.0].keys@[r]] == owned_image(
                        spec,
                        backing.images@[r],
                    )
                }
        },
    }
    &&& match keys.view {
        CompositeImageViewKey::Global(key) => {
            &&& keys.image is Global
            &&& manager.image_views().contains_key(key.0)
            &&& manager.image_views()[key.0] == owned_view(
                view_spec_of(keys.image, spec),
                backing.views@[0],
            )
        },
        CompositeImageViewKey::PerFrame(list) => {
            &&& keys.image is PerFrame
            &&& manager.logical_image_views().contains_key(list.0)
            &&& !manager.logical_image_views()[list.0].external
            &&& manager.logical_image_views()[list.0].keys@.len() == backing.views@.len()
            &&& forall|r: int|
                0 <= r < backing.views@.len() ==> {
                    &&& manager.image_views().contains_key(
                        #[trigger] manager.logical_image_views()[list.0].keys@[r],
                    )
                    &&& manager.image_views()[manager.logical_image_views()[list.0].keys@[r]]
                        == owned_view(view_spec_of(keys.image, spec), backing.views@[r])
                }
        },
    }
}

/// Whether `later` holds everything that `earlier` holds, unchanged, and
/// the keys that were released are the same in both.
pub open spec fn extends(earlier: ImageManager, later: ImageManager) -> bool {
    &&& forall|key: CompositeImageKey| #[trigger]
        later.retired_image(key) == earlier.retired_image(key)
    &&& forall|key: CompositeImageViewKey| #[trigger]
        later.retired_image_view(key) == earlier.retired_image_view(key)
    &&& forall|k: u64| #[trigger]
        earlier.images().contains_key(k) ==> later.images().contains_key(k) && later.images()[k]
            == earlier.images()[k]
    &&& forall|l: u64| #[trigger]
        earlier.logical_images().contains_key(l) ==> later.logical_images().contains_key(l)
            && later.logical_images()[l] == earlier.logical_images()[l]
    &&& forall|k: u64| #[trigger]
        earlier.image_views().contains_key(k) ==> later.image_views().contains_key(k)
            && later.image_views()[k] == earlier.image_views()[k]
    &&& forall|l: u64| #[trigger]
        earlier.logical_image_views().contains_key(l) ==> later.logical_image_views().contains_key(
            l,
        ) && later.logical_image_views()[l] == earlier.logical_image_views()[l]
}

/// What a registry that holds more still backs.
proof fn lemma_backs_extends(
    earlier: ImageManager,
    later: ImageManager,
    keys: ImageKeys,
    spec: ImageSpec,
    backing: ResourceBacking,
)
    requires
        backs(earlier, keys, spec, backing),
        extends(earlier, later),
    ensures
        backs(later, keys, spec, backing),
{
    if let CompositeImageKey::PerFrame(list) = keys.image {
        assert(earlier.logical_images().contains_key(list.0));
        assert forall|r: int| 0 <= r < backing.images@.len() implies {
            &&& later.images().contains_key(#[trigger] later.logical_images()[list.0].keys@[r])
            &&& later.images()[later.logical_images()[list.0].keys@[r]] == owned_image(
                spec,
                backing.images@[r],
            )
        } by {
            assert(earlier.images().contains_key(earlier.logical_images()[list.0].keys@[r]));
        }
    }
    if let CompositeImageViewKey::PerFrame(list) = keys.view {
        assert(earlier.logical_image_views().contains_key(list.0));
        assert forall|r: int| 0 <= r < backing.views@.len() implies {
            &&& later.image_views().contains_key(
                #[trigger] later.logical_image_views()[list.0].keys@[r],
            )
            &&& later.image_views()[later.logical_image_views()[list.0].keys@[r]] == owned_view(
                view_spec_of(keys.image, spec),
                backing.views@[r],
            )
        } by {
            assert(earlier.image_views().contains_key(
                earlier.logical_image_views()[list.0].keys@[r],
            ));
        }
    }
}

/// An alias that resolved to one image per frame slot resolves at exactly
/// the indices below the number of slots: at every such index, to the
/// image that was handed in for that slot, and at no other index.
pub proof fn lemma_resolved_per_frame(
    manager: ImageManager,
    keys: ImageKeys,
    spec: ImageSpec,
    backing: ResourceBacking,
    index: u32,
)
    requires
        manager.wf(),
        backs(manager, keys, spec, backing),
        spec.lifetime == ImageLifetime::PerFrame,
    ensures
        index < backing.images@.len() ==> manager.resolved_image(
            keys.image,
            crate::image::FrameIndex::Frame(index),
        ) == Some(owned_image(spec, backing.images@[index as int])),
        index >= backing.images@.len() ==> manager.resolved_image(
            keys.image,
            crate::image::FrameIndex::Frame(index),
        ) is None,
{
    if let CompositeImageKey::PerFrame(list) = keys.image {
        if index < backing.images@.len() {
            assert(manager.images().contains_key(
                manager.logical_images()[list.0].keys@[index as int],
            ));
        }
    }
}

/// What a resolution leaves behind: exactly the declared and the external
/// aliases resolve; an external alias resolves to its own keys, also where
/// it is declared as well; any other declared alias resolves to keys behind
/// which the registry holds the GPU objects handed in for it, under its
/// concrete description.
pub open spec fn resolved_as(
    declared: Map<ImageAlias, ImageDesc>,
    externals: Map<ImageAlias, ImageKeys>,
    ctx: ImageResolveContext,
    backing: Map<ImageAlias, ResourceBacking>,
    manager: ImageManager,
    images: Map<ImageAlias, CompositeImageKey>,
    views: Map<ImageAlias, CompositeImageViewKey>,
) -> bool {
    forall|alias: ImageAlias|
        {
            &&& #[trigger] images.contains_key(alias) <==> declared.contains_key(alias)
                || externals.contains_key(alias)
            &&& views.contains_key(alias) <==> images.contains_key(alias)
            &&& externals.contains_key(alias) ==> images[alias] == externals[alias].image
                && views[alias] == externals[alias].view
            &&& declared.contains_key(alias) && !externals.contains_key(alias) ==> backs(
                manager,
                ImageKeys { image: images[alias], view: views[alias] },
                planned_image(declared, ctx, alias).spec,
                backing[alias],
            )
        }
}

/// The state of a resolution under way, when the aliases in `done` have
/// their resources.
spec fn resolving(
    declared: Map<ImageAlias, ImageDesc>,
    ctx: ImageResolveContext,
    backing: Map<ImageAlias, ResourceBacking>,
    manager: ImageManager,
    images: Map<ImageAlias, CompositeImageKey>,
    views: Map<ImageAlias, CompositeImageViewKey>,
    done: Set<ImageAlias>,
) -> bool {
    &&& has_room(declared, ctx, done, held_by(manager))
    &&& forall|alias: ImageAlias| #[trigger]
        resolving_alias(declared, ctx, backing, manager, images, views, done, alias)
}

/// The part of `resolving` that is about one alias: it has its keys
/// exactly when it is in `done`, and then the registry holds its resources
/// behind them.
spec fn resolving_alias(
    declared: Map<ImageAlias, ImageDesc>,
    ctx: ImageResolveContext,
    backing: Map<ImageAlias, ResourceBacking>,
    manager: ImageManager,
    images: Map<ImageAlias, CompositeImageKey>,
    views: Map<ImageAlias, CompositeImageViewKey>,
    done: Set<ImageAlias>,
    alias: ImageAlias,
) -> bool {
    &&& images.contains_key(alias) <==> done.contains(alias)
    &&& views.contains_key(alias) <==> done.contains(alias)
    &&& done.contains(alias) ==> declared.contains_key(alias) && backs(
        manager,
        ImageKeys { image: images[alias], view: views[alias] },
        planned_image(declared, ctx, alias).spec,
        backing[alias],
    )
}

/// The numbers of instances and of lists that one image of lifetime
/// `lifetime` adds to a registry.
spec fn additions(lifetime: ImageLifetime, frame_count: u32) -> (nat, nat) {
    (
        spec_replica_count(lifetime, frame_count) as nat,
        if lifetime == ImageLifetime::PerFrame {
            1
        } else {
            0
        },
    )
}

/// What a registry holds after an image of lifetime `lifetime` has entered it.
spec fn held_after(
    held: (nat, nat, nat, nat),
    lifetime: ImageLifetime,
    frame_count: u32,
) -> (nat, nat, nat, nat) {
    (
        held.0 + additions(lifetime, frame_count).0,
        held.1 + additions(lifetime, frame_count).1,
        held.2 + additions(lifetime, frame_count).0,
        held.3 + additions(lifetime, frame_count).1,
    )
}

/// Takes the GPU objects of one planned image into the registry: the
/// images under `spec`, and one view of each.
fn store_backing(
    image_manager: &mut ImageManager,
    spec: &ImageSpec,
    frame_count: u32,
    given: &ResourceBacking,
) -> (keys: ImageKeys)
    requires
        old(image_manager).wf(),
        spec.lifetime != ImageLifetime::External,
        given.images@.len() == spec_replica_count(spec.lifetime, frame_count),
        given.views@.len() == spec_replica_count(spec.lifetime, frame_count),
        held_after(held_by(*old(image_manager)), spec.lifetime, frame_count).0 <= SLOT_LIMIT,
        held_after(held_by(*old(image_manager)), spec.lifetime, frame_count).1 <= SLOT_LIMIT,
        held_after(held_by(*old(image_manager)), spec.lifetime, frame_count).2 <= SLOT_LIMIT,
        held_after(held_by(*old(image_manager)), spec.lifetime, frame_count).3 <= SLOT_LIMIT,
    ensures
        final(image_manager).wf(),
        extends(*old(image_manager), *final(image_manager)),
        backs(*final(image_manager), keys, *spec, *given),
        held_by(*final(image_manager)) == held_after(
            held_by(*old(image_manager)),
            spec.lifetime,
            frame_count,
        ),
{
    let ghost before = *image_manager;
    let image_key = match image_manager.create_image(
        spec.clone(),
        frame_count,
        given.images.as_slice(),
    ) {
        Ok(key) => key,
        Err(_) => {
            proof {
                assert(false);
            }
            CompositeImageKey::Global(crate::image::ImageKey(0))
        },
    };
    let ghost between = *image_manager;
    proof {
        assert(extends(before, between));
    }
    let view_spec = create_image_view_spec(image_key, spec);
    let view_key = match image_manager.create_image_view(
        view_spec,
        frame_count,
        given.views.as_slice(),
    ) {
        Ok(key) => key,
        Err(_) => {
            proof {
                assert(false);
            }
            CompositeImageViewKey::Global(crate::image::ImageViewKey(0))
        },
    };
    proof {
        assert(extends(between, *image_manager));
        assert(extends(before, *image_manager));
        let keys = ImageKeys { image: image_key, view: view_key };
        match image_key {
            CompositeImageKey::Global(key) => {
                assert(between.images().contains_key(key.0));
            },
            CompositeImageKey::PerFrame(list) => {
                assert(between.logical_images().contains_key(list.0));
                assert forall|r: int| 0 <= r < given.images@.len() implies {
                    &&& image_manager.images().contains_key(
                        #[trigger] image_manager.logical_images()[list.0].keys@[r],
                    )
                    &&& image_manager.images()[image_manager.logical_images()[list.0].keys@[r]]
                        == owned_image(*spec, given.images@[r])
                } by {
                    assert(between.images().contains_key(between.logical_images()[list.0].keys@[r]));
                    assert(crate::image::manager::owned_images(*spec, given.images@)[r]
                        == owned_image(*spec, given.images@[r]));
                }
            },
        }
    }
    ImageKeys { image: image_key, view: view_key }
}

/// One more alias has its resources: the resolution under way stays sound.
proof fn lemma_resolving_step(
    declared: Map<ImageAlias, ImageDesc>,
    ctx: ImageResolveContext,
    backing: Map<ImageAlias, ResourceBacking>,
    before: ImageManager,
    after: ImageManager,
    images: Map<ImageAlias, CompositeImageKey>,
    views: Map<ImageAlias, CompositeImageViewKey>,
    done: Set<ImageAlias>,
    alias: ImageAlias,
    keys: ImageKeys,
)
    requires
        resolving(declared, ctx, backing, before, images, views, done),
        !done.contains(alias),
        declared.contains_key(alias),
        extends(before, after),
        backs(after, keys, planned_image(declared, ctx, alias).spec, backing[alias]),
        held_by(after) == held_after(held_by(before), declared[alias].lifetime, ctx.frame_count),
    ensures
        resolving(
            declared,
            ctx,
            backing,
            after,
            images.insert(alias, keys.image),
            views.insert(alias, keys.view),
            done.insert(alias),
        ),
        held_with(held_by(after), declared, ctx, done.insert(alias)) == held_with(
            held_by(before),
            declared,
            ctx,
            done,
        ),
{
    let grown = done.insert(alias);
    let new_images = images.insert(alias, keys.image);
    let new_views = views.insert(alias, keys.view);
    assert(all_instances_needed(declared, ctx, done) == all_instances_needed(declared, ctx, grown)
        + additions(declared[alias].lifetime, ctx.frame_count).0);
    assert(all_lists_needed(declared, done) == all_lists_needed(declared, grown) + additions(
        declared[alias].lifetime,
        ctx.frame_count,
    ).1);
    let held = held_by(before);
    let now = held_by(after);
    assert(now.0 == held.0 + additions(declared[alias].lifetime, ctx.frame_count).0);
    assert(now.1 == held.1 + additions(declared[alias].lifetime, ctx.frame_count).1);
    assert(now.2 == held.2 + additions(declared[alias].lifetime, ctx.frame_count).0);
    assert(now.3 == held.3 + additions(declared[alias].lifetime, ctx.frame_count).1);
    assert(has_room(declared, ctx, done, held));
    assert(has_room(declared, ctx, grown, now));
    assert forall|other: ImageAlias| #[trigger]
        resolving_alias(declared, ctx, backing, after, new_images, new_views, grown, other) by {
        assert(resolving_alias(declared, ctx, backing, before, images, views, done, other));
        if other != alias && done.contains(other) {
            lemma_backs_extends(
                before,
                after,
                ImageKeys { image: images[other], view: views[other] },
                planned_image(declared, ctx, other).spec,
                backing[other],
            );
        }
    }
}

/// The aliases that a plan holds up to position `i`, with the one at `i`.
proof fn lemma_plans_take(plan: Seq<PlannedImage>, i: int, done: Set<ImageAlias>)
    requires
        0 <= i < plan.len(),
        forall|alias: ImageAlias| done.contains(alias) <==> plans(plan.take(i), alias),
        forall|a: int, b: int|
            0 <= a < b < plan.len() ==> (#[trigger] plan[a]).alias != (#[trigger] plan[b]).alias,
    ensures
        !done.contains(plan[i].alias),
        forall|alias: ImageAlias|
            done.insert(plan[i].alias).contains(alias) <==> plans(plan.take(i + 1), alias),
{
    let shorter = plan.take(i);
    let longer = plan.take(i + 1);
    if plans(shorter, plan[i].alias) {
        let j = choose|j: int| 0 <= j < shorter.len() && (#[trigger] shorter[j]).alias == plan[i].alias;
        assert(plan[j].alias == plan[i].alias);
    }
    assert forall|alias: ImageAlias|
        done.insert(plan[i].alias).contains(alias) <==> plans(longer, alias) by {
        if plans(longer, alias) {
            let j = choose|j: int| 0 <= j < longer.len() && (#[trigger] longer[j]).alias == alias;
            if j < i {
                assert(shorter[j].alias == alias);
            }
        }
        if plans(shorter, alias) {
            let j = choose|j: int| 0 <= j < shorter.len() && (#[trigger] shorter[j]).alias == alias;
            assert(longer[j].alias == alias);
        }
        if alias == plan[i].alias {
            assert(longer[i].alias == alias);
        }
    }
}

impl AliasRegistry {
    /// Copies an external alias through into `resolved`.
    fn copy_external(&self, alias: ImageAlias, resolved: &mut ResolvedRegistry)
        ensures
            self.externals().contains_key(alias) ==> final(resolved).images@ == old(
                resolved,
            ).images@.insert(alias, self.externals()[alias].image) && final(resolved).image_views@
                == old(resolved).image_views@.insert(alias, self.externals()[alias].view),
            !self.externals().contains_key(alias) ==> final(resolved).images@ == old(
                resolved,
            ).images@ && final(resolved).image_views@ == old(resolved).image_views@,
    {
        if let Some(keys) = self.external(alias) {
            resolved.images.insert(alias, keys.image);
            resolved.image_views.insert(alias, keys.view);
        }
    }

    /// Finds the declared alias of lowest position for which the GPU
    /// objects in `backing` do not match.
    fn find_mismatch(&self, ctx: &ImageResolveContext, backing: &AliasTable<ResourceBacking>) -> (found:
        Option<ImageAlias>)
        ensures
            found == first_alias(
                |alias: ImageAlias| mismatched(self.declared(), *ctx, backing@, alias),
            ),
    {
        if self.mismatch(ctx, backing, ImageAlias::SwapchainImage) {
            Some(ImageAlias::SwapchainImage)
        } else if self.mismatch(ctx, backing, ImageAlias::ForwardColor) {
            Some(ImageAlias::ForwardColor)
        } else if self.mismatch(ctx, backing, ImageAlias::DepthBuffer) {
            Some(ImageAlias::DepthBuffer)
        } else {
            None
        }
    }

    /// Whether the GPU objects in `backing` do not match what `alias` is
    /// declared as.
    fn mismatch(
        &self,
        ctx: &ImageResolveContext,
        backing: &AliasTable<ResourceBacking>,
        alias: ImageAlias,
    ) -> (wrong: bool)
        ensures
            wrong == mismatched(self.declared(), *ctx, backing@, alias),
    {
        match self.description(alias) {
            None => false,
            Some(desc) => match backing.get(alias) {
                None => true,
                Some(given) => {
                    let count = replica_count(desc.lifetime, ctx.frame_count);
                    !(desc.lifetime != ImageLifetime::External && given.images.len()
                        == count as usize && given.views.len() == count as usize)
                },
            },
        }
    }

    /// The numbers of instances and of lists that `alias` needs.
    fn needs(&self, ctx: &ImageResolveContext, alias: ImageAlias) -> (needed: (u64, u64))
        ensures
            needed.0 == instances_needed(self.declared(), *ctx, Set::empty(), alias),
            needed.1 == lists_needed(self.declared(), Set::empty(), alias),
    {
        match self.description(alias) {
            None => (0, 0),
            Some(desc) => (
                replica_count(desc.lifetime, ctx.frame_count) as u64,
                if desc.lifetime == ImageLifetime::PerFrame {
                    1
                } else {
                    0
                },
            ),
        }
    }

    /// Whether the registry has room for what all declared aliases need.
    fn room(&self, image_manager: &ImageManager, ctx: &ImageResolveContext) -> (room: bool)
        requires
            image_manager.wf(),
        ensures
            room == has_room(self.declared(), *ctx, Set::empty(), held_by(*image_manager)),
    {
        let held = image_manager.occupancy();
        let first = self.needs(ctx, ImageAlias::SwapchainImage);
        let second = self.needs(ctx, ImageAlias::ForwardColor);
        let third = self.needs(ctx, ImageAlias::DepthBuffer);
        let instances: u64 = first.0 + second.0 + third.0;
        let lists: u64 = first.1 + second.1 + third.1;
        let limit: u64 = SLOT_LIMIT as u64;
        held.0 as u64 <= limit && instances <= limit - held.0 as u64 && held.1 as u64 <= limit
            && lists <= limit - held.1 as u64 && held.2 as u64 <= limit && instances <= limit
            - held.2 as u64 && held.3 as u64 <= limit && lists <= limit - held.3 as u64
    }

    /// Resolves every alias: the GPU objects in `backing`, which were
    /// created as `plan` lays out, one entry per declared alias, enter the
    /// image registry under the concrete description of their alias, and
    /// every declared and every external alias gets its composite keys.
    /// Nothing else enters the registry, and a resolution that is refused
    /// leaves it as it was.
    pub fn resolve(
        &self,
        image_manager: &mut ImageManager,
        ctx: &ImageResolveContext,
        backing: &AliasTable<ResourceBacking>,
    ) -> (resolved: Result<ResolvedRegistry, AliasError>)
        requires
            old(image_manager).wf(),
        ensures
            final(image_manager).wf(),
            extends(*old(image_manager), *final(image_manager)),
            match resolved {
                Ok(resolved) => {
                    &&& resolve_error(
                        self.declared(),
                        *ctx,
                        backing@,
                        held_by(*old(image_manager)),
                    ) is None
                    &&& held_by(*final(image_manager)) == held_with(
                        held_by(*old(image_manager)),
                        self.declared(),
                        *ctx,
                        Set::empty(),
                    )
                    &&& resolved_as(
                        self.declared(),
                        self.externals(),
                        *ctx,
                        backing@,
                        *final(image_manager),
                        resolved.images@,
                        resolved.image_views@,
                    )
                },
                Err(error) => {
                    &&& resolve_error(
                        self.declared(),
                        *ctx,
                        backing@,
                        held_by(*old(image_manager)),
                    ) == Some(error)
                    &&& final(image_manager).images() == old(image_manager).images()
                    &&& final(image_manager).logical_images() == old(image_manager).logical_images()
                    &&& final(image_manager).image_views() == old(image_manager).image_views()
                    &&& final(image_manager).logical_image_views() == old(
                        image_manager,
                    ).logical_image_views()
                },
            },
    {
        let ghost declared = self.declared();
        let plan = match self.plan(ctx) {
            Ok(plan) => plan,
            Err(error) => {
                proof {
                    let alias = choose|alias: ImageAlias|
                        #[trigger] is_first_unresolvable(declared, *ctx, alias) && error
                            == AliasError::UnresolvableSizeDependency(alias);
                    if alias != ImageAlias::SwapchainImage {
                        assert(!unresolvable(declared, *ctx, ImageAlias::SwapchainImage));
                    }
                    if alias == ImageAlias::DepthBuffer {
                        assert(!unresolvable(declared, *ctx, ImageAlias::ForwardColor));
                    }
                }
                return Err(error);
            },
        };
        proof {
            assert forall|alias: ImageAlias| !unresolvable(declared, *ctx, alias) by {
                if declared.contains_key(alias) {
                    assert(alias_extent(declared, *ctx, alias) is Some);
                }
            }
        }
        if let Some(alias) = self.find_mismatch(ctx, backing) {
            return Err(AliasError::BackingMismatch(alias));
        }
        if !self.room(image_manager, ctx) {
            return Err(AliasError::Exhausted);
        }
        let mut resolved = ResolvedRegistry::new();
        let ghost mut done = Set::<ImageAlias>::empty();
        let mut i: usize = 0;
        proof {
            assert(plan@.take(0) =~= Seq::<PlannedImage>::empty());
        }
        while i < plan.len()
            invariant
                0 <= i <= plan@.len(),
                declared == self.declared(),
                image_manager.wf(),
                extends(*old(image_manager), *image_manager),
                plan_for(declared, *ctx, plan@),
                forall|alias: ImageAlias| !mismatched(declared, *ctx, backing@, alias),
                forall|alias: ImageAlias| done.contains(alias) <==> plans(plan@.take(i as int), alias),
                held_with(held_by(*image_manager), declared, *ctx, done) == held_with(
                    held_by(*old(image_manager)),
                    declared,
                    *ctx,
                    Set::empty(),
                ),
                resolving(
                    declared,
                    *ctx,
                    backing@,
                    *image_manager,
                    resolved.images@,
                    resolved.image_views@,
                    done,
                ),
            decreases plan@.len() - i,
        {
            let alias = plan[i].alias;
            let ghost before = *image_manager;
            let ghost images_before = resolved.images@;
            let ghost views_before = resolved.image_views@;
            proof {
                lemma_plans_take(plan@, i as int, done);
                assert(!mismatched(declared, *ctx, backing@, alias));
                assert(plan@[i as int] == planned_image(declared, *ctx, alias));
                assert(all_instances_needed(declared, *ctx, done) >= instances_needed(
                    declared,
                    *ctx,
                    done,
                    alias,
                ));
                assert(all_lists_needed(declared, done) >= lists_needed(declared, done, alias));
            }
            let given = backing.get(alias).unwrap();
            let keys = store_backing(image_manager, &plan[i].spec, ctx.frame_count, given);
            resolved.images.insert(alias, keys.image);
            resolved.image_views.insert(alias, keys.view);
            proof {
                assert(extends(*old(image_manager), *image_manager));
                lemma_resolving_step(
                    declared,
                    *ctx,
                    backing@,
                    before,
                    *image_manager,
                    images_before,
                    views_before,
                    done,
                    alias,
                    keys,
                );
                done = done.insert(alias);
            }
            i += 1;
        }
        proof {
            assert(plan@.take(i as int) =~= plan@);
            assert forall|alias: ImageAlias| declared.contains_key(alias) implies done.contains(
                alias,
            ) by {
                assert(plans(plan@, alias));
            }
            assert(all_instances_needed(declared, *ctx, done) == 0);
            assert(all_lists_needed(declared, done) == 0);
        }
        let ghost images_declared = resolved.images@;
        let ghost views_declared = resolved.image_views@;
        self.copy_external(ImageAlias::SwapchainImage, &mut resolved);
        self.copy_external(ImageAlias::ForwardColor, &mut resolved);
        self.copy_external(ImageAlias::DepthBuffer, &mut resolved);
        proof {
            assert forall|alias: ImageAlias|
                {
                    &&& #[trigger] resolved.images@.contains_key(alias) <==> declared.contains_key(
                        alias,
                    ) || self.externals().contains_key(alias)
                    &&& resolved.image_views@.contains_key(alias) <==> resolved.images@.contains_key(
                        alias,
                    )
                    &&& self.externals().contains_key(alias) ==> resolved.images@[alias]
                        == self.externals()[alias].image && resolved.image_views@[alias]
                        == self.externals()[alias].view
                    &&& declared.contains_key(alias) && !self.externals().contains_key(alias)
                        ==> backs(
                        *image_manager,
                        ImageKeys {
                            image: resolved.images@[alias],
                            view: resolved.image_views@[alias],
                        },
                        planned_image(declared, *ctx, alias).spec,
                        backing@[alias],
                    )
                } by {
                assert(resolving_alias(
                    declared,
                    *ctx,
                    backing@,
                    *image_manager,
                    images_declared,
                    views_declared,
                    done,
                    alias,
                ));
                assert(declared.contains_key(alias) ==> plans(plan@, alias));
            }
        }
        Ok(resolved)
    }
}

} // verus!
