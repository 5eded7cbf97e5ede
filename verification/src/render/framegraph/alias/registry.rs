//! The alias registry: what the passes declare, and its resolution into
//! concrete descriptions and physical resources.

use crate::image::{
    CompositeImageKey, ImageLifetime, ImageSpec, ImageViewSpec, ResizePolicy,
};
use crate::render::framegraph::graph::{
    list_aliases, listed_aliases, ImageAlias, IMAGE_ALIAS_COUNT,
};
use crate::vk::{
    Extent2D, Extent3D, Format, ImageAspectFlags, ImageLayout, ImageViewType, FORMAT_D16_UNORM,
    FORMAT_D24_UNORM_S8_UINT, FORMAT_D32_SFLOAT, FORMAT_D32_SFLOAT_S8_UINT,
    FORMAT_R16G16B16A16_SFLOAT, IMAGE_ASPECT_COLOR, IMAGE_ASPECT_DEPTH, IMAGE_ASPECT_DEPTH_STENCIL,
    IMAGE_VIEW_TYPE_2D, IMAGE_VIEW_TYPE_2D_ARRAY,
};
use vstd::prelude::*;

use super::data::{scaled_dimension, ImageDesc, ImageFormat, ImageKeys, ImageSize, Scale};
use super::table::AliasTable;

verus! {

/// Failure to declare or to resolve an alias.
#[derive(Clone, Copy, Debug, PartialEq, Eq, Structural)]
pub enum AliasError {
    /// The alias was declared before, with another description.
    ConflictingDeclaration(ImageAlias),
    /// The size of the alias hangs on the size of an alias that is not
    /// declared, or on its own.
    UnresolvableSizeDependency(ImageAlias),
    /// The GPU objects handed in for the alias do not match what its
    /// description asks for.
    BackingMismatch(ImageAlias),
    /// The resource registry has no room for the resources of the aliases.
    Exhausted,
}

/// What the resolution of logical descriptions goes by.
#[derive(Clone, Copy, Debug, PartialEq, Eq, Structural)]
pub struct ImageResolveContext {
    pub swapchain_extent: Extent2D,
    pub swapchain_format: Format,
    pub default_resize_policy: ResizePolicy,
    pub default_initial_layout: ImageLayout,
    pub frame_count: u32,
}

/// One image to create: the alias it is for, its concrete description, the
/// number of instances, and the shape of the view of each.
#[derive(Debug)]
pub struct PlannedImage {
    pub alias: ImageAlias,
    pub spec: ImageSpec,
    pub replicas: u32,
    pub view_type: ImageViewType,
    pub aspect_mask: ImageAspectFlags,
}

/// The concrete format of a logical format.
pub open spec fn concrete_format(format: ImageFormat, ctx: ImageResolveContext) -> Format {
    match format {
        ImageFormat::SwapchainColor => ctx.swapchain_format,
        ImageFormat::Depth => FORMAT_D32_SFLOAT,
        ImageFormat::HDRColor => FORMAT_R16G16B16A16_SFLOAT,
    }
}

/// An extent scaled in both dimensions.
pub open spec fn scaled_extent(base: Extent2D, scale: Scale) -> Extent2D {
    Extent2D {
        width: scaled_dimension(base.width, scale),
        height: scaled_dimension(base.height, scale),
    }
}

/// The concrete extent of a logical size, following sizes that are relative
/// to other aliases for at most `fuel` steps. A size that hangs on an alias
/// that is not declared has no extent, nor has one whose chain of
/// dependencies does not end within `fuel` steps.
pub open spec fn size_extent(
    declared: Map<ImageAlias, ImageDesc>,
    ctx: ImageResolveContext,
    size: ImageSize,
    fuel: nat,
) -> Option<Extent2D>
    decreases fuel,
{
    match size {
        ImageSize::Absolute { width, height } => Some(Extent2D { width, height }),
        ImageSize::SwapchainRelative { scale } => Some(scaled_extent(ctx.swapchain_extent, scale)),
        ImageSize::Relative(base, scale) => if fuel == 0 || !declared.contains_key(base) {
            None
        } else {
            match size_extent(declared, ctx, declared[base].size, (fuel - 1) as nat) {
                Some(extent) => Some(scaled_extent(extent, scale)),
                None => None,
            }
        },
    }
}

/// The number of aliases that a logical size hangs on, one after the other,
/// under the same limit as `size_extent`.
pub open spec fn size_rank(declared: Map<ImageAlias, ImageDesc>, size: ImageSize, fuel: nat) -> Option<
    nat,
>
    decreases fuel,
{
    match size {
        ImageSize::Absolute { .. } => Some(0),
        ImageSize::SwapchainRelative { .. } => Some(0),
        ImageSize::Relative(base, _) => if fuel == 0 || !declared.contains_key(base) {
            None
        } else {
            match size_rank(declared, declared[base].size, (fuel - 1) as nat) {
                Some(rank) => Some(rank + 1),
                None => None,
            }
        },
    }
}

/// The concrete extent of a declared alias. No chain of dependencies among
/// the aliases is longer than there are aliases, unless it runs in a circle.
pub open spec fn alias_extent(
    declared: Map<ImageAlias, ImageDesc>,
    ctx: ImageResolveContext,
    alias: ImageAlias,
) -> Option<Extent2D> {
    size_extent(declared, ctx, declared[alias].size, IMAGE_ALIAS_COUNT as nat)
}

/// The rank of a declared alias: the number of aliases its size hangs on.
pub open spec fn alias_rank(declared: Map<ImageAlias, ImageDesc>, alias: ImageAlias) -> Option<nat> {
    size_rank(declared, declared[alias].size, IMAGE_ALIAS_COUNT as nat)
}

/// A size has an extent exactly when it has a rank, and the rank is within
/// the limit.
pub proof fn lemma_rank_and_extent(
    declared: Map<ImageAlias, ImageDesc>,
    ctx: ImageResolveContext,
    size: ImageSize,
    fuel: nat,
)
    ensures
        size_extent(declared, ctx, size, fuel) is Some <==> size_rank(declared, size, fuel) is Some,
        size_rank(declared, size, fuel) matches Some(rank) ==> rank <= fuel,
    decreases fuel,
{
    if let ImageSize::Relative(base, _) = size {
        if fuel > 0 && declared.contains_key(base) {
            lemma_rank_and_extent(declared, ctx, declared[base].size, (fuel - 1) as nat);
        }
    }
}

/// What a size resolves to within some limit, it resolves to within every
/// greater limit.
pub proof fn lemma_more_fuel(
    declared: Map<ImageAlias, ImageDesc>,
    ctx: ImageResolveContext,
    size: ImageSize,
    fuel: nat,
    more: nat,
)
    requires
        fuel <= more,
        size_rank(declared, size, fuel) is Some,
    ensures
        size_rank(declared, size, more) == size_rank(declared, size, fuel),
        size_extent(declared, ctx, size, more) == size_extent(declared, ctx, size, fuel),
    decreases fuel,
{
    if let ImageSize::Relative(base, _) = size {
        lemma_more_fuel(declared, ctx, declared[base].size, (fuel - 1) as nat, (more - 1) as nat);
    }
}

/// A size that has a rank has it within as many steps as the rank says.
proof fn lemma_rank_is_fuel_enough(declared: Map<ImageAlias, ImageDesc>, size: ImageSize, fuel: nat)
    requires
        size_rank(declared, size, fuel) is Some,
    ensures
        size_rank(declared, size, size_rank(declared, size, fuel)->Some_0) == size_rank(
            declared,
            size,
            fuel,
        ),
    decreases fuel,
{
    if let ImageSize::Relative(base, _) = size {
        lemma_rank_is_fuel_enough(declared, declared[base].size, (fuel - 1) as nat);
    }
}

/// On the way from a size of rank `rank` to a size that hangs on nothing
/// lies, for every lower rank, a declared alias of that rank.
proof fn lemma_rank_witness(
    declared: Map<ImageAlias, ImageDesc>,
    ctx: ImageResolveContext,
    size: ImageSize,
    fuel: nat,
    lower: nat,
) -> (alias: ImageAlias)
    requires
        size_rank(declared, size, fuel) matches Some(rank) && lower < rank,
    ensures
        declared.contains_key(alias),
        size_rank(declared, declared[alias].size, fuel) == Some(lower),
    decreases fuel,
{
    let rank = size_rank(declared, size, fuel)->Some_0;
    match size {
        ImageSize::Relative(base, _) => {
            lemma_more_fuel(declared, ctx, declared[base].size, (fuel - 1) as nat, fuel);
            if lower + 1 == rank {
                base
            } else {
                let alias = lemma_rank_witness(
                    declared,
                    ctx,
                    declared[base].size,
                    (fuel - 1) as nat,
                    lower,
                );
                lemma_more_fuel(declared, ctx, declared[alias].size, (fuel - 1) as nat, fuel);
                alias
            }
        },
        _ => ImageAlias::SwapchainImage,
    }
}

/// To follow dependencies for as many steps as there are aliases loses
/// nothing: a size that resolves within any number of steps resolves
/// within that many, with the same rank and to the same extent. So the
/// sizes that do not resolve are those that hang on an alias that is not
/// declared or run in a circle.
pub proof fn lemma_limit_loses_nothing(
    declared: Map<ImageAlias, ImageDesc>,
    ctx: ImageResolveContext,
    size: ImageSize,
    fuel: nat,
)
    requires
        size_rank(declared, size, fuel) is Some,
    ensures
        size_rank(declared, size, IMAGE_ALIAS_COUNT as nat) == size_rank(declared, size, fuel),
        size_extent(declared, ctx, size, IMAGE_ALIAS_COUNT as nat) == size_extent(
            declared,
            ctx,
            size,
            fuel,
        ),
{
    let rank = size_rank(declared, size, fuel)->Some_0;
    if rank > IMAGE_ALIAS_COUNT {
        let a0 = lemma_rank_witness(declared, ctx, size, fuel, 0);
        let a1 = lemma_rank_witness(declared, ctx, size, fuel, 1);
        let a2 = lemma_rank_witness(declared, ctx, size, fuel, 2);
        let a3 = lemma_rank_witness(declared, ctx, size, fuel, 3);
        assert(a0 != a1 && a0 != a2 && a0 != a3 && a1 != a2 && a1 != a3 && a2 != a3);
        assert(false);
    }
    lemma_rank_is_fuel_enough(declared, size, fuel);
    lemma_rank_and_extent(declared, ctx, size, fuel);
    lemma_more_fuel(declared, ctx, size, rank, IMAGE_ALIAS_COUNT as nat);
    lemma_more_fuel(declared, ctx, size, rank, fuel);
}

/// The number of instances that a lifetime asks for.
pub open spec fn spec_replica_count(lifetime: ImageLifetime, frame_count: u32) -> u32 {
    match lifetime {
        ImageLifetime::Global => 1,
        ImageLifetime::PerFrame => frame_count,
        ImageLifetime::External => 0,
    }
}

#[verifier::when_used_as_spec(spec_replica_count)]
pub fn replica_count(lifetime: ImageLifetime, frame_count: u32) -> (count: u32)
    ensures
        count == spec_replica_count(lifetime, frame_count),
{
    match lifetime {
        ImageLifetime::Global => 1,
        ImageLifetime::PerFrame => frame_count,
        ImageLifetime::External => 0,
    }
}

/// The dimensionality of the view of an image with `layers` array layers.
pub open spec fn spec_derive_view_type(layers: u32) -> ImageViewType {
    if layers == 1 {
        IMAGE_VIEW_TYPE_2D
    } else {
        IMAGE_VIEW_TYPE_2D_ARRAY
    }
}

#[verifier::when_used_as_spec(spec_derive_view_type)]
pub fn derive_view_type(layers: u32) -> (view_type: ImageViewType)
    ensures
        view_type == spec_derive_view_type(layers),
{
    match layers {
        1 => IMAGE_VIEW_TYPE_2D,
        _ => IMAGE_VIEW_TYPE_2D_ARRAY,
    }
}

/// The aspects that a view of an image of `format` covers: depth for the
/// depth formats, depth and stencil for the combined ones, color otherwise.
pub open spec fn spec_derive_aspect_mask(format: Format) -> ImageAspectFlags {
    if format == FORMAT_D32_SFLOAT || format == FORMAT_D16_UNORM {
        IMAGE_ASPECT_DEPTH
    } else if format == FORMAT_D24_UNORM_S8_UINT || format == FORMAT_D32_SFLOAT_S8_UINT {
        IMAGE_ASPECT_DEPTH_STENCIL
    } else {
        IMAGE_ASPECT_COLOR
    }
}

#[verifier::when_used_as_spec(spec_derive_aspect_mask)]
pub fn derive_aspect_mask(format: Format) -> (aspects: ImageAspectFlags)
    ensures
        aspects == spec_derive_aspect_mask(format),
{
    if format == FORMAT_D32_SFLOAT || format == FORMAT_D16_UNORM {
        IMAGE_ASPECT_DEPTH
    } else if format == FORMAT_D24_UNORM_S8_UINT || format == FORMAT_D32_SFLOAT_S8_UINT {
        IMAGE_ASPECT_DEPTH_STENCIL
    } else {
        IMAGE_ASPECT_COLOR
    }
}

/// The concrete description of an image of the resolved extent `extent`.
pub open spec fn image_spec_of(desc: ImageDesc, ctx: ImageResolveContext, extent: Extent2D) -> ImageSpec {
    ImageSpec {
        format: concrete_format(desc.format, ctx),
        extent: Extent3D { width: extent.width, height: extent.height, depth: 1 },
        usage: desc.usage,
        mips: 1,
        layers: 1,
        samples: desc.samples,
        resize_policy: if desc.size is Absolute {
            ResizePolicy::Fixed
        } else {
            ctx.default_resize_policy
        },
        lifetime: desc.lifetime,
        initial_layout: ctx.default_initial_layout,
        debug_name: None,
    }
}

/// The description of the view of the image behind `image_key`.
pub open spec fn view_spec_of(image_key: CompositeImageKey, spec: ImageSpec) -> ImageViewSpec {
    ImageViewSpec {
        image_key,
        view_type: spec_derive_view_type(spec.layers),
        format: spec.format,
        aspect_mask: spec_derive_aspect_mask(spec.format),
        base_mip_level: 0,
        level_count: 1,
        base_array_layer: 0,
        layer_count: 1,
        debug_name: None,
    }
}

/// What is planned for a declared alias whose size resolves.
pub open spec fn planned_image(
    declared: Map<ImageAlias, ImageDesc>,
    ctx: ImageResolveContext,
    alias: ImageAlias,
) -> PlannedImage {
    let spec = image_spec_of(declared[alias], ctx, alias_extent(declared, ctx, alias)->Some_0);
    PlannedImage {
        alias,
        spec,
        replicas: spec_replica_count(declared[alias].lifetime, ctx.frame_count),
        view_type: spec_derive_view_type(spec.layers),
        aspect_mask: spec_derive_aspect_mask(spec.format),
    }
}

/// Makes a logical description concrete, for an image whose size has
/// resolved to `extent`.
pub fn create_image_spec(desc: &ImageDesc, ctx: &ImageResolveContext, extent: Extent2D) -> (spec:
    ImageSpec)
    ensures
        spec == image_spec_of(*desc, *ctx, extent),
{
    let format = match desc.format {
        ImageFormat::SwapchainColor => ctx.swapchain_format,
        ImageFormat::Depth => FORMAT_D32_SFLOAT,
        ImageFormat::HDRColor => FORMAT_R16G16B16A16_SFLOAT,
    };
    let extent = Extent3D { width: extent.width, height: extent.height, depth: 1 };
    let resize_policy = match desc.size {
        ImageSize::Absolute { .. } => ResizePolicy::Fixed,
        _ => ctx.default_resize_policy,
    };
    ImageSpec::default().format(format).extent(extent).usage(desc.usage).samples(
        desc.samples,
    ).resize_policy(resize_policy).lifetime(desc.lifetime).initial_layout(
        ctx.default_initial_layout,
    )
}

/// The description of the view of the image behind `image_key`, which was
/// created from `spec`.
pub fn create_image_view_spec(image_key: CompositeImageKey, spec: &ImageSpec) -> (view:
    ImageViewSpec)
    ensures
        view == view_spec_of(image_key, *spec),
{
    ImageViewSpec::new(image_key).view_type(derive_view_type(spec.layers)).aspect(
        derive_aspect_mask(spec.format),
    ).mip_range(0, 1).format(spec.format).layers(0, 1)
}

/// Whether `alias` is the declared alias of lowest position whose size
/// does not resolve.
pub open spec fn is_first_unresolvable(
    declared: Map<ImageAlias, ImageDesc>,
    ctx: ImageResolveContext,
    alias: ImageAlias,
) -> bool {
    &&& declared.contains_key(alias)
    &&& alias_extent(declared, ctx, alias) is None
    &&& forall|other: ImageAlias|
        declared.contains_key(other) && other.spec_index() < alias.spec_index()
            ==> #[trigger] alias_extent(declared, ctx, other) is Some
}

/// Whether the size of every declared alias resolves.
pub open spec fn all_resolvable(declared: Map<ImageAlias, ImageDesc>, ctx: ImageResolveContext) -> bool {
    forall|alias: ImageAlias|
        declared.contains_key(alias) ==> #[trigger] alias_extent(declared, ctx, alias) is Some
}

/// Whether `plan` holds `alias`.
pub open spec fn plans(plan: Seq<PlannedImage>, alias: ImageAlias) -> bool {
    exists|i: int| 0 <= i < plan.len() && (#[trigger] plan[i]).alias == alias
}

/// Whether `first` comes before `second` in a plan: aliases come by rank,
/// and aliases of one rank in the order of the aliases.
pub open spec fn planned_before(
    declared: Map<ImageAlias, ImageDesc>,
    first: ImageAlias,
    second: ImageAlias,
) -> bool {
    alias_rank(declared, second) matches Some(rank) && ranked_before(
        declared,
        first,
        rank as int,
        second.spec_index() as int,
    )
}

/// Whether `plan` is the plan for the declared aliases: it holds each of
/// them once, with its concrete description, by rank and then in the order
/// of the aliases, so that each comes after the alias that its size hangs
/// on.
pub open spec fn plan_for(
    declared: Map<ImageAlias, ImageDesc>,
    ctx: ImageResolveContext,
    plan: Seq<PlannedImage>,
) -> bool {
    &&& forall|i: int|
        0 <= i < plan.len() ==> declared.contains_key((#[trigger] plan[i]).alias) && plan[i]
            == planned_image(declared, ctx, plan[i].alias)
    &&& forall|alias: ImageAlias| declared.contains_key(alias) ==> #[trigger] plans(plan, alias)
    &&& forall|i: int, j: int|
        0 <= i < j < plan.len() ==> (#[trigger] plan[i]).alias != (#[trigger] plan[j]).alias
            && planned_before(declared, plan[i].alias, plan[j].alias)
    &&& forall|i: int|
        0 <= i < plan.len() ==> (declared[(#[trigger] plan[i]).alias].size matches ImageSize::Relative(
            base,
            _,
        ) ==> plans(plan.take(i), base))
}

/// Whether `alias` comes before the alias of rank `rank` at position
/// `position` when the aliases are ordered by rank and then by position.
pub open spec fn ranked_before(
    declared: Map<ImageAlias, ImageDesc>,
    alias: ImageAlias,
    rank: int,
    position: int,
) -> bool {
    alias_rank(declared, alias) matches Some(own) && (own < rank || (own == rank
        && alias.spec_index() < position))
}

/// Whether `plan` holds, in a sound order, exactly the declared aliases
/// that come before rank `rank`, position `position`.
spec fn plan_so_far(
    declared: Map<ImageAlias, ImageDesc>,
    ctx: ImageResolveContext,
    plan: Seq<PlannedImage>,
    rank: int,
    position: int,
) -> bool {
    &&& forall|i: int|
        0 <= i < plan.len() ==> {
            &&& declared.contains_key((#[trigger] plan[i]).alias)
            &&& plan[i] == planned_image(declared, ctx, plan[i].alias)
            &&& ranked_before(declared, plan[i].alias, rank, position)
        }
    &&& forall|alias: ImageAlias|
        declared.contains_key(alias) && ranked_before(declared, alias, rank, position)
            ==> #[trigger] plans(plan, alias)
    &&& forall|i: int, j: int|
        0 <= i < j < plan.len() ==> (#[trigger] plan[i]).alias != (#[trigger] plan[j]).alias
            && planned_before(declared, plan[i].alias, plan[j].alias)
    &&& forall|i: int|
        0 <= i < plan.len() ==> (declared[(#[trigger] plan[i]).alias].size matches ImageSize::Relative(
            base,
            _,
        ) ==> plans(plan.take(i), base))
}

/// The plan stays sound when the alias at the current rank and position
/// joins it.
proof fn lemma_plan_grows(
    declared: Map<ImageAlias, ImageDesc>,
    ctx: ImageResolveContext,
    plan: Seq<PlannedImage>,
    next: PlannedImage,
    rank: int,
    position: int,
)
    requires
        plan_so_far(declared, ctx, plan, rank, position),
        declared.contains_key(next.alias),
        next == planned_image(declared, ctx, next.alias),
        next.alias.spec_index() == position,
        alias_rank(declared, next.alias) == Some(rank as nat),
        0 <= rank,
    ensures
        plan_so_far(declared, ctx, plan.push(next), rank, position + 1),
{
    let grown = plan.push(next);
    assert(grown.take(plan.len() as int) =~= plan);
    assert forall|i: int| 0 <= i < grown.len() implies {
        &&& declared.contains_key((#[trigger] grown[i]).alias)
        &&& grown[i] == planned_image(declared, ctx, grown[i].alias)
        &&& ranked_before(declared, grown[i].alias, rank, position + 1)
    } by {
        if i < plan.len() {
            assert(grown[i] == plan[i]);
        }
    }
    assert forall|alias: ImageAlias|
        declared.contains_key(alias) && ranked_before(
            declared,
            alias,
            rank,
            position + 1,
        ) implies #[trigger] plans(grown, alias) by {
        if alias == next.alias {
            assert(grown[plan.len() as int].alias == alias);
        } else {
            assert(alias.spec_index() != position);
            assert(ranked_before(declared, alias, rank, position));
            assert(plans(plan, alias));
            let i = choose|i: int| 0 <= i < plan.len() && (#[trigger] plan[i]).alias == alias;
            assert(grown[i].alias == alias);
        }
    }
    assert forall|i: int, j: int| 0 <= i < j < grown.len() implies (#[trigger] grown[i]).alias != (
    #[trigger] grown[j]).alias && planned_before(declared, grown[i].alias, grown[j].alias) by {
        if j < plan.len() {
            assert(grown[i] == plan[i] && grown[j] == plan[j]);
        } else {
            assert(grown[i] == plan[i]);
        }
    }
    assert forall|i: int| 0 <= i < grown.len() implies (declared[(
    #[trigger] grown[i]).alias].size matches ImageSize::Relative(base, _) ==> plans(
        grown.take(i),
        base,
    )) by {
        if i < plan.len() {
            assert(grown[i] == plan[i]);
            assert(grown.take(i) =~= plan.take(i));
        } else {
            if let ImageSize::Relative(base, _) = declared[next.alias].size {
                lemma_more_fuel(
                    declared,
                    ctx,
                    declared[base].size,
                    (IMAGE_ALIAS_COUNT - 1) as nat,
                    IMAGE_ALIAS_COUNT as nat,
                );
                assert(ranked_before(declared, base, rank, position));
                assert(plans(plan, base));
            }
        }
    }
}

/// The plan stays sound when the alias at the current position does not
/// join it because it is not declared or has another rank.
proof fn lemma_plan_skips(
    declared: Map<ImageAlias, ImageDesc>,
    ctx: ImageResolveContext,
    plan: Seq<PlannedImage>,
    alias: ImageAlias,
    rank: int,
    position: int,
)
    requires
        plan_so_far(declared, ctx, plan, rank, position),
        alias.spec_index() == position,
        !declared.contains_key(alias) || alias_rank(declared, alias) != Some(rank as nat),
        0 <= rank,
    ensures
        plan_so_far(declared, ctx, plan, rank, position + 1),
{
    assert forall|other: ImageAlias|
        declared.contains_key(other) && ranked_before(
            declared,
            other,
            rank,
            position + 1,
        ) implies #[trigger] plans(plan, other) by {
        if other.spec_index() == position {
            assert(other == alias);
        }
        assert(ranked_before(declared, other, rank, position));
    }
}

/// A plan that is complete for one rank is the start of the plan for the next.
proof fn lemma_plan_next_rank(
    declared: Map<ImageAlias, ImageDesc>,
    ctx: ImageResolveContext,
    plan: Seq<PlannedImage>,
    rank: int,
)
    requires
        plan_so_far(declared, ctx, plan, rank, IMAGE_ALIAS_COUNT as int),
    ensures
        plan_so_far(declared, ctx, plan, rank + 1, 0),
{
    assert forall|alias: ImageAlias|
        declared.contains_key(alias) && ranked_before(
            declared,
            alias,
            rank + 1,
            0,
        ) implies #[trigger] plans(plan, alias) by {
        assert(ranked_before(declared, alias, rank, IMAGE_ALIAS_COUNT as int));
    }
}

/// What is declared after `alias` is declared as `desc` on top of
/// `declared`: the same as before where the alias has that description
/// already, a conflict where it has another, and the description added
/// where it has none.
pub open spec fn declared_with(
    declared: Map<ImageAlias, ImageDesc>,
    alias: ImageAlias,
    desc: ImageDesc,
) -> Result<Map<ImageAlias, ImageDesc>, AliasError> {
    if declared.contains_key(alias) && declared[alias] != desc {
        Err(AliasError::ConflictingDeclaration(alias))
    } else {
        Ok(declared.insert(alias, desc))
    }
}

/// Declaring an alias is idempotent: an alias declared once can be declared
/// again with the same description any number of times, and nothing
/// changes, so that whatever resolved before resolves as before.
pub proof fn lemma_declare_is_idempotent(
    declared: Map<ImageAlias, ImageDesc>,
    ctx: ImageResolveContext,
    alias: ImageAlias,
    desc: ImageDesc,
)
    requires
        declared_with(declared, alias, desc) is Ok,
    ensures
        declared_with(declared_with(declared, alias, desc)->Ok_0, alias, desc) == declared_with(
            declared,
            alias,
            desc,
        ),
        forall|other: ImageAlias|
            alias_extent(declared_with(declared_with(declared, alias, desc)->Ok_0, alias, desc)->Ok_0, ctx, other)
                == alias_extent(declared_with(declared, alias, desc)->Ok_0, ctx, other),
{
    let once = declared.insert(alias, desc);
    assert(once.insert(alias, desc) =~= once);
}

/// Declaring an alias with a description other than the one it has is a
/// conflict.
pub proof fn lemma_declare_conflicts(
    declared: Map<ImageAlias, ImageDesc>,
    alias: ImageAlias,
    first: ImageDesc,
    second: ImageDesc,
)
    requires
        declared_with(declared, alias, first) is Ok,
        first != second,
    ensures
        declared_with(declared_with(declared, alias, first)->Ok_0, alias, second) == Err::<
            Map<ImageAlias, ImageDesc>,
            AliasError,
        >(AliasError::ConflictingDeclaration(alias)),
{
}

/// The aliases that passes declared, each with its description, and the
/// aliases that stand for resources of a foreign owner.
#[derive(Debug)]
pub struct AliasRegistry {
    declared: AliasTable<ImageDesc>,
    externals: AliasTable<ImageKeys>,
}

impl Default for AliasRegistry {
    fn default() -> (registry: Self)
        ensures
            registry.declared() == Map::<ImageAlias, ImageDesc>::empty(),
            registry.externals() == Map::<ImageAlias, ImageKeys>::empty(),
    {
        AliasRegistry { declared: AliasTable::new(), externals: AliasTable::new() }
    }
}

impl AliasRegistry {
    /// The declared aliases, each with its description.
    pub closed spec fn declared(&self) -> Map<ImageAlias, ImageDesc> {
        self.declared@
    }

    /// The external aliases, each with its keys.
    pub closed spec fn externals(&self) -> Map<ImageAlias, ImageKeys> {
        self.externals@
    }

    /// Declares `alias` as an image of description `desc`. Declaring it
    /// again with the same description changes nothing; with another
    /// description it is refused, and changes nothing either.
    pub fn declare_image(&mut self, alias: ImageAlias, desc: ImageDesc) -> (declaration: Result<
        (),
        AliasError,
    >)
        ensures
            final(self).externals() == old(self).externals(),
            match declaration {
                Ok(()) => declared_with(old(self).declared(), alias, desc) == Ok::<
                    Map<ImageAlias, ImageDesc>,
                    AliasError,
                >(final(self).declared()),
                Err(error) => {
                    &&& declared_with(old(self).declared(), alias, desc) == Err::<
                        Map<ImageAlias, ImageDesc>,
                        AliasError,
                    >(error)
                    &&& final(self).declared() == old(self).declared()
                },
            },
    {
        match self.declared.get(alias) {
            Some(existing) => {
                if *existing != desc {
                    return Err(AliasError::ConflictingDeclaration(alias));
                }
                assert(self.declared@ =~= old(self).declared@.insert(alias, desc));
                Ok(())
            },
            None => {
                self.declared.insert(alias, desc);
                Ok(())
            },
        }
    }

    /// Makes `alias` stand for the resources of a foreign owner behind
    /// `keys`, in place of any earlier such resources.
    pub fn declare_external_image(&mut self, alias: ImageAlias, keys: ImageKeys) -> (declaration:
        Result<(), AliasError>)
        ensures
            declaration is Ok,
            final(self).declared() == old(self).declared(),
            final(self).externals() == old(self).externals().insert(alias, keys),
    {
        self.externals.insert(alias, keys);
        Ok(())
    }

    /// The description under which `alias` is declared, if it is.
    pub fn description(&self, alias: ImageAlias) -> (desc: Option<ImageDesc>)
        ensures
            desc == (if self.declared().contains_key(alias) {
                Some(self.declared()[alias])
            } else {
                None
            }),
    {
        match self.declared.get(alias) {
            Some(desc) => Some(*desc),
            None => None,
        }
    }

    /// Whether `alias` is declared or external.
    pub fn knows(&self, alias: ImageAlias) -> (known: bool)
        ensures
            known == (self.declared().contains_key(alias) || self.externals().contains_key(alias)),
    {
        self.declared.contains_key(alias) || self.externals.contains_key(alias)
    }

    /// The aliases that are declared or external.
    pub open spec fn known(&self) -> Set<ImageAlias> {
        self.declared().dom().union(self.externals().dom())
    }

    /// The aliases that are declared or external, in the order of the
    /// aliases, each once.
    pub fn aliases(&self) -> (aliases: Vec<ImageAlias>)
        ensures
            aliases@ == listed_aliases(self.known()),
    {
        list_aliases(
            [
                self.knows(ImageAlias::SwapchainImage),
                self.knows(ImageAlias::ForwardColor),
                self.knows(ImageAlias::DepthBuffer),
            ],
            Ghost(self.known()),
        )
    }

    /// The keys that `alias` stands for as an external alias, if it is one.
    pub fn external(&self, alias: ImageAlias) -> (keys: Option<ImageKeys>)
        ensures
            keys == (if self.externals().contains_key(alias) {
                Some(self.externals()[alias])
            } else {
                None
            }),
    {
        match self.externals.get(alias) {
            Some(keys) => Some(*keys),
            None => None,
        }
    }

    /// The images to create for the declared aliases, each with its concrete
    /// description, in an order in which every alias comes after the alias
    /// that its size hangs on. Where the size of a declared alias does not
    /// resolve there is no such order, and the alias of lowest position
    /// among those is reported.
    pub fn plan(&self, ctx: &ImageResolveContext) -> (plan: Result<Vec<PlannedImage>, AliasError>)
        ensures
            match plan {
                Ok(plan) => all_resolvable(self.declared(), *ctx) && plan_for(
                    self.declared(),
                    *ctx,
                    plan@,
                ),
                Err(error) => exists|alias: ImageAlias|
                    #[trigger] is_first_unresolvable(self.declared(), *ctx, alias) && error
                        == AliasError::UnresolvableSizeDependency(alias),
            },
    {
        let ghost declared = self.declared();
        let mut checked: usize = 0;
        while checked < IMAGE_ALIAS_COUNT
            invariant
                0 <= checked <= IMAGE_ALIAS_COUNT,
                declared == self.declared(),
                forall|other: ImageAlias|
                    declared.contains_key(other) && other.spec_index() < checked
                        ==> #[trigger] alias_extent(declared, *ctx, other) is Some,
            decreases IMAGE_ALIAS_COUNT - checked,
        {
            if let Some(alias) = ImageAlias::from_index(checked) {
                if let Some(desc) = self.declared.get(alias) {
                    if self.measure(ctx, desc.size, IMAGE_ALIAS_COUNT).is_none() {
                        assert(is_first_unresolvable(declared, *ctx, alias));
                        return Err(AliasError::UnresolvableSizeDependency(alias));
                    }
                }
                assert forall|other: ImageAlias|
                    declared.contains_key(other) && other.spec_index() < checked + 1
                        implies #[trigger] alias_extent(declared, *ctx, other) is Some by {
                    if other.spec_index() == checked {
                        assert(other == alias);
                    }
                }
            }
            checked += 1;
        }
        proof {
            assert forall|alias: ImageAlias| declared.contains_key(alias) implies (
            #[trigger] alias_extent(declared, *ctx, alias) is Some) && ranked_before(
                declared,
                alias,
                IMAGE_ALIAS_COUNT + 1,
                0,
            ) by {
                lemma_rank_and_extent(declared, *ctx, declared[alias].size, IMAGE_ALIAS_COUNT as nat);
            }
        }
        let mut plan: Vec<PlannedImage> = Vec::new();
        let mut rank: usize = 0;
        while rank <= IMAGE_ALIAS_COUNT
            invariant
                0 <= rank <= IMAGE_ALIAS_COUNT + 1,
                declared == self.declared(),
                all_resolvable(declared, *ctx),
                plan_so_far(declared, *ctx, plan@, rank as int, 0),
            decreases IMAGE_ALIAS_COUNT + 1 - rank,
        {
            let mut position: usize = 0;
            while position < IMAGE_ALIAS_COUNT
                invariant
                    0 <= position <= IMAGE_ALIAS_COUNT,
                    0 <= rank <= IMAGE_ALIAS_COUNT,
                    declared == self.declared(),
                    all_resolvable(declared, *ctx),
                    plan_so_far(declared, *ctx, plan@, rank as int, position as int),
                decreases IMAGE_ALIAS_COUNT - position,
            {
                let ghost before = plan@;
                if let Some(alias) = ImageAlias::from_index(position) {
                    if let Some(desc) = self.declared.get(alias) {
                        if let Some((extent, measured)) = self.measure(
                            ctx,
                            desc.size,
                            IMAGE_ALIAS_COUNT,
                        ) {
                            if measured == rank {
                                let spec = create_image_spec(desc, ctx, extent);
                                let view_type = derive_view_type(spec.layers);
                                let aspect_mask = derive_aspect_mask(spec.format);
                                plan.push(
                                    PlannedImage {
                                        alias,
                                        spec,
                                        replicas: replica_count(desc.lifetime, ctx.frame_count),
                                        view_type,
                                        aspect_mask,
                                    },
                                );
                                proof {
                                    lemma_plan_grows(
                                        declared,
                                        *ctx,
                                        before,
                                        plan@[before.len() as int],
                                        rank as int,
                                        position as int,
                                    );
                                }
                            }
                        }
                    }
                    proof {
                        if plan@ == before {
                            lemma_plan_skips(declared, *ctx, before, alias, rank as int, position as int);
                        }
                    }
                }
                position += 1;
            }
            proof {
                lemma_plan_next_rank(declared, *ctx, plan@, rank as int);
            }
            rank += 1;
        }
        proof {
            assert forall|alias: ImageAlias| declared.contains_key(alias) implies #[trigger] plans(
                plan@,
                alias,
            ) by {
                lemma_rank_and_extent(declared, *ctx, declared[alias].size, IMAGE_ALIAS_COUNT as nat);
                assert(alias_extent(declared, *ctx, alias) is Some);
                assert(ranked_before(declared, alias, IMAGE_ALIAS_COUNT + 1, 0));
            }
        }
        Ok(plan)
    }

    /// The extent and the rank of a logical size, following dependencies on
    /// other aliases for at most `fuel` steps.
    fn measure(&self, ctx: &ImageResolveContext, size: ImageSize, fuel: usize) -> (measured: Option<
        (Extent2D, usize),
    >)
        ensures
            match measured {
                Some((extent, rank)) => {
                    &&& size_extent(self.declared(), *ctx, size, fuel as nat) == Some(extent)
                    &&& size_rank(self.declared(), size, fuel as nat) == Some(rank as nat)
                },
                None => {
                    &&& size_extent(self.declared(), *ctx, size, fuel as nat) is None
                    &&& size_rank(self.declared(), size, fuel as nat) is None
                },
            },
        decreases fuel,
    {
        proof {
            lemma_rank_and_extent(self.declared(), *ctx, size, fuel as nat);
        }
        match size {
            ImageSize::Absolute { width, height } => Some((Extent2D { width, height }, 0)),
            ImageSize::SwapchainRelative { scale } => Some(
                (
                    Extent2D {
                        width: scale.apply(ctx.swapchain_extent.width),
                        height: scale.apply(ctx.swapchain_extent.height),
                    },
                    0,
                ),
            ),
            ImageSize::Relative(base, scale) => {
                if fuel == 0 {
                    return None;
                }
                let base_size = match self.declared.get(base) {
                    Some(desc) => desc.size,
                    None => {
                        return None;
                    },
                };
                proof {
                    lemma_rank_and_extent(self.declared(), *ctx, base_size, (fuel - 1) as nat);
                }
                match self.measure(ctx, base_size, fuel - 1) {
                    Some((extent, rank)) => Some(
                        (
                            Extent2D {
                                width: scale.apply(extent.width),
                                height: scale.apply(extent.height),
                            },
                            rank + 1,
                        ),
                    ),
                    None => None,
                }
            },
        }
    }
}

} // verus!
