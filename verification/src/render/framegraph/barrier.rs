//! The barrier plan: for every access of every pass, the state transition
//! that the accessed image undergoes before it.

use std::collections::HashMap;

use crate::image::{CompositeImageKey, FrameIndex, ImageManager};
use crate::render::framegraph::alias::{AliasTable, ResolvedRegistry};
use crate::render::framegraph::graph::{
    barrier_target, batch_upto, marked_upto, GraphError, GraphFirstUse, ImageAlias,
    ImageTransition, PhysicalImageInstance, PhysicalImageKey,
};
use crate::render::framegraph::image::{FrameIndexKind, ImageAccess, ImageIndexing};
use crate::render::framegraph::layouts::{color_range, spec_color_range};
use crate::render::framegraph::layouts::ImageState;
use crate::render::framegraph::pass::{
    accesses_of, precursors_of, ImageBarrierPrecursor, RenderPass,
};
use crate::vk::ImageSubresourceRange;
use vstd::prelude::*;
use vstd::std_specs::hash::*;

verus! {

/// One state transition of one image, as the plan records it.
#[derive(Clone, Copy, Debug, PartialEq, Eq, Structural)]
pub struct ImageBarrierDesc {
    pub alias: ImageAlias,
    pub indexing: ImageIndexing,
    pub old_state: ImageState,
    pub new_state: ImageState,
    pub subresource_range: ImageSubresourceRange,
}

/// The state in which an alias is taken to be before any pass has used it:
/// ready for presentation for the presentation image; for every other, an
/// undefined layout with no stage or access to wait for.
pub open spec fn baseline_state(alias: ImageAlias) -> ImageState {
    if alias == ImageAlias::SwapchainImage {
        ImageState::spec_presentation_ready()
    } else {
        ImageState::spec_unused()
    }
}

/// The state in which `accesses`, made in order, leave `alias`: that of the
/// last access to it, or its baseline where there is none.
pub open spec fn tracked_state(accesses: Seq<ImageAccess>, alias: ImageAlias) -> ImageState
    decreases accesses.len(),
{
    if accesses.len() == 0 {
        baseline_state(alias)
    } else if accesses.last().alias == alias {
        accesses.last().usage.state
    } else {
        tracked_state(accesses.drop_last(), alias)
    }
}

/// The transition that brings an image from `previous` into the state that
/// `access` asks for.
pub open spec fn barrier_desc(previous: ImageState, access: ImageAccess) -> ImageBarrierDesc {
    ImageBarrierDesc {
        alias: access.alias,
        indexing: access.indexing,
        old_state: previous,
        new_state: access.usage.state,
        subresource_range: access.usage.spec_subresource_range(),
    }
}

/// The transitions of one pass that makes `accesses` after the accesses
/// `before` of the passes ahead of it: one per access, in order.
pub open spec fn pass_barriers(before: Seq<ImageAccess>, accesses: Seq<ImageAccess>) -> Seq<
    ImageBarrierDesc,
> {
    Seq::new(
        accesses.len(),
        |r: int| barrier_desc(tracked_state(before + accesses.take(r), accesses[r].alias), accesses[r]),
    )
}

/// The accesses of the first `n` passes, in the order of the passes and,
/// within a pass, of its requirements.
pub open spec fn accesses_before<P: RenderPass>(passes: Seq<P>, n: int) -> Seq<ImageAccess>
    decreases n,
{
    if n <= 0 {
        Seq::empty()
    } else {
        accesses_before(passes, n - 1) + accesses_of(passes[n - 1].requirements())
    }
}

/// The transitions that the first `n` passes store under the pass identity
/// `id`: those of each pass with that identity, in the order of the passes.
pub open spec fn compiled<P: RenderPass>(passes: Seq<P>, n: int, id: u32) -> Seq<ImageBarrierDesc>
    decreases n,
{
    if n <= 0 {
        Seq::empty()
    } else if passes[n - 1].pass_id() == id {
        compiled(passes, n - 1, id) + pass_barriers(
            accesses_before(passes, n - 1),
            accesses_of(passes[n - 1].requirements()),
        )
    } else {
        compiled(passes, n - 1, id)
    }
}

/// Whether the access at position `i` is the first to name an alias that is
/// not among `known`.
pub open spec fn is_first_unknown(accesses: Seq<ImageAccess>, known: Seq<ImageAlias>, i: int) -> bool {
    &&& 0 <= i < accesses.len()
    &&& !known.contains(accesses[i].alias)
    &&& forall|j: int| 0 <= j < i ==> known.contains(#[trigger] accesses[j].alias)
}

/// Whether every access names an alias among `known`.
pub open spec fn all_known(accesses: Seq<ImageAccess>, known: Seq<ImageAlias>) -> bool {
    forall|j: int| 0 <= j < accesses.len() ==> known.contains(#[trigger] accesses[j].alias)
}

/// Whether `table` holds, for exactly the aliases among `known`, the state
/// in which `accesses` leave them.
pub open spec fn table_tracks(
    table: Map<ImageAlias, ImageState>,
    known: Seq<ImageAlias>,
    accesses: Seq<ImageAccess>,
) -> bool {
    forall|alias: ImageAlias|
        (#[trigger] table.contains_key(alias) <==> known.contains(alias)) && (table.contains_key(
            alias,
        ) ==> table[alias] == tracked_state(accesses, alias))
}

/// One more access changes the tracked state of the alias it names, and of
/// no other.
proof fn lemma_tracked_state_push(accesses: Seq<ImageAccess>, access: ImageAccess, alias: ImageAlias)
    ensures
        tracked_state(accesses.push(access), alias) == if access.alias == alias {
            access.usage.state
        } else {
            tracked_state(accesses, alias)
        },
{
    assert(accesses.push(access).drop_last() =~= accesses);
    assert(accesses.push(access).last() == access);
}

/// Accesses leave an alias in the state of the last of them that names it.
pub proof fn lemma_tracked_state_is_last_use(accesses: Seq<ImageAccess>, alias: ImageAlias, j: int)
    requires
        0 <= j < accesses.len(),
        accesses[j].alias == alias,
        forall|k: int| j < k < accesses.len() ==> (#[trigger] accesses[k]).alias != alias,
    ensures
        tracked_state(accesses, alias) == accesses[j].usage.state,
    decreases accesses.len(),
{
    if j < accesses.len() - 1 {
        assert(accesses.last() == accesses[accesses.len() - 1]);
        let shorter = accesses.drop_last();
        assert(shorter[j] == accesses[j]);
        assert forall|k: int| j < k < shorter.len() implies (#[trigger] shorter[k]).alias != alias by {
            assert(shorter[k] == accesses[k]);
        }
        lemma_tracked_state_is_last_use(shorter, alias, j);
    }
}

/// Accesses that do not name an alias leave it in its baseline state.
pub proof fn lemma_tracked_state_untouched(accesses: Seq<ImageAccess>, alias: ImageAlias)
    requires
        forall|k: int| 0 <= k < accesses.len() ==> (#[trigger] accesses[k]).alias != alias,
    ensures
        tracked_state(accesses, alias) == baseline_state(alias),
    decreases accesses.len(),
{
    if accesses.len() > 0 {
        assert(accesses.last() == accesses[accesses.len() - 1]);
        let shorter = accesses.drop_last();
        assert forall|k: int| 0 <= k < shorter.len() implies (#[trigger] shorter[k]).alias
            != alias by {
            assert(shorter[k] == accesses[k]);
        }
        lemma_tracked_state_untouched(shorter, alias);
    }
}

/// The transition before an access starts from the state that the last
/// access to the same alias ahead of it asked for, in whichever pass that
/// was, and not from the alias's baseline.
pub proof fn lemma_barrier_follows_previous_use(
    before: Seq<ImageAccess>,
    accesses: Seq<ImageAccess>,
    r: int,
    j: int,
)
    requires
        0 <= r < accesses.len(),
        0 <= j < before.len() + r,
        (before + accesses)[j].alias == accesses[r].alias,
        forall|k: int|
            j < k < before.len() + r ==> (#[trigger] (before + accesses)[k]).alias
                != accesses[r].alias,
    ensures
        pass_barriers(before, accesses)[r].old_state == (before + accesses)[j].usage.state,
{
    let ahead = before + accesses.take(r);
    assert(ahead[j] == (before + accesses)[j]);
    assert forall|k: int| j < k < ahead.len() implies (#[trigger] ahead[k]).alias
        != accesses[r].alias by {
        assert(ahead[k] == (before + accesses)[k]);
    }
    lemma_tracked_state_is_last_use(ahead, accesses[r].alias, j);
}

/// Of two passes that run one after the other and both require an alias,
/// the second finds it in the state that the first asked for: where the
/// requirement at `first` of the first pass is its last on the alias and
/// the requirement at `second` of the second pass is its first on it, the
/// transition before the second starts from the state of the first.
pub proof fn lemma_second_pass_sees_first<P: RenderPass>(passes: Seq<P>, first: int, second: int)
    requires
        passes.len() == 2,
        0 <= first < passes[0].requirements().len(),
        0 <= second < passes[1].requirements().len(),
        passes[0].requirements()[first].access.alias == passes[1].requirements()[second].access.alias,
        forall|k: int|
            first < k < passes[0].requirements().len() ==> (#[trigger] passes[0].requirements()[k]).access.alias
                != passes[0].requirements()[first].access.alias,
        forall|k: int|
            0 <= k < second ==> (#[trigger] passes[1].requirements()[k]).access.alias
                != passes[1].requirements()[second].access.alias,
    ensures
        pass_barriers(accesses_before(passes, 1), accesses_of(passes[1].requirements()))[second].old_state
            == passes[0].requirements()[first].access.usage.state,
{
    let before = accesses_before(passes, 1);
    let accesses = accesses_of(passes[1].requirements());
    assert(accesses_before(passes, 0) =~= Seq::<ImageAccess>::empty());
    assert(before =~= accesses_of(passes[0].requirements()));
    assert((before + accesses)[first] == before[first]);
    assert forall|k: int| first < k < before.len() + second implies (#[trigger] (before
        + accesses)[k]).alias != accesses[second].alias by {
        if k < before.len() {
            assert((before + accesses)[k] == passes[0].requirements()[k].access);
        } else {
            assert((before + accesses)[k] == passes[1].requirements()[k - before.len()].access);
        }
    }
    lemma_barrier_follows_previous_use(before, accesses, second, first);
}

/// Passes of other identities store nothing under an identity.
proof fn lemma_compiled_of_no_pass<P: RenderPass>(passes: Seq<P>, m: int, id: u32)
    requires
        0 <= m <= passes.len(),
        forall|j: int| 0 <= j < m ==> (#[trigger] passes[j]).pass_id() != id,
    ensures
        compiled(passes, m, id) == Seq::<ImageBarrierDesc>::empty(),
    decreases m,
{
    if m > 0 {
        lemma_compiled_of_no_pass(passes, m - 1, id);
    }
}

/// The plan holds exactly one transition per requirement, in the declared
/// order: under the identity of a pass that shares it with no other pass
/// stand the transitions of that pass, one per requirement.
pub proof fn lemma_one_transition_per_requirement<P: RenderPass>(passes: Seq<P>, n: int, m: int)
    requires
        0 <= n < m <= passes.len(),
        forall|j: int|
            0 <= j < m && j != n ==> (#[trigger] passes[j]).pass_id() != passes[n].pass_id(),
    ensures
        compiled(passes, m, passes[n].pass_id()) == pass_barriers(
            accesses_before(passes, n),
            accesses_of(passes[n].requirements()),
        ),
        compiled(passes, m, passes[n].pass_id()).len() == passes[n].requirements().len(),
    decreases m,
{
    let id = passes[n].pass_id();
    if m - 1 == n {
        lemma_compiled_of_no_pass(passes, n, id);
        assert(compiled(passes, m, id) =~= pass_barriers(
            accesses_before(passes, n),
            accesses_of(passes[n].requirements()),
        ));
    } else {
        lemma_one_transition_per_requirement(passes, n, m - 1);
    }
}

/// The accesses of the first `n` passes begin the accesses of the first `m`.
proof fn lemma_accesses_prefix<P: RenderPass>(passes: Seq<P>, n: int, m: int)
    requires
        0 <= n <= m,
    ensures
        accesses_before(passes, n).len() <= accesses_before(passes, m).len(),
        accesses_before(passes, m).take(accesses_before(passes, n).len() as int) == accesses_before(
            passes,
            n,
        ),
    decreases m - n,
{
    if n == m {
        assert(accesses_before(passes, m).take(accesses_before(passes, n).len() as int)
            =~= accesses_before(passes, n));
    } else {
        lemma_accesses_prefix(passes, n, m - 1);
        assert(accesses_before(passes, m).take(accesses_before(passes, n).len() as int)
            =~= accesses_before(passes, m - 1).take(accesses_before(passes, n).len() as int));
    }
}

/// A batch that fails at some length fails, in the same way, at every
/// greater length.
proof fn lemma_batch_error_stays(
    descs: Seq<ImageBarrierDesc>,
    n: int,
    m: int,
    registry: Map<ImageAlias, CompositeImageKey>,
    image_manager: &ImageManager,
    frame_index: u32,
    swapchain_image_index: u32,
    seen: Set<PhysicalImageKey>,
)
    requires
        0 <= n <= m,
        batch_upto(descs, n, registry, image_manager, frame_index, swapchain_image_index, seen) is Err,
    ensures
        batch_upto(descs, m, registry, image_manager, frame_index, swapchain_image_index, seen)
            == batch_upto(descs, n, registry, image_manager, frame_index, swapchain_image_index, seen),
    decreases m - n,
{
    if n < m {
        lemma_batch_error_stays(
            descs,
            n,
            m - 1,
            registry,
            image_manager,
            frame_index,
            swapchain_image_index,
            seen,
        );
    }
}

/// Once a batch has failed, going further through it marks no more images.
proof fn lemma_marks_stay(
    descs: Seq<ImageBarrierDesc>,
    n: int,
    m: int,
    registry: Map<ImageAlias, CompositeImageKey>,
    image_manager: &ImageManager,
    frame_index: u32,
    swapchain_image_index: u32,
    seen: Set<PhysicalImageKey>,
)
    requires
        0 <= n < m,
        batch_upto(descs, n, registry, image_manager, frame_index, swapchain_image_index, seen) is Ok,
        batch_upto(descs, n + 1, registry, image_manager, frame_index, swapchain_image_index, seen) is Err,
    ensures
        marked_upto(descs, m, registry, image_manager, frame_index, swapchain_image_index, seen)
            == batch_upto(
            descs,
            n,
            registry,
            image_manager,
            frame_index,
            swapchain_image_index,
            seen,
        )->Ok_0.1,
    decreases m - n,
{
    lemma_batch_error_stays(
        descs,
        n + 1,
        m,
        registry,
        image_manager,
        frame_index,
        swapchain_image_index,
        seen,
    );
    if n + 1 < m {
        lemma_marks_stay(
            descs,
            n,
            m - 1,
            registry,
            image_manager,
            frame_index,
            swapchain_image_index,
            seen,
        );
    } else {
        let reached = batch_upto(
            descs,
            n,
            registry,
            image_manager,
            frame_index,
            swapchain_image_index,
            seen,
        );
        assert(marked_upto(
            descs,
            n,
            registry,
            image_manager,
            frame_index,
            swapchain_image_index,
            seen,
        ) == reached->Ok_0.1) by {
            if n == 0 {
                assert(reached == Ok::<(Seq<ImageTransition>, Set<PhysicalImageKey>), GraphError>(
                    (Seq::empty(), seen),
                ));
            }
        }
    }
}

/// The transition that returns the presentation image of a frame to a
/// presentable layout after the last pass has written to it.
pub open spec fn present_transition(
    registry: Map<ImageAlias, CompositeImageKey>,
    image_manager: &ImageManager,
    swapchain_image_index: u32,
) -> Result<ImageTransition, GraphError> {
    if !registry.contains_key(ImageAlias::SwapchainImage) {
        Err(GraphError::UnknownAlias(ImageAlias::SwapchainImage))
    } else {
        match image_manager.resolved_image(
            registry[ImageAlias::SwapchainImage],
            FrameIndex::Swapchain(swapchain_image_index),
        ) {
            Some(image) => Ok(
                ImageTransition {
                    image: image.vk_image,
                    range: spec_color_range(),
                    old: ImageState::spec_color_attachment_write(),
                    new: ImageState::spec_present(),
                },
            ),
            None => Err(GraphError::InvalidKey(ImageAlias::SwapchainImage)),
        }
    }
}

/// The plan: the transitions of every pass, by pass identity.
pub struct BarrierPlan {
    image_barrier_descs: HashMap<u32, Vec<ImageBarrierDesc>>,
}

/// The table of tracked states before any pass has run.
pub fn initial_states(aliases: &[ImageAlias]) -> (states: AliasTable<ImageState>)
    ensures
        table_tracks(states@, aliases@, Seq::empty()),
{
    let mut states: AliasTable<ImageState> = AliasTable::new();
    let mut i: usize = 0;
    while i < aliases.len()
        invariant
            0 <= i <= aliases@.len(),
            table_tracks(states@, aliases@.take(i as int), Seq::empty()),
        decreases aliases@.len() - i,
    {
        let alias = aliases[i];
        let state = match alias {
            ImageAlias::SwapchainImage => ImageState::presentation_ready(),
            _ => ImageState::unused(),
        };
        let ghost before = aliases@.take(i as int);
        states.insert(alias, state);
        proof {
            let grown = aliases@.take(i as int + 1);
            assert(grown =~= before.push(alias));
            assert forall|other: ImageAlias| grown.contains(other) <==> before.contains(other)
                || other == alias by {
                if grown.contains(other) {
                    let at = choose|at: int| 0 <= at < grown.len() && grown[at] == other;
                    if at < before.len() {
                        assert(before[at] == other);
                    }
                }
                if before.contains(other) {
                    let at = choose|at: int| 0 <= at < before.len() && before[at] == other;
                    assert(grown[at] == other);
                }
                assert(grown[before.len() as int] == alias);
            }
        }
        i += 1;
    }
    proof {
        assert(aliases@.take(i as int) =~= aliases@);
    }
    states
}

/// The transition for one access, from the state that is tracked for its
/// image. An image that is not tracked counts as unused.
pub fn build_barrier_desc(prev: Option<&ImageState>, precursor: &ImageBarrierPrecursor) -> (desc:
    ImageBarrierDesc)
    ensures
        desc == barrier_desc(
            match prev {
                Some(state) => *state,
                None => ImageState::spec_unused(),
            },
            precursor.access,
        ),
{
    let old_state = match prev {
        Some(state) => *state,
        None => ImageState::unused(),
    };
    ImageBarrierDesc {
        alias: precursor.access.alias,
        indexing: precursor.access.indexing,
        old_state,
        new_state: precursor.access.usage.state,
        subresource_range: precursor.access.usage.subresource_range(),
    }
}

impl BarrierPlan {
    /// The transitions stored under the pass identity `id`, in order.
    pub closed spec fn barriers(&self, id: u32) -> Seq<ImageBarrierDesc> {
        if self.image_barrier_descs@.contains_key(id) {
            self.image_barrier_descs@[id]@
        } else {
            Seq::empty()
        }
    }

    /// The transitions stored under the pass identity `pass_id`, in order,
    /// if any are stored under it.
    pub fn image_barriers(&self, pass_id: u32) -> (descs: Option<&Vec<ImageBarrierDesc>>)
        ensures
            match descs {
                Some(descs) => descs@ == self.barriers(pass_id),
                None => self.barriers(pass_id) == Seq::<ImageBarrierDesc>::empty(),
            },
    {
        broadcast use group_hash_axioms;

        self.image_barrier_descs.get(&pass_id)
    }

    /// The transitions to record before the pass with identity `pass_id`
    /// runs on a frame: those of the plan, each on the physical image that
    /// the frame touches, and each starting from the undefined baseline
    /// where that image has not been used before. The images are marked as
    /// used. The first transition without a target fails the batch, and the
    /// images of those ahead of it stay marked.
    pub fn emit_pre_pass_barriers(
        &self,
        frame_index: u32,
        swapchain_image_index: u32,
        image_manager: &ImageManager,
        registry: &ResolvedRegistry,
        pass_id: u32,
        first_use: &mut GraphFirstUse,
    ) -> (batch: Result<Vec<ImageTransition>, GraphError>)
        requires
            image_manager.wf(),
        ensures
            match batch {
                Ok(transitions) => batch_upto(
                    self.barriers(pass_id),
                    self.barriers(pass_id).len() as int,
                    registry.images@,
                    image_manager,
                    frame_index,
                    swapchain_image_index,
                    old(first_use)@,
                ) == Ok::<(Seq<ImageTransition>, Set<PhysicalImageKey>), GraphError>(
                    (transitions@, final(first_use)@),
                ),
                Err(error) => batch_upto(
                    self.barriers(pass_id),
                    self.barriers(pass_id).len() as int,
                    registry.images@,
                    image_manager,
                    frame_index,
                    swapchain_image_index,
                    old(first_use)@,
                ) == Err::<(Seq<ImageTransition>, Set<PhysicalImageKey>), GraphError>(error),
            },
            final(first_use)@ == marked_upto(
                self.barriers(pass_id),
                self.barriers(pass_id).len() as int,
                registry.images@,
                image_manager,
                frame_index,
                swapchain_image_index,
                old(first_use)@,
            ),
    {
        broadcast use group_hash_axioms;

        let mut transitions: Vec<ImageTransition> = Vec::new();
        let descs = match self.image_barrier_descs.get(&pass_id) {
            Some(descs) => descs,
            None => {
                return Ok(transitions);
            },
        };
        let ghost seen = first_use@;
        let mut i: usize = 0;
        while i < descs.len()
            invariant
                0 <= i <= descs@.len(),
                image_manager.wf(),
                descs@ == self.barriers(pass_id),
                seen == old(first_use)@,
                batch_upto(
                    descs@,
                    i as int,
                    registry.images@,
                    image_manager,
                    frame_index,
                    swapchain_image_index,
                    seen,
                ) == Ok::<(Seq<ImageTransition>, Set<PhysicalImageKey>), GraphError>(
                    (transitions@, first_use@),
                ),
            decreases descs@.len() - i,
        {
            let desc = descs[i];
            proof {
                let target = barrier_target(
                    desc,
                    registry.images@,
                    image_manager,
                    frame_index,
                    swapchain_image_index,
                );
                let next = batch_upto(
                    descs@,
                    i as int + 1,
                    registry.images@,
                    image_manager,
                    frame_index,
                    swapchain_image_index,
                    seen,
                );
                assert(descs@[i as int + 1 - 1] == desc);
                if target is Err {
                    assert(next is Err && next->Err_0 == target->Err_0);
                    lemma_marks_stay(
                        descs@,
                        i as int,
                        descs@.len() as int,
                        registry.images@,
                        image_manager,
                        frame_index,
                        swapchain_image_index,
                        seen,
                    );
                    lemma_batch_error_stays(
                        descs@,
                        i as int + 1,
                        descs@.len() as int,
                        registry.images@,
                        image_manager,
                        frame_index,
                        swapchain_image_index,
                        seen,
                    );
                }
            }
            let key = match registry.images.get(desc.alias) {
                Some(key) => *key,
                None => {
                    return Err(GraphError::UnknownAlias(desc.alias));
                },
            };
            let (instance, found) = match desc.indexing {
                ImageIndexing::Global => match key {
                    CompositeImageKey::Global(_) => (
                        PhysicalImageInstance::Global,
                        image_manager.resolve_image(key, FrameIndex::Frame(0)),
                    ),
                    CompositeImageKey::PerFrame(_) => {
                        return Err(GraphError::InvalidKey(desc.alias));
                    },
                },
                ImageIndexing::PerFrame(FrameIndexKind::Frame) => (
                    PhysicalImageInstance::Frame(frame_index),
                    image_manager.resolve_image(key, FrameIndex::Frame(frame_index)),
                ),
                ImageIndexing::PerFrame(FrameIndexKind::Swapchain) => (
                    PhysicalImageInstance::Swapchain(swapchain_image_index),
                    image_manager.resolve_image(key, FrameIndex::Swapchain(swapchain_image_index)),
                ),
            };
            let image = match found {
                Ok(image) => image.vk_image,
                Err(_) => {
                    return Err(GraphError::InvalidKey(desc.alias));
                },
            };
            let first = first_use.is_first_use((key, instance));
            let old = if first {
                ImageState::undefined()
            } else {
                desc.old_state
            };
            transitions.push(
                ImageTransition { image, range: desc.subresource_range, old, new: desc.new_state },
            );
            i += 1;
        }
        Ok(transitions)
    }

    /// The transition to record after the last pass of a frame: it returns
    /// the frame's presentation image to a presentable layout.
    pub fn emit_post_pass_barriers(
        &self,
        swapchain_image_index: u32,
        image_manager: &ImageManager,
        registry: &ResolvedRegistry,
    ) -> (transition: Result<ImageTransition, GraphError>)
        requires
            image_manager.wf(),
        ensures
            transition == present_transition(registry.images@, image_manager, swapchain_image_index),
    {
        let key = match registry.images.get(ImageAlias::SwapchainImage) {
            Some(key) => *key,
            None => {
                return Err(GraphError::UnknownAlias(ImageAlias::SwapchainImage));
            },
        };
        match image_manager.resolve_image(key, FrameIndex::Swapchain(swapchain_image_index)) {
            Ok(image) => Ok(
                ImageTransition {
                    image: image.vk_image,
                    range: color_range(),
                    old: ImageState::color_attachment_write(),
                    new: ImageState::present(),
                },
            ),
            Err(_) => Err(GraphError::InvalidKey(ImageAlias::SwapchainImage)),
        }
    }

    /// Compiles the plan for `passes`, which run in the order given, over
    /// the images that `aliases` name. Every access gets one transition, from
    /// the state that the accesses ahead of it leave its image in to the
    /// state it asks for. An access to an alias that is not among `aliases`
    /// is an error, and the first such access is the one reported.
    pub fn from_passes<P: RenderPass>(passes: &[P], aliases: &[ImageAlias]) -> (plan: Result<
        BarrierPlan,
        GraphError,
    >)
        ensures
            match plan {
                Ok(plan) => {
                    &&& all_known(accesses_before(passes@, passes@.len() as int), aliases@)
                    &&& forall|id: u32|
                        plan.barriers(id) == compiled(passes@, passes@.len() as int, id)
                },
                Err(error) => exists|i: int|
                    {
                        &&& #[trigger] is_first_unknown(
                            accesses_before(passes@, passes@.len() as int),
                            aliases@,
                            i,
                        )
                        &&& error == GraphError::UnknownAlias(
                            accesses_before(passes@, passes@.len() as int)[i].alias,
                        )
                    },
            },
    {
        broadcast use group_hash_axioms;

        let mut image_states = initial_states(aliases);
        let mut image_barrier_descs: HashMap<u32, Vec<ImageBarrierDesc>> = HashMap::new();
        let ghost all = accesses_before(passes@, passes@.len() as int);
        let mut n: usize = 0;
        while n < passes.len()
            invariant
                0 <= n <= passes@.len(),
                all == accesses_before(passes@, passes@.len() as int),
                table_tracks(image_states@, aliases@, accesses_before(passes@, n as int)),
                all_known(accesses_before(passes@, n as int), aliases@),
                forall|id: u32|
                    (if image_barrier_descs@.contains_key(id) {
                        image_barrier_descs@[id]@
                    } else {
                        Seq::empty()
                    }) == #[trigger] compiled(passes@, n as int, id),
            decreases passes@.len() - n,
        {
            let pass = &passes[n];
            let id = pass.id();
            let precursors = pass.image_precursors();
            let ghost before = accesses_before(passes@, n as int);
            let ghost accesses = accesses_of(pass.requirements());
            let ghost earlier = compiled(passes@, n as int, id);
            let ghost stored = image_barrier_descs@;
            let mut batch = match image_barrier_descs.remove(&id) {
                Some(batch) => batch,
                None => Vec::new(),
            };
            proof {
                assert(batch@ == earlier);
                assert(accesses.take(0) =~= Seq::<ImageAccess>::empty());
                assert(before + accesses.take(0) =~= before);
                assert(pass_barriers(before, accesses).take(0) =~= Seq::<ImageBarrierDesc>::empty());
                assert(earlier + pass_barriers(before, accesses).take(0) =~= earlier);
                lemma_accesses_prefix(passes@, n as int + 1, passes@.len() as int);
                assert(accesses_before(passes@, n as int + 1) == before + accesses);
            }
            let mut r: usize = 0;
            while r < precursors.len()
                invariant
                    0 <= r <= precursors@.len(),
                    precursors@ == precursors_of(pass.requirements()),
                    accesses == accesses_of(pass.requirements()),
                    all == accesses_before(passes@, passes@.len() as int),
                    (before + accesses).len() <= all.len(),
                    all.take((before + accesses).len() as int) == before + accesses,
                    table_tracks(image_states@, aliases@, before + accesses.take(r as int)),
                    all_known(before + accesses.take(r as int), aliases@),
                    batch@ == earlier + pass_barriers(before, accesses).take(r as int),
                decreases precursors@.len() - r,
            {
                let precursor = precursors[r];
                let ghost so_far = before + accesses.take(r as int);
                proof {
                    assert(precursor.access == accesses[r as int]);
                    assert(so_far.push(accesses[r as int]) =~= before + accesses.take(r as int + 1));
                    assert((before + accesses)[before.len() + r] == accesses[r as int]);
                    assert(all[before.len() + r] == all.take((before + accesses).len() as int)[before.len()
                        + r]);
                }
                let prev = image_states.get(precursor.access.alias);
                if prev.is_none() {
                    proof {
                        let at = before.len() + r;
                        assert forall|j: int| 0 <= j < at implies aliases@.contains(
                            #[trigger] all[j].alias,
                        ) by {
                            assert(all[j] == all.take((before + accesses).len() as int)[j]);
                            assert(all[j] == so_far[j]);
                        }
                        assert(all[at] == accesses[r as int]);
                        assert(!image_states@.contains_key(precursor.access.alias));
                        assert(!aliases@.contains(all[at].alias));
                        assert(is_first_unknown(all, aliases@, at));
                    }
                    return Err(GraphError::UnknownAlias(precursor.access.alias));
                }
                let desc = build_barrier_desc(prev, &precursor);
                batch.push(desc);
                image_states.insert(precursor.access.alias, precursor.access.usage.state);
                proof {
                    let grown = so_far.push(accesses[r as int]);
                    assert forall|alias: ImageAlias|
                        (#[trigger] image_states@.contains_key(alias) <==> aliases@.contains(alias))
                            && (image_states@.contains_key(alias) ==> image_states@[alias]
                            == tracked_state(grown, alias)) by {
                        lemma_tracked_state_push(so_far, accesses[r as int], alias);
                    }
                    assert forall|j: int| 0 <= j < grown.len() implies aliases@.contains(
                        #[trigger] grown[j].alias,
                    ) by {
                        if j < so_far.len() {
                            assert(grown[j] == so_far[j]);
                        }
                    }
                    assert(pass_barriers(before, accesses).take(r as int + 1) =~= pass_barriers(
                        before,
                        accesses,
                    ).take(r as int).push(desc));
                    assert(batch@ =~= earlier + pass_barriers(before, accesses).take(r as int + 1));
                }
                r += 1;
            }
            proof {
                assert(accesses.take(r as int) =~= accesses);
                assert(pass_barriers(before, accesses).take(r as int) =~= pass_barriers(
                    before,
                    accesses,
                ));
            }
            let ghost finished = batch@;
            image_barrier_descs.insert(id, batch);
            proof {
                assert forall|other: u32|
                    (if image_barrier_descs@.contains_key(other) {
                        image_barrier_descs@[other]@
                    } else {
                        Seq::empty()
                    }) == #[trigger] compiled(passes@, n as int + 1, other) by {
                    if other != id {
                        assert(stored.contains_key(other) == image_barrier_descs@.contains_key(
                            other,
                        ));
                        assert(compiled(passes@, n as int, other) == compiled(
                            passes@,
                            n as int + 1,
                            other,
                        ));
                    } else {
                        assert(image_barrier_descs@[other]@ == finished);
                    }
                }
            }
            n += 1;
        }
        Ok(BarrierPlan { image_barrier_descs })
    }
}

} // verus!
