//! The image registry: pools of images and image views behind composite keys.

use crate::arena::{generations_left, SLOT_LIMIT};
use crate::error::RegistryError;
use crate::pool::{
    has_room_for, list_added, lists_resolve, per_frame_released, released_by, resolved,
    CompositeKey, Pool, Replicas,
};
use crate::vk::Handle;
use vstd::prelude::*;

use super::keys::{ImageKey, ImageViewKey, LogicalImageKey, LogicalImageViewKey};
use super::resource::{Image, ImageView, OwnedImageInfo, OwnedImageViewInfo};
use super::spec::{ImageLifetime, ImageSpec, ImageViewCreateInfo, ImageViewSpec};

verus! {

/// Handle to an image that hides whether it is a single instance or a list
/// of instances, one per frame slot or presentation image.
#[derive(Copy, Clone, PartialEq, Eq, Hash, Debug, Structural)]
pub enum CompositeImageKey {
    Global(ImageKey),
    PerFrame(LogicalImageKey),
}

/// Handle to an image view, of the same shape as `CompositeImageKey`.
#[derive(Copy, Clone, PartialEq, Eq, Hash, Debug, Structural)]
pub enum CompositeImageViewKey {
    Global(ImageViewKey),
    PerFrame(LogicalImageViewKey),
}

impl CompositeImageKey {
    /// The key as the pool of images knows it.
    pub open spec fn pool_key(self) -> CompositeKey {
        match self {
            CompositeImageKey::Global(key) => CompositeKey::Global(key.0),
            CompositeImageKey::PerFrame(key) => CompositeKey::PerFrame(key.0),
        }
    }

    #[verifier::when_used_as_spec(pool_key)]
    pub fn to_pool_key(self) -> (key: CompositeKey)
        ensures
            key == self.pool_key(),
    {
        match self {
            CompositeImageKey::Global(key) => CompositeKey::Global(key.0),
            CompositeImageKey::PerFrame(key) => CompositeKey::PerFrame(key.0),
        }
    }
}

impl CompositeImageViewKey {
    /// The key as the pool of image views knows it.
    pub open spec fn pool_key(self) -> CompositeKey {
        match self {
            CompositeImageViewKey::Global(key) => CompositeKey::Global(key.0),
            CompositeImageViewKey::PerFrame(key) => CompositeKey::PerFrame(key.0),
        }
    }

    #[verifier::when_used_as_spec(pool_key)]
    pub fn to_pool_key(self) -> (key: CompositeKey)
        ensures
            key == self.pool_key(),
    {
        match self {
            CompositeImageViewKey::Global(key) => CompositeKey::Global(key.0),
            CompositeImageViewKey::PerFrame(key) => CompositeKey::PerFrame(key.0),
        }
    }
}

/// Index that picks one instance of a replicated resource: the frame slot,
/// or the presentation image.
#[derive(Copy, Clone, PartialEq, Eq, Hash, Debug, Structural)]
pub enum FrameIndex {
    Frame(u32),
    Swapchain(u32),
}

impl FrameIndex {
    /// The index, whichever kind it is.
    pub open spec fn spec_raw(self) -> usize {
        match self {
            FrameIndex::Frame(i) => i as usize,
            FrameIndex::Swapchain(i) => i as usize,
        }
    }

    #[verifier::when_used_as_spec(spec_raw)]
    pub fn raw(self) -> (index: usize)
        ensures
            index == self.spec_raw(),
    {
        match self {
            FrameIndex::Frame(i) => i as usize,
            FrameIndex::Swapchain(i) => i as usize,
        }
    }
}

/// The GPU objects behind one image that was created for the registry: the
/// image handle and the token of its memory allocation.
#[derive(Copy, Clone, PartialEq, Eq, Debug, Structural)]
pub struct ImageBacking {
    pub vk_image: Handle,
    pub allocation: u64,
}

/// What a release of the per-frame resources hands out for destruction:
/// the views first, then the images, each with the key it was stored under.
pub struct ReleasedImages {
    pub image_views: Vec<(u64, ImageView)>,
    pub images: Vec<(u64, Image)>,
}

/// The image that the registry stores for `backing`, created from `spec`.
pub open spec fn owned_image(spec: ImageSpec, backing: ImageBacking) -> Image {
    Image {
        vk_image: backing.vk_image,
        owned: Some(OwnedImageInfo { allocation: backing.allocation, spec }),
    }
}

/// The images that the registry stores for `backing`, in order.
pub open spec fn owned_images(spec: ImageSpec, backing: Seq<ImageBacking>) -> Seq<Image> {
    Seq::new(backing.len(), |i: int| owned_image(spec, backing[i]))
}

/// The image that stands for a foreign image.
pub open spec fn external_image(handle: Handle) -> Image {
    Image { vk_image: handle, owned: None }
}

/// The view that stands for a foreign image view.
pub open spec fn external_view(handle: Handle) -> ImageView {
    ImageView { vk_image_view: handle, owned: None }
}

/// The view that the registry stores for `handle`, created from `spec`.
pub open spec fn owned_view(spec: ImageViewSpec, handle: Handle) -> ImageView {
    ImageView { vk_image_view: handle, owned: Some(OwnedImageViewInfo { spec, debug_name: None }) }
}

/// Why `create_image` refuses, if it does.
pub open spec fn create_image_error(
    lifetime: ImageLifetime,
    frame_count: u32,
    backing: nat,
    images: Map<u64, Image>,
    lists: Map<u64, Replicas>,
) -> Option<RegistryError> {
    match lifetime {
        ImageLifetime::External => Some(RegistryError::BackingMismatch),
        ImageLifetime::Global => if backing != 1 {
            Some(RegistryError::BackingMismatch)
        } else if images.len() >= SLOT_LIMIT {
            Some(RegistryError::Exhausted)
        } else {
            None
        },
        ImageLifetime::PerFrame => if backing != frame_count {
            Some(RegistryError::BackingMismatch)
        } else if !has_room_for(images, lists, backing) {
            Some(RegistryError::Exhausted)
        } else {
            None
        },
    }
}

/// Why `create_image_view` refuses, if it does.
pub open spec fn create_view_error(
    target: CompositeImageKey,
    frame_count: u32,
    handles: nat,
    images: Map<u64, Image>,
    image_lists: Map<u64, Replicas>,
    views: Map<u64, ImageView>,
    view_lists: Map<u64, Replicas>,
) -> Option<RegistryError> {
    match target {
        CompositeImageKey::Global(key) => if !images.contains_key(key.0) {
            Some(RegistryError::InvalidKey)
        } else if handles != 1 {
            Some(RegistryError::BackingMismatch)
        } else if views.len() >= SLOT_LIMIT {
            Some(RegistryError::Exhausted)
        } else {
            None
        },
        CompositeImageKey::PerFrame(key) => if !image_lists.contains_key(key.0)
            || image_lists[key.0].keys@.len() < frame_count {
            Some(RegistryError::InvalidKey)
        } else if handles != frame_count {
            Some(RegistryError::BackingMismatch)
        } else if !has_room_for(views, view_lists, handles) {
            Some(RegistryError::Exhausted)
        } else {
            None
        },
    }
}

/// Registry of images and image views.
pub struct ImageManager {
    images: Pool<Image>,
    image_views: Pool<ImageView>,
}

impl Default for ImageManager {
    fn default() -> (manager: Self)
        ensures
            manager.wf(),
            manager.images() == Map::<u64, Image>::empty(),
            manager.logical_images() == Map::<u64, Replicas>::empty(),
            manager.image_views() == Map::<u64, ImageView>::empty(),
            manager.logical_image_views() == Map::<u64, Replicas>::empty(),
            forall|key: CompositeImageKey| !manager.retired_image(key),
            forall|key: CompositeImageViewKey| !manager.retired_image_view(key),
    {
        ImageManager { images: Pool::new(), image_views: Pool::new() }
    }
}

impl ImageManager {
    /// The images held, by key.
    pub closed spec fn images(&self) -> Map<u64, Image> {
        self.images.physical()
    }

    /// The lists of images held, by key.
    pub closed spec fn logical_images(&self) -> Map<u64, Replicas> {
        self.images.logical()
    }

    /// The image views held, by key.
    pub closed spec fn image_views(&self) -> Map<u64, ImageView> {
        self.image_views.physical()
    }

    /// The lists of image views held, by key.
    pub closed spec fn logical_image_views(&self) -> Map<u64, Replicas> {
        self.image_views.logical()
    }

    /// Whether `key` stood for an image, or for a list of images, that the
    /// registry has released: such a key is not handed out again.
    pub closed spec fn retired_image(&self, key: CompositeImageKey) -> bool {
        match key {
            CompositeImageKey::Global(k) => self.images.retired_physical().contains(k.0),
            CompositeImageKey::PerFrame(l) => self.images.retired_logical().contains(l.0),
        }
    }

    /// Whether `key` stood for an image view, or for a list of them, that
    /// the registry has released: such a key is not handed out again.
    pub closed spec fn retired_image_view(&self, key: CompositeImageViewKey) -> bool {
        match key {
            CompositeImageViewKey::Global(k) => self.image_views.retired_physical().contains(k.0),
            CompositeImageViewKey::PerFrame(l) => self.image_views.retired_logical().contains(l.0),
        }
    }

    /// Whether none of the keys in use carries the last generation of its
    /// slot, so that every key that is released is retired for good.
    pub open spec fn generations_left(&self) -> bool {
        &&& generations_left(self.images().dom())
        &&& generations_left(self.logical_images().dom())
        &&& generations_left(self.image_views().dom())
        &&& generations_left(self.logical_image_views().dom())
    }

    /// The registry's invariant: both pools are well formed.
    pub closed spec fn wf(&self) -> bool {
        self.images.wf() && self.image_views.wf()
    }

    /// A key that was released stays dead: it stands for nothing, whatever
    /// has entered the registry since.
    pub proof fn lemma_retired_stays_dead(
        &self,
        image: CompositeImageKey,
        view: CompositeImageViewKey,
        frame: FrameIndex,
    )
        requires
            self.wf(),
        ensures
            self.retired_image(image) ==> self.resolved_image(image, frame) is None,
            self.retired_image_view(view) ==> self.resolved_image_view(view, frame) is None,
    {
        self.images.lemma_wf();
        self.image_views.lemma_wf();
    }

    /// In a well-formed registry every entry of every list resolves.
    pub proof fn lemma_wf(&self)
        requires
            self.wf(),
        ensures
            lists_resolve(self.images(), self.logical_images()),
            lists_resolve(self.image_views(), self.logical_image_views()),
    {
        self.images.lemma_wf();
        self.image_views.lemma_wf();
    }

    /// A list of images resolves at exactly the indices below the number of
    /// its instances: at every such index, and at no other.
    pub proof fn lemma_per_frame_resolves(&self, list: LogicalImageKey, frame: FrameIndex)
        requires
            self.wf(),
            self.logical_images().contains_key(list.0),
        ensures
            self.resolved_image(CompositeImageKey::PerFrame(list), frame) is Some
                <==> frame.spec_raw() < self.logical_images()[list.0].keys@.len(),
    {
        self.lemma_wf();
        if frame.spec_raw() < self.logical_images()[list.0].keys@.len() {
            assert(self.images().contains_key(
                self.logical_images()[list.0].keys@[frame.spec_raw() as int],
            ));
        }
    }

    /// A list of image views resolves at exactly the indices below the
    /// number of its instances.
    pub proof fn lemma_per_frame_view_resolves(&self, list: LogicalImageViewKey, frame: FrameIndex)
        requires
            self.wf(),
            self.logical_image_views().contains_key(list.0),
        ensures
            self.resolved_image_view(CompositeImageViewKey::PerFrame(list), frame) is Some
                <==> frame.spec_raw() < self.logical_image_views()[list.0].keys@.len(),
    {
        self.lemma_wf();
        if frame.spec_raw() < self.logical_image_views()[list.0].keys@.len() {
            assert(self.image_views().contains_key(
                self.logical_image_views()[list.0].keys@[frame.spec_raw() as int],
            ));
        }
    }

    /// The room that the registry has: the numbers of images, of lists of
    /// images, of views and of lists of views that it holds.
    pub fn occupancy(&self) -> (held: (usize, usize, usize, usize))
        requires
            self.wf(),
        ensures
            held.0 == self.images().len(),
            held.1 == self.logical_images().len(),
            held.2 == self.image_views().len(),
            held.3 == self.logical_image_views().len(),
    {
        (
            self.images.physical_len(),
            self.images.logical_len(),
            self.image_views.physical_len(),
            self.image_views.logical_len(),
        )
    }

    /// The image that `key` and `frame` stand for, if any.
    pub open spec fn resolved_image(&self, key: CompositeImageKey, frame: FrameIndex) -> Option<
        Image,
    > {
        resolved(self.images(), self.logical_images(), key.pool_key(), frame.spec_raw() as int)
    }

    /// The image view that `key` and `frame` stand for, if any.
    pub open spec fn resolved_image_view(
        &self,
        key: CompositeImageViewKey,
        frame: FrameIndex,
    ) -> Option<ImageView> {
        resolved(
            self.image_views(),
            self.logical_image_views(),
            key.pool_key(),
            frame.spec_raw() as int,
        )
    }

    /// The image under a key that is in use.
    #[inline]
    pub fn image_global(&self, key: ImageKey) -> (image: &Image)
        requires
            self.wf(),
            self.images().contains_key(key.0),
        ensures
            *image == self.images()[key.0],
    {
        self.images.get(key.0).unwrap()
    }

    /// The image view under a key that is in use.
    #[inline]
    pub fn image_view_global(&self, key: ImageViewKey) -> (view: &ImageView)
        requires
            self.wf(),
            self.image_views().contains_key(key.0),
        ensures
            *view == self.image_views()[key.0],
    {
        self.image_views.get(key.0).unwrap()
    }

    /// The image of a list at the index that `frame` gives.
    #[inline]
    pub fn image_per_frame(&self, key: LogicalImageKey, frame: FrameIndex) -> (image: &Image)
        requires
            self.wf(),
            self.logical_images().contains_key(key.0),
            frame.spec_raw() < self.logical_images()[key.0].keys@.len(),
        ensures
            Some(*image) == self.resolved_image(CompositeImageKey::PerFrame(key), frame),
    {
        proof {
            self.images.lemma_wf();
            assert(self.images().contains_key(
                self.logical_images()[key.0].keys@[frame.spec_raw() as int],
            ));
        }
        self.images.resolve(CompositeKey::PerFrame(key.0), frame.raw()).unwrap()
    }

    /// The image view of a list at the index that `frame` gives.
    #[inline]
    pub fn image_view_per_frame(&self, key: LogicalImageViewKey, frame: FrameIndex) -> (view:
        &ImageView)
        requires
            self.wf(),
            self.logical_image_views().contains_key(key.0),
            frame.spec_raw() < self.logical_image_views()[key.0].keys@.len(),
        ensures
            Some(*view) == self.resolved_image_view(CompositeImageViewKey::PerFrame(key), frame),
    {
        proof {
            self.image_views.lemma_wf();
            assert(self.image_views().contains_key(
                self.logical_image_views()[key.0].keys@[frame.spec_raw() as int],
            ));
        }
        self.image_views.resolve(CompositeKey::PerFrame(key.0), frame.raw()).unwrap()
    }

    /// The image that `key` and `frame` stand for. A key that is not in use
    /// or an index past the end of its list is an invalid key.
    #[inline]
    pub fn resolve_image(&self, key: CompositeImageKey, frame: FrameIndex) -> (image: Result<
        &Image,
        RegistryError,
    >)
        requires
            self.wf(),
        ensures
            match image {
                Ok(found) => self.resolved_image(key, frame) == Some(*found),
                Err(error) => self.resolved_image(key, frame) is None && error
                    == RegistryError::InvalidKey,
            },
            self.retired_image(key) ==> image is Err,
    {
        proof {
            self.images.lemma_wf();
        }
        match self.images.resolve(key.to_pool_key(), frame.raw()) {
            Some(image) => Ok(image),
            None => Err(RegistryError::InvalidKey),
        }
    }

    /// The image view that `key` and `frame` stand for. A key that is not in
    /// use or an index past the end of its list is an invalid key.
    #[inline]
    pub fn resolve_image_view(&self, key: CompositeImageViewKey, frame: FrameIndex) -> (view:
        Result<&ImageView, RegistryError>)
        requires
            self.wf(),
        ensures
            match view {
                Ok(found) => self.resolved_image_view(key, frame) == Some(*found),
                Err(error) => self.resolved_image_view(key, frame) is None && error
                    == RegistryError::InvalidKey,
            },
            self.retired_image_view(key) ==> view is Err,
    {
        proof {
            self.image_views.lemma_wf();
        }
        match self.image_views.resolve(key.to_pool_key(), frame.raw()) {
            Some(view) => Ok(view),
            None => Err(RegistryError::InvalidKey),
        }
    }

    /// The number of instances behind a composite image key: one for a
    /// global image, the list's length for a list.
    pub fn image_count(&self, key: CompositeImageKey) -> (count: Result<usize, RegistryError>)
        requires
            self.wf(),
        ensures
            match key {
                CompositeImageKey::Global(k) => if self.images().contains_key(k.0) {
                    count == Ok::<usize, RegistryError>(1)
                } else {
                    count == Err::<usize, RegistryError>(RegistryError::InvalidKey)
                },
                CompositeImageKey::PerFrame(l) => if self.logical_images().contains_key(l.0) {
                    count matches Ok(n) && n == self.logical_images()[l.0].keys@.len()
                } else {
                    count == Err::<usize, RegistryError>(RegistryError::InvalidKey)
                },
            },
    {
        match key {
            CompositeImageKey::Global(k) => match self.images.get(k.0) {
                Some(_) => Ok(1),
                None => Err(RegistryError::InvalidKey),
            },
            CompositeImageKey::PerFrame(l) => match self.images.replica_count(l.0) {
                Some(n) => Ok(n),
                None => Err(RegistryError::InvalidKey),
            },
        }
    }

    /// Takes into the registry the images that were created from `spec`:
    /// one for a global image, one per frame slot for a per-frame image. The
    /// key handed out is none that was released before. The registry is
    /// unchanged when it refuses.
    pub fn create_image(&mut self, spec: ImageSpec, frame_count: u32, backing: &[ImageBacking]) -> (key:
        Result<CompositeImageKey, RegistryError>)
        requires
            old(self).wf(),
        ensures
            final(self).wf(),
            final(self).image_views() == old(self).image_views(),
            final(self).logical_image_views() == old(self).logical_image_views(),
            forall|any: CompositeImageKey| #[trigger]
                final(self).retired_image(any) == old(self).retired_image(any),
            forall|any: CompositeImageViewKey| #[trigger]
                final(self).retired_image_view(any) == old(self).retired_image_view(any),
            key matches Ok(new) ==> !old(self).retired_image(new),
            match key {
                Ok(CompositeImageKey::Global(k)) => {
                    &&& spec.lifetime == ImageLifetime::Global
                    &&& create_image_error(
                        spec.lifetime,
                        frame_count,
                        backing@.len(),
                        old(self).images(),
                        old(self).logical_images(),
                    ) is None
                    &&& !old(self).images().contains_key(k.0)
                    &&& final(self).images() == old(self).images().insert(
                        k.0,
                        owned_image(spec, backing@[0]),
                    )
                    &&& final(self).images().len() == old(self).images().len() + 1
                    &&& final(self).logical_images() == old(self).logical_images()
                },
                Ok(CompositeImageKey::PerFrame(l)) => {
                    &&& spec.lifetime == ImageLifetime::PerFrame
                    &&& create_image_error(
                        spec.lifetime,
                        frame_count,
                        backing@.len(),
                        old(self).images(),
                        old(self).logical_images(),
                    ) is None
                    &&& list_added(
                        old(self).images(),
                        old(self).logical_images(),
                        final(self).images(),
                        final(self).logical_images(),
                        l.0,
                        owned_images(spec, backing@),
                        false,
                    )
                },
                Err(error) => {
                    &&& create_image_error(
                        spec.lifetime,
                        frame_count,
                        backing@.len(),
                        old(self).images(),
                        old(self).logical_images(),
                    ) == Some(error)
                    &&& final(self).images() == old(self).images()
                    &&& final(self).logical_images() == old(self).logical_images()
                },
            },
    {
        match spec.lifetime {
            ImageLifetime::External => Err(RegistryError::BackingMismatch),
            ImageLifetime::Global => {
                if backing.len() != 1 {
                    return Err(RegistryError::BackingMismatch);
                }
                let image = Image {
                    vk_image: backing[0].vk_image,
                    owned: Some(OwnedImageInfo { allocation: backing[0].allocation, spec }),
                };
                match self.images.insert_global(image) {
                    Some(key) => Ok(CompositeImageKey::Global(ImageKey(key))),
                    None => Err(RegistryError::Exhausted),
                }
            },
            ImageLifetime::PerFrame => {
                if backing.len() != frame_count as usize {
                    return Err(RegistryError::BackingMismatch);
                }
                let mut images: Vec<Image> = Vec::new();
                let mut i: usize = 0;
                while i < backing.len()
                    invariant
                        0 <= i <= backing@.len(),
                        images@ == owned_images(spec, backing@.take(i as int)),
                    decreases backing@.len() - i,
                {
                    images.push(
                        Image {
                            vk_image: backing[i].vk_image,
                            owned: Some(
                                OwnedImageInfo {
                                    allocation: backing[i].allocation,
                                    spec: spec.clone(),
                                },
                            ),
                        },
                    );
                    proof {
                        assert(images@ =~= owned_images(spec, backing@.take(i as int + 1)));
                    }
                    i += 1;
                }
                proof {
                    assert(backing@.take(i as int) =~= backing@);
                }
                match self.images.insert_replicated(images, false) {
                    Some(list) => Ok(CompositeImageKey::PerFrame(LogicalImageKey(list))),
                    None => Err(RegistryError::Exhausted),
                }
            },
        }
    }

    /// Registers the images and views of a foreign owner, such as a
    /// presentation surface, as two lists of equal length. The registry never
    /// hands them out for destruction. The keys handed out are none that
    /// were released before. It is unchanged when it has no room.
    pub fn register_external_per_frame(&mut self, images: &[Handle], views: &[Handle]) -> (keys:
        Result<(CompositeImageKey, CompositeImageViewKey), RegistryError>)
        requires
            old(self).wf(),
            images@.len() == views@.len(),
        ensures
            final(self).wf(),
            forall|any: CompositeImageKey| #[trigger]
                final(self).retired_image(any) == old(self).retired_image(any),
            forall|any: CompositeImageViewKey| #[trigger]
                final(self).retired_image_view(any) == old(self).retired_image_view(any),
            keys matches Ok(new) ==> !old(self).retired_image(new.0) && !old(
                self,
            ).retired_image_view(new.1),
            match keys {
                Ok((CompositeImageKey::PerFrame(image_list), CompositeImageViewKey::PerFrame(view_list))) => {
                    &&& has_room_for(
                        old(self).images(),
                        old(self).logical_images(),
                        images@.len(),
                    )
                    &&& has_room_for(
                        old(self).image_views(),
                        old(self).logical_image_views(),
                        views@.len(),
                    )
                    &&& list_added(
                        old(self).images(),
                        old(self).logical_images(),
                        final(self).images(),
                        final(self).logical_images(),
                        image_list.0,
                        Seq::new(images@.len(), |i: int| external_image(images@[i])),
                        true,
                    )
                    &&& list_added(
                        old(self).image_views(),
                        old(self).logical_image_views(),
                        final(self).image_views(),
                        final(self).logical_image_views(),
                        view_list.0,
                        Seq::new(views@.len(), |i: int| external_view(views@[i])),
                        true,
                    )
                },
                Ok(_) => false,
                Err(error) => {
                    &&& error == RegistryError::Exhausted
                    &&& !(has_room_for(
                        old(self).images(),
                        old(self).logical_images(),
                        images@.len(),
                    ) && has_room_for(
                        old(self).image_views(),
                        old(self).logical_image_views(),
                        views@.len(),
                    ))
                    &&& final(self).images() == old(self).images()
                    &&& final(self).logical_images() == old(self).logical_images()
                    &&& final(self).image_views() == old(self).image_views()
                    &&& final(self).logical_image_views() == old(self).logical_image_views()
                },
            },
    {
        if !self.images.has_room(images.len()) || !self.image_views.has_room(views.len()) {
            return Err(RegistryError::Exhausted);
        }
        let mut foreign_images: Vec<Image> = Vec::new();
        let mut foreign_views: Vec<ImageView> = Vec::new();
        let mut i: usize = 0;
        while i < images.len()
            invariant
                0 <= i <= images@.len(),
                images@.len() == views@.len(),
                foreign_images@ == Seq::new(i as nat, |j: int| external_image(images@[j])),
                foreign_views@ == Seq::new(i as nat, |j: int| external_view(views@[j])),
            decreases images@.len() - i,
        {
            foreign_images.push(Image { vk_image: images[i], owned: None });
            foreign_views.push(ImageView { vk_image_view: views[i], owned: None });
            proof {
                assert(foreign_images@ =~= Seq::new(
                    (i + 1) as nat,
                    |j: int| external_image(images@[j]),
                ));
                assert(foreign_views@ =~= Seq::new(
                    (i + 1) as nat,
                    |j: int| external_view(views@[j]),
                ));
            }
            i += 1;
        }
        let image_list = self.images.insert_replicated(foreign_images, true);
        let view_list = self.image_views.insert_replicated(foreign_views, true);
        match (image_list, view_list) {
            (Some(image_list), Some(view_list)) => Ok(
                (
                    CompositeImageKey::PerFrame(LogicalImageKey(image_list)),
                    CompositeImageViewKey::PerFrame(LogicalImageViewKey(view_list)),
                ),
            ),
            _ => Err(RegistryError::Exhausted),
        }
    }

    /// Takes into the registry the views that were created of the images
    /// behind `spec.image_key`: one for a global image, one per frame slot for
    /// a list, which must hold at least `frame_count` images. The key handed
    /// out is none that was released before. The registry is unchanged when
    /// it refuses.
    pub fn create_image_view(&mut self, spec: ImageViewSpec, frame_count: u32, handles: &[Handle]) -> (key:
        Result<CompositeImageViewKey, RegistryError>)
        requires
            old(self).wf(),
        ensures
            final(self).wf(),
            final(self).images() == old(self).images(),
            final(self).logical_images() == old(self).logical_images(),
            forall|any: CompositeImageKey| #[trigger]
                final(self).retired_image(any) == old(self).retired_image(any),
            forall|any: CompositeImageViewKey| #[trigger]
                final(self).retired_image_view(any) == old(self).retired_image_view(any),
            key matches Ok(new) ==> !old(self).retired_image_view(new),
            match key {
                Ok(CompositeImageViewKey::Global(k)) => {
                    &&& spec.image_key is Global
                    &&& create_view_error(
                        spec.image_key,
                        frame_count,
                        handles@.len(),
                        old(self).images(),
                        old(self).logical_images(),
                        old(self).image_views(),
                        old(self).logical_image_views(),
                    ) is None
                    &&& !old(self).image_views().contains_key(k.0)
                    &&& final(self).image_views() == old(self).image_views().insert(
                        k.0,
                        owned_view(spec, handles@[0]),
                    )
                    &&& final(self).image_views().len() == old(self).image_views().len() + 1
                    &&& final(self).logical_image_views() == old(self).logical_image_views()
                },
                Ok(CompositeImageViewKey::PerFrame(l)) => {
                    &&& spec.image_key is PerFrame
                    &&& create_view_error(
                        spec.image_key,
                        frame_count,
                        handles@.len(),
                        old(self).images(),
                        old(self).logical_images(),
                        old(self).image_views(),
                        old(self).logical_image_views(),
                    ) is None
                    &&& list_added(
                        old(self).image_views(),
                        old(self).logical_image_views(),
                        final(self).image_views(),
                        final(self).logical_image_views(),
                        l.0,
                        Seq::new(handles@.len(), |i: int| owned_view(spec, handles@[i])),
                        false,
                    )
                },
                Err(error) => {
                    &&& create_view_error(
                        spec.image_key,
                        frame_count,
                        handles@.len(),
                        old(self).images(),
                        old(self).logical_images(),
                        old(self).image_views(),
                        old(self).logical_image_views(),
                    ) == Some(error)
                    &&& final(self).image_views() == old(self).image_views()
                    &&& final(self).logical_image_views() == old(self).logical_image_views()
                },
            },
    {
        match spec.image_key {
            CompositeImageKey::Global(image_key) => {
                if self.images.get(image_key.0).is_none() {
                    return Err(RegistryError::InvalidKey);
                }
                if handles.len() != 1 {
                    return Err(RegistryError::BackingMismatch);
                }
                let view = ImageView {
                    vk_image_view: handles[0],
                    owned: Some(OwnedImageViewInfo { spec, debug_name: None }),
                };
                match self.image_views.insert_global(view) {
                    Some(key) => Ok(CompositeImageViewKey::Global(ImageViewKey(key))),
                    None => Err(RegistryError::Exhausted),
                }
            },
            CompositeImageKey::PerFrame(list) => {
                match self.images.replica_count(list.0) {
                    Some(count) => {
                        if count < frame_count as usize {
                            return Err(RegistryError::InvalidKey);
                        }
                    },
                    None => {
                        return Err(RegistryError::InvalidKey);
                    },
                }
                if handles.len() != frame_count as usize {
                    return Err(RegistryError::BackingMismatch);
                }
                let mut views: Vec<ImageView> = Vec::new();
                let mut i: usize = 0;
                while i < handles.len()
                    invariant
                        0 <= i <= handles@.len(),
                        views@ == Seq::new(i as nat, |j: int| owned_view(spec, handles@[j])),
                    decreases handles@.len() - i,
                {
                    views.push(
                        ImageView {
                            vk_image_view: handles[i],
                            owned: Some(OwnedImageViewInfo { spec, debug_name: None }),
                        },
                    );
                    proof {
                        assert(views@ =~= Seq::new(
                            (i + 1) as nat,
                            |j: int| owned_view(spec, handles@[j]),
                        ));
                    }
                    i += 1;
                }
                match self.image_views.insert_replicated(views, false) {
                    Some(view_list) => Ok(
                        CompositeImageViewKey::PerFrame(LogicalImageViewKey(view_list)),
                    ),
                    None => Err(RegistryError::Exhausted),
                }
            },
        }
    }

    /// Releases every per-frame image and image view and hands them out for
    /// destruction. Global and external resources stay as they are. The keys
    /// of what is released are retired: none of them is handed out again,
    /// as long as no key in use carries the last generation of its slot.
    pub fn cleanup_per_frames(&mut self) -> (released: ReleasedImages)
        requires
            old(self).wf(),
        ensures
            final(self).wf(),
            per_frame_released(
                old(self).image_views(),
                old(self).logical_image_views(),
                final(self).image_views(),
                final(self).logical_image_views(),
                released.image_views@,
            ),
            per_frame_released(
                old(self).images(),
                old(self).logical_images(),
                final(self).images(),
                final(self).logical_images(),
                released.images@,
            ),
            old(self).generations_left() ==> forall|key: CompositeImageKey| #[trigger]
                final(self).retired_image(key) <==> old(self).retired_image(key) || released_by(
                    old(self).logical_images(),
                    key.pool_key(),
                ),
            old(self).generations_left() ==> forall|key: CompositeImageViewKey| #[trigger]
                final(self).retired_image_view(key) <==> old(self).retired_image_view(key)
                    || released_by(old(self).logical_image_views(), key.pool_key()),
    {
        let image_views = self.image_views.release_per_frame();
        let images = self.images.release_per_frame();
        ReleasedImages { image_views, images }
    }
}

impl ImageViewSpec {
    /// The creation parameters of the view of the image that this
    /// description targets, for the instance at `frame_index`. A list needs
    /// an index; a global image takes none into account.
    pub fn to_vk(&self, image_manager: &ImageManager, frame_index: Option<u32>) -> (info: Result<
        ImageViewCreateInfo,
        RegistryError,
    >)
        requires
            image_manager.wf(),
        ensures
            info == view_create_info(*self, image_manager, frame_index),
    {
        let image = match self.image_key {
            CompositeImageKey::Global(key) => image_manager.images.get(key.0),
            CompositeImageKey::PerFrame(list) => match frame_index {
                Some(index) => image_manager.images.resolve(
                    CompositeKey::PerFrame(list.0),
                    index as usize,
                ),
                None => None,
            },
        };
        match image {
            Some(image) => Ok(
                ImageViewCreateInfo {
                    image: image.vk_image,
                    view_type: self.view_type,
                    format: self.format,
                    subresource_range: crate::vk::ImageSubresourceRange {
                        aspect_mask: self.aspect_mask,
                        base_mip_level: self.base_mip_level,
                        level_count: self.level_count,
                        base_array_layer: self.base_array_layer,
                        layer_count: self.layer_count,
                    },
                },
            ),
            None => Err(RegistryError::InvalidKey),
        }
    }
}

/// The creation parameters that `ImageViewSpec::to_vk` gives.
pub open spec fn view_create_info(
    spec: ImageViewSpec,
    image_manager: &ImageManager,
    frame_index: Option<u32>,
) -> Result<ImageViewCreateInfo, RegistryError> {
    let image = match spec.image_key {
        CompositeImageKey::Global(key) => resolved(
            image_manager.images(),
            image_manager.logical_images(),
            CompositeKey::Global(key.0),
            0,
        ),
        CompositeImageKey::PerFrame(list) => match frame_index {
            Some(index) => resolved(
                image_manager.images(),
                image_manager.logical_images(),
                CompositeKey::PerFrame(list.0),
                index as int,
            ),
            None => None,
        },
    };
    match image {
        Some(image) => Ok(spec.create_info(image.vk_image)),
        None => Err(RegistryError::InvalidKey),
    }
}

} // verus!
