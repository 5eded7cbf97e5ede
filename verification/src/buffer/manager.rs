//! The buffer registry: a pool of buffers behind composite keys.

use crate::arena::{generations_left, SLOT_LIMIT};
use crate::error::RegistryError;
use crate::pool::{
    has_room_for, list_added, lists_resolve, per_frame_released, released_by, resolved,
    CompositeKey, Pool, Replicas,
};
use crate::vk::Handle;
use vstd::prelude::*;

use super::keys::{BufferKey, LogicalBufferKey};
use super::resource::Buffer;
use super::spec::{BufferLifetime, BufferSpec};

verus! {

/// Handle to a buffer that hides whether it is a single instance or a list
/// of instances, one per frame slot.
#[derive(Copy, Clone, PartialEq, Eq, Hash, Debug, Structural)]
pub enum CompositeBufferKey {
    Global(BufferKey),
    PerFrame(LogicalBufferKey),
}

impl CompositeBufferKey {
    /// The key as the pool of buffers knows it.
    pub open spec fn pool_key(self) -> CompositeKey {
        match self {
            CompositeBufferKey::Global(key) => CompositeKey::Global(key.0),
            CompositeBufferKey::PerFrame(key) => CompositeKey::PerFrame(key.0),
        }
    }

    #[verifier::when_used_as_spec(pool_key)]
    pub fn to_pool_key(self) -> (key: CompositeKey)
        ensures
            key == self.pool_key(),
    {
        match self {
            CompositeBufferKey::Global(key) => CompositeKey::Global(key.0),
            CompositeBufferKey::PerFrame(key) => CompositeKey::PerFrame(key.0),
        }
    }
}

/// The GPU objects behind one buffer that was created for the registry: the
/// buffer handle and the token of its memory allocation.
#[derive(Copy, Clone, PartialEq, Eq, Debug, Structural)]
pub struct BufferBacking {
    pub vk_buffer: Handle,
    pub allocation: u64,
}

/// The buffer that the registry stores for `backing`, created from `spec`.
pub open spec fn owned_buffer(spec: BufferSpec, backing: BufferBacking) -> Buffer {
    Buffer { vk_buffer: backing.vk_buffer, allocation: backing.allocation, spec }
}

/// The buffers that the registry stores for `backing`, in order.
pub open spec fn owned_buffers(spec: BufferSpec, backing: Seq<BufferBacking>) -> Seq<Buffer> {
    Seq::new(backing.len(), |i: int| owned_buffer(spec, backing[i]))
}

/// Why `create_buffer` refuses, if it does.
pub open spec fn create_buffer_error(
    lifetime: BufferLifetime,
    frame_count: u32,
    backing: nat,
    buffers: Map<u64, Buffer>,
    lists: Map<u64, Replicas>,
) -> Option<RegistryError> {
    match lifetime {
        BufferLifetime::Global => if backing != 1 {
            Some(RegistryError::BackingMismatch)
        } else if buffers.len() >= SLOT_LIMIT {
            Some(RegistryError::Exhausted)
        } else {
            None
        },
        BufferLifetime::PerFrame => if backing != frame_count {
            Some(RegistryError::BackingMismatch)
        } else if !has_room_for(buffers, lists, backing) {
            Some(RegistryError::Exhausted)
        } else {
            None
        },
    }
}

/// Registry of buffers.
pub struct BufferManager {
    buffers: Pool<Buffer>,
}

impl Default for BufferManager {
    fn default() -> (manager: Self)
        ensures
            manager.wf(),
            manager.buffers() == Map::<u64, Buffer>::empty(),
            manager.logical_buffers() == Map::<u64, Replicas>::empty(),
            forall|key: CompositeBufferKey| !manager.retired_buffer(key),
    {
        BufferManager { buffers: Pool::new() }
    }
}

impl BufferManager {
    /// The buffers held, by key.
    pub closed spec fn buffers(&self) -> Map<u64, Buffer> {
        self.buffers.physical()
    }

    /// The lists of buffers held, by key.
    pub closed spec fn logical_buffers(&self) -> Map<u64, Replicas> {
        self.buffers.logical()
    }

    /// Whether `key` stood for a buffer, or for a list of buffers, that the
    /// registry has released: such a key is not handed out again.
    pub closed spec fn retired_buffer(&self, key: CompositeBufferKey) -> bool {
        match key {
            CompositeBufferKey::Global(k) => self.buffers.retired_physical().contains(k.0),
            CompositeBufferKey::PerFrame(l) => self.buffers.retired_logical().contains(l.0),
        }
    }

    /// Whether none of the keys in use carries the last generation of its
    /// slot, so that every key that is released is retired for good.
    pub open spec fn generations_left(&self) -> bool {
        &&& generations_left(self.buffers().dom())
        &&& generations_left(self.logical_buffers().dom())
    }

    /// The registry's invariant.
    pub closed spec fn wf(&self) -> bool {
        self.buffers.wf()
    }

    /// A key that was released stays dead: it stands for nothing, whatever
    /// has entered the registry since.
    pub proof fn lemma_retired_stays_dead(&self, key: CompositeBufferKey, index: usize)
        requires
            self.wf(),
            self.retired_buffer(key),
        ensures
            self.resolved_buffer(key, index) is None,
    {
        self.buffers.lemma_wf();
    }

    /// In a well-formed registry every entry of every list resolves.
    pub proof fn lemma_wf(&self)
        requires
            self.wf(),
        ensures
            lists_resolve(self.buffers(), self.logical_buffers()),
    {
        self.buffers.lemma_wf();
    }

    /// The buffer that `key` and `index` stand for, if any.
    pub open spec fn resolved_buffer(&self, key: CompositeBufferKey, index: usize) -> Option<
        Buffer,
    > {
        resolved(self.buffers(), self.logical_buffers(), key.pool_key(), index as int)
    }

    /// The buffer under a key that is in use.
    #[inline]
    pub fn buffer_global(&self, key: BufferKey) -> (buffer: &Buffer)
        requires
            self.wf(),
            self.buffers().contains_key(key.0),
        ensures
            *buffer == self.buffers()[key.0],
    {
        self.buffers.get(key.0).unwrap()
    }

    /// The buffer of a list at `index`.
    #[inline]
    pub fn buffer_per_frame(&self, key: LogicalBufferKey, index: usize) -> (buffer: &Buffer)
        requires
            self.wf(),
            self.logical_buffers().contains_key(key.0),
            index < self.logical_buffers()[key.0].keys@.len(),
        ensures
            Some(*buffer) == self.resolved_buffer(CompositeBufferKey::PerFrame(key), index),
    {
        proof {
            self.buffers.lemma_wf();
            assert(self.buffers().contains_key(self.logical_buffers()[key.0].keys@[index as int]));
        }
        self.buffers.resolve(CompositeKey::PerFrame(key.0), index).unwrap()
    }

    /// The buffer that `key` and `index` stand for. A key that is not in use
    /// or an index past the end of its list is an invalid key.
    #[inline]
    pub fn resolve_buffer(&self, key: CompositeBufferKey, index: usize) -> (buffer: Result<
        &Buffer,
        RegistryError,
    >)
        requires
            self.wf(),
        ensures
            match buffer {
                Ok(found) => self.resolved_buffer(key, index) == Some(*found),
                Err(error) => self.resolved_buffer(key, index) is None && error
                    == RegistryError::InvalidKey,
            },
            self.retired_buffer(key) ==> buffer is Err,
    {
        proof {
            self.buffers.lemma_wf();
        }
        match self.buffers.resolve(key.to_pool_key(), index) {
            Some(buffer) => Ok(buffer),
            None => Err(RegistryError::InvalidKey),
        }
    }

    /// Takes into the registry the buffers that were created from `spec`:
    /// one for a global buffer, one per frame slot for a per-frame buffer.
    /// The key handed out is none that was released before. The registry is
    /// unchanged when it refuses.
    pub fn create_buffer(&mut self, spec: BufferSpec, frame_count: u32, backing: Vec<BufferBacking>) -> (key:
        Result<CompositeBufferKey, RegistryError>)
        requires
            old(self).wf(),
        ensures
            final(self).wf(),
            forall|any: CompositeBufferKey| #[trigger]
                final(self).retired_buffer(any) == old(self).retired_buffer(any),
            key matches Ok(new) ==> !old(self).retired_buffer(new),
            match key {
                Ok(CompositeBufferKey::Global(k)) => {
                    &&& spec.lifetime == BufferLifetime::Global
                    &&& create_buffer_error(
                        spec.lifetime,
                        frame_count,
                        backing@.len(),
                        old(self).buffers(),
                        old(self).logical_buffers(),
                    ) is None
                    &&& !old(self).buffers().contains_key(k.0)
                    &&& final(self).buffers() == old(self).buffers().insert(
                        k.0,
                        owned_buffer(spec, backing@[0]),
                    )
                    &&& final(self).logical_buffers() == old(self).logical_buffers()
                },
                Ok(CompositeBufferKey::PerFrame(l)) => {
                    &&& spec.lifetime == BufferLifetime::PerFrame
                    &&& create_buffer_error(
                        spec.lifetime,
                        frame_count,
                        backing@.len(),
                        old(self).buffers(),
                        old(self).logical_buffers(),
                    ) is None
                    &&& list_added(
                        old(self).buffers(),
                        old(self).logical_buffers(),
                        final(self).buffers(),
                        final(self).logical_buffers(),
                        l.0,
                        owned_buffers(spec, backing@),
                        false,
                    )
                },
                Err(error) => {
                    &&& create_buffer_error(
                        spec.lifetime,
                        frame_count,
                        backing@.len(),
                        old(self).buffers(),
                        old(self).logical_buffers(),
                    ) == Some(error)
                    &&& final(self).buffers() == old(self).buffers()
                    &&& final(self).logical_buffers() == old(self).logical_buffers()
                },
            },
    {
        match spec.lifetime {
            BufferLifetime::Global => {
                if backing.len() != 1 {
                    return Err(RegistryError::BackingMismatch);
                }
                let buffer = Buffer {
                    vk_buffer: backing[0].vk_buffer,
                    allocation: backing[0].allocation,
                    spec,
                };
                match self.buffers.insert_global(buffer) {
                    Some(key) => Ok(CompositeBufferKey::Global(BufferKey(key))),
                    None => Err(RegistryError::Exhausted),
                }
            },
            BufferLifetime::PerFrame => {
                if backing.len() != frame_count as usize {
                    return Err(RegistryError::BackingMismatch);
                }
                let mut buffers: Vec<Buffer> = Vec::new();
                let mut i: usize = 0;
                while i < backing.len()
                    invariant
                        0 <= i <= backing@.len(),
                        buffers@ == owned_buffers(spec, backing@.take(i as int)),
                    decreases backing@.len() - i,
                {
                    buffers.push(
                        Buffer {
                            vk_buffer: backing[i].vk_buffer,
                            allocation: backing[i].allocation,
                            spec: spec.clone(),
                        },
                    );
                    proof {
                        assert(buffers@ =~= owned_buffers(spec, backing@.take(i as int + 1)));
                    }
                    i += 1;
                }
                proof {
                    assert(backing@.take(i as int) =~= backing@);
                }
                match self.buffers.insert_replicated(buffers, false) {
                    Some(list) => Ok(CompositeBufferKey::PerFrame(LogicalBufferKey(list))),
                    None => Err(RegistryError::Exhausted),
                }
            },
        }
    }

    /// Releases every per-frame buffer and hands them out for destruction,
    /// each with the key it was stored under. Global buffers stay. The keys
    /// of what is released are retired: none of them is handed out again,
    /// as long as no key in use carries the last generation of its slot.
    pub fn cleanup_per_frames(&mut self) -> (released: Vec<(u64, Buffer)>)
        requires
            old(self).wf(),
        ensures
            final(self).wf(),
            per_frame_released(
                old(self).buffers(),
                old(self).logical_buffers(),
                final(self).buffers(),
                final(self).logical_buffers(),
                released@,
            ),
            old(self).generations_left() ==> forall|key: CompositeBufferKey| #[trigger]
                final(self).retired_buffer(key) <==> old(self).retired_buffer(key) || released_by(
                    old(self).logical_buffers(),
                    key.pool_key(),
                ),
    {
        self.buffers.release_per_frame()
    }
}

} // verus!
