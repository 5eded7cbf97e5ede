//! Descriptions of graphics pipelines and the registry of compiled ones.

use crate::arena::{Arena, SLOT_LIMIT};
use crate::render::shader::ShaderId;
use crate::vk::{Format, Handle, PrimitiveTopology};
use vstd::prelude::*;

verus! {

/// Key of a compiled pipeline.
#[derive(Clone, Copy, Debug, PartialEq, Eq, Hash, Structural)]
pub struct PipelineKey(pub u64);

/// What a graphics pipeline is compiled from.
#[derive(Debug)]
pub struct GraphicsPipelineDesc {
    pub vertex_id: ShaderId,
    pub fragment_id: ShaderId,
    pub topology: PrimitiveTopology,
    pub color_formats: Vec<Format>,
    pub depth_format: Option<Format>,
}

/// What a graphics pipeline is compiled from, as values.
pub struct PipelineShape {
    pub vertex_id: ShaderId,
    pub fragment_id: ShaderId,
    pub topology: PrimitiveTopology,
    pub color_formats: Seq<Format>,
    pub depth_format: Option<Format>,
}

impl View for GraphicsPipelineDesc {
    type V = PipelineShape;

    open spec fn view(&self) -> PipelineShape {
        PipelineShape {
            vertex_id: self.vertex_id,
            fragment_id: self.fragment_id,
            topology: self.topology,
            color_formats: self.color_formats@,
            depth_format: self.depth_format,
        }
    }
}

/// A compiled pipeline and its layout.
#[derive(Clone, Copy, Debug, PartialEq, Eq, Structural)]
pub struct PipelineEntry {
    pub pipeline: Handle,
    pub layout: Handle,
    pub generation: u32,
}

/// Registry of compiled pipelines.
pub struct PipelineManager {
    entries: Arena<PipelineEntry>,
}

impl PipelineManager {
    /// The pipelines held, by key.
    pub closed spec fn entries(&self) -> Map<u64, PipelineEntry> {
        self.entries@
    }

    /// The registry's invariant.
    pub closed spec fn wf(&self) -> bool {
        self.entries.wf()
    }

    /// A registry that holds no pipeline.
    pub fn new() -> (manager: Self)
        ensures
            manager.wf(),
            manager.entries() == Map::<u64, PipelineEntry>::empty(),
    {
        PipelineManager { entries: Arena::new() }
    }

    /// Takes a compiled pipeline into the registry. Fails, changing
    /// nothing, only when the registry has no room left.
    pub fn insert(&mut self, entry: PipelineEntry) -> (key: Option<PipelineKey>)
        requires
            old(self).wf(),
        ensures
            final(self).wf(),
            match key {
                Some(k) => {
                    &&& old(self).entries().len() < SLOT_LIMIT
                    &&& !old(self).entries().contains_key(k.0)
                    &&& final(self).entries() == old(self).entries().insert(k.0, entry)
                },
                None => {
                    &&& old(self).entries().len() >= SLOT_LIMIT
                    &&& final(self).entries() == old(self).entries()
                },
            },
    {
        if !self.entries.has_room() {
            return None;
        }
        Some(PipelineKey(self.entries.insert(entry)))
    }

    /// Takes every pipeline out of the registry and hands them out for
    /// destruction, each once.
    pub fn destroy(&mut self) -> (released: Vec<(u64, PipelineEntry)>)
        requires
            old(self).wf(),
        ensures
            final(self).wf(),
            final(self).entries() == Map::<u64, PipelineEntry>::empty(),
            forall|key: u64|
                old(self).entries().contains_key(key) <==> exists|j: int|
                    0 <= j < released@.len() && (#[trigger] released@[j]).0 == key,
            forall|j: int|
                0 <= j < released@.len() ==> (#[trigger] released@[j]).1 == old(
                    self,
                ).entries()[released@[j].0],
            forall|a: int, b: int|
                0 <= a < b < released@.len() ==> (#[trigger] released@[a]).0 != (
                #[trigger] released@[b]).0,
    {
        self.entries.drain()
    }

    /// The pipeline under `key`, if the key is in use.
    pub fn get_pipeline(&self, key: &PipelineKey) -> (pipeline: Option<Handle>)
        requires
            self.wf(),
        ensures
            pipeline == (if self.entries().contains_key(key.0) {
                Some(self.entries()[key.0].pipeline)
            } else {
                None
            }),
    {
        match self.entries.get(key.0) {
            Some(entry) => Some(entry.pipeline),
            None => None,
        }
    }

    /// The layout of the pipeline under `key`, if the key is in use.
    pub fn get_pipeline_layout(&self, key: &PipelineKey) -> (layout: Option<Handle>)
        requires
            self.wf(),
        ensures
            layout == (if self.entries().contains_key(key.0) {
                Some(self.entries()[key.0].layout)
            } else {
                None
            }),
    {
        match self.entries.get(key.0) {
            Some(entry) => Some(entry.layout),
            None => None,
        }
    }
}

} // verus!
