//! What the stages of the engine tell one another, and the shutdown phase
//! that they all watch.

use std::sync::atomic::AtomicU8;
use std::sync::atomic::Ordering;

use vstd::prelude::*;

verus! {

/// A request to upload an asset.
#[derive(Debug, Clone, Copy, PartialEq, Eq, Structural)]
pub struct UploadRequest {
    pub asset_id: u32,
}

/// A request to render an asset.
#[derive(Debug, Clone, Copy, PartialEq, Eq, Structural)]
pub struct RenderRequest {
    pub asset_id: u32,
}

/// The notice that an asset is uploaded.
#[derive(Debug, Clone, Copy, PartialEq, Eq, Structural)]
pub struct UploadComplete {
    pub asset_id: u32,
}

/// The phase of the shutdown. The stages stop one after the other, each
/// when its phase is reached.
#[derive(Debug, Copy, Clone, PartialEq, Eq, Structural)]
pub enum ShutdownPhase {
    Running,
    StopGameplay,
    StopUpload,
    StopRender,
}

impl ShutdownPhase {
    /// The phase as a number.
    pub open spec fn spec_to_raw(self) -> u8 {
        match self {
            ShutdownPhase::Running => 0,
            ShutdownPhase::StopGameplay => 1,
            ShutdownPhase::StopUpload => 2,
            ShutdownPhase::StopRender => 3,
        }
    }

    #[verifier::when_used_as_spec(spec_to_raw)]
    pub fn to_raw(self) -> (raw: u8)
        ensures
            raw == self.spec_to_raw(),
    {
        match self {
            ShutdownPhase::Running => 0,
            ShutdownPhase::StopGameplay => 1,
            ShutdownPhase::StopUpload => 2,
            ShutdownPhase::StopRender => 3,
        }
    }

    /// The phase that a number stands for. Every number past the last
    /// phase stands for the last phase.
    pub open spec fn spec_from_raw(raw: u8) -> ShutdownPhase {
        if raw == 0 {
            ShutdownPhase::Running
        } else if raw == 1 {
            ShutdownPhase::StopGameplay
        } else if raw == 2 {
            ShutdownPhase::StopUpload
        } else {
            ShutdownPhase::StopRender
        }
    }

    #[verifier::when_used_as_spec(spec_from_raw)]
    pub fn from_raw(raw: u8) -> (phase: ShutdownPhase)
        ensures
            phase == Self::spec_from_raw(raw),
    {
        match raw {
            0 => ShutdownPhase::Running,
            1 => ShutdownPhase::StopGameplay,
            2 => ShutdownPhase::StopUpload,
            _ => ShutdownPhase::StopRender,
        }
    }

    /// The phase that follows this one in a shutdown; the last phase
    /// follows itself.
    pub fn next(self) -> (phase: ShutdownPhase)
        ensures
            phase == match self {
                ShutdownPhase::Running => ShutdownPhase::StopGameplay,
                ShutdownPhase::StopGameplay => ShutdownPhase::StopUpload,
                ShutdownPhase::StopUpload => ShutdownPhase::StopRender,
                ShutdownPhase::StopRender => ShutdownPhase::StopRender,
            },
    {
        match self {
            ShutdownPhase::Running => ShutdownPhase::StopGameplay,
            ShutdownPhase::StopGameplay => ShutdownPhase::StopUpload,
            ShutdownPhase::StopUpload => ShutdownPhase::StopRender,
            ShutdownPhase::StopRender => ShutdownPhase::StopRender,
        }
    }
}

/// A phase survives the way through its number.
pub proof fn lemma_phase_round_trip(phase: ShutdownPhase)
    ensures
        ShutdownPhase::spec_from_raw(phase.spec_to_raw()) == phase,
{
}

/// The shutdown phase, shared by all stages.
pub struct EngineControl {
    phase: AtomicU8,
}

impl EngineControl {
    /// A control in the running phase.
    pub fn new() -> Self {
        EngineControl { phase: AtomicU8::new(ShutdownPhase::Running.to_raw()) }
    }

    /// Publishes `phase` to all stages.
    pub fn set_phase(&self, phase: ShutdownPhase) {
        self.phase.store(phase.to_raw(), Ordering::Release);
    }

    /// The phase that was published last, by whichever stage.
    pub fn phase(&self) -> ShutdownPhase {
        ShutdownPhase::from_raw(self.phase.load(Ordering::Acquire))
    }
}

} // verus!
