//! The decisions of the gameplay stage.

use crate::messages::{ShutdownPhase, UploadRequest};
use vstd::prelude::*;

verus! {

/// What the gameplay stage does next.
#[derive(Debug, Clone, Copy, PartialEq, Eq, Structural)]
pub enum GameplayStep {
    /// Ask for the upload of an asset, wait for its completion, then go on
    /// with `next_asset`.
    Request { request: UploadRequest, next_asset: u32 },
    /// Shut down.
    Stop,
}

/// The step of the gameplay stage in phase `phase`, when `next_asset` is
/// the asset to ask for next: while the engine runs, it asks for that asset
/// and moves on to the one after it; else it stops.
pub open spec fn spec_gameplay_step(phase: ShutdownPhase, next_asset: u32) -> GameplayStep {
    if phase == ShutdownPhase::Running {
        GameplayStep::Request {
            request: UploadRequest { asset_id: next_asset },
            next_asset: if next_asset == u32::MAX {
                0
            } else {
                (next_asset + 1) as u32
            },
        }
    } else {
        GameplayStep::Stop
    }
}

#[verifier::when_used_as_spec(spec_gameplay_step)]
pub fn gameplay_step(phase: ShutdownPhase, next_asset: u32) -> (step: GameplayStep)
    ensures
        step == spec_gameplay_step(phase, next_asset),
{
    if phase == ShutdownPhase::Running {
        GameplayStep::Request {
            request: UploadRequest { asset_id: next_asset },
            next_asset: if next_asset == u32::MAX {
                0
            } else {
                next_asset + 1
            },
        }
    } else {
        GameplayStep::Stop
    }
}

} // verus!
