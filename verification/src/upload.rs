//! The decisions of the upload stage.

use crate::messages::{RenderRequest, ShutdownPhase, UploadComplete, UploadRequest};
use vstd::prelude::*;

verus! {

/// What the upload stage passes on after an upload.
#[derive(Debug, Clone, Copy, PartialEq, Eq, Structural)]
pub struct Forwarded {
    pub render: RenderRequest,
    pub complete: UploadComplete,
}

/// What one turn of the upload stage leaves behind: the number of uploads
/// in flight, and what to pass on, if an upload was made.
#[derive(Debug, Clone, Copy, PartialEq, Eq, Structural)]
pub struct UploadTurn {
    pub in_flight: usize,
    pub forward: Option<Forwarded>,
}

/// Whether the upload stage takes another turn: until its phase of the
/// shutdown is reached and nothing is in flight.
pub open spec fn spec_upload_continues(phase: ShutdownPhase, in_flight: usize) -> bool {
    phase != ShutdownPhase::StopUpload || in_flight > 0
}

#[verifier::when_used_as_spec(spec_upload_continues)]
pub fn upload_continues(phase: ShutdownPhase, in_flight: usize) -> (continues: bool)
    ensures
        continues == spec_upload_continues(phase, in_flight),
{
    phase != ShutdownPhase::StopUpload || in_flight > 0
}

/// Whether the upload stage looks for a request in this turn: only while
/// the engine runs.
pub open spec fn spec_upload_polls(phase: ShutdownPhase) -> bool {
    phase == ShutdownPhase::Running
}

#[verifier::when_used_as_spec(spec_upload_polls)]
pub fn upload_polls(phase: ShutdownPhase) -> (polls: bool)
    ensures
        polls == spec_upload_polls(phase),
{
    phase == ShutdownPhase::Running
}

/// One turn of the upload stage, with `received` the request it found, if
/// it looked for one and there was one. A request found while the engine
/// runs is uploaded and passed on, which puts one more upload in flight, as
/// far as the count goes; then one upload in flight, if there is one,
/// completes.
pub open spec fn spec_upload_turn(
    phase: ShutdownPhase,
    in_flight: usize,
    received: Option<UploadRequest>,
) -> UploadTurn {
    let uploads = phase == ShutdownPhase::Running && received is Some;
    let started: int = if uploads && in_flight < usize::MAX {
        in_flight + 1
    } else {
        in_flight as int
    };
    UploadTurn {
        in_flight: if started == 0 {
            0
        } else {
            (started - 1) as usize
        },
        forward: if uploads {
            Some(
                Forwarded {
                    render: RenderRequest { asset_id: received->Some_0.asset_id },
                    complete: UploadComplete { asset_id: received->Some_0.asset_id },
                },
            )
        } else {
            None
        },
    }
}

#[verifier::when_used_as_spec(spec_upload_turn)]
pub fn upload_turn(phase: ShutdownPhase, in_flight: usize, received: Option<UploadRequest>) -> (turn:
    UploadTurn)
    ensures
        turn == spec_upload_turn(phase, in_flight, received),
{
    let mut in_flight = in_flight;
    let mut forward: Option<Forwarded> = None;
    if phase == ShutdownPhase::Running {
        if let Some(request) = received {
            if in_flight < usize::MAX {
                in_flight = in_flight + 1;
            }
            forward = Some(
                Forwarded {
                    render: RenderRequest { asset_id: request.asset_id },
                    complete: UploadComplete { asset_id: request.asset_id },
                },
            );
        }
    }
    if in_flight > 0 {
        in_flight = in_flight - 1;
    }
    UploadTurn { in_flight, forward }
}

} // verus!
