//! Preparation and validation of real-time video captures for objective
//! quality scoring.
//!
//! The library holds the decision core of a per-stream transcoding pipeline:
//! output-path derivation, video-stream selection and mapping, the burned-in
//! timestamp grammar (rendering and optical-recognition parsing), time-base
//! arithmetic, the per-stream transcoder state machine, and the orchestration
//! of demux, flush and cooperative cancellation.  The container, codec, filter
//! and text-recognition collaborators are driven by a thin unverified shell
//! that feeds their outcomes to the functions here as plain values.

pub mod digits;
pub mod mapping;
pub mod naming;
pub mod overlay;
pub mod pipeline;
pub mod recognize;
pub mod settings;
pub mod timing;
pub mod transcoder;

use vstd::prelude::*;

verus! {

/// The transform policy of a whole run: burn a timestamp overlay into every
/// frame, or optically recover the burned-in timestamp and rewrite frame
/// presentation times.  Chosen once at pipeline construction.
#[derive(Clone, Copy, Debug, PartialEq, Eq, Structural)]
pub enum Mode {
    Watermark,
    Recognize,
}

} // verus!
