//! Actions the per-frame input handling asks the renderer to perform.

use vstd::prelude::*;

verus! {

/// What the frame loop should do in response to the user's input this
/// tick, beyond rendering.
#[derive(Debug, Copy, Clone, PartialEq, Eq, Structural)]
pub enum StateAction {
    Screenshot,
    StartRecording,
    FinishRecording,
}

} // verus!
