//! Frames: the byte sequences handed to the transport, one write each.

use vstd::prelude::*;
use crate::errors::ChipsError;

verus! {

/// Pause after every frame, in milliseconds. The peripheral has a small
/// receive buffer and no way to say that it is full.
pub const FRAME_DELAY_MS: u64 = 5;

/// Pause after an image's pixel buffer, in milliseconds.
pub const IMAGE_DELAY_MS: u64 = 10;

/// Further pause after the last chunk of a graph, in milliseconds.
pub const GRAPH_DELAY_MS: u64 = 5;

/// Further pause after a restart command, in milliseconds.
pub const RESTART_DELAY_MS: u64 = 1000;

/// One transport write and the pause that follows it.
#[derive(Debug, Clone)]
pub struct Frame {
    pub bytes: Vec<u8>,
    pub delay_ms: u64,
}

/// What a frame is: its bytes, in order, and its pause.
pub ghost struct FrameModel {
    pub bytes: Seq<u8>,
    pub delay_ms: u64,
}

impl View for Frame {
    type V = FrameModel;

    open spec fn view(&self) -> FrameModel {
        FrameModel { bytes: self.bytes@, delay_ms: self.delay_ms }
    }
}

/// The models of a run of frames, in order.
pub open spec fn frame_models(frames: Seq<Frame>) -> Seq<FrameModel> {
    Seq::new(frames.len(), |i: int| frames[i]@)
}

/// Pushing a frame appends its model.
pub proof fn lemma_frame_models_push(frames: Seq<Frame>, frame: Frame)
    ensures
        frame_models(frames.push(frame)) == frame_models(frames).push(frame@),
{
    assert(frame_models(frames.push(frame)) =~= frame_models(frames).push(frame@));
}

/// Joining two runs of frames joins their models.
pub proof fn lemma_frame_models_add(a: Seq<Frame>, b: Seq<Frame>)
    ensures
        frame_models(a + b) == frame_models(a) + frame_models(b),
{
    assert(frame_models(a + b) =~= frame_models(a) + frame_models(b));
}

/// What a drawing request comes to: the frames to write, in
/// order, and whether the request went through. Frames may stand beside a
/// failure: they were due before the failure was found.
#[derive(Debug)]
pub struct Transfer {
    pub frames: Vec<Frame>,
    pub result: Result<(), ChipsError>,
}

/// What a transfer is: its frames' models and its result.
pub ghost struct TransferModel {
    pub frames: Seq<FrameModel>,
    pub result: Result<(), ChipsError>,
}

impl View for Transfer {
    type V = TransferModel;

    open spec fn view(&self) -> TransferModel {
        TransferModel { frames: frame_models(self.frames@), result: self.result }
    }
}

} // verus!
