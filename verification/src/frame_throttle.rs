//! The throttle in front of the camera stream's decoder: while one frame is being
//! decoded, frames that arrive are dropped rather than queued.
use vstd::prelude::*;

verus! {

/// What to do with a camera frame that has just arrived.
#[derive(PartialEq, Eq, Structural, Clone, Copy, Debug)]
pub enum FrameAction {
    /// Decode the frame and show it.
    Decode,
    /// Drop the frame: another one is still being decoded.
    Drop,
}

/// The throttle's next state and the action for a frame that arrives while the
/// throttle is `busy` or not.
pub open spec fn throttle_on_arrival(busy: bool) -> (bool, FrameAction) {
    if busy {
        (true, FrameAction::Drop)
    } else {
        (true, FrameAction::Decode)
    }
}

/// The throttle's state once the frame in decoding is done with, whether it was
/// shown or its decoding failed.
pub open spec fn throttle_on_finish(busy: bool) -> bool {
    false
}

/// Admits at most one camera frame into decoding at a time.
pub struct FrameThrottle {
    busy: bool,
}

impl View for FrameThrottle {
    type V = bool;

    /// Whether a frame is being decoded.
    closed spec fn view(&self) -> bool {
        self.busy
    }
}

impl FrameThrottle {
    /// A throttle with no frame in decoding.
    pub fn new() -> (throttle: Self)
        ensures
            !throttle@,
    {
        FrameThrottle { busy: false }
    }

    /// Whether a frame is being decoded.
    pub fn is_busy(&self) -> (busy: bool)
        ensures
            busy == self@,
    {
        self.busy
    }

    /// A frame arrived. When none is in decoding, the new frame is admitted
    /// and the throttle becomes busy; otherwise the new frame is dropped and the
    /// throttle stays as it is.
    pub fn frame_arrived(&mut self) -> (action: FrameAction)
        ensures
            (final(self)@, action) == throttle_on_arrival(old(self)@),
    {
        if self.busy {
            FrameAction::Drop
        } else {
            self.busy = true;
            FrameAction::Decode
        }
    }

    /// The frame in decoding is done with (shown, or its decoding failed):
    /// the throttle admits the next frame again.
    pub fn frame_finished(&mut self)
        ensures
            final(self)@ == throttle_on_finish(old(self)@),
    {
        self.busy = false;
    }
}

/// At most one frame is in decoding: of two frames that arrive with no
/// finish between them, the second is dropped, whatever the throttle's state.
pub proof fn lemma_second_arrival_dropped(busy: bool)
    ensures
        throttle_on_arrival(throttle_on_arrival(busy).0).1 == FrameAction::Drop,
{
}

/// A dropped frame leaves the throttle as it was.
pub proof fn lemma_drop_keeps_state(busy: bool)
    ensures
        throttle_on_arrival(busy).1 == FrameAction::Drop ==> throttle_on_arrival(busy).0 == busy,
{
}

/// Once the frame in decoding is done with, the next frame that arrives is
/// decoded, whatever the throttle's state was.
pub proof fn lemma_arrival_after_finish_decoded(busy: bool)
    ensures
        throttle_on_arrival(throttle_on_finish(busy)).1 == FrameAction::Decode,
{
}

} // verus!
