//! Per-window pipeline: capture callback, latest-wins slot, encoder.

use crate::pixels::BgraFrame;
use vstd::prelude::*;

verus! {

/// How long the encoder waits for a frame before it looks whether it should
/// stop, in milliseconds.
pub const TAKE_TIMEOUT_MS: u64 = 250;

/// How long a frame lasts, in milliseconds.
pub const SAMPLE_MS: u64 = 33;

/// How many samples are sent between two reports.
pub const REPORT_EVERY: u64 = 300;

/// Single-frame mailbox: push replaces, take consumes. A queue would let the
/// encoder fall behind on stale frames instead of catching up to the latest.
pub struct FrameSlot {
    frame: Option<BgraFrame>,
}

impl View for FrameSlot {
    type V = Option<BgraFrame>;

    closed spec fn view(&self) -> Option<BgraFrame> {
        self.frame
    }
}

impl FrameSlot {
    pub fn new() -> (s: FrameSlot)
        ensures
            s@ == None::<BgraFrame>,
    {
        FrameSlot { frame: None }
    }

    /// Replace whatever frame is waiting (if any).
    pub fn push(&mut self, frame: BgraFrame)
        ensures
            final(self)@ == Some(frame),
    {
        self.frame = Some(frame);
    }

    /// The waiting frame, which is consumed; `None` while there is none.
    pub fn take(&mut self) -> (r: Option<BgraFrame>)
        ensures
            r == old(self)@,
            final(self)@ == None::<BgraFrame>,
    {
        let taken: Option<BgraFrame> = self.frame.take();
        taken
    }
}

/// What the encoder does next.
pub enum PipelineStep {
    /// End the thread.
    Stop,
    /// No frame came in time: look again.
    Wait,
    /// Encode a frame, as a keyframe if one was asked for.
    Encode { frame: BgraFrame, force_idr: bool },
}

/// The state that the capture callback, the session and the encoder share.
pub struct Pipeline {
    slot: FrameSlot,
    shutdown: bool,
    idr: bool,
    sent: u64,
}

/// What a [`Pipeline`] holds.
pub ghost struct PipelineView {
    pub frame: Option<BgraFrame>,
    pub shutdown: bool,
    pub idr: bool,
    pub sent: u64,
}

impl View for Pipeline {
    type V = PipelineView;

    closed spec fn view(&self) -> PipelineView {
        PipelineView {
            frame: self.slot@,
            shutdown: self.shutdown,
            idr: self.idr,
            sent: self.sent,
        }
    }
}

/// The step after the encoder looked at a pipeline. A keyframe request waits
/// for the next frame.
pub open spec fn next_step(v: PipelineView) -> PipelineStep {
    if v.shutdown {
        PipelineStep::Stop
    } else {
        match v.frame {
            None => PipelineStep::Wait,
            Some(frame) => PipelineStep::Encode { frame, force_idr: v.idr },
        }
    }
}

/// The pipeline after the encoder looked at it.
pub open spec fn next_state(v: PipelineView) -> PipelineView {
    if v.shutdown || v.frame is None {
        v
    } else {
        PipelineView { frame: None, idr: false, ..v }
    }
}

impl Pipeline {
    pub fn new() -> (p: Pipeline)
        ensures
            p@ == (PipelineView { frame: None, shutdown: false, idr: false, sent: 0 }),
    {
        Pipeline { slot: FrameSlot::new(), shutdown: false, idr: false, sent: 0 }
    }

    /// Latest-wins push for the capture callback.
    pub fn push(&mut self, frame: BgraFrame)
        ensures
            final(self)@ == (PipelineView { frame: Some(frame), ..old(self)@ }),
    {
        self.slot.push(frame);
    }

    /// PLI response: force the next encoded frame to be an IDR.
    pub fn request_idr(&mut self)
        ensures
            final(self)@ == (PipelineView { idr: true, ..old(self)@ }),
    {
        self.idr = true;
    }

    pub fn stop(&mut self)
        ensures
            final(self)@ == (PipelineView { shutdown: true, ..old(self)@ }),
    {
        self.shutdown = true;
    }

    /// Whether the encoder has nothing to wait for.
    pub fn is_ready(&self) -> (b: bool)
        ensures
            b == (self@.shutdown || self@.frame is Some),
    {
        self.shutdown || self.slot.frame.is_some()
    }

    /// What the encoder does next.
    pub fn next(&mut self) -> (s: PipelineStep)
        ensures
            s == next_step(old(self)@),
            final(self)@ == next_state(old(self)@),
    {
        if self.shutdown {
            return PipelineStep::Stop;
        }
        match self.slot.take() {
            None => PipelineStep::Wait,
            Some(frame) => {
                let force_idr: bool = self.idr;
                self.idr = false;
                PipelineStep::Encode { frame, force_idr }
            },
        }
    }

    /// Whether every sample that can be counted was sent.
    pub fn is_full(&self) -> (b: bool)
        ensures
            b == (self@.sent == u64::MAX),
    {
        self.sent == u64::MAX
    }

    /// A sample was sent; returns the number sent when it is time to report
    /// it.
    pub fn on_sent(&mut self) -> (r: Option<u64>)
        requires
            old(self)@.sent < u64::MAX,
        ensures
            final(self)@ == (PipelineView { sent: (old(self)@.sent + 1) as u64, ..old(self)@ }),
            r == (if (old(self)@.sent + 1) % REPORT_EVERY as int == 0 {
                Some((old(self)@.sent + 1) as u64)
            } else {
                None
            }),
    {
        self.sent += 1;
        if self.sent % REPORT_EVERY == 0 {
            Some(self.sent)
        } else {
            None
        }
    }
}

/// Of two frames pushed in a row the encoder gets the newer one, once.
pub proof fn newest_frame_wins(v: PipelineView, first: BgraFrame, second: BgraFrame)
    requires
        !v.shutdown,
    ensures
        ({
            let v1 = PipelineView { frame: Some(first), ..v };
            let v2 = PipelineView { frame: Some(second), ..v1 };
            &&& next_step(v2) == (PipelineStep::Encode { frame: second, force_idr: v.idr })
            &&& next_step(next_state(v2)) is Wait
        }),
{
}

/// A keyframe request is kept until a frame comes and answered by that frame
/// alone.
pub proof fn keyframe_request_is_answered_once(
    v: PipelineView,
    first: BgraFrame,
    second: BgraFrame,
)
    requires
        !v.shutdown,
        v.frame is None,
    ensures
        ({
            let asked = PipelineView { idr: true, ..v };
            let v1 = PipelineView { frame: Some(first), ..next_state(asked) };
            let v2 = PipelineView { frame: Some(second), ..next_state(v1) };
            &&& next_step(v1) == (PipelineStep::Encode { frame: first, force_idr: true })
            &&& next_step(v2) == (PipelineStep::Encode { frame: second, force_idr: false })
        }),
{
}

} // verus!
