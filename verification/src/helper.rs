//! The helper's reader: what becomes of the frames that the coordinator sends
//! down.

use crate::ipc::{DownFrame, UpMessage};
use crate::mirror_app::{exit_code, report_due, ExitReason, HelperEvent, ProgressThrottle};
use crate::pixels::BgraFrame;
use crate::protocol::{ClientMessage, HostMessage};
use vstd::prelude::*;

verus! {

/// What the reader does with a frame.
pub enum ReaderStep {
    /// Hand it to the UI thread.
    Tell { ev: HelperEvent },
    /// Decode an access unit with its track's decoder.
    Decode { track_id: String, au: Vec<u8> },
}

/// Control frames and icons go to the UI thread, access units are decoded
/// where they are rendered.
pub fn on_down_frame(frame: DownFrame) -> (s: ReaderStep)
    ensures
        s == (match frame {
            DownFrame::Control(msg) => ReaderStep::Tell { ev: HelperEvent::Host(msg) },
            DownFrame::Icon(png) => ReaderStep::Tell { ev: HelperEvent::Icon(png) },
            DownFrame::Video { track_id, au } => ReaderStep::Decode { track_id, au },
        }),
{
    match frame {
        DownFrame::Control(msg) => ReaderStep::Tell { ev: HelperEvent::Host(msg) },
        DownFrame::Icon(png) => ReaderStep::Tell { ev: HelperEvent::Icon(png) },
        DownFrame::Video { track_id, au } => ReaderStep::Decode { track_id, au },
    }
}

/// An access unit gave a frame at `now`: the UI thread gets it, and the
/// coordinator hears of the progress unless it just did.
pub fn on_decoded(
    throttle: &mut ProgressThrottle,
    track_id: String,
    frame: BgraFrame,
    now: u64,
) -> (r: (Option<UpMessage>, HelperEvent))
    ensures
        r.0 == (if report_due(old(throttle)@, track_id@, now) {
            Some(UpMessage::DecodeProgress { track_id })
        } else {
            None
        }),
        r.1 == (HelperEvent::Frame { track_id, frame }),
        final(throttle)@ == (if report_due(old(throttle)@, track_id@, now) {
            old(throttle)@.insert(track_id@, now)
        } else {
            old(throttle)@
        }),
{
    let up: Option<UpMessage> = if throttle.allow(track_id.as_str(), now) {
        Some(UpMessage::DecodeProgress { track_id: track_id.clone() })
    } else {
        None
    };
    (up, HelperEvent::Frame { track_id, frame })
}

/// The helper's exit status: the reason's code, and success when the event
/// loop ended without one.
pub fn exit_status(reason: Option<ExitReason>) -> (code: i32)
    ensures
        code == (match reason {
            Some(ExitReason::Idle) => crate::mirror_app::EXIT_CODE_IDLE,
            _ => 0,
        }),
{
    match reason {
        Some(reason) => exit_code(reason),
        None => 0,
    }
}

/// The answer of the probe mode, in which a helper has no windows: it acks
/// each announced window with a focus change.
pub fn probe_ack(frame: &DownFrame) -> (r: Option<UpMessage>)
    ensures
        r == (match *frame {
            DownFrame::Control(HostMessage::WindowOpened { window_id, .. }) => Some(
                UpMessage::Relay { msg: ClientMessage::FocusChange { window_id } },
            ),
            _ => None,
        }),
{
    match frame {
        DownFrame::Control(HostMessage::WindowOpened { window_id, .. }) => Some(
            UpMessage::Relay { msg: ClientMessage::FocusChange { window_id: *window_id } },
        ),
        _ => None,
    }
}

} // verus!
