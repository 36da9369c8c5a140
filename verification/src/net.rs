//! What the client's connection hands to its windows.

use crate::blit::{push_has_gap, push_result, pushed, AssemblerView, BlitAssembler};
use crate::pixels::BgraFrame;
use crate::protocol::{HostMessage, WindowId};
use vstd::prelude::*;

verus! {

/// Events pushed to the UI thread, which drains them on wake.
pub enum UiEvent {
    Host(HostMessage),
    TrackFrame { track_id: String, frame: BgraFrame },
    TrackOpened { track_id: String },
    /// An assembled still image of a transient, as PNG.
    Blit { window_id: WindowId, png: Vec<u8> },
    Disconnected,
}

/// The control messages on their way to the UI thread: chunks of still images
/// are held back until the image is whole.
pub struct Inbox {
    assembler: BlitAssembler,
}

impl View for Inbox {
    type V = AssemblerView;

    closed spec fn view(&self) -> AssemblerView {
        self.assembler@
    }
}

/// The state after a message; a closed window's chunks are forgotten, and a
/// chunk whose image does not add up is dropped.
pub open spec fn inbox_state(a: AssemblerView, msg: HostMessage) -> AssemblerView {
    match msg {
        HostMessage::TransientBlit { .. } => if push_has_gap(a, msg) {
            a
        } else {
            pushed(a, msg)
        },
        HostMessage::WindowClosed { window_id } => a.forgotten(window_id),
        _ => a,
    }
}

impl Inbox {
    pub fn new() -> (i: Inbox)
        ensures
            i@ == (AssemblerView { partials: Map::empty(), completed: Map::empty() }),
    {
        Inbox { assembler: BlitAssembler::new() }
    }

    /// Takes a message of the host and says what the UI thread gets of it.
    pub fn on_host_message(&mut self, msg: HostMessage) -> (r: Option<UiEvent>)
        ensures
            final(self)@ == inbox_state(old(self)@, msg),
            match msg {
                HostMessage::TransientBlit { window_id, .. } => match r {
                    Some(UiEvent::Blit { window_id: w, png }) => !push_has_gap(old(self)@, msg)
                        && push_result(old(self)@, msg) == Some((w, png@)),
                    Some(_) => false,
                    None => push_has_gap(old(self)@, msg) || push_result(old(self)@, msg) is None,
                },
                _ => r == Some(UiEvent::Host(msg)),
            },
    {
        match msg {
            HostMessage::TransientBlit { .. } => match self.assembler.try_push(&msg) {
                Ok(Some((window_id, png))) => Some(UiEvent::Blit { window_id, png }),
                Ok(None) => None,
                Err(_) => None,
            },
            HostMessage::WindowClosed { window_id } => {
                self.assembler.forget(window_id);
                Some(UiEvent::Host(msg))
            },
            _ => Some(UiEvent::Host(msg)),
        }
    }
}

/// The least time between two reports of decode errors, in nanoseconds.
pub const WARN_INTERVAL: u64 = 1_000_000_000;

/// Rate limit for decode-error reports (a bad GOP can produce one per frame):
/// at most one per second per track, folding the rest into a count.
pub struct DecodeErrorLog {
    /// When the last error was reported, in nanoseconds; `None` before the
    /// first.
    last_warn: Option<u64>,
    suppressed: u32,
}

/// What a [`DecodeErrorLog`] knows.
pub ghost struct ErrorLogView {
    pub last_warn: Option<u64>,
    pub suppressed: u32,
}

impl ErrorLogView {
    /// Whether an error at `now` is reported.
    pub open spec fn due(self, now: u64) -> bool {
        self.last_warn is Some ==> now - self.last_warn->0 >= WARN_INTERVAL
    }
}

impl View for DecodeErrorLog {
    type V = ErrorLogView;

    closed spec fn view(&self) -> ErrorLogView {
        ErrorLogView { last_warn: self.last_warn, suppressed: self.suppressed }
    }
}

impl DecodeErrorLog {
    pub fn new() -> (l: DecodeErrorLog)
        ensures
            l@ == (ErrorLogView { last_warn: None, suppressed: 0 }),
    {
        DecodeErrorLog { last_warn: None, suppressed: 0 }
    }

    /// Whether the last report is a second or more ago.
    fn is_due(&self, now: u64) -> (b: bool)
        ensures
            b == self@.due(now),
    {
        match self.last_warn {
            Some(t) => now >= t && now - t >= WARN_INTERVAL,
            None => true,
        }
    }

    /// Whether an error at `now` can be counted.
    pub fn has_room(&self, now: u64) -> (b: bool)
        ensures
            b == (self@.due(now) || self@.suppressed < u32::MAX),
    {
        self.is_due(now) || self.suppressed < u32::MAX
    }

    /// An error occurred at `now`. Returns how many were kept back since the
    /// last report when this one is to be reported, and `None` when it is
    /// kept back too.
    pub fn on_error(&mut self, now: u64) -> (r: Option<u32>)
        requires
            old(self)@.due(now) || old(self)@.suppressed < u32::MAX,
        ensures
            old(self)@.due(now) ==> r == Some(old(self)@.suppressed) && final(self)@ == (
            ErrorLogView { last_warn: Some(now), suppressed: 0 }),
            !old(self)@.due(now) ==> r == None::<u32> && final(self)@ == (ErrorLogView {
                suppressed: (old(self)@.suppressed + 1) as u32,
                ..old(self)@
            }),
    {
        if self.is_due(now) {
            let held: u32 = self.suppressed;
            self.last_warn = Some(now);
            self.suppressed = 0;
            Some(held)
        } else {
            self.suppressed += 1;
            None
        }
    }
}

/// No error is reported within a second of the last report.
pub proof fn reports_are_a_second_apart(l: ErrorLogView, first: u64, second: u64)
    requires
        l.due(first),
    ensures
        (ErrorLogView { last_warn: Some(first), suppressed: 0 }).due(second) <==> second - first
            >= WARN_INTERVAL,
{
}

} // verus!
