//! The host's loop that sends a transient's picture whenever it changes.

use crate::blit::{are_chunks, chunk_blit};
use crate::image::{encode_error, encode_png, png_file};
use crate::pixels::RgbaImage;
use crate::protocol::{HostMessage, WindowId};
use vstd::prelude::*;

verus! {

/// The time between two snapshots, in nanoseconds (about 10 Hz).
pub const BLIT_INTERVAL: u64 = 100_000_000;

/// How many snapshots may fail in a row before the window counts as gone.
pub const MAX_FAILURES: u32 = 2;

/// What the loop does after a snapshot.
pub enum BlitStep {
    /// Send these messages; stop if that fails.
    Send { msgs: Vec<HostMessage> },
    /// Nothing to send.
    Quiet,
    /// The window is gone.
    Stop,
}

/// The state of the loop for one transient.
pub struct BlitLoop {
    window_id: WindowId,
    last_rgba: Option<Vec<u8>>,
    seq: u32,
    failures: u32,
}

/// What a [`BlitLoop`] remembers.
pub ghost struct BlitLoopView {
    pub window_id: WindowId,
    pub last_rgba: Option<Seq<u8>>,
    pub seq: u32,
    pub failures: u32,
}

impl View for BlitLoop {
    type V = BlitLoopView;

    closed spec fn view(&self) -> BlitLoopView {
        BlitLoopView {
            window_id: self.window_id,
            last_rgba: match self.last_rgba {
                Some(d) => Some(d@),
                None => None,
            },
            seq: self.seq,
            failures: self.failures,
        }
    }
}

impl BlitLoopView {
    /// Whether a picture is sent: its pixels changed, and it has a PNG. This
    /// is what makes hover highlights track.
    pub open spec fn sends(self, img: RgbaImage) -> bool {
        self.last_rgba != Some(img.data@) && encode_error(img.width, img.height, img.data@) is None
    }
}

fn same_bytes(a: &Vec<u8>, b: &Vec<u8>) -> (r: bool)
    ensures
        r == (a@ == b@),
{
    if a.len() != b.len() {
        return false;
    }
    let mut i: usize = 0;
    while i < a.len()
        invariant
            i <= a@.len(),
            a@.len() == b@.len(),
            forall|j: int| 0 <= j < i ==> a@[j] == b@[j],
        decreases a@.len() - i,
    {
        if a[i] != b[i] {
            return false;
        }
        i += 1;
    }
    assert(a@ =~= b@);
    true
}

impl BlitLoop {
    pub fn new(window_id: WindowId) -> (l: BlitLoop)
        ensures
            l@ == (BlitLoopView { window_id, last_rgba: None, seq: 0, failures: 0 }),
    {
        BlitLoop { window_id, last_rgba: None, seq: 0, failures: 0 }
    }

    /// A snapshot was taken. A picture that changed is sent as the next
    /// image; one without a PNG is remembered but not sent.
    pub fn on_snapshot(&mut self, img: RgbaImage) -> (s: BlitStep)
        requires
            old(self)@.seq < u32::MAX,
        ensures
            final(self)@ == (BlitLoopView {
                last_rgba: Some(img.data@),
                seq: if old(self)@.sends(img) {
                    (old(self)@.seq + 1) as u32
                } else {
                    old(self)@.seq
                },
                failures: 0,
                ..old(self)@
            }),
            match s {
                BlitStep::Send { msgs } => old(self)@.sends(img) && are_chunks(
                    msgs@,
                    old(self)@.window_id,
                    (old(self)@.seq + 1) as u32,
                    png_file(img.width, img.height, img.data@),
                ),
                BlitStep::Quiet => !old(self)@.sends(img),
                BlitStep::Stop => false,
            },
    {
        self.failures = 0;
        let same: bool = match &self.last_rgba {
            Some(last) => same_bytes(last, &img.data),
            None => false,
        };
        assert(same == (old(self)@.last_rgba == Some(img.data@)));
        if same {
            return BlitStep::Quiet;
        }
        let step = match encode_png(&img) {
            Ok(png) => {
                self.seq += 1;
                BlitStep::Send { msgs: chunk_blit(self.window_id, self.seq, png.as_slice()) }
            },
            Err(_) => BlitStep::Quiet,
        };
        self.last_rgba = Some(img.data);
        step
    }

    /// A snapshot failed.
    pub fn on_failure(&mut self) -> (s: BlitStep)
        requires
            old(self)@.failures < u32::MAX,
        ensures
            final(self)@ == (BlitLoopView {
                failures: (old(self)@.failures + 1) as u32,
                ..old(self)@
            }),
            s == (if old(self)@.failures + 1 >= MAX_FAILURES {
                BlitStep::Stop
            } else {
                BlitStep::Quiet
            }),
    {
        self.failures += 1;
        if self.failures >= MAX_FAILURES {
            BlitStep::Stop
        } else {
            BlitStep::Quiet
        }
    }
}

/// How long to sleep after a round that took `elapsed` nanoseconds; not at
/// all after one that took longer than the interval.
pub fn pause(elapsed: u64) -> (r: Option<u64>)
    ensures
        r == (if elapsed <= BLIT_INTERVAL {
            Some((BLIT_INTERVAL - elapsed) as u64)
        } else {
            None
        }),
{
    if elapsed <= BLIT_INTERVAL {
        Some(BLIT_INTERVAL - elapsed)
    } else {
        None
    }
}

/// A picture that was sent is not sent again until it changes.
pub proof fn unchanged_picture_is_not_resent(v: BlitLoopView, img: RgbaImage, again: RgbaImage)
    requires
        again.data@ == img.data@,
    ensures
        !(BlitLoopView { last_rgba: Some(img.data@), ..v }).sends(again),
{
}

} // verus!
