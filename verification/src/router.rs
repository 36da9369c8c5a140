//! Routes depacketized video access units to the owning helper, and tracks
//! per-track decode progress (reported upstream by helpers) for the PLI stall
//! loop.

use crate::ipc::{DownFrame, DownView};
use crate::names::NameMap;
use vstd::prelude::*;

verus! {

/// No successful decode in this many nanoseconds: the track is stalled and
/// the coordinator keeps requesting keyframes.
pub const STALL_AFTER: u64 = 1_200_000_000;

/// Where each track's access units go, `T` being a helper's channel.
pub struct VideoRouter<T> {
    routes: NameMap<T>,
    /// When the helper last reported a successful decode, in nanoseconds on
    /// a clock that never runs backwards; absent: never.
    progress: NameMap<u64>,
}

impl<T> VideoRouter<T> {
    pub closed spec fn routes(self) -> Map<Seq<char>, T> {
        self.routes@
    }

    pub closed spec fn progress(self) -> Map<Seq<char>, u64> {
        self.progress@
    }

    /// No decode was reported, or the last one too long before `now`.
    pub open spec fn is_stalled(self, track_id: Seq<char>, now: u64) -> bool {
        self.progress().contains_key(track_id) ==> now - self.progress()[track_id] > STALL_AFTER
    }

    pub fn new() -> (r: VideoRouter<T>)
        ensures
            r.routes() == Map::<Seq<char>, T>::empty(),
            r.progress() == Map::<Seq<char>, u64>::empty(),
    {
        VideoRouter { routes: NameMap::new(), progress: NameMap::new() }
    }

    pub fn set_route(&mut self, track_id: &str, tx: T)
        ensures
            final(self).routes() == old(self).routes().insert(track_id@, tx),
            final(self).progress() == old(self).progress(),
    {
        let _ = self.routes.insert(track_id.to_owned(), tx);
    }

    pub fn clear_route(&mut self, track_id: &str)
        ensures
            final(self).routes() == old(self).routes().remove(track_id@),
            final(self).progress() == old(self).progress().remove(track_id@),
    {
        let _ = self.routes.remove(track_id);
        let _ = self.progress.remove(track_id);
    }

    /// The access unit as a frame for the owning helper, with that helper's
    /// channel; `None` while there is no route (window not announced), when
    /// it is dropped. Dropped access units are safe: the PLI stall loop
    /// forces a fresh IDR once a route exists.
    pub fn forward(&self, track_id: &str, au: Vec<u8>) -> (r: Option<(&T, DownFrame)>)
        ensures
            match r {
                Some((tx, frame)) => self.routes().contains_key(track_id@) && *tx
                    == self.routes()[track_id@] && frame@ == (DownView::Video {
                    track_id: track_id@,
                    au: au@,
                }),
                None => !self.routes().contains_key(track_id@),
            },
    {
        match self.routes.get(track_id) {
            Some(tx) => Some((tx, DownFrame::Video { track_id: track_id.to_owned(), au })),
            None => None,
        }
    }

    pub fn mark_progress(&mut self, track_id: &str, now: u64)
        ensures
            final(self).routes() == old(self).routes(),
            final(self).progress() == old(self).progress().insert(track_id@, now),
            !final(self).is_stalled(track_id@, now),
    {
        let _ = self.progress.insert(track_id.to_owned(), now);
    }

    /// Respawn path: force the next `stalled()` poll to be true so the PLI
    /// loop immediately requests an IDR for the fresh decoder.
    pub fn clear_progress(&mut self, track_id: &str)
        ensures
            final(self).routes() == old(self).routes(),
            final(self).progress() == old(self).progress().remove(track_id@),
            forall|now: u64| final(self).is_stalled(track_id@, now),
    {
        let _ = self.progress.remove(track_id);
    }

    pub fn stalled(&self, track_id: &str, now: u64) -> (b: bool)
        ensures
            b == self.is_stalled(track_id@, now),
    {
        match self.progress.get(track_id) {
            None => true,
            Some(t) => now > *t && now - *t > STALL_AFTER,
        }
    }
}

} // verus!
