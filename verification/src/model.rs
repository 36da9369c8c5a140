//! Windows as host and client know them.

use crate::names::NameMap;
use crate::protocol::{WindowId, WindowKind};
use crate::scalar::Scalar;
use vstd::prelude::*;

verus! {

/// A shared window's identity and geometry in host screen points (top-left
/// origin).
#[derive(Debug, PartialEq)]
pub struct WindowInfo {
    pub id: WindowId,
    pub title: String,
    pub x: Scalar,
    pub y: Scalar,
    pub width: Scalar,
    pub height: Scalar,
}

impl Clone for WindowInfo {
    fn clone(&self) -> (copy: WindowInfo)
        ensures
            copy == *self,
    {
        WindowInfo {
            id: self.id,
            title: self.title.clone(),
            x: self.x,
            y: self.y,
            width: self.width,
            height: self.height,
        }
    }
}

/// What accessibility calls a window.
#[derive(Debug, Clone, Copy, PartialEq, Eq, Structural)]
pub enum AxRole {
    Window,
    Sheet,
    Unknown,
}

/// A window in one snapshot of the host's screen.
#[derive(Debug, PartialEq)]
pub struct SnapshotWindow {
    pub info: WindowInfo,
    pub pid: i32,
    pub layer: i64,
    pub on_screen: bool,
    pub ax_role: AxRole,
    pub minimized: bool,
}

impl Clone for SnapshotWindow {
    fn clone(&self) -> (copy: SnapshotWindow)
        ensures
            copy == *self,
    {
        SnapshotWindow {
            info: self.info.clone(),
            pid: self.pid,
            layer: self.layer,
            on_screen: self.on_screen,
            ax_role: self.ax_role,
            minimized: self.minimized,
        }
    }
}

/// A `WindowOpened` announcement paired with its track binding key.
///
/// `info.x`/`info.y` are unused (zero) here: the client's window manager owns
/// mirror placement; `offset` (host points, relative to `parent_id`'s mirror)
/// is what a Sheet/Transient mirror is actually positioned from.
#[derive(Debug, PartialEq)]
pub struct OpenedWindow {
    pub info: WindowInfo,
    pub kind: WindowKind,
    pub parent_id: Option<WindowId>,
    pub offset: (Scalar, Scalar),
    pub track_id: String,
}

impl Clone for OpenedWindow {
    fn clone(&self) -> (copy: OpenedWindow)
        ensures
            copy == *self,
    {
        OpenedWindow {
            info: self.info.clone(),
            kind: self.kind,
            parent_id: self.parent_id,
            offset: self.offset,
            track_id: self.track_id.clone(),
        }
    }
}

/// What an [`OpenedWindow`] says.
pub ghost struct OpenedView {
    pub info: WindowInfo,
    pub kind: WindowKind,
    pub parent_id: Option<WindowId>,
    pub offset: (Scalar, Scalar),
    pub track_id: Seq<char>,
}

impl View for OpenedWindow {
    type V = OpenedView;

    open spec fn view(&self) -> OpenedView {
        OpenedView {
            info: self.info,
            kind: self.kind,
            parent_id: self.parent_id,
            offset: self.offset,
            track_id: self.track_id@,
        }
    }
}

/// Buffers whichever half arrives first, the `WindowOpened` announcement or
/// the media track, and emits the pair once both are present.
pub struct TrackBinder<T> {
    announcements: NameMap<OpenedWindow>,
    tracks: NameMap<T>,
}

/// What a [`TrackBinder`] has waiting.
pub ghost struct BinderView<T> {
    /// Announcements without their track.
    pub announcements: Map<Seq<char>, OpenedWindow>,
    /// Tracks without their announcement.
    pub tracks: Map<Seq<char>, T>,
}

impl<T> BinderView<T> {
    /// No key waits for its own counterpart.
    pub open spec fn wf(self) -> bool {
        self.announcements.dom().disjoint(self.tracks.dom())
    }

    /// The state and the pair, if one is complete, after an announcement.
    pub open spec fn announced(self, a: OpenedWindow) -> (BinderView<T>, Option<(OpenedWindow, T)>) {
        let key = a.track_id@;
        if self.tracks.contains_key(key) {
            (BinderView { tracks: self.tracks.remove(key), ..self }, Some((a, self.tracks[key])))
        } else {
            (BinderView { announcements: self.announcements.insert(key, a), ..self }, None)
        }
    }

    /// The state and the pair, if one is complete, after a track came up.
    pub open spec fn arrived(self, key: Seq<char>, t: T) -> (
        BinderView<T>,
        Option<(OpenedWindow, T)>,
    ) {
        if self.announcements.contains_key(key) {
            (
                BinderView { announcements: self.announcements.remove(key), ..self },
                Some((self.announcements[key], t)),
            )
        } else {
            (BinderView { tracks: self.tracks.insert(key, t), ..self }, None)
        }
    }
}

impl<T> View for TrackBinder<T> {
    type V = BinderView<T>;

    closed spec fn view(&self) -> BinderView<T> {
        BinderView { announcements: self.announcements@, tracks: self.tracks@ }
    }
}

impl<T> TrackBinder<T> {
    pub fn new() -> (b: TrackBinder<T>)
        ensures
            b@.wf(),
            b@ == (BinderView::<T> { announcements: Map::empty(), tracks: Map::empty() }),
    {
        TrackBinder { announcements: NameMap::new(), tracks: NameMap::new() }
    }

    pub fn on_announcement(&mut self, a: OpenedWindow) -> (r: Option<(OpenedWindow, T)>)
        ensures
            (final(self)@, r) == old(self)@.announced(a),
            old(self)@.wf() ==> final(self)@.wf(),
    {
        match self.tracks.remove(a.track_id.as_str()) {
            Some(t) => Some((a, t)),
            None => {
                assert(self.tracks@ =~= old(self).tracks@);
                let _ = self.announcements.insert(a.track_id.clone(), a);
                None
            },
        }
    }

    pub fn on_track(&mut self, track_id: String, t: T) -> (r: Option<(OpenedWindow, T)>)
        ensures
            (final(self)@, r) == old(self)@.arrived(track_id@, t),
            old(self)@.wf() ==> final(self)@.wf(),
    {
        match self.announcements.remove(track_id.as_str()) {
            Some(a) => Some((a, t)),
            None => {
                assert(self.announcements@ =~= old(self).announcements@);
                let _ = self.tracks.insert(track_id, t);
                None
            },
        }
    }
}

impl<T> Default for TrackBinder<T> {
    fn default() -> (b: TrackBinder<T>)
        ensures
            b@.wf(),
            b@ == (BinderView::<T> { announcements: Map::empty(), tracks: Map::empty() }),
    {
        TrackBinder::new()
    }
}

/// An announcement and a track of one key pair up in whichever order they
/// come, and the pair is consumed.
pub proof fn halves_pair_in_either_order<T>(b: BinderView<T>, a: OpenedWindow, t: T)
    requires
        !b.announcements.contains_key(a.track_id@),
        !b.tracks.contains_key(a.track_id@),
    ensures
        b.announced(a).1 is None,
        b.announced(a).0.arrived(a.track_id@, t) == (b, Some((a, t))),
        b.arrived(a.track_id@, t).1 is None,
        b.arrived(a.track_id@, t).0.announced(a) == (b, Some((a, t))),
{
    let key = a.track_id@;
    assert(b.announcements.insert(key, a).remove(key) =~= b.announcements);
    assert(b.tracks.insert(key, t).remove(key) =~= b.tracks);
}

/// Halves with different keys never pair.
pub proof fn unrelated_halves_do_not_pair<T>(
    b: BinderView<T>,
    a: OpenedWindow,
    key: Seq<char>,
    t: T,
)
    requires
        a.track_id@ != key,
        b.arrived(key, t).1 is None,
    ensures
        b.announced(a).0.arrived(key, t).1 is None,
{
}

} // verus!
