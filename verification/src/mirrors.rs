//! The local windows that mirror remote ones.

use crate::mapping::InputMapping;
use crate::model::{OpenedView, OpenedWindow};
use crate::names::{named, NameMap};
use crate::pixels::BgraFrame;
use crate::protocol::{ClientMessage, MouseAction, MouseButton, WindowId, WindowKind};
use crate::scalar::Scalar;
use std::collections::HashMap;
use vstd::prelude::*;
use vstd::string::StringExecFns;

verus! {

broadcast use vstd::std_specs::hash::group_hash_axioms;

/// A local window, as the windowing system identifies it.
pub type LocalId = u64;

/// The least time between two forwarded pointer moves, in nanoseconds
/// (about 60 Hz).
pub const MOVE_INTERVAL: u64 = 16_000_000;

/// The modifier keys that are held down.
#[derive(Debug, Clone, Copy, PartialEq, Eq, Structural)]
pub struct Modifiers {
    pub shift: bool,
    pub control: bool,
    pub alt: bool,
    pub command: bool,
}

/// The CGEventFlags bits of some modifiers (macOS mask constants).
pub open spec fn flag_bits(mods: Modifiers) -> int {
    (if mods.shift {
        0x0002_0000int
    } else {
        0
    }) + (if mods.control {
        0x0004_0000int
    } else {
        0
    }) + (if mods.alt {
        0x0008_0000int
    } else {
        0
    }) + (if mods.command {
        0x0010_0000int
    } else {
        0
    })
}

/// Modifiers to CGEventFlags bits.
pub fn cg_flags(mods: Modifiers) -> (f: u64)
    ensures
        f == flag_bits(mods),
{
    let mut f: u64 = 0;
    if mods.shift {
        f += 0x0002_0000;  // kCGEventFlagMaskShift
    }
    if mods.control {
        f += 0x0004_0000;  // kCGEventFlagMaskControl
    }
    if mods.alt {
        f += 0x0008_0000;  // kCGEventFlagMaskAlternate
    }
    if mods.command {
        f += 0x0010_0000;  // kCGEventFlagMaskCommand
    }
    f
}

impl Modifiers {
    /// No modifier.
    pub fn none() -> (m: Modifiers)
        ensures
            m == (Modifiers { shift: false, control: false, alt: false, command: false }),
    {
        Modifiers { shift: false, control: false, alt: false, command: false }
    }
}

/// A button of the local pointer.
#[derive(Debug, Clone, Copy, PartialEq, Eq, Structural)]
pub enum LocalButton {
    Left,
    Right,
    Other,
}

/// What happened to a local window. Points are in host window points, the
/// local scale and the input mapping already applied.
#[derive(Debug, Clone, Copy)]
pub enum WindowInput {
    RedrawRequested,
    ModifiersChanged { modifiers: Modifiers },
    /// A key by its native code, where it has one.
    KeyboardInput { down: bool, is_q: bool, code: Option<u32> },
    CursorMoved { position: (Scalar, Scalar), point: (Scalar, Scalar), now: u64 },
    Focused { gained: bool },
    MouseInput { pressed: bool, button: LocalButton, point: (Scalar, Scalar) },
    /// `far` says whether the size is a point or more off the last one the
    /// host and this window agreed on.
    Resized { size: (Scalar, Scalar), far: bool },
    ScaleFactorChanged,
    CloseRequested,
    Other,
}

/// How a local window is created. None takes the focus.
#[derive(Debug, PartialEq)]
pub struct WindowAttributes {
    pub title: String,
    pub width: Scalar,
    pub height: Scalar,
    pub resizable: bool,
    pub decorated: bool,
    pub always_on_top: bool,
    pub transparent: bool,
    /// The mirror it is placed by, and how far from it in host points.
    pub placement: Option<(LocalId, Scalar, Scalar)>,
}

/// The attributes of a normal window's mirror: resizable, for the size is
/// kept in sync both ways.
pub open spec fn normal_attributes(title: String, width: Scalar, height: Scalar) -> WindowAttributes {
    WindowAttributes {
        title,
        width,
        height,
        resizable: true,
        decorated: true,
        always_on_top: false,
        transparent: false,
        placement: None,
    }
}

/// The attributes of a normal window's mirror.
pub fn plain_attributes(title: &String, width: Scalar, height: Scalar) -> (a: WindowAttributes)
    ensures
        a == normal_attributes(*title, width, height),
{
    WindowAttributes {
        title: title.clone(),
        width,
        height,
        resizable: true,
        decorated: true,
        always_on_top: false,
        transparent: false,
        placement: None,
    }
}

/// What a window program asks of the windowing system and its connection.
pub enum UiAction {
    /// Create a window; report it as created together with the announcement.
    CreateWindow { attributes: WindowAttributes, announcement: OpenedWindow },
    DropWindow { window: LocalId },
    DropAllWindows,
    RequestRedraw { window: LocalId },
    /// Paint the window now.
    Redraw { window: LocalId },
    SetTitle { window: LocalId, title: String },
    RequestInnerSize { window: LocalId, width: Scalar, height: Scalar },
    Send { msg: ClientMessage },
    /// Show the program's own icon in the Dock.
    DefaultIcon,
    /// Show the host application's icon, marked as a mirror's.
    BadgeIcon { png: Vec<u8> },
    Exit,
}

/// What a [`UiAction`] says.
pub ghost enum UiView {
    CreateWindow { attributes: WindowAttributes, announcement: OpenedView },
    DropWindow { window: LocalId },
    DropAllWindows,
    RequestRedraw { window: LocalId },
    Redraw { window: LocalId },
    SetTitle { window: LocalId, title: Seq<char> },
    RequestInnerSize { window: LocalId, width: Scalar, height: Scalar },
    Send { msg: ClientMessage },
    DefaultIcon,
    BadgeIcon { png: Seq<u8> },
    Exit,
}

impl View for UiAction {
    type V = UiView;

    open spec fn view(&self) -> UiView {
        match *self {
            UiAction::CreateWindow { attributes, announcement } => UiView::CreateWindow {
                attributes,
                announcement: announcement@,
            },
            UiAction::DropWindow { window } => UiView::DropWindow { window },
            UiAction::DropAllWindows => UiView::DropAllWindows,
            UiAction::RequestRedraw { window } => UiView::RequestRedraw { window },
            UiAction::Redraw { window } => UiView::Redraw { window },
            UiAction::SetTitle { window, title } => UiView::SetTitle { window, title: title@ },
            UiAction::RequestInnerSize { window, width, height } => UiView::RequestInnerSize {
                window,
                width,
                height,
            },
            UiAction::Send { msg } => UiView::Send { msg },
            UiAction::DefaultIcon => UiView::DefaultIcon,
            UiAction::BadgeIcon { png } => UiView::BadgeIcon { png: png@ },
            UiAction::Exit => UiView::Exit,
        }
    }
}

pub open spec fn ui_views(actions: Seq<UiAction>) -> Seq<UiView> {
    actions.map_values(|a: UiAction| a@)
}

/// No action.
pub fn no_action() -> (r: Vec<UiAction>)
    ensures
        ui_views(r@) == Seq::<UiView>::empty(),
{
    let r: Vec<UiAction> = Vec::new();
    assert(ui_views(r@) =~= Seq::<UiView>::empty());
    r
}

/// One action.
pub fn one_action(a: UiAction) -> (r: Vec<UiAction>)
    ensures
        ui_views(r@) == seq![a@],
{
    let mut r: Vec<UiAction> = Vec::new();
    r.push(a);
    assert(ui_views(r@) =~= seq![a@]);
    r
}

/// A local window that mirrors a remote one, `C` being what it has to paint.
pub struct Mirror<C> {
    pub content: C,
    pub remote_id: WindowId,
    pub kind: WindowKind,
    /// Title without the " (minimized)" suffix; re-applied on restore/rename.
    pub base_title: String,
    pub minimized: bool,
    /// Last size the host told us about: the echo guard for resizes, so a
    /// host-driven resize (which is applied locally) does not bounce straight
    /// back out as a client-initiated request.
    pub last_host_size: (Scalar, Scalar),
    pub cursor: (Scalar, Scalar),
    /// When a pointer move was last sent for this mirror, in nanoseconds.
    pub last_move_sent: u64,
    /// Pointer-coordinate transform for the current stream state: identity
    /// except while an oversized child window letterboxes the frame.
    pub mapping: InputMapping,
}

/// The title that a mirror shows.
pub open spec fn shown_title(base: Seq<char>, minimized: bool) -> Seq<char> {
    if minimized {
        base + " (minimized)"@
    } else {
        base
    }
}

pub fn title_to_show(base: &String, minimized: bool) -> (t: String)
    ensures
        t@ == shown_title(base@, minimized),
{
    let mut t: String = base.clone();
    if minimized {
        t.append(" (minimized)");
    }
    t
}

/// A change of one mirror.
pub enum MirrorEdit<C> {
    Content { content: C },
    Minimized { minimized: bool },
    Title { title: String },
    HostSize { size: (Scalar, Scalar) },
    Cursor { position: (Scalar, Scalar) },
    MoveSent { now: u64 },
    Mapping { mapping: InputMapping },
}

impl<C> MirrorEdit<C> {
    pub open spec fn of(self, m: Mirror<C>) -> Mirror<C> {
        match self {
            MirrorEdit::Content { content } => Mirror { content, ..m },
            MirrorEdit::Minimized { minimized } => Mirror { minimized, ..m },
            MirrorEdit::Title { title } => Mirror { base_title: title, ..m },
            MirrorEdit::HostSize { size } => Mirror { last_host_size: size, ..m },
            MirrorEdit::Cursor { position } => Mirror { cursor: position, ..m },
            MirrorEdit::MoveSent { now } => Mirror { last_move_sent: now, ..m },
            MirrorEdit::Mapping { mapping } => Mirror { mapping, ..m },
        }
    }

    fn apply(self, m: Mirror<C>) -> (r: Mirror<C>)
        ensures
            r == self.of(m),
    {
        let mut r = m;
        match self {
            MirrorEdit::Content { content } => {
                r.content = content;
            },
            MirrorEdit::Minimized { minimized } => {
                r.minimized = minimized;
            },
            MirrorEdit::Title { title } => {
                r.base_title = title;
            },
            MirrorEdit::HostSize { size } => {
                r.last_host_size = size;
            },
            MirrorEdit::Cursor { position } => {
                r.cursor = position;
            },
            MirrorEdit::MoveSent { now } => {
                r.last_move_sent = now;
            },
            MirrorEdit::Mapping { mapping } => {
                r.mapping = mapping;
            },
        }
        r
    }
}

/// The mirrors of a process, and how they are found.
pub struct MirrorSet<C> {
    /// Frames that arrived before the mirror window existed, by track.
    early_frames: NameMap<BgraFrame>,
    mirrors: HashMap<LocalId, Mirror<C>>,
    by_remote: HashMap<WindowId, LocalId>,
    by_track: NameMap<LocalId>,
}

/// What a [`MirrorSet`] holds.
pub ghost struct MirrorsView<C> {
    pub early_frames: Map<Seq<char>, BgraFrame>,
    pub mirrors: Map<LocalId, Mirror<C>>,
    pub by_remote: Map<WindowId, LocalId>,
    pub by_track: Map<Seq<char>, LocalId>,
}

impl<C> View for MirrorSet<C> {
    type V = MirrorsView<C>;

    closed spec fn view(&self) -> MirrorsView<C> {
        MirrorsView {
            early_frames: self.early_frames@,
            mirrors: self.mirrors@,
            by_remote: self.by_remote@,
            by_track: self.by_track@,
        }
    }
}

impl<C> MirrorsView<C> {
    /// Every mirror is found by its remote window and by nothing else, and a
    /// track leads to a mirror.
    pub open spec fn wf(self) -> bool {
        &&& forall|r: WindowId| #[trigger]
            self.by_remote.contains_key(r) ==> {
                &&& self.mirrors.contains_key(self.by_remote[r])
                &&& self.mirrors[self.by_remote[r]].remote_id == r
            }
        &&& forall|w: LocalId| #[trigger]
            self.mirrors.contains_key(w) ==> {
                &&& self.by_remote.contains_key(self.mirrors[w].remote_id)
                &&& self.by_remote[self.mirrors[w].remote_id] == w
            }
        &&& forall|t: Seq<char>| #[trigger]
            self.by_track.contains_key(t) ==> self.mirrors.contains_key(self.by_track[t])
    }

    pub open spec fn none() -> MirrorsView<C> {
        MirrorsView {
            early_frames: Map::empty(),
            mirrors: Map::empty(),
            by_remote: Map::empty(),
            by_track: Map::empty(),
        }
    }

    /// The mirror of a remote window.
    pub open spec fn window_for(self, remote: WindowId) -> Option<LocalId> {
        if self.by_remote.contains_key(remote) && self.mirrors.contains_key(
            self.by_remote[remote],
        ) {
            Some(self.by_remote[remote])
        } else {
            None
        }
    }

    /// With one mirror changed, if it is there.
    pub open spec fn edited(self, w: LocalId, edit: MirrorEdit<C>) -> MirrorsView<C> {
        if self.mirrors.contains_key(w) {
            MirrorsView { mirrors: self.mirrors.insert(w, edit.of(self.mirrors[w])), ..self }
        } else {
            self
        }
    }

    /// The tracks that lead to a window.
    pub open spec fn tracks_to(self, w: LocalId) -> Set<Seq<char>> {
        Set::new(|t: Seq<char>| self.by_track.contains_key(t) && self.by_track[t] == w)
    }

    /// Without the mirror of a remote window, its tracks and the frames that
    /// came early on them.
    pub open spec fn without(self, remote: WindowId) -> MirrorsView<C> {
        if self.by_remote.contains_key(remote) {
            let w = self.by_remote[remote];
            MirrorsView {
                early_frames: self.early_frames.remove_keys(self.tracks_to(w)),
                mirrors: self.mirrors.remove(w),
                by_remote: self.by_remote.remove(remote),
                by_track: self.by_track.remove_keys(self.tracks_to(w)),
            }
        } else {
            self
        }
    }

    /// With a new mirror, found by its remote window and, when `track` is
    /// given, by its track.
    pub open spec fn with(self, w: LocalId, m: Mirror<C>, track: Option<Seq<char>>) -> MirrorsView<C> {
        MirrorsView {
            mirrors: self.mirrors.insert(w, m),
            by_remote: self.by_remote.insert(m.remote_id, w),
            by_track: match track {
                Some(t) => self.by_track.insert(t, w),
                None => self.by_track,
            },
            ..self
        }
    }

    /// With a frame kept for later.
    pub open spec fn keeping(self, track: Seq<char>, frame: BgraFrame) -> MirrorsView<C> {
        MirrorsView { early_frames: self.early_frames.insert(track, frame), ..self }
    }

    /// The frame that came early on a track.
    pub open spec fn early(self, track: Seq<char>) -> Option<BgraFrame> {
        if self.early_frames.contains_key(track) {
            Some(self.early_frames[track])
        } else {
            None
        }
    }

    /// Without the frame that came early on a track.
    pub open spec fn without_early(self, track: Seq<char>) -> MirrorsView<C> {
        MirrorsView { early_frames: self.early_frames.remove(track), ..self }
    }
}

/// A mirror that was just created.
pub open spec fn fresh_mirror<C>(
    a: OpenedView,
    content: C,
    now: u64,
    mapping: InputMapping,
) -> Mirror<C> {
    Mirror {
        content,
        remote_id: a.info.id,
        kind: a.kind,
        base_title: a.info.title,
        minimized: false,
        last_host_size: (a.info.width, a.info.height),
        cursor: (Scalar { bits: 0 }, Scalar { bits: 0 }),
        last_move_sent: now,
        mapping,
    }
}

impl<C> MirrorSet<C> {
    pub fn new() -> (s: MirrorSet<C>)
        ensures
            s@ == MirrorsView::<C>::none(),
    {
        let s = MirrorSet {
            early_frames: NameMap::new(),
            mirrors: HashMap::new(),
            by_remote: HashMap::new(),
            by_track: NameMap::new(),
        };
        assert(s@.mirrors =~= Map::<LocalId, Mirror<C>>::empty());
        assert(s@.by_remote =~= Map::<WindowId, LocalId>::empty());
        s
    }

    pub fn mirror(&self, w: LocalId) -> (r: Option<&Mirror<C>>)
        ensures
            match r {
                Some(m) => self@.mirrors.contains_key(w) && *m == self@.mirrors[w],
                None => !self@.mirrors.contains_key(w),
            },
    {
        self.mirrors.get(&w)
    }

    pub fn is_empty(&self) -> (b: bool)
        ensures
            b <==> self@.mirrors == Map::<LocalId, Mirror<C>>::empty(),
    {
        let b: bool = self.mirrors.len() == 0;
        proof {
            if b {
                assert(self@.mirrors.dom() =~= Set::<LocalId>::empty());
                assert(self@.mirrors =~= Map::<LocalId, Mirror<C>>::empty());
            }
        }
        b
    }

    pub fn knows_remote(&self, remote: WindowId) -> (b: bool)
        ensures
            b == self@.by_remote.contains_key(remote),
    {
        self.by_remote.contains_key(&remote)
    }

    /// The mirror of a remote window.
    pub fn mirror_for_remote(&self, remote: WindowId) -> (r: Option<LocalId>)
        ensures
            r == self@.window_for(remote),
    {
        match self.by_remote.get(&remote) {
            Some(w) => {
                if self.mirrors.contains_key(w) {
                    Some(*w)
                } else {
                    None
                }
            },
            None => None,
        }
    }

    /// The window that a track leads to.
    pub fn window_of_track(&self, track: &str) -> (r: Option<LocalId>)
        ensures
            r == (if self@.by_track.contains_key(track@) {
                Some(self@.by_track[track@])
            } else {
                None
            }),
    {
        match self.by_track.get(track) {
            Some(w) => Some(*w),
            None => None,
        }
    }

    /// Changes a mirror, if it is there, and says whether it is.
    pub fn edit(&mut self, w: LocalId, edit: MirrorEdit<C>) -> (b: bool)
        ensures
            final(self)@ == old(self)@.edited(w, edit),
            b == old(self)@.mirrors.contains_key(w),
    {
        let ghost before = self.mirrors@;
        match self.mirrors.remove(&w) {
            Some(m) => {
                let m: Mirror<C> = edit.apply(m);
                let _ = self.mirrors.insert(w, m);
                assert(self.mirrors@ =~= before.insert(w, m));
                true
            },
            None => {
                assert(self.mirrors@ =~= before);
                false
            },
        }
    }

    pub fn keep_early(&mut self, track: String, frame: BgraFrame)
        ensures
            final(self)@ == old(self)@.keeping(track@, frame),
    {
        let _ = self.early_frames.insert(track, frame);
    }

    pub fn take_early(&mut self, track: &str) -> (r: Option<BgraFrame>)
        ensures
            r == old(self)@.early(track@),
            final(self)@ == old(self)@.without_early(track@),
    {
        self.early_frames.remove(track)
    }

    /// Adds the mirror of an announced window.
    pub fn add_mirror(
        &mut self,
        w: LocalId,
        announcement: OpenedWindow,
        content: C,
        now: u64,
        mapping: InputMapping,
        by_track: bool,
    )
        ensures
            final(self)@ == old(self)@.with(
                w,
                fresh_mirror(announcement@, content, now, mapping),
                if by_track {
                    Some(announcement.track_id@)
                } else {
                    None
                },
            ),
    {
        let remote: WindowId = announcement.info.id;
        let m = Mirror {
            content,
            remote_id: remote,
            kind: announcement.kind,
            base_title: announcement.info.title,
            minimized: false,
            last_host_size: (announcement.info.width, announcement.info.height),
            cursor: (Scalar::zero(), Scalar::zero()),
            last_move_sent: now,
            mapping,
        };
        assert(Scalar { bits: 0 } == m.cursor.0);
        assert(m == fresh_mirror(announcement@, content, now, mapping));
        let _ = self.mirrors.insert(w, m);
        let _ = self.by_remote.insert(remote, w);
        if by_track {
            let _ = self.by_track.insert(announcement.track_id, w);
        }
    }

    /// Removes the mirror of a remote window and everything that leads to it;
    /// returns its window.
    ///
    /// The frames that came early on its tracks go too: a closed track's
    /// decoder keeps running until the host tears it down, and each frame
    /// that misses the mirror would otherwise be kept forever.
    pub fn remove_remote(&mut self, remote: WindowId) -> (r: Option<LocalId>)
        ensures
            final(self)@ == old(self)@.without(remote),
            r == (if old(self)@.by_remote.contains_key(remote) {
                Some(old(self)@.by_remote[remote])
            } else {
                None
            }),
    {
        let ghost before = self@;
        let w: LocalId = match self.by_remote.remove(&remote) {
            Some(w) => w,
            None => {
                assert(self.by_remote@ =~= before.by_remote);
                return None;
            },
        };
        let _ = self.mirrors.remove(&w);
        assert(self.by_remote@ =~= before.by_remote.remove(remote));
        assert(self.mirrors@ =~= before.mirrors.remove(w));
        let tracks: Vec<String> = self.by_track.keys();
        let mut i: usize = 0;
        while i < tracks.len()
            invariant
                i <= tracks@.len(),
                self.by_remote@ == before.by_remote.remove(remote),
                self.mirrors@ == before.mirrors.remove(w),
                forall|k: Seq<char>| #[trigger] before.by_track.contains_key(k) <==> named(
                    tracks@,
                    k,
                ),
                forall|a: int, b: int| 0 <= a < b < tracks@.len() ==> tracks@[a]@ != tracks@[b]@,
                forall|k: Seq<char>| #[trigger]
                    self.by_track@.contains_key(k) <==> before.by_track.contains_key(k) && !(
                    before.by_track[k] == w && named(tracks@.take(i as int), k)),
                forall|k: Seq<char>| #[trigger]
                    self.by_track@.contains_key(k) ==> self.by_track@[k] == before.by_track[k],
                forall|k: Seq<char>| #[trigger]
                    self.early_frames@.contains_key(k) <==> before.early_frames.contains_key(k)
                        && !(before.by_track.contains_key(k) && before.by_track[k] == w && named(
                        tracks@.take(i as int),
                        k,
                    )),
                forall|k: Seq<char>| #[trigger]
                    self.early_frames@.contains_key(k) ==> self.early_frames@[k]
                        == before.early_frames[k],
            decreases tracks@.len() - i,
        {
            let track: &String = &tracks[i];
            proof {
                let some = tracks@.take(i as int);
                let more = tracks@.take(i + 1);
                assert forall|k: Seq<char>| named(more, k) <==> named(some, k) || k == track@ by {
                    if named(some, k) {
                        let a = choose|a: int| 0 <= a < some.len() && (#[trigger] some[a])@ == k;
                        assert(more[a]@ == k);
                    }
                    if k == track@ {
                        assert(more[i as int]@ == k);
                    }
                    if named(more, k) && k != track@ {
                        let a = choose|a: int| 0 <= a < more.len() && (#[trigger] more[a])@ == k;
                        assert(some[a]@ == k);
                    }
                }
                assert(named(tracks@, track@));
                assert(before.by_track.contains_key(track@));
                assert(!named(some, track@)) by {
                    if named(some, track@) {
                        let a = choose|a: int|
                            0 <= a < some.len() && (#[trigger] some[a])@ == track@;
                        assert(tracks@[a]@ != tracks@[i as int]@);
                    }
                }
                assert(self.by_track@.contains_key(track@));
            }
            let leads: bool = match self.by_track.get(track.as_str()) {
                Some(v) => *v == w,
                None => false,
            };
            if leads {
                let _ = self.by_track.remove(track.as_str());
                let _ = self.early_frames.remove(track.as_str());
            }
            i += 1;
        }
        proof {
            assert(tracks@.take(i as int) =~= tracks@);
            assert(self@.by_track =~= before.by_track.remove_keys(before.tracks_to(w)));
            assert(self@.early_frames =~= before.early_frames.remove_keys(before.tracks_to(w)));
        }
        Some(w)
    }

    /// Forgets every mirror; frames that came early stay.
    pub fn clear(&mut self)
        ensures
            final(self)@ == (MirrorsView::<C> {
                early_frames: old(self)@.early_frames,
                ..MirrorsView::<C>::none()
            }),
    {
        self.mirrors = HashMap::new();
        self.by_remote = HashMap::new();
        self.by_track = NameMap::new();
        assert(self@.mirrors =~= Map::<LocalId, Mirror<C>>::empty());
        assert(self@.by_remote =~= Map::<WindowId, LocalId>::empty());
    }
}

/// Where the button of a click goes; other buttons are not forwarded.
pub open spec fn forwarded_button(b: LocalButton) -> Option<MouseButton> {
    match b {
        LocalButton::Left => Some(MouseButton::Left),
        LocalButton::Right => Some(MouseButton::Right),
        LocalButton::Other => None,
    }
}

pub fn button_to_forward(b: LocalButton) -> (r: Option<MouseButton>)
    ensures
        r == forwarded_button(b),
{
    match b {
        LocalButton::Left => Some(MouseButton::Left),
        LocalButton::Right => Some(MouseButton::Right),
        LocalButton::Other => None,
    }
}

pub open spec fn click_action(pressed: bool) -> MouseAction {
    if pressed {
        MouseAction::Down
    } else {
        MouseAction::Up
    }
}

pub fn action_of(pressed: bool) -> (r: MouseAction)
    ensures
        r == click_action(pressed),
{
    if pressed {
        MouseAction::Down
    } else {
        MouseAction::Up
    }
}

/// A new mirror under a fresh local id for a remote window without one keeps
/// the mirrors in order.
pub proof fn adding_keeps_wf<C>(
    s: MirrorsView<C>,
    w: LocalId,
    m: Mirror<C>,
    track: Option<Seq<char>>,
)
    requires
        s.wf(),
        !s.mirrors.contains_key(w),
        !s.by_remote.contains_key(m.remote_id),
    ensures
        s.with(w, m, track).wf(),
{
}

/// Removing a mirror keeps the others in order and leaves nothing that leads
/// to the removed one: no remote id, no track, no frame kept for its tracks.
pub proof fn removing_leaves_nothing<C>(s: MirrorsView<C>, remote: WindowId)
    requires
        s.wf(),
    ensures
        s.without(remote).wf(),
        !s.without(remote).by_remote.contains_key(remote),
        s.by_remote.contains_key(remote) ==> {
            let w = s.by_remote[remote];
            &&& !s.without(remote).mirrors.contains_key(w)
            &&& forall|t: Seq<char>|
                #![trigger s.without(remote).by_track.contains_key(t)]
                s.by_track.contains_key(t) && s.by_track[t] == w ==> !s.without(
                    remote,
                ).by_track.contains_key(t) && !s.without(remote).early_frames.contains_key(t)
        },
{
}

/// Changing a mirror keeps the mirrors in order.
pub proof fn editing_keeps_wf<C>(s: MirrorsView<C>, w: LocalId, edit: MirrorEdit<C>)
    requires
        s.wf(),
    ensures
        s.edited(w, edit).wf(),
{
}

} // verus!
