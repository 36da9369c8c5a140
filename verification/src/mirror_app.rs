//! The mirror helper: one process per shared host app, which owns the app's
//! mirror windows and relays input upstream.
//!
//! [`HelperApp`] decides; its caller owns the windows, performs the
//! [`UiAction`]s in order and reports a created window before the next event.

use crate::mapping::InputMapping;
use crate::mirrors::{
    action_of, button_to_forward, cg_flags, click_action, flag_bits, forwarded_button,
    fresh_mirror, no_action, normal_attributes, one_action, plain_attributes, shown_title,
    title_to_show, ui_views, LocalId, MirrorEdit, MirrorSet, MirrorsView, Modifiers, UiAction,
    UiView, WindowInput, MOVE_INTERVAL,
};
use crate::model::{OpenedView, OpenedWindow, WindowInfo};
use crate::names::NameMap;
use crate::paint::{blank_pixels, paint_blank, paint_video, video_pixels};
use crate::pixels::{packed, BgraFrame};
use crate::protocol::{ClientMessage, HostMessage, WindowId};
use crate::scalar::Scalar;
use std::collections::HashMap;
use vstd::prelude::*;

verus! {

broadcast use vstd::std_specs::hash::group_hash_axioms;

/// Events pushed to the helper's UI thread by the IPC reader thread.
pub enum HelperEvent {
    Host(HostMessage),
    Frame { track_id: String, frame: BgraFrame },
    Icon(Vec<u8>),
    /// Coordinator closed the socket (session over / coordinator quit).
    Eof,
}

#[derive(Debug, Clone, Copy, PartialEq, Eq, Structural)]
pub enum ExitReason {
    /// Cmd-Q: stop mirroring this app (coordinator sends UnsubscribeApp).
    UserQuit,
    /// Last mirror window closed; coordinator may respawn us on demand.
    Idle,
    Eof,
}

/// Exit code of a helper whose last window closed.
pub const EXIT_CODE_IDLE: i32 = 42;

pub fn exit_code(reason: ExitReason) -> (code: i32)
    ensures
        code == (match reason {
            ExitReason::UserQuit => 0,
            ExitReason::Eof => 0,
            ExitReason::Idle => EXIT_CODE_IDLE,
        }),
{
    match reason {
        ExitReason::UserQuit => 0,
        ExitReason::Eof => 0,
        ExitReason::Idle => EXIT_CODE_IDLE,
    }
}

/// The least time between two progress reports of a track, in nanoseconds.
pub const PROGRESS_INTERVAL: u64 = 250_000_000;

/// Per-track rate limit for upstream DecodeProgress (the PLI stall threshold
/// is 1200 ms, so 250 ms granularity is plenty).
pub struct ProgressThrottle {
    last: NameMap<u64>,
}

impl View for ProgressThrottle {
    type V = Map<Seq<char>, u64>;

    /// When each track last reported, in nanoseconds on a steady clock.
    closed spec fn view(&self) -> Map<Seq<char>, u64> {
        self.last@
    }
}

/// Whether a report is due: the first of its track, or long enough after the
/// last. A time before the last one counts as no time at all.
pub open spec fn report_due(last: Map<Seq<char>, u64>, track: Seq<char>, now: u64) -> bool {
    last.contains_key(track) ==> now - last[track] >= PROGRESS_INTERVAL
}

impl ProgressThrottle {
    pub fn new() -> (t: ProgressThrottle)
        ensures
            t@ == Map::<Seq<char>, u64>::empty(),
    {
        ProgressThrottle { last: NameMap::new() }
    }

    pub fn allow(&mut self, track_id: &str, now: u64) -> (b: bool)
        ensures
            b == report_due(old(self)@, track_id@, now),
            final(self)@ == (if b {
                old(self)@.insert(track_id@, now)
            } else {
                old(self)@
            }),
    {
        if let Some(t) = self.last.get(track_id) {
            if now < *t || now - *t < PROGRESS_INTERVAL {
                return false;
            }
        }
        let _ = self.last.insert(track_id.to_owned(), now);
        true
    }
}

impl Default for ProgressThrottle {
    fn default() -> (t: ProgressThrottle)
        ensures
            t@ == Map::<Seq<char>, u64>::empty(),
    {
        ProgressThrottle::new()
    }
}

/// After an allowed report the next one of its track is due exactly when the
/// interval has passed, and other tracks are not affected.
pub proof fn throttle_spaces_reports(
    last: Map<Seq<char>, u64>,
    track: Seq<char>,
    now: u64,
    later: u64,
    other: Seq<char>,
)
    requires
        report_due(last, track, now),
    ensures
        report_due(last.insert(track, now), track, later) <==> later - now >= PROGRESS_INTERVAL,
        other != track ==> (report_due(last.insert(track, now), other, later) <==> report_due(
            last,
            other,
            later,
        )),
{
}

/// What a mirror currently has to paint.
pub enum MirrorContent {
    Blank,
    Video(BgraFrame),
}

pub type Mirror = crate::mirrors::Mirror<MirrorContent>;

/// The helper's windows and what it knows of them.
pub struct HelperApp {
    /// Live modifier state; applied to every `KeyEvent` forwarded to the
    /// host.
    modifiers: Modifiers,
    /// Last `InputMapping` seen for a remote window, kept even for windows
    /// with no live mirror yet: a mapping can arrive before its window and
    /// would otherwise be dropped with no re-send.
    pending_mappings: HashMap<WindowId, InputMapping>,
    mirrors: MirrorSet<MirrorContent>,
    /// Set when the event loop exits, so the binary can pick the right exit
    /// code (`exit_code`).
    exit_reason: Option<ExitReason>,
    /// Whether a window was ever announced: the idle exit only fires once we
    /// have had one (an empty helper freshly spawned is still starting up).
    saw_a_window: bool,
    /// Whether any Dock icon has been applied yet.
    icon_applied: bool,
}

/// What a [`HelperApp`] knows.
pub ghost struct HelperView {
    pub modifiers: Modifiers,
    pub pending_mappings: Map<WindowId, InputMapping>,
    pub set: MirrorsView<MirrorContent>,
    pub exit_reason: Option<ExitReason>,
    pub saw_a_window: bool,
    pub icon_applied: bool,
}

impl View for HelperApp {
    type V = HelperView;

    closed spec fn view(&self) -> HelperView {
        HelperView {
            modifiers: self.modifiers,
            pending_mappings: self.pending_mappings@,
            set: self.mirrors@,
            exit_reason: self.exit_reason,
            saw_a_window: self.saw_a_window,
            icon_applied: self.icon_applied,
        }
    }
}

/// The announcement that a `WindowOpened` makes.
pub open spec fn announcement_of(msg: HostMessage) -> OpenedView
    recommends
        msg is WindowOpened,
{
    OpenedView {
        info: WindowInfo {
            id: msg->WindowOpened_window_id,
            title: msg->WindowOpened_title,
            x: Scalar { bits: 0 },
            y: Scalar { bits: 0 },
            width: msg->WindowOpened_width,
            height: msg->WindowOpened_height,
        },
        kind: msg->kind,
        parent_id: msg->parent_id,
        offset: (msg->WindowOpened_offset_x, msg->WindowOpened_offset_y),
        track_id: match msg->track_id {
            Some(t) => t@,
            None => Seq::empty(),
        },
    }
}

/// The announcement that a `WindowOpened` makes; of any other message,
/// nothing.
pub fn announcement(msg: HostMessage) -> (r: Option<OpenedWindow>)
    ensures
        match r {
            Some(a) => msg is WindowOpened && a@ == announcement_of(msg) && (msg->track_id is Some
                ==> a.track_id == msg->track_id->0),
            None => !(msg is WindowOpened),
        },
{
    match msg {
        HostMessage::WindowOpened {
            window_id,
            title,
            kind,
            parent_id,
            offset_x,
            offset_y,
            width,
            height,
            track_id,
            app_id: _,
        } => {
            let track_id: String = match track_id {
                Some(t) => t,
                None => String::new(),
            };
            let zero: Scalar = Scalar::zero();
            assert(zero == Scalar { bits: 0 });
            Some(
                OpenedWindow {
                    info: WindowInfo { id: window_id, title, x: zero, y: zero, width, height },
                    kind,
                    parent_id,
                    offset: (offset_x, offset_y),
                    track_id,
                },
            )
        },
        _ => None,
    }
}

impl HelperView {
    /// With one mirror changed.
    pub open spec fn edited(self, w: LocalId, edit: MirrorEdit<MirrorContent>) -> HelperView {
        HelperView { set: self.set.edited(w, edit), ..self }
    }

    /// With the mirror of a remote window changed, if there is one.
    pub open spec fn edited_remote(
        self,
        remote: WindowId,
        edit: MirrorEdit<MirrorContent>,
    ) -> HelperView {
        match self.set.window_for(remote) {
            Some(w) => self.edited(w, edit),
            None => self,
        }
    }

    /// Without the mirror of a remote window and the mapping kept for it.
    pub open spec fn closed(self, remote: WindowId) -> HelperView {
        HelperView {
            pending_mappings: self.pending_mappings.remove(remote),
            set: self.set.without(remote),
            ..self
        }
    }

    /// The last mirror is gone: free this Dock tile.
    pub open spec fn is_idle(self) -> bool {
        self.saw_a_window && self.set.mirrors == Map::<LocalId, Mirror>::empty()
    }
}

/// The state after an event.
pub open spec fn event_state(v: HelperView, ev: HelperEvent) -> HelperView {
    match ev {
        HelperEvent::Host(msg) => match msg {
            HostMessage::WindowOpened { .. } => HelperView { saw_a_window: true, ..v },
            HostMessage::WindowMinimized { window_id } => v.edited_remote(
                window_id,
                MirrorEdit::Minimized { minimized: true },
            ),
            HostMessage::WindowRestored { window_id } => v.edited_remote(
                window_id,
                MirrorEdit::Minimized { minimized: false },
            ),
            HostMessage::WindowResized { window_id, width, height } => v.edited_remote(
                window_id,
                MirrorEdit::HostSize { size: (width, height) },
            ),
            HostMessage::WindowTitleChanged { window_id, title } => v.edited_remote(
                window_id,
                MirrorEdit::Title { title },
            ),
            HostMessage::WindowClosed { window_id } => {
                let after = v.closed(window_id);
                if after.is_idle() {
                    HelperView { exit_reason: Some(ExitReason::Idle), ..after }
                } else {
                    after
                }
            },
            HostMessage::InputMapping { window_id, scale_x, scale_y, offset_x, offset_y } => {
                let mapping = InputMapping { scale_x, scale_y, offset_x, offset_y };
                (HelperView {
                    pending_mappings: v.pending_mappings.insert(window_id, mapping),
                    ..v
                }).edited_remote(window_id, MirrorEdit::Mapping { mapping })
            },
            _ => v,
        },
        HelperEvent::Frame { track_id, frame } => if v.set.by_track.contains_key(track_id@) {
            v.edited(
                v.set.by_track[track_id@],
                MirrorEdit::Content { content: MirrorContent::Video(frame) },
            )
        } else {
            HelperView { set: v.set.keeping(track_id@, frame), ..v }
        },
        HelperEvent::Icon(_) => HelperView { icon_applied: true, ..v },
        HelperEvent::Eof => HelperView { exit_reason: Some(ExitReason::Eof), ..v },
    }
}

/// What is done about an event.
pub open spec fn event_actions(v: HelperView, ev: HelperEvent) -> Seq<UiView> {
    match ev {
        HelperEvent::Host(msg) => match msg {
            HostMessage::WindowOpened { window_id, title, width, height, .. } =>
            // A second announcement of a live window would strand the first
            // mirror.
            if v.set.by_remote.contains_key(window_id) {
                Seq::empty()
            } else {
                seq![
                    UiView::CreateWindow {
                        attributes: normal_attributes(title, width, height),
                        announcement: announcement_of(msg),
                    },
                ]
            },
            HostMessage::WindowMinimized { window_id } => match v.set.window_for(window_id) {
                Some(w) => seq![
                    UiView::SetTitle {
                        window: w,
                        title: shown_title(v.set.mirrors[w].base_title@, true),
                    },
                ],
                None => Seq::empty(),
            },
            HostMessage::WindowRestored { window_id } => match v.set.window_for(window_id) {
                Some(w) => if v.set.mirrors[w].minimized {
                    seq![UiView::SetTitle { window: w, title: v.set.mirrors[w].base_title@ }]
                } else {
                    Seq::empty()
                },
                None => Seq::empty(),
            },
            HostMessage::WindowResized { window_id, width, height } => match v.set.window_for(
                window_id,
            ) {
                Some(w) => seq![UiView::RequestInnerSize { window: w, width, height }],
                None => Seq::empty(),
            },
            HostMessage::WindowTitleChanged { window_id, title } => match v.set.window_for(
                window_id,
            ) {
                Some(w) => seq![
                    UiView::SetTitle {
                        window: w,
                        title: shown_title(title@, v.set.mirrors[w].minimized),
                    },
                ],
                None => Seq::empty(),
            },
            HostMessage::WindowClosed { window_id } => (if v.set.by_remote.contains_key(
                window_id,
            ) {
                seq![UiView::DropWindow { window: v.set.by_remote[window_id] }]
            } else {
                Seq::empty()
            }) + (if v.closed(window_id).is_idle() {
                seq![UiView::Exit]
            } else {
                Seq::empty()
            }),
            _ => Seq::empty(),
        },
        HelperEvent::Frame { track_id, .. } => if v.set.by_track.contains_key(track_id@)
            && v.set.mirrors.contains_key(v.set.by_track[track_id@]) {
            seq![UiView::RequestRedraw { window: v.set.by_track[track_id@] }]
        } else {
            Seq::empty()
        },
        HelperEvent::Icon(png) => seq![UiView::BadgeIcon { png: png@ }],
        HelperEvent::Eof => seq![UiView::Exit],
    }
}

/// The mapping that a new mirror starts with: the last one seen, or identity.
pub open spec fn seed_mapping(v: HelperView, remote: WindowId) -> InputMapping {
    if v.pending_mappings.contains_key(remote) {
        v.pending_mappings[remote]
    } else {
        InputMapping::spec_identity()
    }
}

/// What a new mirror starts with: the frame that came early, if one did.
pub open spec fn seed_content(frame: Option<BgraFrame>) -> MirrorContent {
    match frame {
        Some(frame) => MirrorContent::Video(frame),
        None => MirrorContent::Blank,
    }
}

/// The state once a mirror's window was created.
pub open spec fn created_state(v: HelperView, a: OpenedView, w: LocalId, now: u64) -> HelperView {
    HelperView {
        set: v.set.without_early(a.track_id).with(
            w,
            fresh_mirror(
                a,
                seed_content(v.set.early(a.track_id)),
                now,
                seed_mapping(v, a.info.id),
            ),
            Some(a.track_id),
        ),
        ..v
    }
}

impl HelperApp {
    pub fn new() -> (h: HelperApp)
        ensures
            h@ == (HelperView {
                modifiers: Modifiers { shift: false, control: false, alt: false, command: false },
                pending_mappings: Map::empty(),
                set: MirrorsView::none(),
                exit_reason: None,
                saw_a_window: false,
                icon_applied: false,
            }),
    {
        let h = HelperApp {
            modifiers: Modifiers::none(),
            pending_mappings: HashMap::new(),
            mirrors: MirrorSet::new(),
            exit_reason: None,
            saw_a_window: false,
            icon_applied: false,
        };
        assert(h@.pending_mappings =~= Map::<WindowId, InputMapping>::empty());
        h
    }

    /// Why the event loop exited, if it has.
    pub fn exit_reason(&self) -> (r: Option<ExitReason>)
        ensures
            r == self@.exit_reason,
    {
        self.exit_reason
    }

    /// A mirror by its window.
    pub fn mirror(&self, w: LocalId) -> (r: Option<&Mirror>)
        ensures
            match r {
                Some(m) => self@.set.mirrors.contains_key(w) && *m == self@.set.mirrors[w],
                None => !self@.set.mirrors.contains_key(w),
            },
    {
        self.mirrors.mirror(w)
    }

    /// Handles one event from the coordinator.
    pub fn on_event(&mut self, ev: HelperEvent) -> (r: Vec<UiAction>)
        ensures
            final(self)@ == event_state(old(self)@, ev),
            ui_views(r@) == event_actions(old(self)@, ev),
    {
        match ev {
            HelperEvent::Host(msg) => self.on_host_message(msg),
            HelperEvent::Frame { track_id, frame } => match self.mirrors.window_of_track(
                track_id.as_str(),
            ) {
                Some(w) => {
                    let content = MirrorContent::Video(frame);
                    if self.mirrors.edit(w, MirrorEdit::Content { content }) {
                        one_action(UiAction::RequestRedraw { window: w })
                    } else {
                        no_action()
                    }
                },
                None => {
                    self.mirrors.keep_early(track_id, frame);
                    no_action()
                },
            },
            HelperEvent::Icon(png) => {
                self.icon_applied = true;
                one_action(UiAction::BadgeIcon { png })
            },
            HelperEvent::Eof => {
                self.exit_reason = Some(ExitReason::Eof);
                one_action(UiAction::Exit)
            },
        }
    }

    fn on_host_message(&mut self, msg: HostMessage) -> (r: Vec<UiAction>)
        ensures
            final(self)@ == event_state(old(self)@, HelperEvent::Host(msg)),
            ui_views(r@) == event_actions(old(self)@, HelperEvent::Host(msg)),
    {
        match msg {
            HostMessage::WindowOpened { .. } => {
                self.saw_a_window = true;
                match announcement(msg) {
                    Some(a) => self.create_mirror(a),
                    None => no_action(),
                }
            },
            HostMessage::WindowMinimized { window_id } => match self.mirrors.mirror_for_remote(
                window_id,
            ) {
                Some(w) => {
                    let title: String = self.title(w, true);
                    // The last frame stays frozen: the content is untouched.
                    let _ = self.mirrors.edit(w, MirrorEdit::Minimized { minimized: true });
                    one_action(UiAction::SetTitle { window: w, title })
                },
                None => no_action(),
            },
            // An unknown id (e.g. the host's channel-open probe, id 0) is
            // ignored silently.
            HostMessage::WindowRestored { window_id } => match self.mirrors.mirror_for_remote(
                window_id,
            ) {
                Some(w) => {
                    let was: bool = match self.mirrors.mirror(w) {
                        Some(m) => m.minimized,
                        None => false,
                    };
                    let title: String = self.title(w, false);
                    let _ = self.mirrors.edit(w, MirrorEdit::Minimized { minimized: false });
                    if was {
                        one_action(UiAction::SetTitle { window: w, title })
                    } else {
                        no_action()
                    }
                },
                None => no_action(),
            },
            HostMessage::WindowResized { window_id, width, height } => match self.mirrors.mirror_for_remote(
                window_id,
            ) {
                Some(w) => {
                    let _ = self.mirrors.edit(w, MirrorEdit::HostSize { size: (width, height) });
                    one_action(UiAction::RequestInnerSize { window: w, width, height })
                },
                None => no_action(),
            },
            HostMessage::WindowTitleChanged { window_id, title } => match self.mirrors.mirror_for_remote(
                window_id,
            ) {
                Some(w) => {
                    let minimized: bool = match self.mirrors.mirror(w) {
                        Some(m) => m.minimized,
                        None => false,
                    };
                    let shown: String = title_to_show(&title, minimized);
                    let _ = self.mirrors.edit(w, MirrorEdit::Title { title });
                    one_action(UiAction::SetTitle { window: w, title: shown })
                },
                None => no_action(),
            },
            HostMessage::WindowClosed { window_id } => self.on_closed(window_id),
            HostMessage::InputMapping { window_id, scale_x, scale_y, offset_x, offset_y } => {
                let mapping = InputMapping { scale_x, scale_y, offset_x, offset_y };
                let _ = self.pending_mappings.insert(window_id, mapping);
                if let Some(w) = self.mirrors.mirror_for_remote(window_id) {
                    let _ = self.mirrors.edit(w, MirrorEdit::Mapping { mapping });
                }
                no_action()
            },
            // Never forwarded to helpers.
            HostMessage::AppAnnounced { .. } => no_action(),
            HostMessage::TransientBlit { .. } => no_action(),
            HostMessage::SdpOffer { .. } => no_action(),
        }
    }

    /// The title that a live mirror shows.
    fn title(&self, w: LocalId, minimized: bool) -> (t: String)
        ensures
            self@.set.mirrors.contains_key(w) ==> t@ == shown_title(
                self@.set.mirrors[w].base_title@,
                minimized,
            ),
    {
        match self.mirrors.mirror(w) {
            Some(m) => title_to_show(&m.base_title, minimized),
            None => String::new(),
        }
    }

    /// Asks for the window of an announced remote window that has no mirror.
    fn create_mirror(&self, a: OpenedWindow) -> (r: Vec<UiAction>)
        ensures
            ui_views(r@) == (if self@.set.by_remote.contains_key(a.info.id) {
                Seq::empty()
            } else {
                seq![
                    UiView::CreateWindow {
                        attributes: normal_attributes(a.info.title, a.info.width, a.info.height),
                        announcement: a@,
                    },
                ]
            }),
    {
        if self.mirrors.knows_remote(a.info.id) {
            return no_action();
        }
        let attributes = plain_attributes(&a.info.title, a.info.width, a.info.height);
        one_action(UiAction::CreateWindow { attributes, announcement: a })
    }

    fn on_closed(&mut self, remote: WindowId) -> (r: Vec<UiAction>)
        ensures
            final(self)@ == event_state(
                old(self)@,
                HelperEvent::Host(HostMessage::WindowClosed { window_id: remote }),
            ),
            ui_views(r@) == event_actions(
                old(self)@,
                HelperEvent::Host(HostMessage::WindowClosed { window_id: remote }),
            ),
    {
        let mut actions: Vec<UiAction> = no_action();
        let _ = self.pending_mappings.remove(&remote);
        assert(self.pending_mappings@ =~= old(self)@.pending_mappings.remove(remote));
        if let Some(window) = self.mirrors.remove_remote(remote) {
            actions.push(UiAction::DropWindow { window });
        }
        if self.saw_a_window && self.mirrors.is_empty() {
            // Last mirror gone. The coordinator keeps our app state and
            // respawns a helper if the host app opens another window.
            self.exit_reason = Some(ExitReason::Idle);
            actions.push(UiAction::Exit);
        }
        assert(ui_views(actions@) =~= event_actions(
            old(self)@,
            HelperEvent::Host(HostMessage::WindowClosed { window_id: remote }),
        ));
        actions
    }

    /// The window of an announced mirror was created at `now`.
    pub fn on_window_created(&mut self, a: OpenedWindow, w: LocalId, now: u64) -> (r: Vec<
        UiAction,
    >)
        ensures
            final(self)@ == created_state(old(self)@, a@, w, now),
            ui_views(r@) == seq![UiView::RequestRedraw { window: w }],
    {
        let content = match self.mirrors.take_early(a.track_id.as_str()) {
            Some(frame) => MirrorContent::Video(frame),
            None => MirrorContent::Blank,
        };
        let mapping: InputMapping = match self.pending_mappings.get(&a.info.id) {
            Some(m) => *m,
            None => InputMapping::identity(),
        };
        self.mirrors.add_mirror(w, a, content, now, mapping, true);
        one_action(UiAction::RequestRedraw { window: w })
    }

    /// The event loop started (again): shows the program's own icon until the
    /// host's arrives, and never in its place.
    pub fn on_resumed(&mut self) -> (r: Vec<UiAction>)
        ensures
            final(self)@ == (HelperView { icon_applied: true, ..old(self)@ }),
            ui_views(r@) == (if old(self)@.icon_applied {
                Seq::empty()
            } else {
                seq![UiView::DefaultIcon]
            }),
    {
        if self.icon_applied {
            no_action()
        } else {
            self.icon_applied = true;
            one_action(UiAction::DefaultIcon)
        }
    }
}

/// The state after something happened to a window.
pub open spec fn input_state(v: HelperView, w: LocalId, input: WindowInput) -> HelperView {
    match input {
        WindowInput::ModifiersChanged { modifiers } => HelperView { modifiers, ..v },
        WindowInput::KeyboardInput { down, is_q, .. } => if v.set.mirrors.contains_key(w) && down
            && is_q && v.modifiers.command {
            HelperView { exit_reason: Some(ExitReason::UserQuit), ..v }
        } else {
            v
        },
        WindowInput::CursorMoved { position, now, .. } => {
            let v1 = v.edited(w, MirrorEdit::Cursor { position });
            if now - v.set.mirrors[w].last_move_sent >= MOVE_INTERVAL {
                v1.edited(w, MirrorEdit::MoveSent { now })
            } else {
                v1
            }
        },
        WindowInput::Resized { size, far } => if far {
            v.edited(w, MirrorEdit::HostSize { size })
        } else {
            v
        },
        _ => v,
    }
}

/// What is done about it.
pub open spec fn input_actions(v: HelperView, w: LocalId, input: WindowInput) -> Seq<UiView> {
    let m = v.set.mirrors[w];
    if input is RedrawRequested {
        seq![UiView::Redraw { window: w }]
    } else if !v.set.mirrors.contains_key(w) {
        Seq::empty()
    } else {
        match input {
            // Local Cmd+Q quits the program; never forwarded. Repeats forward
            // as extra downs: posted events do not auto-repeat on the host.
            WindowInput::KeyboardInput { down, is_q, code } => if down && is_q
                && v.modifiers.command {
                seq![UiView::Exit]
            } else {
                match code {
                    Some(code) => seq![
                        UiView::Send {
                            msg: ClientMessage::KeyEvent {
                                window_id: m.remote_id,
                                key_code: (code % 65536) as u16,
                                down,
                                flags: flag_bits(v.modifiers) as u64,
                            },
                        },
                    ],
                    None => Seq::empty(),
                }
            },
            WindowInput::CursorMoved { point, now, .. } => if now - m.last_move_sent
                >= MOVE_INTERVAL {
                seq![
                    UiView::Send {
                        msg: ClientMessage::MouseMove {
                            window_id: m.remote_id,
                            x: point.0,
                            y: point.1,
                        },
                    },
                ]
            } else {
                Seq::empty()
            },
            WindowInput::Focused { gained } => if gained {
                seq![UiView::Send { msg: ClientMessage::FocusChange { window_id: m.remote_id } }]
            } else {
                Seq::empty()
            },
            WindowInput::MouseInput { pressed, button, point } => match forwarded_button(button) {
                Some(button) => seq![
                    UiView::Send {
                        msg: ClientMessage::MouseInput {
                            window_id: m.remote_id,
                            x: point.0,
                            y: point.1,
                            button,
                            action: click_action(pressed),
                        },
                    },
                ],
                None => Seq::empty(),
            },
            WindowInput::Resized { size, far } => seq![UiView::RequestRedraw { window: w }] + (
            if far {
                seq![
                    UiView::Send {
                        msg: ClientMessage::ResizeRequest {
                            window_id: m.remote_id,
                            width: size.0,
                            height: size.1,
                        },
                    },
                ]
            } else {
                Seq::empty()
            }),
            WindowInput::ScaleFactorChanged => seq![UiView::RequestRedraw { window: w }],
            // The mirror stays: it dies only on the host's WindowClosed.
            WindowInput::CloseRequested => seq![
                UiView::Send { msg: ClientMessage::CloseRequest { window_id: m.remote_id } },
            ],
            _ => Seq::empty(),
        }
    }
}

impl HelperApp {
    /// Handles what happened to one of the windows.
    pub fn window_event(&mut self, w: LocalId, input: WindowInput) -> (r: Vec<UiAction>)
        ensures
            final(self)@ == input_state(old(self)@, w, input),
            ui_views(r@) == input_actions(old(self)@, w, input),
    {
        match input {
            WindowInput::RedrawRequested => {
                return one_action(UiAction::Redraw { window: w });
            },
            WindowInput::ModifiersChanged { modifiers } => {
                self.modifiers = modifiers;
                return no_action();
            },
            _ => {},
        }
        let (remote, last_move): (WindowId, u64) = match self.mirrors.mirror(w) {
            Some(m) => (m.remote_id, m.last_move_sent),
            None => {
                return no_action();
            },
        };
        match input {
            WindowInput::KeyboardInput { down, is_q, code } => {
                if down && is_q && self.modifiers.command {
                    self.exit_reason = Some(ExitReason::UserQuit);
                    return one_action(UiAction::Exit);
                }
                match code {
                    Some(code) => {
                        let key_code: u16 = (code % 65536) as u16;
                        let flags: u64 = cg_flags(self.modifiers);
                        let msg = ClientMessage::KeyEvent {
                            window_id: remote,
                            key_code,
                            down,
                            flags,
                        };
                        one_action(UiAction::Send { msg })
                    },
                    None => no_action(),
                }
            },
            WindowInput::CursorMoved { position, point, now } => {
                let _ = self.mirrors.edit(w, MirrorEdit::Cursor { position });
                if now >= last_move && now - last_move >= MOVE_INTERVAL {
                    let _ = self.mirrors.edit(w, MirrorEdit::MoveSent { now });
                    let msg = ClientMessage::MouseMove { window_id: remote, x: point.0, y: point.1 };
                    one_action(UiAction::Send { msg })
                } else {
                    no_action()
                }
            },
            WindowInput::Focused { gained } => {
                if gained {
                    let msg = ClientMessage::FocusChange { window_id: remote };
                    one_action(UiAction::Send { msg })
                } else {
                    no_action()
                }
            },
            WindowInput::MouseInput { pressed, button, point } => match button_to_forward(button) {
                Some(button) => {
                    let action = action_of(pressed);
                    let msg = ClientMessage::MouseInput {
                        window_id: remote,
                        x: point.0,
                        y: point.1,
                        button,
                        action,
                    };
                    one_action(UiAction::Send { msg })
                },
                None => no_action(),
            },
            WindowInput::Resized { size, far } => {
                // Repaint at the current backing size: the first paint of a
                // window that was never focused may have landed at the wrong
                // scale, and nothing else would repaint it.
                let mut actions: Vec<UiAction> = one_action(UiAction::RequestRedraw { window: w });
                if far {
                    // The sent size joins the echo guard at once; otherwise
                    // every step of a live drag would flood the host.
                    let _ = self.mirrors.edit(w, MirrorEdit::HostSize { size });
                    let msg = ClientMessage::ResizeRequest {
                        window_id: remote,
                        width: size.0,
                        height: size.1,
                    };
                    actions.push(UiAction::Send { msg });
                }
                assert(ui_views(actions@) =~= input_actions(old(self)@, w, input));
                actions
            },
            WindowInput::ScaleFactorChanged => one_action(UiAction::RequestRedraw { window: w }),
            WindowInput::CloseRequested => {
                let msg = ClientMessage::CloseRequest { window_id: remote };
                one_action(UiAction::Send { msg })
            },
            _ => no_action(),
        }
    }

    /// The pixels of a window's surface, `dw` by `dh`; `None` when there is
    /// nothing to present.
    pub fn redraw(&self, w: LocalId, dw: u32, dh: u32) -> (r: Option<Vec<u32>>)
        requires
            self@.set.mirrors.contains_key(w) && self@.set.mirrors[w].content is Video
                ==> paintable(self@.set.mirrors[w].content->0),
        ensures
            match r {
                Some(buf) => buf@ == painted(self@.set.mirrors[w].content, dw as int, dh as int)
                    && is_painted(self@, w, dw, dh),
                None => !is_painted(self@, w, dw, dh),
            },
    {
        if dw == 0 || dh == 0 {
            return None;
        }
        match self.mirrors.mirror(w) {
            None => None,
            Some(m) => match &m.content {
                MirrorContent::Blank => Some(paint_blank(dw, dh)),
                MirrorContent::Video(frame) => paint_video(frame, dw, dh),
            },
        }
    }
}

/// A frame has the bytes that its size says.
pub open spec fn paintable(frame: BgraFrame) -> bool {
    packed(frame.width, frame.height, frame.data@)
}

/// Whether a window's surface is painted: the window is there, and neither
/// the surface nor the frame is empty.
pub open spec fn is_painted(v: HelperView, w: LocalId, dw: u32, dh: u32) -> bool {
    &&& v.set.mirrors.contains_key(w)
    &&& dw > 0
    &&& dh > 0
    &&& v.set.mirrors[w].content is Video ==> v.set.mirrors[w].content->0.width > 0
        && v.set.mirrors[w].content->0.height > 0
}

/// The pixels that show a content.
pub open spec fn painted(content: MirrorContent, dw: int, dh: int) -> Seq<u32> {
    match content {
        MirrorContent::Blank => blank_pixels(dw, dh),
        MirrorContent::Video(frame) => video_pixels(frame, dw, dh),
    }
}

} // verus!
