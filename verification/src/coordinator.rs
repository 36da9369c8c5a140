//! Coordinator-side helper management: one mirror-helper process per shared
//! host app, spawned from its stub bundle, fed over a socketpair.
//!
//! [`HelperManager`] decides; the processes, sockets and bundles on disk are
//! handled by its caller, which performs the [`CoordAction`]s in order and
//! reports what came of a bundle or a spawn.

use crate::b64::{base64_data, decode};
use crate::bundle::{plan_bundle, plan_of, BundlePlan, PlanView, StubBundle};
use crate::bytes::copy_all;
use crate::ids::{in_order, lists, sorted_keys};
use crate::ipc::{DownFrame, DownView, UpMessage};
use crate::mirror_app::EXIT_CODE_IDLE;
use crate::names::NameMap;
use crate::net::UiEvent;
use crate::protocol::{clone_name, AppId, ClientMessage, HostMessage, WindowId, WindowKind};
use crate::scalar::Scalar;
use std::collections::HashMap;
use vstd::prelude::*;

verus! {

broadcast use vstd::std_specs::hash::group_hash_axioms;

/// Events drained by the coordinator's loop.
pub enum CoordEvent {
    Net(UiEvent),
    HelperUp { app_id: AppId, msg: UpMessage },
    HelperExited { app_id: AppId, code: Option<i32> },
}

/// What to do about a helper that exited.
#[derive(Debug, Clone, Copy, PartialEq, Eq, Structural)]
pub enum ExitAction {
    Unsubscribe,
    Reap,
    Respawn,
    GiveUp,
}

/// Exit code 0 is the user's quit, the idle code a helper without windows;
/// anything else, a signal included, is a crash, which is forgiven once.
pub open spec fn exit_policy(code: Option<i32>, respawned_once: bool) -> ExitAction {
    if code == Some(0i32) {
        ExitAction::Unsubscribe
    } else if code == Some(EXIT_CODE_IDLE) {
        ExitAction::Reap
    } else if !respawned_once {
        ExitAction::Respawn
    } else {
        ExitAction::GiveUp
    }
}

pub fn exit_action(code: Option<i32>, respawned_once: bool) -> (r: ExitAction)
    ensures
        r == exit_policy(code, respawned_once),
{
    match code {
        Some(c) => {
            if c == 0 {
                return ExitAction::Unsubscribe;
            }
            if c == EXIT_CODE_IDLE {
                return ExitAction::Reap;
            }
        },
        None => {},
    }
    if respawned_once {
        ExitAction::GiveUp
    } else {
        ExitAction::Respawn
    }
}

/// What a fresh helper must be told of a window.
#[derive(Debug, PartialEq)]
pub struct WindowReplay {
    pub title: String,
    pub kind: WindowKind,
    pub parent_id: Option<WindowId>,
    pub offset_x: Scalar,
    pub offset_y: Scalar,
    pub width: Scalar,
    pub height: Scalar,
    pub track_id: Option<String>,
    pub minimized: bool,
    /// The last InputMapping forwarded, if any.
    pub mapping: Option<HostMessage>,
}

/// A shared application as the coordinator knows it.
pub struct AppState {
    pub app_id: AppId,
    pub name: String,
    pub icon_png: Vec<u8>,
    pub bundle: StubBundle,
    /// The channel of the running helper, if one runs.
    pub running: Option<u64>,
    pub windows: HashMap<WindowId, WindowReplay>,
    pub respawned_once: bool,
    pub given_up: bool,
}

/// What an [`AppState`] says.
pub ghost struct AppView {
    pub app_id: AppId,
    pub name: String,
    pub icon: Seq<u8>,
    pub bundle: StubBundle,
    pub running: Option<u64>,
    pub windows: Map<WindowId, WindowReplay>,
    pub respawned_once: bool,
    pub given_up: bool,
}

impl View for AppState {
    type V = AppView;

    open spec fn view(&self) -> AppView {
        AppView {
            app_id: self.app_id,
            name: self.name,
            icon: self.icon_png@,
            bundle: self.bundle,
            running: self.running,
            windows: self.windows@,
            respawned_once: self.respawned_once,
            given_up: self.given_up,
        }
    }
}

/// An application that was just announced.
pub open spec fn fresh_app(
    app_id: AppId,
    name: String,
    icon: Seq<u8>,
    bundle: StubBundle,
) -> AppView {
    AppView {
        app_id,
        name,
        icon,
        bundle,
        running: None,
        windows: Map::empty(),
        respawned_once: false,
        given_up: false,
    }
}

impl AppState {
    pub fn new(app_id: AppId, name: String, icon_png: Vec<u8>, bundle: StubBundle) -> (s: AppState)
        ensures
            s@ == fresh_app(app_id, name, icon_png@, bundle),
    {
        let s = AppState {
            app_id,
            name,
            icon_png,
            bundle,
            running: None,
            windows: HashMap::new(),
            respawned_once: false,
            given_up: false,
        };
        assert(s.windows@ =~= Map::<WindowId, WindowReplay>::empty());
        s
    }
}

/// The announcement of a window.
pub open spec fn opened_message(app_id: AppId, id: WindowId, w: WindowReplay) -> HostMessage {
    HostMessage::WindowOpened {
        window_id: id,
        title: w.title,
        kind: w.kind,
        parent_id: w.parent_id,
        offset_x: w.offset_x,
        offset_y: w.offset_y,
        width: w.width,
        height: w.height,
        track_id: w.track_id,
        app_id,
    }
}

/// The frames that rebuild one window: its announcement, then that it is
/// minimized and its input mapping, as applicable.
pub open spec fn window_frames(app_id: AppId, id: WindowId, w: WindowReplay) -> Seq<DownView> {
    seq![DownView::Control(opened_message(app_id, id, w))] + (if w.minimized {
        seq![DownView::Control(HostMessage::WindowMinimized { window_id: id })]
    } else {
        Seq::empty()
    }) + (match w.mapping {
        Some(mapping) => seq![DownView::Control(mapping)],
        None => Seq::empty(),
    })
}

/// The frames that rebuild the windows `ids`, in that order.
pub open spec fn windows_frames(app: AppView, ids: Seq<WindowId>) -> Seq<DownView>
    decreases ids.len(),
{
    if ids.len() == 0 {
        Seq::empty()
    } else {
        windows_frames(app, ids.drop_last()) + window_frames(
            app.app_id,
            ids.last(),
            app.windows[ids.last()],
        )
    }
}

/// The icon frame, for an application that has an icon.
pub open spec fn icon_frames(app: AppView) -> Seq<DownView> {
    if app.icon.len() == 0 {
        Seq::empty()
    } else {
        seq![DownView::Icon(app.icon)]
    }
}

/// The frames that rebuild a helper's world: the icon, then each window in
/// the order of ids.
pub open spec fn replay_of(app: AppView) -> Seq<DownView> {
    icon_frames(app) + windows_frames(app, in_order(app.windows.dom()))
}

pub open spec fn frame_views(frames: Seq<DownFrame>) -> Seq<DownView> {
    frames.map_values(|f: DownFrame| f@)
}

fn window_opened(app_id: AppId, id: WindowId, w: &WindowReplay) -> (m: HostMessage)
    ensures
        m == opened_message(app_id, id, *w),
{
    HostMessage::WindowOpened {
        window_id: id,
        title: w.title.clone(),
        kind: w.kind,
        parent_id: w.parent_id,
        offset_x: w.offset_x,
        offset_y: w.offset_y,
        width: w.width,
        height: w.height,
        track_id: clone_name(&w.track_id),
        app_id,
    }
}

/// The DownFrames that rebuild a helper's world after (re)spawn, in a
/// deterministic order: icon, then each window (sorted by id) as
/// WindowOpened [+ WindowMinimized] [+ InputMapping].
pub fn replay_frames(state: &AppState) -> (frames: Vec<DownFrame>)
    ensures
        frame_views(frames@) == replay_of(state@),
{
    let mut frames: Vec<DownFrame> = Vec::new();
    if let Some(icon) = initial_icon_frame(state) {
        frames.push(icon);
    }
    assert(frame_views(frames@) =~= icon_frames(state@));
    let ids: Vec<u32> = sorted_keys(&state.windows);
    let mut i: usize = 0;
    assert(ids@.take(0) =~= Seq::<u32>::empty());
    assert(frame_views(frames@) =~= icon_frames(state@) + windows_frames(state@, ids@.take(0)));
    while i < ids.len()
        invariant
            i <= ids@.len(),
            lists(ids@, state.windows@.dom()),
            frame_views(frames@) == icon_frames(state@) + windows_frames(state@, ids@.take(i as int)),
        decreases ids@.len() - i,
    {
        let id: u32 = ids[i];
        assert(ids@.contains(id));
        let ghost before = frame_views(frames@);
        if let Some(w) = state.windows.get(&id) {
            frames.push(DownFrame::Control(window_opened(state.app_id, id, w)));
            if w.minimized {
                frames.push(DownFrame::Control(HostMessage::WindowMinimized { window_id: id }));
            }
            if let Some(mapping) = &w.mapping {
                frames.push(DownFrame::Control(mapping.clone()));
            }
            assert(frame_views(frames@) =~= before + window_frames(
                state.app_id,
                id,
                state.windows@[id],
            ));
        }
        assert(ids@.take(i + 1).drop_last() =~= ids@.take(i as int));
        assert(frame_views(frames@) =~= icon_frames(state@) + windows_frames(
            state@,
            ids@.take(i + 1),
        ));
        i += 1;
    }
    assert(ids@.take(i as int) =~= ids@);
    frames
}

/// The Icon frame to send right after the very first successful spawn for a
/// newly announced app (before it has any windows). Respawns never call this:
/// they rely solely on `replay_frames`, which already includes the icon, so a
/// helper is sent its icon exactly once per (re)spawn.
pub fn initial_icon_frame(state: &AppState) -> (f: Option<DownFrame>)
    ensures
        match f {
            Some(frame) => icon_frames(state@) == seq![frame@],
            None => icon_frames(state@) == Seq::<DownView>::empty(),
        },
{
    if state.icon_png.is_empty() {
        None
    } else {
        let icon: Vec<u8> = copy_all(state.icon_png.as_slice());
        let frame = DownFrame::Icon(icon);
        assert(icon_frames(state@) =~= seq![frame@]);
        Some(frame)
    }
}

/// What the coordinator asks of its surroundings.
pub enum CoordAction {
    /// Put a stub bundle on disk; on success call
    /// [`HelperManager::on_bundle_ready`] with the name, icon and bundle.
    EnsureBundle { app_id: AppId, name: String, icon_png: Vec<u8>, plan: BundlePlan },
    /// Start the bundle's executable; on success call
    /// [`HelperManager::on_spawned`] with the new helper's channel.
    Spawn { app_id: AppId, exe: String, first: bool },
    /// Send a frame to a helper.
    Send { helper: u64, frame: DownFrame },
    /// Close a helper's channel, which shuts its socket's write half down;
    /// the helper reads that as EOF.
    Release { helper: u64 },
    SetRoute { track_id: String, helper: u64 },
    ClearRoute { track_id: String },
    ClearProgress { track_id: String },
    MarkProgress { track_id: String },
    ToHost { msg: ClientMessage },
}

/// What a [`CoordAction`] says.
pub ghost enum ActionView {
    EnsureBundle { app_id: AppId, name: Seq<char>, icon: Seq<u8>, plan: PlanView },
    Spawn { app_id: AppId, exe: Seq<char>, first: bool },
    Send { helper: u64, frame: DownView },
    Release { helper: u64 },
    SetRoute { track_id: Seq<char>, helper: u64 },
    ClearRoute { track_id: Seq<char> },
    ClearProgress { track_id: Seq<char> },
    MarkProgress { track_id: Seq<char> },
    ToHost { msg: ClientMessage },
}

impl View for CoordAction {
    type V = ActionView;

    open spec fn view(&self) -> ActionView {
        match *self {
            CoordAction::EnsureBundle { app_id, name, icon_png, plan } => ActionView::EnsureBundle {
                app_id,
                name: name@,
                icon: icon_png@,
                plan: plan@,
            },
            CoordAction::Spawn { app_id, exe, first } => ActionView::Spawn {
                app_id,
                exe: exe@,
                first,
            },
            CoordAction::Send { helper, frame } => ActionView::Send { helper, frame: frame@ },
            CoordAction::Release { helper } => ActionView::Release { helper },
            CoordAction::SetRoute { track_id, helper } => ActionView::SetRoute {
                track_id: track_id@,
                helper,
            },
            CoordAction::ClearRoute { track_id } => ActionView::ClearRoute { track_id: track_id@ },
            CoordAction::ClearProgress { track_id } => ActionView::ClearProgress {
                track_id: track_id@,
            },
            CoordAction::MarkProgress { track_id } => ActionView::MarkProgress {
                track_id: track_id@,
            },
            CoordAction::ToHost { msg } => ActionView::ToHost { msg },
        }
    }
}

pub open spec fn action_views(actions: Seq<CoordAction>) -> Seq<ActionView> {
    actions.map_values(|a: CoordAction| a@)
}

/// The helpers of all shared applications.
pub struct HelperManager {
    apps: HashMap<AppId, AppState>,
    app_of_window: HashMap<WindowId, AppId>,
    app_of_track: NameMap<AppId>,
    taken_dirs: Vec<String>,
    /// InputMapping seen before its WindowOpened (announcement/track races).
    pending_mappings: HashMap<WindowId, HostMessage>,
}

/// What a [`HelperManager`] knows.
pub ghost struct ManagerView {
    pub apps: Map<AppId, AppView>,
    pub app_of_window: Map<WindowId, AppId>,
    pub app_of_track: Map<Seq<char>, AppId>,
    pub taken_dirs: Seq<String>,
    pub pending_mappings: Map<WindowId, HostMessage>,
}

spec fn app_views(apps: Map<AppId, AppState>) -> Map<AppId, AppView> {
    apps.map_values(|s: AppState| s@)
}

impl View for HelperManager {
    type V = ManagerView;

    closed spec fn view(&self) -> ManagerView {
        ManagerView {
            apps: app_views(self.apps@),
            app_of_window: self.app_of_window@,
            app_of_track: self.app_of_track@,
            taken_dirs: self.taken_dirs@,
            pending_mappings: self.pending_mappings@,
        }
    }
}

/// Whether a message is the input mapping of a window.
pub open spec fn is_mapping_of(msg: HostMessage, w: WindowId) -> bool {
    msg is InputMapping && msg->InputMapping_window_id == w
}

impl ManagerView {
    /// The invariant: an application is filed under its id, a window that is
    /// looked up is one of its application's, a track belongs to a known
    /// application, a mapping is kept for the window it is of, and an
    /// application that was given up has no windows.
    pub open spec fn wf(self) -> bool {
        &&& forall|a: AppId| #[trigger] self.apps.contains_key(a) ==> self.apps[a].app_id == a
        &&& forall|w: WindowId| #[trigger]
            self.app_of_window.contains_key(w) ==> {
                &&& self.apps.contains_key(self.app_of_window[w])
                &&& self.apps[self.app_of_window[w]].windows.contains_key(w)
            }
        &&& forall|t: Seq<char>| #[trigger]
            self.app_of_track.contains_key(t) ==> self.apps.contains_key(self.app_of_track[t])
        &&& forall|w: WindowId| #[trigger]
            self.pending_mappings.contains_key(w) ==> is_mapping_of(self.pending_mappings[w], w)
        &&& forall|a: AppId, w: WindowId|
            #![trigger self.apps[a].windows[w]]
            self.apps.contains_key(a) && self.apps[a].windows.contains_key(w)
                && self.apps[a].windows[w].mapping is Some ==> is_mapping_of(
                self.apps[a].windows[w].mapping->0,
                w,
            )
        &&& forall|a: AppId| #[trigger]
            self.apps.contains_key(a) && self.apps[a].given_up ==> self.apps[a].windows
                == Map::<WindowId, WindowReplay>::empty()
    }

    /// The channel of an application's helper, if one runs.
    pub open spec fn helper_of(self, app: AppId) -> Option<u64> {
        if self.apps.contains_key(app) {
            self.apps[app].running
        } else {
            None
        }
    }

    /// Sending a frame to an application's helper; nothing while none runs.
    pub open spec fn sending(self, app: AppId, frame: DownView) -> Seq<ActionView> {
        match self.helper_of(app) {
            Some(helper) => seq![ActionView::Send { helper, frame }],
            None => Seq::empty(),
        }
    }

    /// Forwarding a message to the helper of a window's application.
    pub open spec fn forwarding(self, w: WindowId, msg: HostMessage) -> Seq<ActionView> {
        if self.app_of_window.contains_key(w) {
            self.sending(self.app_of_window[w], DownView::Control(msg))
        } else {
            Seq::empty()
        }
    }

    /// The state with an application replaced.
    pub open spec fn with_app(self, app: AppId, state: AppView) -> ManagerView {
        ManagerView { apps: self.apps.insert(app, state), ..self }
    }

    /// The window's record, if the window and its application are known.
    pub open spec fn knows_window(self, w: WindowId) -> bool {
        &&& self.app_of_window.contains_key(w)
        &&& self.apps.contains_key(self.app_of_window[w])
        &&& self.apps[self.app_of_window[w]].windows.contains_key(w)
    }

    pub open spec fn window(self, w: WindowId) -> WindowReplay {
        self.apps[self.app_of_window[w]].windows[w]
    }

    /// The state with a known window's record replaced.
    pub open spec fn with_window(self, w: WindowId, record: WindowReplay) -> ManagerView {
        if self.knows_window(w) {
            let a = self.app_of_window[w];
            let state = self.apps[a];
            self.with_app(a, (AppView { windows: state.windows.insert(w, record), ..state }))
        } else {
            self
        }
    }
}

/// Answer to an announcement: a bundle for an application not yet known.
pub open spec fn announced(
    m: ManagerView,
    app_id: AppId,
    name: Seq<char>,
    icon: Option<Seq<u8>>,
) -> Seq<ActionView> {
    if m.apps.contains_key(app_id) {
        Seq::empty()
    } else {
        seq![
            ActionView::EnsureBundle {
                app_id,
                name,
                icon: icon.unwrap_or(Seq::empty()),
                plan: plan_of(name, m.taken_dirs),
            },
        ]
    }
}

/// The record of a window that was just announced.
pub open spec fn fresh_window(m: ManagerView, msg: HostMessage) -> WindowReplay
    recommends
        msg is WindowOpened,
{
    let w = msg->WindowOpened_window_id;
    WindowReplay {
        title: msg->WindowOpened_title,
        kind: msg->kind,
        parent_id: msg->parent_id,
        offset_x: msg->WindowOpened_offset_x,
        offset_y: msg->WindowOpened_offset_y,
        width: msg->WindowOpened_width,
        height: msg->WindowOpened_height,
        track_id: msg->track_id,
        minimized: false,
        mapping: if m.pending_mappings.contains_key(w) {
            Some(m.pending_mappings[w])
        } else {
            None
        },
    }
}

/// The state after a window of a shared application was announced.
pub open spec fn opened_state(m: ManagerView, msg: HostMessage) -> ManagerView
    recommends
        msg is WindowOpened,
{
    let w = msg->WindowOpened_window_id;
    let a = msg->WindowOpened_app_id;
    if !m.apps.contains_key(a) || m.apps[a].given_up {
        m
    } else {
        let state = m.apps[a];
        ManagerView {
            apps: m.apps.insert(
                a,
                (AppView { windows: state.windows.insert(w, fresh_window(m, msg)), ..state }),
            ),
            app_of_window: m.app_of_window.insert(w, a),
            app_of_track: match msg->track_id {
                Some(t) => m.app_of_track.insert(t@, a),
                None => m.app_of_track,
            },
            pending_mappings: if state.running is None {
                m.pending_mappings
            } else {
                m.pending_mappings.remove(w)
            },
            ..m
        }
    }
}

/// What is done about a window's announcement: a dormant helper is revived,
/// to be told of the window by its replay; a running one is told at once, of
/// the mapping that came early too, and gets the window's track.
pub open spec fn opened_actions(m: ManagerView, msg: HostMessage) -> Seq<ActionView>
    recommends
        msg is WindowOpened,
{
    let w = msg->WindowOpened_window_id;
    let a = msg->WindowOpened_app_id;
    if !m.apps.contains_key(a) || m.apps[a].given_up {
        Seq::empty()
    } else {
        match m.apps[a].running {
            None => seq![
                ActionView::Spawn { app_id: a, exe: m.apps[a].bundle.exe@, first: false },
            ],
            Some(helper) => {
                seq![ActionView::Send { helper, frame: DownView::Control(msg) }] + (
                if m.pending_mappings.contains_key(w) {
                    seq![
                        ActionView::Send {
                            helper,
                            frame: DownView::Control(m.pending_mappings[w]),
                        },
                    ]
                } else {
                    Seq::empty()
                }) + (match msg->track_id {
                    Some(t) => seq![ActionView::SetRoute { track_id: t@, helper }],
                    None => Seq::empty(),
                })
            },
        }
    }
}

/// The state after a window closed.
pub open spec fn closed_state(m: ManagerView, w: WindowId) -> ManagerView {
    let m = ManagerView { pending_mappings: m.pending_mappings.remove(w), ..m };
    if !m.app_of_window.contains_key(w) {
        m
    } else {
        let a = m.app_of_window[w];
        let rest = ManagerView { app_of_window: m.app_of_window.remove(w), ..m };
        if m.knows_window(w) {
            let state = m.apps[a];
            ManagerView {
                apps: m.apps.insert(a, (AppView { windows: state.windows.remove(w), ..state })),
                app_of_track: match m.window(w).track_id {
                    Some(t) => m.app_of_track.remove(t@),
                    None => m.app_of_track,
                },
                ..rest
            }
        } else {
            rest
        }
    }
}

/// What is done about a closed window: its track's route goes, and its helper
/// is told.
pub open spec fn closed_actions(m: ManagerView, w: WindowId) -> Seq<ActionView> {
    (if m.knows_window(w) && m.window(w).track_id is Some {
        seq![ActionView::ClearRoute { track_id: m.window(w).track_id->0@ }]
    } else {
        Seq::empty()
    }) + m.forwarding(w, HostMessage::WindowClosed { window_id: w })
}

/// The state after a message of the host.
pub open spec fn host_state(m: ManagerView, msg: HostMessage) -> ManagerView {
    match msg {
        HostMessage::AppAnnounced { .. } => m,
        HostMessage::WindowOpened { .. } => opened_state(m, msg),
        HostMessage::WindowResized { window_id, width, height } => m.with_window(
            window_id,
            (WindowReplay { width, height, ..m.window(window_id) }),
        ),
        HostMessage::WindowTitleChanged { window_id, title } => m.with_window(
            window_id,
            (WindowReplay { title, ..m.window(window_id) }),
        ),
        HostMessage::WindowMinimized { window_id } => m.with_window(
            window_id,
            (WindowReplay { minimized: true, ..m.window(window_id) }),
        ),
        HostMessage::WindowRestored { window_id } => m.with_window(
            window_id,
            (WindowReplay { minimized: false, ..m.window(window_id) }),
        ),
        HostMessage::WindowClosed { window_id } => closed_state(m, window_id),
        HostMessage::InputMapping { window_id, .. } => if m.app_of_window.contains_key(window_id) {
            m.with_window(window_id, (WindowReplay { mapping: Some(msg), ..m.window(window_id) }))
        } else {
            ManagerView { pending_mappings: m.pending_mappings.insert(window_id, msg), ..m }
        },
        HostMessage::TransientBlit { .. } => m,
        HostMessage::SdpOffer { .. } => m,
    }
}

/// What is done about a message of the host: an application's announcement
/// asks for its bundle, and what concerns a window goes to its helper.
pub open spec fn host_actions(m: ManagerView, msg: HostMessage) -> Seq<ActionView> {
    match msg {
        HostMessage::AppAnnounced { app_id, name, icon_png } => announced(
            m,
            app_id,
            name@,
            base64_data(icon_png@),
        ),
        HostMessage::WindowOpened { .. } => opened_actions(m, msg),
        HostMessage::WindowResized { window_id, .. } => m.forwarding(window_id, msg),
        HostMessage::WindowTitleChanged { window_id, .. } => m.forwarding(window_id, msg),
        HostMessage::WindowMinimized { window_id } => m.forwarding(window_id, msg),
        HostMessage::WindowRestored { window_id } => m.forwarding(window_id, msg),
        HostMessage::WindowClosed { window_id } => closed_actions(m, window_id),
        HostMessage::InputMapping { window_id, .. } => m.forwarding(window_id, msg),
        HostMessage::TransientBlit { .. } => Seq::empty(),
        HostMessage::SdpOffer { .. } => Seq::empty(),
    }
}

impl HelperManager {
    pub fn new() -> (m: HelperManager)
        ensures
            m@ == (ManagerView {
                apps: Map::empty(),
                app_of_window: Map::empty(),
                app_of_track: Map::empty(),
                taken_dirs: Seq::empty(),
                pending_mappings: Map::empty(),
            }),
            m@.wf(),
    {
        let m = HelperManager {
            apps: HashMap::new(),
            app_of_window: HashMap::new(),
            app_of_track: NameMap::new(),
            taken_dirs: Vec::new(),
            pending_mappings: HashMap::new(),
        };
        assert(m@.apps =~= Map::<AppId, AppView>::empty());
        assert(m@.app_of_window =~= Map::<WindowId, AppId>::empty());
        assert(m@.pending_mappings =~= Map::<WindowId, HostMessage>::empty());
        m
    }

    /// The running helper's channel of an application.
    fn helper(&self, app: AppId) -> (r: Option<u64>)
        ensures
            r == self@.helper_of(app),
    {
        match self.apps.get(&app) {
            Some(state) => state.running,
            None => None,
        }
    }

    /// Sends a frame to an application's helper, if one runs.
    fn forward(&self, actions: &mut Vec<CoordAction>, app: AppId, frame: DownFrame)
        ensures
            action_views(final(actions)@) == action_views(old(actions)@) + self@.sending(
                app,
                frame@,
            ),
    {
        let ghost before = action_views(actions@);
        if let Some(helper) = self.helper(app) {
            actions.push(CoordAction::Send { helper, frame });
        }
        assert(action_views(actions@) =~= before + self@.sending(app, frame@));
    }

    /// Answers an announcement, given the icon as decoded: an icon that is no
    /// base64 counts as none.
    pub fn on_announced(&self, app_id: AppId, name: String, icon: Option<Vec<u8>>) -> (r: Vec<
        CoordAction,
    >)
        ensures
            action_views(r@) == announced(
                self@,
                app_id,
                name@,
                match icon {
                    Some(png) => Some(png@),
                    None => None,
                },
            ),
    {
        let mut actions: Vec<CoordAction> = Vec::new();
        if !self.apps.contains_key(&app_id) {
            let icon_png: Vec<u8> = match icon {
                Some(png) => png,
                None => Vec::new(),
            };
            let plan: BundlePlan = plan_bundle(name.as_str(), &self.taken_dirs);
            actions.push(CoordAction::EnsureBundle { app_id, name, icon_png, plan });
        }
        assert(action_views(actions@) =~= announced(
            self@,
            app_id,
            name@,
            match icon {
                Some(png) => Some(png@),
                None => None,
            },
        ));
        actions
    }

    /// The bundle of an announced application stands on disk: the application
    /// is known from here on, and its helper is started.
    pub fn on_bundle_ready(
        &mut self,
        app_id: AppId,
        name: String,
        icon_png: Vec<u8>,
        bundle: StubBundle,
    ) -> (r: Vec<CoordAction>)
        ensures
            final(self)@ == (ManagerView {
                apps: old(self)@.apps.insert(app_id, fresh_app(app_id, name, icon_png@, bundle)),
                taken_dirs: old(self)@.taken_dirs.push(bundle.dir),
                ..old(self)@
            }),
            action_views(r@) == seq![
                ActionView::Spawn { app_id, exe: bundle.exe@, first: true },
            ],
    {
        let mut actions: Vec<CoordAction> = Vec::new();
        self.taken_dirs.push(bundle.dir.clone());
        actions.push(CoordAction::Spawn { app_id, exe: bundle.exe.clone(), first: true });
        let ghost before = self.apps@;
        let state = AppState::new(app_id, name, icon_png, bundle);
        let ghost view = state@;
        let _ = self.apps.insert(app_id, state);
        assert(app_views(self.apps@) =~= app_views(before).insert(app_id, view));
        assert(action_views(actions@) =~= seq![
            ActionView::Spawn { app_id, exe: bundle.exe@, first: true },
        ]);
        actions
    }

    /// Changes a known window's record.
    fn edit_window(&mut self, w: WindowId, edit: WindowEdit)
        ensures
            final(self)@ == old(self)@.with_window(w, edit.of(old(self)@.window(w))),
    {
        let ghost before = self@;
        let ghost apps_before = self.apps@;
        let a: AppId = match self.app_of_window.get(&w) {
            Some(a) => *a,
            None => return ,
        };
        let mut state: AppState = match self.apps.remove(&a) {
            Some(state) => state,
            None => {
                assert(self.apps@ =~= apps_before);
                return ;
            },
        };
        let ghost old_state = state@;
        assert(app_views(apps_before)[a] == old_state);
        match state.windows.remove(&w) {
            Some(record) => {
                let record: WindowReplay = edit.apply(record);
                let _ = state.windows.insert(w, record);
                assert(state.windows@ =~= old_state.windows.insert(w, record));
            },
            None => {
                assert(state.windows@ =~= old_state.windows);
            },
        }
        let ghost new_state = state@;
        let _ = self.apps.insert(a, state);
        assert(app_views(self.apps@) =~= app_views(apps_before).insert(a, new_state));
        assert(!before.knows_window(w) ==> app_views(self.apps@) =~= app_views(apps_before));
        assert(self@.apps =~= before.with_window(w, edit.of(before.window(w))).apps);
    }

    /// Applies an edit to a window's record and forwards the message that
    /// brought it.
    fn edit_and_forward(&mut self, w: WindowId, edit: WindowEdit, msg: HostMessage) -> (r: Vec<
        CoordAction,
    >)
        ensures
            final(self)@ == old(self)@.with_window(w, edit.of(old(self)@.window(w))),
            action_views(r@) == old(self)@.forwarding(w, msg),
    {
        let mut actions: Vec<CoordAction> = Vec::new();
        self.edit_window(w, edit);
        if let Some(a) = self.app_of_window.get(&w) {
            self.forward(&mut actions, *a, DownFrame::Control(msg));
        }
        assert(action_views(actions@) =~= old(self)@.forwarding(w, msg));
        actions
    }
}

/// A change of one window's record.
enum WindowEdit {
    Size { width: Scalar, height: Scalar },
    Title { title: String },
    Minimized { minimized: bool },
    Mapping { mapping: HostMessage },
}

impl WindowEdit {
    spec fn of(self, r: WindowReplay) -> WindowReplay {
        match self {
            WindowEdit::Size { width, height } => WindowReplay { width, height, ..r },
            WindowEdit::Title { title } => WindowReplay { title, ..r },
            WindowEdit::Minimized { minimized } => WindowReplay { minimized, ..r },
            WindowEdit::Mapping { mapping } => WindowReplay { mapping: Some(mapping), ..r },
        }
    }

    fn apply(self, record: WindowReplay) -> (r: WindowReplay)
        ensures
            r == self.of(record),
    {
        let mut r = record;
        match self {
            WindowEdit::Size { width, height } => {
                r.width = width;
                r.height = height;
            },
            WindowEdit::Title { title } => {
                r.title = title;
            },
            WindowEdit::Minimized { minimized } => {
                r.minimized = minimized;
            },
            WindowEdit::Mapping { mapping } => {
                r.mapping = Some(mapping);
            },
        }
        r
    }
}

impl HelperManager {
    /// A window of a shared application was announced.
    fn on_window_opened(&mut self, msg: HostMessage) -> (r: Vec<CoordAction>)
        requires
            msg is WindowOpened,
        ensures
            final(self)@ == opened_state(old(self)@, msg),
            action_views(r@) == opened_actions(old(self)@, msg),
    {
        let ghost before = self@;
        let ghost apps_before = self.apps@;
        let mut actions: Vec<CoordAction> = Vec::new();
        if let HostMessage::WindowOpened {
            window_id,
            title,
            kind,
            parent_id,
            offset_x,
            offset_y,
            width,
            height,
            track_id,
            app_id,
        } = &msg {
            let window_id: WindowId = *window_id;
            let app_id: AppId = *app_id;
            let mut state: AppState = match self.apps.remove(&app_id) {
                Some(state) => state,
                None => {
                    assert(self.apps@ =~= apps_before);
                    assert(action_views(actions@) =~= opened_actions(before, msg));
                    return actions;
                },
            };
            let ghost old_state = state@;
            assert(app_views(apps_before)[app_id] == old_state);
            if state.given_up {
                let _ = self.apps.insert(app_id, state);
                assert(self.apps@ =~= apps_before);
                assert(action_views(actions@) =~= opened_actions(before, msg));
                return actions;
            }
            let mapping: Option<HostMessage> = match self.pending_mappings.get(&window_id) {
                Some(m) => Some(m.clone()),
                None => None,
            };
            let record = WindowReplay {
                title: title.clone(),
                kind: *kind,
                parent_id: *parent_id,
                offset_x: *offset_x,
                offset_y: *offset_y,
                width: *width,
                height: *height,
                track_id: clone_name(track_id),
                minimized: false,
                mapping,
            };
            assert(record == fresh_window(before, msg));
            let _ = state.windows.insert(window_id, record);
            let running: Option<u64> = state.running;
            let exe: String = state.bundle.exe.clone();
            let ghost new_state = state@;
            assert(new_state.windows =~= old_state.windows.insert(
                window_id,
                fresh_window(before, msg),
            ));
            let _ = self.apps.insert(app_id, state);
            assert(app_views(self.apps@) =~= app_views(apps_before).insert(app_id, new_state));
            let _ = self.app_of_window.insert(window_id, app_id);
            if let Some(t) = track_id {
                let _ = self.app_of_track.insert(t.clone(), app_id);
            }
            match running {
                None => {
                    actions.push(CoordAction::Spawn { app_id, exe, first: false });
                },
                Some(helper) => {
                    let frame = DownFrame::Control(msg.clone());
                    actions.push(CoordAction::Send { helper, frame });
                    if let Some(mapping) = self.pending_mappings.remove(&window_id) {
                        let frame = DownFrame::Control(mapping);
                        actions.push(CoordAction::Send { helper, frame });
                    }
                    assert(self.pending_mappings@ =~= before.pending_mappings.remove(window_id));
                    if let Some(t) = track_id {
                        actions.push(CoordAction::SetRoute { track_id: t.clone(), helper });
                    }
                },
            }
        }
        assert(action_views(actions@) =~= opened_actions(before, msg));
        actions
    }

    /// A window closed on the host.
    fn on_window_closed(&mut self, w: WindowId) -> (r: Vec<CoordAction>)
        ensures
            final(self)@ == closed_state(old(self)@, w),
            action_views(r@) == closed_actions(old(self)@, w),
    {
        let ghost before = self@;
        let ghost apps_before = self.apps@;
        let mut actions: Vec<CoordAction> = Vec::new();
        let _ = self.pending_mappings.remove(&w);
        assert(self.pending_mappings@ =~= before.pending_mappings.remove(w));
        if let Some(a) = self.app_of_window.remove(&w) {
            assert(self.app_of_window@ =~= before.app_of_window.remove(w));
            if let Some(mut state) = self.apps.remove(&a) {
                let ghost old_state = state@;
                assert(app_views(apps_before)[a] == old_state);
                match state.windows.remove(&w) {
                    Some(record) => {
                        if let Some(t) = record.track_id {
                            let _ = self.app_of_track.remove(t.as_str());
                            actions.push(CoordAction::ClearRoute { track_id: t });
                        }
                        assert(state.windows@ =~= old_state.windows.remove(w));
                    },
                    None => {
                        assert(state.windows@ =~= old_state.windows);
                    },
                }
                let ghost new_state = state@;
                let _ = self.apps.insert(a, state);
                assert(app_views(self.apps@) =~= app_views(apps_before).insert(a, new_state));
                assert(!before.knows_window(w) ==> app_views(self.apps@) =~= app_views(
                    apps_before,
                ));
            } else {
                assert(self.apps@ =~= apps_before);
            }
            self.forward(
                &mut actions,
                a,
                DownFrame::Control(HostMessage::WindowClosed { window_id: w }),
            );
            assert(self@.helper_of(a) == before.helper_of(a));
        } else {
            assert(self.app_of_window@ =~= before.app_of_window);
        }
        assert(action_views(actions@) =~= closed_actions(before, w));
        actions
    }

    /// Handles a message of the host.
    pub fn on_host_message(&mut self, msg: HostMessage) -> (r: Vec<CoordAction>)
        ensures
            final(self)@ == host_state(old(self)@, msg),
            action_views(r@) == host_actions(old(self)@, msg),
    {
        match msg {
            HostMessage::AppAnnounced { app_id, name, icon_png } => {
                let icon: Option<Vec<u8>> = decode(icon_png.as_str());
                self.on_announced(app_id, name, icon)
            },
            HostMessage::WindowOpened { .. } => self.on_window_opened(msg),
            HostMessage::WindowResized { window_id, width, height } => self.edit_and_forward(
                window_id,
                WindowEdit::Size { width, height },
                msg,
            ),
            HostMessage::WindowTitleChanged { window_id, title } => {
                let kept: String = title.clone();
                self.edit_and_forward(
                    window_id,
                    WindowEdit::Title { title: kept },
                    HostMessage::WindowTitleChanged { window_id, title },
                )
            },
            // An unknown id (e.g. the host's channel-open probe, id 0) is
            // ignored silently.
            HostMessage::WindowMinimized { window_id } => self.edit_and_forward(
                window_id,
                WindowEdit::Minimized { minimized: true },
                msg,
            ),
            HostMessage::WindowRestored { window_id } => self.edit_and_forward(
                window_id,
                WindowEdit::Minimized { minimized: false },
                msg,
            ),
            HostMessage::WindowClosed { window_id } => self.on_window_closed(window_id),
            HostMessage::InputMapping { window_id, .. } => {
                if self.app_of_window.contains_key(&window_id) {
                    let kept: HostMessage = msg.clone();
                    self.edit_and_forward(window_id, WindowEdit::Mapping { mapping: kept }, msg)
                } else {
                    // Can arrive before WindowOpened.
                    let _ = self.pending_mappings.insert(window_id, msg);
                    let actions: Vec<CoordAction> = Vec::new();
                    assert(action_views(actions@) =~= Seq::<ActionView>::empty());
                    actions
                }
            },
            HostMessage::TransientBlit { .. } => {
                let actions: Vec<CoordAction> = Vec::new();
                assert(action_views(actions@) =~= Seq::<ActionView>::empty());
                actions
            },
            // Consumed by the peer connection; never reaches the manager.
            HostMessage::SdpOffer { .. } => {
                let actions: Vec<CoordAction> = Vec::new();
                assert(action_views(actions@) =~= Seq::<ActionView>::empty());
                actions
            },
        }
    }
}

/// Sending frames to a helper.
pub open spec fn sends(helper: u64, frames: Seq<DownView>) -> Seq<ActionView> {
    frames.map_values(|f: DownView| ActionView::Send { helper, frame: f })
}

/// Handing the tracks of the windows `ids` to a new helper, whose fresh
/// decoders then get an IDR at once.
pub open spec fn reroutes(
    windows: Map<WindowId, WindowReplay>,
    ids: Seq<WindowId>,
    helper: u64,
) -> Seq<ActionView>
    decreases ids.len(),
{
    if ids.len() == 0 {
        Seq::empty()
    } else {
        reroutes(windows, ids.drop_last(), helper) + (match windows[ids.last()].track_id {
            Some(t) => seq![
                ActionView::SetRoute { track_id: t@, helper },
                ActionView::ClearProgress { track_id: t@ },
            ],
            None => Seq::empty(),
        })
    }
}

/// Ending the routes of the windows `ids`.
pub open spec fn unroutes(windows: Map<WindowId, WindowReplay>, ids: Seq<WindowId>) -> Seq<
    ActionView,
>
    decreases ids.len(),
{
    if ids.len() == 0 {
        Seq::empty()
    } else {
        unroutes(windows, ids.drop_last()) + (match windows[ids.last()].track_id {
            Some(t) => seq![ActionView::ClearRoute { track_id: t@ }],
            None => Seq::empty(),
        })
    }
}

/// Whether `t` is the track of one of the windows.
pub open spec fn is_track_of(windows: Map<WindowId, WindowReplay>, t: Seq<char>) -> bool {
    exists|w: WindowId| #[trigger]
        windows.contains_key(w) && windows[w].track_id is Some && windows[w].track_id->0@ == t
}

/// The tracks of some windows.
pub open spec fn tracks_of(windows: Map<WindowId, WindowReplay>) -> Set<Seq<char>> {
    Set::new(|t: Seq<char>| is_track_of(windows, t))
}

/// Closing the channel of the helper that ran so far, if one did.
pub open spec fn releases(running: Option<u64>) -> Seq<ActionView> {
    match running {
        Some(helper) => seq![ActionView::Release { helper }],
        None => Seq::empty(),
    }
}

/// The state once an application's helper runs.
pub open spec fn spawned_state(m: ManagerView, app_id: AppId, helper: u64) -> ManagerView {
    if m.apps.contains_key(app_id) {
        m.with_app(app_id, (AppView { running: Some(helper), ..m.apps[app_id] }))
    } else {
        m
    }
}

/// What a new helper is sent: the icon after the first spawn; after a later
/// one the whole world, and its tracks are routed to it.
pub open spec fn spawned_actions(m: ManagerView, app_id: AppId, helper: u64, first: bool) -> Seq<
    ActionView,
> {
    if !m.apps.contains_key(app_id) {
        Seq::empty()
    } else {
        let app = m.apps[app_id];
        releases(app.running) + (if first {
            sends(helper, icon_frames(app))
        } else {
            sends(helper, replay_of(app)) + reroutes(
                app.windows,
                in_order(app.windows.dom()),
                helper,
            )
        })
    }
}

/// The state once an application is dropped for good: its windows and tracks
/// are forgotten.
pub open spec fn dropped(m: ManagerView, app_id: AppId) -> ManagerView {
    let app = m.apps[app_id];
    ManagerView {
        apps: m.apps.insert(
            app_id,
            (AppView { running: None, given_up: true, windows: Map::empty(), ..app }),
        ),
        app_of_window: m.app_of_window.remove_keys(app.windows.dom()),
        app_of_track: m.app_of_track.remove_keys(tracks_of(app.windows)),
        ..m
    }
}

/// The state after a helper exited.
pub open spec fn exited_state(m: ManagerView, app_id: AppId, code: Option<i32>) -> ManagerView {
    if !m.apps.contains_key(app_id) {
        m
    } else {
        let app = m.apps[app_id];
        match exit_policy(code, app.respawned_once) {
            ExitAction::Unsubscribe => dropped(m, app_id),
            ExitAction::GiveUp => dropped(m, app_id),
            ExitAction::Reap => m.with_app(app_id, (AppView { running: None, ..app })),
            ExitAction::Respawn => m.with_app(
                app_id,
                (AppView { running: None, respawned_once: true, ..app }),
            ),
        }
    }
}

/// What is done about a helper's exit.
pub open spec fn exited_actions(m: ManagerView, app_id: AppId, code: Option<i32>) -> Seq<
    ActionView,
> {
    if !m.apps.contains_key(app_id) {
        Seq::empty()
    } else {
        let app = m.apps[app_id];
        releases(app.running) + (match exit_policy(code, app.respawned_once) {
            ExitAction::Reap => Seq::empty(),
            ExitAction::Respawn => seq![
                ActionView::Spawn { app_id, exe: app.bundle.exe@, first: false },
            ],
            _ => unroutes(app.windows, in_order(app.windows.dom())) + seq![
                ActionView::ToHost { msg: ClientMessage::UnsubscribeApp { app_id } },
            ],
        })
    }
}

/// What is done about a helper's report. Only progress on tracks that the
/// application owns counts.
pub open spec fn up_actions(m: ManagerView, app_id: AppId, msg: UpMessage) -> Seq<ActionView> {
    match msg {
        UpMessage::Relay { msg } => seq![ActionView::ToHost { msg }],
        UpMessage::DecodeProgress { track_id } => if m.app_of_track.contains_key(track_id@)
            && m.app_of_track[track_id@] == app_id {
            seq![ActionView::MarkProgress { track_id: track_id@ }]
        } else {
            Seq::empty()
        },
    }
}

fn push_sends(actions: &mut Vec<CoordAction>, helper: u64, frames: Vec<DownFrame>)
    ensures
        action_views(final(actions)@) == action_views(old(actions)@) + sends(
            helper,
            frame_views(frames@),
        ),
{
    let ghost start = action_views(actions@);
    let ghost all = frame_views(frames@);
    assert(sends(helper, all.take(0)) =~= Seq::<ActionView>::empty());
    for frame in it: frames
        invariant
            all == frame_views(it.seq()),
            action_views(actions@) =~= start + sends(helper, all.take(it.index() as int)),
    {
        let ghost before = action_views(actions@);
        let ghost n = it.index();
        actions.push(CoordAction::Send { helper, frame });
        assert(action_views(actions@) =~= before.push(ActionView::Send { helper, frame: frame@ }));
        assert(sends(helper, all.take(n + 1)) =~= sends(helper, all.take(n as int)).push(
            ActionView::Send { helper, frame: frame@ },
        ));
    }
    assert(all.take(all.len() as int) =~= all);
}

fn push_release(actions: &mut Vec<CoordAction>, running: Option<u64>)
    ensures
        action_views(final(actions)@) == action_views(old(actions)@) + releases(running),
{
    let ghost before = action_views(actions@);
    if let Some(helper) = running {
        actions.push(CoordAction::Release { helper });
    }
    assert(action_views(actions@) =~= before + releases(running));
}

fn push_reroutes(
    actions: &mut Vec<CoordAction>,
    windows: &HashMap<WindowId, WindowReplay>,
    helper: u64,
)
    ensures
        action_views(final(actions)@) == action_views(old(actions)@) + reroutes(
            windows@,
            in_order(windows@.dom()),
            helper,
        ),
{
    let ghost start = action_views(actions@);
    let ids: Vec<u32> = sorted_keys(windows);
    let mut i: usize = 0;
    assert(ids@.take(0) =~= Seq::<u32>::empty());
    assert(start =~= start + reroutes(windows@, ids@.take(0), helper));
    while i < ids.len()
        invariant
            i <= ids@.len(),
            lists(ids@, windows@.dom()),
            action_views(actions@) == start + reroutes(windows@, ids@.take(i as int), helper),
        decreases ids@.len() - i,
    {
        let id: u32 = ids[i];
        assert(ids@.contains(id));
        assert(ids@.take(i + 1).drop_last() =~= ids@.take(i as int));
        assert(ids@.take(i + 1).last() == id);
        let ghost so_far = action_views(actions@);
        let ghost piece = match windows@[id].track_id {
            Some(t) => seq![
                ActionView::SetRoute { track_id: t@, helper },
                ActionView::ClearProgress { track_id: t@ },
            ],
            None => Seq::empty(),
        };
        if let Some(w) = windows.get(&id) {
            if let Some(t) = &w.track_id {
                actions.push(CoordAction::SetRoute { track_id: t.clone(), helper });
                actions.push(CoordAction::ClearProgress { track_id: t.clone() });
            }
        }
        assert(action_views(actions@) =~= so_far + piece);
        assert(so_far + piece =~= start + reroutes(windows@, ids@.take(i + 1), helper));
        i += 1;
    }
    assert(ids@.take(i as int) =~= ids@);
}

impl HelperManager {
    /// A helper was started for an application and is reached over the
    /// channel `helper`.
    pub fn on_spawned(&mut self, app_id: AppId, helper: u64, first: bool) -> (r: Vec<CoordAction>)
        ensures
            final(self)@ == spawned_state(old(self)@, app_id, helper),
            action_views(r@) == spawned_actions(old(self)@, app_id, helper, first),
    {
        let ghost before = self@;
        let ghost apps_before = self.apps@;
        let mut actions: Vec<CoordAction> = Vec::new();
        assert(action_views(actions@) =~= Seq::<ActionView>::empty());
        if let Some(mut state) = self.apps.remove(&app_id) {
            let ghost old_state = state@;
            assert(app_views(apps_before)[app_id] == old_state);
            push_release(&mut actions, state.running);
            if first {
                let mut frames: Vec<DownFrame> = Vec::new();
                if let Some(frame) = initial_icon_frame(&state) {
                    frames.push(frame);
                }
                assert(frame_views(frames@) =~= icon_frames(old_state));
                push_sends(&mut actions, helper, frames);
            } else {
                push_sends(&mut actions, helper, replay_frames(&state));
                push_reroutes(&mut actions, &state.windows, helper);
            }
            assert(action_views(actions@) =~= spawned_actions(before, app_id, helper, first));
            state.running = Some(helper);
            let ghost new_state = state@;
            let _ = self.apps.insert(app_id, state);
            assert(app_views(self.apps@) =~= app_views(apps_before).insert(app_id, new_state));
        } else {
            assert(self.apps@ =~= apps_before);
        }
        actions
    }

    /// Handles what a helper reports.
    pub fn on_helper_up(&mut self, app_id: AppId, msg: UpMessage) -> (r: Vec<CoordAction>)
        ensures
            final(self)@ == old(self)@,
            action_views(r@) == up_actions(old(self)@, app_id, msg),
    {
        let mut actions: Vec<CoordAction> = Vec::new();
        match msg {
            UpMessage::Relay { msg } => {
                actions.push(CoordAction::ToHost { msg });
                assert(action_views(actions@) =~= seq![ActionView::ToHost { msg }]);
            },
            UpMessage::DecodeProgress { track_id } => {
                let owned: bool = match self.app_of_track.get(track_id.as_str()) {
                    Some(owner) => *owner == app_id,
                    None => false,
                };
                if owned {
                    let ghost t = track_id@;
                    actions.push(CoordAction::MarkProgress { track_id });
                    assert(action_views(actions@) =~= seq![
                        ActionView::MarkProgress { track_id: t },
                    ]);
                } else {
                    assert(action_views(actions@) =~= Seq::<ActionView>::empty());
                }
            },
        }
        actions
    }

    /// Forgets the given windows and tracks, ending the tracks' routes.
    fn drop_app_windows(
        &mut self,
        actions: &mut Vec<CoordAction>,
        windows: &HashMap<WindowId, WindowReplay>,
    )
        ensures
            final(self)@ == (ManagerView {
                app_of_window: old(self)@.app_of_window.remove_keys(windows@.dom()),
                app_of_track: old(self)@.app_of_track.remove_keys(tracks_of(windows@)),
                ..old(self)@
            }),
            action_views(final(actions)@) == action_views(old(actions)@) + unroutes(
                windows@,
                in_order(windows@.dom()),
            ),
    {
        let ghost before = self@;
        let ghost start = action_views(actions@);
        let ids: Vec<u32> = sorted_keys(windows);
        let mut i: usize = 0;
        assert(ids@.take(0) =~= Seq::<u32>::empty());
        assert(start =~= start + unroutes(windows@, ids@.take(0)));
        while i < ids.len()
            invariant
                i <= ids@.len(),
                lists(ids@, windows@.dom()),
                action_views(actions@) == start + unroutes(windows@, ids@.take(i as int)),
                self@ == (ManagerView {
                    app_of_window: self@.app_of_window,
                    app_of_track: self@.app_of_track,
                    ..before
                }),
                forall|w: WindowId| #[trigger]
                    self@.app_of_window.contains_key(w) <==> before.app_of_window.contains_key(w)
                        && !ids@.take(i as int).contains(w),
                forall|w: WindowId| #[trigger]
                    self@.app_of_window.contains_key(w) ==> self@.app_of_window[w]
                        == before.app_of_window[w],
                forall|t: Seq<char>| #[trigger]
                    self@.app_of_track.contains_key(t) <==> before.app_of_track.contains_key(t)
                        && !exists|k: int|
                        0 <= k < i && (#[trigger] windows@[ids@[k]]).track_id is Some
                            && windows@[ids@[k]].track_id->0@ == t,
                forall|t: Seq<char>| #[trigger]
                    self@.app_of_track.contains_key(t) ==> self@.app_of_track[t]
                        == before.app_of_track[t],
            decreases ids@.len() - i,
        {
            let id: u32 = ids[i];
            assert(ids@.contains(id));
            assert(ids@.take(i + 1).drop_last() =~= ids@.take(i as int));
            assert(ids@.take(i + 1).last() == id);
            let ghost so_far = action_views(actions@);
            let ghost piece = match windows@[id].track_id {
                Some(t) => seq![ActionView::ClearRoute { track_id: t@ }],
                None => Seq::empty(),
            };
            let ghost tracks = self@.app_of_track;
            if let Some(w) = windows.get(&id) {
                if let Some(t) = &w.track_id {
                    actions.push(CoordAction::ClearRoute { track_id: t.clone() });
                    let _ = self.app_of_track.remove(t.as_str());
                }
            }
            let _ = self.app_of_window.remove(&id);
            assert(action_views(actions@) =~= so_far + piece);
            assert(so_far + piece =~= start + unroutes(windows@, ids@.take(i + 1)));
            proof {
                let some = ids@.take(i as int);
                let more = ids@.take(i + 1);
                assert(more =~= some.push(id));
                assert forall|w: WindowId| more.contains(w) <==> some.contains(w) || w == id by {
                    if some.contains(w) {
                        let k = choose|k: int| 0 <= k < some.len() && some[k] == w;
                        assert(more[k] == w);
                    }
                    if w == id {
                        assert(more[i as int] == w);
                    }
                }
                assert forall|t: Seq<char>| #[trigger]
                    self@.app_of_track.contains_key(t) <==> before.app_of_track.contains_key(t)
                        && !exists|k: int|
                        0 <= k < i + 1 && (#[trigger] windows@[ids@[k]]).track_id is Some
                            && windows@[ids@[k]].track_id->0@ == t by {
                    if exists|k: int|
                        0 <= k < i && (#[trigger] windows@[ids@[k]]).track_id is Some
                            && windows@[ids@[k]].track_id->0@ == t {
                        let k = choose|k: int|
                            0 <= k < i && (#[trigger] windows@[ids@[k]]).track_id is Some
                                && windows@[ids@[k]].track_id->0@ == t;
                        assert(0 <= k < i + 1);
                        assert(!tracks.contains_key(t));
                    }
                    assert(windows@[ids@[i as int]] == windows@[id]);
                }
            }
            i += 1;
        }
        proof {
            assert(ids@.take(i as int) =~= ids@);
            assert forall|t: Seq<char>| is_track_of(windows@, t) <==> exists|k: int|
                0 <= k < i && (#[trigger] windows@[ids@[k]]).track_id is Some
                    && windows@[ids@[k]].track_id->0@ == t by {
                if is_track_of(windows@, t) {
                    let w = choose|w: WindowId| #[trigger]
                        windows@.contains_key(w) && windows@[w].track_id is Some
                            && windows@[w].track_id->0@ == t;
                    assert(ids@.contains(w));
                    let k = choose|k: int| 0 <= k < ids@.len() && ids@[k] == w;
                    assert(windows@[ids@[k]].track_id is Some);
                }
                if exists|k: int|
                    0 <= k < i && (#[trigger] windows@[ids@[k]]).track_id is Some
                        && windows@[ids@[k]].track_id->0@ == t {
                    let k = choose|k: int|
                        0 <= k < i && (#[trigger] windows@[ids@[k]]).track_id is Some
                            && windows@[ids@[k]].track_id->0@ == t;
                    assert(ids@.contains(ids@[k]));
                    assert(windows@.contains_key(ids@[k]));
                }
            }
            assert(self@.app_of_window =~= before.app_of_window.remove_keys(windows@.dom()));
            assert(self@.app_of_track =~= before.app_of_track.remove_keys(tracks_of(windows@)));
        }
    }

    /// Handles a helper's exit.
    pub fn on_helper_exited(&mut self, app_id: AppId, code: Option<i32>) -> (r: Vec<CoordAction>)
        ensures
            final(self)@ == exited_state(old(self)@, app_id, code),
            action_views(r@) == exited_actions(old(self)@, app_id, code),
    {
        let ghost before = self@;
        let ghost apps_before = self.apps@;
        let mut actions: Vec<CoordAction> = Vec::new();
        assert(action_views(actions@) =~= Seq::<ActionView>::empty());
        if let Some(mut state) = self.apps.remove(&app_id) {
            let ghost old_state = state@;
            assert(app_views(apps_before)[app_id] == old_state);
            push_release(&mut actions, state.running);
            assert(action_views(actions@) =~= releases(old_state.running));
            state.running = None;
            match exit_action(code, state.respawned_once) {
                // Windows are already gone (that's why it idled); the state
                // stays for an on-demand respawn.
                ExitAction::Reap => {},
                ExitAction::Respawn => {
                    state.respawned_once = true;
                    let exe: String = state.bundle.exe.clone();
                    actions.push(CoordAction::Spawn { app_id, exe, first: false });
                },
                _ => {
                    state.given_up = true;
                    let windows: HashMap<WindowId, WindowReplay> = state.windows;
                    state.windows = HashMap::new();
                    assert(windows@ == old_state.windows);
                    self.drop_app_windows(&mut actions, &windows);
                    let ghost so_far = action_views(actions@);
                    actions.push(
                        CoordAction::ToHost { msg: ClientMessage::UnsubscribeApp { app_id } },
                    );
                    assert(action_views(actions@) =~= so_far.push(
                        ActionView::ToHost { msg: ClientMessage::UnsubscribeApp { app_id } },
                    ));
                    assert(state.windows@ =~= Map::<WindowId, WindowReplay>::empty());
                    assert(action_views(actions@) =~= releases(old_state.running) + (unroutes(
                        old_state.windows,
                        in_order(old_state.windows.dom()),
                    ) + seq![ActionView::ToHost { msg: ClientMessage::UnsubscribeApp { app_id } }]));
                },
            }
            assert(action_views(actions@) =~= exited_actions(before, app_id, code));
            let ghost new_state = state@;
            let ghost apps_rest = self.apps@;
            assert(app_views(apps_rest) =~= app_views(apps_before).remove(app_id));
            let _ = self.apps.insert(app_id, state);
            assert(app_views(self.apps@) =~= app_views(apps_rest).insert(app_id, new_state));
            assert(app_views(self.apps@) =~= app_views(apps_before).insert(app_id, new_state));
        } else {
            assert(self.apps@ =~= apps_before);
        }
        actions
    }

    /// Session teardown: closing every channel shuts each socket's write
    /// half, which helpers read as EOF and exit on.
    pub fn shutdown_all(&mut self) -> (r: Vec<CoordAction>)
        ensures
            final(self)@ == shutdown_state(old(self)@),
            action_views(r@) == shutdown_actions(
                old(self)@.apps,
                in_order(old(self)@.apps.dom()),
            ),
    {
        let ghost before = self@;
        let ids: Vec<u32> = sorted_keys(&self.apps);
        assert(before.apps.dom() =~= self.apps@.dom());
        let mut actions: Vec<CoordAction> = Vec::new();
        let mut i: usize = 0;
        assert(ids@.take(0) =~= Seq::<u32>::empty());
        assert(action_views(actions@) =~= shutdown_actions(before.apps, ids@.take(0)));
        while i < ids.len()
            invariant
                i <= ids@.len(),
                lists(ids@, before.apps.dom()),
                self@ == (ManagerView { apps: self@.apps, ..before }),
                self@.apps.dom() =~= before.apps.dom(),
                forall|a: AppId| #[trigger]
                    before.apps.contains_key(a) ==> self@.apps[a] == (if ids@.take(
                        i as int,
                    ).contains(a) {
                        stopped(before.apps[a])
                    } else {
                        before.apps[a]
                    }),
                action_views(actions@) == shutdown_actions(before.apps, ids@.take(i as int)),
            decreases ids@.len() - i,
        {
            let id: u32 = ids[i];
            assert(ids@.contains(id));
            assert(before.apps.contains_key(id));
            assert(ids@.take(i + 1).drop_last() =~= ids@.take(i as int));
            assert(ids@.take(i + 1).last() == id);
            assert(!ids@.take(i as int).contains(id));
            let ghost apps_before = self.apps@;
            assert(self@.apps.contains_key(id));
            if let Some(mut state) = self.apps.remove(&id) {
                let ghost old_state = state@;
                assert(app_views(apps_before)[id] == old_state);
                push_release(&mut actions, state.running);
                state.running = None;
                let ghost new_state = state@;
                let _ = self.apps.insert(id, state);
                assert(app_views(self.apps@) =~= app_views(apps_before).insert(id, new_state));
                assert(new_state == stopped(before.apps[id]));
            }
            proof {
                let some = ids@.take(i as int);
                let more = ids@.take(i + 1);
                assert(more =~= some.push(id));
                assert forall|a: u32| more.contains(a) <==> some.contains(a) || a == id by {
                    if some.contains(a) {
                        let k = choose|k: int| 0 <= k < some.len() && some[k] == a;
                        assert(more[k] == a);
                    }
                    if a == id {
                        assert(more[i as int] == a);
                    }
                }
            }
            i += 1;
        }
        assert(ids@.take(i as int) =~= ids@);
        assert(self@.apps =~= shutdown_state(before).apps);
        actions
    }
}

/// What the coordinator's loop does with an event.
pub struct CoordStep {
    pub actions: Vec<CoordAction>,
    /// The connection is lost: end the loop.
    pub exit: bool,
}

impl HelperManager {
    /// Handles one event. Access units do not come this way; they are routed
    /// where they are received.
    pub fn on_event(&mut self, ev: CoordEvent) -> (r: CoordStep)
        ensures
            r.exit <==> ev == CoordEvent::Net(UiEvent::Disconnected),
            match ev {
                CoordEvent::Net(UiEvent::Host(msg)) => final(self)@ == host_state(old(self)@, msg)
                    && action_views(r.actions@) == host_actions(old(self)@, msg),
                CoordEvent::Net(UiEvent::Disconnected) => final(self)@ == shutdown_state(
                    old(self)@,
                ) && action_views(r.actions@) == shutdown_actions(
                    old(self)@.apps,
                    in_order(old(self)@.apps.dom()),
                ),
                CoordEvent::Net(_) => final(self)@ == old(self)@ && r.actions@.len() == 0,
                CoordEvent::HelperUp { app_id, msg } => final(self)@ == old(self)@ && action_views(
                    r.actions@,
                ) == up_actions(old(self)@, app_id, msg),
                CoordEvent::HelperExited { app_id, code } => final(self)@ == exited_state(
                    old(self)@,
                    app_id,
                    code,
                ) && action_views(r.actions@) == exited_actions(old(self)@, app_id, code),
            },
    {
        match ev {
            CoordEvent::Net(UiEvent::Host(msg)) => CoordStep {
                actions: self.on_host_message(msg),
                exit: false,
            },
            CoordEvent::Net(UiEvent::Disconnected) => CoordStep {
                actions: self.shutdown_all(),
                exit: true,
            },
            CoordEvent::Net(_) => CoordStep { actions: Vec::new(), exit: false },
            CoordEvent::HelperUp { app_id, msg } => CoordStep {
                actions: self.on_helper_up(app_id, msg),
                exit: false,
            },
            CoordEvent::HelperExited { app_id, code } => CoordStep {
                actions: self.on_helper_exited(app_id, code),
                exit: false,
            },
        }
    }
}

/// An application whose helper's channel was closed.
pub open spec fn stopped(app: AppView) -> AppView {
    AppView { running: None, ..app }
}

/// The state after the teardown of a session.
pub open spec fn shutdown_state(m: ManagerView) -> ManagerView {
    ManagerView { apps: m.apps.map_values(|app: AppView| stopped(app)), ..m }
}

/// Closing the channels of the applications `ids`.
pub open spec fn shutdown_actions(apps: Map<AppId, AppView>, ids: Seq<AppId>) -> Seq<ActionView>
    decreases ids.len(),
{
    if ids.len() == 0 {
        Seq::empty()
    } else {
        shutdown_actions(apps, ids.drop_last()) + releases(apps[ids.last()].running)
    }
}

} // verus!
