//! One client's session on the host: what is captured, announced and torn
//! down as windows come and go.
//!
//! [`Session`] decides; its caller owns the peer, the captures and the
//! encoders, performs the [`SessionAction`]s in order and reports what came
//! of opening a track or restarting a capture.

use crate::b64::{base64_text, encode};
use crate::capture::{AppIdentity, MAX_ICON_BYTES};
use crate::ids::{in_order, sorted_keys};
use crate::mapping::InputMapping;
use crate::mirror_app::announcement_of;
use crate::model::{OpenedView, SnapshotWindow, WindowInfo};
use crate::names::NameMap;
use crate::protocol::{
    AppId, ClientMessage, HostMessage, MouseAction, MouseButton, WindowId, WindowKind,
};
use crate::scalar::Scalar;
use crate::text::{decimal, push_decimal};
use crate::tracker::{
    diff_events, diff_live, ids_of_pid, AppTracker, LiveWindow, TrackerEvent, TrackerView,
};
use std::collections::HashMap;
use vstd::prelude::*;

verus! {

broadcast use vstd::std_specs::hash::group_hash_axioms;

pub const SIGNAL_PORT: u16 = 9009;

/// The time between two reconcile passes without a poke, in milliseconds.
pub const RECONCILE_MS: u64 = 500;

/// Pixels to an even pixel dimension. Captures require even width and height;
/// the lower bound keeps a degenerate window from producing an empty capture.
pub fn even_px(px: u32) -> (r: u32)
    ensures
        r == (if px < 2 {
            2int
        } else {
            px - px % 2
        }),
        r % 2 == 0,
        r >= 2,
{
    if px < 2 {
        2
    } else {
        px - px % 2
    }
}

/// The application id of a process.
pub open spec fn app_of_pid(pid: i32) -> AppId {
    if pid >= 0 {
        pid as u32
    } else {
        (pid + 4294967296) as u32
    }
}

/// The application id of a process: its pid's 32 bits.
pub fn app_id_of(pid: i32) -> (id: AppId)
    ensures
        id == app_of_pid(pid),
{
    if pid >= 0 {
        pid as u32
    } else {
        (pid as i64 + 4294967296) as u32
    }
}

/// The process of an application id.
pub fn pid_of_app(id: AppId) -> (pid: i32)
    ensures
        app_of_pid(pid) == id,
{
    if id <= 2147483647 {
        id as i32
    } else {
        (id as i64 - 4294967296) as i32
    }
}

/// What announces a shared application to the client: its icon travels as
/// base64.
pub fn app_announcement(pid: i32, identity: &AppIdentity) -> (msg: HostMessage)
    requires
        2 * identity.icon_png@.len() <= isize::MAX,
    ensures
        msg is AppAnnounced,
        msg->AppAnnounced_app_id == app_of_pid(pid),
        msg->name == identity.name,
        msg->icon_png@ == base64_text(identity.icon_png@),
        crate::b64::base64_data(msg->icon_png@) == Some(identity.icon_png@),
        // An icon within its budget leaves room in a control message.
        identity.icon_png@.len() <= MAX_ICON_BYTES ==> msg->icon_png@.len() <= 60_000,
{
    HostMessage::AppAnnounced {
        app_id: app_id_of(pid),
        name: identity.name.clone(),
        icon_png: encode(identity.icon_png.as_slice()),
    }
}

/// The track of a window.
pub open spec fn track_name(id: WindowId) -> Seq<char> {
    "win-"@ + decimal(id as nat)
}

/// The track of a window.
pub fn track_of(id: WindowId) -> (t: String)
    ensures
        t@ == track_name(id),
{
    let mut t: String = "win-".to_owned();
    push_decimal(&mut t, id as u128);
    t
}

/// Different windows have different tracks.
pub proof fn track_names_differ(a: WindowId, b: WindowId)
    requires
        track_name(a) == track_name(b),
    ensures
        a == b,
{
    let n = "win-"@.len() as int;
    assert(track_name(a).skip(n) =~= decimal(a as nat));
    assert(track_name(b).skip(n) =~= decimal(b as nat));
    crate::text::decimal_injective(a as nat, b as nat);
}

/// How far opening a window's track got before it failed.
#[derive(Debug, Clone, Copy, PartialEq, Eq, Structural)]
pub enum OpenStage {
    /// Adding the track to the peer failed.
    Track,
    /// Starting the encoder failed.
    Encoder,
    /// Creating or starting the capture failed.
    Capture,
}

/// What undoes a failed opening.
#[derive(Debug, Clone, Copy, PartialEq, Eq, Structural)]
pub struct OpenCleanup {
    pub stop_encoder: bool,
    pub remove_track: bool,
}

/// What has to be undone when opening a window's track fails: exactly what is
/// up by then. Otherwise the encoder's thread would never see a shutdown, and
/// a dead track would linger in the session description.
pub fn open_cleanup(stage: OpenStage) -> (c: OpenCleanup)
    ensures
        c.remove_track <==> stage != OpenStage::Track,
        c.stop_encoder <==> stage == OpenStage::Capture,
{
    match stage {
        OpenStage::Track => OpenCleanup { stop_encoder: false, remove_track: false },
        OpenStage::Encoder => OpenCleanup { stop_encoder: false, remove_track: true },
        OpenStage::Capture => OpenCleanup { stop_encoder: true, remove_track: true },
    }
}

/// What comes of one attempt to reach the client over the control channel.
#[derive(Debug, Clone, Copy, PartialEq, Eq, Structural)]
pub enum ProbeStep {
    /// The channel is open.
    Ready,
    /// Try again shortly.
    Retry,
    /// Close the peer: it disconnected during setup.
    Disconnected,
    /// Close the peer: the channel never opened.
    Failed,
}

/// The step after a probe that was sent, or not, before or after the
/// deadline; a peer that disconnected is not probed.
pub fn probe_step(disconnected: bool, sent: bool, before_deadline: bool) -> (s: ProbeStep)
    ensures
        s == (if disconnected {
            ProbeStep::Disconnected
        } else if sent {
            ProbeStep::Ready
        } else if before_deadline {
            ProbeStep::Retry
        } else {
            ProbeStep::Failed
        }),
{
    if disconnected {
        ProbeStep::Disconnected
    } else if sent {
        ProbeStep::Ready
    } else if before_deadline {
        ProbeStep::Retry
    } else {
        ProbeStep::Failed
    }
}

/// Per-window runtime state: a media track with its encoder, and a capture
/// that feeds it unless the window is minimized. Child windows (menus,
/// sheets, popovers) have no runtime of their own.
struct WindowRuntime {
    capturing: bool,
    track_id: String,
}

/// What a window's runtime is.
pub ghost struct RuntimeView {
    pub capturing: bool,
    pub track: Seq<char>,
}

impl View for WindowRuntime {
    type V = RuntimeView;

    closed spec fn view(&self) -> RuntimeView {
        RuntimeView { capturing: self.capturing, track: self.track_id@ }
    }
}

/// What a session asks of its surroundings.
pub enum SessionAction {
    /// Add a track, start its encoder and a capture of the window that feeds
    /// it; on success call [`Session::on_track_opened`].
    OpenTrack { window: SnapshotWindow, track_id: String },
    /// Start a capture of the window on the encoder it has; on success call
    /// [`Session::on_capture_started`].
    RestartCapture { window_id: WindowId, info: WindowInfo },
    StopCapture { window_id: WindowId },
    /// Give a running capture a new size, in host points.
    Reconfigure { window_id: WindowId, width: Scalar, height: Scalar },
    RemoveTrack { track_id: String },
    /// Stop the window's encoder, and its capture if one runs.
    StopEncoder { window_id: WindowId },
    Send { msg: HostMessage },
    Renegotiate,
    /// Hand the input sink the windows' processes.
    UpdatePids { pids: HashMap<WindowId, i32> },
}

/// What a [`SessionAction`] says.
pub ghost enum SessionStep {
    OpenTrack { window: SnapshotWindow, track: Seq<char> },
    RestartCapture { window_id: WindowId, info: WindowInfo },
    StopCapture { window_id: WindowId },
    Reconfigure { window_id: WindowId, width: Scalar, height: Scalar },
    RemoveTrack { track: Seq<char> },
    StopEncoder { window_id: WindowId },
    /// A `WindowOpened`.
    Announce { announcement: OpenedView, app_id: AppId, has_track: bool },
    /// Any other message.
    Send { msg: HostMessage },
    Renegotiate,
    UpdatePids { pids: Map<WindowId, i32> },
}

impl View for SessionAction {
    type V = SessionStep;

    open spec fn view(&self) -> SessionStep {
        match *self {
            SessionAction::OpenTrack { window, track_id } => SessionStep::OpenTrack {
                window,
                track: track_id@,
            },
            SessionAction::RestartCapture { window_id, info } => SessionStep::RestartCapture {
                window_id,
                info,
            },
            SessionAction::StopCapture { window_id } => SessionStep::StopCapture { window_id },
            SessionAction::Reconfigure { window_id, width, height } => SessionStep::Reconfigure {
                window_id,
                width,
                height,
            },
            SessionAction::RemoveTrack { track_id } => SessionStep::RemoveTrack {
                track: track_id@,
            },
            SessionAction::StopEncoder { window_id } => SessionStep::StopEncoder { window_id },
            SessionAction::Send { msg } => if msg is WindowOpened {
                SessionStep::Announce {
                    announcement: announcement_of(msg),
                    app_id: msg->WindowOpened_app_id,
                    has_track: msg->track_id is Some,
                }
            } else {
                SessionStep::Send { msg }
            },
            SessionAction::Renegotiate => SessionStep::Renegotiate,
            SessionAction::UpdatePids { pids } => SessionStep::UpdatePids { pids: pids@ },
        }
    }
}

pub open spec fn steps(actions: Seq<SessionAction>) -> Seq<SessionStep> {
    actions.map_values(|a: SessionAction| a@)
}

/// A session with one client.
pub struct Session {
    tracker: AppTracker,
    runtimes: HashMap<WindowId, WindowRuntime>,
    /// The window of each live track, for keyframe requests.
    window_of_track: NameMap<WindowId>,
    /// The current pass had events.
    busy: bool,
    /// The current pass added or removed tracks.
    tracks_changed: bool,
}

/// What a [`Session`] knows.
pub ghost struct SessionView {
    pub tracker: TrackerView,
    pub runtimes: Map<WindowId, RuntimeView>,
    pub window_of_track: Map<Seq<char>, WindowId>,
    pub busy: bool,
    pub tracks_changed: bool,
}

spec fn runtime_views(runtimes: Map<WindowId, WindowRuntime>) -> Map<WindowId, RuntimeView> {
    runtimes.map_values(|r: WindowRuntime| r@)
}

impl View for Session {
    type V = SessionView;

    closed spec fn view(&self) -> SessionView {
        SessionView {
            tracker: self.tracker@,
            runtimes: runtime_views(self.runtimes@),
            window_of_track: self.window_of_track@,
            busy: self.busy,
            tracks_changed: self.tracks_changed,
        }
    }
}

impl SessionView {
    /// Every window's runtime has the window's track, and the tracks lead
    /// back to exactly the windows with a runtime.
    pub open spec fn wf(self) -> bool {
        &&& forall|w: WindowId| #[trigger]
            self.runtimes.contains_key(w) ==> {
                &&& self.runtimes[w].track == track_name(w)
                &&& self.window_of_track.contains_key(track_name(w))
                &&& self.window_of_track[track_name(w)] == w
            }
        &&& forall|t: Seq<char>| #[trigger]
            self.window_of_track.contains_key(t) ==> {
                &&& self.runtimes.contains_key(self.window_of_track[t])
                &&& t == track_name(self.window_of_track[t])
            }
    }

    /// Whether a window is being captured.
    pub open spec fn captures(self, w: WindowId) -> bool {
        self.runtimes.contains_key(w) && self.runtimes[w].capturing
    }

    /// With a window's capture running or stopped.
    pub open spec fn with_capture(self, w: WindowId, capturing: bool) -> SessionView {
        if self.runtimes.contains_key(w) {
            SessionView {
                runtimes: self.runtimes.insert(w, (RuntimeView { capturing, ..self.runtimes[w] })),
                ..self
            }
        } else {
            self
        }
    }

    /// Without a window's runtime.
    pub open spec fn without(self, w: WindowId) -> SessionView {
        if self.runtimes.contains_key(w) {
            SessionView {
                runtimes: self.runtimes.remove(w),
                window_of_track: self.window_of_track.remove(self.runtimes[w].track),
                tracks_changed: true,
                ..self
            }
        } else {
            self
        }
    }

    /// Tearing a window's runtime down.
    pub open spec fn tearing_down(self, w: WindowId) -> Seq<SessionStep> {
        if self.runtimes.contains_key(w) {
            seq![
                SessionStep::RemoveTrack { track: self.runtimes[w].track },
                SessionStep::StopEncoder { window_id: w },
            ]
        } else {
            Seq::empty()
        }
    }
}

/// The state after one event of a pass.
pub open spec fn event_state(v: SessionView, ev: TrackerEvent) -> SessionView {
    match ev {
        TrackerEvent::Opened { .. } => v,
        TrackerEvent::Closed { window_id } => v.without(window_id),
        TrackerEvent::Minimized { window_id } => v.with_capture(window_id, false),
        TrackerEvent::Restored { .. } => v,
        TrackerEvent::Resized { .. } => v,
        TrackerEvent::TitleChanged { .. } => v,
    }
}

/// What is done about one event of a pass. A minimized window keeps its track
/// and encoder; only the capture pauses.
pub open spec fn event_steps(v: SessionView, ev: TrackerEvent) -> Seq<SessionStep> {
    match ev {
        TrackerEvent::Opened { window } => seq![
            SessionStep::OpenTrack { window, track: track_name(window.info.id) },
        ],
        TrackerEvent::Closed { window_id } => v.tearing_down(window_id) + seq![
            SessionStep::Send { msg: HostMessage::WindowClosed { window_id } },
        ],
        TrackerEvent::Minimized { window_id } => (if v.captures(window_id) {
            seq![SessionStep::StopCapture { window_id }]
        } else {
            Seq::empty()
        }) + seq![SessionStep::Send { msg: HostMessage::WindowMinimized { window_id } }],
        TrackerEvent::Restored { window_id } => (if v.runtimes.contains_key(window_id)
            && !v.captures(window_id) && v.tracker.live.contains_key(window_id) {
            seq![
                SessionStep::RestartCapture {
                    window_id,
                    info: v.tracker.live[window_id].info,
                },
            ]
        } else {
            Seq::empty()
        }) + seq![SessionStep::Send { msg: HostMessage::WindowRestored { window_id } }],
        TrackerEvent::Resized { window_id, width, height } => (if v.captures(window_id) {
            seq![SessionStep::Reconfigure { window_id, width, height }]
        } else {
            Seq::empty()
        }) + seq![SessionStep::Send { msg: HostMessage::WindowResized { window_id, width, height } }],
        TrackerEvent::TitleChanged { window_id, title } => seq![
            SessionStep::Send { msg: HostMessage::WindowTitleChanged { window_id, title } },
        ],
    }
}

/// The state once a window's track is up.
pub open spec fn opened_state(v: SessionView, window: SnapshotWindow) -> SessionView {
    let w = window.info.id;
    SessionView {
        runtimes: v.runtimes.insert(w, RuntimeView { capturing: true, track: track_name(w) }),
        window_of_track: v.window_of_track.insert(track_name(w), w),
        tracks_changed: true,
        ..v
    }
}

/// The state once the session has ended: no window is shared any more.
pub open spec fn ended(v: SessionView) -> SessionView {
    SessionView { runtimes: Map::empty(), window_of_track: Map::empty(), ..v }
}

/// Stopping the captures and encoders of some windows.
pub open spec fn stopping(ids: Seq<WindowId>) -> Seq<SessionStep> {
    ids.map_values(|w: WindowId| SessionStep::StopEncoder { window_id: w })
}

/// The announcement of a window whose track is up.
pub open spec fn opened_step(window: SnapshotWindow) -> SessionStep {
    SessionStep::Announce {
        announcement: OpenedView {
            info: WindowInfo { x: Scalar { bits: 0 }, y: Scalar { bits: 0 }, ..window.info },
            kind: WindowKind::Normal,
            parent_id: None,
            offset: (Scalar { bits: 0 }, Scalar { bits: 0 }),
            track_id: track_name(window.info.id),
        },
        app_id: app_of_pid(window.pid),
        has_track: true,
    }
}

/// The processes of the live windows.
pub open spec fn live_pids(v: SessionView) -> Map<WindowId, i32> {
    v.tracker.live.map_values(|t: LiveWindow| t.pid)
}

/// What ends a pass: nothing when it had no events; otherwise new tracks are
/// negotiated and the input sink learns the windows' processes.
pub open spec fn finish_steps(v: SessionView) -> Seq<SessionStep> {
    if !v.busy {
        Seq::empty()
    } else {
        (if v.tracks_changed {
            seq![SessionStep::Renegotiate]
        } else {
            Seq::empty()
        }) + seq![SessionStep::UpdatePids { pids: live_pids(v) }]
    }
}

/// What is done with a message of the client.
pub enum InputAction {
    /// Post a click at a point of the window, which stands at `info`.
    Mouse {
        window_id: WindowId,
        info: WindowInfo,
        x: Scalar,
        y: Scalar,
        button: MouseButton,
        action: MouseAction,
    },
    MouseMove { window_id: WindowId, info: WindowInfo, x: Scalar, y: Scalar },
    Key { window_id: WindowId, key_code: u16, down: bool, flags: u64 },
    Focus { window_id: WindowId },
    Resize { window_id: WindowId, width: Scalar, height: Scalar },
    Close { window_id: WindowId },
    /// Stop sharing an application.
    Unsubscribe { app_id: AppId },
    Nothing,
}

/// What a message of the client asks for. The pointer's messages need to know
/// where the window stands; all others are delivered as they are.
pub open spec fn input_of(v: SessionView, msg: ClientMessage) -> InputAction {
    match msg {
        ClientMessage::MouseInput { window_id, x, y, button, action } => if v.tracker.live.contains_key(
            window_id,
        ) {
            InputAction::Mouse {
                window_id,
                info: v.tracker.live[window_id].info,
                x,
                y,
                button,
                action,
            }
        } else {
            InputAction::Nothing
        },
        ClientMessage::MouseMove { window_id, x, y } => if v.tracker.live.contains_key(window_id) {
            InputAction::MouseMove { window_id, info: v.tracker.live[window_id].info, x, y }
        } else {
            InputAction::Nothing
        },
        ClientMessage::KeyEvent { window_id, key_code, down, flags } => InputAction::Key {
            window_id,
            key_code,
            down,
            flags,
        },
        ClientMessage::FocusChange { window_id } => InputAction::Focus { window_id },
        ClientMessage::ResizeRequest { window_id, width, height } => InputAction::Resize {
            window_id,
            width,
            height,
        },
        ClientMessage::CloseRequest { window_id } => InputAction::Close { window_id },
        ClientMessage::UnsubscribeApp { app_id } => InputAction::Unsubscribe { app_id },
        ClientMessage::SdpAnswer { .. } => InputAction::Nothing,
    }
}

/// The windows `ids` torn down one after the other: the state.
pub open spec fn without_all(v: SessionView, ids: Seq<WindowId>) -> SessionView
    decreases ids.len(),
{
    if ids.len() == 0 {
        v
    } else {
        without_all(v, ids.drop_last()).without(ids.last())
    }
}

/// The windows `ids` torn down one after the other: what is done.
pub open spec fn tearing_down_all(v: SessionView, ids: Seq<WindowId>) -> Seq<SessionStep>
    decreases ids.len(),
{
    if ids.len() == 0 {
        Seq::empty()
    } else {
        tearing_down_all(v, ids.drop_last()) + without_all(v, ids.drop_last()).tearing_down(
            ids.last(),
        )
    }
}

/// The state after the client unsubscribed an application, before its windows
/// are torn down.
pub open spec fn unsubscribed(v: SessionView, pid: i32) -> SessionView {
    SessionView {
        tracker: v.tracker.without_pid(pid),
        busy: true,
        tracks_changed: false,
        ..v
    }
}

impl Session {
    /// A session that shares the windows of some processes.
    pub fn new(pids: &[i32]) -> (s: Session)
        ensures
            s@.wf(),
            s@.tracker.live == Map::<WindowId, LiveWindow>::empty(),
            forall|p: i32| #[trigger] s@.tracker.pids.contains(p) <==> pids@.contains(p),
            s@.runtimes == Map::<WindowId, RuntimeView>::empty(),
            s@.window_of_track == Map::<Seq<char>, WindowId>::empty(),
            !s@.busy,
            !s@.tracks_changed,
    {
        let s = Session {
            tracker: AppTracker::new(pids),
            runtimes: HashMap::new(),
            window_of_track: NameMap::new(),
            busy: false,
            tracks_changed: false,
        };
        assert(s@.runtimes =~= Map::<WindowId, RuntimeView>::empty());
        s
    }

    /// Begins a reconcile pass with a snapshot; the events go one by one to
    /// [`Session::on_tracker_event`], and [`Session::finish_pass`] ends it.
    pub fn begin_pass(&mut self, snapshot: Vec<SnapshotWindow>) -> (events: Vec<TrackerEvent>)
        ensures
            events@ == diff_events(old(self)@.tracker, snapshot@),
            final(self)@ == (SessionView {
                tracker: TrackerView {
                    pids: old(self)@.tracker.pids,
                    live: diff_live(old(self)@.tracker, snapshot@),
                },
                busy: events@.len() > 0,
                tracks_changed: false,
                ..old(self)@
            }),
    {
        let events: Vec<TrackerEvent> = self.tracker.diff(snapshot);
        self.busy = !events.is_empty();
        self.tracks_changed = false;
        events
    }

    /// Removes a window's runtime and pushes what tears it down.
    fn tear_down(&mut self, w: WindowId, actions: &mut Vec<SessionAction>)
        ensures
            final(self)@ == old(self)@.without(w),
            steps(final(actions)@) == steps(old(actions)@) + old(self)@.tearing_down(w),
    {
        let ghost before = self@;
        let ghost runtimes_before = self.runtimes@;
        let ghost start = steps(actions@);
        match self.runtimes.remove(&w) {
            Some(r) => {
                assert(runtime_views(runtimes_before)[w] == r@);
                assert(runtime_views(self.runtimes@) =~= runtime_views(runtimes_before).remove(w));
                let _ = self.window_of_track.remove(r.track_id.as_str());
                self.tracks_changed = true;
                actions.push(SessionAction::RemoveTrack { track_id: r.track_id });
                actions.push(SessionAction::StopEncoder { window_id: w });
            },
            None => {
                assert(self.runtimes@ =~= runtimes_before);
            },
        }
        assert(steps(actions@) =~= start + before.tearing_down(w));
    }

    /// Whether a window has a runtime, and whether it is being captured.
    fn runtime(&self, w: WindowId) -> (r: Option<bool>)
        ensures
            r == (if self@.runtimes.contains_key(w) {
                Some(self@.runtimes[w].capturing)
            } else {
                None
            }),
    {
        match self.runtimes.get(&w) {
            Some(r) => {
                assert(runtime_views(self.runtimes@)[w] == r@);
                Some(r.capturing)
            },
            None => None,
        }
    }

    fn set_capturing(&mut self, w: WindowId, capturing: bool)
        ensures
            final(self)@ == old(self)@.with_capture(w, capturing),
    {
        let ghost before = self.runtimes@;
        match self.runtimes.remove(&w) {
            Some(r) => {
                assert(runtime_views(before)[w] == r@);
                let fresh = WindowRuntime { capturing, track_id: r.track_id };
                let ghost view = fresh@;
                let _ = self.runtimes.insert(w, fresh);
                assert(runtime_views(self.runtimes@) =~= runtime_views(before).insert(w, view));
            },
            None => {
                assert(self.runtimes@ =~= before);
            },
        }
    }

    /// Handles one event of the current pass.
    pub fn on_tracker_event(&mut self, ev: TrackerEvent) -> (r: Vec<SessionAction>)
        ensures
            final(self)@ == event_state(old(self)@, ev),
            steps(r@) == event_steps(old(self)@, ev),
    {
        let mut actions: Vec<SessionAction> = Vec::new();
        assert(steps(actions@) =~= Seq::<SessionStep>::empty());
        match ev {
            TrackerEvent::Opened { window } => {
                let track_id: String = track_of(window.info.id);
                actions.push(SessionAction::OpenTrack { window, track_id });
            },
            TrackerEvent::Closed { window_id } => {
                self.tear_down(window_id, &mut actions);
                let ghost so_far = steps(actions@);
                actions.push(SessionAction::Send { msg: HostMessage::WindowClosed { window_id } });
                assert(steps(actions@) =~= so_far.push(
                    SessionStep::Send { msg: HostMessage::WindowClosed { window_id } },
                ));
            },
            TrackerEvent::Minimized { window_id } => {
                if let Some(capturing) = self.runtime(window_id) {
                    if capturing {
                        actions.push(SessionAction::StopCapture { window_id });
                    }
                    self.set_capturing(window_id, false);
                }
                actions.push(
                    SessionAction::Send { msg: HostMessage::WindowMinimized { window_id } },
                );
            },
            TrackerEvent::Restored { window_id } => {
                if let Some(capturing) = self.runtime(window_id) {
                    if !capturing {
                        if let Some(info) = self.tracker.geometry(window_id) {
                            let info: WindowInfo = info.clone();
                            actions.push(SessionAction::RestartCapture { window_id, info });
                        }
                    }
                }
                actions.push(
                    SessionAction::Send { msg: HostMessage::WindowRestored { window_id } },
                );
            },
            TrackerEvent::Resized { window_id, width, height } => {
                if let Some(capturing) = self.runtime(window_id) {
                    if capturing {
                        actions.push(SessionAction::Reconfigure { window_id, width, height });
                    }
                }
                actions.push(
                    SessionAction::Send {
                        msg: HostMessage::WindowResized { window_id, width, height },
                    },
                );
            },
            TrackerEvent::TitleChanged { window_id, title } => {
                actions.push(
                    SessionAction::Send {
                        msg: HostMessage::WindowTitleChanged { window_id, title },
                    },
                );
            },
        }
        assert(steps(actions@) =~= event_steps(old(self)@, ev));
        actions
    }

    /// A window's track is up and its capture runs. A window whose track
    /// could not be opened is never announced.
    pub fn on_track_opened(&mut self, window: SnapshotWindow) -> (r: Vec<SessionAction>)
        ensures
            final(self)@ == opened_state(old(self)@, window),
            steps(r@) == seq![opened_step(window)],
    {
        let w: WindowId = window.info.id;
        let ghost before = self.runtimes@;
        let runtime = WindowRuntime { capturing: true, track_id: track_of(w) };
        let ghost view = runtime@;
        let _ = self.runtimes.insert(w, runtime);
        assert(runtime_views(self.runtimes@) =~= runtime_views(before).insert(w, view));
        let _ = self.window_of_track.insert(track_of(w), w);
        self.tracks_changed = true;
        let zero: Scalar = Scalar::zero();
        assert(zero == Scalar { bits: 0 });
        let app_id: AppId = app_id_of(window.pid);
        let msg = HostMessage::WindowOpened {
            window_id: w,
            title: window.info.title,
            kind: WindowKind::Normal,
            parent_id: None,
            offset_x: zero,
            offset_y: zero,
            width: window.info.width,
            height: window.info.height,
            track_id: Some(track_of(w)),
            app_id,
        };
        let mut actions: Vec<SessionAction> = Vec::new();
        actions.push(SessionAction::Send { msg });
        assert(steps(actions@) =~= seq![opened_step(window)]);
        actions
    }

    /// A restored window is being captured again.
    pub fn on_capture_started(&mut self, window_id: WindowId)
        ensures
            final(self)@ == old(self)@.with_capture(window_id, true),
    {
        self.set_capturing(window_id, true);
    }

    /// Ends the current pass.
    pub fn finish_pass(&self) -> (r: Vec<SessionAction>)
        ensures
            steps(r@) == finish_steps(self@),
    {
        let mut actions: Vec<SessionAction> = Vec::new();
        if self.busy {
            if self.tracks_changed {
                actions.push(SessionAction::Renegotiate);
            }
            let pids: HashMap<WindowId, i32> = self.tracker.pid_map();
            actions.push(SessionAction::UpdatePids { pids });
        }
        assert(steps(actions@) =~= finish_steps(self@));
        actions
    }

    /// The window whose encoder has to make a keyframe for a track.
    pub fn on_pli(&self, track_id: &str) -> (r: Option<WindowId>)
        ensures
            r == (if self@.window_of_track.contains_key(track_id@) {
                Some(self@.window_of_track[track_id@])
            } else {
                None
            }),
    {
        match self.window_of_track.get(track_id) {
            Some(w) => Some(*w),
            None => None,
        }
    }

    /// Where a tracked window stands.
    pub fn geometry(&self, id: WindowId) -> (r: Option<&WindowInfo>)
        ensures
            match r {
                Some(info) => self@.tracker.live.contains_key(id) && *info
                    == self@.tracker.live[id].info,
                None => !self@.tracker.live.contains_key(id),
            },
    {
        self.tracker.geometry(id)
    }

    /// What a message of the client asks for.
    pub fn on_client_message(&self, msg: ClientMessage) -> (r: InputAction)
        ensures
            r == input_of(self@, msg),
    {
        match msg {
            ClientMessage::MouseInput { window_id, x, y, button, action } => match self.tracker.geometry(
                window_id,
            ) {
                Some(info) => InputAction::Mouse {
                    window_id,
                    info: info.clone(),
                    x,
                    y,
                    button,
                    action,
                },
                None => InputAction::Nothing,
            },
            ClientMessage::MouseMove { window_id, x, y } => match self.tracker.geometry(window_id) {
                Some(info) => InputAction::MouseMove { window_id, info: info.clone(), x, y },
                None => InputAction::Nothing,
            },
            ClientMessage::KeyEvent { window_id, key_code, down, flags } => InputAction::Key {
                window_id,
                key_code,
                down,
                flags,
            },
            ClientMessage::FocusChange { window_id } => InputAction::Focus { window_id },
            ClientMessage::ResizeRequest { window_id, width, height } => InputAction::Resize {
                window_id,
                width,
                height,
            },
            ClientMessage::CloseRequest { window_id } => InputAction::Close { window_id },
            ClientMessage::UnsubscribeApp { app_id } => InputAction::Unsubscribe { app_id },
            // Consumed by the peer's own dispatch.
            ClientMessage::SdpAnswer { .. } => InputAction::Nothing,
        }
    }

    /// Tears the runtimes of some windows down, one after the other.
    fn tear_down_all(&mut self, ids: &Vec<WindowId>, actions: &mut Vec<SessionAction>)
        ensures
            final(self)@ == without_all(old(self)@, ids@),
            steps(final(actions)@) == steps(old(actions)@) + tearing_down_all(old(self)@, ids@),
    {
        let ghost before = self@;
        let ghost start = steps(actions@);
        let mut i: usize = 0;
        assert(ids@.take(0) =~= Seq::<u32>::empty());
        assert(start =~= start + tearing_down_all(before, ids@.take(0)));
        while i < ids.len()
            invariant
                i <= ids@.len(),
                self@ == without_all(before, ids@.take(i as int)),
                steps(actions@) == start + tearing_down_all(before, ids@.take(i as int)),
            decreases ids@.len() - i,
        {
            let ghost so_far = steps(actions@);
            let ghost here = self@;
            assert(ids@.take(i + 1).drop_last() =~= ids@.take(i as int));
            assert(ids@.take(i + 1).last() == ids@[i as int]);
            self.tear_down(ids[i], actions);
            assert(so_far + here.tearing_down(ids@[i as int]) =~= start + tearing_down_all(
                before,
                ids@.take(i + 1),
            ));
            i += 1;
        }
        assert(ids@.take(i as int) =~= ids@);
    }

    /// The client unsubscribed an application: its windows are forgotten
    /// without a word, since the side that displayed them is gone, and their
    /// tracks are torn down.
    pub fn on_unsubscribe(&mut self, pid: i32) -> (r: Vec<SessionAction>)
        ensures
            final(self)@ == without_all(
                unsubscribed(old(self)@, pid),
                in_order(ids_of_pid(old(self)@.tracker.live, pid)),
            ),
            steps(r@) == tearing_down_all(
                unsubscribed(old(self)@, pid),
                in_order(ids_of_pid(old(self)@.tracker.live, pid)),
            ) + finish_steps(final(self)@),
    {
        let mut actions: Vec<SessionAction> = Vec::new();
        assert(steps(actions@) =~= Seq::<SessionStep>::empty());
        let ids: Vec<WindowId> = self.tracker.remove_pid(pid);
        self.busy = true;
        self.tracks_changed = false;
        assert(self@ == unsubscribed(old(self)@, pid));
        self.tear_down_all(&ids, &mut actions);
        let mut rest: Vec<SessionAction> = self.finish_pass();
        let ghost a = actions@;
        let ghost b = rest@;
        actions.append(&mut rest);
        assert(steps(actions@) =~= steps(a) + steps(b));
        assert(steps(actions@) =~= tearing_down_all(unsubscribed(old(self)@, pid), ids@)
            + finish_steps(self@));
        actions
    }

    /// Ends the session: every window's capture and encoder stop, whatever
    /// happened before. Their tracks go with the connection.
    pub fn shutdown(&mut self) -> (r: Vec<SessionAction>)
        ensures
            final(self)@ == ended(old(self)@),
            steps(r@) == stopping(in_order(old(self)@.runtimes.dom())),
    {
        let mut actions: Vec<SessionAction> = Vec::new();
        let ids: Vec<u32> = sorted_keys(&self.runtimes);
        assert(self@.runtimes.dom() =~= self.runtimes@.dom());
        let mut i: usize = 0;
        while i < ids.len()
            invariant
                i <= ids@.len(),
                steps(actions@) == stopping(ids@.take(i as int)),
            decreases ids@.len() - i,
        {
            let ghost so_far = actions@;
            let id: u32 = ids[i];
            actions.push(SessionAction::StopEncoder { window_id: id });
            assert(steps(actions@) =~= steps(so_far).push(SessionStep::StopEncoder { window_id: id }));
            assert(stopping(ids@.take(i + 1)) =~= stopping(ids@.take(i as int)).push(
                SessionStep::StopEncoder { window_id: id },
            ));
            i += 1;
        }
        assert(ids@.take(i as int) =~= ids@);
        self.runtimes = HashMap::new();
        self.window_of_track = NameMap::new();
        assert(self@.runtimes =~= Map::<WindowId, RuntimeView>::empty());
        actions
    }
}

/// Turns changes of the frames' geometry into messages to the client.
/// Identity is implicit at open, so nothing is sent until a mapping first
/// deviates, and the return to 1:1 is sent because it differs from the last.
pub struct MappingForwarder {
    last_sent: HashMap<WindowId, InputMapping>,
}

impl View for MappingForwarder {
    type V = Map<WindowId, InputMapping>;

    closed spec fn view(&self) -> Map<WindowId, InputMapping> {
        self.last_sent@
    }
}

impl MappingForwarder {
    pub fn new() -> (f: MappingForwarder)
        ensures
            f@ == Map::<WindowId, InputMapping>::empty(),
    {
        let f = MappingForwarder { last_sent: HashMap::new() };
        assert(f@ =~= Map::<WindowId, InputMapping>::empty());
        f
    }

    /// The mapping last sent for a window.
    pub fn last(&self, window_id: WindowId) -> (r: Option<InputMapping>)
        ensures
            r == (if self@.contains_key(window_id) {
                Some(self@[window_id])
            } else {
                None
            }),
    {
        match self.last_sent.get(&window_id) {
            Some(m) => Some(*m),
            None => None,
        }
    }

    /// A window's mapping was derived anew; `like_last` says whether it
    /// equals, within tolerance, the last one sent, and `is_identity` whether
    /// it equals the identity. Returns the message to send, if any.
    pub fn on_mapping(
        &mut self,
        window_id: WindowId,
        mapping: InputMapping,
        like_last: bool,
        is_identity: bool,
    ) -> (r: Option<HostMessage>)
        ensures
            ({
                let send = if old(self)@.contains_key(window_id) {
                    !like_last
                } else {
                    !is_identity
                };
                &&& send ==> r == Some(
                    HostMessage::InputMapping {
                        window_id,
                        scale_x: mapping.scale_x,
                        scale_y: mapping.scale_y,
                        offset_x: mapping.offset_x,
                        offset_y: mapping.offset_y,
                    },
                ) && final(self)@ == old(self)@.insert(window_id, mapping)
                &&& !send ==> r == None::<HostMessage> && final(self)@ == old(self)@
            }),
    {
        let like: Option<bool> = if self.last_sent.contains_key(&window_id) {
            Some(like_last)
        } else {
            None
        };
        if crate::mapping::should_send(like, is_identity) {
            let _ = self.last_sent.insert(window_id, mapping);
            Some(
                HostMessage::InputMapping {
                    window_id,
                    scale_x: mapping.scale_x,
                    scale_y: mapping.scale_y,
                    offset_x: mapping.offset_x,
                    offset_y: mapping.offset_y,
                },
            )
        } else {
            None
        }
    }
}

} // verus!
