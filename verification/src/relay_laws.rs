//! What the coordinator does about each message, helper and exit.

use crate::b64::base64_data;
use crate::bundle::{plan_bundle, BundlePlan, StubBundle};
use crate::coordinator::{
    action_views, exit_action, frame_views, icon_frames, initial_icon_frame, opened_message, releases,
    replay_frames, replay_of, reroutes, sends, shutdown_actions, unroutes, window_frames, windows_frames, ActionView, AppState,
    AppView, CoordAction, CoordEvent, CoordStep, ExitAction, HelperManager, WindowReplay,
};
use crate::ids::{in_order, list_exists};
use crate::ipc::{DownFrame, DownView, UpMessage};
use crate::net::UiEvent;
use crate::protocol::{AppId, ClientMessage, HostMessage, WindowId};
use crate::scalar::Scalar;
use vstd::prelude::*;

verus! {

/// What actions say is what they say one by one.
proof fn one_by_one(actions: Seq<CoordAction>)
    ensures
        action_views(actions).len() == actions.len(),
        forall|k: int|
            0 <= k < actions.len() ==> #[trigger] actions[k]@ == action_views(actions)[k],
{
}

/// A helper that ends with success was quit by the user, one that ends with
/// its idle code has no windows, and any other end is a crash, which is
/// forgiven once.
pub proof fn exits_are_told_apart(code: Option<i32>, respawned: bool, r: ExitAction)
    requires
        call_ensures(exit_action, (code, respawned), r),
    ensures
        r == ExitAction::Unsubscribe <==> code is Some && code->0 == 0,
        r == ExitAction::Reap <==> code is Some && code->0 == 42,
        r == ExitAction::Respawn <==> !(code is Some && (code->0 == 0 || code->0 == 42))
            && !respawned,
        r == ExitAction::GiveUp <==> !(code is Some && (code->0 == 0 || code->0 == 42))
            && respawned,
{
}

/// A message about a known window is recorded for it, each value in its own
/// place, and goes as it came to the helper of its application, if one runs,
/// and to no other.
pub proof fn window_message_is_recorded_and_relayed(
    m: &mut HelperManager,
    msg: HostMessage,
    r: Vec<CoordAction>,
    w: WindowId,
    a: AppId,
    width: Scalar,
    height: Scalar,
    title: String,
)
    requires
        old(m)@.app_of_window.contains_key(w),
        old(m)@.app_of_window[w] == a,
        old(m)@.apps.contains_key(a),
        old(m)@.apps[a].windows.contains_key(w),
        ({
            ||| msg == (HostMessage::WindowResized { window_id: w, width, height })
            ||| msg == (HostMessage::WindowTitleChanged { window_id: w, title })
            ||| msg == (HostMessage::WindowMinimized { window_id: w })
            ||| msg == (HostMessage::WindowRestored { window_id: w })
            ||| msg is InputMapping && msg->InputMapping_window_id == w
        }),
        call_ensures(HelperManager::on_host_message, (m, msg), r),
    ensures
        ({
            let helper = old(m)@.apps[a].running;
            let before = old(m)@.apps[a].windows[w];
            let after = final(m)@.apps[a].windows[w];
            &&& r@.len() == (if helper is Some { 1int } else { 0int })
            &&& helper is Some ==> r@[0] == (CoordAction::Send {
                helper: helper->0,
                frame: DownFrame::Control(msg),
            })
            &&& final(m)@.apps.contains_key(a)
            &&& final(m)@.apps[a].windows.contains_key(w)
            &&& final(m)@.apps[a].running == helper
            &&& after.width == (if msg is WindowResized { width } else { before.width })
            &&& after.height == (if msg is WindowResized { height } else { before.height })
            &&& after.title == (if msg is WindowTitleChanged { title } else { before.title })
            &&& after.minimized == (if msg is WindowMinimized {
                true
            } else if msg is WindowRestored {
                false
            } else {
                before.minimized
            })
            &&& after.mapping == (if msg is InputMapping { Some(msg) } else { before.mapping })
            &&& after.kind == before.kind
            &&& after.track_id == before.track_id
            &&& after.parent_id == before.parent_id
            &&& after.offset_x == before.offset_x
            &&& after.offset_y == before.offset_y
        }),
{
    one_by_one(r@);
    if r@.len() > 0 {
        assert(r@[0]@ == action_views(r@)[0]);
    }
}

/// A message about one window leaves every other application, and every other
/// window, as they are.
pub proof fn other_windows_are_left_alone(
    m: &mut HelperManager,
    msg: HostMessage,
    r: Vec<CoordAction>,
    w: WindowId,
    a: AppId,
    other: AppId,
    v: WindowId,
)
    requires
        old(m)@.app_of_window.contains_key(w),
        old(m)@.app_of_window[w] == a,
        old(m)@.apps.contains_key(a),
        old(m)@.apps[a].windows.contains_key(w),
        other != a,
        v != w,
        ({
            ||| msg is WindowResized && msg->WindowResized_window_id == w
            ||| msg is WindowTitleChanged && msg->WindowTitleChanged_window_id == w
            ||| msg == (HostMessage::WindowMinimized { window_id: w })
            ||| msg == (HostMessage::WindowRestored { window_id: w })
            ||| msg == (HostMessage::WindowClosed { window_id: w })
            ||| msg is InputMapping && msg->InputMapping_window_id == w
        }),
        call_ensures(HelperManager::on_host_message, (m, msg), r),
    ensures
        old(m)@.apps.contains_key(other) <==> final(m)@.apps.contains_key(other),
        old(m)@.apps.contains_key(other) ==> final(m)@.apps[other] == old(m)@.apps[other],
        old(m)@.apps[a].windows.contains_key(v) <==> final(m)@.apps[a].windows.contains_key(v),
        old(m)@.apps[a].windows.contains_key(v) ==> final(m)@.apps[a].windows[v]
            == old(m)@.apps[a].windows[v],
        final(m)@.app_of_window.contains_key(v) <==> old(m)@.app_of_window.contains_key(v),
        old(m)@.app_of_window.contains_key(v) ==> final(m)@.app_of_window[v]
            == old(m)@.app_of_window[v],
{
}

/// A message about an unknown window is not relayed, and only a mapping is
/// kept for the window's coming.
pub proof fn unknown_window_is_not_relayed(
    m: &mut HelperManager,
    msg: HostMessage,
    r: Vec<CoordAction>,
    w: WindowId,
)
    requires
        !old(m)@.app_of_window.contains_key(w),
        ({
            ||| msg is WindowResized && msg->WindowResized_window_id == w
            ||| msg is WindowTitleChanged && msg->WindowTitleChanged_window_id == w
            ||| msg == (HostMessage::WindowMinimized { window_id: w })
            ||| msg == (HostMessage::WindowRestored { window_id: w })
            ||| msg == (HostMessage::WindowClosed { window_id: w })
            ||| msg is InputMapping && msg->InputMapping_window_id == w
        }),
        call_ensures(HelperManager::on_host_message, (m, msg), r),
    ensures
        r@.len() == 0,
        final(m)@.apps == old(m)@.apps,
        msg is InputMapping ==> final(m)@.pending_mappings.contains_key(w)
            && final(m)@.pending_mappings[w] == msg,
        msg is WindowClosed ==> !final(m)@.pending_mappings.contains_key(w),
{
    one_by_one(r@);
}

/// A window of an application that is not shared, or that was given up, is
/// not heard of.
pub proof fn stray_window_is_ignored(m: &mut HelperManager, msg: HostMessage, r: Vec<CoordAction>)
    requires
        msg is WindowOpened,
        !old(m)@.apps.contains_key(msg->WindowOpened_app_id)
            || old(m)@.apps[msg->WindowOpened_app_id].given_up,
        call_ensures(HelperManager::on_host_message, (m, msg), r),
    ensures
        r@.len() == 0,
        final(m)@ == old(m)@,
{
    one_by_one(r@);
}

/// A new window of a shared application is recorded as it was announced, each
/// value in its own place, with the mapping that came early, and is found by
/// its id and its track.
pub proof fn new_window_is_recorded(m: &mut HelperManager, msg: HostMessage, r: Vec<CoordAction>)
    requires
        msg is WindowOpened,
        old(m)@.apps.contains_key(msg->WindowOpened_app_id),
        !old(m)@.apps[msg->WindowOpened_app_id].given_up,
        call_ensures(HelperManager::on_host_message, (m, msg), r),
    ensures
        ({
            let w = msg->WindowOpened_window_id;
            let a = msg->WindowOpened_app_id;
            let kept = final(m)@.apps[a].windows[w];
            let early = old(m)@.pending_mappings;
            &&& final(m)@.apps.contains_key(a)
            &&& final(m)@.apps[a].windows.contains_key(w)
            &&& kept.title == msg->WindowOpened_title
            &&& kept.kind == msg->kind
            &&& kept.parent_id == msg->parent_id
            &&& kept.offset_x == msg->WindowOpened_offset_x
            &&& kept.offset_y == msg->WindowOpened_offset_y
            &&& kept.width == msg->WindowOpened_width
            &&& kept.height == msg->WindowOpened_height
            &&& kept.track_id == msg->track_id
            &&& !kept.minimized
            &&& early.contains_key(w) ==> kept.mapping == Some(early[w])
            &&& !early.contains_key(w) ==> kept.mapping is None
            &&& old(m)@.apps[a].running is None ==> final(m)@.pending_mappings == early
            &&& old(m)@.apps[a].running is Some ==> !final(m)@.pending_mappings.contains_key(w)
            &&& final(m)@.app_of_window.contains_key(w)
            &&& final(m)@.app_of_window[w] == a
            &&& msg->track_id is Some ==> final(m)@.app_of_track.contains_key(msg->track_id->0@)
                && final(m)@.app_of_track[msg->track_id->0@] == a
        }),
{
}

/// A running helper is told of its new window as it was announced, then of the
/// mapping that came early, and gets the window's track. For a dormant one a
/// helper is started from the application's own bundle.
pub proof fn new_window_reaches_its_helper(
    m: &mut HelperManager,
    msg: HostMessage,
    r: Vec<CoordAction>,
)
    requires
        msg is WindowOpened,
        old(m)@.apps.contains_key(msg->WindowOpened_app_id),
        !old(m)@.apps[msg->WindowOpened_app_id].given_up,
        call_ensures(HelperManager::on_host_message, (m, msg), r),
    ensures
        ({
            let w = msg->WindowOpened_window_id;
            let app = old(m)@.apps[msg->WindowOpened_app_id];
            let early = old(m)@.pending_mappings;
            let n = r@.len() - 1;
            &&& app.running is None ==> {
                &&& r@.len() == 1
                &&& r@[0] is Spawn
                &&& r@[0]->Spawn_app_id == msg->WindowOpened_app_id
                &&& r@[0]->exe@ == app.bundle.exe@
                &&& !r@[0]->first
            }
            &&& app.running is Some ==> {
                let helper = app.running->0;
                &&& r@.len() == 1 + (if early.contains_key(w) { 1int } else { 0int }) + (
                if msg->track_id is Some { 1int } else { 0int })
                &&& r@[0] == (CoordAction::Send { helper, frame: DownFrame::Control(msg) })
                &&& early.contains_key(w) ==> r@[1] == (CoordAction::Send {
                    helper,
                    frame: DownFrame::Control(early[w]),
                })
                &&& msg->track_id is Some ==> r@[n] is SetRoute
                &&& msg->track_id is Some ==> r@[n]->SetRoute_helper == helper
                &&& msg->track_id is Some ==> r@[n]->SetRoute_track_id@ == msg->track_id->0@
            }
        }),
{
    one_by_one(r@);
    let n = r@.len() - 1;
    assert(r@[0]@ == action_views(r@)[0]);
    assert(r@[n]@ == action_views(r@)[n]);
    if r@.len() > 1 {
        assert(r@[1]@ == action_views(r@)[1]);
    }
}

/// A closed window's track is no longer routed, its helper is told, and the
/// window is found no more.
pub proof fn closed_window_is_forgotten(
    m: &mut HelperManager,
    w: WindowId,
    r: Vec<CoordAction>,
    a: AppId,
)
    requires
        old(m)@.app_of_window.contains_key(w),
        old(m)@.app_of_window[w] == a,
        old(m)@.apps.contains_key(a),
        old(m)@.apps[a].windows.contains_key(w),
        call_ensures(
            HelperManager::on_host_message,
            (m, HostMessage::WindowClosed { window_id: w }),
            r,
        ),
    ensures
        ({
            let track = old(m)@.apps[a].windows[w].track_id;
            let helper = old(m)@.apps[a].running;
            let n = r@.len() - 1;
            &&& r@.len() == (if track is Some { 1int } else { 0int }) + (if helper is Some {
                1int
            } else {
                0int
            })
            &&& track is Some ==> r@[0] is ClearRoute
            &&& track is Some ==> r@[0]->ClearRoute_track_id@ == track->0@
            &&& helper is Some ==> r@[n] == (CoordAction::Send {
                helper: helper->0,
                frame: DownFrame::Control(HostMessage::WindowClosed { window_id: w }),
            })
            &&& !final(m)@.app_of_window.contains_key(w)
            &&& !final(m)@.apps[a].windows.contains_key(w)
            &&& !final(m)@.pending_mappings.contains_key(w)
            &&& track is Some ==> !final(m)@.app_of_track.contains_key(track->0@)
            &&& final(m)@.apps[a].running == helper
        }),
{
    one_by_one(r@);
    if r@.len() > 0 {
        assert(r@[0]@ == action_views(r@)[0]);
        assert(r@[r@.len() - 1]@ == action_views(r@)[r@.len() - 1]);
    }
}

/// A new application asks for a bundle under its own id and name, with its own
/// icon, or none if it could not be decoded, planned around the directories
/// that are taken; a known one asks for nothing.
pub proof fn announced_application_gets_a_bundle(
    m: &mut HelperManager,
    app_id: AppId,
    name: String,
    icon_png: String,
    r: Vec<CoordAction>,
    shown: &str,
    taken: &Vec<String>,
    plan: BundlePlan,
)
    requires
        call_ensures(
            HelperManager::on_host_message,
            (m, HostMessage::AppAnnounced { app_id, name, icon_png }),
            r,
        ),
        shown@ == name@,
        taken@ == old(m)@.taken_dirs,
        call_ensures(plan_bundle, (shown, taken), plan),
    ensures
        final(m)@ == old(m)@,
        old(m)@.apps.contains_key(app_id) ==> r@.len() == 0,
        !old(m)@.apps.contains_key(app_id) ==> {
            let icon = base64_data(icon_png@);
            &&& r@.len() == 1
            &&& r@[0] is EnsureBundle
            &&& r@[0]->EnsureBundle_app_id == app_id
            &&& r@[0]->name@ == name@
            &&& icon is Some ==> r@[0]->icon_png@ == icon->0
            &&& icon is None ==> r@[0]->icon_png@.len() == 0
            &&& r@[0]->plan.bundle.dir@ == plan.bundle.dir@
            &&& r@[0]->plan.bundle.exe@ == plan.bundle.exe@
            &&& r@[0]->plan.plist@ == plan.plist@
        },
{
    one_by_one(r@);
    if r@.len() > 0 {
        assert(r@[0]@ == action_views(r@)[0]);
    }
}

/// Once its bundle stands, an application is known under its id with its name,
/// icon and bundle, the bundle's directory is claimed, and its helper is
/// started from it.
pub proof fn bundled_application_is_started(
    m: &mut HelperManager,
    app_id: AppId,
    name: String,
    icon_png: Vec<u8>,
    bundle: StubBundle,
    r: Vec<CoordAction>,
    w: WindowId,
    other: AppId,
)
    requires
        call_ensures(HelperManager::on_bundle_ready, (m, app_id, name, icon_png, bundle), r),
        other != app_id,
    ensures
        r@.len() == 1,
        r@[0] is Spawn,
        r@[0]->Spawn_app_id == app_id,
        r@[0]->exe@ == bundle.exe@,
        r@[0]->first,
        final(m)@.apps.contains_key(app_id),
        ({
            let app = final(m)@.apps[app_id];
            &&& app.app_id == app_id
            &&& app.name == name
            &&& app.icon == icon_png@
            &&& app.bundle == bundle
            &&& app.running is None
            &&& !app.windows.contains_key(w)
            &&& !app.respawned_once
            &&& !app.given_up
        }),
        final(m)@.taken_dirs == old(m)@.taken_dirs.push(bundle.dir),
        old(m)@.apps.contains_key(other) ==> final(m)@.apps.contains_key(other)
            && final(m)@.apps[other] == old(m)@.apps[other],
{
    one_by_one(r@);
    assert(r@[0]@ == action_views(r@)[0]);
}

/// What a helper relays goes to the host as it came, and decoding progress
/// counts for a track of the helper's own application alone.
pub proof fn helper_is_relayed_verbatim(
    m: &mut HelperManager,
    app_id: AppId,
    msg: ClientMessage,
    r: Vec<CoordAction>,
    n: &mut HelperManager,
    track_id: String,
    s: Vec<CoordAction>,
)
    requires
        call_ensures(HelperManager::on_helper_up, (m, app_id, UpMessage::Relay { msg }), r),
        call_ensures(
            HelperManager::on_helper_up,
            (n, app_id, UpMessage::DecodeProgress { track_id }),
            s,
        ),
    ensures
        r@.len() == 1,
        r@[0] == (CoordAction::ToHost { msg }),
        final(m)@ == old(m)@,
        ({
            let owned = old(n)@.app_of_track.contains_key(track_id@)
                && old(n)@.app_of_track[track_id@] == app_id;
            &&& s@.len() == (if owned { 1int } else { 0int })
            &&& owned ==> s@[0] is MarkProgress
            &&& owned ==> s@[0]->MarkProgress_track_id@ == track_id@
        }),
        final(n)@ == old(n)@,
{
    one_by_one(r@);
    one_by_one(s@);
    assert(r@[0]@ == action_views(r@)[0]);
    if s@.len() > 0 {
        assert(s@[0]@ == action_views(s@)[0]);
    }
}

proof fn window_is_replayed(app: AppView, ids: Seq<WindowId>, w: WindowId)
    requires
        ids.contains(w),
    ensures
        windows_frames(app, ids).contains(
            DownView::Control(opened_message(app.app_id, w, app.windows[w])),
        ),
        app.windows[w].minimized ==> windows_frames(app, ids).contains(
            DownView::Control(HostMessage::WindowMinimized { window_id: w }),
        ),
        app.windows[w].mapping is Some ==> windows_frames(app, ids).contains(
            DownView::Control(app.windows[w].mapping->0),
        ),
    decreases ids.len(),
{
    let rest = ids.drop_last();
    let before = windows_frames(app, rest);
    let all = windows_frames(app, ids);
    let n = before.len() as int;
    let i = choose|i: int| 0 <= i < ids.len() && ids[i] == w;
    let e1 = DownView::Control(opened_message(app.app_id, w, app.windows[w]));
    let e2 = DownView::Control(HostMessage::WindowMinimized { window_id: w });
    let e3 = DownView::Control(app.windows[w].mapping->0);
    if i < rest.len() {
        assert(rest[i] == w);
        window_is_replayed(app, rest, w);
        let k1 = choose|k: int| 0 <= k < before.len() && before[k] == e1;
        assert(all[k1] == e1);
        if app.windows[w].minimized {
            let k2 = choose|k: int| 0 <= k < before.len() && before[k] == e2;
            assert(all[k2] == e2);
        }
        if app.windows[w].mapping is Some {
            let k3 = choose|k: int| 0 <= k < before.len() && before[k] == e3;
            assert(all[k3] == e3);
        }
    } else {
        let more = window_frames(app.app_id, w, app.windows[w]);
        assert(all == before + more);
        assert(more[0] == e1);
        assert(all[n] == e1);
        if app.windows[w].minimized {
            assert(more[1] == e2);
            assert(all[n + 1] == e2);
        }
        if app.windows[w].mapping is Some {
            assert(more.last() == e3);
            assert(all[all.len() - 1] == e3);
        }
    }
}

proof fn track_is_rerouted(
    windows: Map<WindowId, WindowReplay>,
    ids: Seq<WindowId>,
    helper: u64,
    w: WindowId,
)
    requires
        ids.contains(w),
        windows[w].track_id is Some,
    ensures
        reroutes(windows, ids, helper).contains(
            ActionView::SetRoute { track_id: windows[w].track_id->0@, helper },
        ),
        reroutes(windows, ids, helper).contains(
            ActionView::ClearProgress { track_id: windows[w].track_id->0@ },
        ),
        unroutes(windows, ids).contains(
            ActionView::ClearRoute { track_id: windows[w].track_id->0@ },
        ),
    decreases ids.len(),
{
    let rest = ids.drop_last();
    let before = reroutes(windows, rest, helper);
    let all = reroutes(windows, ids, helper);
    let gone = unroutes(windows, rest);
    let every = unroutes(windows, ids);
    let i = choose|i: int| 0 <= i < ids.len() && ids[i] == w;
    let t = windows[w].track_id->0@;
    let e1 = ActionView::SetRoute { track_id: t, helper };
    let e2 = ActionView::ClearProgress { track_id: t };
    let e3 = ActionView::ClearRoute { track_id: t };
    if i < rest.len() {
        assert(rest[i] == w);
        track_is_rerouted(windows, rest, helper, w);
        let k1 = choose|k: int| 0 <= k < before.len() && before[k] == e1;
        let k2 = choose|k: int| 0 <= k < before.len() && before[k] == e2;
        let k3 = choose|k: int| 0 <= k < gone.len() && gone[k] == e3;
        assert(all[k1] == e1);
        assert(all[k2] == e2);
        assert(every[k3] == e3);
    } else {
        let n = before.len() as int;
        assert(all[n] == e1);
        assert(all[n + 1] == e2);
        assert(every[gone.len() as int] == e3);
    }
}

proof fn routes_only(
    windows: Map<WindowId, WindowReplay>,
    ids: Seq<WindowId>,
    helper: u64,
    k: int,
)
    ensures
        0 <= k < reroutes(windows, ids, helper).len() ==> {
            let step = reroutes(windows, ids, helper)[k];
            (step is SetRoute && step->SetRoute_helper == helper) || step is ClearProgress
        },
        0 <= k < unroutes(windows, ids).len() ==> unroutes(windows, ids)[k] is ClearRoute,
    decreases ids.len(),
{
    if ids.len() > 0 {
        let rest = ids.drop_last();
        routes_only(windows, rest, helper, k);
    }
}

/// The helper that ran before is released first. A helper that was started
/// for the first time is sent the icon, if there is one, and nothing else.
pub proof fn first_helper_gets_the_icon(
    m: &mut HelperManager,
    app_id: AppId,
    helper: u64,
    r: Vec<CoordAction>,
)
    requires
        old(m)@.apps.contains_key(app_id),
        call_ensures(HelperManager::on_spawned, (m, app_id, helper, true), r),
    ensures
        ({
            let app = old(m)@.apps[app_id];
            let n = if app.running is Some { 1int } else { 0int };
            &&& final(m)@.apps[app_id].running == Some(helper)
            &&& app.running is Some ==> r@[0] == (CoordAction::Release { helper: app.running->0 })
            &&& r@.len() == n + (if app.icon.len() > 0 { 1int } else { 0int })
            &&& app.icon.len() > 0 ==> r@[n] is Send
            &&& app.icon.len() > 0 ==> r@[n]->Send_helper == helper
            &&& app.icon.len() > 0 ==> r@[n]->frame is Icon
            &&& app.icon.len() > 0 ==> r@[n]->frame->Icon_0@ == app.icon
        }),
{
    one_by_one(r@);
    let app = m@.apps[app_id];
    let n = if app.running is Some { 1int } else { 0int };
    let head = releases(app.running);
    let tail = sends(helper, icon_frames(app));
    assert(action_views(r@) == head + tail);
    assert(head.len() == n);
    if r@.len() > 0 {
        assert(r@[0]@ == action_views(r@)[0]);
    }
    if app.icon.len() > 0 {
        assert(tail[0] == ActionView::Send { helper, frame: DownView::Icon(app.icon) });
        assert(r@[n]@ == action_views(r@)[n]);
        assert(action_views(r@)[n] == tail[0]);
    }
}

/// A helper that takes over is told of every window of its application as it
/// is on record, and is handed every window's track, whose progress starts
/// anew. Nothing is sent or routed to any other helper, and the one that ran
/// before is released.
pub proof fn later_helper_is_told_everything(
    m: &mut HelperManager,
    app_id: AppId,
    helper: u64,
    r: Vec<CoordAction>,
    w: WindowId,
    k: int,
)
    requires
        old(m)@.apps.contains_key(app_id),
        old(m)@.apps[app_id].windows.contains_key(w),
        call_ensures(HelperManager::on_spawned, (m, app_id, helper, false), r),
    ensures
        final(m)@.apps[app_id].running == Some(helper),
        final(m)@.apps[app_id].windows == old(m)@.apps[app_id].windows,
        old(m)@.apps[app_id].running is Some ==> r@[0] == (CoordAction::Release {
            helper: old(m)@.apps[app_id].running->0,
        }),
        0 <= k < r@.len() ==> {
            &&& r@[k] is Send ==> r@[k]->Send_helper == helper
            &&& r@[k] is SetRoute ==> r@[k]->SetRoute_helper == helper
            &&& r@[k] is Release ==> k == 0
            &&& !(r@[k] is ClearRoute)
            &&& !(r@[k] is ToHost)
        },
        ({
            let kept = old(m)@.apps[app_id].windows[w];
            &&& exists|i: int|
                0 <= i < r@.len() && #[trigger] r@[i] == (CoordAction::Send {
                    helper,
                    frame: DownFrame::Control(
                        HostMessage::WindowOpened {
                            window_id: w,
                            title: kept.title,
                            kind: kept.kind,
                            parent_id: kept.parent_id,
                            offset_x: kept.offset_x,
                            offset_y: kept.offset_y,
                            width: kept.width,
                            height: kept.height,
                            track_id: kept.track_id,
                            app_id: old(m)@.apps[app_id].app_id,
                        },
                    ),
                })
            &&& kept.minimized ==> exists|i: int|
                0 <= i < r@.len() && #[trigger] r@[i] == (CoordAction::Send {
                    helper,
                    frame: DownFrame::Control(HostMessage::WindowMinimized { window_id: w }),
                })
            &&& kept.mapping is Some ==> exists|i: int|
                0 <= i < r@.len() && #[trigger] r@[i] == (CoordAction::Send {
                    helper,
                    frame: DownFrame::Control(kept.mapping->0),
                })
            &&& kept.track_id is Some ==> exists|i: int|
                0 <= i < r@.len() && (#[trigger] r@[i]) is SetRoute && r@[i]->SetRoute_track_id@
                    == kept.track_id->0@
            &&& kept.track_id is Some ==> exists|i: int|
                0 <= i < r@.len() && (#[trigger] r@[i]) is ClearProgress
                    && r@[i]->ClearProgress_track_id@ == kept.track_id->0@
        }),
{
    one_by_one(r@);
    let app = m@.apps[app_id];
    let kept = app.windows[w];
    let ids = in_order(app.windows.dom());
    list_exists(app.windows.dom());
    assert(app.windows.dom().contains(w));
    assert(ids.contains(w));
    let head = releases(app.running);
    let frames = replay_of(app);
    let icon = icon_frames(app);
    let said = windows_frames(app, ids);
    let told = sends(helper, frames);
    let routed = reroutes(app.windows, ids, helper);
    let all = action_views(r@);
    assert(all == head + (told + routed));
    let h = head.len() as int;
    let n = h + told.len();
    if app.running is Some {
        assert(r@[0]@ == all[0]);
        assert(all[0] == head[0]);
    }
    if 0 <= k < r@.len() {
        assert(r@[k]@ == all[k]);
        if k < h {
            assert(all[k] == head[k]);
        } else if k < n {
            assert(all[k] == told[k - h]);
        } else {
            assert(all[k] == routed[k - n]);
            routes_only(app.windows, ids, helper, k - n);
        }
    }
    window_is_replayed(app, ids, w);
    let e1 = DownView::Control(opened_message(app.app_id, w, kept));
    let i1 = choose|i: int| 0 <= i < said.len() && said[i] == e1;
    sent_at(r@, helper, head, frames, routed, icon.len() + i1);
    if kept.minimized {
        let e2 = DownView::Control(HostMessage::WindowMinimized { window_id: w });
        let i2 = choose|i: int| 0 <= i < said.len() && said[i] == e2;
        sent_at(r@, helper, head, frames, routed, icon.len() + i2);
    }
    if kept.mapping is Some {
        let e3 = DownView::Control(kept.mapping->0);
        let i3 = choose|i: int| 0 <= i < said.len() && said[i] == e3;
        sent_at(r@, helper, head, frames, routed, icon.len() + i3);
    }
    if kept.track_id is Some {
        track_is_rerouted(app.windows, ids, helper, w);
        let t = kept.track_id->0@;
        let r1 = ActionView::SetRoute { track_id: t, helper };
        let r2 = ActionView::ClearProgress { track_id: t };
        let j1 = choose|i: int| 0 <= i < routed.len() && routed[i] == r1;
        let j2 = choose|i: int| 0 <= i < routed.len() && routed[i] == r2;
        assert(all[n + j1] == r1);
        assert(all[n + j2] == r2);
        assert(r@[n + j1]@ == r1);
        assert(r@[n + j2]@ == r2);
        assert(r@[n + j1] is SetRoute);
        assert(r@[n + j2] is ClearProgress);
    }
}

proof fn sent_at(
    actions: Seq<CoordAction>,
    helper: u64,
    head: Seq<ActionView>,
    frames: Seq<DownView>,
    tail: Seq<ActionView>,
    i: int,
)
    requires
        action_views(actions) == head + (sends(helper, frames) + tail),
        0 <= i < frames.len(),
        frames[i] is Control,
    ensures
        0 <= head.len() + i < actions.len(),
        actions[head.len() + i] == (CoordAction::Send {
            helper,
            frame: DownFrame::Control(frames[i]->Control_0),
        }),
{
    one_by_one(actions);
    let all = action_views(actions);
    let k = head.len() + i;
    assert(all[k] == sends(helper, frames)[i]);
    assert(actions[k]@ == all[k]);
}

proof fn replayed_at(app: AppView, ids: Seq<WindowId>, k: int) -> (at: (int, int))
    requires
        0 <= k < windows_frames(app, ids).len(),
    ensures
        0 <= at.0 < ids.len(),
        0 <= at.1 < window_frames(app.app_id, ids[at.0], app.windows[ids[at.0]]).len(),
        windows_frames(app, ids)[k] == window_frames(
            app.app_id,
            ids[at.0],
            app.windows[ids[at.0]],
        )[at.1],
    decreases ids.len(),
{
    let rest = ids.drop_last();
    let before = windows_frames(app, rest);
    if k < before.len() {
        let at = replayed_at(app, rest, k);
        assert(rest[at.0] == ids[at.0]);
        at
    } else {
        (ids.len() - 1, k - before.len())
    }
}

proof fn replayed_in_order(app: AppView, ids: Seq<WindowId>, a: int, b: int) -> (at: (
    int,
    int,
    int,
    int,
))
    requires
        0 <= a < b < windows_frames(app, ids).len(),
    ensures
        0 <= at.0 <= at.2 < ids.len(),
        at.0 == at.2 ==> at.1 < at.3,
        0 <= at.1 < window_frames(app.app_id, ids[at.0], app.windows[ids[at.0]]).len(),
        0 <= at.3 < window_frames(app.app_id, ids[at.2], app.windows[ids[at.2]]).len(),
        windows_frames(app, ids)[a] == window_frames(
            app.app_id,
            ids[at.0],
            app.windows[ids[at.0]],
        )[at.1],
        windows_frames(app, ids)[b] == window_frames(
            app.app_id,
            ids[at.2],
            app.windows[ids[at.2]],
        )[at.3],
    decreases ids.len(),
{
    let rest = ids.drop_last();
    let before = windows_frames(app, rest);
    if b < before.len() {
        let at = replayed_in_order(app, rest, a, b);
        assert(rest[at.0] == ids[at.0] && rest[at.2] == ids[at.2]);
        at
    } else if a < before.len() {
        let at = replayed_at(app, rest, a);
        assert(rest[at.0] == ids[at.0]);
        (at.0, at.1, ids.len() - 1, b - before.len())
    } else {
        (ids.len() - 1, a - before.len(), ids.len() - 1, b - before.len())
    }
}

/// The frames that rebuild a helper tell of the windows in ascending order:
/// first that a window opened, with what is on record of it, then that it is
/// minimized, then its mapping, and then the next window. `a` and `b` count
/// behind the icon, if there is one.
pub proof fn replay_tells_of_the_windows_in_order(
    state: &AppState,
    frames: Vec<DownFrame>,
    a: int,
    b: int,
) -> (w: (WindowId, WindowId))
    requires
        call_ensures(replay_frames, (state,), frames),
        ({
            let n = if state.icon_png@.len() > 0 { 1int } else { 0int };
            n <= a < b < frames@.len()
        }),
    ensures
        w.0 <= w.1,
        state.windows@.contains_key(w.0),
        state.windows@.contains_key(w.1),
        frames@[a] is Control,
        frames@[b] is Control,
        ({
            let (x, y) = (frames@[a]->Control_0, frames@[b]->Control_0);
            let (kept, other) = (state.windows@[w.0], state.windows@[w.1]);
            let opened = HostMessage::WindowOpened {
                window_id: w.0,
                title: kept.title,
                kind: kept.kind,
                parent_id: kept.parent_id,
                offset_x: kept.offset_x,
                offset_y: kept.offset_y,
                width: kept.width,
                height: kept.height,
                track_id: kept.track_id,
                app_id: state.app_id,
            };
            let minimized = HostMessage::WindowMinimized { window_id: w.0 };
            // The first of the two is one of its window's three frames.
            &&& x == opened || (kept.minimized && x == minimized) || kept.mapping == Some(x)
            // Of one window's frames the first is its opening, and the last its mapping.
            &&& w.0 == w.1 ==> x == opened || (x == minimized && kept.mapping == Some(y))
            &&& w.0 == w.1 ==> (kept.minimized && y == minimized) || kept.mapping == Some(y)
            &&& w.0 < w.1 ==> (y is WindowOpened && y->WindowOpened_window_id == w.1) || (
            other.minimized && y == (HostMessage::WindowMinimized { window_id: w.1 }))
                || other.mapping == Some(y)
        }),
{
    let app = state@;
    let views = frame_views(frames@);
    assert(views == replay_of(app));
    let ids = in_order(app.windows.dom());
    list_exists(app.windows.dom());
    let icon = icon_frames(app);
    let said = windows_frames(app, ids);
    let n = icon.len() as int;
    assert(views[a] == said[a - n]);
    assert(views[b] == said[b - n]);
    assert(views[a] == frames@[a]@);
    assert(views[b] == frames@[b]@);
    let at = replayed_in_order(app, ids, a - n, b - n);
    assert(ids.contains(ids[at.0]));
    assert(ids.contains(ids[at.2]));
    if at.0 < at.2 {
        assert(ids[at.0] < ids[at.2]);
    }
    (ids[at.0], ids[at.2])
}

/// The icon is sent as it is, and only where there is one.
pub proof fn icon_is_sent_as_it_is(state: &AppState, f: Option<DownFrame>)
    requires
        call_ensures(initial_icon_frame, (state,), f),
    ensures
        f is Some <==> state.icon_png@.len() > 0,
        f is Some ==> f->0 is Icon && f->0->Icon_0@ == state.icon_png@,
{
    let views = icon_frames(state@);
    if f is Some {
        assert(seq![f->0@][0] == f->0@);
        assert(views.len() == 1);
        assert(views[0] == f->0@);
    } else {
        assert(views.len() == 0);
    }
}

/// A helper that was quit by its user, or crashed again, takes its application
/// along: no helper, no window and no track of it is left, every route ends,
/// and the host is told to stop sharing that application and no other.
pub proof fn quit_ends_the_application(
    m: &mut HelperManager,
    app_id: AppId,
    code: Option<i32>,
    r: Vec<CoordAction>,
    w: WindowId,
    k: int,
)
    requires
        old(m)@.apps.contains_key(app_id),
        (code is Some && code->0 == 0) || ((code is None || code->0 != 42)
            && old(m)@.apps[app_id].respawned_once),
        call_ensures(HelperManager::on_helper_exited, (m, app_id, code), r),
    ensures
        r@.len() > 0,
        r@.last() == (CoordAction::ToHost { msg: ClientMessage::UnsubscribeApp { app_id } }),
        final(m)@.apps.contains_key(app_id),
        final(m)@.apps[app_id].running is None,
        final(m)@.apps[app_id].given_up,
        !final(m)@.apps[app_id].windows.contains_key(w),
        old(m)@.apps[app_id].running is Some ==> r@[0] == (CoordAction::Release {
            helper: old(m)@.apps[app_id].running->0,
        }),
        0 <= k < r@.len() - 1 ==> r@[k] is ClearRoute || (k == 0 && r@[k] is Release),
        old(m)@.apps[app_id].windows.contains_key(w) ==> {
            let track = old(m)@.apps[app_id].windows[w].track_id;
            &&& !final(m)@.app_of_window.contains_key(w)
            &&& track is Some ==> !final(m)@.app_of_track.contains_key(track->0@)
            &&& track is Some ==> exists|i: int|
                0 <= i < r@.len() && (#[trigger] r@[i]) is ClearRoute && r@[i]->ClearRoute_track_id@
                    == track->0@
        },
{
    one_by_one(r@);
    let app = m@.apps[app_id];
    let ids = in_order(app.windows.dom());
    list_exists(app.windows.dom());
    let head = releases(app.running);
    let gone = unroutes(app.windows, ids);
    let all = action_views(r@);
    let word = ActionView::ToHost { msg: ClientMessage::UnsubscribeApp { app_id } };
    assert(all == head + (gone + seq![word]));
    let h = head.len() as int;
    let last = r@.len() - 1;
    assert(r@[last]@ == all[last]);
    assert(all[last] == word);
    if app.running is Some {
        assert(r@[0]@ == all[0]);
        assert(all[0] == head[0]);
    }
    if 0 <= k < last {
        assert(r@[k]@ == all[k]);
        if k < h {
            assert(all[k] == head[k]);
        } else {
            assert(all[k] == gone[k - h]);
            routes_only(app.windows, ids, 0, k - h);
        }
    }
    if app.windows.contains_key(w) {
        assert(app.windows.dom().contains(w));
        assert(ids.contains(w));
        let track = app.windows[w].track_id;
        if track is Some {
            track_is_rerouted(app.windows, ids, 0, w);
            let e = ActionView::ClearRoute { track_id: track->0@ };
            let i = choose|i: int| 0 <= i < gone.len() && gone[i] == e;
            assert(all[h + i] == e);
            assert(r@[h + i]@ == e);
            assert(r@[h + i] is ClearRoute);
            assert(crate::coordinator::is_track_of(app.windows, track->0@));
        }
    }
}

/// A helper that ran out of windows is released and no more; one that crashed
/// for the first time is started again from its application's bundle. Either
/// way the application keeps its windows.
pub proof fn idle_and_crashed_helpers_are_kept(
    m: &mut HelperManager,
    app_id: AppId,
    code: Option<i32>,
    r: Vec<CoordAction>,
)
    requires
        old(m)@.apps.contains_key(app_id),
        code is None || code->0 != 0,
        (code is Some && code->0 == 42) || !old(m)@.apps[app_id].respawned_once,
        call_ensures(HelperManager::on_helper_exited, (m, app_id, code), r),
    ensures
        ({
            let app = old(m)@.apps[app_id];
            let idle = code is Some && code->0 == 42;
            let n = if app.running is Some { 1int } else { 0int };
            &&& app.running is Some ==> r@[0] == (CoordAction::Release { helper: app.running->0 })
            &&& r@.len() == n + (if idle { 0int } else { 1int })
            &&& !idle ==> r@[n] is Spawn
            &&& !idle ==> r@[n]->Spawn_app_id == app_id
            &&& !idle ==> r@[n]->exe@ == app.bundle.exe@
            &&& !idle ==> !r@[n]->first
            &&& final(m)@.apps[app_id].running is None
            &&& final(m)@.apps[app_id].windows == app.windows
            &&& final(m)@.apps[app_id].given_up == app.given_up
            &&& final(m)@.apps[app_id].respawned_once == (app.respawned_once || !idle)
            &&& final(m)@.app_of_window == old(m)@.app_of_window
            &&& final(m)@.app_of_track == old(m)@.app_of_track
        }),
{
    one_by_one(r@);
    let app = m@.apps[app_id];
    let n = if app.running is Some { 1int } else { 0int };
    if r@.len() > 0 {
        assert(r@[0]@ == action_views(r@)[0]);
    }
    if r@.len() > n {
        assert(r@[n]@ == action_views(r@)[n]);
    }
}

proof fn releases_running(apps: Map<AppId, AppView>, ids: Seq<AppId>, a: AppId, k: int)
    ensures
        ids.contains(a) && apps[a].running is Some ==> shutdown_actions(apps, ids).contains(
            ActionView::Release { helper: apps[a].running->0 },
        ),
        0 <= k < shutdown_actions(apps, ids).len() ==> shutdown_actions(apps, ids)[k] is Release,
    decreases ids.len(),
{
    if ids.len() > 0 {
        let rest = ids.drop_last();
        let before = shutdown_actions(apps, rest);
        let all = shutdown_actions(apps, ids);
        releases_running(apps, rest, a, k);
        if ids.contains(a) && apps[a].running is Some {
            let e = ActionView::Release { helper: apps[a].running->0 };
            let i = choose|i: int| 0 <= i < ids.len() && ids[i] == a;
            if i < rest.len() {
                assert(rest[i] == a);
                let j = choose|j: int| 0 <= j < before.len() && before[j] == e;
                assert(all[j] == e);
            } else {
                assert(all[before.len() as int] == e);
            }
        }
    }
}

/// Teardown releases every running helper and does nothing else; none runs
/// afterwards, and the applications are otherwise as they were.
pub proof fn shutdown_releases_every_helper(
    m: &mut HelperManager,
    r: Vec<CoordAction>,
    a: AppId,
    k: int,
)
    requires
        call_ensures(HelperManager::shutdown_all, (m,), r),
    ensures
        0 <= k < r@.len() ==> r@[k] is Release,
        old(m)@.apps.contains_key(a) && old(m)@.apps[a].running is Some ==> exists|i: int|
            0 <= i < r@.len() && #[trigger] r@[i] == (CoordAction::Release {
                helper: old(m)@.apps[a].running->0,
            }),
        final(m)@.apps.contains_key(a) <==> old(m)@.apps.contains_key(a),
        final(m)@.apps.contains_key(a) ==> final(m)@.apps[a].running is None
            && final(m)@.apps[a].windows == old(m)@.apps[a].windows,
{
    one_by_one(r@);
    let apps = m@.apps;
    let ids = in_order(apps.dom());
    list_exists(apps.dom());
    releases_running(apps, ids, a, k);
    let all = shutdown_actions(apps, ids);
    assert(action_views(r@) == all);
    if 0 <= k < r@.len() {
        assert(r@[k]@ == all[k]);
    }
    if apps.contains_key(a) && apps[a].running is Some {
        assert(apps.dom().contains(a));
        assert(ids.contains(a));
        let e = ActionView::Release { helper: apps[a].running->0 };
        let i = choose|i: int| 0 <= i < all.len() && all[i] == e;
        assert(r@[i]@ == all[i]);
        assert(r@[i] == CoordAction::Release { helper: apps[a].running->0 });
    }
}

/// What concerns no window, and helpers of applications that are not known,
/// change nothing.
pub proof fn strangers_change_nothing(
    m: &mut HelperManager,
    msg: HostMessage,
    r: Vec<CoordAction>,
    n: &mut HelperManager,
    app_id: AppId,
    code: Option<i32>,
    exited: Vec<CoordAction>,
    o: &mut HelperManager,
    helper: u64,
    first: bool,
    spawned: Vec<CoordAction>,
)
    requires
        msg is TransientBlit || msg is SdpOffer,
        call_ensures(HelperManager::on_host_message, (m, msg), r),
        !old(n)@.apps.contains_key(app_id),
        call_ensures(HelperManager::on_helper_exited, (n, app_id, code), exited),
        !old(o)@.apps.contains_key(app_id),
        call_ensures(HelperManager::on_spawned, (o, app_id, helper, first), spawned),
    ensures
        r@.len() == 0,
        final(m)@ == old(m)@,
        exited@.len() == 0,
        final(n)@ == old(n)@,
        spawned@.len() == 0,
        final(o)@ == old(o)@,
{
    one_by_one(r@);
    one_by_one(exited@);
    one_by_one(spawned@);
}

/// An event does what its own handler does, and only a lost connection ends
/// the loop.
pub proof fn events_go_to_their_handlers(
    m: &mut HelperManager,
    ev: CoordEvent,
    step: CoordStep,
    n: &mut HelperManager,
    r: Vec<CoordAction>,
    app_id: AppId,
    code: Option<i32>,
    up: UpMessage,
    msg: HostMessage,
)
    requires
        *old(m) == *old(n),
        call_ensures(HelperManager::on_event, (m, ev), step),
        ({
            ||| ev == (CoordEvent::HelperExited { app_id, code }) && call_ensures(
                HelperManager::on_helper_exited,
                (n, app_id, code),
                r,
            )
            ||| ev == (CoordEvent::HelperUp { app_id, msg: up }) && call_ensures(
                HelperManager::on_helper_up,
                (n, app_id, up),
                r,
            )
            ||| ev == CoordEvent::Net(UiEvent::Host(msg)) && call_ensures(
                HelperManager::on_host_message,
                (n, msg),
                r,
            )
            ||| ev == CoordEvent::Net(UiEvent::Disconnected) && call_ensures(
                HelperManager::shutdown_all,
                (n,),
                r,
            )
        }),
    ensures
        final(m)@ == final(n)@,
        action_views(step.actions@) == action_views(r@),
        step.exit <==> ev == CoordEvent::Net(UiEvent::Disconnected),
{
}

} // verus!
