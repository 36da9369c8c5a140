//! What holds of the coordinator across its steps.

use crate::bundle::StubBundle;
use crate::coordinator::{
    exited_actions, exited_state, fresh_app, fresh_window, host_actions, host_state, icon_frames,
    is_mapping_of, opened_message, releases, replay_of, reroutes, sends, shutdown_state,
    spawned_actions, spawned_state, unroutes, window_frames, windows_frames, ActionView, AppView,
    ManagerView, WindowReplay,
};
use crate::ids::{in_order, list_exists};
use crate::ipc::DownView;
use crate::mapping::InputMapping;
use crate::mirror_app::{
    announcement_of, created_state, event_state, input_state, HelperEvent, HelperView,
    MirrorContent,
};
use crate::mirrors::{LocalId, MirrorsView, WindowInput};
use crate::protocol::{AppId, ClientMessage, HostMessage, WindowId};
use vstd::prelude::*;

verus! {

/// A message of the host keeps the coordinator's invariant.
pub proof fn host_message_keeps_wf(m: ManagerView, msg: HostMessage)
    requires
        m.wf(),
    ensures
        host_state(m, msg).wf(),
{
}

/// A new application keeps the coordinator's invariant.
pub proof fn bundle_keeps_wf(
    m: ManagerView,
    app_id: AppId,
    name: String,
    icon: Seq<u8>,
    bundle: StubBundle,
)
    requires
        m.wf(),
        !m.apps.contains_key(app_id),
    ensures
        (ManagerView {
            apps: m.apps.insert(app_id, fresh_app(app_id, name, icon, bundle)),
            taken_dirs: m.taken_dirs.push(bundle.dir),
            ..m
        }).wf(),
{
}

/// A started helper keeps the coordinator's invariant.
pub proof fn spawn_keeps_wf(m: ManagerView, app_id: AppId, helper: u64)
    requires
        m.wf(),
    ensures
        spawned_state(m, app_id, helper).wf(),
{
}

/// A helper's exit keeps the coordinator's invariant.
pub proof fn exit_keeps_wf(m: ManagerView, app_id: AppId, code: Option<i32>)
    requires
        m.wf(),
    ensures
        exited_state(m, app_id, code).wf(),
{
}

/// Teardown keeps the coordinator's invariant and leaves no helper running.
pub proof fn shutdown_keeps_wf(m: ManagerView)
    requires
        m.wf(),
    ensures
        shutdown_state(m).wf(),
        forall|a: AppId| shutdown_state(m).helper_of(a) is None,
{
}

/// An application that was given up stays so, whatever the host says, and
/// none of its windows is heard of again.
pub proof fn given_up_stays_given_up(m: ManagerView, msg: HostMessage, app_id: AppId)
    requires
        m.wf(),
        m.apps.contains_key(app_id),
        m.apps[app_id].given_up,
    ensures
        host_state(m, msg).apps[app_id] == m.apps[app_id],
        forall|i: int|
            0 <= i < host_actions(m, msg).len() && (#[trigger] host_actions(m, msg)[i]) is Spawn
                ==> host_actions(m, msg)[i]->Spawn_app_id != app_id,
{
    assert(host_state(m, msg).apps[app_id].windows =~= m.apps[app_id].windows);
}

/// A crash: the exit code is neither the user's quit nor the idle one.
pub open spec fn is_crash(code: Option<i32>) -> bool {
    code != Some(0i32) && code != Some(crate::mirror_app::EXIT_CODE_IDLE)
}

/// A crashed helper is started again once; at the next crash, whether or not
/// the helper could be started in between, the application is given up and
/// the host told to stop sharing it.
pub proof fn crash_is_forgiven_once(
    m: ManagerView,
    app_id: AppId,
    first: Option<i32>,
    second: Option<i32>,
    helper: u64,
    came_up: bool,
)
    requires
        m.apps.contains_key(app_id),
        !m.apps[app_id].respawned_once,
        is_crash(first),
        is_crash(second),
    ensures
        exited_actions(m, app_id, first).contains(
            ActionView::Spawn { app_id, exe: m.apps[app_id].bundle.exe@, first: false },
        ),
        ({
            let m1 = exited_state(m, app_id, first);
            let m2 = if came_up {
                spawned_state(m1, app_id, helper)
            } else {
                m1
            };
            let m3 = exited_state(m2, app_id, second);
            &&& m3.apps[app_id].given_up
            &&& exited_actions(m2, app_id, second).contains(
                ActionView::ToHost { msg: ClientMessage::UnsubscribeApp { app_id } },
            )
            &&& forall|i: int|
                0 <= i < exited_actions(m2, app_id, second).len() ==> !((
                #[trigger] exited_actions(m2, app_id, second)[i]) is Spawn)
        }),
{
    let a1 = exited_actions(m, app_id, first);
    let spawn = ActionView::Spawn { app_id, exe: m.apps[app_id].bundle.exe@, first: false };
    assert(a1.last() == spawn);
    assert(a1.contains(spawn));
    let m1 = exited_state(m, app_id, first);
    let m2 = if came_up {
        spawned_state(m1, app_id, helper)
    } else {
        m1
    };
    let a2 = exited_actions(m2, app_id, second);
    let unsubscribe = ActionView::ToHost { msg: ClientMessage::UnsubscribeApp { app_id } };
    assert(a2.last() == unsubscribe);
    assert(a2.contains(unsubscribe));
    let app = m2.apps[app_id];
    unroutes_are_unroutes(app.windows, in_order(app.windows.dom()));
}

proof fn unroutes_are_unroutes(windows: Map<WindowId, WindowReplay>, ids: Seq<WindowId>)
    ensures
        forall|i: int|
            0 <= i < unroutes(windows, ids).len() ==> (#[trigger] unroutes(
                windows,
                ids,
            )[i]) is ClearRoute,
    decreases ids.len(),
{
    if ids.len() > 0 {
        unroutes_are_unroutes(windows, ids.drop_last());
    }
}

proof fn reroutes_are_routes(windows: Map<WindowId, WindowReplay>, ids: Seq<WindowId>, helper: u64)
    ensures
        forall|i: int|
            0 <= i < reroutes(windows, ids, helper).len() ==> !((#[trigger] reroutes(
                windows,
                ids,
                helper,
            )[i]) is Send),
    decreases ids.len(),
{
    if ids.len() > 0 {
        reroutes_are_routes(windows, ids.drop_last(), helper);
    }
}

proof fn windows_frames_are_control(app: AppView, ids: Seq<WindowId>)
    ensures
        forall|i: int|
            0 <= i < windows_frames(app, ids).len() ==> (#[trigger] windows_frames(
                app,
                ids,
            )[i]) is Control,
    decreases ids.len(),
{
    if ids.len() > 0 {
        windows_frames_are_control(app, ids.drop_last());
    }
}

/// Whether an action sends the icon.
pub open spec fn sends_icon(a: ActionView) -> bool {
    a is Send && a->frame is Icon
}

/// A helper is sent its icon exactly once per (re)spawn, and never when the
/// application has none.
pub proof fn icon_goes_once_per_spawn(m: ManagerView, app_id: AppId, helper: u64, first: bool)
    requires
        m.apps.contains_key(app_id),
    ensures
        ({
            let actions = spawned_actions(m, app_id, helper, first);
            let app = m.apps[app_id];
            &&& app.icon.len() == 0 ==> forall|i: int|
                0 <= i < actions.len() ==> !sends_icon(#[trigger] actions[i])
            &&& app.icon.len() > 0 ==> exists|k: int|
                {
                    &&& 0 <= k < actions.len()
                    &&& actions[k] == (ActionView::Send { helper, frame: DownView::Icon(app.icon) })
                    &&& forall|i: int|
                        0 <= i < actions.len() && i != k ==> !sends_icon(#[trigger] actions[i])
                }
        }),
{
    let app = m.apps[app_id];
    let actions = spawned_actions(m, app_id, helper, first);
    let ids = in_order(app.windows.dom());
    windows_frames_are_control(app, ids);
    reroutes_are_routes(app.windows, ids, helper);
    let k = releases(app.running).len() as int;
    let n = if first {
        icon_frames(app).len() as int
    } else {
        replay_of(app).len() as int
    };
    assert forall|i: int| 0 <= i < actions.len() && (i != k || app.icon.len() == 0) implies
        !sends_icon(#[trigger] actions[i]) by {
        if i < k {
            assert(actions[i] == releases(app.running)[i]);
        } else if i < k + n {
            if first {
                assert(actions[i] == sends(helper, icon_frames(app))[i - k]);
            } else {
                assert(actions[i] == sends(helper, replay_of(app))[i - k]);
                assert(replay_of(app)[i - k] is Control);
            }
        } else {
            assert(actions[i] == reroutes(app.windows, ids, helper)[i - k - n]);
        }
    }
    if app.icon.len() > 0 {
        assert(actions[k] == (ActionView::Send { helper, frame: DownView::Icon(app.icon) }));
    }
}

/// A helper after it was sent one more frame. A window that the frame makes it
/// ask for is created at once, as the local window `fresh`.
pub open spec fn told(v: HelperView, frame: DownView, fresh: LocalId, now: u64) -> HelperView {
    match frame {
        DownView::Control(msg) => {
            let after = event_state(v, HelperEvent::Host(msg));
            if msg is WindowOpened && !v.set.by_remote.contains_key(
                msg->WindowOpened_window_id,
            ) {
                created_state(after, announcement_of(msg), fresh, now)
            } else {
                after
            }
        },
        _ => v,
    }
}

/// The window that a frame announces.
pub open spec fn announced_window(frame: DownView) -> WindowId {
    match frame {
        DownView::Control(HostMessage::WindowOpened { window_id, .. }) => window_id,
        _ => 0,
    }
}

/// A helper after it was sent some frames; `local` gives the local window of
/// each remote one that is created.
pub open spec fn told_all(
    v: HelperView,
    frames: Seq<DownView>,
    local: spec_fn(WindowId) -> LocalId,
    now: u64,
) -> HelperView
    decreases frames.len(),
{
    if frames.len() == 0 {
        v
    } else {
        told(
            told_all(v, frames.drop_last(), local, now),
            frames.last(),
            local(announced_window(frames.last())),
            now,
        )
    }
}

/// The transform that a recorded mapping stands for; without one, identity.
pub open spec fn mapping_of(mapping: Option<HostMessage>) -> InputMapping {
    match mapping {
        Some(HostMessage::InputMapping { scale_x, scale_y, offset_x, offset_y, .. }) => InputMapping {
            scale_x,
            scale_y,
            offset_x,
            offset_y,
        },
        _ => InputMapping::spec_identity(),
    }
}

/// A helper shows the windows on record: it has a mirror of each, with its
/// title, kind and state and the pointer transform of its mapping, and of no
/// other window; and it keeps no mapping for later.
pub open spec fn shows(v: HelperView, windows: Map<WindowId, WindowReplay>) -> bool {
    &&& v.set.wf()
    &&& forall|w: WindowId| #[trigger] v.set.by_remote.contains_key(w) <==> windows.contains_key(w)
    &&& forall|w: WindowId| #[trigger]
        windows.contains_key(w) ==> {
            let m = v.set.mirrors[v.set.by_remote[w]];
            &&& m.base_title == windows[w].title
            &&& m.kind == windows[w].kind
            &&& m.minimized == windows[w].minimized
            &&& m.mapping == mapping_of(windows[w].mapping)
        }
    &&& forall|w: WindowId| #[trigger]
        v.pending_mappings.contains_key(w) ==> windows.contains_key(w)
}

/// Every mirror has the size on record.
pub open spec fn shows_sizes(v: HelperView, windows: Map<WindowId, WindowReplay>) -> bool {
    forall|w: WindowId| #[trigger]
        windows.contains_key(w) ==> v.set.mirrors[v.set.by_remote[w]].last_host_size == (
            windows[w].width,
            windows[w].height,
        )
}

proof fn told_concat(
    v: HelperView,
    a: Seq<DownView>,
    b: Seq<DownView>,
    local: spec_fn(WindowId) -> LocalId,
    now: u64,
)
    ensures
        told_all(v, a + b, local, now) == told_all(told_all(v, a, local, now), b, local, now),
    decreases b.len(),
{
    if b.len() == 0 {
        assert(a + b =~= a);
    } else {
        told_concat(v, a, b.drop_last(), local, now);
        assert((a + b).drop_last() =~= a + b.drop_last());
        assert((a + b).last() == b.last());
    }
}

proof fn told_one(v: HelperView, f: DownView, local: spec_fn(WindowId) -> LocalId, now: u64)
    ensures
        told_all(v, seq![f], local, now) == told(v, f, local(announced_window(f)), now),
{
    assert(seq![f].drop_last() =~= Seq::<DownView>::empty());
    assert(told_all(v, Seq::<DownView>::empty(), local, now) == v);
}

/// A message about a window that a helper shows changes its mirror as it
/// changes the record.
proof fn message_changes_both(
    v: HelperView,
    windows: Map<WindowId, WindowReplay>,
    w: WindowId,
    msg: HostMessage,
    record: WindowReplay,
    fresh: LocalId,
    now: u64,
)
    requires
        shows(v, windows),
        windows.contains_key(w),
        match msg {
            HostMessage::WindowResized { window_id, width, height } => window_id == w && record == (
            WindowReplay { width, height, ..windows[w] }),
            HostMessage::WindowTitleChanged { window_id, title } => window_id == w && record == (
            WindowReplay { title, ..windows[w] }),
            HostMessage::WindowMinimized { window_id } => window_id == w && record == (
            WindowReplay { minimized: true, ..windows[w] }),
            HostMessage::WindowRestored { window_id } => window_id == w && record == (
            WindowReplay { minimized: false, ..windows[w] }),
            HostMessage::InputMapping { window_id, .. } => window_id == w && record == (
            WindowReplay { mapping: Some(msg), ..windows[w] }),
            _ => false,
        },
    ensures
        shows(told(v, DownView::Control(msg), fresh, now), windows.insert(w, record)),
        shows_sizes(v, windows) ==> shows_sizes(
            told(v, DownView::Control(msg), fresh, now),
            windows.insert(w, record),
        ),
{
    let after = told(v, DownView::Control(msg), fresh, now);
    let l = v.set.by_remote[w];
    assert(v.set.by_remote.contains_key(w));
    assert(v.set.window_for(w) == Some(l));
    assert(after.set.by_remote == v.set.by_remote);
    assert forall|o: WindowId| #[trigger] windows.contains_key(o) && o != w implies
        after.set.mirrors[v.set.by_remote[o]] == v.set.mirrors[v.set.by_remote[o]] by {
        assert(v.set.by_remote.contains_key(o));
        assert(v.set.mirrors[v.set.by_remote[o]].remote_id == o);
        assert(v.set.mirrors[l].remote_id == w);
    }
    assert(after.set.wf()) by {
        assert(forall|x: LocalId| #[trigger] after.set.mirrors.contains_key(x) <==> v.set.mirrors.contains_key(x));
        assert(forall|x: LocalId| #[trigger] after.set.mirrors.contains_key(x)
            ==> after.set.mirrors[x].remote_id == v.set.mirrors[x].remote_id);
    }
}

/// A window that a helper does not show yet, announced to it, is shown as it
/// was announced.
proof fn announcement_adds(
    v: HelperView,
    windows: Map<WindowId, WindowReplay>,
    app_id: AppId,
    id: WindowId,
    w: WindowReplay,
    fresh: LocalId,
    now: u64,
)
    requires
        shows(v, windows),
        !windows.contains_key(id),
        !v.set.mirrors.contains_key(fresh),
    ensures
        ({
            let after = told(
                v,
                DownView::Control(opened_message(app_id, id, w)),
                fresh,
                now,
            );
            let record = WindowReplay { minimized: false, mapping: None, ..w };
            &&& shows(after, windows.insert(id, record))
            &&& shows_sizes(v, windows) ==> shows_sizes(after, windows.insert(id, record))
            &&& after.set.mirrors.dom() == v.set.mirrors.dom().insert(fresh)
        }),
{
    let msg = opened_message(app_id, id, w);
    let after = told(v, DownView::Control(msg), fresh, now);
    assert(!v.set.by_remote.contains_key(id));
    assert(!v.pending_mappings.contains_key(id));
    assert forall|o: WindowId| #[trigger] windows.contains_key(o) implies after.set.mirrors[after.set.by_remote[o]]
        == v.set.mirrors[v.set.by_remote[o]] by {
        assert(v.set.by_remote.contains_key(o));
        assert(v.set.mirrors.contains_key(v.set.by_remote[o]));
    }
    assert(after.set.mirrors.dom() =~= v.set.mirrors.dom().insert(fresh));
}

proof fn window_frames_show(
    v: HelperView,
    windows: Map<WindowId, WindowReplay>,
    app_id: AppId,
    id: WindowId,
    w: WindowReplay,
    local: spec_fn(WindowId) -> LocalId,
    now: u64,
)
    requires
        shows(v, windows),
        shows_sizes(v, windows),
        !windows.contains_key(id),
        !v.set.mirrors.contains_key(local(id)),
        w.mapping is Some ==> is_mapping_of(w.mapping->0, id),
    ensures
        ({
            let after = told_all(v, window_frames(app_id, id, w), local, now);
            &&& shows(after, windows.insert(id, w))
            &&& shows_sizes(after, windows.insert(id, w))
            &&& after.set.mirrors.dom() == v.set.mirrors.dom().insert(local(id))
        }),
{
    let opened = DownView::Control(opened_message(app_id, id, w));
    let minimized = if w.minimized {
        seq![DownView::Control(HostMessage::WindowMinimized { window_id: id })]
    } else {
        Seq::empty()
    };
    let mapping = match w.mapping {
        Some(mapping) => seq![DownView::Control(mapping)],
        None => Seq::empty(),
    };
    let r1 = WindowReplay { minimized: false, mapping: None, ..w };
    let r2 = WindowReplay { mapping: None, ..w };
    told_one(v, opened, local, now);
    announcement_adds(v, windows, app_id, id, w, local(id), now);
    let v1 = told_all(v, seq![opened], local, now);
    told_concat(v, seq![opened], minimized, local, now);
    let v2 = told_all(v1, minimized, local, now);
    if w.minimized {
        told_one(v1, minimized[0], local, now);
        assert(minimized =~= seq![minimized[0]]);
        message_changes_both(
            v1,
            windows.insert(id, r1),
            id,
            HostMessage::WindowMinimized { window_id: id },
            r2,
            local(0),
            now,
        );
        assert(windows.insert(id, r1).insert(id, r2) =~= windows.insert(id, r2));
        assert(v2.set.mirrors.dom() =~= v1.set.mirrors.dom());
    }
    told_concat(v, seq![opened] + minimized, mapping, local, now);
    let v3 = told_all(v2, mapping, local, now);
    if w.mapping is Some {
        told_one(v2, mapping[0], local, now);
        assert(mapping =~= seq![mapping[0]]);
        message_changes_both(v2, windows.insert(id, r2), id, w.mapping->0, w, local(0), now);
        assert(windows.insert(id, r2).insert(id, w) =~= windows.insert(id, w));
        assert(v3.set.mirrors.dom() =~= v2.set.mirrors.dom());
    }
}

/// The windows `ids` of an application.
spec fn some_windows(app: AppView, ids: Seq<WindowId>) -> Map<WindowId, WindowReplay> {
    Map::new(|w: WindowId| ids.contains(w), |w: WindowId| app.windows[w])
}

proof fn windows_frames_show(
    app: AppView,
    ids: Seq<WindowId>,
    v: HelperView,
    local: spec_fn(WindowId) -> LocalId,
    now: u64,
)
    requires
        v.set == MirrorsView::<MirrorContent>::none(),
        v.pending_mappings == Map::<WindowId, InputMapping>::empty(),
        forall|i: int, j: int| 0 <= i < j < ids.len() ==> ids[i] < ids[j],
        forall|a: WindowId, b: WindowId| #[trigger] local(a) == #[trigger] local(b) ==> a == b,
        forall|w: WindowId|
            ids.contains(w) && (#[trigger] app.windows[w]).mapping is Some ==> is_mapping_of(
                app.windows[w].mapping->0,
                w,
            ),
    ensures
        ({
            let after = told_all(v, windows_frames(app, ids), local, now);
            &&& shows(after, some_windows(app, ids))
            &&& shows_sizes(after, some_windows(app, ids))
            &&& forall|l: LocalId| #[trigger]
                after.set.mirrors.contains_key(l) ==> exists|w: WindowId|
                    ids.contains(w) && #[trigger] local(w) == l
        }),
    decreases ids.len(),
{
    if ids.len() > 0 {
        let rest = ids.drop_last();
        let last = ids.last();
        assert forall|w: WindowId| ids.contains(w) <==> rest.contains(w) || w == last by {
            if ids.contains(w) {
                let i = choose|i: int| 0 <= i < ids.len() && ids[i] == w;
                if i < rest.len() {
                    assert(rest[i] == w);
                }
            }
            if rest.contains(w) {
                let i = choose|i: int| 0 <= i < rest.len() && rest[i] == w;
                assert(ids[i] == w);
            }
            if w == last {
                assert(ids[ids.len() - 1] == w);
            }
        }
        assert(!rest.contains(last));
        windows_frames_show(app, rest, v, local, now);
        let before = told_all(v, windows_frames(app, rest), local, now);
        let more = window_frames(app.app_id, last, app.windows[last]);
        told_concat(v, windows_frames(app, rest), more, local, now);
        assert(ids.contains(last));
        assert(!before.set.mirrors.contains_key(local(last))) by {
            if before.set.mirrors.contains_key(local(last)) {
                let w = choose|w: WindowId| rest.contains(w) && #[trigger] local(w) == local(last);
                assert(w == last);
            }
        }
        window_frames_show(
            before,
            some_windows(app, rest),
            app.app_id,
            last,
            app.windows[last],
            local,
            now,
        );
        let after = told_all(before, more, local, now);
        assert(some_windows(app, rest).insert(last, app.windows[last]) =~= some_windows(app, ids));
        assert forall|l: LocalId| #[trigger] after.set.mirrors.contains_key(l) implies exists|
            w: WindowId,
        | ids.contains(w) && #[trigger] local(w) == l by {
            assert(after.set.mirrors.dom().contains(l));
            if before.set.mirrors.dom().contains(l) {
                assert(before.set.mirrors.contains_key(l));
                let w = choose|w: WindowId| rest.contains(w) && #[trigger] local(w) == l;
                assert(ids.contains(w) && local(w) == l);
            } else {
                assert(ids.contains(last) && local(last) == l);
            }
        }
    }
}

/// The replay rebuilds a helper's world: a fresh helper that was sent it shows
/// exactly the windows on record, in their sizes.
pub proof fn replay_rebuilds_the_world(
    m: ManagerView,
    app_id: AppId,
    v: HelperView,
    local: spec_fn(WindowId) -> LocalId,
    now: u64,
)
    requires
        m.wf(),
        m.apps.contains_key(app_id),
        v.set == MirrorsView::<MirrorContent>::none(),
        v.pending_mappings == Map::<WindowId, InputMapping>::empty(),
        forall|a: WindowId, b: WindowId| #[trigger] local(a) == #[trigger] local(b) ==> a == b,
    ensures
        shows(told_all(v, replay_of(m.apps[app_id]), local, now), m.apps[app_id].windows),
        shows_sizes(told_all(v, replay_of(m.apps[app_id]), local, now), m.apps[app_id].windows),
{
    let app = m.apps[app_id];
    let ids = in_order(app.windows.dom());
    list_exists(app.windows.dom());
    assert forall|w: WindowId|
        ids.contains(w) && (#[trigger] app.windows[w]).mapping is Some implies is_mapping_of(
        app.windows[w].mapping->0,
        w,
    ) by {
        assert(m.apps[app_id].windows[w] == app.windows[w]);
        assert(app.windows.dom().contains(w));
    }
    windows_frames_show(app, ids, v, local, now);
    told_concat(v, icon_frames(app), windows_frames(app, ids), local, now);
    if app.icon.len() > 0 {
        told_one(v, icon_frames(app)[0], local, now);
        assert(icon_frames(app) =~= seq![icon_frames(app)[0]]);
    }
    assert(told_all(v, icon_frames(app), local, now) == v);
    assert forall|w: WindowId| app.windows.contains_key(w) <==> ids.contains(w) by {
        assert(app.windows.dom().contains(w) <==> ids.contains(w));
    }
    assert(some_windows(app, ids) =~= app.windows);
}

/// The frames that some actions send to a helper.
pub open spec fn frames_to(actions: Seq<ActionView>, helper: u64) -> Seq<DownView>
    decreases actions.len(),
{
    if actions.len() == 0 {
        Seq::empty()
    } else {
        let before = frames_to(actions.drop_last(), helper);
        match actions.last() {
            ActionView::Send { helper: to, frame } => if to == helper {
                before.push(frame)
            } else {
                before
            },
            _ => before,
        }
    }
}

proof fn frames_to_push(actions: Seq<ActionView>, a: ActionView, helper: u64)
    ensures
        frames_to(actions.push(a), helper) == (match a {
            ActionView::Send { helper: to, frame } => if to == helper {
                frames_to(actions, helper).push(frame)
            } else {
                frames_to(actions, helper)
            },
            _ => frames_to(actions, helper),
        }),
{
    assert(actions.push(a).drop_last() =~= actions);
}

/// A running helper keeps up: when it shows the windows on record of its
/// application, it still does after a message of the host and the frames that
/// the message makes the coordinator send it. A second announcement of a
/// window that it shows is excepted: the record takes it, and the helper keeps
/// the mirror it has.
#[verifier::rlimit(40)]
pub proof fn running_helper_keeps_up(
    m: ManagerView,
    msg: HostMessage,
    app_id: AppId,
    helper: u64,
    v: HelperView,
    local: spec_fn(WindowId) -> LocalId,
    now: u64,
)
    requires
        m.wf(),
        m.helper_of(app_id) == Some(helper),
        forall|a: AppId| #[trigger] m.helper_of(a) == Some(helper) ==> a == app_id,
        shows(v, m.apps[app_id].windows),
        msg is WindowOpened ==> {
            &&& !v.set.mirrors.contains_key(local(msg->WindowOpened_window_id))
            &&& msg->WindowOpened_app_id == app_id ==> !m.apps[app_id].windows.contains_key(
                msg->WindowOpened_window_id,
            )
        },
    ensures
        shows(
            told_all(v, frames_to(host_actions(m, msg), helper), local, now),
            host_state(m, msg).apps[app_id].windows,
        ),
{
    let world = m.apps[app_id].windows;
    let actions = host_actions(m, msg);
    let none = Seq::<ActionView>::empty();
    let no_frames = Seq::<DownView>::empty();
    assert(frames_to(none, helper) == no_frames);
    assert(told_all(v, no_frames, local, now) == v);
    let after = host_state(m, msg).apps[app_id].windows;
    if let HostMessage::WindowOpened { window_id, track_id, app_id: a, .. } = msg {
        if m.apps.contains_key(a) && !m.apps[a].given_up && m.apps[a].running is Some {
            let to = m.apps[a].running->0;
            let opened = ActionView::Send { helper: to, frame: DownView::Control(msg) };
            assert(m.helper_of(a) == Some(to));
            frames_to_push(none, opened, helper);
            let s1 = none.push(opened);
            let s2 = if m.pending_mappings.contains_key(window_id) {
                s1.push(
                    ActionView::Send {
                        helper: to,
                        frame: DownView::Control(m.pending_mappings[window_id]),
                    },
                )
            } else {
                s1
            };
            if m.pending_mappings.contains_key(window_id) {
                frames_to_push(s1, s2.last(), helper);
            }
            let s3 = match track_id {
                Some(t) => s2.push(ActionView::SetRoute { track_id: t@, helper: to }),
                None => s2,
            };
            if track_id is Some {
                frames_to_push(s2, s3.last(), helper);
            }
            assert(actions =~= s3);
            if to == helper {
                assert(a == app_id);
                let record = fresh_window(m, msg);
                let bare = WindowReplay { mapping: None, ..record };
                assert(msg == opened_message(a, window_id, record));
                let f1 = DownView::Control(msg);
                told_one(v, f1, local, now);
                announcement_adds(v, world, a, window_id, record, local(window_id), now);
                let v1 = told_all(v, seq![f1], local, now);
                assert(no_frames.push(f1) =~= seq![f1]);
                if m.pending_mappings.contains_key(window_id) {
                    let f2 = DownView::Control(m.pending_mappings[window_id]);
                    told_one(v1, f2, local, now);
                    told_concat(v, seq![f1], seq![f2], local, now);
                    assert(no_frames.push(f1).push(f2) =~= seq![f1] + seq![f2]);
                    message_changes_both(
                        v1,
                        world.insert(window_id, bare),
                        window_id,
                        m.pending_mappings[window_id],
                        record,
                        local(0),
                        now,
                    );
                    assert(world.insert(window_id, bare).insert(window_id, record)
                        =~= world.insert(window_id, record));
                }
                assert(after == world.insert(window_id, record));
            } else {
                assert(frames_to(actions, helper) =~= no_frames);
                assert(a != app_id);
            }
        } else {
            if actions.len() > 0 {
                frames_to_push(none, actions[0], helper);
                assert(actions =~= none.push(actions[0]));
            } else {
                assert(actions =~= none);
            }
            assert(a != app_id || m.apps[a].given_up);
        }
    } else if let HostMessage::AppAnnounced { .. } = msg {
        if actions.len() > 0 {
            frames_to_push(none, actions[0], helper);
            assert(actions =~= none.push(actions[0]));
        } else {
            assert(actions =~= none);
        }
    } else {
        let w = match msg {
            HostMessage::WindowResized { window_id, .. } => window_id,
            HostMessage::WindowTitleChanged { window_id, .. } => window_id,
            HostMessage::WindowMinimized { window_id } => window_id,
            HostMessage::WindowRestored { window_id } => window_id,
            HostMessage::WindowClosed { window_id } => window_id,
            HostMessage::InputMapping { window_id, .. } => window_id,
            _ => 0,
        };
        if actions.len() == 0 {
            assert(actions =~= none);
            if m.app_of_window.contains_key(w) {
                assert(m.helper_of(m.app_of_window[w]) == Some(helper) ==> m.app_of_window[w]
                    == app_id);
            }
            assert(after =~= world);
        } else if m.helper_of(m.app_of_window[w]) is None {
            frames_to_push(none, actions[0], helper);
            assert(actions =~= none.push(actions[0]));
            assert(after =~= world);
        } else {
            let a = m.app_of_window[w];
            let to = m.helper_of(a)->0;
            let f = DownView::Control(msg);
            let send = ActionView::Send { helper: to, frame: f };
            let pre = actions.drop_last();
            assert(actions.last() == send);
            assert(actions =~= pre.push(send));
            frames_to_push(pre, send, helper);
            if pre.len() > 0 {
                frames_to_push(none, pre[0], helper);
                assert(pre =~= none.push(pre[0]));
            } else {
                assert(pre =~= none);
            }
            if to == helper {
                assert(a == app_id);
                assert(world.contains_key(w));
                told_one(v, f, local, now);
                assert(no_frames.push(f) =~= seq![f]);
                if let HostMessage::WindowClosed { .. } = msg {
                    closing_removes(v, world, w, local(0), now);
                    assert(after =~= world.remove(w));
                } else {
                    message_changes_both(v, world, w, msg, after[w], local(0), now);
                    assert(after =~= world.insert(w, after[w]));
                }
            } else {
                assert(after =~= world);
            }
        }
    }
}

proof fn closing_removes(
    v: HelperView,
    windows: Map<WindowId, WindowReplay>,
    w: WindowId,
    fresh: LocalId,
    now: u64,
)
    requires
        shows(v, windows),
        windows.contains_key(w),
    ensures
        shows(
            told(v, DownView::Control(HostMessage::WindowClosed { window_id: w }), fresh, now),
            windows.remove(w),
        ),
{
    let after = told(v, DownView::Control(HostMessage::WindowClosed { window_id: w }), fresh, now);
    let l = v.set.by_remote[w];
    assert(v.set.by_remote.contains_key(w));
    crate::mirrors::removing_leaves_nothing(v.set, w);
    assert(after.set == v.set.without(w));
    assert forall|o: WindowId| #[trigger] windows.remove(w).contains_key(o) implies after.set.mirrors[after.set.by_remote[o]]
        == v.set.mirrors[v.set.by_remote[o]] by {
        assert(windows.contains_key(o));
        assert(v.set.by_remote.contains_key(o));
        assert(v.set.mirrors[v.set.by_remote[o]].remote_id == o);
        assert(v.set.mirrors[l].remote_id == w);
    }
}

/// What the user does to the windows keeps them showing what is on record.
pub proof fn input_keeps_showing(
    v: HelperView,
    windows: Map<WindowId, WindowReplay>,
    l: LocalId,
    input: WindowInput,
)
    requires
        shows(v, windows),
    ensures
        shows(input_state(v, l, input), windows),
{
    let after = input_state(v, l, input);
    assert(after.set.by_remote == v.set.by_remote);
    assert(forall|x: LocalId| #[trigger]
        after.set.mirrors.contains_key(x) <==> v.set.mirrors.contains_key(x));
    assert forall|o: WindowId| #[trigger] windows.contains_key(o) implies {
        let (old_m, new_m) = (
            v.set.mirrors[v.set.by_remote[o]],
            after.set.mirrors[after.set.by_remote[o]],
        );
        &&& new_m.base_title == old_m.base_title
        &&& new_m.kind == old_m.kind
        &&& new_m.minimized == old_m.minimized
        &&& new_m.mapping == old_m.mapping
    } by {
        assert(v.set.by_remote.contains_key(o));
    }
}

/// Closing a window undoes its announcement: of an application whose helper
/// runs, nothing is left of a window, its track and its mapping that were new.
pub proof fn closing_undoes_opening(m: ManagerView, msg: HostMessage)
    requires
        m.wf(),
        msg is WindowOpened,
        m.apps.contains_key(msg->WindowOpened_app_id),
        !m.apps[msg->WindowOpened_app_id].given_up,
        m.apps[msg->WindowOpened_app_id].running is Some,
        !m.apps[msg->WindowOpened_app_id].windows.contains_key(msg->WindowOpened_window_id),
        !m.app_of_window.contains_key(msg->WindowOpened_window_id),
        msg->track_id is Some ==> !m.app_of_track.contains_key(msg->track_id->0@),
    ensures
        ({
            let w = msg->WindowOpened_window_id;
            host_state(host_state(m, msg), HostMessage::WindowClosed { window_id: w }) == (
            ManagerView { pending_mappings: m.pending_mappings.remove(w), ..m })
        }),
{
    let w = msg->WindowOpened_window_id;
    let a = msg->WindowOpened_app_id;
    let m1 = host_state(m, msg);
    let m2 = host_state(m1, HostMessage::WindowClosed { window_id: w });
    assert(m2.apps[a].windows =~= m.apps[a].windows);
    assert(m2.apps =~= m.apps);
    assert(m2.app_of_window =~= m.app_of_window);
    assert(m2.app_of_track =~= m.app_of_track);
    assert(m2.pending_mappings =~= m.pending_mappings.remove(w));
}

} // verus!
