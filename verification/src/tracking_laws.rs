//! What a snapshot of the screen does to each single window.

use crate::ids::list_exists;
use crate::model::{AxRole, SnapshotWindow, WindowInfo};
use crate::protocol::WindowId;
use crate::tracker::{
    diff_live, gone_ids, ids_of_pid, is_ours, live_opened, live_updated, opened, ours_of, seen, updated, AppTracker,
    LiveWindow, TrackerEvent, TrackerView,
};
use std::collections::HashMap;
use vstd::prelude::*;

verus! {

/// The last sighting of a window.
pub open spec fn latest(ours: Seq<SnapshotWindow>, id: WindowId) -> Option<SnapshotWindow>
    decreases ours.len(),
{
    if ours.len() == 0 {
        None
    } else if ours.last().info.id == id {
        Some(ours.last())
    } else {
        latest(ours.drop_last(), id)
    }
}

/// The first sighting of a window.
pub open spec fn earliest(ours: Seq<SnapshotWindow>, id: WindowId) -> Option<SnapshotWindow>
    decreases ours.len(),
{
    if ours.len() == 0 {
        None
    } else {
        let before = earliest(ours.drop_last(), id);
        if before is None && ours.last().info.id == id {
            Some(ours.last())
        } else {
            before
        }
    }
}

/// `w` is the one sighting of its window.
pub open spec fn once(ours: Seq<SnapshotWindow>, w: SnapshotWindow) -> bool
    decreases ours.len(),
{
    ours.len() > 0 && (if ours.last().info.id == w.info.id {
        ours.last() == w && earliest(ours.drop_last(), w.info.id) is None
    } else {
        once(ours.drop_last(), w)
    })
}

pub(crate) proof fn seen_earliest(ours: Seq<SnapshotWindow>, id: WindowId)
    ensures
        seen(ours, id) <==> earliest(ours, id) is Some,
        seen(ours, id) <==> latest(ours, id) is Some,
        earliest(ours, id) is Some ==> earliest(ours, id)->0.info.id == id,
        latest(ours, id) is Some ==> latest(ours, id)->0.info.id == id,
    decreases ours.len(),
{
    if ours.len() > 0 {
        let rest = ours.drop_last();
        seen_earliest(rest, id);
        if seen(ours, id) {
            let i = choose|i: int| 0 <= i < ours.len() && (#[trigger] ours[i]).info.id == id;
            if i < rest.len() {
                assert(rest[i].info.id == id);
            }
        }
        if seen(rest, id) {
            let i = choose|i: int| 0 <= i < rest.len() && (#[trigger] rest[i]).info.id == id;
            assert(ours[i].info.id == id);
        }
        if ours.last().info.id == id {
            assert(ours[ours.len() - 1].info.id == id);
        }
    }
}

pub(crate) proof fn latest_sighting(pids: Set<i32>, s: Seq<SnapshotWindow>, i: int)
    requires
        0 <= i < s.len(),
        is_ours(pids, s[i]),
        forall|j: int|
            i < j < s.len() && (#[trigger] s[j]).info.id == s[i].info.id ==> !is_ours(pids, s[j]),
    ensures
        latest(ours_of(pids, s), s[i].info.id) == Some(s[i]),
    decreases s.len(),
{
    let rest = s.drop_last();
    let before = ours_of(pids, rest);
    assert(s.last() == s[s.len() - 1]);
    if is_ours(pids, s.last()) {
        assert(before.push(s.last()).drop_last() =~= before);
    }
    if i < rest.len() {
        assert(rest[i] == s[i]);
        latest_sighting(pids, rest, i);
    }
}

proof fn nothing_earlier(pids: Set<i32>, s: Seq<SnapshotWindow>, id: WindowId)
    requires
        forall|j: int| 0 <= j < s.len() && (#[trigger] s[j]).info.id == id ==> !is_ours(pids, s[j]),
    ensures
        earliest(ours_of(pids, s), id) is None,
    decreases s.len(),
{
    if s.len() > 0 {
        let rest = s.drop_last();
        let before = ours_of(pids, rest);
        assert forall|j: int| 0 <= j < rest.len() && (#[trigger] rest[j]).info.id == id implies
            !is_ours(pids, rest[j]) by {
            assert(rest[j] == s[j]);
        }
        nothing_earlier(pids, rest, id);
        assert(s.last() == s[s.len() - 1]);
        if is_ours(pids, s.last()) {
            assert(before.push(s.last()).drop_last() =~= before);
        }
    }
}

pub(crate) proof fn earliest_sighting(pids: Set<i32>, s: Seq<SnapshotWindow>, i: int)
    requires
        0 <= i < s.len(),
        is_ours(pids, s[i]),
        forall|j: int|
            0 <= j < i && (#[trigger] s[j]).info.id == s[i].info.id ==> !is_ours(pids, s[j]),
    ensures
        earliest(ours_of(pids, s), s[i].info.id) == Some(s[i]),
    decreases s.len(),
{
    let rest = s.drop_last();
    let before = ours_of(pids, rest);
    assert(s.last() == s[s.len() - 1]);
    if is_ours(pids, s.last()) {
        assert(before.push(s.last()).drop_last() =~= before);
    }
    if i < rest.len() {
        assert(rest[i] == s[i]);
        earliest_sighting(pids, rest, i);
    } else {
        nothing_earlier(pids, rest, s[i].info.id);
    }
}

pub(crate) proof fn earliest_is_there(pids: Set<i32>, s: Seq<SnapshotWindow>, id: WindowId) -> (i: int)
    requires
        earliest(ours_of(pids, s), id) is Some,
    ensures
        0 <= i < s.len(),
        is_ours(pids, s[i]),
        s[i].info.id == id,
        earliest(ours_of(pids, s), id) == Some(s[i]),
        forall|j: int|
            0 <= j < i && (#[trigger] s[j]).info.id == id ==> !is_ours(pids, s[j]),
    decreases s.len(),
{
    let rest = s.drop_last();
    let before = ours_of(pids, rest);
    if is_ours(pids, s.last()) {
        assert(before.push(s.last()).drop_last() =~= before);
    }
    if earliest(before, id) is Some {
        let i = earliest_is_there(pids, rest, id);
        assert(rest[i] == s[i]);
        assert forall|j: int| 0 <= j < i && (#[trigger] s[j]).info.id == id implies !is_ours(
            pids,
            s[j],
        ) by {
            assert(rest[j] == s[j]);
        }
        i
    } else {
        let i = s.len() - 1;
        assert forall|j: int| 0 <= j < i && (#[trigger] s[j]).info.id == id implies !is_ours(
            pids,
            s[j],
        ) by {
            assert(rest[j] == s[j]);
            if is_ours(pids, s[j]) {
                one_is_seen(pids, rest, j);
            }
        }
        i
    }
}

pub(crate) proof fn one_is_seen(pids: Set<i32>, s: Seq<SnapshotWindow>, j: int)
    requires
        0 <= j < s.len(),
        is_ours(pids, s[j]),
    ensures
        earliest(ours_of(pids, s), s[j].info.id) is Some,
    decreases s.len(),
{
    let rest = s.drop_last();
    let before = ours_of(pids, rest);
    if is_ours(pids, s.last()) {
        assert(before.push(s.last()).drop_last() =~= before);
    }
    if j < rest.len() {
        assert(rest[j] == s[j]);
        one_is_seen(pids, rest, j);
    }
}

pub(crate) proof fn one_sighting(pids: Set<i32>, s: Seq<SnapshotWindow>, i: int)
    requires
        0 <= i < s.len(),
        is_ours(pids, s[i]),
        forall|j: int|
            0 <= j < s.len() && j != i && (#[trigger] s[j]).info.id == s[i].info.id ==> !is_ours(
                pids,
                s[j],
            ),
    ensures
        once(ours_of(pids, s), s[i]),
    decreases s.len(),
{
    let rest = s.drop_last();
    let before = ours_of(pids, rest);
    assert(s.last() == s[s.len() - 1]);
    if is_ours(pids, s.last()) {
        assert(before.push(s.last()).drop_last() =~= before);
    }
    if i < rest.len() {
        assert(rest[i] == s[i]);
        one_sighting(pids, rest, i);
    } else {
        nothing_earlier(pids, rest, s[i].info.id);
    }
}

pub(crate) proof fn record_once_updated(
    live: Map<WindowId, LiveWindow>,
    ours: Seq<SnapshotWindow>,
    id: WindowId,
)
    ensures
        live_updated(live, ours).contains_key(id) <==> live.contains_key(id),
        live.contains_key(id) ==> live_updated(live, ours)[id].pid == live[id].pid,
        live.contains_key(id) && latest(ours, id) is None ==> live_updated(live, ours)[id]
            == live[id],
        live.contains_key(id) && latest(ours, id) is Some ==> {
            let w = latest(ours, id)->0;
            let now = live_updated(live, ours)[id];
            &&& now.info == w.info
            &&& now.minimized == w.minimized
            &&& !w.minimized ==> now.last_unminimized_size == (w.info.width, w.info.height)
            &&& once(ours, w) ==> now == updated(live[id], w)
        },
    decreases ours.len(),
{
    if ours.len() > 0 {
        let rest = ours.drop_last();
        record_once_updated(live, rest, id);
        seen_earliest(rest, id);
        seen_earliest(ours, id);
    }
}

pub(crate) proof fn record_once_opened(
    live: Map<WindowId, LiveWindow>,
    ours: Seq<SnapshotWindow>,
    id: WindowId,
)
    ensures
        live.contains_key(id) ==> live_opened(live, ours).contains_key(id) && live_opened(
            live,
            ours,
        )[id] == live[id],
        !live.contains_key(id) ==> {
            &&& live_opened(live, ours).contains_key(id) <==> earliest(ours, id) is Some
            &&& earliest(ours, id) is Some ==> live_opened(live, ours)[id] == opened(
                earliest(ours, id)->0,
            )
        },
    decreases ours.len(),
{
    if ours.len() > 0 {
        record_once_opened(live, ours.drop_last(), id);
    }
}

pub(crate) proof fn last_sighting_is_kept(t: TrackerView, snapshot: Seq<SnapshotWindow>, i: int)
    requires
        0 <= i < snapshot.len(),
        is_ours(t.pids, snapshot[i]),
        forall|j: int|
            i < j < snapshot.len() && (#[trigger] snapshot[j]).info.id == snapshot[i].info.id
                ==> !is_ours(t.pids, snapshot[j]),
    ensures
        diff_live(t, snapshot).contains_key(snapshot[i].info.id),
        ({
            let w = snapshot[i];
            let now = diff_live(t, snapshot)[w.info.id];
            &&& now.info == w.info
            &&& now.minimized == w.minimized
            &&& !w.minimized ==> now.last_unminimized_size == (w.info.width, w.info.height)
        }),
{
    let ours = ours_of(t.pids, snapshot);
    let id = snapshot[i].info.id;
    let kept = t.live.remove_keys(gone_ids(t.live, ours));
    latest_sighting(t.pids, snapshot, i);
    seen_earliest(ours, id);
    record_once_opened(kept, ours, id);
    record_once_updated(live_opened(kept, ours), ours, id);
}

/// After a snapshot every announced window is tracked as it was seen last:
/// where it stands, its size and title, and whether it is minimized. Announced
/// is a window on the base layer, and no sheet, of a shared application.
pub proof fn window_is_tracked_as_last_seen(
    t: &mut AppTracker,
    snapshot: Vec<SnapshotWindow>,
    events: Vec<TrackerEvent>,
    i: int,
)
    requires
        call_ensures(AppTracker::diff, (t, snapshot), events),
        0 <= i < snapshot@.len(),
        old(t)@.pids.contains(snapshot@[i].pid),
        snapshot@[i].layer == 0,
        snapshot@[i].ax_role != AxRole::Sheet,
        forall|j: int|
            i < j < snapshot@.len() && (#[trigger] snapshot@[j]).info.id == snapshot@[i].info.id
                ==> !old(t)@.pids.contains(snapshot@[j].pid) || snapshot@[j].layer != 0
                || snapshot@[j].ax_role == AxRole::Sheet,
    ensures
        final(t)@.live.contains_key(snapshot@[i].info.id),
        ({
            let w = snapshot@[i];
            let now = final(t)@.live[w.info.id];
            &&& now.info == w.info
            &&& now.minimized == w.minimized
            &&& !w.minimized ==> now.last_unminimized_size == (w.info.width, w.info.height)
        }),
{
    last_sighting_is_kept(t@, snapshot@, i);
}

/// Where a tracker says that a window stands after a snapshot is where the
/// snapshot shows it.
pub proof fn geometry_is_the_last_seen(
    t: &mut AppTracker,
    snapshot: Vec<SnapshotWindow>,
    events: Vec<TrackerEvent>,
    after: &AppTracker,
    i: int,
    r: Option<&WindowInfo>,
)
    requires
        call_ensures(AppTracker::diff, (t, snapshot), events),
        *after == *final(t),
        0 <= i < snapshot@.len(),
        old(t)@.pids.contains(snapshot@[i].pid),
        snapshot@[i].layer == 0,
        snapshot@[i].ax_role != AxRole::Sheet,
        forall|j: int|
            i < j < snapshot@.len() && (#[trigger] snapshot@[j]).info.id == snapshot@[i].info.id
                ==> !old(t)@.pids.contains(snapshot@[j].pid) || snapshot@[j].layer != 0
                || snapshot@[j].ax_role == AxRole::Sheet,
        call_ensures(AppTracker::geometry, (after, snapshot@[i].info.id), r),
    ensures
        r is Some,
        r->0.id == snapshot@[i].info.id,
        r->0.title == snapshot@[i].info.title,
        r->0.x == snapshot@[i].info.x,
        r->0.y == snapshot@[i].info.y,
        r->0.width == snapshot@[i].info.width,
        r->0.height == snapshot@[i].info.height,
{
    window_is_tracked_as_last_seen(t, snapshot, events, i);
}

/// A window that was tracked already keeps its application; a new one gets
/// that of its first sighting. While a window stays minimized, the size that it
/// had on screen is kept.
pub proof fn window_keeps_its_application(
    t: &mut AppTracker,
    snapshot: Vec<SnapshotWindow>,
    events: Vec<TrackerEvent>,
    i: int,
)
    requires
        call_ensures(AppTracker::diff, (t, snapshot), events),
        0 <= i < snapshot@.len(),
        old(t)@.pids.contains(snapshot@[i].pid),
        snapshot@[i].layer == 0,
        snapshot@[i].ax_role != AxRole::Sheet,
        forall|j: int|
            0 <= j < snapshot@.len() && j != i && (#[trigger] snapshot@[j]).info.id
                == snapshot@[i].info.id ==> !old(t)@.pids.contains(snapshot@[j].pid)
                || snapshot@[j].layer != 0 || snapshot@[j].ax_role == AxRole::Sheet,
    ensures
        ({
            let w = snapshot@[i];
            let now = final(t)@.live[w.info.id];
            if old(t)@.live.contains_key(w.info.id) {
                let before = old(t)@.live[w.info.id];
                &&& now.pid == before.pid
                &&& w.minimized ==> now.last_unminimized_size == before.last_unminimized_size
            } else {
                &&& now.pid == w.pid
                &&& now.last_unminimized_size == (w.info.width, w.info.height)
            }
        }),
{
    let ours = ours_of(t@.pids, snapshot@);
    let w = snapshot@[i];
    let id = w.info.id;
    let kept = t@.live.remove_keys(gone_ids(t@.live, ours));
    latest_sighting(t@.pids, snapshot@, i);
    earliest_sighting(t@.pids, snapshot@, i);
    one_sighting(t@.pids, snapshot@, i);
    seen_earliest(ours, id);
    record_once_opened(kept, ours, id);
    record_once_updated(live_opened(kept, ours), ours, id);
}

/// After a snapshot no window is tracked that the snapshot does not announce,
/// and the shared applications are the same.
pub proof fn only_seen_windows_are_tracked(
    t: &mut AppTracker,
    snapshot: Vec<SnapshotWindow>,
    events: Vec<TrackerEvent>,
    id: WindowId,
)
    requires
        call_ensures(AppTracker::diff, (t, snapshot), events),
    ensures
        final(t)@.pids == old(t)@.pids,
        final(t)@.live.contains_key(id) <==> exists|i: int|
            0 <= i < snapshot@.len() && (#[trigger] snapshot@[i]).info.id == id && old(
                t,
            )@.pids.contains(snapshot@[i].pid) && snapshot@[i].layer == 0 && snapshot@[i].ax_role
                != AxRole::Sheet,
{
    let ours = ours_of(t@.pids, snapshot@);
    let kept = t@.live.remove_keys(gone_ids(t@.live, ours));
    seen_earliest(ours, id);
    record_once_opened(kept, ours, id);
    record_once_updated(live_opened(kept, ours), ours, id);
    if earliest(ours, id) is Some {
        let i = earliest_is_there(t@.pids, snapshot@, id);
        assert(snapshot@[i].info.id == id);
    }
    if exists|i: int|
        0 <= i < snapshot@.len() && (#[trigger] snapshot@[i]).info.id == id && is_ours(
            t@.pids,
            snapshot@[i],
        ) {
        let i = choose|i: int|
            0 <= i < snapshot@.len() && (#[trigger] snapshot@[i]).info.id == id && is_ours(
                t@.pids,
                snapshot@[i],
            );
        one_is_seen(t@.pids, snapshot@, i);
    }
}

/// An application that is no longer shared takes its windows with it and no
/// others: those are named, in ascending order, and every other record is
/// left as it is.
pub proof fn removal_takes_its_windows_only(
    t: &mut AppTracker,
    pid: i32,
    ids: Vec<WindowId>,
    id: WindowId,
    other: i32,
)
    requires
        call_ensures(AppTracker::remove_pid, (t, pid), ids),
    ensures
        final(t)@.pids.contains(other) <==> old(t)@.pids.contains(other) && other != pid,
        ids@.contains(id) <==> old(t)@.live.contains_key(id) && old(t)@.live[id].pid == pid,
        final(t)@.live.contains_key(id) <==> old(t)@.live.contains_key(id) && old(t)@.live[id].pid
            != pid,
        final(t)@.live.contains_key(id) ==> final(t)@.live[id] == old(t)@.live[id],
        forall|a: int, b: int| 0 <= a < b < ids@.len() ==> ids@[a] < ids@[b],
{
    list_exists(ids_of_pid(t@.live, pid));
}

/// What a tracker says of a window's application is what it keeps, one window
/// at a time and all of them together.
pub proof fn applications_are_known(
    t: &AppTracker,
    id: WindowId,
    pid: Option<i32>,
    all: HashMap<WindowId, i32>,
)
    requires
        call_ensures(AppTracker::pid_of, (t, id), pid),
        call_ensures(AppTracker::pid_map, (t,), all),
    ensures
        pid is Some <==> t@.live.contains_key(id),
        pid is Some ==> pid->0 == t@.live[id].pid,
        all@.contains_key(id) <==> t@.live.contains_key(id),
        all@.contains_key(id) ==> all@[id] == t@.live[id].pid,
{
}

/// A new tracker shares what it is told to and tracks no window.
pub proof fn new_tracker_shares_what_it_is_told(
    pids: &[i32],
    fresh: AppTracker,
    id: WindowId,
    p: i32,
)
    requires
        call_ensures(AppTracker::new, (pids,), fresh),
    ensures
        !fresh@.live.contains_key(id),
        fresh@.pids.contains(p) <==> pids@.contains(p),
{
    assert(forall|q: i32| fresh@.pids.contains(q) <==> pids@.contains(q));
}

} // verus!
