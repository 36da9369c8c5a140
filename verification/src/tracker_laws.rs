//! What holds of the window tracker across snapshots.

use crate::classify::kind_of;
use crate::ids::{in_order, list_exists, listed, lists};
use crate::model::SnapshotWindow;
use crate::protocol::{WindowId, WindowKind};
use crate::scalar::Scalar;
use crate::tracker::{
    changes, closings, diff_events, diff_live, gone_ids, ids_of_pid, is_ours, live_opened, live_updated,
    opening, openings, ours_of, same_size, seen, size_of_window, updated, updates, LiveWindow,
    TrackerEvent, TrackerView,
};
use vstd::prelude::*;

verus! {

proof fn opened_dom(live: Map<WindowId, LiveWindow>, ours: Seq<SnapshotWindow>)
    ensures
        forall|id: WindowId| #[trigger]
            live_opened(live, ours).contains_key(id) <==> live.contains_key(id) || seen(ours, id),
        forall|id: WindowId|
            live.contains_key(id) ==> #[trigger] live_opened(live, ours)[id] == live[id],
    decreases ours.len(),
{
    if ours.len() > 0 {
        let rest = ours.drop_last();
        opened_dom(live, rest);
        seen_extends(ours);
        let before = live_opened(live, rest);
        let after = live_opened(live, ours);
        assert forall|id: WindowId| #[trigger] after.contains_key(id) <==> live.contains_key(id)
            || seen(ours, id) by {
            assert(before.contains_key(id) <==> live.contains_key(id) || seen(rest, id));
        }
        assert forall|id: WindowId| live.contains_key(id) implies #[trigger] after[id]
            == live[id] by {
            assert(before.contains_key(id));
            assert(before[id] == live[id]);
        }
    }
}

proof fn seen_extends(ours: Seq<SnapshotWindow>)
    requires
        ours.len() > 0,
    ensures
        forall|id: WindowId| #[trigger]
            seen(ours, id) <==> seen(ours.drop_last(), id) || ours.last().info.id == id,
{
    let rest = ours.drop_last();
    assert forall|id: WindowId| #[trigger] seen(ours, id) <==> seen(rest, id) || ours.last().info.id
        == id by {
        if seen(ours, id) {
            let i = choose|i: int| 0 <= i < ours.len() && (#[trigger] ours[i]).info.id == id;
            if i < rest.len() {
                assert(rest[i].info.id == id);
            }
        }
        if seen(rest, id) {
            let i = choose|i: int| 0 <= i < rest.len() && (#[trigger] rest[i]).info.id == id;
            assert(ours[i].info.id == id);
        }
        assert(ours[ours.len() - 1] == ours.last());
    }
}

proof fn updated_dom(live: Map<WindowId, LiveWindow>, ours: Seq<SnapshotWindow>)
    ensures
        live_updated(live, ours).dom() == live.dom(),
    decreases ours.len(),
{
    if ours.len() > 0 {
        updated_dom(live, ours.drop_last());
        assert(live_updated(live, ours).dom() =~= live.dom());
    }
}

/// After a snapshot the live windows are exactly its announced ones.
pub proof fn live_is_what_was_seen(t: TrackerView, snapshot: Seq<SnapshotWindow>)
    ensures
        forall|id: WindowId| #[trigger]
            diff_live(t, snapshot).contains_key(id) <==> seen(ours_of(t.pids, snapshot), id),
{
    let ours = ours_of(t.pids, snapshot);
    let kept = t.live.remove_keys(gone_ids(t.live, ours));
    opened_dom(kept, ours);
    updated_dom(live_opened(kept, ours), ours);
    assert forall|id: WindowId| #[trigger]
        diff_live(t, snapshot).contains_key(id) <==> seen(ours, id) by {
        assert(diff_live(t, snapshot).dom().contains(id) <==> live_opened(
            kept,
            ours,
        ).contains_key(id));
    }
}

proof fn ours_are_ours(pids: Set<i32>, s: Seq<SnapshotWindow>)
    ensures
        forall|i: int|
            0 <= i < ours_of(pids, s).len() ==> is_ours(pids, #[trigger] ours_of(pids, s)[i]),
        ours_of(pids, ours_of(pids, s)) == ours_of(pids, s),
    decreases s.len(),
{
    if s.len() > 0 {
        ours_are_ours(pids, s.drop_last());
        let before = ours_of(pids, s.drop_last());
        if is_ours(pids, s.last()) {
            assert(before.push(s.last()).drop_last() =~= before);
        }
    }
}

/// Windows of applications that are not shared, sheets and transients never
/// make an event and are never tracked: a snapshot has the effect of its
/// announced windows alone, and those are normal windows of shared
/// applications.
pub proof fn only_announced_windows_count(t: TrackerView, snapshot: Seq<SnapshotWindow>)
    ensures
        diff_events(t, snapshot) == diff_events(t, ours_of(t.pids, snapshot)),
        diff_live(t, snapshot) == diff_live(t, ours_of(t.pids, snapshot)),
        forall|i: int|
            0 <= i < ours_of(t.pids, snapshot).len() ==> {
                let w = #[trigger] ours_of(t.pids, snapshot)[i];
                &&& t.pids.contains(w.pid)
                &&& kind_of(w.layer, w.ax_role) == WindowKind::Normal
            },
{
    ours_are_ours(t.pids, snapshot);
}

/// The windows of a snapshot that are not of one application.
pub open spec fn except_pid(snapshot: Seq<SnapshotWindow>, pid: i32) -> Seq<SnapshotWindow>
    decreases snapshot.len(),
{
    if snapshot.len() == 0 {
        Seq::empty()
    } else {
        let before = except_pid(snapshot.drop_last(), pid);
        if snapshot.last().pid == pid {
            before
        } else {
            before.push(snapshot.last())
        }
    }
}

proof fn ours_without(pids: Set<i32>, pid: i32, s: Seq<SnapshotWindow>)
    requires
        !pids.contains(pid),
    ensures
        ours_of(pids, s) == ours_of(pids, except_pid(s, pid)),
    decreases s.len(),
{
    if s.len() > 0 {
        let rest = s.drop_last();
        ours_without(pids, pid, rest);
        if s.last().pid != pid {
            assert(except_pid(s, pid).drop_last() =~= except_pid(rest, pid));
        }
    }
}

/// Once an application was removed, its windows make no events and are not
/// tracked: neither those still on screen nor their disappearing. Every
/// snapshot has the effect of its other applications' windows alone, and no
/// window of the application is left to disappear.
pub proof fn removed_application_is_silent(t: TrackerView, pid: i32, snapshot: Seq<SnapshotWindow>)
    ensures
        diff_events(t.without_pid(pid), snapshot) == diff_events(
            t.without_pid(pid),
            except_pid(snapshot, pid),
        ),
        diff_live(t.without_pid(pid), snapshot) == diff_live(
            t.without_pid(pid),
            except_pid(snapshot, pid),
        ),
        forall|id: WindowId| #[trigger]
            t.without_pid(pid).live.contains_key(id) ==> t.without_pid(pid).live[id].pid != pid,
{
    ours_without(t.without_pid(pid).pids, pid, snapshot);
}

/// Removing an application keeps the tracker's invariant.
pub proof fn removal_keeps_wf(t: TrackerView, pid: i32)
    requires
        t.wf(),
    ensures
        t.without_pid(pid).wf(),
{
}

/// Removing an application that is not shared changes nothing and forgets no
/// window.
pub proof fn removing_a_stranger_changes_nothing(t: TrackerView, pid: i32)
    requires
        t.wf(),
        !t.pids.contains(pid),
    ensures
        t.without_pid(pid) == t,
        in_order(ids_of_pid(t.live, pid)) == Seq::<WindowId>::empty(),
{
    nothing_listed(ids_of_pid(t.live, pid));
    assert(t.without_pid(pid).pids =~= t.pids);
    assert(t.without_pid(pid).live =~= t.live);
}

proof fn nothing_listed(ids: Set<WindowId>)
    requires
        forall|id: WindowId| !ids.contains(id),
    ensures
        in_order(ids) == Seq::<WindowId>::empty(),
        closings(in_order(ids)) == Seq::<TrackerEvent>::empty(),
{
    assert(lists(Seq::<WindowId>::empty(), ids));
    listed(Seq::<WindowId>::empty(), ids);
    assert(closings(in_order(ids)) =~= Seq::<TrackerEvent>::empty());
}

proof fn opened_wf(pids: Set<i32>, live: Map<WindowId, LiveWindow>, ours: Seq<SnapshotWindow>)
    requires
        (TrackerView { pids, live }).wf(),
        forall|i: int| 0 <= i < ours.len() ==> is_ours(pids, #[trigger] ours[i]),
    ensures
        (TrackerView { pids, live: live_opened(live, ours) }).wf(),
    decreases ours.len(),
{
    if ours.len() > 0 {
        let rest = ours.drop_last();
        assert forall|i: int| 0 <= i < rest.len() implies is_ours(pids, #[trigger] rest[i]) by {
            assert(rest[i] == ours[i]);
        }
        opened_wf(pids, live, rest);
        assert(is_ours(pids, ours[ours.len() - 1]));
        let before = TrackerView { pids, live: live_opened(live, ours.drop_last()) };
        let after = TrackerView { pids, live: live_opened(live, ours) };
        let w = ours.last();
        assert forall|id: WindowId| #[trigger] after.live.contains_key(id) implies {
            &&& after.live[id].info.id == id
            &&& pids.contains(after.live[id].pid)
            &&& !after.live[id].minimized ==> after.live[id].last_unminimized_size
                == size_of_window(after.live[id].info)
        } by {
            if before.live.contains_key(w.info.id) || id != w.info.id {
                assert(before.live.contains_key(id));
            }
        }
    }
}

proof fn updated_wf(pids: Set<i32>, live: Map<WindowId, LiveWindow>, ours: Seq<SnapshotWindow>)
    requires
        (TrackerView { pids, live }).wf(),
    ensures
        (TrackerView { pids, live: live_updated(live, ours) }).wf(),
    decreases ours.len(),
{
    if ours.len() > 0 {
        updated_wf(pids, live, ours.drop_last());
        let before = TrackerView { pids, live: live_updated(live, ours.drop_last()) };
        let after = TrackerView { pids, live: live_updated(live, ours) };
        let w = ours.last();
        assert forall|id: WindowId| #[trigger] after.live.contains_key(id) implies {
            &&& after.live[id].info.id == id
            &&& pids.contains(after.live[id].pid)
            &&& !after.live[id].minimized ==> after.live[id].last_unminimized_size
                == size_of_window(after.live[id].info)
        } by {
            assert(before.live.contains_key(id));
        }
    }
}

/// A snapshot keeps the tracker's invariant.
pub proof fn diff_keeps_wf(t: TrackerView, snapshot: Seq<SnapshotWindow>)
    requires
        t.wf(),
    ensures
        (TrackerView { pids: t.pids, live: diff_live(t, snapshot) }).wf(),
{
    let ours = ours_of(t.pids, snapshot);
    let kept = t.live.remove_keys(gone_ids(t.live, ours));
    ours_are_ours(t.pids, snapshot);
    opened_wf(t.pids, kept, ours);
    updated_wf(t.pids, live_opened(kept, ours), ours);
}

/// Two sightings of a window that differ at most in where it stands.
pub open spec fn only_moved(a: SnapshotWindow, b: SnapshotWindow) -> bool {
    &&& a.info.id == b.info.id
    &&& a.info.title@ == b.info.title@
    &&& a.minimized == b.minimized
    &&& !a.minimized ==> same_size(size_of_window(a.info), size_of_window(b.info))
}

/// A record that a sighting has nothing new for.
spec fn up_to_date(t: LiveWindow, w: SnapshotWindow) -> bool {
    &&& t.minimized == w.minimized
    &&& t.info.title@ == w.info.title@
    &&& !w.minimized ==> same_size(size_of_window(w.info), size_of_window(t.info))
}

proof fn all_up_to_date(
    live: Map<WindowId, LiveWindow>,
    ours: Seq<SnapshotWindow>,
    k: int,
    all: Seq<SnapshotWindow>,
)
    requires
        0 <= k <= ours.len(),
        all.len() == ours.len(),
        forall|i: int, j: int|
            #![trigger ours[i], all[j]]
            0 <= i < ours.len() && 0 <= j < all.len() && ours[i].info.id == all[j].info.id
                ==> only_moved(ours[i], all[j]),
    ensures
        forall|j: int|
            #![trigger all[j]]
            0 <= j < all.len() && seen(ours.take(k), all[j].info.id) && live_updated(
                live,
                ours.take(k),
            ).contains_key(all[j].info.id) ==> up_to_date(
                live_updated(live, ours.take(k))[all[j].info.id],
                all[j],
            ),
        forall|id: WindowId|
            #![trigger live_updated(live, ours.take(k))[id]]
            !seen(ours.take(k), id) ==> live_updated(live, ours.take(k))[id] == live[id],
    decreases k,
{
    let now = ours.take(k);
    if k > 0 {
        let rest = ours.take(k - 1);
        assert(now.drop_last() =~= rest);
        assert(now.last() == ours[k - 1]);
        all_up_to_date(live, ours, k - 1, all);
        seen_extends(now);
        assert forall|j: int|
            #![trigger all[j]]
            0 <= j < all.len() && seen(now, all[j].info.id) && live_updated(
                live,
                now,
            ).contains_key(all[j].info.id) implies up_to_date(
            live_updated(live, now)[all[j].info.id],
            all[j],
        ) by {
            if all[j].info.id == ours[k - 1].info.id {
                assert(only_moved(ours[k - 1], all[j]));
                let before = live_updated(live, rest);
                assert(live_updated(live, now)[all[j].info.id] == updated(
                    before[all[j].info.id],
                    ours[k - 1],
                ));
            }
        }
        assert forall|id: WindowId|
            #![trigger live_updated(live, now)[id]]
            !seen(now, id) implies live_updated(live, now)[id] == live[id] by {
            assert(!seen(rest, id));
            assert(live_updated(live, rest)[id] == live[id]);
        }
    }
}

proof fn up_to_date_is_silent(
    live: Map<WindowId, LiveWindow>,
    ours: Seq<SnapshotWindow>,
    k: int,
)
    requires
        0 <= k <= ours.len(),
        forall|i: int| 0 <= i < ours.len() ==> live.contains_key((#[trigger] ours[i]).info.id),
        forall|i: int|
            0 <= i < ours.len() ==> up_to_date(live[(#[trigger] ours[i]).info.id], ours[i]),
        forall|i: int, j: int|
            #![trigger ours[i], ours[j]]
            0 <= i < ours.len() && 0 <= j < ours.len() && ours[i].info.id == ours[j].info.id
                ==> only_moved(ours[i], ours[j]),
    ensures
        updates(live, ours.take(k)) == Seq::<TrackerEvent>::empty(),
        openings(live, ours.take(k)) == Seq::<TrackerEvent>::empty(),
        live_opened(live, ours.take(k)) == live,
    decreases k,
{
    let now = ours.take(k);
    if k > 0 {
        let rest = ours.take(k - 1);
        assert(now.drop_last() =~= rest);
        let w = ours[k - 1];
        assert(now.last() == w);
        up_to_date_is_silent(live, ours, k - 1);
        all_up_to_date(live, ours, k - 1, ours);
        updated_dom(live, rest);
        let before = live_updated(live, rest);
        assert(live.dom().contains(w.info.id));
        assert(before.contains_key(w.info.id));
        assert(up_to_date(before[w.info.id], w));
        assert(changes(before[w.info.id], w) =~= Seq::<TrackerEvent>::empty());
        assert(updates(live, now) =~= Seq::<TrackerEvent>::empty());
    }
}

/// Moving windows makes no events: a second snapshot whose announced windows
/// differ from the first one's at most in where they stand says nothing.
pub proof fn moves_are_silent(t: TrackerView, first: Seq<SnapshotWindow>, second: Seq<SnapshotWindow>)
    requires
        ours_of(t.pids, first).len() == ours_of(t.pids, second).len(),
        forall|i: int|
            #![trigger ours_of(t.pids, second)[i]]
            0 <= i < ours_of(t.pids, first).len() ==> only_moved(
                ours_of(t.pids, first)[i],
                ours_of(t.pids, second)[i],
            ),
        // A window listed twice is listed with one title, size and state.
        forall|i: int, j: int|
            #![trigger ours_of(t.pids, first)[i], ours_of(t.pids, first)[j]]
            0 <= i < ours_of(t.pids, first).len() && 0 <= j < ours_of(t.pids, first).len()
                && ours_of(t.pids, first)[i].info.id == ours_of(t.pids, first)[j].info.id
                ==> only_moved(ours_of(t.pids, first)[i], ours_of(t.pids, first)[j]),
    ensures
        diff_events(
            (TrackerView { pids: t.pids, live: diff_live(t, first) }),
            second,
        ) == Seq::<TrackerEvent>::empty(),
{
    let a = ours_of(t.pids, first);
    let b = ours_of(t.pids, second);
    let kept = t.live.remove_keys(gone_ids(t.live, a));
    let opened_live = live_opened(kept, a);
    let live = diff_live(t, first);
    let after = TrackerView { pids: t.pids, live };
    live_is_what_was_seen(t, first);
    assert forall|i: int, j: int|
        #![trigger a[i], b[j]]
        0 <= i < a.len() && 0 <= j < b.len() && a[i].info.id == b[j].info.id implies only_moved(
        a[i],
        b[j],
    ) by {
        assert(only_moved(a[j], b[j]));
        assert(only_moved(a[i], a[j]));
    }
    all_up_to_date(opened_live, a, a.len() as int, b);
    assert(a.take(a.len() as int) =~= a);
    assert forall|j: int| 0 <= j < b.len() implies up_to_date(
        live[(#[trigger] b[j]).info.id],
        b[j],
    ) && live.contains_key(b[j].info.id) by {
        assert(only_moved(a[j], b[j]));
        assert(seen(a, b[j].info.id));
    }
    assert forall|id: WindowId| seen(a, id) <==> seen(b, id) by {
        if seen(a, id) {
            let i = choose|i: int| 0 <= i < a.len() && (#[trigger] a[i]).info.id == id;
            assert(only_moved(a[i], b[i]));
        }
        if seen(b, id) {
            let i = choose|i: int| 0 <= i < b.len() && (#[trigger] b[i]).info.id == id;
            assert(only_moved(a[i], b[i]));
            assert(a[i].info.id == id);
        }
    }
    nothing_listed(gone_ids(live, b));
    assert(live.remove_keys(gone_ids(live, b)) =~= live);
    assert forall|i: int, j: int|
        #![trigger b[i], b[j]]
        0 <= i < b.len() && 0 <= j < b.len() && b[i].info.id == b[j].info.id implies only_moved(
        b[i],
        b[j],
    ) by {
        assert(only_moved(a[i], b[i]));
        assert(only_moved(a[j], b[j]));
        assert(only_moved(a[i], a[j]));
    }
    up_to_date_is_silent(live, b, b.len() as int);
    assert(b.take(b.len() as int) =~= b);
    assert(diff_events(after, second) =~= Seq::<TrackerEvent>::empty());
}

/// The same snapshot again says nothing. A window on screen whose size is no
/// number is excepted, since such a size differs from itself; so is a
/// window listed twice that is not listed the same.
pub proof fn repeated_snapshot_is_silent(t: TrackerView, snapshot: Seq<SnapshotWindow>)
    requires
        forall|i: int, j: int|
            #![trigger ours_of(t.pids, snapshot)[i], ours_of(t.pids, snapshot)[j]]
            0 <= i < ours_of(t.pids, snapshot).len() && 0 <= j < ours_of(t.pids, snapshot).len()
                && ours_of(t.pids, snapshot)[i].info.id == ours_of(t.pids, snapshot)[j].info.id
                ==> only_moved(ours_of(t.pids, snapshot)[i], ours_of(t.pids, snapshot)[j]),
    ensures
        diff_events(
            (TrackerView { pids: t.pids, live: diff_live(t, snapshot) }),
            snapshot,
        ) == Seq::<TrackerEvent>::empty(),
{
    let ours = ours_of(t.pids, snapshot);
    assert forall|i: int|
        #![trigger ours_of(t.pids, snapshot)[i]]
        0 <= i < ours.len() implies only_moved(ours[i], ours_of(t.pids, snapshot)[i]) by {
        assert(ours[i].info.id == ours_of(t.pids, snapshot)[i].info.id);
    }
    moves_are_silent(t, snapshot, snapshot);
}

/// What a client shows of a window.
pub ghost struct Picture {
    pub title: Seq<char>,
    pub minimized: bool,
    pub size: (Scalar, Scalar),
}

/// What a client shows after one more event.
pub open spec fn shown(pictures: Map<WindowId, Picture>, e: TrackerEvent) -> Map<
    WindowId,
    Picture,
> {
    match e {
        TrackerEvent::Opened { window } => pictures.insert(
            window.info.id,
            Picture {
                title: window.info.title@,
                minimized: false,
                size: size_of_window(window.info),
            },
        ),
        TrackerEvent::Closed { window_id } => pictures.remove(window_id),
        TrackerEvent::Minimized { window_id } => pictures.insert(
            window_id,
            (Picture { minimized: true, ..pictures[window_id] }),
        ),
        TrackerEvent::Restored { window_id } => pictures.insert(
            window_id,
            (Picture { minimized: false, ..pictures[window_id] }),
        ),
        TrackerEvent::Resized { window_id, width, height } => pictures.insert(
            window_id,
            (Picture { size: (width, height), ..pictures[window_id] }),
        ),
        TrackerEvent::TitleChanged { window_id, title } => pictures.insert(
            window_id,
            (Picture { title: title@, ..pictures[window_id] }),
        ),
    }
}

/// Whether an event makes sense to a client: it opens a window that is not
/// shown, or speaks of one that is.
pub open spec fn makes_sense(pictures: Map<WindowId, Picture>, e: TrackerEvent) -> bool {
    match e {
        TrackerEvent::Opened { window } => !pictures.contains_key(window.info.id),
        TrackerEvent::Closed { window_id } => pictures.contains_key(window_id),
        TrackerEvent::Minimized { window_id } => pictures.contains_key(window_id)
            && !pictures[window_id].minimized,
        TrackerEvent::Restored { window_id } => pictures.contains_key(window_id)
            && pictures[window_id].minimized,
        TrackerEvent::Resized { window_id, .. } => pictures.contains_key(window_id)
            && !pictures[window_id].minimized,
        TrackerEvent::TitleChanged { window_id, .. } => pictures.contains_key(window_id),
    }
}

pub open spec fn all_shown(pictures: Map<WindowId, Picture>, events: Seq<TrackerEvent>) -> Map<
    WindowId,
    Picture,
>
    decreases events.len(),
{
    if events.len() == 0 {
        pictures
    } else {
        shown(all_shown(pictures, events.drop_last()), events.last())
    }
}

pub open spec fn all_make_sense(
    pictures: Map<WindowId, Picture>,
    events: Seq<TrackerEvent>,
) -> bool
    decreases events.len(),
{
    events.len() > 0 ==> {
        &&& all_make_sense(pictures, events.drop_last())
        &&& makes_sense(all_shown(pictures, events.drop_last()), events.last())
    }
}

/// One coordinate is shown as it is: the same encoding or the same number.
pub open spec fn same_shown(a: Scalar, b: Scalar) -> bool {
    a == b || a.same_number(b)
}

/// A client shows what is tracked: the same windows with their titles, state
/// and the size they had when last on screen.
pub open spec fn in_sync(
    pictures: Map<WindowId, Picture>,
    live: Map<WindowId, LiveWindow>,
) -> bool {
    &&& forall|id: WindowId| #[trigger] pictures.contains_key(id) <==> live.contains_key(id)
    &&& forall|id: WindowId| #[trigger]
        pictures.contains_key(id) ==> {
            &&& pictures[id].title == live[id].info.title@
            &&& pictures[id].minimized == live[id].minimized
            &&& same_shown(pictures[id].size.0, live[id].last_unminimized_size.0)
            &&& same_shown(pictures[id].size.1, live[id].last_unminimized_size.1)
        }
}

proof fn shown_concat(
    pictures: Map<WindowId, Picture>,
    a: Seq<TrackerEvent>,
    b: Seq<TrackerEvent>,
)
    ensures
        all_shown(pictures, a + b) == all_shown(all_shown(pictures, a), b),
        all_make_sense(pictures, a + b) <==> all_make_sense(pictures, a) && all_make_sense(
            all_shown(pictures, a),
            b,
        ),
    decreases b.len(),
{
    if b.len() == 0 {
        assert(a + b =~= a);
    } else {
        shown_concat(pictures, a, b.drop_last());
        assert((a + b).drop_last() =~= a + b.drop_last());
        assert((a + b).last() == b.last());
    }
}

proof fn shown_one(pictures: Map<WindowId, Picture>, e: TrackerEvent)
    ensures
        all_shown(pictures, seq![e]) == shown(pictures, e),
        all_make_sense(pictures, seq![e]) == makes_sense(pictures, e),
{
    let none = Seq::<TrackerEvent>::empty();
    assert(seq![e].drop_last() =~= none);
    assert(all_shown(pictures, none) == pictures);
    assert(all_make_sense(pictures, none));
}

proof fn closings_shown(pictures: Map<WindowId, Picture>, ids: Seq<WindowId>)
    requires
        forall|i: int| 0 <= i < ids.len() ==> pictures.contains_key(#[trigger] ids[i]),
        forall|i: int, j: int| 0 <= i < j < ids.len() ==> ids[i] < ids[j],
    ensures
        all_make_sense(pictures, closings(ids)),
        forall|id: WindowId| #[trigger]
            all_shown(pictures, closings(ids)).contains_key(id) <==> pictures.contains_key(id)
                && !ids.contains(id),
        forall|id: WindowId| #[trigger]
            all_shown(pictures, closings(ids)).contains_key(id) ==> all_shown(
                pictures,
                closings(ids),
            )[id] == pictures[id],
    decreases ids.len(),
{
    if ids.len() > 0 {
        let rest = ids.drop_last();
        assert forall|i: int| 0 <= i < rest.len() implies pictures.contains_key(
            #[trigger] rest[i],
        ) by {
            assert(rest[i] == ids[i]);
        }
        closings_shown(pictures, rest);
        assert(closings(ids).drop_last() =~= closings(rest));
        let last = ids.last();
        assert(!rest.contains(last));
        assert forall|id: WindowId| ids.contains(id) <==> rest.contains(id) || id == last by {
            if ids.contains(id) {
                let i = choose|i: int| 0 <= i < ids.len() && ids[i] == id;
                if i < rest.len() {
                    assert(rest[i] == id);
                }
            }
            if rest.contains(id) {
                let i = choose|i: int| 0 <= i < rest.len() && rest[i] == id;
                assert(ids[i] == id);
            }
            if id == last {
                assert(ids[ids.len() - 1] == id);
            }
        }
        assert(pictures.contains_key(ids[ids.len() - 1]));
    } else {
        assert(closings(ids) =~= Seq::<TrackerEvent>::empty());
    }
}

proof fn openings_shown(
    pictures: Map<WindowId, Picture>,
    live: Map<WindowId, LiveWindow>,
    ours: Seq<SnapshotWindow>,
)
    requires
        in_sync(pictures, live),
    ensures
        in_sync(all_shown(pictures, openings(live, ours)), live_opened(live, ours)),
        all_make_sense(pictures, openings(live, ours)),
    decreases ours.len(),
{
    if ours.len() > 0 {
        let rest = ours.drop_last();
        let w = ours.last();
        openings_shown(pictures, live, rest);
        let before = all_shown(pictures, openings(live, rest));
        if !live_opened(live, rest).contains_key(w.info.id) {
            shown_concat(pictures, openings(live, rest), opening(w));
            let e1 = TrackerEvent::Opened { window: w };
            shown_one(before, e1);
            if w.minimized {
                let e2 = TrackerEvent::Minimized { window_id: w.info.id };
                shown_one(shown(before, e1), e2);
                shown_concat(before, seq![e1], seq![e2]);
                assert(opening(w) =~= seq![e1] + seq![e2]);
            } else {
                assert(opening(w) =~= seq![e1]);
            }
        }
    }
}

proof fn changes_shown(pictures: Map<WindowId, Picture>, t: LiveWindow, w: SnapshotWindow)
    requires
        pictures.contains_key(w.info.id),
        pictures[w.info.id].title == t.info.title@,
        pictures[w.info.id].minimized == t.minimized,
        same_shown(pictures[w.info.id].size.0, t.last_unminimized_size.0),
        same_shown(pictures[w.info.id].size.1, t.last_unminimized_size.1),
        !t.minimized ==> t.last_unminimized_size == size_of_window(t.info),
    ensures
        all_make_sense(pictures, changes(t, w)),
        ({
            let after = all_shown(pictures, changes(t, w));
            let now = updated(t, w);
            let id = w.info.id;
            &&& forall|other: WindowId| #[trigger]
                after.contains_key(other) <==> pictures.contains_key(other)
            &&& forall|other: WindowId|
                other != id && pictures.contains_key(other) ==> #[trigger] after[other]
                    == pictures[other]
            &&& after[id].title == now.info.title@
            &&& after[id].minimized == now.minimized
            &&& same_shown(after[id].size.0, now.last_unminimized_size.0)
            &&& same_shown(after[id].size.1, now.last_unminimized_size.1)
        }),
{
    let id = w.info.id;
    let none = Seq::<TrackerEvent>::empty();
    assert(all_shown(pictures, none) == pictures);
    assert(all_make_sense(pictures, none));
    let resized = TrackerEvent::Resized {
        window_id: id,
        width: w.info.width,
        height: w.info.height,
    };
    let minimized = TrackerEvent::Minimized { window_id: id };
    let restored = TrackerEvent::Restored { window_id: id };
    let titled = TrackerEvent::TitleChanged { window_id: id, title: w.info.title };
    let same_title = w.info.title@ == t.info.title@;
    let tail = if same_title {
        none
    } else {
        seq![titled]
    };
    let size = size_of_window(w.info);
    let head = if w.minimized && !t.minimized {
        seq![minimized]
    } else if !w.minimized && t.minimized {
        if same_size(size, t.last_unminimized_size) {
            seq![restored] + none
        } else {
            seq![restored] + seq![resized]
        }
    } else if !w.minimized && !same_size(size, size_of_window(t.info)) {
        seq![resized]
    } else {
        none
    };
    assert(changes(t, w) == head + tail);
    shown_concat(pictures, head, tail);
    shown_one(pictures, minimized);
    shown_one(pictures, restored);
    shown_one(pictures, resized);
    shown_one(shown(pictures, restored), resized);
    shown_concat(pictures, seq![restored], seq![resized]);
    assert(seq![restored] + none =~= seq![restored]);
    let mid = all_shown(pictures, head);
    assert(all_make_sense(pictures, head));
    assert(mid.contains_key(id));
    assert(all_shown(mid, none) == mid);
    assert(all_make_sense(mid, none));
    shown_one(mid, titled);
}

proof fn updates_shown(
    pids: Set<i32>,
    pictures: Map<WindowId, Picture>,
    live: Map<WindowId, LiveWindow>,
    ours: Seq<SnapshotWindow>,
)
    requires
        in_sync(pictures, live),
        (TrackerView { pids, live }).wf(),
    ensures
        in_sync(all_shown(pictures, updates(live, ours)), live_updated(live, ours)),
        all_make_sense(pictures, updates(live, ours)),
    decreases ours.len(),
{
    if ours.len() > 0 {
        let rest = ours.drop_last();
        let w = ours.last();
        let id = w.info.id;
        updates_shown(pids, pictures, live, rest);
        updated_wf(pids, live, rest);
        let before = all_shown(pictures, updates(live, rest));
        let records = live_updated(live, rest);
        let none = Seq::<TrackerEvent>::empty();
        if records.contains_key(id) {
            shown_concat(pictures, updates(live, rest), changes(records[id], w));
            assert(before.contains_key(id));
            assert((TrackerView { pids, live: records }).live.contains_key(id));
            changes_shown(before, records[id], w);
            let after = all_shown(before, changes(records[id], w));
            let now = live_updated(live, ours);
            assert forall|other: WindowId| #[trigger]
                after.contains_key(other) implies after[other].title == now[other].info.title@
                && after[other].minimized == now[other].minimized && same_shown(
                after[other].size.0,
                now[other].last_unminimized_size.0,
            ) && same_shown(after[other].size.1, now[other].last_unminimized_size.1) by {
                assert(before.contains_key(other));
            }
        } else {
            assert(updates(live, ours) =~= updates(live, rest));
        }
    }
}

/// A client that follows the events shows what is tracked: when it did before
/// a snapshot, it does after it, and every event makes sense to it on the way.
pub proof fn client_stays_in_sync(
    t: TrackerView,
    pictures: Map<WindowId, Picture>,
    snapshot: Seq<SnapshotWindow>,
)
    requires
        t.wf(),
        in_sync(pictures, t.live),
    ensures
        in_sync(all_shown(pictures, diff_events(t, snapshot)), diff_live(t, snapshot)),
        all_make_sense(pictures, diff_events(t, snapshot)),
{
    let ours = ours_of(t.pids, snapshot);
    let gone = gone_ids(t.live, ours);
    let kept = t.live.remove_keys(gone);
    list_exists(gone);
    let ids = in_order(gone);
    assert forall|i: int| 0 <= i < ids.len() implies pictures.contains_key(#[trigger] ids[i]) by {
        assert(ids.contains(ids[i]));
        assert(gone.contains(ids[i]));
    }
    closings_shown(pictures, ids);
    let p1 = all_shown(pictures, closings(ids));
    assert(in_sync(p1, kept));
    openings_shown(p1, kept, ours);
    ours_are_ours(t.pids, snapshot);
    opened_wf(t.pids, kept, ours);
    let p2 = all_shown(p1, openings(kept, ours));
    updates_shown(t.pids, p2, live_opened(kept, ours), ours);
    shown_concat(pictures, closings(ids), openings(kept, ours));
    shown_concat(
        pictures,
        closings(ids) + openings(kept, ours),
        updates(live_opened(kept, ours), ours),
    );
}

} // verus!
