//! What the events of a snapshot tell of each single window.

use crate::ids::{in_order, list_exists};
use crate::model::{AxRole, SnapshotWindow};
use crate::protocol::WindowId;
use crate::scalar::Scalar;
use crate::tracker::{
    changes, closings, diff_events, gone_ids, is_ours, live_opened, live_updated, opening, openings,
    ours_of, same_size, seen, updates, AppTracker, LiveWindow, TrackerEvent,
};
use crate::tracking_laws::{
    earliest, earliest_is_there, earliest_sighting, latest, latest_sighting, once, one_is_seen,
    one_sighting, record_once_opened, record_once_updated, seen_earliest,
};
use vstd::prelude::*;

verus! {

/// The window that an event speaks of.
spec fn subject(e: TrackerEvent) -> WindowId {
    match e {
        TrackerEvent::Opened { window } => window.info.id,
        TrackerEvent::Closed { window_id } => window_id,
        TrackerEvent::Minimized { window_id } => window_id,
        TrackerEvent::Restored { window_id } => window_id,
        TrackerEvent::Resized { window_id, .. } => window_id,
        TrackerEvent::TitleChanged { window_id, .. } => window_id,
    }
}

proof fn in_either(a: Seq<TrackerEvent>, b: Seq<TrackerEvent>, e: TrackerEvent)
    ensures
        (a + b).contains(e) <==> a.contains(e) || b.contains(e),
{
    if (a + b).contains(e) {
        let k = choose|k: int| 0 <= k < (a + b).len() && (a + b)[k] == e;
        if k < a.len() {
            assert(a[k] == e);
        } else {
            assert(b[k - a.len()] == e);
        }
    }
    if a.contains(e) {
        let k = choose|k: int| 0 <= k < a.len() && a[k] == e;
        assert((a + b)[k] == e);
    }
    if b.contains(e) {
        let k = choose|k: int| 0 <= k < b.len() && b[k] == e;
        assert((a + b)[k + a.len()] == e);
    }
}

proof fn single(x: TrackerEvent, e: TrackerEvent)
    ensures
        seq![x].contains(e) <==> e == x,
        !Seq::<TrackerEvent>::empty().contains(e),
{
    assert(seq![x][0] == x);
}

proof fn closing_event(ids: Seq<WindowId>, e: TrackerEvent)
    ensures
        closings(ids).contains(e) <==> e is Closed && ids.contains(e->Closed_window_id),
{
    if closings(ids).contains(e) {
        let k = choose|k: int| 0 <= k < closings(ids).len() && closings(ids)[k] == e;
        assert(ids[k] == e->Closed_window_id);
    }
    if e is Closed && ids.contains(e->Closed_window_id) {
        let k = choose|k: int| 0 <= k < ids.len() && ids[k] == e->Closed_window_id;
        assert(closings(ids)[k] == e);
    }
}

/// The opening of a window tells this.
spec fn of_opening(w: SnapshotWindow, e: TrackerEvent) -> bool {
    ||| e == (TrackerEvent::Opened { window: w })
    ||| w.minimized && e == (TrackerEvent::Minimized { window_id: w.info.id })
}

proof fn opening_event(w: SnapshotWindow, e: TrackerEvent)
    ensures
        opening(w).contains(e) <==> of_opening(w, e),
{
    let head = seq![TrackerEvent::Opened { window: w }];
    let tail = if w.minimized {
        seq![TrackerEvent::Minimized { window_id: w.info.id }]
    } else {
        Seq::empty()
    };
    in_either(head, tail, e);
    single(TrackerEvent::Opened { window: w }, e);
    single(TrackerEvent::Minimized { window_id: w.info.id }, e);
}

proof fn openings_event(
    live: Map<WindowId, LiveWindow>,
    ours: Seq<SnapshotWindow>,
    e: TrackerEvent,
)
    ensures
        openings(live, ours).contains(e) <==> {
            &&& !live.contains_key(subject(e))
            &&& earliest(ours, subject(e)) is Some
            &&& of_opening(earliest(ours, subject(e))->0, e)
        },
    decreases ours.len(),
{
    if ours.len() > 0 {
        let rest = ours.drop_last();
        let w = ours.last();
        openings_event(live, rest, e);
        opening_event(w, e);
        in_either(openings(live, rest), opening(w), e);
        record_once_opened(live, rest, w.info.id);
        seen_earliest(rest, subject(e));
    } else {
        single(e, e);
    }
}

/// The changes of a window tell this.
spec fn of_changes(t: LiveWindow, w: SnapshotWindow, e: TrackerEvent) -> bool {
    let size = if t.minimized {
        t.last_unminimized_size
    } else {
        (t.info.width, t.info.height)
    };
    match e {
        TrackerEvent::Opened { window } => false,
        TrackerEvent::Closed { window_id } => false,
        TrackerEvent::Minimized { window_id } => window_id == w.info.id && w.minimized
            && !t.minimized,
        TrackerEvent::Restored { window_id } => window_id == w.info.id && !w.minimized
            && t.minimized,
        TrackerEvent::Resized { window_id, width, height } => {
            &&& window_id == w.info.id
            &&& !w.minimized
            &&& width == w.info.width
            &&& height == w.info.height
            &&& !(width.same_number(size.0) && height.same_number(size.1))
        },
        TrackerEvent::TitleChanged { window_id, title } => {
            &&& window_id == w.info.id
            &&& title == w.info.title
            &&& w.info.title@ != t.info.title@
        },
    }
}

proof fn changes_event(t: LiveWindow, w: SnapshotWindow, e: TrackerEvent)
    ensures
        changes(t, w).contains(e) <==> of_changes(t, w, e),
{
    let id = w.info.id;
    let none = Seq::<TrackerEvent>::empty();
    let resized = TrackerEvent::Resized {
        window_id: id,
        width: w.info.width,
        height: w.info.height,
    };
    let minimized = TrackerEvent::Minimized { window_id: id };
    let restored = TrackerEvent::Restored { window_id: id };
    let titled = TrackerEvent::TitleChanged { window_id: id, title: w.info.title };
    let size = (w.info.width, w.info.height);
    let late = if same_size(size, t.last_unminimized_size) {
        none
    } else {
        seq![resized]
    };
    let head = if w.minimized && !t.minimized {
        seq![minimized]
    } else if !w.minimized && t.minimized {
        seq![restored] + late
    } else if !w.minimized && !same_size(size, (t.info.width, t.info.height)) {
        seq![resized]
    } else {
        none
    };
    let tail = if w.info.title@ == t.info.title@ {
        none
    } else {
        seq![titled]
    };
    assert(changes(t, w) == head + tail);
    in_either(head, tail, e);
    in_either(seq![restored], late, e);
    single(minimized, e);
    single(restored, e);
    single(resized, e);
    single(titled, e);
}

proof fn updates_event(
    live: Map<WindowId, LiveWindow>,
    ours: Seq<SnapshotWindow>,
    e: TrackerEvent,
)
    ensures
        updates(live, ours).contains(e) ==> !(e is Opened) && !(e is Closed),
        earliest(ours, subject(e)) is None ==> !updates(live, ours).contains(e),
        latest(ours, subject(e)) is Some && once(ours, latest(ours, subject(e))->0)
            && live.contains_key(subject(e)) ==> (updates(live, ours).contains(e) <==> of_changes(
            live[subject(e)],
            latest(ours, subject(e))->0,
            e,
        )),
    decreases ours.len(),
{
    single(e, e);
    if ours.len() > 0 {
        let id = subject(e);
        let rest = ours.drop_last();
        let w = ours.last();
        updates_event(live, rest, e);
        let before = live_updated(live, rest);
        let new = if before.contains_key(w.info.id) {
            changes(before[w.info.id], w)
        } else {
            Seq::empty()
        };
        in_either(updates(live, rest), new, e);
        changes_event(before[w.info.id], w, e);
        record_once_updated(live, rest, id);
        seen_earliest(rest, id);
        seen_earliest(ours, id);
    }
}

proof fn event_of_a_snapshot(t: AppTracker, snapshot: Seq<SnapshotWindow>, e: TrackerEvent)
    ensures
        ({
            let ours = ours_of(t@.pids, snapshot);
            let gone = gone_ids(t@.live, ours);
            let kept = t@.live.remove_keys(gone);
            let now = live_opened(kept, ours);
            let id = subject(e);
            &&& diff_events(t@, snapshot).contains(e) <==> {
                ||| e is Closed && gone.contains(id)
                ||| openings(kept, ours).contains(e)
                ||| updates(now, ours).contains(e)
            }
            &&& openings(kept, ours).contains(e) <==> {
                &&& !kept.contains_key(id)
                &&& earliest(ours, id) is Some
                &&& of_opening(earliest(ours, id)->0, e)
            }
            &&& updates(now, ours).contains(e) ==> !(e is Opened) && !(e is Closed)
            &&& latest(ours, id) is Some && once(ours, latest(ours, id)->0) && now.contains_key(id)
                ==> (updates(now, ours).contains(e) <==> of_changes(
                now[id],
                latest(ours, id)->0,
                e,
            ))
        }),
{
    let ours = ours_of(t@.pids, snapshot);
    let gone = gone_ids(t@.live, ours);
    let kept = t@.live.remove_keys(gone);
    let now = live_opened(kept, ours);
    let (a, b, c) = (closings(in_order(gone)), openings(kept, ours), updates(now, ours));
    in_either(a + b, c, e);
    in_either(a, b, e);
    closing_event(in_order(gone), e);
    list_exists(gone);
    openings_event(kept, ours, e);
    updates_event(now, ours, e);
    assert(in_order(gone).contains(subject(e)) <==> gone.contains(subject(e)));
}

/// A snapshot closes exactly the windows that were tracked and that it does
/// not announce any more.
pub proof fn vanished_windows_are_closed(
    t: &mut AppTracker,
    snapshot: Vec<SnapshotWindow>,
    events: Vec<TrackerEvent>,
    id: WindowId,
)
    requires
        call_ensures(AppTracker::diff, (t, snapshot), events),
    ensures
        events@.contains(TrackerEvent::Closed { window_id: id }) <==> {
            &&& old(t)@.live.contains_key(id)
            &&& forall|i: int|
                0 <= i < snapshot@.len() && (#[trigger] snapshot@[i]).info.id == id ==> !old(
                    t,
                )@.pids.contains(snapshot@[i].pid) || snapshot@[i].layer != 0
                    || snapshot@[i].ax_role == AxRole::Sheet
        },
{
    let e = TrackerEvent::Closed { window_id: id };
    event_of_a_snapshot(*old(t), snapshot@, e);
    let ours = ours_of(t@.pids, snapshot@);
    seen_earliest(ours, id);
    if earliest(ours, id) is Some {
        let i = earliest_is_there(t@.pids, snapshot@, id);
        assert(snapshot@[i].info.id == id);
    }
    if exists|i: int|
        0 <= i < snapshot@.len() && (#[trigger] snapshot@[i]).info.id == id && is_ours(
            t@.pids,
            snapshot@[i],
        ) {
        let i = choose|i: int|
            0 <= i < snapshot@.len() && (#[trigger] snapshot@[i]).info.id == id && is_ours(
                t@.pids,
                snapshot@[i],
            );
        one_is_seen(t@.pids, snapshot@, i);
    }
}

/// A snapshot opens every announced window that was not tracked, as it is
/// seen first.
pub proof fn new_window_is_opened(
    t: &mut AppTracker,
    snapshot: Vec<SnapshotWindow>,
    events: Vec<TrackerEvent>,
    i: int,
)
    requires
        call_ensures(AppTracker::diff, (t, snapshot), events),
        0 <= i < snapshot@.len(),
        old(t)@.pids.contains(snapshot@[i].pid),
        snapshot@[i].layer == 0,
        snapshot@[i].ax_role != AxRole::Sheet,
        forall|j: int|
            0 <= j < i && (#[trigger] snapshot@[j]).info.id == snapshot@[i].info.id ==> !old(
                t,
            )@.pids.contains(snapshot@[j].pid) || snapshot@[j].layer != 0 || snapshot@[j].ax_role
                == AxRole::Sheet,
        !old(t)@.live.contains_key(snapshot@[i].info.id),
    ensures
        events@.contains(TrackerEvent::Opened { window: snapshot@[i] }),
{
    event_of_a_snapshot(*old(t), snapshot@, TrackerEvent::Opened { window: snapshot@[i] });
    earliest_sighting(t@.pids, snapshot@, i);
}

/// A snapshot opens nothing else: an opened window was not tracked and is an
/// announced one of the snapshot.
pub proof fn opened_window_is_new(
    t: &mut AppTracker,
    snapshot: Vec<SnapshotWindow>,
    events: Vec<TrackerEvent>,
    window: SnapshotWindow,
) -> (i: int)
    requires
        call_ensures(AppTracker::diff, (t, snapshot), events),
        events@.contains(TrackerEvent::Opened { window }),
    ensures
        !old(t)@.live.contains_key(window.info.id),
        0 <= i < snapshot@.len(),
        snapshot@[i] == window,
        old(t)@.pids.contains(window.pid),
        window.layer == 0,
        window.ax_role != AxRole::Sheet,
{
    let ours = ours_of(t@.pids, snapshot@);
    event_of_a_snapshot(*old(t), snapshot@, TrackerEvent::Opened { window });
    seen_earliest(ours, window.info.id);
    earliest_is_there(t@.pids, snapshot@, window.info.id)
}

/// What a snapshot tells of a window that was tracked and is seen once: that
/// it was minimized or restored, its new size once it is on screen with one
/// that differs from the size it had there, and its new title; each if and only
/// if it is so. Where it stands is not told, and it neither opens nor closes.
pub proof fn changes_of_a_window_are_told(
    t: &mut AppTracker,
    snapshot: Vec<SnapshotWindow>,
    events: Vec<TrackerEvent>,
    i: int,
    width: Scalar,
    height: Scalar,
    title: String,
    again: SnapshotWindow,
)
    requires
        call_ensures(AppTracker::diff, (t, snapshot), events),
        0 <= i < snapshot@.len(),
        old(t)@.pids.contains(snapshot@[i].pid),
        snapshot@[i].layer == 0,
        snapshot@[i].ax_role != AxRole::Sheet,
        forall|j: int|
            0 <= j < snapshot@.len() && j != i && (#[trigger] snapshot@[j]).info.id
                == snapshot@[i].info.id ==> !old(t)@.pids.contains(snapshot@[j].pid)
                || snapshot@[j].layer != 0 || snapshot@[j].ax_role == AxRole::Sheet,
        old(t)@.live.contains_key(snapshot@[i].info.id),
        again.info.id == snapshot@[i].info.id,
    ensures
        ({
            let w = snapshot@[i];
            let window_id = w.info.id;
            let before = old(t)@.live[window_id];
            let size = if before.minimized {
                before.last_unminimized_size
            } else {
                (before.info.width, before.info.height)
            };
            &&& events@.contains(TrackerEvent::Minimized { window_id }) <==> w.minimized
                && !before.minimized
            &&& events@.contains(TrackerEvent::Restored { window_id }) <==> !w.minimized
                && before.minimized
            &&& events@.contains(TrackerEvent::Resized { window_id, width, height }) <==> {
                &&& !w.minimized
                &&& width == w.info.width
                &&& height == w.info.height
                &&& !(width.same_number(size.0) && height.same_number(size.1))
            }
            &&& events@.contains(TrackerEvent::TitleChanged { window_id, title }) <==> title
                == w.info.title && w.info.title@ != before.info.title@
            &&& !events@.contains(TrackerEvent::Closed { window_id })
            &&& !events@.contains(TrackerEvent::Opened { window: again })
        }),
{
    let pids = t@.pids;
    let s = snapshot@;
    let w = s[i];
    let id = w.info.id;
    let ours = ours_of(pids, s);
    let kept = t@.live.remove_keys(gone_ids(t@.live, ours));
    latest_sighting(pids, s, i);
    one_sighting(pids, s, i);
    seen_earliest(ours, id);
    record_once_opened(kept, ours, id);
    let window_id = id;
    let e1 = TrackerEvent::Minimized { window_id };
    let e2 = TrackerEvent::Restored { window_id };
    let e3 = TrackerEvent::Resized { window_id, width, height };
    let e4 = TrackerEvent::TitleChanged { window_id, title };
    assert(kept.contains_key(id));
    event_of_a_snapshot(*old(t), s, e1);
    event_of_a_snapshot(*old(t), s, e2);
    event_of_a_snapshot(*old(t), s, e3);
    event_of_a_snapshot(*old(t), s, e4);
    event_of_a_snapshot(*old(t), s, TrackerEvent::Closed { window_id });
    event_of_a_snapshot(*old(t), s, TrackerEvent::Opened { window: again });
}

/// Closings come first, in ascending order of the windows, then the openings
/// and then the changes.
pub proof fn events_come_in_order(
    t: &mut AppTracker,
    snapshot: Vec<SnapshotWindow>,
    events: Vec<TrackerEvent>,
    a: int,
    b: int,
)
    requires
        call_ensures(AppTracker::diff, (t, snapshot), events),
        0 <= a < b < events@.len(),
    ensures
        events@[b] is Closed ==> events@[a] is Closed && events@[a]->Closed_window_id
            < events@[b]->Closed_window_id,
        events@[b] is Opened ==> !(events@[a] is Restored) && !(events@[a] is Resized) && !(
        events@[a] is TitleChanged),
{
    let ours = ours_of(t@.pids, snapshot@);
    let gone = gone_ids(t@.live, ours);
    let kept = t@.live.remove_keys(gone);
    list_exists(gone);
    let x = closings(in_order(gone));
    let y = openings(kept, ours);
    let z = updates(live_opened(kept, ours), ours);
    assert(events@ == x + y + z);
    let n = x.len() + y.len();
    if b < x.len() {
        assert(events@[a] == x[a] && events@[b] == x[b]);
    } else if b < n {
        assert(events@[b] == y[b - x.len()]);
        assert(y.contains(events@[b]));
        openings_event(kept, ours, events@[b]);
        if a >= x.len() {
            assert(events@[a] == y[a - x.len()]);
            assert(y.contains(events@[a]));
            openings_event(kept, ours, events@[a]);
        } else {
            assert(events@[a] == x[a]);
        }
    } else {
        assert(events@[b] == z[b - n]);
        assert(z.contains(events@[b]));
        updates_event(live_opened(kept, ours), ours, events@[b]);
    }
}

/// A window that is born minimized is told to be minimized once it is open;
/// no other new window is.
pub proof fn minimized_birth_is_told(
    t: &mut AppTracker,
    snapshot: Vec<SnapshotWindow>,
    events: Vec<TrackerEvent>,
    i: int,
    title: String,
)
    requires
        call_ensures(AppTracker::diff, (t, snapshot), events),
        0 <= i < snapshot@.len(),
        old(t)@.pids.contains(snapshot@[i].pid),
        snapshot@[i].layer == 0,
        snapshot@[i].ax_role != AxRole::Sheet,
        forall|j: int|
            0 <= j < snapshot@.len() && j != i && (#[trigger] snapshot@[j]).info.id
                == snapshot@[i].info.id ==> !old(t)@.pids.contains(snapshot@[j].pid)
                || snapshot@[j].layer != 0 || snapshot@[j].ax_role == AxRole::Sheet,
        !old(t)@.live.contains_key(snapshot@[i].info.id),
    ensures
        events@.contains(TrackerEvent::Minimized { window_id: snapshot@[i].info.id })
            <==> snapshot@[i].minimized,
        !events@.contains(TrackerEvent::Restored { window_id: snapshot@[i].info.id }),
        !events@.contains(
            TrackerEvent::TitleChanged { window_id: snapshot@[i].info.id, title },
        ),
{
    let pids = t@.pids;
    let s = snapshot@;
    let w = s[i];
    let id = w.info.id;
    let ours = ours_of(pids, s);
    let kept = t@.live.remove_keys(gone_ids(t@.live, ours));
    latest_sighting(pids, s, i);
    earliest_sighting(pids, s, i);
    one_sighting(pids, s, i);
    seen_earliest(ours, id);
    record_once_opened(kept, ours, id);
    event_of_a_snapshot(*old(t), s, TrackerEvent::Minimized { window_id: id });
    event_of_a_snapshot(*old(t), s, TrackerEvent::Restored { window_id: id });
    event_of_a_snapshot(*old(t), s, TrackerEvent::TitleChanged { window_id: id, title });
}

/// Where a window among `ours` stands in the snapshot.
proof fn seen_in_order(pids: Set<i32>, s: Seq<SnapshotWindow>, p: int, q: int) -> (at: (int, int))
    requires
        0 <= p < q < ours_of(pids, s).len(),
    ensures
        0 <= at.0 < at.1 < s.len(),
        s[at.0] == ours_of(pids, s)[p],
        s[at.1] == ours_of(pids, s)[q],
    decreases s.len(),
{
    let rest = s.drop_last();
    let before = ours_of(pids, rest);
    if q < before.len() {
        let at = seen_in_order(pids, rest, p, q);
        assert(rest[at.0] == s[at.0] && rest[at.1] == s[at.1]);
        at
    } else {
        let i = seen_at(pids, rest, p);
        assert(rest[i] == s[i]);
        (i, s.len() - 1)
    }
}

proof fn seen_at(pids: Set<i32>, s: Seq<SnapshotWindow>, p: int) -> (i: int)
    requires
        0 <= p < ours_of(pids, s).len(),
    ensures
        0 <= i < s.len(),
        s[i] == ours_of(pids, s)[p],
    decreases s.len(),
{
    let rest = s.drop_last();
    if p < ours_of(pids, rest).len() {
        let i = seen_at(pids, rest, p);
        assert(rest[i] == s[i]);
        i
    } else {
        s.len() - 1
    }
}

proof fn opened_at(
    live: Map<WindowId, LiveWindow>,
    ours: Seq<SnapshotWindow>,
    a: int,
) -> (p: int)
    requires
        0 <= a < openings(live, ours).len(),
        openings(live, ours)[a] is Opened,
    ensures
        0 <= p < ours.len(),
        openings(live, ours)[a]->window == ours[p],
        live_opened(live, ours).contains_key(ours[p].info.id),
    decreases ours.len(),
{
    let rest = ours.drop_last();
    let before = openings(live, rest);
    record_once_opened(live, rest, ours.last().info.id);
    if a < before.len() {
        let p = opened_at(live, rest, a);
        assert(rest[p] == ours[p]);
        p
    } else {
        assert(openings(live, ours)[a] == opening(ours.last())[a - before.len()]);
        ours.len() - 1
    }
}

proof fn opened_in_order(
    live: Map<WindowId, LiveWindow>,
    ours: Seq<SnapshotWindow>,
    a: int,
    b: int,
) -> (at: (int, int))
    requires
        0 <= a < b < openings(live, ours).len(),
        openings(live, ours)[a] is Opened,
        openings(live, ours)[b] is Opened,
    ensures
        0 <= at.0 < at.1 < ours.len(),
        openings(live, ours)[a]->window == ours[at.0],
        openings(live, ours)[b]->window == ours[at.1],
        ours[at.0].info.id != ours[at.1].info.id,
    decreases ours.len(),
{
    let rest = ours.drop_last();
    let before = openings(live, rest);
    let w = ours.last();
    if b < before.len() {
        let at = opened_in_order(live, rest, a, b);
        assert(rest[at.0] == ours[at.0] && rest[at.1] == ours[at.1]);
        at
    } else {
        assert(openings(live, ours)[b] == opening(w)[b - before.len()]);
        assert(b == before.len());
        let p = opened_at(live, rest, a);
        assert(rest[p] == ours[p]);
        (p, ours.len() - 1)
    }
}

/// Windows open in the order in which the snapshot shows them, front to back,
/// and none twice: of two openings the earlier one's window is seen earlier.
pub proof fn windows_open_front_to_back(
    t: &mut AppTracker,
    snapshot: Vec<SnapshotWindow>,
    events: Vec<TrackerEvent>,
    a: int,
    b: int,
) -> (at: (int, int))
    requires
        call_ensures(AppTracker::diff, (t, snapshot), events),
        0 <= a < b < events@.len(),
        events@[a] is Opened,
        events@[b] is Opened,
    ensures
        0 <= at.0 < at.1 < snapshot@.len(),
        events@[a]->window == snapshot@[at.0],
        events@[b]->window == snapshot@[at.1],
        snapshot@[at.0].info.id != snapshot@[at.1].info.id,
{
    let ours = ours_of(t@.pids, snapshot@);
    let gone = gone_ids(t@.live, ours);
    let kept = t@.live.remove_keys(gone);
    let x = closings(in_order(gone));
    let y = openings(kept, ours);
    let z = updates(live_opened(kept, ours), ours);
    assert(events@ == x + y + z);
    placed(x, y, z, a);
    placed(x, y, z, b);
    closing_event(in_order(gone), events@[a]);
    closing_event(in_order(gone), events@[b]);
    updates_event(live_opened(kept, ours), ours, events@[a]);
    updates_event(live_opened(kept, ours), ours, events@[b]);
    let n = x.len() as int;
    let pq = opened_in_order(kept, ours, a - n, b - n);
    seen_in_order(t@.pids, snapshot@, pq.0, pq.1)
}

proof fn placed(x: Seq<TrackerEvent>, y: Seq<TrackerEvent>, z: Seq<TrackerEvent>, a: int)
    requires
        0 <= a < (x + y + z).len(),
    ensures
        ({
            let e = (x + y + z)[a];
            let n = x.len() as int;
            ||| a < n && e == x[a] && x.contains(e)
            ||| n <= a < n + y.len() && e == y[a - n] && y.contains(e)
            ||| n + y.len() <= a && e == z[a - n - y.len()] && z.contains(e)
        }),
{
    let n = x.len() as int;
    if a < n {
        assert((x + y + z)[a] == x[a]);
    } else if a < n + y.len() {
        assert((x + y + z)[a] == y[a - n]);
    } else {
        assert((x + y + z)[a] == z[a - n - y.len()]);
    }
}

/// The changes of one window, seen once, as they are told.
proof fn told_in_order(
    live: Map<WindowId, LiveWindow>,
    ours: Seq<SnapshotWindow>,
    w: SnapshotWindow,
    a: int,
    b: int,
) -> (at: (int, int))
    requires
        once(ours, w),
        live.contains_key(w.info.id),
        0 <= a < b < updates(live, ours).len(),
        subject(updates(live, ours)[a]) == w.info.id,
        subject(updates(live, ours)[b]) == w.info.id,
    ensures
        0 <= at.0 < at.1 < changes(live[w.info.id], w).len(),
        changes(live[w.info.id], w)[at.0] == updates(live, ours)[a],
        changes(live[w.info.id], w)[at.1] == updates(live, ours)[b],
    decreases ours.len(),
{
    let id = w.info.id;
    let rest = ours.drop_last();
    let last = ours.last();
    let before = updates(live, rest);
    let all = updates(live, ours);
    let records = live_updated(live, rest);
    record_once_updated(live, rest, id);
    record_once_updated(live, rest, last.info.id);
    seen_earliest(rest, id);
    if last.info.id == id {
        let new = changes(records[id], w);
        assert(all == before + new);
        if a < before.len() {
            assert(all[a] == before[a]);
            assert(before.contains(before[a]));
            updates_event(live, rest, before[a]);
        }
        assert(all[a] == new[a - before.len()]);
        assert(all[b] == new[b - before.len()]);
        (a - before.len(), b - before.len())
    } else {
        let new = if records.contains_key(last.info.id) {
            changes(records[last.info.id], last)
        } else {
            Seq::empty()
        };
        assert(all == before + new);
        if b >= before.len() {
            assert(all[b] == new[b - before.len()]);
            assert(new.contains(all[b]));
            changes_event(records[last.info.id], last, all[b]);
        }
        assert(all[a] == before[a]);
        assert(all[b] == before[b]);
        told_in_order(live, rest, w, a, b)
    }
}

/// What changed of a window, seen once, is told in one order: that it was
/// minimized or restored, then its size, then its title.
pub proof fn changes_are_told_in_order(
    t: &mut AppTracker,
    snapshot: Vec<SnapshotWindow>,
    events: Vec<TrackerEvent>,
    i: int,
    a: int,
    b: int,
)
    requires
        call_ensures(AppTracker::diff, (t, snapshot), events),
        0 <= i < snapshot@.len(),
        old(t)@.pids.contains(snapshot@[i].pid),
        snapshot@[i].layer == 0,
        snapshot@[i].ax_role != AxRole::Sheet,
        forall|j: int|
            0 <= j < snapshot@.len() && j != i && (#[trigger] snapshot@[j]).info.id
                == snapshot@[i].info.id ==> !old(t)@.pids.contains(snapshot@[j].pid)
                || snapshot@[j].layer != 0 || snapshot@[j].ax_role == AxRole::Sheet,
        old(t)@.live.contains_key(snapshot@[i].info.id),
        0 <= a < b < events@.len(),
        ({
            let id = snapshot@[i].info.id;
            ||| events@[a] == (TrackerEvent::Minimized { window_id: id })
            ||| events@[a] == (TrackerEvent::Restored { window_id: id })
            ||| events@[a] is Resized && events@[a]->Resized_window_id == id
            ||| events@[a] is TitleChanged && events@[a]->TitleChanged_window_id == id
        }),
        ({
            let id = snapshot@[i].info.id;
            ||| events@[b] == (TrackerEvent::Minimized { window_id: id })
            ||| events@[b] == (TrackerEvent::Restored { window_id: id })
            ||| events@[b] is Resized && events@[b]->Resized_window_id == id
            ||| events@[b] is TitleChanged && events@[b]->TitleChanged_window_id == id
        }),
    ensures
        events@[b] is Resized || events@[b] is TitleChanged,
        events@[b] is Resized ==> events@[a] is Restored,
        !(events@[a] is TitleChanged),
{
    let pids = t@.pids;
    let s = snapshot@;
    let w = s[i];
    let id = w.info.id;
    let ours = ours_of(pids, s);
    let gone = gone_ids(t@.live, ours);
    let kept = t@.live.remove_keys(gone);
    let now = live_opened(kept, ours);
    latest_sighting(pids, s, i);
    one_sighting(pids, s, i);
    seen_earliest(ours, id);
    record_once_opened(kept, ours, id);
    let x = closings(in_order(gone));
    let y = openings(kept, ours);
    let z = updates(now, ours);
    assert(events@ == x + y + z);
    placed(x, y, z, a);
    placed(x, y, z, b);
    closing_event(in_order(gone), events@[a]);
    closing_event(in_order(gone), events@[b]);
    openings_event(kept, ours, events@[a]);
    openings_event(kept, ours, events@[b]);
    assert(subject(events@[a]) == id && subject(events@[b]) == id);
    let n = x.len() + y.len();
    let at = told_in_order(now, ours, w, a - n, b - n);
    let c = changes(now[id], w);
    assert(c[at.0] == events@[a] && c[at.1] == events@[b]);
}

} // verus!
