//! What holds of a session across passes.

use crate::ids::{in_order, list_exists};
use crate::model::SnapshotWindow;
use crate::protocol::WindowId;
use crate::session::{
    ended, event_state, opened_state, stopping, track_name, track_names_differ, unsubscribed,
    without_all, SessionStep, SessionView,
};
use crate::tracker::{
    changes, closings, diff_events, diff_live, gone_ids, ids_of_pid, live_opened, live_updated, opening,
    openings, ours_of, seen, updates, LiveWindow, TrackerEvent, TrackerView,
};
use crate::tracker_laws::live_is_what_was_seen;
use vstd::prelude::*;

verus! {

/// An event keeps the session's invariant.
pub proof fn event_keeps_wf(v: SessionView, ev: TrackerEvent)
    requires
        v.wf(),
    ensures
        event_state(v, ev).wf(),
{
    if let TrackerEvent::Closed { window_id } = ev {
        without_keeps_wf(v, window_id);
    }
    if let TrackerEvent::Minimized { window_id } = ev {
        capture_keeps_wf(v, window_id, false);
    }
}

/// Starting or stopping a capture keeps the session's invariant.
pub proof fn capture_keeps_wf(v: SessionView, w: WindowId, capturing: bool)
    requires
        v.wf(),
    ensures
        v.with_capture(w, capturing).wf(),
{
}

/// An opened track keeps the session's invariant.
pub proof fn opening_keeps_wf(v: SessionView, window: SnapshotWindow)
    requires
        v.wf(),
    ensures
        opened_state(v, window).wf(),
{
    let after = opened_state(v, window);
    let id = window.info.id;
    assert forall|w: WindowId| #[trigger] after.runtimes.contains_key(w) implies {
        &&& after.runtimes[w].track == track_name(w)
        &&& after.window_of_track.contains_key(track_name(w))
        &&& after.window_of_track[track_name(w)] == w
    } by {
        if w != id {
            assert(v.runtimes.contains_key(w));
            if track_name(w) == track_name(id) {
                track_names_differ(w, id);
            }
        }
    }
}

/// Tearing a window down keeps the session's invariant.
pub proof fn without_keeps_wf(v: SessionView, id: WindowId)
    requires
        v.wf(),
    ensures
        v.without(id).wf(),
{
    let after = v.without(id);
    if v.runtimes.contains_key(id) {
        assert forall|w: WindowId| #[trigger] after.runtimes.contains_key(w) implies {
            &&& after.runtimes[w].track == track_name(w)
            &&& after.window_of_track.contains_key(track_name(w))
            &&& after.window_of_track[track_name(w)] == w
        } by {
            assert(v.runtimes.contains_key(w));
            if track_name(w) == track_name(id) {
                track_names_differ(w, id);
            }
        }
    }
}

/// Tearing several windows down keeps the invariant and leaves none of them.
pub proof fn without_all_keeps_wf(v: SessionView, ids: Seq<WindowId>)
    requires
        v.wf(),
    ensures
        without_all(v, ids).wf(),
        forall|w: WindowId| #[trigger]
            without_all(v, ids).runtimes.contains_key(w) <==> v.runtimes.contains_key(w)
                && !ids.contains(w),
    decreases ids.len(),
{
    if ids.len() > 0 {
        let rest = ids.drop_last();
        without_all_keeps_wf(v, rest);
        without_keeps_wf(without_all(v, rest), ids.last());
        assert forall|w: WindowId| ids.contains(w) <==> rest.contains(w) || w == ids.last() by {
            if ids.contains(w) {
                let i = choose|i: int| 0 <= i < ids.len() && ids[i] == w;
                if i < rest.len() {
                    assert(rest[i] == w);
                }
            }
            if rest.contains(w) {
                let i = choose|i: int| 0 <= i < rest.len() && rest[i] == w;
                assert(ids[i] == w);
            }
            if w == ids.last() {
                assert(ids[ids.len() - 1] == w);
            }
        }
        assert forall|w: WindowId| #[trigger]
            without_all(v, ids).runtimes.contains_key(w) <==> v.runtimes.contains_key(w)
                && !ids.contains(w) by {
            assert(without_all(v, rest).runtimes.contains_key(w) <==> v.runtimes.contains_key(w)
                && !rest.contains(w));
        }
    }
}

/// The end of a session keeps its invariant, and stops the capture and
/// encoder of exactly the windows that had them, once each.
pub proof fn shutdown_leaves_nothing(v: SessionView)
    ensures
        ended(v).wf(),
        forall|w: WindowId|
            #![trigger v.runtimes.contains_key(w)]
            v.runtimes.contains_key(w) <==> stopping(in_order(v.runtimes.dom())).contains(
                SessionStep::StopEncoder { window_id: w },
            ),
        stopping(in_order(v.runtimes.dom())).no_duplicates(),
{
    let ids = in_order(v.runtimes.dom());
    let done = stopping(ids);
    list_exists(v.runtimes.dom());
    assert forall|w: WindowId|
        #![trigger v.runtimes.contains_key(w)]
        v.runtimes.contains_key(w) <==> done.contains(
            SessionStep::StopEncoder { window_id: w },
        ) by {
        if v.runtimes.contains_key(w) {
            assert(v.runtimes.dom().contains(w));
            let i = choose|i: int| 0 <= i < ids.len() && ids[i] == w;
            assert(done[i] == (SessionStep::StopEncoder { window_id: w }));
        }
        if done.contains(SessionStep::StopEncoder { window_id: w }) {
            let i = choose|i: int|
                0 <= i < done.len() && done[i] == (SessionStep::StopEncoder { window_id: w });
            assert(ids.contains(ids[i]));
            assert(v.runtimes.dom().contains(w));
        }
    }
    assert forall|i: int, j: int| 0 <= i < j < done.len() implies done[i] != done[j] by {
        assert(ids[i] < ids[j]);
    }
}

/// An application that the client unsubscribed leaves no live window, capture,
/// encoder or track behind, and touches no other window's.
pub proof fn unsubscribed_app_leaves_nothing(v: SessionView, pid: i32)
    requires
        v.wf(),
    ensures
        ({
            let ids = in_order(ids_of_pid(v.tracker.live, pid));
            let after = without_all(unsubscribed(v, pid), ids);
            &&& after.wf()
            &&& !after.tracker.pids.contains(pid)
            &&& forall|w: WindowId|
                v.tracker.live.contains_key(w) && v.tracker.live[w].pid == pid ==> !(
                #[trigger] after.runtimes.contains_key(w))
            &&& forall|w: WindowId|
                !(v.tracker.live.contains_key(w) && v.tracker.live[w].pid == pid) ==> (
                #[trigger] after.runtimes.contains_key(w) <==> v.runtimes.contains_key(w))
            &&& forall|w: WindowId| #[trigger]
                after.tracker.live.contains_key(w) ==> after.tracker.live[w].pid != pid
        }),
{
    let ids = in_order(ids_of_pid(v.tracker.live, pid));
    let begun = unsubscribed(v, pid);
    list_exists(ids_of_pid(v.tracker.live, pid));
    without_all_keeps_wf(begun, ids);
    without_all_keeps_tracker(begun, ids);
}

proof fn without_all_keeps_tracker(v: SessionView, ids: Seq<WindowId>)
    ensures
        without_all(v, ids).tracker == v.tracker,
    decreases ids.len(),
{
    if ids.len() > 0 {
        without_all_keeps_tracker(v, ids.drop_last());
    }
}

/// A keyframe request on the track of a window with an encoder reaches that
/// window, and only such a request reaches one.
pub proof fn keyframe_request_finds_its_window(v: SessionView, w: WindowId, t: Seq<char>)
    requires
        v.wf(),
    ensures
        v.window_of_track.contains_key(t) && v.window_of_track[t] == w
            <==> v.runtimes.contains_key(w) && t == track_name(w),
{
}

/// The state after the first `k` events of a pass. `up` says of each event
/// whether what it asks for came about: the track of an opened window, or the
/// capture of a restored one.
pub open spec fn pass_state(
    v: SessionView,
    events: Seq<TrackerEvent>,
    up: spec_fn(int) -> bool,
    k: int,
) -> SessionView
    decreases k,
{
    if k <= 0 {
        v
    } else {
        let after = event_state(pass_state(v, events, up, k - 1), events[k - 1]);
        match events[k - 1] {
            TrackerEvent::Opened { window } => if up(k - 1) {
                opened_state(after, window)
            } else {
                after
            },
            TrackerEvent::Restored { window_id } => if up(k - 1) {
                after.with_capture(window_id, true)
            } else {
                after
            },
            _ => after,
        }
    }
}

/// A pass keeps the session's invariant.
pub proof fn pass_keeps_wf(
    v: SessionView,
    events: Seq<TrackerEvent>,
    up: spec_fn(int) -> bool,
    k: int,
)
    requires
        v.wf(),
    ensures
        pass_state(v, events, up, k).wf(),
        pass_state(v, events, up, k).tracker == v.tracker,
    decreases k,
{
    if k > 0 {
        pass_keeps_wf(v, events, up, k - 1);
        let before = pass_state(v, events, up, k - 1);
        event_keeps_wf(before, events[k - 1]);
        let after = event_state(before, events[k - 1]);
        match events[k - 1] {
            TrackerEvent::Opened { window } => {
                opening_keeps_wf(after, window);
            },
            TrackerEvent::Restored { window_id } => {
                capture_keeps_wf(after, window_id, true);
            },
            _ => {},
        }
    }
}

proof fn runtimes_come_from(
    v: SessionView,
    events: Seq<TrackerEvent>,
    up: spec_fn(int) -> bool,
    k: int,
    w: WindowId,
)
    requires
        0 <= k <= events.len(),
        pass_state(v, events, up, k).runtimes.contains_key(w),
    ensures
        (v.runtimes.contains_key(w) && forall|i: int|
            0 <= i < k ==> #[trigger] events[i] != (TrackerEvent::Closed { window_id: w })) || (
        exists|i: int| 0 <= i < k && is_opening(#[trigger] events[i], w)),
    decreases k,
{
    if k > 0 {
        let before = pass_state(v, events, up, k - 1);
        let e = events[k - 1];
        if is_opening(e, w) {
        } else {
            assert(before.runtimes.contains_key(w));
            runtimes_come_from(v, events, up, k - 1, w);
            if !exists|i: int| 0 <= i < k && is_opening(#[trigger] events[i], w) {
                assert forall|i: int| 0 <= i < k implies #[trigger] events[i] != (
                TrackerEvent::Closed { window_id: w }) by {
                    if i == k - 1 {
                        if e == (TrackerEvent::Closed { window_id: w }) {
                            assert(!event_state(before, e).runtimes.contains_key(w));
                        }
                    }
                }
            }
        }
    }
}

/// Whether an event opens a window of that id.
pub open spec fn is_opening(e: TrackerEvent, w: WindowId) -> bool {
    e is Opened && e->window.info.id == w
}

proof fn openings_are_seen(live: Map<WindowId, LiveWindow>, ours: Seq<SnapshotWindow>, i: int)
    requires
        0 <= i < openings(live, ours).len(),
    ensures
        openings(live, ours)[i] is Opened ==> seen(
            ours,
            openings(live, ours)[i]->window.info.id,
        ),
    decreases ours.len(),
{
    if ours.len() > 0 {
        let rest = ours.drop_last();
        let before = openings(live, rest);
        if i < before.len() {
            openings_are_seen(live, rest, i);
            assert(openings(live, ours)[i] == before[i]);
            if before[i] is Opened {
                let id = before[i]->window.info.id;
                let j = choose|j: int| 0 <= j < rest.len() && (#[trigger] rest[j]).info.id == id;
                assert(ours[j].info.id == id);
            }
        } else {
            let w = ours.last();
            assert(openings(live, ours)[i] == opening(w)[i - before.len()]);
            assert(ours[ours.len() - 1].info.id == w.info.id);
        }
    }
}

proof fn updates_open_nothing(live: Map<WindowId, LiveWindow>, ours: Seq<SnapshotWindow>, i: int)
    requires
        0 <= i < updates(live, ours).len(),
    ensures
        !(updates(live, ours)[i] is Opened),
    decreases ours.len(),
{
    if ours.len() > 0 {
        let rest = ours.drop_last();
        let before = updates(live, rest);
        if i < before.len() {
            updates_open_nothing(live, rest, i);
            assert(updates(live, ours)[i] == before[i]);
        } else {
            let w = ours.last();
            let t = live_updated(live, rest)[w.info.id];
            assert(updates(live, ours)[i] == changes(t, w)[i - before.len()]);
        }
    }
}

/// Captures never outlive their windows: when every window with a runtime is
/// live before a pass, it is so after it, whatever could be opened.
pub proof fn runtimes_are_of_live_windows(
    v: SessionView,
    snapshot: Seq<SnapshotWindow>,
    up: spec_fn(int) -> bool,
)
    requires
        v.wf(),
        forall|w: WindowId| #[trigger]
            v.runtimes.contains_key(w) ==> v.tracker.live.contains_key(w),
    ensures
        ({
            let events = diff_events(v.tracker, snapshot);
            let begun = SessionView {
                tracker: TrackerView {
                    pids: v.tracker.pids,
                    live: diff_live(v.tracker, snapshot),
                },
                busy: events.len() > 0,
                tracks_changed: false,
                ..v
            };
            let after = pass_state(begun, events, up, events.len() as int);
            &&& after.wf()
            &&& forall|w: WindowId| #[trigger]
                after.runtimes.contains_key(w) ==> after.tracker.live.contains_key(w)
        }),
{
    let t = v.tracker;
    let events = diff_events(t, snapshot);
    let begun = SessionView {
        tracker: TrackerView { pids: t.pids, live: diff_live(t, snapshot) },
        busy: events.len() > 0,
        tracks_changed: false,
        ..v
    };
    let n = events.len() as int;
    let after = pass_state(begun, events, up, n);
    pass_keeps_wf(begun, events, up, n);
    let ours = ours_of(t.pids, snapshot);
    let gone = gone_ids(t.live, ours);
    let kept = t.live.remove_keys(gone);
    let a = closings(in_order(gone));
    let b = openings(kept, ours);
    let c = updates(live_opened(kept, ours), ours);
    assert(events == a + b + c);
    live_is_what_was_seen(t, snapshot);
    list_exists(gone);
    assert forall|w: WindowId| #[trigger] after.runtimes.contains_key(w) implies diff_live(
        t,
        snapshot,
    ).contains_key(w) by {
        runtimes_come_from(begun, events, up, n, w);
        if exists|i: int| 0 <= i < n && is_opening(#[trigger] events[i], w) {
            let i = choose|i: int| 0 <= i < n && is_opening(#[trigger] events[i], w);
            if i < a.len() {
                assert(events[i] == a[i]);
            } else if i < a.len() + b.len() {
                assert(events[i] == b[i - a.len()]);
                openings_are_seen(kept, ours, i - a.len());
            } else {
                assert(events[i] == c[i - a.len() - b.len()]);
                updates_open_nothing(live_opened(kept, ours), ours, i - a.len() - b.len());
            }
            assert(seen(ours, w));
        } else {
            assert(v.runtimes.contains_key(w));
            assert(t.live.contains_key(w));
            if !seen(ours, w) {
                assert(gone.contains(w));
                assert(in_order(gone).contains(w));
                let i = choose|i: int| 0 <= i < in_order(gone).len() && in_order(gone)[i] == w;
                assert(a[i] == (TrackerEvent::Closed { window_id: w }));
                assert(events[i] == a[i]);
            }
        }
    }
}

} // verus!
