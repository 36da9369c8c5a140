//! What a session does about each event, message and request.

use crate::b64::base64_data;
use crate::capture::AppIdentity;
use crate::ids::{in_order, list_exists};
use crate::mapping::InputMapping;
use crate::model::{AxRole, SnapshotWindow, WindowInfo};
use crate::protocol::{AppId, HostMessage, WindowId, WindowKind};
use crate::scalar::Scalar;
use crate::session::{
    app_announcement, app_id_of, even_px, finish_steps, live_pids, open_cleanup,
    opened_step, pid_of_app, probe_step, steps, tearing_down_all, track_of, unsubscribed,
    without_all, MappingForwarder, OpenCleanup, OpenStage, ProbeStep, Session, SessionAction,
    SessionStep, SessionView,
};
use crate::tracker::{ids_of_pid, AppTracker, TrackerEvent};
use crate::tracking_laws::last_sighting_is_kept;
use vstd::prelude::*;

verus! {

/// The steps of some actions are theirs, one by one.
proof fn step_by_step(actions: Seq<SessionAction>)
    ensures
        steps(actions).len() == actions.len(),
        forall|k: int| 0 <= k < actions.len() ==> #[trigger] actions[k]@ == steps(actions)[k],
{
}

/// A window whose track is up is announced once: as a normal window without a
/// parent, under its own id, with its own title, width and height, on its own
/// track, as one of its own application.
pub proof fn opened_window_is_announced_as_it_is(
    s: &mut Session,
    window: SnapshotWindow,
    r: Vec<SessionAction>,
    track: String,
    app_id: AppId,
)
    requires
        call_ensures(Session::on_track_opened, (s, window), r),
        call_ensures(track_of, (window.info.id,), track),
        call_ensures(app_id_of, (window.pid,), app_id),
    ensures
        r@.len() == 1,
        r@[0] is Send,
        r@[0]->msg is WindowOpened,
        ({
            let msg = r@[0]->msg;
            &&& msg->WindowOpened_window_id == window.info.id
            &&& msg->WindowOpened_title == window.info.title
            &&& msg->WindowOpened_width == window.info.width
            &&& msg->WindowOpened_height == window.info.height
            &&& msg->kind == WindowKind::Normal
            &&& msg->parent_id is None
            &&& msg->WindowOpened_offset_x.bits == 0
            &&& msg->WindowOpened_offset_y.bits == 0
            &&& msg->track_id is Some
            &&& msg->track_id->0@ == track@
            &&& msg->WindowOpened_app_id == app_id
        }),
{
    step_by_step(r@);
    assert(steps(r@)[0] == opened_step(window));
    assert(r@[0]@ == opened_step(window));
}

/// Once its track is up a window is captured on that track, a keyframe request
/// on the track is one for the window, and a negotiation is due. Nothing else
/// changes.
pub proof fn opened_window_is_captured(
    s: &mut Session,
    window: SnapshotWindow,
    r: Vec<SessionAction>,
    track: String,
    after: &Session,
    name: &str,
    asked: Option<WindowId>,
    other: WindowId,
)
    requires
        call_ensures(Session::on_track_opened, (s, window), r),
        call_ensures(track_of, (window.info.id,), track),
        *after == *final(s),
        name@ == track@,
        call_ensures(Session::on_pli, (after, name), asked),
        other != window.info.id,
    ensures
        asked == Some(window.info.id),
        final(s)@.tracks_changed,
        final(s)@.busy == old(s)@.busy,
        final(s)@.tracker == old(s)@.tracker,
        final(s)@.runtimes.contains_key(window.info.id),
        final(s)@.runtimes[window.info.id].capturing,
        final(s)@.runtimes[window.info.id].track == track@,
        final(s)@.runtimes.contains_key(other) <==> old(s)@.runtimes.contains_key(other),
        final(s)@.runtimes.contains_key(other) ==> final(s)@.runtimes[other]
            == old(s)@.runtimes[other],
{
}

/// The track of a window is its number behind `win-`.
pub proof fn track_is_named_after_its_window(id: WindowId, track: String)
    requires
        call_ensures(track_of, (id,), track),
    ensures
        track@.len() > 4,
        track@.take(4) == seq!['w', 'i', 'n', '-'],
        crate::text_laws::value_of(track@.skip(4)) == id,
{
    reveal_strlit("win-");
    crate::text_laws::decimal_means_its_number(id as nat);
    assert(track@.skip(4) =~= crate::text::decimal(id as nat));
    assert(track@.take(4) =~= seq!['w', 'i', 'n', '-']);
}

/// A window that opens asks for a track of its own, and nothing is announced
/// before that is up.
pub proof fn opening_asks_for_a_track(
    s: &mut Session,
    window: SnapshotWindow,
    r: Vec<SessionAction>,
    track: String,
)
    requires
        call_ensures(Session::on_tracker_event, (s, TrackerEvent::Opened { window }), r),
        call_ensures(track_of, (window.info.id,), track),
    ensures
        r@.len() == 1,
        r@[0] is OpenTrack,
        r@[0]->window == window,
        r@[0]->OpenTrack_track_id@ == track@,
        final(s)@ == old(s)@,
{
    step_by_step(r@);
    assert(r@[0]@ == steps(r@)[0]);
}

/// A window that closes is torn down, its own track and its own encoder, if it
/// had them, and the client is told that it, and no other, closed.
pub proof fn closing_tears_down_and_tells(
    s: &mut Session,
    window_id: WindowId,
    r: Vec<SessionAction>,
    other: WindowId,
)
    requires
        call_ensures(Session::on_tracker_event, (s, TrackerEvent::Closed { window_id }), r),
    ensures
        ({
            let had = old(s)@.runtimes.contains_key(window_id);
            let n = r@.len() - 1;
            &&& r@.len() == (if had { 3int } else { 1int })
            &&& r@[n] == (SessionAction::Send { msg: HostMessage::WindowClosed { window_id } })
            &&& had ==> r@[0] is RemoveTrack
            &&& had ==> r@[0]->RemoveTrack_track_id@ == old(s)@.runtimes[window_id].track
            &&& had ==> r@[1] == (SessionAction::StopEncoder { window_id })
            &&& had ==> final(s)@.tracks_changed
            &&& !had ==> final(s)@.tracks_changed == old(s)@.tracks_changed
            &&& !final(s)@.runtimes.contains_key(window_id)
            &&& other != window_id ==> (final(s)@.runtimes.contains_key(other) <==> old(s)@.runtimes.contains_key(other))
            &&& final(s)@.runtimes.contains_key(other) ==> final(s)@.runtimes[other] == old(s)@.runtimes[other]
            &&& final(s)@.tracker == old(s)@.tracker
        }),
{
    step_by_step(r@);
    let n = r@.len() - 1;
    assert(r@[n]@ == steps(r@)[n]);
    assert(r@[0]@ == steps(r@)[0]);
    if r@.len() > 1 {
        assert(r@[1]@ == steps(r@)[1]);
    }
}

/// A minimized window's capture stops, if it ran, and the client is told; its
/// track stays up.
pub proof fn minimizing_pauses_and_tells(
    s: &mut Session,
    window_id: WindowId,
    r: Vec<SessionAction>,
    other: WindowId,
)
    requires
        call_ensures(Session::on_tracker_event, (s, TrackerEvent::Minimized { window_id }), r),
    ensures
        ({
            let has = old(s)@.runtimes.contains_key(window_id);
            let ran = has && old(s)@.runtimes[window_id].capturing;
            let n = r@.len() - 1;
            &&& r@.len() == (if ran { 2int } else { 1int })
            &&& r@[n] == (SessionAction::Send { msg: HostMessage::WindowMinimized { window_id } })
            &&& ran ==> r@[0] == (SessionAction::StopCapture { window_id })
            &&& final(s)@.runtimes.contains_key(other) <==> old(s)@.runtimes.contains_key(other)
            &&& has ==> !final(s)@.runtimes[window_id].capturing
            &&& has ==> final(s)@.runtimes[window_id].track == old(s)@.runtimes[window_id].track
            &&& other != window_id && old(s)@.runtimes.contains_key(other)
                ==> final(s)@.runtimes[other] == old(s)@.runtimes[other]
            &&& final(s)@.tracks_changed == old(s)@.tracks_changed
            &&& final(s)@.tracker == old(s)@.tracker
        }),
{
    step_by_step(r@);
    let n = r@.len() - 1;
    assert(r@[n]@ == steps(r@)[n]);
    assert(r@[0]@ == steps(r@)[0]);
}

/// A restored window is captured again where it stands now, if it has a track
/// and is not captured yet, and the client is told.
pub proof fn restoring_resumes_and_tells(
    s: &mut Session,
    window_id: WindowId,
    r: Vec<SessionAction>,
    before: &Session,
    stands: Option<&WindowInfo>,
)
    requires
        *before == *old(s),
        call_ensures(Session::geometry, (before, window_id), stands),
        call_ensures(Session::on_tracker_event, (s, TrackerEvent::Restored { window_id }), r),
    ensures
        ({
            let due = old(s)@.runtimes.contains_key(window_id)
                && !old(s)@.runtimes[window_id].capturing && stands is Some;
            let n = r@.len() - 1;
            &&& r@.len() == (if due { 2int } else { 1int })
            &&& r@[n] == (SessionAction::Send { msg: HostMessage::WindowRestored { window_id } })
            &&& due ==> r@[0] is RestartCapture
            &&& due ==> r@[0]->RestartCapture_window_id == window_id
            &&& due ==> r@[0]->info == *stands->0
            &&& final(s)@ == old(s)@
        }),
{
    step_by_step(r@);
    let n = r@.len() - 1;
    assert(r@[n]@ == steps(r@)[n]);
    assert(r@[0]@ == steps(r@)[0]);
}

/// A resized window's capture gets the new width as its width and the new
/// height as its height, if it runs, and the client is told the same.
pub proof fn resizing_reconfigures_and_tells(
    s: &mut Session,
    window_id: WindowId,
    width: Scalar,
    height: Scalar,
    r: Vec<SessionAction>,
)
    requires
        call_ensures(
            Session::on_tracker_event,
            (s, TrackerEvent::Resized { window_id, width, height }),
            r,
        ),
    ensures
        ({
            let runs = old(s)@.runtimes.contains_key(window_id)
                && old(s)@.runtimes[window_id].capturing;
            let n = r@.len() - 1;
            &&& r@.len() == (if runs { 2int } else { 1int })
            &&& r@[n] is Send
            &&& r@[n]->msg is WindowResized
            &&& r@[n]->msg->WindowResized_window_id == window_id
            &&& r@[n]->msg->WindowResized_width == width
            &&& r@[n]->msg->WindowResized_height == height
            &&& runs ==> r@[0] is Reconfigure
            &&& runs ==> r@[0]->Reconfigure_window_id == window_id
            &&& runs ==> r@[0]->width == width
            &&& runs ==> r@[0]->height == height
            &&& final(s)@ == old(s)@
        }),
{
    step_by_step(r@);
    let n = r@.len() - 1;
    assert(r@[n]@ == steps(r@)[n]);
    assert(r@[0]@ == steps(r@)[0]);
}

/// A new title is told and nothing else.
pub proof fn retitling_tells(
    s: &mut Session,
    window_id: WindowId,
    title: String,
    r: Vec<SessionAction>,
)
    requires
        call_ensures(
            Session::on_tracker_event,
            (s, TrackerEvent::TitleChanged { window_id, title }),
            r,
        ),
    ensures
        r@.len() == 1,
        r@[0] is Send,
        r@[0]->msg is WindowTitleChanged,
        r@[0]->msg->WindowTitleChanged_window_id == window_id,
        r@[0]->msg->WindowTitleChanged_title == title,
        final(s)@ == old(s)@,
{
    step_by_step(r@);
    assert(r@[0]@ == steps(r@)[0]);
}

/// A capture that was started again is noted for its window alone, and only
/// where the window has a track.
pub proof fn restarted_capture_is_noted(s: &mut Session, window_id: WindowId, other: WindowId, r: ())
    requires
        call_ensures(Session::on_capture_started, (s, window_id), r),
        other != window_id,
    ensures
        final(s)@.runtimes.contains_key(window_id) <==> old(s)@.runtimes.contains_key(window_id),
        old(s)@.runtimes.contains_key(window_id) ==> final(s)@.runtimes[window_id].capturing
            && final(s)@.runtimes[window_id].track == old(s)@.runtimes[window_id].track,
        final(s)@.runtimes.contains_key(other) <==> old(s)@.runtimes.contains_key(other),
        old(s)@.runtimes.contains_key(other) ==> final(s)@.runtimes[other]
            == old(s)@.runtimes[other],
        final(s)@.tracker == old(s)@.tracker,
        final(s)@.busy == old(s)@.busy,
        final(s)@.tracks_changed == old(s)@.tracks_changed,
{
}

/// A pass is busy when its snapshot told anything, starts without changed
/// tracks, touches no runtime, and knows every announced window afterwards as
/// it was seen last.
pub proof fn pass_begins_with_what_was_seen(
    s: &mut Session,
    snapshot: Vec<SnapshotWindow>,
    events: Vec<TrackerEvent>,
    i: int,
)
    requires
        call_ensures(Session::begin_pass, (s, snapshot), events),
        0 <= i < snapshot@.len(),
        old(s)@.tracker.pids.contains(snapshot@[i].pid),
        snapshot@[i].layer == 0,
        snapshot@[i].ax_role != AxRole::Sheet,
        forall|j: int|
            i < j < snapshot@.len() && (#[trigger] snapshot@[j]).info.id == snapshot@[i].info.id
                ==> !old(s)@.tracker.pids.contains(snapshot@[j].pid) || snapshot@[j].layer != 0
                || snapshot@[j].ax_role == AxRole::Sheet,
    ensures
        final(s)@.busy <==> events@.len() > 0,
        !final(s)@.tracks_changed,
        final(s)@.runtimes == old(s)@.runtimes,
        final(s)@.tracker.pids == old(s)@.tracker.pids,
        final(s)@.tracker.live.contains_key(snapshot@[i].info.id),
        final(s)@.tracker.live[snapshot@[i].info.id].info == snapshot@[i].info,
        final(s)@.tracker.live[snapshot@[i].info.id].minimized == snapshot@[i].minimized,
{
    last_sighting_is_kept(s@.tracker, snapshot@, i);
}

/// A pass begins with what the tracker makes of the snapshot, no more and no
/// less.
pub proof fn pass_begins_with_the_trackers_events(
    s: &mut Session,
    snapshot: Vec<SnapshotWindow>,
    events: Vec<TrackerEvent>,
    t: &mut AppTracker,
    seen: Vec<TrackerEvent>,
)
    requires
        old(t)@ == old(s)@.tracker,
        call_ensures(AppTracker::diff, (t, snapshot), seen),
        call_ensures(Session::begin_pass, (s, snapshot), events),
    ensures
        events@ == seen@,
        final(s)@.tracker == final(t)@,
{
}

/// A keyframe request reaches the window whose track it names, and none when
/// no window has that track.
pub proof fn keyframe_request_reaches_its_window(
    s: &Session,
    track: &str,
    r: Option<WindowId>,
    w: WindowId,
    own: String,
)
    requires
        s@.wf(),
        call_ensures(Session::on_pli, (s, track), r),
        call_ensures(track_of, (w,), own),
    ensures
        r == Some(w) <==> s@.runtimes.contains_key(w) && track@ == own@,
        r is Some ==> s@.runtimes.contains_key(r->0) && s@.runtimes[r->0].track == track@,
{
}

/// A pass without events ends without a word. Any other tells the input sink
/// the process of every tracked window and of no other, and negotiates first
/// when tracks came or went.
pub proof fn pass_ends_with_the_processes(s: &Session, r: Vec<SessionAction>, id: WindowId)
    requires
        call_ensures(Session::finish_pass, (s,), r),
    ensures
        !s@.busy ==> r@.len() == 0,
        s@.busy ==> {
            let n = r@.len() - 1;
            &&& r@.len() == (if s@.tracks_changed { 2int } else { 1int })
            &&& s@.tracks_changed ==> r@[0] == SessionAction::Renegotiate
            &&& r@[n] is UpdatePids
            &&& r@[n]->pids@.contains_key(id) <==> s@.tracker.live.contains_key(id)
            &&& r@[n]->pids@.contains_key(id) ==> r@[n]->pids@[id] == s@.tracker.live[id].pid
        },
{
    step_by_step(r@);
    if s@.busy {
        let n = r@.len() - 1;
        assert(r@[n]@ == steps(r@)[n]);
        assert(r@[0]@ == steps(r@)[0]);
        assert(r@[n]@ == SessionStep::UpdatePids { pids: live_pids(s@) });
    }
}

proof fn torn_down(v: SessionView, ids: Seq<WindowId>)
    requires
        forall|i: int, j: int| 0 <= i < j < ids.len() ==> ids[i] < ids[j],
    ensures
        forall|w: WindowId| #[trigger]
            without_all(v, ids).runtimes.contains_key(w) <==> v.runtimes.contains_key(w)
                && !ids.contains(w),
        forall|w: WindowId| #[trigger]
            without_all(v, ids).runtimes.contains_key(w) ==> without_all(v, ids).runtimes[w]
                == v.runtimes[w],
        without_all(v, ids).tracker == v.tracker,
        without_all(v, ids).busy == v.busy,
        without_all(v, ids).tracks_changed <==> v.tracks_changed || exists|i: int|
            0 <= i < ids.len() && v.runtimes.contains_key(#[trigger] ids[i]),
        forall|k: int|
            0 <= k < tearing_down_all(v, ids).len() ==> {
                let step = #[trigger] tearing_down_all(v, ids)[k];
                ||| step is StopEncoder && ids.contains(step->StopEncoder_window_id)
                    && v.runtimes.contains_key(step->StopEncoder_window_id)
                ||| step is RemoveTrack
            },
        forall|i: int|
            0 <= i < ids.len() && v.runtimes.contains_key(#[trigger] ids[i]) ==> {
                &&& tearing_down_all(v, ids).contains(SessionStep::StopEncoder { window_id: ids[i] })
                &&& tearing_down_all(v, ids).contains(
                    SessionStep::RemoveTrack { track: v.runtimes[ids[i]].track },
                )
            },
    decreases ids.len(),
{
    if ids.len() > 0 {
        let rest = ids.drop_last();
        let last = ids.last();
        torn_down(v, rest);
        assert(ids[ids.len() - 1] == last);
        assert(!rest.contains(last));
        assert forall|w: WindowId| ids.contains(w) <==> rest.contains(w) || w == last by {
            if ids.contains(w) {
                let i = choose|i: int| 0 <= i < ids.len() && ids[i] == w;
                if i < rest.len() {
                    assert(rest[i] == w);
                }
            }
            if rest.contains(w) {
                let i = choose|i: int| 0 <= i < rest.len() && rest[i] == w;
                assert(ids[i] == w);
            }
        }
        let before = without_all(v, rest);
        let done = tearing_down_all(v, rest);
        let more = before.tearing_down(last);
        let all = tearing_down_all(v, ids);
        assert(all == done + more);
        assert(before.runtimes.contains_key(last) <==> v.runtimes.contains_key(last));
        assert forall|k: int| 0 <= k < all.len() implies {
            let step = #[trigger] all[k];
            ||| step is StopEncoder && ids.contains(step->StopEncoder_window_id)
                && v.runtimes.contains_key(step->StopEncoder_window_id)
            ||| step is RemoveTrack
        } by {
            if k < done.len() {
                assert(all[k] == done[k]);
            } else {
                assert(all[k] == more[k - done.len()]);
            }
        }
        assert forall|i: int|
            0 <= i < ids.len() && v.runtimes.contains_key(#[trigger] ids[i]) implies {
            &&& all.contains(SessionStep::StopEncoder { window_id: ids[i] })
            &&& all.contains(SessionStep::RemoveTrack { track: v.runtimes[ids[i]].track })
        } by {
            let stop = SessionStep::StopEncoder { window_id: ids[i] };
            let remove = SessionStep::RemoveTrack { track: v.runtimes[ids[i]].track };
            if i < rest.len() {
                assert(rest[i] == ids[i]);
                let a = choose|a: int| 0 <= a < done.len() && done[a] == stop;
                let b = choose|b: int| 0 <= b < done.len() && done[b] == remove;
                assert(all[a] == stop);
                assert(all[b] == remove);
            } else {
                assert(all[done.len() as int] == remove);
                assert(all[done.len() as int + 1] == stop);
            }
        }
        assert((exists|i: int| 0 <= i < ids.len() && v.runtimes.contains_key(#[trigger] ids[i]))
            <==> (exists|i: int|
            0 <= i < rest.len() && v.runtimes.contains_key(#[trigger] rest[i]))
            || v.runtimes.contains_key(last)) by {
            if exists|i: int| 0 <= i < ids.len() && v.runtimes.contains_key(#[trigger] ids[i]) {
                let i = choose|i: int|
                    0 <= i < ids.len() && v.runtimes.contains_key(#[trigger] ids[i]);
                if i < rest.len() {
                    assert(rest[i] == ids[i]);
                }
            }
            if exists|i: int| 0 <= i < rest.len() && v.runtimes.contains_key(#[trigger] rest[i]) {
                let i = choose|i: int|
                    0 <= i < rest.len() && v.runtimes.contains_key(#[trigger] rest[i]);
                assert(ids[i] == rest[i]);
            }
        }
    }
}

/// An application that the client unsubscribed is no longer shared, and none of
/// its windows is tracked or has a track, while every other window keeps both.
pub proof fn unsubscribing_forgets_the_application(
    s: &mut Session,
    pid: i32,
    r: Vec<SessionAction>,
    w: WindowId,
    other: i32,
)
    requires
        call_ensures(Session::on_unsubscribe, (s, pid), r),
    ensures
        ({
            let its = old(s)@.tracker.live.contains_key(w) && old(s)@.tracker.live[w].pid == pid;
            &&& final(s)@.tracker.pids.contains(other) <==> old(s)@.tracker.pids.contains(other)
                && other != pid
            &&& final(s)@.tracker.live.contains_key(w) <==> old(s)@.tracker.live.contains_key(w)
                && !its
            &&& final(s)@.tracker.live.contains_key(w) ==> final(s)@.tracker.live[w] == old(s)@.tracker.live[w]
            &&& final(s)@.runtimes.contains_key(w) <==> old(s)@.runtimes.contains_key(w) && !its
            &&& final(s)@.runtimes.contains_key(w) ==> final(s)@.runtimes[w] == old(s)@.runtimes[w]
        }),
{
    let ids = in_order(ids_of_pid(s@.tracker.live, pid));
    list_exists(ids_of_pid(s@.tracker.live, pid));
    torn_down(unsubscribed(s@, pid), ids);
}

/// Unsubscribing tears down the track and the encoder of every window of the
/// application that has them, stops no other window's, says nothing to the
/// client, and ends with the processes of the windows that are left.
pub proof fn unsubscribing_tears_down_in_silence(
    s: &mut Session,
    pid: i32,
    r: Vec<SessionAction>,
    w: WindowId,
    k: int,
)
    requires
        call_ensures(Session::on_unsubscribe, (s, pid), r),
        0 <= k < r@.len(),
    ensures
        !(r@[k] is Send),
        r@[k] is StopEncoder ==> {
            let id = r@[k]->StopEncoder_window_id;
            &&& old(s)@.tracker.live.contains_key(id)
            &&& old(s)@.tracker.live[id].pid == pid
            &&& old(s)@.runtimes.contains_key(id)
        },
        old(s)@.tracker.live.contains_key(w) && old(s)@.tracker.live[w].pid == pid && old(s)@.runtimes.contains_key(w) ==> {
            &&& exists|a: int|
                0 <= a < r@.len() && #[trigger] r@[a] == (SessionAction::StopEncoder {
                    window_id: w,
                })
            &&& exists|b: int|
                0 <= b < r@.len() && (#[trigger] r@[b]) is RemoveTrack
                    && r@[b]->RemoveTrack_track_id@ == old(s)@.runtimes[w].track
        },
        old(s)@.tracker.live.contains_key(w) && old(s)@.tracker.live[w].pid == pid && old(s)@.runtimes.contains_key(w) ==> r@.len() >= 2 && r@[r@.len() - 2]
            == SessionAction::Renegotiate,
        r@[k] is Renegotiate ==> k == r@.len() - 2 && exists|v: WindowId|
            old(s)@.tracker.live.contains_key(v) && old(s)@.tracker.live[v].pid == pid && #[trigger]
            old(s)@.runtimes.contains_key(v),
        r@.last() is UpdatePids,
        r@.last()->pids@.contains_key(w) <==> final(s)@.tracker.live.contains_key(w),
        r@.last()->pids@.contains_key(w) ==> r@.last()->pids@[w] == final(s)@.tracker.live[w].pid,
{
    let ids = in_order(ids_of_pid(s@.tracker.live, pid));
    list_exists(ids_of_pid(s@.tracker.live, pid));
    let v = unsubscribed(s@, pid);
    torn_down(v, ids);
    step_by_step(r@);
    let all = tearing_down_all(v, ids);
    let tail = finish_steps(final(s)@);
    assert(final(s)@.busy);
    assert(steps(r@) == all + tail);
    assert(r@[k]@ == steps(r@)[k]);
    if k < all.len() {
        assert(steps(r@)[k] == all[k]);
        if r@[k] is StopEncoder {
            assert(ids.contains(r@[k]->StopEncoder_window_id));
        }
    } else {
        assert(steps(r@)[k] == tail[k - all.len()]);
        if r@[k] is Renegotiate {
            assert(final(s)@.tracks_changed);
            let j = choose|j: int| 0 <= j < ids.len() && v.runtimes.contains_key(#[trigger] ids[j]);
            assert(ids.contains(ids[j]));
            assert(s@.runtimes.contains_key(ids[j]));
        }
    }
    let n = r@.len() - 1;
    assert(r@[n]@ == steps(r@)[n]);
    assert(steps(r@)[n] == tail.last());
    assert(tail.last() == SessionStep::UpdatePids { pids: live_pids(final(s)@) });
    if s@.tracker.live.contains_key(w) && s@.tracker.live[w].pid == pid && s@.runtimes.contains_key(
        w,
    ) {
        assert(ids.contains(w));
        let i = choose|i: int| 0 <= i < ids.len() && ids[i] == w;
        assert(v.runtimes.contains_key(ids[i]));
        assert(final(s)@.tracks_changed);
        assert(tail[0] == SessionStep::Renegotiate);
        assert(r@[n - 1]@ == steps(r@)[n - 1]);
        assert(steps(r@)[n - 1] == tail[0]);
        let stop = SessionStep::StopEncoder { window_id: w };
        let remove = SessionStep::RemoveTrack { track: v.runtimes[w].track };
        let a = choose|a: int| 0 <= a < all.len() && all[a] == stop;
        let b = choose|b: int| 0 <= b < all.len() && all[b] == remove;
        assert(steps(r@)[a] == stop);
        assert(steps(r@)[b] == remove);
        assert(r@[a]@ == stop);
        assert(r@[b]@ == remove);
        assert(r@[a] == SessionAction::StopEncoder { window_id: w });
        assert(r@[b] is RemoveTrack);
    }
}

/// Ending a session stops the encoder of every window that has one, each once,
/// and does nothing else.
pub proof fn shutdown_stops_every_encoder(s: &mut Session, r: Vec<SessionAction>, w: WindowId, k: int)
    requires
        call_ensures(Session::shutdown, (s,), r),
    ensures
        !final(s)@.runtimes.contains_key(w),
        0 <= k < r@.len() ==> r@[k] is StopEncoder && old(s)@.runtimes.contains_key(
            r@[k]->StopEncoder_window_id,
        ),
        old(s)@.runtimes.contains_key(w) ==> exists|a: int|
            0 <= a < r@.len() && #[trigger] r@[a] == (SessionAction::StopEncoder { window_id: w }),
        0 < k < r@.len() ==> r@[k - 1]->StopEncoder_window_id < r@[k]->StopEncoder_window_id,
{
    let ids = in_order(s@.runtimes.dom());
    list_exists(s@.runtimes.dom());
    step_by_step(r@);
    assert(r@.len() == ids.len());
    assert forall|j: int| 0 <= j < ids.len() implies r@[j] == (SessionAction::StopEncoder {
        window_id: #[trigger] ids[j],
    }) by {
        assert(r@[j]@ == steps(r@)[j]);
    }
    if 0 <= k < r@.len() {
        assert(ids.contains(ids[k]));
        if 0 < k {
            assert(ids[k - 1] < ids[k]);
        }
    }
    if s@.runtimes.contains_key(w) {
        assert(s@.runtimes.dom().contains(w));
        assert(ids.contains(w));
        let a = choose|a: int| 0 <= a < ids.len() && ids[a] == w;
        assert(r@[a] == (SessionAction::StopEncoder { window_id: w }));
    }
}

/// A new session shares what it is told to and has no window.
pub proof fn new_session_is_empty(pids: &[i32], s: Session, w: WindowId, p: i32)
    requires
        call_ensures(Session::new, (pids,), s),
    ensures
        s@.tracker.pids.contains(p) <==> pids@.contains(p),
        !s@.tracker.live.contains_key(w),
        !s@.runtimes.contains_key(w),
        !s@.busy,
        !s@.tracks_changed,
{
}

/// An application id is its process id modulo two to the thirty-second, and
/// leads back to it.
pub proof fn application_id_is_the_process_id(pid: i32, id: AppId, back: i32)
    requires
        call_ensures(app_id_of, (pid,), id),
        call_ensures(pid_of_app, (id,), back),
    ensures
        pid >= 0 ==> id == pid,
        pid < 0 ==> id == pid + 4294967296,
        back == pid,
{
}

/// An application is announced under its process's id, by its own name and
/// with its own icon, which base64 gives back.
pub proof fn application_is_announced_as_it_is(
    pid: i32,
    identity: &AppIdentity,
    msg: HostMessage,
    id: AppId,
)
    requires
        2 * identity.icon_png@.len() <= isize::MAX,
        call_ensures(app_announcement, (pid, identity), msg),
        call_ensures(app_id_of, (pid,), id),
    ensures
        msg is AppAnnounced,
        msg->AppAnnounced_app_id == id,
        msg->name == identity.name,
        base64_data(msg->icon_png@) == Some(identity.icon_png@),
{
}

/// A dimension in pixels is made even by taking at most one pixel away, and
/// is never below two.
pub proof fn dimensions_are_made_even(px: u32, r: u32)
    requires
        call_ensures(even_px, (px,), r),
    ensures
        r % 2 == 0,
        r >= 2,
        px >= 2 ==> px - 1 <= r <= px,
        px < 2 ==> r == 2,
{
}

/// A failed opening is undone as far as it got, and a probe is answered by the
/// state of the connection.
pub proof fn failures_are_undone(
    stage: OpenStage,
    c: OpenCleanup,
    disconnected: bool,
    sent: bool,
    early: bool,
    step: ProbeStep,
)
    requires
        call_ensures(open_cleanup, (stage,), c),
        call_ensures(probe_step, (disconnected, sent, early), step),
    ensures
        c.stop_encoder <==> stage == OpenStage::Capture,
        c.remove_track <==> stage == OpenStage::Encoder || stage == OpenStage::Capture,
        step == ProbeStep::Disconnected <==> disconnected,
        step == ProbeStep::Ready <==> !disconnected && sent,
        step == ProbeStep::Retry <==> !disconnected && !sent && early,
        step == ProbeStep::Failed <==> !disconnected && !sent && !early,
{
}

/// A mapping is sent as it is, each scale and offset for its own axis, when it
/// differs from the last one sent, or, as the first, from the identity; and it
/// is remembered exactly then, for its window alone.
pub proof fn mapping_is_forwarded_as_it_is(
    f: &mut MappingForwarder,
    window_id: WindowId,
    mapping: InputMapping,
    like_last: bool,
    is_identity: bool,
    r: Option<HostMessage>,
    before: &MappingForwarder,
    known: Option<InputMapping>,
    after: &MappingForwarder,
    now: Option<InputMapping>,
    other: WindowId,
)
    requires
        *before == *old(f),
        call_ensures(MappingForwarder::last, (before, window_id), known),
        call_ensures(
            MappingForwarder::on_mapping,
            (f, window_id, mapping, like_last, is_identity),
            r,
        ),
        *after == *final(f),
        call_ensures(MappingForwarder::last, (after, window_id), now),
        other != window_id,
    ensures
        r is Some <==> (if known is Some { !like_last } else { !is_identity }),
        r is Some ==> {
            &&& r->0 is InputMapping
            &&& r->0->InputMapping_window_id == window_id
            &&& r->0->scale_x == mapping.scale_x
            &&& r->0->scale_y == mapping.scale_y
            &&& r->0->InputMapping_offset_x == mapping.offset_x
            &&& r->0->InputMapping_offset_y == mapping.offset_y
            &&& now == Some(mapping)
        },
        r is None ==> now == known,
        final(f)@.contains_key(other) <==> old(f)@.contains_key(other),
        old(f)@.contains_key(other) ==> final(f)@[other] == old(f)@[other],
{
}

} // verus!
