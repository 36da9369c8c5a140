//! What the host's messages and frames do to the mirrors, in the helper and
//! in the client.

use crate::app::App;
use crate::mirror_app::{
    announcement, exit_code, ExitReason, HelperApp, HelperEvent, ProgressThrottle,
};
use crate::mirrors::{ui_views, LocalId, UiAction};
use crate::model::{OpenedWindow, TrackBinder};
use crate::net::UiEvent;
use crate::pixels::{BgraFrame, RgbaImage};
use crate::protocol::{HostMessage, WindowId, WindowKind};
use crate::scalar::Scalar;
use crate::{app, mirror_app};
use vstd::prelude::*;

verus! {

/// What actions say is what they say one by one.
proof fn one_by_one(actions: Seq<UiAction>)
    ensures
        ui_views(actions).len() == actions.len(),
        forall|k: int| 0 <= k < actions.len() ==> #[trigger] actions[k]@ == ui_views(actions)[k],
{
}

/// An announcement says what the message says, each part for itself; a window
/// without a track has an empty track name, and any other message announces
/// nothing.
pub proof fn announcement_says_what_the_message_says(msg: HostMessage, r: Option<OpenedWindow>)
    requires
        call_ensures(announcement, (msg,), r),
    ensures
        r is Some <==> msg is WindowOpened,
        r is Some ==> {
            let a = r->0;
            &&& a.info.id == msg->WindowOpened_window_id
            &&& a.info.title == msg->WindowOpened_title
            &&& a.info.width == msg->WindowOpened_width
            &&& a.info.height == msg->WindowOpened_height
            &&& a.info.x.bits == 0
            &&& a.info.y.bits == 0
            &&& a.kind == msg->kind
            &&& a.parent_id == msg->parent_id
            &&& a.offset.0 == msg->WindowOpened_offset_x
            &&& a.offset.1 == msg->WindowOpened_offset_y
            &&& msg->track_id is Some ==> a.track_id@ == msg->track_id->0@
            &&& msg->track_id is None ==> a.track_id@.len() == 0
        },
{
}

/// A helper whose last window closed says so by its exit code, and any other
/// one ends with success.
pub proof fn exit_code_tells_idleness(reason: ExitReason, code: i32)
    requires
        call_ensures(exit_code, (reason,), code),
    ensures
        reason == ExitReason::Idle ==> code == 42,
        reason != ExitReason::Idle ==> code == 0,
{
}

/// A track may report first at any time and then a quarter of a second after
/// its last report, whatever other tracks do.
pub proof fn reports_are_spaced(
    t: &mut ProgressThrottle,
    track: &str,
    now: u64,
    allowed: bool,
    other: Seq<char>,
)
    requires
        call_ensures(ProgressThrottle::allow, (t, track, now), allowed),
        other != track@,
    ensures
        !old(t)@.contains_key(track@) ==> allowed,
        old(t)@.contains_key(track@) ==> (allowed <==> now >= old(t)@[track@] + 250_000_000),
        allowed ==> final(t)@.contains_key(track@) && final(t)@[track@] == now,
        !allowed ==> final(t)@ == old(t)@,
        final(t)@.contains_key(other) <==> old(t)@.contains_key(other),
        old(t)@.contains_key(other) ==> final(t)@[other] == old(t)@[other],
{
}

/// An announcement is handed out with the track of its own key, as soon as
/// both are there, and waits for it otherwise; the same of a track.
pub proof fn halves_are_paired_by_their_key(
    b: &mut TrackBinder<u64>,
    a: OpenedWindow,
    first: Option<(OpenedWindow, u64)>,
    c: &mut TrackBinder<u64>,
    key: String,
    t: u64,
    second: Option<(OpenedWindow, u64)>,
)
    requires
        call_ensures(TrackBinder::<u64>::on_announcement, (b, a), first),
        call_ensures(TrackBinder::<u64>::on_track, (c, key, t), second),
    ensures
        first is Some <==> old(b)@.tracks.contains_key(a.track_id@),
        first is Some ==> first->0 == (a, old(b)@.tracks[a.track_id@])
            && !final(b)@.tracks.contains_key(a.track_id@)
                && final(b)@.announcements == old(b)@.announcements,
        first is None ==> final(b)@.announcements.contains_key(a.track_id@)
            && final(b)@.announcements[a.track_id@] == a && final(b)@.tracks == old(b)@.tracks,
        second is Some <==> old(c)@.announcements.contains_key(key@),
        second is Some ==> second->0 == (old(c)@.announcements[key@], t)
            && !final(c)@.announcements.contains_key(key@) && final(c)@.tracks == old(c)@.tracks,
        second is None ==> final(c)@.tracks.contains_key(key@) && final(c)@.tracks[key@] == t
            && final(c)@.announcements == old(c)@.announcements,
{
}

/// In the helper a window's new title, size and state reach its own mirror: the
/// title with a note while it is minimized, the width as width and the height
/// as height; and the mirror remembers them.
pub proof fn helper_mirror_follows_its_window(
    h: &mut HelperApp,
    id: WindowId,
    w: LocalId,
    msg: HostMessage,
    r: Vec<UiAction>,
    width: Scalar,
    height: Scalar,
    title: String,
)
    requires
        old(h)@.set.by_remote.contains_key(id),
        old(h)@.set.by_remote[id] == w,
        old(h)@.set.mirrors.contains_key(w),
        call_ensures(HelperApp::on_event, (h, HelperEvent::Host(msg)), r),
    ensures
        ({
            let before = old(h)@.set.mirrors[w];
            let after = final(h)@.set.mirrors[w];
            &&& msg == (HostMessage::WindowMinimized { window_id: id }) ==> {
                &&& r@.len() == 1
                &&& r@[0] is SetTitle
                &&& r@[0]->SetTitle_window == w
                &&& r@[0]->title@ == before.base_title@ + " (minimized)"@
                &&& after.minimized
                &&& after.base_title == before.base_title
            }
            &&& msg == (HostMessage::WindowRestored { window_id: id }) ==> {
                &&& r@.len() == (if before.minimized { 1int } else { 0int })
                &&& before.minimized ==> r@[0] is SetTitle
                &&& before.minimized ==> r@[0]->SetTitle_window == w
                &&& before.minimized ==> r@[0]->title@ == before.base_title@
                &&& !after.minimized
                &&& after.base_title == before.base_title
            }
            &&& msg == (HostMessage::WindowResized { window_id: id, width, height }) ==> {
                &&& r@.len() == 1
                &&& r@[0] is RequestInnerSize
                &&& r@[0]->RequestInnerSize_window == w
                &&& r@[0]->width == width
                &&& r@[0]->height == height
                &&& after.last_host_size == (width, height)
                &&& after.minimized == before.minimized
            }
            &&& msg == (HostMessage::WindowTitleChanged { window_id: id, title }) ==> {
                &&& r@.len() == 1
                &&& r@[0] is SetTitle
                &&& r@[0]->SetTitle_window == w
                &&& before.minimized ==> r@[0]->title@ == title@ + " (minimized)"@
                &&& !before.minimized ==> r@[0]->title@ == title@
                &&& after.base_title == title
                &&& after.minimized == before.minimized
            }
        }),
{
    one_by_one(r@);
    if r@.len() > 0 {
        assert(r@[0]@ == ui_views(r@)[0]);
    }
}

/// In the helper a message about one window leaves what its mirror paints, and
/// every other mirror, as they are.
pub proof fn helper_other_mirrors_stay(
    h: &mut HelperApp,
    id: WindowId,
    w: LocalId,
    msg: HostMessage,
    r: Vec<UiAction>,
    other: LocalId,
)
    requires
        old(h)@.set.by_remote.contains_key(id),
        old(h)@.set.by_remote[id] == w,
        old(h)@.set.mirrors.contains_key(w),
        call_ensures(HelperApp::on_event, (h, HelperEvent::Host(msg)), r),
        ({
            ||| msg == (HostMessage::WindowMinimized { window_id: id })
            ||| msg == (HostMessage::WindowRestored { window_id: id })
            ||| msg is WindowResized && msg->WindowResized_window_id == id
            ||| msg is WindowTitleChanged && msg->WindowTitleChanged_window_id == id
            ||| msg is InputMapping && msg->InputMapping_window_id == id
        }),
    ensures
        final(h)@.set.mirrors.contains_key(w),
        final(h)@.set.mirrors[w].content == old(h)@.set.mirrors[w].content,
        final(h)@.set.mirrors[w].remote_id == old(h)@.set.mirrors[w].remote_id,
        final(h)@.set.mirrors[w].kind == old(h)@.set.mirrors[w].kind,
        final(h)@.set.by_remote == old(h)@.set.by_remote,
        final(h)@.set.by_track == old(h)@.set.by_track,
        other != w ==> (final(h)@.set.mirrors.contains_key(other)
            <==> old(h)@.set.mirrors.contains_key(other)),
        other != w && old(h)@.set.mirrors.contains_key(other) ==> final(h)@.set.mirrors[other]
            == old(h)@.set.mirrors[other],
{
}

/// In the helper a message about a window without a mirror does nothing.
pub proof fn helper_ignores_strangers(
    h: &mut HelperApp,
    id: WindowId,
    msg: HostMessage,
    r: Vec<UiAction>,
)
    requires
        !old(h)@.set.by_remote.contains_key(id),
        call_ensures(HelperApp::on_event, (h, HelperEvent::Host(msg)), r),
        ({
            ||| msg == (HostMessage::WindowMinimized { window_id: id })
            ||| msg == (HostMessage::WindowRestored { window_id: id })
            ||| msg is WindowResized && msg->WindowResized_window_id == id
            ||| msg is WindowTitleChanged && msg->WindowTitleChanged_window_id == id
        }),
    ensures
        r@.len() == 0,
        final(h)@ == old(h)@,
{
    one_by_one(r@);
}

/// In the helper a message that is about no mirror does nothing.
pub proof fn helper_ignores_other_messages(h: &mut HelperApp, msg: HostMessage, r: Vec<UiAction>)
    requires
        msg is AppAnnounced || msg is TransientBlit || msg is SdpOffer,
        call_ensures(HelperApp::on_event, (h, HelperEvent::Host(msg)), r),
    ensures
        r@.len() == 0,
        final(h)@ == old(h)@,
{
    one_by_one(r@);
}

/// In the helper the mirror of a closed window goes, with everything that led to
/// it, and no other does.
pub proof fn helper_drops_the_closed_mirror(
    h: &mut HelperApp,
    id: WindowId,
    w: LocalId,
    r: Vec<UiAction>,
    track: Seq<char>,
    other: LocalId,
    remote: WindowId,
)
    requires
        old(h)@.set.by_remote.contains_key(id),
        old(h)@.set.by_remote[id] == w,
        call_ensures(
            HelperApp::on_event,
            (h, HelperEvent::Host(HostMessage::WindowClosed { window_id: id })),
            r,
        ),
    ensures
        r@.len() >= 1,
        r@[0] == (UiAction::DropWindow { window: w }),
        !final(h)@.set.mirrors.contains_key(w),
        !final(h)@.set.by_remote.contains_key(id),
        old(h)@.set.by_track.contains_key(track) && old(h)@.set.by_track[track] == w
            ==> !final(h)@.set.by_track.contains_key(track)
            && !final(h)@.set.early_frames.contains_key(track),
        old(h)@.set.by_track.contains_key(track) && old(h)@.set.by_track[track] != w
            ==> final(h)@.set.by_track.contains_key(track)
                && final(h)@.set.by_track[track] == old(h)@.set.by_track[track],
        other != w && old(h)@.set.mirrors.contains_key(other)
            ==> final(h)@.set.mirrors.contains_key(other)
            && final(h)@.set.mirrors[other] == old(h)@.set.mirrors[other],
        remote != id && old(h)@.set.by_remote.contains_key(remote)
            ==> final(h)@.set.by_remote.contains_key(remote)
            && final(h)@.set.by_remote[remote] == old(h)@.set.by_remote[remote],
{
    one_by_one(r@);
    assert(r@[0]@ == ui_views(r@)[0]);
}

/// In the helper a frame is painted by the mirror that its track leads to, and
/// by no other; a frame that comes before its mirror is kept for it.
pub proof fn helper_frame_reaches_its_mirror(
    h: &mut HelperApp,
    track_id: String,
    frame: BgraFrame,
    r: Vec<UiAction>,
    w: LocalId,
    other: LocalId,
)
    requires
        call_ensures(HelperApp::on_event, (h, HelperEvent::Frame { track_id, frame }), r),
        old(h)@.set.by_track.contains_key(track_id@) ==> old(h)@.set.by_track[track_id@] == w
            && old(h)@.set.mirrors.contains_key(w),
        other != w,
    ensures
        old(h)@.set.by_track.contains_key(track_id@) ==> {
            &&& r@.len() == 1
            &&& r@[0] == (UiAction::RequestRedraw { window: w })
            &&& final(h)@.set.mirrors[w].content == mirror_app::MirrorContent::Video(frame)
            &&& final(h)@.set.mirrors[w].base_title == old(h)@.set.mirrors[w].base_title
            &&& final(h)@.set.mirrors[w].last_host_size == old(h)@.set.mirrors[w].last_host_size
            &&& final(h)@.set.mirrors[w].mapping == old(h)@.set.mirrors[w].mapping
            &&& final(h)@.set.early_frames == old(h)@.set.early_frames
        },
        !old(h)@.set.by_track.contains_key(track_id@) ==> {
            &&& r@.len() == 0
            &&& final(h)@.set.early_frames.contains_key(track_id@)
            &&& final(h)@.set.early_frames[track_id@] == frame
            &&& final(h)@.set.mirrors == old(h)@.set.mirrors
        },
        final(h)@.set.mirrors.contains_key(other) <==> old(h)@.set.mirrors.contains_key(other),
        old(h)@.set.mirrors.contains_key(other)
            ==> final(h)@.set.mirrors[other] == old(h)@.set.mirrors[other],
{
    one_by_one(r@);
    if r@.len() > 0 {
        assert(r@[0]@ == ui_views(r@)[0]);
    }
}

/// In the helper a new mirror is that of the announced window: its id, kind,
/// title and size; it is found by them, starts with the frame that came early
/// on its track, and asks to be painted.
pub proof fn helper_new_mirror_is_of_its_window(
    h: &mut HelperApp,
    a: OpenedWindow,
    w: LocalId,
    now: u64,
    r: Vec<UiAction>,
    other: LocalId,
)
    requires
        call_ensures(HelperApp::on_window_created, (h, a, w, now), r),
        other != w,
    ensures
        r@.len() == 1,
        r@[0] == (UiAction::RequestRedraw { window: w }),
        final(h)@.set.mirrors.contains_key(w),
        ({
            let m = final(h)@.set.mirrors[w];
            let early = old(h)@.set.early_frames;
            &&& m.remote_id == a.info.id
            &&& m.kind == a.kind
            &&& m.base_title == a.info.title
            &&& !m.minimized
            &&& m.last_host_size == (a.info.width, a.info.height)
            &&& m.last_move_sent == now
            &&& m.cursor.0.bits == 0
            &&& m.cursor.1.bits == 0
            &&& early.contains_key(a.track_id@) ==> m.content == mirror_app::MirrorContent::Video(
                early[a.track_id@],
            )
            &&& !early.contains_key(a.track_id@) ==> m.content is Blank
            &&& !final(h)@.set.early_frames.contains_key(a.track_id@)
            &&& final(h)@.set.by_remote.contains_key(a.info.id)
            &&& final(h)@.set.by_remote[a.info.id] == w
            &&& final(h)@.set.by_track.contains_key(a.track_id@)
                && final(h)@.set.by_track[a.track_id@] == w
            &&& old(h)@.pending_mappings.contains_key(a.info.id)
                ==> m.mapping == old(h)@.pending_mappings[a.info.id]
            &&& !old(h)@.pending_mappings.contains_key(a.info.id)
                ==> m.mapping.scale_x.bits == 0x3ff0_0000_0000_0000 && m.mapping.scale_y.bits
                == 0x3ff0_0000_0000_0000 && m.mapping.offset_x.bits == 0 && m.mapping.offset_y.bits
                == 0
        }),
        old(h)@.set.mirrors.contains_key(other) ==> final(h)@.set.mirrors.contains_key(other)
            && final(h)@.set.mirrors[other] == old(h)@.set.mirrors[other],
{
    one_by_one(r@);
    assert(r@[0]@ == ui_views(r@)[0]);
}

/// In the client a window's new title, size and state reach its own mirror: the
/// title with a note while it is minimized, the width as width and the height
/// as height; and the mirror remembers them.
pub proof fn client_mirror_follows_its_window(
    h: &mut App,
    id: WindowId,
    w: LocalId,
    msg: HostMessage,
    r: Vec<UiAction>,
    width: Scalar,
    height: Scalar,
    title: String,
)
    requires
        old(h)@.set.by_remote.contains_key(id),
        old(h)@.set.by_remote[id] == w,
        old(h)@.set.mirrors.contains_key(w),
        call_ensures(App::on_event, (h, UiEvent::Host(msg)), r),
    ensures
        ({
            let before = old(h)@.set.mirrors[w];
            let after = final(h)@.set.mirrors[w];
            &&& msg == (HostMessage::WindowMinimized { window_id: id }) ==> {
                &&& r@.len() == 1
                &&& r@[0] is SetTitle
                &&& r@[0]->SetTitle_window == w
                &&& r@[0]->title@ == before.base_title@ + " (minimized)"@
                &&& after.minimized
                &&& after.base_title == before.base_title
            }
            &&& msg == (HostMessage::WindowRestored { window_id: id }) ==> {
                &&& r@.len() == (if before.minimized { 1int } else { 0int })
                &&& before.minimized ==> r@[0] is SetTitle
                &&& before.minimized ==> r@[0]->SetTitle_window == w
                &&& before.minimized ==> r@[0]->title@ == before.base_title@
                &&& !after.minimized
                &&& after.base_title == before.base_title
            }
            &&& msg == (HostMessage::WindowResized { window_id: id, width, height }) ==> {
                &&& r@.len() == 1
                &&& r@[0] is RequestInnerSize
                &&& r@[0]->RequestInnerSize_window == w
                &&& r@[0]->width == width
                &&& r@[0]->height == height
                &&& after.last_host_size == (width, height)
                &&& after.minimized == before.minimized
            }
            &&& msg == (HostMessage::WindowTitleChanged { window_id: id, title }) ==> {
                &&& r@.len() == 1
                &&& r@[0] is SetTitle
                &&& r@[0]->SetTitle_window == w
                &&& before.minimized ==> r@[0]->title@ == title@ + " (minimized)"@
                &&& !before.minimized ==> r@[0]->title@ == title@
                &&& after.base_title == title
                &&& after.minimized == before.minimized
            }
        }),
{
    one_by_one(r@);
    if r@.len() > 0 {
        assert(r@[0]@ == ui_views(r@)[0]);
    }
}

/// In the client a message about one window leaves what its mirror paints, and
/// every other mirror, as they are.
pub proof fn client_other_mirrors_stay(
    h: &mut App,
    id: WindowId,
    w: LocalId,
    msg: HostMessage,
    r: Vec<UiAction>,
    other: LocalId,
)
    requires
        old(h)@.set.by_remote.contains_key(id),
        old(h)@.set.by_remote[id] == w,
        old(h)@.set.mirrors.contains_key(w),
        call_ensures(App::on_event, (h, UiEvent::Host(msg)), r),
        ({
            ||| msg == (HostMessage::WindowMinimized { window_id: id })
            ||| msg == (HostMessage::WindowRestored { window_id: id })
            ||| msg is WindowResized && msg->WindowResized_window_id == id
            ||| msg is WindowTitleChanged && msg->WindowTitleChanged_window_id == id
            ||| msg is InputMapping && msg->InputMapping_window_id == id
        }),
    ensures
        final(h)@.set.mirrors.contains_key(w),
        final(h)@.set.mirrors[w].content == old(h)@.set.mirrors[w].content,
        final(h)@.set.mirrors[w].remote_id == old(h)@.set.mirrors[w].remote_id,
        final(h)@.set.mirrors[w].kind == old(h)@.set.mirrors[w].kind,
        final(h)@.set.by_remote == old(h)@.set.by_remote,
        final(h)@.set.by_track == old(h)@.set.by_track,
        other != w ==> (final(h)@.set.mirrors.contains_key(other)
            <==> old(h)@.set.mirrors.contains_key(other)),
        other != w && old(h)@.set.mirrors.contains_key(other) ==> final(h)@.set.mirrors[other]
            == old(h)@.set.mirrors[other],
{
}

/// In the client a message about a window without a mirror does nothing.
pub proof fn client_ignores_strangers(
    h: &mut App,
    id: WindowId,
    msg: HostMessage,
    r: Vec<UiAction>,
)
    requires
        !old(h)@.set.by_remote.contains_key(id),
        call_ensures(App::on_event, (h, UiEvent::Host(msg)), r),
        ({
            ||| msg == (HostMessage::WindowMinimized { window_id: id })
            ||| msg == (HostMessage::WindowRestored { window_id: id })
            ||| msg is WindowResized && msg->WindowResized_window_id == id
            ||| msg is WindowTitleChanged && msg->WindowTitleChanged_window_id == id
        }),
    ensures
        r@.len() == 0,
        final(h)@ == old(h)@,
{
    one_by_one(r@);
}

/// In the client a message that is about no mirror does nothing.
pub proof fn client_ignores_other_messages(h: &mut App, msg: HostMessage, r: Vec<UiAction>)
    requires
        msg is AppAnnounced || msg is TransientBlit || msg is SdpOffer,
        call_ensures(App::on_event, (h, UiEvent::Host(msg)), r),
    ensures
        r@.len() == 0,
        final(h)@ == old(h)@,
{
    one_by_one(r@);
}

/// In the client the mirror of a closed window goes, with everything that led to
/// it, and no other does.
pub proof fn client_drops_the_closed_mirror(
    h: &mut App,
    id: WindowId,
    w: LocalId,
    r: Vec<UiAction>,
    track: Seq<char>,
    other: LocalId,
    remote: WindowId,
)
    requires
        old(h)@.set.by_remote.contains_key(id),
        old(h)@.set.by_remote[id] == w,
        call_ensures(
            App::on_event,
            (h, UiEvent::Host(HostMessage::WindowClosed { window_id: id })),
            r,
        ),
    ensures
        r@.len() >= 1,
        r@[0] == (UiAction::DropWindow { window: w }),
        !final(h)@.set.mirrors.contains_key(w),
        !final(h)@.set.by_remote.contains_key(id),
        old(h)@.set.by_track.contains_key(track) && old(h)@.set.by_track[track] == w
            ==> !final(h)@.set.by_track.contains_key(track)
            && !final(h)@.set.early_frames.contains_key(track),
        old(h)@.set.by_track.contains_key(track) && old(h)@.set.by_track[track] != w
            ==> final(h)@.set.by_track.contains_key(track)
                && final(h)@.set.by_track[track] == old(h)@.set.by_track[track],
        other != w && old(h)@.set.mirrors.contains_key(other)
            ==> final(h)@.set.mirrors.contains_key(other)
            && final(h)@.set.mirrors[other] == old(h)@.set.mirrors[other],
        remote != id && old(h)@.set.by_remote.contains_key(remote)
            ==> final(h)@.set.by_remote.contains_key(remote)
            && final(h)@.set.by_remote[remote] == old(h)@.set.by_remote[remote],
{
    one_by_one(r@);
    assert(r@[0]@ == ui_views(r@)[0]);
}

/// In the client a frame is painted by the mirror that its track leads to, and
/// by no other; a frame that comes before its mirror is kept for it.
pub proof fn client_frame_reaches_its_mirror(
    h: &mut App,
    track_id: String,
    frame: BgraFrame,
    r: Vec<UiAction>,
    w: LocalId,
    other: LocalId,
)
    requires
        call_ensures(App::on_event, (h, UiEvent::TrackFrame { track_id, frame }), r),
        old(h)@.set.by_track.contains_key(track_id@) ==> old(h)@.set.by_track[track_id@] == w
            && old(h)@.set.mirrors.contains_key(w),
        other != w,
    ensures
        old(h)@.set.by_track.contains_key(track_id@) ==> {
            &&& r@.len() == 1
            &&& r@[0] == (UiAction::RequestRedraw { window: w })
            &&& final(h)@.set.mirrors[w].content == app::MirrorContent::Video(frame)
            &&& final(h)@.set.mirrors[w].base_title == old(h)@.set.mirrors[w].base_title
            &&& final(h)@.set.mirrors[w].last_host_size == old(h)@.set.mirrors[w].last_host_size
            &&& final(h)@.set.mirrors[w].mapping == old(h)@.set.mirrors[w].mapping
            &&& final(h)@.set.early_frames == old(h)@.set.early_frames
        },
        !old(h)@.set.by_track.contains_key(track_id@) ==> {
            &&& r@.len() == 0
            &&& final(h)@.set.early_frames.contains_key(track_id@)
            &&& final(h)@.set.early_frames[track_id@] == frame
            &&& final(h)@.set.mirrors == old(h)@.set.mirrors
        },
        final(h)@.set.mirrors.contains_key(other) <==> old(h)@.set.mirrors.contains_key(other),
        old(h)@.set.mirrors.contains_key(other)
            ==> final(h)@.set.mirrors[other] == old(h)@.set.mirrors[other],
{
    one_by_one(r@);
    if r@.len() > 0 {
        assert(r@[0]@ == ui_views(r@)[0]);
    }
}

/// In the client a new mirror is that of the announced window: its id, kind,
/// title and size; it is found by them, starts with the frame that came early
/// on its track, and asks to be painted.
pub proof fn client_new_mirror_is_of_its_window(
    h: &mut App,
    a: OpenedWindow,
    w: LocalId,
    now: u64,
    r: Vec<UiAction>,
    other: LocalId,
)
    requires
        call_ensures(App::on_window_created, (h, a, w, now), r),
        other != w,
    ensures
        r@.len() == 1,
        r@[0] == (UiAction::RequestRedraw { window: w }),
        final(h)@.set.mirrors.contains_key(w),
        ({
            let m = final(h)@.set.mirrors[w];
            let early = old(h)@.set.early_frames;
            &&& m.remote_id == a.info.id
            &&& m.kind == a.kind
            &&& m.base_title == a.info.title
            &&& !m.minimized
            &&& m.last_host_size == (a.info.width, a.info.height)
            &&& m.last_move_sent == now
            &&& m.cursor.0.bits == 0
            &&& m.cursor.1.bits == 0
            &&& early.contains_key(a.track_id@) ==> m.content == app::MirrorContent::Video(
                early[a.track_id@],
            )
            &&& !early.contains_key(a.track_id@) ==> m.content is Blank
            &&& !final(h)@.set.early_frames.contains_key(a.track_id@)
            &&& final(h)@.set.by_remote.contains_key(a.info.id)
            &&& final(h)@.set.by_remote[a.info.id] == w
            &&& a.track_id@.len() > 0 ==> final(h)@.set.by_track.contains_key(a.track_id@)
                && final(h)@.set.by_track[a.track_id@] == w
            &&& m.mapping.scale_x.bits == 0x3ff0_0000_0000_0000 && m.mapping.scale_y.bits
                == 0x3ff0_0000_0000_0000 && m.mapping.offset_x.bits == 0 && m.mapping.offset_y.bits
                == 0
        }),
        old(h)@.set.mirrors.contains_key(other) ==> final(h)@.set.mirrors.contains_key(other)
            && final(h)@.set.mirrors[other] == old(h)@.set.mirrors[other],
{
    one_by_one(r@);
    assert(r@[0]@ == ui_views(r@)[0]);
}

/// The helper asks for the window of an announced one unless it has it: with
/// the window's title, its width as width and its height as height, framed and
/// resizable, and with the announcement as it came.
pub proof fn helper_opens_what_is_announced(
    h: &mut HelperApp,
    msg: HostMessage,
    r: Vec<UiAction>,
)
    requires
        msg is WindowOpened,
        call_ensures(HelperApp::on_event, (h, HelperEvent::Host(msg)), r),
    ensures
        final(h)@.saw_a_window,
        final(h)@.set == old(h)@.set,
        old(h)@.set.by_remote.contains_key(msg->WindowOpened_window_id) ==> r@.len() == 0,
        !old(h)@.set.by_remote.contains_key(msg->WindowOpened_window_id) ==> {
            let made = r@[0]->attributes;
            let a = r@[0]->announcement;
            &&& r@.len() == 1
            &&& r@[0] is CreateWindow
            &&& made.title == msg->WindowOpened_title
            &&& made.width == msg->WindowOpened_width
            &&& made.height == msg->WindowOpened_height
            &&& made.resizable
            &&& made.decorated
            &&& !made.always_on_top
            &&& !made.transparent
            &&& made.placement is None
            &&& a.info.id == msg->WindowOpened_window_id
            &&& a.info.title == msg->WindowOpened_title
            &&& a.info.width == msg->WindowOpened_width
            &&& a.info.height == msg->WindowOpened_height
            &&& a.kind == msg->kind
            &&& msg->track_id is Some ==> a.track_id@ == msg->track_id->0@
        },
{
    one_by_one(r@);
    if r@.len() > 0 {
        assert(r@[0]@ == ui_views(r@)[0]);
    }
}

/// A mapping is kept for its window, each scale and offset for its own axis,
/// and is its mirror's at once if there is one.
pub proof fn helper_mapping_reaches_its_mirror(
    h: &mut HelperApp,
    window_id: WindowId,
    scale_x: Scalar,
    scale_y: Scalar,
    offset_x: Scalar,
    offset_y: Scalar,
    r: Vec<UiAction>,
    w: LocalId,
    other: WindowId,
)
    requires
        call_ensures(
            HelperApp::on_event,
            (
                h,
                HelperEvent::Host(
                    HostMessage::InputMapping { window_id, scale_x, scale_y, offset_x, offset_y },
                ),
            ),
            r,
        ),
        other != window_id,
    ensures
        r@.len() == 0,
        final(h)@.pending_mappings.contains_key(window_id),
        final(h)@.pending_mappings[window_id].scale_x == scale_x,
        final(h)@.pending_mappings[window_id].scale_y == scale_y,
        final(h)@.pending_mappings[window_id].offset_x == offset_x,
        final(h)@.pending_mappings[window_id].offset_y == offset_y,
        old(h)@.pending_mappings.contains_key(other)
            ==> final(h)@.pending_mappings.contains_key(other)
            && final(h)@.pending_mappings[other] == old(h)@.pending_mappings[other],
        old(h)@.set.by_remote.contains_key(window_id) && old(h)@.set.by_remote[window_id] == w
            && old(h)@.set.mirrors.contains_key(w) ==> {
            let m = final(h)@.set.mirrors[w].mapping;
            m.scale_x == scale_x && m.scale_y == scale_y && m.offset_x == offset_x && m.offset_y
                == offset_y
        },
{
    one_by_one(r@);
}

/// A helper that has had a window exits, idle, when a close leaves it none,
/// and not while one is left.
pub proof fn helper_exits_with_its_last_mirror(
    h: &mut HelperApp,
    id: WindowId,
    r: Vec<UiAction>,
    left: LocalId,
)
    requires
        call_ensures(
            HelperApp::on_event,
            (h, HelperEvent::Host(HostMessage::WindowClosed { window_id: id })),
            r,
        ),
    ensures
        !final(h)@.pending_mappings.contains_key(id),
        final(h)@.set.mirrors.contains_key(left) ==> final(h)@.exit_reason == old(h)@.exit_reason
            && (r@.len() == 0 || !(r@.last() is Exit)),
        !old(h)@.saw_a_window ==> final(h)@.exit_reason == old(h)@.exit_reason,
        old(h)@.saw_a_window && (forall|v: LocalId|
            !(#[trigger] final(h)@.set.mirrors.contains_key(v))) ==> {
            &&& final(h)@.exit_reason == Some(ExitReason::Idle)
            &&& r@.len() > 0
            &&& r@.last() is Exit
        },
{
    one_by_one(r@);
    if r@.len() > 0 {
        assert(r@[r@.len() - 1]@ == ui_views(r@)[r@.len() - 1]);
    }
    if forall|v: LocalId| !(#[trigger] final(h)@.set.mirrors.contains_key(v)) {
        assert(final(h)@.set.mirrors =~= Map::<LocalId, mirror_app::Mirror>::empty());
    }
}

/// The host's icon is shown as it came, a lost connection ends the helper, and
/// its own icon stands in only until another was shown.
pub proof fn helper_shows_the_hosts_icon(
    h: &mut HelperApp,
    png: Vec<u8>,
    shown: Vec<UiAction>,
    g: &mut HelperApp,
    ended: Vec<UiAction>,
    f: &mut HelperApp,
    resumed: Vec<UiAction>,
)
    requires
        call_ensures(HelperApp::on_event, (h, HelperEvent::Icon(png)), shown),
        call_ensures(HelperApp::on_event, (g, HelperEvent::Eof), ended),
        call_ensures(HelperApp::on_resumed, (f,), resumed),
    ensures
        shown@.len() == 1,
        shown@[0] is BadgeIcon,
        shown@[0]->png@ == png@,
        final(h)@.icon_applied,
        final(h)@.set == old(h)@.set,
        ended@.len() == 1,
        ended@[0] is Exit,
        final(g)@.exit_reason == Some(ExitReason::Eof),
        final(f)@.icon_applied,
        old(f)@.icon_applied ==> resumed@.len() == 0,
        !old(f)@.icon_applied ==> resumed@.len() == 1 && resumed@[0] is DefaultIcon,
{
    one_by_one(shown@);
    one_by_one(ended@);
    one_by_one(resumed@);
    assert(shown@[0]@ == ui_views(shown@)[0]);
    assert(ended@[0]@ == ui_views(ended@)[0]);
    if resumed@.len() > 0 {
        assert(resumed@[0]@ == ui_views(resumed@)[0]);
    }
}

/// The client asks at once for the window of one without a track, unless it
/// has it. A normal window is framed and resizable; a sheet or transient is
/// bare, on top, and stands off its parent's mirror by its own offsets, and
/// only a transient is see-through.
pub proof fn client_opens_what_is_announced(
    c: &mut App,
    msg: HostMessage,
    r: Vec<UiAction>,
    parent: LocalId,
)
    requires
        msg is WindowOpened,
        msg->track_id is None,
        call_ensures(App::on_event, (c, UiEvent::Host(msg)), r),
    ensures
        final(c)@ == old(c)@,
        old(c)@.set.by_remote.contains_key(msg->WindowOpened_window_id) ==> r@.len() == 0,
        !old(c)@.set.by_remote.contains_key(msg->WindowOpened_window_id) ==> {
            let made = r@[0]->attributes;
            let a = r@[0]->announcement;
            let plain = msg->kind == WindowKind::Normal;
            &&& r@.len() == 1
            &&& r@[0] is CreateWindow
            &&& made.title == msg->WindowOpened_title
            &&& made.width == msg->WindowOpened_width
            &&& made.height == msg->WindowOpened_height
            &&& made.resizable == plain
            &&& made.decorated == plain
            &&& made.always_on_top == !plain
            &&& made.transparent == (msg->kind == WindowKind::Transient)
            &&& plain ==> made.placement is None
            &&& !plain && msg->parent_id is Some && old(c)@.set.by_remote.contains_key(
                msg->parent_id->0,
            ) && old(c)@.set.by_remote[msg->parent_id->0] == parent
                && old(c)@.set.mirrors.contains_key(parent) ==> made.placement == Some(
                (parent, msg->WindowOpened_offset_x, msg->WindowOpened_offset_y),
            )
            &&& msg->parent_id is None ==> made.placement is None
            &&& a.info.id == msg->WindowOpened_window_id
            &&& a.info.title == msg->WindowOpened_title
            &&& a.info.width == msg->WindowOpened_width
            &&& a.info.height == msg->WindowOpened_height
            &&& a.kind == msg->kind
            &&& a.parent_id == msg->parent_id
            &&& a.track_id@.len() == 0
        },
{
    one_by_one(r@);
    if r@.len() > 0 {
        assert(r@[0]@ == ui_views(r@)[0]);
    }
}

/// The client asks for the window of one with a track once both its
/// announcement and its track are there, and not before; the window is the
/// announced one.
pub proof fn client_waits_for_both_halves(
    c: &mut App,
    msg: HostMessage,
    r: Vec<UiAction>,
    d: &mut App,
    track_id: String,
    s: Vec<UiAction>,
)
    requires
        msg is WindowOpened,
        msg->track_id is Some,
        call_ensures(App::on_event, (c, UiEvent::Host(msg)), r),
        call_ensures(App::on_event, (d, UiEvent::TrackOpened { track_id }), s),
    ensures
        final(c)@.set == old(c)@.set,
        final(d)@.set == old(d)@.set,
        ({
            let key = msg->track_id->0@;
            let had = old(c)@.binder.tracks.contains_key(key);
            let live = old(c)@.set.by_remote.contains_key(msg->WindowOpened_window_id);
            &&& r@.len() == (if had && !live { 1int } else { 0int })
            &&& had && !live ==> {
                let made = r@[0]->attributes;
                let a = r@[0]->announcement;
                &&& r@[0] is CreateWindow
                &&& made.title == msg->WindowOpened_title
                &&& made.width == msg->WindowOpened_width
                &&& made.height == msg->WindowOpened_height
                &&& made.resizable == (msg->kind == WindowKind::Normal)
                &&& made.decorated == (msg->kind == WindowKind::Normal)
                &&& made.always_on_top == (msg->kind != WindowKind::Normal)
                &&& made.transparent == (msg->kind == WindowKind::Transient)
                &&& a.info.id == msg->WindowOpened_window_id
                &&& a.info.title == msg->WindowOpened_title
                &&& a.info.width == msg->WindowOpened_width
                &&& a.info.height == msg->WindowOpened_height
                &&& a.kind == msg->kind
                &&& a.parent_id == msg->parent_id
                &&& a.track_id@ == key
            }
            &&& !had ==> {
                let kept = final(c)@.binder.announcements[key];
                &&& final(c)@.binder.announcements.contains_key(key)
                &&& kept.info.id == msg->WindowOpened_window_id
                &&& kept.info.title == msg->WindowOpened_title
                &&& kept.info.width == msg->WindowOpened_width
                &&& kept.info.height == msg->WindowOpened_height
                &&& kept.kind == msg->kind
            }
        }),
        ({
            let had = old(d)@.binder.announcements.contains_key(track_id@);
            let kept = old(d)@.binder.announcements[track_id@];
            let live = old(d)@.set.by_remote.contains_key(kept.info.id);
            &&& s@.len() == (if had && !live { 1int } else { 0int })
            &&& had && !live ==> {
                let made = s@[0]->attributes;
                let a = s@[0]->announcement;
                &&& s@[0] is CreateWindow
                &&& made.title == kept.info.title
                &&& made.width == kept.info.width
                &&& made.height == kept.info.height
                &&& a.info == kept.info
                &&& a.kind == kept.kind
                &&& a.track_id@ == kept.track_id@
            }
            &&& !had ==> final(d)@.binder.tracks.contains_key(track_id@)
        }),
{
    one_by_one(r@);
    one_by_one(s@);
    if r@.len() > 0 {
        assert(r@[0]@ == ui_views(r@)[0]);
    }
    if s@.len() > 0 {
        assert(s@[0]@ == ui_views(s@)[0]);
    }
}

/// A still image is painted by its own window's mirror and by no other; one
/// that could not be decoded, or whose window is gone, changes nothing. A lost
/// connection drops every mirror and ends the client.
pub proof fn client_image_reaches_its_mirror(
    c: &mut App,
    remote: WindowId,
    img: Option<RgbaImage>,
    r: Vec<UiAction>,
    w: LocalId,
    other: LocalId,
    d: &mut App,
    s: Vec<UiAction>,
)
    requires
        call_ensures(App::on_blit, (c, remote, img), r),
        old(c)@.set.by_remote.contains_key(remote) ==> old(c)@.set.by_remote[remote] == w
            && old(c)@.set.mirrors.contains_key(w),
        other != w,
        call_ensures(App::on_event, (d, UiEvent::Disconnected), s),
    ensures
        img is Some && old(c)@.set.by_remote.contains_key(remote) ==> {
            &&& r@.len() == 1
            &&& r@[0] == (UiAction::RequestRedraw { window: w })
            &&& final(c)@.set.mirrors[w].content == app::MirrorContent::Image(img->0)
        },
        img is None || !old(c)@.set.by_remote.contains_key(remote) ==> r@.len() == 0 && final(c)@
            == old(c)@,
        old(c)@.set.mirrors.contains_key(other) ==> final(c)@.set.mirrors.contains_key(other)
            && final(c)@.set.mirrors[other] == old(c)@.set.mirrors[other],
        s@.len() == 2,
        s@[0] is DropAllWindows,
        s@[1] is Exit,
        final(d)@.disconnected,
        !final(d)@.set.mirrors.contains_key(w),
        !final(d)@.set.by_remote.contains_key(remote),
{
    one_by_one(r@);
    one_by_one(s@);
    if r@.len() > 0 {
        assert(r@[0]@ == ui_views(r@)[0]);
    }
    assert(s@[0]@ == ui_views(s@)[0]);
    assert(s@[1]@ == ui_views(s@)[1]);
}

} // verus!
