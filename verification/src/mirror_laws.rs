//! What holds of the window programs across events.

use crate::app;
use crate::mapping::InputMapping;
use crate::mirror_app;
use crate::mirror_app::{HelperEvent, HelperView};
use crate::mirrors::{LocalId, UiView, WindowInput, MOVE_INTERVAL};
use crate::model::OpenedView;
use crate::net::UiEvent;
use crate::pixels::{packed, BgraFrame};
use crate::protocol::{ClientMessage, HostMessage, WindowId};
use crate::scalar::Scalar;
use vstd::prelude::*;

verus! {

/// A frame has the bytes that its size says.
pub open spec fn whole(frame: BgraFrame) -> bool {
    packed(frame.width, frame.height, frame.data@)
}

/// The helper's invariant: its mirrors are in order, and every frame it holds
/// can be painted.
pub open spec fn helper_wf(v: HelperView) -> bool {
    &&& v.set.wf()
    &&& forall|w: LocalId| #[trigger]
        v.set.mirrors.contains_key(w) && v.set.mirrors[w].content is Video ==> whole(
            v.set.mirrors[w].content->0,
        )
    &&& forall|t: Seq<char>| #[trigger]
        v.set.early_frames.contains_key(t) ==> whole(v.set.early_frames[t])
}

/// An event keeps the helper's invariant; a frame that comes with it has the
/// bytes that its size says.
pub proof fn helper_event_keeps_wf(v: HelperView, ev: HelperEvent)
    requires
        helper_wf(v),
        ev is Frame ==> whole(ev->frame),
    ensures
        helper_wf(mirror_app::event_state(v, ev)),
{
}

/// A created window keeps the helper's invariant; the windowing system gives
/// it an id that no other window has, and its remote window had no mirror.
pub proof fn helper_creation_keeps_wf(v: HelperView, a: OpenedView, w: LocalId, now: u64)
    requires
        helper_wf(v),
        !v.set.mirrors.contains_key(w),
        !v.set.by_remote.contains_key(a.info.id),
    ensures
        helper_wf(mirror_app::created_state(v, a, w, now)),
{
}

/// Input keeps the helper's invariant.
pub proof fn helper_input_keeps_wf(v: HelperView, w: LocalId, input: WindowInput)
    requires
        helper_wf(v),
    ensures
        helper_wf(mirror_app::input_state(v, w, input)),
{
}

/// An input mapping that came before its window is the one that the window's
/// mirror starts with.
pub proof fn early_mapping_is_kept(
    v: HelperView,
    id: WindowId,
    mapping: InputMapping,
    a: OpenedView,
    w: LocalId,
    now: u64,
)
    requires
        a.info.id == id,
    ensures
        ({
            let msg = HostMessage::InputMapping {
                window_id: id,
                scale_x: mapping.scale_x,
                scale_y: mapping.scale_y,
                offset_x: mapping.offset_x,
                offset_y: mapping.offset_y,
            };
            let v1 = mirror_app::event_state(v, HelperEvent::Host(msg));
            mirror_app::created_state(v1, a, w, now).set.mirrors[w].mapping == mapping
        }),
{
}

/// A frame that came before its window is what the window's mirror starts
/// with, and it is not kept any longer.
pub proof fn early_frame_is_shown(
    v: HelperView,
    track_id: String,
    frame: BgraFrame,
    a: OpenedView,
    w: LocalId,
    now: u64,
)
    requires
        a.track_id == track_id@,
        !v.set.by_track.contains_key(track_id@),
    ensures
        ({
            let v1 = mirror_app::event_state(v, HelperEvent::Frame { track_id, frame });
            let v2 = mirror_app::created_state(v1, a, w, now);
            &&& v2.set.mirrors[w].content == mirror_app::MirrorContent::Video(frame)
            &&& !v2.set.early_frames.contains_key(track_id@)
        }),
{
}

/// A helper exits as idle exactly with its last window: a closed window ends
/// it when and only when a window was announced before and none is left.
pub proof fn helper_idles_with_its_last_window(v: HelperView, id: WindowId)
    ensures
        ({
            let ev = HelperEvent::Host(HostMessage::WindowClosed { window_id: id });
            let after = mirror_app::event_state(v, ev);
            mirror_app::event_actions(v, ev).contains(UiView::Exit) <==> v.saw_a_window
                && after.set.mirrors =~= Map::empty()
        }),
{
    let ev = HelperEvent::Host(HostMessage::WindowClosed { window_id: id });
    let actions = mirror_app::event_actions(v, ev);
    if v.closed(id).is_idle() {
        assert(actions.last() == UiView::Exit);
        assert(actions.contains(UiView::Exit));
    } else if actions.contains(UiView::Exit) {
        let i = choose|i: int| 0 <= i < actions.len() && actions[i] == UiView::Exit;
        assert(actions[i] is DropWindow);
    }
}

/// Pointer moves are coalesced: after one was sent, none is sent before the
/// interval has passed.
pub proof fn helper_moves_are_coalesced(
    v: HelperView,
    w: LocalId,
    first: (Scalar, Scalar),
    first_point: (Scalar, Scalar),
    now: u64,
    second: (Scalar, Scalar),
    second_point: (Scalar, Scalar),
    later: u64,
)
    requires
        v.set.mirrors.contains_key(w),
        now - v.set.mirrors[w].last_move_sent >= MOVE_INTERVAL,
    ensures
        ({
            let one = WindowInput::CursorMoved { position: first, point: first_point, now };
            let two = WindowInput::CursorMoved {
                position: second,
                point: second_point,
                now: later,
            };
            let v1 = mirror_app::input_state(v, w, one);
            &&& mirror_app::input_actions(v, w, one).len() == 1
            &&& mirror_app::input_actions(v1, w, two).len() == (if later - now >= MOVE_INTERVAL {
                1int
            } else {
                0
            })
            &&& mirror_app::input_state(v1, w, two).set.mirrors[w].cursor == second
        }),
{
}

/// A size that the host sets, and one that the user sets, is the size that
/// later resizes are measured against.
pub proof fn agreed_size_is_remembered(
    v: HelperView,
    id: WindowId,
    size: (Scalar, Scalar),
    w: LocalId,
)
    requires
        v.set.wf(),
        v.set.window_for(id) == Some(w),
    ensures
        mirror_app::event_state(
            v,
            HelperEvent::Host(
                HostMessage::WindowResized { window_id: id, width: size.0, height: size.1 },
            ),
        ).set.mirrors[w].last_host_size == size,
        mirror_app::input_state(
            v,
            w,
            WindowInput::Resized { size, far: true },
        ).set.mirrors[w].last_host_size == size,
        mirror_app::input_actions(v, w, WindowInput::Resized { size, far: true }).contains(
            UiView::Send {
                msg: ClientMessage::ResizeRequest {
                    window_id: id,
                    width: size.0,
                    height: size.1,
                },
            },
        ),
{
    let actions = mirror_app::input_actions(v, w, WindowInput::Resized { size, far: true });
    assert(actions.last() == UiView::Send {
        msg: ClientMessage::ResizeRequest { window_id: id, width: size.0, height: size.1 },
    });
    assert(actions.contains(actions.last()));
}

/// The client's invariant: its mirrors are in order, no track waits for an
/// announcement that is there, and all it holds can be painted.
pub open spec fn app_wf(v: app::AppView) -> bool {
    &&& v.set.wf()
    &&& v.binder.wf()
    &&& forall|w: LocalId| #[trigger]
        v.set.mirrors.contains_key(w) ==> app::paintable(v.set.mirrors[w].content)
    &&& forall|t: Seq<char>| #[trigger]
        v.set.early_frames.contains_key(t) ==> whole(v.set.early_frames[t])
}

/// An event keeps the client's invariant; a frame that comes with it has the
/// bytes that its size says.
pub proof fn app_event_keeps_wf(
    v: app::AppView,
    ev: UiEvent,
    after: app::AppView,
    actions: Seq<UiView>,
)
    requires
        app_wf(v),
        ev is TrackFrame ==> whole(ev->frame),
        app::event_step(v, ev, after, actions),
    ensures
        app_wf(after),
{
}

/// A created window keeps the client's invariant.
pub proof fn app_creation_keeps_wf(v: app::AppView, a: OpenedView, w: LocalId, now: u64)
    requires
        app_wf(v),
        !v.set.mirrors.contains_key(w),
        !v.set.by_remote.contains_key(a.info.id),
    ensures
        app_wf(app::created_state(v, a, w, now)),
{
}

/// Input keeps the client's invariant.
pub proof fn app_input_keeps_wf(v: app::AppView, w: LocalId, input: WindowInput)
    requires
        app_wf(v),
    ensures
        app_wf(app::input_state(v, w, input)),
{
}

/// A window is only ever asked for when its remote window has no mirror.
pub proof fn app_never_doubles_a_mirror(
    v: app::AppView,
    ev: UiEvent,
    after: app::AppView,
    actions: Seq<UiView>,
    i: int,
)
    requires
        app::event_step(v, ev, after, actions),
        0 <= i < actions.len(),
        actions[i] is CreateWindow,
    ensures
        !after.set.by_remote.contains_key(actions[i]->announcement.info.id),
{
}

/// A frame that came before its window is what the window's mirror starts
/// with, in the single-process client too, and it is not kept any longer.
pub proof fn app_early_frame_is_shown(
    v: app::AppView,
    track_id: String,
    frame: BgraFrame,
    after: app::AppView,
    actions: Seq<UiView>,
    a: OpenedView,
    w: LocalId,
    now: u64,
)
    requires
        app::event_step(v, UiEvent::TrackFrame { track_id, frame }, after, actions),
        a.track_id == track_id@,
        !v.set.by_track.contains_key(track_id@),
    ensures
        ({
            let v2 = app::created_state(after, a, w, now);
            &&& v2.set.mirrors[w].content == app::MirrorContent::Video(frame)
            &&& !v2.set.early_frames.contains_key(track_id@)
        }),
{
}

} // verus!
