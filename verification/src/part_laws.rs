//! What holds of the smaller parts that the programs are made of.

use crate::app::App;
use crate::blit::{BlitAssembler, MissingChunk};
use crate::codec::{CodecError, DecodedPicture, H264Decoder, H264Encoder};
use crate::coordinator::{
    frame_views, icon_frames, replay_frames, replay_of, windows_frames, AppState, CoordAction,
    HelperManager,
};
use crate::h264::DecoderCall;
use crate::host_blit::BlitLoop;
use crate::ids::sorted_keys;
use crate::input::{
    click_event_of, AxInput, ClickEvent, InputError, InputPlan, InputSink, PidInput, WindowWork,
};
use crate::ipc::{DownFrame, FrameReader, IpcError};
use crate::mapping::{FrameMeta, MetaFilter};
use crate::mirror_app::{ExitReason, HelperApp};
use crate::mirrors::{
    action_of, button_to_forward, cg_flags, plain_attributes, title_to_show, LocalButton, LocalId,
    Mirror, MirrorEdit, MirrorSet, Modifiers, WindowAttributes,
};
use crate::model::{OpenedWindow, TrackBinder};
use crate::names::NameMap;
use crate::net::{DecodeErrorLog, Inbox};
use crate::peer::PendingAnswers;
use crate::pipeline::{FrameSlot, Pipeline};
use crate::pixels::{i420_to_bgra, BgraFrame};
use crate::protocol::{HostMessage, MouseAction, MouseButton, WindowId};
use crate::router::VideoRouter;
use crate::scalar::Scalar;
use crate::session::MappingForwarder;
use crate::{app, mirror_app};
use std::collections::HashMap;
use vstd::prelude::*;

verus! {

/// A table keeps under each name what was put there last, gives it back and
/// away, and leaves every other name alone.
pub proof fn table_keeps_what_was_put(
    m: &mut NameMap<u64>,
    key: String,
    value: u64,
    before: Option<u64>,
    after: &NameMap<u64>,
    name: &str,
    got: Option<&u64>,
    there: bool,
    n: &mut NameMap<u64>,
    taken: Option<u64>,
    other: Seq<char>,
)
    requires
        call_ensures(NameMap::<u64>::insert, (m, key, value), before),
        *after == *final(m),
        name@ == key@,
        call_ensures(NameMap::<u64>::get, (after, name), got),
        call_ensures(NameMap::<u64>::contains_key, (after, name), there),
        *old(n) == *final(m),
        call_ensures(NameMap::<u64>::remove, (n, name), taken),
        other != key@,
    ensures
        before is Some <==> old(m)@.contains_key(key@),
        before is Some ==> before->0 == old(m)@[key@],
        there,
        got is Some,
        *got->0 == value,
        taken == Some(value),
        !final(n)@.contains_key(key@),
        final(n)@.contains_key(other) <==> old(m)@.contains_key(other),
        old(m)@.contains_key(other) ==> final(n)@[other] == old(m)@[other],
{
}

/// A new table is empty, and names none of its entries twice.
pub proof fn table_names_its_entries_once(
    fresh: NameMap<u64>,
    m: &NameMap<u64>,
    names: Vec<String>,
    key: Seq<char>,
    i: int,
    j: int,
)
    requires
        call_ensures(NameMap::<u64>::new, (), fresh),
        call_ensures(NameMap::<u64>::keys, (m,), names),
        0 <= i < j < names@.len(),
    ensures
        !fresh@.contains_key(key),
        names@[i]@ != names@[j]@,
{
}

/// The keys of a table come in ascending order, each key once and nothing
/// else.
pub proof fn keys_come_in_order(m: &HashMap<u32, u64>, r: Vec<u32>, i: int, j: int, x: u32)
    requires
        call_ensures(sorted_keys::<u64>, (m,), r),
        0 <= i < j < r@.len(),
    ensures
        r@[i] < r@[j],
        r@.contains(x) <==> m@.contains_key(x),
{
}

/// The event of a click says which button it was and whether it went down.
pub proof fn click_is_told_by_its_event(button: MouseButton, action: MouseAction, e: ClickEvent)
    requires
        call_ensures(click_event_of, (button, action), e),
    ensures
        e == ClickEvent::LeftMouseDown <==> button == MouseButton::Left && action
            == MouseAction::Down,
        e == ClickEvent::LeftMouseUp <==> button == MouseButton::Left && action == MouseAction::Up,
        e == ClickEvent::RightMouseDown <==> button == MouseButton::Right && action
            == MouseAction::Down,
        e == ClickEvent::RightMouseUp <==> button == MouseButton::Right && action
            == MouseAction::Up,
{
}

/// A sink knows the processes that it was handed last, and each window by its
/// own.
pub proof fn sinks_know_their_processes(
    pids: HashMap<WindowId, i32>,
    a: AxInput,
    p: PidInput,
    b: &mut AxInput,
    set_b: (),
    q: &mut PidInput,
    set_q: (),
    sink: &PidInput,
    w: WindowId,
    found: Result<i32, InputError>,
)
    requires
        call_ensures(AxInput::new, (pids,), a),
        call_ensures(PidInput::new, (pids,), p),
        call_ensures(AxInput::set_pid_map, (b, pids), set_b),
        call_ensures(PidInput::set_pid_map, (q, pids), set_q),
        call_ensures(PidInput::pid, (sink, w), found),
    ensures
        a@ == pids@,
        p@ == pids@,
        final(b)@ == pids@,
        final(q)@ == pids@,
        found is Ok <==> sink@.contains_key(w),
        found is Ok ==> found->Ok_0 == sink@[w],
        found is Err ==> found->Err_0 == (InputError::UnknownWindow { window_id: w }),
{
}

/// A piece of work is planned as the method that is made for it plans it.
pub proof fn work_is_planned_as_its_kind(
    a: &AxInput,
    p: &PidInput,
    w: WindowId,
    x: Scalar,
    y: Scalar,
    button: MouseButton,
    action: MouseAction,
    by_a: Result<InputPlan, InputError>,
    planned_a: Result<InputPlan, InputError>,
    by_p: Result<InputPlan, InputError>,
    planned_p: Result<InputPlan, InputError>,
    sized: Result<InputPlan, InputError>,
    planned_size: Result<InputPlan, InputError>,
)
    requires
        call_ensures(AxInput::mouse, (a, w, x, y, button, action), by_a),
        call_ensures(AxInput::plan, (a, w, WindowWork::Mouse { x, y, button, action }), planned_a),
        call_ensures(PidInput::mouse, (p, w, x, y, button, action), by_p),
        call_ensures(PidInput::plan, (p, w, WindowWork::Mouse { x, y, button, action }), planned_p),
        call_ensures(AxInput::resize_window, (a, w, x, y), sized),
        call_ensures(
            AxInput::plan,
            (a, w, WindowWork::Resize { width: x, height: y }),
            planned_size,
        ),
    ensures
        by_a == planned_a,
        by_p == planned_p,
        sized == planned_size,
{
}

/// Each modifier has its own bit: shift the seventeenth, control the next,
/// then alt and command.
pub proof fn modifiers_have_their_bits(m: Modifiers, f: u64, none: Modifiers, zero: u64)
    requires
        call_ensures(cg_flags, (m,), f),
        call_ensures(Modifiers::none, (), none),
        call_ensures(cg_flags, (none,), zero),
    ensures
        f / 131072 % 2 == (if m.shift { 1int } else { 0int }),
        f / 262144 % 2 == (if m.control { 1int } else { 0int }),
        f / 524288 % 2 == (if m.alt { 1int } else { 0int }),
        f / 1048576 == (if m.command { 1int } else { 0int }),
        f % 131072 == 0,
        zero == 0,
{
}

/// The left and the right button are forwarded as themselves, any other not at
/// all; a press is a down and a release an up.
pub proof fn buttons_are_forwarded_as_themselves(
    b: LocalButton,
    r: Option<MouseButton>,
    pressed: bool,
    a: MouseAction,
)
    requires
        call_ensures(button_to_forward, (b,), r),
        call_ensures(action_of, (pressed,), a),
    ensures
        b == LocalButton::Left <==> r == Some(MouseButton::Left),
        b == LocalButton::Right <==> r == Some(MouseButton::Right),
        b == LocalButton::Other <==> r is None,
        pressed <==> a == MouseAction::Down,
        !pressed <==> a == MouseAction::Up,
{
}

/// A mirror's title is the window's, with a note while it is minimized; a plain
/// mirror has the window's title, its width as width and its height as height.
pub proof fn mirrors_are_titled_and_sized(
    title: &String,
    minimized: bool,
    shown: String,
    width: Scalar,
    height: Scalar,
    a: WindowAttributes,
)
    requires
        call_ensures(title_to_show, (title, minimized), shown),
        call_ensures(plain_attributes, (title, width, height), a),
    ensures
        !minimized ==> shown@ == title@,
        minimized ==> shown@ == title@ + seq![
            ' ', '(', 'm', 'i', 'n', 'i', 'm', 'i', 'z', 'e', 'd', ')',
        ],
        a.title == *title,
        a.width == width,
        a.height == height,
        a.resizable,
        a.decorated,
        !a.always_on_top,
        !a.transparent,
        a.placement is None,
{
    reveal_strlit(" (minimized)");
    assert(" (minimized)"@ =~= seq![
        ' ', '(', 'm', 'i', 'n', 'i', 'm', 'i', 'z', 'e', 'd', ')',
    ]);
}

/// An edit changes the one thing that it is of, in the one mirror that it is
/// for.
pub proof fn edit_changes_one_thing(
    s: &mut MirrorSet<u64>,
    w: LocalId,
    edit: MirrorEdit<u64>,
    done: bool,
    other: LocalId,
)
    requires
        call_ensures(MirrorSet::<u64>::edit, (s, w, edit), done),
        old(s)@.mirrors.contains_key(w),
        other != w,
    ensures
        done,
        ({
            let (m, n) = (old(s)@.mirrors[w], final(s)@.mirrors[w]);
            &&& final(s)@.mirrors.contains_key(w)
            &&& n.content == (if edit is Content { edit->content } else { m.content })
            &&& n.minimized == (if edit is Minimized { edit->minimized } else { m.minimized })
            &&& n.base_title == (if edit is Title { edit->title } else { m.base_title })
            &&& n.last_host_size == (if edit is HostSize { edit->size } else { m.last_host_size })
            &&& n.cursor == (if edit is Cursor { edit->position } else { m.cursor })
            &&& n.last_move_sent == (if edit is MoveSent { edit->now } else { m.last_move_sent })
            &&& n.mapping == (if edit is Mapping { edit->mapping } else { m.mapping })
            &&& n.remote_id == m.remote_id
            &&& n.kind == m.kind
        }),
        final(s)@.mirrors.contains_key(other) <==> old(s)@.mirrors.contains_key(other),
        old(s)@.mirrors.contains_key(other) ==> final(s)@.mirrors[other]
            == old(s)@.mirrors[other],
        final(s)@.by_remote == old(s)@.by_remote,
        final(s)@.by_track == old(s)@.by_track,
        final(s)@.early_frames == old(s)@.early_frames,
{
}

/// A set of mirrors finds a mirror by its window, its remote window and its
/// track, and knows when it has none.
pub proof fn mirrors_are_found(
    s: &MirrorSet<u64>,
    w: LocalId,
    m: Option<&Mirror<u64>>,
    remote: WindowId,
    known: bool,
    at: Option<LocalId>,
    track: &str,
    led: Option<LocalId>,
    empty: bool,
)
    requires
        call_ensures(MirrorSet::<u64>::mirror, (s, w), m),
        call_ensures(MirrorSet::<u64>::knows_remote, (s, remote), known),
        call_ensures(MirrorSet::<u64>::mirror_for_remote, (s, remote), at),
        call_ensures(MirrorSet::<u64>::window_of_track, (s, track), led),
        call_ensures(MirrorSet::<u64>::is_empty, (s,), empty),
    ensures
        m is Some <==> s@.mirrors.contains_key(w),
        m is Some ==> *m->0 == s@.mirrors[w],
        known <==> s@.by_remote.contains_key(remote),
        at is Some <==> s@.by_remote.contains_key(remote) && s@.mirrors.contains_key(
            s@.by_remote[remote],
        ),
        at is Some ==> at->0 == s@.by_remote[remote],
        led is Some <==> s@.by_track.contains_key(track@),
        led is Some ==> led->0 == s@.by_track[track@],
        empty ==> !s@.mirrors.contains_key(w),
        (forall|v: LocalId| !(#[trigger] s@.mirrors.contains_key(v))) ==> empty,
{
    if forall|v: LocalId| !(#[trigger] s@.mirrors.contains_key(v)) {
        assert(s@.mirrors =~= Map::<LocalId, Mirror<u64>>::empty());
    }
}

/// An early frame is kept under its track and given away once; clearing forgets
/// the mirrors and keeps the early frames.
pub proof fn early_frames_are_given_once(
    s: &mut MirrorSet<u64>,
    track: String,
    frame: BgraFrame,
    kept: (),
    t: &mut MirrorSet<u64>,
    name: &str,
    taken: Option<BgraFrame>,
    c: &mut MirrorSet<u64>,
    cleared: (),
    w: LocalId,
    remote: WindowId,
    removed: &mut MirrorSet<u64>,
    window: Option<LocalId>,
)
    requires
        call_ensures(MirrorSet::<u64>::keep_early, (s, track, frame), kept),
        *old(t) == *final(s),
        name@ == track@,
        call_ensures(MirrorSet::<u64>::take_early, (t, name), taken),
        call_ensures(MirrorSet::<u64>::clear, (c,), cleared),
        call_ensures(MirrorSet::<u64>::remove_remote, (removed, remote), window),
    ensures
        taken == Some(frame),
        !final(t)@.early_frames.contains_key(track@),
        final(t)@.mirrors == old(s)@.mirrors,
        !final(c)@.mirrors.contains_key(w),
        !final(c)@.by_remote.contains_key(remote),
        !final(c)@.by_track.contains_key(track@),
        final(c)@.early_frames == old(c)@.early_frames,
        window is Some <==> old(removed)@.by_remote.contains_key(remote),
        window is Some ==> window->0 == old(removed)@.by_remote[remote]
            && !final(removed)@.mirrors.contains_key(window->0),
        !final(removed)@.by_remote.contains_key(remote),
{
}

/// A new mirror is the announced window's.
pub proof fn added_mirror_is_the_announced_ones(
    s: &mut MirrorSet<u64>,
    w: LocalId,
    a: OpenedWindow,
    content: u64,
    now: u64,
    mapping: crate::mapping::InputMapping,
    by_track: bool,
    done: (),
)
    requires
        call_ensures(
            MirrorSet::<u64>::add_mirror,
            (s, w, a, content, now, mapping, by_track),
            done,
        ),
    ensures
        final(s)@.mirrors.contains_key(w),
        ({
            let m = final(s)@.mirrors[w];
            &&& m.content == content
            &&& m.remote_id == a.info.id
            &&& m.kind == a.kind
            &&& m.base_title == a.info.title
            &&& !m.minimized
            &&& m.last_host_size == (a.info.width, a.info.height)
            &&& m.last_move_sent == now
            &&& m.mapping == mapping
        }),
        final(s)@.by_remote.contains_key(a.info.id),
        final(s)@.by_remote[a.info.id] == w,
        by_track ==> final(s)@.by_track.contains_key(a.track_id@)
            && final(s)@.by_track[a.track_id@] == w,
        !by_track ==> final(s)@.by_track == old(s)@.by_track,
{
}

/// A message that is no piece of an image changes nothing; a piece is taken as
/// its parts say, with the bytes that its text decodes to. What cannot be put
/// together is an error of its window.
pub proof fn pieces_are_taken_from_their_messages(
    a: &mut BlitAssembler,
    msg: &HostMessage,
    r: Result<Option<(WindowId, Vec<u8>)>, MissingChunk>,
    b: &mut BlitAssembler,
    data: Option<Vec<u8>>,
    s: Option<Vec<u8>>,
    f: &mut BlitAssembler,
    window_id: WindowId,
    forgot: (),
    other: WindowId,
)
    requires
        call_ensures(BlitAssembler::try_push, (a, msg), r),
        r is Ok,
        msg is TransientBlit,
        crate::b64::base64_data(msg->data_b64@) is Some ==> data is Some && data->0@
            == crate::b64::base64_data(msg->data_b64@)->0,
        crate::b64::base64_data(msg->data_b64@) is None ==> data is None,
        *old(b) == *old(a),
        call_ensures(
            BlitAssembler::accept,
            (
                b,
                msg->TransientBlit_window_id,
                msg->seq,
                msg->chunk_index,
                msg->chunk_count,
                data,
            ),
            s,
        ),
        !crate::blit::push_has_gap(old(a)@, *msg),
        call_ensures(BlitAssembler::forget, (f, window_id), forgot),
        other != window_id,
    ensures
        final(a)@ == final(b)@,
        r->Ok_0 is Some <==> s is Some,
        s is Some ==> (r->Ok_0->0).0 == msg->TransientBlit_window_id && (r->Ok_0->0).1@ == s->0@,
        !final(f)@.partials.contains_key(window_id),
        !final(f)@.completed.contains_key(window_id),
        final(f)@.partials.contains_key(other) <==> old(f)@.partials.contains_key(other),
        final(f)@.completed.contains_key(other) <==> old(f)@.completed.contains_key(other),
{
}

/// Two descriptions of a frame are the same when each of their parts is.
pub proof fn metadata_is_the_same_part_by_part(a: &FrameMeta, b: &FrameMeta, r: bool, d: FrameMeta)
    requires
        call_ensures(<FrameMeta as PartialEq>::eq, (a, b), r),
        call_ensures(<FrameMeta as Default>::default, (), d),
    ensures
        ({
            let (p, q) = (a.content_rect->0, b.content_rect->0);
            let (s, t) = (a.bounding_rect->0, b.bounding_rect->0);
            r <==> {
                &&& a.width_px == b.width_px
                &&& a.height_px == b.height_px
                &&& a.content_rect is Some == b.content_rect is Some
                &&& a.content_scale is Some == b.content_scale is Some
                &&& a.scale_factor is Some == b.scale_factor is Some
                &&& a.bounding_rect is Some == b.bounding_rect is Some
                &&& a.content_scale is Some ==> a.content_scale->0.same_number(b.content_scale->0)
                &&& a.scale_factor is Some ==> a.scale_factor->0.same_number(b.scale_factor->0)
                &&& a.content_rect is Some ==> p.0.same_number(q.0) && p.1.same_number(q.1)
                    && p.2.same_number(q.2) && p.3.same_number(q.3)
                &&& a.bounding_rect is Some ==> s.0.same_number(t.0) && s.1.same_number(t.1)
                    && s.2.same_number(t.2) && s.3.same_number(t.3)
            }
        }),
        d.width_px == 0,
        d.height_px == 0,
        d.content_rect is None,
        d.content_scale is None,
        d.scale_factor is None,
        d.bounding_rect is None,
{
}

/// A stream may end between two frames only; inside one it tells whether the
/// header or the body was cut.
pub proof fn stream_ends_between_frames(f: &FrameReader, r: Result<(), IpcError>)
    requires
        f.wf(),
        call_ensures(FrameReader::finish, (f,), r),
    ensures
        r is Ok <==> f@.len() == 0,
        0 < f@.len() < 4 ==> r is Err && r->Err_0 == (IpcError::TruncatedHeader {
            filled: f@.len() as u8,
        }),
        f@.len() >= 4 ==> r is Err && r->Err_0 == IpcError::TruncatedBody,
{
}

/// The decoder is handed an access unit as it is, once; a frame comes of a
/// picture that its planes hold, with the picture's size.
pub proof fn decoder_is_handed_the_unit(
    d: &mut H264Decoder,
    unit: &[u8],
    r: Result<Option<BgraFrame>, CodecError>,
)
    requires
        call_ensures(H264Decoder::decode, (d, unit), r),
    ensures
        ({
            let n = old(d).calls().len() as int;
            let made = final(d).calls()[n];
            &&& final(d).calls().len() == n + 1
            &&& final(d).calls().take(n) == old(d).calls()
            &&& made.packet == unit@
            &&& made.outcome is Err ==> r is Err && r->Err_0 == CodecError::Decode
            &&& made.outcome is Ok && made.outcome->Ok_0 is None ==> r is Ok && r->Ok_0 is None
            &&& made.outcome is Ok && made.outcome->Ok_0 is Some && r is Ok ==> {
                let p = made.outcome->Ok_0->0;
                r->Ok_0 is Some && r->Ok_0->0.width == p.width && r->Ok_0->0.height == p.height
            }
        }),
{
    let outcome = choose|outcome: Result<Option<DecodedPicture>, ()>| #[trigger]
        crate::codec::becomes(outcome, r) && final(d).calls() == old(d).calls().push(
            DecoderCall { packet: unit@, outcome },
        );
    assert(final(d).calls() == old(d).calls().push(DecoderCall { packet: unit@, outcome }));
    assert(final(d).calls().take(old(d).calls().len() as int) =~= old(d).calls());
}

/// A keyframe request is kept for the next frame; a new encoder has had none
/// and no frame.
pub proof fn keyframe_request_is_kept(
    e: &mut H264Encoder,
    asked: (),
    fresh: Result<H264Encoder, CodecError>,
    seen: &H264Encoder,
    full: bool,
)
    requires
        call_ensures(H264Encoder::force_idr, (e,), asked),
        call_ensures(H264Encoder::new, (), fresh),
        call_ensures(H264Encoder::is_full, (seen,), full),
    ensures
        final(e).idr_requested(),
        final(e).frames() == old(e).frames(),
        final(e).calls() == old(e).calls(),
        fresh is Ok ==> fresh->Ok_0.frames() == 0 && !fresh->Ok_0.idr_requested()
            && fresh->Ok_0.calls().len() == 0,
        fresh is Err ==> fresh->Err_0 == CodecError::EncoderInit,
        full <==> seen.frames() == u64::MAX,
{
}

/// A picture is whole when each plane holds its rows, and its frame is the one
/// that its planes and strides make.
pub proof fn whole_picture_has_its_frame(
    p: &DecodedPicture,
    whole: bool,
    f: BgraFrame,
    y: &[u8],
    u: &[u8],
    v: &[u8],
    g: BgraFrame,
)
    requires
        0 < p.width <= u32::MAX,
        0 < p.height <= u32::MAX,
        p.width * p.height * 4 <= isize::MAX,
        call_ensures(DecodedPicture::is_whole, (p,), whole),
        whole ==> call_ensures(DecodedPicture::to_frame, (p,), f),
        y@ == p.y@,
        u@ == p.u@,
        v@ == p.v@,
        whole ==> call_ensures(
            i420_to_bgra,
            (
                p.width as u32,
                p.height as u32,
                y,
                u,
                v,
                p.strides.0,
                p.strides.1,
                p.strides.2,
            ),
            g,
        ),
    ensures
        whole <==> {
            &&& (p.height - 1) * p.strides.0 + p.width <= p.y@.len()
            &&& ((p.height + 1) / 2 - 1) * p.strides.1 + (p.width + 1) / 2 <= p.u@.len()
            &&& ((p.height + 1) / 2 - 1) * p.strides.2 + (p.width + 1) / 2 <= p.v@.len()
        },
        whole ==> f.width == p.width && f.height == p.height && f.data@ == g.data@,
{
}

/// The oldest renegotiation is taken first, and a discarded one is gone while
/// the others wait on.
pub proof fn renegotiations_wait_in_line(
    p: &mut PendingAnswers<u64>,
    r: Option<(u64, u64)>,
    q: &mut PendingAnswers<u64>,
    generation: u64,
    done: (),
    i: int,
    seen: &PendingAnswers<u64>,
    full: bool,
    fresh: PendingAnswers<u64>,
)
    requires
        call_ensures(PendingAnswers::<u64>::take_pending_answer, (p,), r),
        call_ensures(PendingAnswers::<u64>::discard_pending_answer, (q, generation), done),
        call_ensures(PendingAnswers::<u64>::is_full, (seen,), full),
        call_ensures(PendingAnswers::<u64>::new, (), fresh),
    ensures
        r is Some <==> old(p)@.queue.len() > 0,
        r is Some ==> r->0 == old(p)@.queue[0] && final(p)@.queue.len() == old(p)@.queue.len() - 1,
        r is Some && 0 <= i < final(p)@.queue.len() ==> final(p)@.queue[i] == old(p)@.queue[i + 1],
        0 <= i < final(q)@.queue.len() ==> final(q)@.queue[i].0 != generation,
        0 <= i < old(q)@.queue.len() && old(q)@.queue[i].0 != generation
            ==> final(q)@.queue.contains(old(q)@.queue[i]),
        final(q)@.generation == old(q)@.generation,
        full <==> seen@.generation == u64::MAX,
        fresh@.queue.len() == 0,
        fresh@.generation == 0,
{
    crate::peer::discarded_generation_gets_no_answer(q@, generation, i);
}

/// The frames that rebuild a helper start with the icon, if there is one, and
/// go on with the windows.
pub proof fn replay_starts_with_the_icon(state: &AppState, frames: Vec<DownFrame>)
    requires
        call_ensures(replay_frames, (state,), frames),
    ensures
        state.icon_png@.len() > 0 ==> frames@.len() > 0 && frames@[0] is Icon
            && frames@[0]->Icon_0@ == state.icon_png@,
        state.icon_png@.len() == 0 && frames@.len() > 0 ==> frames@[0] is Control,
{
    let views = frame_views(frames@);
    assert(views.len() == frames@.len());
    assert(views == replay_of(state@));
    if frames@.len() > 0 {
        assert(views[0] == frames@[0]@);
    }
    let ids = crate::ids::in_order(state@.windows.dom());
    controls_only(state@, ids, 0);
    if state.icon_png@.len() > 0 {
        assert(replay_of(state@)[0] == icon_frames(state@)[0]);
    } else {
        assert(replay_of(state@) =~= windows_frames(state@, ids));
    }
}

proof fn controls_only(app: crate::coordinator::AppView, ids: Seq<WindowId>, k: int)
    ensures
        0 <= k < windows_frames(app, ids).len() ==> windows_frames(app, ids)[k] is Control,
    decreases ids.len(),
{
    if ids.len() > 0 {
        controls_only(app, ids.drop_last(), k);
    }
}

/// A new application asks for a bundle under its own id and name, with the icon
/// that was decoded.
pub proof fn announcement_asks_for_its_bundle(
    m: &HelperManager,
    app_id: u32,
    name: String,
    icon: Option<Vec<u8>>,
    r: Vec<CoordAction>,
)
    requires
        call_ensures(HelperManager::on_announced, (m, app_id, name, icon), r),
    ensures
        m@.apps.contains_key(app_id) ==> r@.len() == 0,
        !m@.apps.contains_key(app_id) ==> {
            &&& r@.len() == 1
            &&& r@[0] is EnsureBundle
            &&& r@[0]->EnsureBundle_app_id == app_id
            &&& r@[0]->name@ == name@
            &&& icon is Some ==> r@[0]->icon_png@ == icon->0@
            &&& icon is None ==> r@[0]->icon_png@.len() == 0
        },
{
    let views = crate::coordinator::action_views(r@);
    assert(views.len() == r@.len());
    if r@.len() > 0 {
        assert(r@[0]@ == views[0]);
    }
}

/// What is new has nothing in it.
pub proof fn new_programs_are_empty(
    h: HelperApp,
    c: App,
    m: HelperManager,
    l: BlitLoop,
    window_id: WindowId,
    a: BlitAssembler,
    b: TrackBinder<u64>,
    f: MappingForwarder,
    r: VideoRouter<u64>,
    i: Inbox,
    e: DecodeErrorLog,
    p: Pipeline,
    s: FrameSlot,
    w: u64,
    k: u32,
    t: Seq<char>,
)
    requires
        call_ensures(HelperApp::new, (), h),
        call_ensures(App::new, (), c),
        call_ensures(HelperManager::new, (), m),
        call_ensures(BlitLoop::new, (window_id,), l),
        call_ensures(BlitAssembler::new, (), a),
        call_ensures(TrackBinder::<u64>::new, (), b),
        call_ensures(MappingForwarder::new, (), f),
        call_ensures(VideoRouter::<u64>::new, (), r),
        call_ensures(Inbox::new, (), i),
        call_ensures(DecodeErrorLog::new, (), e),
        call_ensures(Pipeline::new, (), p),
        call_ensures(FrameSlot::new, (), s),
    ensures
        !h@.set.mirrors.contains_key(w) && !h@.saw_a_window && h@.exit_reason is None
            && !h@.icon_applied,
        !h@.modifiers.shift && !h@.modifiers.control && !h@.modifiers.alt && !h@.modifiers.command,
        !h@.pending_mappings.contains_key(k) && !h@.set.by_remote.contains_key(k)
            && !h@.set.by_track.contains_key(t) && !h@.set.early_frames.contains_key(t),
        !c@.set.mirrors.contains_key(w) && !c@.disconnected,
        !c@.modifiers.shift && !c@.modifiers.control && !c@.modifiers.alt && !c@.modifiers.command,
        !c@.set.by_remote.contains_key(k) && !c@.binder.tracks.contains_key(t)
            && !c@.binder.announcements.contains_key(t),
        !c@.set.by_track.contains_key(t) && !c@.set.early_frames.contains_key(t),
        !m@.apps.contains_key(k) && !m@.app_of_window.contains_key(k)
            && !m@.app_of_track.contains_key(t) && m@.taken_dirs.len() == 0,
        l@.window_id == window_id && l@.seq == 0 && l@.failures == 0 && l@.last_rgba is None,
        !a@.partials.contains_key(k) && !a@.completed.contains_key(k),
        !b@.tracks.contains_key(t) && !b@.announcements.contains_key(t),
        !f@.contains_key(k),
        !r.routes().contains_key(t) && !r.progress().contains_key(t),
        !i@.partials.contains_key(k) && !i@.completed.contains_key(k),
        e@.last_warn is None && e@.suppressed == 0,
        p@.frame is None && !p@.shutdown && !p@.idr && p@.sent == 0,
        s@ is None,
{
}

/// What a program says of itself is what it knows.
pub proof fn programs_tell_what_they_know(
    h: &HelperApp,
    reason: Option<ExitReason>,
    w: LocalId,
    m: Option<&mirror_app::Mirror>,
    c: &App,
    lost: bool,
    n: Option<&app::Mirror>,
    l: &DecodeErrorLog,
    now: u64,
    room: bool,
    p: &Pipeline,
    full: bool,
    f: MetaFilter,
)
    requires
        call_ensures(HelperApp::exit_reason, (h,), reason),
        call_ensures(HelperApp::mirror, (h, w), m),
        call_ensures(App::disconnected, (c,), lost),
        call_ensures(App::mirror, (c, w), n),
        call_ensures(DecodeErrorLog::has_room, (l, now), room),
        call_ensures(Pipeline::is_full, (p,), full),
        call_ensures(MetaFilter::new, (), f),
    ensures
        reason == h@.exit_reason,
        m is Some <==> h@.set.mirrors.contains_key(w),
        m is Some ==> *m->0 == h@.set.mirrors[w],
        lost == c@.disconnected,
        n is Some <==> c@.set.mirrors.contains_key(w),
        n is Some ==> *n->0 == c@.set.mirrors[w],
        l@.suppressed < u32::MAX ==> room,
        l@.last_warn is None ==> room,
        full <==> p@.sent == u64::MAX,
        f.last.width_px == 0,
        f.last.height_px == 0,
        f.last.content_rect is None,
        f.last.content_scale is None,
        f.last.scale_factor is None,
        f.last.bounding_rect is None,
{
}

} // verus!
