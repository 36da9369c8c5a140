//! What becomes of frames, access units, images and descriptions on their
//! way.

use crate::classify::classify;
use crate::codec::{
    access_unit, frame_of_outcome, plan_frame, CodecError, DecodedPicture, EncodePlan, H264Encoder,
};
use crate::helper::{exit_status, on_decoded, on_down_frame, probe_ack, ReaderStep};
use crate::image::{decode_png, encode_png, image_of_picture, ImageError};
use crate::ipc::{DownFrame, UpMessage};
use crate::mirror_app::{ExitReason, HelperEvent, ProgressThrottle};
use crate::model::AxRole;
use crate::net::{DecodeErrorLog, Inbox, UiEvent};
use crate::peer::{
    client_dispatch, host_dispatch, is_disconnect, track_key, AnswerStep, ClientDispatch,
    HostDispatch, PeerState, PendingAnswers,
};
use crate::pipeline::{FrameSlot, Pipeline, PipelineStep};
use crate::pixels::{bgra_to_i420, i420_to_bgra, BgraFrame, I420Frame, RgbaImage};
use crate::protocol::{ClientMessage, HostMessage, WindowKind};
use crate::router::VideoRouter;
use crate::signalling::{
    description_in, description_of, description_text, is_offer_request, offer_of_request, Description,
    OfferStep,
};
use vstd::prelude::*;

verus! {

/// Off the base layer a window is a transient; on it accessibility tells a
/// sheet from a normal window.
pub proof fn windows_are_classified(layer: i64, role: AxRole, kind: WindowKind)
    requires
        call_ensures(classify, (layer, role), kind),
    ensures
        kind == WindowKind::Transient <==> layer != 0,
        kind == WindowKind::Sheet <==> layer == 0 && role == AxRole::Sheet,
        kind == WindowKind::Normal <==> layer == 0 && role != AxRole::Sheet,
{
}

/// An access unit goes as it is, under its track's own name, to the channel
/// that was set for the track last, and nowhere when none is.
pub proof fn unit_goes_to_its_tracks_channel(
    r: &mut VideoRouter<u64>,
    track: &str,
    tx: u64,
    set: (),
    after: &VideoRouter<u64>,
    au: Vec<u8>,
    sent: Option<(&u64, DownFrame)>,
    c: &mut VideoRouter<u64>,
    cleared: (),
    without: &VideoRouter<u64>,
    none: Option<(&u64, DownFrame)>,
    other: Seq<char>,
)
    requires
        call_ensures(VideoRouter::<u64>::set_route, (r, track, tx), set),
        *after == *final(r),
        call_ensures(VideoRouter::<u64>::forward, (after, track, au), sent),
        call_ensures(VideoRouter::<u64>::clear_route, (c, track), cleared),
        *without == *final(c),
        call_ensures(VideoRouter::<u64>::forward, (without, track, au), none),
        other != track@,
    ensures
        sent is Some,
        *(sent->0).0 == tx,
        (sent->0).1 is Video,
        (sent->0).1->track_id@ == track@,
        (sent->0).1->au@ == au@,
        none is None,
        final(r).routes().contains_key(other) <==> old(r).routes().contains_key(other),
        old(r).routes().contains_key(other) ==> final(r).routes()[other] == old(r).routes()[other],
        final(r).progress() == old(r).progress(),
        final(c).routes().contains_key(other) <==> old(c).routes().contains_key(other),
        old(c).routes().contains_key(other) ==> final(c).routes()[other] == old(c).routes()[other],
        !final(c).progress().contains_key(track@),
{
}

/// A track is stalled until it first reports progress, and again once 1.2
/// seconds have passed since; forgotten progress counts as none.
pub proof fn stall_is_told_by_the_clock(
    r: &mut VideoRouter<u64>,
    track: &str,
    then: u64,
    marked: (),
    after: &VideoRouter<u64>,
    now: u64,
    stalled: bool,
    c: &mut VideoRouter<u64>,
    cleared: (),
    without: &VideoRouter<u64>,
    again: bool,
    other: Seq<char>,
)
    requires
        call_ensures(VideoRouter::<u64>::mark_progress, (r, track, then), marked),
        *after == *final(r),
        call_ensures(VideoRouter::<u64>::stalled, (after, track, now), stalled),
        call_ensures(VideoRouter::<u64>::clear_progress, (c, track), cleared),
        *without == *final(c),
        call_ensures(VideoRouter::<u64>::stalled, (without, track, now), again),
        other != track@,
    ensures
        stalled <==> now > then + 1_200_000_000,
        again,
        final(r).routes() == old(r).routes(),
        final(c).routes() == old(c).routes(),
        final(r).progress().contains_key(other) <==> old(r).progress().contains_key(other),
        old(r).progress().contains_key(other) ==> final(r).progress()[other]
            == old(r).progress()[other],
        final(c).progress().contains_key(other) <==> old(c).progress().contains_key(other),
        old(c).progress().contains_key(other) ==> final(c).progress()[other]
            == old(c).progress()[other],
{
}

/// Every message but a piece of an image reaches the windows as it came, and a
/// closed window's pieces are forgotten.
pub proof fn messages_reach_the_windows(i: &mut Inbox, msg: HostMessage, r: Option<UiEvent>)
    requires
        call_ensures(Inbox::on_host_message, (i, msg), r),
    ensures
        !(msg is TransientBlit) ==> r == Some(UiEvent::Host(msg)),
        msg is TransientBlit && r is Some ==> r->0 is Blit && r->0->window_id
            == msg->TransientBlit_window_id,
        msg is WindowClosed ==> !final(i)@.partials.contains_key(msg->WindowClosed_window_id)
            && !final(i)@.completed.contains_key(msg->WindowClosed_window_id),
        !(msg is TransientBlit) && !(msg is WindowClosed) ==> final(i)@ == old(i)@,
{
}

/// An error is reported at once when none was for a second, with the number of
/// those kept back since; any other is kept back and counted.
pub proof fn errors_are_reported_by_the_second(l: &mut DecodeErrorLog, now: u64, r: Option<u32>)
    requires
        old(l)@.suppressed < u32::MAX,
        call_ensures(DecodeErrorLog::on_error, (l, now), r),
    ensures
        r is Some <==> old(l)@.last_warn is None || now >= old(l)@.last_warn->0 + 1_000_000_000,
        r is Some ==> r->0 == old(l)@.suppressed && final(l)@.suppressed == 0
            && final(l)@.last_warn == Some(now),
        r is None ==> final(l)@.suppressed == old(l)@.suppressed + 1 && final(l)@.last_warn
            == old(l)@.last_warn,
{
}

/// The encoder gets the frame that was pushed last, once, and as a keyframe
/// exactly when one was asked for; a stopped pipeline stops it whatever waits.
pub proof fn encoder_gets_the_newest_frame(
    p: &mut Pipeline,
    frame: BgraFrame,
    pushed: (),
    q: &mut Pipeline,
    step: PipelineStep,
    again: &mut Pipeline,
    next: PipelineStep,
)
    requires
        call_ensures(Pipeline::push, (p, frame), pushed),
        *old(q) == *final(p),
        call_ensures(Pipeline::next, (q,), step),
        *old(again) == *final(q),
        call_ensures(Pipeline::next, (again,), next),
    ensures
        final(p)@.idr == old(p)@.idr,
        final(p)@.shutdown == old(p)@.shutdown,
        final(p)@.sent == old(p)@.sent,
        old(p)@.shutdown ==> step is Stop && next is Stop,
        !old(p)@.shutdown ==> {
            &&& step is Encode
            &&& step->frame == frame
            &&& step->force_idr == old(p)@.idr
            &&& !final(q)@.idr
            &&& next is Wait
        },
{
}

/// A keyframe request and a stop are kept, and change nothing else; a request
/// outlasts looks at an empty pipeline.
pub proof fn requests_are_kept(
    p: &mut Pipeline,
    asked: (),
    s: &mut Pipeline,
    stopped: (),
    q: &mut Pipeline,
    step: PipelineStep,
    before: &Pipeline,
    ready: bool,
)
    requires
        call_ensures(Pipeline::request_idr, (p,), asked),
        call_ensures(Pipeline::stop, (s,), stopped),
        old(q)@.frame is None,
        *before == *old(q),
        call_ensures(Pipeline::next, (q,), step),
        call_ensures(Pipeline::is_ready, (before,), ready),
    ensures
        final(p)@.idr,
        final(p)@.frame == old(p)@.frame,
        final(p)@.shutdown == old(p)@.shutdown,
        final(s)@.shutdown,
        final(s)@.frame == old(s)@.frame,
        final(s)@.idr == old(s)@.idr,
        final(q)@.idr == old(q)@.idr,
        step is Stop <==> old(q)@.shutdown,
        step is Wait <==> !old(q)@.shutdown,
        ready <==> old(q)@.shutdown,
{
}

/// Every three-hundredth sample is reported, by its number.
pub proof fn every_three_hundredth_sample_is_reported(p: &mut Pipeline, r: Option<u64>)
    requires
        old(p)@.sent < u64::MAX,
        call_ensures(Pipeline::on_sent, (p,), r),
    ensures
        final(p)@.sent == old(p)@.sent + 1,
        final(p)@.frame == old(p)@.frame,
        r is Some <==> (old(p)@.sent + 1) % 300 == 0,
        r is Some ==> r->0 == old(p)@.sent + 1,
{
}

/// A slot holds the frame that was pushed last and gives it once.
pub proof fn slot_holds_the_newest(
    s: &mut FrameSlot,
    frame: BgraFrame,
    pushed: (),
    t: &mut FrameSlot,
    taken: Option<BgraFrame>,
)
    requires
        call_ensures(FrameSlot::push, (s, frame), pushed),
        *old(t) == *final(s),
        call_ensures(FrameSlot::take, (t,), taken),
    ensures
        taken == Some(frame),
        final(t)@ is None,
{
}

/// The reader hands messages and icons on as they came and has every access
/// unit decoded as its own track's.
pub proof fn reader_hands_frames_on(frame: DownFrame, s: ReaderStep)
    requires
        call_ensures(on_down_frame, (frame,), s),
    ensures
        frame is Control ==> s is Tell && s->ev is Host && s->ev->Host_0 == frame->Control_0,
        frame is Icon ==> s is Tell && s->ev is Icon && s->ev->Icon_0 == frame->Icon_0,
        frame is Video ==> s is Decode && s->track_id == frame->track_id && s->au == frame->au,
{
}

/// A decoded frame is shown on its own track, and its progress is reported,
/// for that track, first and then every quarter of a second.
pub proof fn decoded_frame_is_shown(
    t: &mut ProgressThrottle,
    track_id: String,
    frame: BgraFrame,
    now: u64,
    r: (Option<UpMessage>, HelperEvent),
)
    requires
        call_ensures(on_decoded, (t, track_id, frame, now), r),
    ensures
        r.1 is Frame,
        r.1->track_id == track_id,
        r.1->frame == frame,
        r.0 is Some <==> !old(t)@.contains_key(track_id@) || now >= old(t)@[track_id@]
            + 250_000_000,
        r.0 is Some ==> r.0->0 == (UpMessage::DecodeProgress { track_id }),
        r.0 is Some ==> final(t)@.contains_key(track_id@) && final(t)@[track_id@] == now,
        r.0 is None ==> final(t)@ == old(t)@,
{
}

/// Only an idle helper exits with the idle code, and a probe acknowledges each
/// announced window by its own id and nothing else.
pub proof fn helper_answers(
    reason: Option<ExitReason>,
    code: i32,
    frame: &DownFrame,
    ack: Option<UpMessage>,
)
    requires
        call_ensures(exit_status, (reason,), code),
        call_ensures(probe_ack, (frame,), ack),
    ensures
        reason == Some(ExitReason::Idle) ==> code == 42,
        reason != Some(ExitReason::Idle) ==> code == 0,
        ack is Some <==> frame is Control && frame->Control_0 is WindowOpened,
        ack is Some ==> ack->0 == (UpMessage::Relay {
            msg: ClientMessage::FocusChange {
                window_id: frame->Control_0->WindowOpened_window_id,
            },
        }),
{
}

/// A frame with an odd side is refused; of any other the encoder gets the
/// frame's own planes, as a keyframe when one was asked for and at every
/// three-hundredth frame from the first on.
pub proof fn plan_is_of_its_frame(
    frame: &BgraFrame,
    count: u64,
    asked: bool,
    r: Result<EncodePlan, CodecError>,
    planes: I420Frame,
)
    requires
        frame.width % 2 == 0 && frame.height % 2 == 0 ==> frame.data@.len() == frame.width
            * frame.height * 4,
        call_ensures(plan_frame, (frame, count, asked), r),
        frame.width % 2 == 0 && frame.height % 2 == 0 ==> call_ensures(
            bgra_to_i420,
            (frame,),
            planes,
        ),
    ensures
        r is Ok <==> frame.width % 2 == 0 && frame.height % 2 == 0,
        r is Err ==> r->Err_0 == (CodecError::OddDimensions {
            width: frame.width,
            height: frame.height,
        }),
        r is Ok ==> {
            let plan = r->Ok_0;
            &&& plan.force_idr <==> asked || count % 300 == 0
            &&& plan.planes.width == frame.width
            &&& plan.planes.height == frame.height
            &&& plan.planes.y@ == planes.y@
            &&& plan.planes.u@ == planes.u@
            &&& plan.planes.v@ == planes.v@
        },
{
}

/// A frame that is handed over takes the keyframe request with it: the encoder
/// is asked for a keyframe first exactly when one is due or was asked for, and
/// then gets the frame's own planes. An empty output is no access unit.
pub proof fn encoder_is_called_for_its_frame(
    e: &mut H264Encoder,
    frame: &BgraFrame,
    r: Result<Option<Vec<u8>>, CodecError>,
    planes: I420Frame,
)
    requires
        frame.width % 2 == 0,
        frame.height % 2 == 0,
        frame.width <= i32::MAX,
        frame.height <= i32::MAX,
        frame.data@.len() == frame.width * frame.height * 4,
        old(e).frames() < u64::MAX,
        call_ensures(H264Encoder::encode_bgra, (e, frame), r),
        call_ensures(bgra_to_i420, (frame,), planes),
    ensures
        final(e).frames() == old(e).frames() + 1,
        !final(e).idr_requested(),
        ({
            let before = old(e).calls();
            let after = final(e).calls();
            let key = old(e).idr_requested() || old(e).frames() % 300 == 0;
            let n = before.len() as int;
            let last = after.len() - 1;
            &&& after.len() == n + (if key { 2int } else { 1int })
            &&& after.take(n) == before
            &&& key ==> after[n] is IntraRequest
            &&& after[last] is Frame
            &&& after[last]->width == frame.width
            &&& after[last]->height == frame.height
            &&& after[last]->y == planes.y@
            &&& after[last]->u == planes.u@
            &&& after[last]->v == planes.v@
            &&& after[last]->bits is None ==> r is Err && r->Err_0 == CodecError::Encode
            &&& after[last]->bits is Some && after[last]->bits->0.len() == 0 ==> r is Ok
                && r->Ok_0 is None
            &&& after[last]->bits is Some && after[last]->bits->0.len() > 0 ==> r is Ok
                && r->Ok_0 is Some && r->Ok_0->0@ == after[last]->bits->0
        }),
{
    let bits = choose|bits: Option<Seq<u8>>| #[trigger]
        crate::codec::is_unit_of(r, bits) && final(e).calls() == old(e).calls()
            + crate::codec::calls_for(*frame, old(e).frames(), old(e).idr_requested(), bits);
    let before = old(e).calls();
    let more = crate::codec::calls_for(*frame, old(e).frames(), old(e).idr_requested(), bits);
    assert(final(e).calls() == before + more);
    assert((before + more).take(before.len() as int) =~= before);
    let n = before.len() as int;
    assert((before + more)[n] == more[0]);
    assert((before + more)[n + more.len() - 1] == more[more.len() - 1]);
}

/// A frame with an odd side is refused before the encoder sees it, and leaves
/// a keyframe request to the next.
pub proof fn odd_frame_is_refused(
    e: &mut H264Encoder,
    frame: &BgraFrame,
    r: Result<Option<Vec<u8>>, CodecError>,
)
    requires
        frame.width % 2 == 1 || frame.height % 2 == 1,
        old(e).frames() < u64::MAX,
        call_ensures(H264Encoder::encode_bgra, (e, frame), r),
    ensures
        r is Err,
        r->Err_0 == (CodecError::OddDimensions { width: frame.width, height: frame.height }),
        final(e).frames() == old(e).frames(),
        final(e).idr_requested() == old(e).idr_requested(),
        final(e).calls() == old(e).calls(),
{
}

/// A decoded picture becomes the frame that its planes and strides make, if
/// they hold it; a refusal and a missing picture stay what they are.
pub proof fn decoded_picture_becomes_its_frame(
    p: DecodedPicture,
    r: Result<Option<BgraFrame>, CodecError>,
    none: Result<Option<BgraFrame>, CodecError>,
    refused: Result<Option<BgraFrame>, CodecError>,
    y: &[u8],
    u: &[u8],
    v: &[u8],
    f: BgraFrame,
)
    requires
        call_ensures(frame_of_outcome, (Ok(Some(p)),), r),
        call_ensures(frame_of_outcome, (Ok(None),), none),
        call_ensures(frame_of_outcome, (Err(()),), refused),
        p.wf(),
        y@ == p.y@,
        u@ == p.u@,
        v@ == p.v@,
        call_ensures(
            i420_to_bgra,
            (
                p.width as u32,
                p.height as u32,
                y,
                u,
                v,
                p.strides.0,
                p.strides.1,
                p.strides.2,
            ),
            f,
        ),
    ensures
        none is Ok && none->Ok_0 is None,
        refused is Err && refused->Err_0 == CodecError::Decode,
        r is Ok,
        r->Ok_0 is Some,
        r->Ok_0->0.width == p.width,
        r->Ok_0->0.height == p.height,
        r->Ok_0->0.data@ == f.data@,
{
    assert(p.width * p.height * 4 <= isize::MAX);
}

/// A picture whose planes do not hold it is refused: a whole one has, in each
/// plane, all rows but the last a stride apart and the last one's samples.
pub proof fn torn_picture_is_refused(p: DecodedPicture, r: Result<Option<BgraFrame>, CodecError>)
    requires
        call_ensures(frame_of_outcome, (Ok(Some(p)),), r),
        0 < p.width <= u32::MAX,
        0 < p.height <= u32::MAX,
        (p.height - 1) * p.strides.0 + p.width > p.y@.len() || ((p.height + 1) / 2 - 1)
            * p.strides.1 + (p.width + 1) / 2 > p.u@.len() || ((p.height + 1) / 2 - 1)
            * p.strides.2 + (p.width + 1) / 2 > p.v@.len(),
    ensures
        r is Err,
        r->Err_0 == CodecError::BadPicture,
{
}

/// An output is an access unit unless it is empty.
pub proof fn output_is_an_access_unit(bits: Vec<u8>, r: Option<Vec<u8>>)
    requires
        call_ensures(access_unit, (bits,), r),
    ensures
        r is None <==> bits@.len() == 0,
        r is Some ==> r->0 == bits,
{
}

/// A colour picture keeps its samples; in a grey one every pixel is grey in
/// its own brightness, with its own alpha. No picture is no image.
pub proof fn picture_becomes_its_image(
    width: u32,
    height: u32,
    samples: usize,
    data: Vec<u8>,
    r: Result<RgbaImage, ImageError>,
    none: Result<RgbaImage, ImageError>,
    p: int,
)
    requires
        samples == 2 || samples == 4,
        data@.len() == width * height * samples,
        call_ensures(image_of_picture, (Some((width, height, samples, data)),), r),
        call_ensures(image_of_picture, (None,), none),
        0 <= p < width * height,
    ensures
        none is Err && none->Err_0 == ImageError::Malformed,
        r is Ok,
        r->Ok_0.width == width,
        r->Ok_0.height == height,
        r->Ok_0.data@.len() == width * height * 4,
        samples == 4 ==> r->Ok_0.data@ == data@,
        samples == 2 ==> {
            let d = r->Ok_0.data@;
            &&& d[4 * p] == data@[2 * p]
            &&& d[4 * p + 1] == data@[2 * p]
            &&& d[4 * p + 2] == data@[2 * p]
            &&& d[4 * p + 3] == data@[2 * p + 1]
        },
{
    let k = 4 * p;
    assert(k / 4 == p && (k + 1) / 4 == p && (k + 2) / 4 == p && (k + 3) / 4 == p);
    assert(k % 4 == 0 && (k + 1) % 4 == 1 && (k + 2) % 4 == 2 && (k + 3) % 4 == 3);
}

/// An image without pixels, or whose data does not fit its size, has no file;
/// any other one's file, read again, is the image.
pub proof fn image_survives_its_file(
    img: &RgbaImage,
    r: Result<Vec<u8>, ImageError>,
    bytes: &[u8],
    back: Result<RgbaImage, ImageError>,
)
    requires
        call_ensures(encode_png, (img,), r),
        r is Ok ==> bytes@ == r->Ok_0@,
        call_ensures(decode_png, (bytes,), back),
    ensures
        r is Ok <==> img.width > 0 && img.height > 0 && img.data@.len() == img.width * img.height
            * 4,
        img.width == 0 || img.height == 0 ==> r is Err && r->Err_0 == ImageError::Empty,
        img.width > 0 && img.height > 0 && r is Err ==> r->Err_0 == ImageError::WrongLength,
        r is Ok && img.width <= 1_048_576 ==> {
            &&& back is Ok
            &&& back->Ok_0.width == img.width
            &&& back->Ok_0.height == img.height
            &&& back->Ok_0.data@ == img.data@
        },
{
}

/// Answers to offers and offers are the connection's own business; everything
/// else is delivered as it came.
pub proof fn messages_are_dispatched(
    to_host: ClientMessage,
    h: HostDispatch,
    to_client: HostMessage,
    c: ClientDispatch,
)
    requires
        call_ensures(host_dispatch, (to_host,), h),
        call_ensures(client_dispatch, (to_client,), c),
    ensures
        to_host is SdpAnswer ==> h is Answer && h->sdp == to_host->sdp,
        !(to_host is SdpAnswer) ==> h is Deliver && h->msg == to_host,
        to_client is SdpOffer ==> c is Offer && c->sdp == to_client->sdp,
        !(to_client is SdpOffer) ==> c is Deliver && c->msg == to_client,
{
}

/// A track is known by its own id, and by its stream's only when it has none;
/// a connection is lost once it is disconnected, failed or closed.
pub proof fn tracks_and_states_are_told_apart(
    id: String,
    stream: String,
    key: String,
    state: PeerState,
    lost: bool,
)
    requires
        call_ensures(track_key, (id, stream), key),
        call_ensures(is_disconnect, (state,), lost),
    ensures
        id@.len() > 0 ==> key == id,
        id@.len() == 0 ==> key == stream,
        lost <==> state == PeerState::Disconnected || state == PeerState::Failed || state
            == PeerState::Closed,
{
}

/// A renegotiation is answered in its turn: the first that waits gets the next
/// answer that is one, and the others wait on in their order.
pub proof fn answers_go_to_the_oldest(
    p: &mut PendingAnswers<u64>,
    sdp: &str,
    r: AnswerStep<u64>,
    q: &mut PendingAnswers<u64>,
    tx: u64,
    generation: u64,
    i: int,
)
    requires
        call_ensures(PendingAnswers::<u64>::on_answer, (p, sdp), r),
        old(q)@.generation < u64::MAX,
        call_ensures(PendingAnswers::<u64>::push_pending_answer, (q, tx), generation),
    ensures
        r is Malformed <==> description_in(sdp@) is None,
        r is NoneWaiting <==> description_in(sdp@) is Some && old(p)@.queue.len() == 0,
        r is Deliver ==> {
            &&& r->to == old(p)@.queue[0].1
            &&& description_in(sdp@) == Some(r->answer@)
            &&& final(p)@.queue.len() == old(p)@.queue.len() - 1
            &&& 0 <= i < final(p)@.queue.len() ==> final(p)@.queue[i] == old(p)@.queue[i + 1]
        },
        !(r is Deliver) ==> final(p)@ == old(p)@,
        generation == old(q)@.generation + 1,
        final(q)@.queue.len() == old(q)@.queue.len() + 1,
        final(q)@.queue.last() == (generation, tx),
        0 <= i < old(q)@.queue.len() ==> final(q)@.queue[i] == old(q)@.queue[i],
{
}

/// A description is read as it was written, and an offer is one that is posted
/// to `/offer`; anything else is not found, and what is no description is
/// malformed.
pub proof fn offers_are_recognised(
    d: &Description,
    text: String,
    body: &str,
    read: Option<Description>,
    is_post: bool,
    url: &str,
    asked: bool,
    step: OfferStep,
)
    requires
        call_ensures(description_text, (d,), text),
        body@ == text@,
        call_ensures(description_of, (body,), read),
        call_ensures(is_offer_request, (is_post, url), asked),
        call_ensures(offer_of_request, (is_post, url, body), step),
    ensures
        read is Some,
        read->0.kind == d.kind,
        read->0.sdp@ == d.sdp@,
        asked <==> is_post && url@ == seq!['/', 'o', 'f', 'f', 'e', 'r'],
        step is NotFound <==> !asked,
        asked ==> step is Offer && step->offer.kind == d.kind && step->offer.sdp@ == d.sdp@,
{
    reveal_strlit("/offer");
    assert("/offer"@ =~= seq!['/', 'o', 'f', 'f', 'e', 'r']);
}

} // verus!
