//! How frames and images stand on the wire, byte by byte.

use crate::b64::base64_data;
use crate::blit::{
    at_most, chunk_blit, chunk_of, chunk_total, is_chunk, joined, push_has_gap, BlitAssembler,
    MissingChunk,
};
use crate::bytes::{le32_round_trip, le32_value, push_le16, push_le32, read_le16, read_le32};
use crate::host_blit::{pause, BlitLoop, BlitStep};
use crate::image::{encode_png, ImageError};
use crate::ipc::{
    down_frame_reads_back, frame_bytes, parse_down, parse_up, payload_of, read_down, read_frame,
    read_up, tag_of, up_message_reads_back, write_down, write_frame, write_up, FrameReader, IpcError,
    WireFrame, WireView,
};
use crate::net::{Inbox, UiEvent};
use crate::pixels::RgbaImage;
use crate::protocol::{HostMessage, WindowId};
use vstd::prelude::*;

verus! {

/// Numbers are written with their lowest byte first and read back as they are.
pub proof fn numbers_are_little_endian(
    out: &mut Vec<u8>,
    x: u32,
    wrote: (),
    two: &mut Vec<u8>,
    y: u16,
    wrote_two: (),
    b: &[u8],
    at: usize,
    read: u32,
    read_two: u16,
)
    requires
        call_ensures(push_le32, (out, x), wrote),
        call_ensures(push_le16, (two, y), wrote_two),
        at + 4 <= b@.len(),
        call_ensures(read_le32, (b, at), read),
        call_ensures(read_le16, (b, at), read_two),
    ensures
        ({
            let n = old(out)@.len() as int;
            let w = final(out)@;
            &&& w.len() == n + 4
            &&& w.take(n) == old(out)@
            &&& x == w[n] + 256 * w[n + 1] + 65536 * w[n + 2] + 16777216 * w[n + 3]
        }),
        ({
            let n = old(two)@.len() as int;
            let w = final(two)@;
            &&& w.len() == n + 2
            &&& w.take(n) == old(two)@
            &&& y == w[n] + 256 * w[n + 1]
        }),
        read == b@[at as int] + 256 * b@[at + 1] + 65536 * b@[at + 2] + 16777216 * b@[at + 3],
        read_two == b@[at as int] + 256 * b@[at + 1],
{
    assert(final(out)@.take(old(out)@.len() as int) =~= old(out)@);
    assert(final(two)@.take(old(two)@.len() as int) =~= old(two)@);
}

/// A frame stands behind what was there: the length of tag and payload, lowest
/// byte first, the tag, and the payload as it is. One of more than thirty-two
/// megabytes is refused and nothing written.
pub proof fn frame_layout(
    out: &mut Vec<u8>,
    tag: u8,
    payload: &[u8],
    r: Result<(), IpcError>,
    i: int,
)
    requires
        call_ensures(write_frame, (out, tag, payload), r),
    ensures
        r is Ok <==> payload@.len() + 1 <= 33_554_432,
        r is Err ==> r->Err_0 == IpcError::FrameTooLarge && final(out)@ == old(out)@,
        r is Ok ==> {
            let n = old(out)@.len() as int;
            let w = final(out)@;
            &&& w.len() == n + 5 + payload@.len()
            &&& w.take(n) == old(out)@
            &&& w[n] + 256 * w[n + 1] + 65536 * w[n + 2] + 16777216 * w[n + 3] == payload@.len() + 1
            &&& w[n + 4] == tag
            &&& 0 <= i < payload@.len() ==> w[n + 5 + i] == payload@[i]
        },
{
    if r is Ok {
        let n = old(out)@.len() as int;
        assert(final(out)@.take(n) =~= old(out)@);
        le32_round_trip((payload@.len() + 1) as int);
    }
}

/// Control messages, access units and icons have the tags 0, 1 and 2. The
/// first and the last are written as they are; an access unit stands behind
/// its track's id and the id's length.
pub proof fn down_frame_layout(
    out: &mut Vec<u8>,
    f: &WireFrame,
    r: Result<(), IpcError>,
    i: int,
)
    requires
        call_ensures(write_down, (out, f), r),
    ensures
        ({
            let n = old(out)@.len() as int;
            let w = final(out)@;
            match *f {
                WireFrame::Control(json) => {
                    &&& r is Ok <==> json@.len() + 1 <= 33_554_432
                    &&& r is Err ==> r->Err_0 == IpcError::FrameTooLarge
                    &&& r is Ok ==> w.len() == n + 5 + json@.len() && w[n + 4] == 0
                    &&& r is Ok && 0 <= i < json@.len() ==> w[n + 5 + i] == json@[i]
                },
                WireFrame::Icon(png) => {
                    &&& r is Ok <==> png@.len() + 1 <= 33_554_432
                    &&& r is Err ==> r->Err_0 == IpcError::FrameTooLarge
                    &&& r is Ok ==> w.len() == n + 5 + png@.len() && w[n + 4] == 2
                    &&& r is Ok && 0 <= i < png@.len() ==> w[n + 5 + i] == png@[i]
                },
                WireFrame::Video { track_id, au } => {
                    let id = vstd::utf8::encode_utf8(track_id@);
                    &&& r is Ok <==> id.len() <= 65_535 && 2 + id.len() + au@.len() + 1
                        <= 33_554_432
                    &&& id.len() > 65_535 ==> r is Err && r->Err_0 == IpcError::TrackIdTooLong
                    &&& id.len() <= 65_535 && r is Err ==> r->Err_0 == IpcError::FrameTooLarge
                    &&& r is Ok ==> w.len() == n + 7 + id.len() + au@.len() && w[n + 4] == 1
                    &&& r is Ok ==> w[n + 5] + 256 * w[n + 6] == id.len()
                    &&& r is Ok && 0 <= i < id.len() ==> w[n + 7 + i] == id[i]
                    &&& r is Ok && 0 <= i < au@.len() ==> w[n + 7 + id.len() + i] == au@[i]
                },
            }
        }),
        r is Ok ==> final(out)@.take(old(out)@.len() as int) == old(out)@,
        r is Err ==> final(out)@ == old(out)@,
{
    if r is Ok {
        let n = old(out)@.len() as int;
        assert(final(out)@.take(n) =~= old(out)@);
    }
}

/// What was written is read back as it was, and the reader stands behind it.
pub proof fn down_frame_is_read_back(
    out: &mut Vec<u8>,
    f: &WireFrame,
    wrote: Result<(), IpcError>,
    b: &[u8],
    rest: Seq<u8>,
    pos: &mut usize,
    r: Result<Option<WireFrame>, IpcError>,
)
    requires
        call_ensures(write_down, (out, f), wrote),
        wrote is Ok,
        b@ == final(out)@ + rest,
        *old(pos) == old(out)@.len(),
        call_ensures(read_down, (b, pos), r),
    ensures
        r is Ok,
        r->Ok_0 is Some,
        r->Ok_0->0@ == f@,
        *final(pos) == final(out)@.len(),
{
    let n = old(out)@.len() as int;
    let bytes = frame_bytes(tag_of(f@), payload_of(f@));
    assert(b@.subrange(n, b@.len() as int) =~= bytes + rest);
    down_frame_reads_back(f@, rest);
}

/// An up message is a control frame of its text, and is read back as it was.
pub proof fn up_message_is_read_back(
    out: &mut Vec<u8>,
    json: &[u8],
    wrote: Result<(), IpcError>,
    b: &[u8],
    rest: Seq<u8>,
    pos: &mut usize,
    r: Result<Option<Vec<u8>>, IpcError>,
)
    requires
        call_ensures(write_up, (out, json), wrote),
        wrote is Ok,
        b@ == final(out)@ + rest,
        *old(pos) == old(out)@.len(),
        call_ensures(read_up, (b, pos), r),
    ensures
        final(out)@.len() == old(out)@.len() + 5 + json@.len(),
        final(out)@[old(out)@.len() as int + 4] == 0,
        r is Ok,
        r->Ok_0 is Some,
        r->Ok_0->0@ == json@,
        *final(pos) == final(out)@.len(),
{
    let n = old(out)@.len() as int;
    assert(b@.subrange(n, b@.len() as int) =~= frame_bytes(0, json@) + rest);
    up_message_reads_back(json@, rest);
}

/// A reader takes what the length says, tag first. It ends cleanly only where
/// nothing is left, and says what is wrong with anything else.
pub proof fn frame_is_read_by_its_length(
    b: &[u8],
    pos: &mut usize,
    r: Result<Option<(u8, Vec<u8>)>, IpcError>,
    i: int,
)
    requires
        *old(pos) <= b@.len(),
        call_ensures(read_frame, (b, pos), r),
    ensures
        ({
            let p = *old(pos) as int;
            let left = b@.len() - p;
            let len = b@[p] + 256 * b@[p + 1] + 65536 * b@[p + 2] + 16777216 * b@[p + 3];
            &&& left == 0 ==> r is Ok && r->Ok_0 is None
            &&& 0 < left < 4 ==> r is Err && r->Err_0 == (IpcError::TruncatedHeader {
                filled: left as u8,
            })
            &&& left >= 4 && (len == 0 || len > 33_554_432) ==> r is Err && r->Err_0 == (
            IpcError::BadLength { len: len as u32 })
            &&& left >= 4 && 0 < len <= 33_554_432 && left < 4 + len ==> r is Err && r->Err_0
                == IpcError::TruncatedBody
            &&& left >= 4 && 0 < len <= 33_554_432 && left >= 4 + len ==> {
                &&& r is Ok
                &&& r->Ok_0 is Some
                &&& (r->Ok_0->0).0 == b@[p + 4]
                &&& (r->Ok_0->0).1@.len() == len - 1
                &&& 0 <= i < len - 1 ==> (r->Ok_0->0).1@[i] == b@[p + 5 + i]
                &&& *final(pos) == p + 4 + len
            }
            &&& r is Err || r->Ok_0 is None ==> *final(pos) == p
        }),
{
    let p = *old(pos) as int;
    let rest = b@.subrange(p, b@.len() as int);
    if rest.len() >= 4 {
        assert(rest[0] == b@[p] && rest[1] == b@[p + 1] && rest[2] == b@[p + 2] && rest[3] == b@[p
            + 3]);
        let len = le32_value(rest);
        if 0 < len <= 33_554_432 && rest.len() >= 4 + len {
            let payload = rest.subrange(5, 4 + len);
            assert((r->Ok_0->0).1@ == payload);
            if 0 <= i < len - 1 {
                assert(payload[i] == rest[5 + i]);
            }
        }
    }
}

/// A payload is what its tag says. An access unit is cut where its id's length
/// says, and anything short of that is refused; no other tag stands for
/// anything, and of the up messages only the control tag does.
pub proof fn payload_is_what_its_tag_says(
    tag: u8,
    payload: Vec<u8>,
    r: Result<WireFrame, IpcError>,
    up: Result<Vec<u8>, IpcError>,
    i: int,
)
    requires
        call_ensures(parse_down, (tag, payload), r),
        call_ensures(parse_up, (tag, payload), up),
    ensures
        tag == 0 ==> r is Ok && r->Ok_0@ == WireView::Control(payload@),
        tag == 2 ==> r is Ok && r->Ok_0@ == WireView::Icon(payload@),
        tag > 2 ==> r is Err && r->Err_0 == (IpcError::UnknownTag { tag }),
        tag == 1 && payload@.len() < 2 ==> r is Err && r->Err_0 == IpcError::VideoTooShort,
        tag == 1 && payload@.len() >= 2 ==> {
            let n = payload@[0] + 256 * payload@[1];
            let id = payload@.subrange(2, 2 + n);
            &&& payload@.len() < 2 + n ==> r is Err && r->Err_0 == IpcError::TrackIdTruncated
            &&& payload@.len() >= 2 + n && !vstd::utf8::valid_utf8(id) ==> r is Err && r->Err_0
                == IpcError::TrackIdNotUtf8
            &&& payload@.len() >= 2 + n && vstd::utf8::valid_utf8(id) ==> {
                &&& r is Ok
                &&& r->Ok_0 is Video
                &&& r->Ok_0->track_id@ == vstd::utf8::decode_utf8(id)
                &&& r->Ok_0->au@.len() == payload@.len() - 2 - n
                &&& 0 <= i < r->Ok_0->au@.len() ==> r->Ok_0->au@[i] == payload@[2 + n + i]
            }
        },
        tag == 0 ==> up is Ok && up->Ok_0@ == payload@,
        tag != 0 ==> up is Err && up->Err_0 == (IpcError::UnexpectedTag { tag }),
{
}

/// A reader that is fed piece by piece wants what header or body still lack,
/// and hands over what reading the whole would.
pub proof fn reading_in_pieces_is_reading_whole(
    f: &mut FrameReader,
    before: &FrameReader,
    n: usize,
    more: &[u8],
    r: Result<Option<(u8, Vec<u8>)>, IpcError>,
    whole: &[u8],
    pos: &mut usize,
    w: Result<Option<(u8, Vec<u8>)>, IpcError>,
)
    requires
        *before == *old(f),
        before.wf(),
        call_ensures(FrameReader::want, (before,), n),
        more@.len() <= n,
        call_ensures(FrameReader::accept, (f, more), r),
        whole@ == old(f)@ + more@,
        *old(pos) == 0,
        call_ensures(read_frame, (whole, pos), w),
        w is Ok,
        w->Ok_0 is Some,
    ensures
        r is Ok,
        r->Ok_0 is Some,
        (r->Ok_0->0).0 == (w->Ok_0->0).0,
        (r->Ok_0->0).1@ == (w->Ok_0->0).1@,
        final(f)@.len() == 0,
{
    assert(whole@.subrange(0, whole@.len() as int) =~= whole@);
}

/// A reader wants what the header lacks and then what the body lacks; short of
/// that it keeps what came and hands nothing over, and a bad length is refused
/// as soon as the header is there. An up message too long for a frame is not
/// written.
pub proof fn reader_waits_for_the_whole(
    before: &FrameReader,
    n: usize,
    f: &mut FrameReader,
    more: &[u8],
    r: Result<Option<(u8, Vec<u8>)>, IpcError>,
    out: &mut Vec<u8>,
    json: &[u8],
    wrote: Result<(), IpcError>,
)
    requires
        before.wf(),
        call_ensures(FrameReader::want, (before,), n),
        *old(f) == *before,
        more@.len() <= n,
        call_ensures(FrameReader::accept, (f, more), r),
        call_ensures(write_up, (out, json), wrote),
    ensures
        ({
            let b = before@;
            let all = b + more@;
            let size = all[0] + 256 * all[1] + 65536 * all[2] + 16777216 * all[3];
            &&& b.len() < 4 ==> n == 4 - b.len()
            &&& b.len() >= 4 ==> n == 4 + (b[0] + 256 * b[1] + 65536 * b[2] + 16777216 * b[3])
                - b.len()
            &&& all.len() < 4 ==> r is Ok && r->Ok_0 is None && final(f)@ == all
            &&& all.len() >= 4 && (size == 0 || size > 33_554_432) ==> r is Err && r->Err_0 == (
            IpcError::BadLength { len: size as u32 }) && final(f)@.len() == 0
            &&& all.len() >= 4 && 0 < size <= 33_554_432 && all.len() < 4 + size ==> r is Ok
                && r->Ok_0 is None && final(f)@ == all
        }),
        wrote is Ok <==> json@.len() + 1 <= 33_554_432,
        wrote is Err ==> wrote->Err_0 == IpcError::FrameTooLarge && final(out)@ == old(out)@,
{
}

/// An image is cut into pieces of sixteen kilobytes, numbered in order: piece
/// `i` holds the bytes from `16384 * i` on, and all are full but the last. An
/// empty image is one empty piece.
pub proof fn image_is_cut_in_order(
    window_id: WindowId,
    seq: u32,
    png: &[u8],
    msgs: Vec<HostMessage>,
    i: int,
    k: int,
)
    requires
        call_ensures(chunk_blit, (window_id, seq, png), msgs),
        0 <= i < msgs@.len(),
        png@.len() <= 65_535 * 16_384,
    ensures
        png@.len() == 0 ==> msgs@.len() == 1,
        png@.len() > 0 ==> (msgs@.len() - 1) * 16_384 < png@.len() <= msgs@.len() * 16_384,
        ({
            let msg = msgs@[i];
            let piece = base64_data(msg->data_b64@);
            &&& msg is TransientBlit
            &&& msg->TransientBlit_window_id == window_id
            &&& msg->seq == seq
            &&& msg->chunk_index == i
            &&& msg->chunk_count == msgs@.len()
            &&& piece is Some
            &&& i < msgs@.len() - 1 ==> piece->0.len() == 16_384
            &&& i == msgs@.len() - 1 ==> piece->0.len() == png@.len() - 16_384 * i
            &&& 0 <= k < piece->0.len() ==> piece->0[k] == png@[16_384 * i + k]
        }),
{
    let n = png@.len();
    let total = chunk_total(n);
    assert(is_chunk(msgs@[i], window_id, seq, png@, i));
    if n > 0 {
        assert((total - 1) * 16384 < n <= total * 16384) by {
            assert(total == (n + 16383) as nat / 16384);
        }
    }
    assert(total <= 65535);
    let piece = chunk_of(png@, i);
    if n > 0 {
        assert(16384 * i <= n);
        if i < total - 1 {
            assert(16384 * (i + 1) <= n);
        } else {
            assert(16384 * (i + 1) >= n);
        }
    }
    assert(i * 16384 == 16384 * i && (i + 1) * 16384 == 16384 * (i + 1));
    if 0 <= k < piece.len() {
        assert(piece[k] == png@[at_most(i * 16384, n as int) + k]);
    }
}

proof fn joined_at(received: Map<u16, Seq<u8>>, n: nat, i: int, size: int, k: int)
    requires
        n <= 65_535,
        0 <= i < n,
        forall|j: int| 0 <= j < n - 1 ==> (#[trigger] received[j as u16]).len() == size,
        0 <= k < received[i as u16].len(),
        0 <= size,
    ensures
        joined(received, n).len() == (n - 1) * size + received[(n - 1) as u16].len(),
        (joined(received, n))[i * size + k] == received[i as u16][k],
    decreases n,
{
    let before = joined(received, (n - 1) as nat);
    assert(0 <= i * size) by (nonlinear_arith)
        requires
            0 <= i,
            0 <= size,
    ;
    if n == 1 {
        assert(before.len() == 0);
        assert((n - 1) * size == 0) by (nonlinear_arith)
            requires
                n == 1,
        ;
        assert(i * size == 0) by (nonlinear_arith)
            requires
                i == 0,
        ;
    } else {
        assert(received[(n - 2) as u16].len() == size);
        assert((n - 2) * size + size == (n - 1) * size) by (nonlinear_arith);
        if i < n - 1 {
            joined_at(received, (n - 1) as nat, i, size, k);
            assert(i * size + size <= (n - 1) * size) by (nonlinear_arith)
                requires
                    i + 1 <= n - 1,
                    0 <= size,
            ;
            assert(received[i as u16].len() == size);
        } else if size > 0 {
            joined_at(received, (n - 1) as nat, n - 2, size, 0);
        } else {
            empty_pieces(received, (n - 1) as nat);
            assert((n - 1) * size == 0) by (nonlinear_arith)
                requires
                    size == 0,
            ;
        }
    }
}

proof fn empty_pieces(received: Map<u16, Seq<u8>>, n: nat)
    requires
        n <= 65_535,
        forall|j: int| 0 <= j < n ==> (#[trigger] received[j as u16]).len() == 0,
    ensures
        joined(received, n).len() == 0,
    decreases n,
{
    if n > 0 {
        empty_pieces(received, (n - 1) as nat);
        assert(received[(n - 1) as u16].len() == 0);
    }
}

/// The last missing piece of an image completes it: every piece then stands at
/// its own number's place, whatever the order in which they came.
pub proof fn pieces_are_joined_by_number(
    a: &mut BlitAssembler,
    window_id: WindowId,
    seq: u32,
    index: u16,
    count: u16,
    data: Vec<u8>,
    r: Option<Vec<u8>>,
    i: int,
    k: int,
)
    requires
        old(a)@.partials.contains_key(window_id),
        !old(a)@.completed.contains_key(window_id) || old(a)@.completed[window_id] < seq,
        old(a)@.partials[window_id].seq == seq,
        old(a)@.partials[window_id].chunk_count == count,
        ({
            let got = old(a)@.partials[window_id].received.insert(index, data@);
            &&& got.len() == count
            &&& forall|j: u16| j < count ==> #[trigger] got.contains_key(j)
            &&& forall|j: int| 0 <= j < count - 1 ==> (#[trigger] got[j as u16]).len() == 16_384
            &&& 0 <= i < count
            &&& 0 <= k < got[i as u16].len()
        }),
        call_ensures(BlitAssembler::accept, (a, window_id, seq, index, count, Some(data)), r),
    ensures
        r is Some,
        16_384 * i + k < r->0@.len(),
        r->0@[16_384 * i + k] == old(a)@.partials[window_id].received.insert(
            index,
            data@,
        )[i as u16][k],
        !final(a)@.partials.contains_key(window_id),
        final(a)@.completed.contains_key(window_id),
        final(a)@.completed[window_id] == seq,
{
    let got = a@.partials[window_id].received.insert(index, data@);
    joined_at(got, count as nat, i, 16_384, k);
    assert(16_384 * i == i * 16_384);
    assert(i * 16_384 + k < joined(got, count as nat).len()) by {
        if i < count - 1 {
            assert(got[i as u16].len() == 16_384);
        }
    }
}

/// A piece that does not complete its image is kept under its number, and
/// nothing is handed over; a piece that could not be decoded changes nothing.
pub proof fn piece_is_kept_under_its_number(
    a: &mut BlitAssembler,
    window_id: WindowId,
    seq: u32,
    index: u16,
    count: u16,
    data: Vec<u8>,
    r: Option<Vec<u8>>,
    b: &mut BlitAssembler,
    s: Option<Vec<u8>>,
)
    requires
        count > 1,
        !old(a)@.partials.contains_key(window_id) || old(a)@.partials[window_id].seq < seq,
        !old(a)@.completed.contains_key(window_id) || old(a)@.completed[window_id] < seq,
        call_ensures(BlitAssembler::accept, (a, window_id, seq, index, count, Some(data)), r),
        call_ensures(BlitAssembler::accept, (b, window_id, seq, index, count, None), s),
    ensures
        r is None,
        final(a)@.partials.contains_key(window_id),
        final(a)@.partials[window_id].seq == seq,
        final(a)@.partials[window_id].chunk_count == count,
        final(a)@.partials[window_id].received.contains_key(index),
        final(a)@.partials[window_id].received[index] == data@,
        s is None,
        final(b)@ == old(b)@,
{
    let fresh = Map::<u16, Seq<u8>>::empty().insert(index, data@);
    assert(fresh.dom() =~= Set::<u16>::empty().insert(index));
    assert(fresh.len() == 1);
}

/// A further piece of the image under way is kept under its number beside the
/// others, and a newer one of the same number takes its place.
pub proof fn further_piece_joins_the_others(
    a: &mut BlitAssembler,
    window_id: WindowId,
    seq: u32,
    index: u16,
    count: u16,
    data: Vec<u8>,
    r: Option<Vec<u8>>,
    other: u16,
)
    requires
        old(a)@.partials.contains_key(window_id),
        old(a)@.partials[window_id].seq == seq,
        !old(a)@.completed.contains_key(window_id) || old(a)@.completed[window_id] < seq,
        old(a)@.partials[window_id].received.insert(index, data@).len()
            < old(a)@.partials[window_id].chunk_count,
        call_ensures(BlitAssembler::accept, (a, window_id, seq, index, count, Some(data)), r),
        other != index,
    ensures
        r is None,
        final(a)@.completed == old(a)@.completed,
        final(a)@.partials.contains_key(window_id),
        ({
            let (before, after) = (old(a)@.partials[window_id], final(a)@.partials[window_id]);
            &&& after.seq == seq
            &&& after.chunk_count == before.chunk_count
            &&& after.received.contains_key(index)
            &&& after.received[index] == data@
            &&& after.received.contains_key(other) <==> before.received.contains_key(other)
            &&& before.received.contains_key(other) ==> after.received[other]
                == before.received[other]
        }),
{
    let got = a@.partials[window_id].received.insert(index, data@);
    let n = a@.partials[window_id].chunk_count;
    assert(got.len() < n <= 65535);
    assert(got.len() % 65536 == got.len());
}

/// A piece of an image that was completed, or that a newer one superseded,
/// changes nothing.
pub proof fn late_piece_changes_nothing(
    a: &mut BlitAssembler,
    window_id: WindowId,
    seq: u32,
    index: u16,
    count: u16,
    data: Option<Vec<u8>>,
    r: Option<Vec<u8>>,
)
    requires
        (old(a)@.completed.contains_key(window_id) && seq <= old(a)@.completed[window_id]) || (
        old(a)@.partials.contains_key(window_id) && seq < old(a)@.partials[window_id].seq),
        call_ensures(BlitAssembler::accept, (a, window_id, seq, index, count, data), r),
    ensures
        r is None,
        final(a)@ == old(a)@,
{
}

/// The inbox hands over the image that the assembler puts together, with its
/// window, and drops what cannot be; where nothing is missing, both ways of
/// pushing a message do the same.
pub proof fn inbox_hands_over_what_is_assembled(
    i: &mut Inbox,
    msg: HostMessage,
    r: Option<UiEvent>,
    a: &mut BlitAssembler,
    m: &HostMessage,
    s: Result<Option<(WindowId, Vec<u8>)>, MissingChunk>,
    b: &mut BlitAssembler,
    p: Option<(WindowId, Vec<u8>)>,
)
    requires
        msg is TransientBlit,
        *m == msg,
        old(i)@ == old(a)@,
        *old(b) == *old(a),
        call_ensures(Inbox::on_host_message, (i, msg), r),
        call_ensures(BlitAssembler::try_push, (a, m), s),
        !push_has_gap(old(a)@, msg),
        call_ensures(BlitAssembler::push, (b, m), p),
    ensures
        s is Ok,
        final(i)@ == final(a)@,
        final(b)@ == final(a)@,
        r is Some <==> s->Ok_0 is Some,
        p is Some <==> s->Ok_0 is Some,
        r is Some ==> r->0 is Blit && r->0->window_id == (s->Ok_0->0).0 && r->0->png@
            == (s->Ok_0->0).1@,
        p is Some ==> (p->0).0 == (s->Ok_0->0).0 && (p->0).1@ == (s->Ok_0->0).1@,
{
}

/// As many pieces as were announced, but not each of them, are told apart as
/// missing one, and change nothing.
pub proof fn missing_piece_is_told(
    a: &mut BlitAssembler,
    msg: &HostMessage,
    r: Result<Option<(WindowId, Vec<u8>)>, MissingChunk>,
    i: &mut Inbox,
    said: Option<UiEvent>,
    missing: u16,
)
    requires
        msg is TransientBlit,
        base64_data(msg->data_b64@) is Some,
        ({
            let w = msg->TransientBlit_window_id;
            let got = old(a)@.partials[w].received.insert(
                msg->chunk_index,
                base64_data(msg->data_b64@)->0,
            );
            &&& old(a)@.partials.contains_key(w)
            &&& old(a)@.partials[w].seq == msg->seq
            &&& !old(a)@.completed.contains_key(w) || old(a)@.completed[w] < msg->seq
            &&& got.len() == old(a)@.partials[w].chunk_count
            &&& missing < old(a)@.partials[w].chunk_count
            &&& !got.contains_key(missing)
        }),
        call_ensures(BlitAssembler::try_push, (a, msg), r),
        old(i)@ == old(a)@,
        call_ensures(Inbox::on_host_message, (i, *msg), said),
    ensures
        r is Err,
        r->Err_0.window_id == msg->TransientBlit_window_id,
        final(a)@ == old(a)@,
        said is None,
        final(i)@ == old(i)@,
{
    let w = msg->TransientBlit_window_id;
    let got = a@.partials[w].received.insert(
        msg->chunk_index,
        base64_data(msg->data_b64@)->0,
    );
    assert(!got.contains_key(missing));
    assert(push_has_gap(a@, *msg));
}

/// A picture that is sent is sent as its file, in the pieces that the file is
/// cut into.
pub proof fn picture_is_sent_as_its_file(
    l: &mut BlitLoop,
    img: RgbaImage,
    s: BlitStep,
    picture: &RgbaImage,
    file: Result<Vec<u8>, ImageError>,
    bytes: &[u8],
    number: u32,
    cut: Vec<HostMessage>,
    i: int,
)
    requires
        old(l)@.seq < u32::MAX,
        call_ensures(BlitLoop::on_snapshot, (l, img), s),
        s is Send,
        *picture == img,
        call_ensures(encode_png, (picture,), file),
        file is Ok ==> bytes@ == file->Ok_0@,
        number == old(l)@.seq + 1,
        call_ensures(chunk_blit, (old(l)@.window_id, number, bytes), cut),
        0 <= i < s->msgs@.len(),
    ensures
        file is Ok,
        s->msgs@.len() == cut@.len(),
        s->msgs@[i] is TransientBlit,
        s->msgs@[i]->TransientBlit_window_id == cut@[i]->TransientBlit_window_id,
        s->msgs@[i]->seq == cut@[i]->seq,
        s->msgs@[i]->chunk_index == cut@[i]->chunk_index,
        s->msgs@[i]->chunk_count == cut@[i]->chunk_count,
        s->msgs@[i]->data_b64@ == cut@[i]->data_b64@,
{
    let png = crate::image::png_file(img.width, img.height, img.data@);
    assert(is_chunk(s->msgs@[i], l@.window_id, number, png, i));
    assert(is_chunk(cut@[i], l@.window_id, number, png, i));
}

/// A changed picture is sent under the next number, in pieces of its own
/// window; an unchanged one is not sent again.
pub proof fn changed_picture_is_sent(
    l: &mut BlitLoop,
    img: RgbaImage,
    s: BlitStep,
    i: int,
)
    requires
        old(l)@.seq < u32::MAX,
        call_ensures(BlitLoop::on_snapshot, (l, img), s),
    ensures
        final(l)@.last_rgba == Some(img.data@),
        final(l)@.failures == 0,
        final(l)@.window_id == old(l)@.window_id,
        old(l)@.last_rgba == Some(img.data@) ==> s is Quiet && final(l)@.seq == old(l)@.seq,
        img.width == 0 || img.height == 0 || img.data@.len() != img.width * img.height * 4
            ==> s is Quiet && final(l)@.seq == old(l)@.seq,
        old(l)@.last_rgba != Some(img.data@) && img.width > 0 && img.height > 0 && img.data@.len()
            == img.width * img.height * 4 ==> {
            &&& s is Send
            &&& final(l)@.seq == old(l)@.seq + 1
            &&& s->msgs@.len() > 0
            &&& 0 <= i < s->msgs@.len() ==> s->msgs@[i] is TransientBlit
                && s->msgs@[i]->TransientBlit_window_id == old(l)@.window_id && s->msgs@[i]->seq
                == old(l)@.seq + 1
        },
{
    if s is Send && 0 <= i < s->msgs@.len() {
        assert(is_chunk(
            s->msgs@[i],
            l@.window_id,
            (l@.seq + 1) as u32,
            crate::image::png_file(img.width, img.height, img.data@),
            i,
        ));
    }
}

/// The loop gives up at the second failure in a row, and pauses for what is
/// left of its interval.
pub proof fn failures_are_counted(
    l: &mut BlitLoop,
    s: BlitStep,
    elapsed: u64,
    left: Option<u64>,
)
    requires
        old(l)@.failures < u32::MAX,
        call_ensures(BlitLoop::on_failure, (l,), s),
        call_ensures(pause, (elapsed,), left),
    ensures
        final(l)@.failures == old(l)@.failures + 1,
        final(l)@.seq == old(l)@.seq,
        final(l)@.last_rgba == old(l)@.last_rgba,
        s is Stop <==> old(l)@.failures + 1 >= 2,
        s is Stop || s is Quiet,
        left is Some <==> elapsed <= 100_000_000,
        left is Some ==> left->0 + elapsed == 100_000_000,
{
}

} // verus!
