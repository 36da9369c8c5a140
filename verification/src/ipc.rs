//! Coordinator and mirror-helper IPC over an inherited socketpair.
//!
//! Frame layout: `u32` LE length (of tag + payload), one tag byte, payload.
//! Control and up messages are JSON texts; video access units and the icon
//! PNG are raw bytes, never JSON-escaped.

use crate::bytes::{
    copy_range, extend, le16, le16_round_trip, le16_value, le32, le32_round_trip, le32_value,
    push_le16, push_le32, read_le16, read_le32, text_of,
};
use crate::protocol::{ClientMessage, HostMessage};
use vstd::prelude::*;

verus! {

/// The helper's end of the socketpair is dup2()'d onto this fd at spawn.
pub const HELPER_FD: i32 = 3;

pub const TAG_CONTROL: u8 = 0;

pub const TAG_VIDEO: u8 = 1;

pub const TAG_ICON: u8 = 2;

/// Sanity cap: an access unit is a few hundred KB at worst; 32 MiB means a
/// desynced stream fails fast instead of allocating gigabytes.
pub const MAX_FRAME: u32 = 33_554_432;

/// Coordinator to helper.
#[derive(Debug, PartialEq)]
pub enum DownFrame {
    /// Window lifecycle / input mapping: the HostMessage forwarded verbatim.
    Control(HostMessage),
    /// One depacketized H.264 Annex-B access unit for a track.
    Video { track_id: String, au: Vec<u8> },
    /// The shared app's Dock icon, raw PNG bytes.
    Icon(Vec<u8>),
}

/// What a [`DownFrame`] says.
pub enum DownView {
    Control(HostMessage),
    Video { track_id: Seq<char>, au: Seq<u8> },
    Icon(Seq<u8>),
}

impl View for DownFrame {
    type V = DownView;

    open spec fn view(&self) -> DownView {
        match *self {
            DownFrame::Control(msg) => DownView::Control(msg),
            DownFrame::Video { track_id, au } => DownView::Video { track_id: track_id@, au: au@ },
            DownFrame::Icon(png) => DownView::Icon(png@),
        }
    }
}

/// Helper to coordinator.
#[derive(Debug, PartialEq)]
pub enum UpMessage {
    /// Input/window events to relay onto the control data channel.
    Relay { msg: ClientMessage },
    /// A frame decoded OK on this track (throttled); feeds the coordinator's
    /// PLI stall detector.
    DecodeProgress { track_id: String },
}

/// A [`DownFrame`] as it stands on the wire: the control message is its JSON
/// text.
#[derive(Debug, PartialEq)]
pub enum WireFrame {
    Control(Vec<u8>),
    Video { track_id: String, au: Vec<u8> },
    Icon(Vec<u8>),
}

/// What a [`WireFrame`] says.
pub enum WireView {
    Control(Seq<u8>),
    Video { track_id: Seq<char>, au: Seq<u8> },
    Icon(Seq<u8>),
}

impl View for WireFrame {
    type V = WireView;

    open spec fn view(&self) -> WireView {
        match *self {
            WireFrame::Control(json) => WireView::Control(json@),
            WireFrame::Video { track_id, au } => WireView::Video { track_id: track_id@, au: au@ },
            WireFrame::Icon(png) => WireView::Icon(png@),
        }
    }
}

/// Why a frame could not be written or read.
#[derive(Debug, Clone, Copy, PartialEq, Eq, Structural)]
pub enum IpcError {
    /// The frame would be longer than [`MAX_FRAME`].
    FrameTooLarge,
    /// A track id of more than 65535 bytes has no length field.
    TrackIdTooLong,
    /// The stream ended after this many of the four length bytes.
    TruncatedHeader { filled: u8 },
    /// The length is zero or above [`MAX_FRAME`].
    BadLength { len: u32 },
    /// The stream ended inside the body.
    TruncatedBody,
    /// A video payload without its track id's length.
    VideoTooShort,
    /// A video payload that ends inside its track id.
    TrackIdTruncated,
    TrackIdNotUtf8,
    /// No down frame has this tag.
    UnknownTag { tag: u8 },
    /// Up messages are control frames only.
    UnexpectedTag { tag: u8 },
}

/// The bytes of a frame on the wire.
pub open spec fn frame_bytes(tag: u8, payload: Seq<u8>) -> Seq<u8> {
    le32((payload.len() + 1) as int) + seq![tag] + payload
}

/// Whether a payload fits a frame.
pub open spec fn fits(payload: Seq<u8>) -> bool {
    payload.len() + 1 <= MAX_FRAME
}

/// The tag and payload of a frame.
pub open spec fn tag_of(f: WireView) -> u8 {
    match f {
        WireView::Control(_) => TAG_CONTROL,
        WireView::Video { .. } => TAG_VIDEO,
        WireView::Icon(_) => TAG_ICON,
    }
}

pub open spec fn payload_of(f: WireView) -> Seq<u8> {
    match f {
        WireView::Control(json) => json,
        WireView::Video { track_id, au } => {
            let id = vstd::utf8::encode_utf8(track_id);
            le16(id.len() as int) + id + au
        },
        WireView::Icon(png) => png,
    }
}

/// Why a frame cannot be written, if it cannot.
pub open spec fn write_error(f: WireView) -> Option<IpcError> {
    if f is Video && vstd::utf8::encode_utf8(f->track_id).len() > u16::MAX {
        Some(IpcError::TrackIdTooLong)
    } else if !fits(payload_of(f)) {
        Some(IpcError::FrameTooLarge)
    } else {
        None
    }
}

/// What the stream `b` starts with: a frame's tag and payload, the clean end
/// of the stream (`None`), or an error.
pub open spec fn first_frame(b: Seq<u8>) -> Result<Option<(u8, Seq<u8>)>, IpcError> {
    if b.len() == 0 {
        Ok(None)
    } else if b.len() < 4 {
        Err(IpcError::TruncatedHeader { filled: b.len() as u8 })
    } else {
        let len = le32_value(b);
        if !(1 <= len <= MAX_FRAME) {
            Err(IpcError::BadLength { len: len as u32 })
        } else if b.len() < 4 + len {
            Err(IpcError::TruncatedBody)
        } else {
            Ok(Some((b[4], b.subrange(5, 4 + len))))
        }
    }
}

/// The bytes that the first frame of `b` takes.
pub open spec fn first_frame_len(b: Seq<u8>) -> int {
    match first_frame(b) {
        Ok(Some((_, payload))) => (5 + payload.len()) as int,
        _ => 0,
    }
}

/// The down frame that a tag and a payload stand for.
pub open spec fn down_of(tag: u8, payload: Seq<u8>) -> Result<WireView, IpcError> {
    if tag == TAG_CONTROL {
        Ok(WireView::Control(payload))
    } else if tag == TAG_ICON {
        Ok(WireView::Icon(payload))
    } else if tag == TAG_VIDEO {
        if payload.len() < 2 {
            Err(IpcError::VideoTooShort)
        } else {
            let id_len = le16_value(payload);
            if payload.len() < 2 + id_len {
                Err(IpcError::TrackIdTruncated)
            } else {
                let id = payload.subrange(2, 2 + id_len);
                if !vstd::utf8::valid_utf8(id) {
                    Err(IpcError::TrackIdNotUtf8)
                } else {
                    Ok(
                        WireView::Video {
                            track_id: vstd::utf8::decode_utf8(id),
                            au: payload.subrange(2 + id_len, payload.len() as int),
                        },
                    )
                }
            }
        }
    } else {
        Err(IpcError::UnknownTag { tag })
    }
}

/// The first down frame of a stream.
pub open spec fn first_down(b: Seq<u8>) -> Result<Option<WireView>, IpcError> {
    match first_frame(b) {
        Err(e) => Err(e),
        Ok(None) => Ok(None),
        Ok(Some((tag, payload))) => match down_of(tag, payload) {
            Ok(f) => Ok(Some(f)),
            Err(e) => Err(e),
        },
    }
}

/// The first up message of a stream, as its JSON text.
pub open spec fn first_up(b: Seq<u8>) -> Result<Option<Seq<u8>>, IpcError> {
    match first_frame(b) {
        Err(e) => Err(e),
        Ok(None) => Ok(None),
        Ok(Some((tag, payload))) => if tag == TAG_CONTROL {
            Ok(Some(payload))
        } else {
            Err(IpcError::UnexpectedTag { tag })
        },
    }
}

/// What a read frame says.
pub open spec fn frame_view(r: Result<Option<(u8, Vec<u8>)>, IpcError>) -> Result<
    Option<(u8, Seq<u8>)>,
    IpcError,
> {
    match r {
        Ok(Some((tag, payload))) => Ok(Some((tag, payload@))),
        Ok(None) => Ok(None),
        Err(e) => Err(e),
    }
}

pub open spec fn down_view(r: Result<Option<WireFrame>, IpcError>) -> Result<
    Option<WireView>,
    IpcError,
> {
    match r {
        Ok(Some(f)) => Ok(Some(f@)),
        Ok(None) => Ok(None),
        Err(e) => Err(e),
    }
}

pub open spec fn up_view(r: Result<Option<Vec<u8>>, IpcError>) -> Result<
    Option<Seq<u8>>,
    IpcError,
> {
    match r {
        Ok(Some(json)) => Ok(Some(json@)),
        Ok(None) => Ok(None),
        Err(e) => Err(e),
    }
}

/// Appends one frame to `out`.
pub fn write_frame(out: &mut Vec<u8>, tag: u8, payload: &[u8]) -> (r: Result<(), IpcError>)
    ensures
        r == (if fits(payload@) {
            Ok::<(), IpcError>(())
        } else {
            Err(IpcError::FrameTooLarge)
        }),
        final(out)@ == (if fits(payload@) {
            old(out)@ + frame_bytes(tag, payload@)
        } else {
            old(out)@
        }),
{
    if payload.len() >= MAX_FRAME as usize {
        return Err(IpcError::FrameTooLarge);
    }
    let ghost start = out@;
    let len: u32 = payload.len() as u32 + 1;
    push_le32(out, len);
    out.push(tag);
    extend(out, payload);
    assert(out@ =~= start + frame_bytes(tag, payload@));
    Ok(())
}

/// Reads the frame at `pos` and moves `pos` behind it; at the clean end of
/// the stream and on an error `pos` stays.
pub fn read_frame(b: &[u8], pos: &mut usize) -> (r: Result<Option<(u8, Vec<u8>)>, IpcError>)
    requires
        *old(pos) <= b@.len(),
    ensures
        frame_view(r) == first_frame(b@.subrange(*old(pos) as int, b@.len() as int)),
        *final(pos) == *old(pos) + first_frame_len(b@.subrange(*old(pos) as int, b@.len() as int)),
        *final(pos) <= b@.len(),
{
    let ghost rest = b@.subrange(*pos as int, b@.len() as int);
    let start: usize = *pos;
    let available: usize = b.len() - start;
    if available == 0 {
        return Ok(None);
    }
    if available < 4 {
        return Err(IpcError::TruncatedHeader { filled: available as u8 });
    }
    let len: u32 = read_le32(b, start);
    assert(b@.subrange(start as int, start + 4) =~= rest.subrange(0, 4));
    assert(len == le32_value(rest));
    if len < 1 || len > MAX_FRAME {
        return Err(IpcError::BadLength { len });
    }
    if available - 4 < len as usize {
        return Err(IpcError::TruncatedBody);
    }
    let end: usize = start + 4 + len as usize;
    let payload: Vec<u8> = copy_range(b, start + 5, end);
    assert(payload@ =~= rest.subrange(5, 4 + len));
    *pos = end;
    Ok(Some((b[start + 4], payload)))
}

/// Appends a down frame.
pub fn write_down(out: &mut Vec<u8>, f: &WireFrame) -> (r: Result<(), IpcError>)
    ensures
        match write_error(f@) {
            Some(e) => r == Err::<(), IpcError>(e) && final(out)@ == old(out)@,
            None => r == Ok::<(), IpcError>(()) && final(out)@ == old(out)@ + frame_bytes(
                tag_of(f@),
                payload_of(f@),
            ),
        },
{
    match f {
        WireFrame::Control(json) => write_frame(out, TAG_CONTROL, json.as_slice()),
        WireFrame::Icon(png) => write_frame(out, TAG_ICON, png.as_slice()),
        WireFrame::Video { track_id, au } => {
            let id: &[u8] = track_id.as_str().as_bytes();
            if id.len() > u16::MAX as usize {
                return Err(IpcError::TrackIdTooLong);
            }
            let mut p: Vec<u8> = Vec::new();
            push_le16(&mut p, id.len() as u16);
            extend(&mut p, id);
            extend(&mut p, au.as_slice());
            assert(p@ =~= payload_of(f@));
            write_frame(out, TAG_VIDEO, p.as_slice())
        },
    }
}

/// The down frame that a tag and a payload stand for.
pub fn parse_down(tag: u8, payload: Vec<u8>) -> (r: Result<WireFrame, IpcError>)
    ensures
        match r {
            Ok(f) => down_of(tag, payload@) == Ok::<WireView, IpcError>(f@),
            Err(e) => down_of(tag, payload@) == Err::<WireView, IpcError>(e),
        },
{
    if tag == TAG_CONTROL {
        return Ok(WireFrame::Control(payload));
    }
    if tag == TAG_ICON {
        return Ok(WireFrame::Icon(payload));
    }
    if tag != TAG_VIDEO {
        return Err(IpcError::UnknownTag { tag });
    }
    if payload.len() < 2 {
        return Err(IpcError::VideoTooShort);
    }
    let id_len: usize = read_le16(payload.as_slice(), 0) as usize;
    assert(id_len == le16_value(payload@));
    if payload.len() - 2 < id_len {
        return Err(IpcError::TrackIdTruncated);
    }
    let id: Vec<u8> = copy_range(payload.as_slice(), 2, 2 + id_len);
    match text_of(id.as_slice()) {
        None => Err(IpcError::TrackIdNotUtf8),
        Some(track_id) => {
            proof {
                vstd::utf8::encode_utf8_decode_utf8(track_id@);
            }
            let au: Vec<u8> = copy_range(payload.as_slice(), 2 + id_len, payload.len());
            Ok(WireFrame::Video { track_id, au })
        },
    }
}

/// Reads the down frame at `pos`, as [`read_frame`] does.
pub fn read_down(b: &[u8], pos: &mut usize) -> (r: Result<Option<WireFrame>, IpcError>)
    requires
        *old(pos) <= b@.len(),
    ensures
        down_view(r) == first_down(b@.subrange(*old(pos) as int, b@.len() as int)),
        *final(pos) == *old(pos) + first_frame_len(b@.subrange(*old(pos) as int, b@.len() as int)),
        *final(pos) <= b@.len(),
{
    match read_frame(b, pos) {
        Err(e) => Err(e),
        Ok(None) => Ok(None),
        Ok(Some((tag, payload))) => match parse_down(tag, payload) {
            Ok(f) => Ok(Some(f)),
            Err(e) => Err(e),
        },
    }
}

/// Appends an up message, given as its JSON text.
pub fn write_up(out: &mut Vec<u8>, json: &[u8]) -> (r: Result<(), IpcError>)
    ensures
        r == (if fits(json@) {
            Ok::<(), IpcError>(())
        } else {
            Err(IpcError::FrameTooLarge)
        }),
        final(out)@ == (if fits(json@) {
            old(out)@ + frame_bytes(TAG_CONTROL, json@)
        } else {
            old(out)@
        }),
{
    write_frame(out, TAG_CONTROL, json)
}

/// The JSON text of the up message that a tag and a payload stand for.
pub fn parse_up(tag: u8, payload: Vec<u8>) -> (r: Result<Vec<u8>, IpcError>)
    ensures
        match r {
            Ok(json) => tag == TAG_CONTROL && json@ == payload@,
            Err(e) => tag != TAG_CONTROL && e == (IpcError::UnexpectedTag { tag }),
        },
{
    if tag == TAG_CONTROL {
        Ok(payload)
    } else {
        Err(IpcError::UnexpectedTag { tag })
    }
}

/// Reads the up message at `pos`, as [`read_frame`] does, and hands its JSON
/// text back.
pub fn read_up(b: &[u8], pos: &mut usize) -> (r: Result<Option<Vec<u8>>, IpcError>)
    requires
        *old(pos) <= b@.len(),
    ensures
        up_view(r) == first_up(b@.subrange(*old(pos) as int, b@.len() as int)),
        *final(pos) == *old(pos) + first_frame_len(b@.subrange(*old(pos) as int, b@.len() as int)),
        *final(pos) <= b@.len(),
{
    match read_frame(b, pos) {
        Err(e) => Err(e),
        Ok(None) => Ok(None),
        Ok(Some((tag, payload))) => match parse_up(tag, payload) {
            Ok(json) => Ok(Some(json)),
            Err(e) => Err(e),
        },
    }
}

/// The bytes of a frame that a stream has handed over so far.
///
/// Feeding it whatever the stream gives, never more than [`FrameReader::want`]
/// bytes at once, cuts the stream where [`read_frame`] does.
pub struct FrameReader {
    pending: Vec<u8>,
}

/// `b` is a frame that is still coming in, its length known good once its
/// header is whole.
pub open spec fn incomplete(b: Seq<u8>) -> bool {
    b.len() < 4 || (1 <= le32_value(b) <= MAX_FRAME && b.len() < 4 + le32_value(b))
}

impl View for FrameReader {
    type V = Seq<u8>;

    closed spec fn view(&self) -> Seq<u8> {
        self.pending@
    }
}

impl FrameReader {
    pub open spec fn wf(self) -> bool {
        incomplete(self@)
    }

    pub fn new() -> (r: FrameReader)
        ensures
            r.wf(),
            r@ == Seq::<u8>::empty(),
    {
        FrameReader { pending: Vec::new() }
    }

    /// How many bytes the header, or then the body, still lacks.
    pub fn want(&self) -> (n: usize)
        requires
            self.wf(),
        ensures
            n > 0,
            self@.len() < 4 ==> n == 4 - self@.len(),
            self@.len() >= 4 ==> n == 4 + le32_value(self@) - self@.len(),
    {
        let have: usize = self.pending.len();
        if have < 4 {
            return 4 - have;
        }
        let len: u32 = read_le32(self.pending.as_slice(), 0);
        assert(self.pending@.subrange(0, 4) =~= self.pending@.take(4));
        let body: usize = have - 4;
        len as usize - body
    }

    /// Takes the next bytes of the stream. Hands a frame over once it is
    /// whole, and refuses a bad length as soon as the header is; nothing is
    /// pending after either.
    pub fn accept(&mut self, more: &[u8]) -> (r: Result<Option<(u8, Vec<u8>)>, IpcError>)
        requires
            old(self).wf(),
            old(self)@.len() < 4 ==> more@.len() <= 4 - old(self)@.len(),
            old(self)@.len() >= 4 ==> more@.len() <= 4 + le32_value(old(self)@) - old(self)@.len(),
        ensures
            final(self).wf(),
            incomplete(old(self)@ + more@) ==> frame_view(r) == Ok::<
                Option<(u8, Seq<u8>)>,
                IpcError,
            >(None) && final(self)@ == old(self)@ + more@,
            !incomplete(old(self)@ + more@) ==> frame_view(r) == first_frame(old(self)@ + more@)
                && first_frame(old(self)@ + more@) != Ok::<Option<(u8, Seq<u8>)>, IpcError>(None)
                && final(self)@ == Seq::<u8>::empty(),
    {
        extend(&mut self.pending, more);
        let ghost all = self.pending@;
        let have: usize = self.pending.len();
        if have < 4 {
            return Ok(None);
        }
        let len: u32 = read_le32(self.pending.as_slice(), 0);
        assert(len == le32_value(all));
        if len < 1 || len > MAX_FRAME {
            self.pending = Vec::new();
            return Err(IpcError::BadLength { len });
        }
        let body: usize = have - 4;
        if body < len as usize {
            return Ok(None);
        }
        assert(all.len() == 4 + len);
        let tag: u8 = self.pending[4];
        let payload: Vec<u8> = copy_range(self.pending.as_slice(), 5, have);
        self.pending = Vec::new();
        Ok(Some((tag, payload)))
    }

    /// The stream ended: cleanly between two frames, otherwise with the error
    /// that says where.
    pub fn finish(&self) -> (r: Result<(), IpcError>)
        requires
            self.wf(),
        ensures
            match first_frame(self@) {
                Ok(_) => r == Ok::<(), IpcError>(()),
                Err(e) => r == Err::<(), IpcError>(e),
            },
            r is Ok <==> self@.len() == 0,
    {
        let have: usize = self.pending.len();
        if have == 0 {
            Ok(())
        } else if have < 4 {
            Err(IpcError::TruncatedHeader { filled: have as u8 })
        } else {
            Err(IpcError::TruncatedBody)
        }
    }
}

/// A frame can be read back from the bytes it was written as, whatever
/// follows them, and takes exactly those bytes.
pub proof fn frame_reads_back(tag: u8, payload: Seq<u8>, rest: Seq<u8>)
    requires
        fits(payload),
    ensures
        first_frame(frame_bytes(tag, payload) + rest) == Ok::<Option<(u8, Seq<u8>)>, IpcError>(
            Some((tag, payload)),
        ),
        first_frame_len(frame_bytes(tag, payload) + rest) == frame_bytes(tag, payload).len(),
{
    let len = (payload.len() + 1) as int;
    let all = frame_bytes(tag, payload) + rest;
    le32_round_trip(len);
    assert(le32_value(all) == le32_value(le32(len)));
    assert(all.subrange(5, 4 + len) =~= payload);
}

/// What [`write_down`] writes, [`read_down`] gives back, whatever follows.
pub proof fn down_frame_reads_back(f: WireView, rest: Seq<u8>)
    requires
        write_error(f) is None,
    ensures
        first_down(frame_bytes(tag_of(f), payload_of(f)) + rest) == Ok::<
            Option<WireView>,
            IpcError,
        >(Some(f)),
        first_frame_len(frame_bytes(tag_of(f), payload_of(f)) + rest) == frame_bytes(
            tag_of(f),
            payload_of(f),
        ).len(),
{
    let payload = payload_of(f);
    frame_reads_back(tag_of(f), payload, rest);
    if let WireView::Video { track_id, au } = f {
        let id = vstd::utf8::encode_utf8(track_id);
        le16_round_trip(id.len() as int);
        assert(le16_value(payload) == le16_value(le16(id.len() as int)));
        assert(payload.subrange(2, (2 + id.len()) as int) =~= id);
        assert(payload.subrange((2 + id.len()) as int, payload.len() as int) =~= au);
        vstd::utf8::encode_utf8_valid_utf8(track_id);
        vstd::utf8::encode_utf8_decode_utf8(track_id);
    }
}

/// What [`write_up`] writes, [`read_up`] gives back, whatever follows.
pub proof fn up_message_reads_back(json: Seq<u8>, rest: Seq<u8>)
    requires
        fits(json),
    ensures
        first_up(frame_bytes(TAG_CONTROL, json) + rest) == Ok::<Option<Seq<u8>>, IpcError>(
            Some(json),
        ),
        first_frame_len(frame_bytes(TAG_CONTROL, json) + rest) == frame_bytes(
            TAG_CONTROL,
            json,
        ).len(),
{
    frame_reads_back(TAG_CONTROL, json, rest);
}

/// The bytes of several down frames, one after the other.
pub open spec fn stream_of(frames: Seq<WireView>) -> Seq<u8>
    decreases frames.len(),
{
    if frames.len() == 0 {
        Seq::empty()
    } else {
        frame_bytes(tag_of(frames[0]), payload_of(frames[0])) + stream_of(frames.drop_first())
    }
}

/// The down frames read from a stream up to its clean end, or the first error.
pub open spec fn read_all(b: Seq<u8>) -> Result<Seq<WireView>, IpcError>
    decreases b.len(),
{
    match first_down(b) {
        Err(e) => Err(e),
        Ok(None) => Ok(Seq::empty()),
        Ok(Some(f)) => if 0 < first_frame_len(b) <= b.len() {
            match read_all(b.subrange(first_frame_len(b), b.len() as int)) {
                Err(e) => Err(e),
                Ok(fs) => Ok(seq![f] + fs),
            }
        } else {
            Ok(seq![f])
        },
    }
}

/// Several frames stream in order: reading to the end of what was written
/// gives the same frames, and then the clean end.
pub proof fn stream_reads_back(frames: Seq<WireView>)
    requires
        forall|i: int| 0 <= i < frames.len() ==> write_error(#[trigger] frames[i]) is None,
    ensures
        read_all(stream_of(frames)) == Ok::<Seq<WireView>, IpcError>(frames),
    decreases frames.len(),
{
    let b = stream_of(frames);
    if frames.len() == 0 {
        assert(frames =~= Seq::<WireView>::empty());
    } else {
        let first = frames[0];
        let rest = frames.drop_first();
        let head = frame_bytes(tag_of(first), payload_of(first));
        down_frame_reads_back(first, stream_of(rest));
        assert(b.subrange(head.len() as int, b.len() as int) =~= stream_of(rest));
        assert forall|i: int| 0 <= i < rest.len() implies write_error(#[trigger] rest[i]) is None by {
            assert(rest[i] == frames[i + 1]);
        }
        stream_reads_back(rest);
        assert(seq![first] + rest =~= frames);
    }
}

/// A frame cut short is an error, never taken for the end of the stream.
pub proof fn truncated_frame_is_an_error(tag: u8, payload: Seq<u8>, cut: int)
    requires
        fits(payload),
        0 < cut < frame_bytes(tag, payload).len(),
    ensures
        first_frame(frame_bytes(tag, payload).take(cut)) is Err,
        first_down(frame_bytes(tag, payload).take(cut)) is Err,
{
    let len = (payload.len() + 1) as int;
    let b = frame_bytes(tag, payload).take(cut);
    le32_round_trip(len);
    if cut >= 4 {
        assert(le32_value(b) == le32_value(le32(len)));
    }
}

/// However a frame's bytes are cut into pieces, a [`FrameReader`] that is
/// handed them waits until the last one and then hands over the frame.
pub proof fn cut_frame_comes_through(tag: u8, payload: Seq<u8>, had: int, now: int)
    requires
        fits(payload),
        0 <= had <= now <= frame_bytes(tag, payload).len(),
    ensures
        ({
            let all = frame_bytes(tag, payload);
            let together = all.take(had) + all.subrange(had, now);
            &&& together == all.take(now)
            &&& incomplete(together) <==> now < all.len()
            &&& now == all.len() ==> first_frame(together) == Ok::<
                Option<(u8, Seq<u8>)>,
                IpcError,
            >(Some((tag, payload)))
        }),
{
    let len = (payload.len() + 1) as int;
    let all = frame_bytes(tag, payload);
    let together = all.take(had) + all.subrange(had, now);
    assert(together =~= all.take(now));
    le32_round_trip(len);
    if now >= 4 {
        assert(le32_value(together) == le32_value(le32(len)));
    }
    if now == all.len() {
        frame_reads_back(tag, payload, Seq::empty());
        assert(together =~= all + Seq::<u8>::empty());
    }
}

} // verus!
