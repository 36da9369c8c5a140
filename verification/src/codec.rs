//! H.264 encoding and decoding of BGRA frames.

use crate::h264::{bits_view, DecoderCall, EncoderCall, RecordedDecoder, RecordedEncoder};
use crate::pixels::{
    bgra_bytes, bgra_to_i420, holds_plane, i420_to_bgra, luma_plane, packed, u_plane, v_plane,
    BgraFrame, I420Frame,
};
use vstd::prelude::*;

verus! {

/// How often (in encoded frames) to force a fresh IDR. Without this, a
/// decoder that loses reference state to packet loss never recovers. About
/// ten seconds at 30 frames per second: a backstop, keyframes on request
/// being the primary recovery path.
pub const IDR_INTERVAL_FRAMES: u64 = 300;

/// The larger and the smaller side beyond which the encoder refuses a frame.
pub const MAX_LONG_SIDE: u32 = 3840;

pub const MAX_SHORT_SIDE: u32 = 2160;

/// Why a frame could not be encoded or decoded.
#[derive(Debug, Clone, Copy, PartialEq, Eq, Structural)]
pub enum CodecError {
    EncoderInit,
    DecoderInit,
    /// Only frames of even width and height can be encoded.
    OddDimensions { width: u32, height: u32 },
    /// The encoder refused the frame.
    Encode,
    /// The decoder refused the access unit.
    Decode,
    /// The decoder's planes do not hold the picture it announced.
    BadPicture,
}

/// A frame that is larger than the encoder takes.
pub open spec fn too_large(width: int, height: int) -> bool {
    let (long, short) = if width < height {
        (height, width)
    } else {
        (width, height)
    };
    long > MAX_LONG_SIDE || short > MAX_SHORT_SIDE
}

/// A decoded picture: its planes, each row `strides` bytes after the last.
pub struct DecodedPicture {
    pub width: usize,
    pub height: usize,
    pub y: Vec<u8>,
    pub u: Vec<u8>,
    pub v: Vec<u8>,
    pub strides: (usize, usize, usize),
}

impl DecodedPicture {
    /// The planes hold the picture, and the picture's frame can be held.
    pub open spec fn wf(self) -> bool {
        &&& self.width <= u32::MAX
        &&& self.height <= u32::MAX
        &&& self.width * self.height * 4 <= isize::MAX
        &&& holds_plane(self.y@, self.width as int, self.height as int, self.strides.0 as int)
        &&& holds_plane(
            self.u@,
            (self.width + 1) / 2,
            (self.height + 1) / 2,
            self.strides.1 as int,
        )
        &&& holds_plane(
            self.v@,
            (self.width + 1) / 2,
            (self.height + 1) / 2,
            self.strides.2 as int,
        )
    }
}

/// The frame that shows a picture.
pub open spec fn is_frame_of(f: BgraFrame, p: DecodedPicture) -> bool {
    &&& f.width == p.width
    &&& f.height == p.height
    &&& f.data@ == bgra_bytes(
        p.width as int,
        p.height as int,
        p.y@,
        p.u@,
        p.v@,
        (p.strides.0 as int, p.strides.1 as int, p.strides.2 as int),
    )
}

/// Whether a plane holds `rows` rows of `columns` samples.
fn plane_fits(plane: &Vec<u8>, columns: usize, rows: usize, stride: usize) -> (b: bool)
    requires
        columns <= u32::MAX,
        rows <= u32::MAX,
    ensures
        b == holds_plane(plane@, columns as int, rows as int, stride as int),
{
    if columns == 0 || rows == 0 {
        return true;
    }
    proof {
        assert(0 <= (rows - 1) * stride <= u32::MAX * u64::MAX) by (nonlinear_arith)
            requires
                1 <= rows <= u32::MAX,
                0 <= stride <= u64::MAX,
        ;
    }
    let needed: u128 = (rows as u128 - 1) * stride as u128 + columns as u128;
    needed <= plane.len() as u128
}

impl DecodedPicture {
    /// Whether the planes hold the picture.
    pub fn is_whole(&self) -> (b: bool)
        ensures
            b == self.wf(),
    {
        if self.width > u32::MAX as usize || self.height > u32::MAX as usize {
            return false;
        }
        proof {
            assert(0 <= self.width * self.height <= u32::MAX * u32::MAX) by (nonlinear_arith)
                requires
                    0 <= self.width <= u32::MAX,
                    0 <= self.height <= u32::MAX,
            ;
        }
        if self.width as u128 * self.height as u128 * 4 > isize::MAX as u128 {
            return false;
        }
        let half_w: usize = self.width / 2 + self.width % 2;
        let half_h: usize = self.height / 2 + self.height % 2;
        plane_fits(&self.y, self.width, self.height, self.strides.0) && plane_fits(
            &self.u,
            half_w,
            half_h,
            self.strides.1,
        ) && plane_fits(&self.v, half_w, half_h, self.strides.2)
    }

    /// The frame that shows the picture.
    pub fn to_frame(&self) -> (f: BgraFrame)
        requires
            self.wf(),
        ensures
            is_frame_of(f, *self),
            packed(f.width, f.height, f.data@),
    {
        proof {
            assert(0 <= self.width * self.height) by (nonlinear_arith)
                requires
                    0 <= self.width,
                    0 <= self.height,
            ;
        }
        i420_to_bgra(
            self.width as u32,
            self.height as u32,
            self.y.as_slice(),
            self.u.as_slice(),
            self.v.as_slice(),
            self.strides.0,
            self.strides.1,
            self.strides.2,
        )
    }
}

/// What is handed to the encoder for a frame.
pub struct EncodePlan {
    /// The frame has to be a keyframe.
    pub force_idr: bool,
    pub planes: I420Frame,
}

/// An H.264 encoder.
pub struct H264Encoder {
    inner: RecordedEncoder,
    frame_count: u64,
    /// A keyframe was asked for, and no frame was handed over since.
    idr_requested: bool,
}

/// Every [`IDR_INTERVAL_FRAMES`]-th frame, from the first on, is a keyframe.
pub open spec fn idr_due(frame_count: u64) -> bool {
    frame_count % IDR_INTERVAL_FRAMES == 0
}

/// Of any [`IDR_INTERVAL_FRAMES`] frames in a row exactly one is forced to be
/// a keyframe.
pub proof fn one_idr_per_interval(start: u64)
    requires
        start <= u64::MAX - IDR_INTERVAL_FRAMES,
    ensures
        exists|k: u64|
            start <= k < start + IDR_INTERVAL_FRAMES && #[trigger] idr_due(k) && forall|j: u64|
                start <= j < start + IDR_INTERVAL_FRAMES && #[trigger] idr_due(j) ==> j == k,
{
    let k = if start % 300 == 0 {
        start
    } else {
        (start + (300 - start % 300)) as u64
    };
    assert(idr_due(k));
    assert forall|j: u64|
        start <= j < start + IDR_INTERVAL_FRAMES && #[trigger] idr_due(j) implies j == k by {
        let (a, b) = (j as int / 300, k as int / 300);
        assert(j == 300 * a && k == 300 * b);
        assert(-300 < 300 * a - 300 * b < 300);
        assert(a == b);
    }
}

/// Frames of odd width or height cannot be encoded.
pub open spec fn is_odd(frame: BgraFrame) -> bool {
    frame.width % 2 != 0 || frame.height % 2 != 0
}

/// What is handed to the encoder for a frame when `frame_count` came before; a
/// keyframe when one is due or was asked for.
pub fn plan_frame(frame: &BgraFrame, frame_count: u64, idr_requested: bool) -> (r: Result<
    EncodePlan,
    CodecError,
>)
    requires
        !is_odd(*frame) ==> packed(frame.width, frame.height, frame.data@),
    ensures
        match r {
            Ok(plan) => {
                let (w, h) = (frame.width as int, frame.height as int);
                &&& !is_odd(*frame)
                &&& plan.force_idr == (idr_due(frame_count) || idr_requested)
                &&& plan.planes.width == frame.width
                &&& plan.planes.height == frame.height
                &&& plan.planes.y@ == luma_plane(frame.data@, w, h)
                &&& plan.planes.u@ == u_plane(frame.data@, w, h)
                &&& plan.planes.v@ == v_plane(frame.data@, w, h)
            },
            Err(e) => is_odd(*frame) && e == (CodecError::OddDimensions {
                width: frame.width,
                height: frame.height,
            }),
        },
{
    if frame.width % 2 != 0 || frame.height % 2 != 0 {
        return Err(CodecError::OddDimensions { width: frame.width, height: frame.height });
    }
    let force_idr: bool = frame_count % IDR_INTERVAL_FRAMES == 0 || idr_requested;
    Ok(EncodePlan { force_idr, planes: bgra_to_i420(frame) })
}

/// A side that is longer than the encoder can count.
pub open spec fn uncountable(frame: BgraFrame) -> bool {
    frame.width > i32::MAX || frame.height > i32::MAX
}

/// The calls of the codec library's encoder for a frame when `frame_count`
/// came before and `bits` came back: the request for a keyframe when one is
/// due or was asked for, then the planes.
pub open spec fn calls_for(
    frame: BgraFrame,
    frame_count: u64,
    idr_requested: bool,
    bits: Option<Seq<u8>>,
) -> Seq<EncoderCall> {
    let (w, h) = (frame.width as int, frame.height as int);
    (if idr_due(frame_count) || idr_requested {
        seq![EncoderCall::IntraRequest]
    } else {
        Seq::empty()
    }) + (if uncountable(frame) {
        Seq::empty()
    } else {
        seq![
            EncoderCall::Frame {
                width: w,
                height: h,
                y: luma_plane(frame.data@, w, h),
                u: u_plane(frame.data@, w, h),
                v: v_plane(frame.data@, w, h),
                bits,
            },
        ]
    })
}

/// What an encoder's output becomes: an error where it refused, no access
/// unit where it is empty.
pub open spec fn is_unit_of(r: Result<Option<Vec<u8>>, CodecError>, bits: Option<Seq<u8>>) -> bool {
    match bits {
        None => r == Err::<Option<Vec<u8>>, CodecError>(CodecError::Encode),
        Some(b) => if b.len() == 0 {
            r == Ok::<Option<Vec<u8>>, CodecError>(None)
        } else {
            r is Ok && r->Ok_0 is Some && r->Ok_0->0@ == b
        },
    }
}

/// The access unit in an encoder's output: none when it is empty.
pub fn access_unit(bits: Vec<u8>) -> (au: Option<Vec<u8>>)
    ensures
        au == (if bits@.len() == 0 {
            None
        } else {
            Some(bits)
        }),
{
    if bits.is_empty() {
        None
    } else {
        Some(bits)
    }
}

impl H264Encoder {
    /// How many frames were handed over.
    pub closed spec fn frames(self) -> u64 {
        self.frame_count
    }

    /// Whether the next frame that is handed over is forced to be a keyframe
    /// because one was asked for.
    pub closed spec fn idr_requested(self) -> bool {
        self.idr_requested
    }

    /// The calls of the codec library's encoder, in order.
    pub closed spec fn calls(self) -> Seq<EncoderCall> {
        self.inner.calls()
    }

    /// Whether an encoder can be had is up to the codec library.
    pub fn new() -> (r: Result<H264Encoder, CodecError>)
        ensures
            match r {
                Ok(e) => e.frames() == 0 && !e.idr_requested() && e.calls() == Seq::<
                    EncoderCall,
                >::empty(),
                Err(e) => e == CodecError::EncoderInit,
            },
    {
        match RecordedEncoder::open() {
            Some(inner) => Ok(H264Encoder { inner, frame_count: 0, idr_requested: false }),
            None => Err(CodecError::EncoderInit),
        }
    }

    /// Force the next encoded frame to be an IDR (PLI response path).
    pub fn force_idr(&mut self)
        ensures
            final(self).idr_requested(),
            final(self).frames() == old(self).frames(),
            final(self).calls() == old(self).calls(),
    {
        self.idr_requested = true;
    }

    /// Whether every frame that can be counted was handed over.
    pub fn is_full(&self) -> (b: bool)
        ensures
            b == (self.frames() == u64::MAX),
    {
        self.frame_count == u64::MAX
    }

    /// Encode one BGRA frame to an Annex-B access unit, as [`plan_frame`]
    /// says. A frame that is handed over takes the keyframe request with it;
    /// one that is refused for its dimensions leaves it to the next. Whether
    /// the encoder takes the frame, and what it makes of it, is up to the
    /// codec library.
    pub fn encode_bgra(&mut self, frame: &BgraFrame) -> (r: Result<Option<Vec<u8>>, CodecError>)
        requires
            !is_odd(*frame) ==> packed(frame.width, frame.height, frame.data@),
            old(self).frames() < u64::MAX,
        ensures
            is_odd(*frame) ==> r == Err::<Option<Vec<u8>>, CodecError>(
                CodecError::OddDimensions { width: frame.width, height: frame.height },
            ) && final(self).frames() == old(self).frames() && final(self).idr_requested()
                == old(self).idr_requested() && final(self).calls() == old(self).calls(),
            !is_odd(*frame) ==> final(self).frames() == old(self).frames() + 1
                && !final(self).idr_requested() && exists|bits: Option<Seq<u8>>| #[trigger]
                is_unit_of(r, bits) && final(self).calls() == old(self).calls() + calls_for(
                    *frame,
                    old(self).frames(),
                    old(self).idr_requested(),
                    bits,
                ) && (too_large(frame.width as int, frame.height as int) ==> bits is None),
    {
        let plan: EncodePlan = match plan_frame(frame, self.frame_count, self.idr_requested) {
            Ok(plan) => plan,
            Err(e) => {
                return Err(e);
            },
        };
        let ghost before = *self;
        if plan.force_idr {
            self.inner.force_intra_frame();
        }
        self.frame_count += 1;
        self.idr_requested = false;
        let (w, h): (usize, usize) = (frame.width as usize, frame.height as usize);
        if w > i32::MAX as usize || h > i32::MAX as usize {
            let r: Result<Option<Vec<u8>>, CodecError> = Err(CodecError::Encode);
            assert(is_unit_of(r, None));
            assert(self.calls() =~= before.calls() + calls_for(
                *frame,
                before.frames(),
                before.idr_requested(),
                None,
            ));
            return r;
        }
        proof {
            assert(w * h == h * w) by (nonlinear_arith);
            assert((w / 2) * (h / 2) == (h / 2) * (w / 2)) by (nonlinear_arith);
            assert(0 <= w * h) by (nonlinear_arith);
            assert(0 <= (w / 2) * (h / 2)) by (nonlinear_arith);
        }
        let outcome: Option<Vec<u8>> = self.inner.encode(
            w,
            h,
            plan.planes.y.as_slice(),
            plan.planes.u.as_slice(),
            plan.planes.v.as_slice(),
        );
        let ghost bits = bits_view(outcome);
        let r: Result<Option<Vec<u8>>, CodecError> = match outcome {
            Some(bits) => Ok(access_unit(bits)),
            None => Err(CodecError::Encode),
        };
        assert(is_unit_of(r, bits));
        assert(self.calls() =~= before.calls() + calls_for(
            *frame,
            before.frames(),
            before.idr_requested(),
            bits,
        ));
        r
    }
}

/// An H.264 decoder.
pub struct H264Decoder {
    inner: RecordedDecoder,
}

impl H264Decoder {
    /// The calls of the codec library's decoder, in order.
    pub closed spec fn calls(self) -> Seq<DecoderCall> {
        self.inner.calls()
    }

    /// Whether a decoder can be had is up to the codec library.
    pub fn new() -> (r: Result<H264Decoder, CodecError>)
        ensures
            match r {
                Ok(d) => d.calls() == Seq::<DecoderCall>::empty(),
                Err(e) => e == CodecError::DecoderInit,
            },
    {
        match RecordedDecoder::open() {
            Some(inner) => Ok(H264Decoder { inner }),
            None => Err(CodecError::DecoderInit),
        }
    }

    /// Decode one Annex-B access unit; None until a picture is available.
    /// The decoder is handed the access unit as it is. What it makes of it is
    /// up to the codec library; a picture becomes its frame.
    pub fn decode(&mut self, annexb: &[u8]) -> (r: Result<Option<BgraFrame>, CodecError>)
        ensures
            exists|outcome: Result<Option<DecodedPicture>, ()>| #[trigger]
                becomes(outcome, r) && final(self).calls() == old(self).calls().push(
                    DecoderCall { packet: annexb@, outcome },
                ),
    {
        frame_of_outcome(self.inner.decode(annexb))
    }
}

/// What a decoder's outcome becomes: a picture its frame, unless its planes
/// do not hold it.
pub open spec fn becomes(
    outcome: Result<Option<DecodedPicture>, ()>,
    r: Result<Option<BgraFrame>, CodecError>,
) -> bool {
    match outcome {
        Err(_) => r == Err::<Option<BgraFrame>, CodecError>(CodecError::Decode),
        Ok(None) => r == Ok::<Option<BgraFrame>, CodecError>(None),
        Ok(Some(p)) => if p.wf() {
            r is Ok && r->Ok_0 is Some && is_frame_of(r->Ok_0->0, p) && packed(
                r->Ok_0->0.width,
                r->Ok_0->0.height,
                r->Ok_0->0.data@,
            )
        } else {
            r == Err::<Option<BgraFrame>, CodecError>(CodecError::BadPicture)
        },
    }
}

/// Makes a decoder's outcome a frame.
pub fn frame_of_outcome(outcome: Result<Option<DecodedPicture>, ()>) -> (r: Result<
    Option<BgraFrame>,
    CodecError,
>)
    ensures
        becomes(outcome, r),
{
    match outcome {
        Err(_) => Err(CodecError::Decode),
        Ok(None) => Ok(None),
        Ok(Some(p)) => {
            if p.is_whole() {
                Ok(Some(p.to_frame()))
            } else {
                Err(CodecError::BadPicture)
            }
        },
    }
}

} // verus!
