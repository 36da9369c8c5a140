//! The codec library's encoder and decoder, each with a record of what it was
//! handed and what it returned.

use crate::codec::{too_large, DecodedPicture};
use openh264::formats::YUVSource as _;
use vstd::prelude::*;

verus! {

/// The encoder of the crate `openh264`.
#[verifier::external_type_specification]
#[verifier::external_body]
pub struct ExEncoder(openh264::encoder::Encoder);

/// The decoder of the crate `openh264`.
#[verifier::external_type_specification]
#[verifier::external_body]
pub struct ExDecoder(openh264::decoder::Decoder);

/// A call of an encoder.
pub ghost enum EncoderCall {
    /// The request that the next frame be a keyframe.
    IntraRequest,
    /// A frame's planes, tightly packed, and the bits that came back; `None`
    /// where the encoder refused.
    Frame {
        width: int,
        height: int,
        y: Seq<u8>,
        u: Seq<u8>,
        v: Seq<u8>,
        bits: Option<Seq<u8>>,
    },
}

/// A call of a decoder: the packet it was handed and what came back.
pub ghost struct DecoderCall {
    pub packet: Seq<u8>,
    pub outcome: Result<Option<DecodedPicture>, ()>,
}

/// An encoder and its calls so far.
pub struct RecordedEncoder {
    inner: openh264::encoder::Encoder,
    calls: Ghost<Seq<EncoderCall>>,
}

/// A decoder and its calls so far.
pub struct RecordedDecoder {
    inner: openh264::decoder::Decoder,
    calls: Ghost<Seq<DecoderCall>>,
}

/// The view of an encoder's output.
pub open spec fn bits_view(bits: Option<Vec<u8>>) -> Option<Seq<u8>> {
    match bits {
        Some(b) => Some(b@),
        None => None,
    }
}

/// `Encoder::new` of the crate `openh264`. Whether it succeeds is up to the
/// codec library.
#[verifier::external_body]
fn new_encoder() -> (r: Option<openh264::encoder::Encoder>) {
    openh264::encoder::Encoder::new().ok()
}

/// `Decoder::new` of the crate `openh264`. Whether it succeeds is up to the
/// codec library.
#[verifier::external_body]
fn new_decoder() -> (r: Option<openh264::decoder::Decoder>) {
    openh264::decoder::Decoder::new().ok()
}

impl RecordedEncoder {
    /// The encoder's calls, in order.
    pub closed spec fn calls(self) -> Seq<EncoderCall> {
        self.calls@
    }

    /// A new encoder, if one can be had.
    pub(crate) fn open() -> (r: Option<RecordedEncoder>)
        ensures
            r is Some ==> r->0.calls() == Seq::<EncoderCall>::empty(),
    {
        match new_encoder() {
            Some(inner) => Some(RecordedEncoder { inner, calls: Ghost(Seq::empty()) }),
            None => None,
        }
    }

    /// `Encoder::force_intra_frame` of the crate `openh264`: the record says
    /// that it was called. That the next encoded frame is a keyframe is up to
    /// the codec library and not claimed.
    #[verifier::external_body]
    pub(crate) fn force_intra_frame(&mut self)
        ensures
            final(self).calls() == old(self).calls().push(EncoderCall::IntraRequest),
    {
        self.inner.force_intra_frame()
    }

    /// `Encoder::encode` of the crate `openh264` and `to_vec` on its result,
    /// for tightly packed planes: the record says that it was called with
    /// them and what came back. That is up to the codec library and what it
    /// was fed before, and not claimed, but for a frame that is too large,
    /// which is refused.
    #[verifier::external_body]
    pub(crate) fn encode(&mut self, width: usize, height: usize, y: &[u8], u: &[u8], v: &[u8]) -> (r:
        Option<Vec<u8>>)
        requires
            width <= i32::MAX,
            height <= i32::MAX,
            y@.len() == height * width,
            u@.len() == (height / 2) * (width / 2),
            v@.len() == (height / 2) * (width / 2),
        ensures
            final(self).calls() == old(self).calls().push(
                EncoderCall::Frame {
                    width: width as int,
                    height: height as int,
                    y: y@,
                    u: u@,
                    v: v@,
                    bits: bits_view(r),
                },
            ),
            too_large(width as int, height as int) ==> r is None,
    {
        let strides = (width, width / 2, width / 2);
        let source = openh264::formats::YUVSlices::new((y, u, v), (width, height), strides);
        match self.inner.encode(&source) {
            Ok(bits) => Some(bits.to_vec()),
            Err(_) => None,
        }
    }
}

impl RecordedDecoder {
    /// The decoder's calls, in order.
    pub closed spec fn calls(self) -> Seq<DecoderCall> {
        self.calls@
    }

    /// A new decoder, if one can be had.
    pub(crate) fn open() -> (r: Option<RecordedDecoder>)
        ensures
            r is Some ==> r->0.calls() == Seq::<DecoderCall>::empty(),
    {
        match new_decoder() {
            Some(inner) => Some(RecordedDecoder { inner, calls: Ghost(Seq::empty()) }),
            None => None,
        }
    }

    /// `Decoder::decode` of the crate `openh264`, its picture copied out:
    /// `Err` where it returns an error, `None` while it has no picture. The
    /// record says that it was called with the packet and what came back.
    /// That is up to the codec library and what it was fed before, and not
    /// claimed.
    #[verifier::external_body]
    pub(crate) fn decode(&mut self, packet: &[u8]) -> (r: Result<Option<DecodedPicture>, ()>)
        ensures
            final(self).calls() == old(self).calls().push(DecoderCall { packet: packet@, outcome: r }),
    {
        match self.inner.decode(packet) {
            Err(_) => Err(()),
            Ok(None) => Ok(None),
            Ok(Some(p)) => Ok(Some(DecodedPicture {
                width: p.dimensions().0,
                height: p.dimensions().1,
                y: p.y().to_vec(),
                u: p.u().to_vec(),
                v: p.v().to_vec(),
                strides: p.strides(),
            })),
        }
    }
}

} // verus!
