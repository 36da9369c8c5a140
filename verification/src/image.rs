//! Still images: PNG on the wire, RGBA in memory.

use crate::pixels::{packed, RgbaImage};
use vstd::prelude::*;

verus! {

/// The picture in a PNG file, as the crate `png` decodes it to eight bits per
/// sample with an alpha channel: width, height, samples per pixel and
/// samples; `None` for bytes that are no PNG.
pub uninterp spec fn png_picture(bytes: Seq<u8>) -> Option<(u32, u32, usize, Seq<u8>)>;

/// The PNG file of an RGBA picture, as the crate `png` writes it.
pub uninterp spec fn png_file(width: u32, height: u32, rgba: Seq<u8>) -> Seq<u8>;

/// Why an image could not be read or written.
#[derive(Debug, Clone, Copy, PartialEq, Eq, Structural)]
pub enum ImageError {
    /// The bytes are no PNG.
    Malformed,
    /// An image without pixels has no PNG.
    Empty,
    /// The image's data does not fit its size.
    WrongLength,
}

/// `Decoder::read_info` and `Reader::next_frame` of the crate `png`, with the
/// transformations `EXPAND`, `ALPHA` and `STRIP_16`: the picture is a function
/// of the bytes. Its samples have eight bits; grey pictures come with two
/// samples per pixel, all others with four, alpha being the last; and each
/// pixel has its samples, row by row and without padding.
#[verifier::external_body]
pub(crate) fn read_png(bytes: &[u8]) -> (r: Option<(u32, u32, usize, Vec<u8>)>)
    ensures
        match r {
            Some((w, h, samples, data)) => {
                &&& png_picture(bytes@) == Some((w, h, samples, data@))
                &&& samples == 2 || samples == 4
                &&& data@.len() == w * h * samples
            },
            None => png_picture(bytes@) is None,
        },
{
    let mut decoder = png::Decoder::new(bytes);
    decoder.set_transformations(
        png::Transformations::EXPAND | png::Transformations::ALPHA | png::Transformations::STRIP_16,
    );
    let mut reader = decoder.read_info().ok()?;
    let mut buf = vec![0u8; reader.output_buffer_size()];
    let info = reader.next_frame(&mut buf).ok()?;
    buf.truncate(info.buffer_size());
    Some((info.width, info.height, info.color_type.samples(), buf))
}

/// The widest picture that is certain to stay within the decoder's default
/// memory limit.
pub const WIDEST_CERTAIN: u32 = 1_048_576;

/// `Encoder::write_header` and `Writer::write_image_data` of the crate `png`,
/// RGBA with eight bits per sample and the fast compression: the file is a
/// function of the picture, and its picture is the one that was written,
/// provided that a row stays within the decoder's memory limit.
#[verifier::external_body]
pub(crate) fn write_png(width: u32, height: u32, rgba: &[u8]) -> (r: Option<Vec<u8>>)
    requires
        width > 0,
        height > 0,
        rgba@.len() == width * height * 4,
    ensures
        r is Some,
        r->0@ == png_file(width, height, rgba@),
        width <= WIDEST_CERTAIN ==> png_picture(r->0@) == Some((width, height, 4usize, rgba@)),
{
    let mut out = Vec::new();
    let mut encoder = png::Encoder::new(&mut out, width, height);
    encoder.set_color(png::ColorType::Rgba);
    encoder.set_depth(png::BitDepth::Eight);
    encoder.set_compression(png::Compression::Fast);
    let mut writer = encoder.write_header().ok()?;
    writer.write_image_data(rgba).ok()?;
    drop(writer);
    Some(out)
}

/// The RGBA bytes of a picture: those of four samples as they are, those of
/// two as grey.
pub open spec fn rgba_of(samples: usize, data: Seq<u8>) -> Seq<u8> {
    if samples == 4 {
        data
    } else {
        Seq::new(
            2 * data.len(),
            |k: int|
                if k % 4 == 3 {
                    data[2 * (k / 4) + 1]
                } else {
                    data[2 * (k / 4)]
                },
        )
    }
}

/// The image in a PNG file: width, height and RGBA bytes.
pub open spec fn decoded_image(picture: Option<(u32, u32, usize, Seq<u8>)>) -> Result<
    (u32, u32, Seq<u8>),
    ImageError,
> {
    match picture {
        Some((w, h, samples, data)) => Ok((w, h, rgba_of(samples, data))),
        None => Err(ImageError::Malformed),
    }
}

/// What an image says.
pub open spec fn image_view(r: Result<RgbaImage, ImageError>) -> Result<
    (u32, u32, Seq<u8>),
    ImageError,
> {
    match r {
        Ok(img) => Ok((img.width, img.height, img.data@)),
        Err(e) => Err(e),
    }
}

pub open spec fn picture_view(p: Option<(u32, u32, usize, Vec<u8>)>) -> Option<
    (u32, u32, usize, Seq<u8>),
> {
    match p {
        Some((w, h, samples, data)) => Some((w, h, samples, data@)),
        None => None,
    }
}

/// Grey and alpha samples as RGBA.
fn grey_to_rgba(data: &Vec<u8>) -> (r: Vec<u8>)
    requires
        data@.len() % 2 == 0,
    ensures
        r@ == rgba_of(2, data@),
{
    let ghost want = rgba_of(2, data@);
    let mut r: Vec<u8> = Vec::new();
    let mut i: usize = 0;
    while i < data.len()
        invariant
            i <= data@.len(),
            i % 2 == 0,
            data@.len() % 2 == 0,
            want == rgba_of(2, data@),
            r@ == want.take(2 * i),
        decreases data@.len() - i,
    {
        let grey: u8 = data[i];
        let alpha: u8 = data[i + 1];
        r.push(grey);
        r.push(grey);
        r.push(grey);
        r.push(alpha);
        proof {
            let k = 2 * i as int;
            assert(k % 4 == 0 && (k + 1) % 4 == 1 && (k + 2) % 4 == 2 && (k + 3) % 4 == 3);
            assert(2 * (k / 4) == i && 2 * ((k + 1) / 4) == i && 2 * ((k + 2) / 4) == i && 2 * ((k
                + 3) / 4) == i);
            assert(r@ =~= want.take(2 * (i + 2)));
        }
        i += 2;
    }
    assert(r@ =~= want);
    r
}

/// The image of a decoded picture.
pub fn image_of_picture(picture: Option<(u32, u32, usize, Vec<u8>)>) -> (r: Result<
    RgbaImage,
    ImageError,
>)
    requires
        match picture {
            Some((w, h, samples, data)) => (samples == 2 || samples == 4) && data@.len() == w * h
                * samples,
            None => true,
        },
    ensures
        image_view(r) == decoded_image(picture_view(picture)),
        r is Ok ==> packed(r->Ok_0.width, r->Ok_0.height, r->Ok_0.data@),
{
    match picture {
        None => Err(ImageError::Malformed),
        Some((width, height, samples, data)) => {
            if samples == 4 {
                Ok(RgbaImage { width, height, data })
            } else {
                assert(data@.len() % 2 == 0);
                Ok(RgbaImage { width, height, data: grey_to_rgba(&data) })
            }
        },
    }
}

/// Decode a transient blit PNG into an RGBA image, regardless of the source's
/// bit depth and colour type.
pub fn decode_png(bytes: &[u8]) -> (r: Result<RgbaImage, ImageError>)
    ensures
        image_view(r) == decoded_image(png_picture(bytes@)),
        r is Ok ==> packed(r->Ok_0.width, r->Ok_0.height, r->Ok_0.data@),
{
    image_of_picture(read_png(bytes))
}

/// Why an image has no PNG, if it has none.
pub open spec fn encode_error(width: u32, height: u32, data: Seq<u8>) -> Option<ImageError> {
    if width == 0 || height == 0 {
        Some(ImageError::Empty)
    } else if data.len() != width * height * 4 {
        Some(ImageError::WrongLength)
    } else {
        None
    }
}

/// RGBA to PNG bytes (what goes over the wire). A picture that was encoded
/// decodes to itself.
pub fn encode_png(img: &RgbaImage) -> (r: Result<Vec<u8>, ImageError>)
    ensures
        match encode_error(img.width, img.height, img.data@) {
            Some(e) => r == Err::<Vec<u8>, ImageError>(e),
            None => {
                &&& r is Ok
                &&& r->Ok_0@ == png_file(img.width, img.height, img.data@)
                &&& img.width <= WIDEST_CERTAIN ==> decoded_image(png_picture(r->Ok_0@)) == Ok::<
                    (u32, u32, Seq<u8>),
                    ImageError,
                >((img.width, img.height, img.data@))
            },
        },
{
    if img.width == 0 || img.height == 0 {
        return Err(ImageError::Empty);
    }
    proof {
        assert(0 <= img.width * img.height <= u32::MAX * u32::MAX) by (nonlinear_arith)
            requires
                0 <= img.width <= u32::MAX,
                0 <= img.height <= u32::MAX,
        ;
    }
    let wanted: u128 = img.width as u128 * img.height as u128 * 4;
    if img.data.len() as u128 != wanted {
        return Err(ImageError::WrongLength);
    }
    match write_png(img.width, img.height, img.data.as_slice()) {
        Some(bytes) => Ok(bytes),
        None => Err(ImageError::Malformed),
    }
}

} // verus!
