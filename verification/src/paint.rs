//! Painting a mirror: nearest-neighbour scaling into a buffer of pixels.

use crate::pixels::{packed, BgraFrame, RgbaImage};
use vstd::prelude::*;

verus! {

/// What a mirror without content shows.
pub const BLANK: u32 = 0xFF20_2020;

/// The column or row of a source that stands for one of a destination.
pub open spec fn nearest(at: int, source: int, destination: int) -> int {
    at * source / destination
}

/// The source position for a destination pixel.
pub open spec fn source_pixel(p: int, fw: int, fh: int, dw: int, dh: int) -> int {
    nearest(p / dw, fh, dh) * fw + nearest(p % dw, fw, dw)
}

/// The 0RGB pixel of a BGRA source pixel.
pub open spec fn opaque_pixel(data: Seq<u8>, q: int) -> u32 {
    (data[4 * q + 2] * 65536 + data[4 * q + 1] * 256 + data[4 * q]) as u32
}

/// A colour channel premultiplied with alpha.
pub open spec fn premultiplied(c: int, a: int) -> int {
    c * a / 255
}

/// The premultiplied ARGB pixel of an RGBA source pixel.
pub open spec fn blended_pixel(data: Seq<u8>, q: int) -> u32 {
    let a = data[4 * q + 3] as int;
    (a * 16777216 + premultiplied(data[4 * q] as int, a) * 65536 + premultiplied(
        data[4 * q + 1] as int,
        a,
    ) * 256 + premultiplied(data[4 * q + 2] as int, a)) as u32
}

/// A frame scaled to a buffer.
pub open spec fn video_pixels(frame: BgraFrame, dw: int, dh: int) -> Seq<u32> {
    Seq::new(
        (dw * dh) as nat,
        |p: int|
            opaque_pixel(
                frame.data@,
                source_pixel(p, frame.width as int, frame.height as int, dw, dh),
            ),
    )
}

/// An image scaled to a buffer.
pub open spec fn image_pixels(img: RgbaImage, dw: int, dh: int) -> Seq<u32> {
    Seq::new(
        (dw * dh) as nat,
        |p: int|
            blended_pixel(
                img.data@,
                source_pixel(p, img.width as int, img.height as int, dw, dh),
            ),
    )
}

/// A buffer of blank pixels.
pub open spec fn blank_pixels(dw: int, dh: int) -> Seq<u32> {
    Seq::new((dw * dh) as nat, |p: int| BLANK)
}

/// What a destination row or column shows lies inside the source.
proof fn nearest_inside(at: int, source: int, destination: int)
    requires
        0 <= at < destination,
        0 < source,
    ensures
        0 <= nearest(at, source, destination) < source,
{
    assert(0 <= at * source) by (nonlinear_arith)
        requires
            0 <= at,
            0 < source,
    ;
    assert(at * source < source * destination) by (nonlinear_arith)
        requires
            at < destination,
            0 < source,
    ;
    assert(0 <= at * source / destination < source) by (nonlinear_arith)
        requires
            0 <= at * source < source * destination,
            0 < destination,
    ;
}

/// Every destination pixel shows a pixel of the source.
pub proof fn source_pixel_inside(p: int, fw: int, fh: int, dw: int, dh: int)
    requires
        0 <= p < dw * dh,
        0 < fw,
        0 < fh,
        0 < dw,
        0 < dh,
    ensures
        0 <= source_pixel(p, fw, fh, dw, dh) < fw * fh,
{
    let (row, column) = (p / dw, p % dw);
    assert(0 <= row < dh) by (nonlinear_arith)
        requires
            row == p / dw,
            0 <= p < dw * dh,
            0 < dw,
    ;
    nearest_inside(row, fh, dh);
    nearest_inside(column, fw, dw);
    let sy = nearest(row, fh, dh);
    let sx = nearest(column, fw, dw);
    assert(0 <= sy * fw && sy * fw + fw <= fw * fh) by (nonlinear_arith)
        requires
            0 <= sy,
            sy + 1 <= fh,
            0 < fw,
    ;
}

/// Painting onto a surface of the source's own size changes no pixel's place.
pub proof fn same_size_keeps_places(p: int, w: int, h: int)
    requires
        0 <= p < w * h,
        0 < w,
        0 < h,
    ensures
        source_pixel(p, w, h, w, h) == p,
{
    let (row, column) = (p / w, p % w);
    assert(0 <= row < h) by (nonlinear_arith)
        requires
            row == p / w,
            0 <= p < w * h,
            0 < w,
    ;
    vstd::arithmetic::div_mod::lemma_div_by_multiple(row, h);
    vstd::arithmetic::div_mod::lemma_div_by_multiple(column, w);
    vstd::arithmetic::div_mod::lemma_fundamental_div_mod(p, w);
    assert(w * row == row * w) by (nonlinear_arith);
}

/// An opaque pixel of an image keeps its colour, and one that is fully
/// transparent shows nothing.
pub proof fn alpha_extremes(data: Seq<u8>, q: int)
    requires
        0 <= q,
        4 * q + 4 <= data.len(),
    ensures
        data[4 * q + 3] == 255 ==> blended_pixel(data, q) == (255 * 16777216 + data[4 * q] * 65536
            + data[4 * q + 1] * 256 + data[4 * q + 2]) as u32,
        data[4 * q + 3] == 0 ==> blended_pixel(data, q) == 0,
{
}

/// A premultiplied channel never exceeds its alpha.
pub proof fn premultiplied_within_alpha(c: int, a: int)
    requires
        0 <= c <= 255,
        0 <= a <= 255,
    ensures
        0 <= premultiplied(c, a) <= a,
{
    assert(0 <= c * a <= 255 * a) by (nonlinear_arith)
        requires
            0 <= c <= 255,
            0 <= a,
    ;
}

/// The source position for the destination pixel at `(dx, dy)`.
fn source_at(dx: u32, dy: u32, fw: u32, fh: u32, dw: u32, dh: u32) -> (q: u64)
    requires
        dx < dw,
        dy < dh,
        0 < fw,
        0 < fh,
    ensures
        q == source_pixel(dy * dw + dx, fw as int, fh as int, dw as int, dh as int),
        q < fw * fh,
{
    proof {
        nearest_inside(dy as int, fh as int, dh as int);
        nearest_inside(dx as int, fw as int, dw as int);
        assert(0 <= dy * fh <= u32::MAX * u32::MAX) by (nonlinear_arith)
            requires
                0 <= dy <= u32::MAX,
                0 <= fh <= u32::MAX,
        ;
        assert(0 <= dx * fw <= u32::MAX * u32::MAX) by (nonlinear_arith)
            requires
                0 <= dx <= u32::MAX,
                0 <= fw <= u32::MAX,
        ;
        vstd::arithmetic::div_mod::lemma_fundamental_div_mod_converse(
            dy * dw + dx,
            dw as int,
            dy as int,
            dx as int,
        );
    }
    let sy: u64 = dy as u64 * fh as u64 / dh as u64;
    let sx: u64 = dx as u64 * fw as u64 / dw as u64;
    proof {
        assert(0 <= sy * fw && sy * fw + fw <= fw * fh) by (nonlinear_arith)
            requires
                0 <= sy,
                sy + 1 <= fh,
                0 < fw,
        ;
        assert(fw * fh <= u32::MAX * u32::MAX) by (nonlinear_arith)
            requires
                0 <= fw <= u32::MAX,
                0 <= fh <= u32::MAX,
        ;
    }
    sy * fw as u64 + sx
}

/// A blank buffer.
pub fn paint_blank(dw: u32, dh: u32) -> (buf: Vec<u32>)
    ensures
        buf@ == blank_pixels(dw as int, dh as int),
{
    let mut buf: Vec<u32> = Vec::new();
    let mut p: u64 = 0;
    proof {
        assert(0 <= dw * dh <= u32::MAX * u32::MAX) by (nonlinear_arith)
            requires
                0 <= dw <= u32::MAX,
                0 <= dh <= u32::MAX,
        ;
    }
    let total: u64 = dw as u64 * dh as u64;
    while p < total
        invariant
            p <= total,
            buf@.len() == p,
            forall|i: int| 0 <= i < p ==> #[trigger] buf@[i] == BLANK,
        decreases total - p,
    {
        buf.push(BLANK);
        p += 1;
    }
    assert(buf@ =~= blank_pixels(dw as int, dh as int));
    buf
}

/// Scales a frame into a buffer; `None` when either has no pixels.
pub fn paint_video(frame: &BgraFrame, dw: u32, dh: u32) -> (r: Option<Vec<u32>>)
    requires
        packed(frame.width, frame.height, frame.data@),
    ensures
        match r {
            Some(buf) => frame.width > 0 && frame.height > 0 && dw > 0 && dh > 0 && buf@
                == video_pixels(*frame, dw as int, dh as int),
            None => frame.width == 0 || frame.height == 0 || dw == 0 || dh == 0,
        },
{
    let (fw, fh): (u32, u32) = (frame.width, frame.height);
    if fw == 0 || fh == 0 || dw == 0 || dh == 0 {
        return None;
    }
    let mut buf: Vec<u32> = Vec::new();
    let ghost want = video_pixels(*frame, dw as int, dh as int);
    assert(want.len() == dw * dh) by {
        assert(0 <= dw * dh) by (nonlinear_arith);
    }
    let mut dy: u32 = 0;
    while dy < dh
        invariant
            packed(frame.width, frame.height, frame.data@),
            fw == frame.width,
            fh == frame.height,
            0 < fw,
            0 < fh,
            0 < dw,
            want == video_pixels(*frame, dw as int, dh as int),
            want.len() == dw * dh,
            dy <= dh,
            buf@ == want.take(dy * dw),
            0 <= dy * dw <= want.len(),
        decreases dh - dy,
    {
        let mut dx: u32 = 0;
        assert(0 <= dy * dw && dy * dw + dw <= dw * dh) by (nonlinear_arith)
            requires
                0 <= dy,
                dy + 1 <= dh,
                0 < dw,
        ;
        while dx < dw
            invariant
                packed(frame.width, frame.height, frame.data@),
                fw == frame.width,
                fh == frame.height,
                0 < fw,
                0 < fh,
                dy < dh,
                dx <= dw,
                want == video_pixels(*frame, dw as int, dh as int),
                want.len() == dw * dh,
                0 <= dy * dw,
                dy * dw + dw <= dw * dh,
                buf@ == want.take(dy * dw + dx),
            decreases dw - dx,
        {
            let q: u64 = source_at(dx, dy, fw, fh, dw, dh);
            assert(frame.data.len() == frame.data@.len());
            let si: usize = q as usize * 4;
            let b: u32 = frame.data[si] as u32;
            let g: u32 = frame.data[si + 1] as u32;
            let r: u32 = frame.data[si + 2] as u32;
            buf.push(r * 65536 + g * 256 + b);
            assert(buf@ =~= want.take(dy * dw + dx + 1));
            dx += 1;
        }
        assert((dy + 1) * dw == dy * dw + dw) by (nonlinear_arith);
        dy += 1;
    }
    assert(dh * dw == dw * dh) by (nonlinear_arith);
    assert(buf@ =~= want);
    Some(buf)
}

/// A channel premultiplied with alpha.
fn premultiply(c: u8, a: u8) -> (r: u32)
    ensures
        r == premultiplied(c as int, a as int),
        r <= 255,
{
    proof {
        assert(0 <= c * a <= 255 * 255) by (nonlinear_arith)
            requires
                0 <= c <= 255,
                0 <= a <= 255,
        ;
    }
    c as u32 * a as u32 / 255
}

/// Scales an image into a buffer; `None` when the image has no pixels.
pub fn paint_image(img: &RgbaImage, dw: u32, dh: u32) -> (r: Option<Vec<u32>>)
    requires
        packed(img.width, img.height, img.data@),
    ensures
        match r {
            Some(buf) => img.width > 0 && img.height > 0 && buf@ == image_pixels(
                *img,
                dw as int,
                dh as int,
            ),
            None => img.width == 0 || img.height == 0,
        },
{
    let (fw, fh): (u32, u32) = (img.width, img.height);
    if fw == 0 || fh == 0 {
        return None;
    }
    let mut buf: Vec<u32> = Vec::new();
    let ghost want = image_pixels(*img, dw as int, dh as int);
    assert(want.len() == dw * dh) by {
        assert(0 <= dw * dh) by (nonlinear_arith);
    }
    let mut dy: u32 = 0;
    while dy < dh
        invariant
            packed(img.width, img.height, img.data@),
            fw == img.width,
            fh == img.height,
            0 < fw,
            0 < fh,
            want == image_pixels(*img, dw as int, dh as int),
            want.len() == dw * dh,
            dy <= dh,
            buf@ == want.take(dy * dw),
            0 <= dy * dw <= want.len(),
        decreases dh - dy,
    {
        let mut dx: u32 = 0;
        assert(0 <= dy * dw && dy * dw + dw <= dw * dh) by (nonlinear_arith)
            requires
                0 <= dy,
                dy + 1 <= dh,
                0 <= dw,
        ;
        while dx < dw
            invariant
                packed(img.width, img.height, img.data@),
                fw == img.width,
                fh == img.height,
                0 < fw,
                0 < fh,
                dy < dh,
                dx <= dw,
                want == image_pixels(*img, dw as int, dh as int),
                want.len() == dw * dh,
                0 <= dy * dw,
                dy * dw + dw <= dw * dh,
                buf@ == want.take(dy * dw + dx),
            decreases dw - dx,
        {
            let q: u64 = source_at(dx, dy, fw, fh, dw, dh);
            assert(img.data.len() == img.data@.len());
            let si: usize = q as usize * 4;
            let a: u8 = img.data[si + 3];
            let r: u32 = premultiply(img.data[si], a);
            let g: u32 = premultiply(img.data[si + 1], a);
            let b: u32 = premultiply(img.data[si + 2], a);
            buf.push(a as u32 * 16777216 + r * 65536 + g * 256 + b);
            assert(buf@ =~= want.take(dy * dw + dx + 1));
            dx += 1;
        }
        assert((dy + 1) * dw == dy * dw + dw) by (nonlinear_arith);
        dy += 1;
    }
    assert(dh * dw == dw * dh) by (nonlinear_arith);
    assert(buf@ =~= want);
    Some(buf)
}

} // verus!
