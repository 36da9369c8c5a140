//! What the conversions between BGRA and I420 do to every pixel.

use vstd::prelude::*;
use crate::pixels::{
    bgra_bytes, bgra_to_i420, block_mean, channel, chroma_u, chroma_v, clamp_u8, clamped,
    i420_to_bgra, luma, luma_plane, pixel_channel,
    place, row_inside, sample, u_plane, v_plane, BgraFrame, I420Frame,
};

verus! {

/// `c` is the byte nearest to `t / 256`, halves going up.
pub open spec fn nearest_byte(c: u8, t: int) -> bool {
    &&& c > 0 ==> 256 * c - 128 <= t
    &&& c < 255 ==> t < 256 * c + 128
}

/// A clamped value is the byte nearest to it.
pub proof fn clamping_finds_the_nearest_byte(v: i32, r: u8)
    requires
        call_ensures(clamp_u8, (v,), r),
    ensures
        0 <= v <= 255 ==> r == v,
        v < 0 ==> r == 0,
        v > 255 ==> r == 255,
{
}

/// Every pixel of a converted picture is made of its own luma sample and of
/// the chroma samples of its block, each found by its own plane's stride, as
/// BT.601 limited range has it; and it is opaque.
pub proof fn pixel_is_made_of_its_own_samples(
    width: u32,
    height: u32,
    y: &[u8],
    u: &[u8],
    v: &[u8],
    y_stride: usize,
    u_stride: usize,
    v_stride: usize,
    f: BgraFrame,
    xx: int,
    yy: int,
)
    requires
        width * height * 4 <= usize::MAX,
        0 <= xx < width,
        0 <= yy < height,
        (height - 1) * y_stride + width <= y@.len(),
        ((height + 1) / 2 - 1) * u_stride + (width + 1) / 2 <= u@.len(),
        ((height + 1) / 2 - 1) * v_stride + (width + 1) / 2 <= v@.len(),
        call_ensures(i420_to_bgra, (width, height, y, u, v, y_stride, u_stride, v_stride), f),
    ensures
        f.width == width,
        f.height == height,
        f.data@.len() == width * height * 4,
        0 <= (yy * width + xx) * 4 <= f.data@.len() - 4,
        ({
            let k = (yy * width + xx) * 4;
            let l = y@[yy * y_stride + xx] as int;
            let cu = u@[(yy / 2) * u_stride + xx / 2] as int;
            let cv = v@[(yy / 2) * v_stride + xx / 2] as int;
            &&& nearest_byte(f.data@[k], 298 * (l - 16) + 516 * (cu - 128))
            &&& nearest_byte(
                f.data@[k + 1],
                298 * (l - 16) - 100 * (cu - 128) - 208 * (cv - 128),
            )
            &&& nearest_byte(f.data@[k + 2], 298 * (l - 16) + 409 * (cv - 128))
            &&& f.data@[k + 3] == 255
        }),
{
    let (w, h) = (width as int, height as int);
    let p = yy * w + xx;
    let k = p * 4;
    row_inside(w, h, yy);
    place(w, yy, xx);
    assert(k / 4 == p && (k + 1) / 4 == p && (k + 2) / 4 == p && (k + 3) / 4 == p);
    assert(k % 4 == 0 && (k + 1) % 4 == 1 && (k + 2) % 4 == 2 && (k + 3) % 4 == 3);
    let strides = (y_stride as int, u_stride as int, v_stride as int);
    assert(f.data@ == bgra_bytes(w, h, y@, u@, v@, strides));
    assert(f.data@[k] == pixel_channel(y@, u@, v@, strides, xx, yy, 0));
    assert(f.data@[k + 1] == pixel_channel(y@, u@, v@, strides, xx, yy, 1));
    assert(f.data@[k + 2] == pixel_channel(y@, u@, v@, strides, xx, yy, 2));
    assert(f.data@[k + 3] == pixel_channel(y@, u@, v@, strides, xx, yy, 3));
}

/// With neutral chroma a pixel is a grey of its own luma: two pixels of one
/// picture, of one block even, are as bright as their own samples say, and a
/// brighter sample is never a darker pixel.
pub proof fn neutral_pixel_is_as_bright_as_its_sample(
    width: u32,
    height: u32,
    y: &[u8],
    u: &[u8],
    v: &[u8],
    y_stride: usize,
    u_stride: usize,
    v_stride: usize,
    f: BgraFrame,
    xx: int,
    yy: int,
)
    requires
        width * height * 4 <= usize::MAX,
        0 <= xx < width,
        0 <= yy < height,
        (height - 1) * y_stride + width <= y@.len(),
        ((height + 1) / 2 - 1) * u_stride + (width + 1) / 2 <= u@.len(),
        ((height + 1) / 2 - 1) * v_stride + (width + 1) / 2 <= v@.len(),
        call_ensures(i420_to_bgra, (width, height, y, u, v, y_stride, u_stride, v_stride), f),
        u@[(yy / 2) * u_stride + xx / 2] == 128,
        v@[(yy / 2) * v_stride + xx / 2] == 128,
    ensures
        ({
            let k = (yy * width + xx) * 4;
            let l = y@[yy * y_stride + xx] as int;
            let grey = f.data@[k] as int;
            &&& f.data@[k + 1] == grey
            &&& f.data@[k + 2] == grey
            &&& l <= 16 ==> grey == 0
            &&& l >= 235 ==> grey == 255
            &&& 16 <= l <= 235 ==> -220 <= 219 * grey - 255 * (l - 16) <= 220
        }),
{
    pixel_is_made_of_its_own_samples(
        width,
        height,
        y,
        u,
        v,
        y_stride,
        u_stride,
        v_stride,
        f,
        xx,
        yy,
    );
}

/// Every luma sample of a converted frame is that of its own pixel.
pub proof fn luma_is_that_of_its_own_pixel(frame: &BgraFrame, f: I420Frame, xx: int, yy: int)
    requires
        frame.width % 2 == 0,
        frame.height % 2 == 0,
        frame.data@.len() == frame.width * frame.height * 4,
        call_ensures(bgra_to_i420, (frame,), f),
        0 <= xx < frame.width,
        0 <= yy < frame.height,
    ensures
        f.width == frame.width,
        f.height == frame.height,
        f.y@.len() == frame.width * frame.height,
        ({
            let p = yy * frame.width + xx;
            let b = frame.data@[4 * p] as int;
            let g = frame.data@[4 * p + 1] as int;
            let r = frame.data@[4 * p + 2] as int;
            let l = f.y@[p] as int;
            &&& 0 <= p < f.y@.len()
            &&& 256 * (l - 16) - 128 <= 66 * r + 129 * g + 25 * b
            &&& 66 * r + 129 * g + 25 * b < 256 * (l - 16) + 128
        }),
{
    let (w, h) = (frame.width as int, frame.height as int);
    row_inside(w, h, yy);
    assert(f.y@ == luma_plane(frame.data@, w, h));
    let p = yy * w + xx;
    assert(f.y@[p] == luma(
        channel(frame.data@, p, 0),
        channel(frame.data@, p, 1),
        channel(frame.data@, p, 2),
    ));
}

/// Every chroma sample of a converted frame is that of the average colour of
/// its own two by two pixels: `b`, `g` and `r` are the averages, rounded down.
pub proof fn chroma_is_that_of_its_own_block(
    frame: &BgraFrame,
    f: I420Frame,
    cx: int,
    cy: int,
    b: int,
    g: int,
    r: int,
)
    requires
        frame.width % 2 == 0,
        frame.height % 2 == 0,
        frame.data@.len() == frame.width * frame.height * 4,
        call_ensures(bgra_to_i420, (frame,), f),
        0 <= cx < frame.width / 2,
        0 <= cy < frame.height / 2,
        ({
            let top = 4 * (2 * cy * frame.width + 2 * cx);
            let bottom = 4 * ((2 * cy + 1) * frame.width + 2 * cx);
            let d = frame.data@;
            &&& 4 * b <= d[top] + d[top + 4] + d[bottom] + d[bottom + 4] < 4 * b + 4
            &&& 4 * g <= d[top + 1] + d[top + 5] + d[bottom + 1] + d[bottom + 5] < 4 * g + 4
            &&& 4 * r <= d[top + 2] + d[top + 6] + d[bottom + 2] + d[bottom + 6] < 4 * r + 4
        }),
    ensures
        f.u@.len() == (frame.width / 2) * (frame.height / 2),
        f.v@.len() == (frame.width / 2) * (frame.height / 2),
        ({
            let q = cy * (frame.width / 2) + cx;
            let (tu, tv) = (-38 * r - 74 * g + 112 * b, 112 * r - 94 * g - 18 * b);
            &&& 0 <= q < f.u@.len()
            &&& 256 * (f.u@[q] - 128) - 128 <= tu < 256 * (f.u@[q] - 128) + 128
            &&& 256 * (f.v@[q] - 128) - 128 <= tv < 256 * (f.v@[q] - 128) + 128
        }),
{
    let (w, h) = (frame.width as int, frame.height as int);
    let half = w / 2;
    row_inside(half, h / 2, cy);
    place(half, cy, cx);
    let q = cy * half + cx;
    let data = frame.data@;
    assert(f.u@ == u_plane(data, w, h));
    assert(f.v@ == v_plane(data, w, h));
    assert(2 * cy * w == (2 * cy) * w);
    assert(block_mean(data, w, cx, cy, 0) == b);
    assert(block_mean(data, w, cx, cy, 1) == g);
    assert(block_mean(data, w, cx, cy, 2) == r);
    assert(f.u@[q] == chroma_u(b, g, r));
    assert(f.v@[q] == chroma_v(b, g, r));
}

/// A frame whose pixels are greys, each its own, survives the way to I420 and
/// back: no channel of any pixel is off by more than three, whatever its
/// neighbours are, and every pixel is opaque.
pub proof fn greys_survive_i420(
    frame: &BgraFrame,
    f: I420Frame,
    y: &[u8],
    u: &[u8],
    v: &[u8],
    y_stride: usize,
    half_stride: usize,
    back: BgraFrame,
    xx: int,
    yy: int,
)
    requires
        frame.width % 2 == 0,
        frame.height % 2 == 0,
        frame.data@.len() == frame.width * frame.height * 4,
        frame.data@.len() <= usize::MAX,
        forall|p: int|
            0 <= p < frame.width * frame.height ==> #[trigger] frame.data@[4 * p]
                == frame.data@[4 * p + 1] && frame.data@[4 * p] == frame.data@[4 * p + 2],
        call_ensures(bgra_to_i420, (frame,), f),
        y@ == f.y@,
        u@ == f.u@,
        v@ == f.v@,
        y_stride == frame.width,
        half_stride == frame.width / 2,
        call_ensures(
            i420_to_bgra,
            (f.width, f.height, y, u, v, y_stride, half_stride, half_stride),
            back,
        ),
        0 <= xx < frame.width,
        0 <= yy < frame.height,
    ensures
        back.width == frame.width,
        back.height == frame.height,
        back.data@.len() == frame.data@.len(),
        ({
            let k = (yy * frame.width + xx) * 4;
            &&& -3 <= back.data@[k] - frame.data@[k] <= 3
            &&& -3 <= back.data@[k + 1] - frame.data@[k + 1] <= 3
            &&& -3 <= back.data@[k + 2] - frame.data@[k + 2] <= 3
            &&& back.data@[k + 3] == 255
        }),
{
    let (w, h) = (frame.width as int, frame.height as int);
    let data = frame.data@;
    let (cx, cy) = (xx / 2, yy / 2);
    let half = w / 2;
    row_inside(w, h, h - 1);
    row_inside(w, h, yy);
    row_inside(half, h / 2, h / 2 - 1);
    row_inside(half, h / 2, cy);
    assert((2 * cy + 1) * w == (2 * cy) * w + w) by (nonlinear_arith);
    row_inside(w, h, 2 * cy);
    row_inside(w, h, 2 * cy + 1);
    let p = yy * w + xx;
    let (p0, p1) = ((2 * cy) * w + 2 * cx, (2 * cy + 1) * w + 2 * cx);
    assert(data[4 * p] == data[4 * p + 1] && data[4 * p] == data[4 * p + 2]);
    assert(data[4 * p0] == data[4 * p0 + 1] && data[4 * p0] == data[4 * p0 + 2]);
    assert(data[4 * p1] == data[4 * p1 + 1] && data[4 * p1] == data[4 * p1 + 2]);
    let (q0, q1) = (p0 + 1, p1 + 1);
    assert(data[4 * q0] == data[4 * q0 + 1] && data[4 * q0] == data[4 * q0 + 2]);
    assert(data[4 * q1] == data[4 * q1 + 1] && data[4 * q1] == data[4 * q1 + 2]);
    let m = (data[4 * p0] + data[4 * q0] + data[4 * p1] + data[4 * q1]) / 4;
    chroma_is_that_of_its_own_block(frame, f, cx, cy, m, m, m);
    luma_is_that_of_its_own_pixel(frame, f, xx, yy);
    assert(f.u@[cy * half + cx] == 128);
    assert(f.v@[cy * half + cx] == 128);
    pixel_is_made_of_its_own_samples(
        f.width,
        f.height,
        y,
        u,
        v,
        y_stride,
        half_stride,
        half_stride,
        back,
        xx,
        yy,
    );
}

} // verus!
