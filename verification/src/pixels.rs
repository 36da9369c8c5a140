//! Frames and the conversion between BGRA and I420.

use vstd::prelude::*;

verus! {

/// A tightly packed 8-bit BGRA frame.
#[derive(Debug)]
pub struct BgraFrame {
    pub width: u32,
    pub height: u32,
    pub data: Vec<u8>,
}

/// A tightly packed 8-bit RGBA image with **unpremultiplied** alpha.
///
/// Unlike [`BgraFrame`] (which backs the live video path), this is the wire
/// format for one-shot window snapshots (e.g. the transient-blit source):
/// RGBA8, row-major, no padding, alpha not premultiplied so it composites
/// correctly once decoded on the client.
#[derive(Debug, PartialEq)]
pub struct RgbaImage {
    pub width: u32,
    pub height: u32,
    pub data: Vec<u8>,
}

/// Tightly packed I420 planes.
#[derive(Debug)]
pub struct I420Frame {
    pub width: u32,
    pub height: u32,
    pub y: Vec<u8>,
    pub u: Vec<u8>,
    pub v: Vec<u8>,
}

pub open spec fn clamped(v: int) -> u8 {
    if v < 0 {
        0
    } else if v > 255 {
        255
    } else {
        v as u8
    }
}

pub fn clamp_u8(v: i32) -> (r: u8)
    ensures
        r == clamped(v as int),
{
    if v < 0 {
        0
    } else if v > 255 {
        255
    } else {
        v as u8
    }
}

/// `x / 256` rounded down.
fn floor_256(x: i32) -> (r: i32)
    requires
        -16777216 <= x <= 16777216,
    ensures
        r == x as int / 256,
{
    let shifted: u32 = (x + 16777216) as u32;
    (shifted / 256) as i32 - 65536
}

/// Luma of a colour, BT.601 limited range.
pub open spec fn luma(b: int, g: int, r: int) -> u8 {
    clamped((66 * r + 129 * g + 25 * b + 128) / 256 + 16)
}

/// Blue-difference chroma of a colour.
pub open spec fn chroma_u(b: int, g: int, r: int) -> u8 {
    clamped((-38 * r - 74 * g + 112 * b + 128) / 256 + 128)
}

/// Red-difference chroma of a colour.
pub open spec fn chroma_v(b: int, g: int, r: int) -> u8 {
    clamped((112 * r - 94 * g - 18 * b + 128) / 256 + 128)
}

/// Blue of a luma and chroma sample.
pub open spec fn blue_of(y: int, u: int, v: int) -> u8 {
    clamped((298 * (y - 16) + 516 * (u - 128) + 128) / 256)
}

/// Green of a luma and chroma sample.
pub open spec fn green_of(y: int, u: int, v: int) -> u8 {
    clamped((298 * (y - 16) - 100 * (u - 128) - 208 * (v - 128) + 128) / 256)
}

/// Red of a luma and chroma sample.
pub open spec fn red_of(y: int, u: int, v: int) -> u8 {
    clamped((298 * (y - 16) + 409 * (v - 128) + 128) / 256)
}

/// Channel `c` of the `p`-th pixel: blue, green, red, alpha.
pub open spec fn channel(data: Seq<u8>, p: int, c: int) -> int {
    data[4 * p + c] as int
}

/// The average of channel `c` over the 2x2 block at `(cx, cy)`, rounded down.
pub open spec fn block_mean(data: Seq<u8>, w: int, cx: int, cy: int, c: int) -> int {
    (channel(data, (2 * cy) * w + 2 * cx, c) + channel(data, (2 * cy) * w + 2 * cx + 1, c) + channel(
        data,
        (2 * cy + 1) * w + 2 * cx,
        c,
    ) + channel(data, (2 * cy + 1) * w + 2 * cx + 1, c)) / 4
}

/// The luma plane: one sample per pixel.
pub open spec fn luma_plane(data: Seq<u8>, w: int, h: int) -> Seq<u8> {
    Seq::new(
        (w * h) as nat,
        |p: int| luma(channel(data, p, 0), channel(data, p, 1), channel(data, p, 2)),
    )
}

/// The first chroma plane: one sample per 2x2 block, of its average colour.
pub open spec fn u_plane(data: Seq<u8>, w: int, h: int) -> Seq<u8> {
    Seq::new(
        ((w / 2) * (h / 2)) as nat,
        |p: int|
            {
                let (cx, cy) = (p % (w / 2), p / (w / 2));
                chroma_u(
                    block_mean(data, w, cx, cy, 0),
                    block_mean(data, w, cx, cy, 1),
                    block_mean(data, w, cx, cy, 2),
                )
            },
    )
}

/// The second chroma plane.
pub open spec fn v_plane(data: Seq<u8>, w: int, h: int) -> Seq<u8> {
    Seq::new(
        ((w / 2) * (h / 2)) as nat,
        |p: int|
            {
                let (cx, cy) = (p % (w / 2), p / (w / 2));
                chroma_v(
                    block_mean(data, w, cx, cy, 0),
                    block_mean(data, w, cx, cy, 1),
                    block_mean(data, w, cx, cy, 2),
                )
            },
    )
}

/// A frame has four bytes per pixel.
pub open spec fn packed(width: u32, height: u32, data: Seq<u8>) -> bool {
    data.len() == width * height * 4
}

/// The position of a pixel is where its row and column say.
pub proof fn place(w: int, yy: int, xx: int)
    requires
        0 <= xx < w,
        0 <= yy,
    ensures
        (yy * w + xx) / w == yy,
        (yy * w + xx) % w == xx,
        0 <= yy * w,
        (yy + 1) * w == yy * w + w,
{
    vstd::arithmetic::div_mod::lemma_fundamental_div_mod_converse(yy * w + xx, w, yy, xx);
    assert(0 <= yy * w) by (nonlinear_arith)
        requires
            0 <= yy,
            0 <= w,
    ;
    assert((yy + 1) * w == yy * w + w) by (nonlinear_arith);
}

/// Row `yy` of `h` ends before the last row does.
pub proof fn row_inside(w: int, h: int, yy: int)
    requires
        0 <= w,
        0 <= yy < h,
    ensures
        0 <= yy * w,
        yy * w + w <= w * h,
{
    assert(0 <= yy * w) by (nonlinear_arith)
        requires
            0 <= w,
            0 <= yy,
    ;
    assert(yy * w + w <= w * h) by (nonlinear_arith)
        requires
            0 <= w,
            yy + 1 <= h,
    ;
}

fn luma_samples(frame: &BgraFrame) -> (y: Vec<u8>)
    requires
        packed(frame.width, frame.height, frame.data@),
    ensures
        y@ == luma_plane(frame.data@, frame.width as int, frame.height as int),
{
    let data: &Vec<u8> = &frame.data;
    let total: usize = data.len() / 4;
    let mut y: Vec<u8> = Vec::new();
    let mut p: usize = 0;
    assert(total == frame.width * frame.height);
    while p < total
        invariant
            p <= total,
            total * 4 == data@.len(),
            data@ == frame.data@,
            total == frame.width * frame.height,
            y@.len() == p,
            forall|q: int|
                0 <= q < p ==> #[trigger] y@[q] == luma(
                    channel(data@, q, 0),
                    channel(data@, q, 1),
                    channel(data@, q, 2),
                ),
        decreases total - p,
    {
        assert(data.len() == data@.len());
        let i: usize = p * 4;
        let b: i32 = data[i] as i32;
        let g: i32 = data[i + 1] as i32;
        let r: i32 = data[i + 2] as i32;
        y.push(clamp_u8(floor_256(66 * r + 129 * g + 25 * b + 128) + 16));
        p += 1;
    }
    assert(y@ =~= luma_plane(frame.data@, frame.width as int, frame.height as int));
    y
}

/// The average colour of a 2x2 block: blue, green, red.
fn block_colour(data: &Vec<u8>, w: usize, h: usize, cx: usize, cy: usize) -> (c: (i32, i32, i32))
    requires
        w % 2 == 0,
        h % 2 == 0,
        w * h * 4 == data@.len(),
        cx < w / 2,
        cy < h / 2,
    ensures
        c.0 == block_mean(data@, w as int, cx as int, cy as int, 0),
        c.1 == block_mean(data@, w as int, cx as int, cy as int, 1),
        c.2 == block_mean(data@, w as int, cx as int, cy as int, 2),
        0 <= c.0 <= 255,
        0 <= c.1 <= 255,
        0 <= c.2 <= 255,
{
    proof {
        row_inside(w as int, h as int, 2 * cy + 1);
        row_inside(w as int, h as int, 2 * cy as int);
        assert((2 * cy + 1) * w == (2 * cy) * w + w) by (nonlinear_arith);
        assert(data.len() == data@.len());
    }
    let i0: usize = (cy * 2 * w + cx * 2) * 4;
    let i1: usize = ((cy * 2 + 1) * w + cx * 2) * 4;
    let b: u32 = data[i0] as u32 + data[i0 + 4] as u32 + data[i1] as u32 + data[i1 + 4] as u32;
    let g: u32 = data[i0 + 1] as u32 + data[i0 + 5] as u32 + data[i1 + 1] as u32 + data[i1
        + 5] as u32;
    let r: u32 = data[i0 + 2] as u32 + data[i0 + 6] as u32 + data[i1 + 2] as u32 + data[i1
        + 6] as u32;
    ((b / 4) as i32, (g / 4) as i32, (r / 4) as i32)
}

fn chroma_samples(frame: &BgraFrame) -> (uv: (Vec<u8>, Vec<u8>))
    requires
        packed(frame.width, frame.height, frame.data@),
        frame.width % 2 == 0,
        frame.height % 2 == 0,
    ensures
        uv.0@ == u_plane(frame.data@, frame.width as int, frame.height as int),
        uv.1@ == v_plane(frame.data@, frame.width as int, frame.height as int),
{
    let data: &Vec<u8> = &frame.data;
    let w: usize = frame.width as usize;
    let h: usize = frame.height as usize;
    let half: usize = w / 2;
    let ghost want_u = u_plane(data@, w as int, h as int);
    let ghost want_v = v_plane(data@, w as int, h as int);
    let mut u: Vec<u8> = Vec::new();
    let mut v: Vec<u8> = Vec::new();
    if half == 0 {
        assert((w / 2) * (h / 2) == 0) by (nonlinear_arith)
            requires
                w / 2 == 0,
        ;
        assert(u@ =~= want_u);
        assert(v@ =~= want_v);
        return (u, v);
    }
    let mut cy: usize = 0;
    while cy < h / 2
        invariant
            half == w / 2,
            half > 0,
            w % 2 == 0,
            h % 2 == 0,
            w * h * 4 == data@.len(),
            cy <= h / 2,
            want_u == u_plane(data@, w as int, h as int),
            want_v == v_plane(data@, w as int, h as int),
            u@.len() == cy * half,
            v@.len() == cy * half,
            cy * half <= want_u.len(),
            want_u.len() == half * (h / 2),
            want_v.len() == half * (h / 2),
            u@ == want_u.take(cy * half),
            v@ == want_v.take(cy * half),
        decreases h / 2 - cy,
    {
        let mut cx: usize = 0;
        proof {
            row_inside(half as int, (h / 2) as int, cy as int);
        }
        while cx < half
            invariant
                half == w / 2,
                half > 0,
                w % 2 == 0,
                h % 2 == 0,
                w * h * 4 == data@.len(),
                cy < h / 2,
                cx <= half,
                want_u == u_plane(data@, w as int, h as int),
                want_v == v_plane(data@, w as int, h as int),
                want_u.len() == half * (h / 2),
                want_v.len() == half * (h / 2),
                0 <= cy * half,
                cy * half + half <= half * (h / 2),
                u@ == want_u.take(cy * half + cx),
                v@ == want_v.take(cy * half + cx),
            decreases half - cx,
        {
            let (b, g, r): (i32, i32, i32) = block_colour(data, w, h, cx, cy);
            proof {
                place(half as int, cy as int, cx as int);
            }
            u.push(clamp_u8(floor_256(-38 * r - 74 * g + 112 * b + 128) + 128));
            v.push(clamp_u8(floor_256(112 * r - 94 * g - 18 * b + 128) + 128));
            let ghost at = cy * half + cx;
            assert(u@ =~= want_u.take(at + 1));
            assert(v@ =~= want_v.take(at + 1));
            cx += 1;
        }
        proof {
            place(half as int, cy as int, 0);
            assert(cy * half + half == (cy + 1) * half);
        }
        cy += 1;
    }
    assert((h / 2) * half == half * (h / 2)) by (nonlinear_arith);
    assert(u@ =~= want_u);
    assert(v@ =~= want_v);
    (u, v)
}

/// BT.601 limited-range BGRA to I420. Width and height must be even.
pub fn bgra_to_i420(frame: &BgraFrame) -> (f: I420Frame)
    requires
        frame.width % 2 == 0,
        frame.height % 2 == 0,
        packed(frame.width, frame.height, frame.data@),
    ensures
        f.width == frame.width,
        f.height == frame.height,
        f.y@ == luma_plane(frame.data@, frame.width as int, frame.height as int),
        f.u@ == u_plane(frame.data@, frame.width as int, frame.height as int),
        f.v@ == v_plane(frame.data@, frame.width as int, frame.height as int),
{
    let y: Vec<u8> = luma_samples(frame);
    let (u, v): (Vec<u8>, Vec<u8>) = chroma_samples(frame);
    I420Frame { width: frame.width, height: frame.height, y, u, v }
}

/// A plane of `rows` rows of `columns` samples, `stride` bytes apart.
pub open spec fn holds_plane(plane: Seq<u8>, columns: int, rows: int, stride: int) -> bool {
    columns > 0 && rows > 0 ==> (rows - 1) * stride + columns <= plane.len()
}

/// A sample of a plane.
pub open spec fn sample(plane: Seq<u8>, stride: int, xx: int, yy: int) -> int {
    plane[yy * stride + xx] as int
}

/// Channel `c` of the BGRA pixel at `(xx, yy)` of an I420 picture; alpha is
/// opaque.
pub open spec fn pixel_channel(
    y: Seq<u8>,
    u: Seq<u8>,
    v: Seq<u8>,
    strides: (int, int, int),
    xx: int,
    yy: int,
    c: int,
) -> u8 {
    let l = sample(y, strides.0, xx, yy);
    let cu = sample(u, strides.1, xx / 2, yy / 2);
    let cv = sample(v, strides.2, xx / 2, yy / 2);
    if c == 0 {
        blue_of(l, cu, cv)
    } else if c == 1 {
        green_of(l, cu, cv)
    } else if c == 2 {
        red_of(l, cu, cv)
    } else {
        255
    }
}

/// The bytes of an I420 picture as BGRA.
pub open spec fn bgra_bytes(
    w: int,
    h: int,
    y: Seq<u8>,
    u: Seq<u8>,
    v: Seq<u8>,
    strides: (int, int, int),
) -> Seq<u8> {
    Seq::new(
        (w * h * 4) as nat,
        |k: int| pixel_channel(y, u, v, strides, (k / 4) % w, (k / 4) / w, k % 4),
    )
}

/// Reads one sample of a plane.
fn sample_at(plane: &[u8], columns: usize, rows: usize, stride: usize, xx: usize, yy: usize) -> (s:
    i32)
    requires
        holds_plane(plane@, columns as int, rows as int, stride as int),
        xx < columns,
        yy < rows,
    ensures
        s == sample(plane@, stride as int, xx as int, yy as int),
        0 <= s <= 255,
{
    proof {
        assert(yy * stride <= (rows - 1) * stride) by (nonlinear_arith)
            requires
                yy <= rows - 1,
                0 <= stride,
        ;
        assert(0 <= yy * stride) by (nonlinear_arith);
        assert(plane.len() == plane@.len());
    }
    plane[yy * stride + xx] as i32
}

/// BT.601 limited-range I420 to BGRA, honoring source plane strides.
pub fn i420_to_bgra(
    width: u32,
    height: u32,
    y: &[u8],
    u: &[u8],
    v: &[u8],
    y_stride: usize,
    u_stride: usize,
    v_stride: usize,
) -> (f: BgraFrame)
    requires
        width * height * 4 <= usize::MAX,
        holds_plane(y@, width as int, height as int, y_stride as int),
        holds_plane(u@, (width + 1) / 2, (height + 1) / 2, u_stride as int),
        holds_plane(v@, (width + 1) / 2, (height + 1) / 2, v_stride as int),
    ensures
        f.width == width,
        f.height == height,
        f.data@ == bgra_bytes(
            width as int,
            height as int,
            y@,
            u@,
            v@,
            (y_stride as int, u_stride as int, v_stride as int),
        ),
{
    let w: usize = width as usize;
    let h: usize = height as usize;
    let half_w: usize = w / 2 + w % 2;
    let half_h: usize = h / 2 + h % 2;
    let ghost strides = (y_stride as int, u_stride as int, v_stride as int);
    let ghost want = bgra_bytes(w as int, h as int, y@, u@, v@, strides);
    let mut data: Vec<u8> = Vec::new();
    let mut yy: usize = 0;
    assert(want.len() == w * h * 4) by {
        assert(0 <= w * h) by (nonlinear_arith);
    }
    while yy < h
        invariant
            w == width,
            h == height,
            half_w == (width + 1) / 2,
            half_h == (height + 1) / 2,
            w * h * 4 <= usize::MAX,
            holds_plane(y@, w as int, h as int, y_stride as int),
            holds_plane(u@, half_w as int, half_h as int, u_stride as int),
            holds_plane(v@, half_w as int, half_h as int, v_stride as int),
            strides == (y_stride as int, u_stride as int, v_stride as int),
            want == bgra_bytes(w as int, h as int, y@, u@, v@, strides),
            want.len() == w * h * 4,
            yy <= h,
            0 <= yy * w * 4 <= want.len(),
            data@ == want.take(yy * w * 4),
        decreases h - yy,
    {
        let mut xx: usize = 0;
        proof {
            row_inside(w as int, h as int, yy as int);
        }
        while xx < w
            invariant
                w == width,
                h == height,
                half_w == (width + 1) / 2,
                half_h == (height + 1) / 2,
                holds_plane(y@, w as int, h as int, y_stride as int),
                holds_plane(u@, half_w as int, half_h as int, u_stride as int),
                holds_plane(v@, half_w as int, half_h as int, v_stride as int),
                strides == (y_stride as int, u_stride as int, v_stride as int),
                want == bgra_bytes(w as int, h as int, y@, u@, v@, strides),
                want.len() == w * h * 4,
                yy < h,
                xx <= w,
                0 <= yy * w,
                yy * w + w <= w * h,
                data@ == want.take((yy * w + xx) * 4),
            decreases w - xx,
        {
            let c: i32 = sample_at(y, w, h, y_stride, xx, yy) - 16;
            let d: i32 = sample_at(u, half_w, half_h, u_stride, xx / 2, yy / 2) - 128;
            let e: i32 = sample_at(v, half_w, half_h, v_stride, xx / 2, yy / 2) - 128;
            let r: u8 = clamp_u8(floor_256(298 * c + 409 * e + 128));
            let g: u8 = clamp_u8(floor_256(298 * c - 100 * d - 208 * e + 128));
            let b: u8 = clamp_u8(floor_256(298 * c + 516 * d + 128));
            let ghost p = yy * w + xx;
            data.push(b);
            data.push(g);
            data.push(r);
            data.push(255);
            proof {
                place(w as int, yy as int, xx as int);
                let k = p * 4;
                assert(k / 4 == p && (k + 1) / 4 == p && (k + 2) / 4 == p && (k + 3) / 4 == p);
                assert(k % 4 == 0 && (k + 1) % 4 == 1 && (k + 2) % 4 == 2 && (k + 3) % 4 == 3);
                assert(want[k] == b);
                assert(want[k + 1] == g);
                assert(want[k + 2] == r);
                assert(want[k + 3] == 255);
                assert(data@ =~= want.take((p + 1) * 4));
            }
            xx += 1;
        }
        proof {
            assert((yy + 1) * w == yy * w + w) by (nonlinear_arith);
        }
        yy += 1;
    }
    assert(h * w * 4 == w * h * 4) by (nonlinear_arith);
    assert(data@ =~= want);
    BgraFrame { width, height, data }
}

/// `a` and `b` differ by at most `d`.
pub open spec fn within(a: int, b: int, d: int) -> bool {
    -d <= a - b <= d
}

/// A colour that is converted to luma and chroma and back is off by at most
/// three in blue and two in green and red.
pub proof fn colour_round_trip(b: int, g: int, r: int)
    requires
        0 <= b <= 255,
        0 <= g <= 255,
        0 <= r <= 255,
    ensures
        ({
            let (y, u, v) = (
                luma(b, g, r) as int,
                chroma_u(b, g, r) as int,
                chroma_v(b, g, r) as int,
            );
            &&& within(blue_of(y, u, v) as int, b, 3)
            &&& within(green_of(y, u, v) as int, g, 2)
            &&& within(red_of(y, u, v) as int, r, 2)
        }),
{
}

/// The four pixels of a 2x2 block have one colour.
pub open spec fn uniform_block(data: Seq<u8>, w: int, cx: int, cy: int) -> bool {
    forall|c: int|
        0 <= c < 3 ==> {
            let first = #[trigger] channel(data, (2 * cy) * w + 2 * cx, c);
            &&& channel(data, (2 * cy) * w + 2 * cx + 1, c) == first
            &&& channel(data, (2 * cy + 1) * w + 2 * cx, c) == first
            &&& channel(data, (2 * cy + 1) * w + 2 * cx + 1, c) == first
        }
}

/// A frame that is converted to I420 and back keeps the colour of every
/// uniform 2x2 block: no channel is off by more than three. A solid frame
/// consists of such blocks.
pub proof fn frame_round_trip(data: Seq<u8>, w: int, h: int, xx: int, yy: int, c: int)
    requires
        data.len() == w * h * 4,
        w % 2 == 0,
        h % 2 == 0,
        0 <= xx < w,
        0 <= yy < h,
        0 <= c < 3,
        uniform_block(data, w, xx / 2, yy / 2),
    ensures
        ({
            let back = bgra_bytes(
                w,
                h,
                luma_plane(data, w, h),
                u_plane(data, w, h),
                v_plane(data, w, h),
                (w, w / 2, w / 2),
            );
            let k = (yy * w + xx) * 4 + c;
            &&& 0 <= k < data.len()
            &&& back.len() == data.len()
            &&& within(back[k] as int, data[k] as int, 3)
        }),
{
    let (cx, cy) = (xx / 2, yy / 2);
    let p = yy * w + xx;
    let k = p * 4 + c;
    row_inside(w, h, yy);
    place(w, yy, xx);
    assert(k / 4 == p && k % 4 == c);
    row_inside(w / 2, h / 2, cy);
    place(w / 2, cy, cx);
    let b = channel(data, p, 0);
    let g = channel(data, p, 1);
    let r = channel(data, p, 2);
    assert((2 * cy + 1) * w == (2 * cy) * w + w) by (nonlinear_arith);
    assert forall|ch: int| 0 <= ch < 3 implies block_mean(data, w, cx, cy, ch) == #[trigger] channel(
        data,
        p,
        ch,
    ) by {
        let first = channel(data, (2 * cy) * w + 2 * cx, ch);
        assert(xx == 2 * cx || xx == 2 * cx + 1);
        assert(yy == 2 * cy || yy == 2 * cy + 1);
        assert(channel(data, p, ch) == first);
    }
    assert(block_mean(data, w, cx, cy, 0) == b);
    assert(block_mean(data, w, cx, cy, 1) == g);
    assert(block_mean(data, w, cx, cy, 2) == r);
    colour_round_trip(b, g, r);
}

/// The planes of a converted frame can be converted back.
pub proof fn planes_convert_back(data: Seq<u8>, w: int, h: int)
    requires
        data.len() == w * h * 4,
        0 <= w,
        0 <= h,
        w % 2 == 0,
        h % 2 == 0,
    ensures
        holds_plane(luma_plane(data, w, h), w, h, w),
        holds_plane(u_plane(data, w, h), (w + 1) / 2, (h + 1) / 2, w / 2),
        holds_plane(v_plane(data, w, h), (w + 1) / 2, (h + 1) / 2, w / 2),
{
    if w > 0 && h > 0 {
        row_inside(w, h, h - 1);
        row_inside(w / 2, h / 2, h / 2 - 1);
    }
}

/// A frame of uniform 2x2 blocks, such as a solid one, survives the way to
/// I420 and back: its planes can be converted back, to as many bytes, no
/// colour channel is off by more than three, and every pixel is opaque.
pub proof fn uniform_frame_survives_i420(f: BgraFrame)
    requires
        f.width % 2 == 0,
        f.height % 2 == 0,
        packed(f.width, f.height, f.data@),
        forall|cx: int, cy: int|
            0 <= cx < f.width / 2 && 0 <= cy < f.height / 2 ==> #[trigger] uniform_block(
                f.data@,
                f.width as int,
                cx,
                cy,
            ),
    ensures
        ({
            let (w, h) = (f.width as int, f.height as int);
            let (y, u, v) = (
                luma_plane(f.data@, w, h),
                u_plane(f.data@, w, h),
                v_plane(f.data@, w, h),
            );
            let back = bgra_bytes(w, h, y, u, v, (w, w / 2, w / 2));
            &&& w * h * 4 <= usize::MAX
            &&& holds_plane(y, w, h, w)
            &&& holds_plane(u, (w + 1) / 2, (h + 1) / 2, w / 2)
            &&& holds_plane(v, (w + 1) / 2, (h + 1) / 2, w / 2)
            &&& back.len() == f.data@.len()
            &&& forall|k: int|
                0 <= k < back.len() ==> if k % 4 == 3 {
                    #[trigger] back[k] == 255
                } else {
                    within(back[k] as int, f.data@[k] as int, 3)
                }
        }),
{
    let (w, h) = (f.width as int, f.height as int);
    let data = f.data@;
    let back = bgra_bytes(
        w,
        h,
        luma_plane(data, w, h),
        u_plane(data, w, h),
        v_plane(data, w, h),
        (w, w / 2, w / 2),
    );
    assert(f.data.len() == data.len());
    planes_convert_back(data, w, h);
    assert forall|k: int| 0 <= k < back.len() implies if k % 4 == 3 {
        #[trigger] back[k] == 255
    } else {
        within(back[k] as int, data[k] as int, 3)
    } by {
        if k % 4 != 3 {
            let p = k / 4;
            assert(w > 0 && h > 0) by (nonlinear_arith)
                requires
                    0 <= w,
                    0 <= h,
                    0 <= k < w * h * 4,
            ;
            let (xx, yy) = (p % w, p / w);
            vstd::arithmetic::div_mod::lemma_fundamental_div_mod(p, w);
            vstd::arithmetic::div_mod::lemma_mod_bound(p, w);
            assert(w * yy == yy * w) by (nonlinear_arith);
            assert(0 <= yy < h) by (nonlinear_arith)
                requires
                    0 <= p < w * h,
                    p == yy * w + xx,
                    0 <= xx < w,
            ;
            assert(uniform_block(data, w, xx / 2, yy / 2));
            frame_round_trip(data, w, h, xx, yy, k % 4);
        }
    }
}

} // verus!
