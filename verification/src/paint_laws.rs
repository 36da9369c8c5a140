//! What a painted surface shows of its frame or image.

use crate::app;
use crate::app::App;
use crate::mirror_app;
use crate::mirror_app::HelperApp;
use crate::mirrors::LocalId;
use crate::paint::{
    blended_pixel, nearest, paint_blank, paint_image, paint_video, premultiplied, source_pixel,
};
use crate::pixels::{BgraFrame, RgbaImage};
use vstd::prelude::*;

verus! {

/// The source row or column of a destination one is the one that covers its
/// place once both are spread over the same length.
proof fn covering_source(at: int, source: int, destination: int, s: int)
    requires
        0 < destination,
        s * destination <= at * source < (s + 1) * destination,
    ensures
        nearest(at, source, destination) == s,
{
    assert((s + 1) * destination == s * destination + destination) by (nonlinear_arith);
    let rest = at * source - s * destination;
    vstd::arithmetic::div_mod::lemma_fundamental_div_mod_converse(
        at * source,
        destination,
        s,
        rest,
    );
}

proof fn covering_pixel(
    fw: int,
    fh: int,
    dw: int,
    dh: int,
    dx: int,
    dy: int,
    sx: int,
    sy: int,
)
    requires
        0 < fw,
        0 < fh,
        0 <= dx < dw,
        0 <= dy < dh,
        sx * dw <= dx * fw < (sx + 1) * dw,
        sy * dh <= dy * fh < (sy + 1) * dh,
    ensures
        source_pixel(dy * dw + dx, fw, fh, dw, dh) == sy * fw + sx,
        0 <= sy * fw + sx < fw * fh,
        0 <= dy * dw + dx < dw * dh,
{
    covering_source(dx, fw, dw, sx);
    covering_source(dy, fh, dh, sy);
    vstd::arithmetic::div_mod::lemma_fundamental_div_mod_converse(dy * dw + dx, dw, dy, dx);
    assert(0 <= dy * dw + dx < dw * dh) by (nonlinear_arith)
        requires
            0 <= dx < dw,
            0 <= dy < dh,
    ;
    crate::paint::source_pixel_inside(dy * dw + dx, fw, fh, dw, dh);
}

/// A painted frame is the whole frame, spread over the surface: the pixel in
/// column `dx` and row `dy` has the colour of the frame's pixel whose column
/// and row cover that place, whatever the two sizes are.
pub proof fn frame_is_spread_over_the_surface(
    frame: &BgraFrame,
    dw: u32,
    dh: u32,
    r: Option<Vec<u32>>,
    dx: int,
    dy: int,
    sx: int,
    sy: int,
)
    requires
        frame.data@.len() == frame.width * frame.height * 4,
        call_ensures(paint_video, (frame, dw, dh), r),
        r is Some,
        0 <= dx < dw,
        0 <= dy < dh,
        sx * dw <= dx * frame.width < (sx + 1) * dw,
        sy * dh <= dy * frame.height < (sy + 1) * dh,
    ensures
        ({
            let shown = r->0@[dy * dw + dx] as int;
            let at = 4 * (sy * frame.width + sx);
            &&& r->0@.len() == dw * dh
            &&& 0 <= at && at + 4 <= frame.data@.len()
            &&& shown % 256 == frame.data@[at]
            &&& shown / 256 % 256 == frame.data@[at + 1]
            &&& shown / 65536 == frame.data@[at + 2]
        }),
{
    covering_pixel(
        frame.width as int,
        frame.height as int,
        dw as int,
        dh as int,
        dx,
        dy,
        sx,
        sy,
    );
}

/// A frame is painted unless it or the surface has no pixels.
pub proof fn frame_is_painted(frame: &BgraFrame, dw: u32, dh: u32, r: Option<Vec<u32>>)
    requires
        frame.data@.len() == frame.width * frame.height * 4,
        call_ensures(paint_video, (frame, dw, dh), r),
    ensures
        r is Some <==> frame.width > 0 && frame.height > 0 && dw > 0 && dh > 0,
{
}

proof fn share_of_alpha(c: int, a: int)
    requires
        0 <= c <= 255,
        0 <= a <= 255,
    ensures
        0 <= premultiplied(c, a) <= 255,
        255 * premultiplied(c, a) <= c * a < 255 * (premultiplied(c, a) + 1),
{
    assert(0 <= c * a <= 255 * 255) by (nonlinear_arith)
        requires
            0 <= c <= 255,
            0 <= a <= 255,
    ;
}

proof fn four_channels(a: int, r: int, g: int, b: int)
    requires
        0 <= a <= 255,
        0 <= r <= 255,
        0 <= g <= 255,
        0 <= b <= 255,
    ensures
        ({
            let p = a * 16777216 + r * 65536 + g * 256 + b;
            &&& 0 <= p <= u32::MAX
            &&& p / 16777216 == a
            &&& p / 65536 % 256 == r
            &&& p / 256 % 256 == g
            &&& p % 256 == b
        }),
{
}

/// A painted image is the whole image, spread over the surface like a frame.
/// Each pixel keeps its alpha, and its colour channels are the largest whose
/// share of 255 does not exceed the channel's share of alpha.
pub proof fn image_is_spread_over_the_surface(
    img: &RgbaImage,
    dw: u32,
    dh: u32,
    r: Option<Vec<u32>>,
    dx: int,
    dy: int,
    sx: int,
    sy: int,
)
    requires
        img.data@.len() == img.width * img.height * 4,
        call_ensures(paint_image, (img, dw, dh), r),
        r is Some,
        0 <= dx < dw,
        0 <= dy < dh,
        sx * dw <= dx * img.width < (sx + 1) * dw,
        sy * dh <= dy * img.height < (sy + 1) * dh,
    ensures
        ({
            let shown = r->0@[dy * dw + dx] as int;
            let at = 4 * (sy * img.width + sx);
            let a = img.data@[at + 3] as int;
            &&& r->0@.len() == dw * dh
            &&& 0 <= at && at + 4 <= img.data@.len()
            &&& shown / 16777216 == a
            &&& 255 * (shown / 65536 % 256) <= img.data@[at] * a < 255 * (shown / 65536 % 256 + 1)
            &&& 255 * (shown / 256 % 256) <= img.data@[at + 1] * a < 255 * (shown / 256 % 256 + 1)
            &&& 255 * (shown % 256) <= img.data@[at + 2] * a < 255 * (shown % 256 + 1)
        }),
{
    covering_pixel(img.width as int, img.height as int, dw as int, dh as int, dx, dy, sx, sy);
    let at = 4 * (sy * img.width + sx);
    let a = img.data@[at + 3] as int;
    share_of_alpha(img.data@[at] as int, a);
    share_of_alpha(img.data@[at + 1] as int, a);
    share_of_alpha(img.data@[at + 2] as int, a);
    four_channels(
        a,
        premultiplied(img.data@[at] as int, a),
        premultiplied(img.data@[at + 1] as int, a),
        premultiplied(img.data@[at + 2] as int, a),
    );
    assert(r->0@[dy * dw + dx] == blended_pixel(img.data@, sy * img.width + sx));
}

/// An image is painted unless it has no pixels.
pub proof fn image_is_painted(img: &RgbaImage, dw: u32, dh: u32, r: Option<Vec<u32>>)
    requires
        img.data@.len() == img.width * img.height * 4,
        call_ensures(paint_image, (img, dw, dh), r),
    ensures
        r is Some <==> img.width > 0 && img.height > 0,
{
}

/// A mirror without content is an even dark grey.
pub proof fn blank_is_dark_grey(dw: u32, dh: u32, buf: Vec<u32>, p: int)
    requires
        call_ensures(paint_blank, (dw, dh), buf),
        0 <= p < dw * dh,
    ensures
        buf@.len() == dw * dh,
        buf@[p] == 0xFF20_2020,
{
}

/// A helper's redraw paints what the mirror has: its frame as
/// [`paint_video`] does, or a blank surface.
pub proof fn helper_redraw_paints_the_mirror(
    h: &HelperApp,
    w: LocalId,
    dw: u32,
    dh: u32,
    r: Option<Vec<u32>>,
    frame: &BgraFrame,
    painted: Option<Vec<u32>>,
    blank: Vec<u32>,
)
    requires
        h@.set.mirrors.contains_key(w),
        dw > 0,
        dh > 0,
        frame.data@.len() == frame.width * frame.height * 4,
        call_ensures(paint_video, (frame, dw, dh), painted),
        call_ensures(paint_blank, (dw, dh), blank),
        call_ensures(HelperApp::redraw, (h, w, dw, dh), r),
    ensures
        h@.set.mirrors[w].content == mirror_app::MirrorContent::Video(*frame) ==> {
            &&& r is Some <==> painted is Some
            &&& r is Some ==> r->0@ == painted->0@
        },
        h@.set.mirrors[w].content is Blank ==> r is Some && r->0@ == blank@,
{
}

/// The client's redraw paints what the mirror has: its frame, its still image
/// or a blank surface.
pub proof fn client_redraw_paints_the_mirror(
    a: &App,
    w: LocalId,
    dw: u32,
    dh: u32,
    r: Option<Vec<u32>>,
    frame: &BgraFrame,
    video: Option<Vec<u32>>,
    img: &RgbaImage,
    still: Option<Vec<u32>>,
    blank: Vec<u32>,
)
    requires
        a@.set.mirrors.contains_key(w),
        dw > 0,
        dh > 0,
        frame.data@.len() == frame.width * frame.height * 4,
        img.data@.len() == img.width * img.height * 4,
        call_ensures(paint_video, (frame, dw, dh), video),
        call_ensures(paint_image, (img, dw, dh), still),
        call_ensures(paint_blank, (dw, dh), blank),
        call_ensures(App::redraw, (a, w, dw, dh), r),
    ensures
        a@.set.mirrors[w].content == app::MirrorContent::Video(*frame) ==> {
            &&& r is Some <==> video is Some
            &&& r is Some ==> r->0@ == video->0@
        },
        a@.set.mirrors[w].content == app::MirrorContent::Image(*img) ==> {
            &&& r is Some <==> still is Some
            &&& r is Some ==> r->0@ == still->0@
        },
        a@.set.mirrors[w].content is Blank ==> r is Some && r->0@ == blank@,
{
}

/// A surface or window that is not there is not painted.
pub proof fn nothing_is_painted_nowhere(
    h: &HelperApp,
    a: &App,
    w: LocalId,
    dw: u32,
    dh: u32,
    helper: Option<Vec<u32>>,
    client: Option<Vec<u32>>,
)
    requires
        call_ensures(HelperApp::redraw, (h, w, dw, dh), helper),
        call_ensures(App::redraw, (a, w, dw, dh), client),
        h@.set.mirrors.contains_key(w) && h@.set.mirrors[w].content is Video
            ==> mirror_app::paintable(h@.set.mirrors[w].content->0),
        a@.set.mirrors.contains_key(w) ==> app::paintable(a@.set.mirrors[w].content),
    ensures
        dw == 0 || dh == 0 || !h@.set.mirrors.contains_key(w) ==> helper is None,
        dw == 0 || dh == 0 || !a@.set.mirrors.contains_key(w) ==> client is None,
{
}

} // verus!
