//! Frame-geometry metadata and when a pointer-coordinate mapping follows from
//! it.

use crate::model::WindowInfo;
use crate::scalar::Scalar;
use vstd::prelude::*;

verus! {

/// The encoding of the number one.
pub const ONE_BITS: u64 = 0x3ff0_0000_0000_0000;

/// Per-frame geometry attachments of a captured frame, in the units they were
/// delivered in.
#[derive(Debug, Clone, Copy)]
pub struct FrameMeta {
    /// Output frame size in pixels (the configured capture size).
    pub width_px: u32,
    pub height_px: u32,
    /// Where the content stands, as (x, y, width, height).
    pub content_rect: Option<(Scalar, Scalar, Scalar, Scalar)>,
    /// How much the content was shrunk to fit the frame.
    pub content_scale: Option<Scalar>,
    /// Output pixels per point.
    pub scale_factor: Option<Scalar>,
    /// Kept for diagnostics.
    pub bounding_rect: Option<(Scalar, Scalar, Scalar, Scalar)>,
}

impl Default for FrameMeta {
    fn default() -> (m: FrameMeta)
        ensures
            m.width_px == 0,
            m.height_px == 0,
            m.content_rect is None,
            m.content_scale is None,
            m.scale_factor is None,
            m.bounding_rect is None,
    {
        FrameMeta {
            width_px: 0,
            height_px: 0,
            content_rect: None,
            content_scale: None,
            scale_factor: None,
            bounding_rect: None,
        }
    }
}

/// Affine pointer transform from mirror-local points to window-local points:
/// `window = offset + scale * mirror`. Identity in the 1:1 state.
#[derive(Debug, Clone, Copy, PartialEq)]
pub struct InputMapping {
    pub scale_x: Scalar,
    pub scale_y: Scalar,
    pub offset_x: Scalar,
    pub offset_y: Scalar,
}

impl InputMapping {
    pub open spec fn spec_identity() -> InputMapping {
        InputMapping {
            scale_x: Scalar { bits: ONE_BITS },
            scale_y: Scalar { bits: ONE_BITS },
            offset_x: Scalar { bits: 0 },
            offset_y: Scalar { bits: 0 },
        }
    }

    /// The mapping of a frame that is 1:1 with its window.
    pub fn identity() -> (m: InputMapping)
        ensures
            m == InputMapping::spec_identity(),
    {
        InputMapping {
            scale_x: Scalar { bits: ONE_BITS },
            scale_y: Scalar { bits: ONE_BITS },
            offset_x: Scalar { bits: 0 },
            offset_y: Scalar { bits: 0 },
        }
    }
}

/// Whether a newly derived mapping is worth sending to the client: identity
/// is implicit at open (never sent first), and every real change is sent
/// exactly once; subsequent frames producing the same mapping (within
/// tolerance) stay quiet. `like_last` says whether the mapping equals, within
/// tolerance, the last one sent, if one was; `is_identity` whether it equals
/// the identity.
pub fn should_send(like_last: Option<bool>, is_identity: bool) -> (b: bool)
    ensures
        b == (match like_last {
            Some(like) => !like,
            None => !is_identity,
        }),
{
    match like_last {
        Some(like) => !like,
        None => !is_identity,
    }
}

/// What the transform of a letterboxed frame is computed from.
#[derive(Debug, Clone, Copy)]
pub struct Letterbox {
    pub content_rect: (Scalar, Scalar, Scalar, Scalar),
    pub content_scale: Scalar,
    pub scale_factor: Scalar,
}

/// A number at or below zero; no NaN is.
pub open spec fn not_positive(s: Scalar) -> bool {
    !s.spec_is_nan() && s.rank() <= 0
}

fn is_not_positive(s: Scalar) -> (b: bool)
    ensures
        b == not_positive(s),
{
    s.below(Scalar::zero()) || s == Scalar::zero()
}

/// Whether the frame's metadata says that the window was letterboxed into it:
/// the metadata is there, none of its scales and of the window's sides is
/// degenerate, and the content scale, by `near_one`, is not one within
/// tolerance.
pub open spec fn is_letterboxed(meta: FrameMeta, win: WindowInfo, near_one: bool) -> bool {
    &&& meta.content_rect is Some
    &&& meta.content_scale is Some
    &&& meta.scale_factor is Some
    &&& !not_positive(meta.content_scale->0)
    &&& !not_positive(meta.scale_factor->0)
    &&& !not_positive(win.width)
    &&& !not_positive(win.height)
    &&& !near_one
}

/// The letterbox that the pointer transform of a frame follows from; `None`
/// when the transform is the identity. `win` is the window's rect in host
/// screen points.
pub fn letterbox_of(meta: &FrameMeta, win: &WindowInfo, near_one: bool) -> (r: Option<Letterbox>)
    ensures
        match r {
            Some(l) => is_letterboxed(*meta, *win, near_one) && l == (Letterbox {
                content_rect: meta.content_rect->0,
                content_scale: meta.content_scale->0,
                scale_factor: meta.scale_factor->0,
            }),
            None => !is_letterboxed(*meta, *win, near_one),
        },
{
    match (meta.content_rect, meta.content_scale, meta.scale_factor) {
        (Some(content_rect), Some(content_scale), Some(scale_factor)) => {
            if is_not_positive(content_scale) || is_not_positive(scale_factor) || is_not_positive(
                win.width,
            ) || is_not_positive(win.height) || near_one {
                None
            } else {
                Some(Letterbox { content_rect, content_scale, scale_factor })
            }
        },
        _ => None,
    }
}

/// Equality of rectangles, number by number.
pub open spec fn same_rect(
    a: Option<(Scalar, Scalar, Scalar, Scalar)>,
    b: Option<(Scalar, Scalar, Scalar, Scalar)>,
) -> bool {
    match (a, b) {
        (Some(p), Some(q)) => p.0.same_number(q.0) && p.1.same_number(q.1) && p.2.same_number(q.2)
            && p.3.same_number(q.3),
        (None, None) => true,
        _ => false,
    }
}

fn equal_rects(
    a: Option<(Scalar, Scalar, Scalar, Scalar)>,
    b: Option<(Scalar, Scalar, Scalar, Scalar)>,
) -> (r: bool)
    ensures
        r == same_rect(a, b),
{
    match (a, b) {
        (Some(p), Some(q)) => p.0 == q.0 && p.1 == q.1 && p.2 == q.2 && p.3 == q.3,
        (None, None) => true,
        _ => false,
    }
}

pub open spec fn same_option(a: Option<Scalar>, b: Option<Scalar>) -> bool {
    match (a, b) {
        (Some(p), Some(q)) => p.same_number(q),
        (None, None) => true,
        _ => false,
    }
}

fn equal_options(a: Option<Scalar>, b: Option<Scalar>) -> (r: bool)
    ensures
        r == same_option(a, b),
{
    match (a, b) {
        (Some(p), Some(q)) => p == q,
        (None, None) => true,
        _ => false,
    }
}

/// Equality of metadata, number by number: one with a NaN equals none.
pub open spec fn same_meta(a: FrameMeta, b: FrameMeta) -> bool {
    &&& a.width_px == b.width_px
    &&& a.height_px == b.height_px
    &&& same_rect(a.content_rect, b.content_rect)
    &&& same_option(a.content_scale, b.content_scale)
    &&& same_option(a.scale_factor, b.scale_factor)
    &&& same_rect(a.bounding_rect, b.bounding_rect)
}

impl PartialEq for FrameMeta {
    fn eq(&self, other: &FrameMeta) -> (r: bool) {
        self.width_px == other.width_px && self.height_px == other.height_px && equal_rects(
            self.content_rect,
            other.content_rect,
        ) && equal_options(self.content_scale, other.content_scale) && equal_options(
            self.scale_factor,
            other.scale_factor,
        ) && equal_rects(self.bounding_rect, other.bounding_rect)
    }
}

impl vstd::std_specs::cmp::PartialEqSpecImpl for FrameMeta {
    open spec fn obeys_eq_spec() -> bool {
        true
    }

    open spec fn eq_spec(&self, other: &FrameMeta) -> bool {
        same_meta(*self, *other)
    }
}

/// Lets through the metadata of a window's frames only when it changes. The
/// mapping is a function of the metadata and the window's size, and a resize
/// changes the metadata, so unchanged metadata means an unchanged mapping.
pub struct MetaFilter {
    pub last: FrameMeta,
}

impl MetaFilter {
    pub fn new() -> (f: MetaFilter)
        ensures
            f.last.width_px == 0,
            f.last.height_px == 0,
            f.last.content_rect is None,
            f.last.content_scale is None,
            f.last.scale_factor is None,
            f.last.bounding_rect is None,
    {
        MetaFilter { last: FrameMeta::default() }
    }

    /// Whether the metadata differs from the last.
    pub fn changed(&mut self, meta: FrameMeta) -> (b: bool)
        ensures
            b == !same_meta(old(self).last, meta),
            final(self).last == (if b {
                meta
            } else {
                old(self).last
            }),
    {
        if self.last == meta {
            false
        } else {
            self.last = meta;
            true
        }
    }
}

} // verus!
