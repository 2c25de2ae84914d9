//! Target dimensions of a resize.

use vstd::prelude::*;

verus! {

/// `side * requested / base`, truncated toward zero and capped at `u32::MAX`.
pub open spec fn scaled(side: u32, requested: u32, base: u32) -> u32 {
    let q = (side as int * requested as int) / base as int;
    if q > u32::MAX as int {
        u32::MAX
    } else {
        q as u32
    }
}

/// The size an image of size `natural` is resized to for a request of `width` and `height`.
/// A single requested side keeps the aspect ratio; two are taken verbatim.
pub open spec fn resize_dimensions(width: Option<u32>, height: Option<u32>, natural: (u32, u32)) -> (u32, u32) {
    match (width, height) {
        (Some(w), Some(h)) => (w, h),
        (Some(w), None) => (w, scaled(natural.1, w, natural.0)),
        (None, Some(h)) => (scaled(natural.0, h, natural.1), h),
        (None, None) => natural,
    }
}

/// The natural side that a single requested side is divided by is not zero.
pub open spec fn dimensions_resolvable(width: Option<u32>, height: Option<u32>, natural: (u32, u32)) -> bool {
    &&& (width is Some && height is None ==> natural.0 > 0)
    &&& (width is None && height is Some ==> natural.1 > 0)
}

fn scale(side: u32, requested: u32, base: u32) -> (r: u32)
    requires
        base > 0,
    ensures
        r == scaled(side, requested, base),
{
    let s = side as u64;
    let q = requested as u64;
    assert(s * q <= u64::MAX) by (nonlinear_arith)
        requires
            s <= u32::MAX,
            q <= u32::MAX,
    ;
    let t = s * q / (base as u64);
    if t > u32::MAX as u64 {
        u32::MAX
    } else {
        t as u32
    }
}

/// Computes the target size of a resize from the requested sides and the natural size.
pub fn get_resize_dimensions(width: Option<u32>, height: Option<u32>, dimensions: (u32, u32)) -> (r: (u32, u32))
    requires
        dimensions_resolvable(width, height, dimensions),
    ensures
        r == resize_dimensions(width, height, dimensions),
{
    match (width, height) {
        (Some(w), Some(h)) => (w, h),
        (Some(w), None) => (w, scale(dimensions.1, w, dimensions.0)),
        (None, Some(h)) => (scale(dimensions.0, h, dimensions.1), h),
        (None, None) => dimensions,
    }
}

/// A request of only a width keeps the aspect ratio: the height is
/// `naturalH * w / naturalW`, truncated, wherever that fits a `u32`.
pub proof fn lemma_width_only_keeps_aspect(w: u32, natural_w: u32, natural_h: u32)
    requires
        natural_w > 0,
        (natural_h as int * w as int) / natural_w as int <= u32::MAX as int,
    ensures
        resize_dimensions(Some(w), None, (natural_w, natural_h)).0 == w,
        resize_dimensions(Some(w), None, (natural_w, natural_h)).1 as int == (natural_h as int
            * w as int) / natural_w as int,
{
}

/// A request of only a height keeps the aspect ratio: the width is
/// `naturalW * h / naturalH`, truncated, wherever that fits a `u32`.
pub proof fn lemma_height_only_keeps_aspect(h: u32, natural_w: u32, natural_h: u32)
    requires
        natural_h > 0,
        (natural_w as int * h as int) / natural_h as int <= u32::MAX as int,
    ensures
        resize_dimensions(None, Some(h), (natural_w, natural_h)).1 == h,
        resize_dimensions(None, Some(h), (natural_w, natural_h)).0 as int == (natural_w as int
            * h as int) / natural_h as int,
{
}

} // verus!
