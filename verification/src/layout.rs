//! Geometry of the render window: where the video goes inside the window,
//! how large the window opens, and on which monitor.
//!
//! Everything is integer arithmetic, so the aspect ratio of the phone is
//! kept to the pixel.

use vstd::prelude::*;

verus! {

/// A rectangle with a position and a size, built as SDL builds its
/// rectangles: positions kept within `[i32::MIN / 2, i32::MAX / 2]`, sizes
/// within `[1, i32::MAX / 2]`.
#[derive(Debug, Clone, Copy, PartialEq, Eq)]
pub struct Rect {
    x: i32,
    y: i32,
    w: u32,
    h: u32,
}

/// What a [`Rect`] holds.
pub struct RectView {
    pub x: i32,
    pub y: i32,
    pub w: u32,
    pub h: u32,
}

impl View for Rect {
    type V = RectView;

    closed spec fn view(&self) -> RectView {
        RectView { x: self.x, y: self.y, w: self.w, h: self.h }
    }
}

/// Largest coordinate or size a rectangle holds: `i32::MAX / 2`.
pub open spec fn max_int_value() -> u32 {
    0x3FFF_FFFF
}

/// Smallest coordinate a rectangle holds: `i32::MIN / 2`.
pub open spec fn min_int_value() -> i32 {
    -0x4000_0000i32
}

/// A size brought within `[1, max_int_value()]`.
pub open spec fn clamp_size(v: u32) -> u32 {
    if v == 0 {
        1
    } else if v > max_int_value() {
        max_int_value()
    } else {
        v
    }
}

/// A coordinate brought within `[min_int_value(), max_int_value()]`.
pub open spec fn clamp_position(v: i32) -> i32 {
    if v > max_int_value() as i32 {
        max_int_value() as i32
    } else if v < min_int_value() {
        min_int_value()
    } else {
        v
    }
}

/// The rectangle that `Rect::new(x, y, w, h)` builds.
pub open spec fn rect_of(x: i32, y: i32, w: u32, h: u32) -> RectView {
    RectView { x: clamp_position(x), y: clamp_position(y), w: clamp_size(w), h: clamp_size(h) }
}

/// Half of `v`, rounded toward zero (integer division of Rust).
pub open spec fn half_toward_zero(v: int) -> int {
    if v >= 0 {
        v / 2
    } else {
        -((-v) / 2)
    }
}

/// The larger of `v` and 1.
pub open spec fn at_least_one(v: u32) -> u32 {
    if v == 0 {
        1
    } else {
        v
    }
}

/// Size of the largest rectangle with the proportions of `src` that fits in
/// `win`: the limiting side is pinned to the window, the other derived from
/// it with one truncation.
pub open spec fn fit_dims(src_w: u32, src_h: u32, win_w: u32, win_h: u32) -> (u32, u32) {
    if win_w * src_h <= win_h * src_w {
        (win_w, (win_w * src_h / (src_w as int)) as u32)
    } else {
        ((win_h * src_w / (src_h as int)) as u32, win_h)
    }
}

/// Size of the smallest rectangle with the proportions of `src` that covers
/// `win`: the side that fills first is pinned, the other overflows.
pub open spec fn fill_dims(src_w: u32, src_h: u32, win_w: u32, win_h: u32) -> (u32, u32) {
    if win_w * src_h >= win_h * src_w {
        (win_w, (win_w * src_h / (src_w as int)) as u32)
    } else {
        ((win_h * src_w / (src_h as int)) as u32, win_h)
    }
}

/// Offset that centers a length `dst` inside a length `win` (negative when
/// `dst` overflows `win`).
pub open spec fn centered(win: u32, dst: u32) -> int {
    half_toward_zero((win as i32) - (dst as i32))
}

/// The centering offsets of `d` in `win` are computed without overflow.
pub open spec fn centering_defined(win_w: u32, win_h: u32, d: (u32, u32)) -> bool {
    &&& i32::MIN <= (win_w as i32) - (d.0 as i32) <= i32::MAX
    &&& i32::MIN <= (win_h as i32) - (d.1 as i32) <= i32::MAX
}

/// The destination rectangle of [`fit_centered`].
pub open spec fn fit_rect(src_w: u32, src_h: u32, win_w: u32, win_h: u32) -> RectView {
    if src_w == 0 || src_h == 0 {
        rect_of(0, 0, at_least_one(win_w), at_least_one(win_h))
    } else {
        let d = fit_dims(src_w, src_h, win_w, win_h);
        rect_of(
            centered(win_w, d.0) as i32,
            centered(win_h, d.1) as i32,
            at_least_one(d.0),
            at_least_one(d.1),
        )
    }
}

/// The destination rectangle of [`fill_centered`].
pub open spec fn fill_rect(src_w: u32, src_h: u32, win_w: u32, win_h: u32) -> RectView {
    if src_w == 0 || src_h == 0 {
        rect_of(0, 0, at_least_one(win_w), at_least_one(win_h))
    } else {
        let d = fill_dims(src_w, src_h, win_w, win_h);
        rect_of(
            centered(win_w, d.0) as i32,
            centered(win_h, d.1) as i32,
            at_least_one(d.0),
            at_least_one(d.1),
        )
    }
}

/// [`fit_centered`] computes without overflow on these sizes.
pub open spec fn fit_defined(src_w: u32, src_h: u32, win_w: u32, win_h: u32) -> bool {
    src_w == 0 || src_h == 0 || centering_defined(win_w, win_h, fit_dims(src_w, src_h, win_w, win_h))
}

/// [`fill_centered`] computes without overflow on these sizes.
pub open spec fn fill_defined(src_w: u32, src_h: u32, win_w: u32, win_h: u32) -> bool {
    src_w == 0 || src_h == 0 || centering_defined(
        win_w,
        win_h,
        fill_dims(src_w, src_h, win_w, win_h),
    )
}

/// A position and size within the ranges a [`Rect`] holds.
pub open spec fn rect_in_range(r: RectView) -> bool {
    &&& min_int_value() <= r.x <= max_int_value()
    &&& min_int_value() <= r.y <= max_int_value()
    &&& 1 <= r.w <= max_int_value()
    &&& 1 <= r.h <= max_int_value()
}

impl Rect {
    /// Every rectangle has its position and size in range.
    #[verifier::type_invariant]
    closed spec fn well_formed(self) -> bool {
        rect_in_range(self@)
    }

    /// Builds a rectangle, bringing position and size into range.
    pub fn new(x: i32, y: i32, width: u32, height: u32) -> (r: Rect)
        ensures
            r@ == rect_of(x, y, width, height),
    {
        let cx = if x > 0x3FFF_FFFF {
            0x3FFF_FFFF
        } else if x < -0x4000_0000 {
            -0x4000_0000
        } else {
            x
        };
        let cy = if y > 0x3FFF_FFFF {
            0x3FFF_FFFF
        } else if y < -0x4000_0000 {
            -0x4000_0000
        } else {
            y
        };
        let cw = if width == 0 {
            1
        } else if width > 0x3FFF_FFFF {
            0x3FFF_FFFF
        } else {
            width
        };
        let ch = if height == 0 {
            1
        } else if height > 0x3FFF_FFFF {
            0x3FFF_FFFF
        } else {
            height
        };
        Rect { x: cx, y: cy, w: cw, h: ch }
    }

    pub fn x(&self) -> (r: i32)
        ensures
            r == self@.x,
            rect_in_range(self@),
    {
        proof {
            use_type_invariant(self);
        }
        self.x
    }

    pub fn y(&self) -> (r: i32)
        ensures
            r == self@.y,
            rect_in_range(self@),
    {
        proof {
            use_type_invariant(self);
        }
        self.y
    }

    pub fn width(&self) -> (r: u32)
        ensures
            r == self@.w,
            rect_in_range(self@),
    {
        proof {
            use_type_invariant(self);
        }
        self.w
    }

    pub fn height(&self) -> (r: u32)
        ensures
            r == self@.h,
            rect_in_range(self@),
    {
        proof {
            use_type_invariant(self);
        }
        self.h
    }
}

proof fn lemma_product_fits_u64(a: u32, b: u32)
    ensures
        a * b <= u64::MAX,
{
    assert(a * b <= 0xffff_ffffu64 * 0xffff_ffffu64) by (nonlinear_arith)
        requires
            a <= 0xffff_ffffu64,
            b <= 0xffff_ffffu64,
    ;
}

/// Rectangle of the given size centered in a `win_w` x `win_h` window.
fn centered_rect(win_w: u32, win_h: u32, dst_w: u32, dst_h: u32) -> (r: Rect)
    requires
        centering_defined(win_w, win_h, (dst_w, dst_h)),
    ensures
        r@ == rect_of(
            centered(win_w, dst_w) as i32,
            centered(win_h, dst_h) as i32,
            at_least_one(dst_w),
            at_least_one(dst_h),
        ),
{
    let x = (win_w as i32 - dst_w as i32) / 2;
    let y = (win_h as i32 - dst_h as i32) / 2;
    Rect::new(
        x,
        y,
        if dst_w == 0 {
            1
        } else {
            dst_w
        },
        if dst_h == 0 {
            1
        } else {
            dst_h
        },
    )
}

/// The size [`fit_dims`] describes, for a source with no zero side.
fn fit_size(src_w: u32, src_h: u32, win_w: u32, win_h: u32) -> (r: (u32, u32))
    requires
        src_w > 0,
        src_h > 0,
    ensures
        r == fit_dims(src_w, src_h, win_w, win_h),
{
    // Fixed point, no floats: the limiting side stays pinned to the edge and
    // the other derives from it with one truncation.
    proof {
        lemma_product_fits_u64(win_w, src_h);
        lemma_product_fits_u64(win_h, src_w);
    }
    let a = win_w as u64 * src_h as u64;
    let b = win_h as u64 * src_w as u64;
    if a <= b {
        (win_w, (#[verifier::truncate] ((a / src_w as u64) as u32)))
    } else {
        ((#[verifier::truncate] ((b / src_h as u64) as u32)), win_h)
    }
}

/// The size [`fill_dims`] describes, for a source with no zero side.
fn fill_size(src_w: u32, src_h: u32, win_w: u32, win_h: u32) -> (r: (u32, u32))
    requires
        src_w > 0,
        src_h > 0,
    ensures
        r == fill_dims(src_w, src_h, win_w, win_h),
{
    proof {
        lemma_product_fits_u64(win_w, src_h);
        lemma_product_fits_u64(win_h, src_w);
    }
    let a = win_w as u64 * src_h as u64;
    let b = win_h as u64 * src_w as u64;
    if a >= b {
        (win_w, (#[verifier::truncate] ((a / src_w as u64) as u32)))
    } else {
        ((#[verifier::truncate] ((b / src_h as u64) as u32)), win_h)
    }
}

/// Whether one centering offset is computed without overflow.
fn offset_computable(win: u32, dst: u32) -> (r: bool)
    ensures
        r == (i32::MIN <= (win as i32) - (dst as i32) <= i32::MAX),
{
    let d: i64 = (#[verifier::truncate] (win as i32)) as i64 - (#[verifier::truncate] (
    dst as i32)) as i64;
    i32::MIN as i64 <= d && d <= i32::MAX as i64
}

/// Destination rectangle that fits `src_w` x `src_h` inside `win_w` x `win_h`
/// as large as possible without distortion, centered.
pub fn fit_centered(src_w: u32, src_h: u32, win_w: u32, win_h: u32) -> (r: Rect)
    requires
        fit_defined(src_w, src_h, win_w, win_h),
    ensures
        r@ == fit_rect(src_w, src_h, win_w, win_h),
{
    if src_w == 0 || src_h == 0 {
        return Rect::new(
            0,
            0,
            if win_w == 0 {
                1
            } else {
                win_w
            },
            if win_h == 0 {
                1
            } else {
                win_h
            },
        );
    }
    let (dst_w, dst_h) = fit_size(src_w, src_h, win_w, win_h);
    centered_rect(win_w, win_h, dst_w, dst_h)
}

/// Destination rectangle that covers the window (the source fills it on
/// both axes, the excess is cropped), keeping proportions, centered.
pub fn fill_centered(src_w: u32, src_h: u32, win_w: u32, win_h: u32) -> (r: Rect)
    requires
        fill_defined(src_w, src_h, win_w, win_h),
    ensures
        r@ == fill_rect(src_w, src_h, win_w, win_h),
{
    if src_w == 0 || src_h == 0 {
        return Rect::new(
            0,
            0,
            if win_w == 0 {
                1
            } else {
                win_w
            },
            if win_h == 0 {
                1
            } else {
                win_h
            },
        );
    }
    let (dst_w, dst_h) = fill_size(src_w, src_h, win_w, win_h);
    centered_rect(win_w, win_h, dst_w, dst_h)
}

/// Whether [`fit_centered`] computes without overflow on these sizes (it
/// does whenever every size is below `2^31`).
pub fn fit_computable(src_w: u32, src_h: u32, win_w: u32, win_h: u32) -> (r: bool)
    ensures
        r == fit_defined(src_w, src_h, win_w, win_h),
{
    if src_w == 0 || src_h == 0 {
        return true;
    }
    let (dst_w, dst_h) = fit_size(src_w, src_h, win_w, win_h);
    offset_computable(win_w, dst_w) && offset_computable(win_h, dst_h)
}

/// Whether [`fill_centered`] computes without overflow on these sizes.
pub fn fill_computable(src_w: u32, src_h: u32, win_w: u32, win_h: u32) -> (r: bool)
    ensures
        r == fill_defined(src_w, src_h, win_w, win_h),
{
    if src_w == 0 || src_h == 0 {
        return true;
    }
    let (dst_w, dst_h) = fill_size(src_w, src_h, win_w, win_h);
    offset_computable(win_w, dst_w) && offset_computable(win_h, dst_h)
}

} // verus!

verus! {

/// Nine tenths of `avail`: the share of the monitor the window opens at.
pub open spec fn nine_tenths(avail: u32) -> u32 {
    (avail * 9 / 10) as u32
}

/// Size of the window for a phone screen on a monitor with the given usable
/// area: the largest that fits nine tenths of it keeping the phone's
/// proportions.
pub open spec fn window_size(phone_w: u32, phone_h: u32, avail_w: u32, avail_h: u32) -> (u32, u32) {
    let r = fit_rect(
        at_least_one(phone_w),
        at_least_one(phone_h),
        at_least_one(nine_tenths(avail_w)),
        at_least_one(nine_tenths(avail_h)),
    );
    (at_least_one(r.w), at_least_one(r.h))
}

/// [`window_size_for`] computes without overflow on these sizes.
pub open spec fn window_size_defined(phone_w: u32, phone_h: u32, avail_w: u32, avail_h: u32) -> bool {
    fit_defined(
        at_least_one(phone_w),
        at_least_one(phone_h),
        at_least_one(nine_tenths(avail_w)),
        at_least_one(nine_tenths(avail_h)),
    )
}

/// Whether [`window_size_for`] computes without overflow on these sizes.
pub fn window_size_computable(phone_w: u32, phone_h: u32, avail_w: u32, avail_h: u32) -> (r: bool)
    ensures
        r == window_size_defined(phone_w, phone_h, avail_w, avail_h),
{
    let max_w = (avail_w as u64 * 9 / 10) as u32;
    let max_h = (avail_h as u64 * 9 / 10) as u32;
    fit_computable(
        if phone_w == 0 {
            1
        } else {
            phone_w
        },
        if phone_h == 0 {
            1
        } else {
            phone_h
        },
        if max_w == 0 {
            1
        } else {
            max_w
        },
        if max_h == 0 {
            1
        } else {
            max_h
        },
    )
}

/// Height the window opens at when the monitor cannot be read.
pub const DEFAULT_WINDOW_HEIGHT: u32 = 900;

/// Window size when the monitor cannot be read: the phone's size, scaled
/// down to [`DEFAULT_WINDOW_HEIGHT`] when taller.
pub open spec fn default_window(width: u32, height: u32) -> (u32, u32) {
    if height <= DEFAULT_WINDOW_HEIGHT {
        (at_least_one(width), at_least_one(height))
    } else {
        (at_least_one((width * DEFAULT_WINDOW_HEIGHT / (height as int)) as u32), DEFAULT_WINDOW_HEIGHT)
    }
}

/// Window size = the largest that fits in nine tenths of `(avail_w,
/// avail_h)` keeping the phone's proportions: never larger than the monitor
/// (nothing is cut off) and as large as possible (no blurry downscale).
pub fn window_size_for(phone_w: u32, phone_h: u32, avail_w: u32, avail_h: u32) -> (r: (u32, u32))
    requires
        window_size_defined(phone_w, phone_h, avail_w, avail_h),
    ensures
        r == window_size(phone_w, phone_h, avail_w, avail_h),
{
    let max_w = (avail_w as u64 * 9 / 10) as u32;
    let max_h = (avail_h as u64 * 9 / 10) as u32;
    let r = fit_centered(
        if phone_w == 0 {
            1
        } else {
            phone_w
        },
        if phone_h == 0 {
            1
        } else {
            phone_h
        },
        if max_w == 0 {
            1
        } else {
            max_w
        },
        if max_h == 0 {
            1
        } else {
            max_h
        },
    );
    let w = r.width();
    let h = r.height();
    (
        if w == 0 {
            1
        } else {
            w
        },
        if h == 0 {
            1
        } else {
            h
        },
    )
}

/// Window size when the monitor cannot be read (see [`default_window`]).
pub fn scaled_window(width: u32, height: u32) -> (r: (u32, u32))
    ensures
        r == default_window(width, height),
{
    if height <= DEFAULT_WINDOW_HEIGHT {
        return (
            if width == 0 {
                1
            } else {
                width
            },
            if height == 0 {
                1
            } else {
                height
            },
        );
    }
    proof {
        lemma_product_fits_u64(width, DEFAULT_WINDOW_HEIGHT);
    }
    let w = (#[verifier::truncate] ((width as u64 * DEFAULT_WINDOW_HEIGHT as u64 / height as u64) as u32));
    (
        if w == 0 {
            1
        } else {
            w
        },
        DEFAULT_WINDOW_HEIGHT,
    )
}

/// The index of the largest area, the last one among equals (0 when empty).
pub open spec fn best_index(areas: Seq<u64>) -> int
    decreases areas.len(),
{
    if areas.len() <= 1 {
        0
    } else {
        let i = best_index(areas.drop_last());
        if areas.last() >= areas[i] {
            areas.len() - 1
        } else {
            i
        }
    }
}

/// The monitor the window opens on: the requested one when it exists, else
/// the one with the most pixels.
pub open spec fn display_choice(requested: Option<usize>, areas: Seq<u64>) -> int {
    match requested {
        Some(i) if i < areas.len() => i as int,
        _ => best_index(areas),
    }
}

/// Chooses the monitor: the requested index when it is below the number of
/// monitors, else the one with the largest area (`areas[i]` is the pixel
/// count of monitor `i`, 0 when unknown; the last among equals wins).
pub fn choose_display(requested: Option<usize>, areas: &[u64]) -> (r: usize)
    ensures
        r == display_choice(requested, areas@),
{
    if let Some(i) = requested {
        if i < areas.len() {
            return i;
        }
    }
    let mut best: usize = 0;
    let mut k: usize = 1;
    if areas.len() <= 1 {
        return 0;
    }
    assert(areas@.take(1).len() == 1);
    while k < areas.len()
        invariant
            1 <= k <= areas@.len(),
            best < k,
            best == best_index(areas@.take(k as int)),
            best_index(areas@.take(k as int)) < k,
        decreases areas@.len() - k,
    {
        assert(areas@.take(k + 1).drop_last() =~= areas@.take(k as int));
        assert(areas@.take(k as int)[best as int] == areas@[best as int]);
        if areas[k] >= areas[best] {
            best = k;
        }
        k = k + 1;
    }
    assert(areas@.take(areas@.len() as int) =~= areas@);
    best
}

/// The window position is computed without overflow.
pub open spec fn origin_defined(bx: i32, by: i32, bw: u32, bh: u32, win_w: u32, win_h: u32) -> bool {
    &&& i32::MIN <= (bw as i32) - (win_w as i32) <= i32::MAX
    &&& i32::MIN <= (bh as i32) - (win_h as i32) <= i32::MAX
    &&& i32::MIN <= bx + half_toward_zero((bw as i32) - (win_w as i32)) <= i32::MAX
    &&& i32::MIN <= by + half_toward_zero((bh as i32) - (win_h as i32)) <= i32::MAX
}

/// Whether [`window_origin`] computes without overflow on these values.
pub fn origin_computable(bx: i32, by: i32, bw: u32, bh: u32, win_w: u32, win_h: u32) -> (r: bool)
    ensures
        r == origin_defined(bx, by, bw, bh, win_w, win_h),
{
    let dx: i64 = (#[verifier::truncate] (bw as i32)) as i64 - (#[verifier::truncate] (
    win_w as i32)) as i64;
    let dy: i64 = (#[verifier::truncate] (bh as i32)) as i64 - (#[verifier::truncate] (
    win_h as i32)) as i64;
    if dx < i32::MIN as i64 || dx > i32::MAX as i64 || dy < i32::MIN as i64 || dy > i32::MAX as i64 {
        return false;
    }
    let x: i64 = bx as i64 + dx / 2;
    let y: i64 = by as i64 + dy / 2;
    i32::MIN as i64 <= x && x <= i32::MAX as i64 && i32::MIN as i64 <= y && y <= i32::MAX as i64
}

/// Top-left corner that centers a `win_w` x `win_h` window in the monitor
/// area at `(bx, by)` of size `bw` x `bh`.
pub fn window_origin(bx: i32, by: i32, bw: u32, bh: u32, win_w: u32, win_h: u32) -> (r: (i32, i32))
    requires
        origin_defined(bx, by, bw, bh, win_w, win_h),
    ensures
        r.0 == bx + half_toward_zero((bw as i32) - (win_w as i32)),
        r.1 == by + half_toward_zero((bh as i32) - (win_h as i32)),
{
    let x = bx + (bw as i32 - win_w as i32) / 2;
    let y = by + (bh as i32 - win_h as i32) / 2;
    (x, y)
}

} // verus!

verus! {

/// Facts about `a / c` for naturals: it is bounded by what bounds `a`, and
/// it loses less than `c`.
proof fn lemma_div_facts(a: int, b: int, c: int)
    requires
        c > 0,
        0 <= a,
        0 <= b,
    ensures
        a <= b * c ==> a / c <= b,
        a >= b * c ==> a / c >= b,
        0 <= a - (a / c) * c < c,
        a / c >= 0,
{
    vstd::arithmetic::div_mod::lemma_fundamental_div_mod(a, c);
    vstd::arithmetic::div_mod::lemma_mod_pos_bound(a, c);
    let q = a / c;
    let r = a % c;
    assert(a <= b * c ==> q <= b) by (nonlinear_arith)
        requires
            a == c * q + r,
            0 <= r < c,
            c > 0,
    ;
    assert(a >= b * c ==> q >= b) by (nonlinear_arith)
        requires
            a == c * q + r,
            0 <= r < c,
            c > 0,
    ;
    assert(0 <= a - q * c < c && q >= 0) by (nonlinear_arith)
        requires
            a == c * q + r,
            0 <= r < c,
            c > 0,
            a >= 0,
    ;
}

/// The fitted video never leaves the window: it starts inside it and ends
/// before its far edges.
pub proof fn fit_stays_inside(src_w: u32, src_h: u32, win_w: u32, win_h: u32)
    requires
        src_w > 0,
        src_h > 0,
        1 <= win_w <= max_int_value(),
        1 <= win_h <= max_int_value(),
    ensures
        fit_defined(src_w, src_h, win_w, win_h),
        ({
            let r = fit_rect(src_w, src_h, win_w, win_h);
            &&& 0 <= r.x
            &&& r.x + r.w <= win_w
            &&& 0 <= r.y
            &&& r.y + r.h <= win_h
        }),
{
    let a = win_w * src_h;
    let b = win_h * src_w;
    lemma_div_facts(a, win_h as int, src_w as int);
    lemma_div_facts(b, win_w as int, src_h as int);
}

/// The fitted video keeps the proportions of the source: one side is pinned
/// to the window and the other is off by less than one source unit.
pub proof fn fit_keeps_aspect(src_w: u32, src_h: u32, win_w: u32, win_h: u32)
    requires
        src_w > 0,
        src_h > 0,
    ensures
        ({
            let d = fit_dims(src_w, src_h, win_w, win_h);
            ||| (d.0 == win_w && 0 <= d.0 * src_h - d.1 * src_w < src_w)
            ||| (d.1 == win_h && 0 <= d.1 * src_w - d.0 * src_h < src_h)
        }),
{
    let a = win_w * src_h;
    let b = win_h * src_w;
    lemma_div_facts(a, win_h as int, src_w as int);
    lemma_div_facts(b, win_w as int, src_h as int);
}

/// Filling covers the whole window: the video starts at or before its
/// origin and ends at or after its far edges.
pub proof fn fill_covers_window(src_w: u32, src_h: u32, win_w: u32, win_h: u32)
    requires
        src_w > 0,
        src_h > 0,
        1 <= win_w <= max_int_value(),
        1 <= win_h <= max_int_value(),
        win_w * src_h / (src_w as int) <= max_int_value(),
        win_h * src_w / (src_h as int) <= max_int_value(),
    ensures
        fill_defined(src_w, src_h, win_w, win_h),
        ({
            let r = fill_rect(src_w, src_h, win_w, win_h);
            &&& r.x <= 0
            &&& r.x + r.w >= win_w
            &&& r.y <= 0
            &&& r.y + r.h >= win_h
        }),
{
    let a = win_w * src_h;
    let b = win_h * src_w;
    lemma_div_facts(a, win_h as int, src_w as int);
    lemma_div_facts(b, win_w as int, src_h as int);
}

/// The window never opens larger than the monitor's usable area.
pub proof fn window_fits_monitor(phone_w: u32, phone_h: u32, avail_w: u32, avail_h: u32)
    requires
        1 <= avail_w <= max_int_value(),
        1 <= avail_h <= max_int_value(),
    ensures
        window_size_defined(phone_w, phone_h, avail_w, avail_h),
        window_size(phone_w, phone_h, avail_w, avail_h).0 <= avail_w,
        window_size(phone_w, phone_h, avail_w, avail_h).1 <= avail_h,
{
    let mw = at_least_one(nine_tenths(avail_w));
    let mh = at_least_one(nine_tenths(avail_h));
    assert(mw <= avail_w && mh <= avail_h);
    fit_stays_inside(at_least_one(phone_w), at_least_one(phone_h), mw, mh);
}

/// The window is as large as the monitor allows: one of its sides takes the
/// whole nine tenths of the usable area.
pub proof fn window_uses_monitor(phone_w: u32, phone_h: u32, avail_w: u32, avail_h: u32)
    requires
        10 <= avail_w <= max_int_value(),
        10 <= avail_h <= max_int_value(),
    ensures
        window_size(phone_w, phone_h, avail_w, avail_h).0 == nine_tenths(avail_w) || window_size(
            phone_w,
            phone_h,
            avail_w,
            avail_h,
        ).1 == nine_tenths(avail_h),
{
    let mw = nine_tenths(avail_w);
    let mh = nine_tenths(avail_h);
    assert(1 <= mw <= avail_w && 1 <= mh <= avail_h);
    fit_stays_inside(at_least_one(phone_w), at_least_one(phone_h), mw, mh);
}

/// An offset that splits the excess `e` of a window over its content evenly,
/// rounding toward zero: twice the offset is `e` or one nearer to zero.
pub open spec fn splits_evenly(offset: int, e: int) -> bool {
    &&& e >= 0 ==> (2 * offset == e || 2 * offset == e - 1)
    &&& e < 0 ==> (2 * offset == e || 2 * offset == e + 1)
}

/// Filling centers the video: what overflows the window is cropped evenly,
/// the left and right crops (and top and bottom) differing by at most one
/// pixel, the odd pixel going to the far side.
pub proof fn fill_is_centered(src_w: u32, src_h: u32, win_w: u32, win_h: u32)
    requires
        src_w > 0,
        src_h > 0,
        1 <= win_w <= max_int_value(),
        1 <= win_h <= max_int_value(),
        win_w * src_h / (src_w as int) <= max_int_value(),
        win_h * src_w / (src_h as int) <= max_int_value(),
    ensures
        ({
            let r = fill_rect(src_w, src_h, win_w, win_h);
            &&& splits_evenly(r.x as int, win_w - r.w)
            &&& splits_evenly(r.y as int, win_h - r.h)
        }),
{
    let a = win_w * src_h;
    let b = win_h * src_w;
    lemma_div_facts(a, win_h as int, src_w as int);
    lemma_div_facts(b, win_w as int, src_h as int);
}

/// Fitting centers the video: the bars left on either side (and above and
/// below) differ by at most one pixel, the odd pixel going to the far side.
pub proof fn fit_is_centered(src_w: u32, src_h: u32, win_w: u32, win_h: u32)
    requires
        src_w > 0,
        src_h > 0,
        1 <= win_w <= max_int_value(),
        1 <= win_h <= max_int_value(),
        win_w * src_h >= src_w,
        win_h * src_w >= src_h,
    ensures
        ({
            let r = fit_rect(src_w, src_h, win_w, win_h);
            &&& splits_evenly(r.x as int, win_w - r.w)
            &&& splits_evenly(r.y as int, win_h - r.h)
        }),
{
    let a = win_w * src_h;
    let b = win_h * src_w;
    lemma_div_facts(a, win_h as int, src_w as int);
    lemma_div_facts(b, win_w as int, src_h as int);
    lemma_div_facts(a, 1, src_w as int);
    lemma_div_facts(b, 1, src_h as int);
}

/// The monitor with the most pixels: among all, none is larger, and the
/// later ones with as many pixels lose to none (the last of the largest).
proof fn lemma_best_index(areas: Seq<u64>)
    requires
        areas.len() > 0,
    ensures
        0 <= best_index(areas) < areas.len(),
        forall|k: int| 0 <= k < areas.len() ==> #[trigger] areas[k] <= areas[best_index(areas)],
        forall|k: int| best_index(areas) < k < areas.len() ==> #[trigger] areas[k] < areas[best_index(areas)],
    decreases areas.len(),
{
    if areas.len() > 1 {
        let p = areas.drop_last();
        lemma_best_index(p);
        let b = best_index(p);
        assert(areas[b] == p[b]);
        assert forall|k: int| 0 <= k < p.len() implies #[trigger] areas[k] == p[k] by {}
    }
}

/// The window opens on the monitor asked for when it exists; otherwise on
/// the one with the most pixels, the last of them when several tie; with no
/// monitor known, on the first.
pub proof fn display_is_requested_or_largest(requested: Option<usize>, areas: Seq<u64>)
    ensures
        requested matches Some(i) ==> (i < areas.len() ==> display_choice(requested, areas) == i),
        !(requested matches Some(i) && i < areas.len()) && areas.len() > 0 ==> ({
            let d = display_choice(requested, areas);
            &&& 0 <= d < areas.len()
            &&& forall|k: int| 0 <= k < areas.len() ==> #[trigger] areas[k] <= areas[d]
            &&& forall|k: int| d < k < areas.len() ==> #[trigger] areas[k] < areas[d]
        }),
        areas.len() == 0 ==> display_choice(requested, areas) == 0,
{
    if areas.len() > 0 {
        lemma_best_index(areas);
    }
}

} // verus!
