//! Lengths, rectangles and the arithmetic the strip is laid out with.
//!
//! Strip and screen coordinates are fixed-point numbers that count thousandths
//! of a pixel ([`PX`] of them make one pixel). Rectangles that come from the
//! window system ([`Rect`]) count whole pixels.
use vstd::prelude::*;

verus! {

/// Units in one pixel.
pub const PX: i64 = 1000;

/// Largest magnitude of a tile width.
pub const WIDTH_MAX: i64 = 8_796_093_022_208;

/// Largest magnitude of a screen dimension.
pub const SCREEN_MAX: i64 = 4_398_046_511_104;

/// Largest magnitude of the gap between tiles and of the resize step.
pub const STEP_MAX: i64 = 274_877_906_944;

/// Largest magnitude of the position of a tile in the strip.
pub const POSITION_MAX: i64 = 1_152_921_504_606_846_976;

pub open spec fn width_ok(v: i64) -> bool {
    -WIDTH_MAX <= v <= WIDTH_MAX
}

pub open spec fn screen_ok(v: i64) -> bool {
    -SCREEN_MAX <= v <= SCREEN_MAX
}

pub open spec fn step_ok(v: i64) -> bool {
    -STEP_MAX <= v <= STEP_MAX
}

pub open spec fn position_ok(v: i64) -> bool {
    -POSITION_MAX <= v <= POSITION_MAX
}

pub open spec fn magnitude(v: int) -> int {
    if v < 0 {
        -v
    } else {
        v
    }
}

/// `v` moved into `[lo, hi]`.
pub open spec fn clamped(v: int, lo: int, hi: int) -> int {
    if v < lo {
        lo
    } else if v > hi {
        hi
    } else {
        v
    }
}

/// The scroll offset nearest to `v`: `v` itself, unless it does not fit into 64
/// bits.
pub open spec fn scroll_clamped(v: int) -> int {
    clamped(v, i64::MIN as int, i64::MAX as int)
}

/// Division that rounds toward zero.
pub open spec fn truncated(a: int, b: int) -> int {
    if a >= 0 {
        a / b
    } else {
        -((-a) / b)
    }
}

/// `v` times the fraction `num / den`, rounded toward zero.
pub open spec fn scaled(v: int, num: int, den: int) -> int {
    truncated(v * num, den)
}

/// Whole pixels in `v`, rounded toward zero and saturated to 32 bits.
pub open spec fn whole_pixels(v: int) -> int {
    clamped(truncated(v, PX as int), i32::MIN as int, i32::MAX as int)
}

pub fn abs_diff(a: i64, b: i64) -> (r: u64)
    ensures
        r == magnitude(a - b),
{
    if a < b {
        (b as i128 - a as i128) as u64
    } else {
        (a as i128 - b as i128) as u64
    }
}

pub fn clamp(v: i64, lo: i64, hi: i64) -> (r: i64)
    requires
        lo <= hi,
    ensures
        r == clamped(v as int, lo as int, hi as int),
{
    if v < lo {
        lo
    } else if v > hi {
        hi
    } else {
        v
    }
}

pub fn scroll_clamp(v: i128) -> (r: i64)
    ensures
        r == scroll_clamped(v as int),
{
    if v < i64::MIN as i128 {
        i64::MIN
    } else if v > i64::MAX as i128 {
        i64::MAX
    } else {
        v as i64
    }
}

/// Division that rounds down.
pub fn floor_div(a: i64, b: i64) -> (r: i64)
    requires
        b > 0,
    ensures
        r == a / b,
{
    if a >= 0 {
        a / b
    } else {
        let wide: i128 = -(a as i128);
        let up: i128 = wide + (b as i128 - 1);
        let q: i128 = up / (b as i128);
        proof {
            lemma_floor_of_negative(wide as int, b as int);
            lemma_quotient_bounds(up as int, b as int);
        }
        let r: i128 = -q;
        r as i64
    }
}

proof fn lemma_floor_of_negative(w: int, b: int)
    requires
        w > 0,
        b > 0,
    ensures
        -((w + (b - 1)) / b) == (-w) / b,
        (-w) / b >= -w,
{
    let q = (w + (b - 1)) / b;
    let rem = (w + (b - 1)) % b;
    vstd::arithmetic::div_mod::lemma_fundamental_div_mod(w + (b - 1), b);
    vstd::arithmetic::div_mod::lemma_mod_bound(w + (b - 1), b);
    assert(-w == b * (-q) + (b - 1 - rem)) by (nonlinear_arith)
        requires
            w + (b - 1) == b * q + rem,
    ;
    vstd::arithmetic::div_mod::lemma_fundamental_div_mod_converse(-w, b, -q, b - 1 - rem);
    assert(q <= w) by (nonlinear_arith)
        requires
            w + (b - 1) == b * q + rem,
            0 <= rem < b,
            b > 0,
            w > 0,
    ;
}

proof fn lemma_quotient_bounds(a: int, b: int)
    requires
        a >= 0,
        b > 0,
    ensures
        0 <= a / b <= a,
{
    vstd::arithmetic::div_mod::lemma_div_pos_is_pos(a, b);
    vstd::arithmetic::div_mod::lemma_div_is_ordered_by_denominator(a, 1, b);
    vstd::arithmetic::div_mod::lemma_div_basics(a);
}

/// Division that rounds toward zero.
pub fn trunc_div(a: i128, b: i128) -> (r: i128)
    requires
        b > 0,
        a > i128::MIN,
    ensures
        r == truncated(a as int, b as int),
        magnitude(r as int) <= magnitude(a as int),
{
    if a >= 0 {
        proof {
            lemma_quotient_bounds(a as int, b as int);
        }
        a / b
    } else {
        proof {
            lemma_quotient_bounds(-a as int, b as int);
        }
        -((-a) / b)
    }
}

/// Whole pixels in `v`, the way a coordinate is handed to the window system.
pub fn to_pixels(v: i128) -> (r: i32)
    requires
        v > i128::MIN,
    ensures
        r == whole_pixels(v as int),
{
    let q: i128 = trunc_div(v, PX as i128);
    if q < i32::MIN as i128 {
        i32::MIN
    } else if q > i32::MAX as i128 {
        i32::MAX
    } else {
        q as i32
    }
}

/// A rectangle in whole pixels, as the window system reports it.
#[derive(Debug, Clone, Copy, PartialEq, Eq, Structural)]
pub struct Rect {
    pub left: i32,
    pub top: i32,
    pub right: i32,
    pub bottom: i32,
}

#[derive(Debug, Clone, Copy, PartialEq, Eq, Structural)]
pub struct Size {
    pub width: i64,
    pub height: i64,
}

impl Size {
    pub open spec fn ok(self) -> bool {
        screen_ok(self.width) && screen_ok(self.height)
    }
}

#[derive(Debug, Clone, Copy, PartialEq, Eq, Structural)]
pub struct Position {
    pub x: i64,
    pub y: i64,
}

/// A rectangle in strip units.
#[derive(Debug, Clone, Copy, PartialEq, Eq, Structural)]
pub struct Bounds {
    pub left: i64,
    pub top: i64,
    pub right: i64,
    pub bottom: i64,
}

pub open spec fn bounds_of(rect: Rect) -> Bounds {
    Bounds {
        left: (rect.left * PX) as i64,
        top: (rect.top * PX) as i64,
        right: (rect.right * PX) as i64,
        bottom: (rect.bottom * PX) as i64,
    }
}

impl Bounds {
    /// Whether the edges lie where a whole-pixel rectangle can put them.
    pub open spec fn ok(self) -> bool {
        &&& -2_147_483_648_000 <= self.left <= 2_147_483_648_000
        &&& -2_147_483_648_000 <= self.top <= 2_147_483_648_000
        &&& -2_147_483_648_000 <= self.right <= 2_147_483_648_000
        &&& -2_147_483_648_000 <= self.bottom <= 2_147_483_648_000
    }

    pub fn from_rect(rect: Rect) -> (r: Self)
        ensures
            r == bounds_of(rect),
            r.ok(),
    {
        Bounds {
            left: rect.left as i64 * PX,
            top: rect.top as i64 * PX,
            right: rect.right as i64 * PX,
            bottom: rect.bottom as i64 * PX,
        }
    }

    pub fn size(&self) -> (r: Size)
        requires
            self.ok(),
        ensures
            r.width == self.right - self.left,
            r.height == self.bottom - self.top,
            r.ok(),
    {
        Size { width: self.right - self.left, height: self.bottom - self.top }
    }

    pub fn position(&self) -> (r: Position)
        ensures
            r == (Position { x: self.left, y: self.top }),
    {
        Position { x: self.left, y: self.top }
    }
}

/// Clamping leaves what is within the limits alone and moves anything else to the
/// limit that it is beyond.
pub proof fn law_clamping_moves_to_the_nearer_limit(v: int, lo: int, hi: int)
    requires
        lo <= hi,
    ensures
        lo <= clamped(v, lo, hi) <= hi,
        lo <= v <= hi ==> clamped(v, lo, hi) == v,
        v < lo ==> clamped(v, lo, hi) == lo,
        v > hi ==> clamped(v, lo, hi) == hi,
        i64::MIN <= v <= i64::MAX ==> scroll_clamped(v) == v,
{
}

/// A length in whole pixels is cut toward zero, and limited to 32 bits.
pub proof fn law_whole_pixels_are_cut_toward_zero(v: int, p: int, rest: int)
    requires
        0 <= rest < 1000,
        -2_147_483_648 <= p <= 2_147_483_647,
    ensures
        v == 1000 * p + rest && p >= 0 ==> whole_pixels(v) == p,
        v == 1000 * p - rest && p <= 0 ==> whole_pixels(v) == p,
{
    if v == 1000 * p - rest && p <= 0 {
        assert(-v == 1000 * (-p) + rest);
        assert((-v) / 1000 == -p);
        if v >= 0 {
            assert(v == 0 && p == 0);
        }
    }
}

/// The corners of a rectangle in strip units are those in whole pixels a thousand
/// times as far out.
pub proof fn law_bounds_are_pixels_times_a_thousand(r: Rect)
    ensures
        bounds_of(r).left == 1000 * r.left,
        bounds_of(r).top == 1000 * r.top,
        bounds_of(r).right == 1000 * r.right,
        bounds_of(r).bottom == 1000 * r.bottom,
{
}

} // verus!
