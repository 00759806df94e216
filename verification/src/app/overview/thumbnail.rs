//! Where the thumbnails of an overview lie.
use vstd::prelude::*;

use crate::geometry::{
    abs_diff, floor_div, magnitude, scaled, step_ok, to_pixels, trunc_div, whole_pixels, width_ok,
    Rect, Size,
};
use crate::scroll_tiler::motion::lemma_scaled;
use crate::scroll_tiler::strip::MAX_WINDOWS;
use crate::window::Window;

verus! {

#[derive(Debug, Clone, Copy, PartialEq, Eq, Structural)]
pub struct ThumbnailRect {
    pub x: i64,
    pub y: i64,
    pub width: i64,
    pub height: i64,
}

impl ThumbnailRect {
    pub open spec fn covers(self, x: int, y: int) -> bool {
        self.x <= x < self.x + self.width && self.y <= y < self.y + self.height
    }

    pub fn contains(&self, x: i64, y: i64) -> (r: bool)
        ensures
            r == self.covers(x as int, y as int),
    {
        x >= self.x && (x as i128) < self.x as i128 + self.width as i128 && y >= self.y && (
        y as i128) < self.y as i128 + self.height as i128
    }

    /// The rectangle the compositor draws into, in whole pixels.
    pub fn destination(&self) -> (r: Rect)
        ensures
            r == (Rect {
                left: whole_pixels(self.x as int) as i32,
                top: whole_pixels(self.y as int) as i32,
                right: whole_pixels(self.x + self.width) as i32,
                bottom: whole_pixels(self.y + self.height) as i32,
            }),
    {
        Rect {
            left: to_pixels(self.x as i128),
            top: to_pixels(self.y as i128),
            right: to_pixels(self.x as i128 + self.width as i128),
            bottom: to_pixels(self.y as i128 + self.height as i128),
        }
    }
}

/// A window with the size its thumbnail is scaled from.
#[derive(Debug, Clone, Copy, PartialEq, Eq, Structural)]
pub struct WindowData {
    pub inner: Window,
    pub width: i64,
    pub height: i64,
}

/// Where the thumbnail of a window goes.
#[derive(Debug, Clone, Copy, PartialEq, Eq, Structural)]
pub struct ThumbnailLayout {
    pub rect: ThumbnailRect,
}

pub open spec fn data_ok(windows: Seq<WindowData>) -> bool {
    &&& windows.len() <= MAX_WINDOWS
    &&& forall|i: int| 0 <= i < windows.len() ==> width_ok((#[trigger] windows[i]).width)
}

/// Widths and gaps of the first `upto` windows.
pub open spec fn span(windows: Seq<WindowData>, padding: int, upto: int) -> int
    decreases upto,
{
    if upto <= 0 {
        0
    } else {
        span(windows, padding, upto - 1) + windows[upto - 1].width + padding
    }
}

/// Width of all windows next to each other with gaps between them.
pub open spec fn strip_width(windows: Seq<WindowData>, padding: int) -> int {
    span(windows, padding, windows.len() as int) - padding
}

/// A fraction of two integers.
#[derive(Debug, Clone, Copy, PartialEq, Eq, Structural)]
pub struct Ratio {
    pub num: i128,
    pub den: i128,
}

/// By how much the strip is scaled down: to nine tenths of what would fill the
/// screen, and never to more than six tenths of its size.
pub open spec fn reduction(screen: int, strip: int) -> Ratio {
    let n = if strip < 0 {
        -screen
    } else {
        screen
    };
    let d = magnitude(strip);
    if n <= 0 {
        Ratio { num: 0, den: 1 }
    } else if 3 * n > 2 * d {
        Ratio { num: 6, den: 10 }
    } else {
        Ratio { num: (9 * n) as i128, den: (10 * d) as i128 }
    }
}

pub open spec fn reduced(v: int, ratio: Ratio) -> int {
    scaled(v, ratio.num as int, ratio.den as int)
}

/// Room taken by the first `upto` thumbnails.
pub open spec fn thumbnails_before(
    windows: Seq<WindowData>,
    padding: int,
    ratio: Ratio,
    upto: int,
) -> int
    decreases upto,
{
    if upto <= 0 {
        0
    } else {
        thumbnails_before(windows, padding, ratio, upto - 1) + reduced(
            windows[upto - 1].width as int,
            ratio,
        ) + padding
    }
}

/// Width of all thumbnails next to each other with gaps between them.
pub open spec fn row_width(windows: Seq<WindowData>, padding: int, ratio: Ratio) -> int {
    thumbnails_before(windows, padding, ratio, windows.len() as int) - padding
}

/// Thumbnail `i` of a row centered on the screen.
pub open spec fn thumbnail_rect(
    windows: Seq<WindowData>,
    screen: Size,
    padding: int,
    i: int,
) -> ThumbnailRect {
    let strip = strip_width(windows, padding);
    let ratio = reduction(screen.width as int, strip);
    let height = reduced(screen.height as int, ratio);
    ThumbnailRect {
        x: (thumbnails_before(windows, padding, ratio, i) + (screen.width - row_width(
            windows,
            padding,
            ratio,
        )) / 2) as i64,
        y: (magnitude(screen.height - height) / 2) as i64,
        width: reduced(windows[i].width as int, ratio) as i64,
        height: height as i64,
    }
}

pub open spec fn thumbnail_layouts(windows: Seq<WindowData>, screen: Size, padding: int) -> Seq<
    ThumbnailLayout,
> {
    Seq::new(
        windows.len(),
        |i: int| ThumbnailLayout { rect: thumbnail_rect(windows, screen, padding, i) },
    )
}

proof fn lemma_span_bounds(windows: Seq<WindowData>, padding: int, upto: int)
    requires
        data_ok(windows),
        -crate::geometry::STEP_MAX <= padding <= crate::geometry::STEP_MAX,
        0 <= upto <= windows.len(),
    ensures
        -9_070_970_929_152 * upto <= span(windows, padding, upto) <= 9_070_970_929_152 * upto,
    decreases upto,
{
    if upto > 0 {
        lemma_span_bounds(windows, padding, upto - 1);
        assert(width_ok(windows[upto - 1].width));
    }
}

pub open spec fn ratio_ok(ratio: Ratio) -> bool {
    &&& 0 <= ratio.num <= ratio.den
    &&& 0 < ratio.den
    &&& ratio.num <= 100_000_000_000_000
}

proof fn lemma_thumbnails_bounds(windows: Seq<WindowData>, padding: int, ratio: Ratio, upto: int)
    requires
        data_ok(windows),
        ratio_ok(ratio),
        -crate::geometry::STEP_MAX <= padding <= crate::geometry::STEP_MAX,
        0 <= upto <= windows.len(),
    ensures
        -9_070_970_929_152 * upto <= thumbnails_before(windows, padding, ratio, upto)
            <= 9_070_970_929_152 * upto,
    decreases upto,
{
    if upto > 0 {
        lemma_thumbnails_bounds(windows, padding, ratio, upto - 1);
        assert(width_ok(windows[upto - 1].width));
        lemma_scaled(windows[upto - 1].width as int, ratio.num as int, ratio.den as int);
    }
}

fn reduction_ratio(screen: i64, strip: i64) -> (r: Ratio)
    requires
        crate::geometry::screen_ok(screen),
        -1_000_000_000_000_000_000 <= strip <= 1_000_000_000_000_000_000,
    ensures
        r == reduction(screen as int, strip as int),
        ratio_ok(r),
{
    let n: i128 = if strip < 0 {
        -(screen as i128)
    } else {
        screen as i128
    };
    let d: i128 = if strip < 0 {
        -(strip as i128)
    } else {
        strip as i128
    };
    if n <= 0 {
        Ratio { num: 0, den: 1 }
    } else if 3 * n > 2 * d {
        Ratio { num: 6, den: 10 }
    } else {
        Ratio { num: 9 * n, den: 10 * d }
    }
}

fn reduce(v: i64, ratio: Ratio) -> (r: i64)
    requires
        -1_000_000_000_000_000_000 <= v <= 1_000_000_000_000_000_000,
        ratio_ok(ratio),
    ensures
        r == reduced(v as int, ratio),
        v >= 0 ==> 0 <= r <= v,
        v <= 0 ==> v <= r <= 0,
{
    proof {
        lemma_scaled(v as int, ratio.num as int, ratio.den as int);
        assert(-100_000_000_000_000_000_000_000_000_000_000 <= v * ratio.num
            <= 100_000_000_000_000_000_000_000_000_000_000) by (nonlinear_arith)
            requires
                -1_000_000_000_000_000_000 <= v <= 1_000_000_000_000_000_000,
                0 <= ratio.num <= 100_000_000_000_000,
        ;
    }
    let product: i128 = v as i128 * ratio.num;
    trunc_div(product, ratio.den) as i64
}

/// Lays the thumbnails out as a strip centered on the screen, scaled down to
/// fit.
pub fn compute_thumbnail_layouts(windows: &Vec<WindowData>, screen: Size, padding: i64) -> (r: Vec<
    ThumbnailLayout,
>)
    requires
        data_ok(windows@),
        screen.ok(),
        step_ok(padding),
    ensures
        r@ == thumbnail_layouts(windows@, screen, padding as int),
{
    let mut total: i64 = 0;
    let mut k: usize = 0;
    while k < windows.len()
        invariant
            k <= windows@.len(),
            data_ok(windows@),
            step_ok(padding),
            total == span(windows@, padding as int, k as int),
        decreases windows@.len() - k,
    {
        proof {
            lemma_span_bounds(windows@, padding as int, k as int);
            assert(width_ok(windows@[k as int].width));
        }
        total = total + (windows[k].width + padding);
        k = k + 1;
    }
    proof {
        lemma_span_bounds(windows@, padding as int, windows@.len() as int);
    }
    let strip: i64 = total - padding;
    let ratio: Ratio = reduction_ratio(screen.width, strip);
    let height: i64 = reduce(screen.height, ratio);
    let y: i64 = (abs_diff(screen.height, height) / 2) as i64;
    let mut row: i64 = 0;
    let mut m: usize = 0;
    while m < windows.len()
        invariant
            m <= windows@.len(),
            data_ok(windows@),
            step_ok(padding),
            ratio_ok(ratio),
            row == thumbnails_before(windows@, padding as int, ratio, m as int),
        decreases windows@.len() - m,
    {
        proof {
            lemma_thumbnails_bounds(windows@, padding as int, ratio, m as int);
            assert(width_ok(windows@[m as int].width));
        }
        row = row + (reduce(windows[m].width, ratio) + padding);
        m = m + 1;
    }
    proof {
        lemma_thumbnails_bounds(windows@, padding as int, ratio, windows@.len() as int);
    }
    let offset: i64 = floor_div(screen.width - (row - padding), 2);
    let mut out: Vec<ThumbnailLayout> = Vec::new();
    let mut at: i64 = 0;
    let mut i: usize = 0;
    while i < windows.len()
        invariant
            i <= windows@.len(),
            data_ok(windows@),
            step_ok(padding),
            screen.ok(),
            ratio_ok(ratio),
            strip == strip_width(windows@, padding as int),
            ratio == reduction(screen.width as int, strip as int),
            height == reduced(screen.height as int, ratio),
            y == magnitude(screen.height - height) / 2,
            offset == (screen.width - row_width(windows@, padding as int, ratio)) / 2,
            -1_000_000_000_000_000_000 <= offset <= 1_000_000_000_000_000_000,
            at == thumbnails_before(windows@, padding as int, ratio, i as int),
            out@.len() == i,
            forall|j: int|
                0 <= j < i ==> (#[trigger] out@[j]).rect == thumbnail_rect(
                    windows@,
                    screen,
                    padding as int,
                    j,
                ),
        decreases windows@.len() - i,
    {
        proof {
            lemma_thumbnails_bounds(windows@, padding as int, ratio, i as int);
            assert(width_ok(windows@[i as int].width));
        }
        let width: i64 = reduce(windows[i].width, ratio);
        out.push(ThumbnailLayout { rect: ThumbnailRect { x: at + offset, y, width, height } });
        at = at + (width + padding);
        i = i + 1;
    }
    proof {
        assert(out@ =~= thumbnail_layouts(windows@, screen, padding as int));
    }
    out
}

/// Neighbouring thumbnails are one gap apart, on one line, equally high.
pub proof fn law_thumbnails_stand_in_a_row(
    windows: Seq<WindowData>,
    screen: Size,
    padding: int,
    i: int,
)
    requires
        data_ok(windows),
        screen.ok(),
        -crate::geometry::STEP_MAX <= padding <= crate::geometry::STEP_MAX,
        0 <= i < windows.len() - 1,
    ensures
        ({
            let a = thumbnail_rect(windows, screen, padding, i);
            let b = thumbnail_rect(windows, screen, padding, i + 1);
            b.x == a.x + a.width + padding && b.y == a.y && b.height == a.height
        }),
{
    let strip = strip_width(windows, padding);
    lemma_span_bounds(windows, padding, windows.len() as int);
    let ratio = reduction(screen.width as int, strip);
    lemma_reduction_ok(screen.width as int, strip);
    lemma_thumbnails_bounds(windows, padding, ratio, i);
    lemma_thumbnails_bounds(windows, padding, ratio, i + 1);
    lemma_thumbnails_bounds(windows, padding, ratio, windows.len() as int);
    lemma_scaled(windows[i].width as int, ratio.num as int, ratio.den as int);
    assert(width_ok(windows[i].width));
}

/// The row of thumbnails is in the middle of the screen: as far from the left
/// edge as from the right, and from the top as from the bottom.
pub proof fn law_thumbnails_are_centered(windows: Seq<WindowData>, screen: Size, padding: int)
    requires
        data_ok(windows),
        screen.ok(),
        screen.height >= 0,
        -crate::geometry::STEP_MAX <= padding <= crate::geometry::STEP_MAX,
        windows.len() > 0,
    ensures
        ({
            let first = thumbnail_rect(windows, screen, padding, 0);
            let last = thumbnail_rect(windows, screen, padding, windows.len() - 1);
            &&& 0 <= screen.width - (last.x + last.width) - first.x <= 1
            &&& 0 <= screen.height - (first.y + first.height) - first.y <= 1
        }),
{
    let n = windows.len() as int;
    let strip = strip_width(windows, padding);
    lemma_span_bounds(windows, padding, n);
    let ratio = reduction(screen.width as int, strip);
    lemma_reduction_ok(screen.width as int, strip);
    lemma_thumbnails_bounds(windows, padding, ratio, n - 1);
    lemma_thumbnails_bounds(windows, padding, ratio, n);
    lemma_scaled(windows[n - 1].width as int, ratio.num as int, ratio.den as int);
    lemma_scaled(screen.height as int, ratio.num as int, ratio.den as int);
    assert(width_ok(windows[n - 1].width));
}

proof fn lemma_reduction_ok(screen: int, strip: int)
    requires
        -crate::geometry::SCREEN_MAX <= screen <= crate::geometry::SCREEN_MAX,
        -1_000_000_000_000_000_000 <= strip <= 1_000_000_000_000_000_000,
    ensures
        ratio_ok(reduction(screen, strip)),
{
}

/// The left edges of the windows next to each other, one gap between them.
pub open spec fn next_to_each_other(windows: Seq<WindowData>, padding: int, left: Seq<int>) -> bool {
    &&& left.len() == windows.len()
    &&& windows.len() > 0 ==> left[0] == 0
    &&& forall|k: int|
        0 < k < left.len() ==> #[trigger] left[k] == left[k - 1] + windows[k - 1].width + padding
}

proof fn lemma_span_is_edge(windows: Seq<WindowData>, padding: int, left: Seq<int>, k: int)
    requires
        next_to_each_other(windows, padding, left),
        0 <= k < windows.len(),
    ensures
        span(windows, padding, k) == left[k],
    decreases k,
{
    if k > 0 {
        lemma_span_is_edge(windows, padding, left, k - 1);
    }
}

/// A length times a fraction, rounded down.
proof fn lemma_reduced(v: int, ratio: Ratio)
    requires
        0 <= v,
        ratio_ok(ratio),
    ensures
        ratio.den * reduced(v, ratio) <= v * ratio.num < ratio.den * (reduced(v, ratio) + 1),
        0 <= reduced(v, ratio) <= v,
{
    lemma_scaled(v, ratio.num as int, ratio.den as int);
    let n = ratio.num as int;
    let d = ratio.den as int;
    assert(0 <= v * n) by (nonlinear_arith)
        requires
            0 <= v,
            0 <= n,
    ;
    vstd::arithmetic::div_mod::lemma_fundamental_div_mod(v * n, d);
    let q = v * n / d;
    assert(d * (q + 1) == d * q + d) by (nonlinear_arith);
}

/// `small` is `whole` scaled down, rounded down: to six tenths, or to what makes
/// a strip of width `strip` take up nine tenths of the screen, whichever is less.
pub open spec fn scaled_to_fit(small: int, whole: int, screen: int, strip: int) -> bool {
    &&& 0 <= small
    &&& 10 * small <= 6 * whole
    &&& 10 * (strip * small) <= 9 * (screen * whole)
    &&& 6 * whole < 10 * (small + 1) || 9 * (screen * whole) < 10 * (strip * (small + 1))
}

proof fn lemma_scaled_to_fit(v: int, screen: int, strip: int)
    requires
        0 <= v,
        0 < screen <= crate::geometry::SCREEN_MAX,
        0 < strip <= 1_000_000_000_000_000_000,
    ensures
        scaled_to_fit(reduced(v, reduction(screen, strip)), v, screen, strip),
{
    let ratio = reduction(screen, strip);
    lemma_reduction_ok(screen, strip);
    lemma_reduced(v, ratio);
    let r = reduced(v, ratio);
    if 3 * screen > 2 * strip {
        assert(10 * (strip * r) <= 9 * (screen * v)) by (nonlinear_arith)
            requires
                10 * r <= 6 * v,
                3 * screen > 2 * strip,
                0 <= v,
                0 <= r,
                0 < strip,
        ;
    } else {
        assert((10 * strip) * r == 10 * (strip * r)) by (nonlinear_arith);
        assert((10 * strip) * (r + 1) == 10 * (strip * (r + 1))) by (nonlinear_arith);
        assert(v * (9 * screen) == 9 * (screen * v)) by (nonlinear_arith);
        assert(10 * r <= 6 * v) by (nonlinear_arith)
            requires
                10 * (strip * r) <= 9 * (screen * v),
                3 * screen <= 2 * strip,
                0 < strip,
                0 <= v,
                0 <= r,
        ;
    }
}

/// All thumbnails are scaled down by the same share: to six tenths of the
/// windows, or to what makes the whole strip take up nine tenths of the screen,
/// whichever is less. Their height is that share of the height of the screen.
pub proof fn law_thumbnails_are_scaled_alike(
    windows: Seq<WindowData>,
    screen: Size,
    padding: int,
    left: Seq<int>,
    i: int,
)
    requires
        data_ok(windows),
        screen.ok(),
        screen.width > 0,
        screen.height >= 0,
        -crate::geometry::STEP_MAX <= padding <= crate::geometry::STEP_MAX,
        next_to_each_other(windows, padding, left),
        0 <= i < windows.len(),
        windows[i].width >= 0,
        left.last() + windows.last().width > 0,
    ensures
        ({
            let strip = left.last() + windows.last().width;
            let r = thumbnail_layouts(windows, screen, padding)[i].rect;
            &&& scaled_to_fit(r.width as int, windows[i].width as int, screen.width as int, strip)
            &&& scaled_to_fit(r.height as int, screen.height as int, screen.width as int, strip)
        }),
{
    let n = windows.len() as int;
    let strip = strip_width(windows, padding);
    lemma_span_is_edge(windows, padding, left, n - 1);
    lemma_span_bounds(windows, padding, n);
    let ratio = reduction(screen.width as int, strip);
    lemma_reduction_ok(screen.width as int, strip);
    assert(width_ok(windows[i].width));
    lemma_reduced(windows[i].width as int, ratio);
    lemma_reduced(screen.height as int, ratio);
    lemma_scaled_to_fit(windows[i].width as int, screen.width as int, strip);
    lemma_scaled_to_fit(screen.height as int, screen.width as int, strip);
}

proof fn lemma_row_shrinks(windows: Seq<WindowData>, padding: int, ratio: Ratio, upto: int)
    requires
        ratio_ok(ratio),
        0 <= upto <= windows.len(),
        forall|k: int| 0 <= k < windows.len() ==> (#[trigger] windows[k]).width >= 0,
    ensures
        0 <= thumbnails_before(windows, padding, ratio, upto) - upto * padding,
        0 <= span(windows, padding, upto) - upto * padding,
        ratio.den * (thumbnails_before(windows, padding, ratio, upto) - upto * padding) <= (span(
            windows,
            padding,
            upto,
        ) - upto * padding) * ratio.num,
    decreases upto,
{
    if upto > 0 {
        lemma_row_shrinks(windows, padding, ratio, upto - 1);
        let w = windows[upto - 1].width as int;
        lemma_reduced(w, ratio);
        let a = thumbnails_before(windows, padding, ratio, upto - 1) - (upto - 1) * padding;
        let b = span(windows, padding, upto - 1) - (upto - 1) * padding;
        let r = reduced(w, ratio);
        assert((upto - 1) * padding == upto * padding - padding) by (nonlinear_arith);
        assert(ratio.den * (a + r) <= (b + w) * ratio.num) by (nonlinear_arith)
            requires
                ratio.den * a <= b * ratio.num,
                ratio.den * r <= w * ratio.num,
        ;
    } else {
        assert(0 * padding == 0);
        assert(ratio.den * 0 <= 0 * ratio.num) by (nonlinear_arith);
    }
}

proof fn lemma_row_grows(windows: Seq<WindowData>, padding: int, ratio: Ratio, i: int, j: int)
    requires
        ratio_ok(ratio),
        0 <= padding,
        0 <= i <= j <= windows.len(),
        forall|k: int| 0 <= k < windows.len() ==> (#[trigger] windows[k]).width >= 0,
    ensures
        thumbnails_before(windows, padding, ratio, i) <= thumbnails_before(
            windows,
            padding,
            ratio,
            j,
        ),
    decreases j - i,
{
    if i < j {
        lemma_row_grows(windows, padding, ratio, i, j - 1);
        lemma_reduced(windows[j - 1].width as int, ratio);
    }
}

/// Without its gaps the row of thumbnails takes up no more than nine tenths of
/// the screen. So where the gaps fit into the rest, every thumbnail lies between
/// the left and the right edge of the screen.
pub proof fn law_thumbnails_fit_the_screen(
    windows: Seq<WindowData>,
    screen: Size,
    padding: int,
    i: int,
)
    requires
        data_ok(windows),
        screen.ok(),
        screen.width > 0,
        0 <= padding <= crate::geometry::STEP_MAX,
        forall|k: int| 0 <= k < windows.len() ==> (#[trigger] windows[k]).width >= 0,
        0 <= i < windows.len(),
    ensures
        ({
            let all = thumbnail_layouts(windows, screen, padding);
            let row = all.last().rect.x + all.last().rect.width - all[0].rect.x;
            let gaps = (windows.len() - 1) * padding;
            let r = all[i].rect;
            &&& 10 * (row - gaps) <= 9 * screen.width
            &&& 10 * gaps <= screen.width ==> 0 <= r.x && r.x + r.width <= screen.width
        }),
{
    let n = windows.len() as int;
    let strip = strip_width(windows, padding);
    let wide = screen.width as int;
    lemma_span_bounds(windows, padding, n);
    let ratio = reduction(wide, strip);
    let num = ratio.num as int;
    let den = ratio.den as int;
    lemma_row_shrinks(windows, padding, ratio, n);
    lemma_reduction_ok(wide, strip);
    lemma_row_shrinks(windows, padding, ratio, n - 1);
    lemma_thumbnails_bounds(windows, padding, ratio, n);
    lemma_thumbnails_bounds(windows, padding, ratio, n - 1);
    lemma_thumbnails_bounds(windows, padding, ratio, i);
    lemma_row_grows(windows, padding, ratio, 0, i);
    lemma_row_grows(windows, padding, ratio, i + 1, n);
    lemma_reduced(windows[i].width as int, ratio);
    lemma_reduced(windows[n - 1].width as int, ratio);
    assert(width_ok(windows[i].width) && width_ok(windows[n - 1].width));
    let gaps = (n - 1) * padding;
    assert(n * padding == gaps + padding) by (nonlinear_arith)
        requires
            gaps == (n - 1) * padding,
    ;
    assert(0 <= gaps) by (nonlinear_arith)
        requires
            gaps == (n - 1) * padding,
            0 <= padding,
            1 <= n,
    ;
    let small = thumbnails_before(windows, padding, ratio, n) - n * padding;
    let whole = span(windows, padding, n) - n * padding;
    assert(whole == strip - gaps);
    assert(10 * small <= 9 * wide) by {
        if 3 * wide > 2 * strip {
            assert(den == 10 && num == 6);
        } else {
            assert(den == 10 * strip && num == 9 * wide);
            assert(10 * small <= 9 * wide) by (nonlinear_arith)
                requires
                    (10 * strip) * small <= whole * (9 * wide),
                    whole <= strip,
                    0 < strip,
                    0 < wide,
                    0 <= whole,
            ;
        }
    }
}

} // verus!
