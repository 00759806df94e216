//! Thumbnails in a grid, for monitors without a strip.
//!
//! The grid has as many columns as make its cells about square, and starts a
//! new row when one is full. Each thumbnail keeps the shape of its window, is
//! no larger than the window, and stands in the middle of its cell.
use vstd::prelude::*;

use crate::app::overview::thumbnail::{data_ok, ThumbnailLayout, ThumbnailRect, WindowData};
use crate::geometry::{step_ok, Size, SCREEN_MAX, STEP_MAX};
use crate::scroll_tiler::strip::MAX_WINDOWS;

verus! {

/// The first number of columns from `c` on with which `n` cells are about
/// square, and at most `n`.
pub open spec fn columns_from(c: int, n: int, screen: Size) -> int
    decreases n - c,
{
    if c >= n || c * c * screen.height >= n * screen.width {
        c
    } else {
        columns_from(c + 1, n, screen)
    }
}

pub open spec fn grid_columns(n: int, screen: Size) -> int {
    columns_from(1, n, screen)
}

/// How many rows `n` cells fill.
pub open spec fn grid_rows(n: int, columns: int) -> int {
    (n + columns - 1) / columns
}

/// The length of one of `count` cells, with gaps between them and around them.
pub open spec fn cell_length(whole: int, padding: int, count: int) -> int {
    let free = whole - padding * (count + 1);
    if free <= 0 {
        0
    } else {
        free / count
    }
}

pub open spec fn smaller(a: int, b: int) -> int {
    if a <= b {
        a
    } else {
        b
    }
}

/// Width and height of a `width` by `height` window made to fit into a cell, in
/// its own shape and no larger than it is.
pub open spec fn fitted(width: int, height: int, cell_width: int, cell_height: int) -> (int, int) {
    let w = smaller(cell_width, width);
    let h = smaller(cell_height, height);
    if w <= 0 || h <= 0 {
        (0, 0)
    } else if width * h >= height * w {
        (w, height * w / width)
    } else {
        (width * h / height, h)
    }
}

/// Where cell `k` of a row or a column starts.
pub open spec fn cell_start(k: int, length: int, padding: int) -> int {
    padding + k * (length + padding)
}

/// Thumbnail `i` of a grid.
pub open spec fn grid_rect(
    windows: Seq<WindowData>,
    screen: Size,
    padding: int,
    i: int,
) -> ThumbnailRect {
    let n = windows.len() as int;
    let columns = grid_columns(n, screen);
    let cell_width = cell_length(screen.width as int, padding, columns);
    let cell_height = cell_length(screen.height as int, padding, grid_rows(n, columns));
    let (width, height) = fitted(
        windows[i].width as int,
        windows[i].height as int,
        cell_width,
        cell_height,
    );
    ThumbnailRect {
        x: (cell_start(i % columns, cell_width, padding) + (cell_width - width) / 2) as i64,
        y: (cell_start(i / columns, cell_height, padding) + (cell_height - height) / 2) as i64,
        width: width as i64,
        height: height as i64,
    }
}

pub open spec fn grid_layouts(windows: Seq<WindowData>, screen: Size, padding: int) -> Seq<
    ThumbnailLayout,
> {
    Seq::new(
        windows.len(),
        |i: int| ThumbnailLayout { rect: grid_rect(windows, screen, padding, i) },
    )
}

proof fn lemma_columns(c: int, n: int, screen: Size)
    requires
        1 <= c,
        c <= n || c == 1,
    ensures
        c <= columns_from(c, n, screen),
        columns_from(c, n, screen) <= n || columns_from(c, n, screen) == 1,
    decreases n - c,
{
    if !(c >= n || c * c * screen.height >= n * screen.width) {
        lemma_columns(c + 1, n, screen);
    }
}

/// The cells of `n` thumbnails, `i` among them, lie in the rows and columns.
proof fn lemma_cells(n: int, columns: int, i: int)
    requires
        1 <= columns,
        columns <= n || columns == 1,
        0 <= i < n,
    ensures
        0 <= i % columns < columns,
        0 <= i / columns < grid_rows(n, columns),
        1 <= grid_rows(n, columns) <= n,
        i == columns * (i / columns) + i % columns,
{
    let rows = grid_rows(n, columns);
    let m = n + columns - 1;
    vstd::arithmetic::div_mod::lemma_fundamental_div_mod(i, columns);
    vstd::arithmetic::div_mod::lemma_fundamental_div_mod(m, columns);
    assert(0 <= i / columns < rows && 1 <= rows <= n) by (nonlinear_arith)
        requires
            1 <= columns,
            0 <= i < n,
            m == n + columns - 1,
            i == columns * (i / columns) + i % columns,
            0 <= i % columns < columns,
            m == columns * rows + m % columns,
            0 <= m % columns < columns,
            rows == m / columns,
    ;
}

proof fn lemma_cell_length(whole: int, padding: int, count: int)
    requires
        1 <= count,
    ensures
        0 <= cell_length(whole, padding, count),
        whole >= padding * (count + 1) ==> count * cell_length(whole, padding, count) + padding * (
        count + 1) <= whole,
        cell_length(whole, padding, count) > 0 ==> cell_length(whole, padding, count) <= whole
            - padding * (count + 1),
{
    let free = whole - padding * (count + 1);
    if free > 0 {
        vstd::arithmetic::div_mod::lemma_fundamental_div_mod(free, count);
        assert(0 <= free / count && count * (free / count) <= free && free / count <= free)
            by (nonlinear_arith)
            requires
                free > 0,
                1 <= count,
                free == count * (free / count) + free % count,
                0 <= free % count < count,
        ;
    } else {
        assert(count * 0 == 0) by (nonlinear_arith);
    }
}

/// A thumbnail is no larger than its cell and than its window, and has the shape
/// of its window but for the rounding of one of its sides.
pub proof fn law_thumbnail_keeps_its_shape(
    width: int,
    height: int,
    cell_width: int,
    cell_height: int,
)
    requires
        0 <= cell_width,
        0 <= cell_height,
    ensures
        ({
            let (w, h) = fitted(width, height, cell_width, cell_height);
            &&& 0 <= w <= cell_width
            &&& 0 <= h <= cell_height
            &&& 0 <= width && 0 <= height ==> w <= width && h <= height
            &&& w > 0 || h > 0 ==> -height < w * height - h * width < width
        }),
{
    let w = smaller(cell_width, width);
    let h = smaller(cell_height, height);
    if w > 0 && h > 0 {
        if width * h >= height * w {
            lemma_share(height, w, width, h);
        } else {
            lemma_share(width, h, height, w);
        }
    }
}

/// `a * b / c` lies between zero and `most`, and `c` times it is about `a * b`.
proof fn lemma_share(a: int, b: int, c: int, most: int)
    requires
        0 < a,
        0 < b,
        0 < c,
        a * b <= c * most,
    ensures
        0 <= a * b / c <= most,
        0 <= b * a - (a * b / c) * c < c,
{
    let q = a * b / c;
    assert(0 < a * b) by (nonlinear_arith)
        requires
            0 < a,
            0 < b,
    ;
    vstd::arithmetic::div_mod::lemma_fundamental_div_mod(a * b, c);
    assert(0 <= q <= most && 0 <= b * a - q * c < c) by (nonlinear_arith)
        requires
            0 < c,
            0 < a * b <= c * most,
            a * b == c * q + (a * b) % c,
            0 <= (a * b) % c < c,
    ;
}

proof fn lemma_start_bounds(k: int, count: int, whole: int, padding: int)
    requires
        0 <= k < count <= MAX_WINDOWS,
        -SCREEN_MAX <= whole <= SCREEN_MAX,
        -STEP_MAX <= padding <= STEP_MAX,
    ensures
        ({
            let length = cell_length(whole, padding, count);
            &&& 0 <= length <= 20_000_000_000_000_000
            &&& -20_000_000_000_000_000 <= k * (length + padding) <= 20_000_000_000_000_000
        }),
{
    let length = cell_length(whole, padding, count);
    lemma_cell_length(whole, padding, count);
    assert(-274_877_906_944 * 65_537 <= padding * (count + 1) <= 274_877_906_944 * 65_537)
        by (nonlinear_arith)
        requires
            -274_877_906_944 <= padding <= 274_877_906_944,
            1 <= count <= 65_536,
    ;
    assert(-20_000_000_000_000_000 <= k * (length + padding)) by (nonlinear_arith)
        requires
            0 <= k < 65_536,
            0 <= length,
            -274_877_906_944 <= padding,
    ;
    if length == 0 {
        assert(k * (length + padding) <= 20_000_000_000_000_000) by (nonlinear_arith)
            requires
                0 <= k < 65_536,
                length == 0,
                padding <= 274_877_906_944,
        ;
    } else {
        assert(k * (length + padding) <= 20_000_000_000_000_000) by (nonlinear_arith)
            requires
                0 <= k < count,
                count * length + padding * (count + 1) <= whole,
                whole <= 4_398_046_511_104,
                -274_877_906_944 <= padding <= 274_877_906_944,
        ;
    }
}

fn count_columns(n: i64, screen: Size) -> (r: i64)
    requires
        0 <= n <= MAX_WINDOWS,
        screen.ok(),
    ensures
        r == grid_columns(n as int, screen),
        1 <= r,
        r <= n || r == 1,
{
    let mut c: i64 = 1;
    proof {
        lemma_columns(1, n as int, screen);
    }
    loop
        invariant
            1 <= c,
            c <= n || c == 1,
            0 <= n <= MAX_WINDOWS,
            screen.ok(),
            columns_from(c as int, n as int, screen) == grid_columns(n as int, screen),
        ensures
            c == grid_columns(n as int, screen),
            1 <= c,
            c <= n || c == 1,
        decreases n - c,
    {
        if c >= n {
            break;
        }
        assert(0 <= c * c <= 4_294_967_296) by (nonlinear_arith)
            requires
                1 <= c < 65_536,
        ;
        let square: i64 = c * c;
        assert(-100_000_000_000_000_000_000_000 <= square * screen.height
            <= 100_000_000_000_000_000_000_000) by (nonlinear_arith)
            requires
                0 <= square <= 4_294_967_296,
                -4_398_046_511_104 <= screen.height <= 4_398_046_511_104,
        ;
        assert(-100_000_000_000_000_000_000_000 <= n * screen.width
            <= 100_000_000_000_000_000_000_000) by (nonlinear_arith)
            requires
                0 <= n <= 65_536,
                -4_398_046_511_104 <= screen.width <= 4_398_046_511_104,
        ;
        if square as i128 * screen.height as i128 >= n as i128 * screen.width as i128 {
            break;
        }
        c = c + 1;
    }
    c
}

fn measure_cell(whole: i64, padding: i64, count: i64) -> (r: i64)
    requires
        -SCREEN_MAX <= whole <= SCREEN_MAX,
        step_ok(padding),
        1 <= count <= MAX_WINDOWS,
    ensures
        r == cell_length(whole as int, padding as int, count as int),
        0 <= r,
{
    assert(-274_877_906_944 * 65_537 <= padding * (count + 1) <= 274_877_906_944 * 65_537)
        by (nonlinear_arith)
        requires
            -274_877_906_944 <= padding <= 274_877_906_944,
            1 <= count <= 65_536,
    ;
    proof {
        lemma_cell_length(whole as int, padding as int, count as int);
    }
    let free: i64 = whole - padding * (count + 1);
    if free <= 0 {
        0
    } else {
        free / count
    }
}

fn fit(width: i64, height: i64, cell_width: i64, cell_height: i64) -> (r: (i64, i64))
    requires
        0 <= cell_width,
        0 <= cell_height,
    ensures
        (r.0 as int, r.1 as int) == fitted(
            width as int,
            height as int,
            cell_width as int,
            cell_height as int,
        ),
        0 <= r.0 <= cell_width,
        0 <= r.1 <= cell_height,
{
    proof {
        law_thumbnail_keeps_its_shape(
            width as int,
            height as int,
            cell_width as int,
            cell_height as int,
        );
    }
    let w: i64 = if cell_width <= width {
        cell_width
    } else {
        width
    };
    let h: i64 = if cell_height <= height {
        cell_height
    } else {
        height
    };
    if w <= 0 || h <= 0 {
        return (0, 0);
    }
    assert(0 <= width * h <= i64::MAX * i64::MAX && 0 <= height * w <= i64::MAX * i64::MAX)
        by (nonlinear_arith)
        requires
            0 <= width <= i64::MAX,
            0 <= height <= i64::MAX,
            0 <= w <= i64::MAX,
            0 <= h <= i64::MAX,
    ;
    let across: i128 = width as i128 * h as i128;
    let down: i128 = height as i128 * w as i128;
    if across >= down {
        (w, (down / width as i128) as i64)
    } else {
        ((across / height as i128) as i64, h)
    }
}

/// Lays the thumbnails out as a grid on the screen.
pub fn compute_grid_layout(windows: &Vec<WindowData>, screen: Size, padding: i64) -> (r: Vec<
    ThumbnailLayout,
>)
    requires
        data_ok(windows@),
        screen.ok(),
        step_ok(padding),
    ensures
        r@ == grid_layouts(windows@, screen, padding as int),
{
    let n: i64 = windows.len() as i64;
    let columns: i64 = count_columns(n, screen);
    let rows: i64 = (n + columns - 1) / columns;
    let mut out: Vec<ThumbnailLayout> = Vec::new();
    if n == 0 {
        assert(out@ =~= grid_layouts(windows@, screen, padding as int));
        return out;
    }
    proof {
        lemma_cells(n as int, columns as int, 0);
    }
    let cell_width: i64 = measure_cell(screen.width, padding, columns);
    let cell_height: i64 = measure_cell(screen.height, padding, rows);
    let mut i: usize = 0;
    while i < windows.len()
        invariant
            i <= windows@.len(),
            n == windows@.len(),
            n <= MAX_WINDOWS,
            step_ok(padding),
            1 <= columns,
            columns <= n || columns == 1,
            columns == grid_columns(n as int, screen),
            rows == grid_rows(n as int, columns as int),
            cell_width == cell_length(screen.width as int, padding as int, columns as int),
            cell_height == cell_length(screen.height as int, padding as int, rows as int),
            0 <= cell_width,
            0 <= cell_height,
            screen.ok(),
            out@.len() == i,
            forall|j: int|
                0 <= j < i ==> (#[trigger] out@[j]).rect == grid_rect(
                    windows@,
                    screen,
                    padding as int,
                    j,
                ),
        decreases windows@.len() - i,
    {
        let at: i64 = i as i64;
        proof {
            lemma_cells(n as int, columns as int, i as int);
            lemma_start_bounds(
                i as int % columns as int,
                columns as int,
                screen.width as int,
                padding as int,
            );
            lemma_start_bounds(
                i as int / columns as int,
                rows as int,
                screen.height as int,
                padding as int,
            );
        }
        let column: i64 = at % columns;
        let row: i64 = at / columns;
        let (width, height): (i64, i64) = fit(
            windows[i].width,
            windows[i].height,
            cell_width,
            cell_height,
        );
        let x: i64 = padding + column * (cell_width + padding) + (cell_width - width) / 2;
        let y: i64 = padding + row * (cell_height + padding) + (cell_height - height) / 2;
        out.push(ThumbnailLayout { rect: ThumbnailRect { x, y, width, height } });
        i = i + 1;
    }
    proof {
        assert(out@ =~= grid_layouts(windows@, screen, padding as int));
    }
    out
}

/// Where a cell of the grid lies.
proof fn lemma_in_cell(windows: Seq<WindowData>, screen: Size, padding: int, i: int)
    requires
        data_ok(windows),
        screen.ok(),
        0 <= padding <= STEP_MAX,
        0 <= i < windows.len(),
    ensures
        ({
            let columns = grid_columns(windows.len() as int, screen);
            let rows = grid_rows(windows.len() as int, columns);
            let cell_width = cell_length(screen.width as int, padding, columns);
            let cell_height = cell_length(screen.height as int, padding, rows);
            let r = grid_rect(windows, screen, padding, i);
            let left = cell_start(i % columns, cell_width, padding);
            let top = cell_start(i / columns, cell_height, padding);
            &&& 0 <= cell_width
            &&& 0 <= cell_height
            &&& 0 <= i % columns < columns
            &&& 0 <= i / columns < rows
            &&& i == columns * (i / columns) + i % columns
            &&& left <= r.x
            &&& r.x + r.width <= left + cell_width
            &&& top <= r.y
            &&& r.y + r.height <= top + cell_height
        }),
{
    let n = windows.len() as int;
    lemma_columns(1, n, screen);
    let columns = grid_columns(n, screen);
    let rows = grid_rows(n, columns);
    lemma_cells(n, columns, i);
    lemma_start_bounds(i % columns, columns, screen.width as int, padding);
    lemma_start_bounds(i / columns, rows, screen.height as int, padding);
    law_thumbnail_keeps_its_shape(
        windows[i].width as int,
        windows[i].height as int,
        cell_length(screen.width as int, padding, columns),
        cell_length(screen.height as int, padding, rows),
    );
}

/// No two thumbnails of a grid overlap.
pub proof fn law_grid_thumbnails_do_not_overlap(
    windows: Seq<WindowData>,
    screen: Size,
    padding: int,
    i: int,
    j: int,
)
    requires
        data_ok(windows),
        screen.ok(),
        0 <= padding <= STEP_MAX,
        0 <= i < windows.len(),
        0 <= j < windows.len(),
        i != j,
    ensures
        ({
            let a = grid_rect(windows, screen, padding, i);
            let b = grid_rect(windows, screen, padding, j);
            ||| a.x + a.width <= b.x
            ||| b.x + b.width <= a.x
            ||| a.y + a.height <= b.y
            ||| b.y + b.height <= a.y
        }),
{
    let columns = grid_columns(windows.len() as int, screen);
    let rows = grid_rows(windows.len() as int, columns);
    let cell_width = cell_length(screen.width as int, padding, columns);
    let cell_height = cell_length(screen.height as int, padding, rows);
    lemma_in_cell(windows, screen, padding, i);
    lemma_in_cell(windows, screen, padding, j);
    lemma_apart(i % columns, j % columns, cell_width, padding);
    lemma_apart(j % columns, i % columns, cell_width, padding);
    lemma_apart(i / columns, j / columns, cell_height, padding);
    lemma_apart(j / columns, i / columns, cell_height, padding);
}

proof fn lemma_apart(a: int, b: int, length: int, padding: int)
    requires
        0 <= length,
        0 <= padding,
    ensures
        a < b ==> cell_start(a, length, padding) + length <= cell_start(b, length, padding),
{
    if a < b {
        assert((a + 1) * (length + padding) <= b * (length + padding)) by (nonlinear_arith)
            requires
                a + 1 <= b,
                0 <= length + padding,
        ;
        assert((a + 1) * (length + padding) == a * (length + padding) + (length + padding))
            by (nonlinear_arith);
    }
}

/// Where the screen has room for the gaps, every thumbnail of a grid lies on the
/// screen, at least one gap from its edges.
pub proof fn law_grid_stays_on_the_screen(
    windows: Seq<WindowData>,
    screen: Size,
    padding: int,
    i: int,
)
    requires
        data_ok(windows),
        screen.ok(),
        0 <= padding <= STEP_MAX,
        0 <= i < windows.len(),
        padding * (grid_columns(windows.len() as int, screen) + 1) <= screen.width,
        padding * (grid_rows(
            windows.len() as int,
            grid_columns(windows.len() as int, screen),
        ) + 1) <= screen.height,
    ensures
        ({
            let r = grid_rect(windows, screen, padding, i);
            &&& padding <= r.x
            &&& r.x + r.width <= screen.width - padding
            &&& padding <= r.y
            &&& r.y + r.height <= screen.height - padding
        }),
{
    let columns = grid_columns(windows.len() as int, screen);
    let rows = grid_rows(windows.len() as int, columns);
    lemma_in_cell(windows, screen, padding, i);
    lemma_inside(i % columns, columns, screen.width as int, padding);
    lemma_inside(i / columns, rows, screen.height as int, padding);
}

proof fn lemma_inside(k: int, count: int, whole: int, padding: int)
    requires
        0 <= k < count,
        0 <= padding,
        padding * (count + 1) <= whole,
    ensures
        ({
            let length = cell_length(whole, padding, count);
            let start = cell_start(k, length, padding);
            padding <= start && start + length <= whole - padding
        }),
{
    let length = cell_length(whole, padding, count);
    lemma_cell_length(whole, padding, count);
    assert(0 <= k * (length + padding) && padding + k * (length + padding) + length <= whole
        - padding) by (nonlinear_arith)
        requires
            0 <= k < count,
            0 <= padding,
            0 <= length,
            count * length + padding * (count + 1) <= whole,
    ;
}

/// A thumbnail is as large as its cell and its window allow: it fills one of
/// them in one direction.
pub proof fn law_thumbnail_is_as_large_as_fits(
    width: int,
    height: int,
    cell_width: int,
    cell_height: int,
)
    requires
        0 < width,
        0 < height,
        0 < cell_width,
        0 < cell_height,
    ensures
        ({
            let (w, h) = fitted(width, height, cell_width, cell_height);
            w == cell_width || h == cell_height || w == width || h == height
        }),
{
}

/// A grid has the fewest columns with which its cells are no wider than the
/// screen is, in proportion, but no more columns than cells.
pub proof fn law_grid_is_about_as_wide_as_high(n: int, screen: Size, fewer: int)
    requires
        1 <= n,
        1 <= fewer < grid_columns(n, screen),
    ensures
        ({
            let c = grid_columns(n, screen);
            &&& 1 <= c <= n
            &&& c == n || c * c * screen.height >= n * screen.width
            &&& fewer * fewer * screen.height < n * screen.width
        }),
{
    lemma_columns(1, n, screen);
    lemma_fewest(1, n, screen, fewer);
}

proof fn lemma_fewest(c: int, n: int, screen: Size, fewer: int)
    requires
        1 <= c <= n,
    ensures
        ({
            let r = columns_from(c, n, screen);
            &&& r == n || r * r * screen.height >= n * screen.width
            &&& c <= fewer < r ==> fewer * fewer * screen.height < n * screen.width
        }),
    decreases n - c,
{
    if !(c >= n || c * c * screen.height >= n * screen.width) {
        lemma_fewest(c + 1, n, screen, fewer);
    }
}

/// A thumbnail is in the middle of its cell: as far from one edge as from the
/// other. The cells of a row lie next to each other in the order of the windows,
/// one gap apart, and so do the rows.
pub proof fn law_thumbnails_are_in_the_middle_of_their_cells(
    windows: Seq<WindowData>,
    screen: Size,
    padding: int,
    i: int,
)
    requires
        data_ok(windows),
        screen.ok(),
        0 <= padding <= STEP_MAX,
        0 <= i < windows.len(),
    ensures
        ({
            let columns = grid_columns(windows.len() as int, screen);
            let rows = grid_rows(windows.len() as int, columns);
            let wide = cell_length(screen.width as int, padding, columns);
            let high = cell_length(screen.height as int, padding, rows);
            let r = grid_rect(windows, screen, padding, i);
            let left = padding + (i % columns) * (wide + padding);
            let top = padding + (i / columns) * (high + padding);
            &&& 0 <= (left + wide - (r.x + r.width)) - (r.x - left) <= 1
            &&& 0 <= (top + high - (r.y + r.height)) - (r.y - top) <= 1
        }),
{
    lemma_in_cell(windows, screen, padding, i);
    let columns = grid_columns(windows.len() as int, screen);
    let rows = grid_rows(windows.len() as int, columns);
    lemma_columns(1, windows.len() as int, screen);
    lemma_cells(windows.len() as int, columns, i);
    lemma_start_bounds(i % columns, columns, screen.width as int, padding);
    lemma_start_bounds(i / columns, rows, screen.height as int, padding);
    let wide = cell_length(screen.width as int, padding, columns);
    let high = cell_length(screen.height as int, padding, rows);
    law_thumbnail_keeps_its_shape(
        windows[i].width as int,
        windows[i].height as int,
        wide,
        high,
    );
}

} // verus!
