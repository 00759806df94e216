//! Buffers of four-byte pixels.
use vstd::prelude::*;

verus! {

/// Byte `i` lies in a whole pixel.
pub open spec fn in_pixel(len: int, i: int) -> bool {
    0 <= i < len - len % 4
}

/// The first and the third byte of every pixel change places.
pub open spec fn red_blue_swapped(b: Seq<u8>) -> Seq<u8> {
    Seq::new(
        b.len(),
        |i: int|
            if in_pixel(b.len() as int, i) && i % 4 == 0 {
                b[i + 2]
            } else if in_pixel(b.len() as int, i) && i % 4 == 2 {
                b[i - 2]
            } else {
                b[i]
            },
    )
}

/// Every pixel becomes fully opaque.
pub open spec fn opaque(b: Seq<u8>) -> Seq<u8> {
    Seq::new(
        b.len(),
        |i: int|
            if in_pixel(b.len() as int, i) && i % 4 == 3 {
                255
            } else {
                b[i]
            },
    )
}

/// Some pixel is not fully transparent.
pub open spec fn any_alpha(b: Seq<u8>) -> bool {
    exists|i: int| in_pixel(b.len() as int, i) && i % 4 == 3 && #[trigger] b[i] != 0
}

/// Turns BGRA into RGBA and back.
pub fn swap_red_blue(b: &mut Vec<u8>)
    ensures
        final(b)@ == red_blue_swapped(old(b)@),
{
    let ghost before = b@;
    let mut i: usize = 0;
    while b.len() - i >= 4
        invariant
            i <= b.len(),
            i % 4 == 0,
            b@.len() == before.len(),
            forall|k: int| 0 <= k < i ==> #[trigger] b@[k] == red_blue_swapped(before)[k],
            forall|k: int| i <= k < before.len() ==> #[trigger] b@[k] == before[k],
        decreases b.len() - i,
    {
        let first: u8 = b[i];
        let third: u8 = b[i + 2];
        b[i] = third;
        b[i + 2] = first;
        i = i + 4;
    }
    proof {
        assert(i == before.len() - before.len() % 4);
        assert(b@ =~= red_blue_swapped(before));
    }
}

pub fn make_opaque(b: &mut Vec<u8>)
    ensures
        final(b)@ == opaque(old(b)@),
{
    let ghost before = b@;
    let mut i: usize = 0;
    while b.len() - i >= 4
        invariant
            i <= b.len(),
            i % 4 == 0,
            b@.len() == before.len(),
            forall|k: int| 0 <= k < i ==> #[trigger] b@[k] == opaque(before)[k],
            forall|k: int| i <= k < before.len() ==> #[trigger] b@[k] == before[k],
        decreases b.len() - i,
    {
        b[i + 3] = 255;
        i = i + 4;
    }
    proof {
        assert(i == before.len() - before.len() % 4);
        assert(b@ =~= opaque(before));
    }
}

pub fn has_alpha(b: &Vec<u8>) -> (r: bool)
    ensures
        r == any_alpha(b@),
{
    let mut i: usize = 0;
    while b.len() - i >= 4
        invariant
            i <= b.len(),
            i % 4 == 0,
            forall|k: int| 0 <= k < i && k % 4 == 3 ==> #[trigger] b@[k] == 0,
        decreases b.len() - i,
    {
        if b[i + 3] != 0 {
            assert(in_pixel(b@.len() as int, i + 3) && (i + 3) % 4 == 3 && b@[i + 3] != 0);
            return true;
        }
        i = i + 4;
    }
    assert(i == b@.len() - b@.len() % 4);
    false
}

/// Swapping twice changes nothing.
pub proof fn law_swap_undoes_itself(b: Seq<u8>)
    ensures
        red_blue_swapped(red_blue_swapped(b)) =~= b,
{
}

/// Height of a thumbnail of the given width with the aspect ratio kept; at
/// least one row.
pub open spec fn thumbnail_height(src_w: int, src_h: int, dst_w: int) -> int {
    let h = src_h * dst_w / src_w;
    if h < 1 {
        1
    } else {
        h
    }
}

/// The source coordinate shown at `v`.
pub open spec fn nearest(v: int, src_w: int, dst_w: int, size: int) -> int {
    let c = v * src_w / dst_w;
    if c > size - 1 {
        size - 1
    } else {
        c
    }
}

/// Byte `k` of the thumbnail.
pub open spec fn sampled(src: Seq<u8>, src_w: int, src_h: int, dst_w: int, k: int) -> u8 {
    let x = nearest((k / 4) % dst_w, src_w, dst_w, src_w);
    let y = nearest((k / 4) / dst_w, src_w, dst_w, src_h);
    src[(y * src_w + x) * 4 + k % 4]
}

/// The thumbnail of a picture, every pixel taken from the nearest one.
pub open spec fn thumbnail(src: Seq<u8>, src_w: int, src_h: int, dst_w: int) -> Seq<u8> {
    Seq::new(
        (dst_w * thumbnail_height(src_w, src_h, dst_w) * 4) as nat,
        |k: int| sampled(src, src_w, src_h, dst_w, k),
    )
}

proof fn lemma_nearest(v: int, src_w: int, dst_w: int, size: int)
    requires
        0 <= v,
        0 < src_w,
        0 < dst_w,
        0 < size,
    ensures
        0 <= nearest(v, src_w, dst_w, size) < size,
{
    assert(v * src_w >= 0) by (nonlinear_arith)
        requires
            v >= 0,
            src_w > 0,
    ;
    vstd::arithmetic::div_mod::lemma_div_pos_is_pos(v * src_w, dst_w);
}

fn nearest_index(v: u32, src_w: u32, dst_w: u32, size: u32) -> (r: u32)
    requires
        0 < src_w,
        0 < dst_w,
        0 < size,
    ensures
        r == nearest(v as int, src_w as int, dst_w as int, size as int),
        r < size,
{
    proof {
        lemma_nearest(v as int, src_w as int, dst_w as int, size as int);
        assert(0 <= v * src_w <= 0xffff_ffff * 0xffff_ffff) by (nonlinear_arith)
            requires
                0 <= v <= 0xffff_ffff,
                0 <= src_w <= 0xffff_ffff,
        ;
    }
    let c: u64 = (v as u64 * src_w as u64) / (dst_w as u64);
    if c > (size - 1) as u64 {
        size - 1
    } else {
        c as u32
    }
}

proof fn lemma_pixel_in_range(x: int, y: int, w: int, h: int)
    requires
        0 <= x < w,
        0 <= y < h,
    ensures
        0 <= y * w,
        0 <= y * w + x < w * h,
        (y * w + x) * 4 + 4 <= w * h * 4,
{
    assert(y * w + w <= w * h && 0 <= y * w) by (nonlinear_arith)
        requires
            0 <= y < h,
            0 < w,
    ;
}

/// Nearest-neighbour thumbnail of an RGBA picture, and its height.
pub fn downsample_rgba_nearest(src: &Vec<u8>, src_w: u32, src_h: u32, dst_w: u32) -> (r: (
    Vec<u8>,
    u32,
))
    requires
        src_w > 0,
        src_h > 0,
        dst_w > 0,
        src@.len() == src_w * src_h * 4,
        thumbnail_height(src_w as int, src_h as int, dst_w as int) <= u32::MAX,
        dst_w * thumbnail_height(src_w as int, src_h as int, dst_w as int) * 4 <= usize::MAX,
    ensures
        r.0@ == thumbnail(src@, src_w as int, src_h as int, dst_w as int),
        r.1 == thumbnail_height(src_w as int, src_h as int, dst_w as int),
{
    proof {
        assert(0 <= src_h * dst_w <= 0xffff_ffff * 0xffff_ffff) by (nonlinear_arith)
            requires
                0 <= src_h <= 0xffff_ffff,
                0 <= dst_w <= 0xffff_ffff,
        ;
    }
    let scaled: u64 = (src_h as u64 * dst_w as u64) / (src_w as u64);
    let dst_h: u32 = if scaled < 1 {
        1
    } else {
        scaled as u32
    };
    let ghost goal = thumbnail(src@, src_w as int, src_h as int, dst_w as int);
    let mut dst: Vec<u8> = Vec::new();
    let mut y: u32 = 0;
    proof {
        assert(0 * dst_w * 4 == 0) by (nonlinear_arith);
    }
    while y < dst_h
        invariant
            y <= dst_h,
            src_w > 0,
            src_h > 0,
            dst_w > 0,
            src@.len() == src_w * src_h * 4,
            dst_h == thumbnail_height(src_w as int, src_h as int, dst_w as int),
            dst_w * dst_h * 4 <= usize::MAX,
            goal == thumbnail(src@, src_w as int, src_h as int, dst_w as int),
            dst@.len() == y * dst_w * 4,
            forall|k: int| 0 <= k < dst@.len() ==> #[trigger] dst@[k] == goal[k],
        decreases dst_h - y,
    {
        let src_y: u32 = nearest_index(y, src_w, dst_w, src_h);
        let mut x: u32 = 0;
        while x < dst_w
            invariant
                x <= dst_w,
                y < dst_h,
                src_w > 0,
                src_h > 0,
                dst_w > 0,
                src_y < src_h,
                src_y == nearest(y as int, src_w as int, dst_w as int, src_h as int),
                src@.len() == src_w * src_h * 4,
                dst_h == thumbnail_height(src_w as int, src_h as int, dst_w as int),
                dst_w * dst_h * 4 <= usize::MAX,
                goal == thumbnail(src@, src_w as int, src_h as int, dst_w as int),
                dst@.len() == (y * dst_w + x) * 4,
                forall|k: int| 0 <= k < dst@.len() ==> #[trigger] dst@[k] == goal[k],
            decreases dst_w - x,
        {
            let src_x: u32 = nearest_index(x, src_w, dst_w, src_w);
            proof {
                lemma_pixel_in_range(src_x as int, src_y as int, src_w as int, src_h as int);
                assert(src.len() == src_w * src_h * 4);
                lemma_pixel_in_range(x as int, y as int, dst_w as int, dst_h as int);
                let p = y * dst_w + x;
                vstd::arithmetic::div_mod::lemma_fundamental_div_mod_converse(
                    p,
                    dst_w as int,
                    y as int,
                    x as int,
                );
                assert(p == dst_w * y + x) by (nonlinear_arith)
                    requires
                        p == y * dst_w + x,
                ;
            }
            let ghost before = dst@;
            let ghost p = y * dst_w + x;
            let at: usize = (src_y as usize * src_w as usize + src_x as usize) * 4;
            dst.push(src[at]);
            dst.push(src[at + 1]);
            dst.push(src[at + 2]);
            dst.push(src[at + 3]);
            proof {
                assert forall|k: int| 0 <= k < dst@.len() implies #[trigger] dst@[k] == goal[k] by {
                    if k >= before.len() {
                        assert(k / 4 == p && k % 4 == k - p * 4);
                        vstd::arithmetic::div_mod::lemma_fundamental_div_mod_converse(
                            p,
                            dst_w as int,
                            y as int,
                            x as int,
                        );
                        assert(goal[k] == sampled(
                            src@,
                            src_w as int,
                            src_h as int,
                            dst_w as int,
                            k,
                        ));
                    } else {
                        assert(dst@[k] == before[k]);
                    }
                }
            }
            x = x + 1;
        }
        proof {
            assert((y * dst_w + dst_w) * 4 == (y + 1) * dst_w * 4) by (nonlinear_arith);
        }
        y = y + 1;
    }
    proof {
        assert(dst_h * dst_w * 4 == dst_w * dst_h * 4) by (nonlinear_arith);
        assert(dst@ =~= goal);
    }
    (dst, dst_h)
}

/// Changing red and blue leaves green and alpha alone, pixel by pixel.
pub proof fn law_red_and_blue_change_places(b: Seq<u8>, p: int)
    requires
        0 <= p,
        4 * p + 4 <= b.len(),
    ensures
        red_blue_swapped(b).len() == b.len(),
        red_blue_swapped(b)[4 * p] == b[4 * p + 2],
        red_blue_swapped(b)[4 * p + 1] == b[4 * p + 1],
        red_blue_swapped(b)[4 * p + 2] == b[4 * p],
        red_blue_swapped(b)[4 * p + 3] == b[4 * p + 3],
{
}

/// Making a picture opaque changes no color.
pub proof fn law_opaque_pixels_keep_their_colors(b: Seq<u8>, p: int)
    requires
        0 <= p,
        4 * p + 4 <= b.len(),
    ensures
        opaque(b).len() == b.len(),
        opaque(b)[4 * p] == b[4 * p],
        opaque(b)[4 * p + 1] == b[4 * p + 1],
        opaque(b)[4 * p + 2] == b[4 * p + 2],
        opaque(b)[4 * p + 3] == 255,
{
}

/// A thumbnail has the aspect ratio of its picture, as far as whole rows allow
/// it, and at least one row.
pub proof fn law_thumbnail_keeps_the_aspect_ratio(src_w: int, src_h: int, dst_w: int)
    requires
        0 < src_w,
        0 < src_h,
        0 < dst_w,
    ensures
        ({
            let h = thumbnail_height(src_w, src_h, dst_w);
            &&& 1 <= h
            &&& h * src_w <= src_h * dst_w || h == 1
            &&& src_h * dst_w < (h + 1) * src_w
        }),
{
    let n = src_h * dst_w;
    assert(0 < n) by (nonlinear_arith)
        requires
            n == src_h * dst_w,
            0 < src_h,
            0 < dst_w,
    ;
    vstd::arithmetic::div_mod::lemma_fundamental_div_mod(n, src_w);
    let q = n / src_w;
    assert(q * src_w == src_w * q) by (nonlinear_arith);
    assert((q + 1) * src_w == src_w * q + src_w) by (nonlinear_arith);
    assert(0 <= q) by {
        vstd::arithmetic::div_mod::lemma_div_pos_is_pos(n, src_w);
    }
    if q == 0 {
        assert(src_w * q == 0) by (nonlinear_arith)
            requires
                q == 0,
        ;
    }
}

/// Every pixel of a thumbnail is the pixel of the picture that lies there: the
/// one whose square, scaled down, the upper left corner of the thumbnail's pixel
/// falls into.
pub proof fn law_thumbnail_shows_the_picture(
    src: Seq<u8>,
    src_w: int,
    src_h: int,
    dst_w: int,
    x: int,
    y: int,
    c: int,
) -> (at: (int, int))
    requires
        0 < dst_w <= src_w,
        0 < src_h,
        src.len() == src_w * src_h * 4,
        0 <= x < dst_w,
        0 <= y < thumbnail_height(src_w, src_h, dst_w),
        0 <= c < 4,
    ensures
        0 <= at.0 < src_w,
        0 <= at.1 < src_h,
        at.0 * dst_w <= x * src_w < (at.0 + 1) * dst_w,
        at.1 * dst_w <= y * src_w < (at.1 + 1) * dst_w || y == 0,
        thumbnail(src, src_w, src_h, dst_w)[(y * dst_w + x) * 4 + c] == src[(at.1 * src_w + at.0)
            * 4 + c],
{
    let h = thumbnail_height(src_w, src_h, dst_w);
    let i = y * dst_w + x;
    let k = i * 4 + c;
    lemma_pixel_in_range(x, y, dst_w, h);
    law_thumbnail_keeps_the_aspect_ratio(src_w, src_h, dst_w);
    assert(k / 4 == i && k % 4 == c);
    assert(i / dst_w == y && i % dst_w == x) by {
        vstd::arithmetic::div_mod::lemma_fundamental_div_mod_converse(i, dst_w, y, x);
    }
    let sx = x * src_w / dst_w;
    let sy = y * src_w / dst_w;
    vstd::arithmetic::div_mod::lemma_fundamental_div_mod(x * src_w, dst_w);
    vstd::arithmetic::div_mod::lemma_fundamental_div_mod(y * src_w, dst_w);
    assert(sx * dst_w == dst_w * sx && (sx + 1) * dst_w == dst_w * sx + dst_w) by (nonlinear_arith);
    assert(sy * dst_w == dst_w * sy && (sy + 1) * dst_w == dst_w * sy + dst_w) by (nonlinear_arith);
    assert(sx < src_w) by (nonlinear_arith)
        requires
            sx * dst_w <= x * src_w,
            x < dst_w,
            0 < src_w,
            0 < dst_w,
    ;
    if y > 0 {
        assert(sy < src_h) by (nonlinear_arith)
            requires
                sy * dst_w <= y * src_w,
                y < h,
                h * src_w <= src_h * dst_w,
                0 < src_w,
                0 < dst_w,
        ;
    } else {
        assert(y * src_w == 0) by (nonlinear_arith)
            requires
                y == 0,
        ;
    }
    lemma_nearest(x, src_w, dst_w, src_w);
    lemma_nearest(y, src_w, dst_w, src_h);
    (sx, sy)
}

} // verus!
