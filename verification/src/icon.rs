//! The icon of a window as RGBA pixels.
use vstd::prelude::*;

use crate::pixels::{
    any_alpha, has_alpha, make_opaque, opaque, red_blue_swapped, swap_red_blue,
};

verus! {

/// Somewhere the icon of a window can be had from.
#[derive(Debug, Clone, Copy, PartialEq, Eq, Structural)]
pub enum IconSource {
    /// Reply to the icon message for icons of this kind.
    Message { kind: usize },
    /// Entry of the window class at this index.
    Class { index: i32 },
}

pub const ICON_SMALL: usize = 0;

pub const ICON_BIG: usize = 1;

pub const ICON_SMALL2: usize = 2;

pub const GCLP_HICONSM: i32 = -34;

pub const GCLP_HICON: i32 = -14;

/// The sources, best first.
pub open spec fn icon_sources() -> Seq<IconSource> {
    seq![
        IconSource::Message { kind: ICON_SMALL2 },
        IconSource::Message { kind: ICON_SMALL },
        IconSource::Message { kind: ICON_BIG },
        IconSource::Class { index: GCLP_HICONSM },
        IconSource::Class { index: GCLP_HICON },
    ]
}

/// The source to ask after `asked` of them had no icon.
pub fn next_icon_source(asked: usize) -> (r: Option<IconSource>)
    ensures
        r == (if asked < icon_sources().len() {
            Some(icon_sources()[asked as int])
        } else {
            None
        }),
{
    if asked == 0 {
        Some(IconSource::Message { kind: ICON_SMALL2 })
    } else if asked == 1 {
        Some(IconSource::Message { kind: ICON_SMALL })
    } else if asked == 2 {
        Some(IconSource::Message { kind: ICON_BIG })
    } else if asked == 3 {
        Some(IconSource::Class { index: GCLP_HICONSM })
    } else if asked == 4 {
        Some(IconSource::Class { index: GCLP_HICON })
    } else {
        None
    }
}

/// What to do after the reply of one source.
#[derive(Debug, Clone, Copy, PartialEq, Eq, Structural)]
pub enum IconStep {
    /// The handle of the icon.
    Found { hicon: u64 },
    /// Ask this source next.
    Ask { source: IconSource },
    /// The window has no icon.
    Nothing,
}

/// Takes the reply of the source numbered `asked`; zero means no icon.
pub fn fetch_hicon_step(asked: usize, reply: u64) -> (r: IconStep)
    ensures
        r == (if reply != 0 {
            IconStep::Found { hicon: reply }
        } else if asked + 1 < icon_sources().len() {
            IconStep::Ask { source: icon_sources()[asked + 1] }
        } else {
            IconStep::Nothing
        }),
{
    if reply != 0 {
        return IconStep::Found { hicon: reply };
    }
    if asked >= 5 {
        return IconStep::Nothing;
    }
    match next_icon_source(asked + 1) {
        Some(source) => IconStep::Ask { source },
        None => IconStep::Nothing,
    }
}

/// The colour bitmap of an icon, as it was read.
#[derive(Debug)]
pub struct IconBitmap {
    pub width: i32,
    pub height: i32,
    /// Rows from the top; `None` where they could not be read.
    pub bgra: Option<Vec<u8>>,
}

#[derive(Debug)]
pub struct IconPixels {
    pub width: u32,
    pub height: u32,
    pub rgba: Vec<u8>,
}

/// Old icons have no alpha channel: where every pixel looks transparent, all
/// are opaque.
pub open spec fn icon_rgba(bgra: Seq<u8>) -> Seq<u8> {
    let rgba = red_blue_swapped(bgra);
    if any_alpha(rgba) {
        rgba
    } else {
        opaque(rgba)
    }
}

/// The pixels of an icon; `None` for an empty or unreadable bitmap.
pub fn hicon_to_rgba(bitmap: IconBitmap) -> (r: Option<IconPixels>)
    ensures
        match r {
            Some(p) => bitmap.width > 0 && bitmap.height > 0 && bitmap.bgra is Some && p.width
                == bitmap.width && p.height == bitmap.height && p.rgba@ == icon_rgba(
                bitmap.bgra->0@,
            ),
            None => bitmap.width <= 0 || bitmap.height <= 0 || bitmap.bgra is None,
        },
{
    if bitmap.width <= 0 || bitmap.height <= 0 {
        return None;
    }
    match bitmap.bgra {
        None => None,
        Some(bgra) => {
            let mut rgba: Vec<u8> = bgra;
            swap_red_blue(&mut rgba);
            if !has_alpha(&rgba) {
                make_opaque(&mut rgba);
            }
            Some(IconPixels { width: bitmap.width as u32, height: bitmap.height as u32, rgba })
        },
    }
}

/// The icon of a window whose bitmap has been read; `None` where it has none.
pub fn fetch_icon_rgba(bitmap: Option<IconBitmap>) -> (r: Option<IconPixels>)
    ensures
        match (bitmap, r) {
            (Some(b), Some(p)) => b.width > 0 && b.height > 0 && b.bgra is Some && p.width
                == b.width && p.height == b.height && p.rgba@ == icon_rgba(b.bgra->0@),
            (Some(b), None) => b.width <= 0 || b.height <= 0 || b.bgra is None,
            (None, r) => r is None,
        },
{
    match bitmap {
        Some(b) => hicon_to_rgba(b),
        None => None,
    }
}

/// The colors of an icon come out with red and blue in their places. Its alpha
/// channel is kept where it says anything; where it makes every pixel vanish,
/// every pixel becomes opaque.
pub proof fn law_icons_can_be_seen(bgra: Seq<u8>, p: int)
    requires
        0 <= p,
        4 * p + 4 <= bgra.len(),
        bgra.len() % 4 == 0,
    ensures
        ({
            let r = icon_rgba(bgra);
            let blank = forall|i: int| 0 <= i < bgra.len() && i % 4 == 3 ==> #[trigger] bgra[i] == 0;
            &&& r.len() == bgra.len()
            &&& r[4 * p] == bgra[4 * p + 2]
            &&& r[4 * p + 1] == bgra[4 * p + 1]
            &&& r[4 * p + 2] == bgra[4 * p]
            &&& blank ==> r[4 * p + 3] == 255
            &&& !blank ==> r[4 * p + 3] == bgra[4 * p + 3]
        }),
{
    let rgba = red_blue_swapped(bgra);
    if any_alpha(rgba) {
        let i = choose|i: int|
            crate::pixels::in_pixel(rgba.len() as int, i) && i % 4 == 3 && #[trigger] rgba[i] != 0;
        assert(bgra[i] != 0);
    } else {
        assert forall|i: int| 0 <= i < bgra.len() && i % 4 == 3 implies #[trigger] bgra[i] == 0 by {
            assert(crate::pixels::in_pixel(rgba.len() as int, i));
            assert(rgba[i] == bgra[i]);
        }
    }
}

} // verus!
