//! The icon in the notification area and its menu.
use vstd::prelude::*;

use crate::app::action::{Action, TilerAction};

verus! {

/// Width and height of the icon.
pub const TRAY_ICON_SIZE: u32 = 16;

/// Whether the pixel belongs to the band that stands for the strip.
pub open spec fn in_band(x: int, y: int) -> bool {
    6 <= y <= 9 && 2 <= x <= 13
}

/// Byte `k` of the icon: a blue band on nothing.
pub open spec fn icon_byte(k: int) -> u8 {
    if !in_band((k / 4) % 16, (k / 4) / 16) {
        0
    } else if k % 4 == 0 {
        76
    } else if k % 4 == 1 {
        198
    } else {
        255
    }
}

/// The icon as RGBA pixels.
pub fn build_icon() -> (r: Vec<u8>)
    ensures
        r@ == Seq::new(1024, |k: int| icon_byte(k)),
{
    let mut rgba: Vec<u8> = Vec::new();
    let mut p: u32 = 0;
    while p < 256
        invariant
            p <= 256,
            rgba@.len() == p * 4,
            forall|k: int| 0 <= k < p * 4 ==> #[trigger] rgba@[k] == icon_byte(k),
        decreases 256 - p,
    {
        let x: u32 = p % 16;
        let y: u32 = p / 16;
        let band: bool = y >= 6 && y <= 9 && x >= 2 && x <= 13;
        if band {
            rgba.push(76);
            rgba.push(198);
            rgba.push(255);
            rgba.push(255);
        } else {
            rgba.push(0);
            rgba.push(0);
            rgba.push(0);
            rgba.push(0);
        }
        p = p + 1;
    }
    proof {
        assert(rgba@ =~= Seq::new(1024, |k: int| icon_byte(k)));
    }
    rgba
}

/// The entries of the menu, from the top.
#[derive(Debug, Clone, Copy, PartialEq, Eq, Structural)]
pub enum MenuEntry {
    Settings,
    Overview,
    Center,
    Quit,
}

/// What choosing an entry asks for.
pub fn menu_action(entry: MenuEntry) -> (r: Action)
    ensures
        r == (match entry {
            MenuEntry::Settings => Action::OpenSettings,
            MenuEntry::Overview => Action::Tiler(TilerAction::OpenOverview),
            MenuEntry::Center => Action::Tiler(TilerAction::CenterFocused),
            MenuEntry::Quit => Action::Exit,
        }),
{
    match entry {
        MenuEntry::Settings => Action::OpenSettings,
        MenuEntry::Overview => Action::Tiler(TilerAction::OpenOverview),
        MenuEntry::Center => Action::Tiler(TilerAction::CenterFocused),
        MenuEntry::Quit => Action::Exit,
    }
}

/// Whether to try once more to hand an action over, after `tries` failures:
/// the receiving end may not be up yet.
pub fn retry_send(tries: u32) -> (r: bool)
    ensures
        r == (tries < 10),
{
    tries < 10
}

/// The icon shows one band, twelve pixels wide and four high, in the middle, of
/// one color, and nothing else.
pub proof fn law_tray_icon_shows_a_band(x: int, y: int)
    requires
        0 <= x < 16,
        0 <= y < 16,
    ensures
        ({
            let at = (16 * y + x) * 4;
            if 2 <= x <= 13 && 6 <= y <= 9 {
                icon_byte(at) == 76 && icon_byte(at + 1) == 198 && icon_byte(at + 2) == 255
                    && icon_byte(at + 3) == 255
            } else {
                icon_byte(at) == 0 && icon_byte(at + 1) == 0 && icon_byte(at + 2) == 0 && icon_byte(
                    at + 3,
                ) == 0
            }
        }),
{
}

} // verus!
