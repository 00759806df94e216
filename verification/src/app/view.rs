//! What the program's windows show, as places and texts.
use vstd::prelude::*;

use crate::app::overview::thumbnail::ThumbnailRect;
use crate::app::overview::{ContextMenu, DragInfo, Thumbnail};
use crate::app::{border_alpha, border_opacity, border_shows, Mode, State};
use crate::geometry::{Bounds, Position};
use crate::text::{shorten, shortened};
use crate::window::Window;

verus! {

/// What a window of the program shows.
#[derive(Debug, Clone, Copy, PartialEq, Eq, Structural)]
pub enum Panel {
    Overlay,
    Settings,
    Overview,
    Empty,
}

/// How a window of the program is painted.
#[derive(Debug, Clone, Copy, PartialEq, Eq, Structural)]
pub enum Backdrop {
    Transparent,
    Dimmed,
    Dark,
}

/// The focus border.
#[derive(Debug, Clone, Copy, PartialEq, Eq, Structural)]
pub struct Border {
    pub bounds: Bounds,
    /// In millionths.
    pub alpha: u32,
}

impl State {
    pub open spec fn shows_overview(self, window_id: u64) -> bool {
        self.mode matches Mode::Overview(o) && o.monitor_for(window_id) is Some
    }

    pub fn panel(&self, window_id: u64) -> (r: Panel)
        ensures
            r == (if window_id == self.overlay_window_id {
                Panel::Overlay
            } else if self.settings_window_id == Some(window_id) {
                Panel::Settings
            } else if self.shows_overview(window_id) {
                Panel::Overview
            } else {
                Panel::Empty
            }),
    {
        if window_id == self.overlay_window_id {
            return Panel::Overlay;
        }
        match self.settings_window_id {
            Some(id) => {
                if id == window_id {
                    return Panel::Settings;
                }
            },
            None => {},
        }
        match self.overview_monitor_for_window(window_id) {
            Some(_) => Panel::Overview,
            None => Panel::Empty,
        }
    }

    pub fn theme(&self, window_id: u64) -> (r: Backdrop)
        ensures
            r == (if window_id == self.overlay_window_id {
                Backdrop::Transparent
            } else if self.shows_overview(window_id) {
                Backdrop::Dimmed
            } else {
                Backdrop::Dark
            }),
    {
        if window_id == self.overlay_window_id {
            return Backdrop::Transparent;
        }
        match self.overview_monitor_for_window(window_id) {
            Some(_) => Backdrop::Dimmed,
            None => Backdrop::Dark,
        }
    }

    /// The border around the focused tile at time `now`. None is drawn while
    /// things move, nor outside tiling.
    pub fn tiler_view(&self, now: u64) -> (r: Option<Border>)
        ensures
            ({
                let since = match self.tiler@.last_motion {
                    Some(t) => Some(
                        if now > t {
                            (now - t) as u64
                        } else {
                            0
                        },
                    ),
                    None => None,
                };
                match self.mode {
                    Mode::Tiler(t) => match t.current_border_bounds {
                        Some(bounds) => if border_opacity(since) > 1_000 {
                            r matches Some(b) && b.bounds == bounds && b.alpha == border_opacity(
                                since,
                            )
                        } else {
                            r is None
                        },
                        None => r is None,
                    },
                    _ => r is None,
                }
            }),
    {
        match &self.mode {
            Mode::Tiler(t) => match t.current_border_bounds {
                Some(bounds) => {
                    let alpha: u32 = border_alpha(self.tiler.time_since_motion(now));
                    if border_shows(alpha) {
                        Some(Border { bounds, alpha })
                    } else {
                        None
                    }
                },
                None => None,
            },
            _ => None,
        }
    }
}

/// Space between a thumbnail and its label.
pub const LABEL_PAD_TOP: i64 = 8_000;

pub const APP_NAME_LINE_HEIGHT: i64 = 22_000;

/// Width and height of the icon next to the name.
pub const ICON_SIZE: i64 = 24_000;

/// Space between the icon and the name.
pub const ICON_GAP: i64 = 6_000;

/// Characters of a title that a label shows.
pub const TITLE_MAX_CHARS: usize = 90;

/// How far the line that shows where a window will go stands out above and
/// below the thumbnail.
pub const DROP_LINE_OVERHANG: i64 = 12_000;

/// The bounds below leave room for everything drawn around a thumbnail.
pub open spec fn drawable(rect: ThumbnailRect) -> bool {
    &&& -0x1000_0000_0000_0000 <= rect.x <= 0x1000_0000_0000_0000
    &&& -0x1000_0000_0000_0000 <= rect.y <= 0x1000_0000_0000_0000
    &&& -0x1000_0000_0000_0000 <= rect.width <= 0x1000_0000_0000_0000
    &&& -0x1000_0000_0000_0000 <= rect.height <= 0x1000_0000_0000_0000
}

/// Where the parts of a label go.
#[derive(Debug, Clone, Copy, PartialEq, Eq, Structural)]
pub struct LabelLayout {
    pub icon: Option<ThumbnailRect>,
    pub name_at: Position,
    pub name_width: i64,
    pub title_at: Position,
    pub title_width: i64,
}

pub open spec fn label_of(rect: ThumbnailRect, has_icon: bool) -> LabelLayout {
    let top = rect.y + rect.height + LABEL_PAD_TOP;
    let indent = if has_icon {
        ICON_SIZE + ICON_GAP
    } else {
        0
    };
    LabelLayout {
        icon: if has_icon {
            Some(ThumbnailRect { x: rect.x, y: top as i64, width: ICON_SIZE, height: ICON_SIZE })
        } else {
            None
        },
        name_at: Position { x: (rect.x + indent) as i64, y: (top + 2_000) as i64 },
        name_width: if has_icon && rect.width < indent {
            0
        } else {
            (rect.width - indent) as i64
        },
        title_at: Position { x: rect.x, y: (top + APP_NAME_LINE_HEIGHT + 6_000) as i64 },
        title_width: rect.width,
    }
}

/// The label below a thumbnail: the icon and the name beside it, and the title
/// on a line of its own.
pub fn draw_label(rect: ThumbnailRect, has_icon: bool) -> (r: LabelLayout)
    requires
        drawable(rect),
    ensures
        r == label_of(rect, has_icon),
{
    let top: i64 = rect.y + rect.height + LABEL_PAD_TOP;
    let title_at: Position = Position { x: rect.x, y: top + APP_NAME_LINE_HEIGHT + 6_000 };
    if has_icon {
        let indent: i64 = ICON_SIZE + ICON_GAP;
        LabelLayout {
            icon: Some(ThumbnailRect { x: rect.x, y: top, width: ICON_SIZE, height: ICON_SIZE }),
            name_at: Position { x: rect.x + indent, y: top + 2_000 },
            name_width: if rect.width < indent {
                0
            } else {
                rect.width - indent
            },
            title_at,
            title_width: rect.width,
        }
    } else {
        LabelLayout {
            icon: None,
            name_at: Position { x: rect.x, y: top + 2_000 },
            name_width: rect.width,
            title_at,
            title_width: rect.width,
        }
    }
}

/// The title as a label shows it.
pub fn label_title(title: &str) -> (r: String)
    ensures
        r@ == shortened(title@, TITLE_MAX_CHARS as nat),
{
    shorten(title, TITLE_MAX_CHARS)
}

/// A vertical line.
#[derive(Debug, Clone, Copy, PartialEq, Eq, Structural)]
pub struct DropLine {
    pub x: i64,
    pub top: i64,
    pub bottom: i64,
}

pub open spec fn all_drawable(thumbnails: Seq<Thumbnail>) -> bool {
    forall|i: int| 0 <= i < thumbnails.len() ==> drawable((#[trigger] thumbnails[i]).rect)
}

/// The line at the left edge of the thumbnail a drag is over, whose slot what
/// is dragged goes to. None over the dragged thumbnail itself.
pub fn draw_drop_line(thumbnails: &Vec<Thumbnail>, drag: DragInfo) -> (r: Option<DropLine>)
    requires
        all_drawable(thumbnails@),
    ensures
        match drag.dest_idx {
            Some(d) if d != drag.source_idx && d < thumbnails@.len() => {
                let rect = thumbnails@[d as int].rect;
                r matches Some(line) && line.x == rect.x && line.top == rect.y - DROP_LINE_OVERHANG
                    && line.bottom == rect.y + rect.height + DROP_LINE_OVERHANG
            },
            _ => r is None,
        },
{
    match drag.dest_idx {
        Some(d) => if d != drag.source_idx && d < thumbnails.len() {
            let rect: ThumbnailRect = thumbnails[d].rect;
            assert(drawable(thumbnails@[d as int].rect));
            Some(
                DropLine {
                    x: rect.x,
                    top: rect.y - DROP_LINE_OVERHANG,
                    bottom: rect.y + rect.height + DROP_LINE_OVERHANG,
                },
            )
        } else {
            None
        },
        None => None,
    }
}

/// The outline of the dragged thumbnail, centered on the cursor.
pub fn draw_ghost(thumbnails: &Vec<Thumbnail>, drag: DragInfo) -> (r: Option<ThumbnailRect>)
    requires
        all_drawable(thumbnails@),
        -0x1000_0000_0000_0000 <= drag.cursor.x <= 0x1000_0000_0000_0000,
        -0x1000_0000_0000_0000 <= drag.cursor.y <= 0x1000_0000_0000_0000,
    ensures
        if drag.source_idx < thumbnails@.len() {
            let rect = thumbnails@[drag.source_idx as int].rect;
            r matches Some(g) && g.width == rect.width && g.height == rect.height && g.x
                == drag.cursor.x - rect.width as int / 2 && g.y == drag.cursor.y
                - rect.height as int / 2
        } else {
            r is None
        },
{
    if drag.source_idx < thumbnails.len() {
        let rect: ThumbnailRect = thumbnails[drag.source_idx].rect;
        assert(drawable(thumbnails@[drag.source_idx as int].rect));
        Some(
            ThumbnailRect {
                x: drag.cursor.x - crate::geometry::floor_div(rect.width, 2),
                y: drag.cursor.y - crate::geometry::floor_div(rect.height, 2),
                width: rect.width,
                height: rect.height,
            },
        )
    } else {
        None
    }
}

/// What a button of the context menu does.
#[derive(Debug)]
pub enum MenuChoice {
    IgnoreWindow { hwnd: u64 },
    IgnoreApp { process: String },
    MoveToMonitor { target: Window, device_name: String },
}

/// A button of the context menu.
#[derive(Debug)]
pub struct MenuButton {
    pub label: String,
    pub choice: MenuChoice,
}

/// How many buttons stand before those for the monitors: one for the window,
/// and one for its application where that is known.
pub open spec fn fixed_buttons(menu: ContextMenu) -> int {
    if menu.process@.len() == 0 {
        1
    } else {
        2
    }
}

pub open spec fn is_button(menu: ContextMenu, k: int, b: MenuButton) -> bool {
    if k == 0 {
        &&& b.label@ == "Ignore this window"@
        &&& b.choice matches MenuChoice::IgnoreWindow { hwnd } && hwnd == menu.target.hwnd
    } else if k < fixed_buttons(menu) {
        &&& b.label@ == "Ignore all "@ + menu.app_name@ + " windows"@
        &&& b.choice matches MenuChoice::IgnoreApp { process } && process@ == menu.process@
    } else {
        let m = menu.other_monitors@[k - fixed_buttons(menu)];
        &&& b.label@ == m.label@
        &&& b.choice matches MenuChoice::MoveToMonitor { target, device_name } && target
            == menu.target && device_name@ == m.device_name@
    }
}

/// The buttons of a context menu, from the top.
pub fn build_context_menu(menu: &ContextMenu) -> (r: Vec<MenuButton>)
    ensures
        r@.len() == fixed_buttons(*menu) + menu.other_monitors@.len(),
        forall|k: int| 0 <= k < r@.len() ==> is_button(*menu, k, #[trigger] r@[k]),
{
    let mut out: Vec<MenuButton> = Vec::new();
    out.push(
        MenuButton {
            label: "Ignore this window".to_owned(),
            choice: MenuChoice::IgnoreWindow { hwnd: menu.target.hwnd },
        },
    );
    if menu.process.as_str().unicode_len() != 0 {
        let mut label: String = "Ignore all ".to_owned();
        label.append(menu.app_name.as_str());
        label.append(" windows");
        out.push(
            MenuButton {
                label,
                choice: MenuChoice::IgnoreApp { process: menu.process.clone() },
            },
        );
    }
    let mut i: usize = 0;
    while i < menu.other_monitors.len()
        invariant
            i <= menu.other_monitors@.len(),
            out@.len() == fixed_buttons(*menu) + i,
            forall|k: int| 0 <= k < out@.len() ==> is_button(*menu, k, #[trigger] out@[k]),
        decreases menu.other_monitors@.len() - i,
    {
        out.push(
            MenuButton {
                label: menu.other_monitors[i].label.clone(),
                choice: MenuChoice::MoveToMonitor {
                    target: menu.target,
                    device_name: menu.other_monitors[i].device_name.clone(),
                },
            },
        );
        i = i + 1;
    }
    out
}

} // verus!
