//! The overview: one window per monitor with live thumbnails of the windows
//! on that monitor.
use vstd::prelude::*;

use crate::app::overview::thumbnail::{ThumbnailLayout, ThumbnailRect, WindowData};
use crate::geometry::{abs_diff, magnitude, Position};
use crate::icon::IconPixels;
use crate::monitor::Monitor;
use crate::search::{first_true, lemma_first_hit, lemma_first_miss};
use crate::text::{decimal, decimal_text};
use crate::window::{Desktop, Window};

pub mod grid;
pub mod laws;
pub mod thumbnail;

verus! {

/// How far the cursor may move between press and release of a click.
pub const CLICK_DRAG_THRESHOLD: i64 = 5_000;

/// Gap between a thumbnail and the menu below it.
pub const MENU_GAP: i64 = 4_000;

/// Largest magnitude of a thumbnail coordinate that a menu can be put at.
pub const RECT_MAX: i64 = 2_305_843_009_213_693_952;

#[derive(Debug)]
pub struct Thumbnail {
    /// The compositor's number for it.
    pub thumbnail_id: i64,
    /// The window it shows.
    pub src: Window,
    pub rect: ThumbnailRect,
    pub app_name: String,
    pub title: String,
    pub icon: Option<IconPixels>,
}

/// A monitor that the menu offers to move a window to.
#[derive(Debug)]
pub struct MenuMonitor {
    pub device_name: String,
    pub label: String,
}

/// An open context menu.
#[derive(Debug)]
pub struct ContextMenu {
    /// The window it acts on.
    pub target: Window,
    /// Where it is put, below the thumbnail: the compositor paints over
    /// anything within it.
    pub anchor: Position,
    pub app_name: String,
    /// File name of the executable; empty where it is not known.
    pub process: String,
    pub other_monitors: Vec<MenuMonitor>,
}

/// The overview on one monitor.
#[derive(Debug)]
pub struct MonitorOverview {
    pub window_id: u64,
    pub hmonitor: i64,
    /// In the order they are shown.
    pub thumbnails: Vec<Thumbnail>,
    pub cursor_pos: Option<Position>,
    pub press_pos: Option<Position>,
    pub drag_source_idx: Option<usize>,
    pub context_menu: Option<ContextMenu>,
}

/// The overview on all monitors.
#[derive(Debug)]
pub struct State {
    pub monitors: Vec<MonitorOverview>,
}

#[derive(Debug, Clone, Copy, PartialEq, Eq, Structural)]
pub enum Message {
    /// The window of the overview on one monitor is there.
    OverviewWindowCreated { id: u64, raw_handle: u64, hmonitor: i64 },
}

/// What releasing the mouse button over an overview means.
#[derive(Debug, Clone, Copy, PartialEq, Eq, Structural)]
pub enum ReleaseOutcome {
    /// A click: jump to this window.
    Click(Window),
    /// A drag: put `src` where `dst` is.
    Reorder { src: Window, dst: Window },
}

/// A drag in progress, for drawing it.
#[derive(Debug, Clone, Copy, PartialEq, Eq, Structural)]
pub struct DragInfo {
    pub source_idx: usize,
    pub cursor: Position,
    /// The thumbnail under the cursor.
    pub dest_idx: Option<usize>,
}

/// New place of a thumbnail.
#[derive(Debug, Clone, Copy, PartialEq, Eq, Structural)]
pub struct ThumbnailMove {
    pub thumbnail_id: i64,
    pub rect: ThumbnailRect,
}

pub open spec fn hit_mask(thumbnails: Seq<Thumbnail>, at: Position) -> Seq<bool> {
    Seq::new(thumbnails.len(), |i: int| thumbnails[i].rect.covers(at.x as int, at.y as int))
}

/// The first thumbnail at a point.
pub open spec fn hit(thumbnails: Seq<Thumbnail>, at: Position) -> Option<int> {
    first_true(hit_mask(thumbnails, at))
}

/// The two points are at most the threshold apart.
pub open spec fn is_click(a: Position, b: Position) -> bool {
    (a.x - b.x) * (a.x - b.x) + (a.y - b.y) * (a.y - b.y) <= CLICK_DRAG_THRESHOLD
        * CLICK_DRAG_THRESHOLD
}

proof fn lemma_square_large(d: int, rest: int)
    requires
        magnitude(d) > CLICK_DRAG_THRESHOLD,
        rest >= 0,
    ensures
        d * d + rest > CLICK_DRAG_THRESHOLD * CLICK_DRAG_THRESHOLD,
{
    assert(d * d > 25_000_000) by (nonlinear_arith)
        requires
            d > 5_000 || d < -5_000,
    ;
}

fn near(a: Position, b: Position) -> (r: bool)
    ensures
        r == is_click(a, b),
{
    let dx: u64 = abs_diff(a.x, b.x);
    let dy: u64 = abs_diff(a.y, b.y);
    proof {
        let x = a.x - b.x;
        let y = a.y - b.y;
        assert(x * x >= 0 && y * y >= 0) by (nonlinear_arith);
        assert(x * x == dx * dx) by (nonlinear_arith)
            requires
                dx == x || dx == -x,
        ;
        assert(y * y == dy * dy) by (nonlinear_arith)
            requires
                dy == y || dy == -y,
        ;
        if dx > CLICK_DRAG_THRESHOLD {
            lemma_square_large(x, y * y);
        }
        if dy > CLICK_DRAG_THRESHOLD {
            lemma_square_large(y, x * x);
        }
    }
    if dx > CLICK_DRAG_THRESHOLD as u64 || dy > CLICK_DRAG_THRESHOLD as u64 {
        return false;
    }
    proof {
        assert(0 <= dx * dx <= 25_000_000 && 0 <= dy * dy <= 25_000_000) by (nonlinear_arith)
            requires
                0 <= dx <= 5_000,
                0 <= dy <= 5_000,
        ;
    }
    dx * dx + dy * dy <= 25_000_000
}

impl MonitorOverview {
    /// A drag starts at a thumbnail that is there.
    pub open spec fn wf(self) -> bool {
        self.drag_source_idx matches Some(i) ==> i < self.thumbnails@.len()
    }

    pub fn thumbnail_at(&self, at: Position) -> (r: Option<usize>)
        ensures
            match r {
                Some(i) => hit(self.thumbnails@, at) == Some(i as int) && i
                    < self.thumbnails@.len(),
                None => hit(self.thumbnails@, at) is None,
            },
    {
        let mut i: usize = 0;
        while i < self.thumbnails.len()
            invariant
                i <= self.thumbnails@.len(),
                forall|j: int| 0 <= j < i ==> !hit_mask(self.thumbnails@, at)[j],
            decreases self.thumbnails@.len() - i,
        {
            if self.thumbnails[i].rect.contains(at.x, at.y) {
                proof {
                    lemma_first_hit(hit_mask(self.thumbnails@, at), i as int);
                }
                return Some(i);
            }
            i = i + 1;
        }
        proof {
            lemma_first_miss(hit_mask(self.thumbnails@, at));
        }
        None
    }

    /// After the mouse button went down. With a menu open nothing begins: the
    /// press belongs to the menu.
    pub open spec fn pressed(self) -> (Option<Position>, Option<int>) {
        if self.context_menu is Some {
            (None, None)
        } else {
            (
                self.cursor_pos,
                match self.cursor_pos {
                    Some(p) => hit(self.thumbnails@, p),
                    None => None,
                },
            )
        }
    }

    /// The overview after the mouse button went down, with `menu` open since.
    pub open spec fn after_press(self, menu: Option<ContextMenu>) -> Self {
        MonitorOverview {
            press_pos: self.pressed().0,
            drag_source_idx: match self.pressed().1 {
                Some(k) => Some(k as usize),
                None => None,
            },
            context_menu: menu,
            ..self
        }
    }

    /// What releasing the button means.
    pub open spec fn outcome(self) -> Option<ReleaseOutcome> {
        match (self.cursor_pos, self.press_pos) {
            (Some(current), Some(press)) => {
                let under = hit(self.thumbnails@, current);
                if is_click(current, press) {
                    match under {
                        Some(i) => Some(ReleaseOutcome::Click(self.thumbnails@[i].src)),
                        None => None,
                    }
                } else {
                    match (self.drag_source_idx, under) {
                        (Some(s), Some(d)) => if s == d {
                            None
                        } else {
                            Some(
                                ReleaseOutcome::Reorder {
                                    src: self.thumbnails@[s as int].src,
                                    dst: self.thumbnails@[d].src,
                                },
                            )
                        },
                        _ => None,
                    }
                }
            },
            _ => None,
        }
    }

    /// The drag to draw: one that has left the range of a click.
    pub open spec fn drag(self) -> Option<(usize, Position, Option<int>)> {
        match (self.drag_source_idx, self.cursor_pos, self.press_pos) {
            (Some(s), Some(cursor), Some(press)) => if is_click(cursor, press) {
                None
            } else {
                Some((s, cursor, hit(self.thumbnails@, cursor)))
            },
            _ => None,
        }
    }

    pub fn compute_drag_info(&self) -> (r: Option<DragInfo>)
        ensures
            match (self.drag(), r) {
                (Some((s, cursor, dest)), Some(d)) => d.source_idx == s && d.cursor == cursor
                    && match (dest, d.dest_idx) {
                    (Some(a), Some(b)) => a == b,
                    (None, None) => true,
                    _ => false,
                },
                (None, None) => true,
                _ => false,
            },
    {
        match (self.drag_source_idx, self.cursor_pos, self.press_pos) {
            (Some(source_idx), Some(cursor), Some(press)) => {
                if near(cursor, press) {
                    return None;
                }
                Some(DragInfo { source_idx, cursor, dest_idx: self.thumbnail_at(cursor) })
            },
            _ => None,
        }
    }
}

pub open spec fn window_id_mask(monitors: Seq<MonitorOverview>, window_id: u64) -> Seq<bool> {
    Seq::new(monitors.len(), |i: int| monitors[i].window_id == window_id)
}

pub open spec fn hmonitor_mask(monitors: Seq<MonitorOverview>, hmonitor: i64) -> Seq<bool> {
    Seq::new(monitors.len(), |i: int| monitors[i].hmonitor == hmonitor)
}

/// A name and a label.
pub struct MenuText {
    pub device_name: Seq<char>,
    pub label: Seq<char>,
}

/// The monitors that the menu of a window on `ours` offers, out of the first
/// `upto`. The primary monitor goes by that name, others by a number that
/// starts at two.
pub open spec fn menu_texts(monitors: Seq<Monitor>, ours: i64, upto: int) -> Seq<MenuText>
    decreases upto,
{
    if upto <= 0 {
        seq![]
    } else {
        let before = menu_texts(monitors, ours, upto - 1);
        let m = monitors[upto - 1];
        if m.hmonitor == ours {
            before
        } else {
            before.push(
                MenuText {
                    device_name: m.device_name@,
                    label: if m.is_primary {
                        "Move to primary monitor"@
                    } else {
                        "Move to monitor "@ + decimal((before.len() + 2) as nat)
                    },
                },
            )
        }
    }
}

/// The entries read as the texts say.
pub open spec fn reads_as(entries: Seq<MenuMonitor>, texts: Seq<MenuText>) -> bool {
    &&& entries.len() == texts.len()
    &&& forall|i: int|
        0 <= i < entries.len() ==> (#[trigger] entries[i]).device_name@ == texts[i].device_name
            && entries[i].label@ == texts[i].label
}

fn menu_monitors(monitors: &Vec<Monitor>, ours: i64) -> (r: Vec<MenuMonitor>)
    requires
        monitors@.len() <= u32::MAX,
    ensures
        reads_as(r@, menu_texts(monitors@, ours, monitors@.len() as int)),
{
    let mut out: Vec<MenuMonitor> = Vec::new();
    let n: usize = monitors.len();
    let mut i: usize = 0;
    while i < n
        invariant
            i <= n,
            n == monitors@.len(),
            n <= u32::MAX,
            out@.len() <= i,
            reads_as(out@, menu_texts(monitors@, ours, i as int)),
        decreases n - i,
    {
        let m: &Monitor = &monitors[i];
        if m.hmonitor != ours {
            let label: String = if m.is_primary {
                "Move to primary monitor".to_owned()
            } else {
                let mut s: String = "Move to monitor ".to_owned();
                let number: String = decimal_text(out.len() as u64 + 2);
                s.append(number.as_str());
                s
            };
            out.push(MenuMonitor { device_name: m.device_name.clone(), label });
        }
        i = i + 1;
    }
    out
}

/// `menu` is the menu for thumbnail `t` of an overview on `hmonitor`.
pub open spec fn menu_for(
    menu: ContextMenu,
    t: Thumbnail,
    hmonitor: i64,
    monitors: Seq<Monitor>,
    desk: Desktop,
) -> bool {
    &&& menu.target == t.src
    &&& menu.anchor.x == t.rect.x
    &&& menu.anchor.y == t.rect.y + t.rect.height + MENU_GAP
    &&& menu.app_name == t.app_name
    &&& menu.process@ == (match desk.process_of(t.src) {
        Some(p) => p,
        None => seq![],
    })
    &&& reads_as(
        menu.other_monitors@,
        menu_texts(monitors, hmonitor, monitors.len() as int),
    )
}

/// File name of the executable of a window; empty where it is not known.
pub fn process_or_empty(w: Window, desk: &Desktop) -> (r: String)
    ensures
        r@ == (match desk.process_of(w) {
            Some(p) => p,
            None => seq![],
        }),
{
    match w.process_name(desk) {
        Some(p) => {
            return p;
        },
        None => {},
    }
    let r: String = String::new();
    assert(r@ =~= seq![]);
    r
}

/// Thumbnail `t` put where the layout has its window.
pub open spec fn replaced_rect(
    t: Thumbnail,
    windows: Seq<WindowData>,
    layouts: Seq<ThumbnailLayout>,
) -> Thumbnail {
    match first_true(data_mask(windows, t.src)) {
        Some(i) => Thumbnail { rect: layouts[i].rect, ..t },
        None => t,
    }
}

pub open spec fn data_mask(windows: Seq<WindowData>, w: Window) -> Seq<bool> {
    Seq::new(windows.len(), |i: int| windows[i].inner == w)
}

pub open spec fn replaced_rects(
    thumbnails: Seq<Thumbnail>,
    windows: Seq<WindowData>,
    layouts: Seq<ThumbnailLayout>,
) -> Seq<Thumbnail> {
    Seq::new(thumbnails.len(), |i: int| replaced_rect(thumbnails[i], windows, layouts))
}

/// The moves that bring the first `upto` thumbnails to their new places.
pub open spec fn rect_moves(
    thumbnails: Seq<Thumbnail>,
    windows: Seq<WindowData>,
    layouts: Seq<ThumbnailLayout>,
    upto: int,
) -> Seq<ThumbnailMove>
    decreases upto,
{
    if upto <= 0 {
        seq![]
    } else {
        let before = rect_moves(thumbnails, windows, layouts, upto - 1);
        let t = thumbnails[upto - 1];
        match first_true(data_mask(windows, t.src)) {
            Some(i) => before.push(
                ThumbnailMove { thumbnail_id: t.thumbnail_id, rect: layouts[i].rect },
            ),
            None => before,
        }
    }
}

pub fn find_data(windows: &Vec<WindowData>, w: Window) -> (r: Option<usize>)
    ensures
        match r {
            Some(i) => first_true(data_mask(windows@, w)) == Some(i as int) && i < windows@.len(),
            None => first_true(data_mask(windows@, w)) is None,
        },
{
    let mut i: usize = 0;
    while i < windows.len()
        invariant
            i <= windows@.len(),
            forall|j: int| 0 <= j < i ==> !data_mask(windows@, w)[j],
        decreases windows@.len() - i,
    {
        if windows[i].inner == w {
            proof {
                lemma_first_hit(data_mask(windows@, w), i as int);
            }
            return Some(i);
        }
        i = i + 1;
    }
    proof {
        lemma_first_miss(data_mask(windows@, w));
    }
    None
}

/// Puts the thumbnails where `layouts` has their windows.
fn replace_rects(
    thumbnails: &mut Vec<Thumbnail>,
    windows: &Vec<WindowData>,
    layouts: &Vec<ThumbnailLayout>,
) -> (r: Vec<ThumbnailMove>)
    requires
        layouts@.len() == windows@.len(),
    ensures
        final(thumbnails)@ == replaced_rects(old(thumbnails)@, windows@, layouts@),
        r@ == rect_moves(
            old(thumbnails)@,
            windows@,
            layouts@,
            old(thumbnails)@.len() as int,
        ),
{
    let ghost before = thumbnails@;
    let mut moves: Vec<ThumbnailMove> = Vec::new();
    let mut i: usize = 0;
    while i < thumbnails.len()
        invariant
            i <= before.len(),
            thumbnails@.len() == before.len(),
            layouts@.len() == windows@.len(),
            forall|j: int|
                0 <= j < i ==> #[trigger] thumbnails@[j] == replaced_rect(
                    before[j],
                    windows@,
                    layouts@,
                ),
            forall|j: int| i <= j < before.len() ==> #[trigger] thumbnails@[j] == before[j],
            moves@ == rect_moves(before, windows@, layouts@, i as int),
        decreases before.len() - i,
    {
        assert(thumbnails@[i as int] == before[i as int]);
        match find_data(windows, thumbnails[i].src) {
            Some(k) => {
                let rect: ThumbnailRect = layouts[k].rect;
                thumbnails[i].rect = rect;
                moves.push(ThumbnailMove { thumbnail_id: thumbnails[i].thumbnail_id, rect });
            },
            None => {},
        }
        i = i + 1;
    }
    proof {
        assert(thumbnails@ =~= replaced_rects(before, windows@, layouts@));
    }
    moves
}

pub open spec fn without_menus(monitors: Seq<MonitorOverview>) -> Seq<MonitorOverview> {
    Seq::new(monitors.len(), |i: int| MonitorOverview { context_menu: None, ..monitors[i] })
}

impl State {
    pub open spec fn wf(self) -> bool {
        forall|i: int| 0 <= i < self.monitors@.len() ==> (#[trigger] self.monitors@[i]).wf()
    }

    /// The monitor whose overview is shown in a window.
    pub open spec fn monitor_for(self, window_id: u64) -> Option<int> {
        first_true(window_id_mask(self.monitors@, window_id))
    }

    pub fn find_window(&self, window_id: u64) -> (r: Option<usize>)
        ensures
            match r {
                Some(i) => self.monitor_for(window_id) == Some(i as int) && i
                    < self.monitors@.len(),
                None => self.monitor_for(window_id) is None,
            },
    {
        let mut i: usize = 0;
        while i < self.monitors.len()
            invariant
                i <= self.monitors@.len(),
                forall|j: int| 0 <= j < i ==> !window_id_mask(self.monitors@, window_id)[j],
            decreases self.monitors@.len() - i,
        {
            if self.monitors[i].window_id == window_id {
                proof {
                    lemma_first_hit(window_id_mask(self.monitors@, window_id), i as int);
                }
                return Some(i);
            }
            i = i + 1;
        }
        proof {
            lemma_first_miss(window_id_mask(self.monitors@, window_id));
        }
        None
    }

    fn find_hmonitor(&self, hmonitor: i64) -> (r: Option<usize>)
        ensures
            match r {
                Some(i) => first_true(hmonitor_mask(self.monitors@, hmonitor)) == Some(i as int)
                    && i < self.monitors@.len(),
                None => first_true(hmonitor_mask(self.monitors@, hmonitor)) is None,
            },
    {
        let mut i: usize = 0;
        while i < self.monitors.len()
            invariant
                i <= self.monitors@.len(),
                forall|j: int| 0 <= j < i ==> !hmonitor_mask(self.monitors@, hmonitor)[j],
            decreases self.monitors@.len() - i,
        {
            if self.monitors[i].hmonitor == hmonitor {
                proof {
                    lemma_first_hit(hmonitor_mask(self.monitors@, hmonitor), i as int);
                }
                return Some(i);
            }
            i = i + 1;
        }
        proof {
            lemma_first_miss(hmonitor_mask(self.monitors@, hmonitor));
        }
        None
    }

    /// The overview after the cursor moved in a window.
    pub open spec fn cursor_moved(self, window_id: u64, at: Position) -> Seq<MonitorOverview> {
        match self.monitor_for(window_id) {
            Some(i) => self.monitors@.update(
                i,
                MonitorOverview { cursor_pos: Some(at), ..self.monitors@[i] },
            ),
            None => self.monitors@,
        }
    }

    pub fn handle_cursor_moved(&mut self, window_id: u64, at: Position)
        requires
            old(self).wf(),
        ensures
            final(self).monitors@ == old(self).cursor_moved(window_id, at),
            final(self).wf(),
    {
        match self.find_window(window_id) {
            Some(i) => {
                assert(self.monitors@[i as int].wf());
                self.monitors[i].cursor_pos = Some(at);
                assert(self.monitors@ =~= old(self).cursor_moved(window_id, at));
            },
            None => {},
        }
    }

    /// The overview after the button went down in a window.
    pub open spec fn mouse_pressed(self, window_id: u64) -> Seq<MonitorOverview> {
        match self.monitor_for(window_id) {
            Some(i) => {
                let m = self.monitors@[i];
                self.monitors@.update(i, m.after_press(m.context_menu))
            },
            None => self.monitors@,
        }
    }

    pub fn handle_mouse_pressed(&mut self, window_id: u64)
        requires
            old(self).wf(),
        ensures
            final(self).monitors@ == old(self).mouse_pressed(window_id),
            final(self).wf(),
    {
        match self.find_window(window_id) {
            Some(i) => {
                assert(self.monitors@[i as int].wf());
                let mut press: Option<Position> = None;
                let mut source: Option<usize> = None;
                if self.monitors[i].context_menu.is_none() {
                    press = self.monitors[i].cursor_pos;
                    match press {
                        Some(p) => {
                            source = self.monitors[i].thumbnail_at(p);
                        },
                        None => {},
                    }
                }
                self.monitors[i].press_pos = press;
                self.monitors[i].drag_source_idx = source;
                assert(self.monitors@ =~= old(self).mouse_pressed(window_id));
            },
            None => {},
        }
    }

    /// The overview after the button went up in a window: the press is over.
    pub open spec fn released(self, window_id: u64) -> Seq<MonitorOverview> {
        match self.monitor_for(window_id) {
            Some(i) => self.monitors@.update(
                i,
                MonitorOverview { press_pos: None, drag_source_idx: None, ..self.monitors@[i] },
            ),
            None => self.monitors@,
        }
    }

    pub open spec fn release_meaning(self, window_id: u64) -> Option<ReleaseOutcome> {
        match self.monitor_for(window_id) {
            Some(i) => self.monitors@[i].outcome(),
            None => None,
        }
    }

    pub fn release_outcome(&mut self, window_id: u64) -> (r: Option<ReleaseOutcome>)
        requires
            old(self).wf(),
        ensures
            r == old(self).release_meaning(window_id),
            final(self).monitors@ == old(self).released(window_id),
            final(self).wf(),
    {
        let i: usize = match self.find_window(window_id) {
            Some(i) => i,
            None => {
                return None;
            },
        };
        assert(self.monitors@[i as int].wf());
        let press: Option<Position> = self.monitors[i].press_pos;
        let source: Option<usize> = self.monitors[i].drag_source_idx;
        let cursor: Option<Position> = self.monitors[i].cursor_pos;
        self.monitors[i].press_pos = None;
        self.monitors[i].drag_source_idx = None;
        assert(self.monitors@ =~= old(self).released(window_id));
        let (current, press): (Position, Position) = match (cursor, press) {
            (Some(c), Some(p)) => (c, p),
            _ => {
                return None;
            },
        };
        let m: &MonitorOverview = &self.monitors[i];
        let under: Option<usize> = m.thumbnail_at(current);
        if near(current, press) {
            return match under {
                Some(k) => Some(ReleaseOutcome::Click(m.thumbnails[k].src)),
                None => None,
            };
        }
        match (source, under) {
            (Some(s), Some(d)) => if s == d {
                None
            } else {
                Some(
                    ReleaseOutcome::Reorder { src: m.thumbnails[s].src, dst: m.thumbnails[d].src },
                )
            },
            _ => None,
        }
    }

    /// The thumbnail the cursor is on in a window.
    pub open spec fn under_cursor(self, window_id: u64) -> Option<(int, int)> {
        match self.monitor_for(window_id) {
            Some(i) => match self.monitors@[i].cursor_pos {
                Some(p) => match hit(self.monitors@[i].thumbnails@, p) {
                    Some(k) => Some((i, k)),
                    None => None,
                },
                None => None,
            },
            None => None,
        }
    }

    /// The menu of the window may be put below its thumbnail.
    pub open spec fn menu_fits(self, window_id: u64) -> bool {
        match self.under_cursor(window_id) {
            Some((i, k)) => {
                let t = self.monitors@[i].thumbnails@[k];
                -RECT_MAX <= t.rect.y <= RECT_MAX && -RECT_MAX <= t.rect.height <= RECT_MAX
            },
            None => true,
        }
    }

    /// `after` is the overview after the right button went down in a window: a
    /// menu opens for the thumbnail under the cursor; away from thumbnails an
    /// open one closes; nothing happens while the cursor has not been seen.
    pub open spec fn menu_opened(
        self,
        window_id: u64,
        monitors: Seq<Monitor>,
        desk: Desktop,
        after: Seq<MonitorOverview>,
    ) -> bool {
        match self.monitor_for(window_id) {
            None => after == self.monitors@,
            Some(i) => {
                let m = self.monitors@[i];
                match m.cursor_pos {
                    None => after == self.monitors@,
                    Some(p) => match hit(m.thumbnails@, p) {
                        None => after == self.monitors@.update(
                            i,
                            MonitorOverview { context_menu: None, ..m },
                        ),
                        Some(k) => {
                            &&& after.len() == self.monitors@.len()
                            &&& after == self.monitors@.update(
                                i,
                                MonitorOverview { context_menu: after[i].context_menu, ..m },
                            )
                            &&& after[i].context_menu matches Some(menu) && menu_for(
                                menu,
                                m.thumbnails@[k],
                                m.hmonitor,
                                monitors,
                                desk,
                            )
                        },
                    },
                }
            },
        }
    }

    pub fn open_context_menu(&mut self, window_id: u64, monitors: &Vec<Monitor>, desk: &Desktop)
        requires
            old(self).wf(),
            old(self).menu_fits(window_id),
            monitors@.len() <= u32::MAX,
        ensures
            old(self).menu_opened(window_id, monitors@, *desk, final(self).monitors@),
            final(self).wf(),
    {
        let i: usize = match self.find_window(window_id) {
            Some(i) => i,
            None => {
                return ;
            },
        };
        assert(self.monitors@[i as int].wf());
        let cursor: Position = match self.monitors[i].cursor_pos {
            Some(p) => p,
            None => {
                return ;
            },
        };
        let menu: Option<ContextMenu> = match self.monitors[i].thumbnail_at(cursor) {
            None => None,
            Some(k) => {
                let m: &MonitorOverview = &self.monitors[i];
                let t: &Thumbnail = &m.thumbnails[k];
                Some(
                    ContextMenu {
                        target: t.src,
                        anchor: Position { x: t.rect.x, y: t.rect.y + t.rect.height + MENU_GAP },
                        app_name: t.app_name.clone(),
                        process: process_or_empty(t.src, desk),
                        other_monitors: menu_monitors(monitors, m.hmonitor),
                    },
                )
            },
        };
        self.monitors[i].context_menu = menu;
        assert(self.monitors@ =~= old(self).monitors@.update(
            i as int,
            MonitorOverview { context_menu: menu, ..old(self).monitors@[i as int] },
        ));
    }

    /// Closes every menu.
    pub fn dismiss_context_menu(&mut self)
        requires
            old(self).wf(),
        ensures
            final(self).monitors@ == without_menus(old(self).monitors@),
            final(self).wf(),
    {
        let ghost before = self.monitors@;
        let mut i: usize = 0;
        while i < self.monitors.len()
            invariant
                i <= before.len(),
                self.monitors@.len() == before.len(),
                before == old(self).monitors@,
                old(self).wf(),
                forall|j: int|
                    0 <= j < i ==> #[trigger] self.monitors@[j] == without_menus(before)[j],
                forall|j: int| i <= j < before.len() ==> #[trigger] self.monitors@[j] == before[j],
            decreases before.len() - i,
        {
            self.monitors[i].context_menu = None;
            i = i + 1;
        }
        proof {
            assert(self.monitors@ =~= without_menus(before));
            assert forall|j: int| 0 <= j < self.monitors@.len() implies (#[trigger]
            self.monitors@[j]).wf() by {
                assert(before[j].wf());
            }
        }
    }

    pub open spec fn some_menu(self) -> bool {
        exists|i: int|
            0 <= i < self.monitors@.len() && (#[trigger] self.monitors@[i]).context_menu is Some
    }

    /// Whether a menu is open on any monitor.
    pub fn context_menu_open(&self) -> (r: bool)
        ensures
            r == self.some_menu(),
    {
        let mut i: usize = 0;
        while i < self.monitors.len()
            invariant
                i <= self.monitors@.len(),
                forall|j: int|
                    0 <= j < i ==> (#[trigger] self.monitors@[j]).context_menu is None,
            decreases self.monitors@.len() - i,
        {
            if self.monitors[i].context_menu.is_some() {
                assert(self.monitors@[i as int].context_menu is Some);
                return true;
            }
            i = i + 1;
        }
        false
    }

    /// Puts the thumbnails on one monitor where `layouts` has their windows.
    pub fn rearrange(
        &mut self,
        hmonitor: i64,
        windows: &Vec<WindowData>,
        layouts: &Vec<ThumbnailLayout>,
    ) -> (r: Vec<ThumbnailMove>)
        requires
            old(self).wf(),
            layouts@.len() == windows@.len(),
        ensures
            final(self).wf(),
            match first_true(hmonitor_mask(old(self).monitors@, hmonitor)) {
                None => final(self).monitors@ == old(self).monitors@ && r@.len() == 0,
                Some(i) => {
                    let m = old(self).monitors@[i];
                    let n = final(self).monitors@[i];
                    &&& final(self).monitors@ == old(self).monitors@.update(
                        i,
                        MonitorOverview { thumbnails: n.thumbnails, ..m },
                    )
                    &&& n.thumbnails@ == replaced_rects(m.thumbnails@, windows@, layouts@)
                    &&& r@ == rect_moves(
                        m.thumbnails@,
                        windows@,
                        layouts@,
                        m.thumbnails@.len() as int,
                    )
                },
            },
    {
        match self.find_hmonitor(hmonitor) {
            None => Vec::new(),
            Some(i) => {
                assert(self.monitors@[i as int].wf());
                let moves: Vec<ThumbnailMove> = replace_rects(
                    &mut self.monitors[i].thumbnails,
                    windows,
                    layouts,
                );
                assert(self.monitors@ =~= old(self).monitors@.update(
                    i as int,
                    MonitorOverview {
                        thumbnails: self.monitors@[i as int].thumbnails,
                        ..old(self).monitors@[i as int]
                    },
                ));
                moves
            },
        }
    }
}

/// A press and a release at one place on a thumbnail is a click on its window.
pub proof fn law_still_press_is_a_click(m: MonitorOverview, at: Position)
    requires
        m.context_menu is None,
        m.cursor_pos == Some(at),
        hit(m.thumbnails@, at) is Some,
    ensures
        m.after_press(m.context_menu).outcome() == Some(
            ReleaseOutcome::Click(m.thumbnails@[hit(m.thumbnails@, at)->0].src),
        ),
{
    assert((at.x - at.x) * (at.x - at.x) + (at.y - at.y) * (at.y - at.y) == 0)
        by (nonlinear_arith);
}

/// A press while a menu is open comes to nothing when the button is released,
/// even if the menu is gone by then.
pub proof fn law_press_on_menu_comes_to_nothing(m: MonitorOverview, menu: Option<ContextMenu>)
    requires
        m.context_menu is Some,
    ensures
        m.after_press(menu).outcome() is None,
{
}

} // verus!
