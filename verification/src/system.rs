//! The screen, its colours and the keyboard.
use vstd::prelude::*;

use crate::config::Config;
use crate::geometry::{trunc_div, truncated, Position, Rect, Size, PX};
use crate::window::filter::{opened, opened_windows};
use crate::window::{padded_on, BatchMove, Desktop, PixelRect, Window};

verus! {

pub open spec fn fits_i32(v: int) -> bool {
    i32::MIN <= v <= i32::MAX
}

/// Which edge of the screen the taskbar is at.
#[derive(Debug, Clone, Copy, PartialEq, Eq, Structural)]
pub enum TaskbarEdge {
    Top,
    Bottom,
    Left,
    Right,
}

/// A bar at least as wide as high is at the top or at the bottom; the half of
/// the screen its middle is in decides.
pub open spec fn edge_of(tray: Rect, screen_width: int, screen_height: int) -> TaskbarEdge {
    if tray.right - tray.left >= tray.bottom - tray.top {
        if truncated(tray.top + tray.bottom, 2) >= truncated(screen_height, 2) {
            TaskbarEdge::Bottom
        } else {
            TaskbarEdge::Top
        }
    } else if truncated(tray.left + tray.right, 2) >= truncated(screen_width, 2) {
        TaskbarEdge::Right
    } else {
        TaskbarEdge::Left
    }
}

pub open spec fn at_most(v: int, limit: int) -> int {
    if v <= limit {
        v
    } else {
        limit
    }
}

/// Right edge of the room for tiles. A taskbar on the right is left free in
/// full, also while it is hidden.
pub open spec fn usable_right(work: Rect, width: int, height: int, tray: Option<Rect>) -> int {
    match tray {
        Some(t) if edge_of(t, width, height) == TaskbarEdge::Right => at_most(
            work.right as int,
            width - (t.right - t.left),
        ),
        _ => work.right as int,
    }
}

/// Bottom edge of the room for tiles. A taskbar at the bottom is left free in
/// full, also while it is hidden.
pub open spec fn usable_bottom(work: Rect, width: int, height: int, tray: Option<Rect>) -> int {
    match tray {
        Some(t) if edge_of(t, width, height) == TaskbarEdge::Bottom => at_most(
            work.bottom as int,
            height - (t.bottom - t.top),
        ),
        _ => work.bottom as int,
    }
}

/// All lengths involved fit 32 bits.
pub open spec fn measurable(work: Rect, width: int, height: int, tray: Option<Rect>) -> bool {
    &&& tray matches Some(t) ==> {
        &&& fits_i32(t.right - t.left)
        &&& fits_i32(t.bottom - t.top)
        &&& t.right - t.left >= t.bottom - t.top ==> fits_i32(t.top + t.bottom)
        &&& t.right - t.left < t.bottom - t.top ==> fits_i32(t.left + t.right)
        &&& edge_of(t, width, height) == TaskbarEdge::Bottom ==> fits_i32(
            height - (t.bottom - t.top),
        )
        &&& edge_of(t, width, height) == TaskbarEdge::Right ==> fits_i32(
            width - (t.right - t.left),
        )
    }
    &&& fits_i32(usable_right(work, width, height, tray) - work.left)
    &&& fits_i32(usable_bottom(work, width, height, tray) - work.top)
}

fn middle(a: i32, b: i32) -> (r: i64)
    ensures
        r == truncated(a + b, 2),
{
    trunc_div(a as i128 + b as i128, 2) as i64
}

fn taskbar_edge(tray: Rect, width: i32, height: i32) -> (r: TaskbarEdge)
    ensures
        r == edge_of(tray, width as int, height as int),
{
    let bar_width: i64 = tray.right as i64 - tray.left as i64;
    let bar_height: i64 = tray.bottom as i64 - tray.top as i64;
    if bar_width >= bar_height {
        if middle(tray.top, tray.bottom) >= middle(0, height) {
            TaskbarEdge::Bottom
        } else {
            TaskbarEdge::Top
        }
    } else if middle(tray.left, tray.right) >= middle(0, width) {
        TaskbarEdge::Right
    } else {
        TaskbarEdge::Left
    }
}

/// Size of the primary screen without its taskbar. `work` is the work area as
/// the window system reports it, `width` and `height` the size of the whole
/// screen, `tray` the visible taskbar.
pub fn screen_size(work: Rect, width: i32, height: i32, tray: Option<Rect>) -> (r: Size)
    requires
        measurable(work, width as int, height as int, tray),
    ensures
        r.width == (usable_right(work, width as int, height as int, tray) - work.left) * PX,
        r.height == (usable_bottom(work, width as int, height as int, tray) - work.top) * PX,
        r.ok(),
{
    let mut right: i64 = work.right as i64;
    let mut bottom: i64 = work.bottom as i64;
    match tray {
        Some(t) => match taskbar_edge(t, width, height) {
            TaskbarEdge::Bottom => {
                let limit: i64 = height as i64 - (t.bottom as i64 - t.top as i64);
                if limit < bottom {
                    bottom = limit;
                }
            },
            TaskbarEdge::Right => {
                let limit: i64 = width as i64 - (t.right as i64 - t.left as i64);
                if limit < right {
                    right = limit;
                }
            },
            TaskbarEdge::Top | TaskbarEdge::Left => {},
        },
        None => {},
    }
    Size { width: (right - work.left as i64) * PX, height: (bottom - work.top as i64) * PX }
}

/// Whether tiles will overlap the taskbar or be off: it is at the top or on
/// the left, or the work area does not start at the origin.
pub fn misplaced(work: Rect, width: i32, height: i32, tray: Option<Rect>) -> (r: bool)
    ensures
        r == (work.left != 0 || work.top != 0 || (tray matches Some(t) && (edge_of(
            t,
            width as int,
            height as int,
        ) == TaskbarEdge::Top || edge_of(t, width as int, height as int) == TaskbarEdge::Left))),
{
    if work.left != 0 || work.top != 0 {
        return true;
    }
    match tray {
        Some(t) => {
            let edge: TaskbarEdge = taskbar_edge(t, width, height);
            edge == TaskbarEdge::Top || edge == TaskbarEdge::Left
        },
        None => false,
    }
}

#[derive(Debug, Clone, Copy, PartialEq, Eq, Structural)]
pub struct Rgb {
    pub r: u8,
    pub g: u8,
    pub b: u8,
}

/// The colour in a packed value: red in the lowest byte, then green, then
/// blue.
pub fn highlight_color(packed: u32) -> (c: Rgb)
    ensures
        c.r == packed as int % 256,
        c.g == packed as int / 256 % 256,
        c.b == packed as int / 65536 % 256,
{
    Rgb {
        r: (packed % 256) as u8,
        g: (packed / 256 % 256) as u8,
        b: (packed / 65536 % 256) as u8,
    }
}

/// Where the window numbered `k` is put when the program ends.
pub open spec fn cascade_position(k: int) -> Position {
    Position { x: (100_000 + 100_000 * k) as i64, y: (100_000 + 100_000 * k) as i64 }
}

pub open spec fn cascade_size() -> Size {
    Size { width: 800_000, height: 600_000 }
}

/// The moves of the first `upto` windows.
pub open spec fn cascade(desk: Desktop, windows: Seq<Window>, upto: int) -> Seq<BatchMove>
    decreases upto,
{
    if upto <= 0 {
        seq![]
    } else {
        let before = cascade(desk, windows, upto - 1);
        match padded_on(desk, windows[upto - 1], cascade_position(upto - 1), cascade_size()) {
            Some(rect) => before.push(BatchMove { window: windows[upto - 1], rect }),
            None => before,
        }
    }
}

/// Puts the tiled windows where they can be found, one step to the right and
/// down each, so that none is lost off the screen.
pub fn restore_windows(desk: &Desktop, cfg: &Config) -> (r: Vec<BatchMove>)
    requires
        desk.observed@.len() <= u32::MAX,
    ensures
        ({
            let windows = opened(*desk, *cfg, desk.observed@.len() as int);
            r@ == cascade(*desk, windows, windows.len() as int)
        }),
{
    let windows: Vec<Window> = opened_windows(desk, cfg);
    proof {
        crate::window::filter::lemma_opened_len(*desk, *cfg, desk.observed@.len() as int);
    }
    let mut moves: Vec<BatchMove> = Vec::new();
    let mut k: usize = 0;
    while k < windows.len()
        invariant
            k <= windows@.len(),
            windows@.len() <= u32::MAX,
            moves@ == cascade(*desk, windows@, k as int),
        decreases windows@.len() - k,
    {
        let at: i64 = 100_000 + 100_000 * (k as i64);
        let rect: Option<PixelRect> = windows[k].padded_rect(
            Position { x: at, y: at },
            Size { width: 800_000, height: 600_000 },
            desk,
        );
        match rect {
            Some(rect) => {
                moves.push(BatchMove { window: windows[k], rect });
            },
            None => {},
        }
        k = k + 1;
    }
    moves
}

#[verifier::external_type_specification]
#[verifier::external_body]
pub struct ExModifiers(keyboard_types::Modifiers);

/// The modifier keys the program knows.
#[derive(Debug, Clone, Copy, PartialEq, Eq, Structural)]
pub enum ModifierKey {
    Shift,
    Control,
    Meta,
    Alt,
}

/// Which of those keys a set of modifiers holds.
pub uninterp spec fn held_keys(modifiers: keyboard_types::Modifiers) -> Set<ModifierKey>;

/// `Modifiers::empty`: a set that holds no modifier.
#[verifier::external_body]
fn no_modifiers() -> (r: keyboard_types::Modifiers)
    ensures
        held_keys(r) == Set::<ModifierKey>::empty(),
{
    keyboard_types::Modifiers::empty()
}

/// `Modifiers::insert` with the flag of one key: the set then holds that key
/// besides what it held.
#[verifier::external_body]
fn insert_modifier(modifiers: &mut keyboard_types::Modifiers, key: ModifierKey)
    ensures
        held_keys(*final(modifiers)) == held_keys(*old(modifiers)).insert(key),
{
    modifiers.insert(match key {
        ModifierKey::Shift => keyboard_types::Modifiers::SHIFT,
        ModifierKey::Control => keyboard_types::Modifiers::CONTROL,
        ModifierKey::Meta => keyboard_types::Modifiers::META,
        ModifierKey::Alt => keyboard_types::Modifiers::ALT,
    });
}

/// The states of the modifier keys as the window system gives them; `None`
/// where it gave none.
#[derive(Debug, Clone, Copy)]
pub struct KeyStates {
    pub shift: Option<i16>,
    pub left_shift: Option<i16>,
    pub control: Option<i16>,
    pub left_control: Option<i16>,
    pub left_win: Option<i16>,
    pub right_win: Option<i16>,
    pub menu: Option<i16>,
}

/// A key is down when the upper nine bits of its state are all set.
pub open spec fn key_down(state: Option<i16>) -> bool {
    state matches Some(s) && -128 <= s < 0
}

fn is_vkey_down(state: Option<i16>) -> (r: bool)
    ensures
        r == key_down(state),
{
    match state {
        Some(s) => s >= -128 && s < 0,
        None => false,
    }
}

impl KeyStates {
    pub open spec fn holds(self, key: ModifierKey) -> bool {
        match key {
            ModifierKey::Shift => key_down(self.shift) || key_down(self.left_shift),
            ModifierKey::Control => key_down(self.control) || key_down(self.left_control),
            ModifierKey::Meta => key_down(self.left_win) || key_down(self.right_win),
            ModifierKey::Alt => key_down(self.menu),
        }
    }
}

/// The modifiers that are held down.
pub fn current_modifiers(keys: KeyStates) -> (r: keyboard_types::Modifiers)
    ensures
        forall|key: ModifierKey| #[trigger] held_keys(r).contains(key) <==> keys.holds(key),
{
    let mut modifiers: keyboard_types::Modifiers = no_modifiers();
    if is_vkey_down(keys.shift) || is_vkey_down(keys.left_shift) {
        insert_modifier(&mut modifiers, ModifierKey::Shift);
    }
    if is_vkey_down(keys.control) || is_vkey_down(keys.left_control) {
        insert_modifier(&mut modifiers, ModifierKey::Control);
    }
    if is_vkey_down(keys.left_win) || is_vkey_down(keys.right_win) {
        insert_modifier(&mut modifiers, ModifierKey::Meta);
    }
    if is_vkey_down(keys.menu) {
        insert_modifier(&mut modifiers, ModifierKey::Alt);
    }
    modifiers
}

/// A bar along the upper or the lower edge of the screen is wider than high, and
/// nearer to that edge; one along a side is higher than wide, and nearer to that
/// side.
pub proof fn law_taskbar_is_at_the_edge_it_is_near(tray: Rect, width: int, height: int)
    requires
        0 <= tray.left < tray.right <= width,
        0 <= tray.top < tray.bottom <= height,
    ensures
        ({
            let lies = tray.right - tray.left >= tray.bottom - tray.top;
            let edge = edge_of(tray, width, height);
            &&& lies && tray.top > height - tray.bottom ==> edge == TaskbarEdge::Bottom
            &&& lies && tray.top + 1 < height - tray.bottom ==> edge == TaskbarEdge::Top
            &&& !lies && tray.left > width - tray.right ==> edge == TaskbarEdge::Right
            &&& !lies && tray.left + 1 < width - tray.right ==> edge == TaskbarEdge::Left
        }),
{
}

/// The room for tiles lies within the work area and leaves a taskbar on the
/// right or at the bottom free in full. It is as large as that allows.
pub proof fn law_tiles_leave_the_taskbar_free(
    work: Rect,
    width: int,
    height: int,
    tray: Option<Rect>,
)
    ensures
        ({
            let right = usable_right(work, width, height, tray);
            let bottom = usable_bottom(work, width, height, tray);
            let beside = tray is Some && edge_of(tray->0, width, height) == TaskbarEdge::Right;
            let below = tray is Some && edge_of(tray->0, width, height) == TaskbarEdge::Bottom;
            &&& right <= work.right
            &&& bottom <= work.bottom
            &&& beside ==> right + (tray->0.right - tray->0.left) <= width
            &&& below ==> bottom + (tray->0.bottom - tray->0.top) <= height
            &&& right == work.right || beside && right + (tray->0.right - tray->0.left) == width
            &&& bottom == work.bottom || below && bottom + (tray->0.bottom - tray->0.top) == height
        }),
{
}

/// At the end every window whose borders are known is put on the screen, 800 by
/// 600 pixels large, each 100 pixels further right and down than the one before.
pub proof fn law_windows_end_up_in_a_cascade(desk: Desktop, windows: Seq<Window>, k: int)
    requires
        0 <= k < windows.len(),
        forall|j: int|
            0 <= j < windows.len() ==> desk.frame_of(#[trigger] windows[j]) is Some
                && desk.outer_of(windows[j]) is Some,
        windows.len() <= 1_000_000_000,
    ensures
        ({
            let moves = cascade(desk, windows, windows.len() as int);
            &&& moves.len() == windows.len()
            &&& moves[k].window == windows[k]
            &&& padded_on(
                desk,
                windows[k],
                Position { x: (100_000 * (k + 1)) as i64, y: (100_000 * (k + 1)) as i64 },
                Size { width: 800_000, height: 600_000 },
            ) == Some(moves[k].rect)
        }),
{
    lemma_cascade(desk, windows, windows.len() as int, k);
}

proof fn lemma_cascade(desk: Desktop, windows: Seq<Window>, upto: int, k: int)
    requires
        0 <= upto <= windows.len(),
        forall|j: int|
            0 <= j < windows.len() ==> desk.frame_of(#[trigger] windows[j]) is Some
                && desk.outer_of(windows[j]) is Some,
    ensures
        cascade(desk, windows, upto).len() == upto,
        0 <= k < upto ==> cascade(desk, windows, upto)[k].window == windows[k] && padded_on(
            desk,
            windows[k],
            cascade_position(k),
            cascade_size(),
        ) == Some(cascade(desk, windows, upto)[k].rect),
    decreases upto,
{
    if upto > 0 {
        lemma_cascade(desk, windows, upto - 1, k);
        assert(desk.frame_of(windows[upto - 1]) is Some);
    }
}

} // verus!
