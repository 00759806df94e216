//! What requests carry and what is answered.
use vstd::prelude::*;

verus! {

/// A number out of a request. Where it is finite, `units` is its value in
/// strip units, taken as pixels.
#[derive(Debug, Clone, Copy, PartialEq, Eq, Structural)]
pub struct WireNumber {
    pub finite: bool,
    pub positive: bool,
    pub units: i64,
}

/// Where to scroll to.
#[derive(Debug, Clone, Copy)]
pub struct ScrollRequest {
    /// Absolute offset; wins over `delta`.
    pub offset: Option<i64>,
    /// Relative scroll. Positive values show what lies to the right.
    pub delta: Option<i64>,
    /// Duration of the scroll in milliseconds; 0 is at once.
    pub animate_ms: u32,
}

/// Actions that have a name on the wire.
#[derive(Debug, Clone, Copy, PartialEq, Eq, Structural)]
pub enum NamedAction {
    FocusPrev,
    FocusNext,
    SwapPrev,
    SwapNext,
    ResizeFullscreen,
    ResizeHalfscreen,
    WidthIncrement,
    WidthDecrement,
    Refresh,
    CenterFocused,
    OpenOverview,
    CloseOverview,
    OpenSettings,
    Exit,
}

/// A request that changes something.
#[derive(Debug, Clone)]
pub enum ApiCommand {
    /// Focus the window with this handle.
    Focus(u64),
    SetScrollOffset { offset: i64, animate_ms: u32 },
    ScrollBy { delta: i64, animate_ms: u32 },
    Action(NamedAction),
    /// Repaint a window whose content has gone blank.
    WakeWindow { hwnd: u64 },
    /// Move a window to the monitor with this device name.
    MoveToMonitor { hwnd: u64, device_name: String },
    /// Change the width of a tile, and scroll it into the middle where
    /// `center` is set.
    ResizeWindow { hwnd: u64, target_width: i64, animate_ms: u32, center: bool },
}

#[derive(Debug)]
pub struct WindowDescriptor {
    /// The handle of the window.
    pub id: u64,
    pub title: String,
    pub process: String,
    pub class: String,
    pub width: i64,
    pub x: i64,
    pub focused: bool,
    pub monitor: String,
    pub tiled: bool,
    pub minimized: bool,
    pub desktop_id: Option<u32>,
}

#[derive(Debug)]
pub struct MonitorDescriptor {
    pub index: usize,
    pub device_name: String,
    pub is_primary: bool,
    pub is_tiling: bool,
    pub work_area: WorkArea,
}

#[derive(Debug, Clone, Copy, PartialEq, Eq, Structural)]
pub struct WorkArea {
    pub x: i32,
    pub y: i32,
    pub width: i32,
    pub height: i32,
}

#[derive(Debug)]
pub struct MoveToMonitorRequest {
    pub device_name: String,
}

#[derive(Debug, Clone, Copy)]
pub struct ResizeRequest {
    pub width: WireNumber,
    pub animate_ms: u32,
    pub center: bool,
}

#[derive(Debug)]
pub struct StateResponse {
    /// "tiler", "overview" or "exit".
    pub mode: String,
    pub overview_active: bool,
    pub windows: Vec<WindowDescriptor>,
    pub focused_id: Option<u64>,
    pub scroll_offset: i64,
    pub total_width: i64,
    pub screen_width: i64,
    pub screen_height: i64,
    pub tiling_monitor: String,
    pub monitors: Vec<MonitorDescriptor>,
}

#[derive(Debug)]
pub struct ErrorBody {
    pub error: String,
}

} // verus!
