//! The HTTP interface.
use vstd::prelude::*;

use crate::api::types::{MonitorDescriptor, StateResponse, WindowDescriptor, WorkArea};
use crate::text::same;

pub mod capture;
pub mod events;
pub mod server;
pub mod types;

verus! {

/// What readers are shown.
#[derive(Debug)]
pub struct ApiState {
    /// "tiler", "overview" or "exit".
    pub mode: String,
    pub windows: Vec<WindowSnapshot>,
    pub focused_window_id: Option<u64>,
    pub scroll_offset: i64,
    /// Extent of all tiles with their gaps.
    pub total_width: i64,
    pub screen_width: i64,
    pub screen_height: i64,
    pub tiling_monitor_device_name: String,
    pub monitors: Vec<MonitorSnapshot>,
}

#[derive(Debug)]
pub struct MonitorSnapshot {
    pub index: usize,
    pub device_name: String,
    pub is_primary: bool,
    pub is_tiling: bool,
    pub work_area_x: i32,
    pub work_area_y: i32,
    pub work_area_width: i32,
    pub work_area_height: i32,
}

#[derive(Debug)]
pub struct WindowSnapshot {
    /// The handle of the window.
    pub id: u64,
    pub title: String,
    pub process: String,
    pub class: String,
    /// Width of the tile.
    pub width: i64,
    /// Left edge in the strip. Subtract the scroll offset to get the place on
    /// the screen.
    pub x: i64,
    /// Device name of the monitor the window is on.
    pub monitor: String,
    pub tiled: bool,
    pub minimized: bool,
    /// Number of the virtual desktop, from 1.
    pub desktop_id: Option<u32>,
}

/// `d` describes `w`.
pub open spec fn describes(w: WindowSnapshot, focused: Option<u64>, d: WindowDescriptor) -> bool {
    &&& d.id == w.id
    &&& d.title == w.title
    &&& d.process == w.process
    &&& d.class == w.class
    &&& d.width == w.width
    &&& d.x == w.x
    &&& d.focused == (focused == Some(w.id))
    &&& d.monitor == w.monitor
    &&& d.tiled == w.tiled
    &&& d.minimized == w.minimized
    &&& d.desktop_id == w.desktop_id
}

pub open spec fn describes_monitor(m: MonitorSnapshot, d: MonitorDescriptor) -> bool {
    &&& d.index == m.index
    &&& d.device_name == m.device_name
    &&& d.is_primary == m.is_primary
    &&& d.is_tiling == m.is_tiling
    &&& d.work_area == (WorkArea {
        x: m.work_area_x,
        y: m.work_area_y,
        width: m.work_area_width,
        height: m.work_area_height,
    })
}

/// The windows as they are answered, in order.
pub fn window_descriptors(state: &ApiState) -> (r: Vec<WindowDescriptor>)
    ensures
        r@.len() == state.windows@.len(),
        forall|i: int|
            0 <= i < r@.len() ==> describes(
                state.windows@[i],
                state.focused_window_id,
                #[trigger] r@[i],
            ),
{
    let mut out: Vec<WindowDescriptor> = Vec::new();
    let mut i: usize = 0;
    while i < state.windows.len()
        invariant
            i <= state.windows@.len(),
            out@.len() == i,
            forall|j: int|
                0 <= j < i ==> describes(
                    state.windows@[j],
                    state.focused_window_id,
                    #[trigger] out@[j],
                ),
        decreases state.windows@.len() - i,
    {
        let w: &WindowSnapshot = &state.windows[i];
        let focused: bool = match state.focused_window_id {
            Some(id) => id == w.id,
            None => false,
        };
        out.push(
            WindowDescriptor {
                id: w.id,
                title: w.title.clone(),
                process: w.process.clone(),
                class: w.class.clone(),
                width: w.width,
                x: w.x,
                focused,
                monitor: w.monitor.clone(),
                tiled: w.tiled,
                minimized: w.minimized,
                desktop_id: w.desktop_id,
            },
        );
        i = i + 1;
    }
    out
}

/// The monitors as they are answered, in order.
pub fn monitor_descriptors(state: &ApiState) -> (r: Vec<MonitorDescriptor>)
    ensures
        r@.len() == state.monitors@.len(),
        forall|i: int|
            0 <= i < r@.len() ==> describes_monitor(state.monitors@[i], #[trigger] r@[i]),
{
    let mut out: Vec<MonitorDescriptor> = Vec::new();
    let mut i: usize = 0;
    while i < state.monitors.len()
        invariant
            i <= state.monitors@.len(),
            out@.len() == i,
            forall|j: int|
                0 <= j < i ==> describes_monitor(state.monitors@[j], #[trigger] out@[j]),
        decreases state.monitors@.len() - i,
    {
        let m: &MonitorSnapshot = &state.monitors[i];
        out.push(
            MonitorDescriptor {
                index: m.index,
                device_name: m.device_name.clone(),
                is_primary: m.is_primary,
                is_tiling: m.is_tiling,
                work_area: WorkArea {
                    x: m.work_area_x,
                    y: m.work_area_y,
                    width: m.work_area_width,
                    height: m.work_area_height,
                },
            },
        );
        i = i + 1;
    }
    out
}

/// The state as it is answered and pushed.
pub fn build_state_response(state: &ApiState) -> (r: StateResponse)
    ensures
        r.mode == state.mode,
        r.overview_active == (state.mode@ == "overview"@),
        r.windows@.len() == state.windows@.len(),
        forall|i: int|
            0 <= i < r.windows@.len() ==> describes(
                state.windows@[i],
                state.focused_window_id,
                #[trigger] r.windows@[i],
            ),
        r.focused_id == state.focused_window_id,
        r.scroll_offset == state.scroll_offset,
        r.total_width == state.total_width,
        r.screen_width == state.screen_width,
        r.screen_height == state.screen_height,
        r.tiling_monitor == state.tiling_monitor_device_name,
        r.monitors@.len() == state.monitors@.len(),
        forall|i: int|
            0 <= i < r.monitors@.len() ==> describes_monitor(
                state.monitors@[i],
                #[trigger] r.monitors@[i],
            ),
{
    StateResponse {
        mode: state.mode.clone(),
        overview_active: same(state.mode.as_str(), "overview"),
        windows: window_descriptors(state),
        focused_id: state.focused_window_id,
        scroll_offset: state.scroll_offset,
        total_width: state.total_width,
        screen_width: state.screen_width,
        screen_height: state.screen_height,
        tiling_monitor: state.tiling_monitor_device_name.clone(),
        monitors: monitor_descriptors(state),
    }
}

} // verus!
