//! Monitors: identification and the choice of the one that hosts the strip.
//!
//! A monitor's handle is good for one session only; across sessions a monitor
//! is known by its device name.
use vstd::prelude::*;

use crate::geometry::Rect;
use crate::search::{first_true, lemma_first_hit, lemma_first_miss};
use crate::text::{decode_utf16, eq_ignore_ascii_case, same, same_ignoring_ascii_case, utf16_lossy};

verus! {

#[derive(Debug)]
pub struct Monitor {
    /// Session handle.
    pub hmonitor: i64,
    /// Stable device name.
    pub device_name: String,
    /// Area without the taskbar.
    pub work_area: Rect,
    pub is_primary: bool,
}

impl Clone for Monitor {
    fn clone(&self) -> (r: Self)
        ensures
            r == *self,
    {
        Monitor {
            hmonitor: self.hmonitor,
            device_name: self.device_name.clone(),
            work_area: self.work_area,
            is_primary: self.is_primary,
        }
    }
}

impl Monitor {
    /// Whether the work area's extents fit their type.
    pub open spec fn ok(self) -> bool {
        &&& i32::MIN <= self.work_area.right - self.work_area.left <= i32::MAX
        &&& i32::MIN <= self.work_area.bottom - self.work_area.top <= i32::MAX
    }

    pub fn work_area_width(&self) -> (r: i32)
        requires
            self.ok(),
        ensures
            r == self.work_area.right - self.work_area.left,
    {
        self.work_area.right - self.work_area.left
    }

    pub fn work_area_height(&self) -> (r: i32)
        requires
            self.ok(),
        ensures
            r == self.work_area.bottom - self.work_area.top,
    {
        self.work_area.bottom - self.work_area.top
    }
}

pub open spec fn name_mask(monitors: Seq<Monitor>, name: Seq<char>) -> Seq<bool> {
    Seq::new(monitors.len(), |i: int| monitors[i].device_name@ == name)
}

pub open spec fn primary_mask(monitors: Seq<Monitor>) -> Seq<bool> {
    Seq::new(monitors.len(), |i: int| monitors[i].is_primary)
}

pub open spec fn handle_mask(monitors: Seq<Monitor>, hmonitor: i64) -> Seq<bool> {
    Seq::new(monitors.len(), |i: int| monitors[i].hmonitor == hmonitor)
}

pub open spec fn pick(monitors: Seq<Monitor>, index: Option<int>) -> Option<Monitor> {
    match index {
        Some(i) => Some(monitors[i]),
        None => None,
    }
}

/// The first monitor with the given device name.
pub fn find_by_device_name(monitors: &Vec<Monitor>, name: &str) -> (r: Option<Monitor>)
    ensures
        r == pick(monitors@, first_true(name_mask(monitors@, name@))),
{
    let mut i: usize = 0;
    while i < monitors.len()
        invariant
            i <= monitors.len(),
            forall|j: int| 0 <= j < i ==> !name_mask(monitors@, name@)[j],
        decreases monitors.len() - i,
    {
        if same(monitors[i].device_name.as_str(), name) {
            proof {
                lemma_first_hit(name_mask(monitors@, name@), i as int);
            }
            return Some(monitors[i].clone());
        }
        i = i + 1;
    }
    proof {
        lemma_first_miss(name_mask(monitors@, name@));
    }
    None
}

/// The first monitor flagged as primary.
fn find_primary(monitors: &Vec<Monitor>) -> (r: Option<Monitor>)
    ensures
        r == pick(monitors@, first_true(primary_mask(monitors@))),
{
    let mut i: usize = 0;
    while i < monitors.len()
        invariant
            i <= monitors.len(),
            forall|j: int| 0 <= j < i ==> !primary_mask(monitors@)[j],
        decreases monitors.len() - i,
    {
        if monitors[i].is_primary {
            proof {
                lemma_first_hit(primary_mask(monitors@), i as int);
            }
            return Some(monitors[i].clone());
        }
        i = i + 1;
    }
    proof {
        lemma_first_miss(primary_mask(monitors@));
    }
    None
}

/// The first monitor with the given session handle.
pub fn find_by_handle(monitors: &Vec<Monitor>, hmonitor: i64) -> (r: Option<Monitor>)
    ensures
        r == pick(monitors@, first_true(handle_mask(monitors@, hmonitor))),
{
    let mut i: usize = 0;
    while i < monitors.len()
        invariant
            i <= monitors.len(),
            forall|j: int| 0 <= j < i ==> !handle_mask(monitors@, hmonitor)[j],
        decreases monitors.len() - i,
    {
        if monitors[i].hmonitor == hmonitor {
            proof {
                lemma_first_hit(handle_mask(monitors@, hmonitor), i as int);
            }
            return Some(monitors[i].clone());
        }
        i = i + 1;
    }
    proof {
        lemma_first_miss(handle_mask(monitors@, hmonitor));
    }
    None
}

/// Why no monitor could be chosen.
#[derive(Debug, Clone, Copy, PartialEq, Eq, Structural)]
pub enum MonitorError {
    /// No monitor is attached.
    NoneDetected,
    /// The primary monitor was asked for and none is flagged.
    NoPrimary,
    /// The named monitor is not attached and no primary is flagged.
    NoPrimaryAndNoMatch,
}

pub open spec fn tiling_monitor(monitors: Seq<Monitor>, config_value: Seq<char>) -> Result<
    Monitor,
    MonitorError,
> {
    let primary = pick(monitors, first_true(primary_mask(monitors)));
    let named = pick(monitors, first_true(name_mask(monitors, config_value)));
    if monitors.len() == 0 {
        Err(MonitorError::NoneDetected)
    } else if same_ignoring_ascii_case(config_value, "primary"@) {
        match primary {
            Some(m) => Ok(m),
            None => Err(MonitorError::NoPrimary),
        }
    } else {
        match (named, primary) {
            (Some(m), _) => Ok(m),
            (None, Some(m)) => Ok(m),
            (None, None) => Err(MonitorError::NoPrimaryAndNoMatch),
        }
    }
}

/// Resolves the configured monitor: the word `primary`, or a device name, which
/// gives way to the primary monitor where it is not attached.
pub fn resolve_tiling_monitor(monitors: &Vec<Monitor>, config_value: &str) -> (r: Result<
    Monitor,
    MonitorError,
>)
    ensures
        r == tiling_monitor(monitors@, config_value@),
{
    if monitors.len() == 0 {
        return Err(MonitorError::NoneDetected);
    }
    if eq_ignore_ascii_case(config_value, "primary") {
        return match find_primary(monitors) {
            Some(m) => Ok(m),
            None => Err(MonitorError::NoPrimary),
        };
    }
    match find_by_device_name(monitors, config_value) {
        Some(m) => Ok(m),
        None => match find_primary(monitors) {
            Some(m) => Ok(m),
            None => Err(MonitorError::NoPrimaryAndNoMatch),
        },
    }
}

/// While a primary monitor is flagged, every configured value resolves.
pub proof fn law_primary_always_resolves(monitors: Seq<Monitor>, config_value: Seq<char>, i: int)
    requires
        0 <= i < monitors.len(),
        monitors[i].is_primary,
    ensures
        tiling_monitor(monitors, config_value) is Ok,
{
    crate::search::lemma_first_true(primary_mask(monitors));
    assert(primary_mask(monitors)[i]);
}

pub open spec fn nul_mask(buf: Seq<u16>) -> Seq<bool> {
    Seq::new(buf.len(), |i: int| buf[i] == 0)
}

/// The units before the first NUL.
pub open spec fn before_nul(buf: Seq<u16>) -> Seq<u16> {
    match first_true(nul_mask(buf)) {
        Some(i) => buf.take(i),
        None => buf,
    }
}

/// Decodes a fixed-size buffer of UTF-16 units that a NUL may end early.
pub fn read_wide_nul_terminated(buf: &Vec<u16>) -> (r: String)
    ensures
        r@ == utf16_lossy(before_nul(buf@)),
{
    let mut kept: Vec<u16> = Vec::new();
    let mut i: usize = 0;
    while i < buf.len()
        invariant
            i <= buf.len(),
            kept@ == buf@.take(i as int),
            forall|j: int| 0 <= j < i ==> !nul_mask(buf@)[j],
        decreases buf.len() - i,
    {
        if buf[i] == 0 {
            proof {
                lemma_first_hit(nul_mask(buf@), i as int);
            }
            return decode_utf16(kept.as_slice());
        }
        kept.push(buf[i]);
        assert(kept@ =~= buf@.take(i + 1));
        i = i + 1;
    }
    proof {
        lemma_first_miss(nul_mask(buf@));
    }
    assert(kept@ =~= buf@);
    decode_utf16(kept.as_slice())
}

pub const MONITORINFOF_PRIMARY: u32 = 0x0000_0001;

/// The monitor that the window system describes by these values.
pub fn described(hmonitor: i64, device: &Vec<u16>, work_area: Rect, flags: u32) -> (r: Monitor)
    ensures
        r.hmonitor == hmonitor,
        r.device_name@ == utf16_lossy(before_nul(device@)),
        r.work_area == work_area,
        r.is_primary == (flags & MONITORINFOF_PRIMARY != 0),
{
    Monitor {
        hmonitor,
        device_name: read_wide_nul_terminated(device),
        work_area,
        is_primary: flags & MONITORINFOF_PRIMARY != 0,
    }
}

/// The first monitor with the given name is taken, unless the word `primary` is
/// meant.
pub proof fn law_named_monitor_is_taken(monitors: Seq<Monitor>, config_value: Seq<char>, i: int)
    requires
        0 <= i < monitors.len(),
        monitors[i].device_name@ == config_value,
        forall|k: int| 0 <= k < i ==> (#[trigger] monitors[k]).device_name@ != config_value,
        !same_ignoring_ascii_case(config_value, seq!['p', 'r', 'i', 'm', 'a', 'r', 'y']),
    ensures
        tiling_monitor(monitors, config_value) == Ok::<Monitor, MonitorError>(monitors[i]),
{
    reveal_strlit("primary");
    assert("primary"@ =~= seq!['p', 'r', 'i', 'm', 'a', 'r', 'y']);
    lemma_first_hit(name_mask(monitors, config_value), i);
}

/// Where the word `primary` is meant, in capitals or not, or no monitor has the
/// given name, the first primary monitor is taken. Without one there is nothing
/// to tile on, and it is said why.
pub proof fn law_primary_monitor_stands_in(monitors: Seq<Monitor>, config_value: Seq<char>, i: int)
    requires
        same_ignoring_ascii_case(config_value, seq!['p', 'r', 'i', 'm', 'a', 'r', 'y']) || forall|
            k: int,
        |
            0 <= k < monitors.len() ==> (#[trigger] monitors[k]).device_name@ != config_value,
    ensures
        ({
            let r = tiling_monitor(monitors, config_value);
            let meant = same_ignoring_ascii_case(
                config_value,
                seq!['p', 'r', 'i', 'm', 'a', 'r', 'y'],
            );
            let none = forall|k: int|
                0 <= k < monitors.len() ==> !(#[trigger] monitors[k]).is_primary;
            &&& 0 <= i < monitors.len() && monitors[i].is_primary && (forall|k: int|
                0 <= k < i ==> !(#[trigger] monitors[k]).is_primary) ==> r == Ok::<
                Monitor,
                MonitorError,
            >(monitors[i])
            &&& monitors.len() == 0 ==> r == Err::<Monitor, MonitorError>(
                MonitorError::NoneDetected,
            )
            &&& monitors.len() > 0 && none ==> r == Err::<Monitor, MonitorError>(
                if meant {
                    MonitorError::NoPrimary
                } else {
                    MonitorError::NoPrimaryAndNoMatch
                },
            )
        }),
{
    reveal_strlit("primary");
    assert("primary"@ =~= seq!['p', 'r', 'i', 'm', 'a', 'r', 'y']);
    if forall|k: int| 0 <= k < monitors.len() ==> (#[trigger] monitors[k]).device_name@
        != config_value {
        lemma_first_miss(name_mask(monitors, config_value));
    }
    if 0 <= i < monitors.len() && monitors[i].is_primary && (forall|k: int|
        0 <= k < i ==> !(#[trigger] monitors[k]).is_primary) {
        lemma_first_hit(primary_mask(monitors), i);
    }
    if forall|k: int| 0 <= k < monitors.len() ==> !(#[trigger] monitors[k]).is_primary {
        lemma_first_miss(primary_mask(monitors));
    }
}

/// A wide text ends before its first NUL, or where the buffer ends.
pub proof fn law_wide_text_ends_at_the_first_nul(text: Seq<u16>, rest: Seq<u16>)
    requires
        forall|k: int| 0 <= k < text.len() ==> #[trigger] text[k] != 0,
    ensures
        before_nul(text) == text,
        before_nul(text + seq![0u16] + rest) == text,
{
    lemma_first_miss(nul_mask(text));
    let buf = text + seq![0u16] + rest;
    let mask = nul_mask(buf);
    assert(mask[text.len() as int]);
    assert forall|k: int| 0 <= k < text.len() implies !mask[k] by {
        assert(buf[k] == text[k]);
    }
    lemma_first_hit(mask, text.len() as int);
    assert(buf.take(text.len() as int) =~= text);
}

} // verus!
