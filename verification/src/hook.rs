//! Input and window events from the window system.
use vstd::prelude::*;

use crate::geometry::truncated;

verus! {

/// Least time between two window events that are passed on, in nanoseconds.
pub const WINDOW_HOOK_COOLDOWN: u64 = 500_000_000;

/// Thins out a stream of window events: the first of a burst is passed on at
/// once, the rest of it as one event when the cooldown is over.
#[derive(Debug, Clone, Copy, PartialEq, Eq, Structural)]
pub struct Coalescer {
    /// When an event was last passed on; `None` before the first.
    pub last_fire: Option<u64>,
    /// An event came during the cooldown.
    pub trailing_pending: bool,
}

/// What the timer does next.
#[derive(Debug, Clone, Copy, PartialEq, Eq, Structural)]
pub enum TimerStep {
    /// Wait until an event is pending.
    Wait,
    /// Look again after so many nanoseconds.
    Sleep { duration: u64 },
    /// Pass an event on.
    Fire,
}

impl Coalescer {
    /// Cooldown left at `now`.
    pub open spec fn cooldown(self, now: u64) -> int {
        match self.last_fire {
            None => 0,
            Some(t) => {
                let elapsed = if now > t {
                    now - t
                } else {
                    0
                };
                if elapsed >= WINDOW_HOOK_COOLDOWN {
                    0
                } else {
                    WINDOW_HOOK_COOLDOWN - elapsed
                }
            },
        }
    }

    pub fn new() -> (r: Self)
        ensures
            r == (Coalescer { last_fire: None, trailing_pending: false }),
    {
        Coalescer { last_fire: None, trailing_pending: false }
    }

    fn cooldown_left(&self, now: u64) -> (r: u64)
        ensures
            r == self.cooldown(now),
    {
        match self.last_fire {
            None => 0,
            Some(t) => {
                let elapsed: u64 = if now > t {
                    now - t
                } else {
                    0
                };
                if elapsed >= WINDOW_HOOK_COOLDOWN {
                    0
                } else {
                    WINDOW_HOOK_COOLDOWN - elapsed
                }
            },
        }
    }

    /// Takes an event; says whether to pass it on now. Otherwise one is left
    /// pending, for the timer.
    pub fn request_tick(&mut self, now: u64) -> (fire: bool)
        ensures
            fire == (old(self).cooldown(now) == 0),
            *final(self) == (if fire {
                Coalescer { last_fire: Some(now), trailing_pending: false }
            } else {
                Coalescer { trailing_pending: true, ..*old(self) }
            }),
    {
        if self.cooldown_left(now) == 0 {
            self.last_fire = Some(now);
            self.trailing_pending = false;
            true
        } else {
            self.trailing_pending = true;
            false
        }
    }

    /// What the timer does at `now`.
    pub fn timer_step(&mut self, now: u64) -> (r: TimerStep)
        ensures
            r == (if !old(self).trailing_pending {
                TimerStep::Wait
            } else if old(self).cooldown(now) > 0 {
                TimerStep::Sleep { duration: old(self).cooldown(now) as u64 }
            } else {
                TimerStep::Fire
            }),
            *final(self) == (if r is Fire {
                Coalescer { last_fire: Some(now), trailing_pending: false }
            } else {
                *old(self)
            }),
    {
        if !self.trailing_pending {
            return TimerStep::Wait;
        }
        let left: u64 = self.cooldown_left(now);
        if left > 0 {
            return TimerStep::Sleep { duration: left };
        }
        self.trailing_pending = false;
        self.last_fire = Some(now);
        TimerStep::Fire
    }
}

/// Two events that are passed on are a cooldown apart.
pub proof fn law_fires_are_a_cooldown_apart(c: Coalescer, first: u64, second: u64)
    requires
        c.last_fire == Some(first),
        first <= second,
        c.cooldown(second) == 0,
    ensures
        second - first >= WINDOW_HOOK_COOLDOWN,
{
}

/// The timer that sleeps as long as it is told finds the cooldown over.
pub proof fn law_pending_event_is_passed_on(c: Coalescer, now: u64)
    requires
        c.trailing_pending,
        now + c.cooldown(now) <= u64::MAX,
        c.last_fire matches Some(t) ==> t <= now,
    ensures
        c.cooldown((now + c.cooldown(now)) as u64) == 0,
{
}

pub const WM_MOUSEWHEEL: usize = 0x020A;

/// The signed turn of the wheel in the high half of the mouse data.
pub open spec fn wheel_turn(mouse_data: u32) -> int {
    let high = mouse_data as int / 65536;
    if high >= 32768 {
        high - 65536
    } else {
        high
    }
}

/// One notch of the wheel, a turn of 120, scrolls by 100 pixels; turning it up
/// shows what lies to the left.
pub open spec fn wheel_scroll(mouse_data: u32) -> int {
    -truncated(wheel_turn(mouse_data) * 100_000, 120)
}

/// How far a mouse event scrolls the strip. `None` for one that goes on to the
/// window under the cursor; any other is kept from it.
pub fn mouse_proc(code: i32, message: usize, mouse_data: u32, win_down: bool) -> (r: Option<i64>)
    ensures
        r == (if code >= 0 && message == WM_MOUSEWHEEL && win_down {
            Some(wheel_scroll(mouse_data) as i64)
        } else {
            None
        }),
{
    if code >= 0 && message == WM_MOUSEWHEEL {
        let high: i128 = (mouse_data / 65536) as i128;
        let turn: i128 = if high >= 32768 {
            high - 65536
        } else {
            high
        };
        if win_down {
            let scroll: i128 = -crate::geometry::trunc_div(turn * 100_000, 120);
            return Some(scroll as i64);
        }
    }
    None
}

/// Half a second after an event was passed on the next one may be; until then
/// what is left of that time is what is waited for.
pub proof fn law_events_wait_half_a_second(c: Coalescer, now: u64)
    ensures
        c.last_fire is None ==> c.cooldown(now) == 0,
        c.last_fire matches Some(t) ==> {
            &&& now >= t + 500_000_000 ==> c.cooldown(now) == 0
            &&& t <= now < t + 500_000_000 ==> now + c.cooldown(now) == t + 500_000_000
            &&& now < t ==> c.cooldown(now) == 500_000_000
        },
{
}

/// Turning the wheel by so many notches scrolls by so many times 100 pixels:
/// away from the user shows what lies to the left, toward the user what lies to
/// the right.
pub proof fn law_notches_scroll_by_a_hundred_pixels(mouse_data: u32, notches: int, low: int)
    requires
        -273 <= notches <= 273,
        0 <= low < 65_536,
        mouse_data == (if notches >= 0 {
            notches * 120
        } else {
            65_536 + notches * 120
        }) * 65_536 + low,
    ensures
        wheel_scroll(mouse_data) == -100_000 * notches,
{
    let turn = notches * 120;
    let high = mouse_data as int / 65536;
    assert(high == (if notches >= 0 {
        turn
    } else {
        65_536 + turn
    }));
    assert(wheel_turn(mouse_data) == turn);
    assert(turn * 100_000 == 120 * (100_000 * notches));
}

} // verus!
