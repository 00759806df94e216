//! What the program does about the messages it gets.
use vstd::prelude::*;

use crate::api::types::{ApiCommand, NamedAction};
use crate::app::action::{Action, OverviewAction, TilerAction};
use crate::app::overview;
use crate::app::overview::{ReleaseOutcome, ThumbnailMove};
use crate::app::overview_mode::{
    app_ignored, bound_ids, monitor_move, offscreen_moves, overview_windows, window_ids,
    window_ignored, IgnoreStep, OverviewClosing, OverviewError, OverviewOpening, OverviewWindow,
};
use crate::app::settings::{update, updated, SettingsEffect, SettingsMessage};
use crate::app::tiling::snapshot_windows;
use crate::app::{
    process_text, rule_added, title_text, Mode, SettingsOpening, State, Surroundings,
};
use crate::config::Config;
use crate::geometry::{clamped, scroll_clamped, Position};
use crate::monitor::{handle_mask, pick};
use crate::scroll_tiler::commands::Direction;
use crate::scroll_tiler::layout::{nothing_planned, LayoutPlan};
use crate::scroll_tiler::motion::MIN_REQUEST_WIDTH;
use crate::scroll_tiler::strip::MAX_WINDOWS;
use crate::search::first_true;
use crate::system::{cascade, restore_windows};
use crate::window::filter::opened;
use crate::window::{BatchMove, Desktop, InvalidHandle, PixelRect, Window};

verus! {

/// What comes from outside the program's own windows.
#[derive(Debug, Clone, Copy)]
pub enum GlobalMessage {
    /// A key, with the action it stands for in the current mode.
    Key(Option<Action>),
    /// Something happened to some window.
    Window,
    /// The wheel was turned over the strip.
    HorizontalScroll { delta: i64 },
}

#[derive(Debug, Clone)]
pub enum Message {
    Action(Action),
    Overview(overview::Message),
    Global(GlobalMessage),
    Settings(SettingsMessage),
    Api(ApiCommand),
    /// Time for the next frame.
    AnimationTick,
    WindowCursorMoved { window_id: u64, position: Position },
    WindowMouseDown(u64),
    WindowMouseUp(u64),
    WindowMouseRightDown(u64),
    WindowClosed(u64),
    OverviewIgnoreApp(String),
    OverviewIgnoreWindow(u64),
    OverviewMoveToMonitor { target: Window, device_name: String },
    OverviewForceRedraw(u64),
    CleanupAndExit,
}

/// What is to be done outside the program's state.
#[derive(Debug)]
pub enum Effect {
    Nothing,
    Layout(LayoutPlan),
    /// Look at the desktop again and update the strip.
    Refresh,
    /// Read the configuration from its file again, then refresh; where that
    /// fails, the configuration stays as it is.
    Reload,
    /// Handle this action next.
    Dispatch(Action),
    Focus(Window),
    /// Ask the window to close.
    CloseWindow(Window),
    /// Repaint the window; where `dismiss` is set, menus close once that has
    /// worked.
    Repaint { window: Window, dismiss: bool },
    /// Move the window; menus close once that has worked. Then refresh.
    Move { window: Window, rect: PixelRect },
    /// Write the configuration; menus close once that has worked. Then refresh.
    Save(Config),
    Settings(SettingsEffect),
    /// Close the window of the settings.
    CloseSettings { window_id: Option<u64> },
    OpenSettings(SettingsOpening),
    OpenOverview(Vec<OverviewWindow>),
    /// Show the thumbnails in the window with this number.
    OverviewReady { id: u64, opening: OverviewOpening },
    /// Let go of the overview and refresh; then focus the window, if there is
    /// one.
    CloseOverview { closing: OverviewClosing, jump: Option<Window> },
    MoveThumbnails(Vec<ThumbnailMove>),
    /// Put the windows back where they can be found, and end the program.
    Restore(Vec<BatchMove>),
}

/// What handling one message comes to.
#[derive(Debug)]
pub struct Outcome {
    /// Make sure first that the overlay does not have the focus.
    pub unfocus_overlay: bool,
    pub effect: Effect,
    /// End the program.
    pub exit: bool,
}

/// The action that a name stands for.
pub fn named_action_to_action(named: NamedAction) -> (r: Action)
    ensures
        r == action_of(named),
{
    match named {
        NamedAction::FocusPrev => Action::Tiler(TilerAction::MoveFocusPrevious),
        NamedAction::FocusNext => Action::Tiler(TilerAction::MoveFocusNext),
        NamedAction::SwapPrev => Action::Tiler(TilerAction::SwapWithPrevious),
        NamedAction::SwapNext => Action::Tiler(TilerAction::SwapWithNext),
        NamedAction::ResizeFullscreen => Action::Tiler(TilerAction::ResizeToFullscreen),
        NamedAction::ResizeHalfscreen => Action::Tiler(TilerAction::ResizeToHalfScreen),
        NamedAction::WidthIncrement => Action::Tiler(TilerAction::IncrementWidth),
        NamedAction::WidthDecrement => Action::Tiler(TilerAction::DecrementWidth),
        NamedAction::Refresh => Action::Tiler(TilerAction::ForceRefresh),
        NamedAction::CenterFocused => Action::Tiler(TilerAction::CenterFocused),
        NamedAction::OpenOverview => Action::Tiler(TilerAction::OpenOverview),
        NamedAction::CloseOverview => Action::Overview(OverviewAction::CloseOverview),
        NamedAction::OpenSettings => Action::OpenSettings,
        NamedAction::Exit => Action::Exit,
    }
}

pub open spec fn action_of(named: NamedAction) -> Action {
    match named {
        NamedAction::FocusPrev => Action::Tiler(TilerAction::MoveFocusPrevious),
        NamedAction::FocusNext => Action::Tiler(TilerAction::MoveFocusNext),
        NamedAction::SwapPrev => Action::Tiler(TilerAction::SwapWithPrevious),
        NamedAction::SwapNext => Action::Tiler(TilerAction::SwapWithNext),
        NamedAction::ResizeFullscreen => Action::Tiler(TilerAction::ResizeToFullscreen),
        NamedAction::ResizeHalfscreen => Action::Tiler(TilerAction::ResizeToHalfScreen),
        NamedAction::WidthIncrement => Action::Tiler(TilerAction::IncrementWidth),
        NamedAction::WidthDecrement => Action::Tiler(TilerAction::DecrementWidth),
        NamedAction::Refresh => Action::Tiler(TilerAction::ForceRefresh),
        NamedAction::CenterFocused => Action::Tiler(TilerAction::CenterFocused),
        NamedAction::OpenOverview => Action::Tiler(TilerAction::OpenOverview),
        NamedAction::CloseOverview => Action::Overview(OverviewAction::CloseOverview),
        NamedAction::OpenSettings => Action::OpenSettings,
        NamedAction::Exit => Action::Exit,
    }
}

/// Whether a message can have given the overlay the focus.
pub open spec fn can_steal_focus(message: Message) -> bool {
    message is Overview || message is Action || message is Settings || message is Global
        || message is WindowMouseDown || message is WindowMouseUp || message is WindowMouseRightDown
        || message is WindowClosed
}

fn could_steal_focus(message: &Message) -> (r: bool)
    ensures
        r == can_steal_focus(*message),
{
    match message {
        Message::Overview(_) => true,
        Message::Action(_) => true,
        Message::Settings(_) => true,
        Message::Global(_) => true,
        Message::WindowMouseDown(_) => true,
        Message::WindowMouseUp(_) => true,
        Message::WindowMouseRightDown(_) => true,
        Message::WindowClosed(_) => true,
        _ => false,
    }
}

/// Only the strip has changed.
pub open spec fn only_tiler(before: State, after: State) -> bool {
    after == (State { tiler: after.tiler, ..before })
}

impl State {
    pub fn is_tiling(&self) -> (r: bool)
        ensures
            r == self.tiling(),
    {
        match &self.mode {
            Mode::Tiler(_) => true,
            _ => false,
        }
    }

    /// There is room for the width that a command asks for.
    pub open spec fn room_for(self, command: ApiCommand) -> bool {
        command is ResizeWindow && self.tiling() ==> MIN_REQUEST_WIDTH
            <= self.tiler@.max_screen_width()
    }

    /// The width that a resize command ends with.
    pub open spec fn wire_width(self, target_width: i64) -> int {
        clamped(target_width as int, MIN_REQUEST_WIDTH as int, self.tiler@.max_screen_width())
    }

    /// `after` and `effect` are what scrolling to `offset` leads to: over so
    /// many milliseconds, or at once where there are none.
    pub open spec fn scrolled(
        self,
        offset: i64,
        animate_ms: u32,
        desk: Desktop,
        after: State,
        effect: Effect,
    ) -> bool {
        &&& only_tiler(self, after)
        &&& after.tiler@ == self.tiler@.timed_to(offset, animate_ms, desk)
        &&& effect matches Effect::Layout(p) && self.tiler@.timed_plan(offset, animate_ms, desk, p)
    }

    /// `after` and `effect` are what a command leads to.
    pub open spec fn commanded(
        self,
        command: ApiCommand,
        env: Surroundings,
        after: State,
        effect: Effect,
    ) -> bool {
        match command {
            ApiCommand::Focus(hwnd) => after == self && (if hwnd == 0 {
                effect is Nothing
            } else {
                effect == Effect::Focus(Window { hwnd })
            }),
            ApiCommand::SetScrollOffset { offset, animate_ms } => if self.tiling() {
                self.scrolled(offset, animate_ms, env.desk, after, effect)
            } else {
                after == self && effect is Nothing
            },
            ApiCommand::ScrollBy { delta, animate_ms } => if self.tiling() {
                let o = if animate_ms == 0 {
                    self.tiler@.offset_by(delta as int)
                } else {
                    scroll_clamped(self.tiler@.scroll_offset + delta)
                };
                self.scrolled(o as i64, animate_ms, env.desk, after, effect)
            } else {
                after == self && effect is Nothing
            },
            ApiCommand::Action(named) => after == self && effect == Effect::Dispatch(
                action_of(named),
            ),
            ApiCommand::WakeWindow { hwnd } => after == self && (if hwnd == 0 {
                effect is Nothing
            } else {
                effect == Effect::Repaint { window: Window { hwnd }, dismiss: false }
            }),
            ApiCommand::MoveToMonitor { hwnd, device_name } => after == self && if hwnd == 0 {
                effect is Nothing
            } else {
                match monitor_move(env, Window { hwnd }, device_name@) {
                    Ok(rect) => effect == Effect::Move { window: Window { hwnd }, rect },
                    Err(_) => effect is Refresh,
                }
            },
            ApiCommand::ResizeWindow { hwnd, target_width, animate_ms, center } => {
                let resized = self.tiler@.width_sent(
                    hwnd,
                    self.wire_width(target_width) as i64,
                    animate_ms,
                    env.desk.now,
                );
                if !self.tiling() || self.tiler@.tile_of(hwnd) is None {
                    after.tiler@ == self.tiler@ && only_tiler(self, after) && effect is Nothing
                } else if center {
                    let i = self.tiler@.tile_of(hwnd)->0;
                    let o = resized.centering_offset(
                        resized.positions(env.desk)[i] as int,
                        self.wire_width(target_width),
                    ) as i64;
                    only_tiler(self, after) && after.tiler@ == resized.sent_to(o, env.desk) && (
                    effect matches Effect::Layout(p) && resized.sent_plan(o, env.desk, p))
                } else {
                    only_tiler(self, after) && after.tiler@ == resized && effect is Nothing
                }
            },
        }
    }

    /// Carries out a command that came over the wire. Scrolling and resizing
    /// only work while the program is tiling.
    pub fn handle_api_command(&mut self, command: ApiCommand, env: &Surroundings) -> (r: Effect)
        requires
            old(self).wf(),
            old(self).room_for(command),
        ensures
            final(self).wf(),
            old(self).commanded(command, *env, *final(self), r),
    {
        match command {
            ApiCommand::Focus(hwnd) => match Window::from_safe_hwnd(hwnd) {
                Ok(w) => Effect::Focus(w),
                Err(_) => Effect::Nothing,
            },
            ApiCommand::SetScrollOffset { offset, animate_ms } => {
                if !self.is_tiling() {
                    return Effect::Nothing;
                }
                Effect::Layout(self.tiler.animate_scroll_to(offset, animate_ms, &env.desk))
            },
            ApiCommand::ScrollBy { delta, animate_ms } => {
                if !self.is_tiling() {
                    return Effect::Nothing;
                }
                let from: i64 = match self.tiler.scroll_target {
                    Some(t) => if animate_ms == 0 && self.tiler.smooth_scroll_enabled {
                        t
                    } else {
                        self.tiler.scroll_offset
                    },
                    None => self.tiler.scroll_offset,
                };
                let target: i64 = crate::geometry::scroll_clamp(from as i128 + delta as i128);
                Effect::Layout(self.tiler.animate_scroll_to(target, animate_ms, &env.desk))
            },
            ApiCommand::Action(named) => Effect::Dispatch(named_action_to_action(named)),
            ApiCommand::WakeWindow { hwnd } => match Window::from_safe_hwnd(hwnd) {
                Ok(window) => Effect::Repaint { window, dismiss: false },
                Err(_) => Effect::Nothing,
            },
            ApiCommand::MoveToMonitor { hwnd, device_name } => match Window::from_safe_hwnd(hwnd) {
                Ok(window) => match self.overview_action_move_to_monitor(
                    window,
                    device_name.as_str(),
                    env,
                ) {
                    Ok(rect) => Effect::Move { window, rect },
                    Err(_) => Effect::Refresh,
                },
                Err(_) => Effect::Nothing,
            },
            ApiCommand::ResizeWindow { hwnd, target_width, animate_ms, center } => {
                if !self.is_tiling() {
                    return Effect::Nothing;
                }
                proof {
                    lemma_width_sent_tile(
                        self.tiler@,
                        hwnd,
                        self.wire_width(target_width) as i64,
                        animate_ms,
                        env.desk.now,
                    );
                }
                let found: bool = self.tiler.animate_window_width(
                    hwnd,
                    target_width,
                    animate_ms,
                    env.desk.now,
                );
                if found && center {
                    let (_, plan): (bool, LayoutPlan) = self.tiler.center_window_at_width(
                        hwnd,
                        target_width,
                        &env.desk,
                    );
                    Effect::Layout(plan)
                } else {
                    Effect::Nothing
                }
            },
        }
    }
}

proof fn lemma_width_sent_tile(
    s: crate::scroll_tiler::strip::Strip,
    hwnd: u64,
    width: i64,
    duration_ms: u32,
    now: u64,
)
    ensures
        s.width_sent(hwnd, width, duration_ms, now).tile_of(hwnd) == s.tile_of(hwnd),
{
    let t = s.width_sent(hwnd, width, duration_ms, now);
    crate::search::lemma_first_true(crate::scroll_tiler::strip::hwnd_mask(s.windows, hwnd));
    assert(crate::scroll_tiler::strip::hwnd_mask(t.windows, hwnd)
        =~= crate::scroll_tiler::strip::hwnd_mask(s.windows, hwnd));
}

impl State {
    /// There is room for the width that an action asks for.
    pub open spec fn room_for_action(self, action: Action, desk: Desktop) -> bool {
        (action == Action::Tiler(TilerAction::IncrementWidth) || action == Action::Tiler(
            TilerAction::DecrementWidth,
        )) && self.tiling() && self.tiler@.focus_index(desk) is Some ==> 0
            <= self.tiler@.max_screen_width()
    }

    /// `after` and `effect` are what an action on the strip leads to while the
    /// program is tiling.
    pub open spec fn tiler_acted(
        self,
        action: TilerAction,
        env: Surroundings,
        cfg: Config,
        after: State,
        effect: Effect,
    ) -> bool {
        let s = self.tiler@;
        let desk = env.desk;
        match action {
            TilerAction::CloseCurrent => after == self && match s.focus_index(desk) {
                Some(i) => effect == Effect::CloseWindow(s.windows[i].inner),
                None => effect is Nothing,
            },
            TilerAction::MoveFocusNext => after == self && match s.focus_target(
                desk,
                Direction::Right,
            ) {
                Some(w) => effect == Effect::Focus(w),
                None => effect is Nothing,
            },
            TilerAction::MoveFocusPrevious => after == self && match s.focus_target(
                desk,
                Direction::Left,
            ) {
                Some(w) => effect == Effect::Focus(w),
                None => effect is Nothing,
            },
            TilerAction::SwapWithNext => only_tiler(self, after) && after.tiler@ == s.swapped(
                desk,
                Direction::Right,
            ) && effect is Refresh,
            TilerAction::SwapWithPrevious => only_tiler(self, after) && after.tiler@ == s.swapped(
                desk,
                Direction::Left,
            ) && effect is Refresh,
            TilerAction::ResizeToFullscreen => only_tiler(self, after) && after.tiler@
                == s.width_requested(desk, s.max_screen_width()) && effect is Refresh,
            TilerAction::ResizeToHalfScreen => only_tiler(self, after) && after.tiler@
                == s.width_requested(desk, s.half_screen_width()) && effect is Refresh,
            TilerAction::IncrementWidth => only_tiler(self, after) && after.tiler@
                == s.width_requested(desk, s.stepped_width(desk, true)) && effect is Refresh,
            TilerAction::DecrementWidth => only_tiler(self, after) && after.tiler@
                == s.width_requested(desk, s.stepped_width(desk, false)) && effect is Refresh,
            TilerAction::OpenOverview => after == (State {
                overview_opening: self.overview_opening || self.may_open_overview(env),
                ..self
            }) && (effect matches Effect::OpenOverview(w) && w@ == (
            if self.may_open_overview(env) {
                overview_windows(env.monitors@)
            } else {
                seq![]
            })),
            TilerAction::ForceRefresh => after == self && effect is Reload,
            TilerAction::CenterFocused => only_tiler(self, after) && match s.focus_index(desk) {
                None => after.tiler@ == s && (effect matches Effect::Layout(p) && nothing_planned(
                    p,
                )),
                Some(i) => {
                    let o = s.centering_offset(
                        s.positions(desk)[i] as int,
                        s.windows[i].width as int,
                    ) as i64;
                    after.tiler@ == s.sent_to(o, desk) && (effect matches Effect::Layout(p)
                        && s.sent_plan(o, desk, p))
                },
            },
            TilerAction::IgnoreFocusedWindow => after == self && focused_ignored(
                cfg,
                desk,
                effect,
            ),
        }
    }

    fn handle_tiler_action(&mut self, action: TilerAction, env: &Surroundings, cfg: &Config) -> (r:
        Effect)
        requires
            old(self).wf(),
            old(self).tiling(),
            env.ok(),
            old(self).room_for_action(Action::Tiler(action), env.desk),
        ensures
            final(self).wf(),
            old(self).tiler_acted(action, *env, *cfg, *final(self), r),
    {
        match action {
            TilerAction::CloseCurrent => match self.tiler.focused_window(&env.desk) {
                Some(w) => Effect::CloseWindow(w),
                None => Effect::Nothing,
            },
            TilerAction::MoveFocusNext => match self.tiler.focus_right(&env.desk) {
                Some(w) => Effect::Focus(w),
                None => Effect::Nothing,
            },
            TilerAction::MoveFocusPrevious => match self.tiler.focus_left(&env.desk) {
                Some(w) => Effect::Focus(w),
                None => Effect::Nothing,
            },
            TilerAction::SwapWithNext => {
                self.tiler.swap_current_right(&env.desk);
                Effect::Refresh
            },
            TilerAction::SwapWithPrevious => {
                self.tiler.swap_current_left(&env.desk);
                Effect::Refresh
            },
            TilerAction::ResizeToFullscreen => {
                self.tiler.set_current_window_fullscreen(&env.desk);
                Effect::Refresh
            },
            TilerAction::ResizeToHalfScreen => {
                self.tiler.set_current_window_halfscreen(&env.desk);
                Effect::Refresh
            },
            TilerAction::IncrementWidth => {
                self.tiler.increment_current_window_width(&env.desk);
                Effect::Refresh
            },
            TilerAction::DecrementWidth => {
                self.tiler.decrement_current_window_width(&env.desk);
                Effect::Refresh
            },
            TilerAction::OpenOverview => Effect::OpenOverview(self.prepare_open_overview(env)),
            TilerAction::ForceRefresh => Effect::Reload,
            TilerAction::CenterFocused => Effect::Layout(
                self.tiler.center_focused_window(&env.desk),
            ),
            TilerAction::IgnoreFocusedWindow => match self.ignore_focused_window_by_class(
                cfg,
                &env.desk,
            ) {
                Ok(Some(changed)) => Effect::Save(changed),
                _ => Effect::Nothing,
            },
        }
    }

    /// `after` and `effect` are what closing the overview leads to, with the
    /// focus going to `jump`.
    pub open spec fn overview_left(self, jump: Option<Window>, after: State, effect: Effect) -> bool {
        match self.mode {
            Mode::Overview(o) => {
                &&& after.tiling()
                &&& after == (State { mode: after.mode, ..self })
                &&& effect matches Effect::CloseOverview { closing, jump: j } && j == jump
                    && closing.thumbnails@ == bound_ids(o.monitors@, o.monitors@.len() as int)
                    && closing.windows@ == window_ids(o.monitors@)
            },
            _ => after == self && effect is Nothing,
        }
    }

    /// `after` and `effect` are what an action leads to. Actions on the strip
    /// only work while the program is tiling, those on the overview only while
    /// it is open.
    pub open spec fn acted(
        self,
        action: Action,
        env: Surroundings,
        cfg: Config,
        new_id: u64,
        after: State,
        effect: Effect,
    ) -> bool {
        match action {
            Action::Tiler(a) => if self.tiling() {
                self.tiler_acted(a, env, cfg, after, effect)
            } else {
                after == self && effect is Nothing
            },
            Action::Overview(OverviewAction::CloseOverview) => self.overview_left(
                None,
                after,
                effect,
            ),
            Action::Overview(OverviewAction::JumpTo(w)) => self.overview_left(
                Some(w),
                after,
                effect,
            ),
            Action::OpenSettings => {
                &&& effect == Effect::OpenSettings(self.settings_opening(new_id))
                &&& self.settings_opened(cfg, env.desk, new_id, after)
            },
            Action::Exit => after == (State { mode: Mode::Exit, ..self }) && effect is Nothing,
        }
    }

    pub fn handle_action(
        &mut self,
        action: Action,
        env: &Surroundings,
        cfg: &Config,
        new_id: u64,
    ) -> (r: Effect)
        requires
            old(self).wf(),
            env.ok(),
            old(self).room_for_action(action, env.desk),
        ensures
            final(self).wf(),
            old(self).acted(action, *env, *cfg, new_id, *final(self), r),
    {
        match action {
            Action::Tiler(a) => {
                if self.is_tiling() {
                    self.handle_tiler_action(a, env, cfg)
                } else {
                    Effect::Nothing
                }
            },
            Action::Overview(OverviewAction::CloseOverview) => match self.close_overview() {
                Some(closing) => Effect::CloseOverview { closing, jump: None },
                None => Effect::Nothing,
            },
            Action::Overview(OverviewAction::JumpTo(w)) => match self.close_overview() {
                Some(closing) => Effect::CloseOverview { closing, jump: Some(w) },
                None => Effect::Nothing,
            },
            Action::OpenSettings => Effect::OpenSettings(
                self.open_settings(cfg, &env.desk, new_id),
            ),
            Action::Exit => {
                self.mode = Mode::Exit;
                Effect::Nothing
            },
        }
    }

    /// `after` and `effect` are what an event from outside leads to.
    pub open spec fn global_handled(
        self,
        message: GlobalMessage,
        env: Surroundings,
        after: State,
        effect: Effect,
    ) -> bool {
        match message {
            GlobalMessage::Key(None) => after == self && effect is Nothing,
            GlobalMessage::Key(Some(a)) => after == self && effect == Effect::Dispatch(a),
            GlobalMessage::Window => after == self && effect is Refresh,
            GlobalMessage::HorizontalScroll { delta } => if self.tiling() {
                let o = self.tiler@.offset_by(delta as int) as i64;
                only_tiler(self, after) && after.tiler@ == self.tiler@.sent_to(o, env.desk) && (
                effect matches Effect::Layout(p) && self.tiler@.sent_plan(o, env.desk, p))
            } else {
                after == self && effect is Nothing
            },
        }
    }

    pub fn handle_global_message(&mut self, message: GlobalMessage, env: &Surroundings) -> (r:
        Effect)
        requires
            old(self).wf(),
        ensures
            final(self).wf(),
            old(self).global_handled(message, *env, *final(self), r),
    {
        match message {
            GlobalMessage::Key(None) => Effect::Nothing,
            GlobalMessage::Key(Some(action)) => Effect::Dispatch(action),
            GlobalMessage::Window => Effect::Refresh,
            GlobalMessage::HorizontalScroll { delta } => {
                if self.is_tiling() {
                    Effect::Layout(self.tiler.scroll_by(delta, &env.desk))
                } else {
                    Effect::Nothing
                }
            },
        }
    }

    /// `after` and `effect` are what asking to ignore something leads to.
    pub open spec fn ignored(self, step: IgnoreStep, after: State, effect: Effect) -> bool {
        match step {
            IgnoreStep::Nothing => after == self && effect is Refresh,
            IgnoreStep::Dismiss => self.menus_dismissed(after) && effect is Refresh,
            IgnoreStep::Save(c) => after == self && effect == Effect::Save(c),
        }
    }

    fn take_ignore_step(&mut self, step: IgnoreStep) -> (r: Effect)
        requires
            old(self).wf(),
        ensures
            final(self).wf(),
            old(self).ignored(step, *final(self), r),
    {
        match step {
            IgnoreStep::Nothing => Effect::Refresh,
            IgnoreStep::Dismiss => {
                self.dismiss_overview_context_menu();
                Effect::Refresh
            },
            IgnoreStep::Save(config) => Effect::Save(config),
        }
    }

    /// `after` is the program after the mouse button went up in a window.
    pub open spec fn press_ended(self, window_id: u64, after: State) -> bool {
        match self.mode {
            Mode::Overview(o) => after == (State { mode: after.mode, ..self }) && (
            after.mode matches Mode::Overview(n) && n.monitors@ == o.released(window_id)),
            _ => after == self,
        }
    }

    pub open spec fn release_meaning(self, window_id: u64) -> Option<ReleaseOutcome> {
        match self.mode {
            Mode::Overview(o) => o.release_meaning(window_id),
            _ => None,
        }
    }

    /// `after` and `effect` are what releasing the mouse button leads to: with
    /// a menu open it closes, a click jumps to the window, a drag reorders.
    pub open spec fn mouse_released(
        self,
        window_id: u64,
        env: Surroundings,
        cfg: Config,
        after: State,
        effect: Effect,
    ) -> bool {
        if self.menu_open() {
            self.menus_dismissed(after) && effect is Nothing
        } else {
            match self.release_meaning(window_id) {
                None => self.press_ended(window_id, after) && effect is Nothing,
                Some(ReleaseOutcome::Click(w)) => self.press_ended(window_id, after) && effect
                    == Effect::Dispatch(Action::Overview(OverviewAction::JumpTo(w))),
                Some(ReleaseOutcome::Reorder { src, dst }) => {
                    &&& effect is MoveThumbnails
                    &&& exists|mid: State| #[trigger]
                        self.press_ended(window_id, mid) && mid.reordered_to(
                            src,
                            dst,
                            env,
                            cfg,
                            after,
                            effect->MoveThumbnails_0@,
                        )
                },
            }
        }
    }

    fn handle_mouse_up(&mut self, window_id: u64, env: &Surroundings, cfg: &Config) -> (r: Effect)
        requires
            old(self).wf(),
        ensures
            final(self).wf(),
            old(self).mouse_released(window_id, *env, *cfg, *final(self), r),
    {
        if self.overview_context_menu_open() {
            self.dismiss_overview_context_menu();
            return Effect::Nothing;
        }
        match self.overview_release_outcome(window_id) {
            Some(ReleaseOutcome::Click(target)) => Effect::Dispatch(
                Action::Overview(OverviewAction::JumpTo(target)),
            ),
            Some(ReleaseOutcome::Reorder { src, dst }) => {
                let ghost mid = *self;
                let moves: Vec<ThumbnailMove> = self.reorder_overview(src, dst, env, cfg);
                assert(old(self).press_ended(window_id, mid));
                Effect::MoveThumbnails(moves)
            },
            None => Effect::Nothing,
        }
    }

    /// `after` and `effect` are what a message of the settings leads to.
    pub open spec fn settings_handled(
        self,
        message: SettingsMessage,
        after: State,
        effect: Effect,
    ) -> bool {
        &&& updated(self.settings_form, message, after.settings_form)
        &&& if message is Close {
            effect == Effect::CloseSettings { window_id: self.settings_window_id } && after == (
            State { settings_window_id: None, settings_form: after.settings_form, ..self })
        } else {
            after == (State { settings_form: after.settings_form, ..self }) && (
            effect matches Effect::Settings(e) && e == (match message {
                SettingsMessage::ReloadFromDisk => SettingsEffect::Reload,
                SettingsMessage::Save => SettingsEffect::Save,
                _ => SettingsEffect::Nothing,
            }))
        }
    }

    fn handle_settings(&mut self, message: SettingsMessage) -> (r: Effect)
        requires
            old(self).wf(),
        ensures
            final(self).wf(),
            old(self).settings_handled(message, *final(self), r),
    {
        match update(&mut self.settings_form, message) {
            SettingsEffect::Close => Effect::CloseSettings { window_id: self.close_settings() },
            e => Effect::Settings(e),
        }
    }

    /// `after` and `effect` are what the window of an overview leads to.
    pub open spec fn overview_readied(
        self,
        id: u64,
        raw_handle: u64,
        hmonitor: i64,
        env: Surroundings,
        cfg: Config,
        after: State,
        effect: Effect,
    ) -> bool {
        &&& after.in_overview()
        &&& effect matches Effect::OverviewReady { id: i, opening } && i == id && {
            &&& opening.binding is Ok ==> self.entered(after)
            &&& opening.binding is Err ==> exists|mid: State| #[trigger]
                self.entered(mid) && after == (State { overview_opening: false, ..mid })
            &&& opening.offscreen@ == (if self.in_overview() {
                seq![]
            } else {
                offscreen_moves(
                    self.tiler@.windows,
                    env.desk,
                    self.tiler@.windows.len() as int,
                )
            })
            &&& match pick(env.monitors@, first_true(handle_mask(env.monitors@, hmonitor))) {
                None => opening.binding matches Err(e) && e == OverviewError::MonitorGone,
                Some(m) => if raw_handle == 0 {
                    opening.binding matches Err(e) && e == OverviewError::InvalidHandle
                } else {
                    opening.binding matches Ok(b) && after.binds(env, cfg, raw_handle, m, b)
                },
            }
        }
    }

    /// Everything a message needs is within limits.
    pub open spec fn answerable(self, message: Message, env: Surroundings, cfg: Config) -> bool {
        match message {
            Message::Api(c) => self.room_for(c),
            Message::Action(a) => self.room_for_action(a, env.desk),
            Message::Overview(_) => self.tiler@.windows.len() + snapshot_windows(
                env,
                cfg,
            ).len() <= MAX_WINDOWS,
            Message::WindowMouseRightDown(id) => self.mode matches Mode::Overview(o)
                ==> o.menu_fits(id),
            Message::CleanupAndExit => env.desk.observed@.len() <= u32::MAX,
            _ => true,
        }
    }

    /// `after` and `effect` are what a message leads to.
    pub open spec fn answered(
        self,
        message: Message,
        env: Surroundings,
        cfg: Config,
        new_id: u64,
        after: State,
        effect: Effect,
    ) -> bool {
        match message {
            Message::Action(a) => self.acted(a, env, cfg, new_id, after, effect),
            Message::Overview(m) => self.overview_readied(
                m->id,
                m->raw_handle,
                m->hmonitor,
                env,
                cfg,
                after,
                effect,
            ),
            Message::Global(m) => self.global_handled(m, env, after, effect),
            Message::Settings(m) => self.settings_handled(m, after, effect),
            Message::Api(c) => self.commanded(c, env, after, effect),
            Message::AnimationTick => only_tiler(self, after) && after.tiler@
                == self.tiler@.ticked(env.desk) && (effect matches Effect::Layout(p)
                && self.tiler@.tick_plan(env.desk, p)),
            Message::WindowCursorMoved { window_id, position } => effect is Nothing && (
            match self.mode {
                Mode::Overview(o) => after == (State { mode: after.mode, ..self }) && (
                after.mode matches Mode::Overview(n) && n.monitors@ == o.cursor_moved(
                    window_id,
                    position,
                )),
                _ => after == self,
            }),
            Message::WindowMouseDown(id) => effect is Nothing && (match self.mode {
                Mode::Overview(o) => after == (State { mode: after.mode, ..self }) && (
                after.mode matches Mode::Overview(n) && n.monitors@ == o.mouse_pressed(id)),
                _ => after == self,
            }),
            Message::WindowMouseUp(id) => self.mouse_released(id, env, cfg, after, effect),
            Message::WindowMouseRightDown(id) => effect is Nothing && (match self.mode {
                Mode::Overview(o) => after == (State { mode: after.mode, ..self }) && (
                after.mode matches Mode::Overview(n) && o.menu_opened(
                    id,
                    env.monitors@,
                    env.desk,
                    n.monitors@,
                )),
                _ => after == self,
            }),
            Message::WindowClosed(id) => effect is Nothing && after == (State {
                settings_window_id: if self.settings_window_id == Some(id) {
                    None
                } else {
                    self.settings_window_id
                },
                ..self
            }),
            Message::OverviewIgnoreApp(process) => exists|step: IgnoreStep| #[trigger]
                app_ignored(cfg, process@, step) && self.ignored(step, after, effect),
            Message::OverviewIgnoreWindow(hwnd) => exists|step: IgnoreStep| #[trigger]
                self.ignored(step, after, effect) && window_ignored(
                    cfg,
                    env.desk,
                    hwnd,
                    if hwnd == 0 {
                        Err(InvalidHandle)
                    } else {
                        Ok(step)
                    },
                ) && (hwnd == 0 ==> step is Nothing),
            Message::OverviewMoveToMonitor { target, device_name } => after == self && (
            match monitor_move(env, target, device_name@) {
                Ok(rect) => effect == Effect::Move { window: target, rect },
                Err(_) => effect is Refresh,
            }),
            Message::OverviewForceRedraw(hwnd) => after == self && (if hwnd == 0 {
                effect is Nothing
            } else {
                effect == Effect::Repaint { window: Window { hwnd }, dismiss: true }
            }),
            Message::CleanupAndExit => {
                let windows = opened(env.desk, cfg, env.desk.observed@.len() as int);
                after == self && (effect matches Effect::Restore(m) && m@ == cascade(
                    env.desk,
                    windows,
                    windows.len() as int,
                ))
            },
        }
    }

    /// Handles one message. `new_id` is the number that a new window would
    /// get.
    pub fn handle_app_message(
        &mut self,
        message: Message,
        env: &Surroundings,
        cfg: &Config,
        new_id: u64,
    ) -> (r: Outcome)
        requires
            old(self).wf(),
            env.ok(),
            old(self).answerable(message, *env, *cfg),
        ensures
            final(self).wf(),
            old(self).answered(message, *env, *cfg, new_id, *final(self), r.effect),
            r.unfocus_overlay == can_steal_focus(message),
            r.exit == final(self).mode is Exit,
    {
        let unfocus_overlay: bool = could_steal_focus(&message);
        let effect: Effect = self.answer(message, env, cfg, new_id);
        let exit: bool = match &self.mode {
            Mode::Exit => true,
            _ => false,
        };
        Outcome { unfocus_overlay, effect, exit }
    }

    fn answer(
        &mut self,
        message: Message,
        env: &Surroundings,
        cfg: &Config,
        new_id: u64,
    ) -> (r: Effect)
        requires
            old(self).wf(),
            env.ok(),
            old(self).answerable(message, *env, *cfg),
        ensures
            final(self).wf(),
            old(self).answered(message, *env, *cfg, new_id, *final(self), r),
    {
        match message {
            Message::Action(action) => self.handle_action(action, env, cfg, new_id),
            Message::Overview(m) => {
                let overview::Message::OverviewWindowCreated { id, .. } = m;
                Effect::OverviewReady { id, opening: self.handle_overview_message(m, env, cfg) }
            },
            Message::Global(m) => self.handle_global_message(m, env),
            Message::Settings(m) => self.handle_settings(m),
            Message::Api(command) => self.handle_api_command(command, env),
            Message::AnimationTick => {
                let (_, plan): (bool, LayoutPlan) = self.tiler.tick_animation(&env.desk);
                Effect::Layout(plan)
            },
            Message::WindowCursorMoved { window_id, position } => {
                self.handle_overview_cursor_moved(window_id, position);
                Effect::Nothing
            },
            Message::WindowMouseDown(id) => {
                self.handle_overview_mouse_pressed(id);
                Effect::Nothing
            },
            Message::WindowMouseUp(id) => self.handle_mouse_up(id, env, cfg),
            Message::WindowMouseRightDown(id) => {
                self.open_overview_context_menu(id, env);
                Effect::Nothing
            },
            Message::WindowClosed(id) => {
                match self.settings_window_id {
                    Some(open) => {
                        if open == id {
                            self.settings_window_id = None;
                        }
                    },
                    None => {},
                }
                Effect::Nothing
            },
            Message::OverviewIgnoreApp(process) => {
                let step: IgnoreStep = self.overview_action_ignore_app(process.as_str(), cfg);
                let ghost taken = step;
                let effect: Effect = self.take_ignore_step(step);
                assert(app_ignored(*cfg, process@, taken));
                effect
            },
            Message::OverviewIgnoreWindow(hwnd) => {
                let step: IgnoreStep = match self.overview_action_ignore_window(hwnd, cfg, &env.desk) {
                    Ok(step) => step,
                    Err(_) => IgnoreStep::Nothing,
                };
                let ghost taken = step;
                let effect: Effect = self.take_ignore_step(step);
                assert(old(self).ignored(taken, *self, effect));
                effect
            },
            Message::OverviewMoveToMonitor { target, device_name } => {
                match self.overview_action_move_to_monitor(target, device_name.as_str(), env) {
                    Ok(rect) => Effect::Move { window: target, rect },
                    Err(_) => Effect::Refresh,
                }
            },
            Message::OverviewForceRedraw(hwnd) => match self.overview_action_force_redraw(hwnd) {
                Ok(window) => Effect::Repaint { window, dismiss: true },
                Err(_) => Effect::Nothing,
            },
            Message::CleanupAndExit => Effect::Restore(restore_windows(&env.desk, cfg)),
        }
    }
}

/// `effect` is what asking to ignore the focused window leads to.
pub open spec fn focused_ignored(cfg: Config, desk: Desktop, effect: Effect) -> bool {
    match desk.foreground {
        None => effect is Nothing,
        Some(w) => match desk.class_of(w) {
            None => effect is Nothing,
            Some(class) => {
                let process = process_text(desk, w);
                let title = title_text(desk, w);
                if process.len() == 0 || class.len() == 0 || cfg.filter.has_exact(
                    process,
                    title,
                    Some(class),
                ) {
                    effect is Nothing
                } else {
                    effect matches Effect::Save(c) && rule_added(
                        cfg,
                        c,
                        process,
                        title,
                        Some(class),
                    )
                }
            },
        },
    }
}

/// A scroll command without a duration is carried out at once, smoothing or
/// not: nothing is left to scroll.
pub proof fn law_scroll_without_duration_snaps(
    state: State,
    command: ApiCommand,
    env: Surroundings,
    after: State,
    effect: Effect,
)
    requires
        state.wf(),
        state.tiling(),
        command matches ApiCommand::SetScrollOffset { animate_ms, .. } && animate_ms == 0 || (
        command matches ApiCommand::ScrollBy { animate_ms, .. } && animate_ms == 0),
        state.commanded(command, env, after, effect),
    ensures
        after.tiler@.scroll_target is None,
        after.tiler@.scroll_animation is None,
        command matches ApiCommand::SetScrollOffset { offset, .. } ==> after.tiler@.scroll_offset
            == offset,
        command matches ApiCommand::ScrollBy { delta, .. } ==> after.tiler@.scroll_offset
            == state.tiler@.offset_by(delta as int),
{
}

/// Scroll and resize commands do nothing while the program is not tiling.
pub proof fn law_strip_commands_need_tiling(
    state: State,
    command: ApiCommand,
    env: Surroundings,
    after: State,
    effect: Effect,
)
    requires
        !state.tiling(),
        command is SetScrollOffset || command is ScrollBy || command is ResizeWindow,
        state.commanded(command, env, after, effect),
    ensures
        after.tiler@ == state.tiler@,
        after.mode == state.mode,
        effect is Nothing,
{
}

} // verus!
