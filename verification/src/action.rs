//! What the user can ask of the timer.

use vstd::prelude::*;

verus! {

#[derive(Debug, Clone, Copy, PartialEq, Eq, Structural)]
pub enum TimerAction {
    Start,
    Stop,
    Reset,
    ToggleOverlay,
}

impl TimerAction {
    /// The label of an action.
    pub open spec fn label(self) -> Seq<char> {
        match self {
            TimerAction::Start => "Start"@,
            TimerAction::Stop => "Stop"@,
            TimerAction::Reset => "Reset"@,
            TimerAction::ToggleOverlay => "Toggle overlay"@,
        }
    }

    /// The label of this action.
    pub fn name(self) -> (name: &'static str)
        ensures
            name@ == self.label(),
    {
        match self {
            TimerAction::Start => "Start",
            TimerAction::Stop => "Stop",
            TimerAction::Reset => "Reset",
            TimerAction::ToggleOverlay => "Toggle overlay",
        }
    }
}

/// The action that a shortcut stands for, by its place among the four.
pub open spec fn action_at(index: int) -> TimerAction {
    if index == 0 {
        TimerAction::Start
    } else if index == 1 {
        TimerAction::Stop
    } else if index == 2 {
        TimerAction::Reset
    } else {
        TimerAction::ToggleOverlay
    }
}

/// The action of the shortcut at `index`.
pub fn action_for_index(index: usize) -> (action: TimerAction)
    requires
        index < 4,
    ensures
        action == action_at(index as int),
{
    match index {
        0 => TimerAction::Start,
        1 => TimerAction::Stop,
        2 => TimerAction::Reset,
        _ => overlay_toggle_action(),
    }
}

/// Whether the overlay is on after `action`, where it was `current` before.
pub open spec fn overlay_after(current: bool, action: TimerAction) -> bool {
    if action == TimerAction::ToggleOverlay {
        !current
    } else {
        current
    }
}

/// Whether the overlay is on after `action`, where it was `current` before.
pub fn toggled_overlay(current: bool, action: TimerAction) -> (next: bool)
    ensures
        next == overlay_after(current, action),
{
    if action == TimerAction::ToggleOverlay {
        !current
    } else {
        current
    }
}

/// The action by which every control switches the overlay.
pub fn overlay_toggle_action() -> (action: TimerAction)
    ensures
        action == TimerAction::ToggleOverlay,
{
    TimerAction::ToggleOverlay
}

/// Escape leaves the overlay, and does nothing where there is none.
pub fn escape_overlay_action(overlay_active: bool, escape_pressed: bool) -> (action: Option<
    TimerAction,
>)
    ensures
        action == (if overlay_active && escape_pressed {
            Some(TimerAction::ToggleOverlay)
        } else {
            None
        }),
{
    if overlay_active && escape_pressed {
        Some(overlay_toggle_action())
    } else {
        None
    }
}

/// Toggling twice leaves the overlay as it was.
pub proof fn law_toggle_twice_restores(current: bool)
    ensures
        overlay_after(
            overlay_after(current, TimerAction::ToggleOverlay),
            TimerAction::ToggleOverlay,
        ) == current,
{
}

} // verus!
