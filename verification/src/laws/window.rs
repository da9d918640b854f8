//! What is asked of the window, and what the settings window shows.

use crate::keys::{Event, Modifiers};
use crate::settings::PreferenceChange;
use crate::surface::SurfaceView;
use crate::viewport::{Viewport, ViewportCommand};
use vstd::prelude::*;

verus! {

/// The background is see-through only in the overlay, only where that is
/// preferred, and never on Wayland.
pub proof fn law_transparency_needs_all_three(preference: bool, overlay: bool, wayland: bool)
    ensures
        crate::viewport::transparent(preference, overlay, wayland) ==> preference && overlay
            && !wayland,
        crate::viewport::transparent(true, true, false),
{
}

/// A window once something has been asked of it.
pub open spec fn obeyed(window: Viewport, command: ViewportCommand) -> Viewport {
    match command {
        ViewportCommand::Transparent(b) => Viewport { last_transparency: Some(b), ..window },
        ViewportCommand::Decorations(b) => Viewport { last_decorations: Some(b), ..window },
    }
}

/// A window once several things have been asked of it, in order.
pub open spec fn obeyed_all(window: Viewport, commands: Seq<ViewportCommand>) -> Viewport
    decreases commands.len(),
{
    if commands.len() == 0 {
        window
    } else {
        obeyed(obeyed_all(window, commands.drop_last()), commands.last())
    }
}

/// What is asked of a window makes it what it should be: transparent or not as
/// wanted, and with its title bar. Nothing is asked that holds already.
pub proof fn law_commands_make_the_window_right(window: Viewport, transparent: bool)
    ensures
        ({
            let commands = window.commands(transparent);
            let after = obeyed_all(window, commands);
            &&& after == Viewport::settled(transparent)
            &&& after.last_transparency == Some(transparent)
            &&& after.last_decorations == Some(true)
            &&& window.last_transparency == Some(transparent) ==> !commands.contains(
                ViewportCommand::Transparent(transparent),
            )
            &&& window.last_decorations == Some(true) ==> !commands.contains(
                ViewportCommand::Decorations(true),
            )
            &&& commands.len() <= 2
            &&& !commands.contains(ViewportCommand::Transparent(!transparent))
            &&& !commands.contains(ViewportCommand::Decorations(false))
        }),
{
    let commands = window.commands(transparent);
    reveal_with_fuel(obeyed_all, 3);
    if commands.len() == 2 {
        assert(commands.drop_last().drop_last() =~= Seq::empty());
        assert(commands.drop_last().last() == commands[0]);
    } else if commands.len() == 1 {
        assert(commands.drop_last() =~= Seq::empty());
    }
}

/// Of transparency something is said exactly where it is asked for, and what is
/// said on Wayland is not what is said elsewhere.
pub proof fn law_transparency_is_spoken_of_where_asked_for(wayland: bool)
    ensures
        crate::viewport::transparency_message(false, wayland) is None,
        crate::viewport::transparency_message(true, true) == Some(
            "Native Wayland transparency is unsupported; uniform chroma-key fallback is active."@,
        ),
        crate::viewport::transparency_message(true, false) == Some(
            "Transparent composition requested (best effort, unconfirmed); chroma-key remains available."@,
        ),
{
}

/// The settings window shows a preference as the user has set it, and shows
/// everything else as before. Only a background is shown as it was chosen, alpha
/// and all.
pub proof fn law_window_shows_what_was_set(surface: SurfaceView, change: PreferenceChange)
    ensures
        ({
            let after = surface.edited(change);
            &&& after.status == surface.status
            &&& after.capture == surface.capture
            &&& after.wayland == surface.wayland
            &&& !(change is ChromaKey) ==> after.settings == surface.settings.changed(change)
            &&& change matches PreferenceChange::ChromaKey(value) ==> {
                &&& after.settings.appearance.chroma_key == value
                &&& after.settings.appearance.text_color
                    == surface.settings.appearance.text_color
                &&& after.settings.appearance.gradient == surface.settings.appearance.gradient
                &&& after.settings.appearance.gradient_end
                    == surface.settings.appearance.gradient_end
                &&& after.settings.appearance.gradient_angle
                    == surface.settings.appearance.gradient_angle
                &&& after.settings.appearance.native_transparency
                    == surface.settings.appearance.native_transparency
                &&& after.settings.appearance.font_size == surface.settings.appearance.font_size
                &&& after.settings.show_milliseconds == surface.settings.show_milliseconds
                &&& after.settings.fractional_digits == surface.settings.fractional_digits
                &&& after.settings.overlay_mode == surface.settings.overlay_mode
                &&& after.settings.shortcuts == surface.settings.shortcuts
            }
        }),
{
}

/// A capture hears of every event, and of every modifier that is held, while it
/// is under way; without events and modifiers, or without a capture, there is
/// nothing to hear of.
pub proof fn law_captures_hear_of_everything(
    surface: SurfaceView,
    events: Seq<Event>,
    modifiers: Modifiers,
)
    ensures
        surface.reports(events, modifiers) <==> (surface.capture is Some && (events.len() > 0
            || modifiers.alt || modifiers.ctrl || modifiers.shift || modifiers.mac_cmd
            || modifiers.command)),
{
}

} // verus!
