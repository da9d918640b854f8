//! What is asked of the window that shows the timer.

use crate::color::chroma_color;
use vstd::prelude::*;

verus! {

/// Whether the window's background is to be see-through: only in the overlay,
/// only where it is preferred, and never on Wayland.
pub open spec fn transparent(preference: bool, overlay: bool, wayland: bool) -> bool {
    preference && overlay && !wayland
}

/// Whether the window's background is to be see-through.
pub fn transparent_background(preference: bool, overlay: bool, wayland: bool) -> (b: bool)
    ensures
        b == transparent(preference, overlay, wayland),
{
    preference && overlay && !wayland
}

/// Whether the window keeps its title bar: it does in both modes. Streaming
/// software can crop it.
pub fn decorations_for_mode(_overlay: bool) -> (b: bool)
    ensures
        b == true,
{
    true
}

/// What is said of transparency where it is asked for. It is never said to be
/// in effect, since nothing confirms it.
pub open spec fn transparency_message(requested: bool, wayland: bool) -> Option<Seq<char>> {
    if !requested {
        None
    } else if wayland {
        Some(
            "Native Wayland transparency is unsupported; uniform chroma-key fallback is active."@,
        )
    } else {
        Some(
            "Transparent composition requested (best effort, unconfirmed); chroma-key remains available."@,
        )
    }
}

/// What is said of transparency, where it is asked for.
pub fn transparency_status(requested: bool, wayland: bool) -> (status: Option<&'static str>)
    ensures
        transparency_message(requested, wayland) == (match status {
            Some(message) => Some(message@),
            None => None,
        }),
{
    if !requested {
        None
    } else if wayland {
        Some("Native Wayland transparency is unsupported; uniform chroma-key fallback is active.")
    } else {
        Some(
            "Transparent composition requested (best effort, unconfirmed); chroma-key remains available.",
        )
    }
}

/// What the overlay is drawn on.
#[derive(Debug, Clone, Copy, PartialEq, Eq)]
pub enum Background {
    Transparent,
    /// One color, everywhere.
    Uniform([u8; 4]),
}

/// What the overlay is drawn on: the color to be keyed out, opaque, unless the
/// background is to be see-through.
pub fn overlay_background(preference: bool, wayland: bool, chroma_key: [u8; 4]) -> (background:
    Background)
    ensures
        background == (if transparent(preference, true, wayland) {
            Background::Transparent
        } else {
            Background::Uniform(crate::color::opaque(chroma_key))
        }),
{
    if transparent_background(preference, true, wayland) {
        Background::Transparent
    } else {
        Background::Uniform(chroma_color(chroma_key))
    }
}

/// One thing asked of the window.
#[derive(Debug, Clone, Copy, PartialEq, Eq, Structural)]
pub enum ViewportCommand {
    Transparent(bool),
    Decorations(bool),
}

/// What was last asked of the window.
#[derive(Debug, Clone, Copy, PartialEq, Eq, Structural)]
pub struct Viewport {
    pub last_transparency: Option<bool>,
    pub last_decorations: Option<bool>,
}

impl Viewport {
    /// A window of which nothing has been asked.
    pub fn new() -> (viewport: Viewport)
        ensures
            viewport == (Viewport { last_transparency: None, last_decorations: None }),
    {
        Viewport { last_transparency: None, last_decorations: None }
    }

    /// What has to be asked of the window so that it is as it should be.
    pub open spec fn commands(self, transparent: bool) -> Seq<ViewportCommand> {
        let first = if self.last_transparency == Some(transparent) {
            Seq::empty()
        } else {
            seq![ViewportCommand::Transparent(transparent)]
        };
        let second = if self.last_decorations == Some(true) {
            Seq::empty()
        } else {
            seq![ViewportCommand::Decorations(true)]
        };
        first + second
    }

    /// The window as it should be.
    pub open spec fn settled(transparent: bool) -> Viewport {
        Viewport { last_transparency: Some(transparent), last_decorations: Some(true) }
    }

    /// Asks of the window what it has not been asked already.
    pub fn set_viewport(&mut self, preference: bool, overlay: bool, wayland: bool) -> (commands: Vec<
        ViewportCommand,
    >)
        ensures
            commands@ == old(self).commands(transparent(preference, overlay, wayland)),
            *final(self) == Viewport::settled(transparent(preference, overlay, wayland)),
    {
        let ghost before = *self;
        let mut commands: Vec<ViewportCommand> = Vec::new();
        let transparent = transparent_background(preference, overlay, wayland);
        if self.last_transparency != Some(transparent) {
            commands.push(ViewportCommand::Transparent(transparent));
            self.last_transparency = Some(transparent);
        }
        let decorations = decorations_for_mode(overlay);
        if self.last_decorations != Some(decorations) {
            commands.push(ViewportCommand::Decorations(decorations));
            self.last_decorations = Some(decorations);
        }
        assert(commands@ =~= before.commands(transparent));
        commands
    }
}

/// A window that is as it should be is asked nothing until that changes, and
/// then only what has changed.
pub proof fn law_settled_window_is_left_alone(transparent: bool)
    ensures
        Viewport::settled(transparent).commands(transparent) == Seq::<ViewportCommand>::empty(),
        Viewport::settled(transparent).commands(!transparent) == seq![
            ViewportCommand::Transparent(!transparent),
        ],
{
    assert(Viewport::settled(transparent).commands(transparent) =~= Seq::empty());
    assert(Viewport::settled(transparent).commands(!transparent) =~= seq![
        ViewportCommand::Transparent(!transparent),
    ]);
}

} // verus!
