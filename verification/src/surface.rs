//! The settings window: what it shows and what it asks for.

use crate::capture::CaptureState;
use crate::keys::{Event, Modifiers};
use crate::settings::{apply_preference_change, PreferenceChange, Settings};
use vstd::prelude::*;

verus! {

/// What the settings window asks for.
#[derive(Debug)]
pub enum SettingsIntent {
    Close,
    Preference(PreferenceChange),
    /// A capture of the shortcut at this place.
    CaptureRequested(usize),
    /// What the keyboard reported during a capture, and the modifiers that are
    /// held now.
    CaptureEvents(Vec<Event>, Modifiers),
}

/// What the settings window shows.
#[derive(Debug)]
pub struct SettingsSurfaceState {
    pub settings: Settings,
    pub status: String,
    pub capture: Option<CaptureState>,
    pub wayland: bool,
}

/// What a `SettingsSurfaceState` stands for.
#[verifier::ext_equal]
pub struct SurfaceView {
    pub settings: crate::settings::SettingsView,
    pub status: Seq<char>,
    pub capture: Option<crate::capture::CaptureView>,
    pub wayland: bool,
}

/// A capture by its view, where there is one.
pub open spec fn capture_view(capture: Option<CaptureState>) -> Option<
    crate::capture::CaptureView,
> {
    match capture {
        Some(state) => Some(state@),
        None => None,
    }
}

impl View for SettingsSurfaceState {
    type V = SurfaceView;

    open spec fn view(&self) -> SurfaceView {
        SurfaceView {
            settings: self.settings@,
            status: self.status@,
            capture: capture_view(self.capture),
            wayland: self.wayland,
        }
    }
}

impl SurfaceView {
    /// What the window shows once the user has changed a preference in it. The
    /// color to be keyed out is shown as the user chose it, alpha and all.
    pub open spec fn edited(self, change: PreferenceChange) -> SurfaceView {
        let settings = match change {
            PreferenceChange::ChromaKey(value) => crate::settings::SettingsView {
                appearance: crate::settings::Appearance {
                    chroma_key: value,
                    ..self.settings.appearance
                },
                ..self.settings
            },
            _ => self.settings.changed(change),
        };
        SurfaceView { settings, ..self }
    }

    /// Whether a capture has something to hear of.
    pub open spec fn reports(self, events: Seq<Event>, modifiers: Modifiers) -> bool {
        self.capture is Some && (events.len() > 0 || modifiers != Modifiers::none())
    }
}

impl SettingsSurfaceState {
    /// Takes a change that the user made in the window, and asks for it.
    pub fn edit(&mut self, change: PreferenceChange) -> (intent: SettingsIntent)
        ensures
            final(self)@ == old(self)@.edited(change),
            intent == SettingsIntent::Preference(change),
    {
        match change {
            PreferenceChange::ChromaKey(value) => {
                self.settings.appearance.chroma_key = value;
            },
            _ => {
                apply_preference_change(&mut self.settings, change);
            },
        }
        SettingsIntent::Preference(change)
    }

    /// Begins a capture of the shortcut at `target`, and asks for it.
    pub fn begin_capture(&mut self, target: usize) -> (intent: SettingsIntent)
        ensures
            final(self)@ == (SurfaceView {
                capture: Some(crate::capture::CaptureView::fresh(target)),
                ..old(self)@
            }),
            intent == SettingsIntent::CaptureRequested(target),
    {
        self.capture = Some(CaptureState::new(target));
        SettingsIntent::CaptureRequested(target)
    }

    /// What a capture that is under way is to hear of, where there is anything.
    pub fn capture_intent(&self, events: Vec<Event>, modifiers: Modifiers) -> (intent: Option<
        SettingsIntent,
    >)
        ensures
            intent == (if self@.reports(events@, modifiers) {
                Some(SettingsIntent::CaptureEvents(events, modifiers))
            } else {
                None
            }),
    {
        if self.capture.is_some() && (!events.is_empty() || modifiers != Modifiers::default()) {
            Some(SettingsIntent::CaptureEvents(events, modifiers))
        } else {
            None
        }
    }
}

/// What a change makes of the preferences shown is what it makes of the
/// preferences kept, but for the alpha of the color to be keyed out.
pub proof fn law_window_shows_what_is_kept(surface: SurfaceView, change: PreferenceChange)
    ensures
        !(change is ChromaKey) ==> surface.edited(change).settings == surface.settings.changed(
            change,
        ),
        change matches PreferenceChange::ChromaKey(value) ==> surface.edited(
            change,
        ).settings.changed(change) == surface.settings.changed(change),
{
}

} // verus!
