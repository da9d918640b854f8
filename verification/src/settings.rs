//! The preferences of the timer and how they change.

use crate::action::{overlay_toggle_action, toggled_overlay, TimerAction};
use crate::color::chroma_color;
use crate::hotkey::{default_hotkeys, shortcut_texts};
use crate::scalar::Scalar;
use crate::timer::Timer;
use vstd::prelude::*;
use vstd::string::*;

verus! {

/// The color of the readout.
pub const GREEN: [u8; 4] = [92, 255, 120, 255];

/// The color that a gradient of the readout ends in.
pub const GREEN_HIGHLIGHT: [u8; 4] = [168, 255, 112, 255];

/// The background that streaming software keys out.
pub const CHROMA: [u8; 4] = [39, 24, 132, 255];

/// The most digits of a fraction of a second that are shown.
pub const MAX_DIGITS: u8 = 2;

/// The bits of 0.0, the least angle of a gradient.
pub const MIN_ANGLE: u32 = 0;

/// The bits of 360.0, the greatest angle of a gradient.
pub const MAX_ANGLE: u32 = 0x43b4_0000;

/// The bits of 32.0, the least size of the readout.
pub const MIN_FONT_SIZE: u32 = 0x4200_0000;

/// The bits of 180.0, the greatest size of the readout.
pub const MAX_FONT_SIZE: u32 = 0x4334_0000;

/// The bits of 72.0, the size of the readout where nothing else is asked for.
pub const DEFAULT_FONT_SIZE: u32 = 0x4290_0000;

/// How the readout looks.
#[derive(Debug, Clone, Copy, PartialEq, Eq)]
pub struct Appearance {
    pub text_color: [u8; 4],
    pub gradient: bool,
    pub gradient_end: [u8; 4],
    pub gradient_angle: Scalar,
    pub chroma_key: [u8; 4],
    pub native_transparency: bool,
    pub font_size: Scalar,
}

impl Appearance {
    pub open spec fn defaults() -> Appearance {
        Appearance {
            text_color: GREEN,
            gradient: false,
            gradient_end: GREEN_HIGHLIGHT,
            gradient_angle: Scalar { bits: MIN_ANGLE },
            chroma_key: CHROMA,
            native_transparency: true,
            font_size: Scalar { bits: DEFAULT_FONT_SIZE },
        }
    }

    /// Whether every part is one that the readout can be drawn with.
    pub open spec fn valid(self) -> bool {
        &&& self.gradient_angle.within(Scalar { bits: MIN_ANGLE }, Scalar { bits: MAX_ANGLE })
        &&& self.chroma_key[3] == 255
        &&& self.font_size.within(Scalar { bits: MIN_FONT_SIZE }, Scalar { bits: MAX_FONT_SIZE })
    }
}

impl Default for Appearance {
    fn default() -> (appearance: Appearance)
        ensures
            appearance == Appearance::defaults(),
    {
        Appearance {
            text_color: GREEN,
            gradient: false,
            gradient_end: GREEN_HIGHLIGHT,
            gradient_angle: Scalar { bits: MIN_ANGLE },
            chroma_key: CHROMA,
            native_transparency: true,
            font_size: Scalar { bits: DEFAULT_FONT_SIZE },
        }
    }
}

/// The preferences of the timer.
#[derive(Debug, PartialEq, Eq)]
pub struct Settings {
    pub show_milliseconds: bool,
    pub fractional_digits: u8,
    pub overlay_mode: bool,
    pub appearance: Appearance,
    pub shortcuts: [String; 4],
}

/// What `Settings` stand for.
#[verifier::ext_equal]
pub struct SettingsView {
    pub show_milliseconds: bool,
    pub fractional_digits: u8,
    pub overlay_mode: bool,
    pub appearance: Appearance,
    pub shortcuts: Seq<Seq<char>>,
}

impl View for Settings {
    type V = SettingsView;

    open spec fn view(&self) -> SettingsView {
        SettingsView {
            show_milliseconds: self.show_milliseconds,
            fractional_digits: self.fractional_digits,
            overlay_mode: self.overlay_mode,
            appearance: self.appearance,
            shortcuts: crate::hotkey::texts(self.shortcuts),
        }
    }
}

impl SettingsView {
    pub open spec fn defaults() -> SettingsView {
        SettingsView {
            show_milliseconds: true,
            fractional_digits: MAX_DIGITS,
            overlay_mode: false,
            appearance: Appearance::defaults(),
            shortcuts: crate::hotkey::default_texts(),
        }
    }

    /// Whether the preferences are complete and usable: every number is in its
    /// range, the background is opaque, and the four shortcuts can be
    /// registered together and are spelled canonically.
    pub open spec fn valid(self) -> bool {
        &&& self.fractional_digits <= MAX_DIGITS
        &&& self.appearance.valid()
        &&& crate::hotkey::canonical(self.shortcuts)
    }

    /// The preferences with one of them changed.
    pub open spec fn changed(self, change: PreferenceChange) -> SettingsView {
        let appearance = self.appearance;
        match change {
            PreferenceChange::ShowMilliseconds(value) => SettingsView {
                show_milliseconds: value,
                ..self
            },
            PreferenceChange::FractionalDigits(value) => SettingsView {
                fractional_digits: if value <= MAX_DIGITS {
                    value
                } else {
                    MAX_DIGITS
                },
                ..self
            },
            PreferenceChange::OverlayMode(value) => SettingsView { overlay_mode: value, ..self },
            PreferenceChange::NativeTransparency(value) => SettingsView {
                appearance: Appearance { native_transparency: value, ..appearance },
                ..self
            },
            PreferenceChange::ChromaKey(value) => SettingsView {
                appearance: Appearance { chroma_key: crate::color::opaque(value), ..appearance },
                ..self
            },
            PreferenceChange::TextColor(value) => SettingsView {
                appearance: Appearance { text_color: value, ..appearance },
                ..self
            },
            PreferenceChange::Gradient(value) => SettingsView {
                appearance: Appearance { gradient: value, ..appearance },
                ..self
            },
            PreferenceChange::GradientEnd(value) => SettingsView {
                appearance: Appearance { gradient_end: value, ..appearance },
                ..self
            },
            PreferenceChange::GradientAngle(value) => SettingsView {
                appearance: Appearance {
                    gradient_angle: value.clamped(
                        Scalar { bits: MIN_ANGLE },
                        Scalar { bits: MAX_ANGLE },
                    ),
                    ..appearance
                },
                ..self
            },
            PreferenceChange::FontSize(value) => SettingsView {
                appearance: Appearance {
                    font_size: value.clamped(
                        Scalar { bits: MIN_FONT_SIZE },
                        Scalar { bits: MAX_FONT_SIZE },
                    ),
                    ..appearance
                },
                ..self
            },
        }
    }

    /// The preferences with the overlay switched.
    pub open spec fn toggled(self) -> SettingsView {
        SettingsView { overlay_mode: !self.overlay_mode, ..self }
    }
}

impl Default for Settings {
    fn default() -> (settings: Settings)
        ensures
            settings@ == SettingsView::defaults(),
            settings@.valid(),
    {
        let keys = default_hotkeys();
        let settings = Settings {
            show_milliseconds: true,
            fractional_digits: MAX_DIGITS,
            overlay_mode: false,
            appearance: Appearance::default(),
            shortcuts: shortcut_texts(&keys),
        };
        proof {
            assert(crate::hotkey::valid_keys(crate::hotkey::keys_view(keys@)));
        }
        settings
    }
}

impl Clone for Settings {
    fn clone(&self) -> (copy: Settings)
        ensures
            copy == *self,
    {
        let shortcuts = copy_texts(&self.shortcuts);
        Settings {
            show_milliseconds: self.show_milliseconds,
            fractional_digits: self.fractional_digits,
            overlay_mode: self.overlay_mode,
            appearance: self.appearance,
            shortcuts,
        }
    }
}

/// A copy of four texts.
pub fn copy_texts(values: &[String; 4]) -> (copy: [String; 4])
    ensures
        copy == *values,
{
    let copy = [values[0].clone(), values[1].clone(), values[2].clone(), values[3].clone()];
    assert(copy@ =~= values@);
    assert(copy =~= *values);
    copy
}

/// A change of one preference.
#[derive(Debug, Clone, Copy, PartialEq, Eq)]
pub enum PreferenceChange {
    ShowMilliseconds(bool),
    FractionalDigits(u8),
    OverlayMode(bool),
    NativeTransparency(bool),
    ChromaKey([u8; 4]),
    TextColor([u8; 4]),
    Gradient(bool),
    GradientEnd([u8; 4]),
    GradientAngle(Scalar),
    FontSize(Scalar),
}

/// Changes one preference. A number outside its range becomes the nearer end of
/// the range, and the background stays opaque.
pub fn apply_preference_change(settings: &mut Settings, change: PreferenceChange)
    ensures
        final(settings)@ == old(settings)@.changed(change),
        final(settings).shortcuts == old(settings).shortcuts,
{
    match change {
        PreferenceChange::ShowMilliseconds(value) => {
            settings.show_milliseconds = value;
        },
        PreferenceChange::FractionalDigits(value) => {
            settings.fractional_digits = if value <= MAX_DIGITS {
                value
            } else {
                MAX_DIGITS
            };
        },
        PreferenceChange::OverlayMode(value) => {
            settings.overlay_mode = value;
        },
        PreferenceChange::NativeTransparency(value) => {
            settings.appearance.native_transparency = value;
        },
        PreferenceChange::ChromaKey(value) => {
            settings.appearance.chroma_key = chroma_color(value);
        },
        PreferenceChange::TextColor(value) => {
            settings.appearance.text_color = value;
        },
        PreferenceChange::Gradient(value) => {
            settings.appearance.gradient = value;
        },
        PreferenceChange::GradientEnd(value) => {
            settings.appearance.gradient_end = value;
        },
        PreferenceChange::GradientAngle(value) => {
            settings.appearance.gradient_angle = value.clamp(
                Scalar { bits: MIN_ANGLE },
                Scalar { bits: MAX_ANGLE },
            );
        },
        PreferenceChange::FontSize(value) => {
            settings.appearance.font_size = value.clamp(
                Scalar { bits: MIN_FONT_SIZE },
                Scalar { bits: MAX_FONT_SIZE },
            );
        },
    }
}

/// Switches the overlay.
pub fn apply_overlay_transition(settings: &mut Settings)
    ensures
        final(settings)@ == old(settings)@.toggled(),
        final(settings).shortcuts == old(settings).shortcuts,
{
    let next = toggled_overlay(settings.overlay_mode, overlay_toggle_action());
    apply_preference_change(settings, PreferenceChange::OverlayMode(next));
}

/// What the program starts with: the preferences as they are, and a timer that
/// has not run.
pub fn initial_runtime_state(settings: Settings) -> (state: (Settings, Timer))
    ensures
        state.0 == settings,
        state.1@ == crate::timer::TimerView::fresh(),
{
    (settings, Timer::default())
}

/// What is said after an attempt to save.
pub open spec fn save_message(result: Result<(), Seq<char>>) -> Seq<char> {
    match result {
        Ok(_) => "Preferences saved"@,
        Err(error) => "Preferences kept in memory; save failed: "@ + error,
    }
}

/// What is said after an attempt to save.
pub fn save_status(result: Result<(), String>) -> (status: String)
    ensures
        status@ == save_message(crate::transaction::answer_view(result)),
{
    match result {
        Ok(()) => "Preferences saved".to_owned(),
        Err(error) => {
            let mut status = "Preferences kept in memory; save failed: ".to_owned();
            status.append(error.as_str());
            status
        },
    }
}

/// Which preference a change is of.
pub open spec fn preference(change: PreferenceChange) -> nat {
    match change {
        PreferenceChange::ShowMilliseconds(_) => 0,
        PreferenceChange::FractionalDigits(_) => 1,
        PreferenceChange::OverlayMode(_) => 2,
        PreferenceChange::NativeTransparency(_) => 3,
        PreferenceChange::ChromaKey(_) => 4,
        PreferenceChange::TextColor(_) => 5,
        PreferenceChange::Gradient(_) => 6,
        PreferenceChange::GradientEnd(_) => 7,
        PreferenceChange::GradientAngle(_) => 8,
        PreferenceChange::FontSize(_) => 9,
    }
}

/// A change touches its own preference alone: changes of different preferences
/// give the same result in either order, and no change touches the shortcuts.
pub proof fn law_changes_keep_to_their_target(
    settings: SettingsView,
    first: PreferenceChange,
    second: PreferenceChange,
)
    requires
        preference(first) != preference(second),
    ensures
        settings.changed(first).changed(second) == settings.changed(second).changed(first),
        settings.changed(first).shortcuts == settings.shortcuts,
{
}

/// Of two changes of one preference the later decides.
pub proof fn law_later_change_decides(
    settings: SettingsView,
    first: PreferenceChange,
    second: PreferenceChange,
)
    requires
        preference(first) == preference(second),
    ensures
        settings.changed(first).changed(second) == settings.changed(second),
{
}

/// A change leaves usable preferences usable, unless it sets an angle or a size
/// to what is not a number.
pub proof fn law_changes_keep_settings_valid(settings: SettingsView, change: PreferenceChange)
    requires
        settings.valid(),
        change matches PreferenceChange::GradientAngle(value) ==> !value.nan(),
        change matches PreferenceChange::FontSize(value) ==> !value.nan(),
    ensures
        settings.changed(change).valid(),
{
}

/// Switching the overlay is the same as setting it to the opposite, and doing so
/// twice leaves the preferences as they were.
pub proof fn law_overlay_toggle(settings: SettingsView)
    ensures
        settings.toggled() == settings.changed(
            PreferenceChange::OverlayMode(
                crate::action::overlay_after(settings.overlay_mode, TimerAction::ToggleOverlay),
            ),
        ),
        settings.toggled().toggled() == settings,
        settings.valid() ==> settings.toggled().valid(),
{
}

} // verus!
