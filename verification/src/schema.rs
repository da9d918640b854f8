//! The preferences as they are kept in a file: every field may be missing or
//! malformed, and whatever can be used of it is used.

use crate::color::{chroma_color, color_hex, parse_color};
use crate::hotkey::{parse_shortcuts, shortcut_texts, HotKey};
use crate::scalar::Scalar;
use crate::settings::{
    Appearance, Settings, MAX_ANGLE, MAX_DIGITS, MAX_FONT_SIZE, MIN_ANGLE, MIN_FONT_SIZE,
};
use vstd::prelude::*;
use vstd::string::*;
use vstd::utf8::*;

verus! {

/// The version of the file format that is written, and the only one read.
pub const SETTINGS_VERSION: u32 = 1;

/// The fields of a file, none of them checked.
#[derive(Debug)]
pub struct RawSettings {
    pub show_milliseconds: Option<bool>,
    pub fractional_digits: Option<u8>,
    pub overlay_mode: Option<bool>,
    pub text_color: Option<String>,
    pub gradient: Option<bool>,
    pub gradient_end: Option<String>,
    pub gradient_angle: Option<Scalar>,
    pub chroma_key: Option<String>,
    pub native_transparency: Option<bool>,
    pub font_size: Option<Scalar>,
    pub shortcuts: Option<Vec<String>>,
}

/// A file: the version of its format and its fields.
#[derive(Debug)]
pub struct SettingsFile {
    pub schema_version: u32,
    pub settings: RawSettings,
}

/// What `RawSettings` stand for.
#[verifier::ext_equal]
pub struct RawView {
    pub show_milliseconds: Option<bool>,
    pub fractional_digits: Option<u8>,
    pub overlay_mode: Option<bool>,
    pub text_color: Option<Seq<char>>,
    pub gradient: Option<bool>,
    pub gradient_end: Option<Seq<char>>,
    pub gradient_angle: Option<Scalar>,
    pub chroma_key: Option<Seq<char>>,
    pub native_transparency: Option<bool>,
    pub font_size: Option<Scalar>,
    pub shortcuts: Option<Seq<Seq<char>>>,
}

/// What a `SettingsFile` stands for.
#[verifier::ext_equal]
pub struct FileView {
    pub schema_version: u32,
    pub settings: RawView,
}

/// The text of a field that may be missing.
pub open spec fn text_view(text: Option<String>) -> Option<Seq<char>> {
    match text {
        Some(text) => Some(text@),
        None => None,
    }
}

/// The texts of a list.
pub open spec fn list_view(values: Seq<String>) -> Seq<Seq<char>> {
    values.map_values(|value: String| value@)
}

/// The texts of a list that may be missing.
pub open spec fn shortcuts_view(field: Option<Vec<String>>) -> Option<Seq<Seq<char>>> {
    match field {
        Some(values) => Some(list_view(values@)),
        None => None,
    }
}

impl View for RawSettings {
    type V = RawView;

    open spec fn view(&self) -> RawView {
        RawView {
            show_milliseconds: self.show_milliseconds,
            fractional_digits: self.fractional_digits,
            overlay_mode: self.overlay_mode,
            text_color: text_view(self.text_color),
            gradient: self.gradient,
            gradient_end: text_view(self.gradient_end),
            gradient_angle: self.gradient_angle,
            chroma_key: text_view(self.chroma_key),
            native_transparency: self.native_transparency,
            font_size: self.font_size,
            shortcuts: shortcuts_view(self.shortcuts),
        }
    }
}

impl View for SettingsFile {
    type V = FileView;

    open spec fn view(&self) -> FileView {
        FileView { schema_version: self.schema_version, settings: self.settings@ }
    }
}

/// The value of a field, or `fallback` where the field is missing.
pub open spec fn or<T>(field: Option<T>, fallback: T) -> T {
    match field {
        Some(value) => value,
        None => fallback,
    }
}

/// The color of a field, where there is one.
pub open spec fn color_field(field: Option<Seq<char>>) -> Option<[u8; 4]> {
    match field {
        Some(text) => crate::color::color_of(encode_utf8(text)),
        None => None,
    }
}

impl RawView {
    pub open spec fn empty() -> RawView {
        RawView {
            show_milliseconds: None,
            fractional_digits: None,
            overlay_mode: None,
            text_color: None,
            gradient: None,
            gradient_end: None,
            gradient_angle: None,
            chroma_key: None,
            native_transparency: None,
            font_size: None,
            shortcuts: None,
        }
    }

    /// The texts of the shortcuts, where there are four, and none otherwise.
    pub open spec fn four_texts(self) -> Seq<Seq<char>> {
        match self.shortcuts {
            Some(values) => if values.len() == 4 {
                values
            } else {
                Seq::empty()
            },
            None => Seq::empty(),
        }
    }

    /// Whether the shortcuts are known to be read alike on every platform.
    pub open spec fn reads_alike(self) -> bool {
        crate::hotkey::all_read_alike(self.four_texts())
    }

    /// The usable preferences on a platform.
    pub open spec fn normalized_on(self, macos: bool) -> crate::settings::SettingsView {
        self.normalized(crate::hotkey::reading_on(self.four_texts(), macos))
    }

    /// Whether these can be the usable preferences: each text of a shortcut is
    /// read as on one platform or the other, and so they are fixed where the
    /// texts are read alike on both.
    pub open spec fn normalizes_to(self, settings: crate::settings::SettingsView) -> bool {
        &&& exists|read: Seq<Result<crate::hotkey::HotKeyView, Seq<char>>>|
            #[trigger] crate::hotkey::reads(self.four_texts(), read) && settings
                == self.normalized(read)
        &&& self.reads_alike() ==> forall|macos: bool|
            settings == #[trigger] self.normalized_on(macos)
    }

    /// The shortcuts, where the four texts of them are read as `read`: all
    /// together or not at all.
    pub open spec fn chosen(
        self,
        read: Seq<Result<crate::hotkey::HotKeyView, Seq<char>>>,
    ) -> Option<Seq<crate::hotkey::HotKeyView>> {
        if self.four_texts().len() == 4 {
            match crate::hotkey::selected(read) {
                Ok(keys) => Some(keys),
                Err(_) => None,
            }
        } else {
            None
        }
    }

    /// The usable preferences, where the four texts of shortcuts are read as
    /// `read`.
    pub open spec fn normalized(
        self,
        read: Seq<Result<crate::hotkey::HotKeyView, Seq<char>>>,
    ) -> crate::settings::SettingsView {
        self.normalized_with(self.chosen(read))
    }

    /// The usable preferences with these shortcuts, where there are any: what is
    /// missing or malformed is taken from the defaults.
    pub open spec fn normalized_with(
        self,
        keys: Option<Seq<crate::hotkey::HotKeyView>>,
    ) -> crate::settings::SettingsView {
        let defaults = crate::settings::SettingsView::defaults();
        let digits = or(self.fractional_digits, defaults.fractional_digits);
        let angle = match self.gradient_angle {
            Some(angle) => if angle.finite() {
                angle
            } else {
                defaults.appearance.gradient_angle
            },
            None => defaults.appearance.gradient_angle,
        };
        crate::settings::SettingsView {
            show_milliseconds: or(self.show_milliseconds, defaults.show_milliseconds),
            fractional_digits: if digits <= MAX_DIGITS {
                digits
            } else {
                MAX_DIGITS
            },
            overlay_mode: or(self.overlay_mode, defaults.overlay_mode),
            appearance: Appearance {
                text_color: or(color_field(self.text_color), defaults.appearance.text_color),
                gradient: or(self.gradient, defaults.appearance.gradient),
                gradient_end: or(color_field(self.gradient_end), defaults.appearance.gradient_end),
                gradient_angle: angle.clamped(
                    Scalar { bits: MIN_ANGLE },
                    Scalar { bits: MAX_ANGLE },
                ),
                chroma_key: match color_field(self.chroma_key) {
                    Some(color) => crate::color::opaque(color),
                    None => defaults.appearance.chroma_key,
                },
                native_transparency: or(
                    self.native_transparency,
                    defaults.appearance.native_transparency,
                ),
                font_size: match self.font_size {
                    Some(size) => if size.within(
                        Scalar { bits: MIN_FONT_SIZE },
                        Scalar { bits: MAX_FONT_SIZE },
                    ) {
                        size
                    } else {
                        defaults.appearance.font_size
                    },
                    None => defaults.appearance.font_size,
                },
            },
            shortcuts: match keys {
                Some(keys) => crate::hotkey::key_texts(keys),
                None => defaults.shortcuts,
            },
        }
    }
}

impl Default for RawSettings {
    fn default() -> (raw: RawSettings)
        ensures
            raw@ == RawView::empty(),
    {
        RawSettings {
            show_milliseconds: None,
            fractional_digits: None,
            overlay_mode: None,
            text_color: None,
            gradient: None,
            gradient_end: None,
            gradient_angle: None,
            chroma_key: None,
            native_transparency: None,
            font_size: None,
            shortcuts: None,
        }
    }
}

fn field_color(field: &Option<String>) -> (color: Option<[u8; 4]>)
    ensures
        color == color_field(text_view(*field)),
{
    match field {
        Some(text) => parse_color(text.as_str()),
        None => None,
    }
}

fn color_or(color: Option<[u8; 4]>, fallback: [u8; 4]) -> (chosen: [u8; 4])
    ensures
        chosen == or(color, fallback),
{
    match color {
        Some(color) => color,
        None => fallback,
    }
}

fn bool_or(field: Option<bool>, fallback: bool) -> (chosen: bool)
    ensures
        chosen == or(field, fallback),
{
    match field {
        Some(value) => value,
        None => fallback,
    }
}

/// Shortcuts by their views, where there are any.
pub open spec fn chosen_view(keys: Option<[HotKey; 4]>) -> Option<
    Seq<crate::hotkey::HotKeyView>,
> {
    match keys {
        Some(keys) => Some(crate::hotkey::keys_view(keys@)),
        None => None,
    }
}

/// Whether these can be the shortcuts of a file.
pub open spec fn chooses(raw: RawView, keys: Option<Seq<crate::hotkey::HotKeyView>>) -> bool {
    exists|read: Seq<Result<crate::hotkey::HotKeyView, Seq<char>>>|
        #[trigger] crate::hotkey::reads(raw.four_texts(), read) && keys == raw.chosen(read)
}

/// The shortcuts of a file, where there are four that can be registered
/// together.
pub fn chosen_shortcuts(raw: &RawSettings) -> (keys: Option<[HotKey; 4]>)
    ensures
        chooses(raw@, chosen_view(keys)),
        keys matches Some(keys) ==> crate::hotkey::valid_keys(crate::hotkey::keys_view(keys@)),
{
    proof {
        let none = Seq::<Result<crate::hotkey::HotKeyView, Seq<char>>>::empty();
        if raw@.four_texts().len() == 0 {
            assert(crate::hotkey::reads(raw@.four_texts(), none));
        }
    }
    let values = match &raw.shortcuts {
        Some(values) => values,
        None => {
            return None;
        },
    };
    if values.len() != 4 {
        return None;
    }
    let four = [values[0].clone(), values[1].clone(), values[2].clone(), values[3].clone()];
    assert(crate::hotkey::texts(four) =~= raw@.four_texts());
    let result = parse_shortcuts(&four);
    let ghost read = choose|read: Seq<Result<crate::hotkey::HotKeyView, Seq<char>>>|
        #[trigger]
        crate::hotkey::reads(crate::hotkey::texts(four), read) && crate::hotkey::selection_view(
            result,
        ) == crate::hotkey::selected(read);
    assert(crate::hotkey::reads(raw@.four_texts(), read));
    match result {
        Ok(keys) => {
            proof {
                crate::hotkey::law_selected_shortcuts_are_valid(read);
            }
            Some(keys)
        },
        Err(_) => None,
    }
}

/// The usable preferences of a file. What is missing or malformed is taken from
/// the defaults without losing what is sound, numbers outside their range are
/// brought into it, and the background is made opaque.
pub fn normalize(raw: RawSettings) -> (settings: Settings)
    ensures
        raw@.normalizes_to(settings@),
        settings@.valid(),
{
    let ghost view = raw@;
    let keys = chosen_shortcuts(&raw);
    let ghost chosen = chosen_view(keys);
    let settings = normalize_with(raw, keys);
    proof {
        let read = choose|read: Seq<Result<crate::hotkey::HotKeyView, Seq<char>>>|
            #[trigger]
            crate::hotkey::reads(view.four_texts(), read) && chosen == view.chosen(read);
        assert(settings@ == view.normalized(read));
        if view.reads_alike() {
            crate::hotkey::lemma_one_reading(view.four_texts(), read);
            assert forall|macos: bool| settings@ == #[trigger] view.normalized_on(macos) by {
                assert(crate::hotkey::reading_on(view.four_texts(), macos) == read);
            }
        }
    }
    settings
}

/// The usable preferences of a file whose shortcuts have been read as `keys`,
/// and could not serve where there are none.
pub fn normalize_with(raw: RawSettings, keys: Option<[HotKey; 4]>) -> (settings: Settings)
    ensures
        settings@ == raw@.normalized_with(chosen_view(keys)),
        (keys matches Some(keys) ==> crate::hotkey::valid_keys(crate::hotkey::keys_view(keys@)))
            ==> settings@.valid(),
{
    let defaults = Settings::default();
    let digits: u8 = match raw.fractional_digits {
        Some(digits) => digits,
        None => defaults.fractional_digits,
    };
    let angle = match raw.gradient_angle {
        Some(angle) => if angle.is_finite() {
            angle
        } else {
            defaults.appearance.gradient_angle
        },
        None => defaults.appearance.gradient_angle,
    };
    let font_size = match raw.font_size {
        Some(size) => if size.is_within(
            Scalar { bits: MIN_FONT_SIZE },
            Scalar { bits: MAX_FONT_SIZE },
        ) {
            size
        } else {
            defaults.appearance.font_size
        },
        None => defaults.appearance.font_size,
    };
    let appearance = Appearance {
        text_color: color_or(field_color(&raw.text_color), defaults.appearance.text_color),
        gradient: bool_or(raw.gradient, defaults.appearance.gradient),
        gradient_end: color_or(field_color(&raw.gradient_end), defaults.appearance.gradient_end),
        gradient_angle: angle.clamp(Scalar { bits: MIN_ANGLE }, Scalar { bits: MAX_ANGLE }),
        chroma_key: match field_color(&raw.chroma_key) {
            Some(color) => chroma_color(color),
            None => defaults.appearance.chroma_key,
        },
        native_transparency: bool_or(
            raw.native_transparency,
            defaults.appearance.native_transparency,
        ),
        font_size,
    };
    let settings = Settings {
        show_milliseconds: bool_or(raw.show_milliseconds, defaults.show_milliseconds),
        fractional_digits: if digits <= MAX_DIGITS {
            digits
        } else {
            MAX_DIGITS
        },
        overlay_mode: bool_or(raw.overlay_mode, defaults.overlay_mode),
        appearance,
        shortcuts: match &keys {
            Some(keys) => shortcut_texts(keys),
            None => defaults.shortcuts,
        },
    };
    proof {
        if keys is Some && crate::hotkey::valid_keys(crate::hotkey::keys_view(keys->0@)) {
            assert(crate::hotkey::canonical(settings@.shortcuts));
        }
    }
    settings
}

/// The fields of the file that keeps preferences.
pub open spec fn raw_of(settings: crate::settings::SettingsView) -> RawView {
    RawView {
        show_milliseconds: Some(settings.show_milliseconds),
        fractional_digits: Some(
            if settings.fractional_digits <= MAX_DIGITS {
                settings.fractional_digits
            } else {
                MAX_DIGITS
            },
        ),
        overlay_mode: Some(settings.overlay_mode),
        text_color: Some(crate::color::color_text(settings.appearance.text_color)),
        gradient: Some(settings.appearance.gradient),
        gradient_end: Some(crate::color::color_text(settings.appearance.gradient_end)),
        gradient_angle: Some(
            settings.appearance.gradient_angle.clamped(
                Scalar { bits: MIN_ANGLE },
                Scalar { bits: MAX_ANGLE },
            ),
        ),
        chroma_key: Some(crate::color::color_text(settings.appearance.chroma_key)),
        native_transparency: Some(settings.appearance.native_transparency),
        font_size: Some(settings.appearance.font_size),
        shortcuts: Some(settings.shortcuts),
    }
}

/// The file that keeps preferences.
pub open spec fn file_of(settings: crate::settings::SettingsView) -> FileView {
    FileView { schema_version: SETTINGS_VERSION, settings: raw_of(settings) }
}

/// The file that keeps `settings`.
pub fn to_file(settings: &Settings) -> (file: SettingsFile)
    ensures
        file@ == file_of(settings@),
{
    let mut shortcuts: Vec<String> = Vec::new();
    shortcuts.push(settings.shortcuts[0].clone());
    shortcuts.push(settings.shortcuts[1].clone());
    shortcuts.push(settings.shortcuts[2].clone());
    shortcuts.push(settings.shortcuts[3].clone());
    assert(list_view(shortcuts@) =~= settings@.shortcuts);
    SettingsFile {
        schema_version: SETTINGS_VERSION,
        settings: RawSettings {
            show_milliseconds: Some(settings.show_milliseconds),
            fractional_digits: Some(
                if settings.fractional_digits <= MAX_DIGITS {
                    settings.fractional_digits
                } else {
                    MAX_DIGITS
                },
            ),
            overlay_mode: Some(settings.overlay_mode),
            text_color: Some(color_hex(settings.appearance.text_color)),
            gradient: Some(settings.appearance.gradient),
            gradient_end: Some(color_hex(settings.appearance.gradient_end)),
            gradient_angle: Some(
                settings.appearance.gradient_angle.clamp(
                    Scalar { bits: MIN_ANGLE },
                    Scalar { bits: MAX_ANGLE },
                ),
            ),
            chroma_key: Some(color_hex(settings.appearance.chroma_key)),
            native_transparency: Some(settings.appearance.native_transparency),
            font_size: Some(settings.appearance.font_size),
            shortcuts: Some(shortcuts),
        },
    }
}

/// Why a file gives no preferences.
#[derive(Debug, PartialEq, Eq)]
pub enum DecodeSettingsError {
    /// It is not a file of preferences; the message says why.
    Parse(String),
    /// It is of another version.
    Unsupported,
}

/// What a `DecodeSettingsError` stands for.
pub enum DecodeErrorView {
    Parse(Seq<char>),
    Unsupported,
}

impl View for DecodeSettingsError {
    type V = DecodeErrorView;

    open spec fn view(&self) -> DecodeErrorView {
        match *self {
            DecodeSettingsError::Parse(message) => DecodeErrorView::Parse(message@),
            DecodeSettingsError::Unsupported => DecodeErrorView::Unsupported,
        }
    }
}

/// A file that has been parsed, or the message that says why it cannot be, by
/// its view.
pub open spec fn parsed_view(parsed: Result<SettingsFile, String>) -> Result<FileView, Seq<char>> {
    match parsed {
        Ok(file) => Ok(file@),
        Err(message) => Err(message@),
    }
}

/// A decoded file by its view.
pub open spec fn decoded_view(result: Result<Settings, DecodeSettingsError>) -> Result<
    crate::settings::SettingsView,
    DecodeErrorView,
> {
    match result {
        Ok(settings) => Ok(settings@),
        Err(error) => Err(error@),
    }
}

/// Whether `result` is what a parsed file decodes to: usable preferences for a
/// file of this version, and otherwise the reason why there are none.
pub open spec fn decodes_to(
    parsed: Result<FileView, Seq<char>>,
    result: Result<crate::settings::SettingsView, DecodeErrorView>,
) -> bool {
    match parsed {
        Err(message) => result == Err::<crate::settings::SettingsView, DecodeErrorView>(
            DecodeErrorView::Parse(message),
        ),
        Ok(file) => if file.schema_version != SETTINGS_VERSION {
            result == Err::<crate::settings::SettingsView, DecodeErrorView>(
                DecodeErrorView::Unsupported,
            )
        } else {
            result matches Ok(settings) && file.settings.normalizes_to(settings)
                && settings.valid()
        },
    }
}

/// The preferences of a file that has been parsed.
pub fn decode_settings(parsed: Result<SettingsFile, String>) -> (result: Result<
    Settings,
    DecodeSettingsError,
>)
    ensures
        decodes_to(parsed_view(parsed), decoded_view(result)),
{
    let file = match parsed {
        Ok(file) => file,
        Err(message) => {
            return Err(DecodeSettingsError::Parse(message));
        },
    };
    if file.schema_version != SETTINGS_VERSION {
        return Err(DecodeSettingsError::Unsupported);
    }
    Ok(normalize(file.settings))
}

/// Usable preferences survive being saved and loaded again: decoding the file
/// that keeps them gives exactly them back.
pub proof fn law_saved_settings_read_back(
    settings: crate::settings::SettingsView,
    result: Result<crate::settings::SettingsView, DecodeErrorView>,
)
    requires
        settings.valid(),
    ensures
        decodes_to(Ok(file_of(settings)), result) ==> result == Ok::<
            crate::settings::SettingsView,
            DecodeErrorView,
        >(settings),
{
    let raw = raw_of(settings);
    let appearance = settings.appearance;
    crate::color::law_color_text_reads_back(appearance.text_color);
    crate::color::law_color_text_reads_back(appearance.gradient_end);
    crate::color::law_color_text_reads_back(appearance.chroma_key);
    assert(crate::color::opaque(appearance.chroma_key)@ =~= appearance.chroma_key@);
    assert(crate::color::opaque(appearance.chroma_key) =~= appearance.chroma_key);
    let keys = choose|keys: Seq<crate::hotkey::HotKeyView>| #[trigger]
        crate::hotkey::valid_keys(keys) && settings.shortcuts == crate::hotkey::key_texts(keys);
    crate::hotkey::law_canonical_texts_read_back(keys, true);
    assert(raw.four_texts() == settings.shortcuts);
    assert(appearance.gradient_angle.finite());
    assert(raw.normalized_on(true) == settings);
}

/// A file of another version, older or newer, is never taken for preferences.
pub proof fn law_other_versions_are_refused(
    file: FileView,
    result: Result<crate::settings::SettingsView, DecodeErrorView>,
)
    requires
        file.schema_version != SETTINGS_VERSION,
    ensures
        decodes_to(Ok(file), result) ==> result == Err::<
            crate::settings::SettingsView,
            DecodeErrorView,
        >(DecodeErrorView::Unsupported),
{
}

/// A malformed field costs nothing but itself. On one platform each preference
/// is made of its own field alone: where two files have the same value in a
/// field, or have none in it, they give the same preference, whatever stands in
/// the other fields. A field that is missing gives the default.
pub proof fn law_fields_are_read_apart(raw: RawView, other: RawView, macos: bool)
    ensures
        ({
            let first = raw.normalized_on(macos);
            let second = other.normalized_on(macos);
            let defaults = crate::settings::SettingsView::defaults();
            &&& raw.show_milliseconds == other.show_milliseconds ==> first.show_milliseconds == second.show_milliseconds
            &&& raw.fractional_digits == other.fractional_digits ==> first.fractional_digits == second.fractional_digits
            &&& raw.overlay_mode == other.overlay_mode ==> first.overlay_mode == second.overlay_mode
            &&& raw.text_color == other.text_color ==> first.appearance.text_color == second.appearance.text_color
            &&& raw.gradient == other.gradient ==> first.appearance.gradient == second.appearance.gradient
            &&& raw.gradient_end == other.gradient_end ==> first.appearance.gradient_end == second.appearance.gradient_end
            &&& raw.gradient_angle == other.gradient_angle ==> first.appearance.gradient_angle == second.appearance.gradient_angle
            &&& raw.chroma_key == other.chroma_key ==> first.appearance.chroma_key == second.appearance.chroma_key
            &&& raw.native_transparency == other.native_transparency ==> first.appearance.native_transparency == second.appearance.native_transparency
            &&& raw.font_size == other.font_size ==> first.appearance.font_size == second.appearance.font_size
            &&& raw.shortcuts == other.shortcuts ==> first.shortcuts == second.shortcuts
            &&& raw.show_milliseconds is None ==> first.show_milliseconds == defaults.show_milliseconds
            &&& raw.fractional_digits is None ==> first.fractional_digits == defaults.fractional_digits
            &&& raw.overlay_mode is None ==> first.overlay_mode == defaults.overlay_mode
            &&& raw.text_color is None ==> first.appearance.text_color == defaults.appearance.text_color
            &&& raw.gradient is None ==> first.appearance.gradient == defaults.appearance.gradient
            &&& raw.gradient_end is None ==> first.appearance.gradient_end == defaults.appearance.gradient_end
            &&& raw.gradient_angle is None ==> first.appearance.gradient_angle == defaults.appearance.gradient_angle
            &&& raw.chroma_key is None ==> first.appearance.chroma_key == defaults.appearance.chroma_key
            &&& raw.native_transparency is None ==> first.appearance.native_transparency == defaults.appearance.native_transparency
            &&& raw.font_size is None ==> first.appearance.font_size == defaults.appearance.font_size
            &&& raw.shortcuts is None ==> first.shortcuts == defaults.shortcuts
        }),
{
}

/// Two calls read fields apart, too: where two files have the same value in a
/// field, what they come out as agrees in that preference, whatever stands in
/// the other fields. Of the shortcuts this is said where their texts are read
/// alike on every platform.
pub proof fn law_two_files_agree_where_their_fields_do(
    raw: RawView,
    other: RawView,
    first: crate::settings::SettingsView,
    second: crate::settings::SettingsView,
)
    requires
        raw.normalizes_to(first),
        other.normalizes_to(second),
    ensures
        ({
            let defaults = crate::settings::SettingsView::defaults();
            &&& raw.show_milliseconds == other.show_milliseconds ==> first.show_milliseconds == second.show_milliseconds
            &&& raw.fractional_digits == other.fractional_digits ==> first.fractional_digits == second.fractional_digits
            &&& raw.overlay_mode == other.overlay_mode ==> first.overlay_mode == second.overlay_mode
            &&& raw.text_color == other.text_color ==> first.appearance.text_color == second.appearance.text_color
            &&& raw.gradient == other.gradient ==> first.appearance.gradient == second.appearance.gradient
            &&& raw.gradient_end == other.gradient_end ==> first.appearance.gradient_end == second.appearance.gradient_end
            &&& raw.gradient_angle == other.gradient_angle ==> first.appearance.gradient_angle == second.appearance.gradient_angle
            &&& raw.chroma_key == other.chroma_key ==> first.appearance.chroma_key == second.appearance.chroma_key
            &&& raw.native_transparency == other.native_transparency ==> first.appearance.native_transparency == second.appearance.native_transparency
            &&& raw.font_size == other.font_size ==> first.appearance.font_size == second.appearance.font_size
            &&& raw.shortcuts == other.shortcuts && raw.reads_alike() ==> first.shortcuts == second.shortcuts
            &&& raw.show_milliseconds is None ==> first.show_milliseconds == defaults.show_milliseconds
            &&& raw.fractional_digits is None ==> first.fractional_digits == defaults.fractional_digits
            &&& raw.overlay_mode is None ==> first.overlay_mode == defaults.overlay_mode
            &&& raw.text_color is None ==> first.appearance.text_color == defaults.appearance.text_color
            &&& raw.gradient is None ==> first.appearance.gradient == defaults.appearance.gradient
            &&& raw.gradient_end is None ==> first.appearance.gradient_end == defaults.appearance.gradient_end
            &&& raw.gradient_angle is None ==> first.appearance.gradient_angle == defaults.appearance.gradient_angle
            &&& raw.chroma_key is None ==> first.appearance.chroma_key == defaults.appearance.chroma_key
            &&& raw.native_transparency is None ==> first.appearance.native_transparency == defaults.appearance.native_transparency
            &&& raw.font_size is None ==> first.appearance.font_size == defaults.appearance.font_size
            &&& raw.shortcuts is None ==> first.shortcuts == defaults.shortcuts
        }),
{
    if raw.shortcuts == other.shortcuts && raw.reads_alike() {
        assert(first == raw.normalized_on(true));
        assert(second == other.normalized_on(true));
    }
}

} // verus!
