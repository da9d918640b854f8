use jxtimer::action::{toggled_overlay, TimerAction};
use jxtimer::color::{chroma_color, color_hex, parse_color};
use jxtimer::hotkey::{default_hotkeys, parse_shortcuts};
use jxtimer::scalar::Scalar;
use jxtimer::schema::{
    chosen_shortcuts, decode_settings, normalize, normalize_with, to_file, DecodeSettingsError,
    RawSettings, SettingsFile, SETTINGS_VERSION,
};
use jxtimer::settings::{
    apply_overlay_transition, apply_preference_change, initial_runtime_state, save_status,
    Appearance, PreferenceChange, Settings,
};
use jxtimer::time::Duration;
use jxtimer::timer::Timer;
use jxtimer::viewport::{
    decorations_for_mode, overlay_background, transparency_status, transparent_background,
    Background, Viewport, ViewportCommand,
};

const DEFAULT_SHORTCUTS: [&str; 4] = [
    "control+alt+KeyS",
    "control+alt+KeyT",
    "control+alt+KeyR",
    "control+alt+KeyO",
];

fn d(ms: u64) -> Duration {
    Duration::from_millis(ms)
}

fn f(value: f32) -> Scalar {
    Scalar {
        bits: value.to_bits(),
    }
}

fn float(value: Scalar) -> f32 {
    f32::from_bits(value.bits)
}

#[test]
fn defaults_are_complete_and_valid() {
    let s = Settings::default();
    assert!(s.show_milliseconds);
    assert_eq!(s.fractional_digits, 2);
    assert_eq!(s.shortcuts.len(), 4);
    assert!(parse_shortcuts(&s.shortcuts).is_ok());
    assert!(parse_color(&color_hex(s.appearance.text_color)).is_some());
    assert!(parse_color(&color_hex(s.appearance.gradient_end)).is_some());
    assert_eq!(s.appearance.chroma_key[3], 255);
    assert!((32.0..=180.0).contains(&float(s.appearance.font_size)));
    assert_eq!(s.appearance.chroma_key, [39, 24, 132, 255]);
}

#[test]
fn defaults_are_these() {
    let s = Settings::default();
    assert!(!s.overlay_mode);
    assert_eq!(s.shortcuts, DEFAULT_SHORTCUTS.map(str::to_owned));
    assert_eq!(s.appearance.text_color, [92, 255, 120, 255]);
    assert_eq!(s.appearance.gradient_end, [168, 255, 112, 255]);
    assert_eq!(float(s.appearance.gradient_angle), 0.0);
    assert_eq!(float(s.appearance.font_size), 72.0);
    assert!(!s.appearance.gradient);
    assert!(s.appearance.native_transparency);
}

#[test]
fn malformed_fields_recover_without_losing_valid_values() {
    let raw = RawSettings {
        show_milliseconds: Some(false),
        text_color: Some("nope".into()),
        chroma_key: Some("#123456".into()),
        font_size: Some(f(999.0)),
        fractional_digits: Some(99),
        shortcuts: Some(vec!["bad".into()]),
        ..Default::default()
    };
    let s = normalize(raw);
    assert!(!s.show_milliseconds);
    assert_eq!(s.appearance.chroma_key, [0x12, 0x34, 0x56, 255]);
    assert_eq!(s.appearance.text_color, Appearance::default().text_color);
    assert_eq!(s.shortcuts[0], DEFAULT_SHORTCUTS[0]);
    assert_eq!(s.fractional_digits, 2);
    assert_eq!(s.appearance.font_size, Appearance::default().font_size);
}

#[test]
fn gradient_angle_normalizes_and_projection_changes_with_direction() {
    let mut raw = RawSettings {
        gradient_angle: Some(f(999.0)),
        ..Default::default()
    };
    assert_eq!(float(normalize(raw).appearance.gradient_angle), 360.0);
    raw = RawSettings {
        gradient_angle: Some(f(-12.0)),
        ..Default::default()
    };
    assert_eq!(float(normalize(raw).appearance.gradient_angle), 0.0);
    raw = RawSettings {
        gradient_angle: Some(f(f32::NAN)),
        ..Default::default()
    };
    assert_eq!(float(normalize(raw).appearance.gradient_angle), 0.0);
}

#[test]
fn infinite_angles_count_as_missing() {
    for angle in [f32::INFINITY, f32::NEG_INFINITY] {
        let raw = RawSettings {
            gradient_angle: Some(f(angle)),
            ..Default::default()
        };
        assert_eq!(float(normalize(raw).appearance.gradient_angle), 0.0);
    }
}

#[test]
fn font_sizes_outside_the_range_count_as_missing() {
    for (size, expected) in [
        (31.9, 72.0),
        (32.0, 32.0),
        (180.0, 180.0),
        (180.1, 72.0),
        (f32::NAN, 72.0),
        (-50.0, 72.0),
    ] {
        let raw = RawSettings {
            font_size: Some(f(size)),
            ..Default::default()
        };
        assert_eq!(float(normalize(raw).appearance.font_size), expected);
    }
}

#[test]
fn settings_round_trip_preserves_all_fields() {
    let mut s = Settings::default();
    s.overlay_mode = true;
    s.appearance.gradient = true;
    s.appearance.gradient_angle = f(135.0);
    s.appearance.text_color = [1, 2, 3, 255];
    let file = to_file(&s);
    assert_eq!(file.schema_version, SETTINGS_VERSION);
    assert_eq!(decode_settings(Ok(file)), Ok(s));
}

#[test]
fn files_spell_every_field_out() {
    let mut s = Settings::default();
    s.appearance.gradient_angle = f(720.0);
    s.appearance.chroma_key = [1, 2, 3, 4];
    s.fractional_digits = 9;
    let raw = to_file(&s).settings;
    assert_eq!(raw.show_milliseconds, Some(true));
    assert_eq!(raw.fractional_digits, Some(2));
    assert_eq!(raw.overlay_mode, Some(false));
    assert_eq!(raw.text_color.as_deref(), Some("#5CFF78FF"));
    assert_eq!(raw.gradient, Some(false));
    assert_eq!(raw.gradient_end.as_deref(), Some("#A8FF70FF"));
    assert_eq!(raw.gradient_angle.map(float), Some(360.0));
    assert_eq!(raw.chroma_key.as_deref(), Some("#01020304"));
    assert_eq!(raw.native_transparency, Some(true));
    assert_eq!(raw.font_size.map(float), Some(72.0));
    assert_eq!(
        raw.shortcuts,
        Some(DEFAULT_SHORTCUTS.map(str::to_owned).to_vec())
    );
}

#[test]
fn files_that_cannot_be_used_say_why() {
    assert_eq!(
        decode_settings(Err("expected value".into())),
        Err(DecodeSettingsError::Parse("expected value".into()))
    );
    for schema_version in [0, 2, 99] {
        let file = SettingsFile {
            schema_version,
            settings: RawSettings::default(),
        };
        assert_eq!(
            decode_settings(Ok(file)),
            Err(DecodeSettingsError::Unsupported)
        );
    }
}

#[test]
fn loaded_settings_preserve_one_duration_driven_timer() {
    let mut timer = Timer::default();
    timer.start(d(10));
    let settings = Settings::default();
    let loaded = decode_settings(Ok(to_file(&settings))).unwrap();
    let elapsed_before = timer.elapsed(d(125));

    assert_eq!(loaded, settings);
    assert_eq!(timer.elapsed(d(125)), elapsed_before);
    assert!(timer.is_running());
}

#[test]
fn initial_settings_restore_does_not_create_or_advance_timer() {
    let mut settings = Settings::default();
    settings.overlay_mode = true;
    settings.show_milliseconds = false;
    settings.appearance.gradient = true;
    let (restored, timer) = initial_runtime_state(settings.clone());
    assert_eq!(restored, settings);
    assert_eq!(timer, Timer::default());
    assert_eq!(timer.elapsed(d(250)), Duration::zero());
    assert!(!timer.is_running());
}

#[test]
fn every_settings_preference_change_mutates_only_its_target() {
    let mut settings = Settings::default();
    apply_preference_change(&mut settings, PreferenceChange::ShowMilliseconds(false));
    apply_preference_change(&mut settings, PreferenceChange::OverlayMode(true));
    apply_preference_change(&mut settings, PreferenceChange::NativeTransparency(false));
    apply_preference_change(&mut settings, PreferenceChange::ChromaKey([1, 2, 3, 0]));
    apply_preference_change(&mut settings, PreferenceChange::TextColor([4, 5, 6, 7]));
    apply_preference_change(&mut settings, PreferenceChange::Gradient(true));
    apply_preference_change(&mut settings, PreferenceChange::GradientEnd([8, 9, 10, 11]));
    apply_preference_change(&mut settings, PreferenceChange::GradientAngle(f(270.0)));
    apply_preference_change(&mut settings, PreferenceChange::FontSize(f(99.0)));
    assert!(!settings.show_milliseconds && settings.overlay_mode);
    assert!(!settings.appearance.native_transparency);
    assert_eq!(settings.appearance.chroma_key, [1, 2, 3, 255]);
    assert_eq!(settings.appearance.text_color, [4, 5, 6, 7]);
    assert!(settings.appearance.gradient);
    assert_eq!(settings.appearance.gradient_end, [8, 9, 10, 11]);
    assert_eq!(float(settings.appearance.gradient_angle), 270.0);
    assert_eq!(float(settings.appearance.font_size), 99.0);
}

#[test]
fn changes_of_different_preferences_commute_and_the_later_decides() {
    let mut one = Settings::default();
    apply_preference_change(&mut one, PreferenceChange::FractionalDigits(7));
    apply_preference_change(&mut one, PreferenceChange::Gradient(true));
    let mut other = Settings::default();
    apply_preference_change(&mut other, PreferenceChange::Gradient(true));
    apply_preference_change(&mut other, PreferenceChange::FractionalDigits(7));
    assert_eq!(one, other);
    assert_eq!(one.fractional_digits, 2);
    apply_preference_change(&mut one, PreferenceChange::FractionalDigits(1));
    assert_eq!(one.fractional_digits, 1);
    assert_eq!(one.shortcuts, Settings::default().shortcuts);
}

#[test]
fn numbers_outside_their_range_become_its_nearer_end() {
    let mut settings = Settings::default();
    for (value, expected) in [(-1.0, 0.0), (0.0, 0.0), (360.0, 360.0), (1e9, 360.0)] {
        apply_preference_change(&mut settings, PreferenceChange::GradientAngle(f(value)));
        assert_eq!(float(settings.appearance.gradient_angle), expected);
    }
    for (value, expected) in [(-90.0, 32.0), (31.0, 32.0), (180.0, 180.0), (f32::INFINITY, 180.0)] {
        apply_preference_change(&mut settings, PreferenceChange::FontSize(f(value)));
        assert_eq!(float(settings.appearance.font_size), expected);
    }
    apply_preference_change(&mut settings, PreferenceChange::FontSize(f(f32::NAN)));
    assert!(float(settings.appearance.font_size).is_nan());
}

#[test]
fn comparing_bits_agrees_with_comparing_numbers() {
    let values = [
        f32::NEG_INFINITY,
        -400.5,
        -1.0,
        -f32::MIN_POSITIVE,
        -0.0,
        0.0,
        f32::MIN_POSITIVE,
        0.5,
        32.0,
        179.99,
        360.0,
        f32::MAX,
        f32::INFINITY,
        f32::NAN,
    ];
    for value in values {
        assert_eq!(f(value).is_finite(), value.is_finite());
        for (low, high) in [(0.0, 360.0), (32.0, 180.0), (-1.0, 0.5), (-0.0, 0.0)] {
            assert_eq!(
                f(value).clamp(f(low), f(high)).bits,
                value.clamp(low, high).to_bits()
            );
            assert_eq!(
                f(value).is_within(f(low), f(high)),
                (low..=high).contains(&value)
            );
        }
    }
}

#[test]
fn save_feedback_preserves_success_and_failure_meaning() {
    assert_eq!(save_status(Ok(())), "Preferences saved");
    assert!(save_status(Err("disk full".into())).contains("kept in memory"));
}

#[test]
fn save_feedback_names_the_failure() {
    assert_eq!(
        save_status(Err("disk full".into())),
        "Preferences kept in memory; save failed: disk full"
    );
}

#[test]
fn local_and_global_overlay_transitions_share_state_logic() {
    let mut local = Settings::default();
    let mut global = Settings::default();
    apply_overlay_transition(&mut local);
    apply_overlay_transition(&mut global);
    assert_eq!(local.overlay_mode, global.overlay_mode);
    assert!(local.overlay_mode);
    assert!(!toggled_overlay(true, TimerAction::ToggleOverlay));
}

#[test]
fn overlay_toggled_twice_is_as_before() {
    let mut settings = Settings::default();
    settings.appearance.gradient = true;
    let before = settings.clone();
    apply_overlay_transition(&mut settings);
    assert_ne!(settings, before);
    apply_overlay_transition(&mut settings);
    assert_eq!(settings, before);
    for action in [TimerAction::Start, TimerAction::Stop, TimerAction::Reset] {
        assert!(toggled_overlay(true, action));
        assert!(!toggled_overlay(false, action));
    }
}

#[test]
fn colors_read_back_from_their_text() {
    for color in [[0, 0, 0, 0], [1, 2, 3, 4], [171, 205, 239, 16], [255; 4]] {
        assert_eq!(parse_color(&color_hex(color)), Some(color));
    }
    assert_eq!(color_hex([171, 205, 239, 16]), "#ABCDEF10");
}

#[test]
fn color_texts_take_their_usual_forms() {
    assert_eq!(parse_color("#abCDef"), Some([0xab, 0xcd, 0xef, 255]));
    assert_eq!(parse_color("abcdef80"), Some([0xab, 0xcd, 0xef, 0x80]));
    assert_eq!(parse_color("#+1+2+3"), Some([1, 2, 3, 255]));
    for text in ["", "#", "#12345", "#1234567", "##12345", "#12345g", "#-12345", "# 12345"] {
        assert_eq!(parse_color(text), None);
    }
}

#[test]
fn characters_beyond_ascii_make_no_color() {
    for text in [
        "a\u{e9}bcd",
        "#1\u{e9}234",
        "#\u{e9}1234",
        "zz1\u{e9}23",
        "12\u{20ac}4",
        "#1\u{1f600}234",
        "\u{ff23}\u{ff23}",
    ] {
        assert_eq!(parse_color(text), None);
    }
}

#[test]
fn colors_cut_inside_a_character_recover_without_losing_valid_values() {
    let settings = normalize(RawSettings {
        text_color: Some("a\u{e9}bcd".into()),
        gradient_end: Some("#1\u{e9}234".into()),
        chroma_key: Some("#123456".into()),
        gradient: Some(true),
        ..Default::default()
    });
    let defaults = Appearance::default();
    assert_eq!(settings.appearance.text_color, defaults.text_color);
    assert_eq!(settings.appearance.gradient_end, defaults.gradient_end);
    assert_eq!(settings.appearance.chroma_key, [0x12, 0x34, 0x56, 255]);
    assert!(settings.appearance.gradient);
}

#[test]
fn fallback_is_uniform_and_chroma_is_opaque() {
    assert!(transparent_background(true, true, false));
    assert!(!transparent_background(true, true, true));
    assert_eq!(chroma_color([1, 2, 3, 17])[3], 255);
}

#[test]
fn overlay_is_drawn_on_one_opaque_color_or_on_nothing() {
    assert_eq!(
        overlay_background(true, false, [1, 2, 3, 17]),
        Background::Transparent
    );
    assert_eq!(
        overlay_background(true, true, [1, 2, 3, 17]),
        Background::Uniform([1, 2, 3, 255])
    );
    assert_eq!(
        overlay_background(false, false, [1, 2, 3, 17]),
        Background::Uniform([1, 2, 3, 255])
    );
    assert!(!transparent_background(true, false, false));
    assert!(!transparent_background(false, true, false));
}

#[test]
fn transparency_status_never_claims_unconfirmed_composition_is_active() {
    assert_eq!(transparency_status(false, false), None);
    assert_eq!(
        transparency_status(true, true),
        Some("Native Wayland transparency is unsupported; uniform chroma-key fallback is active.")
    );
    assert_eq!(
        transparency_status(true, false),
        Some("Transparent composition requested (best effort, unconfirmed); chroma-key remains available.")
    );
}

#[test]
fn overlay_viewport_intent_retains_native_decorations() {
    assert!(decorations_for_mode(false));
    assert!(decorations_for_mode(true));
}

#[test]
fn window_is_asked_only_what_has_changed() {
    let mut viewport = Viewport::new();
    assert_eq!(
        viewport.set_viewport(true, false, false),
        vec![
            ViewportCommand::Transparent(false),
            ViewportCommand::Decorations(true)
        ]
    );
    assert_eq!(viewport.set_viewport(true, false, false), vec![]);
    assert_eq!(
        viewport.set_viewport(true, true, false),
        vec![ViewportCommand::Transparent(true)]
    );
    assert_eq!(
        viewport.set_viewport(true, true, true),
        vec![ViewportCommand::Transparent(false)]
    );
}

#[test]
fn shortcut_normalization_rejects_complete_set_collisions() {
    let raw = RawSettings {
        shortcuts: Some(vec![
            DEFAULT_SHORTCUTS[0].into(),
            DEFAULT_SHORTCUTS[0].into(),
            DEFAULT_SHORTCUTS[2].into(),
            DEFAULT_SHORTCUTS[3].into(),
        ]),
        ..Default::default()
    };
    assert_eq!(normalize(raw).shortcuts, Settings::default().shortcuts);
}

#[test]
fn shortcut_normalization_canonicalizes_aliases_by_hotkey_identity() {
    let values: Vec<String> = vec![
        "ctrl+alt+KeyS".into(),
        "control+alt+KeyT".into(),
        "ctrl+alt+KeyR".into(),
        "control+alt+KeyO".into(),
    ];
    let parsed: [String; 4] = values.clone().try_into().unwrap();
    let expected = parse_shortcuts(&parsed).unwrap().map(|key| key.text());
    let normalized = normalize(RawSettings {
        shortcuts: Some(values),
        ..Default::default()
    });
    assert_eq!(normalized.shortcuts, expected);

    let mut collision = parsed;
    collision[1] = "ctrl+alt+KeyS".into();
    assert_eq!(
        normalize(RawSettings {
            shortcuts: Some(collision.to_vec()),
            ..Default::default()
        })
        .shortcuts,
        Settings::default().shortcuts
    );
}

#[test]
fn aliases_are_stored_canonically() {
    let normalized = normalize(RawSettings {
        shortcuts: Some(vec![
            "Ctrl+Shift+a".into(),
            "alt+shift+KeyB".into(),
            "super+F5".into(),
            "option+space".into(),
        ]),
        ..Default::default()
    });
    assert_eq!(
        normalized.shortcuts,
        [
            "shift+control+KeyA",
            "shift+alt+KeyB",
            "super+F5",
            "alt+Space"
        ]
        .map(str::to_owned)
    );
}

#[test]
fn shortcuts_of_a_file_are_chosen_together_or_not_at_all() {
    let with = |shortcuts: Option<Vec<String>>| RawSettings {
        shortcuts,
        ..Default::default()
    };
    let defaults = DEFAULT_SHORTCUTS.map(str::to_owned).to_vec();
    assert_eq!(
        chosen_shortcuts(&with(Some(defaults.clone()))),
        Some(default_hotkeys())
    );
    assert_eq!(chosen_shortcuts(&with(None)), None);
    assert_eq!(chosen_shortcuts(&with(Some(defaults[..3].to_vec()))), None);
    let mut bad = defaults;
    bad[2] = "nothing".into();
    assert_eq!(chosen_shortcuts(&with(Some(bad))), None);
}

#[test]
fn chosen_shortcuts_decide_only_the_shortcuts() {
    let raw = || RawSettings {
        text_color: Some("#010203".into()),
        fractional_digits: Some(1),
        ..Default::default()
    };
    let mut keys = default_hotkeys();
    keys.swap(0, 1);
    let swapped = normalize_with(raw(), Some(keys));
    let plain = normalize_with(raw(), None);
    assert_eq!(swapped.shortcuts[0], DEFAULT_SHORTCUTS[1]);
    assert_eq!(swapped.shortcuts[1], DEFAULT_SHORTCUTS[0]);
    assert_eq!(plain.shortcuts, DEFAULT_SHORTCUTS.map(str::to_owned));
    assert_eq!(swapped.appearance, plain.appearance);
    assert_eq!(plain.appearance.text_color, [1, 2, 3, 255]);
    assert_eq!(plain.fractional_digits, 1);
}

#[test]
fn files_agree_where_their_fields_do() {
    let sound = normalize(RawSettings {
        font_size: Some(f(50.0)),
        gradient: Some(true),
        shortcuts: Some(DEFAULT_SHORTCUTS.map(str::to_owned).to_vec()),
        ..Default::default()
    });
    let malformed = normalize(RawSettings {
        font_size: Some(f(-1.0)),
        gradient: Some(true),
        shortcuts: Some(DEFAULT_SHORTCUTS.map(str::to_owned).to_vec()),
        ..Default::default()
    });
    assert_eq!(malformed.appearance.font_size, f(72.0));
    let mut expected = sound;
    expected.appearance.font_size = f(72.0);
    assert_eq!(malformed, expected);
}
