use std::collections::HashSet;

use jxtimer::action::{escape_overlay_action, overlay_toggle_action, TimerAction};
use jxtimer::capture::{
    capture_events, finish_capture, process_capture, take_capture_key_events, CaptureResult,
    CaptureState,
};
use jxtimer::hotkey::{
    action_for_event, default_hotkeys, parse_shortcuts, select_shortcuts, GlobalHotKeyEvent,
    HotKey, HotKeyModifiers, HotKeyState,
};
use jxtimer::keys::{is_modifier_key, map_key, Event, Key, KeyEvent, Modifiers};
use jxtimer::schema::{decode_settings, normalize, to_file, RawSettings};
use jxtimer::settings::{apply_overlay_transition, Settings};
use jxtimer::transaction::{
    cleanup_shortcuts, initialize_shortcuts, replace_shortcut_set, ShortcutBackend,
    TransactionState,
};

const DEFAULT_SHORTCUTS: [&str; 4] = [
    "control+alt+KeyS",
    "control+alt+KeyT",
    "control+alt+KeyR",
    "control+alt+KeyO",
];

struct FakeBackend {
    registered: HashSet<u32>,
    conflicts: HashSet<u32>,
    unregister_attempts: Vec<u32>,
    fail_register_at: Vec<usize>,
    fail_unregister_at: Vec<usize>,
    register_calls: usize,
    unregister_calls: usize,
}

impl FakeBackend {
    fn owning(keys: &[HotKey]) -> Self {
        FakeBackend {
            registered: keys.iter().map(HotKey::id).collect(),
            conflicts: HashSet::new(),
            unregister_attempts: Vec::new(),
            fail_register_at: Vec::new(),
            fail_unregister_at: Vec::new(),
            register_calls: 0,
            unregister_calls: 0,
        }
    }
}

impl ShortcutBackend for FakeBackend {
    fn register(&mut self, key: &HotKey) -> Result<(), String> {
        self.register_calls += 1;
        if self.conflicts.contains(&key.id()) {
            return Err("owned by another application".into());
        }
        if self.fail_register_at.contains(&self.register_calls) {
            return Err("injected failure".into());
        }
        self.registered.insert(key.id());
        Ok(())
    }
    fn unregister(&mut self, key: &HotKey) -> Result<(), String> {
        self.unregister_calls += 1;
        self.unregister_attempts.push(key.id());
        if self.fail_unregister_at.contains(&self.unregister_calls) {
            return Err("injected unregister failure".into());
        }
        self.registered.remove(&key.id());
        Ok(())
    }
}

fn key_event(key: Key, pressed: bool, modifiers: Modifiers) -> Event {
    Event::Key(KeyEvent {
        key,
        physical_key: Some(key),
        pressed,
        repeat: false,
        modifiers,
    })
}

fn ctrl_alt() -> Modifiers {
    Modifiers {
        ctrl: true,
        alt: true,
        ..Default::default()
    }
}

fn next_keys() -> [HotKey; 4] {
    let next_values: [String; 4] = [
        "control+alt+KeyA".into(),
        "control+alt+KeyB".into(),
        "control+alt+KeyC".into(),
        "control+alt+KeyD".into(),
    ];
    parse_shortcuts(&next_values).unwrap()
}

#[test]
fn four_shortcuts_map_overlay_without_affecting_actions() {
    let keys = parse_shortcuts(&Settings::default().shortcuts).unwrap();
    for (index, expected) in [
        TimerAction::Start,
        TimerAction::Stop,
        TimerAction::Reset,
        TimerAction::ToggleOverlay,
    ]
    .into_iter()
    .enumerate()
    {
        let event = GlobalHotKeyEvent {
            id: keys[index].id(),
            state: HotKeyState::Pressed,
        };
        assert_eq!(action_for_event(event, Some(&keys)), Some(expected));
    }
}

#[test]
fn releases_strangers_and_inactive_shortcuts_ask_for_nothing() {
    let keys = default_hotkeys();
    let pressed = GlobalHotKeyEvent {
        id: keys[0].id(),
        state: HotKeyState::Pressed,
    };
    let released = GlobalHotKeyEvent {
        id: keys[0].id(),
        state: HotKeyState::Released,
    };
    let strange = GlobalHotKeyEvent {
        id: 1,
        state: HotKeyState::Pressed,
    };
    assert_eq!(action_for_event(pressed, None), None);
    assert_eq!(action_for_event(released, Some(&keys)), None);
    assert_eq!(action_for_event(strange, Some(&keys)), None);
}

#[test]
fn actions_have_labels() {
    assert_eq!(TimerAction::Start.name(), "Start");
    assert_eq!(TimerAction::Stop.name(), "Stop");
    assert_eq!(TimerAction::Reset.name(), "Reset");
    assert_eq!(TimerAction::ToggleOverlay.name(), "Toggle overlay");
}

#[test]
fn shortcut_validation_rejects_duplicate_and_bare_key() {
    let mut values = Settings::default().shortcuts;
    values[1] = values[0].clone();
    assert!(parse_shortcuts(&values).is_err());
    values[1] = "KeyA".into();
    assert!(parse_shortcuts(&values).is_err());
}

#[test]
fn shortcut_validation_says_what_is_wrong() {
    let mut values = Settings::default().shortcuts;
    values[2] = "ctrl+alt+KeyS".into();
    assert_eq!(
        parse_shortcuts(&values),
        Err("Shortcuts must be distinct".into())
    );
    values[3] = "KeyA".into();
    assert_eq!(
        parse_shortcuts(&values),
        Err("Shortcut 4 needs a modifier".into())
    );
    values[1] = "control+alt+nothing".into();
    let message = parse_shortcuts(&values).unwrap_err();
    assert!(message.starts_with("Shortcut 2: "));
    assert!(message.len() > "Shortcut 2: ".len());
}

#[test]
fn selection_reports_the_first_fault() {
    let [a, b, c, d] = default_hotkeys();
    assert_eq!(
        select_shortcuts(
            Ok(a.clone()),
            Err("no".into()),
            Err("never".into()),
            Ok(d.clone())
        ),
        Err("Shortcut 2: no".into())
    );
    assert_eq!(
        select_shortcuts(Ok(a.clone()), Ok(b.clone()), Ok(c.clone()), Ok(a.clone())),
        Err("Shortcuts must be distinct".into())
    );
    assert_eq!(
        select_shortcuts(
            Ok(a.clone()),
            Ok(b.clone()),
            Ok(HotKey::new(HotKeyModifiers::empty(), "KeyZ")),
            Ok(d.clone())
        ),
        Err("Shortcut 3 needs a modifier".into())
    );
    assert_eq!(
        select_shortcuts(Ok(a.clone()), Ok(b.clone()), Ok(c.clone()), Ok(d.clone())),
        Ok([a, b, c, d])
    );
}

#[test]
fn default_shortcuts_are_spelled_canonically() {
    let keys = default_hotkeys();
    assert_eq!(
        keys.clone().map(|key| key.text()),
        DEFAULT_SHORTCUTS.map(str::to_owned)
    );
    assert_eq!(
        parse_shortcuts(&DEFAULT_SHORTCUTS.map(str::to_owned)),
        Ok(keys)
    );
}

#[test]
fn identities_are_made_of_modifiers_and_key_code() {
    let bare = HotKey::new(HotKeyModifiers::empty(), "KeyA").id();
    assert!(bare < 0x1_0000);
    for (mods, number) in [
        ((true, false, false, false), 0x200),
        ((false, true, false, false), 0x8),
        ((false, false, true, false), 0x1),
        ((false, false, false, true), 0x2000),
        ((true, true, true, true), 0x2209),
    ] {
        let mods = HotKeyModifiers {
            shift: mods.0,
            control: mods.1,
            alt: mods.2,
            super_key: mods.3,
        };
        let key = HotKey::new(mods, "KeyA");
        assert_eq!(key.id(), number * 0x1_0000 + bare);
        assert_eq!(key.mods(), mods);
        assert_eq!(key.key(), "KeyA");
    }
    assert_ne!(bare, HotKey::new(HotKeyModifiers::empty(), "KeyB").id());
}

#[test]
fn every_capturable_key_has_a_shortcut_that_reads_back() {
    let keys = [
        Key::A, Key::B, Key::C, Key::D, Key::E, Key::F, Key::G, Key::H, Key::I, Key::J, Key::K,
        Key::L, Key::M, Key::N, Key::O, Key::P, Key::Q, Key::R, Key::S, Key::T, Key::U, Key::V,
        Key::W, Key::X, Key::Y, Key::Z, Key::Num0, Key::Num1, Key::Num2, Key::Num3, Key::Num4,
        Key::Num5, Key::Num6, Key::Num7, Key::Num8, Key::Num9, Key::F1, Key::F2, Key::F3, Key::F4,
        Key::F5, Key::F6, Key::F7, Key::F8, Key::F9, Key::F10, Key::F11, Key::F12, Key::ArrowDown,
        Key::ArrowLeft, Key::ArrowRight, Key::ArrowUp, Key::Backspace, Key::Delete, Key::Enter,
        Key::Space, Key::Tab, Key::Backslash, Key::Backtick, Key::Comma, Key::Equals, Key::Minus,
        Key::Period, Key::Quote, Key::Semicolon, Key::Slash,
    ];
    let mods = HotKeyModifiers {
        shift: true,
        control: true,
        alt: true,
        super_key: true,
    };
    let mut seen = HashSet::new();
    for key in keys {
        let code = map_key(key).unwrap();
        let hotkey = HotKey::new(mods, code);
        assert_eq!(hotkey.key(), code);
        assert!(seen.insert(hotkey.id()));
        assert_eq!(
            hotkey.text(),
            format!("shift+control+alt+super+{code}")
        );
        let values = [
            hotkey.text(),
            DEFAULT_SHORTCUTS[1].into(),
            DEFAULT_SHORTCUTS[2].into(),
            DEFAULT_SHORTCUTS[3].into(),
        ];
        assert_eq!(parse_shortcuts(&values).unwrap()[0], hotkey);
        assert!(!is_modifier_key(key));
    }
    assert_eq!(seen.len(), 66);
    assert_eq!(map_key(Key::Escape), None);
    assert_eq!(map_key(Key::Other), None);
    assert_eq!(map_key(Key::ShiftLeft), None);
    assert!(is_modifier_key(Key::ShiftLeft));
}

#[test]
fn some_keys_serve_under_another_name() {
    assert_eq!(map_key(Key::Backtick), Some("Backquote"));
    assert_eq!(map_key(Key::Equals), Some("Equal"));
    assert_eq!(map_key(Key::Num7), Some("Digit7"));
    assert_eq!(map_key(Key::Q), Some("KeyQ"));
}

#[test]
fn settings_global_and_escape_overlay_paths_share_transition_behavior() {
    let keys = parse_shortcuts(&Settings::default().shortcuts).unwrap();
    let global_event = GlobalHotKeyEvent {
        id: keys[3].id(),
        state: HotKeyState::Pressed,
    };
    let global_action = action_for_event(global_event, Some(&keys));
    let escape_action = escape_overlay_action(true, true);

    assert_eq!(global_action, Some(overlay_toggle_action()));
    assert_eq!(escape_action, Some(overlay_toggle_action()));

    let mut settings_path = Settings::default();
    let mut global_path = Settings::default();
    let mut escape_path = Settings::default();
    apply_overlay_transition(&mut settings_path);
    if global_action.is_some() {
        apply_overlay_transition(&mut global_path);
    }
    if escape_action.is_some() {
        apply_overlay_transition(&mut escape_path);
    }
    assert_eq!(settings_path.overlay_mode, true);
    assert_eq!(global_path, settings_path);
    assert_eq!(escape_path, settings_path);
}

#[test]
fn escape_only_leaves_the_overlay() {
    assert_eq!(escape_overlay_action(false, true), None);
    assert_eq!(escape_overlay_action(true, false), None);
    assert_eq!(escape_overlay_action(false, false), None);
}

#[test]
fn capture_validates_commit_cancel_and_preserves_prior_binding() {
    let modifiers = ctrl_alt();
    let mut capture = CaptureState::new(3);
    process_capture(&mut capture, &key_event(Key::O, true, modifiers));
    process_capture(&mut capture, &key_event(Key::O, false, modifiers));
    assert!(matches!(
        finish_capture(&capture, Modifiers::default()),
        CaptureResult::Committed(_)
    ));
    let mut invalid = CaptureState::new(3);
    process_capture(
        &mut invalid,
        &key_event(Key::O, true, Modifiers::default()),
    );
    process_capture(
        &mut invalid,
        &key_event(Key::O, false, Modifiers::default()),
    );
    assert!(matches!(
        finish_capture(&invalid, Modifiers::default()),
        CaptureResult::Rejected(_)
    ));
    let mut settings = Settings::default();
    settings.shortcuts[3] = "control+alt+KeyP".into();
    let active_before = parse_shortcuts(&settings.shortcuts).unwrap();
    let draft_before = settings.shortcuts.clone();
    assert_eq!(active_before[3].text(), "control+alt+KeyP");
    assert_eq!(settings.shortcuts, draft_before);
    // A rejected candidate leaves both the non-default draft and active set
    // unchanged; this models the Settings commit guard.
    assert!(parse_shortcuts(&[
        "control+alt+KeyP".into(),
        "control+alt+KeyP".into(),
        DEFAULT_SHORTCUTS[2].into(),
        DEFAULT_SHORTCUTS[3].into()
    ])
    .is_err());
    assert_eq!(settings.shortcuts, draft_before);
    assert_eq!(
        process_capture(
            &mut CaptureState::new(3),
            &key_event(Key::Escape, true, Modifiers::default())
        ),
        CaptureResult::Cancelled
    );
}

#[test]
fn ctrl_alt_a_capture_normalizes_persists_and_registers() {
    let ctrl = Modifiers {
        ctrl: true,
        ..Default::default()
    };
    let both = ctrl_alt();
    let events = [
        key_event(Key::ControlLeft, true, ctrl),
        key_event(Key::AltLeft, true, both),
        key_event(Key::A, true, both),
        key_event(Key::A, false, both),
        key_event(Key::AltLeft, false, ctrl),
        key_event(Key::ControlLeft, false, Modifiers::default()),
    ];
    let mut capture = CaptureState::new(0);
    for event in events {
        assert_eq!(
            process_capture(&mut capture, &event),
            CaptureResult::Continue
        );
    }
    let committed = match finish_capture(&capture, Modifiers::default()) {
        CaptureResult::Committed(key) => key,
        other => panic!("Ctrl + Alt + A was not committed: {other:?}"),
    };
    assert_eq!(committed.key(), "KeyA");
    assert_eq!(
        committed.mods(),
        HotKeyModifiers {
            control: true,
            alt: true,
            shift: false,
            super_key: false
        }
    );

    let mut values = Settings::default().shortcuts;
    values[0] = committed.text();
    let normalized = normalize(RawSettings {
        shortcuts: Some(values.to_vec()),
        ..Default::default()
    });
    assert_eq!(normalized.shortcuts[0], "control+alt+KeyA");
    let persisted = decode_settings(Ok(to_file(&normalized)))
        .expect("normalized Ctrl + Alt + A should persist");
    assert_eq!(persisted.shortcuts, normalized.shortcuts);

    let previous = parse_shortcuts(&Settings::default().shortcuts).unwrap();
    let next = parse_shortcuts(&persisted.shortcuts).unwrap();
    let mut backend = FakeBackend::owning(&previous);
    let transaction = replace_shortcut_set(&mut backend, &previous, &next);
    assert_eq!(transaction.state, TransactionState::NewActive);
    assert_eq!(transaction.known_active, next.to_vec());
    assert_eq!(backend.registered, next.iter().map(HotKey::id).collect());
}

#[test]
fn genuinely_unsupported_capture_key_is_still_rejected() {
    let modifiers = ctrl_alt();
    let mut capture = CaptureState::new(0);
    process_capture(&mut capture, &key_event(Key::Other, true, modifiers));
    process_capture(&mut capture, &key_event(Key::Other, false, modifiers));
    assert!(matches!(
        finish_capture(&capture, Modifiers::default()),
        CaptureResult::Rejected(error) if error.contains("Unsupported")
    ));
}

#[test]
fn capture_key_events_are_consumed_before_settings_controls_see_them() {
    let modifiers = ctrl_alt();
    let mut events = vec![
        Event::Other(0),
        key_event(Key::A, true, modifiers),
        key_event(Key::A, false, modifiers),
    ];
    let captured = take_capture_key_events(&mut events);
    assert_eq!(captured.len(), 2);
    assert!(captured.iter().all(|event| matches!(event, Event::Key(_))));
    assert_eq!(events, vec![Event::Other(0)]);
}

#[test]
fn taken_events_and_what_is_left_keep_their_order() {
    let down = key_event(Key::B, true, Modifiers::default());
    let up = key_event(Key::B, false, Modifiers::default());
    let mut events = vec![down, Event::Other(1), Event::Other(2), up, Event::Other(4)];
    assert_eq!(take_capture_key_events(&mut events), vec![down, up]);
    assert_eq!(
        events,
        vec![Event::Other(1), Event::Other(2), Event::Other(4)]
    );
    assert_eq!(take_capture_key_events(&mut events), vec![]);
    assert_eq!(take_capture_key_events(&mut Vec::new()), vec![]);
}

#[test]
fn captures_are_decided_only_after_everything_is_let_go() {
    let modifiers = ctrl_alt();
    let mut capture = CaptureState::new(2);
    assert_eq!(capture.target(), 2);
    assert_eq!(
        finish_capture(&capture, Modifiers::default()),
        CaptureResult::Continue
    );
    process_capture(&mut capture, &key_event(Key::K, true, modifiers));
    assert_eq!(
        finish_capture(&capture, Modifiers::default()),
        CaptureResult::Continue
    );
    process_capture(&mut capture, &key_event(Key::K, false, modifiers));
    assert_eq!(
        finish_capture(
            &capture,
            Modifiers {
                alt: true,
                ..Default::default()
            }
        ),
        CaptureResult::Continue
    );
    assert_eq!(
        finish_capture(
            &capture,
            Modifiers {
                shift: true,
                ..Default::default()
            }
        ),
        CaptureResult::Committed(HotKey::new(
            HotKeyModifiers {
                control: true,
                alt: true,
                shift: false,
                super_key: false
            },
            "KeyK"
        ))
    );
}

#[test]
fn captures_are_rejected_for_what_is_wrong_with_them() {
    let modifiers = ctrl_alt();
    let mut two = CaptureState::new(0);
    let result = capture_events(
        &mut two,
        &vec![
            key_event(Key::A, true, modifiers),
            key_event(Key::B, true, modifiers),
            key_event(Key::A, false, modifiers),
            key_event(Key::B, false, modifiers),
        ],
        Modifiers::default(),
    );
    assert_eq!(result, CaptureResult::Rejected("Use one primary key".into()));

    let mut bare = CaptureState::new(0);
    let result = capture_events(
        &mut bare,
        &vec![
            key_event(Key::A, true, Modifiers::default()),
            key_event(Key::A, false, Modifiers::default()),
        ],
        Modifiers::default(),
    );
    assert_eq!(
        result,
        CaptureResult::Rejected("Add at least one modifier".into())
    );

    let mut modifiers_only = CaptureState::new(0);
    let result = capture_events(
        &mut modifiers_only,
        &vec![
            key_event(Key::ControlLeft, true, modifiers),
            key_event(Key::ControlLeft, false, Modifiers::default()),
        ],
        Modifiers::default(),
    );
    assert_eq!(
        result,
        CaptureResult::Rejected("Add a modifier and one primary key".into())
    );

    let mut unsupported = CaptureState::new(0);
    let result = capture_events(
        &mut unsupported,
        &vec![key_event(Key::Other, true, modifiers)],
        Modifiers::default(),
    );
    assert_eq!(result, CaptureResult::Rejected("Unsupported key".into()));
}

#[test]
fn captures_ignore_repeats_and_what_follows_escape() {
    let modifiers = ctrl_alt();
    let mut repeating = CaptureState::new(0);
    let repeat = Event::Key(KeyEvent {
        key: Key::Escape,
        physical_key: None,
        pressed: true,
        repeat: true,
        modifiers,
    });
    assert_eq!(
        capture_events(
            &mut repeating,
            &vec![repeat, Event::Other(3)],
            Modifiers::default()
        ),
        CaptureResult::Continue
    );

    let mut cancelled = CaptureState::new(0);
    assert_eq!(
        capture_events(
            &mut cancelled,
            &vec![
                key_event(Key::Escape, true, Modifiers::default()),
                key_event(Key::A, true, modifiers),
                key_event(Key::A, false, modifiers),
            ],
            Modifiers::default()
        ),
        CaptureResult::Cancelled
    );
    assert_eq!(
        finish_capture(&cancelled, Modifiers::default()),
        CaptureResult::Continue
    );
}

#[test]
fn captures_go_by_where_a_key_is() {
    let event = |pressed: bool| {
        Event::Key(KeyEvent {
            key: Key::Z,
            physical_key: Some(Key::Y),
            pressed,
            repeat: false,
            modifiers: ctrl_alt(),
        })
    };
    let mut capture = CaptureState::new(0);
    match capture_events(
        &mut capture,
        &vec![event(true), event(false)],
        Modifiers::default(),
    ) {
        CaptureResult::Committed(key) => assert_eq!(key.text(), "control+alt+KeyY"),
        other => panic!("{other:?}"),
    }
}

#[test]
fn transaction_validation_rejects_before_unregister_or_commit() {
    let previous = parse_shortcuts(&Settings::default().shortcuts).unwrap();
    let mut invalid = Settings::default().shortcuts;
    invalid[1] = invalid[0].clone();
    let backend = FakeBackend::owning(&previous);

    let validation = parse_shortcuts(&invalid);
    assert!(validation.is_err());
    assert_eq!(backend.register_calls, 0);
    assert_eq!(backend.unregister_calls, 0);
    assert!(backend.unregister_attempts.is_empty());
    assert_eq!(
        backend.registered,
        previous.iter().map(HotKey::id).collect::<HashSet<_>>()
    );
}

#[test]
fn transaction_complete_success_replaces_previous_set() {
    let keys = parse_shortcuts(&Settings::default().shortcuts).unwrap();
    let next = next_keys();
    let mut backend = FakeBackend::owning(&keys);
    let result = replace_shortcut_set(&mut backend, &keys, &next);
    assert_eq!(result.state, TransactionState::NewActive);
    assert!(result.uncertain.is_empty());
    assert_eq!(backend.registered.len(), 4);
    assert_eq!(result.known_active, next.to_vec());
    assert_eq!(result.message, "Shortcuts applied");
    assert_eq!(
        backend.registered,
        next.iter().map(HotKey::id).collect::<HashSet<_>>()
    );
}

#[test]
fn transaction_registration_failure_rolls_back_previous_set() {
    let previous = parse_shortcuts(&Settings::default().shortcuts).unwrap();
    let next = next_keys();
    let mut backend = FakeBackend {
        fail_register_at: vec![3],
        ..FakeBackend::owning(&previous)
    };

    let result = replace_shortcut_set(&mut backend, &previous, &next);

    assert_eq!(result.state, TransactionState::PreviousActive);
    assert_eq!(result.known_active, previous.to_vec());
    assert!(result.uncertain.is_empty());
    assert_eq!(
        result.message,
        "Could not register: injected failure; previous shortcuts restored"
    );
    assert_eq!(
        backend.registered,
        previous.iter().map(HotKey::id).collect::<HashSet<_>>()
    );
}

#[test]
fn transaction_conflict_restores_previous_without_unregistering_external_key() {
    let previous = parse_shortcuts(&Settings::default().shortcuts).unwrap();
    let next = next_keys();
    let external = next[1].id();
    let mut backend = FakeBackend {
        conflicts: [external].into_iter().collect(),
        ..FakeBackend::owning(&previous)
    };

    let result = replace_shortcut_set(&mut backend, &previous, &next);

    assert_eq!(result.state, TransactionState::PreviousActive);
    assert_eq!(result.known_active, previous.to_vec());
    assert!(result.uncertain.is_empty());
    assert_eq!(
        backend.registered,
        previous.iter().map(HotKey::id).collect::<HashSet<_>>()
    );
    assert!(!backend.unregister_attempts.contains(&external));
    assert!(!backend.registered.contains(&next[0].id()));
}

#[test]
fn transaction_cleans_new_partial_registration_with_empty_previous() {
    let keys = parse_shortcuts(&Settings::default().shortcuts).unwrap();
    let mut backend = FakeBackend {
        fail_register_at: vec![2],
        ..FakeBackend::owning(&[])
    };
    let result = replace_shortcut_set(&mut backend, &[], &keys);
    assert_eq!(result.state, TransactionState::Inactive);
    assert!(result.uncertain.is_empty());
    assert!(backend.registered.is_empty());
    assert_eq!(
        result.message,
        "Could not register: injected failure; cleanup confirmed none active"
    );
}

#[test]
fn transaction_reports_unknown_when_partial_cleanup_fails() {
    let keys = parse_shortcuts(&Settings::default().shortcuts).unwrap();
    let mut backend = FakeBackend {
        fail_register_at: vec![2],
        fail_unregister_at: vec![1],
        ..FakeBackend::owning(&[])
    };
    let result = replace_shortcut_set(&mut backend, &[], &keys);
    assert_eq!(result.state, TransactionState::Unknown);
    assert!(!result.uncertain.is_empty());
    assert!(result.message.contains("unknown"));
    assert_eq!(
        result.message,
        "Could not register: injected failure; cleanup incomplete, shortcut state unknown/degraded"
    );
}

#[test]
fn transaction_reports_unknown_when_previous_release_cannot_be_confirmed() {
    let keys = parse_shortcuts(&Settings::default().shortcuts).unwrap();
    let mut backend = FakeBackend {
        fail_unregister_at: vec![1, 2, 5],
        ..FakeBackend::owning(&keys)
    };
    let result = replace_shortcut_set(&mut backend, &keys, &keys);
    assert_eq!(result.state, TransactionState::Unknown);
    assert_eq!(result.uncertain.len(), 1);
    assert!(result.known_active.is_empty());
    assert_eq!(
        result.message,
        "Could not release shortcuts: injected unregister failure; shortcut state unknown/degraded"
    );
}

#[test]
fn transaction_reports_unknown_when_rollback_cleanup_fails() {
    let keys = parse_shortcuts(&Settings::default().shortcuts).unwrap();
    let mut rollback = FakeBackend {
        fail_register_at: vec![2, 4],
        // Four old-set releases, one partial-new cleanup release, then
        // the first partial rollback cleanup release.
        fail_unregister_at: vec![6],
        ..FakeBackend::owning(&keys)
    };
    let result = replace_shortcut_set(&mut rollback, &keys, &keys);
    assert_eq!(result.state, TransactionState::Unknown);
    assert!(!result.uncertain.is_empty());
    assert!(result.message.contains("unknown"));
    assert_eq!(
        result.message,
        "Could not register: injected failure; rollback failed: injected failure; shortcut state unknown/degraded"
    );
}

#[test]
fn transaction_confirms_that_nothing_is_left() {
    let keys = parse_shortcuts(&Settings::default().shortcuts).unwrap();
    let mut released_late = FakeBackend {
        fail_unregister_at: vec![2],
        ..FakeBackend::owning(&keys)
    };
    let result = replace_shortcut_set(&mut released_late, &keys, &next_keys());
    assert_eq!(result.state, TransactionState::Inactive);
    assert!(released_late.registered.is_empty());
    assert_eq!(released_late.register_calls, 0);
    assert_eq!(
        result.message,
        "Could not release shortcuts: injected unregister failure; cleanup confirmed none active"
    );

    let mut not_restored = FakeBackend {
        fail_register_at: vec![1, 3],
        ..FakeBackend::owning(&keys)
    };
    let result = replace_shortcut_set(&mut not_restored, &keys, &next_keys());
    assert_eq!(result.state, TransactionState::Inactive);
    assert!(not_restored.registered.is_empty());
    assert!(result.known_active.is_empty());
    assert_eq!(
        result.message,
        "Could not register: injected failure; rollback failed: injected failure; cleanup confirmed none active"
    );
}

#[test]
fn cleanup_goes_backwards_and_names_each_failure_once() {
    let [a, b, _, _] = default_hotkeys();
    let mut backend = FakeBackend {
        fail_unregister_at: vec![1, 3],
        ..FakeBackend::owning(&[])
    };
    let keys = [a.clone(), b.clone(), a.clone()];
    let uncertain = cleanup_shortcuts(&mut backend, &keys);
    assert_eq!(uncertain, vec![a.clone()]);
    assert_eq!(backend.unregister_attempts, vec![a.id(), b.id(), a.id()]);
}

#[test]
fn startup_registers_all_four_or_none() {
    let defaults = default_hotkeys();
    let mut backend = FakeBackend::owning(&[]);
    let startup = initialize_shortcuts(&mut backend, &defaults);
    assert_eq!(startup.state, TransactionState::NewActive);
    assert_eq!(startup.active, Some(defaults.clone()));
    assert_eq!(startup.known_active, defaults.to_vec());
    assert_eq!(backend.registered.len(), 4);
    assert_eq!(startup.message, "Shortcuts applied");
}

#[test]
fn refused_shortcuts_are_never_released() {
    let previous = default_hotkeys();
    let next = next_keys();
    let mut backend = FakeBackend {
        // The second new shortcut is refused, and then the third old one.
        fail_register_at: vec![2, 5],
        ..FakeBackend::owning(&previous)
    };
    let result = replace_shortcut_set(&mut backend, &previous, &next);
    assert_eq!(result.state, TransactionState::Inactive);
    let expected: Vec<u32> = previous
        .iter()
        .chain([&next[0], &previous[1], &previous[0]])
        .map(HotKey::id)
        .collect();
    assert_eq!(backend.unregister_attempts, expected);
    assert!(backend.registered.is_empty());
}

#[test]
fn spellings_for_either_platform_read_as_one_of_the_two() {
    for spelling in ["CmdOrCtrl", "CMDORCONTROL", "CommandOrCtrl", "commandorcontrol"] {
        let mut values = DEFAULT_SHORTCUTS.map(str::to_owned);
        values[0] = format!("{spelling}+KeyA");
        let text = parse_shortcuts(&values).unwrap()[0].text();
        assert!(text == "control+KeyA" || text == "super+KeyA");
    }
}

#[test]
fn other_texts_with_such_letters_read_alike_everywhere() {
    for text in ["control+dormouse", "CmdOrCtrl", "xcmdorctrl+KeyA", "control+dorc"] {
        let mut values = DEFAULT_SHORTCUTS.map(str::to_owned);
        values[3] = text.into();
        assert!(parse_shortcuts(&values)
            .unwrap_err()
            .starts_with("Shortcut 4: "));
    }
}
