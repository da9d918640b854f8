use std::collections::HashSet;

use jxtimer::action::TimerAction;
use jxtimer::capture::CaptureState;
use jxtimer::hotkey::{default_hotkeys, parse_shortcuts, GlobalHotKeyEvent, HotKey, HotKeyState};
use jxtimer::keys::{Event, Key, KeyEvent, Modifiers};
use jxtimer::load::{load_canonical, load_without_file, FileRead, LoadedSettings};
use jxtimer::scalar::Scalar;
use jxtimer::schema::to_file;
use jxtimer::settings::{PreferenceChange, Settings};
use jxtimer::surface::{SettingsIntent, SettingsSurfaceState};
use jxtimer::time::Duration;
use jxtimer::timer::Timer;
use jxtimer::timer_app::{startup_shortcuts, TimerApp};
use jxtimer::transaction::{
    initialize_shortcuts, ShortcutBackend, ShortcutTransaction, TransactionState,
};
use jxtimer::viewport::{Viewport, ViewportCommand};

struct FakeBackend {
    registered: HashSet<u32>,
    conflicts: HashSet<u32>,
    unregister_attempts: Vec<u32>,
    fail_register_at: Vec<usize>,
    fail_unregister_at: Vec<usize>,
    register_calls: usize,
    unregister_calls: usize,
}

impl FakeBackend {
    fn owning(keys: &[HotKey]) -> Self {
        FakeBackend {
            registered: keys.iter().map(HotKey::id).collect(),
            conflicts: HashSet::new(),
            unregister_attempts: Vec::new(),
            fail_register_at: Vec::new(),
            fail_unregister_at: Vec::new(),
            register_calls: 0,
            unregister_calls: 0,
        }
    }
}

impl ShortcutBackend for FakeBackend {
    fn register(&mut self, key: &HotKey) -> Result<(), String> {
        self.register_calls += 1;
        if self.conflicts.contains(&key.id()) {
            return Err("owned by another application".into());
        }
        if self.fail_register_at.contains(&self.register_calls) {
            return Err("injected failure".into());
        }
        self.registered.insert(key.id());
        Ok(())
    }
    fn unregister(&mut self, key: &HotKey) -> Result<(), String> {
        self.unregister_calls += 1;
        self.unregister_attempts.push(key.id());
        if self.fail_unregister_at.contains(&self.unregister_calls) {
            return Err("injected unregister failure".into());
        }
        self.registered.remove(&key.id());
        Ok(())
    }
}

fn d(ms: u64) -> Duration {
    Duration::from_millis(ms)
}

fn f(value: f32) -> Scalar {
    Scalar {
        bits: value.to_bits(),
    }
}

fn new_app() -> TimerApp {
    TimerApp {
        timer: Timer::default(),
        settings: Settings::default(),
        config_available: false,
        status: String::new(),
        settings_open: false,
        capture: None,
        shortcuts_available: false,
        active_shortcuts: None,
        known_active_shortcuts: Vec::new(),
        uncertain_shortcuts: Vec::new(),
        shortcut_state: TransactionState::Inactive,
        viewport: Viewport::new(),
        config_writes_blocked: false,
        wayland: false,
    }
}

fn new_surface() -> SettingsSurfaceState {
    SettingsSurfaceState {
        settings: Settings::default(),
        status: String::new(),
        capture: None,
        wayland: false,
    }
}

fn key_event(key: Key, pressed: bool, modifiers: Modifiers) -> Event {
    Event::Key(KeyEvent {
        key,
        physical_key: Some(key),
        pressed,
        repeat: false,
        modifiers,
    })
}

fn ctrl_alt() -> Modifiers {
    Modifiers {
        ctrl: true,
        alt: true,
        ..Default::default()
    }
}

fn send(app: &mut TimerApp, intents: Vec<SettingsIntent>, backend: &mut FakeBackend) -> bool {
    let mut surface = new_surface();
    let mut save = false;
    for intent in intents {
        save = app.handle_intent(intent, backend, &mut surface);
    }
    save
}

fn valid_capture(target: usize) -> Vec<SettingsIntent> {
    vec![
        SettingsIntent::CaptureRequested(target),
        SettingsIntent::CaptureEvents(
            vec![
                key_event(Key::A, true, ctrl_alt()),
                key_event(Key::A, false, ctrl_alt()),
            ],
            Modifiers::default(),
        ),
    ]
}

#[test]
fn settings_intents_update_preferences_without_changing_timer() {
    let mut app = new_app();
    app.timer.start(d(100));
    let before = app.timer.elapsed(d(500));
    let mut intents = Vec::new();
    for change in [
        PreferenceChange::ShowMilliseconds(false),
        PreferenceChange::NativeTransparency(false),
        PreferenceChange::ChromaKey([1, 2, 3, 0]),
        PreferenceChange::TextColor([4, 5, 6, 255]),
        PreferenceChange::Gradient(true),
        PreferenceChange::GradientEnd([8, 9, 10, 255]),
        PreferenceChange::FontSize(f(99.0)),
    ] {
        intents.push(SettingsIntent::Preference(change));
    }
    send(&mut app, intents, &mut FakeBackend::owning(&[]));
    assert!(!app.settings.show_milliseconds);
    assert!(!app.settings.appearance.native_transparency);
    assert_eq!(app.settings.appearance.chroma_key, [1, 2, 3, 255]);
    assert_eq!(app.settings.appearance.text_color, [4, 5, 6, 255]);
    assert!(app.settings.appearance.gradient);
    assert_eq!(app.settings.appearance.gradient_end, [8, 9, 10, 255]);
    assert_eq!(app.settings.appearance.font_size, f(99.0));
    assert!(app.timer.is_running());
    assert_eq!(app.timer.elapsed(d(500)), before);
}

#[test]
fn closing_settings_clears_capture_and_restores_global_shortcuts() {
    let mut app = new_app();
    let mut surface = new_surface();
    let keys = parse_shortcuts(&Settings::default().shortcuts).unwrap();
    app.settings_open = true;
    app.capture = Some(CaptureState::new(3));
    app.active_shortcuts = Some(keys.clone());
    app.close_settings(&mut surface);

    assert!(!app.settings_open);
    assert!(app.capture.is_none());
    app.handle_global_event(
        GlobalHotKeyEvent {
            id: keys[3].id(),
            state: HotKeyState::Pressed,
        },
        Duration::zero(),
        &mut surface,
    );
    assert!(app.settings.overlay_mode);
}

#[test]
fn shortcuts_rest_while_one_is_captured() {
    let mut app = new_app();
    let mut surface = new_surface();
    let keys = default_hotkeys();
    app.active_shortcuts = Some(keys.clone());
    app.capture = Some(CaptureState::new(0));
    let press = |index: usize| GlobalHotKeyEvent {
        id: keys[index].id(),
        state: HotKeyState::Pressed,
    };
    assert!(!app.handle_global_event(press(0), d(10), &mut surface));
    assert!(!app.timer.is_running());
    app.capture = None;
    assert!(!app.handle_global_event(press(0), d(10), &mut surface));
    assert!(app.timer.is_running());
    assert!(!app.handle_global_event(press(1), d(30), &mut surface));
    assert_eq!(app.timer.elapsed(d(90)), d(20));
    assert!(!app.handle_global_event(press(2), d(40), &mut surface));
    assert_eq!(app.timer.elapsed(d(90)), Duration::zero());
}

#[test]
fn entering_overlay_closes_settings_and_capture() {
    let mut app = new_app();
    let mut surface = new_surface();
    surface.capture = Some(CaptureState::new(0));
    app.settings_open = true;
    app.capture = Some(CaptureState::new(0));
    app.apply(TimerAction::ToggleOverlay, Duration::zero(), &mut surface);

    assert!(app.settings.overlay_mode);
    assert!(!app.settings_open);
    assert!(app.capture.is_none());
    assert!(surface.capture.is_none());
}

#[test]
fn leaving_the_overlay_keeps_settings_open() {
    let mut app = new_app();
    let mut surface = new_surface();
    app.settings.overlay_mode = true;
    app.settings_open = true;
    app.apply(TimerAction::ToggleOverlay, Duration::zero(), &mut surface);
    assert!(!app.settings.overlay_mode);
    assert!(app.settings_open);
}

#[test]
fn settings_overlay_toggle_keeps_viewport_and_capture_state_open() {
    let mut app = new_app();
    app.settings_open = true;
    send(
        &mut app,
        vec![
            SettingsIntent::CaptureRequested(2),
            SettingsIntent::Preference(PreferenceChange::OverlayMode(true)),
        ],
        &mut FakeBackend::owning(&[]),
    );

    assert!(app.settings.overlay_mode);
    assert!(app.settings_open);
    assert_eq!(
        app.capture.as_ref().map(|capture| capture.target()),
        Some(2)
    );
}

#[test]
fn overlay_action_does_not_touch_timer() {
    let mut app = new_app();
    app.timer.start(d(10));
    let before = app.timer.elapsed(d(50));
    assert_eq!(before, d(40));
    assert!(matches!(
        TimerAction::ToggleOverlay,
        TimerAction::ToggleOverlay
    ));
    app.apply(TimerAction::ToggleOverlay, d(50), &mut new_surface());
    assert!(app.timer.is_running());
    assert_eq!(app.timer.elapsed(d(50)), before);
}

#[test]
fn local_settings_and_global_overlay_toggles_have_equal_runtime_transition() {
    let mut local = new_app();
    local.timer.start(d(100));
    local.settings_open = true;
    let mut surface = new_surface();
    let intent = surface.edit(PreferenceChange::OverlayMode(true));
    local.handle_intent(intent, &mut FakeBackend::owning(&[]), &mut surface);
    let local_elapsed = local.timer.elapsed(d(500));
    let local_running = local.timer.is_running();
    assert!(local.settings.overlay_mode);

    let keys = parse_shortcuts(&Settings::default().shortcuts).unwrap();
    let mut global = new_app();
    global.timer.start(d(100));
    global.active_shortcuts = Some(keys.clone());
    global.handle_global_event(
        GlobalHotKeyEvent {
            id: keys[3].id(),
            state: HotKeyState::Pressed,
        },
        d(200),
        &mut new_surface(),
    );

    assert!(global.settings.overlay_mode);
    assert_eq!(global.timer.elapsed(d(500)), local_elapsed);
    assert_eq!(global.timer.is_running(), local_running);
    assert_eq!(local.settings.overlay_mode, global.settings.overlay_mode);
}

#[test]
fn settings_capture_survives_transient_unfocus_and_commits_after_release() {
    let mut app = new_app();
    app.settings_open = true;
    app.shortcuts_available = true;
    let mut backend = FakeBackend::owning(&[]);
    let before = app.settings.shortcuts.clone();
    send(
        &mut app,
        vec![SettingsIntent::CaptureRequested(1)],
        &mut backend,
    );
    assert_eq!(
        app.capture.as_ref().map(|capture| capture.target()),
        Some(1)
    );
    assert_eq!(app.status, "Listening… release all keys; Escape cancels");

    // A transiently unfocused Settings frame does not emit Close. Capture
    // therefore remains live while the chord is entered.
    send(&mut app, vec![], &mut backend);
    assert!(app.settings_open);
    assert!(app.capture.is_some());

    let modifiers = ctrl_alt();
    send(
        &mut app,
        vec![SettingsIntent::CaptureEvents(
            vec![key_event(Key::A, true, modifiers)],
            modifiers,
        )],
        &mut backend,
    );
    assert!(app.capture.is_some());
    assert_eq!(app.settings.shortcuts, before);

    send(
        &mut app,
        vec![SettingsIntent::CaptureEvents(
            vec![key_event(Key::A, false, modifiers)],
            Modifiers::default(),
        )],
        &mut backend,
    );

    assert!(app.capture.is_none());
    assert_eq!(app.settings.shortcuts[1], "control+alt+KeyA");
    assert_eq!(app.settings.shortcuts[0], before[0]);
}

#[test]
fn settings_capture_ends_on_viewport_close_or_explicit_escape() {
    let mut backend = FakeBackend::owning(&[]);
    let mut closed = new_app();
    closed.settings_open = true;
    send(
        &mut closed,
        vec![SettingsIntent::CaptureRequested(0)],
        &mut backend,
    );
    assert!(closed.capture.is_some());
    let mut surface = new_surface();
    closed.refresh(&mut surface);
    assert!(surface.capture.is_some());
    closed.handle_intent(SettingsIntent::Close, &mut backend, &mut surface);
    assert!(!closed.settings_open);
    assert!(closed.capture.is_none());
    assert!(surface.capture.is_none());

    let mut cancelled = new_app();
    cancelled.settings_open = true;
    send(
        &mut cancelled,
        vec![SettingsIntent::CaptureRequested(0)],
        &mut backend,
    );
    send(
        &mut cancelled,
        vec![SettingsIntent::CaptureEvents(
            vec![key_event(Key::Escape, true, Modifiers::default())],
            Modifiers::default(),
        )],
        &mut backend,
    );
    assert!(cancelled.capture.is_none());
    assert_eq!(cancelled.status, "Capture cancelled");
}

#[test]
fn rejected_captures_say_why_and_change_nothing() {
    let mut app = new_app();
    app.shortcuts_available = true;
    let mut backend = FakeBackend::owning(&[]);
    let save = send(
        &mut app,
        vec![
            SettingsIntent::CaptureRequested(0),
            SettingsIntent::CaptureEvents(
                vec![
                    key_event(Key::A, true, Modifiers::default()),
                    key_event(Key::A, false, Modifiers::default()),
                ],
                Modifiers::default(),
            ),
        ],
        &mut backend,
    );
    assert!(!save);
    assert!(app.capture.is_none());
    assert_eq!(app.status, "Capture rejected: Add at least one modifier");
    assert_eq!(app.settings, Settings::default());
    assert_eq!(backend.register_calls, 0);
}

#[test]
fn captured_shortcuts_are_registered_and_saved() {
    let previous = default_hotkeys();
    let mut app = new_app();
    app.config_available = true;
    app.shortcuts_available = true;
    app.known_active_shortcuts = previous.to_vec();
    let mut backend = FakeBackend::owning(&previous);
    assert!(send(&mut app, valid_capture(0), &mut backend));
    assert_eq!(app.settings.shortcuts[0], "control+alt+KeyA");
    assert_eq!(app.shortcut_state, TransactionState::NewActive);
    let active = app.active_shortcuts.clone().unwrap();
    assert_eq!(active[0].text(), "control+alt+KeyA");
    assert_eq!(app.known_active_shortcuts, active.to_vec());
    assert_eq!(
        backend.registered,
        active.iter().map(HotKey::id).collect::<HashSet<_>>()
    );
    app.finish_save(Ok(()));
    assert_eq!(app.status, "Preferences saved");
    app.finish_save(Err("disk full".into()));
    assert_eq!(
        app.status,
        "Preferences kept in memory; save failed: disk full"
    );
    assert_eq!(app.settings.shortcuts[0], "control+alt+KeyA");
}

#[test]
fn captured_shortcuts_that_are_refused_leave_the_old_ones() {
    let previous = default_hotkeys();
    let mut app = new_app();
    app.config_available = true;
    app.shortcuts_available = true;
    app.known_active_shortcuts = previous.to_vec();
    let mut backend = FakeBackend {
        fail_register_at: vec![1],
        ..FakeBackend::owning(&previous)
    };
    assert!(!send(&mut app, valid_capture(0), &mut backend));
    assert!(app.status.contains("Could not register"));
    assert_eq!(app.settings, Settings::default());
    assert_eq!(app.active_shortcuts, Some(previous.clone()));
    assert_eq!(app.shortcut_state, TransactionState::PreviousActive);

    let mut backend = FakeBackend {
        fail_register_at: vec![3, 5],
        ..FakeBackend::owning(&previous)
    };
    assert!(!send(&mut app, valid_capture(0), &mut backend));
    assert!(app.status.contains("rollback failed"));
    assert_eq!(app.settings, Settings::default());
    assert_eq!(app.active_shortcuts, None);
    assert_eq!(app.shortcut_state, TransactionState::Inactive);
}

#[test]
fn captured_shortcuts_that_are_taken_already_ask_nothing_of_the_system() {
    let previous = default_hotkeys();
    let mut app = new_app();
    app.shortcuts_available = true;
    app.active_shortcuts = Some(previous.clone());
    app.known_active_shortcuts = previous.to_vec();
    let mut backend = FakeBackend::owning(&previous);
    send(
        &mut app,
        vec![
            SettingsIntent::CaptureRequested(0),
            SettingsIntent::CaptureEvents(
                vec![
                    key_event(Key::O, true, ctrl_alt()),
                    key_event(Key::O, false, ctrl_alt()),
                ],
                Modifiers::default(),
            ),
        ],
        &mut backend,
    );
    assert_eq!(app.status, "Shortcuts must be distinct");
    assert_eq!(app.settings, Settings::default());
    assert_eq!(app.active_shortcuts, Some(previous.clone()));
    assert_eq!(backend.register_calls + backend.unregister_calls, 0);
}

#[test]
fn captures_without_global_shortcuts_keep_local_controls() {
    let mut app = new_app();
    let mut backend = FakeBackend::owning(&[]);
    send(&mut app, valid_capture(2), &mut backend);
    assert_eq!(
        app.status,
        "Global shortcuts unavailable; local controls remain active"
    );
    assert_eq!(app.settings, Settings::default());
    assert_eq!(backend.register_calls, 0);
    app.apply(TimerAction::Start, d(5), &mut new_surface());
    assert!(app.timer.is_running());
}

#[test]
fn uncertain_shortcuts_are_released_with_the_known_ones() {
    let [a, b, c, dd] = default_hotkeys();
    let mut app = new_app();
    app.shortcuts_available = true;
    app.known_active_shortcuts = vec![a.clone()];
    app.uncertain_shortcuts = vec![b.clone()];
    let mut backend = FakeBackend::owning(&[a.clone(), b.clone()]);
    assert!(app.replace_shortcuts(&mut backend));
    assert_eq!(backend.unregister_attempts, vec![a.id(), b.id()]);
    assert_eq!(app.active_shortcuts, Some([a, b, c, dd]));
    assert!(app.uncertain_shortcuts.is_empty());
}

#[test]
fn outcomes_of_a_replacement_are_taken_over() {
    let keys = default_hotkeys();
    let mut app = new_app();
    let replaced = app.finish_replacement(
        keys.clone(),
        ShortcutTransaction {
            state: TransactionState::Unknown,
            message: "lost".into(),
            known_active: Vec::new(),
            uncertain: vec![keys[1].clone()],
        },
    );
    assert!(!replaced);
    assert_eq!(app.status, "lost");
    assert_eq!(app.active_shortcuts, None);
    assert_eq!(app.uncertain_shortcuts, vec![keys[1].clone()]);
    assert_eq!(app.shortcut_state, TransactionState::Unknown);
    let replaced = app.finish_replacement(
        keys.clone(),
        ShortcutTransaction {
            state: TransactionState::PreviousActive,
            message: "back".into(),
            known_active: keys[..3].to_vec(),
            uncertain: Vec::new(),
        },
    );
    assert!(!replaced);
    assert_eq!(app.active_shortcuts, None);
    assert_eq!(app.known_active_shortcuts, keys[..3].to_vec());
}

#[test]
fn preferences_of_another_version_are_never_saved() {
    let mut app = new_app();
    app.config_available = true;
    assert!(app.request_save());
    app.config_writes_blocked = true;
    let mut backend = FakeBackend::owning(&[]);
    let save = send(
        &mut app,
        vec![SettingsIntent::Preference(PreferenceChange::Gradient(true))],
        &mut backend,
    );
    assert!(!save);
    assert!(app.settings.appearance.gradient);
    assert_eq!(
        app.status,
        "Preferences from a newer version kept; save is disabled"
    );
    assert!(!app.apply(TimerAction::ToggleOverlay, d(0), &mut new_surface()));
}

#[test]
fn nothing_is_saved_without_a_place_for_it() {
    let mut app = new_app();
    app.status = "before".into();
    assert!(!app.request_save());
    assert_eq!(app.status, "before");
    app.config_available = true;
    assert!(!app.apply(TimerAction::Start, d(0), &mut new_surface()));
    assert!(app.apply(TimerAction::ToggleOverlay, d(0), &mut new_surface()));
}

#[test]
fn injected_startup_registration_conflict_reaches_normal_ui_with_inactive_globals() {
    let defaults = parse_shortcuts(&Settings::default().shortcuts).unwrap();
    let mut backend = FakeBackend {
        conflicts: [defaults[1].id()].into_iter().collect(),
        ..FakeBackend::owning(&[])
    };
    let startup = initialize_shortcuts(&mut backend, &defaults);
    assert_eq!(startup.state, TransactionState::Inactive);
    assert!(startup.active.is_none());
    assert!(startup.known_active.is_empty());
    assert!(startup.uncertain.is_empty());
    assert!(backend.registered.is_empty());

    let app = TimerApp::launch_with_shortcuts(load_without_file(), false, false, startup);
    assert!(app.active_shortcuts.is_none());
    assert_eq!(app.shortcut_state, TransactionState::Inactive);
    assert!(!app.settings.overlay_mode);
    assert_eq!(
        app.status,
        "Using default preferences (config path unavailable); Could not register: owned by another application; cleanup confirmed none active"
    );
}

#[test]
fn launching_registers_the_shortcuts_of_the_preferences() {
    let mut settings = Settings::default();
    settings.shortcuts[2] = "control+alt+KeyP".into();
    let loaded = LoadedSettings {
        settings,
        status: "Preferences restored".into(),
        writes_blocked: true,
    };
    let mut backend = FakeBackend::owning(&[]);
    let app = TimerApp::launch(loaded, true, true, &mut backend);
    assert_eq!(app.status, "Preferences restored; Shortcuts applied");
    let active = app.active_shortcuts.clone().unwrap();
    assert_eq!(active[2].text(), "control+alt+KeyP");
    assert_eq!(app.known_active_shortcuts, active.to_vec());
    assert!(app.shortcuts_available && app.config_available && app.wayland);
    assert!(app.config_writes_blocked);
    assert!(!app.settings_open && app.capture.is_none());
    assert_eq!(app.timer, Timer::default());
    assert_eq!(backend.registered.len(), 4);
}

#[test]
fn launching_without_global_shortcuts_says_so() {
    let app = TimerApp::launch_without_shortcuts(load_without_file(), true, false, "no display");
    assert_eq!(
        app.status,
        "Using default preferences (config path unavailable); global shortcuts unavailable: no display"
    );
    assert!(!app.shortcuts_available);
    assert!(app.active_shortcuts.is_none());
    assert_eq!(app.settings, Settings::default());
}

#[test]
fn shortcuts_that_cannot_serve_give_way_to_the_defaults() {
    let mut settings = Settings::default();
    settings.shortcuts[0] = "nonsense".into();
    assert_eq!(startup_shortcuts(&settings), default_hotkeys());
}

#[test]
fn shutting_down_releases_each_shortcut_once() {
    let [a, b, c, _] = default_hotkeys();
    let mut app = new_app();
    app.known_active_shortcuts = vec![a.clone(), b.clone()];
    app.uncertain_shortcuts = vec![b.clone(), c.clone(), c.clone()];
    let mut backend = FakeBackend::owning(&[a.clone(), b.clone(), c.clone()]);
    assert!(!app.shut_down(&mut backend));
    assert_eq!(backend.unregister_calls, 0);

    app.shortcuts_available = true;
    assert!(!app.shut_down(&mut backend));
    assert_eq!(backend.unregister_attempts, vec![a.id(), b.id(), c.id()]);
    assert!(backend.registered.is_empty());

    let mut refusing = FakeBackend {
        fail_unregister_at: vec![2],
        ..FakeBackend::owning(&[])
    };
    assert!(app.shut_down(&mut refusing));
    app.shortcut_state = TransactionState::Unknown;
    assert!(app.shut_down(&mut backend));
}

#[test]
fn settings_window_shows_what_the_program_holds() {
    let mut app = new_app();
    app.settings.appearance.gradient = true;
    app.status = "hello".into();
    app.capture = Some(CaptureState::new(1));
    let mut surface = new_surface();
    surface.wayland = true;
    app.open_settings(&mut surface);
    assert!(app.settings_open);
    assert_eq!(surface.settings, app.settings);
    assert_eq!(surface.status, "hello");
    assert_eq!(surface.capture.as_ref().map(|c| c.target()), Some(1));
    assert!(surface.wayland);
}

#[test]
fn settings_window_asks_for_what_is_edited_in_it() {
    let mut surface = new_surface();
    let intent = surface.edit(PreferenceChange::ChromaKey([1, 2, 3, 4]));
    assert!(matches!(
        intent,
        SettingsIntent::Preference(PreferenceChange::ChromaKey([1, 2, 3, 4]))
    ));
    assert_eq!(surface.settings.appearance.chroma_key, [1, 2, 3, 4]);
    surface.edit(PreferenceChange::FractionalDigits(5));
    assert_eq!(surface.settings.fractional_digits, 2);
    let intent = surface.begin_capture(3);
    assert!(matches!(intent, SettingsIntent::CaptureRequested(3)));
    assert_eq!(surface.capture.as_ref().map(|c| c.target()), Some(3));
}

#[test]
fn settings_window_reports_to_a_capture_only() {
    let mut surface = new_surface();
    let event = key_event(Key::A, true, Modifiers::default());
    assert!(surface
        .capture_intent(vec![event], Modifiers::default())
        .is_none());
    surface.begin_capture(0);
    assert!(surface
        .capture_intent(vec![], Modifiers::default())
        .is_none());
    assert!(surface.capture_intent(vec![], ctrl_alt()).is_some());
    match surface.capture_intent(vec![event], Modifiers::default()) {
        Some(SettingsIntent::CaptureEvents(events, modifiers)) => {
            assert_eq!(events, vec![event]);
            assert_eq!(modifiers, Modifiers::default());
        }
        other => panic!("{other:?}"),
    }
}

#[test]
fn window_follows_the_overlay() {
    let mut app = new_app();
    assert_eq!(
        app.set_viewport(),
        vec![
            ViewportCommand::Transparent(false),
            ViewportCommand::Decorations(true)
        ]
    );
    app.apply(TimerAction::ToggleOverlay, d(0), &mut new_surface());
    assert_eq!(app.set_viewport(), vec![ViewportCommand::Transparent(true)]);
    assert_eq!(app.set_viewport(), vec![]);
}

#[test]
fn escape_leaves_the_overlay_and_does_nothing_else() {
    let mut app = new_app();
    app.config_available = true;
    let mut surface = new_surface();
    assert!(!app.handle_escape(true, d(0), &mut surface));
    assert!(!app.settings.overlay_mode);
    app.settings.overlay_mode = true;
    assert!(!app.handle_escape(false, d(0), &mut surface));
    assert!(app.settings.overlay_mode);
    assert!(app.handle_escape(true, d(0), &mut surface));
    assert_eq!(app.settings, Settings::default());
}

#[test]
fn frames_show_the_timer_and_go_on_while_it_runs() {
    let mut app = new_app();
    let still = app.frame(d(500));
    assert_eq!(still.readout, "00:00:00.00");
    assert_eq!(still.next_frame, None);
    assert!(!still.overlay);
    app.timer.start(d(500));
    app.settings.overlay_mode = true;
    app.settings.fractional_digits = 1;
    let moving = app.frame(d(12_890));
    assert_eq!(moving.readout, "      12.3");
    assert_eq!(moving.next_frame, Some(d(33)));
    assert!(moving.overlay);
}

#[test]
fn headless_unavailable_shortcuts_keep_direct_controls_and_local_overlay() {
    let mut app = new_app();
    let mut surface = new_surface();
    assert!(app.active_shortcuts.is_none());

    app.apply(TimerAction::Start, d(10), &mut surface);
    assert!(app.timer.is_running());
    app.apply(TimerAction::Stop, d(20), &mut surface);
    assert!(!app.timer.is_running());
    app.apply(TimerAction::Reset, d(30), &mut surface);
    assert_eq!(app.timer.elapsed(Duration::zero()), Duration::zero());

    app.open_settings(&mut surface);
    let intent = surface.edit(PreferenceChange::OverlayMode(true));
    app.handle_intent(
        intent,
        &mut FakeBackend::owning(&[]),
        &mut surface,
    );
    assert!(app.settings.overlay_mode);
}

#[test]
fn headless_controls_update_timer_and_preferences() {
    let mut app = new_app();
    let mut surface = new_surface();

    app.apply(TimerAction::Start, d(10), &mut surface);
    assert!(app.timer.is_running());

    app.apply(TimerAction::Stop, d(20), &mut surface);
    assert!(!app.timer.is_running());

    app.open_settings(&mut surface);
    let intent = surface.edit(PreferenceChange::ShowMilliseconds(false));
    app.handle_intent(
        intent,
        &mut FakeBackend::owning(&[]),
        &mut surface,
    );
    assert!(!app.settings.show_milliseconds);
}

#[test]
fn saved_shortcuts_come_back_after_a_restart() {
    let mut first = new_app();
    first.shortcuts_available = true;
    let mut backend = FakeBackend::owning(&[]);
    send(&mut first, valid_capture(2), &mut backend);
    let file = to_file(&first.settings);
    let loaded = load_canonical(FileRead::Parsed(Ok(file))).unwrap();
    let mut fresh = FakeBackend::owning(&[]);
    let second = TimerApp::launch(loaded, true, false, &mut fresh);
    assert_eq!(second.settings, first.settings);
    assert_eq!(second.active_shortcuts, first.active_shortcuts);
}
