//! The program as a whole: the timer, the preferences, the shortcuts and the
//! settings window, and what each input makes of them. Whatever has to be
//! written to disk is left to the caller: a method that ends in a save says
//! whether there is one to perform, and `finish_save` takes its result.

use crate::action::{escape_overlay_action, TimerAction};
use crate::capture::{capture_events, CaptureResult, CaptureState};
use crate::hotkey::{
    action_for_event, default_hotkeys, parse_shortcuts, shortcut_texts, GlobalHotKeyEvent,
    HotKey,
};
use crate::keys::{Event, Modifiers};
use crate::load::LoadedSettings;
use crate::settings::{
    apply_overlay_transition, apply_preference_change, copy_texts, initial_runtime_state,
    save_status, PreferenceChange, Settings,
};
use crate::surface::{SettingsIntent, SettingsSurfaceState};
use crate::time::Duration;
use crate::timer::{format_duration, frame_timer_state, Timer};
use crate::transaction::{
    initialize_shortcuts, lists_id, release_all, replace_shortcut_set, ShortcutBackend,
    ShortcutStartupState, ShortcutTransaction, TransactionState,
};
use crate::viewport::Viewport;
use vstd::prelude::*;
use vstd::string::*;

verus! {

/// The state of the program.
#[derive(Debug)]
pub struct TimerApp {
    pub timer: Timer,
    pub settings: Settings,
    /// Whether there is a place to keep the preferences.
    pub config_available: bool,
    pub status: String,
    pub settings_open: bool,
    pub capture: Option<CaptureState>,
    /// Whether the system takes shortcuts at all.
    pub shortcuts_available: bool,
    pub active_shortcuts: Option<[HotKey; 4]>,
    pub known_active_shortcuts: Vec<HotKey>,
    pub uncertain_shortcuts: Vec<HotKey>,
    pub shortcut_state: TransactionState,
    pub viewport: Viewport,
    pub config_writes_blocked: bool,
    pub wayland: bool,
}

/// What a `TimerApp` stands for.
#[verifier::ext_equal]
pub struct AppView {
    pub timer: crate::timer::TimerView,
    pub settings: crate::settings::SettingsView,
    pub config_available: bool,
    pub status: Seq<char>,
    pub settings_open: bool,
    pub capture: Option<crate::capture::CaptureView>,
    pub shortcuts_available: bool,
    pub active: Option<Seq<HotKey>>,
    pub known_active: Seq<HotKey>,
    pub uncertain: Seq<HotKey>,
    pub shortcut_state: TransactionState,
    pub viewport: Viewport,
    pub config_writes_blocked: bool,
    pub wayland: bool,
}

/// Four shortcuts as a sequence, where there are any.
pub open spec fn active_view(active: Option<[HotKey; 4]>) -> Option<Seq<HotKey>> {
    match active {
        Some(keys) => Some(keys@),
        None => None,
    }
}

impl View for TimerApp {
    type V = AppView;

    open spec fn view(&self) -> AppView {
        AppView {
            timer: self.timer@,
            settings: self.settings@,
            config_available: self.config_available,
            status: self.status@,
            settings_open: self.settings_open,
            capture: crate::surface::capture_view(self.capture),
            shortcuts_available: self.shortcuts_available,
            active: active_view(self.active_shortcuts),
            known_active: self.known_active_shortcuts@,
            uncertain: self.uncertain_shortcuts@,
            shortcut_state: self.shortcut_state,
            viewport: self.viewport,
            config_writes_blocked: self.config_writes_blocked,
            wayland: self.wayland,
        }
    }
}

impl AppView {
    /// Whether a save is to be performed: there is a place to keep preferences,
    /// and what is kept there is not of another version.
    pub open spec fn saves(self) -> bool {
        self.config_available && !self.config_writes_blocked
    }

    /// The state once a save has been asked for, before it is performed.
    pub open spec fn asked_to_save(self) -> AppView {
        if self.config_writes_blocked {
            AppView {
                status: "Preferences from a newer version kept; save is disabled"@,
                ..self
            }
        } else {
            self
        }
    }

    /// The state with the settings window closed, and any capture given up.
    pub open spec fn closed(self) -> AppView {
        AppView { settings_open: false, capture: None, ..self }
    }

    /// The state once the overlay has been set to `desired`. Entering it can
    /// close the settings window.
    pub open spec fn transitioned(self, desired: bool, close_settings: bool) -> AppView {
        let set = AppView {
            settings: crate::settings::SettingsView { overlay_mode: desired, ..self.settings },
            ..self
        };
        if desired && close_settings {
            set.closed().asked_to_save()
        } else {
            set.asked_to_save()
        }
    }

    /// The state once an action has been taken at `now`.
    pub open spec fn acted(self, action: TimerAction, now: nat) -> AppView {
        match action {
            TimerAction::Start => AppView { timer: self.timer.start(now), ..self },
            TimerAction::Stop => AppView { timer: self.timer.stop(now), ..self },
            TimerAction::Reset => AppView { timer: crate::timer::TimerView::fresh(), ..self },
            TimerAction::ToggleOverlay => self.transitioned(!self.settings.overlay_mode, true),
        }
    }

    /// The action that a report of the system asks for: none during a capture.
    pub open spec fn requested(self, event: GlobalHotKeyEvent) -> Option<TimerAction> {
        if self.capture is Some || self.active is None {
            None
        } else {
            crate::hotkey::event_action(event, crate::hotkey::keys_view(self.active->0))
        }
    }
}

/// Whether `parsed` can be what four texts of shortcuts are parsed as.
pub open spec fn parses(values: Seq<Seq<char>>, parsed: Result<[HotKey; 4], String>) -> bool {
    &&& exists|read: Seq<Result<crate::hotkey::HotKeyView, Seq<char>>>|
        #[trigger] crate::hotkey::reads(values, read) && crate::hotkey::selection_view(parsed)
            == crate::hotkey::selected(read)
    &&& crate::hotkey::all_read_alike(values) ==> forall|macos: bool|
        crate::hotkey::selection_view(parsed) == crate::hotkey::selected(
            #[trigger] crate::hotkey::reading_on(values, macos),
        )
}

impl AppView {
    /// The state once the shortcuts have been replaced by `keys` with this
    /// outcome.
    pub open spec fn after_transaction(
        self,
        keys: Seq<HotKey>,
        outcome: crate::transaction::TransactionView,
    ) -> AppView {
        let noted = AppView {
            known_active: outcome.known_active,
            uncertain: outcome.uncertain,
            shortcut_state: outcome.state,
            ..self
        };
        match outcome.state {
            TransactionState::NewActive => (AppView {
                active: Some(keys),
                settings: crate::settings::SettingsView {
                    shortcuts: crate::hotkey::key_texts(crate::hotkey::keys_view(keys)),
                    ..self.settings
                },
                ..noted
            }).asked_to_save(),
            TransactionState::PreviousActive => AppView {
                active: if outcome.known_active.len() == 4 {
                    Some(outcome.known_active)
                } else {
                    None
                },
                status: outcome.message,
                ..noted
            },
            _ => AppView { active: None, status: outcome.message, ..noted },
        }
    }

    /// The course of replacing every shortcut that is or may be registered.
    pub open spec fn course(
        self,
        keys: Seq<HotKey>,
        before: Seq<crate::transaction::Call>,
        after: Seq<crate::transaction::Call>,
    ) -> crate::transaction::Transcript {
        crate::transaction::replacement(
            self.known_active + self.uncertain,
            keys,
            crate::transaction::answers_of(crate::transaction::calls_since(before, after)),
        )
    }

    /// The state once the shortcuts of the preferences, parsed as `parsed`, have
    /// been tried, where the system was asked what it was between two states of
    /// its history.
    pub open spec fn tried(
        self,
        parsed: Result<[HotKey; 4], String>,
        before: Seq<crate::transaction::Call>,
        after: Seq<crate::transaction::Call>,
    ) -> AppView {
        match parsed {
            Err(message) => AppView { status: message@, ..self },
            Ok(keys) => if !self.shortcuts_available {
                AppView {
                    status: "Global shortcuts unavailable; local controls remain active"@,
                    ..self
                }
            } else {
                self.after_transaction(keys@, self.course(keys@, before, after).outcome)
            },
        }
    }

    /// Whether trying the shortcuts put them into effect.
    pub open spec fn replaces(
        self,
        parsed: Result<[HotKey; 4], String>,
        before: Seq<crate::transaction::Call>,
        after: Seq<crate::transaction::Call>,
    ) -> bool {
        match parsed {
            Err(_) => false,
            Ok(keys) => self.shortcuts_available && self.course(keys@, before, after).outcome.state
                == TransactionState::NewActive,
        }
    }

    /// Whether the system was asked, between two states of its history, what
    /// trying the shortcuts takes: nothing where they cannot be registered.
    pub open spec fn asks(
        self,
        parsed: Result<[HotKey; 4], String>,
        before: Seq<crate::transaction::Call>,
        after: Seq<crate::transaction::Call>,
    ) -> bool {
        match parsed {
            Err(_) => after == before,
            Ok(keys) => if !self.shortcuts_available {
                after == before
            } else {
                crate::transaction::continues(before, after) && crate::transaction::requests_of(
                    crate::transaction::calls_since(before, after),
                ) == self.course(keys@, before, after).requests
            },
        }
    }
}

impl AppView {
    /// What the capture that is under way comes to by events.
    pub open spec fn capture_outcome(
        self,
        events: Seq<Event>,
        modifiers: Modifiers,
    ) -> crate::capture::CaptureResultView {
        crate::capture::outcome_of_events(self.capture->0, events, modifiers)
    }

    /// Whether events complete the capture that is under way.
    pub open spec fn commits(self, events: Seq<Event>, modifiers: Modifiers) -> bool {
        self.capture is Some && self.capture_outcome(events, modifiers) is Committed
    }

    /// The preferences with the shortcut at `target` replaced.
    pub open spec fn with_shortcut(self, target: int, text: Seq<char>) -> AppView {
        AppView {
            settings: crate::settings::SettingsView {
                shortcuts: self.settings.shortcuts.update(target, text),
                ..self.settings
            },
            ..self
        }
    }

    /// The state in which the shortcut that a capture came to is tried.
    pub open spec fn drafted(self, events: Seq<Event>, modifiers: Modifiers) -> AppView {
        let target = self.capture->0.target as int;
        match self.capture_outcome(events, modifiers) {
            crate::capture::CaptureResultView::Committed(mods, code) => AppView {
                capture: None,
                ..self.with_shortcut(target, crate::hotkey::chord_text(mods, code))
            },
            _ => self,
        }
    }

    /// The state once a capture has heard of events that do not complete it.
    pub open spec fn heard(self, events: Seq<Event>, modifiers: Modifiers) -> AppView {
        if self.capture is None {
            self
        } else {
            match self.capture_outcome(events, modifiers) {
                crate::capture::CaptureResultView::Cancelled => AppView {
                    capture: None,
                    status: "Capture cancelled"@,
                    ..self
                },
                crate::capture::CaptureResultView::Rejected(error) => AppView {
                    capture: None,
                    status: "Capture rejected: "@ + error,
                    ..self
                },
                _ => AppView {
                    capture: Some(crate::capture::after_events(self.capture->0, events).0),
                    ..self
                },
            }
        }
    }

    /// The state once the shortcut that a capture came to has been tried: where
    /// it could not be put into effect, the preferences keep the one from before.
    pub open spec fn settled(
        self,
        events: Seq<Event>,
        modifiers: Modifiers,
        parsed: Result<[HotKey; 4], String>,
        before: Seq<crate::transaction::Call>,
        after: Seq<crate::transaction::Call>,
    ) -> AppView {
        let draft = self.drafted(events, modifiers);
        let tried = draft.tried(parsed, before, after);
        if draft.replaces(parsed, before, after) {
            tried
        } else {
            AppView {
                settings: crate::settings::SettingsView {
                    shortcuts: self.settings.shortcuts,
                    ..tried.settings
                },
                ..tried
            }
        }
    }
}

impl AppView {
    /// The state once a preference has been changed in the settings window.
    pub open spec fn preferred(self, change: PreferenceChange) -> AppView {
        match change {
            PreferenceChange::OverlayMode(value) => self.transitioned(value, false),
            _ => (AppView { settings: self.settings.changed(change), ..self }).asked_to_save(),
        }
    }

    /// The state once a capture has been asked for.
    pub open spec fn listening(self, target: usize) -> AppView {
        AppView {
            capture: Some(crate::capture::CaptureView::fresh(target)),
            status: "Listening… release all keys; Escape cancels"@,
            ..self
        }
    }

    /// The state once the settings window has asked for something, but for a
    /// capture that is completed.
    pub open spec fn complied(self, intent: SettingsIntent) -> AppView {
        match intent {
            SettingsIntent::Close => self.closed(),
            SettingsIntent::Preference(change) => self.preferred(change),
            SettingsIntent::CaptureRequested(target) => self.listening(target),
            SettingsIntent::CaptureEvents(events, modifiers) => self.heard(events@, modifiers),
        }
    }

    /// Whether what the settings window asks for completes a capture.
    pub open spec fn completes(self, intent: SettingsIntent) -> bool {
        intent matches SettingsIntent::CaptureEvents(events, modifiers) && self.commits(
            events@,
            modifiers,
        )
    }
}

/// What the settings window shows once it is brought up to date.
pub open spec fn refreshed(
    surface: crate::surface::SurfaceView,
    app: AppView,
) -> crate::surface::SurfaceView {
    crate::surface::SurfaceView {
        settings: app.settings,
        status: app.status,
        capture: app.capture,
        ..surface
    }
}

/// What the settings window shows once it is closed.
pub open spec fn surface_closed(
    surface: crate::surface::SurfaceView,
) -> crate::surface::SurfaceView {
    crate::surface::SurfaceView { capture: None, ..surface }
}

fn copy_capture(capture: &Option<CaptureState>) -> (copy: Option<CaptureState>)
    ensures
        crate::surface::capture_view(copy) == crate::surface::capture_view(*capture),
{
    match capture {
        Some(state) => Some(state.clone()),
        None => None,
    }
}

impl TimerApp {
    /// Asks for the preferences to be saved. Says whether a save is to be
    /// performed.
    pub fn request_save(&mut self) -> (save: bool)
        ensures
            final(self)@ == old(self)@.asked_to_save(),
            save == old(self)@.saves(),
    {
        if self.config_writes_blocked {
            self.status = "Preferences from a newer version kept; save is disabled".to_owned();
            return false;
        }
        self.config_available
    }

    /// Takes the result of a save. The preferences stay as they are, whatever
    /// the result.
    pub fn finish_save(&mut self, result: Result<(), String>)
        ensures
            final(self)@ == (AppView {
                status: crate::settings::save_message(crate::transaction::answer_view(result)),
                ..old(self)@
            }),
    {
        self.status = save_status(result);
    }

    /// Closes the settings window and gives up any capture.
    pub fn close_settings(&mut self, surface: &mut SettingsSurfaceState)
        ensures
            final(self)@ == old(self)@.closed(),
            final(surface)@ == surface_closed(old(surface)@),
    {
        self.settings_open = false;
        self.capture = None;
        surface.capture = None;
    }

    /// Opens the settings window.
    pub fn open_settings(&mut self, surface: &mut SettingsSurfaceState)
        ensures
            final(self)@ == (AppView { settings_open: true, ..old(self)@ }),
            final(surface)@ == refreshed(old(surface)@, old(self)@),
    {
        self.settings_open = true;
        self.refresh(surface);
    }

    /// Brings the settings window up to date.
    pub fn refresh(&self, surface: &mut SettingsSurfaceState)
        ensures
            final(surface)@ == refreshed(old(surface)@, self@),
    {
        surface.settings = self.settings.clone();
        surface.status = self.status.clone();
        surface.capture = copy_capture(&self.capture);
    }

    /// Sets the overlay to `desired`, and closes the settings window on entering
    /// it where `close_settings` says so. Says whether a save is to be performed.
    pub fn transition_overlay(
        &mut self,
        desired: bool,
        close_settings: bool,
        surface: &mut SettingsSurfaceState,
    ) -> (save: bool)
        ensures
            final(self)@ == old(self)@.transitioned(desired, close_settings),
            final(surface)@ == (if desired && close_settings {
                surface_closed(old(surface)@)
            } else {
                old(surface)@
            }),
            save == old(self)@.saves(),
    {
        if self.settings.overlay_mode != desired {
            apply_overlay_transition(&mut self.settings);
        }
        if self.settings.overlay_mode && close_settings {
            self.close_settings(surface);
        }
        self.request_save()
    }

    /// Takes an action at `now`. Says whether a save is to be performed.
    pub fn apply(
        &mut self,
        action: TimerAction,
        now: Duration,
        surface: &mut SettingsSurfaceState,
    ) -> (save: bool)
        requires
            action == TimerAction::Stop ==> old(self)@.timer.readable(now@),
        ensures
            final(self)@ == old(self)@.acted(action, now@),
            final(surface)@ == (if action == TimerAction::ToggleOverlay
                && !old(self)@.settings.overlay_mode {
                surface_closed(old(surface)@)
            } else {
                old(surface)@
            }),
            save == (action == TimerAction::ToggleOverlay && old(self)@.saves()),
    {
        match action {
            TimerAction::Start => {
                self.timer.start(now);
                false
            },
            TimerAction::Stop => {
                self.timer.stop(now);
                false
            },
            TimerAction::Reset => {
                self.timer.reset();
                false
            },
            TimerAction::ToggleOverlay => {
                let desired = !self.settings.overlay_mode;
                self.transition_overlay(desired, true, surface)
            },
        }
    }

    /// Takes a report of the system on a shortcut. Says whether a save is to be
    /// performed.
    pub fn handle_global_event(
        &mut self,
        event: GlobalHotKeyEvent,
        now: Duration,
        surface: &mut SettingsSurfaceState,
    ) -> (save: bool)
        requires
            old(self)@.requested(event) == Some(TimerAction::Stop) ==> old(self)@.timer.readable(
                now@,
            ),
        ensures
            final(self)@ == (match old(self)@.requested(event) {
                Some(action) => old(self)@.acted(action, now@),
                None => old(self)@,
            }),
            final(surface)@ == (if old(self)@.requested(event) == Some(TimerAction::ToggleOverlay)
                && !old(self)@.settings.overlay_mode {
                surface_closed(old(surface)@)
            } else {
                old(surface)@
            }),
            save == (old(self)@.requested(event) == Some(TimerAction::ToggleOverlay)
                && old(self)@.saves()),
    {
        if self.capture.is_some() {
            return false;
        }
        let action = action_for_event(event, self.active_shortcuts.as_ref());
        match action {
            Some(action) => self.apply(action, now, surface),
            None => false,
        }
    }
}

/// What one frame of the timer's window shows.
#[derive(Debug, PartialEq, Eq)]
pub struct TimerFrame {
    /// The text of the readout.
    pub readout: String,
    /// Whether the overlay is shown in place of the controls.
    pub overlay: bool,
    /// When the next frame is due, where the readout moves on by itself.
    pub next_frame: Option<Duration>,
}

/// The time between two frames while the timer runs, in milliseconds.
pub const FRAME_MILLIS: u64 = 33;

impl TimerApp {
    /// Takes whether Escape was pressed: it leaves the overlay. Says whether a
    /// save is to be performed.
    pub fn handle_escape(
        &mut self,
        escape_pressed: bool,
        now: Duration,
        surface: &mut SettingsSurfaceState,
    ) -> (save: bool)
        ensures
            final(self)@ == (if old(self)@.settings.overlay_mode && escape_pressed {
                old(self)@.acted(TimerAction::ToggleOverlay, now@)
            } else {
                old(self)@
            }),
            final(surface)@ == old(surface)@,
            save == (old(self)@.settings.overlay_mode && escape_pressed && old(self)@.saves()),
    {
        match escape_overlay_action(self.settings.overlay_mode, escape_pressed) {
            Some(action) => self.apply(action, now, surface),
            None => false,
        }
    }

    /// What the frame at `now` shows.
    pub fn frame(&self, now: Duration) -> (frame: TimerFrame)
        requires
            self@.timer.readable(now@),
        ensures
            frame.readout@ == crate::timer::readout(
                self@.timer.elapsed(now@),
                self@.settings.show_milliseconds,
                self@.settings.fractional_digits,
                self@.timer.running(),
            ),
            frame.overlay == self@.settings.overlay_mode,
            frame.next_frame is Some == self@.timer.running(),
            frame.next_frame matches Some(span) ==> span@ == FRAME_MILLIS
                * crate::time::NANOS_PER_MILLI && span@ == 33_000_000,
    {
        let (elapsed, running) = frame_timer_state(&self.timer, now);
        TimerFrame {
            readout: format_duration(
                elapsed,
                self.settings.show_milliseconds,
                self.settings.fractional_digits,
                running,
            ),
            overlay: self.settings.overlay_mode,
            next_frame: if running {
                Some(Duration::from_millis(FRAME_MILLIS))
            } else {
                None
            },
        }
    }
}

/// The shortcuts of both lists, in order.
fn joined(first: &Vec<HotKey>, second: &Vec<HotKey>) -> (all: Vec<HotKey>)
    ensures
        all@ == first@ + second@,
{
    let mut all: Vec<HotKey> = Vec::new();
    let mut i: usize = 0;
    while i < first.len()
        invariant
            i <= first@.len(),
            all@ == first@.take(i as int),
        decreases first@.len() - i,
    {
        all.push(first[i].clone());
        i = i + 1;
        assert(all@ =~= first@.take(i as int));
    }
    let mut j: usize = 0;
    assert(all@ =~= first@ + second@.take(0));
    while j < second.len()
        invariant
            j <= second@.len(),
            all@ == first@ + second@.take(j as int),
        decreases second@.len() - j,
    {
        all.push(second[j].clone());
        j = j + 1;
        assert(all@ =~= first@ + second@.take(j as int));
    }
    assert(second@.take(j as int) =~= second@);
    all
}

/// The shortcuts as an array, where there are four.
fn four_keys(keys: &Vec<HotKey>) -> (four: Option<[HotKey; 4]>)
    ensures
        active_view(four) == (if keys@.len() == 4 {
            Some(keys@)
        } else {
            None
        }),
{
    if keys.len() == 4 {
        let four = [keys[0].clone(), keys[1].clone(), keys[2].clone(), keys[3].clone()];
        assert(four@ =~= keys@);
        Some(four)
    } else {
        None
    }
}

impl TimerApp {
    /// Takes the outcome of replacing the shortcuts by `keys`. Says whether they
    /// are in effect; if so, a save is due where one can be performed.
    pub fn finish_replacement(&mut self, keys: [HotKey; 4], result: ShortcutTransaction) -> (replaced:
        bool)
        ensures
            final(self)@ == old(self)@.after_transaction(keys@, result@),
            replaced == (result@.state == TransactionState::NewActive),
    {
        self.known_active_shortcuts = result.known_active;
        self.uncertain_shortcuts = result.uncertain;
        self.shortcut_state = result.state;
        match result.state {
            TransactionState::NewActive => {
                self.settings.shortcuts = shortcut_texts(&keys);
                self.active_shortcuts = Some(keys);
                self.request_save();
                true
            },
            TransactionState::PreviousActive => {
                self.active_shortcuts = four_keys(&self.known_active_shortcuts);
                self.status = result.message;
                false
            },
            _ => {
                self.active_shortcuts = None;
                self.status = result.message;
                false
            },
        }
    }

    /// Puts the shortcuts of the preferences into effect, all four or none. Says
    /// whether they are; if so, a save is due where one can be performed.
    pub fn replace_shortcuts<B: ShortcutBackend>(&mut self, backend: &mut B) -> (replaced: bool)
        ensures
            exists|parsed: Result<[HotKey; 4], String>|
                {
                    &&& #[trigger] parses(old(self)@.settings.shortcuts, parsed)
                    &&& old(self)@.asks(parsed, old(backend).asked(), final(backend).asked())
                    &&& final(self)@ == old(self)@.tried(
                        parsed,
                        old(backend).asked(),
                        final(backend).asked(),
                    )
                    &&& replaced == old(self)@.replaces(
                        parsed,
                        old(backend).asked(),
                        final(backend).asked(),
                    )
                },
    {
        let parsed = parse_shortcuts(&self.settings.shortcuts);
        let ghost outcome = parsed;
        assert(parses(self@.settings.shortcuts, outcome));
        let keys = match parsed {
            Ok(keys) => keys,
            Err(error) => {
                self.status = error;
                return false;
            },
        };
        if !self.shortcuts_available {
            self.status = "Global shortcuts unavailable; local controls remain active".to_owned();
            return false;
        }
        let previous = joined(&self.known_active_shortcuts, &self.uncertain_shortcuts);
        let result = replace_shortcut_set(backend, previous.as_slice(), &keys);
        self.finish_replacement(keys, result)
    }
}

impl TimerApp {
    /// Lets the capture that is under way hear of events. A shortcut that it
    /// comes to is put into effect, or else the one from before stays. Says
    /// whether a save is to be performed.
    pub fn hear_capture<B: ShortcutBackend>(
        &mut self,
        events: &Vec<Event>,
        modifiers: Modifiers,
        backend: &mut B,
    ) -> (save: bool)
        requires
            old(self)@.commits(events@, modifiers) ==> old(self)@.capture->0.target < 4,
        ensures
            !old(self)@.commits(events@, modifiers) ==> {
                &&& final(self)@ == old(self)@.heard(events@, modifiers)
                &&& final(backend).asked() == old(backend).asked()
                &&& !save
            },
            old(self)@.commits(events@, modifiers) ==> exists|parsed: Result<[HotKey; 4], String>|
                {
                    let draft = old(self)@.drafted(events@, modifiers);
                    let before = old(backend).asked();
                    let after = final(backend).asked();
                    &&& #[trigger] parses(
                        old(self)@.drafted(events@, modifiers).settings.shortcuts,
                        parsed,
                    )
                    &&& draft.asks(parsed, before, after)
                    &&& final(self)@ == old(self)@.settled(events@, modifiers, parsed, before, after)
                    &&& save == (draft.replaces(parsed, before, after) && draft.saves())
                },
    {
        let ghost start = self@;
        let mut capture = match self.capture.take() {
            Some(capture) => capture,
            None => {
                return false;
            },
        };
        let result = capture_events(&mut capture, events, modifiers);
        match result {
            CaptureResult::Committed(key) => {
                let target: usize = capture.target();
                proof {
                    crate::capture::lemma_target_stays(start.capture->0, events@);
                }
                let previous = copy_texts(&self.settings.shortcuts);
                self.settings.shortcuts[target] = key.text();
                assert(self@ == start.drafted(events@, modifiers));
                if self.replace_shortcuts(backend) {
                    self.config_available && !self.config_writes_blocked
                } else {
                    self.settings.shortcuts = previous;
                    false
                }
            },
            CaptureResult::Cancelled => {
                self.status = "Capture cancelled".to_owned();
                false
            },
            CaptureResult::Rejected(error) => {
                let mut status = "Capture rejected: ".to_owned();
                status.append(error.as_str());
                self.status = status;
                false
            },
            CaptureResult::Continue => {
                self.capture = Some(capture);
                false
            },
        }
    }
}

impl TimerApp {
    /// Changes a preference. Says whether a save is to be performed.
    pub fn change_preference(
        &mut self,
        change: PreferenceChange,
        surface: &mut SettingsSurfaceState,
    ) -> (save: bool)
        ensures
            final(self)@ == old(self)@.preferred(change),
            final(surface)@ == old(surface)@,
            save == old(self)@.saves(),
    {
        match change {
            PreferenceChange::OverlayMode(value) => self.transition_overlay(value, false, surface),
            _ => {
                apply_preference_change(&mut self.settings, change);
                self.request_save()
            },
        }
    }

    /// Does what the settings window asks for. Says whether a save is to be
    /// performed.
    pub fn handle_intent<B: ShortcutBackend>(
        &mut self,
        intent: SettingsIntent,
        backend: &mut B,
        surface: &mut SettingsSurfaceState,
    ) -> (save: bool)
        requires
            old(self)@.completes(intent) ==> old(self)@.capture->0.target < 4,
        ensures
            !old(self)@.completes(intent) ==> {
                &&& final(self)@ == old(self)@.complied(intent)
                &&& final(backend).asked() == old(backend).asked()
                &&& save == (intent is Preference && old(self)@.saves())
            },
            old(self)@.completes(intent) ==> exists|parsed: Result<[HotKey; 4], String>|
                {
                    let events = intent->CaptureEvents_0@;
                    let modifiers = intent->CaptureEvents_1;
                    let draft = old(self)@.drafted(events, modifiers);
                    let before = old(backend).asked();
                    let after = final(backend).asked();
                    &&& #[trigger] parses(
                        old(self)@.drafted(
                            intent->CaptureEvents_0@,
                            intent->CaptureEvents_1,
                        ).settings.shortcuts,
                        parsed,
                    )
                    &&& draft.asks(parsed, before, after)
                    &&& final(self)@ == old(self)@.settled(events, modifiers, parsed, before, after)
                    &&& save == (draft.replaces(parsed, before, after) && draft.saves())
                },
            final(surface)@ == (if intent is Close {
                surface_closed(old(surface)@)
            } else {
                old(surface)@
            }),
    {
        match intent {
            SettingsIntent::Close => {
                self.close_settings(surface);
                false
            },
            SettingsIntent::Preference(change) => self.change_preference(change, surface),
            SettingsIntent::CaptureRequested(target) => {
                self.capture = Some(CaptureState::new(target));
                self.status = "Listening… release all keys; Escape cancels".to_owned();
                false
            },
            SettingsIntent::CaptureEvents(events, modifiers) => self.hear_capture(
                &events,
                modifiers,
                backend,
            ),
        }
    }

    /// Asks of the window what it has not been asked already.
    pub fn set_viewport(&mut self) -> (commands: Vec<crate::viewport::ViewportCommand>)
        ensures
            ({
                let transparent = crate::viewport::transparent(
                    old(self)@.settings.appearance.native_transparency,
                    old(self)@.settings.overlay_mode,
                    old(self)@.wayland,
                );
                &&& commands@ == old(self)@.viewport.commands(transparent)
                &&& final(self)@ == (AppView {
                    viewport: Viewport::settled(transparent),
                    ..old(self)@
                })
            }),
    {
        self.viewport.set_viewport(
            self.settings.appearance.native_transparency,
            self.settings.overlay_mode,
            self.wayland,
        )
    }
}

/// The shortcuts to register at the start: those of the preferences, and the
/// default ones where those cannot serve.
pub open spec fn startup_keys(
    parsed: Result<Seq<crate::hotkey::HotKeyView>, Seq<char>>,
    keys: Seq<HotKey>,
) -> bool {
    match parsed {
        Ok(views) => crate::hotkey::keys_view(keys) == views,
        Err(_) => crate::hotkey::key_texts(crate::hotkey::keys_view(keys))
            == crate::hotkey::default_texts(),
    }
}

/// The shortcuts to register at the start.
pub fn startup_shortcuts(settings: &Settings) -> (keys: [HotKey; 4])
    ensures
        exists|parsed: Result<[HotKey; 4], String>|
            #[trigger] parses(settings@.shortcuts, parsed) && startup_keys(
                crate::hotkey::selection_view(parsed),
                keys@,
            ),
        crate::hotkey::valid_keys(crate::hotkey::keys_view(keys@)),
{
    let parsed = parse_shortcuts(&settings.shortcuts);
    assert(parses(settings@.shortcuts, parsed));
    match parsed {
        Ok(keys) => {
            proof {
                let read = choose|read: Seq<Result<crate::hotkey::HotKeyView, Seq<char>>>|
                    #[trigger]
                    crate::hotkey::reads(settings@.shortcuts, read)
                        && crate::hotkey::selection_view(parsed) == crate::hotkey::selected(read);
                crate::hotkey::law_selected_shortcuts_are_valid(read);
            }
            keys
        },
        Err(_) => default_hotkeys(),
    }
}

/// What the program starts out as, with these preferences.
pub open spec fn launched(
    loaded: crate::load::LoadedView,
    config_available: bool,
    wayland: bool,
) -> AppView {
    AppView {
        timer: crate::timer::TimerView::fresh(),
        settings: loaded.settings,
        config_available,
        status: loaded.status,
        settings_open: false,
        capture: None,
        shortcuts_available: false,
        active: None,
        known_active: Seq::empty(),
        uncertain: Seq::empty(),
        shortcut_state: TransactionState::Inactive,
        viewport: Viewport { last_transparency: None, last_decorations: None },
        config_writes_blocked: loaded.writes_blocked,
        wayland,
    }
}

fn extended_status(status: String, first: &str, second: &str) -> (extended: String)
    ensures
        extended@ == status@ + "; "@ + first@ + second@,
{
    let mut extended = status;
    extended.append("; ");
    extended.append(first);
    extended.append(second);
    extended
}

impl TimerApp {
    /// The program with these preferences, where `error` says why the system
    /// takes no shortcuts.
    pub fn launch_without_shortcuts(
        loaded: LoadedSettings,
        config_available: bool,
        wayland: bool,
        error: &str,
    ) -> (app: TimerApp)
        ensures
            app@ == (AppView {
                status: loaded@.status + "; "@ + "global shortcuts unavailable: "@ + error@,
                ..launched(loaded@, config_available, wayland)
            }),
            app.settings == loaded.settings,
    {
        let (settings, timer) = initial_runtime_state(loaded.settings);
        TimerApp {
            timer,
            settings,
            config_available,
            status: extended_status(loaded.status, "global shortcuts unavailable: ", error),
            settings_open: false,
            capture: None,
            shortcuts_available: false,
            active_shortcuts: None,
            known_active_shortcuts: Vec::new(),
            uncertain_shortcuts: Vec::new(),
            shortcut_state: TransactionState::Inactive,
            viewport: Viewport::new(),
            config_writes_blocked: loaded.writes_blocked,
            wayland,
        }
    }

    /// The program with these preferences, whose shortcuts came out as `startup`
    /// says.
    pub fn launch_with_shortcuts(
        loaded: LoadedSettings,
        config_available: bool,
        wayland: bool,
        startup: ShortcutStartupState,
    ) -> (app: TimerApp)
        ensures
            app@ == (AppView {
                status: loaded@.status + "; "@ + startup.message@,
                shortcuts_available: true,
                active: active_view(startup.active),
                known_active: startup.known_active@,
                uncertain: startup.uncertain@,
                shortcut_state: startup.state,
                ..launched(loaded@, config_available, wayland)
            }),
            app.settings == loaded.settings,
    {
        let (settings, timer) = initial_runtime_state(loaded.settings);
        let app = TimerApp {
            timer,
            settings,
            config_available,
            status: extended_status(loaded.status, startup.message.as_str(), ""),
            settings_open: false,
            capture: None,
            shortcuts_available: true,
            active_shortcuts: startup.active,
            known_active_shortcuts: startup.known_active,
            uncertain_shortcuts: startup.uncertain,
            shortcut_state: startup.state,
            viewport: Viewport::new(),
            config_writes_blocked: loaded.writes_blocked,
            wayland,
        };
        proof {
            reveal_strlit("");
            assert(app@.status =~= loaded@.status + "; "@ + startup.message@);
        }
        app
    }

    /// The program with these preferences, once their shortcuts have been
    /// registered, all four or none.
    pub fn launch<B: ShortcutBackend>(
        loaded: LoadedSettings,
        config_available: bool,
        wayland: bool,
        backend: &mut B,
    ) -> (app: TimerApp)
        ensures
            exists|parsed: Result<[HotKey; 4], String>, keys: [HotKey; 4]|
                {
                    let course = crate::transaction::replacement(
                        Seq::empty(),
                        keys@,
                        crate::transaction::answers_of(
                            crate::transaction::calls_since(
                                old(backend).asked(),
                                final(backend).asked(),
                            ),
                        ),
                    );
                    &&& #[trigger] parses(loaded@.settings.shortcuts, parsed)
                    &&& #[trigger] startup_keys(crate::hotkey::selection_view(parsed), keys@)
                    &&& crate::transaction::took_course(
                        old(backend).asked(),
                        final(backend).asked(),
                        course,
                        course.outcome,
                    )
                    &&& app@ == (AppView {
                        status: loaded@.status + "; "@ + course.outcome.message,
                        shortcuts_available: true,
                        active: if course.outcome.state == TransactionState::NewActive {
                            Some(keys@)
                        } else {
                            None
                        },
                        known_active: course.outcome.known_active,
                        uncertain: course.outcome.uncertain,
                        shortcut_state: course.outcome.state,
                        ..launched(loaded@, config_available, wayland)
                    })
                },
            app.settings == loaded.settings,
    {
        let keys = startup_shortcuts(&loaded.settings);
        let ghost parsed = choose|parsed: Result<[HotKey; 4], String>|
            #[trigger]
            parses(loaded@.settings.shortcuts, parsed) && startup_keys(
                crate::hotkey::selection_view(parsed),
                keys@,
            );
        let startup = initialize_shortcuts(backend, &keys);
        TimerApp::launch_with_shortcuts(loaded, config_available, wayland, startup)
    }
}

/// The shortcuts to release at the end: those known to be registered, and those
/// that may be, one of each identity.
pub open spec fn keys_to_release(known: Seq<HotKey>, uncertain: Seq<HotKey>) -> Seq<HotKey>
    decreases uncertain.len(),
{
    if uncertain.len() == 0 {
        known
    } else {
        let before = keys_to_release(known, uncertain.drop_last());
        if crate::transaction::has_id(before, uncertain.last()@.id) {
            before
        } else {
            before.push(uncertain.last())
        }
    }
}

fn release_list(known: &Vec<HotKey>, uncertain: &Vec<HotKey>) -> (keys: Vec<HotKey>)
    ensures
        keys@ == keys_to_release(known@, uncertain@),
{
    let none: Vec<HotKey> = Vec::new();
    let mut keys = joined(known, &none);
    assert(keys@ =~= known@);
    let mut i: usize = 0;
    assert(uncertain@.take(0) =~= Seq::empty());
    while i < uncertain.len()
        invariant
            i <= uncertain@.len(),
            keys@ == keys_to_release(known@, uncertain@.take(i as int)),
        decreases uncertain@.len() - i,
    {
        assert(uncertain@.take(i + 1).drop_last() =~= uncertain@.take(i as int));
        if !lists_id(&keys, uncertain[i].id()) {
            keys.push(uncertain[i].clone());
        }
        i = i + 1;
    }
    assert(uncertain@.take(i as int) =~= uncertain@);
    keys
}

impl TimerApp {
    /// Releases every shortcut that is or may be registered. Says whether some
    /// may still be.
    pub fn shut_down<B: ShortcutBackend>(&self, backend: &mut B) -> (degraded: bool)
        ensures
            !self@.shortcuts_available ==> !degraded && final(backend).asked() == old(
                backend,
            ).asked(),
            self@.shortcuts_available ==> {
                let before = old(backend).asked();
                let after = final(backend).asked();
                let keys = keys_to_release(self@.known_active, self@.uncertain);
                let answers = crate::transaction::answers_of(
                    crate::transaction::calls_since(before, after),
                );
                &&& crate::transaction::continues(before, after)
                &&& crate::transaction::requests_of(crate::transaction::calls_since(before, after))
                    == crate::transaction::each(crate::transaction::Operation::Unregister, keys)
                &&& degraded == (crate::transaction::failed(keys, answers).len() > 0
                    || self@.shortcut_state == TransactionState::Unknown)
            },
    {
        if !self.shortcuts_available {
            return false;
        }
        let keys = release_list(&self.known_active_shortcuts, &self.uncertain_shortcuts);
        let (refused, _) = release_all(backend, keys.as_slice());
        !refused.is_empty() || self.shortcut_state == TransactionState::Unknown
    }
}

/// The timer and the preferences are apart: no action changes both, the overlay
/// is switched without touching the timer, and the timer is run without touching
/// the preferences.
pub proof fn law_timer_and_settings_are_apart(app: AppView, action: TimerAction, now: nat)
    ensures
        action == TimerAction::ToggleOverlay ==> app.acted(action, now).timer == app.timer,
        action != TimerAction::ToggleOverlay ==> app.acted(action, now) == (AppView {
            timer: app.acted(action, now).timer,
            ..app
        }),
{
}

/// Nothing that the settings window asks for touches the timer.
pub proof fn law_settings_leave_the_timer_alone(
    app: AppView,
    intent: SettingsIntent,
    events: Seq<Event>,
    modifiers: Modifiers,
    parsed: Result<[HotKey; 4], String>,
    before: Seq<crate::transaction::Call>,
    after: Seq<crate::transaction::Call>,
)
    ensures
        app.complied(intent).timer == app.timer,
        app.settled(events, modifiers, parsed, before, after).timer == app.timer,
{
}

/// The overlay comes out the same whether it is switched by its shortcut, by
/// Escape or in the settings window. Entering it by shortcut closes the settings
/// window and gives up a capture; entering it in the settings window does
/// neither.
pub proof fn law_overlay_paths_agree(app: AppView, now: nat)
    ensures
        app.acted(TimerAction::ToggleOverlay, now).settings == app.settings.toggled(),
        app.preferred(PreferenceChange::OverlayMode(!app.settings.overlay_mode)).settings
            == app.settings.toggled(),
        !app.settings.overlay_mode ==> {
            let entered = app.acted(TimerAction::ToggleOverlay, now);
            !entered.settings_open && entered.capture is None
        },
        ({
            let entered = app.preferred(PreferenceChange::OverlayMode(true));
            entered.settings_open == app.settings_open && entered.capture == app.capture
        }),
{
}

/// While a shortcut is being captured, or none is active, no report of the
/// system has any effect.
pub proof fn law_shortcuts_rest_during_capture(app: AppView, event: GlobalHotKeyEvent)
    requires
        app.capture is Some || app.active is None,
    ensures
        app.requested(event) is None,
{
}

/// Closing the settings window gives up a capture, so that shortcuts work again:
/// the one at each place asks for its action.
pub proof fn law_closing_restores_shortcuts(app: AppView, index: int)
    requires
        app.active is Some,
        crate::hotkey::valid_keys(crate::hotkey::keys_view(app.active->0)),
        0 <= index < 4,
    ensures
        app.closed().requested(
            GlobalHotKeyEvent {
                id: app.active->0[index]@.id,
                state: crate::hotkey::HotKeyState::Pressed,
            },
        ) == Some(crate::action::action_at(index)),
{
    let keys = crate::hotkey::keys_view(app.active->0);
    assert(keys[index] == app.active->0[index]@);
    crate::hotkey::law_each_shortcut_has_its_action(keys, index);
}

/// A shortcut that cannot be put into effect leaves the preferences as they
/// were, and one that cannot even be parsed leaves the system unasked and what
/// is registered unchanged.
pub proof fn law_failed_capture_keeps_the_preferences(
    app: AppView,
    events: Seq<Event>,
    modifiers: Modifiers,
    parsed: Result<[HotKey; 4], String>,
    before: Seq<crate::transaction::Call>,
    after: Seq<crate::transaction::Call>,
)
    requires
        app.commits(events, modifiers),
        app.drafted(events, modifiers).asks(parsed, before, after),
        !app.drafted(events, modifiers).replaces(parsed, before, after),
    ensures
        app.settled(events, modifiers, parsed, before, after).settings == app.settings,
        parsed is Err ==> {
            let settled = app.settled(events, modifiers, parsed, before, after);
            &&& after == before
            &&& settled.active == app.active
            &&& settled.known_active == app.known_active
            &&& settled.uncertain == app.uncertain
        },
{
}

/// Preferences of another version are never written over: where saving is
/// blocked, no save is to be performed, whatever is changed.
pub proof fn law_blocked_preferences_are_not_saved(
    app: AppView,
    change: PreferenceChange,
    action: TimerAction,
    now: nat,
)
    requires
        app.config_writes_blocked,
    ensures
        !app.saves(),
        !app.preferred(change).saves(),
        !app.acted(action, now).saves(),
        app.preferred(change).status
            == "Preferences from a newer version kept; save is disabled"@,
{
}

/// Usable preferences stay usable: through every action, through every change
/// that sets no number to what is not one, and through every capture.
pub proof fn law_settings_stay_valid(
    app: AppView,
    action: TimerAction,
    now: nat,
    change: PreferenceChange,
    events: Seq<Event>,
    modifiers: Modifiers,
    parsed: Result<[HotKey; 4], String>,
    before: Seq<crate::transaction::Call>,
    after: Seq<crate::transaction::Call>,
)
    requires
        app.settings.valid(),
        change matches PreferenceChange::GradientAngle(value) ==> !value.nan(),
        change matches PreferenceChange::FontSize(value) ==> !value.nan(),
        app.commits(events, modifiers) ==> app.capture->0.target < 4,
        app.commits(events, modifiers) ==> parses(
            app.drafted(events, modifiers).settings.shortcuts,
            parsed,
        ),
    ensures
        app.acted(action, now).settings.valid(),
        app.preferred(change).settings.valid(),
        app.heard(events, modifiers).settings.valid(),
        app.commits(events, modifiers) ==> app.settled(
            events,
            modifiers,
            parsed,
            before,
            after,
        ).settings.valid(),
{
    crate::settings::law_changes_keep_settings_valid(app.settings, change);
    crate::settings::law_overlay_toggle(app.settings);
    assert(app.acted(action, now).settings == app.settings || app.acted(action, now).settings
        == app.settings.toggled());
    assert(app.settings.shortcuts.len() == 4) by {
        let keys = choose|keys: Seq<crate::hotkey::HotKeyView>| #[trigger]
            crate::hotkey::valid_keys(keys) && app.settings.shortcuts == crate::hotkey::key_texts(
                keys,
            );
        assert(crate::hotkey::key_texts(keys).len() == keys.len());
    }
    if app.commits(events, modifiers) && parsed is Ok {
        let keys = parsed->Ok_0;
        let drafts = app.drafted(events, modifiers).settings.shortcuts;
        let read = choose|read: Seq<Result<crate::hotkey::HotKeyView, Seq<char>>>|
            #[trigger]
            crate::hotkey::reads(drafts, read) && crate::hotkey::selection_view(parsed)
                == crate::hotkey::selected(read);
        crate::hotkey::law_selected_shortcuts_are_valid(read);
        assert(crate::hotkey::valid_keys(crate::hotkey::keys_view(keys@)));
        assert(crate::hotkey::canonical(
            crate::hotkey::key_texts(crate::hotkey::keys_view(keys@)),
        ));
    }
}

/// The shortcuts of usable preferences can always be tried: their texts parse as
/// shortcuts that have exactly these texts, so that a restart brings the same
/// shortcuts back.
pub proof fn law_usable_shortcuts_parse(
    settings: crate::settings::SettingsView,
    parsed: Result<[HotKey; 4], String>,
)
    requires
        settings.valid(),
        parses(settings.shortcuts, parsed),
    ensures
        parsed is Ok,
        crate::hotkey::key_texts(crate::hotkey::keys_view(parsed->Ok_0@)) == settings.shortcuts,
        crate::hotkey::valid_keys(crate::hotkey::keys_view(parsed->Ok_0@)),
{
    let keys = choose|keys: Seq<crate::hotkey::HotKeyView>| #[trigger]
        crate::hotkey::valid_keys(keys) && settings.shortcuts == crate::hotkey::key_texts(keys);
    crate::hotkey::law_canonical_texts_read_back(keys, true);
}

} // verus!
