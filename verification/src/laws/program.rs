//! What the program makes of each input, said of the parts of its state.

use crate::action::TimerAction;
use crate::hotkey::{GlobalHotKeyEvent, HotKey, HotKeyState};
use crate::keys::{Event, Modifiers};
use crate::settings::PreferenceChange;
use crate::surface::SettingsIntent;
use crate::timer_app::AppView;
use crate::transaction::TransactionState;
use vstd::prelude::*;

verus! {

/// Launching keeps every preference that was loaded, field for field, and
/// whether they may be saved. The timer stands at nothing, the settings window
/// is closed, and no shortcut is active or known to be registered.
pub proof fn law_launching_keeps_every_preference(
    loaded: crate::load::LoadedView,
    config_available: bool,
    wayland: bool,
    now: nat,
)
    ensures
        ({
            let app = crate::timer_app::launched(loaded, config_available, wayland);
            let settings = loaded.settings;
            let look = settings.appearance;
            &&& app.settings.show_milliseconds == settings.show_milliseconds
            &&& app.settings.fractional_digits == settings.fractional_digits
            &&& app.settings.overlay_mode == settings.overlay_mode
            &&& app.settings.shortcuts == settings.shortcuts
            &&& app.settings.appearance.text_color == look.text_color
            &&& app.settings.appearance.gradient == look.gradient
            &&& app.settings.appearance.gradient_end == look.gradient_end
            &&& app.settings.appearance.gradient_angle == look.gradient_angle
            &&& app.settings.appearance.chroma_key == look.chroma_key
            &&& app.settings.appearance.native_transparency == look.native_transparency
            &&& app.settings.appearance.font_size == look.font_size
            &&& app.config_available == config_available
            &&& app.config_writes_blocked == loaded.writes_blocked
            &&& app.wayland == wayland
            &&& app.timer.started_at is None
            &&& app.timer.elapsed(now) == 0
            &&& !app.settings_open
            &&& app.capture is None
            &&& app.active is None
            &&& app.known_active.len() == 0
            &&& app.uncertain.len() == 0
            &&& app.shortcut_state == TransactionState::Inactive
            &&& app.viewport.last_transparency is None
            &&& app.viewport.last_decorations is None
        }),
{
}

/// Whenever shortcuts are active and no capture is under way, whatever else the
/// state is, a press of the first asks to start, of the second to stop, of the
/// third to reset and of the fourth to switch the overlay. Letting one go asks
/// for nothing, and neither does a shortcut that is not among them.
pub proof fn law_active_shortcuts_ask_for_their_actions(app: AppView, id: u32)
    requires
        app.capture is None,
        app.active is Some,
        app.active->0.len() == 4,
        forall|i: int, j: int|
            0 <= i < j < 4 ==> (#[trigger] app.active->0[i])@.id != (#[trigger] app.active->0[j])@.id,
    ensures
        ({
            let keys = app.active->0;
            let pressed = HotKeyState::Pressed;
            &&& app.requested(GlobalHotKeyEvent { id: keys[0]@.id, state: pressed }) == Some(
                TimerAction::Start,
            )
            &&& app.requested(GlobalHotKeyEvent { id: keys[1]@.id, state: pressed }) == Some(
                TimerAction::Stop,
            )
            &&& app.requested(GlobalHotKeyEvent { id: keys[2]@.id, state: pressed }) == Some(
                TimerAction::Reset,
            )
            &&& app.requested(GlobalHotKeyEvent { id: keys[3]@.id, state: pressed }) == Some(
                TimerAction::ToggleOverlay,
            )
            &&& app.requested(GlobalHotKeyEvent { id, state: HotKeyState::Released }) is None
            &&& id != keys[0]@.id && id != keys[1]@.id && id != keys[2]@.id && id != keys[3]@.id
                ==> app.requested(GlobalHotKeyEvent { id, state: pressed }) is None
        }),
{
    let views = crate::hotkey::keys_view(app.active->0);
    assert(views[0] == app.active->0[0]@);
    assert(views[1] == app.active->0[1]@);
    assert(views[2] == app.active->0[2]@);
    assert(views[3] == app.active->0[3]@);
}

/// Nothing but the active shortcuts, and whether a capture is under way, bears on
/// what a report of the system asks for.
pub proof fn law_requests_rest_on_the_shortcuts_alone(
    app: AppView,
    other: AppView,
    event: GlobalHotKeyEvent,
)
    requires
        app.active == other.active,
        app.capture is Some == other.capture is Some,
    ensures
        app.requested(event) == other.requested(event),
{
}

/// Through the program's actions, runs add up: a timer that is started, stopped
/// and started again reads what it read before, and both runs, and no pause.
pub proof fn law_runs_add_up_through_actions(
    app: AppView,
    a: nat,
    b: nat,
    c: nat,
    d: nat,
    before: nat,
)
    requires
        !app.timer.running(),
        a <= b <= c <= d,
    ensures
        ({
            let first = app.acted(TimerAction::Start, a);
            let paused = first.acted(TimerAction::Stop, b);
            let second = paused.acted(TimerAction::Start, c);
            let stopped = second.acted(TimerAction::Stop, d);
            &&& first.timer.elapsed(b) == app.timer.elapsed(before) + (b - a)
            &&& paused.timer.elapsed(c) == app.timer.elapsed(before) + (b - a)
            &&& second.timer.elapsed(d) == app.timer.elapsed(before) + (b - a) + (d - c)
            &&& stopped.timer.elapsed(before) == app.timer.elapsed(before) + (b - a) + (d - c)
            &&& first.timer.running() && !paused.timer.running()
            &&& second.timer.running() && !stopped.timer.running()
        }),
{
}

/// What each action does to the timer, whatever it was before: starting makes it
/// run and leaves what it reads; stopping stops it and leaves what it reads for
/// good; resetting stops it at nothing; the overlay is none of its business.
pub proof fn law_actions_on_the_timer(app: AppView, now: nat, later: nat)
    requires
        now <= later,
    ensures
        app.acted(TimerAction::Start, now).timer.running(),
        app.acted(TimerAction::Start, now).timer.elapsed(now) == app.timer.elapsed(now),
        app.timer.running() ==> app.acted(TimerAction::Start, now).timer.elapsed(later)
            == app.timer.elapsed(later),
        !app.timer.running() ==> app.acted(TimerAction::Start, now).timer.elapsed(later)
            == app.timer.elapsed(now) + (later - now),
        !app.acted(TimerAction::Stop, now).timer.running(),
        app.acted(TimerAction::Stop, now).timer.elapsed(later) == app.timer.elapsed(now),
        !app.acted(TimerAction::Reset, now).timer.running(),
        app.acted(TimerAction::Reset, now).timer.elapsed(later) == 0,
        app.acted(TimerAction::ToggleOverlay, now).timer.elapsed(later) == app.timer.elapsed(
            later,
        ),
        app.acted(TimerAction::ToggleOverlay, now).timer.running() == app.timer.running(),
{
}

/// Starting, stopping and resetting touch nothing but the timer.
pub proof fn law_timer_actions_touch_the_timer_alone(app: AppView, action: TimerAction, now: nat)
    requires
        action != TimerAction::ToggleOverlay,
    ensures
        ({
            let after = app.acted(action, now);
            &&& after.settings == app.settings
            &&& after.config_available == app.config_available
            &&& after.status == app.status
            &&& after.settings_open == app.settings_open
            &&& after.capture == app.capture
            &&& after.shortcuts_available == app.shortcuts_available
            &&& after.active == app.active
            &&& after.known_active == app.known_active
            &&& after.uncertain == app.uncertain
            &&& after.shortcut_state == app.shortcut_state
            &&& after.viewport == app.viewport
            &&& after.config_writes_blocked == app.config_writes_blocked
            &&& after.wayland == app.wayland
        }),
{
}

/// Setting the overlay sets it, keeps every other preference, and touches nothing
/// else but the line of status, and that only where saving is blocked. On
/// entering it the settings window is closed where that is asked for; on leaving
/// it never is.
pub proof fn law_overlay_is_all_that_is_set(app: AppView, desired: bool, close: bool)
    ensures
        ({
            let after = app.transitioned(desired, close);
            &&& after.settings.overlay_mode == desired
            &&& after.settings.show_milliseconds == app.settings.show_milliseconds
            &&& after.settings.fractional_digits == app.settings.fractional_digits
            &&& after.settings.appearance == app.settings.appearance
            &&& after.settings.shortcuts == app.settings.shortcuts
            &&& after.timer == app.timer
            &&& after.config_available == app.config_available
            &&& after.shortcuts_available == app.shortcuts_available
            &&& after.active == app.active
            &&& after.known_active == app.known_active
            &&& after.uncertain == app.uncertain
            &&& after.shortcut_state == app.shortcut_state
            &&& after.viewport == app.viewport
            &&& after.config_writes_blocked == app.config_writes_blocked
            &&& after.wayland == app.wayland
            &&& !app.config_writes_blocked ==> after.status == app.status
            &&& desired && close ==> !after.settings_open && after.capture is None
            &&& !(desired && close) ==> after.settings_open == app.settings_open && after.capture
                == app.capture
        }),
{
}

/// Switching the overlay by an action turns it the other way and closes the
/// settings window on entering it; a second time turns it back.
pub proof fn law_overlay_action_turns_it_the_other_way(app: AppView, now: nat, later: nat)
    ensures
        ({
            let once = app.acted(TimerAction::ToggleOverlay, now);
            let twice = once.acted(TimerAction::ToggleOverlay, later);
            &&& once.settings.overlay_mode == !app.settings.overlay_mode
            &&& once.settings.show_milliseconds == app.settings.show_milliseconds
            &&& once.settings.fractional_digits == app.settings.fractional_digits
            &&& once.settings.appearance == app.settings.appearance
            &&& once.settings.shortcuts == app.settings.shortcuts
            &&& once.timer == app.timer
            &&& once.config_available == app.config_available
            &&& once.shortcuts_available == app.shortcuts_available
            &&& once.active == app.active
            &&& once.known_active == app.known_active
            &&& once.uncertain == app.uncertain
            &&& once.shortcut_state == app.shortcut_state
            &&& once.viewport == app.viewport
            &&& once.config_writes_blocked == app.config_writes_blocked
            &&& once.wayland == app.wayland
            &&& twice.settings == app.settings
            &&& !app.settings.overlay_mode ==> !once.settings_open && once.capture is None
            &&& app.settings.overlay_mode ==> once.settings_open == app.settings_open
                && once.capture == app.capture
        }),
{
}

/// Closing the settings window closes it, gives up a capture, and touches nothing
/// else.
pub proof fn law_closing_touches_the_window_alone(app: AppView)
    ensures
        ({
            let after = app.closed();
            &&& !after.settings_open
            &&& after.capture is None
            &&& after.timer == app.timer
            &&& after.settings == app.settings
            &&& after.config_available == app.config_available
            &&& after.status == app.status
            &&& after.shortcuts_available == app.shortcuts_available
            &&& after.active == app.active
            &&& after.known_active == app.known_active
            &&& after.uncertain == app.uncertain
            &&& after.shortcut_state == app.shortcut_state
            &&& after.viewport == app.viewport
            &&& after.config_writes_blocked == app.config_writes_blocked
            &&& after.wayland == app.wayland
        }),
{
}

/// A save is to be performed exactly where there is a place for the preferences
/// and what is there may be written over. Asking for it changes nothing but the
/// line of status, which then says that saving is disabled, and that only where
/// it is.
pub proof fn law_asking_to_save(app: AppView)
    ensures
        app.saves() <==> (app.config_available && !app.config_writes_blocked),
        ({
            let after = app.asked_to_save();
            &&& app.config_writes_blocked ==> after.status
                == "Preferences from a newer version kept; save is disabled"@
            &&& !app.config_writes_blocked ==> after.status == app.status
            &&& after.timer == app.timer
            &&& after.settings == app.settings
            &&& after.config_available == app.config_available
            &&& after.settings_open == app.settings_open
            &&& after.capture == app.capture
            &&& after.shortcuts_available == app.shortcuts_available
            &&& after.active == app.active
            &&& after.known_active == app.known_active
            &&& after.uncertain == app.uncertain
            &&& after.shortcut_state == app.shortcut_state
            &&& after.viewport == app.viewport
            &&& after.config_writes_blocked == app.config_writes_blocked
            &&& after.wayland == app.wayland
        }),
{
}

/// A changed preference is kept: the program has the preference as the change
/// makes it, and everything but the preferences stays, and the line of status
/// where saving is not blocked.
pub proof fn law_changed_preferences_are_kept(app: AppView, change: PreferenceChange)
    ensures
        ({
            let after = app.preferred(change);
            &&& after.settings == app.settings.changed(change)
            &&& !app.config_writes_blocked ==> after.status == app.status
            &&& after.timer == app.timer
            &&& after.config_available == app.config_available
            &&& after.settings_open == app.settings_open
            &&& after.capture == app.capture
            &&& after.shortcuts_available == app.shortcuts_available
            &&& after.active == app.active
            &&& after.known_active == app.known_active
            &&& after.uncertain == app.uncertain
            &&& after.shortcut_state == app.shortcut_state
            &&& after.viewport == app.viewport
            &&& after.config_writes_blocked == app.config_writes_blocked
            &&& after.wayland == app.wayland
        }),
{
}

/// What the settings window asks for is done and nothing else: a capture begins
/// with nothing pressed, and preferences, timer and shortcuts are untouched by
/// beginning one.
pub proof fn law_capture_begins_with_nothing_pressed(app: AppView, target: usize)
    ensures
        ({
            let after = app.complied(SettingsIntent::CaptureRequested(target));
            &&& after.capture is Some
            &&& after.capture->0.target == target
            &&& after.capture->0.primary is None
            &&& after.capture->0.invalid is None
            &&& !after.capture->0.modifiers.shift && !after.capture->0.modifiers.control
            &&& !after.capture->0.modifiers.alt && !after.capture->0.modifiers.super_key
            &&& forall|key: crate::keys::Key| !(#[trigger] after.capture->0.held.contains(key))
            &&& after.status == "Listening… release all keys; Escape cancels"@
            &&& after.timer == app.timer
            &&& after.settings == app.settings
            &&& after.config_available == app.config_available
            &&& after.settings_open == app.settings_open
            &&& after.shortcuts_available == app.shortcuts_available
            &&& after.active == app.active
            &&& after.known_active == app.known_active
            &&& after.uncertain == app.uncertain
            &&& after.shortcut_state == app.shortcut_state
            &&& after.viewport == app.viewport
            &&& after.config_writes_blocked == app.config_writes_blocked
            &&& after.wayland == app.wayland
        }),
{
}

/// Closing and changing a preference from the settings window do what closing and
/// changing do.
pub proof fn law_intents_are_complied_with(app: AppView, change: PreferenceChange)
    ensures
        !app.complied(SettingsIntent::Close).settings_open,
        app.complied(SettingsIntent::Close).capture is None,
        app.complied(SettingsIntent::Close).settings == app.settings,
        app.complied(SettingsIntent::Close).status == app.status,
        app.complied(SettingsIntent::Preference(change)).settings == app.settings.changed(change),
        app.complied(SettingsIntent::Preference(change)).settings_open == app.settings_open,
        app.complied(SettingsIntent::Preference(change)).capture == app.capture,
{
}

/// While a capture goes on, events change nothing but the capture. Where it ends
/// without a shortcut it is over, the line of status says so, and nothing else
/// has changed.
pub proof fn law_unfinished_captures_change_nothing_else(
    app: AppView,
    events: Seq<Event>,
    modifiers: Modifiers,
)
    requires
        !app.commits(events, modifiers),
    ensures
        ({
            let after = app.heard(events, modifiers);
            let ended = app.capture is Some && !(app.capture_outcome(
                events,
                modifiers,
            ) is Continue);
            &&& app.capture is None ==> after == app
            &&& ended ==> after.capture is None
            &&& ended && app.capture_outcome(events, modifiers) is Cancelled ==> after.status
                == "Capture cancelled"@
            &&& ended ==> (app.capture_outcome(
                events,
                modifiers,
            ) matches crate::capture::CaptureResultView::Rejected(error) ==> after.status
                == "Capture rejected: "@ + error)
            &&& app.capture is Some && !ended ==> after.capture == Some(
                crate::capture::after_events(app.capture->0, events).0,
            ) && after.status == app.status
            &&& after.timer == app.timer
            &&& after.settings == app.settings
            &&& after.config_available == app.config_available
            &&& after.settings_open == app.settings_open
            &&& after.shortcuts_available == app.shortcuts_available
            &&& after.active == app.active
            &&& after.known_active == app.known_active
            &&& after.uncertain == app.uncertain
            &&& after.shortcut_state == app.shortcut_state
            &&& after.viewport == app.viewport
            &&& after.config_writes_blocked == app.config_writes_blocked
            &&& after.wayland == app.wayland
        }),
{
}

/// The program hears a capture out: what its capture comes to is what the events
/// and the modifiers held after them come to.
pub proof fn law_program_hears_its_capture_out(
    app: AppView,
    events: Vec<Event>,
    modifiers: Modifiers,
)
    requires
        app.capture is Some,
    ensures
        ({
            let outcome = crate::capture::outcome_of_events(app.capture->0, events@, modifiers);
            let intent = SettingsIntent::CaptureEvents(events, modifiers);
            &&& app.commits(events@, modifiers) <==> outcome is Committed
            &&& app.completes(intent) <==> outcome is Committed
            &&& app.capture_outcome(events@, modifiers) == outcome
            &&& outcome is Continue ==> app.complied(intent).capture is Some
            &&& outcome is Cancelled || outcome is Rejected ==> app.complied(intent).capture is None
            &&& app.complied(intent).settings == app.settings
            &&& app.complied(intent).active == app.active
        }),
{
}

/// Putting shortcuts into effect begins with releasing every shortcut that is
/// known to be registered and then every one that may be. Where the system
/// accepts everything, and only there, the new ones are in effect.
pub proof fn law_new_shortcuts_replace_everything_owned(
    app: AppView,
    keys: [HotKey; 4],
    before: Seq<crate::transaction::Call>,
    calls: Seq<crate::transaction::Call>,
)
    requires
        app.shortcuts_available,
        app.asks(Ok(keys), before, before + calls),
    ensures
        ({
            let known = app.known_active.len() as int;
            let maybe = app.uncertain.len() as int;
            let parsed = Ok::<[HotKey; 4], String>(keys);
            let accepted = forall|i: int|
                0 <= i < calls.len() ==> (#[trigger] calls[i]).answer is Ok;
            &&& calls.len() >= known + maybe
            &&& forall|i: int|
                0 <= i < known ==> (#[trigger] calls[i]).request.operation
                    == crate::transaction::Operation::Unregister && calls[i].request.key
                    == app.known_active[i]
            &&& forall|i: int|
                known <= i < known + maybe ==> (#[trigger] calls[i]).request.operation
                    == crate::transaction::Operation::Unregister && calls[i].request.key
                    == app.uncertain[i - known]
            &&& accepted <==> app.replaces(parsed, before, before + calls)
            &&& accepted ==> app.tried(parsed, before, before + calls).active == Some(keys@)
            &&& accepted ==> app.tried(parsed, before, before + calls).known_active == keys@
            &&& accepted ==> calls.len() == known + maybe + 4
        }),
{
    let previous = app.known_active + app.uncertain;
    let after = before + calls;
    assert(crate::transaction::calls_since(before, after) =~= calls);
    let answers = crate::transaction::answers_of(calls);
    let course = crate::transaction::replacement(previous, keys@, answers);
    let requests = crate::transaction::requests_of(calls);
    assert(requests == course.requests);
    assert(answers.len() == requests.len());
    crate::laws::transaction::law_previous_shortcuts_are_released_first(previous, keys@, answers);
    let first = course.requests.take(previous.len() as int);
    assert forall|i: int| 0 <= i < previous.len() implies (#[trigger] calls[i]).request
        == (crate::transaction::Request {
        operation: crate::transaction::Operation::Unregister,
        key: previous[i],
    }) by {
        assert(requests[i] == calls[i].request);
        assert(first[i] == requests[i]);
        assert(crate::laws::transaction::releases(previous)[i] == first[i]);
    }
    crate::ownership::law_new_shortcuts_are_active_where_all_is_accepted(
        previous,
        keys@,
        answers,
    );
    assert((forall|i: int| 0 <= i < calls.len() ==> (#[trigger] calls[i]).answer is Ok)
        <==> forall|i: int| 0 <= i < answers.len() ==> (#[trigger] answers[i]) is Ok) by {
        if forall|i: int| 0 <= i < answers.len() ==> (#[trigger] answers[i]) is Ok {
            assert forall|i: int| 0 <= i < calls.len() implies (
            #[trigger] calls[i]).answer is Ok by {
                assert(answers[i] is Ok);
            }
        }
    }
    if course.outcome.state == TransactionState::NewActive {
        assert(course.requests.len() == previous.len() + 4);
        crate::laws::transaction::law_accepted_shortcuts_are_applied(previous, keys@, answers);
    }
}

/// A capture that came to a shortcut is over, whether or not the shortcut could
/// be put into effect. Where it could not, the line of status says why, and what
/// is registered is what trying it left.
pub proof fn law_committed_captures_are_over(
    app: AppView,
    events: Seq<Event>,
    modifiers: Modifiers,
    parsed: Result<[HotKey; 4], String>,
    before: Seq<crate::transaction::Call>,
    after: Seq<crate::transaction::Call>,
)
    requires
        app.commits(events, modifiers),
    ensures
        ({
            let draft = app.drafted(events, modifiers);
            let settled = app.settled(events, modifiers, parsed, before, after);
            let replaced = draft.replaces(parsed, before, after);
            let course = crate::transaction::replacement(
                app.known_active + app.uncertain,
                parsed->Ok_0@,
                crate::transaction::answers_of(crate::transaction::calls_since(before, after)),
            );
            &&& settled.capture is None
            &&& !replaced ==> settled.settings.shortcuts == app.settings.shortcuts
            &&& parsed matches Err(message) ==> settled.status == message@ && !replaced
            &&& parsed is Ok && !app.shortcuts_available ==> settled.status
                == "Global shortcuts unavailable; local controls remain active"@ && !replaced
            &&& parsed is Ok && app.shortcuts_available ==> {
                &&& replaced <==> course.outcome.state == TransactionState::NewActive
                &&& !replaced ==> settled.status == course.outcome.message
                &&& settled.known_active == course.outcome.known_active
                &&& settled.uncertain == course.outcome.uncertain
                &&& settled.shortcut_state == course.outcome.state
            }
            &&& parsed is Err || !app.shortcuts_available ==> {
                &&& settled.active == app.active
                &&& settled.known_active == app.known_active
                &&& settled.uncertain == app.uncertain
                &&& settled.shortcut_state == app.shortcut_state
            }
            &&& settled.settings.show_milliseconds == app.settings.show_milliseconds
            &&& settled.settings.fractional_digits == app.settings.fractional_digits
            &&& settled.settings.overlay_mode == app.settings.overlay_mode
            &&& settled.settings.appearance == app.settings.appearance
            &&& settled.timer == app.timer
            &&& settled.config_available == app.config_available
            &&& settled.settings_open == app.settings_open
            &&& settled.shortcuts_available == app.shortcuts_available
            &&& settled.viewport == app.viewport
            &&& settled.config_writes_blocked == app.config_writes_blocked
            &&& settled.wayland == app.wayland
        }),
{
}

/// What replacing the shortcuts comes to. Where the new ones are registered they
/// are the active ones, and the preferences hold their texts. Otherwise the
/// preferences stay, and shortcuts are active only where four are known to be
/// registered as before: exactly those. Nothing else is touched.
pub proof fn law_replaced_shortcuts_are_active(
    app: AppView,
    keys: Seq<HotKey>,
    outcome: crate::transaction::TransactionView,
)
    ensures
        ({
            let after = app.after_transaction(keys, outcome);
            &&& after.known_active == outcome.known_active
            &&& after.uncertain == outcome.uncertain
            &&& after.shortcut_state == outcome.state
            &&& outcome.state == TransactionState::NewActive ==> {
                &&& after.active == Some(keys)
                &&& after.settings.shortcuts.len() == keys.len()
                &&& forall|i: int|
                    0 <= i < keys.len() ==> #[trigger] after.settings.shortcuts[i]
                        == crate::hotkey::chord_text(keys[i]@.mods, keys[i]@.key)
                &&& !app.config_writes_blocked ==> after.status == app.status
            }
            &&& outcome.state != TransactionState::NewActive ==> {
                &&& after.settings.shortcuts == app.settings.shortcuts
                &&& after.status == outcome.message
            }
            &&& outcome.state == TransactionState::PreviousActive && outcome.known_active.len()
                == 4 ==> after.active == Some(outcome.known_active)
            &&& outcome.state == TransactionState::PreviousActive && outcome.known_active.len()
                != 4 ==> after.active is None
            &&& outcome.state == TransactionState::Inactive || outcome.state
                == TransactionState::Unknown ==> after.active is None
            &&& after.settings.show_milliseconds == app.settings.show_milliseconds
            &&& after.settings.fractional_digits == app.settings.fractional_digits
            &&& after.settings.overlay_mode == app.settings.overlay_mode
            &&& after.settings.appearance == app.settings.appearance
            &&& after.timer == app.timer
            &&& after.config_available == app.config_available
            &&& after.settings_open == app.settings_open
            &&& after.capture == app.capture
            &&& after.shortcuts_available == app.shortcuts_available
            &&& after.viewport == app.viewport
            &&& after.config_writes_blocked == app.config_writes_blocked
            &&& after.wayland == app.wayland
        }),
{
}

/// Shortcuts that cannot be parsed, or that the system does not take, are not
/// tried: nothing changes but the line of status, which says why.
pub proof fn law_shortcuts_that_cannot_serve_are_not_tried(
    app: AppView,
    parsed: Result<[HotKey; 4], String>,
    before: Seq<crate::transaction::Call>,
    after: Seq<crate::transaction::Call>,
)
    requires
        parsed is Err || !app.shortcuts_available,
    ensures
        ({
            let tried = app.tried(parsed, before, after);
            &&& parsed matches Err(message) ==> tried.status == message@
            &&& parsed is Ok ==> tried.status
                == "Global shortcuts unavailable; local controls remain active"@
            &&& !app.replaces(parsed, before, after)
            &&& app.asks(parsed, before, after) ==> after == before
            &&& tried.timer == app.timer
            &&& tried.settings == app.settings
            &&& tried.config_available == app.config_available
            &&& tried.settings_open == app.settings_open
            &&& tried.capture == app.capture
            &&& tried.shortcuts_available == app.shortcuts_available
            &&& tried.active == app.active
            &&& tried.known_active == app.known_active
            &&& tried.uncertain == app.uncertain
            &&& tried.shortcut_state == app.shortcut_state
            &&& tried.viewport == app.viewport
            &&& tried.config_writes_blocked == app.config_writes_blocked
            &&& tried.wayland == app.wayland
        }),
{
}

/// A captured shortcut that is put into effect takes its own place and no other:
/// its text replaces the one at the target, the other three stay, and the four
/// are the active ones.
pub proof fn law_captured_shortcut_takes_its_place(
    app: AppView,
    events: Seq<Event>,
    modifiers: Modifiers,
    key: crate::hotkey::HotKeyView,
    parsed: Result<[HotKey; 4], String>,
    before: Seq<crate::transaction::Call>,
    after: Seq<crate::transaction::Call>,
)
    requires
        app.settings.valid(),
        app.commits(events, modifiers),
        app.capture->0.target < 4,
        key.wf(),
        app.capture_outcome(events, modifiers) == crate::capture::CaptureResultView::Committed(
            key.mods,
            key.key,
        ),
        parses(app, events, modifiers, parsed),
        app.drafted(events, modifiers).replaces(parsed, before, after),
    ensures
        ({
            let settled = app.settled(events, modifiers, parsed, before, after);
            let target = app.capture->0.target as int;
            &&& settled.settings.shortcuts.len() == 4
            &&& settled.settings.shortcuts[target] == key.text()
            &&& forall|i: int|
                0 <= i < 4 && i != target ==> #[trigger] settled.settings.shortcuts[i]
                    == app.settings.shortcuts[i]
            &&& settled.active == Some(parsed->Ok_0@)
            &&& settled.active->0[target]@ == key
            &&& settled.capture is None
            &&& settled.settings.show_milliseconds == app.settings.show_milliseconds
            &&& settled.settings.fractional_digits == app.settings.fractional_digits
            &&& settled.settings.overlay_mode == app.settings.overlay_mode
            &&& settled.settings.appearance == app.settings.appearance
            &&& settled.timer == app.timer
            &&& settled.config_available == app.config_available
            &&& settled.settings_open == app.settings_open
            &&& settled.shortcuts_available == app.shortcuts_available
            &&& settled.viewport == app.viewport
            &&& settled.config_writes_blocked == app.config_writes_blocked
            &&& settled.wayland == app.wayland
        }),
{
    let target = app.capture->0.target as int;
    let drafts = app.drafted(events, modifiers).settings.shortcuts;
    let old_keys = choose|keys: Seq<crate::hotkey::HotKeyView>| #[trigger]
        crate::hotkey::valid_keys(keys) && app.settings.shortcuts == crate::hotkey::key_texts(keys);
    assert(app.settings.shortcuts.len() == 4);
    let read = choose|read: Seq<Result<crate::hotkey::HotKeyView, Seq<char>>>| #[trigger]
        crate::hotkey::reads(drafts, read) && crate::hotkey::selection_view(parsed)
            == crate::hotkey::selected(read);
    crate::hotkey::law_selected_shortcuts_are_valid(read);
    let views = crate::hotkey::keys_view(parsed->Ok_0@);
    let texts = crate::hotkey::key_texts(views);
    assert forall|i: int| 0 <= i < 4 implies #[trigger] texts[i] == drafts[i] by {
        assert(crate::hotkey::text_reads(drafts[i], read[i]));
        assert(read[i] == Ok::<crate::hotkey::HotKeyView, Seq<char>>(views[i]));
        if i != target {
            assert(drafts[i] == app.settings.shortcuts[i]);
            assert(old_keys[i].wf());
        }
    }
    assert(texts[target] == drafts[target]);
    assert(crate::hotkey::text_reads(drafts[target], read[target]));
    assert(read[target] == Ok::<crate::hotkey::HotKeyView, Seq<char>>(views[target]));
    assert(views[target] == parsed->Ok_0@[target]@);
}

/// Whether `parsed` can be what the texts of a draft are parsed as.
pub open spec fn parses(
    app: AppView,
    events: Seq<Event>,
    modifiers: Modifiers,
    parsed: Result<[HotKey; 4], String>,
) -> bool {
    crate::timer_app::parses(app.drafted(events, modifiers).settings.shortcuts, parsed)
}

/// The shortcuts that are registered at the start are those of the preferences,
/// text for text, where these are usable, and the default ones where their texts
/// cannot be parsed.
pub proof fn law_startup_takes_the_shortcuts_of_the_preferences(
    settings: crate::settings::SettingsView,
    parsed: Result<[HotKey; 4], String>,
    keys: Seq<HotKey>,
)
    requires
        crate::timer_app::parses(settings.shortcuts, parsed),
        crate::timer_app::startup_keys(crate::hotkey::selection_view(parsed), keys),
    ensures
        settings.valid() ==> crate::hotkey::key_texts(crate::hotkey::keys_view(keys))
            == settings.shortcuts,
        parsed matches Ok(parsed_keys) ==> crate::hotkey::keys_view(keys)
            == crate::hotkey::keys_view(parsed_keys@),
        parsed is Err ==> crate::hotkey::key_texts(crate::hotkey::keys_view(keys)) == seq![
            "control+alt+KeyS"@,
            "control+alt+KeyT"@,
            "control+alt+KeyR"@,
            "control+alt+KeyO"@,
        ],
{
    if settings.valid() {
        crate::timer_app::law_usable_shortcuts_parse(settings, parsed);
    }
}

/// The settings window shows the preferences, the line of status and the capture
/// of the program once it is brought up to date, and nothing else of it changes.
/// Closed, it shows no capture.
pub proof fn law_window_shows_the_program(surface: crate::surface::SurfaceView, app: AppView)
    ensures
        crate::timer_app::refreshed(surface, app).settings == app.settings,
        crate::timer_app::refreshed(surface, app).status == app.status,
        crate::timer_app::refreshed(surface, app).capture == app.capture,
        crate::timer_app::refreshed(surface, app).wayland == surface.wayland,
        crate::timer_app::surface_closed(surface).capture is None,
        crate::timer_app::surface_closed(surface).settings == surface.settings,
        crate::timer_app::surface_closed(surface).status == surface.status,
        crate::timer_app::surface_closed(surface).wayland == surface.wayland,
{
}

/// At the end every shortcut that is known to be registered is released, and one
/// of each identity that may be; nothing else is.
pub proof fn law_everything_owned_is_released(known: Seq<HotKey>, uncertain: Seq<HotKey>)
    ensures
        ({
            let keys = crate::timer_app::keys_to_release(known, uncertain);
            &&& keys.len() >= known.len()
            &&& keys.take(known.len() as int) == known
            &&& forall|i: int|
                0 <= i < uncertain.len() ==> exists|k: int|
                    0 <= k < keys.len() && (#[trigger] keys[k])@.id == (#[trigger] uncertain[i])@.id
            &&& forall|i: int|
                known.len() <= i < keys.len() ==> uncertain.contains(#[trigger] keys[i])
            &&& forall|i: int, j: int|
                0 <= i < j < keys.len() && known.len() <= j ==> (#[trigger] keys[i])@.id != (
                #[trigger] keys[j])@.id
        }),
    decreases uncertain.len(),
{
    let keys = crate::timer_app::keys_to_release(known, uncertain);
    if uncertain.len() == 0 {
        assert(keys.take(known.len() as int) =~= known);
    } else {
        let fewer = uncertain.drop_last();
        let before = crate::timer_app::keys_to_release(known, fewer);
        law_everything_owned_is_released(known, fewer);
        let last = uncertain.last();
        assert(keys.take(known.len() as int) =~= before.take(known.len() as int));
        assert forall|i: int| 0 <= i < uncertain.len() implies exists|k: int|
            0 <= k < keys.len() && (#[trigger] keys[k])@.id == (#[trigger] uncertain[i])@.id by {
            if i < fewer.len() {
                assert(uncertain[i] == fewer[i]);
                let k = choose|k: int| 0 <= k < before.len() && (#[trigger] before[k])@.id
                    == fewer[i]@.id;
                assert(keys[k] == before[k]);
            } else if crate::transaction::has_id(before, last@.id) {
                let k = choose|k: int| 0 <= k < before.len() && (#[trigger] before[k])@.id
                    == last@.id;
                assert(keys[k] == before[k]);
            } else {
                assert(keys[before.len() as int] == last);
            }
        }
        assert forall|i: int| known.len() <= i < keys.len() implies uncertain.contains(
            #[trigger] keys[i],
        ) by {
            if i < before.len() {
                assert(fewer.contains(before[i]));
                let k = choose|k: int| 0 <= k < fewer.len() && fewer[k] == before[i];
                assert(uncertain[k] == keys[i]);
            } else {
                assert(uncertain[uncertain.len() - 1] == keys[i]);
            }
        }
        assert forall|i: int, j: int|
            0 <= i < j < keys.len() && known.len() <= j implies (#[trigger] keys[i])@.id != (
        #[trigger] keys[j])@.id by {
            if j < before.len() {
                assert(before[i]@.id != before[j]@.id);
            } else {
                assert(before[i] == keys[i]);
            }
        }
    }
}

} // verus!
