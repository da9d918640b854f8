//! What a capture comes to, said of the events that it heard of.

use crate::capture::{CaptureResultView, CaptureView};
use crate::hotkey::HotKeyModifiers;
use crate::keys::{Event, Key, KeyEvent, Modifiers};
use vstd::prelude::*;

verus! {

/// Whether an event is of the keyboard and not the repetition of a key that is
/// down already.
pub open spec fn counts(event: Event) -> bool {
    event matches Event::Key(e) && !(e.pressed && e.repeat)
}

/// Whether an event is Escape going down.
pub open spec fn escapes(event: Event) -> bool {
    counts(event) && event->Key_0.pressed && event->Key_0.key == Key::Escape
}

/// The key of an event: where it is, and else what it stands for.
pub open spec fn key_of(e: KeyEvent) -> Key {
    if e.physical_key is Some {
        e.physical_key->0
    } else {
        e.key
    }
}

/// Whether an event is of a key that is no modifier.
pub open spec fn plain(event: Event) -> bool {
    counts(event) && !crate::keys::modifies(event->Key_0.key) && !crate::keys::modifies(
        key_of(event->Key_0),
    )
}

/// Whether an event is a key going down that is neither a modifier nor Escape.
pub open spec fn press(event: Event) -> bool {
    plain(event) && event->Key_0.pressed && event->Key_0.key != Key::Escape
}

/// Whether an event is a key going up that is no modifier.
pub open spec fn release(event: Event) -> bool {
    plain(event) && !event->Key_0.pressed
}

/// The key that a press or a release is of.
pub open spec fn key_in(event: Event) -> Key {
    key_of(event->Key_0)
}

proof fn lemma_split(state: CaptureView, events: Seq<Event>)
    requires
        events.len() > 0,
        !crate::capture::after_events(state, events).1,
    ensures
        !crate::capture::after_events(state, events.drop_last()).1,
        crate::capture::after_events(state, events).0 == crate::capture::after_events(
            state,
            events.drop_last(),
        ).0.after(events.last()),
        !escapes(events.last()),
{
}

/// Escape, and nothing else, gives a capture up.
pub proof fn law_escape_gives_up(state: CaptureView, events: Seq<Event>, modifiers: Modifiers)
    ensures
        crate::capture::outcome_of_events(state, events, modifiers) is Cancelled
            <==> exists|i: int| 0 <= i < events.len() && escapes(#[trigger] events[i]),
        crate::capture::after_events(state, events).1 <==> exists|i: int|
            0 <= i < events.len() && escapes(#[trigger] events[i]),
    decreases events.len(),
{
    if events.len() > 0 {
        let fewer = events.drop_last();
        law_escape_gives_up(state, fewer, modifiers);
        if exists|i: int| 0 <= i < fewer.len() && escapes(#[trigger] fewer[i]) {
            let i = choose|i: int| 0 <= i < fewer.len() && escapes(#[trigger] fewer[i]);
            assert(escapes(events[i]));
        }
        if escapes(events.last()) {
            assert(escapes(events[events.len() - 1]));
        }
        if exists|i: int| 0 <= i < events.len() && escapes(#[trigger] events[i]) {
            let i = choose|i: int| 0 <= i < events.len() && escapes(#[trigger] events[i]);
            if i < fewer.len() {
                assert(escapes(fewer[i]));
            }
        }
    }
}

proof fn lemma_shift_noted(state: CaptureView, events: Seq<Event>)
    requires
        !crate::capture::after_events(state, events).1,
    ensures
        crate::capture::after_events(state, events).0.modifiers.shift <==> (state.modifiers.shift
            || exists|i: int|
            0 <= i < events.len() && counts(#[trigger] events[i])
                && events[i]->Key_0.modifiers.shift),
    decreases events.len(),
{
    if events.len() > 0 {
        let fewer = events.drop_last();
        let last = events.len() - 1;
        lemma_split(state, events);
        lemma_shift_noted(state, fewer);
        if exists|i: int|
            0 <= i < fewer.len() && counts(#[trigger] fewer[i]) && fewer[i]->Key_0.modifiers.shift {
            let i = choose|i: int|
                0 <= i < fewer.len() && counts(#[trigger] fewer[i])
                    && fewer[i]->Key_0.modifiers.shift;
            assert(counts(events[i]) && events[i]->Key_0.modifiers.shift);
        }
        if counts(events.last()) && events.last()->Key_0.modifiers.shift {
            assert(counts(events[last]));
        }
        if exists|i: int|
            0 <= i < events.len() && counts(#[trigger] events[i])
                && events[i]->Key_0.modifiers.shift {
            let i = choose|i: int|
                0 <= i < events.len() && counts(#[trigger] events[i])
                    && events[i]->Key_0.modifiers.shift;
            if i < last {
                assert(counts(fewer[i]) && fewer[i]->Key_0.modifiers.shift);
            }
        }
    }
}

proof fn lemma_control_noted(state: CaptureView, events: Seq<Event>)
    requires
        !crate::capture::after_events(state, events).1,
    ensures
        crate::capture::after_events(state, events).0.modifiers.control <==> (state.modifiers.control
            || exists|i: int|
            0 <= i < events.len() && counts(#[trigger] events[i])
                && events[i]->Key_0.modifiers.ctrl),
    decreases events.len(),
{
    if events.len() > 0 {
        let fewer = events.drop_last();
        let last = events.len() - 1;
        lemma_split(state, events);
        lemma_control_noted(state, fewer);
        if exists|i: int|
            0 <= i < fewer.len() && counts(#[trigger] fewer[i]) && fewer[i]->Key_0.modifiers.ctrl {
            let i = choose|i: int|
                0 <= i < fewer.len() && counts(#[trigger] fewer[i])
                    && fewer[i]->Key_0.modifiers.ctrl;
            assert(counts(events[i]) && events[i]->Key_0.modifiers.ctrl);
        }
        if counts(events.last()) && events.last()->Key_0.modifiers.ctrl {
            assert(counts(events[last]));
        }
        if exists|i: int|
            0 <= i < events.len() && counts(#[trigger] events[i])
                && events[i]->Key_0.modifiers.ctrl {
            let i = choose|i: int|
                0 <= i < events.len() && counts(#[trigger] events[i])
                    && events[i]->Key_0.modifiers.ctrl;
            if i < last {
                assert(counts(fewer[i]) && fewer[i]->Key_0.modifiers.ctrl);
            }
        }
    }
}

proof fn lemma_alt_noted(state: CaptureView, events: Seq<Event>)
    requires
        !crate::capture::after_events(state, events).1,
    ensures
        crate::capture::after_events(state, events).0.modifiers.alt <==> (state.modifiers.alt
            || exists|i: int|
            0 <= i < events.len() && counts(#[trigger] events[i])
                && events[i]->Key_0.modifiers.alt),
    decreases events.len(),
{
    if events.len() > 0 {
        let fewer = events.drop_last();
        let last = events.len() - 1;
        lemma_split(state, events);
        lemma_alt_noted(state, fewer);
        if exists|i: int|
            0 <= i < fewer.len() && counts(#[trigger] fewer[i]) && fewer[i]->Key_0.modifiers.alt {
            let i = choose|i: int|
                0 <= i < fewer.len() && counts(#[trigger] fewer[i])
                    && fewer[i]->Key_0.modifiers.alt;
            assert(counts(events[i]) && events[i]->Key_0.modifiers.alt);
        }
        if counts(events.last()) && events.last()->Key_0.modifiers.alt {
            assert(counts(events[last]));
        }
        if exists|i: int|
            0 <= i < events.len() && counts(#[trigger] events[i])
                && events[i]->Key_0.modifiers.alt {
            let i = choose|i: int|
                0 <= i < events.len() && counts(#[trigger] events[i])
                    && events[i]->Key_0.modifiers.alt;
            if i < last {
                assert(counts(fewer[i]) && fewer[i]->Key_0.modifiers.alt);
            }
        }
    }
}

proof fn lemma_super_key_noted(state: CaptureView, events: Seq<Event>)
    requires
        !crate::capture::after_events(state, events).1,
    ensures
        crate::capture::after_events(state, events).0.modifiers.super_key <==> (state.modifiers.super_key
            || exists|i: int|
            0 <= i < events.len() && counts(#[trigger] events[i])
                && events[i]->Key_0.modifiers.mac_cmd),
    decreases events.len(),
{
    if events.len() > 0 {
        let fewer = events.drop_last();
        let last = events.len() - 1;
        lemma_split(state, events);
        lemma_super_key_noted(state, fewer);
        if exists|i: int|
            0 <= i < fewer.len() && counts(#[trigger] fewer[i]) && fewer[i]->Key_0.modifiers.mac_cmd {
            let i = choose|i: int|
                0 <= i < fewer.len() && counts(#[trigger] fewer[i])
                    && fewer[i]->Key_0.modifiers.mac_cmd;
            assert(counts(events[i]) && events[i]->Key_0.modifiers.mac_cmd);
        }
        if counts(events.last()) && events.last()->Key_0.modifiers.mac_cmd {
            assert(counts(events[last]));
        }
        if exists|i: int|
            0 <= i < events.len() && counts(#[trigger] events[i])
                && events[i]->Key_0.modifiers.mac_cmd {
            let i = choose|i: int|
                0 <= i < events.len() && counts(#[trigger] events[i])
                    && events[i]->Key_0.modifiers.mac_cmd;
            if i < last {
                assert(counts(fewer[i]) && fewer[i]->Key_0.modifiers.mac_cmd);
            }
        }
    }
}

/// A captured shortcut has exactly the modifiers that were held: Shift where some
/// event was reported with Shift held, and likewise for Control, Alt and the
/// command key, and none that no event was reported with.
pub proof fn law_captured_modifiers_are_those_held(
    target: usize,
    events: Seq<Event>,
    modifiers: Modifiers,
)
    requires
        crate::capture::outcome_of_events(
            CaptureView::fresh(target),
            events,
            modifiers,
        ) is Committed,
    ensures
        ({
            let mods = crate::capture::outcome_of_events(
                CaptureView::fresh(target),
                events,
                modifiers,
            )->Committed_0;
            &&& mods.shift <==> exists|i: int|
                0 <= i < events.len() && (#[trigger] events[i]) is Key && !(
                events[i]->Key_0.pressed && events[i]->Key_0.repeat)
                    && events[i]->Key_0.modifiers.shift
            &&& mods.control <==> exists|i: int|
                0 <= i < events.len() && (#[trigger] events[i]) is Key && !(
                events[i]->Key_0.pressed && events[i]->Key_0.repeat)
                    && events[i]->Key_0.modifiers.ctrl
            &&& mods.alt <==> exists|i: int|
                0 <= i < events.len() && (#[trigger] events[i]) is Key && !(
                events[i]->Key_0.pressed && events[i]->Key_0.repeat)
                    && events[i]->Key_0.modifiers.alt
            &&& mods.super_key <==> exists|i: int|
                0 <= i < events.len() && (#[trigger] events[i]) is Key && !(
                events[i]->Key_0.pressed && events[i]->Key_0.repeat)
                    && events[i]->Key_0.modifiers.mac_cmd
        }),
{
    let state = CaptureView::fresh(target);
    lemma_shift_noted(state, events);
    lemma_control_noted(state, events);
    lemma_alt_noted(state, events);
    lemma_super_key_noted(state, events);
}

/// What has been pressed so far: the first key, and what is wrong with the rest.
proof fn lemma_presses(target: usize, events: Seq<Event>)
    requires
        !crate::capture::after_events(CaptureView::fresh(target), events).1,
    ensures
        ({
            let state = crate::capture::after_events(CaptureView::fresh(target), events).0;
            &&& state.primary is Some ==> exists|i: int|
                0 <= i < events.len() && press(#[trigger] events[i]) && key_in(events[i])
                    == state.primary->0 && crate::keys::code_name(state.primary->0) is Some
            &&& state.primary is None ==> forall|i: int|
                0 <= i < events.len() && press(#[trigger] events[i]) ==> crate::keys::code_name(
                    key_in(events[i]),
                ) is None
            &&& state.invalid is None <==> forall|i: int|
                0 <= i < events.len() && press(#[trigger] events[i]) ==> state.primary == Some(
                    key_in(events[i]),
                )
        }),
    decreases events.len(),
{
    if events.len() > 0 {
        let fewer = events.drop_last();
        let last = events.len() - 1;
        let start = CaptureView::fresh(target);
        lemma_split(start, events);
        lemma_presses(target, fewer);
        let before = crate::capture::after_events(start, fewer).0;
        let state = crate::capture::after_events(start, events).0;
        assert(events[last] == events.last());
        assert(forall|i: int| 0 <= i < last ==> #[trigger] events[i] == fewer[i]);
        if before.primary is Some {
            let i = choose|i: int|
                0 <= i < fewer.len() && press(#[trigger] fewer[i]) && key_in(fewer[i])
                    == before.primary->0 && crate::keys::code_name(before.primary->0) is Some;
            assert(press(events[i]) && key_in(events[i]) == state.primary->0);
        } else if state.primary is Some {
            assert(press(events[last]));
            if exists|i: int| 0 <= i < fewer.len() && press(#[trigger] fewer[i]) {
                let i = choose|i: int| 0 <= i < fewer.len() && press(#[trigger] fewer[i]);
                assert(crate::keys::code_name(key_in(fewer[i])) is None);
                assert(press(events[i]));
            }
        }
        if state.invalid is None {
            assert forall|i: int|
                0 <= i < events.len() && press(#[trigger] events[i]) implies state.primary == Some(
                key_in(events[i]),
            ) by {
                if i < last {
                    assert(press(fewer[i]));
                }
            }
        } else if before.invalid is Some {
            let i = choose|i: int|
                0 <= i < fewer.len() && press(#[trigger] fewer[i]) && before.primary != Some(
                    key_in(fewer[i]),
                );
            assert(press(events[i]));
            if before.primary is None && state.primary is Some {
                assert(crate::keys::code_name(key_in(fewer[i])) is None);
            }
        } else {
            assert(press(events[last]));
        }
    }
}

/// A captured shortcut is of the one key that was pressed beside modifiers: some
/// key was, every such key was that one, and the shortcut has its key code.
pub proof fn law_captured_key_is_the_one_pressed(
    target: usize,
    events: Seq<Event>,
    modifiers: Modifiers,
)
    requires
        crate::capture::outcome_of_events(
            CaptureView::fresh(target),
            events,
            modifiers,
        ) is Committed,
    ensures
        ({
            let code = crate::capture::outcome_of_events(
                CaptureView::fresh(target),
                events,
                modifiers,
            )->Committed_1;
            &&& exists|i: int| 0 <= i < events.len() && press(#[trigger] events[i])
            &&& forall|i: int|
                0 <= i < events.len() && press(#[trigger] events[i]) ==> crate::keys::code_name(
                    key_in(events[i]),
                ) == Some(code)
            &&& forall|i: int, j: int|
                0 <= i < j < events.len() && press(#[trigger] events[i]) && press(
                    #[trigger] events[j],
                ) ==> key_in(events[i]) == key_in(events[j])
        }),
{
    lemma_presses(target, events);
}

/// Whether a key that can serve was pressed in one of the events and has not been
/// let go in a later one.
pub open spec fn down_since(events: Seq<Event>, key: Key, i: int) -> bool {
    &&& 0 <= i < events.len()
    &&& press(events[i])
    &&& key_in(events[i]) == key
    &&& crate::keys::code_name(key) is Some
    &&& forall|j: int|
        i < j < events.len() && release(#[trigger] events[j]) ==> key_in(events[j]) != key
}

proof fn lemma_held_after(state: CaptureView, event: Event, key: Key)
    requires
        !escapes(event),
    ensures
        state.after(event).held.contains(key) <==> ((press(event) && key_in(event) == key
            && crate::keys::code_name(key) is Some) || (state.held.contains(key) && !(release(
            event,
        ) && key_in(event) == key))),
{
}

proof fn lemma_down_since(events: Seq<Event>, key: Key, i: int)
    requires
        0 <= i < events.len() - 1,
    ensures
        down_since(events, key, i) <==> (down_since(events.drop_last(), key, i) && !(release(
            events.last(),
        ) && key_in(events.last()) == key)),
{
    let fewer = events.drop_last();
    let last = events.len() - 1;
    assert(forall|k: int| 0 <= k < last ==> #[trigger] events[k] == fewer[k]);
    if down_since(events, key, i) {
        assert(events[last] == events.last());
        assert forall|j: int| i < j < fewer.len() && release(#[trigger] fewer[j]) implies key_in(
            fewer[j],
        ) != key by {
            assert(release(events[j]));
        }
    }
    if down_since(fewer, key, i) && !(release(events.last()) && key_in(events.last()) == key) {
        assert forall|j: int| i < j < events.len() && release(#[trigger] events[j]) implies key_in(
            events[j],
        ) != key by {
            if j < last {
                assert(release(fewer[j]));
            }
        }
    }
}

/// A key is down exactly where it was pressed, can serve, and has not been let
/// go since.
pub proof fn law_keys_are_held_until_let_go(target: usize, events: Seq<Event>, key: Key)
    requires
        !crate::capture::after_events(CaptureView::fresh(target), events).1,
    ensures
        crate::capture::after_events(CaptureView::fresh(target), events).0.held.contains(key)
            <==> exists|i: int| #[trigger] down_since(events, key, i),
    decreases events.len(),
{
    if events.len() > 0 {
        let fewer = events.drop_last();
        let last = events.len() - 1;
        let start = CaptureView::fresh(target);
        lemma_split(start, events);
        law_keys_are_held_until_let_go(target, fewer, key);
        let before = crate::capture::after_events(start, fewer).0;
        lemma_held_after(before, events.last(), key);
        assert(events[last] == events.last());
        assert(down_since(events, key, last) <==> (press(events.last()) && key_in(events.last())
            == key && crate::keys::code_name(key) is Some));
        assert forall|i: int| 0 <= i < last implies #[trigger] down_since(events, key, i) == (
        down_since(fewer, key, i) && !(release(events.last()) && key_in(events.last()) == key)) by {
            lemma_down_since(events, key, i);
        }
        if before.held.contains(key) {
            let i = choose|i: int| #[trigger] down_since(fewer, key, i);
            assert(down_since(fewer, key, i));
            assert(down_since(events, key, i) == !(release(events.last()) && key_in(events.last())
                == key));
        }
    }
}

/// Whether some modifier of a capture is held now.
pub open spec fn still_held(state: CaptureView, modifiers: Modifiers) -> bool {
    ||| state.modifiers.shift && modifiers.shift
    ||| state.modifiers.control && modifiers.ctrl
    ||| state.modifiers.alt && modifiers.alt
    ||| state.modifiers.super_key && modifiers.mac_cmd
}

/// Whether anything has been pressed or held in a capture.
pub open spec fn anything(state: CaptureView) -> bool {
    ||| state.primary is Some
    ||| state.modifiers.shift
    ||| state.modifiers.control
    ||| state.modifiers.alt
    ||| state.modifiers.super_key
}

/// A capture is decided once something has been pressed and every key and every
/// modifier of it has been let go, and at no other time. Modifiers that are not
/// part of it do not hold it up.
pub proof fn law_captures_are_decided_on_release(state: CaptureView, modifiers: Modifiers)
    ensures
        state.finish(modifiers) is Continue <==> ((exists|key: Key|
            #[trigger] state.held.contains(key)) || still_held(state, modifiers) || !anything(
            state,
        )),
{
    if state.held =~= Set::<Key>::empty() {
    } else {
        assert(exists|key: Key| #[trigger] state.held.contains(key));
    }
}

/// What a capture comes to by events, where none gives it up: nothing yet while a
/// key or a modifier of it is held or nothing has been pressed, and else what its
/// state says.
pub proof fn law_events_decide_on_release(
    state: CaptureView,
    events: Seq<Event>,
    modifiers: Modifiers,
)
    requires
        forall|i: int| 0 <= i < events.len() ==> !escapes(#[trigger] events[i]),
    ensures
        ({
            let after = crate::capture::after_events(state, events).0;
            let outcome = crate::capture::outcome_of_events(state, events, modifiers);
            &&& outcome is Continue <==> ((exists|key: Key| #[trigger] after.held.contains(key))
                || still_held(after, modifiers) || !anything(after))
            &&& outcome == after.finish(modifiers)
            &&& after.target == state.target
        }),
{
    law_escape_gives_up(state, events, modifiers);
    law_captures_are_decided_on_release(crate::capture::after_events(state, events).0, modifiers);
    crate::capture::lemma_target_stays(state, events);
}

/// What is said of a capture that is refused: what was found wrong with the keys
/// that were pressed, else that a key is missing, else that a modifier is.
/// Otherwise it comes to the shortcut of its key with its modifiers.
pub proof fn law_decided_captures_say_why(state: CaptureView, modifiers: Modifiers)
    requires
        !(state.finish(modifiers) is Continue),
    ensures
        ({
            let outcome = state.finish(modifiers);
            let mods = state.modifiers;
            let bare = !mods.shift && !mods.control && !mods.alt && !mods.super_key;
            &&& state.invalid matches Some(why) ==> outcome == CaptureResultView::Rejected(why)
            &&& state.invalid is None && state.primary is None ==> outcome
                == CaptureResultView::Rejected("Add a modifier and one primary key"@)
            &&& state.invalid is None && state.primary is Some && bare ==> outcome
                == CaptureResultView::Rejected("Add at least one modifier"@)
            &&& state.invalid is None && state.primary is Some && !bare ==> outcome is Committed
                && outcome->Committed_0 == mods && outcome->Committed_1 == crate::keys::code_name(
                state.primary->0,
            )->0
        }),
{
}

/// What one key going down makes of a capture: the first that can serve is its
/// key, another one is one too many, and one that cannot serve is said so.
pub proof fn law_presses_are_noted(state: CaptureView, event: Event)
    requires
        press(event),
    ensures
        ({
            let after = state.after(event);
            let key = key_in(event);
            let serves = crate::keys::code_name(key) is Some;
            &&& serves && state.primary is None ==> after.primary == Some(key) && after.invalid
                == state.invalid
            &&& serves && state.primary == Some(key) ==> after.invalid == state.invalid
            &&& serves && state.primary is Some && state.primary != Some(key) ==> after.invalid
                == Some("Use one primary key"@)
            &&& state.primary is Some ==> after.primary == state.primary
            &&& !serves ==> after.invalid == Some("Unsupported key"@) && after.primary
                == state.primary
        }),
{
}

/// Letting a key go, or pressing a modifier, leaves the key of a capture and what
/// is wrong with it.
pub proof fn law_releases_and_modifiers_decide_nothing(state: CaptureView, event: Event)
    requires
        !press(event),
    ensures
        state.after(event).primary == state.primary,
        state.after(event).invalid == state.invalid,
        state.after(event).target == state.target,
{
}

/// A chord that is all right is captured: one key that can serve, however often
/// it was pressed, with some modifier held in some event, and all of it let go.
pub proof fn law_clean_chords_are_captured(
    target: usize,
    events: Seq<Event>,
    modifiers: Modifiers,
    key: Key,
)
    requires
        forall|i: int| 0 <= i < events.len() ==> !escapes(#[trigger] events[i]),
        exists|i: int| 0 <= i < events.len() && press(#[trigger] events[i]),
        forall|i: int|
            0 <= i < events.len() && press(#[trigger] events[i]) ==> key_in(events[i]) == key,
        crate::keys::code_name(key) is Some,
        exists|i: int|
            0 <= i < events.len() && counts(#[trigger] events[i]) && (
            events[i]->Key_0.modifiers.shift || events[i]->Key_0.modifiers.ctrl
                || events[i]->Key_0.modifiers.alt || events[i]->Key_0.modifiers.mac_cmd),
        !modifiers.shift && !modifiers.ctrl && !modifiers.alt && !modifiers.mac_cmd,
        forall|i: int| !(#[trigger] down_since(events, key, i)),
    ensures
        crate::capture::outcome_of_events(
            CaptureView::fresh(target),
            events,
            modifiers,
        ) matches CaptureResultView::Committed(_, code) && crate::keys::code_name(key) == Some(
            code,
        ),
{
    let start = CaptureView::fresh(target);
    law_escape_gives_up(start, events, modifiers);
    let state = crate::capture::after_events(start, events).0;
    lemma_presses(target, events);
    lemma_shift_noted(start, events);
    lemma_control_noted(start, events);
    lemma_alt_noted(start, events);
    lemma_super_key_noted(start, events);
    assert forall|k: Key| !(#[trigger] state.held.contains(k)) by {
        law_keys_are_held_until_let_go(target, events, k);
        if state.held.contains(k) {
            let i = choose|i: int| #[trigger] down_since(events, k, i);
            assert(press(events[i]));
            assert(k == key);
        }
    }
    assert(state.held =~= Set::<Key>::empty());
    let pressed = choose|i: int| 0 <= i < events.len() && press(#[trigger] events[i]);
    if state.primary is None {
        assert(crate::keys::code_name(key_in(events[pressed])) is None);
    }
    law_captures_are_decided_on_release(state, modifiers);
    assert(state.modifiers != HotKeyModifiers::none());
}

/// A capture that is decided is refused for one reason: two keys, a key that
/// cannot serve, no key, or no modifier.
pub proof fn law_refused_captures_have_a_reason(
    target: usize,
    events: Seq<Event>,
    modifiers: Modifiers,
)
    requires
        crate::capture::outcome_of_events(
            CaptureView::fresh(target),
            events,
            modifiers,
        ) is Rejected,
    ensures
        ({
            let state = crate::capture::after_events(CaptureView::fresh(target), events).0;
            ||| exists|i: int|
                0 <= i < events.len() && press(#[trigger] events[i]) && crate::keys::code_name(
                    key_in(events[i]),
                ) is None
            ||| exists|i: int, j: int|
                0 <= i < events.len() && 0 <= j < events.len() && press(#[trigger] events[i])
                    && press(#[trigger] events[j]) && key_in(events[i]) != key_in(events[j])
            ||| forall|i: int| 0 <= i < events.len() ==> !press(#[trigger] events[i])
            ||| !state.modifiers.shift && !state.modifiers.control && !state.modifiers.alt
                && !state.modifiers.super_key
        }),
{
    lemma_presses(target, events);
    let state = crate::capture::after_events(CaptureView::fresh(target), events).0;
    if state.invalid is Some {
        let i = choose|i: int|
            0 <= i < events.len() && press(#[trigger] events[i]) && state.primary != Some(
                key_in(events[i]),
            );
        assert(press(events[i]));
        if state.primary is Some {
            let j = choose|j: int|
                0 <= j < events.len() && press(#[trigger] events[j]) && key_in(events[j])
                    == state.primary->0 && crate::keys::code_name(state.primary->0) is Some;
            assert(press(events[j]) && key_in(events[i]) != key_in(events[j]));
        }
    }
}

/// Events come to the same in one batch as in two, as long as none gives the
/// capture up.
pub proof fn law_batches_of_events_add_up(
    state: CaptureView,
    first: Seq<Event>,
    second: Seq<Event>,
)
    requires
        !crate::capture::after_events(state, first).1,
    ensures
        crate::capture::after_events(state, first + second) == crate::capture::after_events(
            crate::capture::after_events(state, first).0,
            second,
        ),
    decreases second.len(),
{
    if second.len() == 0 {
        assert(first + second =~= first);
    } else {
        assert((first + second).drop_last() =~= first + second.drop_last());
        law_batches_of_events_add_up(state, first, second.drop_last());
    }
}

/// Repetitions of keys that are down, and events that are not of the keyboard,
/// mean nothing to a capture.
pub proof fn law_other_events_mean_nothing(state: CaptureView, event: Event)
    requires
        !counts(event),
    ensures
        state.after(event) == state,
{
}

/// Taking the events of the keyboard out of a queue parts it: one event more
/// goes to the end of the one part or of the other, by what it is.
pub proof fn law_queues_are_parted_in_order(events: Seq<Event>, event: Event)
    ensures
        crate::capture::key_events(Seq::empty()) == Seq::<Event>::empty(),
        crate::capture::other_events(Seq::empty()) == Seq::<Event>::empty(),
        event is Key ==> crate::capture::key_events(events.push(event))
            == crate::capture::key_events(events).push(event)
            && crate::capture::other_events(events.push(event)) == crate::capture::other_events(
            events,
        ),
        event is Other ==> crate::capture::key_events(events.push(event))
            == crate::capture::key_events(events) && crate::capture::other_events(
            events.push(event),
        ) == crate::capture::other_events(events).push(event),
{
    reveal(Seq::filter);
    assert(events.push(event).drop_last() =~= events);
}

} // verus!
