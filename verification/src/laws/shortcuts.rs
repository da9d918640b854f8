//! The names of keys, and the texts and places of shortcuts.

use crate::action::TimerAction;
use crate::hotkey::{GlobalHotKeyEvent, HotKey, HotKeyModifiers, HotKeyState, HotKeyView};
use crate::keys::Key;
use vstd::prelude::*;

verus! {

/// The keys of the letters, in the order of the alphabet.
pub open spec fn letters() -> Seq<Key> {
    seq![
        Key::A,
        Key::B,
        Key::C,
        Key::D,
        Key::E,
        Key::F,
        Key::G,
        Key::H,
        Key::I,
        Key::J,
        Key::K,
        Key::L,
        Key::M,
        Key::N,
        Key::O,
        Key::P,
        Key::Q,
        Key::R,
        Key::S,
        Key::T,
        Key::U,
        Key::V,
        Key::W,
        Key::X,
        Key::Y,
        Key::Z,
    ]
}

/// The keys of the digits, in their order.
pub open spec fn digits() -> Seq<Key> {
    seq![
        Key::Num0,
        Key::Num1,
        Key::Num2,
        Key::Num3,
        Key::Num4,
        Key::Num5,
        Key::Num6,
        Key::Num7,
        Key::Num8,
        Key::Num9,
    ]
}

/// The function keys, in their order.
pub open spec fn function_keys() -> Seq<Key> {
    seq![
        Key::F1,
        Key::F2,
        Key::F3,
        Key::F4,
        Key::F5,
        Key::F6,
        Key::F7,
        Key::F8,
        Key::F9,
        Key::F10,
        Key::F11,
        Key::F12,
    ]
}

/// The code of a letter's key is `Key` and the letter, upper case.
pub proof fn law_letters_are_named_by_themselves(i: int)
    requires
        0 <= i < 26,
    ensures
        crate::keys::code_name(letters()[i]) == Some(seq!['K', 'e', 'y', (65 + i) as char]),
{
    reveal_strlit("KeyA");
    reveal_strlit("KeyB");
    reveal_strlit("KeyC");
    reveal_strlit("KeyD");
    reveal_strlit("KeyE");
    reveal_strlit("KeyF");
    reveal_strlit("KeyG");
    reveal_strlit("KeyH");
    reveal_strlit("KeyI");
    reveal_strlit("KeyJ");
    reveal_strlit("KeyK");
    reveal_strlit("KeyL");
    reveal_strlit("KeyM");
    reveal_strlit("KeyN");
    reveal_strlit("KeyO");
    reveal_strlit("KeyP");
    reveal_strlit("KeyQ");
    reveal_strlit("KeyR");
    reveal_strlit("KeyS");
    reveal_strlit("KeyT");
    reveal_strlit("KeyU");
    reveal_strlit("KeyV");
    reveal_strlit("KeyW");
    reveal_strlit("KeyX");
    reveal_strlit("KeyY");
    reveal_strlit("KeyZ");
    assert("KeyA"@ =~= seq!['K', 'e', 'y', 65 as char]);
    assert("KeyB"@ =~= seq!['K', 'e', 'y', 66 as char]);
    assert("KeyC"@ =~= seq!['K', 'e', 'y', 67 as char]);
    assert("KeyD"@ =~= seq!['K', 'e', 'y', 68 as char]);
    assert("KeyE"@ =~= seq!['K', 'e', 'y', 69 as char]);
    assert("KeyF"@ =~= seq!['K', 'e', 'y', 70 as char]);
    assert("KeyG"@ =~= seq!['K', 'e', 'y', 71 as char]);
    assert("KeyH"@ =~= seq!['K', 'e', 'y', 72 as char]);
    assert("KeyI"@ =~= seq!['K', 'e', 'y', 73 as char]);
    assert("KeyJ"@ =~= seq!['K', 'e', 'y', 74 as char]);
    assert("KeyK"@ =~= seq!['K', 'e', 'y', 75 as char]);
    assert("KeyL"@ =~= seq!['K', 'e', 'y', 76 as char]);
    assert("KeyM"@ =~= seq!['K', 'e', 'y', 77 as char]);
    assert("KeyN"@ =~= seq!['K', 'e', 'y', 78 as char]);
    assert("KeyO"@ =~= seq!['K', 'e', 'y', 79 as char]);
    assert("KeyP"@ =~= seq!['K', 'e', 'y', 80 as char]);
    assert("KeyQ"@ =~= seq!['K', 'e', 'y', 81 as char]);
    assert("KeyR"@ =~= seq!['K', 'e', 'y', 82 as char]);
    assert("KeyS"@ =~= seq!['K', 'e', 'y', 83 as char]);
    assert("KeyT"@ =~= seq!['K', 'e', 'y', 84 as char]);
    assert("KeyU"@ =~= seq!['K', 'e', 'y', 85 as char]);
    assert("KeyV"@ =~= seq!['K', 'e', 'y', 86 as char]);
    assert("KeyW"@ =~= seq!['K', 'e', 'y', 87 as char]);
    assert("KeyX"@ =~= seq!['K', 'e', 'y', 88 as char]);
    assert("KeyY"@ =~= seq!['K', 'e', 'y', 89 as char]);
    assert("KeyZ"@ =~= seq!['K', 'e', 'y', 90 as char]);
}

/// The code of a digit's key is `Digit` and the digit.
pub proof fn law_digits_are_named_by_themselves(i: int)
    requires
        0 <= i < 10,
    ensures
        crate::keys::code_name(digits()[i]) == Some(
            seq!['D', 'i', 'g', 'i', 't', (48 + i) as char],
        ),
{
    reveal_strlit("Digit0");
    reveal_strlit("Digit1");
    reveal_strlit("Digit2");
    reveal_strlit("Digit3");
    reveal_strlit("Digit4");
    reveal_strlit("Digit5");
    reveal_strlit("Digit6");
    reveal_strlit("Digit7");
    reveal_strlit("Digit8");
    reveal_strlit("Digit9");
    assert("Digit0"@ =~= seq!['D', 'i', 'g', 'i', 't', 48 as char]);
    assert("Digit1"@ =~= seq!['D', 'i', 'g', 'i', 't', 49 as char]);
    assert("Digit2"@ =~= seq!['D', 'i', 'g', 'i', 't', 50 as char]);
    assert("Digit3"@ =~= seq!['D', 'i', 'g', 'i', 't', 51 as char]);
    assert("Digit4"@ =~= seq!['D', 'i', 'g', 'i', 't', 52 as char]);
    assert("Digit5"@ =~= seq!['D', 'i', 'g', 'i', 't', 53 as char]);
    assert("Digit6"@ =~= seq!['D', 'i', 'g', 'i', 't', 54 as char]);
    assert("Digit7"@ =~= seq!['D', 'i', 'g', 'i', 't', 55 as char]);
    assert("Digit8"@ =~= seq!['D', 'i', 'g', 'i', 't', 56 as char]);
    assert("Digit9"@ =~= seq!['D', 'i', 'g', 'i', 't', 57 as char]);
}

/// The code of a function key is `F` and its number.
pub proof fn law_function_keys_are_named_by_number(i: int)
    requires
        1 <= i <= 12,
    ensures
        crate::keys::code_name(function_keys()[i - 1]) == Some(
            seq!['F'] + crate::text::decimal(i as nat),
        ),
{
    reveal_with_fuel(crate::text::decimal, 2);
    reveal_strlit("F1");
    reveal_strlit("F2");
    reveal_strlit("F3");
    reveal_strlit("F4");
    reveal_strlit("F5");
    reveal_strlit("F6");
    reveal_strlit("F7");
    reveal_strlit("F8");
    reveal_strlit("F9");
    reveal_strlit("F10");
    reveal_strlit("F11");
    reveal_strlit("F12");
    assert("F1"@ =~= seq!['F'] + crate::text::decimal(1));
    assert("F2"@ =~= seq!['F'] + crate::text::decimal(2));
    assert("F3"@ =~= seq!['F'] + crate::text::decimal(3));
    assert("F4"@ =~= seq!['F'] + crate::text::decimal(4));
    assert("F5"@ =~= seq!['F'] + crate::text::decimal(5));
    assert("F6"@ =~= seq!['F'] + crate::text::decimal(6));
    assert("F7"@ =~= seq!['F'] + crate::text::decimal(7));
    assert("F8"@ =~= seq!['F'] + crate::text::decimal(8));
    assert("F9"@ =~= seq!['F'] + crate::text::decimal(9));
    assert("F10"@ =~= seq!['F'] + crate::text::decimal(10));
    assert("F11"@ =~= seq!['F'] + crate::text::decimal(11));
    assert("F12"@ =~= seq!['F'] + crate::text::decimal(12));
}

/// The other keys that can serve have the names that the standard for key codes
/// gives them.
pub proof fn law_other_keys_are_named_by_the_standard()
    ensures
        crate::keys::code_name(Key::ArrowDown) == Some("ArrowDown"@),
        crate::keys::code_name(Key::ArrowLeft) == Some("ArrowLeft"@),
        crate::keys::code_name(Key::ArrowRight) == Some("ArrowRight"@),
        crate::keys::code_name(Key::ArrowUp) == Some("ArrowUp"@),
        crate::keys::code_name(Key::Backspace) == Some("Backspace"@),
        crate::keys::code_name(Key::Delete) == Some("Delete"@),
        crate::keys::code_name(Key::Enter) == Some("Enter"@),
        crate::keys::code_name(Key::Space) == Some("Space"@),
        crate::keys::code_name(Key::Tab) == Some("Tab"@),
        crate::keys::code_name(Key::Backslash) == Some("Backslash"@),
        crate::keys::code_name(Key::Backtick) == Some("Backquote"@),
        crate::keys::code_name(Key::Comma) == Some("Comma"@),
        crate::keys::code_name(Key::Equals) == Some("Equal"@),
        crate::keys::code_name(Key::Minus) == Some("Minus"@),
        crate::keys::code_name(Key::Period) == Some("Period"@),
        crate::keys::code_name(Key::Quote) == Some("Quote"@),
        crate::keys::code_name(Key::Semicolon) == Some("Semicolon"@),
        crate::keys::code_name(Key::Slash) == Some("Slash"@),
{
}

/// Every key can serve in a shortcut but Escape, those that only modify others,
/// and those that nothing is known of. The keys that only modify are the two of
/// each modifier.
pub proof fn law_keys_serve_or_modify(key: Key)
    ensures
        crate::keys::code_name(key) is None <==> (key == Key::Escape || key == Key::Other
            || crate::keys::modifies(key)),
        crate::keys::modifies(key) <==> (
        key == Key::ShiftLeft
            || key == Key::ShiftRight
            || key == Key::ControlLeft
            || key == Key::ControlRight
            || key == Key::AltLeft
            || key == Key::AltRight
            || key == Key::SuperLeft
            || key == Key::SuperRight),
{
}

/// The text of a shortcut is its key's code behind its modifiers, each with a
/// plus sign: shift first, then control, alt and super.
pub proof fn law_texts_name_each_modifier(mods: HotKeyModifiers, key: Seq<char>)
    ensures
        mods.shift ==> crate::hotkey::chord_text(mods, key) == "shift+"@
            + crate::hotkey::chord_text(HotKeyModifiers { shift: false, ..mods }, key),
        !mods.shift && mods.control ==> crate::hotkey::chord_text(mods, key) == "control+"@
            + crate::hotkey::chord_text(HotKeyModifiers { control: false, ..mods }, key),
        !mods.shift && !mods.control && mods.alt ==> crate::hotkey::chord_text(mods, key)
            == "alt+"@ + crate::hotkey::chord_text(HotKeyModifiers { alt: false, ..mods }, key),
        !mods.shift && !mods.control && !mods.alt && mods.super_key ==> crate::hotkey::chord_text(
            mods,
            key,
        ) == "super+"@ + key,
        !mods.shift && !mods.control && !mods.alt && !mods.super_key ==> crate::hotkey::chord_text(
            mods,
            key,
        ) == key,
{
    let text = crate::hotkey::chord_text(mods, key);
    if mods.shift {
        assert(text =~= "shift+"@ + crate::hotkey::chord_text(
            HotKeyModifiers { shift: false, ..mods },
            key,
        ));
    } else if mods.control {
        assert(text =~= "control+"@ + crate::hotkey::chord_text(
            HotKeyModifiers { control: false, ..mods },
            key,
        ));
    } else if mods.alt {
        assert(text =~= "alt+"@ + crate::hotkey::chord_text(
            HotKeyModifiers { alt: false, ..mods },
            key,
        ));
    } else if mods.super_key {
        assert(text =~= "super+"@ + key);
    } else {
        assert(text =~= key);
    }
}

/// A text tells shortcuts apart: two that have the same text are the same.
pub proof fn law_texts_tell_shortcuts_apart(a: HotKeyView, b: HotKeyView)
    requires
        a.wf(),
        b.wf(),
        a.text() == b.text(),
    ensures
        a == b,
{
}

/// Each modifier counts for a bit of its own in an identity.
pub proof fn law_each_modifier_counts_for_itself(mods: HotKeyModifiers)
    ensures
        HotKeyModifiers::none().number() == 0,
        mods.shift ==> mods.number() == (HotKeyModifiers { shift: false, ..mods }).number() + 0x200,
        mods.control ==> mods.number() == (HotKeyModifiers { control: false, ..mods }).number()
            + 0x8,
        mods.alt ==> mods.number() == (HotKeyModifiers { alt: false, ..mods }).number() + 0x1,
        mods.super_key ==> mods.number() == (HotKeyModifiers { super_key: false, ..mods }).number()
            + 0x2000,
{
}

/// Joined modifiers are those of either, and modifiers are shared where one is in
/// both.
pub proof fn law_modifiers_join_and_meet(a: HotKeyModifiers, b: HotKeyModifiers)
    ensures
        a.joined(b).shift == (a.shift || b.shift),
        a.joined(b).control == (a.control || b.control),
        a.joined(b).alt == (a.alt || b.alt),
        a.joined(b).super_key == (a.super_key || b.super_key),
        a.shares(b) <==> (a.shift && b.shift || a.control && b.control || a.alt && b.alt
            || a.super_key && b.super_key),
        a == HotKeyModifiers::none() <==> !a.shift && !a.control && !a.alt && !a.super_key,
{
}

/// Whether what was read at a place can serve there.
pub open spec fn sound(read: Result<HotKeyView, Seq<char>>) -> bool {
    read matches Ok(key) && (key.mods.shift || key.mods.control || key.mods.alt
        || key.mods.super_key)
}

/// The first of four texts that cannot serve decides what is said, by its number:
/// why it is no shortcut, or that it has no modifier.
pub proof fn law_first_fault_is_reported(read: Seq<Result<HotKeyView, Seq<char>>>, i: int)
    requires
        read.len() == 4,
        0 <= i < 4,
        !sound(read[i]),
        forall|j: int| 0 <= j < i ==> sound(#[trigger] read[j]),
    ensures
        read[i] matches Err(message) ==> crate::hotkey::selected(read) == Err::<
            Seq<HotKeyView>,
            Seq<char>,
        >("Shortcut "@ + seq![(49 + i) as char] + ": "@ + message),
        read[i] is Ok ==> crate::hotkey::selected(read) == Err::<Seq<HotKeyView>, Seq<char>>(
            "Shortcut "@ + seq![(49 + i) as char] + " needs a modifier"@,
        ),
{
    assert(crate::text::decimal((i + 1) as nat) == seq![(49 + i) as char]);
    assert(i > 0 ==> sound(read[0]));
    assert(i > 1 ==> sound(read[1]));
    assert(i > 2 ==> sound(read[2]));
}

/// Four texts that can serve are taken, each at its place, unless two of them
/// have the same identity; then that is said.
pub proof fn law_sound_shortcuts_are_taken(read: Seq<Result<HotKeyView, Seq<char>>>)
    requires
        read.len() == 4,
        forall|j: int| 0 <= j < 4 ==> sound(#[trigger] read[j]),
    ensures
        ({
            let a = read[0]->Ok_0;
            let b = read[1]->Ok_0;
            let c = read[2]->Ok_0;
            let d = read[3]->Ok_0;
            let apart = a.id != b.id && a.id != c.id && a.id != d.id && b.id != c.id && b.id
                != d.id && c.id != d.id;
            &&& apart ==> crate::hotkey::selected(read) == Ok::<Seq<HotKeyView>, Seq<char>>(
                seq![a, b, c, d],
            )
            &&& !apart ==> crate::hotkey::selected(read) == Err::<Seq<HotKeyView>, Seq<char>>(
                "Shortcuts must be distinct"@,
            )
        }),
{
    assert(sound(read[0]) && sound(read[1]) && sound(read[2]) && sound(read[3]));
    let keys = seq![read[0]->Ok_0, read[1]->Ok_0, read[2]->Ok_0, read[3]->Ok_0];
    assert(keys[0] == read[0]->Ok_0);
    assert(keys[1] == read[1]->Ok_0);
    assert(keys[2] == read[2]->Ok_0);
    assert(keys[3] == read[3]->Ok_0);
}

/// A press of a shortcut asks for the action of its place, and letting it go asks
/// for nothing.
pub proof fn law_places_have_their_actions(keys: Seq<HotKeyView>, id: u32)
    requires
        crate::hotkey::valid_keys(keys),
    ensures
        ({
            let down = crate::hotkey::event_action(
                GlobalHotKeyEvent { id, state: HotKeyState::Pressed },
                keys,
            );
            &&& id == keys[0].id ==> down == Some(TimerAction::Start)
            &&& id == keys[1].id ==> down == Some(TimerAction::Stop)
            &&& id == keys[2].id ==> down == Some(TimerAction::Reset)
            &&& id == keys[3].id ==> down == Some(TimerAction::ToggleOverlay)
            &&& down is Some ==> id == keys[0].id || id == keys[1].id || id == keys[2].id || id
                == keys[3].id
            &&& crate::hotkey::event_action(
                GlobalHotKeyEvent { id, state: HotKeyState::Released },
                keys,
            ) is None
        }),
{
    assert(crate::hotkey::distinct_ids(keys));
    assert(keys[0].id != keys[1].id);
    assert(keys[0].id != keys[2].id);
    assert(keys[0].id != keys[3].id);
    assert(keys[1].id != keys[2].id);
    assert(keys[1].id != keys[3].id);
    assert(keys[2].id != keys[3].id);
}

/// Shortcuts can be registered together where there are four of them, each with a
/// modifier, and no two of the same identity.
pub proof fn law_shortcuts_that_go_together(keys: Seq<HotKeyView>)
    requires
        crate::hotkey::valid_keys(keys),
    ensures
        keys.len() == 4,
        forall|i: int|
            0 <= i < 4 ==> (#[trigger] keys[i]).mods.shift || keys[i].mods.control
                || keys[i].mods.alt || keys[i].mods.super_key,
        forall|i: int, j: int|
            0 <= i < j < 4 ==> (#[trigger] keys[i]).id != (#[trigger] keys[j]).id,
{
    assert forall|i: int| 0 <= i < 4 implies (#[trigger] keys[i]).mods.shift
        || keys[i].mods.control || keys[i].mods.alt || keys[i].mods.super_key by {
        assert(keys[i].mods != HotKeyModifiers::none());
    }
}

/// Shortcuts and their texts keep their places, and a shortcut's text is that of
/// its key with its modifiers.
pub proof fn law_lists_keep_their_places(
    values: [String; 4],
    keys: [HotKey; 4],
    views: Seq<HotKeyView>,
    i: int,
)
    requires
        0 <= i < 4,
    ensures
        crate::hotkey::texts(values).len() == 4,
        crate::hotkey::texts(values)[i] == values[i]@,
        crate::hotkey::keys_view(keys@).len() == 4,
        crate::hotkey::keys_view(keys@)[i] == keys[i]@,
        crate::hotkey::key_texts(views).len() == views.len(),
        i < views.len() ==> crate::hotkey::key_texts(views)[i] == crate::hotkey::chord_text(
            views[i].mods,
            views[i].key,
        ),
        crate::timer_app::active_view(Some(keys)) == Some(keys@),
        crate::timer_app::active_view(None) is None,
{
}

/// The labels of the actions, and what each does to the overlay.
pub proof fn law_actions_and_the_overlay(current: bool)
    ensures
        TimerAction::Start.label() == "Start"@,
        TimerAction::Stop.label() == "Stop"@,
        TimerAction::Reset.label() == "Reset"@,
        TimerAction::ToggleOverlay.label() == "Toggle overlay"@,
        crate::action::overlay_after(current, TimerAction::ToggleOverlay) == !current,
        crate::action::overlay_after(current, TimerAction::Start) == current,
        crate::action::overlay_after(current, TimerAction::Stop) == current,
        crate::action::overlay_after(current, TimerAction::Reset) == current,
{
}

} // verus!
