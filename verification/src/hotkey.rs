//! Shortcuts: a key with modifiers, its identity and its text.

use crate::action::{action_for_index, TimerAction};
use crate::text::push_decimal;
use vstd::prelude::*;
use vstd::string::*;

verus! {

/// The modifiers of a shortcut.
#[derive(Debug, Clone, Copy, PartialEq, Eq, Structural)]
pub struct HotKeyModifiers {
    pub shift: bool,
    pub control: bool,
    pub alt: bool,
    pub super_key: bool,
}

impl HotKeyModifiers {
    pub open spec fn none() -> HotKeyModifiers {
        HotKeyModifiers { shift: false, control: false, alt: false, super_key: false }
    }

    /// The modifiers of either.
    pub open spec fn joined(self, other: HotKeyModifiers) -> HotKeyModifiers {
        HotKeyModifiers {
            shift: self.shift || other.shift,
            control: self.control || other.control,
            alt: self.alt || other.alt,
            super_key: self.super_key || other.super_key,
        }
    }

    /// Whether some modifier is in both.
    pub open spec fn shares(self, other: HotKeyModifiers) -> bool {
        ||| self.shift && other.shift
        ||| self.control && other.control
        ||| self.alt && other.alt
        ||| self.super_key && other.super_key
    }

    /// The number that a set of modifiers counts for in a shortcut's identity.
    pub open spec fn number(self) -> nat {
        let shift: nat = if self.shift {
            0x200
        } else {
            0
        };
        let control: nat = if self.control {
            0x8
        } else {
            0
        };
        let alt: nat = if self.alt {
            0x1
        } else {
            0
        };
        let super_key: nat = if self.super_key {
            0x2000
        } else {
            0
        };
        shift + control + alt + super_key
    }

    /// No modifier.
    pub fn empty() -> (m: HotKeyModifiers)
        ensures
            m == HotKeyModifiers::none(),
    {
        HotKeyModifiers { shift: false, control: false, alt: false, super_key: false }
    }

    pub fn is_empty(self) -> (b: bool)
        ensures
            b == (self == HotKeyModifiers::none()),
    {
        !self.shift && !self.control && !self.alt && !self.super_key
    }

    /// The modifiers of either.
    pub fn union(self, other: HotKeyModifiers) -> (m: HotKeyModifiers)
        ensures
            m == self.joined(other),
    {
        HotKeyModifiers {
            shift: self.shift || other.shift,
            control: self.control || other.control,
            alt: self.alt || other.alt,
            super_key: self.super_key || other.super_key,
        }
    }

    /// Whether some modifier is in both.
    pub fn intersects(self, other: HotKeyModifiers) -> (b: bool)
        ensures
            b == self.shares(other),
    {
        (self.shift && other.shift) || (self.control && other.control) || (self.alt && other.alt)
            || (self.super_key && other.super_key)
    }
}

/// The canonical text of a key code with modifiers.
pub open spec fn chord_text(mods: HotKeyModifiers, key: Seq<char>) -> Seq<char> {
    let shift = if mods.shift {
        "shift+"@
    } else {
        Seq::empty()
    };
    let control = if mods.control {
        "control+"@
    } else {
        Seq::empty()
    };
    let alt = if mods.alt {
        "alt+"@
    } else {
        Seq::empty()
    };
    let super_key = if mods.super_key {
        "super+"@
    } else {
        Seq::empty()
    };
    shift + control + alt + super_key + key
}

/// What a `HotKey` stands for.
pub struct HotKeyView {
    pub mods: HotKeyModifiers,
    /// The name of the key code.
    pub key: Seq<char>,
    /// The identity under which the system reports the shortcut.
    pub id: u32,
}

impl HotKeyView {
    /// The canonical text of a shortcut.
    pub open spec fn text(self) -> Seq<char> {
        chord_text(self.mods, self.key)
    }

    /// What holds of every shortcut: its identity is made of its modifiers and
    /// its key code, and its text reads back as the same shortcut, on every
    /// platform.
    pub open spec fn wf(self) -> bool {
        &&& code_number(self.key) < 0x10000
        &&& self.id == self.mods.number() * 0x10000 + code_number(self.key)
        &&& portable(self.text())
        &&& hotkey_of_text(self.text(), true) == Ok::<HotKeyView, Seq<char>>(self)
        &&& hotkey_of_text(self.text(), false) == Ok::<HotKeyView, Seq<char>>(self)
    }
}

/// Whether a text holds none of the spellings that mean one modifier on macOS
/// and another elsewhere: `CmdOrCtrl`, `CmdOrControl`, `CommandOrCtrl` and
/// `CommandOrControl`. Each has the letters d, o, r and c in a row. A text
/// without them is read alike on every platform; one with them may be, too.
pub open spec fn portable(text: Seq<char>) -> bool {
    forall|i: int|
        0 <= i && i + 3 < text.len() ==> !((#[trigger] text[i] == 'd' || text[i] == 'D') && (text[i
            + 1] == 'o' || text[i + 1] == 'O') && (text[i + 2] == 'r' || text[i + 2] == 'R') && (
        text[i + 3] == 'c' || text[i + 3] == 'C'))
}

/// The number of the key code of this name, as `keyboard_types::Code` numbers
/// its variants.
pub uninterp spec fn code_number(name: Seq<char>) -> u32;

/// What `global_hotkey` reads a text as, on macOS or elsewhere: a shortcut, or
/// the message that says why it is none.
pub uninterp spec fn hotkey_of_text(text: Seq<char>, macos: bool) -> Result<
    HotKeyView,
    Seq<char>,
>;

/// A shortcut: one key with its modifiers.
#[derive(Debug, PartialEq, Eq)]
pub struct HotKey {
    mods: HotKeyModifiers,
    key: String,
    id: u32,
}

impl View for HotKey {
    type V = HotKeyView;

    closed spec fn view(&self) -> HotKeyView {
        HotKeyView { mods: self.mods, key: self.key@, id: self.id }
    }
}

impl Clone for HotKey {
    fn clone(&self) -> (copy: HotKey)
        ensures
            copy == *self,
    {
        proof {
            use_type_invariant(self);
        }
        HotKey { mods: self.mods, key: self.key.clone(), id: self.id }
    }
}

/// A result with its shortcut and its message taken by their views.
pub open spec fn read_view(read: Result<HotKey, String>) -> Result<HotKeyView, Seq<char>> {
    match read {
        Ok(key) => Ok(key@),
        Err(message) => Err(message@),
    }
}

impl HotKey {
    #[verifier::type_invariant]
    spec fn inv(self) -> bool {
        self@.wf()
    }

    /// Calls `FromStr::from_str` of `global_hotkey::hotkey::HotKey`, and the
    /// `Display` of its error. A text is read as `hotkey_of_text` names it for
    /// macOS or for every other platform, and a portable text is read alike on
    /// both. Every shortcut that comes back has an identity made of its
    /// modifiers and its key code, and a canonical text that reads back as
    /// itself. On which platform the program runs is left unsaid.
    #[verifier::external_body]
    fn read(text: &str) -> (read: Result<HotKey, String>)
        ensures
            read_view(read) == hotkey_of_text(text@, true) || read_view(read) == hotkey_of_text(
                text@,
                false,
            ),
            portable(text@) ==> read_view(read) == hotkey_of_text(text@, true) && read_view(read)
                == hotkey_of_text(text@, false),
            read matches Ok(key) ==> key@.wf(),
    {
        match text.parse::<global_hotkey::hotkey::HotKey>() {
            Ok(key) => Ok(
                HotKey {
                    mods: HotKeyModifiers {
                        shift: key.mods.contains(global_hotkey::hotkey::Modifiers::SHIFT),
                        control: key.mods.contains(global_hotkey::hotkey::Modifiers::CONTROL),
                        alt: key.mods.contains(global_hotkey::hotkey::Modifiers::ALT),
                        super_key: key.mods.contains(global_hotkey::hotkey::Modifiers::SUPER),
                    },
                    key: key.key.to_string(),
                    id: key.id(),
                },
            ),
            Err(error) => Err(error.to_string()),
        }
    }

    /// Calls `HotKey::new` of `global_hotkey::hotkey`, with the key code that
    /// `FromStr::from_str` of `keyboard_types::Code` gives for the name. The
    /// shortcut has these modifiers and this key code, the identity made of
    /// them, and a canonical text that reads back as itself. No other key code
    /// that a key serves under has the same number.
    #[verifier::external_body]
    fn with_code(mods: HotKeyModifiers, code: &str) -> (key: HotKey)
        requires
            crate::keys::is_capture_code(code@),
        ensures
            key@.mods == mods,
            key@.key == code@,
            key@.id == mods.number() * 0x10000 + code_number(code@),
            key@.wf(),
            forall|other: Seq<char>|
                crate::keys::is_capture_code(other) && other != key@.key ==> #[trigger] code_number(
                    other,
                ) != code_number(key@.key),
    {
        let mut flags = global_hotkey::hotkey::Modifiers::empty();
        flags.set(global_hotkey::hotkey::Modifiers::SHIFT, mods.shift);
        flags.set(global_hotkey::hotkey::Modifiers::CONTROL, mods.control);
        flags.set(global_hotkey::hotkey::Modifiers::ALT, mods.alt);
        flags.set(global_hotkey::hotkey::Modifiers::SUPER, mods.super_key);
        let key = global_hotkey::hotkey::HotKey::new(Some(flags), code.parse().unwrap());
        HotKey { mods, key: key.key.to_string(), id: key.id() }
    }

    /// Calls the `Display` of `global_hotkey::hotkey::HotKey`: the modifiers in
    /// the order shift, control, alt, super, each with a plus sign behind it,
    /// and then the name of the key code.
    #[verifier::external_body]
    fn show(&self) -> (text: String)
        requires
            self@.wf(),
        ensures
            text@ == self@.text(),
    {
        let mut mods = global_hotkey::hotkey::Modifiers::empty();
        mods.set(global_hotkey::hotkey::Modifiers::SHIFT, self.mods.shift);
        mods.set(global_hotkey::hotkey::Modifiers::CONTROL, self.mods.control);
        mods.set(global_hotkey::hotkey::Modifiers::ALT, self.mods.alt);
        mods.set(global_hotkey::hotkey::Modifiers::SUPER, self.mods.super_key);
        let key = self.key.parse().unwrap();
        global_hotkey::hotkey::HotKey { mods, key, id: self.id }.to_string()
    }

    /// The shortcut of a key code, given by its name, with modifiers.
    pub fn new(mods: HotKeyModifiers, code: &str) -> (key: HotKey)
        requires
            crate::keys::is_capture_code(code@),
        ensures
            key@.mods == mods,
            key@.key == code@,
            key@.wf(),
    {
        HotKey::with_code(mods, code)
    }

    pub fn mods(&self) -> (mods: HotKeyModifiers)
        ensures
            mods == self@.mods,
    {
        self.mods
    }

    /// The name of the key code.
    pub fn key(&self) -> (name: &str)
        ensures
            name@ == self@.key,
    {
        self.key.as_str()
    }

    /// The identity under which the system reports the shortcut.
    pub fn id(&self) -> (id: u32)
        ensures
            id == self@.id,
    {
        self.id
    }

    /// The canonical text of the shortcut, which reads back as the shortcut.
    pub fn text(&self) -> (text: String)
        ensures
            text@ == self@.text(),
            self@.wf(),
    {
        proof {
            use_type_invariant(self);
        }
        self.show()
    }
}

/// What is said of a text at `index` that has been read, where it cannot serve.
pub open spec fn accepted(index: int, read: Result<HotKeyView, Seq<char>>) -> Result<
    HotKeyView,
    Seq<char>,
> {
    match read {
        Err(message) => Err(
            "Shortcut "@ + crate::text::decimal((index + 1) as nat) + ": "@ + message,
        ),
        Ok(key) => if key.mods == HotKeyModifiers::none() {
            Err(
                "Shortcut "@ + crate::text::decimal((index + 1) as nat) + " needs a modifier"@,
            )
        } else {
            Ok(key)
        },
    }
}

/// Whether no two of the shortcuts have the same identity.
pub open spec fn distinct_ids(keys: Seq<HotKeyView>) -> bool {
    forall|i: int, j: int|
        0 <= i < j < keys.len() ==> (#[trigger] keys[i]).id != (#[trigger] keys[j]).id
}

/// The four shortcuts that were read, or the first thing that is wrong with
/// them: a text that is no shortcut or has no modifier, and then two shortcuts
/// of the same identity.
pub open spec fn selected(read: Seq<Result<HotKeyView, Seq<char>>>) -> Result<
    Seq<HotKeyView>,
    Seq<char>,
> {
    match (accepted(0, read[0]), accepted(1, read[1]), accepted(2, read[2]), accepted(3, read[3])) {
        (Err(message), _, _, _) => Err(message),
        (_, Err(message), _, _) => Err(message),
        (_, _, Err(message), _) => Err(message),
        (_, _, _, Err(message)) => Err(message),
        (Ok(a), Ok(b), Ok(c), Ok(d)) => {
            let keys = seq![a, b, c, d];
            if distinct_ids(keys) {
                Ok(keys)
            } else {
                Err("Shortcuts must be distinct"@)
            }
        },
    }
}

/// The shortcuts by their views.
pub open spec fn keys_view(keys: Seq<HotKey>) -> Seq<HotKeyView> {
    keys.map_values(|key: HotKey| key@)
}

/// A result with its shortcuts and its message taken by their views.
pub open spec fn selection_view(result: Result<[HotKey; 4], String>) -> Result<
    Seq<HotKeyView>,
    Seq<char>,
> {
    match result {
        Ok(keys) => Ok(keys_view(keys@)),
        Err(message) => Err(message@),
    }
}

/// The texts of an array of strings.
pub open spec fn texts(values: [String; 4]) -> Seq<Seq<char>> {
    seq![values[0]@, values[1]@, values[2]@, values[3]@]
}

/// Whether `read` can be what a text is read as: what `hotkey_of_text` says of
/// it for one platform or the other, and for both where it is portable.
pub open spec fn text_reads(text: Seq<char>, read: Result<HotKeyView, Seq<char>>) -> bool {
    &&& read == hotkey_of_text(text, true) || read == hotkey_of_text(text, false)
    &&& portable(text) ==> read == hotkey_of_text(text, true) && read == hotkey_of_text(
        text,
        false,
    )
    &&& read matches Ok(key) ==> key.wf()
}

/// Whether `read` can be what texts are read as.
pub open spec fn reads(
    values: Seq<Seq<char>>,
    read: Seq<Result<HotKeyView, Seq<char>>>,
) -> bool {
    &&& read.len() == values.len()
    &&& forall|i: int| 0 <= i < values.len() ==> text_reads(values[i], #[trigger] read[i])
}

/// Whether a text is known to be read alike on every platform.
pub open spec fn reads_alike(text: Seq<char>) -> bool {
    portable(text) || hotkey_of_text(text, true) == hotkey_of_text(text, false)
}

/// Whether texts are known to be read alike on every platform.
pub open spec fn all_read_alike(values: Seq<Seq<char>>) -> bool {
    forall|i: int| 0 <= i < values.len() ==> reads_alike(#[trigger] values[i])
}

/// What texts are read as on a platform.
pub open spec fn reading_on(
    values: Seq<Seq<char>>,
    macos: bool,
) -> Seq<Result<HotKeyView, Seq<char>>> {
    values.map_values(|text: Seq<char>| hotkey_of_text(text, macos))
}

/// Texts that are read alike on every platform are read in one way only.
pub proof fn lemma_one_reading(
    values: Seq<Seq<char>>,
    read: Seq<Result<HotKeyView, Seq<char>>>,
)
    requires
        reads(values, read),
        all_read_alike(values),
    ensures
        forall|macos: bool| #[trigger] reading_on(values, macos) == read,
{
    assert forall|macos: bool| #[trigger] reading_on(values, macos) == read by {
        let on = reading_on(values, macos);
        assert forall|i: int| 0 <= i < values.len() implies on[i] == read[i] by {
            assert(reads_alike(values[i]));
            assert(text_reads(values[i], read[i]));
        }
        assert(on =~= read);
    }
}

fn accept(index: u64, read: Result<HotKey, String>) -> (accepted_key: Result<HotKey, String>)
    requires
        index < 4,
    ensures
        read_view(accepted_key) == accepted(index as int, read_view(read)),
        accepted_key is Ok ==> accepted_key == read,
{
    let mut message = "Shortcut ".to_owned();
    push_decimal(&mut message, index + 1);
    match read {
        Err(error) => {
            message.append(": ");
            message.append(error.as_str());
            Err(message)
        },
        Ok(key) => if key.mods().is_empty() {
            message.append(" needs a modifier");
            Err(message)
        } else {
            Ok(key)
        },
    }
}

/// The four shortcuts that have been read, in their order, or the first thing
/// that is wrong with them.
pub fn select_shortcuts(
    first: Result<HotKey, String>,
    second: Result<HotKey, String>,
    third: Result<HotKey, String>,
    fourth: Result<HotKey, String>,
) -> (result: Result<[HotKey; 4], String>)
    ensures
        selection_view(result) == selected(
            seq![read_view(first), read_view(second), read_view(third), read_view(fourth)],
        ),
{
    let a = match accept(0, first) {
        Ok(key) => key,
        Err(message) => {
            return Err(message);
        },
    };
    let b = match accept(1, second) {
        Ok(key) => key,
        Err(message) => {
            return Err(message);
        },
    };
    let c = match accept(2, third) {
        Ok(key) => key,
        Err(message) => {
            return Err(message);
        },
    };
    let d = match accept(3, fourth) {
        Ok(key) => key,
        Err(message) => {
            return Err(message);
        },
    };
    let ghost keys = seq![a@, b@, c@, d@];
    let distinct = a.id() != b.id() && a.id() != c.id() && a.id() != d.id() && b.id() != c.id()
        && b.id() != d.id() && c.id() != d.id();
    proof {
        assert(keys[0] == a@ && keys[1] == b@ && keys[2] == c@ && keys[3] == d@);
        assert(distinct == distinct_ids(keys));
    }
    if distinct {
        let out = [a, b, c, d];
        assert(keys_view(out@) =~= keys);
        Ok(out)
    } else {
        Err("Shortcuts must be distinct".to_owned())
    }
}

/// The four shortcuts that the texts name. Each must have a modifier, and no
/// two may have the same identity, however they are spelled.
pub fn parse_shortcuts(values: &[String; 4]) -> (result: Result<[HotKey; 4], String>)
    ensures
        exists|read: Seq<Result<HotKeyView, Seq<char>>>|
            #[trigger] reads(texts(*values), read) && selection_view(result) == selected(read),
        all_read_alike(texts(*values)) ==> forall|macos: bool|
            selection_view(result) == selected(#[trigger] reading_on(texts(*values), macos)),
{
    let first = HotKey::read(values[0].as_str());
    let second = HotKey::read(values[1].as_str());
    let third = HotKey::read(values[2].as_str());
    let fourth = HotKey::read(values[3].as_str());
    let ghost read = seq![
        read_view(first),
        read_view(second),
        read_view(third),
        read_view(fourth),
    ];
    proof {
        assert(reads(texts(*values), read));
        if all_read_alike(texts(*values)) {
            lemma_one_reading(texts(*values), read);
        }
    }
    select_shortcuts(first, second, third, fourth)
}

/// The texts of the shortcuts that the timer starts out with.
pub open spec fn default_texts() -> Seq<Seq<char>> {
    seq![
        "control+alt+KeyS"@,
        "control+alt+KeyT"@,
        "control+alt+KeyR"@,
        "control+alt+KeyO"@,
    ]
}

/// The canonical texts of shortcuts.
pub open spec fn key_texts(keys: Seq<HotKeyView>) -> Seq<Seq<char>> {
    keys.map_values(|key: HotKeyView| key.text())
}

/// Whether four shortcuts can be registered together.
pub open spec fn valid_keys(keys: Seq<HotKeyView>) -> bool {
    &&& keys.len() == 4
    &&& forall|i: int|
        0 <= i < 4 ==> (#[trigger] keys[i]).wf() && keys[i].mods != HotKeyModifiers::none()
    &&& distinct_ids(keys)
}

/// Whether four texts are the canonical texts of shortcuts that can be
/// registered together.
pub open spec fn canonical(values: Seq<Seq<char>>) -> bool {
    exists|keys: Seq<HotKeyView>| #[trigger] valid_keys(keys) && values == key_texts(keys)
}

/// The shortcuts that the timer starts out with.
pub fn default_hotkeys() -> (keys: [HotKey; 4])
    ensures
        valid_keys(keys_view(keys@)),
        key_texts(keys_view(keys@)) == default_texts(),
{
    let mods = HotKeyModifiers { shift: false, control: true, alt: true, super_key: false };
    proof {
        assert(crate::keys::code_name(crate::keys::Key::S) == Some("KeyS"@));
        assert(crate::keys::code_name(crate::keys::Key::T) == Some("KeyT"@));
        assert(crate::keys::code_name(crate::keys::Key::R) == Some("KeyR"@));
        assert(crate::keys::code_name(crate::keys::Key::O) == Some("KeyO"@));
        reveal_strlit("KeyS");
        reveal_strlit("KeyT");
        reveal_strlit("KeyR");
        reveal_strlit("KeyO");
        reveal_strlit("control+");
        reveal_strlit("alt+");
        reveal_strlit("control+alt+KeyS");
        reveal_strlit("control+alt+KeyT");
        reveal_strlit("control+alt+KeyR");
        reveal_strlit("control+alt+KeyO");
    }
    let a = HotKey::with_code(mods, "KeyS");
    let b = HotKey::with_code(mods, "KeyT");
    let c = HotKey::with_code(mods, "KeyR");
    let d = HotKey::with_code(mods, "KeyO");
    proof {
        assert("KeyS"@[3] != "KeyT"@[3]);
        assert("KeyS"@[3] != "KeyR"@[3]);
        assert("KeyS"@[3] != "KeyO"@[3]);
        assert("KeyT"@[3] != "KeyR"@[3]);
        assert("KeyT"@[3] != "KeyO"@[3]);
        assert("KeyR"@[3] != "KeyO"@[3]);
        assert(a@.text() =~= "control+alt+KeyS"@);
        assert(b@.text() =~= "control+alt+KeyT"@);
        assert(c@.text() =~= "control+alt+KeyR"@);
        assert(d@.text() =~= "control+alt+KeyO"@);
    }
    let keys = [a, b, c, d];
    proof {
        let views = keys_view(keys@);
        assert(views =~= seq![a@, b@, c@, d@]);
        assert(distinct_ids(views));
        assert(key_texts(views) =~= default_texts());
    }
    keys
}

/// A copy of four shortcuts.
pub fn copy_keys(keys: &[HotKey; 4]) -> (copy: [HotKey; 4])
    ensures
        copy == *keys,
{
    let copy = [keys[0].clone(), keys[1].clone(), keys[2].clone(), keys[3].clone()];
    assert(copy@ =~= keys@);
    assert(copy =~= *keys);
    copy
}

/// The texts of the shortcuts, in their order.
pub fn shortcut_texts(keys: &[HotKey; 4]) -> (values: [String; 4])
    ensures
        texts(values) == key_texts(keys_view(keys@)),
{
    let values = [keys[0].text(), keys[1].text(), keys[2].text(), keys[3].text()];
    assert(texts(values) =~= key_texts(keys_view(keys@)));
    values
}

/// Whether a shortcut went down or up.
#[derive(Debug, Clone, Copy, PartialEq, Eq, Structural)]
pub enum HotKeyState {
    Pressed,
    Released,
}

/// What the system reports of a registered shortcut.
#[derive(Debug, Clone, Copy, PartialEq, Eq, Structural)]
pub struct GlobalHotKeyEvent {
    pub id: u32,
    pub state: HotKeyState,
}

/// The action that an event asks for: that of the first shortcut with the
/// event's identity, when it goes down.
pub open spec fn event_action(event: GlobalHotKeyEvent, keys: Seq<HotKeyView>) -> Option<
    TimerAction,
> {
    if event.state == HotKeyState::Released {
        None
    } else if keys[0].id == event.id {
        Some(crate::action::action_at(0))
    } else if keys[1].id == event.id {
        Some(crate::action::action_at(1))
    } else if keys[2].id == event.id {
        Some(crate::action::action_at(2))
    } else if keys[3].id == event.id {
        Some(crate::action::action_at(3))
    } else {
        None
    }
}

/// The action that an event asks for, where shortcuts are active.
pub fn action_for_event(event: GlobalHotKeyEvent, shortcuts: Option<&[HotKey; 4]>) -> (action:
    Option<TimerAction>)
    ensures
        action == (match shortcuts {
            Some(keys) => event_action(event, keys_view(keys@)),
            None => None,
        }),
{
    match event.state {
        HotKeyState::Pressed => {},
        HotKeyState::Released => {
            return None;
        },
    }
    let keys = match shortcuts {
        Some(keys) => keys,
        None => {
            return None;
        },
    };
    let ghost views = keys_view(keys@);
    let mut index: usize = 0;
    while index < 4
        invariant
            index <= 4,
            views == keys_view(keys@),
            shortcuts == Some(keys),
            event.state == HotKeyState::Pressed,
            index > 0 ==> views[0].id != event.id,
            index > 1 ==> views[1].id != event.id,
            index > 2 ==> views[2].id != event.id,
            index > 3 ==> views[3].id != event.id,
        decreases 4 - index,
    {
        assert(views[index as int] == keys[index as int]@);
        if keys[index].id() == event.id {
            return Some(action_for_index(index));
        }
        index = index + 1;
    }
    None
}

/// Of four shortcuts that can be registered together, each one asks for its own
/// action when it goes down, and for nothing when it goes up.
pub proof fn law_each_shortcut_has_its_action(keys: Seq<HotKeyView>, index: int)
    requires
        valid_keys(keys),
        0 <= index < 4,
    ensures
        event_action(
            GlobalHotKeyEvent { id: keys[index].id, state: HotKeyState::Pressed },
            keys,
        ) == Some(crate::action::action_at(index)),
        event_action(
            GlobalHotKeyEvent { id: keys[index].id, state: HotKeyState::Released },
            keys,
        ) is None,
{
}

/// Shortcuts whose modifiers differ have different identities.
pub proof fn law_modifiers_tell_shortcuts_apart(a: HotKeyView, b: HotKeyView)
    requires
        a.wf(),
        b.wf(),
        a.mods != b.mods,
    ensures
        a.id != b.id,
{
    assert(a.mods.number() != b.mods.number());
}

/// The canonical texts of four shortcuts that can be registered together read
/// back as those shortcuts, on every platform.
pub proof fn law_canonical_texts_read_back(keys: Seq<HotKeyView>, macos: bool)
    requires
        valid_keys(keys),
    ensures
        all_read_alike(key_texts(keys)),
        selected(reading_on(key_texts(keys), macos)) == Ok::<Seq<HotKeyView>, Seq<char>>(keys),
{
    let read = reading_on(key_texts(keys), macos);
    assert forall|i: int| 0 <= i < 4 implies #[trigger] read[i] == Ok::<HotKeyView, Seq<char>>(
        keys[i],
    ) && reads_alike(key_texts(keys)[i]) by {
        assert(keys[i].wf());
    }
    assert(seq![keys[0], keys[1], keys[2], keys[3]] =~= keys);
}

/// Whatever is selected can be registered together, and nothing else is
/// selected.
pub proof fn law_selected_shortcuts_are_valid(read: Seq<Result<HotKeyView, Seq<char>>>)
    requires
        read.len() == 4,
        forall|i: int| 0 <= i < 4 ==> ((#[trigger] read[i]) matches Ok(key) ==> key.wf()),
    ensures
        selected(read) matches Ok(keys) ==> valid_keys(keys) && forall|i: int|
            0 <= i < 4 ==> read[i] == Ok::<HotKeyView, Seq<char>>(#[trigger] keys[i]),
        selected(read) is Ok <==> {
            &&& forall|i: int|
                0 <= i < 4 ==> (#[trigger] read[i]) is Ok && read[i]->Ok_0.mods
                    != HotKeyModifiers::none()
            &&& forall|i: int, j: int|
                0 <= i < j < 4 ==> (#[trigger] read[i])->Ok_0.id != (#[trigger] read[j])->Ok_0.id
        },
{
    assert(read[0] is Ok ==> read[0]->Ok_0.wf());
    assert(read[1] is Ok ==> read[1]->Ok_0.wf());
    assert(read[2] is Ok ==> read[2]->Ok_0.wf());
    assert(read[3] is Ok ==> read[3]->Ok_0.wf());
    let keys = seq![read[0]->Ok_0, read[1]->Ok_0, read[2]->Ok_0, read[3]->Ok_0];
    assert(keys[0] == read[0]->Ok_0);
    assert(keys[1] == read[1]->Ok_0);
    assert(keys[2] == read[2]->Ok_0);
    assert(keys[3] == read[3]->Ok_0);
}

} // verus!
