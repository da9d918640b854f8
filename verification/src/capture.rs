//! Capturing a shortcut from the keys that the user presses.

use crate::hotkey::{HotKey, HotKeyModifiers};
use crate::keys::{is_modifier_key, map_key, Event, Key, Modifiers};
use vstd::prelude::*;

verus! {

/// The modifiers of a shortcut among those of an event.
pub open spec fn mods_of(m: Modifiers) -> HotKeyModifiers {
    HotKeyModifiers { shift: m.shift, control: m.ctrl, alt: m.alt, super_key: m.mac_cmd }
}

/// The modifiers of a shortcut among those of an event.
pub fn event_mods(m: Modifiers) -> (mods: HotKeyModifiers)
    ensures
        mods == mods_of(m),
        mods.shift == m.shift,
        mods.control == m.ctrl,
        mods.alt == m.alt,
        mods.super_key == m.mac_cmd,
{
    HotKeyModifiers { shift: m.shift, control: m.ctrl, alt: m.alt, super_key: m.mac_cmd }
}

/// A capture that is under way: everything pressed since it began.
#[derive(Debug)]
pub struct CaptureState {
    target: usize,
    modifiers: HotKeyModifiers,
    primary: Option<Key>,
    held: Vec<Key>,
    invalid: Option<String>,
}

/// What a `CaptureState` stands for.
#[verifier::ext_equal]
pub struct CaptureView {
    /// The place of the shortcut that is being captured.
    pub target: usize,
    /// The modifiers that have been held.
    pub modifiers: HotKeyModifiers,
    /// The first key that is not a modifier.
    pub primary: Option<Key>,
    /// The keys that are down.
    pub held: Set<Key>,
    /// Why what has been pressed cannot be a shortcut.
    pub invalid: Option<Seq<char>>,
}

impl View for CaptureState {
    type V = CaptureView;

    closed spec fn view(&self) -> CaptureView {
        CaptureView {
            target: self.target,
            modifiers: self.modifiers,
            primary: self.primary,
            held: self.held@.to_set(),
            invalid: match self.invalid {
                Some(message) => Some(message@),
                None => None,
            },
        }
    }
}

/// What has become of a capture.
#[derive(Debug, PartialEq, Eq)]
pub enum CaptureResult {
    Continue,
    Cancelled,
    Committed(HotKey),
    Rejected(String),
}

/// What a `CaptureResult` stands for.
pub enum CaptureResultView {
    Continue,
    Cancelled,
    /// A shortcut of these modifiers and the key code of this name.
    Committed(HotKeyModifiers, Seq<char>),
    Rejected(Seq<char>),
}

impl View for CaptureResult {
    type V = CaptureResultView;

    open spec fn view(&self) -> CaptureResultView {
        match *self {
            CaptureResult::Continue => CaptureResultView::Continue,
            CaptureResult::Cancelled => CaptureResultView::Cancelled,
            CaptureResult::Committed(key) => CaptureResultView::Committed(key@.mods, key@.key),
            CaptureResult::Rejected(message) => CaptureResultView::Rejected(message@),
        }
    }
}

impl CaptureView {
    /// A capture in which nothing has been pressed.
    pub open spec fn fresh(target: usize) -> CaptureView {
        CaptureView {
            target,
            modifiers: HotKeyModifiers::none(),
            primary: None,
            held: Set::empty(),
            invalid: None,
        }
    }

    /// Whether the first key can serve in a shortcut, where there is one.
    pub open spec fn serves(self) -> bool {
        self.primary matches Some(key) ==> crate::keys::code_name(key) is Some
    }

    /// Whether an event says nothing to a capture: it is not of the keyboard,
    /// or the key was down already.
    pub open spec fn ignores(event: Event) -> bool {
        match event {
            Event::Key(e) => e.pressed && e.repeat,
            Event::Other(_) => true,
        }
    }

    /// Whether an event gives a capture up.
    pub open spec fn cancels(event: Event) -> bool {
        !CaptureView::ignores(event) && event->Key_0.pressed && event->Key_0.key == Key::Escape
    }

    /// A capture after a key other than a modifier went down.
    pub open spec fn pressed(self, key: Key) -> CaptureView {
        if crate::keys::code_name(key) is None {
            CaptureView { invalid: Some("Unsupported key"@), ..self }
        } else {
            CaptureView {
                primary: match self.primary {
                    Some(old) => Some(old),
                    None => Some(key),
                },
                held: self.held.insert(key),
                invalid: if self.primary is Some && self.primary != Some(key) {
                    Some("Use one primary key"@)
                } else {
                    self.invalid
                },
                ..self
            }
        }
    }

    /// A capture after an event.
    pub open spec fn after(self, event: Event) -> CaptureView {
        if CaptureView::ignores(event) {
            self
        } else {
            let e = event->Key_0;
            let noted = CaptureView {
                modifiers: self.modifiers.joined(mods_of(e.modifiers)),
                ..self
            };
            let key = match e.physical_key {
                Some(physical) => physical,
                None => e.key,
            };
            if CaptureView::cancels(event) || crate::keys::modifies(e.key) || crate::keys::modifies(
                key,
            ) {
                noted
            } else if e.pressed {
                noted.pressed(key)
            } else {
                CaptureView { held: noted.held.remove(key), ..noted }
            }
        }
    }

    /// What a capture comes to while `modifiers` are held: it is decided once
    /// every key and every modifier of it has been let go.
    pub open spec fn finish(self, modifiers: Modifiers) -> CaptureResultView {
        if self.held != Set::<Key>::empty() || mods_of(modifiers).shares(self.modifiers) {
            CaptureResultView::Continue
        } else if self.primary is None && self.modifiers == HotKeyModifiers::none() {
            CaptureResultView::Continue
        } else if self.invalid is Some {
            CaptureResultView::Rejected(self.invalid->0)
        } else if self.primary is None {
            CaptureResultView::Rejected("Add a modifier and one primary key"@)
        } else if self.modifiers == HotKeyModifiers::none() {
            CaptureResultView::Rejected("Add at least one modifier"@)
        } else {
            CaptureResultView::Committed(
                self.modifiers,
                crate::keys::code_name(self.primary->0)->0,
            )
        }
    }
}

impl Clone for CaptureState {
    fn clone(&self) -> (copy: CaptureState)
        ensures
            copy@ == self@,
    {
        proof {
            use_type_invariant(self);
        }
        let held = self.held.clone();
        assert(held@ =~= self.held@);
        CaptureState {
            target: self.target,
            modifiers: self.modifiers,
            primary: self.primary,
            held,
            invalid: match &self.invalid {
                Some(message) => Some(message.clone()),
                None => None,
            },
        }
    }
}

impl CaptureState {
    #[verifier::type_invariant]
    spec fn inv(self) -> bool {
        &&& self.held@.no_duplicates()
        &&& self.primary matches Some(key) ==> crate::keys::code_name(key) is Some
    }

    /// A capture of the shortcut at `target`, in which nothing has been pressed.
    pub fn new(target: usize) -> (state: CaptureState)
        ensures
            state@ == CaptureView::fresh(target),
    {
        let state = CaptureState {
            target,
            modifiers: HotKeyModifiers::empty(),
            primary: None,
            held: Vec::new(),
            invalid: None,
        };
        assert(state.held@.to_set() =~= Set::empty());
        state
    }

    /// The place of the shortcut that is being captured.
    pub fn target(&self) -> (target: usize)
        ensures
            target == self@.target,
    {
        self.target
    }

    /// The place of `key` among those that are down.
    fn place(&self, key: Key) -> (place: Option<usize>)
        ensures
            place matches Some(i) ==> i < self.held@.len() && self.held@[i as int] == key,
            place is None ==> !self.held@.contains(key),
    {
        let mut i: usize = 0;
        while i < self.held.len()
            invariant
                i <= self.held@.len(),
                forall|j: int| 0 <= j < i ==> self.held@[j] != key,
            decreases self.held@.len() - i,
        {
            if self.held[i] == key {
                return Some(i);
            }
            i = i + 1;
        }
        None
    }
}

proof fn lemma_pressed(held: Seq<Key>, key: Key)
    ensures
        held.push(key).to_set() == held.to_set().insert(key),
        held.contains(key) ==> held.to_set() == held.to_set().insert(key),
        held.no_duplicates() && !held.contains(key) ==> held.push(key).no_duplicates(),
{
    let longer = held.push(key);
    assert forall|k: Key| longer.to_set().contains(k) == held.to_set().insert(key).contains(k) by {
        if held.contains(k) {
            let i = choose|i: int| 0 <= i < held.len() && held[i] == k;
            assert(longer[i] == k);
        }
        assert(longer[held.len() as int] == key);
    }
    assert(longer.to_set() =~= held.to_set().insert(key));
    if held.contains(key) {
        assert(held.to_set() =~= held.to_set().insert(key));
    }
}

proof fn lemma_released(held: Seq<Key>, place: int)
    requires
        held.no_duplicates(),
        0 <= place < held.len(),
    ensures
        held.remove(place).to_set() == held.to_set().remove(held[place]),
        held.remove(place).no_duplicates(),
{
    let shorter = held.remove(place);
    assert forall|k: Key|
        shorter.to_set().contains(k) == held.to_set().remove(held[place]).contains(k) by {
        if shorter.contains(k) {
            let i = choose|i: int| 0 <= i < shorter.len() && shorter[i] == k;
            if i < place {
                assert(held[i] == k);
            } else {
                assert(held[i + 1] == k);
            }
        }
        if held.contains(k) && k != held[place] {
            let i = choose|i: int| 0 <= i < held.len() && held[i] == k;
            if i < place {
                assert(shorter[i] == k);
            } else {
                assert(shorter[i - 1] == k);
            }
        }
    }
    assert(shorter.to_set() =~= held.to_set().remove(held[place]));
}

/// Takes an event into a capture.
pub fn process_capture(state: &mut CaptureState, event: &Event) -> (result: CaptureResult)
    ensures
        final(state)@ == old(state)@.after(*event),
        result@ == (if CaptureView::cancels(*event) {
            CaptureResultView::Cancelled
        } else {
            CaptureResultView::Continue
        }),
{
    let e = match event {
        Event::Key(e) => e,
        Event::Other(_) => {
            return CaptureResult::Continue;
        },
    };
    if e.pressed && e.repeat {
        return CaptureResult::Continue;
    }
    proof {
        use_type_invariant(&*state);
    }
    state.modifiers = state.modifiers.union(event_mods(e.modifiers));
    if e.pressed && e.key == Key::Escape {
        return CaptureResult::Cancelled;
    }
    let key = match e.physical_key {
        Some(physical) => physical,
        None => e.key,
    };
    if is_modifier_key(e.key) || is_modifier_key(key) {
        return CaptureResult::Continue;
    }
    let place = state.place(key);
    let mut held: Vec<Key> = Vec::new();
    std::mem::swap(&mut held, &mut state.held);
    let ghost before = held@;
    if e.pressed {
        if map_key(key).is_some() {
            match state.primary {
                Some(old) => {
                    if old != key {
                        state.invalid = Some("Use one primary key".to_owned());
                    }
                },
                None => {
                    state.primary = Some(key);
                },
            }
            if place.is_none() {
                held.push(key);
            }
            proof {
                lemma_pressed(before, key);
            }
        } else {
            state.invalid = Some("Unsupported key".to_owned());
        }
    } else if let Some(i) = place {
        held.remove(i);
        proof {
            lemma_released(before, i as int);
        }
    } else {
        assert(before.to_set().remove(key) =~= before.to_set());
    }
    state.held = held;
    CaptureResult::Continue
}

/// Decides a capture while `modifiers` are held. A shortcut that it comes to has
/// a canonical text that reads back as itself.
pub fn finish_capture(state: &CaptureState, modifiers: Modifiers) -> (result: CaptureResult)
    ensures
        result@ == state@.finish(modifiers),
        state@.serves(),
        result matches CaptureResult::Committed(key) ==> key@.wf() && state@.primary is Some
            && crate::keys::code_name(state@.primary->0) == Some(key@.key),
{
    proof {
        use_type_invariant(state);
        if state.held@.len() == 0 {
            assert(state.held@.to_set() =~= Set::empty());
        } else {
            assert(state.held@.to_set().contains(state.held@[0]));
        }
    }
    if !state.held.is_empty() || event_mods(modifiers).intersects(state.modifiers) {
        return CaptureResult::Continue;
    }
    if state.primary.is_none() && state.modifiers.is_empty() {
        return CaptureResult::Continue;
    }
    if let Some(message) = &state.invalid {
        return CaptureResult::Rejected(message.clone());
    }
    let code = match state.primary {
        Some(key) => map_key(key),
        None => {
            return CaptureResult::Rejected("Add a modifier and one primary key".to_owned());
        },
    };
    if state.modifiers.is_empty() {
        return CaptureResult::Rejected("Add at least one modifier".to_owned());
    }
    match code {
        Some(name) => {
            assert(crate::keys::code_name(state.primary->0) == Some(name@));
            CaptureResult::Committed(HotKey::new(state.modifiers, name))
        },
        None => {
            assert(false);
            CaptureResult::Continue
        },
    }
}

/// A capture after events, up to the first that gives it up, and whether one
/// does.
pub open spec fn after_events(state: CaptureView, events: Seq<Event>) -> (CaptureView, bool)
    decreases events.len(),
{
    if events.len() == 0 {
        (state, false)
    } else {
        let (before, cancelled) = after_events(state, events.drop_last());
        if cancelled {
            (before, true)
        } else {
            (before.after(events.last()), CaptureView::cancels(events.last()))
        }
    }
}

/// What a capture comes to by events, while `modifiers` are held after them.
pub open spec fn outcome_of_events(
    state: CaptureView,
    events: Seq<Event>,
    modifiers: Modifiers,
) -> CaptureResultView {
    let (after, cancelled) = after_events(state, events);
    if cancelled {
        CaptureResultView::Cancelled
    } else {
        after.finish(modifiers)
    }
}

/// Once a capture has been given up, further events are not looked at.
proof fn lemma_cancelled_stays(state: CaptureView, events: Seq<Event>, count: int)
    requires
        0 <= count <= events.len(),
        after_events(state, events.take(count)).1,
    ensures
        after_events(state, events) == after_events(state, events.take(count)),
    decreases events.len() - count,
{
    if count == events.len() {
        assert(events.take(count) =~= events);
    } else {
        assert(events.take(count + 1).drop_last() =~= events.take(count));
        lemma_cancelled_stays(state, events, count + 1);
    }
}

/// A capture stays one of the same shortcut.
pub proof fn lemma_target_stays(state: CaptureView, events: Seq<Event>)
    ensures
        after_events(state, events).0.target == state.target,
    decreases events.len(),
{
    if events.len() > 0 {
        lemma_target_stays(state, events.drop_last());
    }
}

/// Takes events into a capture, up to the first that gives it up, and decides it
/// while `modifiers` are held.
pub fn capture_events(state: &mut CaptureState, events: &Vec<Event>, modifiers: Modifiers) -> (result:
    CaptureResult)
    ensures
        final(state)@ == after_events(old(state)@, events@).0,
        result@ == outcome_of_events(old(state)@, events@, modifiers),
        result matches CaptureResult::Committed(key) ==> key@.wf() && final(state)@.primary is Some
            && crate::keys::code_name(final(state)@.primary->0) == Some(key@.key),
{
    let ghost start = state@;
    let mut i: usize = 0;
    assert(events@.take(0) =~= Seq::empty());
    while i < events.len()
        invariant
            i <= events@.len(),
            start == old(state)@,
            after_events(start, events@.take(i as int)) == (state@, false),
        decreases events@.len() - i,
    {
        proof {
            assert(events@.take(i + 1).drop_last() =~= events@.take(i as int));
            assert(events@.take(i + 1).last() == events@[i as int]);
        }
        match process_capture(state, &events[i]) {
            CaptureResult::Continue => {},
            result => {
                proof {
                    lemma_cancelled_stays(start, events@, i + 1);
                }
                return result;
            },
        }
        i = i + 1;
    }
    assert(events@.take(i as int) =~= events@);
    finish_capture(state, modifiers)
}

/// The events of the keyboard, in order.
pub open spec fn key_events(events: Seq<Event>) -> Seq<Event> {
    events.filter(|event: Event| event is Key)
}

/// The events that are not of the keyboard, in order.
pub open spec fn other_events(events: Seq<Event>) -> Seq<Event> {
    events.filter(|event: Event| event is Other)
}

/// Takes the events of the keyboard out of a queue, so that nothing else sees
/// them. Both they and what is left keep their order.
pub fn take_capture_key_events(events: &mut Vec<Event>) -> (captured: Vec<Event>)
    ensures
        captured@ == key_events(old(events)@),
        final(events)@ == other_events(old(events)@),
{
    let ghost all = events@;
    let mut captured: Vec<Event> = Vec::new();
    let mut i: usize = 0;
    let ghost mut seen: int = 0;
    reveal(Seq::filter);
    assert(all.skip(0) =~= all);
    assert(all.take(0) =~= Seq::empty());
    while i < events.len()
        invariant
            0 <= seen <= all.len(),
            i <= events@.len(),
            events@.take(i as int) == other_events(all.take(seen)),
            events@.skip(i as int) == all.skip(seen),
            captured@ == key_events(all.take(seen)),
        decreases all.len() - seen,
    {
        let ghost kept = events@;
        assert(kept.skip(i as int).len() > 0);
        assert(kept[i as int] == all[seen]) by {
            assert(kept.skip(i as int)[0] == all.skip(seen)[0]);
        }
        proof {
            reveal(Seq::filter);
            assert(all.take(seen + 1).drop_last() =~= all.take(seen));
            assert(all.take(seen + 1).last() == all[seen]);
        }
        let is_key = match events[i] {
            Event::Key(_) => true,
            Event::Other(_) => false,
        };
        if is_key {
            let event = events.remove(i);
            captured.push(event);
            assert(events@.take(i as int) =~= kept.take(i as int));
            assert(events@.skip(i as int) =~= all.skip(seen + 1)) by {
                assert(kept.skip(i as int).skip(1) =~= events@.skip(i as int));
                assert(all.skip(seen).skip(1) =~= all.skip(seen + 1));
            }
        } else {
            assert(events@.take(i + 1) =~= kept.take(i as int).push(all[seen]));
            assert(events@.skip(i + 1) =~= all.skip(seen + 1)) by {
                assert(kept.skip(i as int).skip(1) =~= events@.skip(i + 1));
                assert(all.skip(seen).skip(1) =~= all.skip(seen + 1));
            }
            i = i + 1;
        }
        proof {
            seen = seen + 1;
        }
    }
    assert(events@.take(i as int) =~= events@);
    assert(seen == all.len()) by {
        assert(events@.skip(i as int).len() == 0);
    }
    assert(all.take(seen) =~= all);
    captured
}

/// A capture is not decided while a key is down or a modifier of it is held.
pub proof fn law_capture_waits_for_release(state: CaptureView, modifiers: Modifiers, key: Key)
    requires
        state.held.contains(key) || mods_of(modifiers).shares(state.modifiers),
    ensures
        state.finish(modifiers) is Continue,
{
}

/// The first key of a capture can always serve in a shortcut, and a shortcut
/// that the capture comes to has the key code of that key.
pub proof fn law_captured_keys_serve(
    state: CaptureView,
    target: usize,
    event: Event,
    modifiers: Modifiers,
)
    ensures
        CaptureView::fresh(target).serves(),
        state.serves() ==> state.after(event).serves(),
        state.serves() ==> (state.finish(modifiers) matches CaptureResultView::Committed(_, code)
            ==> crate::keys::code_name(state.primary->0) == Some(code)
            && crate::keys::is_capture_code(code)),
{
}

/// Only a shortcut with a modifier and a first key is ever committed.
pub proof fn law_committed_shortcuts_have_a_modifier(state: CaptureView, modifiers: Modifiers)
    ensures
        state.finish(modifiers) matches CaptureResultView::Committed(mods, code) ==> mods
            != HotKeyModifiers::none() && mods == state.modifiers && state.primary is Some,
{
}

/// The modifiers of a capture only grow, and its first key stays.
pub proof fn law_capture_keeps_what_was_pressed(state: CaptureView, event: Event)
    ensures
        state.modifiers.joined(state.after(event).modifiers) == state.after(event).modifiers,
        state.primary is Some ==> state.after(event).primary == state.primary,
        state.invalid is Some ==> state.after(event).invalid is Some,
        state.after(event).target == state.target,
{
}

} // verus!
