//! Which preferences a file comes to, what is loaded, and how saving goes.

use crate::load::ReadView;
use crate::replace::ReplaceView;
use crate::save::{EventView, Place, StepView};
use crate::schema::{DecodeErrorView, FileView, RawView};
use crate::settings::SettingsView;
use vstd::prelude::*;
use vstd::utf8::*;

verus! {

/// What is sound in a file is kept as it stands there: each switch, each color
/// that can be read, a number of digits up to two, an angle from 0 to 360, a size
/// from 32 to 180. A number of digits above two counts as two and an angle beyond
/// its range as the nearer end of it; a background keeps its color and is opaque.
pub proof fn law_sound_fields_are_kept(raw: RawView, settings: SettingsView)
    requires
        raw.normalizes_to(settings),
    ensures
        ({
            let look = settings.appearance;
            &&& raw.show_milliseconds matches Some(b) ==> settings.show_milliseconds == b
            &&& raw.overlay_mode matches Some(b) ==> settings.overlay_mode == b
            &&& raw.gradient matches Some(b) ==> look.gradient == b
            &&& raw.native_transparency matches Some(b) ==> look.native_transparency == b
            &&& raw.fractional_digits matches Some(n) ==> {
                &&& n <= 2 ==> settings.fractional_digits == n
                &&& n > 2 ==> settings.fractional_digits == 2
            }
            &&& raw.text_color matches Some(text) ==> (crate::color::color_of(
                encode_utf8(text),
            ) matches Some(color) ==> look.text_color == color)
            &&& raw.gradient_end matches Some(text) ==> (crate::color::color_of(
                encode_utf8(text),
            ) matches Some(color) ==> look.gradient_end == color)
            &&& raw.chroma_key matches Some(text) ==> (crate::color::color_of(
                encode_utf8(text),
            ) matches Some(color) ==> look.chroma_key == [color[0], color[1], color[2], 255u8])
            &&& raw.gradient_angle matches Some(angle) ==> {
                &&& angle.bits <= 0x43b4_0000 ==> look.gradient_angle == angle
                &&& 0x43b4_0000 < angle.bits < 0x7f80_0000 ==> look.gradient_angle.bits
                    == 0x43b4_0000
                &&& 0x8000_0000 < angle.bits < 0xff80_0000 ==> look.gradient_angle.bits == 0
            }
            &&& raw.font_size matches Some(size) ==> (0x4200_0000 <= size.bits <= 0x4334_0000
                ==> look.font_size == size)
        }),
{
}

/// What is missing from a file or cannot be used is as if nothing had been said
/// of it: milliseconds are shown, in two digits, there is no overlay and no
/// gradient, transparency is preferred, and colors, angle and size are the
/// default ones.
pub proof fn law_unusable_fields_come_to_the_defaults(raw: RawView, settings: SettingsView)
    requires
        raw.normalizes_to(settings),
    ensures
        ({
            let look = settings.appearance;
            &&& raw.show_milliseconds is None ==> settings.show_milliseconds
            &&& raw.overlay_mode is None ==> !settings.overlay_mode
            &&& raw.gradient is None ==> !look.gradient
            &&& raw.native_transparency is None ==> look.native_transparency
            &&& raw.fractional_digits is None ==> settings.fractional_digits == 2
            &&& (raw.text_color matches Some(text) ==> crate::color::color_of(
                encode_utf8(text),
            ) is None) ==> look.text_color == [92u8, 255u8, 120u8, 255u8]
            &&& (raw.gradient_end matches Some(text) ==> crate::color::color_of(
                encode_utf8(text),
            ) is None) ==> look.gradient_end == [168u8, 255u8, 112u8, 255u8]
            &&& (raw.chroma_key matches Some(text) ==> crate::color::color_of(
                encode_utf8(text),
            ) is None) ==> look.chroma_key == [39u8, 24u8, 132u8, 255u8]
            &&& (raw.gradient_angle matches Some(angle) ==> 0x7f80_0000 <= angle.bits
                < 0x8000_0000 || 0xff80_0000 <= angle.bits) ==> look.gradient_angle.bits == 0
            &&& (raw.font_size matches Some(size) ==> size.bits < 0x4200_0000 || 0x4334_0000
                < size.bits) ==> look.font_size.bits == 0x4290_0000
        }),
{
}

/// The shortcuts of a file are kept where they are four that can be registered
/// together, spelled canonically. Where there are not four, the default ones
/// take their place, all of them.
pub proof fn law_shortcuts_are_kept_together(raw: RawView, settings: SettingsView)
    requires
        raw.normalizes_to(settings),
    ensures
        raw.shortcuts matches Some(values) ==> (crate::hotkey::canonical(values)
            ==> settings.shortcuts == values),
        (raw.shortcuts matches Some(values) ==> values.len() != 4) ==> settings.shortcuts == seq![
            "control+alt+KeyS"@,
            "control+alt+KeyT"@,
            "control+alt+KeyR"@,
            "control+alt+KeyO"@,
        ],
{
    if raw.shortcuts is Some && crate::hotkey::canonical(raw.shortcuts->0) {
        let values = raw.shortcuts->0;
        let keys = choose|keys: Seq<crate::hotkey::HotKeyView>| #[trigger]
            crate::hotkey::valid_keys(keys) && values == crate::hotkey::key_texts(keys);
        assert(values.len() == 4);
        crate::hotkey::law_canonical_texts_read_back(keys, true);
        assert(raw.four_texts() == values);
        assert(settings == raw.normalized_on(true));
    }
}

/// Where one of four texts cannot serve, or two name the same shortcut, the
/// default shortcuts take the place of all of them; where all can serve, their
/// canonical texts are taken.
pub proof fn law_shortcuts_are_taken_as_they_are_read(
    raw: RawView,
    read: Seq<Result<crate::hotkey::HotKeyView, Seq<char>>>,
)
    requires
        raw.shortcuts is Some,
        raw.shortcuts->0.len() == 4,
    ensures
        crate::hotkey::selected(read) is Err ==> raw.normalized(read).shortcuts == seq![
            "control+alt+KeyS"@,
            "control+alt+KeyT"@,
            "control+alt+KeyR"@,
            "control+alt+KeyO"@,
        ],
        crate::hotkey::selected(read) matches Ok(keys) ==> {
            &&& raw.normalized(read).shortcuts.len() == keys.len()
            &&& forall|i: int|
                0 <= i < keys.len() ==> #[trigger] raw.normalized(read).shortcuts[i]
                    == crate::hotkey::chord_text(keys[i].mods, keys[i].key)
        },
{
}

/// The shortcuts that are read from a file: none where there are not four texts,
/// and where there are four canonical ones, the shortcuts that have these texts.
pub proof fn law_files_give_the_shortcuts_they_name(
    raw: RawView,
    keys: Option<Seq<crate::hotkey::HotKeyView>>,
)
    requires
        crate::schema::chooses(raw, keys),
    ensures
        (raw.shortcuts matches Some(values) ==> values.len() != 4) ==> keys is None,
        raw.shortcuts matches Some(values) ==> (crate::hotkey::canonical(values) ==> keys is Some
            && crate::hotkey::key_texts(keys->0) == values),
{
    if raw.shortcuts is Some && crate::hotkey::canonical(raw.shortcuts->0) {
        let values = raw.shortcuts->0;
        let named = choose|named: Seq<crate::hotkey::HotKeyView>| #[trigger]
            crate::hotkey::valid_keys(named) && values == crate::hotkey::key_texts(named);
        assert(values.len() == 4);
        crate::hotkey::law_canonical_texts_read_back(named, true);
        let read = choose|read: Seq<Result<crate::hotkey::HotKeyView, Seq<char>>>| #[trigger]
            crate::hotkey::reads(raw.four_texts(), read) && keys == raw.chosen(read);
        assert(raw.four_texts() == values);
        crate::hotkey::lemma_one_reading(values, read);
        assert(crate::hotkey::reading_on(values, true) == read);
    }
}

/// A file without fields holds nothing.
pub proof fn law_empty_files_hold_nothing()
    ensures
        ({
            let raw = RawView::empty();
            &&& raw.show_milliseconds is None
            &&& raw.fractional_digits is None
            &&& raw.overlay_mode is None
            &&& raw.text_color is None
            &&& raw.gradient is None
            &&& raw.gradient_end is None
            &&& raw.gradient_angle is None
            &&& raw.chroma_key is None
            &&& raw.native_transparency is None
            &&& raw.font_size is None
            &&& raw.shortcuts is None
        }),
{
}

/// The file that keeps preferences is of version 1 and holds every one of them:
/// switches and shortcuts as they are, colors by their texts, and numbers brought
/// into their ranges.
pub proof fn law_files_hold_every_preference(settings: SettingsView)
    ensures
        ({
            let file = crate::schema::file_of(settings);
            let raw = file.settings;
            let look = settings.appearance;
            &&& file.schema_version == 1
            &&& raw.show_milliseconds == Some(settings.show_milliseconds)
            &&& settings.fractional_digits <= 2 ==> raw.fractional_digits == Some(
                settings.fractional_digits,
            )
            &&& settings.fractional_digits > 2 ==> raw.fractional_digits == Some(2u8)
            &&& raw.overlay_mode == Some(settings.overlay_mode)
            &&& raw.gradient == Some(look.gradient)
            &&& raw.native_transparency == Some(look.native_transparency)
            &&& raw.font_size == Some(look.font_size)
            &&& look.gradient_angle.bits <= 0x43b4_0000 ==> raw.gradient_angle == Some(
                look.gradient_angle,
            )
            &&& 0x43b4_0000 < look.gradient_angle.bits <= 0x7f80_0000 ==> raw.gradient_angle
                == Some(crate::scalar::Scalar { bits: 0x43b4_0000 })
            &&& 0x8000_0000 < look.gradient_angle.bits <= 0xff80_0000 ==> raw.gradient_angle
                == Some(crate::scalar::Scalar { bits: 0 })
            &&& raw.shortcuts == Some(settings.shortcuts)
            &&& raw.text_color == Some(crate::color::color_text(look.text_color))
            &&& raw.gradient_end == Some(crate::color::color_text(look.gradient_end))
            &&& raw.chroma_key == Some(crate::color::color_text(look.chroma_key))
        }),
{
}

/// A file of version 1 always gives preferences, whatever its fields hold; a file
/// of another version never does, and neither does what cannot be parsed, of
/// which the reason is passed on.
pub proof fn law_decoding_goes_by_the_version(
    parsed: Result<FileView, Seq<char>>,
    result: Result<SettingsView, DecodeErrorView>,
)
    requires
        crate::schema::decodes_to(parsed, result),
    ensures
        parsed matches Ok(file) ==> (file.schema_version == 1 ==> result is Ok
            && file.settings.normalizes_to(result->Ok_0) && result->Ok_0.valid()),
        parsed matches Ok(file) ==> (file.schema_version != 1 ==> result is Err && result->Err_0
            == DecodeErrorView::Unsupported),
        parsed matches Err(message) ==> result is Err && result->Err_0 == DecodeErrorView::Parse(
            message,
        ),
        crate::save::of_other_version(parsed) <==> (parsed is Ok && parsed->Ok_0.schema_version
            != 1),
{
}

/// What is loaded: the preferences of the file where it can be decoded, else the
/// defaults, and why. Only where there is no file is the backup looked at, and it
/// is taken in the same way.
pub proof fn law_loading_takes_what_can_be_decoded(read: ReadView)
    ensures
        crate::load::canonical_outcome(read) is None <==> read is NotFound,
        read matches ReadView::Decoded(Ok(settings)) ==> {
            let loaded = crate::load::canonical_outcome(read)->0;
            let backed = crate::load::backup_outcome(read);
            &&& loaded.settings == settings && !loaded.writes_blocked
            &&& loaded.status == "Preferences restored"@
            &&& backed.settings == settings && !backed.writes_blocked
            &&& backed.status == "Preferences restored from backup"@
        },
        read matches ReadView::Decoded(Err(DecodeErrorView::Parse(error))) ==> {
            let loaded = crate::load::canonical_outcome(read)->0;
            let backed = crate::load::backup_outcome(read);
            &&& loaded.settings == SettingsView::defaults() && !loaded.writes_blocked
            &&& loaded.status == "Preferences unreadable; using defaults ("@ + error + ")"@
            &&& backed.settings == SettingsView::defaults() && !backed.writes_blocked
            &&& backed.status == "Preferences and backup unreadable; using defaults ("@ + error
                + ")"@
        },
        read == ReadView::Decoded(Err(DecodeErrorView::Unsupported)) ==> {
            let loaded = crate::load::canonical_outcome(read)->0;
            let backed = crate::load::backup_outcome(read);
            &&& loaded.settings == SettingsView::defaults() && loaded.writes_blocked
            &&& loaded.status == "Preferences version unsupported; using defaults"@
            &&& backed.settings == SettingsView::defaults() && backed.writes_blocked
            &&& backed.status == "Preferences backup version unsupported; using defaults"@
        },
        read matches ReadView::Failed(error) ==> {
            let loaded = crate::load::canonical_outcome(read)->0;
            let backed = crate::load::backup_outcome(read);
            &&& loaded.settings == SettingsView::defaults() && !loaded.writes_blocked
            &&& loaded.status == "Preferences unavailable; using defaults ("@ + error + ")"@
            &&& backed.settings == SettingsView::defaults() && !backed.writes_blocked
            &&& backed.status == "Preferences unavailable; using defaults ("@ + error + ")"@
        },
        read is NotFound ==> {
            let backed = crate::load::backup_outcome(read);
            &&& backed.settings == SettingsView::defaults() && !backed.writes_blocked
            &&& backed.status == "Using default preferences"@
        },
{
}

/// Whether an event is a reason for saving to fail at a step, and what is then
/// said.
pub open spec fn fails(step: StepView, event: EventView, message: Seq<char>) -> bool {
    ||| event == EventView::Failed(message)
    ||| step is FindDirectory && event == EventView::Exists(false) && message
        == "No preferences directory"@
    ||| event == EventView::Link(true) && message == "preferences path is a symlink"@
    ||| event is Contents && event->Contents_0 is Ok && event->Contents_0->Ok_0.schema_version != 1
        && message == "preferences belong to a newer version; save is disabled"@
}

/// Saving fails for a reason, and says the reason: some event was one, and what
/// is reported is its message. So it is, too, while a new file is being removed.
pub proof fn law_failed_saves_have_a_reason(events: Seq<EventView>, message: Seq<char>)
    requires
        crate::save::possible(events),
        crate::save::step_at(events) == StepView::Finished(Err(message)) || crate::save::step_at(
            events,
        ) == StepView::RemoveTemporary(message),
    ensures
        exists|i: int|
            0 <= i < events.len() && fails(
                crate::save::step_at(events.take(i)),
                #[trigger] events[i],
                message,
            ),
    decreases events.len(),
{
    if events.len() == 0 {
        crate::save::lemma_beginning();
        assert(events =~= Seq::empty());
    } else {
        crate::save::lemma_possible_before(events);
        let fewer = events.drop_last();
        let step = crate::save::step_at(fewer);
        assert(fewer =~= events.take(events.len() - 1));
        if step == StepView::RemoveTemporary(message) {
            law_failed_saves_have_a_reason(fewer, message);
            let i = choose|i: int|
                0 <= i < fewer.len() && fails(
                    crate::save::step_at(fewer.take(i)),
                    #[trigger] fewer[i],
                    message,
                );
            assert(fewer.take(i) =~= events.take(i));
            assert(events[i] == fewer[i]);
        } else {
            let last = events.len() - 1;
            assert(events[last] == events.last());
            assert(fails(crate::save::step_at(events.take(last)), events[last], message));
        }
    }
}

/// Every reason makes saving fail, and nothing is written from then on: the next
/// step is the end, with the message, or the removal of the new file.
pub proof fn law_reasons_make_saves_fail(step: StepView, event: EventView, message: Seq<char>)
    requires
        step.answered_by(event),
        fails(step, event, message),
        !(step is RemoveTemporary),
    ensures
        step is WriteTemporary || step is Replace ==> step.after(event)
            == StepView::RemoveTemporary(message),
        !(step is WriteTemporary || step is Replace) ==> step.after(event) == StepView::Finished(
            Err(message),
        ),
{
}

/// Where there is no reason to fail, saving goes on to its end: what is found is
/// looked into before anything is written. The bytes come first, then the
/// directory, and then the file: where it exists it is seen not to be a link,
/// and read; where it does not, the backup is seen and read in its place. Only
/// then is the new file written and put in place.
pub proof fn law_saving_looks_before_it_writes()
    ensures
        ({
            let yes = EventView::Exists(true);
            let plain = EventView::Link(false);
            let probed = StepView::Serialize.after(EventView::Done).after(yes).after(
                EventView::Done,
            );
            let schema = StepView::ProbeSchema(Place::Canonical);
            let backup = StepView::ProbeSchema(Place::Backup);
            &&& StepView::Serialize.after(EventView::Done) == StepView::FindDirectory
            &&& StepView::FindDirectory.after(yes) == StepView::CreateDirectory
            &&& probed == StepView::ProbeFile
            &&& probed.after(yes) == StepView::InspectFile
            &&& probed.after(yes).after(plain) == schema
            &&& probed.after(EventView::Exists(false)) == schema
            &&& schema.after(yes) == StepView::InspectSchema(Place::Canonical)
            &&& schema.after(yes).after(plain) == StepView::ReadSchema(Place::Canonical)
            &&& schema.after(EventView::Exists(false)) == StepView::ProbeFileAgain
            &&& StepView::ProbeFileAgain.after(yes) == StepView::WriteTemporary
            &&& StepView::ProbeFileAgain.after(EventView::Exists(false)) == backup
            &&& backup.after(yes) == StepView::InspectSchema(Place::Backup)
            &&& backup.after(yes).after(plain) == StepView::ReadSchema(Place::Backup)
            &&& backup.after(EventView::Exists(false)) == StepView::WriteTemporary
            &&& StepView::WriteTemporary.after(EventView::Done).after(EventView::Done)
                == StepView::Finished(Ok(()))
        }),
{
}

/// Where saving goes on from a step to writing, the step came to nothing that
/// ends it.
proof fn lemma_goes_on(events: Seq<EventView>, i: int)
    requires
        crate::save::possible(events),
        crate::save::step_at(events) is WriteTemporary,
        0 <= i <= events.len(),
        !(crate::save::step_at(events.take(i)) is WriteTemporary),
    ensures
        i < events.len(),
        crate::save::step_at(events.take(i)).answered_by(events[i]),
        crate::save::step_at(events.take(i + 1)) == crate::save::step_at(events.take(i)).after(
            events[i],
        ),
        !(crate::save::step_at(events.take(i + 1)) is Finished),
{
    if i == events.len() {
        assert(events.take(i) =~= events);
    }
    crate::save::lemma_step_taken(events, i);
    crate::save::lemma_remaining_falls(events, i + 1);
}

/// A file that is found is seen not to be a link, and read, before anything is
/// written, and it holds no preferences of another version.
pub proof fn law_found_files_are_read_before_writing(
    events: Seq<EventView>,
    i: int,
    place: Place,
)
    requires
        crate::save::possible(events),
        crate::save::step_at(events) is WriteTemporary,
        0 <= i < events.len(),
        crate::save::step_at(events.take(i)) == StepView::ProbeSchema(place),
        events[i] == EventView::Exists(true),
    ensures
        i + 2 < events.len(),
        crate::save::step_at(events.take(i + 1)) == StepView::InspectSchema(place),
        events[i + 1] == EventView::Link(false),
        crate::save::step_at(events.take(i + 2)) == StepView::ReadSchema(place),
        events[i + 2] is Contents,
        events[i + 2]->Contents_0 matches Ok(file) ==> file.schema_version == 1,
{
    lemma_goes_on(events, i);
    lemma_goes_on(events, i + 1);
    lemma_goes_on(events, i + 2);
}

/// Before anything is written the preferences have been turned into bytes, there
/// is a directory, the file has been looked for and, where it was found, seen not
/// to be a link, and what it holds has been asked after. Where it is missing in
/// the end, the backup has been asked after, too.
pub proof fn law_questions_come_before_writing(events: Seq<EventView>)
    requires
        crate::save::possible(events),
        crate::save::step_at(events) is WriteTemporary,
    ensures
        events.len() >= 6,
        crate::save::step_at(events.take(0)) is Serialize && events[0] is Done,
        crate::save::step_at(events.take(1)) is FindDirectory && events[1] == EventView::Exists(
            true,
        ),
        crate::save::step_at(events.take(2)) is CreateDirectory && events[2] is Done,
        crate::save::step_at(events.take(3)) is ProbeFile,
        events[3] == EventView::Exists(true) ==> crate::save::step_at(events.take(4)) is InspectFile
            && events[4] == EventView::Link(false),
        exists|i: int|
            3 < i < events.len() && #[trigger] crate::save::step_at(events.take(i))
                == StepView::ProbeSchema(Place::Canonical),
        exists|i: int|
            {
                &&& 3 < i < events.len()
                &&& #[trigger] crate::save::step_at(events.take(i)) == StepView::ProbeFileAgain
                &&& events[i] == EventView::Exists(false) ==> i + 1 < events.len()
                    && crate::save::step_at(events.take(i + 1)) == StepView::ProbeSchema(
                    Place::Backup,
                )
            },
{
    crate::save::lemma_beginning();
    assert(events.take(0) =~= Seq::empty());
    lemma_goes_on(events, 0);
    lemma_goes_on(events, 1);
    lemma_goes_on(events, 2);
    lemma_goes_on(events, 3);
    let i: int = if events[3] == EventView::Exists(true) {
        lemma_goes_on(events, 4);
        5
    } else {
        4
    };
    assert(crate::save::step_at(events.take(i)) == StepView::ProbeSchema(Place::Canonical));
    lemma_goes_on(events, i);
    let j: int = if events[i] == EventView::Exists(true) {
        lemma_goes_on(events, i + 1);
        lemma_goes_on(events, i + 2);
        i + 3
    } else {
        i + 1
    };
    assert(crate::save::step_at(events.take(j)) == StepView::ProbeFileAgain);
    lemma_goes_on(events, j);
    if events[j] == EventView::Exists(false) {
        lemma_goes_on(events, j + 1);
    }
}

/// A file that has been read without finding another version in it is passed by,
/// whether or not it could be parsed.
pub proof fn law_read_files_are_passed_by(parsed: Result<FileView, Seq<char>>)
    requires
        parsed matches Ok(file) ==> file.schema_version == 1,
    ensures
        StepView::ReadSchema(Place::Canonical).after(EventView::Contents(parsed))
            == StepView::ProbeFileAgain,
        StepView::ReadSchema(Place::Backup).after(EventView::Contents(parsed))
            == StepView::WriteTemporary,
{
}

/// A replacement fails for a reason, and says the reason: a step failed, or the
/// backup is a link.
pub proof fn law_failed_replacements_have_a_reason(
    step: ReplaceView,
    event: EventView,
    message: Seq<char>,
)
    requires
        step.answered_by(event),
    ensures
        step.after(event) == ReplaceView::Finished(Err(message)) <==> (event == EventView::Failed(
            message,
        ) || (event == EventView::Link(true) && message
            == "preferences backup path is a symlink"@)),
{
}

/// Where nothing fails, the new file is renamed at once where there is no old one
/// or files can be renamed over others. Otherwise the backup is seen not to be a
/// link where there is one, the old file is copied to it and the copy flushed,
/// and only then is the old file removed and the new one renamed.
pub proof fn law_replacement_backs_up_what_it_removes()
    ensures
        ({
            let yes = EventView::Exists(true);
            let no = EventView::Exists(false);
            let done = EventView::Done;
            let probed = ReplaceView::first(false).after(yes);
            &&& ReplaceView::first(true) == ReplaceView::Rename
            &&& ReplaceView::first(false) == ReplaceView::ProbeDestination
            &&& ReplaceView::first(false).after(no) == ReplaceView::Rename
            &&& probed == ReplaceView::ProbeBackup
            &&& probed.after(no) == ReplaceView::CopyToBackup
            &&& probed.after(yes) == ReplaceView::InspectBackup
            &&& probed.after(yes).after(EventView::Link(false)) == ReplaceView::CopyToBackup
            &&& ReplaceView::CopyToBackup.after(done) == ReplaceView::SyncBackup
            &&& ReplaceView::SyncBackup.after(done) == ReplaceView::RemoveDestination
            &&& ReplaceView::RemoveDestination.after(done) == ReplaceView::Rename
            &&& ReplaceView::Rename.after(done) == ReplaceView::Finished(Ok(()))
        }),
{
}

/// What can come of a step: doing something is done or fails, looking for a file
/// finds it or not, seeing whether it is a link tells or fails, reading gives
/// contents or fails, and nothing comes after the end.
pub proof fn law_steps_are_answered(event: EventView, place: Place, message: Seq<char>)
    ensures
        StepView::Serialize.answered_by(event) <==> event is Done || event is Failed,
        StepView::CreateDirectory.answered_by(event) <==> event is Done || event is Failed,
        StepView::WriteTemporary.answered_by(event) <==> event is Done || event is Failed,
        StepView::Replace.answered_by(event) <==> event is Done || event is Failed,
        StepView::RemoveTemporary(message).answered_by(event) <==> event is Done || event is Failed,
        StepView::FindDirectory.answered_by(event) <==> event is Exists,
        StepView::ProbeFile.answered_by(event) <==> event is Exists,
        StepView::ProbeSchema(place).answered_by(event) <==> event is Exists,
        StepView::ProbeFileAgain.answered_by(event) <==> event is Exists,
        StepView::InspectFile.answered_by(event) <==> event is Link || event is Failed,
        StepView::InspectSchema(place).answered_by(event) <==> event is Link || event is Failed,
        StepView::ReadSchema(place).answered_by(event) <==> event is Contents || event is Failed,
        !StepView::Finished(Ok(())).answered_by(event),
        !StepView::Finished(Err(message)).answered_by(event),
        ReplaceView::ProbeDestination.answered_by(event) <==> event is Exists,
        ReplaceView::ProbeBackup.answered_by(event) <==> event is Exists,
        ReplaceView::InspectBackup.answered_by(event) <==> event is Link || event is Failed,
        ReplaceView::CopyToBackup.answered_by(event) <==> event is Done || event is Failed,
        ReplaceView::SyncBackup.answered_by(event) <==> event is Done || event is Failed,
        ReplaceView::RemoveDestination.answered_by(event) <==> event is Done || event is Failed,
        ReplaceView::Rename.answered_by(event) <==> event is Done || event is Failed,
        !ReplaceView::Finished(Ok(())).answered_by(event),
        !ReplaceView::Finished(Err(message)).answered_by(event),
{
}

/// A new file is named after its process and how many came before it, and a
/// backup after the file that it backs up.
pub proof fn law_files_are_named_after_what_they_are(process: u32, counter: u64, name: Seq<char>)
    ensures
        crate::save::temporary_name(process, counter) == ".settings-"@ + crate::text::decimal(
            process as nat,
        ) + "-"@ + crate::text::decimal(counter as nat) + ".tmp"@,
        crate::save::backup_name(Some(name)) == name + ".backup"@,
        crate::save::backup_name(None) == crate::save::backup_name(Some("settings"@)),
{
}

} // verus!
