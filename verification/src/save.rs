//! Saving the preferences: in which order the file system is asked what, and
//! when to stop. A step says what to do next; an event says what came of it.

use crate::schema::{decode_settings, DecodeSettingsError, SettingsFile};
use crate::text::push_decimal;
use vstd::prelude::*;
use vstd::string::*;

verus! {

/// Which of the two files with preferences.
#[derive(Debug, Clone, Copy, PartialEq, Eq, Structural)]
pub enum Place {
    Canonical,
    Backup,
}

/// What to do next in order to save.
#[derive(Debug, PartialEq, Eq)]
pub enum SaveStep {
    /// Turn the preferences into bytes.
    Serialize,
    /// Find the directory that the file is in.
    FindDirectory,
    /// Create the directory where it is missing.
    CreateDirectory,
    /// See whether the file exists.
    ProbeFile,
    /// See whether the file is a link.
    InspectFile,
    /// See, before looking into a file, whether it exists.
    ProbeSchema(Place),
    /// See, before looking into a file, whether it is a link.
    InspectSchema(Place),
    /// Read a file and parse it.
    ReadSchema(Place),
    /// See once more whether the file exists.
    ProbeFileAgain,
    /// Write the bytes to a new file beside it, and flush them.
    WriteTemporary,
    /// Put the new file in place of the old one.
    Replace,
    /// Remove the new file, since saving failed with this message.
    RemoveTemporary(String),
    /// Saving has come to an end.
    Finished(Result<(), String>),
}

/// What came of a step.
#[derive(Debug)]
pub enum SaveEvent {
    /// It was done.
    Done,
    /// It failed; the message says why.
    Failed(String),
    /// What was looked for exists, or does not.
    Exists(bool),
    /// The file is a link, or is none.
    Link(bool),
    /// The file was read; what parsing it gave.
    Contents(Result<SettingsFile, String>),
}

/// What a `SaveStep` stands for.
pub enum StepView {
    Serialize,
    FindDirectory,
    CreateDirectory,
    ProbeFile,
    InspectFile,
    ProbeSchema(Place),
    InspectSchema(Place),
    ReadSchema(Place),
    ProbeFileAgain,
    WriteTemporary,
    Replace,
    RemoveTemporary(Seq<char>),
    Finished(Result<(), Seq<char>>),
}

/// What a `SaveEvent` stands for.
pub enum EventView {
    Done,
    Failed(Seq<char>),
    Exists(bool),
    Link(bool),
    Contents(Result<crate::schema::FileView, Seq<char>>),
}

impl View for SaveStep {
    type V = StepView;

    open spec fn view(&self) -> StepView {
        match *self {
            SaveStep::Serialize => StepView::Serialize,
            SaveStep::FindDirectory => StepView::FindDirectory,
            SaveStep::CreateDirectory => StepView::CreateDirectory,
            SaveStep::ProbeFile => StepView::ProbeFile,
            SaveStep::InspectFile => StepView::InspectFile,
            SaveStep::ProbeSchema(place) => StepView::ProbeSchema(place),
            SaveStep::InspectSchema(place) => StepView::InspectSchema(place),
            SaveStep::ReadSchema(place) => StepView::ReadSchema(place),
            SaveStep::ProbeFileAgain => StepView::ProbeFileAgain,
            SaveStep::WriteTemporary => StepView::WriteTemporary,
            SaveStep::Replace => StepView::Replace,
            SaveStep::RemoveTemporary(error) => StepView::RemoveTemporary(error@),
            SaveStep::Finished(result) => StepView::Finished(
                crate::transaction::answer_view(result),
            ),
        }
    }
}

impl View for SaveEvent {
    type V = EventView;

    open spec fn view(&self) -> EventView {
        match *self {
            SaveEvent::Done => EventView::Done,
            SaveEvent::Failed(message) => EventView::Failed(message@),
            SaveEvent::Exists(exists) => EventView::Exists(exists),
            SaveEvent::Link(link) => EventView::Link(link),
            SaveEvent::Contents(parsed) => EventView::Contents(crate::schema::parsed_view(parsed)),
        }
    }
}

/// Whether a parsed file holds preferences of another version.
pub open spec fn of_other_version(parsed: Result<crate::schema::FileView, Seq<char>>) -> bool {
    parsed matches Ok(file) && file.schema_version != crate::schema::SETTINGS_VERSION
}

impl StepView {
    /// Whether an event can come of a step.
    pub open spec fn answered_by(self, event: EventView) -> bool {
        match self {
            StepView::Serialize
            | StepView::CreateDirectory
            | StepView::WriteTemporary
            | StepView::Replace
            | StepView::RemoveTemporary(_) => event is Done || event is Failed,
            StepView::FindDirectory
            | StepView::ProbeFile
            | StepView::ProbeSchema(_)
            | StepView::ProbeFileAgain => event is Exists,
            StepView::InspectFile | StepView::InspectSchema(_) => event is Link || event is Failed,
            StepView::ReadSchema(_) => event is Failed || event is Contents,
            StepView::Finished(_) => false,
        }
    }

    /// How saving ends where there is nothing more to undo.
    pub open spec fn refused(message: Seq<char>) -> StepView {
        StepView::Finished(Err(message))
    }

    /// What follows once a file has been found to hold no preferences of
    /// another version.
    pub open spec fn past(place: Place) -> StepView {
        match place {
            Place::Canonical => StepView::ProbeFileAgain,
            Place::Backup => StepView::WriteTemporary,
        }
    }

    /// The step that follows once `event` came of this one. Nothing is written
    /// before every question has been answered; a new file is removed again
    /// where it could not be written or put in place.
    pub open spec fn after(self, event: EventView) -> StepView {
        match (self, event) {
            (StepView::RemoveTemporary(error), _) => StepView::refused(error),
            (StepView::WriteTemporary, EventView::Failed(error)) => StepView::RemoveTemporary(
                error,
            ),
            (StepView::Replace, EventView::Failed(error)) => StepView::RemoveTemporary(error),
            (_, EventView::Failed(error)) => StepView::refused(error),
            (StepView::Serialize, _) => StepView::FindDirectory,
            (StepView::FindDirectory, EventView::Exists(found)) => if found {
                StepView::CreateDirectory
            } else {
                StepView::refused("No preferences directory"@)
            },
            (StepView::CreateDirectory, _) => StepView::ProbeFile,
            (StepView::ProbeFile, EventView::Exists(found)) => if found {
                StepView::InspectFile
            } else {
                StepView::ProbeSchema(Place::Canonical)
            },
            (StepView::InspectFile, EventView::Link(link)) => if link {
                StepView::refused("preferences path is a symlink"@)
            } else {
                StepView::ProbeSchema(Place::Canonical)
            },
            (StepView::ProbeSchema(place), EventView::Exists(found)) => if found {
                StepView::InspectSchema(place)
            } else {
                StepView::past(place)
            },
            (StepView::InspectSchema(place), EventView::Link(link)) => if link {
                StepView::refused("preferences path is a symlink"@)
            } else {
                StepView::ReadSchema(place)
            },
            (StepView::ReadSchema(place), EventView::Contents(parsed)) => if of_other_version(
                parsed,
            ) {
                StepView::refused("preferences belong to a newer version; save is disabled"@)
            } else {
                StepView::past(place)
            },
            (StepView::ProbeFileAgain, EventView::Exists(found)) => if found {
                StepView::WriteTemporary
            } else {
                StepView::ProbeSchema(Place::Backup)
            },
            (StepView::WriteTemporary, _) => StepView::Replace,
            (StepView::Replace, _) => StepView::Finished(Ok(())),
            (step, _) => step,
        }
    }

    /// Whether a step changes a file.
    pub open spec fn writes(self) -> bool {
        self is WriteTemporary || self is Replace || self is RemoveTemporary
    }

    /// How many steps may follow at most.
    pub open spec fn remaining(self) -> nat {
        match self {
            StepView::Serialize => 15,
            StepView::FindDirectory => 14,
            StepView::CreateDirectory => 13,
            StepView::ProbeFile => 12,
            StepView::InspectFile => 11,
            StepView::ProbeSchema(Place::Canonical) => 10,
            StepView::InspectSchema(Place::Canonical) => 9,
            StepView::ReadSchema(Place::Canonical) => 8,
            StepView::ProbeFileAgain => 7,
            StepView::ProbeSchema(Place::Backup) => 6,
            StepView::InspectSchema(Place::Backup) => 5,
            StepView::ReadSchema(Place::Backup) => 4,
            StepView::WriteTemporary => 3,
            StepView::Replace => 2,
            StepView::RemoveTemporary(_) => 1,
            StepView::Finished(_) => 0,
        }
    }
}

fn refuse(message: &str) -> (step: SaveStep)
    ensures
        step@ == StepView::refused(message@),
{
    SaveStep::Finished(Err(message.to_owned()))
}

fn past_schema(place: Place) -> (step: SaveStep)
    ensures
        step@ == StepView::past(place),
{
    match place {
        Place::Canonical => SaveStep::ProbeFileAgain,
        Place::Backup => SaveStep::WriteTemporary,
    }
}

/// Whether a file that has been read and parsed holds preferences of another
/// version.
pub fn has_unsupported_schema(parsed: Result<SettingsFile, String>) -> (unsupported: bool)
    ensures
        unsupported == of_other_version(crate::schema::parsed_view(parsed)),
{
    match decode_settings(parsed) {
        Err(DecodeSettingsError::Unsupported) => true,
        _ => false,
    }
}

impl SaveStep {
    /// The first step of saving.
    pub fn first() -> (step: SaveStep)
        ensures
            step@ == StepView::Serialize,
    {
        SaveStep::Serialize
    }

    /// The step that follows once `event` came of this one.
    pub fn next(self, event: SaveEvent) -> (step: SaveStep)
        requires
            self@.answered_by(event@),
        ensures
            step@ == self@.after(event@),
    {
        match (self, event) {
            (SaveStep::RemoveTemporary(error), _) => SaveStep::Finished(Err(error)),
            (SaveStep::WriteTemporary, SaveEvent::Failed(error)) => SaveStep::RemoveTemporary(
                error,
            ),
            (SaveStep::Replace, SaveEvent::Failed(error)) => SaveStep::RemoveTemporary(error),
            (_, SaveEvent::Failed(error)) => SaveStep::Finished(Err(error)),
            (SaveStep::Serialize, _) => SaveStep::FindDirectory,
            (SaveStep::FindDirectory, SaveEvent::Exists(found)) => if found {
                SaveStep::CreateDirectory
            } else {
                refuse("No preferences directory")
            },
            (SaveStep::CreateDirectory, _) => SaveStep::ProbeFile,
            (SaveStep::ProbeFile, SaveEvent::Exists(found)) => if found {
                SaveStep::InspectFile
            } else {
                SaveStep::ProbeSchema(Place::Canonical)
            },
            (SaveStep::InspectFile, SaveEvent::Link(link)) => if link {
                refuse("preferences path is a symlink")
            } else {
                SaveStep::ProbeSchema(Place::Canonical)
            },
            (SaveStep::ProbeSchema(place), SaveEvent::Exists(found)) => if found {
                SaveStep::InspectSchema(place)
            } else {
                past_schema(place)
            },
            (SaveStep::InspectSchema(place), SaveEvent::Link(link)) => if link {
                refuse("preferences path is a symlink")
            } else {
                SaveStep::ReadSchema(place)
            },
            (SaveStep::ReadSchema(place), SaveEvent::Contents(parsed)) => {
                if has_unsupported_schema(parsed) {
                    refuse("preferences belong to a newer version; save is disabled")
                } else {
                    past_schema(place)
                }
            },
            (SaveStep::ProbeFileAgain, SaveEvent::Exists(found)) => if found {
                SaveStep::WriteTemporary
            } else {
                SaveStep::ProbeSchema(Place::Backup)
            },
            (SaveStep::WriteTemporary, _) => SaveStep::Replace,
            (SaveStep::Replace, _) => SaveStep::Finished(Ok(())),
            (step, _) => step,
        }
    }
}

/// The step that saving is at after the events of its steps, in order.
#[verifier::opaque]
pub open spec fn step_at(events: Seq<EventView>) -> StepView
    decreases events.len(),
{
    if events.len() == 0 {
        StepView::Serialize
    } else {
        step_at(events.drop_last()).after(events.last())
    }
}

/// Whether events can come of the steps of saving, in order.
pub open spec fn possible(events: Seq<EventView>) -> bool {
    forall|i: int|
        0 <= i < events.len() ==> step_at(events.take(i)).answered_by(#[trigger] events[i])
}

/// Saving begins with the bytes.
pub proof fn lemma_beginning()
    ensures
        step_at(Seq::empty()) == StepView::Serialize,
{
    reveal_with_fuel(step_at, 1);
}

/// What the last event made of the step before it.
pub proof fn lemma_possible_before(events: Seq<EventView>)
    requires
        possible(events),
        events.len() > 0,
    ensures
        possible(events.drop_last()),
        step_at(events.drop_last()).answered_by(events.last()),
        step_at(events) == step_at(events.drop_last()).after(events.last()),
        step_at(events).remaining() < step_at(events.drop_last()).remaining(),
{
    reveal_with_fuel(step_at, 1);
    let before = events.drop_last();
    assert forall|i: int| 0 <= i < before.len() implies step_at(before.take(i)).answered_by(
        #[trigger] before[i],
    ) by {
        assert(before.take(i) =~= events.take(i));
        assert(before[i] == events[i]);
    }
    assert(before =~= events.take(events.len() - 1));
    assert(step_at(events.take(events.len() - 1)).answered_by(events[events.len() - 1]));
}

/// Going on takes saving nearer to its end.
pub proof fn lemma_remaining_falls(events: Seq<EventView>, j: int)
    requires
        possible(events),
        0 <= j <= events.len(),
    ensures
        step_at(events).remaining() + (events.len() - j) <= step_at(events.take(j)).remaining(),
    decreases events.len(),
{
    if j == events.len() {
        assert(events.take(j) =~= events);
    } else {
        lemma_possible_before(events);
        lemma_remaining_falls(events.drop_last(), j);
        assert(events.drop_last().take(j) =~= events.take(j));
    }
}

proof fn lemma_possible_take(events: Seq<EventView>, j: int)
    requires
        possible(events),
        0 <= j <= events.len(),
    ensures
        possible(events.take(j)),
{
    let before = events.take(j);
    assert forall|i: int| 0 <= i < before.len() implies step_at(before.take(i)).answered_by(
        #[trigger] before[i],
    ) by {
        assert(before.take(i) =~= events.take(i));
        assert(before[i] == events[i]);
    }
}

/// What one event made of the step that it came of.
pub proof fn lemma_step_taken(events: Seq<EventView>, i: int)
    requires
        possible(events),
        0 <= i < events.len(),
    ensures
        step_at(events.take(i)).answered_by(events[i]),
        step_at(events.take(i + 1)) == step_at(events.take(i)).after(events[i]),
{
    let longer = events.take(i + 1);
    lemma_possible_take(events, i + 1);
    lemma_possible_before(longer);
    assert(longer.drop_last() =~= events.take(i));
    assert(longer.last() == events[i]);
}

/// Whatever comes of its steps, saving ends after fifteen of them at most.
pub proof fn law_saving_ends(events: Seq<EventView>)
    requires
        possible(events),
    ensures
        events.len() <= 15,
        events.len() == 15 ==> step_at(events) is Finished,
{
    lemma_remaining_falls(events, 0);
    lemma_beginning();
    assert(events.take(0) =~= Seq::empty());
}

/// Success is reported only where the new file was written and flushed and then
/// put in place.
pub proof fn law_success_means_the_file_is_in_place(events: Seq<EventView>)
    requires
        possible(events),
        step_at(events) == StepView::Finished(Ok(())),
    ensures
        events.len() >= 2,
        step_at(events.take(events.len() - 2)) == StepView::WriteTemporary,
        events[events.len() - 2] is Done,
        step_at(events.take(events.len() - 1)) == StepView::Replace,
        events[events.len() - 1] is Done,
{
    lemma_beginning();
    if events.len() == 0 {
        assert(events =~= Seq::empty());
    }
    lemma_possible_before(events);
    let before = events.drop_last();
    assert(before =~= events.take(events.len() - 1));
    assert(step_at(before) == StepView::Replace);
    if before.len() == 0 {
        assert(before =~= Seq::empty());
    }
    lemma_possible_before(before);
    assert(before.drop_last() =~= events.take(events.len() - 2));
    assert(before.last() == events[events.len() - 2]);
}

/// A file that is a link, or that holds preferences of another version, is left
/// alone: saving fails there and then, and nothing has been written.
pub proof fn law_refused_files_are_left_alone(events: Seq<EventView>, i: int)
    requires
        possible(events),
        0 <= i < events.len(),
        events[i] == EventView::Link(true) || (events[i] matches EventView::Contents(parsed)
            && of_other_version(parsed)),
    ensures
        i == events.len() - 1,
        step_at(events) matches StepView::Finished(Err(message)) && (message
            == "preferences path is a symlink"@ || message
            == "preferences belong to a newer version; save is disabled"@),
        forall|j: int|
            0 <= j <= events.len() ==> !(#[trigger] step_at(events.take(j))).writes(),
{
    lemma_step_taken(events, i);
    let step = step_at(events.take(i));
    assert(step.remaining() >= 4);
    lemma_remaining_falls(events, i + 1);
    assert(events.take(events.len() as int) =~= events);
    assert forall|j: int| 0 <= j <= events.len() implies !(#[trigger] step_at(
        events.take(j),
    )).writes() by {
        if j <= i {
            lemma_possible_take(events, i);
            lemma_remaining_falls(events.take(i), j);
            assert(events.take(i).take(j) =~= events.take(j));
        }
    }
}

/// A new file that could not be written or put in place is removed again before
/// the failure is reported, whether or not it can be removed, and the failure
/// reported is the one that saving met.
pub proof fn law_failed_saves_clean_up(events: Seq<EventView>, i: int)
    requires
        possible(events),
        0 <= i < events.len(),
        step_at(events.take(i)) is WriteTemporary || step_at(events.take(i)) is Replace,
        events[i] is Failed,
    ensures
        step_at(events.take(i + 1)) == StepView::RemoveTemporary(events[i]->Failed_0),
        events.len() <= i + 2,
        events.len() == i + 2 ==> step_at(events) == StepView::Finished(
            Err(events[i]->Failed_0),
        ),
{
    lemma_step_taken(events, i);
    lemma_remaining_falls(events, i + 1);
    if events.len() == i + 2 {
        lemma_step_taken(events, i + 1);
        assert(events.take(events.len() as int) =~= events);
    }
}

/// Where saving fails, the file has not been replaced.
pub proof fn law_failure_means_the_old_file_stays(events: Seq<EventView>, i: int)
    requires
        possible(events),
        step_at(events) is Finished,
        step_at(events)->Finished_0 is Err,
        0 <= i < events.len(),
    ensures
        !(step_at(events.take(i)) is Replace && events[i] is Done),
{
    lemma_step_taken(events, i);
    if step_at(events.take(i)) is Replace && events[i] is Done {
        lemma_remaining_falls(events, i + 1);
        assert(events.take(events.len() as int) =~= events);
    }
}

/// The name of the file that is written before it is put in place.
pub open spec fn temporary_name(process: u32, counter: u64) -> Seq<char> {
    ".settings-"@ + crate::text::decimal(process as nat) + "-"@ + crate::text::decimal(
        counter as nat,
    ) + ".tmp"@
}

/// The name of the file that is written before it is put in place: the number
/// of the process, and how many such names it has used.
pub fn temporary_file_name(process: u32, counter: u64) -> (name: String)
    ensures
        name@ == temporary_name(process, counter),
{
    let mut name = ".settings-".to_owned();
    push_decimal(&mut name, process as u64);
    name.append("-");
    push_decimal(&mut name, counter);
    name.append(".tmp");
    name
}

/// The name of the backup of a file; a file whose name is no text counts as
/// `settings`.
pub open spec fn backup_name(name: Option<Seq<char>>) -> Seq<char> {
    match name {
        Some(name) => name + ".backup"@,
        None => "settings"@ + ".backup"@,
    }
}

/// The name of the backup of a file of this name.
pub fn backup_file_name(name: Option<&str>) -> (backup: String)
    ensures
        backup@ == backup_name(
            match name {
                Some(name) => Some(name@),
                None => None,
            },
        ),
{
    let mut backup = match name {
        Some(name) => name.to_owned(),
        None => "settings".to_owned(),
    };
    backup.append(".backup");
    backup
}

/// Numerals of different numbers differ.
proof fn lemma_decimal_differs(a: nat, b: nat)
    requires
        crate::text::decimal(a) == crate::text::decimal(b),
    ensures
        a == b,
    decreases a,
{
    crate::text::lemma_decimal_len(a);
    crate::text::lemma_decimal_len(b);
    let left = crate::text::decimal(a);
    let right = crate::text::decimal(b);
    assert(left.last() == crate::text::digit_char(a % 10));
    assert(right.last() == crate::text::digit_char(b % 10));
    if a >= 10 && b >= 10 {
        assert(left.drop_last() =~= crate::text::decimal(a / 10));
        assert(right.drop_last() =~= crate::text::decimal(b / 10));
        lemma_decimal_differs(a / 10, b / 10);
    }
}

/// A process never uses the name of a new file twice, and a backup is never the
/// file itself.
pub proof fn law_file_names_do_not_collide(
    process: u32,
    first: u64,
    second: u64,
    name: Seq<char>,
)
    ensures
        first != second ==> temporary_name(process, first) != temporary_name(process, second),
        backup_name(Some(name)) != name,
{
    reveal_strlit(".backup");
    assert(backup_name(Some(name)).len() == name.len() + 7);
    let start = ".settings-"@ + crate::text::decimal(process as nat) + "-"@;
    let one = temporary_name(process, first);
    let other = temporary_name(process, second);
    if one == other {
        let end = ".tmp"@.len() as int;
        assert(one.subrange(start.len() as int, one.len() - end) =~= crate::text::decimal(
            first as nat,
        ));
        assert(other.subrange(start.len() as int, other.len() - end) =~= crate::text::decimal(
            second as nat,
        ));
        lemma_decimal_differs(first as nat, second as nat);
    }
}

} // verus!
