//! Putting a new file in place of an old one. Where a file cannot be renamed
//! over another, the old file is copied to a backup before it is removed, and
//! the backup is kept: should the replacement be interrupted between its steps,
//! the preferences can be recovered from it.

use crate::save::SaveEvent;
use vstd::prelude::*;

verus! {

/// What to do next in order to replace a file.
#[derive(Debug, PartialEq, Eq)]
pub enum ReplaceStep {
    /// See whether the old file exists.
    ProbeDestination,
    /// See whether there is a backup already.
    ProbeBackup,
    /// See whether the backup is a link.
    InspectBackup,
    /// Copy the old file to the backup.
    CopyToBackup,
    /// Flush the backup.
    SyncBackup,
    /// Remove the old file.
    RemoveDestination,
    /// Rename the new file.
    Rename,
    /// The replacement has come to an end.
    Finished(Result<(), String>),
}

/// What a `ReplaceStep` stands for.
pub enum ReplaceView {
    ProbeDestination,
    ProbeBackup,
    InspectBackup,
    CopyToBackup,
    SyncBackup,
    RemoveDestination,
    Rename,
    Finished(Result<(), Seq<char>>),
}

impl View for ReplaceStep {
    type V = ReplaceView;

    open spec fn view(&self) -> ReplaceView {
        match *self {
            ReplaceStep::ProbeDestination => ReplaceView::ProbeDestination,
            ReplaceStep::ProbeBackup => ReplaceView::ProbeBackup,
            ReplaceStep::InspectBackup => ReplaceView::InspectBackup,
            ReplaceStep::CopyToBackup => ReplaceView::CopyToBackup,
            ReplaceStep::SyncBackup => ReplaceView::SyncBackup,
            ReplaceStep::RemoveDestination => ReplaceView::RemoveDestination,
            ReplaceStep::Rename => ReplaceView::Rename,
            ReplaceStep::Finished(result) => ReplaceView::Finished(
                crate::transaction::answer_view(result),
            ),
        }
    }
}

impl ReplaceView {
    /// The first step: renaming, where a file can be renamed over another.
    pub open spec fn first(renames_over: bool) -> ReplaceView {
        if renames_over {
            ReplaceView::Rename
        } else {
            ReplaceView::ProbeDestination
        }
    }

    /// Whether an event can come of a step.
    pub open spec fn answered_by(self, event: crate::save::EventView) -> bool {
        match self {
            ReplaceView::ProbeDestination | ReplaceView::ProbeBackup => event is Exists,
            ReplaceView::InspectBackup => event is Link || event is Failed,
            ReplaceView::Finished(_) => false,
            _ => event is Done || event is Failed,
        }
    }

    /// The step that follows once `event` came of this one.
    pub open spec fn after(self, event: crate::save::EventView) -> ReplaceView {
        match (self, event) {
            (_, crate::save::EventView::Failed(error)) => ReplaceView::Finished(Err(error)),
            (ReplaceView::ProbeDestination, crate::save::EventView::Exists(found)) => if found {
                ReplaceView::ProbeBackup
            } else {
                ReplaceView::Rename
            },
            (ReplaceView::ProbeBackup, crate::save::EventView::Exists(found)) => if found {
                ReplaceView::InspectBackup
            } else {
                ReplaceView::CopyToBackup
            },
            (ReplaceView::InspectBackup, crate::save::EventView::Link(link)) => if link {
                ReplaceView::Finished(Err("preferences backup path is a symlink"@))
            } else {
                ReplaceView::CopyToBackup
            },
            (ReplaceView::CopyToBackup, _) => ReplaceView::SyncBackup,
            (ReplaceView::SyncBackup, _) => ReplaceView::RemoveDestination,
            (ReplaceView::RemoveDestination, _) => ReplaceView::Rename,
            (ReplaceView::Rename, _) => ReplaceView::Finished(Ok(())),
            (step, _) => step,
        }
    }

    /// How many steps may follow at most.
    pub open spec fn remaining(self) -> nat {
        match self {
            ReplaceView::ProbeDestination => 7,
            ReplaceView::ProbeBackup => 6,
            ReplaceView::InspectBackup => 5,
            ReplaceView::CopyToBackup => 4,
            ReplaceView::SyncBackup => 3,
            ReplaceView::RemoveDestination => 2,
            ReplaceView::Rename => 1,
            ReplaceView::Finished(_) => 0,
        }
    }
}

impl ReplaceStep {
    /// The first step of a replacement; `renames_over` says whether a file can
    /// be renamed over another.
    pub fn first(renames_over: bool) -> (step: ReplaceStep)
        ensures
            step@ == ReplaceView::first(renames_over),
    {
        if renames_over {
            ReplaceStep::Rename
        } else {
            ReplaceStep::ProbeDestination
        }
    }

    /// The step that follows once `event` came of this one.
    pub fn next(self, event: SaveEvent) -> (step: ReplaceStep)
        requires
            self@.answered_by(event@),
        ensures
            step@ == self@.after(event@),
    {
        match (self, event) {
            (_, SaveEvent::Failed(error)) => ReplaceStep::Finished(Err(error)),
            (ReplaceStep::ProbeDestination, SaveEvent::Exists(found)) => if found {
                ReplaceStep::ProbeBackup
            } else {
                ReplaceStep::Rename
            },
            (ReplaceStep::ProbeBackup, SaveEvent::Exists(found)) => if found {
                ReplaceStep::InspectBackup
            } else {
                ReplaceStep::CopyToBackup
            },
            (ReplaceStep::InspectBackup, SaveEvent::Link(link)) => if link {
                ReplaceStep::Finished(Err("preferences backup path is a symlink".to_owned()))
            } else {
                ReplaceStep::CopyToBackup
            },
            (ReplaceStep::CopyToBackup, _) => ReplaceStep::SyncBackup,
            (ReplaceStep::SyncBackup, _) => ReplaceStep::RemoveDestination,
            (ReplaceStep::RemoveDestination, _) => ReplaceStep::Rename,
            (ReplaceStep::Rename, _) => ReplaceStep::Finished(Ok(())),
            (step, _) => step,
        }
    }
}

/// The step that a replacement is at after the events of its steps, in order.
#[verifier::opaque]
pub open spec fn replace_step_at(
    renames_over: bool,
    events: Seq<crate::save::EventView>,
) -> ReplaceView
    decreases events.len(),
{
    if events.len() == 0 {
        ReplaceView::first(renames_over)
    } else {
        replace_step_at(renames_over, events.drop_last()).after(events.last())
    }
}

/// Whether events can come of the steps of a replacement, in order.
pub open spec fn replace_possible(
    renames_over: bool,
    events: Seq<crate::save::EventView>,
) -> bool {
    forall|i: int|
        0 <= i < events.len() ==> replace_step_at(renames_over, events.take(i)).answered_by(
            #[trigger] events[i],
        )
}

proof fn lemma_start(renames_over: bool)
    ensures
        replace_step_at(renames_over, Seq::empty()) == ReplaceView::first(renames_over),
{
    reveal_with_fuel(replace_step_at, 1);
}

proof fn lemma_before(renames_over: bool, events: Seq<crate::save::EventView>)
    requires
        replace_possible(renames_over, events),
        events.len() > 0,
    ensures
        replace_possible(renames_over, events.drop_last()),
        replace_step_at(renames_over, events.drop_last()).answered_by(events.last()),
        replace_step_at(renames_over, events) == replace_step_at(
            renames_over,
            events.drop_last(),
        ).after(events.last()),
        events.drop_last() == events.take(events.len() - 1),
{
    reveal_with_fuel(replace_step_at, 1);
    let before = events.drop_last();
    assert forall|i: int| 0 <= i < before.len() implies replace_step_at(
        renames_over,
        before.take(i),
    ).answered_by(#[trigger] before[i]) by {
        assert(before.take(i) =~= events.take(i));
        assert(before[i] == events[i]);
    }
    assert(before =~= events.take(events.len() - 1));
    assert(replace_step_at(renames_over, events.take(events.len() - 1)).answered_by(
        events[events.len() - 1],
    ));
}

/// Whatever comes of its steps, a replacement ends after seven of them at most.
pub proof fn law_replacement_ends(renames_over: bool, events: Seq<crate::save::EventView>)
    requires
        replace_possible(renames_over, events),
    ensures
        events.len() + replace_step_at(renames_over, events).remaining() <= 7,
    decreases events.len(),
{
    lemma_start(renames_over);
    if events.len() == 0 {
        assert(events =~= Seq::empty());
    } else {
        lemma_before(renames_over, events);
        law_replacement_ends(renames_over, events.drop_last());
    }
}

/// The old file is removed only once it has been copied to the backup and the
/// backup has been flushed.
pub proof fn law_old_file_is_backed_up_first(
    renames_over: bool,
    events: Seq<crate::save::EventView>,
)
    requires
        replace_possible(renames_over, events),
        replace_step_at(renames_over, events) is RemoveDestination,
    ensures
        events.len() >= 2,
        replace_step_at(renames_over, events.take(events.len() - 2)) is CopyToBackup,
        events[events.len() - 2] is Done,
        replace_step_at(renames_over, events.take(events.len() - 1)) is SyncBackup,
        events[events.len() - 1] is Done,
{
    lemma_start(renames_over);
    if events.len() == 0 {
        assert(events =~= Seq::empty());
    }
    lemma_before(renames_over, events);
    let before = events.drop_last();
    if before.len() == 0 {
        assert(before =~= Seq::empty());
    }
    lemma_before(renames_over, before);
    assert(before.drop_last() =~= events.take(events.len() - 2));
    assert(before.last() == events[events.len() - 2]);
}

/// A replacement succeeds only where the new file was renamed, and where a file
/// can be renamed over another, that is all that is done.
pub proof fn law_replacement_succeeds_by_renaming(
    renames_over: bool,
    events: Seq<crate::save::EventView>,
)
    requires
        replace_possible(renames_over, events),
        replace_step_at(renames_over, events) == ReplaceView::Finished(Ok(())),
    ensures
        events.len() >= 1,
        replace_step_at(renames_over, events.take(events.len() - 1)) is Rename,
        events[events.len() - 1] is Done,
        renames_over ==> events.len() == 1,
{
    lemma_start(renames_over);
    if events.len() == 0 {
        assert(events =~= Seq::empty());
    }
    lemma_before(renames_over, events);
    if renames_over && events.len() > 1 {
        lemma_renaming_is_all(events.drop_last());
    }
}

proof fn lemma_renaming_is_all(events: Seq<crate::save::EventView>)
    requires
        replace_possible(true, events),
        events.len() >= 1,
    ensures
        replace_step_at(true, events) is Finished,
    decreases events.len(),
{
    lemma_before(true, events);
    if events.len() == 1 {
        lemma_start(true);
        assert(events.drop_last() =~= Seq::empty());
    } else {
        lemma_renaming_is_all(events.drop_last());
    }
}

} // verus!
