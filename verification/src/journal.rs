//! How a durable file is replaced: the new content goes to a scratch file
//! first, and the scratch file is then renamed over the old one. The steps
//! are decided here and performed by the caller; the model below shows that
//! a reader never finds anything but the old content or the new.

use vstd::prelude::*;

verus! {

/// Name of the directory, below the user's local data directory, that holds
/// the durable files.
pub const DATA_DIRECTORY: &'static str = "keeper";

/// Name of the file that holds the list of download records.
pub const JOURNAL_FILE: &'static str = "downloads.json";

/// Name of the file that holds the user's preferences.
pub const CONFIG_FILE: &'static str = "config.json";

/// One step of replacing a durable file.
#[derive(Clone, Copy, Debug, PartialEq, Eq, Structural)]
pub enum SaveStep {
    /// Write the new content, all of it, to the scratch file.
    WriteScratch,
    /// Rename the scratch file over the durable file.
    Replace,
    /// Delete the scratch file.
    RemoveScratch,
    /// Nothing is left to do.
    Stop,
}

/// Where a save stands.
#[derive(Clone, Copy, Debug, PartialEq, Eq, Structural)]
pub enum SaveState {
    /// The scratch file is being written.
    Writing,
    /// The scratch file is complete and is being renamed.
    Replacing,
    /// The rename failed and the scratch file is being deleted.
    Cleaning,
    /// The durable file holds the new content.
    Saved,
    /// The save was given up; the durable file is as it was.
    Failed,
}

/// The step that is performed in `state`.
pub open spec fn step_in(state: SaveState) -> SaveStep {
    match state {
        SaveState::Writing => SaveStep::WriteScratch,
        SaveState::Replacing => SaveStep::Replace,
        SaveState::Cleaning => SaveStep::RemoveScratch,
        SaveState::Saved => SaveStep::Stop,
        SaveState::Failed => SaveStep::Stop,
    }
}

/// The state after the step of `state` has succeeded (`ok`) or failed.
pub open spec fn state_after(state: SaveState, ok: bool) -> SaveState {
    match state {
        SaveState::Writing => if ok {
            SaveState::Replacing
        } else {
            SaveState::Failed
        },
        SaveState::Replacing => if ok {
            SaveState::Saved
        } else {
            SaveState::Cleaning
        },
        SaveState::Cleaning => SaveState::Failed,
        SaveState::Saved => SaveState::Saved,
        SaveState::Failed => SaveState::Failed,
    }
}

impl SaveState {
    /// A save begins by writing the scratch file.
    pub fn begin() -> (state: SaveState)
        ensures
            state == SaveState::Writing,
    {
        SaveState::Writing
    }

    /// The step to perform now.
    pub fn step(&self) -> (step: SaveStep)
        ensures
            step == step_in(*self),
    {
        match self {
            SaveState::Writing => SaveStep::WriteScratch,
            SaveState::Replacing => SaveStep::Replace,
            SaveState::Cleaning => SaveStep::RemoveScratch,
            SaveState::Saved => SaveStep::Stop,
            SaveState::Failed => SaveStep::Stop,
        }
    }

    /// Moves on after the step has been performed and has succeeded or not.
    pub fn advance(&self, ok: bool) -> (next: SaveState)
        ensures
            next == state_after(*self, ok),
    {
        match self {
            SaveState::Writing => if ok {
                SaveState::Replacing
            } else {
                SaveState::Failed
            },
            SaveState::Replacing => if ok {
                SaveState::Saved
            } else {
                SaveState::Cleaning
            },
            SaveState::Cleaning => SaveState::Failed,
            SaveState::Saved => SaveState::Saved,
            SaveState::Failed => SaveState::Failed,
        }
    }

    /// Whether the save has ended, well or not.
    pub fn is_done(&self) -> (done: bool)
        ensures
            done == (step_in(*self) == SaveStep::Stop),
    {
        match self {
            SaveState::Saved => true,
            SaveState::Failed => true,
            _ => false,
        }
    }
}

/// The two files of one durable file, as a reader may find them: each is
/// absent or has some content.
pub ghost struct Disk {
    pub durable: Option<Seq<u8>>,
    pub scratch: Option<Seq<u8>>,
}

/// What loading finds: the durable file. The scratch file is never read.
pub open spec fn loaded(disk: Disk) -> Option<Seq<u8>> {
    disk.durable
}

/// Whether `after` is a disk that `step`, writing `content`, can leave
/// behind on `before`. A write touches the scratch file only, and leaves it
/// with all of the content if it succeeds and with anything if it fails or
/// is cut short. A rename happens at once or not at all. A step that the
/// process does not live to see the end of counts as failed.
pub open spec fn leaves(before: Disk, step: SaveStep, content: Seq<u8>, ok: bool, after: Disk) -> bool {
    match step {
        SaveStep::WriteScratch => after.durable == before.durable && (ok ==> after.scratch == Some(content)),
        SaveStep::Replace => if ok {
            after.durable == before.scratch && after.scratch is None
        } else {
            after == before
        },
        SaveStep::RemoveScratch => after.durable == before.durable && (ok ==> after.scratch is None),
        SaveStep::Stop => after == before,
    }
}

/// What holds of the disk in each state of a save that replaces `old` by
/// `content`.
pub open spec fn save_inv(state: SaveState, disk: Disk, old_content: Option<Seq<u8>>, content: Seq<u8>) -> bool {
    match state {
        SaveState::Writing => disk.durable == old_content,
        SaveState::Replacing => disk.durable == old_content && disk.scratch == Some(content),
        SaveState::Cleaning => disk.durable == old_content,
        SaveState::Saved => disk.durable == Some(content),
        SaveState::Failed => disk.durable == old_content,
    }
}

/// A save that has come to `state`, then to each of the `outcomes` in turn:
/// whether each step goes with its state, and each disk is one that the step
/// can leave behind.
pub open spec fn is_run(
    state: SaveState,
    disk: Disk,
    content: Seq<u8>,
    outcomes: Seq<(bool, Disk)>,
) -> bool
    decreases outcomes.len(),
{
    outcomes.len() > 0 ==> leaves(disk, step_in(state), content, outcomes[0].0, outcomes[0].1) && is_run(
        state_after(state, outcomes[0].0),
        outcomes[0].1,
        content,
        outcomes.drop_first(),
    )
}

/// One step keeps what holds of the disk.
pub proof fn lemma_save_step(
    state: SaveState,
    disk: Disk,
    old_content: Option<Seq<u8>>,
    content: Seq<u8>,
    ok: bool,
    after: Disk,
)
    requires
        save_inv(state, disk, old_content, content),
        leaves(disk, step_in(state), content, ok, after),
    ensures
        save_inv(state_after(state, ok), after, old_content, content),
        loaded(after) == old_content || loaded(after) == Some(content),
{
}

/// Atomic save: however far a save gets, and wherever the process is
/// killed, loading yields the content that was there before the save began
/// or the new content, whole; and a save that ends in `Saved` has put the
/// new content in place.
pub proof fn lemma_save_is_atomic(
    state: SaveState,
    disk: Disk,
    old_content: Option<Seq<u8>>,
    content: Seq<u8>,
    outcomes: Seq<(bool, Disk)>,
)
    requires
        save_inv(state, disk, old_content, content),
        is_run(state, disk, content, outcomes),
    ensures
        forall|i: int|
            0 <= i < outcomes.len() ==> loaded((#[trigger] outcomes[i]).1) == old_content || loaded(
                outcomes[i].1,
            ) == Some(content),
    decreases outcomes.len(),
{
    if outcomes.len() > 0 {
        let (ok, after) = outcomes[0];
        lemma_save_step(state, disk, old_content, content, ok, after);
        lemma_save_is_atomic(state_after(state, ok), after, old_content, content, outcomes.drop_first());
        assert forall|i: int| 0 <= i < outcomes.len() implies loaded((#[trigger] outcomes[i]).1)
            == old_content || loaded(outcomes[i].1) == Some(content) by {
            if i > 0 {
                assert(outcomes[i] == outcomes.drop_first()[i - 1]);
            }
        }
    }
}

} // verus!
