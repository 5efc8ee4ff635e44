//! The control block of a live download: the flags by which the user pauses
//! and cancels it, and the check that every arriving piece of data passes.

use vstd::prelude::*;

verus! {

/// Milliseconds a paused transfer sleeps before it looks at its flags again.
pub const PAUSE_POLL_MILLIS: u64 = 100;

/// What a transfer does with the data that has just arrived.
#[derive(Clone, Copy, Debug, PartialEq, Eq, Structural)]
pub enum Gate {
    /// Write it.
    Proceed,
    /// Hold it, sleep `PAUSE_POLL_MILLIS` and ask again.
    Wait,
    /// Drop it and end the transfer as cancelled.
    Abort,
}

/// Control block of a live download. `cancelled` never goes back to false;
/// `paused` may change as often as the user likes.
pub struct DownloadTask {
    paused: bool,
    cancelled: bool,
    file_path: Option<String>,
}

/// What the two flags decide: cancellation wins over pause.
pub open spec fn gate_for(paused: bool, cancelled: bool) -> Gate {
    if cancelled {
        Gate::Abort
    } else if paused {
        Gate::Wait
    } else {
        Gate::Proceed
    }
}

/// A look at the flags never lets data through once the task is cancelled,
/// paused or not, and holds data back only while the task is paused.
pub proof fn lemma_cancel_is_seen_at_the_next_look(paused: bool)
    ensures
        gate_for(paused, true) == Gate::Abort,
        gate_for(true, false) == Gate::Wait,
        gate_for(false, false) == Gate::Proceed,
{
}

impl Clone for DownloadTask {
    fn clone(&self) -> (copy: Self)
        ensures
            copy.paused() == self.paused(),
            copy.cancelled() == self.cancelled(),
            copy.path() == self.path(),
    {
        DownloadTask {
            paused: self.paused,
            cancelled: self.cancelled,
            file_path: match &self.file_path {
                Some(p) => Some(p.clone()),
                None => None,
            },
        }
    }
}

impl DownloadTask {
    /// Whether the task is paused.
    pub closed spec fn paused(&self) -> bool {
        self.paused
    }

    /// Whether the task has been cancelled.
    pub closed spec fn cancelled(&self) -> bool {
        self.cancelled
    }

    /// Where the finished file was put, once it has been.
    pub closed spec fn path(&self) -> Option<Seq<char>> {
        match self.file_path {
            Some(p) => Some(p@),
            None => None,
        }
    }

    /// A task that runs: neither paused nor cancelled, no file yet.
    pub fn new() -> (task: DownloadTask)
        ensures
            !task.paused(),
            !task.cancelled(),
            task.path() is None,
    {
        DownloadTask { paused: false, cancelled: false, file_path: None }
    }

    /// Reads the pause flag.
    pub fn is_paused(&self) -> (yes: bool)
        ensures
            yes == self.paused(),
    {
        self.paused
    }

    /// Reads the cancel flag.
    pub fn is_cancelled(&self) -> (yes: bool)
        ensures
            yes == self.cancelled(),
    {
        self.cancelled
    }

    /// The path of the finished file, if the download has been finalized.
    pub fn file_path(&self) -> (path: Option<String>)
        ensures
            match path {
                Some(p) => self.path() == Some(p@),
                None => self.path() is None,
            },
    {
        match &self.file_path {
            Some(p) => Some(p.clone()),
            None => None,
        }
    }

    /// Sets the pause flag.
    pub fn set_paused(&mut self, paused: bool)
        ensures
            final(self).paused() == paused,
            final(self).cancelled() == old(self).cancelled(),
            final(self).path() == old(self).path(),
    {
        self.paused = paused;
    }

    /// Flips the pause flag and returns its new value.
    pub fn toggle_pause(&mut self) -> (now_paused: bool)
        ensures
            now_paused == !old(self).paused(),
            final(self).paused() == now_paused,
            final(self).cancelled() == old(self).cancelled(),
            final(self).path() == old(self).path(),
    {
        self.paused = !self.paused;
        self.paused
    }

    /// Cancels the task, for good.
    pub fn cancel(&mut self)
        ensures
            final(self).cancelled(),
            final(self).paused() == old(self).paused(),
            final(self).path() == old(self).path(),
    {
        self.cancelled = true;
    }

    /// Records where the finished file was put.
    pub fn set_file_path(&mut self, path: String)
        ensures
            final(self).path() == Some(path@),
            final(self).paused() == old(self).paused(),
            final(self).cancelled() == old(self).cancelled(),
    {
        self.file_path = Some(path);
    }

    /// The check that each arriving piece of data passes before it is written.
    /// A cancelled task aborts whether or not it is paused; a paused one
    /// waits; any other proceeds.
    pub fn gate(&self) -> (decision: Gate)
        ensures
            decision == gate_for(self.paused(), self.cancelled()),
    {
        if self.cancelled {
            Gate::Abort
        } else if self.paused {
            Gate::Wait
        } else {
            Gate::Proceed
        }
    }
}

} // verus!
