//! The download engine as a state machine. The engine decides; whoever runs
//! it performs each action and reports what came of it as the next event.

use vstd::prelude::*;
use crate::chunks::{mode_for, partition, partition_of, select_mode, ByteRange, TransferMode};
use crate::progress::Progress;
use crate::request::ProbeInfo;

verus! {

/// Why a download ended without a file.
#[derive(Clone, Copy, Debug, PartialEq, Eq, Structural)]
pub enum FailureReason {
    /// The user cancelled it.
    Cancelled,
    /// The probe could not be established.
    Probe,
    /// The partial file could not be created, sized or opened.
    Sink,
    /// The request for the body could not be established.
    Request,
    /// The server answered with a status that carries no data to keep.
    Status(u16),
    /// The body broke off in the middle.
    Stream,
    /// Data could not be written to the partial file.
    Write,
    /// At least one segment of a parallel transfer failed.
    Segments,
    /// The partial file could not be renamed to its final name.
    Finalize,
}

/// What an observer of one download is told.
#[derive(Clone, Copy, Debug, PartialEq, Eq, Structural)]
pub enum DownloadEvent {
    /// The transfer has moved on.
    Progress(Progress),
    /// The file is complete and in place.
    Complete,
    /// The download has ended without a file.
    Error(FailureReason),
}

/// How a download ended.
#[derive(Clone, Copy, Debug, PartialEq, Eq, Structural)]
pub enum Outcome {
    Completed,
    Failed(FailureReason),
}

/// Where the engine stands.
#[derive(Clone, Copy, Debug, PartialEq, Eq, Structural)]
pub enum EngineState {
    /// Waiting for the probe.
    Probing,
    /// Waiting to learn whether a partial file exists.
    Inspecting { info: ProbeInfo },
    /// Waiting for the pre-sized partial file of a parallel transfer.
    Allocating { total_bytes: u64 },
    /// Waiting for the segments of a parallel transfer.
    Segments { total_bytes: u64 },
    /// Waiting for the stream of a sequential transfer.
    Streaming { resume_from: u64, total_bytes: u64 },
    /// Waiting for the partial file to be renamed.
    Promoting,
    /// Done; nothing moves the engine from here.
    Finished(Outcome),
}

/// What the engine is told.
#[derive(Clone, Copy, Debug, PartialEq, Eq, Structural)]
pub enum EngineEvent {
    /// The probe was answered.
    Probed(ProbeInfo),
    /// The probe failed for good.
    ProbeFailed,
    /// The partial file was looked for: its size if it exists.
    PartialChecked { size: Option<u64> },
    /// The partial file of a parallel transfer is ready.
    SinkReady,
    /// The partial file could not be made ready.
    SinkFailed,
    /// Every segment has returned: whether all succeeded, and whether the
    /// task is cancelled now.
    SegmentsDone { all_ok: bool, cancelled: bool },
    /// The stream was consumed to its end.
    StreamEnded,
    /// The stream failed, or was cancelled.
    StreamFailed(FailureReason),
    /// The partial file has its final name.
    Promoted,
    /// The rename failed.
    PromoteFailed,
}

/// What the engine asks for.
#[derive(Clone, Copy, Debug, PartialEq, Eq, Structural)]
pub enum EngineAction {
    /// Send the probe, under the retry policy.
    Probe,
    /// Store the size in the record unless it is zero, then look for the
    /// partial file.
    InspectPartial { record_total: u64 },
    /// Create the partial file with this size and open it for shared writing.
    Allocate { total_bytes: u64 },
    /// Fetch every range of the plan at once and wait for all of them.
    RunSegments,
    /// Fetch the body in one stream, appended to what is on disk.
    RunStream { resume_from: u64, total_bytes: u64 },
    /// Rename the partial file to the final name.
    Promote,
    /// Store the final path in the task and announce completion.
    Complete,
    /// Announce the failure, after deleting the partial file if told to.
    Fail { reason: FailureReason, discard_partial: bool },
    /// Nothing: the event does not belong to the state.
    Nothing,
}

/// A transition: the state entered and the action asked for.
#[derive(Clone, Copy, Debug, PartialEq, Eq, Structural)]
pub struct Step {
    pub state: EngineState,
    pub action: EngineAction,
}

/// The transition that ends the download with `reason`. The partial file is
/// kept for a later resume unless the user cancelled.
pub open spec fn failing(reason: FailureReason) -> Step {
    Step {
        state: EngineState::Finished(Outcome::Failed(reason)),
        action: EngineAction::Fail { reason, discard_partial: reason == FailureReason::Cancelled },
    }
}

/// The transition table of the engine.
pub open spec fn transition(state: EngineState, event: EngineEvent) -> Step {
    match (state, event) {
        (EngineState::Probing, EngineEvent::Probed(info)) => Step {
            state: EngineState::Inspecting { info },
            action: EngineAction::InspectPartial { record_total: info.total_bytes },
        },
        (EngineState::Probing, EngineEvent::ProbeFailed) => failing(FailureReason::Probe),
        (EngineState::Inspecting { info }, EngineEvent::PartialChecked { size }) => {
            let resume_from = match size {
                Some(n) => n,
                None => 0,
            };
            match mode_for(info.supports_range, info.total_bytes, size is Some) {
                TransferMode::Sequential => Step {
                    state: EngineState::Streaming { resume_from, total_bytes: info.total_bytes },
                    action: EngineAction::RunStream { resume_from, total_bytes: info.total_bytes },
                },
                TransferMode::Parallel => Step {
                    state: EngineState::Allocating { total_bytes: info.total_bytes },
                    action: EngineAction::Allocate { total_bytes: info.total_bytes },
                },
            }
        },
        (EngineState::Allocating { total_bytes }, EngineEvent::SinkReady) => Step {
            state: EngineState::Segments { total_bytes },
            action: EngineAction::RunSegments,
        },
        (EngineState::Allocating { .. }, EngineEvent::SinkFailed) => failing(FailureReason::Sink),
        (EngineState::Segments { .. }, EngineEvent::SegmentsDone { all_ok, cancelled }) => {
            if cancelled {
                failing(FailureReason::Cancelled)
            } else if !all_ok {
                failing(FailureReason::Segments)
            } else {
                Step { state: EngineState::Promoting, action: EngineAction::Promote }
            }
        },
        (EngineState::Streaming { .. }, EngineEvent::StreamEnded) => Step {
            state: EngineState::Promoting,
            action: EngineAction::Promote,
        },
        (EngineState::Streaming { .. }, EngineEvent::StreamFailed(reason)) => failing(reason),
        (EngineState::Promoting, EngineEvent::Promoted) => Step {
            state: EngineState::Finished(Outcome::Completed),
            action: EngineAction::Complete,
        },
        (EngineState::Promoting, EngineEvent::PromoteFailed) => failing(FailureReason::Finalize),
        _ => Step { state, action: EngineAction::Nothing },
    }
}

fn fail_with(reason: FailureReason) -> (step: Step)
    ensures
        step == failing(reason),
{
    let discard_partial = match reason {
        FailureReason::Cancelled => true,
        _ => false,
    };
    Step {
        state: EngineState::Finished(Outcome::Failed(reason)),
        action: EngineAction::Fail { reason, discard_partial },
    }
}

/// The engine of one download.
pub struct DownloadEngine {
    state: EngineState,
}

impl DownloadEngine {
    /// Where the engine stands.
    pub closed spec fn state(&self) -> EngineState {
        self.state
    }

    /// A new engine. Its first action is `EngineAction::Probe`; it then
    /// waits for the outcome of the probe.
    pub fn new() -> (engine: DownloadEngine)
        ensures
            engine.state() == EngineState::Probing,
    {
        DownloadEngine { state: EngineState::Probing }
    }

    /// Reads the state.
    pub fn current(&self) -> (state: EngineState)
        ensures
            state == self.state(),
    {
        self.state
    }

    /// Whether the download has ended.
    pub fn is_finished(&self) -> (yes: bool)
        ensures
            yes == (self.state() is Finished),
    {
        match self.state {
            EngineState::Finished(_) => true,
            _ => false,
        }
    }

    /// Takes an event and answers with the next action, as the transition
    /// table says.
    pub fn step(&mut self, event: EngineEvent) -> (action: EngineAction)
        ensures
            (Step { state: final(self).state(), action }) == transition(old(self).state(), event),
    {
        let step: Step = match (self.state, event) {
            (EngineState::Probing, EngineEvent::Probed(info)) => Step {
                state: EngineState::Inspecting { info },
                action: EngineAction::InspectPartial { record_total: info.total_bytes },
            },
            (EngineState::Probing, EngineEvent::ProbeFailed) => fail_with(FailureReason::Probe),
            (EngineState::Inspecting { info }, EngineEvent::PartialChecked { size }) => {
                let (resume_from, partial_exists): (u64, bool) = match size {
                    Some(n) => (n, true),
                    None => (0, false),
                };
                match select_mode(info.supports_range, info.total_bytes, partial_exists) {
                    TransferMode::Sequential => Step {
                        state: EngineState::Streaming { resume_from, total_bytes: info.total_bytes },
                        action: EngineAction::RunStream { resume_from, total_bytes: info.total_bytes },
                    },
                    TransferMode::Parallel => Step {
                        state: EngineState::Allocating { total_bytes: info.total_bytes },
                        action: EngineAction::Allocate { total_bytes: info.total_bytes },
                    },
                }
            },
            (EngineState::Allocating { total_bytes }, EngineEvent::SinkReady) => Step {
                state: EngineState::Segments { total_bytes },
                action: EngineAction::RunSegments,
            },
            (EngineState::Allocating { total_bytes }, EngineEvent::SinkFailed) => fail_with(
                FailureReason::Sink,
            ),
            (EngineState::Segments { total_bytes }, EngineEvent::SegmentsDone { all_ok, cancelled }) => {
                if cancelled {
                    fail_with(FailureReason::Cancelled)
                } else if !all_ok {
                    fail_with(FailureReason::Segments)
                } else {
                    Step { state: EngineState::Promoting, action: EngineAction::Promote }
                }
            },
            (EngineState::Streaming { resume_from, total_bytes }, EngineEvent::StreamEnded) => Step {
                state: EngineState::Promoting,
                action: EngineAction::Promote,
            },
            (EngineState::Streaming { resume_from, total_bytes }, EngineEvent::StreamFailed(reason)) => fail_with(
                reason,
            ),
            (EngineState::Promoting, EngineEvent::Promoted) => Step {
                state: EngineState::Finished(Outcome::Completed),
                action: EngineAction::Complete,
            },
            (EngineState::Promoting, EngineEvent::PromoteFailed) => fail_with(FailureReason::Finalize),
            (state, _) => Step { state, action: EngineAction::Nothing },
        };
        self.state = step.state;
        step.action
    }

    /// The byte ranges of the parallel transfer that the engine has decided
    /// on; none in any other state.
    pub fn plan(&self) -> (ranges: Vec<ByteRange>)
        ensures
            ranges@ == match self.state() {
                EngineState::Allocating { total_bytes } => partition_of(total_bytes as nat),
                EngineState::Segments { total_bytes } => partition_of(total_bytes as nat),
                _ => Seq::<ByteRange>::empty(),
            },
    {
        match self.state {
            EngineState::Allocating { total_bytes } => partition(total_bytes),
            EngineState::Segments { total_bytes } => partition(total_bytes),
            _ => Vec::new(),
        }
    }
}

/// The event by which an observer learns of an action, if the action is one
/// that is announced.
pub open spec fn announcement(action: EngineAction) -> Option<DownloadEvent> {
    match action {
        EngineAction::Complete => Some(DownloadEvent::Complete),
        EngineAction::Fail { reason, .. } => Some(DownloadEvent::Error(reason)),
        _ => None,
    }
}

/// The event to publish for an action: completion, the failure, or nothing.
pub fn announce(action: EngineAction) -> (event: Option<DownloadEvent>)
    ensures
        event == announcement(action),
{
    match action {
        EngineAction::Complete => Some(DownloadEvent::Complete),
        EngineAction::Fail { reason, discard_partial } => Some(DownloadEvent::Error(reason)),
        _ => None,
    }
}

/// A finished engine stays as it is and asks for nothing, whatever it is
/// told.
pub proof fn lemma_finished_is_absorbing(outcome: Outcome, event: EngineEvent)
    ensures
        transition(EngineState::Finished(outcome), event) == (Step {
            state: EngineState::Finished(outcome),
            action: EngineAction::Nothing,
        }),
{
}

/// The partial file is deleted on cancellation and on nothing else: after
/// any other failure it stays on disk for a later resume.
pub proof fn lemma_discard_only_on_cancel(state: EngineState, event: EngineEvent)
    ensures
        transition(state, event).action matches EngineAction::Fail { reason, discard_partial }
            ==> (discard_partial <==> reason == FailureReason::Cancelled),
{
}

/// Completion is announced only for a rename that succeeded, and the engine
/// finishes exactly when it announces completion or failure.
pub proof fn lemma_completion_follows_promotion(state: EngineState, event: EngineEvent)
    ensures
        transition(state, event).action == EngineAction::Complete <==> state == EngineState::Promoting
            && event == EngineEvent::Promoted,
        !(state is Finished) ==> (transition(state, event).state is Finished <==> announcement(
            transition(state, event).action,
        ) is Some),
        transition(state, event).action == EngineAction::Complete ==> transition(state, event).state
            == EngineState::Finished(Outcome::Completed),
        transition(state, event).action matches EngineAction::Fail { reason, .. } ==> transition(
            state,
            event,
        ).state == EngineState::Finished(Outcome::Failed(reason)),
{
}

/// The engine goes parallel exactly when the server serves ranges, the size
/// is known and at least the minimum, and no partial file exists; in every
/// other case it streams, from the end of the partial file if there is one.
pub proof fn lemma_mode_follows_probe(info: ProbeInfo, size: Option<u64>)
    ensures
        mode_for(info.supports_range, info.total_bytes, size is Some) == TransferMode::Parallel ==> transition(
            EngineState::Inspecting { info },
            EngineEvent::PartialChecked { size },
        ).action == (EngineAction::Allocate { total_bytes: info.total_bytes }),
        mode_for(info.supports_range, info.total_bytes, size is Some) == TransferMode::Sequential
            ==> transition(EngineState::Inspecting { info }, EngineEvent::PartialChecked { size }).action == (
        EngineAction::RunStream {
            resume_from: if size is Some {
                size->0
            } else {
                0
            },
            total_bytes: info.total_bytes,
        }),
        size is Some ==> mode_for(info.supports_range, info.total_bytes, size is Some)
            == TransferMode::Sequential,
{
}

} // verus!
