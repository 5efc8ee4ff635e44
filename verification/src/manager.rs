//! The download manager: the journal of records, the table of live tasks,
//! and the commands and engine events that change them.

use vstd::prelude::*;
use vstd::string::*;
use crate::clock::utc_now;
use crate::engine::FailureReason;
use crate::record::{fresh_record, DownloadRecord, DownloadStatus, RecordView, Timestamp};
use crate::task::{gate_for, DownloadTask, Gate};
use crate::text::{file_name_of, filename_from_url, str_eq};

verus! {

/// Seconds that pass, at least, between two snapshots of a running download
/// in the journal.
pub const SNAPSHOT_INTERVAL_SECS: u64 = 5;

/// A live task as a value of mathematics.
pub ghost struct TaskView {
    pub id: u64,
    pub url: Seq<char>,
    pub paused: bool,
    pub cancelled: bool,
}

/// An entry of the task table: the control block of one engine, the number
/// the engine is known by, and the URL it fetches.
pub struct LiveTask {
    id: u64,
    url: String,
    task: DownloadTask,
}

impl View for LiveTask {
    type V = TaskView;

    closed spec fn view(&self) -> TaskView {
        TaskView {
            id: self.id,
            url: self.url@,
            paused: self.task.paused(),
            cancelled: self.task.cancelled(),
        }
    }
}

/// What the caller needs to start the engine of a download that was added.
#[derive(Debug, PartialEq, Eq)]
pub struct Launch {
    /// The number by which the engine reports back.
    pub id: u64,
    pub url: String,
    pub filename: String,
}

/// The answer to adding a URL that the journal already holds.
#[derive(Debug, PartialEq, Eq)]
pub struct Duplicate {
    pub status: DownloadStatus,
    pub filename: String,
    pub date_added: Timestamp,
}

/// Why a stored download was not started again.
#[derive(Clone, Copy, Debug, PartialEq, Eq, Structural)]
pub enum RestartError {
    /// The journal holds no record of the URL.
    NotFound,
    /// The record is in a state from which the command does not start it.
    WrongStatus(DownloadStatus),
    /// An engine is at work on the URL.
    Busy,
}

/// What deleting a record did.
#[derive(Clone, Copy, Debug, PartialEq, Eq, Structural)]
pub struct Deleted {
    /// Whether the journal held a record of the URL.
    pub removed: bool,
    /// Whether the removal left the journal empty.
    pub now_empty: bool,
}

/// Whether the journal holds a record of `url`.
pub open spec fn has_url(records: Seq<RecordView>, url: Seq<char>) -> bool {
    exists|i: int| 0 <= i < records.len() && (#[trigger] records[i]).url == url
}

/// The position of the record of `url`, for a journal that holds one.
pub open spec fn index_of(records: Seq<RecordView>, url: Seq<char>) -> int {
    choose|i: int| 0 <= i < records.len() && (#[trigger] records[i]).url == url
}

/// No two records share a URL.
pub open spec fn urls_distinct(records: Seq<RecordView>) -> bool {
    forall|i: int, j: int|
        0 <= i < j < records.len() ==> (#[trigger] records[i]).url != (#[trigger] records[j]).url
}

/// What holds of the journal: the URL is a key, and each record is well
/// formed.
pub open spec fn journal_wf(records: Seq<RecordView>) -> bool {
    &&& urls_distinct(records)
    &&& forall|i: int| 0 <= i < records.len() ==> (#[trigger] records[i]).wf()
}

/// Whether the journal holds a record of `url` that is in progress.
pub open spec fn has_in_progress(records: Seq<RecordView>, url: Seq<char>) -> bool {
    exists|i: int|
        0 <= i < records.len() && (#[trigger] records[i]).url == url && records[i].status
            == DownloadStatus::InProgress
}

/// Whether an engine that has not been cancelled is at work on `url`.
pub open spec fn has_live_task(tasks: Seq<TaskView>, url: Seq<char>) -> bool {
    exists|k: int| 0 <= k < tasks.len() && !(#[trigger] tasks[k]).cancelled && tasks[k].url == url
}

/// Whether the table holds the task numbered `id`.
pub open spec fn has_task(tasks: Seq<TaskView>, id: u64) -> bool {
    exists|k: int| 0 <= k < tasks.len() && (#[trigger] tasks[k]).id == id
}

/// The position of the task numbered `id`, for a table that holds it.
pub open spec fn task_index(tasks: Seq<TaskView>, id: u64) -> int {
    choose|k: int| 0 <= k < tasks.len() && (#[trigger] tasks[k]).id == id
}

/// What holds of the task table: every number was issued and is used once;
/// of the tasks that are not cancelled, no two fetch the same URL, and each
/// fetches a URL whose record is in progress. So no live engine refers to a
/// record in any other state.
pub open spec fn tasks_wf(tasks: Seq<TaskView>, records: Seq<RecordView>, issued: nat) -> bool {
    &&& forall|k: int| 0 <= k < tasks.len() ==> (#[trigger] tasks[k]).id < issued
    &&& forall|k: int, l: int|
        0 <= k < l < tasks.len() ==> (#[trigger] tasks[k]).id != (#[trigger] tasks[l]).id
    &&& forall|k: int, l: int|
        0 <= k < l < tasks.len() && !(#[trigger] tasks[k]).cancelled && !(#[trigger] tasks[l]).cancelled
            ==> tasks[k].url != tasks[l].url
    &&& forall|k: int|
        0 <= k < tasks.len() && !(#[trigger] tasks[k]).cancelled ==> has_in_progress(records, tasks[k].url)
}

/// The task that a new engine starts with.
pub open spec fn fresh_task(id: u64, url: Seq<char>) -> TaskView {
    TaskView { id, url, paused: false, cancelled: false }
}

/// The views of a list of records.
pub open spec fn views_of(records: Seq<DownloadRecord>) -> Seq<RecordView> {
    Seq::new(records.len(), |i: int| records[i]@)
}

/// The journal with `change` applied to the record of `url`; every other
/// record, and the order, stay as they are.
pub open spec fn amend(
    records: Seq<RecordView>,
    url: Seq<char>,
    change: spec_fn(RecordView) -> RecordView,
) -> Seq<RecordView> {
    Seq::new(
        records.len(),
        |i: int|
            if records[i].url == url {
                change(records[i])
            } else {
                records[i]
            },
    )
}

/// The task table with `change` applied to the task that is at work on
/// `url` and not cancelled; every other task stays as it is.
pub open spec fn amend_live(
    tasks: Seq<TaskView>,
    url: Seq<char>,
    change: spec_fn(TaskView) -> TaskView,
) -> Seq<TaskView> {
    Seq::new(
        tasks.len(),
        |k: int|
            if !tasks[k].cancelled && tasks[k].url == url {
                change(tasks[k])
            } else {
                tasks[k]
            },
    )
}

impl RecordView {
    /// The record once the user has paused or resumed the download.
    pub open spec fn pause_noted(self, paused: bool) -> RecordView {
        RecordView { was_paused: paused, ..self }
    }

    /// The record once the download has ended without a file.
    pub open spec fn ended(self, status: DownloadStatus, now: Timestamp) -> RecordView {
        RecordView { status, date_completed: Some(now), ..self }
    }

    /// The record once the file is complete and in place.
    pub open spec fn completed(self, file_path: Seq<char>, now: Timestamp) -> RecordView {
        RecordView {
            status: DownloadStatus::Completed,
            file_path: Some(file_path),
            date_completed: Some(now),
            downloaded_bytes: self.total_bytes,
            ..self
        }
    }

    /// The record once the probe has told the size of the resource.
    pub open spec fn sized(self, total_bytes: u64) -> RecordView {
        RecordView { total_bytes, ..self }
    }

    /// The record after a snapshot of a running download: whether it is
    /// paused, and how far it is, if its size is known.
    pub open spec fn snapshot_taken(self, paused: bool, downloaded: u64) -> RecordView {
        RecordView {
            was_paused: paused,
            downloaded_bytes: if self.total_bytes > 0 {
                downloaded
            } else {
                self.downloaded_bytes
            },
            ..self
        }
    }
}

impl TaskView {
    /// The task with its pause flag set to `paused`.
    pub open spec fn pause_set(self, paused: bool) -> TaskView {
        TaskView { paused, ..self }
    }

    /// The task once cancelled.
    pub open spec fn cancel_set(self) -> TaskView {
        TaskView { cancelled: true, ..self }
    }
}

impl Launch {
    /// Whether this is the launch of task `id` for `url`.
    pub open spec fn is_for(&self, id: nat, url: Seq<char>) -> bool {
        self.id == id && self.url@ == url && self.filename@ == file_name_of(url)
    }
}

impl Duplicate {
    /// Whether this tells of `record`.
    pub open spec fn tells_of(&self, record: RecordView) -> bool {
        self.status == record.status && self.filename@ == record.filename && self.date_added
            == record.date_added
    }
}

/// The status that a record takes when its engine ends with `reason`.
pub open spec fn status_after(reason: FailureReason) -> DownloadStatus {
    if reason == FailureReason::Cancelled {
        DownloadStatus::Cancelled
    } else {
        DownloadStatus::Failed
    }
}

/// In a journal whose URLs are distinct, the record found at a position is
/// the record of its URL.
proof fn lemma_index_of(records: Seq<RecordView>, i: int)
    requires
        urls_distinct(records),
        0 <= i < records.len(),
    ensures
        has_url(records, records[i].url),
        index_of(records, records[i].url) == i,
{
    let j = index_of(records, records[i].url);
    assert(0 <= j < records.len() && records[j].url == records[i].url);
    if i < j {
        assert(records[i].url != records[j].url);
    }
    if j < i {
        assert(records[j].url != records[i].url);
    }
}

/// The URL that the task numbered `id` is at work on, if the table holds
/// the task and it has not been cancelled.
pub open spec fn live_url(tasks: Seq<TaskView>, id: u64) -> Option<Seq<char>> {
    if has_task(tasks, id) && !tasks[task_index(tasks, id)].cancelled {
        Some(tasks[task_index(tasks, id)].url)
    } else {
        None
    }
}

/// In a table whose numbers are distinct, the task found at a position is
/// the task of its number.
proof fn lemma_task_index(tasks: Seq<TaskView>, records: Seq<RecordView>, issued: nat, k: int)
    requires
        tasks_wf(tasks, records, issued),
        0 <= k < tasks.len(),
    ensures
        has_task(tasks, tasks[k].id),
        task_index(tasks, tasks[k].id) == k,
{
    let l = task_index(tasks, tasks[k].id);
    assert(0 <= l < tasks.len() && tasks[l].id == tasks[k].id);
    if k < l {
        assert(tasks[k].id != tasks[l].id);
    }
    if l < k {
        assert(tasks[l].id != tasks[k].id);
    }
}

/// The task table stays well formed when its tasks keep their numbers and
/// URLs, none that was cancelled comes back to life, and each that is live
/// afterwards still has its record in progress.
proof fn lemma_tasks_kept(
    before_tasks: Seq<TaskView>,
    before_records: Seq<RecordView>,
    after_tasks: Seq<TaskView>,
    after_records: Seq<RecordView>,
    issued: nat,
)
    requires
        tasks_wf(before_tasks, before_records, issued),
        after_tasks.len() == before_tasks.len(),
        forall|k: int|
            0 <= k < before_tasks.len() ==> (#[trigger] after_tasks[k]).id == before_tasks[k].id
                && after_tasks[k].url == before_tasks[k].url && (before_tasks[k].cancelled
                ==> after_tasks[k].cancelled),
        forall|k: int|
            0 <= k < after_tasks.len() && !(#[trigger] after_tasks[k]).cancelled ==> has_in_progress(
                after_records,
                after_tasks[k].url,
            ),
    ensures
        tasks_wf(after_tasks, after_records, issued),
{
    assert forall|k: int| 0 <= k < after_tasks.len() implies (#[trigger] after_tasks[k]).id < issued by {
        assert(before_tasks[k].id < issued);
    }
    assert forall|k: int, l: int| 0 <= k < l < after_tasks.len() implies (#[trigger] after_tasks[k]).id != (
    #[trigger] after_tasks[l]).id by {
        assert(before_tasks[k].id != before_tasks[l].id);
    }
    assert forall|k: int, l: int|
        0 <= k < l < after_tasks.len() && !(#[trigger] after_tasks[k]).cancelled && !(
        #[trigger] after_tasks[l]).cancelled implies after_tasks[k].url != after_tasks[l].url by {
        assert(!before_tasks[k].cancelled && !before_tasks[l].cancelled);
    }
}

/// The task table stays well formed when one task leaves it and each task
/// that stays and is live still has its record in progress.
proof fn lemma_tasks_after_removal(
    tasks: Seq<TaskView>,
    records: Seq<RecordView>,
    k: int,
    after_records: Seq<RecordView>,
    issued: nat,
)
    requires
        tasks_wf(tasks, records, issued),
        0 <= k < tasks.len(),
        forall|l: int|
            0 <= l < tasks.len() && l != k && !(#[trigger] tasks[l]).cancelled ==> has_in_progress(
                after_records,
                tasks[l].url,
            ),
    ensures
        tasks_wf(tasks.remove(k), after_records, issued),
{
    let after = tasks.remove(k);
    assert forall|l: int| 0 <= l < after.len() implies (#[trigger] after[l]) == tasks[if l < k {
        l
    } else {
        l + 1
    }] by {}
    assert forall|a: int| 0 <= a < after.len() implies (#[trigger] after[a]).id < issued by {
        let a0 = if a < k {
            a
        } else {
            a + 1
        };
        assert(tasks[a0].id < issued);
    }
    assert forall|a: int, b: int| 0 <= a < b < after.len() implies (#[trigger] after[a]).id != (
    #[trigger] after[b]).id by {
        let a0 = if a < k {
            a
        } else {
            a + 1
        };
        let b0 = if b < k {
            b
        } else {
            b + 1
        };
        assert(tasks[a0].id != tasks[b0].id);
    }
    assert forall|a: int, b: int|
        0 <= a < b < after.len() && !(#[trigger] after[a]).cancelled && !(#[trigger] after[b]).cancelled implies after[a].url
        != after[b].url by {
        let a0 = if a < k {
            a
        } else {
            a + 1
        };
        let b0 = if b < k {
            b
        } else {
            b + 1
        };
        assert(!tasks[a0].cancelled && !tasks[b0].cancelled);
    }
    assert forall|a: int| 0 <= a < after.len() && !(#[trigger] after[a]).cancelled implies has_in_progress(
        after_records,
        after[a].url,
    ) by {
        let a0 = if a < k {
            a
        } else {
            a + 1
        };
        assert(!tasks[a0].cancelled);
    }
}

/// Taking one record out of a journal leaves a journal, which no longer
/// holds the URL of that record and still holds every other record that is
/// in progress.
proof fn lemma_journal_after_removal(records: Seq<RecordView>, i: int)
    requires
        journal_wf(records),
        0 <= i < records.len(),
    ensures
        journal_wf(records.remove(i)),
        !has_url(records.remove(i), records[i].url),
        forall|other: Seq<char>|
            other != records[i].url && has_in_progress(records, other) ==> #[trigger] has_in_progress(
                records.remove(i),
                other,
            ),
{
    let after = records.remove(i);
    assert forall|a: int| 0 <= a < after.len() implies (#[trigger] after[a]) == records[if a < i {
        a
    } else {
        a + 1
    }] by {}
    assert forall|a: int| 0 <= a < after.len() implies (#[trigger] after[a]).wf() && after[a].url
        != records[i].url by {
        let a0 = if a < i {
            a
        } else {
            a + 1
        };
        assert(records[a0].wf());
        if a0 < i {
            assert(records[a0].url != records[i].url);
        } else {
            assert(records[i].url != records[a0].url);
        }
    }
    assert forall|a: int, b: int| 0 <= a < b < after.len() implies (#[trigger] after[a]).url != (
    #[trigger] after[b]).url by {
        let a0 = if a < i {
            a
        } else {
            a + 1
        };
        let b0 = if b < i {
            b
        } else {
            b + 1
        };
        assert(records[a0].url != records[b0].url);
    }
    assert forall|other: Seq<char>|
        other != records[i].url && has_in_progress(records, other) implies #[trigger] has_in_progress(
        after,
        other,
    ) by {
        let w = choose|w: int|
            0 <= w < records.len() && (#[trigger] records[w]).url == other && records[w].status
                == DownloadStatus::InProgress;
        let a = if w < i {
            w
        } else {
            w - 1
        };
        assert(after[a] == records[w]);
    }
}

/// Changing the record of `url` changes the record at its position and no
/// other.
proof fn lemma_amend_is_update(
    records: Seq<RecordView>,
    i: int,
    change: spec_fn(RecordView) -> RecordView,
)
    requires
        urls_distinct(records),
        0 <= i < records.len(),
    ensures
        amend(records, records[i].url, change) == records.update(i, change(records[i])),
{
    let url = records[i].url;
    assert forall|j: int| 0 <= j < records.len() && j != i implies (#[trigger] records[j]).url != url by {
        if j < i {
            assert(records[j].url != records[i].url);
        } else {
            assert(records[i].url != records[j].url);
        }
    }
    assert(amend(records, url, change) =~= records.update(i, change(records[i])));
}

/// Changing the live task of `url` changes the task at its position and no
/// other.
proof fn lemma_amend_live_is_update(
    tasks: Seq<TaskView>,
    records: Seq<RecordView>,
    issued: nat,
    k: int,
    change: spec_fn(TaskView) -> TaskView,
)
    requires
        tasks_wf(tasks, records, issued),
        0 <= k < tasks.len(),
        !tasks[k].cancelled,
    ensures
        amend_live(tasks, tasks[k].url, change) == tasks.update(k, change(tasks[k])),
{
    let url = tasks[k].url;
    assert forall|l: int| 0 <= l < tasks.len() && l != k implies (#[trigger] tasks[l]).cancelled
        || tasks[l].url != url by {
        if l < k {
            assert(!tasks[l].cancelled ==> tasks[l].url != tasks[k].url);
        } else {
            assert(!tasks[l].cancelled ==> tasks[k].url != tasks[l].url);
        }
    }
    assert(amend_live(tasks, url, change) =~= tasks.update(k, change(tasks[k])));
}

/// With no live task at work on `url`, changing live tasks of `url` changes
/// nothing.
proof fn lemma_amend_live_without_task(
    tasks: Seq<TaskView>,
    url: Seq<char>,
    change: spec_fn(TaskView) -> TaskView,
)
    requires
        !has_live_task(tasks, url),
    ensures
        amend_live(tasks, url, change) == tasks,
{
    assert(amend_live(tasks, url, change) =~= tasks);
}

/// The record in progress of a live task is the record of its URL.
proof fn lemma_live_record(records: Seq<RecordView>, url: Seq<char>, i: int)
    requires
        urls_distinct(records),
        has_in_progress(records, url),
        0 <= i < records.len(),
        records[i].url == url,
    ensures
        records[i].status == DownloadStatus::InProgress,
{
    let w = choose|w: int|
        0 <= w < records.len() && (#[trigger] records[w]).url == url && records[w].status
            == DownloadStatus::InProgress;
    if w < i {
        assert(records[w].url != records[i].url);
    }
    if i < w {
        assert(records[i].url != records[w].url);
    }
}

/// Whether a record is picked up again by itself: it was running, the user
/// had not paused it, and no live engine is at work on it.
pub open spec fn resumable(record: RecordView, tasks: Seq<TaskView>) -> bool {
    record.resumes_by_itself() && !has_live_task(tasks, record.url)
}

/// The records that reconciliation leaves as they are, in their order.
pub open spec fn passive_of(records: Seq<RecordView>, tasks: Seq<TaskView>) -> Seq<RecordView>
    decreases records.len(),
{
    if records.len() == 0 {
        Seq::empty()
    } else if resumable(records.last(), tasks) {
        passive_of(records.drop_last(), tasks)
    } else {
        passive_of(records.drop_last(), tasks).push(records.last())
    }
}

/// The URLs of the records that reconciliation picks up again, in their
/// order.
pub open spec fn resumed_of(records: Seq<RecordView>, tasks: Seq<TaskView>) -> Seq<Seq<char>>
    decreases records.len(),
{
    if records.len() == 0 {
        Seq::empty()
    } else if resumable(records.last(), tasks) {
        resumed_of(records.drop_last(), tasks).push(records.last().url)
    } else {
        resumed_of(records.drop_last(), tasks)
    }
}

/// Fresh records for `urls`, all added at `now`.
pub open spec fn fresh_records(urls: Seq<Seq<char>>, now: Timestamp) -> Seq<RecordView> {
    Seq::new(urls.len(), |i: int| fresh_record(urls[i], file_name_of(urls[i]), now))
}

/// Fresh tasks for `urls`, numbered from `first` on.
pub open spec fn fresh_tasks(urls: Seq<Seq<char>>, first: nat) -> Seq<TaskView> {
    Seq::new(urls.len(), |i: int| fresh_task((first + i) as u64, urls[i]))
}

/// The texts of a list of strings.
pub open spec fn texts_of(strings: Seq<String>) -> Seq<Seq<char>> {
    Seq::new(strings.len(), |i: int| strings[i]@)
}

/// A journal that loses a record holds no URL that it did not hold before.
proof fn lemma_removal_adds_no_url(records: Seq<RecordView>, i: int, url: Seq<char>)
    requires
        0 <= i < records.len(),
        !has_url(records, url),
    ensures
        !has_url(records.remove(i), url),
{
    let after = records.remove(i);
    assert forall|a: int| 0 <= a < after.len() implies (#[trigger] after[a]).url != url by {
        let a0 = if a < i {
            a
        } else {
            a + 1
        };
        assert(after[a] == records[a0]);
    }
}

/// What adding `url` at `now` does. A URL that the journal already holds, in
/// whatever state, is refused with what the journal says of it, and nothing
/// changes. Any other URL gets a fresh record at the end of the journal and
/// a task of its own.
pub open spec fn enqueued_at(
    before: DownloadManager,
    after: DownloadManager,
    url: Seq<char>,
    now: Timestamp,
    result: Result<Launch, Duplicate>,
) -> bool {
    &&& after.records() == journal_after_enqueue(before.records(), url, now)
    &&& if has_url(before.records(), url) {
        &&& result is Err
        &&& result->Err_0.tells_of(before.records()[index_of(before.records(), url)])
        &&& after.tasks() == before.tasks()
        &&& after.issued() == before.issued()
    } else {
        &&& result is Ok
        &&& result->Ok_0.is_for(before.issued(), url)
        &&& after.tasks() == before.tasks().push(fresh_task(before.issued() as u64, url))
        &&& after.issued() == before.issued() + 1
    }
}

/// What cancelling `url` at `now` does. If a live engine is at work on the
/// URL, its task is cancelled for good and the record is marked cancelled as
/// of `now`; otherwise nothing changes.
pub open spec fn cancelled_at(
    before: DownloadManager,
    after: DownloadManager,
    url: Seq<char>,
    now: Timestamp,
    changed: bool,
) -> bool {
    &&& changed == has_live_task(before.tasks(), url)
    &&& after.issued() == before.issued()
    &&& if changed {
        &&& after.tasks() == amend_live(before.tasks(), url, |t: TaskView| t.cancel_set())
        &&& after.records() == amend(
            before.records(),
            url,
            |r: RecordView| r.ended(DownloadStatus::Cancelled, now),
        )
    } else {
        &&& after.tasks() == before.tasks()
        &&& after.records() == before.records()
    }
}

/// The manager after the record of `url` has been replaced by a fresh one
/// at the end of the journal, with a task of its own.
pub open spec fn replaced_by_fresh(
    before: DownloadManager,
    after: DownloadManager,
    url: Seq<char>,
    now: Timestamp,
) -> bool {
    &&& after.records() == before.records().remove(index_of(before.records(), url)).push(
        fresh_record(url, file_name_of(url), now),
    )
    &&& after.tasks() == before.tasks().push(fresh_task(before.issued() as u64, url))
    &&& after.issued() == before.issued() + 1
}

/// The manager as it was.
pub open spec fn unchanged(before: DownloadManager, after: DownloadManager) -> bool {
    &&& after.records() == before.records()
    &&& after.tasks() == before.tasks()
    &&& after.issued() == before.issued()
}

/// What restarting `url` at `now` does. A record that is cancelled or has
/// failed is removed, and a fresh one is added at the end with a task of its
/// own. In any other case the command is refused and nothing changes.
pub open spec fn restarted_at(
    before: DownloadManager,
    after: DownloadManager,
    url: Seq<char>,
    now: Timestamp,
    result: Result<Launch, RestartError>,
) -> bool {
    if !has_url(before.records(), url) {
        result == Err::<Launch, RestartError>(RestartError::NotFound) && unchanged(before, after)
    } else {
        let record = before.records()[index_of(before.records(), url)];
        if record.status == DownloadStatus::Cancelled || record.status == DownloadStatus::Failed {
            &&& result is Ok
            &&& result->Ok_0.is_for(before.issued(), url)
            &&& replaced_by_fresh(before, after, url, now)
        } else {
            &&& result == Err::<Launch, RestartError>(RestartError::WrongStatus(record.status))
            &&& unchanged(before, after)
        }
    }
}

/// What picking up the stored download of `url` at `now` does. A record
/// that is in progress and has no live engine is removed, and a fresh one is
/// added at the end with a task of its own. In any other case the command
/// is refused and nothing changes.
pub open spec fn resumed_at(
    before: DownloadManager,
    after: DownloadManager,
    url: Seq<char>,
    now: Timestamp,
    result: Result<Launch, RestartError>,
) -> bool {
    if !has_url(before.records(), url) {
        result == Err::<Launch, RestartError>(RestartError::NotFound) && unchanged(before, after)
    } else {
        let record = before.records()[index_of(before.records(), url)];
        if record.status != DownloadStatus::InProgress {
            &&& result == Err::<Launch, RestartError>(RestartError::WrongStatus(record.status))
            &&& unchanged(before, after)
        } else if has_live_task(before.tasks(), url) {
            &&& result == Err::<Launch, RestartError>(RestartError::Busy)
            &&& unchanged(before, after)
        } else {
            &&& result is Ok
            &&& result->Ok_0.is_for(before.issued(), url)
            &&& replaced_by_fresh(before, after, url, now)
        }
    }
}

/// What the end of engine `id` does, when `change` is what becomes of its
/// record. The task leaves the table. Unless it had been cancelled, its
/// record is changed; the record of a cancelled task stays as it is, and so
/// does everything if the table does not hold the task.
pub open spec fn concluded(
    before: DownloadManager,
    after: DownloadManager,
    id: u64,
    change: spec_fn(RecordView) -> RecordView,
    changed: bool,
) -> bool {
    &&& changed == (live_url(before.tasks(), id) is Some)
    &&& after.issued() == before.issued()
    &&& after.records() == if changed {
        amend(before.records(), live_url(before.tasks(), id)->0, change)
    } else {
        before.records()
    }
    &&& after.tasks() == if has_task(before.tasks(), id) {
        before.tasks().remove(task_index(before.tasks(), id))
    } else {
        before.tasks()
    }
}

/// What the completion of engine `id` at `now` does. The task leaves the
/// table. Unless it had been cancelled, its record becomes completed as of
/// `now`, with the path and all of its bytes.
pub open spec fn completed_at(
    before: DownloadManager,
    after: DownloadManager,
    id: u64,
    file_path: Seq<char>,
    now: Timestamp,
    changed: bool,
) -> bool {
    concluded(before, after, id, |r: RecordView| r.completed(file_path, now), changed)
}

/// What the failure of engine `id` at `now` does. The task leaves the
/// table. Unless it had been cancelled, its record becomes cancelled or
/// failed, by the reason, as of `now`.
pub open spec fn failed_at(
    before: DownloadManager,
    after: DownloadManager,
    id: u64,
    reason: FailureReason,
    now: Timestamp,
    changed: bool,
) -> bool {
    concluded(before, after, id, |r: RecordView| r.ended(status_after(reason), now), changed)
}

/// What reconciliation at `now` does. Each record that was in progress and
/// not paused, and has no live engine, is removed, and a fresh record with a
/// task of its own is added at the end, in the same order; all other records
/// stay as they are. There is one launch for each download picked up.
pub open spec fn reconciled_at(
    before: DownloadManager,
    after: DownloadManager,
    now: Timestamp,
    launches: Vec<Launch>,
) -> bool {
    let resumed = resumed_of(before.records(), before.tasks());
    &&& after.records() == passive_of(before.records(), before.tasks()) + fresh_records(resumed, now)
    &&& after.tasks() == before.tasks() + fresh_tasks(resumed, before.issued())
    &&& after.issued() == before.issued() + resumed.len()
    &&& launches@.len() == resumed.len()
    &&& forall|k: int|
        0 <= k < launches@.len() ==> (#[trigger] launches@[k]).is_for((before.issued() + k) as nat, resumed[k])
}

/// Ended downloads stay ended: what pausing, resuming, cancelling and the
/// events of an engine change is the record of a live task, which is in
/// progress; a record that is completed, failed or cancelled is changed by
/// none of them.
pub proof fn lemma_ended_records_stay(
    records: Seq<RecordView>,
    tasks: Seq<TaskView>,
    issued: nat,
    url: Seq<char>,
    change: spec_fn(RecordView) -> RecordView,
)
    requires
        journal_wf(records),
        tasks_wf(tasks, records, issued),
        has_live_task(tasks, url),
    ensures
        forall|i: int|
            0 <= i < records.len() && (#[trigger] records[i]).status != DownloadStatus::InProgress ==> amend(
                records,
                url,
                change,
            )[i] == records[i],
{
    let k = choose|k: int| 0 <= k < tasks.len() && !(#[trigger] tasks[k]).cancelled && tasks[k].url == url;
    assert(has_in_progress(records, tasks[k].url));
    assert forall|i: int|
        0 <= i < records.len() && (#[trigger] records[i]).status != DownloadStatus::InProgress implies amend(
        records,
        url,
        change,
    )[i] == records[i] by {
        if records[i].url == url {
            lemma_live_record(records, url, i);
        }
    }
}

/// The journal after `url` has been added at `now`: as it was if it held the
/// URL, and with a fresh record at its end if it did not.
pub open spec fn journal_after_enqueue(records: Seq<RecordView>, url: Seq<char>, now: Timestamp) -> Seq<
    RecordView,
> {
    if has_url(records, url) {
        records
    } else {
        records.push(fresh_record(url, file_name_of(url), now))
    }
}

/// Duplicate rejection: adding a URL that the journal holds, in whatever
/// state, leaves the journal as it is; so adding the same URL twice leaves
/// the journal as adding it once does, whenever the second attempt is made.
pub proof fn lemma_enqueue_is_idempotent(
    records: Seq<RecordView>,
    url: Seq<char>,
    first: Timestamp,
    second: Timestamp,
)
    ensures
        has_url(records, url) ==> journal_after_enqueue(records, url, first) == records,
        has_url(journal_after_enqueue(records, url, first), url),
        journal_after_enqueue(journal_after_enqueue(records, url, first), url, second)
            == journal_after_enqueue(records, url, first),
{
    let once = journal_after_enqueue(records, url, first);
    if !has_url(records, url) {
        assert(once[records.len() as int].url == url);
    }
}

/// Owns the journal and the table of live tasks.
pub struct DownloadManager {
    records: Vec<DownloadRecord>,
    tasks: Vec<LiveTask>,
    next_id: u64,
}

impl DownloadManager {
    /// The journal, in the order in which it is stored.
    pub closed spec fn records(&self) -> Seq<RecordView> {
        views_of(self.records@)
    }

    /// The table of live tasks.
    pub closed spec fn tasks(&self) -> Seq<TaskView> {
        Seq::new(self.tasks@.len(), |k: int| self.tasks@[k]@)
    }

    /// The number of task numbers issued so far, which is the next number.
    pub closed spec fn issued(&self) -> nat {
        self.next_id as nat
    }

    /// What holds of every manager between two calls.
    pub open spec fn wf(&self) -> bool {
        &&& journal_wf(self.records())
        &&& tasks_wf(self.tasks(), self.records(), self.issued())
    }

    /// A manager with an empty journal and no task.
    pub fn new() -> (manager: DownloadManager)
        ensures
            manager.wf(),
            manager.records() == Seq::<RecordView>::empty(),
            manager.tasks() == Seq::<TaskView>::empty(),
            manager.issued() == 0,
    {
        let manager = DownloadManager { records: Vec::new(), tasks: Vec::new(), next_id: 0 };
        assert(manager.records() =~= Seq::<RecordView>::empty());
        assert(manager.tasks() =~= Seq::<TaskView>::empty());
        manager
    }

    /// A manager for a journal that was read from disk, with no task yet. A
    /// list in which a URL occurs twice, or a record is not well formed, is
    /// not a journal, and is refused.
    pub fn restore(records: Vec<DownloadRecord>) -> (manager: Option<DownloadManager>)
        ensures
            manager is Some <==> journal_wf(views_of(records@)),
            manager is Some ==> manager->0.wf() && manager->0.records() == views_of(records@)
                && manager->0.tasks() == Seq::<TaskView>::empty() && manager->0.issued() == 0,
    {
        let ghost views = views_of(records@);
        let mut i: usize = 0;
        while i < records.len()
            invariant
                i <= records@.len(),
                views == views_of(records@),
                forall|a: int| 0 <= a < i ==> (#[trigger] views[a]).wf(),
                forall|a: int, b: int|
                    0 <= a < b < i ==> (#[trigger] views[a]).url != (#[trigger] views[b]).url,
            decreases records@.len() - i,
        {
            if !records[i].is_well_formed() {
                assert(!views[i as int].wf());
                return None;
            }
            let mut j: usize = 0;
            while j < i
                invariant
                    j <= i,
                    i < records@.len(),
                    views == views_of(records@),
                    forall|a: int| 0 <= a < j ==> (#[trigger] views[a]).url != views[i as int].url,
                decreases i - j,
            {
                if str_eq(records[j].url.as_str(), records[i].url.as_str()) {
                    assert(views[j as int].url == views[i as int].url);
                    return None;
                }
                j = j + 1;
            }
            i = i + 1;
        }
        let manager = DownloadManager { records, tasks: Vec::new(), next_id: 0 };
        assert(manager.tasks() =~= Seq::<TaskView>::empty());
        Some(manager)
    }

    /// Number of records in the journal.
    pub fn len(&self) -> (n: usize)
        ensures
            n == self.records().len(),
    {
        self.records.len()
    }

    /// Whether the journal is empty.
    pub fn is_empty(&self) -> (yes: bool)
        ensures
            yes == (self.records().len() == 0),
    {
        self.records.len() == 0
    }

    /// The number of engines in the task table, cancelled ones included.
    pub fn task_count(&self) -> (n: usize)
        ensures
            n == self.tasks().len(),
    {
        self.tasks.len()
    }

    /// The number the next task gets.
    pub fn next_task_id(&self) -> (id: u64)
        ensures
            id == self.issued(),
    {
        self.next_id
    }

    /// A copy of the journal, to be written to disk or shown.
    pub fn snapshot(&self) -> (copy: Vec<DownloadRecord>)
        ensures
            views_of(copy@) == self.records(),
    {
        let mut copy: Vec<DownloadRecord> = Vec::new();
        let mut i: usize = 0;
        while i < self.records.len()
            invariant
                i <= self.records@.len(),
                copy@.len() == i,
                forall|a: int| 0 <= a < i ==> (#[trigger] copy@[a])@ == self.records@[a]@,
            decreases self.records@.len() - i,
        {
            copy.push(self.records[i].clone());
            i = i + 1;
        }
        assert(views_of(copy@) =~= self.records());
        copy
    }

    /// Position of the record of `url`, if the journal holds one.
    fn find_record(&self, url: &str) -> (found: Option<usize>)
        ensures
            found is Some <==> has_url(self.records(), url@),
            found is Some ==> found->0 < self.records().len() && self.records()[found->0 as int].url == url@,
    {
        let mut i: usize = 0;
        while i < self.records.len()
            invariant
                i <= self.records@.len(),
                forall|a: int| 0 <= a < i ==> (#[trigger] self.records()[a]).url != url@,
            decreases self.records@.len() - i,
        {
            if str_eq(self.records[i].url.as_str(), url) {
                assert(self.records()[i as int].url == url@);
                return Some(i);
            }
            i = i + 1;
        }
        None
    }

    /// Position of the task that is at work on `url` and not cancelled, if
    /// there is one.
    fn find_live(&self, url: &str) -> (found: Option<usize>)
        ensures
            found is Some <==> has_live_task(self.tasks(), url@),
            found is Some ==> found->0 < self.tasks().len() && self.tasks()[found->0 as int].url == url@
                && !self.tasks()[found->0 as int].cancelled,
    {
        let mut k: usize = 0;
        while k < self.tasks.len()
            invariant
                k <= self.tasks@.len(),
                forall|a: int|
                    0 <= a < k ==> (#[trigger] self.tasks()[a]).cancelled || self.tasks()[a].url != url@,
            decreases self.tasks@.len() - k,
        {
            if !self.tasks[k].task.is_cancelled() && str_eq(self.tasks[k].url.as_str(), url) {
                assert(self.tasks()[k as int].url == url@ && !self.tasks()[k as int].cancelled);
                return Some(k);
            }
            k = k + 1;
        }
        None
    }

    /// Position of the task numbered `id`, if the table holds it.
    fn find_task(&self, id: u64) -> (found: Option<usize>)
        ensures
            found is Some <==> has_task(self.tasks(), id),
            found is Some ==> found->0 < self.tasks().len() && self.tasks()[found->0 as int].id == id,
    {
        let mut k: usize = 0;
        while k < self.tasks.len()
            invariant
                k <= self.tasks@.len(),
                forall|a: int| 0 <= a < k ==> (#[trigger] self.tasks()[a]).id != id,
            decreases self.tasks@.len() - k,
        {
            if self.tasks[k].id == id {
                assert(self.tasks()[k as int].id == id);
                return Some(k);
            }
            k = k + 1;
        }
        None
    }

    /// A copy of the record of `url`, if the journal holds one.
    pub fn lookup(&self, url: &str) -> (record: Option<DownloadRecord>)
        requires
            self.wf(),
        ensures
            record is Some <==> has_url(self.records(), url@),
            record is Some ==> record->0@ == self.records()[index_of(self.records(), url@)],
    {
        match self.find_record(url) {
            Some(i) => {
                assert(index_of(self.records(), url@) == i);
                Some(self.records[i].clone())
            },
            None => None,
        }
    }

    /// Replaces the record at `index`.
    fn put_record(&mut self, index: usize, record: DownloadRecord)
        requires
            index < old(self).records().len(),
        ensures
            final(self).records() == old(self).records().update(index as int, record@),
            final(self).tasks() == old(self).tasks(),
            final(self).issued() == old(self).issued(),
    {
        self.records.set(index, record);
        assert(self.records() =~= old(self).records().update(index as int, record@));
    }

    /// Replaces the control block of the task at `index`.
    fn put_task(&mut self, index: usize, task: DownloadTask)
        requires
            index < old(self).tasks().len(),
        ensures
            final(self).tasks() == old(self).tasks().update(
                index as int,
                TaskView { paused: task.paused(), cancelled: task.cancelled(), ..old(self).tasks()[index as int] },
            ),
            final(self).records() == old(self).records(),
            final(self).issued() == old(self).issued(),
    {
        let entry = LiveTask { id: self.tasks[index].id, url: self.tasks[index].url.clone(), task };
        self.tasks.set(index, entry);
        assert(self.tasks() =~= old(self).tasks().update(
            index as int,
            TaskView { paused: task.paused(), cancelled: task.cancelled(), ..old(self).tasks()[index as int] },
        ));
    }

    /// Adds the record and the task of a new download of `url`.
    fn add_fresh(&mut self, url: &str, now: Timestamp) -> (launch: Launch)
        requires
            old(self).wf(),
            old(self).issued() < u64::MAX,
            !has_url(old(self).records(), url@),
        ensures
            final(self).wf(),
            launch.is_for(old(self).issued(), url@),
            final(self).records() == old(self).records().push(fresh_record(url@, file_name_of(url@), now)),
            final(self).tasks() == old(self).tasks().push(fresh_task(old(self).issued() as u64, url@)),
            final(self).issued() == old(self).issued() + 1,
    {
        let filename = filename_from_url(url);
        let record = DownloadRecord::fresh(url, filename.as_str(), now);
        let id: u64 = self.next_id;
        let ghost before_records = self.records();
        let ghost before_tasks = self.tasks();
        self.records.push(record);
        self.tasks.push(LiveTask { id, url: String::from_str(url), task: DownloadTask::new() });
        self.next_id = id + 1;
        let ghost after_records = self.records();
        let ghost after_tasks = self.tasks();
        proof {
            assert(after_records =~= before_records.push(fresh_record(url@, file_name_of(url@), now)));
            assert(after_tasks =~= before_tasks.push(fresh_task(id, url@)));
            assert forall|i: int, j: int| 0 <= i < j < after_records.len() implies (
            #[trigger] after_records[i]).url != (#[trigger] after_records[j]).url by {
                if j < before_records.len() {
                    assert(before_records[i].url != before_records[j].url);
                } else {
                    assert(before_records[i].url != url@);
                }
            }
            assert forall|i: int| 0 <= i < after_records.len() implies (#[trigger] after_records[i]).wf() by {
                if i < before_records.len() {
                    assert(before_records[i].wf());
                }
            }
            assert forall|k: int| 0 <= k < after_tasks.len() && !(#[trigger] after_tasks[k]).cancelled implies has_in_progress(
                after_records,
                after_tasks[k].url,
            ) by {
                if k < before_tasks.len() {
                    assert(!before_tasks[k].cancelled);
                    let i = choose|i: int|
                        0 <= i < before_records.len() && (#[trigger] before_records[i]).url
                            == before_tasks[k].url && before_records[i].status == DownloadStatus::InProgress;
                    assert(after_records[i] == before_records[i]);
                } else {
                    assert(after_records[before_records.len() as int].url == url@);
                }
            }
            assert forall|k: int, l: int|
                0 <= k < l < after_tasks.len() && !(#[trigger] after_tasks[k]).cancelled && !(
                #[trigger] after_tasks[l]).cancelled implies after_tasks[k].url != after_tasks[l].url by {
                if l < before_tasks.len() {
                    assert(!before_tasks[k].cancelled && !before_tasks[l].cancelled);
                } else {
                    assert(!before_tasks[k].cancelled);
                    assert(has_in_progress(before_records, before_tasks[k].url));
                }
            }
            assert forall|k: int, l: int| 0 <= k < l < after_tasks.len() implies (#[trigger] after_tasks[k]).id
                != (#[trigger] after_tasks[l]).id by {
                if l < before_tasks.len() {
                    assert(before_tasks[k].id != before_tasks[l].id);
                } else {
                    assert(before_tasks[k].id < id);
                }
            }
            assert forall|k: int| 0 <= k < after_tasks.len() implies (#[trigger] after_tasks[k]).id
                < self.issued() by {
                if k < before_tasks.len() {
                    assert(before_tasks[k].id < id);
                }
            }
        }
        Launch { id, url: String::from_str(url), filename }
    }

    /// Adds a download of `url` as of the current time; see `enqueue_at`.
    pub fn enqueue(&mut self, url: &str) -> (result: Result<Launch, Duplicate>)
        requires
            old(self).wf(),
            old(self).issued() < u64::MAX,
        ensures
            final(self).wf(),
            exists|now: Timestamp| #[trigger] enqueued_at(*old(self), *final(self), url@, now, result),
    {
        let now = utc_now();
        let result = self.enqueue_at(url, now);
        assert(enqueued_at(*old(self), *self, url@, now, result));
        result
    }

    /// Adds a download of `url` as of `now`. A URL that the journal already
    /// holds, in whatever state, is refused with what the journal says of
    /// it, and nothing changes. Any other URL gets a record in progress at
    /// the end of the journal and a task of its own; the caller writes the
    /// journal to disk and starts the engine.
    pub fn enqueue_at(&mut self, url: &str, now: Timestamp) -> (result: Result<Launch, Duplicate>)
        requires
            old(self).wf(),
            old(self).issued() < u64::MAX,
        ensures
            final(self).wf(),
            enqueued_at(*old(self), *final(self), url@, now, result),
    {
        match self.find_record(url) {
            Some(i) => {
                proof {
                    lemma_index_of(self.records(), i as int);
                }
                Err(
                    Duplicate {
                        status: self.records[i].status,
                        filename: self.records[i].filename.clone(),
                        date_added: self.records[i].date_added,
                    },
                )
            },
            None => Ok(self.add_fresh(url, now)),
        }
    }

    /// Sets the pause flag of the live task of `url` and notes it in the
    /// record, so that it survives a restart.
    fn set_paused(&mut self, url: &str, paused: bool) -> (changed: bool)
        requires
            old(self).wf(),
        ensures
            final(self).wf(),
            changed == has_live_task(old(self).tasks(), url@),
            changed ==> final(self).tasks() == amend_live(
                old(self).tasks(),
                url@,
                |t: TaskView| t.pause_set(paused),
            ) && final(self).records() == amend(
                old(self).records(),
                url@,
                |r: RecordView| r.pause_noted(paused),
            ),
            !changed ==> final(self).tasks() == old(self).tasks() && final(self).records() == old(
                self,
            ).records(),
            final(self).issued() == old(self).issued(),
    {
        let k = match self.find_live(url) {
            Some(k) => k,
            None => {
                return false;
            },
        };
        assert(has_in_progress(self.records(), url@));
        let i = match self.find_record(url) {
            Some(i) => i,
            None => {
                return false;
            },
        };
        proof {
            lemma_live_record(self.records(), url@, i as int);
            lemma_amend_is_update(self.records(), i as int, |r: RecordView| r.pause_noted(paused));
            lemma_amend_live_is_update(
                self.tasks(),
                self.records(),
                self.issued(),
                k as int,
                |t: TaskView| t.pause_set(paused),
            );
        }
        let mut task = self.tasks[k].task.clone();
        task.set_paused(paused);
        let mut record = self.records[i].clone();
        record.was_paused = paused;
        self.apply(i, record, Some(k), task);
        true
    }

    /// Pauses the download of `url`, if an engine is at work on it: the
    /// task is paused, and the record says so. The result tells whether
    /// there was such an engine; if so, the journal is to be written.
    pub fn pause(&mut self, url: &str) -> (changed: bool)
        requires
            old(self).wf(),
        ensures
            final(self).wf(),
            changed == has_live_task(old(self).tasks(), url@),
            changed ==> final(self).tasks() == amend_live(
                old(self).tasks(),
                url@,
                |t: TaskView| t.pause_set(true),
            ) && final(self).records() == amend(old(self).records(), url@, |r: RecordView| r.pause_noted(true)),
            !changed ==> final(self).tasks() == old(self).tasks() && final(self).records() == old(
                self,
            ).records(),
            final(self).issued() == old(self).issued(),
    {
        self.set_paused(url, true)
    }

    /// Lets the paused download of `url` run again, if an engine is at work
    /// on it: the task is no longer paused, and the record says so.
    pub fn resume(&mut self, url: &str) -> (changed: bool)
        requires
            old(self).wf(),
        ensures
            final(self).wf(),
            changed == has_live_task(old(self).tasks(), url@),
            changed ==> final(self).tasks() == amend_live(
                old(self).tasks(),
                url@,
                |t: TaskView| t.pause_set(false),
            ) && final(self).records() == amend(
                old(self).records(),
                url@,
                |r: RecordView| r.pause_noted(false),
            ),
            !changed ==> final(self).tasks() == old(self).tasks() && final(self).records() == old(
                self,
            ).records(),
            final(self).issued() == old(self).issued(),
    {
        self.set_paused(url, false)
    }

    /// Changes the record at `index` and, if told to, the control block of
    /// the live task at `live`, whose URL is that of the record. The change
    /// keeps the record's URL and leaves it well formed; the task does not
    /// come back to life, and stays live only with its record in progress.
    fn apply(&mut self, index: usize, record: DownloadRecord, live: Option<usize>, task: DownloadTask)
        requires
            old(self).wf(),
            index < old(self).records().len(),
            record@.url == old(self).records()[index as int].url,
            record@.wf(),
            live is Some ==> live->0 < old(self).tasks().len() && !old(self).tasks()[live->0 as int].cancelled
                && old(self).tasks()[live->0 as int].url == record@.url,
            live is Some && !task.cancelled() ==> record@.status == DownloadStatus::InProgress,
            live is None ==> !has_live_task(old(self).tasks(), record@.url),
        ensures
            final(self).wf(),
            final(self).records() == old(self).records().update(index as int, record@),
            live is Some ==> final(self).tasks() == old(self).tasks().update(
                live->0 as int,
                TaskView {
                    paused: task.paused(),
                    cancelled: task.cancelled(),
                    ..old(self).tasks()[live->0 as int]
                },
            ),
            live is None ==> final(self).tasks() == old(self).tasks(),
            final(self).issued() == old(self).issued(),
    {
        let ghost before_records = self.records();
        let ghost before_tasks = self.tasks();
        let ghost url = record@.url;
        let ghost new_record = record@;
        self.put_record(index, record);
        match live {
            Some(k) => {
                self.put_task(k, task);
            },
            None => {},
        }
        proof {
            let after_records = self.records();
            let after_tasks = self.tasks();
            assert forall|i: int| 0 <= i < after_records.len() implies (#[trigger] after_records[i]).wf()
                && after_records[i].url == before_records[i].url by {
                assert(before_records[i].wf());
            }
            assert forall|i: int, j: int| 0 <= i < j < after_records.len() implies (
            #[trigger] after_records[i]).url != (#[trigger] after_records[j]).url by {
                assert(before_records[i].url != before_records[j].url);
                assert(after_records[i].url == before_records[i].url);
                assert(after_records[j].url == before_records[j].url);
            }
            assert forall|l: int| 0 <= l < after_tasks.len() && !(#[trigger] after_tasks[l]).cancelled implies has_in_progress(
                after_records,
                after_tasks[l].url,
            ) by {
                assert(after_tasks[l].url == before_tasks[l].url);
                if before_tasks[l].url == url {
                    assert(!before_tasks[l].cancelled);
                    if live is Some {
                        let k = live->0 as int;
                        if l < k {
                            assert(before_tasks[l].url != before_tasks[k].url);
                        }
                        if k < l {
                            assert(before_tasks[k].url != before_tasks[l].url);
                        }
                        assert(l == k);
                        assert(after_records[index as int] == new_record);
                    }
                } else {
                    assert(!before_tasks[l].cancelled);
                    let w = choose|w: int|
                        0 <= w < before_records.len() && (#[trigger] before_records[w]).url
                            == before_tasks[l].url && before_records[w].status == DownloadStatus::InProgress;
                    assert(after_records[w] == before_records[w]);
                }
            }
            lemma_tasks_kept(before_tasks, before_records, after_tasks, after_records, self.issued());
        }
    }

    /// Cancels the download of `url` as of the current time; see
    /// `cancel_at`.
    pub fn cancel(&mut self, url: &str) -> (changed: bool)
        requires
            old(self).wf(),
        ensures
            final(self).wf(),
            exists|now: Timestamp| #[trigger] cancelled_at(*old(self), *final(self), url@, now, changed),
    {
        let now = utc_now();
        let changed = self.cancel_at(url, now);
        assert(cancelled_at(*old(self), *self, url@, now, changed));
        changed
    }

    /// Cancels the download of `url`, if an engine is at work on it: the
    /// task is cancelled for good, and the record is marked cancelled as of
    /// `now`. The engine notices at its next look at the task and tears
    /// down. The result tells whether there was such an engine.
    pub fn cancel_at(&mut self, url: &str, now: Timestamp) -> (changed: bool)
        requires
            old(self).wf(),
        ensures
            final(self).wf(),
            cancelled_at(*old(self), *final(self), url@, now, changed),
    {
        let k = match self.find_live(url) {
            Some(k) => k,
            None => {
                return false;
            },
        };
        assert(has_in_progress(self.records(), url@));
        let i = match self.find_record(url) {
            Some(i) => i,
            None => {
                return false;
            },
        };
        proof {
            lemma_amend_is_update(
                self.records(),
                i as int,
                |r: RecordView| r.ended(DownloadStatus::Cancelled, now),
            );
            lemma_amend_live_is_update(
                self.tasks(),
                self.records(),
                self.issued(),
                k as int,
                |t: TaskView| t.cancel_set(),
            );
        }
        let mut task = self.tasks[k].task.clone();
        task.cancel();
        let mut record = self.records[i].clone();
        record.status = DownloadStatus::Cancelled;
        record.date_completed = Some(now);
        self.apply(i, record, Some(k), task);
        true
    }

    /// Takes the record at `index` out of the journal. No live task is at
    /// work on its URL.
    fn drop_record(&mut self, index: usize)
        requires
            old(self).wf(),
            index < old(self).records().len(),
            !has_live_task(old(self).tasks(), old(self).records()[index as int].url),
        ensures
            final(self).wf(),
            final(self).records() == old(self).records().remove(index as int),
            !has_url(final(self).records(), old(self).records()[index as int].url),
            final(self).tasks() == old(self).tasks(),
            final(self).issued() == old(self).issued(),
    {
        let ghost before = self.records();
        self.records.remove(index);
        proof {
            assert(self.records() =~= before.remove(index as int));
            lemma_journal_after_removal(before, index as int);
            let tasks = self.tasks();
            assert forall|k: int| 0 <= k < tasks.len() && !(#[trigger] tasks[k]).cancelled implies has_in_progress(
                self.records(),
                tasks[k].url,
            ) by {
                assert(has_in_progress(before, tasks[k].url));
            }
            lemma_tasks_kept(tasks, before, tasks, self.records(), self.issued());
        }
    }

    /// Removes the record of `url` from the journal. If an engine is still
    /// at work on the URL, its task is cancelled on the way. A finished
    /// file stays on disk. The result tells whether there was a record, and
    /// whether its removal left the journal empty.
    pub fn delete(&mut self, url: &str) -> (outcome: Deleted)
        requires
            old(self).wf(),
        ensures
            final(self).wf(),
            outcome.removed == has_url(old(self).records(), url@),
            outcome.now_empty == (outcome.removed && final(self).records().len() == 0),
            outcome.removed ==> final(self).records() == old(self).records().remove(
                index_of(old(self).records(), url@),
            ) && final(self).tasks() == amend_live(old(self).tasks(), url@, |t: TaskView| t.cancel_set()),
            !outcome.removed ==> final(self).records() == old(self).records() && final(self).tasks() == old(
                self,
            ).tasks(),
            final(self).issued() == old(self).issued(),
    {
        let i = match self.find_record(url) {
            Some(i) => i,
            None => {
                return Deleted { removed: false, now_empty: false };
            },
        };
        proof {
            lemma_index_of(self.records(), i as int);
        }
        match self.find_live(url) {
            Some(k) => {
                proof {
                    lemma_amend_live_is_update(
                        self.tasks(),
                        self.records(),
                        self.issued(),
                        k as int,
                        |t: TaskView| t.cancel_set(),
                    );
                }
                let mut task = self.tasks[k].task.clone();
                task.cancel();
                let record = self.records[i].clone();
                assert(record@ == self.records()[i as int]);
                assert(self.records().update(i as int, record@) =~= self.records());
                self.apply(i, record, Some(k), task);
                assert(!has_live_task(self.tasks(), url@)) by {
                    let tasks = self.tasks();
                    let before = old(self).tasks();
                    assert forall|l: int| 0 <= l < tasks.len() && !(#[trigger] tasks[l]).cancelled implies tasks[l].url
                        != url@ by {
                        if l != k {
                            assert(!before[l].cancelled && !before[k as int].cancelled);
                            if l < k {
                                assert(before[l].url != before[k as int].url);
                            } else {
                                assert(before[k as int].url != before[l].url);
                            }
                        }
                    }
                }
            },
            None => {
                proof {
                    lemma_amend_live_without_task(self.tasks(), url@, |t: TaskView| t.cancel_set());
                }
            },
        }
        self.drop_record(i);
        Deleted { removed: true, now_empty: self.records.len() == 0 }
    }

    /// Starts the download of `url` again from nothing, as of the current
    /// time; see `restart_at`.
    pub fn restart(&mut self, url: &str) -> (result: Result<Launch, RestartError>)
        requires
            old(self).wf(),
            old(self).issued() < u64::MAX,
        ensures
            final(self).wf(),
            exists|now: Timestamp| #[trigger] restarted_at(*old(self), *final(self), url@, now, result),
    {
        let now = utc_now();
        let result = self.restart_at(url, now);
        assert(restarted_at(*old(self), *self, url@, now, result));
        result
    }

    /// Starts the download of `url` again from nothing, which is allowed
    /// when it was cancelled or has failed: the record is removed and a
    /// fresh one is added, with a task of its own. Before starting the
    /// engine the caller deletes the partial file, if there is one, and
    /// writes the journal. In any other case nothing changes.
    pub fn restart_at(&mut self, url: &str, now: Timestamp) -> (result: Result<Launch, RestartError>)
        requires
            old(self).wf(),
            old(self).issued() < u64::MAX,
        ensures
            final(self).wf(),
            restarted_at(*old(self), *final(self), url@, now, result),
    {
        let i = match self.find_record(url) {
            Some(i) => i,
            None => {
                return Err(RestartError::NotFound);
            },
        };
        proof {
            lemma_index_of(self.records(), i as int);
        }
        match self.records[i].status {
            DownloadStatus::Cancelled => {},
            DownloadStatus::Failed => {},
            status => {
                return Err(RestartError::WrongStatus(status));
            },
        }
        proof {
            if has_live_task(self.tasks(), url@) {
                lemma_live_record(self.records(), url@, i as int);
            }
        }
        self.drop_record(i);
        Ok(self.add_fresh(url, now))
    }

    /// Picks up the stored download of `url` as of the current time; see
    /// `resume_stored_at`.
    pub fn resume_stored(&mut self, url: &str) -> (result: Result<Launch, RestartError>)
        requires
            old(self).wf(),
            old(self).issued() < u64::MAX,
        ensures
            final(self).wf(),
            exists|now: Timestamp| #[trigger] resumed_at(*old(self), *final(self), url@, now, result),
    {
        let now = utc_now();
        let result = self.resume_stored_at(url, now);
        assert(resumed_at(*old(self), *self, url@, now, result));
        result
    }

    /// Picks up a stored download of `url` that is in progress but has no
    /// engine, as after a restart of the program: the record is removed and
    /// a fresh one is added, with a task of its own. The engine that the
    /// caller then starts finds the partial file and goes on from its end.
    /// In any other case nothing changes.
    pub fn resume_stored_at(&mut self, url: &str, now: Timestamp) -> (result: Result<Launch, RestartError>)
        requires
            old(self).wf(),
            old(self).issued() < u64::MAX,
        ensures
            final(self).wf(),
            resumed_at(*old(self), *final(self), url@, now, result),
    {
        let i = match self.find_record(url) {
            Some(i) => i,
            None => {
                return Err(RestartError::NotFound);
            },
        };
        proof {
            lemma_index_of(self.records(), i as int);
        }
        match self.records[i].status {
            DownloadStatus::InProgress => {},
            status => {
                return Err(RestartError::WrongStatus(status));
            },
        }
        if self.find_live(url).is_some() {
            return Err(RestartError::Busy);
        }
        self.drop_record(i);
        Ok(self.add_fresh(url, now))
    }

    /// What engine `id` does with data that has arrived: as its task says, and abort
    /// for an engine that the table no longer holds.
    pub fn gate(&self, id: u64) -> (decision: Gate)
        requires
            self.wf(),
        ensures
            decision == if has_task(self.tasks(), id) {
                gate_for(
                    self.tasks()[task_index(self.tasks(), id)].paused,
                    self.tasks()[task_index(self.tasks(), id)].cancelled,
                )
            } else {
                Gate::Abort
            },
    {
        match self.find_task(id) {
            Some(k) => {
                proof {
                    lemma_task_index(self.tasks(), self.records(), self.issued(), k as int);
                }
                self.tasks[k].task.gate()
            },
            None => Gate::Abort,
        }
    }

    /// Whether the engine numbered `id` is cancelled: its task says so, or
    /// the table no longer holds it.
    pub fn is_cancelled(&self, id: u64) -> (yes: bool)
        requires
            self.wf(),
        ensures
            yes == (live_url(self.tasks(), id) is None),
    {
        match self.find_task(id) {
            Some(k) => {
                proof {
                    lemma_task_index(self.tasks(), self.records(), self.issued(), k as int);
                }
                self.tasks[k].task.is_cancelled()
            },
            None => true,
        }
    }

    /// Positions of the live task numbered `id` and of its record.
    fn find_live_pair(&self, id: u64) -> (found: Option<(usize, usize)>)
        requires
            self.wf(),
        ensures
            found is Some <==> live_url(self.tasks(), id) is Some,
            found is Some ==> {
                let (k, i) = found->0;
                &&& k < self.tasks().len()
                &&& k == task_index(self.tasks(), id)
                &&& !self.tasks()[k as int].cancelled
                &&& i < self.records().len()
                &&& self.records()[i as int].url == self.tasks()[k as int].url
                &&& self.records()[i as int].status == DownloadStatus::InProgress
                &&& live_url(self.tasks(), id) == Some(self.records()[i as int].url)
            },
    {
        let k = match self.find_task(id) {
            Some(k) => k,
            None => {
                return None;
            },
        };
        proof {
            lemma_task_index(self.tasks(), self.records(), self.issued(), k as int);
        }
        if self.tasks[k].task.is_cancelled() {
            return None;
        }
        assert(has_in_progress(self.records(), self.tasks()[k as int].url));
        match self.find_record(self.tasks[k].url.as_str()) {
            Some(i) => {
                proof {
                    lemma_live_record(self.records(), self.tasks()[k as int].url, i as int);
                }
                Some((k, i))
            },
            None => None,
        }
    }

    /// Stores the size that the probe of engine `id` has learnt, unless it
    /// is zero or the engine is cancelled. The result tells whether the
    /// journal has changed and is to be written.
    pub fn on_total(&mut self, id: u64, total_bytes: u64) -> (changed: bool)
        requires
            old(self).wf(),
        ensures
            final(self).wf(),
            changed == (live_url(old(self).tasks(), id) is Some && total_bytes > 0),
            changed ==> final(self).records() == amend(
                old(self).records(),
                live_url(old(self).tasks(), id)->0,
                |r: RecordView| r.sized(total_bytes),
            ),
            !changed ==> final(self).records() == old(self).records(),
            final(self).tasks() == old(self).tasks(),
            final(self).issued() == old(self).issued(),
    {
        if total_bytes == 0 {
            return false;
        }
        let (k, i) = match self.find_live_pair(id) {
            Some(pair) => pair,
            None => {
                return false;
            },
        };
        proof {
            lemma_amend_is_update(self.records(), i as int, |r: RecordView| r.sized(total_bytes));
        }
        let mut record = self.records[i].clone();
        record.total_bytes = total_bytes;
        let task = self.tasks[k].task.clone();
        assert(self.tasks().update(
            k as int,
            TaskView { paused: task.paused(), cancelled: task.cancelled(), ..self.tasks()[k as int] },
        ) =~= self.tasks());
        self.apply(i, record, Some(k), task);
        true
    }

    /// Takes a snapshot of the running download of engine `id`, when
    /// `elapsed_secs` since the last one are at least
    /// `SNAPSHOT_INTERVAL_SECS`: the record notes whether the task is
    /// paused and, if the size is known, how many bytes are on disk. The
    /// result tells whether the journal has changed and is to be written.
    pub fn on_progress(&mut self, id: u64, downloaded: u64, elapsed_secs: u64) -> (changed: bool)
        requires
            old(self).wf(),
        ensures
            final(self).wf(),
            changed == (live_url(old(self).tasks(), id) is Some && elapsed_secs >= SNAPSHOT_INTERVAL_SECS),
            changed ==> final(self).records() == amend(
                old(self).records(),
                live_url(old(self).tasks(), id)->0,
                |r: RecordView|
                    r.snapshot_taken(old(self).tasks()[task_index(old(self).tasks(), id)].paused, downloaded),
            ),
            !changed ==> final(self).records() == old(self).records(),
            final(self).tasks() == old(self).tasks(),
            final(self).issued() == old(self).issued(),
    {
        if elapsed_secs < SNAPSHOT_INTERVAL_SECS {
            return false;
        }
        let (k, i) = match self.find_live_pair(id) {
            Some(pair) => pair,
            None => {
                return false;
            },
        };
        let paused: bool = self.tasks[k].task.is_paused();
        proof {
            lemma_amend_is_update(
                self.records(),
                i as int,
                |r: RecordView| r.snapshot_taken(paused, downloaded),
            );
            assert(amend(self.records(), self.records()[i as int].url, |r: RecordView| r.snapshot_taken(paused, downloaded))
                =~= amend(
                self.records(),
                self.records()[i as int].url,
                |r: RecordView|
                    r.snapshot_taken(old(self).tasks()[task_index(old(self).tasks(), id)].paused, downloaded),
            ));
        }
        let mut record = self.records[i].clone();
        record.was_paused = paused;
        if record.total_bytes > 0 {
            record.downloaded_bytes = downloaded;
        }
        let task = self.tasks[k].task.clone();
        assert(self.tasks().update(
            k as int,
            TaskView { paused: task.paused(), cancelled: task.cancelled(), ..self.tasks()[k as int] },
        ) =~= self.tasks());
        self.apply(i, record, Some(k), task);
        true
    }

    /// Takes the task at `index` out of the table, after its record, if it
    /// had one in progress, has left that state.
    fn drop_task(&mut self, index: usize)
        requires
            index < old(self).tasks().len(),
            journal_wf(old(self).records()),
            tasks_wf(
                old(self).tasks().update(index as int, old(self).tasks()[index as int].cancel_set()),
                old(self).records(),
                old(self).issued(),
            ),
        ensures
            final(self).wf(),
            final(self).tasks() == old(self).tasks().remove(index as int),
            final(self).records() == old(self).records(),
            final(self).issued() == old(self).issued(),
    {
        let ghost before = self.tasks();
        self.tasks.remove(index);
        proof {
            assert(self.tasks() =~= before.remove(index as int));
            let marked = before.update(index as int, before[index as int].cancel_set());
            assert forall|l: int| 0 <= l < marked.len() && l != index && !(#[trigger] marked[l]).cancelled implies has_in_progress(
                self.records(),
                marked[l].url,
            ) by {}
            lemma_tasks_after_removal(marked, self.records(), index as int, self.records(), self.issued());
            assert(marked.remove(index as int) =~= before.remove(index as int));
        }
    }

    /// Takes the task at `k` out of the table, after putting `record`, if
    /// there is one, in place of the record at `i`.
    fn conclude(&mut self, k: usize, i: usize, record: Option<DownloadRecord>)
        requires
            old(self).wf(),
            k < old(self).tasks().len(),
            record is Some <==> !old(self).tasks()[k as int].cancelled,
            record is Some ==> {
                &&& i < old(self).records().len()
                &&& record->0@.url == old(self).records()[i as int].url
                &&& record->0@.url == old(self).tasks()[k as int].url
                &&& record->0@.wf()
                &&& record->0@.status != DownloadStatus::InProgress
            },
        ensures
            final(self).wf(),
            final(self).tasks() == old(self).tasks().remove(k as int),
            record is Some ==> final(self).records() == old(self).records().update(i as int, record->0@),
            record is None ==> final(self).records() == old(self).records(),
            final(self).issued() == old(self).issued(),
    {
        let ghost before_tasks = self.tasks();
        match record {
            Some(record) => {
                let mut task = self.tasks[k].task.clone();
                task.cancel();
                self.apply(i, record, Some(k), task);
                assert(self.tasks() =~= before_tasks.update(k as int, before_tasks[k as int].cancel_set()));
                assert(self.tasks().update(k as int, self.tasks()[k as int].cancel_set()) =~= self.tasks());
                self.drop_task(k);
                assert(before_tasks.update(k as int, before_tasks[k as int].cancel_set()).remove(k as int)
                    =~= before_tasks.remove(k as int));
            },
            None => {
                assert(before_tasks.update(k as int, before_tasks[k as int].cancel_set()) =~= before_tasks);
                self.drop_task(k);
            },
        }
    }

    /// Takes note, as of the current time, that engine `id` has put the
    /// finished file at `file_path`; see `on_complete_at`.
    pub fn on_complete(&mut self, id: u64, file_path: &str) -> (changed: bool)
        requires
            old(self).wf(),
        ensures
            final(self).wf(),
            exists|now: Timestamp| #[trigger] completed_at(*old(self), *final(self), id, file_path@, now, changed),
    {
        let now = utc_now();
        let changed = self.on_complete_at(id, file_path, now);
        assert(completed_at(*old(self), *self, id, file_path@, now, changed));
        changed
    }

    /// Takes note that engine `id` has put the finished file at
    /// `file_path`. The task leaves the table. Unless it had been
    /// cancelled, its record becomes completed as of `now`, with the path
    /// and all of its bytes; the record of a cancelled task stays as it is.
    /// The result tells whether the journal has changed and is to be
    /// written.
    pub fn on_complete_at(&mut self, id: u64, file_path: &str, now: Timestamp) -> (changed: bool)
        requires
            old(self).wf(),
        ensures
            final(self).wf(),
            completed_at(*old(self), *final(self), id, file_path@, now, changed),
    {
        match self.find_live_pair(id) {
            Some((k, i)) => {
                proof {
                    lemma_amend_is_update(
                        self.records(),
                        i as int,
                        |r: RecordView| r.completed(file_path@, now),
                    );
                }
                let mut record = self.records[i].clone();
                record.status = DownloadStatus::Completed;
                record.file_path = Some(String::from_str(file_path));
                record.date_completed = Some(now);
                record.downloaded_bytes = record.total_bytes;
                self.conclude(k, i, Some(record));
                true
            },
            None => {
                match self.find_task(id) {
                    Some(k) => {
                        proof {
                            lemma_task_index(self.tasks(), self.records(), self.issued(), k as int);
                        }
                        self.conclude(k, 0, None);
                    },
                    None => {},
                }
                false
            },
        }
    }

    /// Takes note, as of the current time, that engine `id` has ended
    /// without a file; see `on_error_at`.
    pub fn on_error(&mut self, id: u64, reason: FailureReason) -> (changed: bool)
        requires
            old(self).wf(),
        ensures
            final(self).wf(),
            exists|now: Timestamp| #[trigger] failed_at(*old(self), *final(self), id, reason, now, changed),
    {
        let now = utc_now();
        let changed = self.on_error_at(id, reason, now);
        assert(failed_at(*old(self), *self, id, reason, now, changed));
        changed
    }

    /// Takes note that engine `id` has ended without a file. The task
    /// leaves the table. Unless it had been cancelled, its record becomes
    /// cancelled or failed, by the reason, as of `now`; the record of a
    /// cancelled task stays as it is. The result tells whether the journal
    /// has changed and is to be written.
    pub fn on_error_at(&mut self, id: u64, reason: FailureReason, now: Timestamp) -> (changed: bool)
        requires
            old(self).wf(),
        ensures
            final(self).wf(),
            failed_at(*old(self), *final(self), id, reason, now, changed),
    {
        match self.find_live_pair(id) {
            Some((k, i)) => {
                proof {
                    lemma_amend_is_update(
                        self.records(),
                        i as int,
                        |r: RecordView| r.ended(status_after(reason), now),
                    );
                }
                let mut record = self.records[i].clone();
                record.status = match reason {
                    FailureReason::Cancelled => DownloadStatus::Cancelled,
                    _ => DownloadStatus::Failed,
                };
                record.date_completed = Some(now);
                self.conclude(k, i, Some(record));
                true
            },
            None => {
                match self.find_task(id) {
                    Some(k) => {
                        proof {
                            lemma_task_index(self.tasks(), self.records(), self.issued(), k as int);
                        }
                        self.conclude(k, 0, None);
                    },
                    None => {},
                }
                false
            },
        }
    }

    /// Reconciles the journal as of the current time with the fact that the
    /// program has just started; see `reconcile_at`.
    pub fn reconcile(&mut self) -> (launches: Vec<Launch>)
        requires
            old(self).wf(),
            old(self).issued() + old(self).records().len() <= u64::MAX,
        ensures
            final(self).wf(),
            exists|now: Timestamp| #[trigger] reconciled_at(*old(self), *final(self), now, launches),
    {
        let now = utc_now();
        let launches = self.reconcile_at(now);
        assert(reconciled_at(*old(self), *self, now, launches));
        launches
    }

    /// Reconciles the journal with the fact that the program has just
    /// started. Each record that was in progress and not paused, and has no
    /// live engine, is picked up again: it is removed, and a fresh record
    /// with a task of its own is added at the end, in the same order. All
    /// other records stay as they are, as passive rows. The result holds
    /// one launch for each download picked up; the caller writes the
    /// journal and starts their engines, each of which finds its partial
    /// file and goes on from its end.
    pub fn reconcile_at(&mut self, now: Timestamp) -> (launches: Vec<Launch>)
        requires
            old(self).wf(),
            old(self).issued() + old(self).records().len() <= u64::MAX,
        ensures
            final(self).wf(),
            reconciled_at(*old(self), *final(self), now, launches),
    {
        let ghost start = self.records();
        let ghost tasks = self.tasks();
        let mut urls: Vec<String> = Vec::new();
        let mut i: usize = 0;
        let ghost mut seen: int = 0;
        assert(start.subrange(0, 0) =~= Seq::<RecordView>::empty());
        assert(start.subrange(0, start.len() as int) =~= start);
        assert(texts_of(urls@) =~= Seq::<Seq<char>>::empty());
        while i < self.records.len()
            invariant
                self.wf(),
                self.tasks() == tasks,
                self.issued() == old(self).issued(),
                start == old(self).records(),
                0 <= seen <= start.len(),
                seen == i + urls@.len(),
                i <= self.records().len(),
                self.records() == passive_of(start.subrange(0, seen), tasks) + start.subrange(
                    seen,
                    start.len() as int,
                ),
                i == passive_of(start.subrange(0, seen), tasks).len(),
                texts_of(urls@) == resumed_of(start.subrange(0, seen), tasks),
                forall|m: int| 0 <= m < urls@.len() ==> !has_url(self.records(), #[trigger] texts_of(urls@)[m]),
                forall|m: int, n: int|
                    0 <= m < n < urls@.len() ==> #[trigger] texts_of(urls@)[m] != #[trigger] texts_of(urls@)[n],
            decreases self.records().len() - i,
        {
            let ghost before = self.records();
            let ghost before_urls = texts_of(urls@);
            let ghost current = start[seen];
            proof {
                assert(before[i as int] == current);
                assert(start.subrange(0, seen + 1).drop_last() =~= start.subrange(0, seen));
                assert(start.subrange(0, seen + 1).last() == current);
            }
            let live: bool = self.find_live(self.records[i].url.as_str()).is_some();
            if self.records[i].resumes_by_itself() && !live {
                let url = self.records[i].url.clone();
                self.drop_record(i);
                urls.push(url);
                proof {
                    assert(texts_of(urls@) =~= before_urls.push(current.url));
                    assert(self.records() =~= passive_of(start.subrange(0, seen + 1), tasks) + start.subrange(
                        seen + 1,
                        start.len() as int,
                    ));
                    assert forall|m: int| 0 <= m < urls@.len() implies !has_url(
                        self.records(),
                        #[trigger] texts_of(urls@)[m],
                    ) by {
                        if m < before_urls.len() {
                            assert(texts_of(urls@)[m] == before_urls[m]);
                            lemma_removal_adds_no_url(before, i as int, before_urls[m]);
                        }
                    }
                    assert forall|m: int, n: int| 0 <= m < n < urls@.len() implies #[trigger] texts_of(
                        urls@,
                    )[m] != #[trigger] texts_of(urls@)[n] by {
                        if n < before_urls.len() {
                            assert(before_urls[m] != before_urls[n]);
                        } else {
                            assert(texts_of(urls@)[m] == before_urls[m]);
                            assert(!has_url(before, before_urls[m]));
                        }
                    }
                    seen = seen + 1;
                }
            } else {
                proof {
                    assert(self.records() =~= passive_of(start.subrange(0, seen + 1), tasks) + start.subrange(
                        seen + 1,
                        start.len() as int,
                    ));
                    seen = seen + 1;
                }
                i = i + 1;
            }
        }
        proof {
            assert(start.subrange(0, seen) =~= start);
            assert(self.records() =~= passive_of(start, tasks));
        }
        let ghost resumed = resumed_of(start, tasks);
        let ghost passive = passive_of(start, tasks);
        let mut launches: Vec<Launch> = Vec::new();
        let mut k: usize = 0;
        proof {
            assert(self.records() =~= passive + fresh_records(resumed.subrange(0, 0), now));
            assert(self.tasks() =~= tasks + fresh_tasks(resumed.subrange(0, 0), old(self).issued()));
        }
        while k < urls.len()
            invariant
                self.wf(),
                k <= urls@.len(),
                texts_of(urls@) == resumed,
                urls@.len() <= start.len(),
                old(self).issued() + start.len() <= u64::MAX,
                self.issued() == old(self).issued() + k,
                self.records() == passive + fresh_records(resumed.subrange(0, k as int), now),
                self.tasks() == tasks + fresh_tasks(resumed.subrange(0, k as int), old(self).issued()),
                launches@.len() == k,
                forall|m: int|
                    0 <= m < k ==> (#[trigger] launches@[m]).is_for((old(self).issued() + m) as nat, resumed[m]),
                forall|m: int| k <= m < urls@.len() ==> !has_url(self.records(), #[trigger] resumed[m]),
                forall|m: int, n: int| 0 <= m < n < urls@.len() ==> #[trigger] resumed[m] != #[trigger] resumed[n],
            decreases urls@.len() - k,
        {
            let ghost before = self.records();
            proof {
                assert(resumed[k as int] == urls@[k as int]@);
                assert(!has_url(before, resumed[k as int]));
            }
            let launch = self.add_fresh(urls[k].as_str(), now);
            launches.push(launch);
            proof {
                let url = resumed[k as int];
                assert(resumed.subrange(0, k as int + 1) =~= resumed.subrange(0, k as int).push(url));
                assert(self.records() =~= passive + fresh_records(resumed.subrange(0, k as int + 1), now));
                assert(self.tasks() =~= tasks + fresh_tasks(
                    resumed.subrange(0, k as int + 1),
                    old(self).issued(),
                ));
                assert forall|m: int| k + 1 <= m < urls@.len() implies !has_url(
                    self.records(),
                    #[trigger] resumed[m],
                ) by {
                    assert(!has_url(before, resumed[m]));
                    assert(resumed[k as int] != resumed[m]);
                    let after = self.records();
                    assert forall|a: int| 0 <= a < after.len() implies (#[trigger] after[a]).url != resumed[m] by {
                        if a < before.len() {
                            assert(after[a] == before[a]);
                        }
                    }
                }
            }
            k = k + 1;
        }
        proof {
            assert(resumed.subrange(0, k as int) =~= resumed);
        }
        launches
    }
}

} // verus!
