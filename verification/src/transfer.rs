//! The books of a running transfer: where each arriving piece of data goes,
//! how much is on disk, and when a progress report is due.

use vstd::prelude::*;
use crate::chunks::{chunk_count, lemma_partition_contiguous, partition, partition_of, ByteRange};
use crate::progress::{report_for, sum_of, Progress, ProgressAggregator, PROGRESS_INTERVAL_MILLIS};
use crate::segment::{start_segments, SegmentError, SegmentState, StreamState};

verus! {

/// The ranges of the segments.
pub open spec fn ranges_of(segments: Seq<SegmentState>) -> Seq<ByteRange> {
    Seq::new(segments.len(), |i: int| segments[i].range())
}

/// The bytes written by each segment.
pub open spec fn written_of(segments: Seq<SegmentState>) -> Seq<u64> {
    Seq::new(segments.len(), |i: int| segments[i].written() as u64)
}

/// The bytes that the first `k` ranges hold between them.
pub open spec fn capacity(ranges: Seq<ByteRange>, k: int) -> int
    decreases k,
{
    if k <= 0 {
        0
    } else {
        capacity(ranges, k - 1) + ranges[k - 1].spec_len()
    }
}

/// The first `k` ranges of a partition hold the bytes before the start of
/// the next range; all of them together hold the whole resource.
proof fn lemma_capacity_of_partition(total_bytes: nat, k: int)
    requires
        0 < total_bytes <= u64::MAX,
        0 <= k <= chunk_count(total_bytes),
    ensures
        k < chunk_count(total_bytes) ==> capacity(partition_of(total_bytes), k) == partition_of(
            total_bytes,
        )[k].start,
        k == chunk_count(total_bytes) ==> capacity(partition_of(total_bytes), k) == total_bytes,
    decreases k,
{
    lemma_partition_contiguous(total_bytes);
    let parts = partition_of(total_bytes);
    if k > 0 {
        lemma_capacity_of_partition(total_bytes, k - 1);
        assert(parts[k - 1].start <= parts[k - 1].end);
        if k < parts.len() {
            assert(parts[k - 1].end + 1 == parts[k - 1 + 1].start);
        } else {
            assert(parts.last() == parts[k - 1]);
        }
    }
}

/// What the first `k` segments have written does not exceed what their
/// ranges hold.
proof fn lemma_written_within_capacity(segments: Seq<SegmentState>, k: int)
    requires
        0 <= k <= segments.len(),
        forall|i: int| 0 <= i < segments.len() ==> (#[trigger] segments[i]).wf(),
    ensures
        sum_of(written_of(segments).subrange(0, k)) <= capacity(ranges_of(segments), k),
    decreases k,
{
    let written = written_of(segments);
    if k > 0 {
        lemma_written_within_capacity(segments, k - 1);
        assert(written.subrange(0, k).drop_last() =~= written.subrange(0, k - 1));
        assert(segments[k - 1].wf());
    } else {
        assert(written.subrange(0, 0) =~= Seq::<u64>::empty());
    }
}

/// When each of the first `k` segments is full, what they have written is
/// what their ranges hold.
proof fn lemma_written_when_full(segments: Seq<SegmentState>, k: int)
    requires
        0 <= k <= segments.len(),
        forall|i: int|
            0 <= i < segments.len() ==> (#[trigger] segments[i]).wf() && segments[i].written()
                == segments[i].length(),
    ensures
        sum_of(written_of(segments).subrange(0, k)) == capacity(ranges_of(segments), k),
    decreases k,
{
    let written = written_of(segments);
    if k > 0 {
        lemma_written_when_full(segments, k - 1);
        assert(written.subrange(0, k).drop_last() =~= written.subrange(0, k - 1));
        assert(segments[k - 1].wf());
    } else {
        assert(written.subrange(0, 0) =~= Seq::<u64>::empty());
    }
}

/// The books of a parallel transfer: one segment for each range of the
/// partition of the resource, and the aggregator that sums them up.
pub struct ParallelTransfer {
    segments: Vec<SegmentState>,
    progress: ProgressAggregator,
}

impl ParallelTransfer {
    /// The segments.
    pub closed spec fn segments(&self) -> Seq<SegmentState> {
        self.segments@
    }

    /// Size of the resource.
    pub closed spec fn total_bytes(&self) -> u64 {
        self.progress.total_bytes()
    }

    /// Bytes on disk when the last report was made.
    pub closed spec fn last_total(&self) -> u64 {
        self.progress.last_total()
    }

    /// Bytes on disk.
    pub open spec fn downloaded(&self) -> nat {
        sum_of(written_of(self.segments()))
    }

    /// The segments fill the ranges of the partition of the resource, and
    /// the aggregator counts what they have written.
    pub closed spec fn wf(&self) -> bool {
        &&& self.progress.total_bytes() > 0
        &&& ranges_of(self.segments@) == partition_of(self.progress.total_bytes() as nat)
        &&& self.progress.counters() == written_of(self.segments@)
        &&& self.progress.parallel()
        &&& forall|i: int| 0 <= i < self.segments@.len() ==> (#[trigger] self.segments@[i]).wf()
    }

    /// What is known of well-formed books: the ranges are those of the
    /// partition, and no more is on disk than the resource holds.
    pub proof fn lemma_wf(&self)
        requires
            self.wf(),
        ensures
            self.total_bytes() > 0,
            ranges_of(self.segments()) == partition_of(self.total_bytes() as nat),
            forall|i: int| 0 <= i < self.segments().len() ==> (#[trigger] self.segments()[i]).wf(),
            self.downloaded() <= self.total_bytes(),
    {
        let written = written_of(self.segments@);
        let n = self.segments@.len() as int;
        assert(ranges_of(self.segments@).len() == n);
        lemma_written_within_capacity(self.segments@, n);
        lemma_capacity_of_partition(self.total_bytes() as nat, n);
        assert(written.subrange(0, n) =~= written);
    }

    /// Opens the books of a parallel transfer of `total_bytes` bytes, which
    /// must be at least one: nothing written, nothing reported.
    pub fn start(total_bytes: u64) -> (books: Option<ParallelTransfer>)
        ensures
            books is Some <==> total_bytes > 0,
            books is Some ==> books->0.wf() && books->0.total_bytes() == total_bytes && books->0.last_total()
                == 0 && books->0.downloaded() == 0 && forall|i: int|
                0 <= i < books->0.segments().len() ==> (#[trigger] books->0.segments()[i]).written() == 0,
    {
        if total_bytes == 0 {
            return None;
        }
        let ranges = partition(total_bytes);
        proof {
            lemma_partition_contiguous(total_bytes as nat);
            let parts = partition_of(total_bytes as nat);
            assert forall|i: int| 0 <= i < parts.len() implies (#[trigger] parts[i]).start <= parts[i].end
                && parts[i].end < u64::MAX by {
                lemma_capacity_of_partition(total_bytes as nat, i + 1);
                lemma_capacity_of_partition(total_bytes as nat, i);
            }
        }
        let segments = match start_segments(&ranges) {
            Some(segments) => segments,
            None => {
                return None;
            },
        };
        let progress = ProgressAggregator::for_segments(ranges.len(), total_bytes);
        let books = ParallelTransfer { segments, progress };
        proof {
            assert(ranges_of(books.segments@) =~= partition_of(total_bytes as nat));
            assert(books.progress.counters() =~= written_of(books.segments@));
            lemma_sum_of_zeros(written_of(books.segments@));
        }
        Some(books)
    }

    /// The ranges to fetch, one per segment.
    pub fn ranges(&self) -> (ranges: Vec<ByteRange>)
        requires
            self.wf(),
        ensures
            ranges@ == partition_of(self.total_bytes() as nat),
    {
        partition(self.progress.resource_size())
    }

    /// Bytes on disk, over all segments.
    pub fn total(&self) -> (sum: u64)
        requires
            self.wf(),
        ensures
            sum == self.downloaded(),
            sum <= self.total_bytes(),
    {
        proof {
            self.lemma_wf();
        }
        self.progress.total()
    }

    /// Accounts for a piece of `len` bytes that has arrived for segment
    /// `index`. If the piece fits into what is left of the range, the
    /// result is the file offset to write it at, inside the range of the
    /// segment, and the piece is counted as written. A piece that does not
    /// fit, or one for a segment that does not exist, is refused and
    /// changes nothing.
    pub fn place(&mut self, index: usize, len: u64) -> (offset: Result<u64, SegmentError>)
        requires
            old(self).wf(),
        ensures
            final(self).wf(),
            final(self).total_bytes() == old(self).total_bytes(),
            final(self).last_total() == old(self).last_total(),
            final(self).segments().len() == old(self).segments().len(),
            forall|i: int|
                0 <= i < old(self).segments().len() && i != index ==> final(self).segments()[i] == old(
                    self,
                ).segments()[i],
            index < old(self).segments().len() && old(self).segments()[index as int].written() + len <= old(
                self,
            ).segments()[index as int].length() ==> {
                let before = old(self).segments()[index as int];
                let after = final(self).segments()[index as int];
                &&& offset == Ok::<u64, SegmentError>((before.range().start + before.written()) as u64)
                &&& after.range() == before.range()
                &&& after.written() == before.written() + len
                &&& final(self).downloaded() == old(self).downloaded() + len
            },
            !(index < old(self).segments().len() && old(self).segments()[index as int].written() + len
                <= old(self).segments()[index as int].length()) ==> offset == Err::<u64, SegmentError>(
                SegmentError::Overrun,
            ) && final(self).segments() == old(self).segments(),
    {
        if index >= self.segments.len() {
            return Err(SegmentError::Overrun);
        }
        let mut segment: SegmentState = self.segments[index];
        let ghost before_segments = self.segments@;
        let ghost before_written = written_of(self.segments@);
        assert(self.segments@[index as int].wf());
        match segment.accept(len) {
            Ok(offset) => {
                self.segments.set(index, segment);
                proof {
                    let after_written = written_of(self.segments@);
                    assert(after_written =~= before_written.update(index as int, segment.written() as u64));
                    assert(ranges_of(self.segments@) =~= ranges_of(before_segments));
                    assert forall|i: int| 0 <= i < self.segments@.len() implies (#[trigger] self.segments@[i]).wf() by {
                        if i != index {
                            assert(before_segments[i].wf());
                        }
                    }
                    let n = self.segments@.len() as int;
                    assert(ranges_of(self.segments@).len() == n);
                    lemma_written_within_capacity(self.segments@, n);
                    lemma_capacity_of_partition(old(self).total_bytes() as nat, n);
                    assert(after_written.subrange(0, n) =~= after_written);
                    crate::progress::lemma_sum_update(
                        before_written,
                        index as int,
                        segment.written() as u64,
                    );
                }
                let recorded = self.progress.record(index, segment.bytes_written());
                assert(recorded);
                Ok(offset)
            },
            Err(error) => Err(error),
        }
    }

    /// Closes segment `index` when its stream has ended: the segment
    /// succeeded exactly when every byte of its range has been written.
    pub fn finish(&self, index: usize) -> (outcome: Result<(), SegmentError>)
        requires
            self.wf(),
        ensures
            index < self.segments().len() && self.segments()[index as int].written()
                == self.segments()[index as int].length() ==> outcome == Ok::<(), SegmentError>(()),
            !(index < self.segments().len() && self.segments()[index as int].written()
                == self.segments()[index as int].length()) ==> outcome == Err::<(), SegmentError>(
                SegmentError::Truncated,
            ),
    {
        if index >= self.segments.len() {
            return Err(SegmentError::Truncated);
        }
        self.segments[index].finish()
    }

    /// Makes the report that is due `elapsed_millis` after the last one:
    /// none before `PROGRESS_INTERVAL_MILLIS` have passed, and then the
    /// report of the interval, after which a new interval begins.
    pub fn tick(&mut self, elapsed_millis: u64) -> (report: Option<Progress>)
        requires
            old(self).wf(),
        ensures
            final(self).wf(),
            final(self).segments() == old(self).segments(),
            final(self).total_bytes() == old(self).total_bytes(),
            elapsed_millis < PROGRESS_INTERVAL_MILLIS ==> report is None && final(self).last_total() == old(
                self,
            ).last_total(),
            elapsed_millis >= PROGRESS_INTERVAL_MILLIS ==> report == Some(
                report_for(
                    old(self).downloaded() as u64,
                    old(self).last_total(),
                    old(self).total_bytes(),
                    elapsed_millis,
                    true,
                ),
            ) && final(self).last_total() == old(self).downloaded(),
    {
        self.progress.tick(elapsed_millis)
    }
}

/// Counters that are all zero sum up to zero.
proof fn lemma_sum_of_zeros(counters: Seq<u64>)
    requires
        forall|i: int| 0 <= i < counters.len() ==> counters[i] == 0,
    ensures
        sum_of(counters) == 0,
    decreases counters.len(),
{
    if counters.len() > 0 {
        lemma_sum_of_zeros(counters.drop_last());
    }
}

/// Completeness: when every segment of a parallel transfer has been closed
/// with success, exactly the bytes of the resource are on disk, each
/// segment having filled its own range of the partition.
pub proof fn lemma_all_segments_full(books: ParallelTransfer)
    requires
        books.wf(),
        forall|i: int|
            0 <= i < books.segments().len() ==> (#[trigger] books.segments()[i]).written()
                == books.segments()[i].length(),
    ensures
        books.downloaded() == books.total_bytes(),
{
    books.lemma_wf();
    let written = written_of(books.segments());
    let n = books.segments().len() as int;
    assert(ranges_of(books.segments()).len() == n);
    lemma_written_when_full(books.segments(), n);
    lemma_capacity_of_partition(books.total_bytes() as nat, n);
    assert(written.subrange(0, n) =~= written);
}

/// The books of a sequential transfer: the stream that is appended to the
/// partial file, and the aggregator that reports on it.
pub struct SequentialTransfer {
    stream: StreamState,
    progress: ProgressAggregator,
}

impl SequentialTransfer {
    /// Bytes on disk.
    pub closed spec fn downloaded(&self) -> u64 {
        self.stream.downloaded()
    }

    /// Size of the resource; zero when unknown.
    pub closed spec fn total_bytes(&self) -> u64 {
        self.progress.total_bytes()
    }

    /// Bytes on disk when the last report was made.
    pub closed spec fn last_total(&self) -> u64 {
        self.progress.last_total()
    }

    /// The aggregator counts what the stream has put on disk.
    pub closed spec fn wf(&self) -> bool {
        &&& self.progress.counters() == seq![self.stream.downloaded()]
        &&& !self.progress.parallel()
    }

    /// Opens the books of a sequential transfer that goes on after the
    /// `resume_from` bytes of the partial file.
    pub fn start(resume_from: u64, total_bytes: u64) -> (books: SequentialTransfer)
        ensures
            books.wf(),
            books.downloaded() == resume_from,
            books.total_bytes() == total_bytes,
            books.last_total() == resume_from,
    {
        SequentialTransfer {
            stream: StreamState::resume_from(resume_from),
            progress: ProgressAggregator::for_stream(resume_from, total_bytes),
        }
    }

    /// Bytes on disk.
    pub fn total(&self) -> (sum: u64)
        ensures
            sum == self.downloaded(),
    {
        self.stream.bytes_downloaded()
    }

    /// Accounts for a piece of `len` bytes that has arrived: the result is
    /// the offset that the piece is appended at, which is the number of
    /// bytes on disk before it. A piece that would take the count past what
    /// a `u64` holds is refused and changes nothing.
    pub fn place(&mut self, len: u64) -> (offset: Result<u64, SegmentError>)
        requires
            old(self).wf(),
        ensures
            final(self).wf(),
            final(self).total_bytes() == old(self).total_bytes(),
            final(self).last_total() == old(self).last_total(),
            old(self).downloaded() + len <= u64::MAX ==> offset == Ok::<u64, SegmentError>(
                old(self).downloaded(),
            ) && final(self).downloaded() == old(self).downloaded() + len,
            old(self).downloaded() + len > u64::MAX ==> offset == Err::<u64, SegmentError>(
                SegmentError::Overrun,
            ) && final(self).downloaded() == old(self).downloaded(),
    {
        let offset: u64 = self.stream.bytes_downloaded();
        match self.stream.accept(len) {
            Ok(downloaded) => {
                proof {
                    let counters = self.progress.counters();
                    assert(counters.drop_last() =~= Seq::<u64>::empty());
                    assert(sum_of(counters) == counters[0]) by {
                        reveal_with_fuel(sum_of, 2);
                    }
                }
                let recorded = self.progress.record(0, downloaded);
                assert(recorded);
                assert(self.progress.counters() =~= seq![downloaded]);
                Ok(offset)
            },
            Err(error) => Err(error),
        }
    }

    /// Makes the report that is due `elapsed_millis` after the last one:
    /// none before `PROGRESS_INTERVAL_MILLIS` have passed, and then the
    /// report of the interval, after which a new interval begins.
    pub fn tick(&mut self, elapsed_millis: u64) -> (report: Option<Progress>)
        requires
            old(self).wf(),
        ensures
            final(self).wf(),
            final(self).downloaded() == old(self).downloaded(),
            final(self).total_bytes() == old(self).total_bytes(),
            elapsed_millis < PROGRESS_INTERVAL_MILLIS ==> report is None && final(self).last_total() == old(
                self,
            ).last_total(),
            elapsed_millis >= PROGRESS_INTERVAL_MILLIS ==> report == Some(
                report_for(
                    old(self).downloaded(),
                    old(self).last_total(),
                    old(self).total_bytes(),
                    elapsed_millis,
                    false,
                ),
            ) && final(self).last_total() == old(self).downloaded(),
    {
        proof {
            let counters = self.progress.counters();
            assert(counters.drop_last() =~= Seq::<u64>::empty());
            assert(sum_of(counters) == counters[0]) by {
                reveal_with_fuel(sum_of, 2);
            }
        }
        self.progress.tick(elapsed_millis)
    }
}

} // verus!
