//! Transfer mode selection, segment count policy and byte-range partitioning.

use vstd::prelude::*;

verus! {

/// Smallest number of bytes worth giving a segment of its own (1 MiB).
pub const MIN_CHUNK_SIZE: u64 = 1048576;

/// How the body of a resource is fetched.
#[derive(Clone, Copy, Debug, PartialEq, Eq, Structural)]
pub enum TransferMode {
    /// One request, streamed front to back; the only mode that can resume.
    Sequential,
    /// Several byte ranges fetched at once into a pre-sized file.
    Parallel,
}

/// An inclusive range of byte offsets, `start ..= end`.
#[derive(Clone, Copy, Debug, PartialEq, Eq, Structural)]
pub struct ByteRange {
    pub start: u64,
    pub end: u64,
}

impl ByteRange {
    /// Whether `offset` lies inside the range.
    pub open spec fn contains(self, offset: int) -> bool {
        self.start <= offset <= self.end
    }

    /// The number of bytes in the range, for a range with `start <= end`.
    pub open spec fn spec_len(self) -> int {
        self.end - self.start + 1
    }
}

/// The mode prescribed for a probe result: parallel only when the server
/// honours ranges, the size is known and at least `MIN_CHUNK_SIZE`, and no
/// partial file is waiting to be resumed.
pub open spec fn mode_for(supports_range: bool, total_bytes: u64, partial_exists: bool) -> TransferMode {
    if !supports_range || total_bytes == 0 || total_bytes < MIN_CHUNK_SIZE || partial_exists {
        TransferMode::Sequential
    } else {
        TransferMode::Parallel
    }
}

/// Decides between sequential and parallel transfer. The decision depends on
/// the three arguments and on nothing else.
pub fn select_mode(supports_range: bool, total_bytes: u64, partial_exists: bool) -> (mode: TransferMode)
    ensures
        mode == mode_for(supports_range, total_bytes, partial_exists),
{
    if !supports_range || total_bytes == 0 || total_bytes < MIN_CHUNK_SIZE || partial_exists {
        TransferMode::Sequential
    } else {
        TransferMode::Parallel
    }
}

/// The segment count suggested by size class alone, before the cap that keeps
/// every segment at least `MIN_CHUNK_SIZE` long.
pub open spec fn suggested_chunks(file_size: nat) -> nat {
    if file_size < 10 * 1048576 {
        2
    } else if file_size < 100 * 1048576 {
        4
    } else if file_size < 1024 * 1048576 {
        6
    } else {
        8
    }
}

/// The number of segments a resource of `file_size` bytes is split into.
pub open spec fn chunk_count(file_size: nat) -> nat {
    let cap = if file_size / 1048576 >= 1 {
        file_size / 1048576
    } else {
        1
    };
    if suggested_chunks(file_size) <= cap {
        suggested_chunks(file_size)
    } else {
        cap
    }
}

/// Chooses how many segments to fetch in parallel: 2, 4, 6 or 8 by size class,
/// never more than one per full MiB, and never fewer than one.
pub fn calculate_optimal_chunks(file_size: u64) -> (n: u64)
    ensures
        n == chunk_count(file_size as nat),
        1 <= n <= 8,
{
    let max_chunks_by_size: u64 = file_size / MIN_CHUNK_SIZE;
    let suggested: u64 = if file_size < 10 * 1024 * 1024 {
        2
    } else if file_size < 100 * 1024 * 1024 {
        4
    } else if file_size < 1024 * 1024 * 1024 {
        6
    } else {
        8
    };
    let cap: u64 = if max_chunks_by_size >= 1 {
        max_chunks_by_size
    } else {
        1
    };
    if suggested <= cap {
        suggested
    } else {
        cap
    }
}

/// The segment count never drops as the resource grows, and is never zero.
pub proof fn lemma_chunk_count_monotone(smaller: nat, larger: nat)
    requires
        smaller <= larger,
    ensures
        1 <= chunk_count(smaller) <= chunk_count(larger),
{
}

/// The length shared by every segment but the last.
pub open spec fn segment_size(total_bytes: nat) -> nat {
    total_bytes / chunk_count(total_bytes)
}

/// The `index`-th range of the partition of `total_bytes` bytes: equal
/// lengths, the last range taking what the division leaves over.
pub open spec fn range_at(total_bytes: nat, index: int) -> ByteRange {
    ByteRange {
        start: (index * segment_size(total_bytes)) as u64,
        end: if index == chunk_count(total_bytes) - 1 {
            (total_bytes - 1) as u64
        } else {
            ((index + 1) * segment_size(total_bytes) - 1) as u64
        },
    }
}

/// The ranges a resource of `total_bytes` bytes is fetched in; none for an
/// empty resource.
pub open spec fn partition_of(total_bytes: nat) -> Seq<ByteRange> {
    if total_bytes == 0 {
        Seq::empty()
    } else {
        Seq::new(chunk_count(total_bytes), |i: int| range_at(total_bytes, i))
    }
}

/// The bounds of one segment, as plain integers.
proof fn lemma_range_bounds(total_bytes: nat, index: int)
    requires
        0 < total_bytes <= u64::MAX,
        0 <= index < chunk_count(total_bytes),
    ensures
        segment_size(total_bytes) >= 1,
        range_at(total_bytes, index).start == index * segment_size(total_bytes),
        range_at(total_bytes, index).start <= range_at(total_bytes, index).end < total_bytes,
        index < chunk_count(total_bytes) - 1 ==> range_at(total_bytes, index).end + 1 == (index + 1)
            * segment_size(total_bytes),
        index == chunk_count(total_bytes) - 1 ==> range_at(total_bytes, index).end == total_bytes - 1,
{
    let n = chunk_count(total_bytes);
    let size = segment_size(total_bytes);
    assert(1 <= n <= 8 && n <= total_bytes);
    assert(size >= 1 && n * size <= total_bytes) by (nonlinear_arith)
        requires
            size == total_bytes / n,
            1 <= n <= total_bytes,
    ;
    assert(0 <= index * size && (index + 1) * size == index * size + size && (index + 1) * size <= n
        * size) by (nonlinear_arith)
        requires
            0 <= index < n,
            size >= 1,
    ;
}

/// A segment ends before any later segment starts.
proof fn lemma_ranges_ordered(total_bytes: nat, i: int, j: int)
    requires
        0 < total_bytes <= u64::MAX,
        0 <= i < j < chunk_count(total_bytes),
    ensures
        range_at(total_bytes, i).end < range_at(total_bytes, j).start,
{
    lemma_range_bounds(total_bytes, i);
    lemma_range_bounds(total_bytes, j);
    let size = segment_size(total_bytes);
    assert((i + 1) * size <= j * size) by (nonlinear_arith)
        requires
            i + 1 <= j,
            size >= 1,
    ;
}

/// Every segment holds at least one byte, the segments follow each other
/// without gap or overlap, the first starts at offset zero and the last ends
/// at the final byte.
pub proof fn lemma_partition_contiguous(total_bytes: nat)
    requires
        0 < total_bytes <= u64::MAX,
    ensures
        partition_of(total_bytes).len() == chunk_count(total_bytes),
        partition_of(total_bytes)[0].start == 0,
        partition_of(total_bytes).last().end == total_bytes - 1,
        forall|i: int|
            0 <= i < partition_of(total_bytes).len() ==> (#[trigger] partition_of(total_bytes)[i]).start
                <= partition_of(total_bytes)[i].end,
        forall|i: int|
            0 <= i < partition_of(total_bytes).len() - 1 ==> (#[trigger] partition_of(
                total_bytes,
            )[i]).end + 1 == partition_of(total_bytes)[i + 1].start,
{
    let parts = partition_of(total_bytes);
    lemma_range_bounds(total_bytes, 0);
    lemma_range_bounds(total_bytes, chunk_count(total_bytes) - 1);
    assert forall|i: int| 0 <= i < parts.len() implies (#[trigger] parts[i]).start <= parts[i].end by {
        lemma_range_bounds(total_bytes, i);
    }
    assert forall|i: int| 0 <= i < parts.len() - 1 implies (#[trigger] parts[i]).end + 1 == parts[i
        + 1].start by {
        lemma_range_bounds(total_bytes, i);
        lemma_range_bounds(total_bytes, i + 1);
    }
}

/// The index of the segment that holds byte `offset` of the resource.
pub open spec fn segment_of(total_bytes: nat, offset: int) -> int {
    let by_size = offset / (segment_size(total_bytes) as int);
    if by_size >= chunk_count(total_bytes) - 1 {
        chunk_count(total_bytes) - 1
    } else {
        by_size
    }
}

/// Range coverage: each byte offset of the resource lies in one segment of
/// its partition and in no other, and no segment holds anything but offsets
/// of the resource. The segments are therefore pairwise disjoint and their
/// union is exactly `[0, total_bytes - 1]`.
pub proof fn lemma_partition_covers(total_bytes: nat)
    requires
        0 < total_bytes <= u64::MAX,
    ensures
        forall|offset: int|
            0 <= offset < total_bytes ==> 0 <= #[trigger] segment_of(total_bytes, offset) < partition_of(
                total_bytes,
            ).len() && partition_of(total_bytes)[segment_of(total_bytes, offset)].contains(offset),
        forall|i: int, offset: int|
            0 <= i < partition_of(total_bytes).len() && #[trigger] partition_of(total_bytes)[i].contains(
                offset,
            ) ==> 0 <= offset < total_bytes && i == segment_of(total_bytes, offset),
{
    let n = chunk_count(total_bytes) as int;
    let size = segment_size(total_bytes) as int;
    let parts = partition_of(total_bytes);
    lemma_range_bounds(total_bytes, 0);
    assert forall|offset: int| 0 <= offset < total_bytes implies 0 <= #[trigger] segment_of(
        total_bytes,
        offset,
    ) < parts.len() && parts[segment_of(total_bytes, offset)].contains(offset) by {
        let k = offset / size;
        assert(0 <= k && k * size <= offset < (k + 1) * size) by (nonlinear_arith)
            requires
                k == offset / size,
                size >= 1,
                offset >= 0,
        ;
        let i = segment_of(total_bytes, offset);
        lemma_range_bounds(total_bytes, i);
        assert(i * size <= k * size) by (nonlinear_arith)
            requires
                0 <= i <= k,
                size >= 1,
        ;
    }
    assert forall|i: int, offset: int| 0 <= i < parts.len() && #[trigger] parts[i].contains(offset) implies 0
        <= offset < total_bytes && i == segment_of(total_bytes, offset) by {
        lemma_range_bounds(total_bytes, i);
        let j = segment_of(total_bytes, offset);
        assert(0 <= j < parts.len() && parts[j].contains(offset));
        if i < j {
            lemma_ranges_ordered(total_bytes, i, j);
        }
        if j < i {
            lemma_ranges_ordered(total_bytes, j, i);
        }
    }
}

/// Splits `[0, total_bytes - 1]` into the ranges that are fetched in
/// parallel: `calculate_optimal_chunks(total_bytes)` ranges of equal length,
/// the last one also taking the remainder. An empty resource has no ranges.
pub fn partition(total_bytes: u64) -> (ranges: Vec<ByteRange>)
    ensures
        ranges@ == partition_of(total_bytes as nat),
{
    let mut ranges: Vec<ByteRange> = Vec::new();
    if total_bytes == 0 {
        return ranges;
    }
    let num_chunks: u64 = calculate_optimal_chunks(total_bytes);
    let chunk_size: u64 = total_bytes / num_chunks;
    proof {
        assert(num_chunks <= total_bytes);
        assert(chunk_size >= 1 && num_chunks * chunk_size <= total_bytes) by (nonlinear_arith)
            requires
                chunk_size == total_bytes / num_chunks,
                1 <= num_chunks <= total_bytes,
        ;
    }
    let mut chunk_id: u64 = 0;
    while chunk_id < num_chunks
        invariant
            total_bytes > 0,
            num_chunks == chunk_count(total_bytes as nat),
            chunk_size == segment_size(total_bytes as nat),
            chunk_size >= 1,
            num_chunks * chunk_size <= total_bytes,
            chunk_id <= num_chunks,
            ranges@.len() == chunk_id,
            forall|i: int| 0 <= i < chunk_id ==> ranges@[i] == range_at(total_bytes as nat, i),
        decreases num_chunks - chunk_id,
    {
        proof {
            assert(0 <= chunk_id * chunk_size && (chunk_id + 1) * chunk_size == chunk_id * chunk_size
                + chunk_size && (chunk_id + 1) * chunk_size <= num_chunks * chunk_size) by (nonlinear_arith)
                requires
                    0 <= chunk_id < num_chunks,
                    chunk_size >= 1,
            ;
        }
        let start: u64 = chunk_id * chunk_size;
        let end: u64 = if chunk_id == num_chunks - 1 {
            total_bytes - 1
        } else {
            start + chunk_size - 1
        };
        ranges.push(ByteRange { start, end });
        chunk_id = chunk_id + 1;
    }
    assert(ranges@ =~= partition_of(total_bytes as nat));
    ranges
}

} // verus!
