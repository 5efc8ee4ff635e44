//! Bookkeeping of one segment of a parallel transfer: where the next piece
//! of data goes, and whether the segment has received exactly its range.

use vstd::prelude::*;
use crate::chunks::ByteRange;

verus! {

/// Why a segment did not receive exactly the bytes of its range.
#[derive(Clone, Copy, Debug, PartialEq, Eq, Structural)]
pub enum SegmentError {
    /// The server sent more bytes than the range holds.
    Overrun,
    /// The stream ended before the range was full.
    Truncated,
}

/// Progress of one segment: its inclusive byte range and the number of bytes
/// written so far, which never exceeds the length of the range.
#[derive(Clone, Copy, Debug, PartialEq, Eq, Structural)]
pub struct SegmentState {
    range: ByteRange,
    written: u64,
}

impl SegmentState {
    /// The byte range the segment fills.
    pub closed spec fn range(&self) -> ByteRange {
        self.range
    }

    /// Bytes written so far.
    pub closed spec fn written(&self) -> nat {
        self.written as nat
    }

    /// Number of bytes in the range.
    pub open spec fn length(&self) -> nat {
        (self.range().end - self.range().start + 1) as nat
    }

    /// The range is not empty, ends before the largest offset, and holds what
    /// has been written. Every segment that exists satisfies this.
    #[verifier::type_invariant]
    pub open spec fn wf(&self) -> bool {
        &&& self.range().start <= self.range().end
        &&& self.range().end < u64::MAX
        &&& self.written() <= self.length()
    }

    /// A segment for `range` with nothing written; `None` for a range that is
    /// empty or reaches the largest offset a `u64` can hold.
    pub fn new(range: ByteRange) -> (state: Option<SegmentState>)
        ensures
            state is Some <==> range.start <= range.end && range.end < u64::MAX,
            state is Some ==> state->0.wf() && state->0.range() == range && state->0.written() == 0,
    {
        if range.start <= range.end && range.end < u64::MAX {
            Some(SegmentState { range, written: 0 })
        } else {
            None
        }
    }

    /// The range that the segment fills.
    pub fn byte_range(&self) -> (range: ByteRange)
        ensures
            range == self.range(),
    {
        self.range
    }

    /// Bytes written so far.
    pub fn bytes_written(&self) -> (n: u64)
        ensures
            n == self.written(),
    {
        self.written
    }

    /// The file offset at which the next piece of data is written.
    pub fn position(&self) -> (offset: u64)
        ensures
            offset == self.range().start + self.written(),
    {
        proof {
            use_type_invariant(self);
        }
        self.range.start + self.written
    }

    /// Whether the range is full.
    pub fn is_complete(&self) -> (yes: bool)
        ensures
            yes == (self.written() == self.length()),
    {
        proof {
            use_type_invariant(self);
        }
        self.written == self.range.end - self.range.start + 1
    }

    /// Accounts for a piece of `len` bytes that has arrived. If it fits into
    /// what is left of the range, the result is the file offset to write it
    /// at, and the piece is counted as written; the offsets handed out for
    /// one segment increase by the lengths of the pieces and stay inside its
    /// range. A piece that does not fit is refused and changes nothing.
    pub fn accept(&mut self, len: u64) -> (offset: Result<u64, SegmentError>)
        ensures
            final(self).range() == old(self).range(),
            old(self).written() + len <= old(self).length() ==> offset == Ok::<u64, SegmentError>(
                (old(self).range().start + old(self).written()) as u64,
            ) && final(self).written() == old(self).written() + len,
            old(self).written() + len > old(self).length() ==> offset == Err::<u64, SegmentError>(
                SegmentError::Overrun,
            ) && final(self).written() == old(self).written(),
            offset is Ok ==> old(self).range().start <= offset->Ok_0 && offset->Ok_0 + len <= old(
                self,
            ).range().end + 1,
    {
        proof {
            use_type_invariant(&*self);
        }
        let length: u64 = self.range.end - self.range.start + 1;
        if len <= length - self.written {
            let offset: u64 = self.range.start + self.written;
            self.written = self.written + len;
            Ok(offset)
        } else {
            Err(SegmentError::Overrun)
        }
    }

    /// Closes the segment when its stream has ended: the segment succeeded
    /// exactly when every byte of its range has been written.
    pub fn finish(&self) -> (outcome: Result<(), SegmentError>)
        ensures
            self.written() == self.length() ==> outcome == Ok::<(), SegmentError>(()),
            self.written() != self.length() ==> outcome == Err::<(), SegmentError>(SegmentError::Truncated),
    {
        if self.is_complete() {
            Ok(())
        } else {
            Err(SegmentError::Truncated)
        }
    }
}

/// Starts one segment per range of a partition; `None` if a range among them
/// is empty or reaches the largest offset.
pub fn start_segments(ranges: &Vec<ByteRange>) -> (segments: Option<Vec<SegmentState>>)
    ensures
        segments is Some <==> forall|i: int|
            0 <= i < ranges@.len() ==> (#[trigger] ranges@[i]).start <= ranges@[i].end && ranges@[i].end
                < u64::MAX,
        segments is Some ==> segments->0@.len() == ranges@.len() && forall|i: int|
            0 <= i < ranges@.len() ==> (#[trigger] segments->0@[i]).wf() && segments->0@[i].range()
                == ranges@[i] && segments->0@[i].written() == 0,
{
    let mut segments: Vec<SegmentState> = Vec::new();
    let mut i: usize = 0;
    while i < ranges.len()
        invariant
            i <= ranges@.len(),
            segments@.len() == i,
            forall|k: int|
                0 <= k < i ==> (#[trigger] ranges@[k]).start <= ranges@[k].end && ranges@[k].end < u64::MAX,
            forall|k: int|
                0 <= k < i ==> (#[trigger] segments@[k]).wf() && segments@[k].range() == ranges@[k]
                    && segments@[k].written() == 0,
        decreases ranges@.len() - i,
    {
        match SegmentState::new(ranges[i]) {
            Some(state) => {
                segments.push(state);
            },
            None => {
                return None;
            },
        }
        i = i + 1;
    }
    Some(segments)
}

/// Progress of a sequential transfer: the number of bytes on disk, which
/// is also the offset at which the next piece of data is appended.
#[derive(Clone, Copy, Debug, PartialEq, Eq, Structural)]
pub struct StreamState {
    downloaded: u64,
}

impl StreamState {
    /// Bytes on disk.
    pub closed spec fn downloaded(&self) -> u64 {
        self.downloaded
    }

    /// A stream that goes on after the `downloaded` bytes of the partial
    /// file; from the first byte when there is none.
    pub fn resume_from(downloaded: u64) -> (state: StreamState)
        ensures
            state.downloaded() == downloaded,
    {
        StreamState { downloaded }
    }

    /// Bytes on disk.
    pub fn bytes_downloaded(&self) -> (n: u64)
        ensures
            n == self.downloaded(),
    {
        self.downloaded
    }

    /// Accounts for a piece of `len` bytes that has arrived: the result is
    /// the new number of bytes on disk. A piece that would take the count
    /// past what a `u64` holds is refused and changes nothing.
    pub fn accept(&mut self, len: u64) -> (total: Result<u64, SegmentError>)
        ensures
            old(self).downloaded() + len <= u64::MAX ==> total == Ok::<u64, SegmentError>(
                (old(self).downloaded() + len) as u64,
            ) && final(self).downloaded() == old(self).downloaded() + len,
            old(self).downloaded() + len > u64::MAX ==> total == Err::<u64, SegmentError>(
                SegmentError::Overrun,
            ) && final(self).downloaded() == old(self).downloaded(),
    {
        if len <= u64::MAX - self.downloaded {
            self.downloaded = self.downloaded + len;
            Ok(self.downloaded)
        } else {
            Err(SegmentError::Overrun)
        }
    }
}

} // verus!
