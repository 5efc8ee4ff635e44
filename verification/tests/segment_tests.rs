use keeper::chunks::{partition, ByteRange};
use keeper::segment::{start_segments, SegmentError, SegmentState, StreamState};

#[test]
fn segment_starts_empty() {
    let seg = SegmentState::new(ByteRange { start: 100, end: 199 }).unwrap();
    assert_eq!(seg.byte_range(), ByteRange { start: 100, end: 199 });
    assert_eq!(seg.bytes_written(), 0);
    assert_eq!(seg.position(), 100);
    assert!(!seg.is_complete());
    assert_eq!(seg.finish(), Err(SegmentError::Truncated));
}

#[test]
fn ranges_that_are_no_segment() {
    assert!(SegmentState::new(ByteRange { start: 5, end: 4 }).is_none());
    assert!(SegmentState::new(ByteRange { start: 0, end: u64::MAX }).is_none());
    assert!(SegmentState::new(ByteRange { start: u64::MAX, end: u64::MAX }).is_none());
    assert!(SegmentState::new(ByteRange { start: 0, end: u64::MAX - 1 }).is_some());
    assert!(SegmentState::new(ByteRange { start: 7, end: 7 }).is_some());
}

#[test]
fn pieces_are_written_one_after_the_other() {
    let mut seg = SegmentState::new(ByteRange { start: 1000, end: 1099 }).unwrap();
    assert_eq!(seg.accept(30), Ok(1000));
    assert_eq!(seg.accept(0), Ok(1030));
    assert_eq!(seg.accept(50), Ok(1030));
    assert_eq!(seg.bytes_written(), 80);
    assert_eq!(seg.position(), 1080);
    assert_eq!(seg.finish(), Err(SegmentError::Truncated));
    assert_eq!(seg.accept(20), Ok(1080));
    assert!(seg.is_complete());
    assert_eq!(seg.bytes_written(), 100);
    assert_eq!(seg.position(), 1100);
    assert_eq!(seg.finish(), Ok(()));
}

#[test]
fn a_piece_that_does_not_fit_is_refused() {
    let mut seg = SegmentState::new(ByteRange { start: 0, end: 9 }).unwrap();
    assert_eq!(seg.accept(11), Err(SegmentError::Overrun));
    assert_eq!(seg.bytes_written(), 0);
    assert_eq!(seg.accept(10), Ok(0));
    assert_eq!(seg.accept(1), Err(SegmentError::Overrun));
    assert_eq!(seg.accept(u64::MAX), Err(SegmentError::Overrun));
    assert_eq!(seg.bytes_written(), 10);
    assert_eq!(seg.accept(0), Ok(10));
    assert_eq!(seg.finish(), Ok(()));
}

#[test]
fn largest_segment() {
    let mut seg = SegmentState::new(ByteRange { start: 0, end: u64::MAX - 1 }).unwrap();
    assert_eq!(seg.accept(u64::MAX - 1), Ok(0));
    assert!(!seg.is_complete());
    assert_eq!(seg.accept(2), Err(SegmentError::Overrun));
    assert_eq!(seg.accept(1), Ok(u64::MAX - 1));
    assert!(seg.is_complete());
    assert_eq!(seg.position(), u64::MAX);
}

#[test]
fn one_segment_per_range() {
    let ranges = partition(40 * 1024 * 1024);
    let segments = start_segments(&ranges).unwrap();
    assert_eq!(segments.len(), 4);
    for (segment, range) in segments.iter().zip(ranges.iter()) {
        assert_eq!(segment.byte_range(), *range);
        assert_eq!(segment.bytes_written(), 0);
        assert_eq!(segment.position(), range.start);
    }
    assert_eq!(start_segments(&vec![]).unwrap().len(), 0);
    let bad = vec![ByteRange { start: 0, end: 9 }, ByteRange { start: 20, end: 10 }];
    assert!(start_segments(&bad).is_none());
}

#[test]
fn segments_of_a_partition_fill_the_file() {
    let total = 7 * 1024 * 1024 + 5;
    let mut written = 0;
    for range in partition(total) {
        let mut seg = SegmentState::new(range).unwrap();
        let len = range.end - range.start + 1;
        assert_eq!(seg.accept(len), Ok(range.start));
        assert_eq!(seg.finish(), Ok(()));
        written += seg.bytes_written();
    }
    assert_eq!(written, total);
}

#[test]
fn stream_counts_what_is_appended() {
    let mut stream = StreamState::resume_from(0);
    assert_eq!(stream.bytes_downloaded(), 0);
    assert_eq!(stream.accept(16384), Ok(16384));
    assert_eq!(stream.accept(0), Ok(16384));
    assert_eq!(stream.accept(100), Ok(16484));
    assert_eq!(stream.bytes_downloaded(), 16484);
}

#[test]
fn stream_resumes_and_refuses_overflow() {
    let mut stream = StreamState::resume_from(12582912);
    assert_eq!(stream.accept(1), Ok(12582913));
    let mut full = StreamState::resume_from(u64::MAX - 1);
    assert_eq!(full.accept(2), Err(SegmentError::Overrun));
    assert_eq!(full.bytes_downloaded(), u64::MAX - 1);
    assert_eq!(full.accept(1), Ok(u64::MAX));
    assert_eq!(full.accept(1), Err(SegmentError::Overrun));
}
