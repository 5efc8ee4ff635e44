use keeper::chunks::{partition, ByteRange};
use keeper::request::{
    range_header, read_probe, resume_header, status_accepted, ProbeInfo, REQUEST_TIMEOUT_SECS, STATUS_OK,
    STATUS_PARTIAL_CONTENT,
};

#[test]
fn range_header_of_a_segment() {
    assert_eq!(range_header(ByteRange { start: 0, end: 10485759 }), "bytes=0-10485759");
    assert_eq!(range_header(ByteRange { start: 31457280, end: 41943039 }), "bytes=31457280-41943039");
    assert_eq!(range_header(ByteRange { start: 0, end: 0 }), "bytes=0-0");
    assert_eq!(
        range_header(ByteRange { start: u64::MAX, end: u64::MAX }),
        "bytes=18446744073709551615-18446744073709551615"
    );
}

#[test]
fn range_headers_of_a_partition() {
    let headers: Vec<String> = partition(40 * 1024 * 1024).into_iter().map(range_header).collect();
    assert_eq!(
        headers,
        vec!["bytes=0-10485759", "bytes=10485760-20971519", "bytes=20971520-31457279", "bytes=31457280-41943039"]
    );
}

#[test]
fn resume_header_is_open_ended() {
    assert_eq!(resume_header(0), None);
    assert_eq!(resume_header(1), Some("bytes=1-".to_string()));
    assert_eq!(resume_header(12582912), Some("bytes=12582912-".to_string()));
}

#[test]
fn only_ok_and_partial_content_are_accepted() {
    assert_eq!(STATUS_OK, 200);
    assert_eq!(STATUS_PARTIAL_CONTENT, 206);
    assert_eq!(REQUEST_TIMEOUT_SECS, 30);
    assert!(status_accepted(200));
    assert!(status_accepted(206));
    for status in [0, 100, 199, 201, 204, 205, 207, 301, 304, 400, 403, 404, 416, 500, 503, u16::MAX] {
        assert!(!status_accepted(status), "{}", status);
    }
}

#[test]
fn probe_headers() {
    assert_eq!(
        read_probe(Some("524288"), Some("bytes")),
        ProbeInfo { total_bytes: 524288, supports_range: true }
    );
    assert_eq!(read_probe(None, None), ProbeInfo { total_bytes: 0, supports_range: false });
    assert_eq!(read_probe(Some("41943040"), None), ProbeInfo { total_bytes: 41943040, supports_range: false });
    assert_eq!(read_probe(None, Some("bytes")), ProbeInfo { total_bytes: 0, supports_range: true });
}

#[test]
fn probe_headers_that_say_nothing() {
    assert_eq!(read_probe(Some("abc"), Some("none")), ProbeInfo { total_bytes: 0, supports_range: false });
    assert_eq!(read_probe(Some(""), Some("")), ProbeInfo { total_bytes: 0, supports_range: false });
    assert_eq!(read_probe(Some("-5"), Some("Bytes")), ProbeInfo { total_bytes: 0, supports_range: false });
    assert_eq!(
        read_probe(Some("18446744073709551616"), Some("bytes, none")),
        ProbeInfo { total_bytes: 0, supports_range: false }
    );
    assert_eq!(read_probe(Some("12 "), Some(" bytes")), ProbeInfo { total_bytes: 0, supports_range: false });
}
