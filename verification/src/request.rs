//! What goes over the wire: `Range` header values, the statuses a transfer
//! accepts, and what a probe learns from the response headers.

use vstd::prelude::*;
use vstd::string::*;
use crate::chunks::ByteRange;
use crate::text::{decimal, parsed_u64, parse_u64, push_decimal, str_eq};

verus! {

/// Status of a response that carries the whole resource.
pub const STATUS_OK: u16 = 200;

/// Status of a response that carries the requested range.
pub const STATUS_PARTIAL_CONTENT: u16 = 206;

/// Seconds a request may take to deliver its headers, or stall between two
/// pieces of its body.
pub const REQUEST_TIMEOUT_SECS: u64 = 30;

/// The unit named in every `Range` value, with its equals sign.
pub open spec fn range_unit() -> Seq<char> {
    seq!['b', 'y', 't', 'e', 's', '=']
}

/// The `Range` value that asks for the bytes `start ..= end`.
pub open spec fn closed_range_text(start: u64, end: u64) -> Seq<char> {
    range_unit() + decimal(start as nat) + seq!['-'] + decimal(end as nat)
}

/// The `Range` value that asks for everything from byte `start` on.
pub open spec fn open_range_text(start: u64) -> Seq<char> {
    range_unit() + decimal(start as nat) + seq!['-']
}

/// Builds the `Range` header value of one segment: `bytes=S-E`.
pub fn range_header(range: ByteRange) -> (value: String)
    ensures
        value@ == closed_range_text(range.start, range.end),
{
    proof {
        reveal_strlit("bytes=");
        reveal_strlit("-");
    }
    let mut value = String::from_str("bytes=");
    assert(value@ =~= range_unit());
    push_decimal(&mut value, range.start);
    value.append("-");
    push_decimal(&mut value, range.end);
    assert(value@ =~= closed_range_text(range.start, range.end));
    value
}

/// Builds the `Range` header value of a sequential transfer that already has
/// `downloaded` bytes on disk: `bytes=S-`. A transfer that starts from the
/// first byte sends no `Range` header at all.
pub fn resume_header(downloaded: u64) -> (value: Option<String>)
    ensures
        downloaded == 0 ==> value is None,
        downloaded > 0 ==> value is Some && value->0@ == open_range_text(downloaded),
{
    if downloaded == 0 {
        return None;
    }
    proof {
        reveal_strlit("bytes=");
        reveal_strlit("-");
    }
    let mut value = String::from_str("bytes=");
    assert(value@ =~= range_unit());
    push_decimal(&mut value, downloaded);
    value.append("-");
    assert(value@ =~= open_range_text(downloaded));
    Some(value)
}

/// Whether a response with this status carries data to keep: 200 and 206 do,
/// every other status ends the transfer.
pub open spec fn accepted(status: u16) -> bool {
    status == STATUS_OK || status == STATUS_PARTIAL_CONTENT
}

/// Tests the status of a response to a GET.
pub fn status_accepted(status: u16) -> (ok: bool)
    ensures
        ok == accepted(status),
{
    status == STATUS_OK || status == STATUS_PARTIAL_CONTENT
}

/// What a probe learns about a resource.
#[derive(Clone, Copy, Debug, PartialEq, Eq, Structural)]
pub struct ProbeInfo {
    /// Size of the resource in bytes; zero when the server did not say.
    pub total_bytes: u64,
    /// Whether the server serves byte ranges.
    pub supports_range: bool,
}

/// The size announced by a `Content-Length` value: the number it writes, or
/// zero when the header is absent or is not a number that fits.
pub open spec fn announced_length(content_length: Option<Seq<char>>) -> u64 {
    match content_length {
        Some(text) => match parsed_u64(text) {
            Some(n) => n,
            None => 0,
        },
        None => 0,
    }
}

/// Whether an `Accept-Ranges` value announces byte ranges: it does when it is
/// exactly `bytes`.
pub open spec fn announces_ranges(accept_ranges: Option<Seq<char>>) -> bool {
    accept_ranges == Some(seq!['b', 'y', 't', 'e', 's'])
}

/// Reads the two headers of a probe response. Each argument is the text of
/// the header, or `None` when the response has no such header or its value
/// is not text.
pub fn read_probe(content_length: Option<&str>, accept_ranges: Option<&str>) -> (info: ProbeInfo)
    ensures
        info.total_bytes == announced_length(
            match content_length {
                Some(text) => Some(text@),
                None => None,
            },
        ),
        info.supports_range == announces_ranges(
            match accept_ranges {
                Some(text) => Some(text@),
                None => None,
            },
        ),
{
    let total_bytes: u64 = match content_length {
        Some(text) => match parse_u64(text) {
            Some(n) => n,
            None => 0,
        },
        None => 0,
    };
    let supports_range: bool = match accept_ranges {
        Some(text) => {
            proof {
                reveal_strlit("bytes");
                assert("bytes"@ =~= seq!['b', 'y', 't', 'e', 's']);
            }
            str_eq(text, "bytes")
        },
        None => false,
    };
    ProbeInfo { total_bytes, supports_range }
}

} // verus!
