//! Small text routines: comparison, decimal numbers, names derived from a URL.

use vstd::prelude::*;
use vstd::string::*;
use vstd::utf8::*;

verus! {

/// Whether two string slices hold the same text.
pub fn str_eq(a: &str, b: &str) -> (same: bool)
    ensures
        same == (a@ == b@),
{
    let x = a.as_bytes();
    let y = b.as_bytes();
    proof {
        encode_utf8_decode_utf8(a@);
        encode_utf8_decode_utf8(b@);
    }
    if x.len() != y.len() {
        return false;
    }
    let mut i: usize = 0;
    while i < x.len()
        invariant
            i <= x@.len(),
            x@.len() == y@.len(),
            x@ == a.spec_bytes(),
            y@ == b.spec_bytes(),
            forall|k: int| 0 <= k < i ==> x@[k] == y@[k],
        decreases x@.len() - i,
    {
        if x[i] != y[i] {
            return false;
        }
        i = i + 1;
    }
    assert(x@ =~= y@);
    true
}

/// Whether `text` begins with `prefix`.
pub open spec fn has_prefix(text: Seq<char>, prefix: Seq<char>) -> bool {
    prefix.len() <= text.len() && text.subrange(0, prefix.len() as int) == prefix
}

/// Tests whether `text` begins with `prefix`, character by character.
pub fn starts_with(text: &str, prefix: &str) -> (yes: bool)
    ensures
        yes == has_prefix(text@, prefix@),
{
    let n: usize = prefix.unicode_len();
    let m: usize = text.unicode_len();
    if m < n {
        return false;
    }
    let mut i: usize = 0;
    while i < n
        invariant
            i <= n,
            n == prefix@.len(),
            m == text@.len(),
            n <= m,
            forall|k: int| 0 <= k < i ==> text@[k] == prefix@[k],
        decreases n - i,
    {
        if text.get_char(i) != prefix.get_char(i) {
            assert(text@.subrange(0, n as int)[i as int] != prefix@[i as int]);
            return false;
        }
        i = i + 1;
    }
    assert(text@.subrange(0, n as int) =~= prefix@);
    true
}

/// The character that writes the digit `d`.
pub open spec fn digit_char(d: nat) -> char {
    if d == 0 {
        '0'
    } else if d == 1 {
        '1'
    } else if d == 2 {
        '2'
    } else if d == 3 {
        '3'
    } else if d == 4 {
        '4'
    } else if d == 5 {
        '5'
    } else if d == 6 {
        '6'
    } else if d == 7 {
        '7'
    } else if d == 8 {
        '8'
    } else {
        '9'
    }
}

/// The decimal numeral of `n`: no sign, no leading zero but for zero itself.
pub open spec fn decimal(n: nat) -> Seq<char>
    decreases n,
{
    if n < 10 {
        seq![digit_char(n)]
    } else {
        decimal(n / 10).push(digit_char(n % 10))
    }
}

/// The one-character text of a digit.
fn digit_str(d: u64) -> (s: &'static str)
    requires
        d < 10,
    ensures
        s@ == seq![digit_char(d as nat)],
{
    proof {
        reveal_strlit("0");
        reveal_strlit("1");
        reveal_strlit("2");
        reveal_strlit("3");
        reveal_strlit("4");
        reveal_strlit("5");
        reveal_strlit("6");
        reveal_strlit("7");
        reveal_strlit("8");
        reveal_strlit("9");
    }
    let s = if d == 0 {
        "0"
    } else if d == 1 {
        "1"
    } else if d == 2 {
        "2"
    } else if d == 3 {
        "3"
    } else if d == 4 {
        "4"
    } else if d == 5 {
        "5"
    } else if d == 6 {
        "6"
    } else if d == 7 {
        "7"
    } else if d == 8 {
        "8"
    } else {
        "9"
    };
    assert(s@ =~= seq![digit_char(d as nat)]);
    s
}

/// Appends the decimal numeral of `n` to `out`.
pub fn push_decimal(out: &mut String, n: u64)
    ensures
        final(out)@ == old(out)@ + decimal(n as nat),
    decreases n,
{
    if n >= 10 {
        push_decimal(out, n / 10);
    }
    out.append(digit_str(n % 10));
    assert(out@ =~= old(out)@ + decimal(n as nat));
}

/// The decimal numeral of `n` as a string of its own.
pub fn decimal_string(n: u64) -> (s: String)
    ensures
        s@ == decimal(n as nat),
{
    let mut s = String::new();
    push_decimal(&mut s, n);
    assert(s@ =~= decimal(n as nat));
    s
}

/// Whether `c` is one of the ten ASCII digits.
pub open spec fn is_digit(c: char) -> bool {
    '0' <= c && c <= '9'
}

/// The number a digit character stands for.
pub open spec fn digit_value(c: char) -> nat {
    (c as u32 - '0' as u32) as nat
}

/// The number written by a run of digits, read in base ten; zero for none.
pub open spec fn digits_value(digits: Seq<char>) -> nat
    decreases digits.len(),
{
    if digits.len() == 0 {
        0
    } else {
        digits_value(digits.drop_last()) * 10 + digit_value(digits.last())
    }
}

/// Whether every character of `text` is a digit.
pub open spec fn all_digits(text: Seq<char>) -> bool {
    forall|i: int| 0 <= i < text.len() ==> is_digit(#[trigger] text[i])
}

/// What is left of a numeral once one leading plus sign is taken off.
pub open spec fn unsigned_part(text: Seq<char>) -> Seq<char> {
    if text.len() > 0 && text[0] == '+' {
        text.subrange(1, text.len() as int)
    } else {
        text
    }
}

/// The number that `text` denotes as an unsigned 64-bit decimal numeral: an
/// optional plus sign and then one or more digits, nothing else, with a value
/// that fits. Any other text denotes nothing.
pub open spec fn parsed_u64(text: Seq<char>) -> Option<u64> {
    let digits = unsigned_part(text);
    if digits.len() > 0 && all_digits(digits) && digits_value(digits) <= u64::MAX {
        Some(digits_value(digits) as u64)
    } else {
        None
    }
}

/// A run of digits is worth at least as much as any of its prefixes.
proof fn lemma_digits_value_grows(digits: Seq<char>, k: int)
    requires
        0 <= k <= digits.len(),
    ensures
        digits_value(digits.subrange(0, k)) <= digits_value(digits),
    decreases digits.len(),
{
    if k == digits.len() {
        assert(digits.subrange(0, k) =~= digits);
    } else {
        lemma_digits_value_grows(digits.drop_last(), k);
        assert(digits.drop_last().subrange(0, k) =~= digits.subrange(0, k));
    }
}

/// Reads an unsigned 64-bit decimal numeral.
pub fn parse_u64(text: &str) -> (value: Option<u64>)
    ensures
        value == parsed_u64(text@),
{
    let len: usize = text.unicode_len();
    let ghost digits = unsigned_part(text@);
    let mut acc: u64 = 0;
    let mut seen: usize = 0;
    let mut idx: usize = 0;
    let mut valid: bool = true;
    for c in it: text.chars()
        invariant
            it.seq() == text@,
            len == text@.len(),
            idx == it.index(),
            digits == unsigned_part(text@),
            valid ==> seen <= idx && seen <= digits.len() && seen == idx - (text@.len() - digits.len()) + (
            if idx == 0 && text@.len() != digits.len() {
                1int
            } else {
                0int
            }),
            valid ==> all_digits(digits.subrange(0, seen as int)),
            valid ==> acc == digits_value(digits.subrange(0, seen as int)),
            !valid ==> parsed_u64(text@) is None,
    {
        if valid {
            if idx == 0 && c == '+' {
                assert(digits.subrange(0, 0) =~= Seq::<char>::empty());
            } else if c >= '0' && c <= '9' {
                let d: u64 = (c as u32 - '0' as u32) as u64;
                let ghost before = digits.subrange(0, seen as int);
                let ghost after = digits.subrange(0, seen as int + 1);
                proof {
                    assert(digits[seen as int] == c);
                    assert(after.drop_last() =~= before);
                    assert(after.last() == c);
                    assert(digits_value(after) == digits_value(before) * 10 + d);
                    assert forall|i: int| 0 <= i < after.len() implies is_digit(#[trigger] after[i]) by {
                        if i < seen {
                            assert(before[i] == after[i]);
                        }
                    }
                }
                if acc > (u64::MAX - d) / 10 {
                    proof {
                        lemma_digits_value_grows(digits, seen as int + 1);
                    }
                    valid = false;
                } else {
                    acc = acc * 10 + d;
                    seen = seen + 1;
                }
            } else {
                assert(!is_digit(digits[seen as int]));
                valid = false;
            }
        }
        idx = idx + 1;
    }
    if valid && seen > 0 {
        assert(digits.subrange(0, seen as int) =~= digits);
        Some(acc)
    } else {
        proof {
            if valid {
                assert(digits.len() == 0);
            }
        }
        None
    }
}

/// Where the last path component of `url` begins: just past its last
/// slash, or at the front when it has none.
pub open spec fn name_start(url: Seq<char>) -> int
    decreases url.len(),
{
    if url.len() == 0 {
        0
    } else if url.last() == '/' {
        url.len() as int
    } else {
        name_start(url.drop_last())
    }
}

/// The file name a URL is saved under: everything after its last slash, the
/// whole URL when it has none, and nothing when it ends in one.
pub open spec fn file_name_of(url: Seq<char>) -> Seq<char> {
    url.subrange(name_start(url), url.len() as int)
}

/// What `name_start` picks out: the start of the longest slash-free tail.
pub proof fn lemma_name_start(url: Seq<char>)
    ensures
        0 <= name_start(url) <= url.len(),
        name_start(url) > 0 ==> url[name_start(url) - 1] == '/',
        forall|i: int| name_start(url) <= i < url.len() ==> url[i] != '/',
    decreases url.len(),
{
    if url.len() > 0 && url.last() != '/' {
        let front = url.drop_last();
        lemma_name_start(front);
        assert forall|i: int| name_start(url) <= i < url.len() implies url[i] != '/' by {
            if i < front.len() {
                assert(front[i] == url[i]);
            }
        }
    }
}

/// Derives the file name of a download from its URL.
pub fn filename_from_url(url: &str) -> (name: String)
    ensures
        name@ == file_name_of(url@),
{
    let len: usize = url.unicode_len();
    let mut start: usize = 0;
    let mut idx: usize = 0;
    for c in it: url.chars()
        invariant
            it.seq() == url@,
            len == url@.len(),
            idx == it.index(),
            start == name_start(url@.subrange(0, idx as int)),
            start <= idx,
    {
        let ghost before = url@.subrange(0, idx as int);
        let ghost after = url@.subrange(0, idx as int + 1);
        assert(after.drop_last() =~= before);
        assert(after.last() == c);
        if c == '/' {
            start = idx + 1;
        }
        idx = idx + 1;
    }
    assert(url@.subrange(0, len as int) =~= url@);
    let tail = url.substring_char(start, len);
    String::from_str(tail)
}

/// The name of the partial file that a download is written to until it is
/// complete: the file name followed by `.part`.
pub open spec fn part_name_of(filename: Seq<char>) -> Seq<char> {
    filename + seq!['.', 'p', 'a', 'r', 't']
}

/// Builds the name of the partial file of `filename`.
pub fn part_file_name(filename: &str) -> (name: String)
    ensures
        name@ == part_name_of(filename@),
{
    proof {
        reveal_strlit(".part");
    }
    let name = String::from_str(filename).concat(".part");
    assert(name@ =~= part_name_of(filename@));
    name
}

/// The name of the scratch file that a durable file is written to before it
/// replaces the old one: the file name followed by `.tmp`.
pub open spec fn temp_name_of(filename: Seq<char>) -> Seq<char> {
    filename + seq!['.', 't', 'm', 'p']
}

/// Builds the name of the scratch file of `filename`.
pub fn temp_file_name(filename: &str) -> (name: String)
    ensures
        name@ == temp_name_of(filename@),
{
    proof {
        reveal_strlit(".tmp");
    }
    let name = String::from_str(filename).concat(".tmp");
    assert(name@ =~= temp_name_of(filename@));
    name
}

/// Whether `url` names a resource that can be fetched: it starts with
/// `http://` or with `https://`.
pub open spec fn is_http_url_spec(url: Seq<char>) -> bool {
    has_prefix(url, seq!['h', 't', 't', 'p', ':', '/', '/']) || has_prefix(
        url,
        seq!['h', 't', 't', 'p', 's', ':', '/', '/'],
    )
}

/// Tests whether `url` starts with one of the two supported schemes.
pub fn is_http_url(url: &str) -> (ok: bool)
    ensures
        ok == is_http_url_spec(url@),
{
    proof {
        reveal_strlit("http://");
        reveal_strlit("https://");
        assert("http://"@ =~= seq!['h', 't', 't', 'p', ':', '/', '/']);
        assert("https://"@ =~= seq!['h', 't', 't', 'p', 's', ':', '/', '/']);
    }
    starts_with(url, "http://") || starts_with(url, "https://")
}

} // verus!
