//! Sizes, speeds and shares as text, in binary units with two decimals.

use vstd::prelude::*;
use vstd::string::*;
use crate::text::{decimal, digit_char, push_decimal};

verus! {

/// Bytes in a kibibyte.
pub const KB: u64 = 1024;

/// Bytes in a mebibyte.
pub const MB: u64 = 1048576;

/// Bytes in a gibibyte.
pub const GB: u64 = 1073741824;

/// The whole number nearest to `numerator / denominator`; of two that are
/// equally near, the even one.
pub open spec fn rounded_ratio(numerator: nat, denominator: nat) -> nat
    recommends
        denominator > 0,
{
    let quotient = numerator / denominator;
    let rest = numerator % denominator;
    if 2 * rest > denominator || (2 * rest == denominator && quotient % 2 == 1) {
        quotient + 1
    } else {
        quotient
    }
}

/// Computes the nearest whole number to a ratio, ties to even.
pub fn round_ratio(numerator: u128, denominator: u128) -> (rounded: u128)
    requires
        denominator > 0,
    ensures
        rounded == rounded_ratio(numerator as nat, denominator as nat),
{
    let quotient: u128 = numerator / denominator;
    let rest: u128 = numerator % denominator;
    // `rest` is compared with what is left of the denominator, so that
    // nothing is doubled.
    let other: u128 = denominator - rest;
    assert(rest > 0 ==> quotient < u128::MAX) by (nonlinear_arith)
        requires
            quotient == numerator / denominator,
            rest == numerator % denominator,
            denominator > 0,
            numerator <= u128::MAX,
    ;
    if rest > other || (rest == other && quotient % 2 == 1) {
        quotient + 1
    } else {
        quotient
    }
}

/// A number of hundredths written with two decimals: `1234` is `12.34`.
pub open spec fn two_decimals(hundredths: nat) -> Seq<char> {
    decimal(hundredths / 100) + seq!['.', digit_char(hundredths % 100 / 10), digit_char(hundredths % 10)]
}

/// Appends a number of hundredths, written with two decimals.
fn push_two_decimals(out: &mut String, hundredths: u64)
    ensures
        final(out)@ == old(out)@ + two_decimals(hundredths as nat),
{
    proof {
        reveal_strlit(".");
    }
    push_decimal(out, hundredths / 100);
    out.append(".");
    let ghost middle = out@;
    push_decimal(out, hundredths % 100 / 10);
    push_decimal(out, hundredths % 10);
    proof {
        assert(decimal((hundredths % 100 / 10) as nat) =~= seq![digit_char((hundredths % 100 / 10) as nat)]);
        assert(decimal((hundredths % 10) as nat) =~= seq![digit_char((hundredths % 10) as nat)]);
        assert(out@ =~= old(out)@ + two_decimals(hundredths as nat));
    }
}

/// `amount` in units of `unit`, rounded to hundredths.
pub open spec fn hundredths_of(amount: u64, unit: u64) -> nat
    recommends
        unit > 0,
{
    rounded_ratio(amount as nat * 100, unit as nat)
}

/// Appends `amount` in units of `unit` with two decimals.
fn push_scaled(out: &mut String, amount: u64, unit: u64)
    requires
        unit >= 1024,
    ensures
        final(out)@ == old(out)@ + two_decimals(hundredths_of(amount, unit)),
{
    assert(amount * 100 <= u64::MAX * 100) by (nonlinear_arith)
        requires
            amount <= u64::MAX,
    ;
    let scaled: u128 = round_ratio(amount as u128 * 100, unit as u128);
    assert(scaled <= u64::MAX) by {
        let n = amount as nat * 100;
        let d = unit as nat;
        assert(n / d <= u64::MAX * 100 / 1024) by (nonlinear_arith)
            requires
                n <= u64::MAX * 100,
                d >= 1024,
        ;
    }
    push_two_decimals(out, scaled as u64);
}

/// A size in bytes as text: in GB from a gibibyte on, in MB from a mebibyte
/// on, in KB from a kibibyte on, each with two decimals, and in whole bytes
/// below that.
pub open spec fn size_text(bytes: u64) -> Seq<char> {
    if bytes >= GB {
        two_decimals(hundredths_of(bytes, GB)) + seq![' ', 'G', 'B']
    } else if bytes >= MB {
        two_decimals(hundredths_of(bytes, MB)) + seq![' ', 'M', 'B']
    } else if bytes >= KB {
        two_decimals(hundredths_of(bytes, KB)) + seq![' ', 'K', 'B']
    } else {
        decimal(bytes as nat) + seq![' ', 'B']
    }
}

/// Writes a number of bytes for display.
pub fn format_bytes(bytes: u64) -> (text: String)
    ensures
        text@ == size_text(bytes),
{
    proof {
        reveal_strlit(" GB");
        reveal_strlit(" MB");
        reveal_strlit(" KB");
        reveal_strlit(" B");
    }
    let mut text = String::new();
    if bytes >= GB {
        push_scaled(&mut text, bytes, GB);
        text.append(" GB");
        assert(text@ =~= size_text(bytes));
    } else if bytes >= MB {
        push_scaled(&mut text, bytes, MB);
        text.append(" MB");
        assert(text@ =~= size_text(bytes));
    } else if bytes >= KB {
        push_scaled(&mut text, bytes, KB);
        text.append(" KB");
        assert(text@ =~= size_text(bytes));
    } else {
        push_decimal(&mut text, bytes);
        text.append(" B");
        assert(text@ =~= size_text(bytes));
    }
    text
}

/// How far a transfer is, as text: what is on disk and the size of the
/// resource, with a slash between them.
pub open spec fn status_text(downloaded: u64, total_bytes: u64) -> Seq<char> {
    size_text(downloaded) + seq!['/'] + size_text(total_bytes)
}

/// Writes the bytes on disk and the size of the resource for display.
pub fn format_status(downloaded: u64, total_bytes: u64) -> (text: String)
    ensures
        text@ == status_text(downloaded, total_bytes),
{
    proof {
        reveal_strlit("/");
    }
    let mut text = format_bytes(downloaded);
    text.append("/");
    let total = format_bytes(total_bytes);
    text.append(total.as_str());
    assert(text@ =~= status_text(downloaded, total_bytes));
    text
}

/// Writes the size of a file for display; there is no text for a size of
/// zero, which stands for a size that is not known.
pub fn format_file_size(bytes: u64) -> (text: Option<String>)
    ensures
        bytes == 0 ==> text is None,
        bytes > 0 ==> text is Some && text->0@ == size_text(bytes),
{
    if bytes == 0 {
        None
    } else {
        Some(format_bytes(bytes))
    }
}

/// A speed in bytes per second as text: in MB/s from a mebibyte per second
/// on, in KB/s from a kibibyte per second on, each with two decimals, and in
/// whole B/s below that.
pub open spec fn speed_text(bytes_per_sec: u64) -> Seq<char> {
    if bytes_per_sec >= MB {
        two_decimals(hundredths_of(bytes_per_sec, MB)) + seq![' ', 'M', 'B', '/', 's']
    } else if bytes_per_sec >= KB {
        two_decimals(hundredths_of(bytes_per_sec, KB)) + seq![' ', 'K', 'B', '/', 's']
    } else {
        decimal(bytes_per_sec as nat) + seq![' ', 'B', '/', 's']
    }
}

/// Writes a speed for display.
pub fn format_speed(bytes_per_sec: u64) -> (text: String)
    ensures
        text@ == speed_text(bytes_per_sec),
{
    proof {
        reveal_strlit(" MB/s");
        reveal_strlit(" KB/s");
        reveal_strlit(" B/s");
    }
    let mut text = String::new();
    if bytes_per_sec >= MB {
        push_scaled(&mut text, bytes_per_sec, MB);
        text.append(" MB/s");
        assert(text@ =~= speed_text(bytes_per_sec));
    } else if bytes_per_sec >= KB {
        push_scaled(&mut text, bytes_per_sec, KB);
        text.append(" KB/s");
        assert(text@ =~= speed_text(bytes_per_sec));
    } else {
        push_decimal(&mut text, bytes_per_sec);
        text.append(" B/s");
        assert(text@ =~= speed_text(bytes_per_sec));
    }
    text
}

/// The share of `total_bytes` that `downloaded` is, in whole percent,
/// rounded to the nearest; zero when the total is not known.
pub open spec fn percent_of(downloaded: u64, total_bytes: u64) -> nat {
    if total_bytes == 0 {
        0
    } else {
        rounded_ratio(downloaded as nat * 100, total_bytes as nat)
    }
}

/// Computes the share of the total that is on disk, in whole percent.
pub fn percent(downloaded: u64, total_bytes: u64) -> (share: u128)
    ensures
        share == percent_of(downloaded, total_bytes),
{
    if total_bytes == 0 {
        return 0;
    }
    assert(downloaded * 100 <= u64::MAX * 100) by (nonlinear_arith)
        requires
            downloaded <= u64::MAX,
    ;
    round_ratio(downloaded as u128 * 100, total_bytes as u128)
}

} // verus!
