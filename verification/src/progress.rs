//! Numbers and durations as the progress display writes them.

use crate::text::{decimal, decimal_string, push_char};
use vstd::prelude::*;
use vstd::string::StrSliceExecFns;
use vstd::string::StringExecFns;

verus! {

/// The first `i` digits of a number with its thousands separators: a comma
/// stands before every digit, but the first, that has a multiple of three
/// digits from itself to the end.
pub open spec fn separated_prefix(digits: Seq<char>, i: nat) -> Seq<char>
    decreases i,
{
    if i == 0 {
        Seq::empty()
    } else {
        let at = (i - 1) as int;
        if at > 0 && (digits.len() - at) % 3 == 0 {
            separated_prefix(digits, (i - 1) as nat).push(',').push(digits[at])
        } else {
            separated_prefix(digits, (i - 1) as nat).push(digits[at])
        }
    }
}

/// A number with commas as thousands separators.
pub open spec fn separated(n: nat) -> Seq<char> {
    separated_prefix(decimal(n), decimal(n).len())
}

/// A number in at least two digits.
pub open spec fn two_digits(n: nat) -> Seq<char> {
    if n < 10 {
        seq!['0'] + decimal(n)
    } else {
        decimal(n)
    }
}

/// A number of seconds as `MM:SS`, or as `HH:MM:SS` from one hour on.
pub open spec fn clock(total_secs: nat) -> Seq<char> {
    let hours = total_secs / 3600;
    let minutes = (total_secs % 3600) / 60;
    let seconds = total_secs % 60;
    if hours > 0 {
        two_digits(hours) + seq![':'] + two_digits(minutes) + seq![':'] + two_digits(seconds)
    } else {
        two_digits(minutes) + seq![':'] + two_digits(seconds)
    }
}

/// Writes a number with commas as thousands separators: `1234567` becomes
/// `1,234,567`.
pub fn format_number(n: u64) -> (text: String)
    ensures
        text@ == separated(n as nat),
{
    let digits = decimal_string(n);
    let len = digits.as_str().unicode_len();
    let mut result = String::new();
    let mut i: usize = 0;
    while i < len
        invariant
            i <= len,
            len == digits@.len(),
            digits@ == decimal(n as nat),
            result@ == separated_prefix(digits@, i as nat),
        decreases len - i,
    {
        if i > 0 && (len - i) % 3 == 0 {
            push_char(&mut result, ',');
        }
        push_char(&mut result, digits.as_str().get_char(i));
        i += 1;
    }
    result
}

fn push_two_digits(out: &mut String, n: u64)
    ensures
        final(out)@ == old(out)@ + two_digits(n as nat),
{
    if n < 10 {
        push_char(out, '0');
    }
    let digits = decimal_string(n);
    out.append(digits.as_str());
    assert(out@ =~= old(out)@ + two_digits(n as nat));
}

/// Writes a number of whole seconds as a clock reading: `MM:SS` below one
/// hour, `HH:MM:SS` from one hour on.
pub fn format_duration(total_secs: u64) -> (text: String)
    ensures
        text@ == clock(total_secs as nat),
{
    let hours = total_secs / 3600;
    let minutes = (total_secs % 3600) / 60;
    let seconds = total_secs % 60;
    let mut text = String::new();
    if hours > 0 {
        push_two_digits(&mut text, hours);
        push_char(&mut text, ':');
    }
    push_two_digits(&mut text, minutes);
    push_char(&mut text, ':');
    push_two_digits(&mut text, seconds);
    assert(text@ =~= clock(total_secs as nat));
    text
}

} // verus!
