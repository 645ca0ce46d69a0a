//! Verified decimal formatting.
//!
//! Error messages and image summaries render numbers in decimal. The
//! rendering is specified by [`spec_dec`], which names the digit string of a
//! non-negative integer, and implemented by plain repeated division.

use vstd::prelude::*;
use vstd::string::StringExecFns;

verus! {

/// The single decimal digit character for a value below ten.
pub open spec fn spec_digit(d: int) -> Seq<char> {
    if d == 0 {
        "0"@
    } else if d == 1 {
        "1"@
    } else if d == 2 {
        "2"@
    } else if d == 3 {
        "3"@
    } else if d == 4 {
        "4"@
    } else if d == 5 {
        "5"@
    } else if d == 6 {
        "6"@
    } else if d == 7 {
        "7"@
    } else if d == 8 {
        "8"@
    } else {
        "9"@
    }
}

/// The decimal digit string of a non-negative integer: the digits of
/// `n / 10`, if any, followed by the digit of `n % 10`.
pub open spec fn spec_dec(n: int) -> Seq<char>
    recommends
        n >= 0,
    decreases n,
{
    if n < 10 {
        spec_digit(n)
    } else {
        spec_dec(n / 10) + spec_digit(n % 10)
    }
}

/// The character for one decimal digit.
fn digit_str(d: u64) -> (r: &'static str)
    requires
        d < 10,
    ensures
        r@ == spec_digit(d as int),
{
    if d == 0 {
        "0"
    } else if d == 1 {
        "1"
    } else if d == 2 {
        "2"
    } else if d == 3 {
        "3"
    } else if d == 4 {
        "4"
    } else if d == 5 {
        "5"
    } else if d == 6 {
        "6"
    } else if d == 7 {
        "7"
    } else if d == 8 {
        "8"
    } else {
        "9"
    }
}

/// Render a number in decimal.
pub fn u64_to_dec(n: u64) -> (s: String)
    ensures
        s@ == spec_dec(n as int),
    decreases n,
{
    if n < 10 {
        String::from_str(digit_str(n))
    } else {
        let mut s = u64_to_dec(n / 10);
        s.append(digit_str(n % 10));
        s
    }
}

/// Render a `usize` in decimal.
pub fn usize_to_dec(n: usize) -> (s: String)
    ensures
        s@ == spec_dec(n as int),
{
    u64_to_dec(n as u64)
}

/// Render a `u32` in decimal.
pub fn u32_to_dec(n: u32) -> (s: String)
    ensures
        s@ == spec_dec(n as int),
{
    u64_to_dec(n as u64)
}

/// Render a `u16` in decimal.
pub fn u16_to_dec(n: u16) -> (s: String)
    ensures
        s@ == spec_dec(n as int),
{
    u64_to_dec(n as u64)
}

/// Render a `u8` in decimal.
pub fn u8_to_dec(n: u8) -> (s: String)
    ensures
        s@ == spec_dec(n as int),
{
    u64_to_dec(n as u64)
}

} // verus!
