//! Decimal spelling of integers and the music-theory degree labels shown on
//! the keyboard, together with the spec-level descriptions of both.

use vstd::prelude::*;

verus! {

/// The one-character decimal spelling of the digit `d`.
pub open spec fn spec_digit(d: int) -> Seq<char>
    recommends
        0 <= d < 10,
{
    if d == 0 {
        "0"@
    } else if d == 1 {
        "1"@
    } else if d == 2 {
        "2"@
    } else if d == 3 {
        "3"@
    } else if d == 4 {
        "4"@
    } else if d == 5 {
        "5"@
    } else if d == 6 {
        "6"@
    } else if d == 7 {
        "7"@
    } else if d == 8 {
        "8"@
    } else {
        "9"@
    }
}

/// The decimal spelling of the non-negative integer `n`, most significant
/// digit first and without a sign.
pub open spec fn spec_udecimal(n: int) -> Seq<char>
    recommends
        0 <= n,
    decreases n,
{
    if n < 10 {
        spec_digit(n)
    } else {
        spec_udecimal(n / 10) + spec_digit(n % 10)
    }
}

/// The decimal spelling of `n`, with a leading minus sign when negative.
pub open spec fn spec_decimal(n: int) -> Seq<char> {
    if n < 0 {
        "-"@ + spec_udecimal(-n)
    } else {
        spec_udecimal(n)
    }
}

/// The degree label shown for a semitone offset from the root: the labels of
/// the twelve degrees plus the octave, and a parenthesized number for any
/// offset outside 0..=12.
pub open spec fn spec_interval_text(i: int) -> Seq<char> {
    if i == 0 {
        "R"@
    } else if i == 1 {
        "1a\n2m"@
    } else if i == 2 {
        "2"@
    } else if i == 3 {
        "2a\n3m"@
    } else if i == 4 {
        "3"@
    } else if i == 5 {
        "4"@
    } else if i == 6 {
        "4a\n5m"@
    } else if i == 7 {
        "5"@
    } else if i == 8 {
        "5a\n6m"@
    } else if i == 9 {
        "6"@
    } else if i == 10 {
        "7"@
    } else if i == 11 {
        "7M"@
    } else if i == 12 {
        "8"@
    } else {
        "("@ + spec_decimal(i) + ")"@
    }
}

fn digit_str(d: u64) -> (r: &'static str)
    requires
        d < 10,
    ensures
        r@ == spec_digit(d as int),
{
    if d == 0 {
        "0"
    } else if d == 1 {
        "1"
    } else if d == 2 {
        "2"
    } else if d == 3 {
        "3"
    } else if d == 4 {
        "4"
    } else if d == 5 {
        "5"
    } else if d == 6 {
        "6"
    } else if d == 7 {
        "7"
    } else if d == 8 {
        "8"
    } else {
        "9"
    }
}

fn push_udecimal(s: &mut String, m: u64)
    ensures
        final(s)@ == old(s)@ + spec_udecimal(m as int),
    decreases m,
{
    if m < 10 {
        s.append(digit_str(m));
    } else {
        push_udecimal(s, m / 10);
        s.append(digit_str(m % 10));
        proof {
            assert(s@ =~= old(s)@ + spec_udecimal(m as int));
        }
    }
}

/// The decimal spelling of `n` as an owned string.
pub fn decimal_string(n: i32) -> (r: String)
    ensures
        r@ == spec_decimal(n as int),
{
    let mut s = String::new();
    if n < 0 {
        s.append("-");
        let mag: u64 = (-(n as i64)) as u64;
        push_udecimal(&mut s, mag);
        proof {
            assert(s@ =~= spec_decimal(n as int));
        }
    } else {
        push_udecimal(&mut s, n as u64);
        proof {
            assert(s@ =~= spec_decimal(n as int));
        }
    }
    s
}

/// The degree label for the semitone offset `interval`, as the renderer
/// prints it next to a chord tone.
pub fn get_interval_text(interval: i32) -> (r: String)
    ensures
        r@ == spec_interval_text(interval as int),
{
    if interval == 0 {
        String::from_str("R")
    } else if interval == 1 {
        String::from_str("1a\n2m")
    } else if interval == 2 {
        String::from_str("2")
    } else if interval == 3 {
        String::from_str("2a\n3m")
    } else if interval == 4 {
        String::from_str("3")
    } else if interval == 5 {
        String::from_str("4")
    } else if interval == 6 {
        String::from_str("4a\n5m")
    } else if interval == 7 {
        String::from_str("5")
    } else if interval == 8 {
        String::from_str("5a\n6m")
    } else if interval == 9 {
        String::from_str("6")
    } else if interval == 10 {
        String::from_str("7")
    } else if interval == 11 {
        String::from_str("7M")
    } else if interval == 12 {
        String::from_str("8")
    } else {
        let mut s = String::from_str("(");
        let digits = decimal_string(interval);
        s.append(digits.as_str());
        s.append(")");
        proof {
            assert(s@ =~= spec_interval_text(interval as int));
        }
        s
    }
}

} // verus!
