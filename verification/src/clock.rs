//! Times as the own UI shows them.

use vstd::prelude::*;

use crate::chars;

verus! {

/// A number below 100 with two digits: `05`.
pub open spec fn two_digits(n: nat) -> Seq<char> {
    if n < 10 {
        seq!['0'] + chars::decimal(n)
    } else {
        chars::decimal(n)
    }
}

/// Whole seconds as `11:15`, or `1:02:03` from one hour on.
pub open spec fn clock_text(total: nat) -> Seq<char> {
    let hours = total / 3600;
    let minutes = (total % 3600) / 60;
    let secs = total % 60;
    if hours > 0 {
        chars::decimal(hours) + seq![':'] + two_digits(minutes) + seq![':'] + two_digits(secs)
    } else {
        chars::decimal(minutes) + seq![':'] + two_digits(secs)
    }
}

/// The whole seconds of a time in milliseconds; a negative time is zero.
pub open spec fn whole_seconds(millis: int) -> nat {
    if millis <= 0 {
        0
    } else {
        (millis / 1000) as nat
    }
}

fn two_digits_of(n: u64) -> (out: Vec<char>)
    requires
        n < 100,
    ensures
        out@ == two_digits(n as nat),
{
    let digits = chars::decimal_of(n);
    if n < 10 {
        let mut zero: Vec<char> = Vec::new();
        zero.push('0');
        chars::concat(zero.as_slice(), digits.as_slice())
    } else {
        digits
    }
}

/// A time in milliseconds as `11:15` or `1:02:03`, cut to the whole second. A negative
/// time shows as `0:00`. Used by the comment list, the control bar and the head bar.
pub fn timestamp(millis: i64) -> (r: String)
    ensures
        r@ == clock_text(whole_seconds(millis as int)),
{
    let total: u64 = if millis <= 0 {
        0
    } else {
        (millis / 1000) as u64
    };
    let hours = total / 3600;
    let minutes = (total % 3600) / 60;
    let secs = total % 60;
    let mut colon: Vec<char> = Vec::new();
    colon.push(':');
    let tail = chars::concat(colon.as_slice(), two_digits_of(secs).as_slice());
    let out = if hours > 0 {
        let head = chars::concat(chars::decimal_of(hours).as_slice(), colon.as_slice());
        let middle = chars::concat(head.as_slice(), two_digits_of(minutes).as_slice());
        proof {
            assert(colon@ =~= seq![':']);
        }
        chars::concat(middle.as_slice(), tail.as_slice())
    } else {
        proof {
            assert(colon@ =~= seq![':']);
        }
        chars::concat(chars::decimal_of(minutes).as_slice(), tail.as_slice())
    };
    proof {
        assert(out@ =~= clock_text(whole_seconds(millis as int)));
    }
    chars::string_of(out.as_slice())
}

} // verus!
