//! Decimal text of signed 64-bit integers, the form in which millisecond
//! timestamps travel in a request.

use vstd::prelude::*;
use vstd::string::*;

verus! {

/// The character that writes the digit `d`.
pub open spec fn digit_char(d: int) -> char {
    if d == 0 {
        '0'
    } else if d == 1 {
        '1'
    } else if d == 2 {
        '2'
    } else if d == 3 {
        '3'
    } else if d == 4 {
        '4'
    } else if d == 5 {
        '5'
    } else if d == 6 {
        '6'
    } else if d == 7 {
        '7'
    } else if d == 8 {
        '8'
    } else {
        '9'
    }
}

/// The digits of `n` in base ten, most significant first, without leading
/// zeros; zero is written `0`.
pub open spec fn digits(n: nat) -> Seq<char>
    decreases n,
{
    if n < 10 {
        seq![digit_char(n as int)]
    } else {
        digits(n / 10).push(digit_char((n % 10) as int))
    }
}

/// The decimal text of `n`: a minus sign before the digits of a negative
/// number, nothing before the others.
pub open spec fn decimal(n: int) -> Seq<char> {
    if n < 0 {
        seq!['-'] + digits((-n) as nat)
    } else {
        digits(n as nat)
    }
}

/// The one-character text of a single digit.
fn digit_str(d: u64) -> (r: &'static str)
    requires
        d < 10,
    ensures
        r@ == seq![digit_char(d as int)],
{
    proof {
        reveal_strlit("0");
        reveal_strlit("1");
        reveal_strlit("2");
        reveal_strlit("3");
        reveal_strlit("4");
        reveal_strlit("5");
        reveal_strlit("6");
        reveal_strlit("7");
        reveal_strlit("8");
        reveal_strlit("9");
    }
    let r = if d == 0 {
        "0"
    } else if d == 1 {
        "1"
    } else if d == 2 {
        "2"
    } else if d == 3 {
        "3"
    } else if d == 4 {
        "4"
    } else if d == 5 {
        "5"
    } else if d == 6 {
        "6"
    } else if d == 7 {
        "7"
    } else if d == 8 {
        "8"
    } else {
        "9"
    };
    assert(r@ =~= seq![digit_char(d as int)]);
    r
}

/// The digits of an unsigned magnitude.
pub fn magnitude_to_string(n: u64) -> (r: String)
    ensures
        r@ == digits(n as nat),
{
    let mut rest: u64 = n / 10;
    let mut text: String = String::from_str(digit_str(n % 10));
    // digits(n) is digits(rest) followed by text.
    while rest > 0
        invariant
            digits(n as nat) == (if rest == 0 {
                text@
            } else {
                digits(rest as nat) + text@
            }),
        decreases rest,
    {
        let head = String::from_str(digit_str(rest % 10));
        proof {
            let d = seq![digit_char((rest % 10) as int)];
            if rest >= 10 {
                assert(digits(rest as nat) + text@ =~= digits((rest / 10) as nat) + (d + text@));
            } else {
                assert(digits(rest as nat) + text@ =~= d + text@);
            }
        }
        text = head.concat(text.as_str());
        rest = rest / 10;
    }
    text
}

/// The decimal text of `n`, as `decimal` defines it.
pub fn to_decimal_string(n: i64) -> (r: String)
    ensures
        r@ == decimal(n as int),
{
    if n < 0 {
        // -(n + 1) fits where -n may not.
        let magnitude: u64 = ((-(n + 1)) as u64) + 1;
        let body = magnitude_to_string(magnitude);
        proof {
            reveal_strlit("-");
            assert("-"@ =~= seq!['-']);
        }
        String::from_str("-").concat(body.as_str())
    } else {
        magnitude_to_string(n as u64)
    }
}

} // verus!
