//! Axis labels: a team number written out in decimal.

use vstd::prelude::*;
use vstd::string::*;

verus! {

/// The character that stands for a digit.
pub open spec fn digit_char(digit: nat) -> char {
    if digit == 0 {
        '0'
    } else if digit == 1 {
        '1'
    } else if digit == 2 {
        '2'
    } else if digit == 3 {
        '3'
    } else if digit == 4 {
        '4'
    } else if digit == 5 {
        '5'
    } else if digit == 6 {
        '6'
    } else if digit == 7 {
        '7'
    } else if digit == 8 {
        '8'
    } else {
        '9'
    }
}

/// The decimal digits of a number, most significant first, without leading
/// zeros; zero is the single digit 0.
pub open spec fn digits(n: nat) -> Seq<char>
    decreases n,
{
    if n < 10 {
        seq![digit_char(n)]
    } else {
        digits(n / 10).push(digit_char(n % 10))
    }
}

/// A whole number in decimal, with a minus sign in front if it is negative.
pub open spec fn decimal(n: int) -> Seq<char> {
    if n < 0 {
        seq!['-'] + digits((-n) as nat)
    } else {
        digits(n as nat)
    }
}

/// The text of one digit.
fn digit_text(digit: u32) -> (text: &'static str)
    requires
        digit < 10,
    ensures
        text@ == seq![digit_char(digit as nat)],
{
    proof {
        reveal_strlit("0");
        reveal_strlit("1");
        reveal_strlit("2");
        reveal_strlit("3");
        reveal_strlit("4");
        reveal_strlit("5");
        reveal_strlit("6");
        reveal_strlit("7");
        reveal_strlit("8");
        reveal_strlit("9");
    }
    let text = if digit == 0 {
        "0"
    } else if digit == 1 {
        "1"
    } else if digit == 2 {
        "2"
    } else if digit == 3 {
        "3"
    } else if digit == 4 {
        "4"
    } else if digit == 5 {
        "5"
    } else if digit == 6 {
        "6"
    } else if digit == 7 {
        "7"
    } else if digit == 8 {
        "8"
    } else {
        "9"
    };
    assert(text@ =~= seq![digit_char(digit as nat)]);
    text
}

/// The label a team is shown under: its number in decimal.
pub fn team_label(team: i32) -> (label: String)
    ensures
        label@ == decimal(team as int),
{
    let magnitude: u32 = if team < 0 {
        (-(team as i64)) as u32
    } else {
        team as u32
    };
    let mut rest: u32 = magnitude / 10;
    let mut label = String::from_str(digit_text(magnitude % 10));
    while rest > 0
        invariant
            rest > 0 ==> digits(magnitude as nat) == digits(rest as nat) + label@,
            rest == 0 ==> digits(magnitude as nat) == label@,
        decreases rest,
    {
        let digit = String::from_str(digit_text(rest % 10));
        proof {
            let shorter = digits((rest / 10) as nat);
            if rest >= 10 {
                assert(shorter.push(digit_char((rest % 10) as nat)) + label@ == shorter + (digit@
                    + label@));
            } else {
                assert(digits(rest as nat) + label@ == digit@ + label@);
            }
        }
        label = digit.concat(label.as_str());
        rest = rest / 10;
    }
    if team < 0 {
        proof {
            reveal_strlit("-");
            assert("-"@ =~= seq!['-']);
        }
        label = String::from_str("-").concat(label.as_str());
    }
    label
}

} // verus!
