//! Small verified text helpers shared by the other modules.

use vstd::prelude::*;

verus! {

/// Whether two strings hold the same characters.
pub fn same_text(a: &str, b: &str) -> (res: bool)
    ensures
        res == (a@ == b@),
{
    let x: String = a.to_owned();
    let y: String = b.to_owned();
    x == y
}

/// The decimal digit character for `d`, for `d` below ten.
pub open spec fn digit_char(d: nat) -> char {
    if d == 0 {
        '0'
    } else if d == 1 {
        '1'
    } else if d == 2 {
        '2'
    } else if d == 3 {
        '3'
    } else if d == 4 {
        '4'
    } else if d == 5 {
        '5'
    } else if d == 6 {
        '6'
    } else if d == 7 {
        '7'
    } else if d == 8 {
        '8'
    } else {
        '9'
    }
}

/// The decimal notation of `n`, without leading zeros.
pub open spec fn decimal(n: nat) -> Seq<char>
    decreases n,
{
    if n < 10 {
        seq![digit_char(n)]
    } else {
        decimal(n / 10).push(digit_char(n % 10))
    }
}

/// The decimal notation of `i`, with a leading minus sign when negative.
pub open spec fn signed_decimal(i: int) -> Seq<char> {
    if i < 0 {
        seq!['-'] + decimal((-i) as nat)
    } else {
        decimal(i as nat)
    }
}

fn digit_text(d: u64) -> (res: &'static str)
    requires
        d < 10,
    ensures
        res@ == seq![digit_char(d as nat)],
{
    if d == 0 {
        proof {
            reveal_strlit("0");
        }
        "0"
    } else if d == 1 {
        proof {
            reveal_strlit("1");
        }
        "1"
    } else if d == 2 {
        proof {
            reveal_strlit("2");
        }
        "2"
    } else if d == 3 {
        proof {
            reveal_strlit("3");
        }
        "3"
    } else if d == 4 {
        proof {
            reveal_strlit("4");
        }
        "4"
    } else if d == 5 {
        proof {
            reveal_strlit("5");
        }
        "5"
    } else if d == 6 {
        proof {
            reveal_strlit("6");
        }
        "6"
    } else if d == 7 {
        proof {
            reveal_strlit("7");
        }
        "7"
    } else if d == 8 {
        proof {
            reveal_strlit("8");
        }
        "8"
    } else {
        proof {
            reveal_strlit("9");
        }
        "9"
    }
}

/// The decimal notation of an unsigned number.
pub fn decimal_text(n: u64) -> (res: String)
    ensures
        res@ == decimal(n as nat),
{
    let ghost n0: nat = n as nat;
    let mut m: u64 = n;
    let mut acc: String = String::new();
    loop
        invariant
            n0 == n as nat,
            decimal(n0) == decimal(m as nat) + acc@,
        decreases m,
    {
        if m < 10 {
            let head: String = String::from_str(digit_text(m));
            assert(decimal(m as nat) == head@);
            return head.concat(acc.as_str());
        }
        let d: u64 = m % 10;
        let next: String = String::from_str(digit_text(d)).concat(acc.as_str());
        proof {
            assert(decimal(m as nat) == decimal((m / 10) as nat).push(digit_char(d as nat)));
            assert(decimal(m as nat) + acc@ =~= decimal((m / 10) as nat) + next@);
        }
        acc = next;
        m = m / 10;
    }
}

/// The decimal notation of a signed number.
pub fn signed_decimal_text(i: i64) -> (res: String)
    ensures
        res@ == signed_decimal(i as int),
{
    if i < 0 {
        let magnitude: u64 = (0i128 - (i as i128)) as u64;
        let digits: String = decimal_text(magnitude);
        proof {
            reveal_strlit("-");
        }
        String::from_str("-").concat(digits.as_str())
    } else {
        decimal_text(i as u64)
    }
}

} // verus!
