//! Typed failures of the session automaton: the only channel by which it
//! reports why a login or navigation did not reach its goal.

use vstd::prelude::*;
use vstd::string::StringExecFns;

verus! {

/// Why a session failed: the remote explicitly rejected the credentials,
/// or an expected screen marker never appeared within budget — the number
/// says at which protocol step.
#[derive(Clone, Copy, Debug, PartialEq, Eq, Structural)]
pub enum CrawlerError {
    UsernameOrPasswordWrong,
    SomethingWrong(u32),
}

/// The character of one decimal digit.
pub open spec fn digit_char(d: int) -> char {
    if d == 0 {
        '0'
    } else if d == 1 {
        '1'
    } else if d == 2 {
        '2'
    } else if d == 3 {
        '3'
    } else if d == 4 {
        '4'
    } else if d == 5 {
        '5'
    } else if d == 6 {
        '6'
    } else if d == 7 {
        '7'
    } else if d == 8 {
        '8'
    } else {
        '9'
    }
}

/// Decimal representation of `n`, most significant digit first.
pub open spec fn dec_seq(n: int) -> Seq<char>
    recommends
        n >= 0,
    decreases n,
{
    if n < 10 {
        seq![digit_char(n)]
    } else {
        dec_seq(n / 10).push(digit_char(n % 10))
    }
}

/// The one-character string of a decimal digit.
fn digit_str(d: u32) -> (s: &'static str)
    requires
        d < 10,
    ensures
        s@ == seq![digit_char(d as int)],
{
    if d == 0 {
        proof {
            reveal_strlit("0");
            assert("0"@ =~= seq![digit_char(0)]);
        }
        "0"
    } else if d == 1 {
        proof {
            reveal_strlit("1");
            assert("1"@ =~= seq![digit_char(1)]);
        }
        "1"
    } else if d == 2 {
        proof {
            reveal_strlit("2");
            assert("2"@ =~= seq![digit_char(2)]);
        }
        "2"
    } else if d == 3 {
        proof {
            reveal_strlit("3");
            assert("3"@ =~= seq![digit_char(3)]);
        }
        "3"
    } else if d == 4 {
        proof {
            reveal_strlit("4");
            assert("4"@ =~= seq![digit_char(4)]);
        }
        "4"
    } else if d == 5 {
        proof {
            reveal_strlit("5");
            assert("5"@ =~= seq![digit_char(5)]);
        }
        "5"
    } else if d == 6 {
        proof {
            reveal_strlit("6");
            assert("6"@ =~= seq![digit_char(6)]);
        }
        "6"
    } else if d == 7 {
        proof {
            reveal_strlit("7");
            assert("7"@ =~= seq![digit_char(7)]);
        }
        "7"
    } else if d == 8 {
        proof {
            reveal_strlit("8");
            assert("8"@ =~= seq![digit_char(8)]);
        }
        "8"
    } else {
        proof {
            reveal_strlit("9");
            assert("9"@ =~= seq![digit_char(9)]);
        }
        "9"
    }
}

/// Appends the decimal representation of `n`.
fn push_dec(out: &mut String, n: u32)
    ensures
        final(out)@ == old(out)@ + dec_seq(n as int),
    decreases n,
{
    if n >= 10 {
        push_dec(out, n / 10);
    }
    let ghost before = out@;
    out.append(digit_str(n % 10));
    proof {
        if n >= 10 {
            assert(old(out)@ + dec_seq(n as int) =~= (old(out)@ + dec_seq(n as int / 10)) + seq![
                digit_char(n as int % 10),
            ]);
        } else {
            assert(old(out)@ + dec_seq(n as int) =~= old(out)@ + seq![digit_char(n as int % 10)]);
        }
    }
}

impl CrawlerError {
    /// The operator-facing message of this failure.
    pub open spec fn spec_message(self) -> Seq<char> {
        match self {
            CrawlerError::UsernameOrPasswordWrong => "帳號或密碼錯誤"@,
            CrawlerError::SomethingWrong(code) => "好像哪裡怪怪的？ Code: "@ + dec_seq(
                code as int,
            ),
        }
    }

    /// Renders the failure for the operator.
    pub fn to_string(&self) -> (r: String)
        ensures
            r@ == self.spec_message(),
    {
        match self {
            CrawlerError::UsernameOrPasswordWrong => String::from_str("帳號或密碼錯誤"),
            CrawlerError::SomethingWrong(code) => {
                let mut s = String::from_str("好像哪裡怪怪的？ Code: ");
                push_dec(&mut s, *code);
                s
            },
        }
    }
}

} // verus!
