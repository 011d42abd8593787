//! The failure messages the deadline controller synthesizes, built and
//! proved character by character.

use vstd::prelude::*;
use vstd::string::StringExecFns;

verus! {

/// The character for the decimal digit `d`.
pub open spec fn digit_char(d: nat) -> char {
    if d == 0 {
        '0'
    } else if d == 1 {
        '1'
    } else if d == 2 {
        '2'
    } else if d == 3 {
        '3'
    } else if d == 4 {
        '4'
    } else if d == 5 {
        '5'
    } else if d == 6 {
        '6'
    } else if d == 7 {
        '7'
    } else if d == 8 {
        '8'
    } else {
        '9'
    }
}

/// The decimal digits of `n`, most significant first, with no leading zeros
/// and the single digit `0` for zero.
pub open spec fn spec_decimal(n: nat) -> Seq<char>
    decreases n,
{
    if n < 10 {
        seq![digit_char(n)]
    } else {
        spec_decimal(n / 10).push(digit_char(n % 10))
    }
}

/// The message reported when the deadline elapses first.
pub open spec fn spec_timeout_message(duration_ms: nat) -> Seq<char> {
    "Function timed out after "@ + spec_decimal(duration_ms) + "ms"@
}

/// The message reported when the handoff from the operation's unit of
/// execution breaks down, around the backend's description of the breakdown.
pub open spec fn spec_channel_message(detail: Seq<char>) -> Seq<char> {
    "Channel error: "@ + detail
}

fn digit_str(d: u64) -> (s: &'static str)
    requires
        d < 10,
    ensures
        s@ == seq![digit_char(d as nat)],
{
    if d == 0 {
        proof {
            reveal_strlit("0");
            assert("0"@ =~= seq![digit_char(0nat)]);
        }
        "0"
    } else if d == 1 {
        proof {
            reveal_strlit("1");
            assert("1"@ =~= seq![digit_char(1nat)]);
        }
        "1"
    } else if d == 2 {
        proof {
            reveal_strlit("2");
            assert("2"@ =~= seq![digit_char(2nat)]);
        }
        "2"
    } else if d == 3 {
        proof {
            reveal_strlit("3");
            assert("3"@ =~= seq![digit_char(3nat)]);
        }
        "3"
    } else if d == 4 {
        proof {
            reveal_strlit("4");
            assert("4"@ =~= seq![digit_char(4nat)]);
        }
        "4"
    } else if d == 5 {
        proof {
            reveal_strlit("5");
            assert("5"@ =~= seq![digit_char(5nat)]);
        }
        "5"
    } else if d == 6 {
        proof {
            reveal_strlit("6");
            assert("6"@ =~= seq![digit_char(6nat)]);
        }
        "6"
    } else if d == 7 {
        proof {
            reveal_strlit("7");
            assert("7"@ =~= seq![digit_char(7nat)]);
        }
        "7"
    } else if d == 8 {
        proof {
            reveal_strlit("8");
            assert("8"@ =~= seq![digit_char(8nat)]);
        }
        "8"
    } else {
        proof {
            reveal_strlit("9");
            assert("9"@ =~= seq![digit_char(9nat)]);
        }
        "9"
    }
}

/// Append the decimal digits of `n` to `out`.
fn push_decimal(n: u64, out: &mut String)
    ensures
        final(out)@ == old(out)@ + spec_decimal(n as nat),
    decreases n,
{
    let ghost before = out@;
    if n >= 10 {
        push_decimal(n / 10, out);
    }
    out.append(digit_str(n % 10));
    proof {
        if n < 10 {
            assert(n % 10 == n);
            assert(before + seq![digit_char(n as nat)] =~= before + spec_decimal(n as nat));
        } else {
            assert((n / 10) as nat == (n as nat) / 10);
            assert((n % 10) as nat == (n as nat) % 10);
            assert((before + spec_decimal((n as nat) / 10)) + seq![
                digit_char((n as nat) % 10),
            ] =~= before + spec_decimal(n as nat));
        }
    }
}

/// The decimal rendering of `n`.
pub fn decimal_string(n: u64) -> (s: String)
    ensures
        s@ == spec_decimal(n as nat),
{
    let mut s = String::new();
    push_decimal(n, &mut s);
    proof {
        assert(Seq::<char>::empty() + spec_decimal(n as nat) =~= spec_decimal(n as nat));
    }
    s
}

/// Build the deadline controller's timeout message for the configured
/// duration.
pub fn timeout_message(duration_ms: u64) -> (s: String)
    ensures
        s@ == spec_timeout_message(duration_ms as nat),
{
    let mut s = "Function timed out after ".to_owned();
    push_decimal(duration_ms, &mut s);
    s.append("ms");
    proof {
        assert(("Function timed out after "@ + spec_decimal(duration_ms as nat)) + "ms"@
            =~= spec_timeout_message(duration_ms as nat));
    }
    s
}

/// Build the deadline controller's communication-failure message around the
/// backend's description of the breakdown.
pub fn channel_message(detail: &str) -> (s: String)
    ensures
        s@ == spec_channel_message(detail@),
{
    let mut s = "Channel error: ".to_owned();
    s.append(detail);
    s
}

} // verus!
