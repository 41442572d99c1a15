//! What the Bedrock listener advertises.

use vstd::prelude::*;
use vstd::string::StringExecFns;

verus! {

/// The decimal character of a digit.
pub open spec fn digit_char(d: nat) -> char {
    if d == 0 {
        '0'
    } else if d == 1 {
        '1'
    } else if d == 2 {
        '2'
    } else if d == 3 {
        '3'
    } else if d == 4 {
        '4'
    } else if d == 5 {
        '5'
    } else if d == 6 {
        '6'
    } else if d == 7 {
        '7'
    } else if d == 8 {
        '8'
    } else {
        '9'
    }
}

/// The decimal digits of `n`, most significant first, without leading zeros.
pub open spec fn decimal(n: nat) -> Seq<char>
    decreases n,
{
    if n < 10 {
        seq![digit_char(n)]
    } else {
        decimal(n / 10).push(digit_char(n % 10))
    }
}

/// The one-character string of a digit.
fn digit_str(d: u64) -> (s: &'static str)
    requires
        d < 10,
    ensures
        s@ == seq![digit_char(d as nat)],
{
    proof {
        reveal_strlit("0");
        reveal_strlit("1");
        reveal_strlit("2");
        reveal_strlit("3");
        reveal_strlit("4");
        reveal_strlit("5");
        reveal_strlit("6");
        reveal_strlit("7");
        reveal_strlit("8");
        reveal_strlit("9");
    }
    match d {
        0 => "0",
        1 => "1",
        2 => "2",
        3 => "3",
        4 => "4",
        5 => "5",
        6 => "6",
        7 => "7",
        8 => "8",
        _ => "9",
    }
}

/// Appends the decimal digits of `n`.
fn append_decimal(s: &mut String, n: u64)
    ensures
        final(s)@ == old(s)@ + decimal(n as nat),
    decreases n,
{
    if n >= 10 {
        append_decimal(s, n / 10);
    }
    s.append(digit_str(n % 10));
    proof {
        if n >= 10 {
            assert(decimal(n as nat) == decimal((n / 10) as nat).push(digit_char((n % 10) as nat)));
        }
    }
}

/// The MOTD line the Bedrock listener answers unconnected pings with.
pub open spec fn spec_bedrock_motd(motd: Seq<char>, max_players: u64) -> Seq<char> {
    "MCPE;"@ + motd + ";12;1.20.0;0;"@ + decimal(max_players as nat)
        + ";12345;Kojacoord;Survival;1;19132;19133;"@
}

/// Builds the MOTD line the Bedrock listener answers unconnected pings with:
/// edition, message of the day, protocol 12, version 1.20.0, no players
/// online, the player limit, server id, name, game mode and ports.
pub fn bedrock_motd(motd: &str, max_players: u64) -> (line: String)
    ensures
        line@ == spec_bedrock_motd(motd@, max_players),
{
    let mut line = String::from_str("MCPE;");
    line.append(motd);
    line.append(";12;1.20.0;0;");
    append_decimal(&mut line, max_players);
    line.append(";12345;Kojacoord;Survival;1;19132;19133;");
    line
}

} // verus!
