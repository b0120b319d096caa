use vstd::prelude::*;
use vstd::string::*;

verus! {

/// The character that writes the digit `d`, for `d` below ten.
pub open spec fn digit(d: nat) -> char {
    if d == 0 {
        '0'
    } else if d == 1 {
        '1'
    } else if d == 2 {
        '2'
    } else if d == 3 {
        '3'
    } else if d == 4 {
        '4'
    } else if d == 5 {
        '5'
    } else if d == 6 {
        '6'
    } else if d == 7 {
        '7'
    } else if d == 8 {
        '8'
    } else {
        '9'
    }
}

/// The digits of `n` in the given base, most significant first and without
/// leading zeros; zero is written as a single `0`.
pub open spec fn numeral(n: nat, base: nat) -> Seq<char>
    decreases n,
{
    if base < 2 || n < base {
        seq![digit(n)]
    } else {
        proof {
            assert(n / base < n) by (nonlinear_arith)
                requires
                    2 <= base <= n,
            ;
        }
        numeral(n / base, base).push(digit(n % base))
    }
}

/// `n` written in base ten.
pub open spec fn decimal(n: nat) -> Seq<char> {
    numeral(n, 10)
}

/// `i` written in base ten, with a leading minus sign where it is negative.
pub open spec fn signed_decimal(i: int) -> Seq<char> {
    if i < 0 {
        seq!['-'] + decimal((-i) as nat)
    } else {
        decimal(i as nat)
    }
}

/// `n` written in base two behind the prefix `0b`.
pub open spec fn prefixed_binary(n: nat) -> Seq<char> {
    seq!['0', 'b'] + numeral(n, 2)
}

fn digit_str(d: u32) -> (s: &'static str)
    requires
        d < 10,
    ensures
        s@ == seq![digit(d as nat)],
{
    proof {
        reveal_strlit("0");
        reveal_strlit("1");
        reveal_strlit("2");
        reveal_strlit("3");
        reveal_strlit("4");
        reveal_strlit("5");
        reveal_strlit("6");
        reveal_strlit("7");
        reveal_strlit("8");
        reveal_strlit("9");
    }
    match d {
        0 => "0",
        1 => "1",
        2 => "2",
        3 => "3",
        4 => "4",
        5 => "5",
        6 => "6",
        7 => "7",
        8 => "8",
        _ => "9",
    }
}

/// Appends the digits of `n` in the given base to `out`.
pub(crate) fn push_numeral(out: &mut String, n: u32, base: u32)
    requires
        2 <= base <= 10,
    ensures
        final(out)@ == old(out)@ + numeral(n as nat, base as nat),
    decreases n,
{
    if n >= base {
        assert(n / base < n) by (nonlinear_arith)
            requires
                2 <= base <= n,
        ;
        push_numeral(out, n / base, base);
    } else {
        assert(n % base == n) by (nonlinear_arith)
            requires
                0 <= n < base,
        ;
    }
    out.append(digit_str(n % base));
    assert(out@ =~= old(out)@ + numeral(n as nat, base as nat));
}

/// Appends `n` in base ten to `out`.
pub(crate) fn push_decimal(out: &mut String, n: u32)
    ensures
        final(out)@ == old(out)@ + decimal(n as nat),
{
    push_numeral(out, n, 10);
}

/// Appends `i` in base ten to `out`, with its sign where it is negative.
pub(crate) fn push_signed_decimal(out: &mut String, i: i32)
    ensures
        final(out)@ == old(out)@ + signed_decimal(i as int),
{
    if i < 0 {
        proof {
            reveal_strlit("-");
        }
        out.append("-");
        let magnitude: u32 = (-(i as i64)) as u32;
        push_numeral(out, magnitude, 10);
    } else {
        push_numeral(out, i as u32, 10);
    }
}

/// Appends `n` in base two, behind the prefix `0b`, to `out`.
pub(crate) fn push_prefixed_binary(out: &mut String, n: u32)
    ensures
        final(out)@ == old(out)@ + prefixed_binary(n as nat),
{
    proof {
        reveal_strlit("0b");
    }
    out.append("0b");
    push_numeral(out, n, 2);
}

} // verus!
