//! Decimal notation of integers, as it appears in cache keys and request
//! paths.

use vstd::prelude::*;
use vstd::string::*;

verus! {

/// The character of one decimal digit.
pub open spec fn digit_char(d: int) -> char
    recommends
        0 <= d < 10,
{
    if d == 0 {
        '0'
    } else if d == 1 {
        '1'
    } else if d == 2 {
        '2'
    } else if d == 3 {
        '3'
    } else if d == 4 {
        '4'
    } else if d == 5 {
        '5'
    } else if d == 6 {
        '6'
    } else if d == 7 {
        '7'
    } else if d == 8 {
        '8'
    } else {
        '9'
    }
}

/// The digits of a natural number, most significant first, without leading
/// zeros; zero is the single digit `0`.
pub open spec fn digits(n: nat) -> Seq<char>
    decreases n,
{
    if n < 10 {
        seq![digit_char(n as int)]
    } else {
        digits(n / 10).push(digit_char((n % 10) as int))
    }
}

/// The decimal notation of an integer: a minus sign for a negative number,
/// then the digits of its magnitude.
pub open spec fn decimal_text(n: int) -> Seq<char> {
    if n < 0 {
        seq!['-'] + digits((-n) as nat)
    } else {
        digits(n as nat)
    }
}

/// The number that one digit stands for; 0 for any other character.
pub open spec fn digit_value(c: char) -> nat {
    if c == '1' {
        1
    } else if c == '2' {
        2
    } else if c == '3' {
        3
    } else if c == '4' {
        4
    } else if c == '5' {
        5
    } else if c == '6' {
        6
    } else if c == '7' {
        7
    } else if c == '8' {
        8
    } else if c == '9' {
        9
    } else {
        0
    }
}

/// The number that a run of digits spells.
pub open spec fn digits_value(s: Seq<char>) -> nat
    decreases s.len(),
{
    if s.len() == 0 {
        0
    } else {
        10 * digits_value(s.drop_last()) + digit_value(s.last())
    }
}

/// The digits of a number spell that number, and none of them is a minus
/// sign.
pub proof fn lemma_digits_spell(n: nat)
    ensures
        digits_value(digits(n)) == n,
        digits(n).len() >= 1,
        forall|i: int| 0 <= i < digits(n).len() ==> digits(n)[i] != '-',
    decreases n,
{
    if n < 10 {
        assert(digits(n).drop_last() =~= Seq::<char>::empty());
        assert(digits_value(digits(n).drop_last()) == 0);
        assert(digits(n).last() == digit_char(n as int));
    } else {
        lemma_digits_spell(n / 10);
        assert(digits(n).drop_last() =~= digits(n / 10));
        assert(digits(n).last() == digit_char((n % 10) as int));
    }
}

/// Two integers with the same decimal notation are the same integer.
pub proof fn lemma_decimal_injective(a: int, b: int)
    requires
        decimal_text(a) == decimal_text(b),
    ensures
        a == b,
{
    let na = if a < 0 {
        (-a) as nat
    } else {
        a as nat
    };
    let nb = if b < 0 {
        (-b) as nat
    } else {
        b as nat
    };
    lemma_digits_spell(na);
    lemma_digits_spell(nb);
    if a < 0 && b < 0 {
        assert(digits(na) =~= decimal_text(a).subrange(1, decimal_text(a).len() as int));
        assert(digits(nb) =~= decimal_text(b).subrange(1, decimal_text(b).len() as int));
    } else if a < 0 {
        assert(decimal_text(a)[0] == '-');
        assert(decimal_text(b)[0] == digits(nb)[0]);
    } else if b < 0 {
        assert(decimal_text(b)[0] == '-');
        assert(decimal_text(a)[0] == digits(na)[0]);
    }
}

fn digit_str(d: u32) -> (s: &'static str)
    requires
        d < 10,
    ensures
        s@ == seq![digit_char(d as int)],
{
    proof {
        reveal_strlit("0");
        reveal_strlit("1");
        reveal_strlit("2");
        reveal_strlit("3");
        reveal_strlit("4");
        reveal_strlit("5");
        reveal_strlit("6");
        reveal_strlit("7");
        reveal_strlit("8");
        reveal_strlit("9");
    }
    let s = match d {
        0 => "0",
        1 => "1",
        2 => "2",
        3 => "3",
        4 => "4",
        5 => "5",
        6 => "6",
        7 => "7",
        8 => "8",
        _ => "9",
    };
    s
}

fn push_digits(out: &mut String, n: u32)
    ensures
        final(out)@ == old(out)@ + digits(n as nat),
    decreases n,
{
    if n >= 10 {
        push_digits(out, n / 10);
    }
    out.append(digit_str(n % 10));
}

/// Writes an integer in decimal notation.
pub fn decimal(n: i32) -> (s: String)
    ensures
        s@ == decimal_text(n as int),
{
    let mut out = String::new();
    if n < 0 {
        proof {
            reveal_strlit("-");
        }
        out.append("-");
        let wide: i64 = n as i64;
        let magnitude: u32 = (0 - wide) as u32;
        push_digits(&mut out, magnitude);
    } else {
        push_digits(&mut out, n as u32);
    }
    out
}

} // verus!
