//! Decimal text of unsigned integers.

use vstd::prelude::*;
use vstd::string::*;

verus! {

/// The character that stands for the digit `d`; `'0'` for anything above nine.
pub open spec fn digit(d: nat) -> char {
    if d == 1 {
        '1'
    } else if d == 2 {
        '2'
    } else if d == 3 {
        '3'
    } else if d == 4 {
        '4'
    } else if d == 5 {
        '5'
    } else if d == 6 {
        '6'
    } else if d == 7 {
        '7'
    } else if d == 8 {
        '8'
    } else if d == 9 {
        '9'
    } else {
        '0'
    }
}

/// The decimal text of `n`, most significant digit first, without leading zeros.
pub open spec fn digits(n: nat) -> Seq<char>
    decreases n,
{
    if n < 10 {
        seq![digit(n)]
    } else {
        digits(n / 10).push(digit(n % 10))
    }
}

/// The digit that `c` stands for; zero for a character that is no digit.
pub open spec fn digit_value(c: char) -> nat {
    if c == '1' {
        1
    } else if c == '2' {
        2
    } else if c == '3' {
        3
    } else if c == '4' {
        4
    } else if c == '5' {
        5
    } else if c == '6' {
        6
    } else if c == '7' {
        7
    } else if c == '8' {
        8
    } else if c == '9' {
        9
    } else {
        0
    }
}

/// The number that a decimal text stands for.
pub open spec fn value(text: Seq<char>) -> nat
    decreases text.len(),
{
    if text.len() == 0 {
        0
    } else {
        10 * value(text.drop_last()) + digit_value(text.last())
    }
}

/// Digits pushed least significant first, read back most significant first.
spec fn unwound(stack: Seq<u8>) -> Seq<char> {
    Seq::new(stack.len(), |i: int| digit(stack[stack.len() - 1 - i] as nat))
}

/// Reading the decimal text of a number gives the number back, so two numbers
/// never share a text.
pub proof fn lemma_value_of_digits(n: nat)
    ensures
        value(digits(n)) == n,
    decreases n,
{
    if n < 10 {
        assert(digits(n).drop_last() =~= Seq::<char>::empty());
        assert(value(digits(n).drop_last()) == 0);
    } else {
        lemma_value_of_digits(n / 10);
        assert(digits(n).drop_last() =~= digits(n / 10));
    }
}

/// A decimal text is never empty and holds digits only.
pub proof fn lemma_digits_shape(n: nat)
    ensures
        digits(n).len() >= 1,
        forall|i: int| 0 <= i < digits(n).len() ==> '0' <= #[trigger] digits(n)[i] <= '9',
        n > 0 ==> digits(n)[0] != '0',
    decreases n,
{
    if n >= 10 {
        lemma_digits_shape(n / 10);
    }
}

fn digit_text(d: u8) -> (text: &'static str)
    requires
        d < 10,
    ensures
        text@ == seq![digit(d as nat)],
{
    proof {
        reveal_strlit("0");
        reveal_strlit("1");
        reveal_strlit("2");
        reveal_strlit("3");
        reveal_strlit("4");
        reveal_strlit("5");
        reveal_strlit("6");
        reveal_strlit("7");
        reveal_strlit("8");
        reveal_strlit("9");
    }
    let text = match d {
        0 => "0",
        1 => "1",
        2 => "2",
        3 => "3",
        4 => "4",
        5 => "5",
        6 => "6",
        7 => "7",
        8 => "8",
        _ => "9",
    };
    assert(text@ =~= seq![digit(d as nat)]);
    text
}

/// Writes `n` in decimal.
pub fn render(n: u64) -> (text: String)
    ensures
        text@ == digits(n as nat),
{
    let mut stack: Vec<u8> = Vec::new();
    let mut rest: u64 = n;
    while rest >= 10
        invariant
            digits(n as nat) == digits(rest as nat) + unwound(stack@),
            forall|i: int| 0 <= i < stack.len() ==> stack[i] < 10,
        decreases rest,
    {
        let low: u8 = (rest % 10) as u8;
        proof {
            let grown = stack@.push(low);
            assert(unwound(grown) =~= seq![digit(low as nat)] + unwound(stack@));
            assert(digits((rest / 10) as nat) + unwound(grown) =~= digits(rest as nat) + unwound(
                stack@,
            ));
        }
        stack.push(low);
        rest = rest / 10;
    }
    let mut text = String::from_str(digit_text(rest as u8));
    let mut left: usize = stack.len();
    while left > 0
        invariant
            left <= stack.len(),
            rest < 10,
            forall|i: int| 0 <= i < stack.len() ==> stack[i] < 10,
            text@ == digits(rest as nat) + unwound(stack@).subrange(0, stack.len() - left),
        decreases left,
    {
        left = left - 1;
        let piece = digit_text(stack[left]);
        proof {
            assert(unwound(stack@).subrange(0, stack.len() - left) =~= unwound(stack@).subrange(
                0,
                stack.len() - left - 1,
            ) + piece@);
        }
        text.append(piece);
    }
    assert(unwound(stack@).subrange(0, stack.len() as int) =~= unwound(stack@));
    text
}

} // verus!
