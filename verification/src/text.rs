//! Text that the library writes: numbers in decimal.

use vstd::prelude::*;

verus! {

/// `String::push`: the character is appended to the end of the string.
#[verifier::external_body]
pub(crate) fn push_char(text: &mut String, c: char)
    ensures
        final(text)@ == old(text)@.push(c),
{
    text.push(c);
}

/// The digit for a value below ten.
pub open spec fn digit(value: nat) -> char {
    (0x30 + value) as char
}

/// A natural number in decimal, without leading zeros.
pub open spec fn decimal(n: nat) -> Seq<char>
    decreases n,
{
    if n < 10 {
        seq![digit(n)]
    } else {
        decimal(n / 10).push(digit(n % 10))
    }
}

/// An integer in decimal, with a minus sign if it is negative.
pub open spec fn signed_decimal(i: int) -> Seq<char> {
    if i < 0 {
        seq!['-'] + decimal((-i) as nat)
    } else {
        decimal(i as nat)
    }
}

/// Appends a number in decimal.
pub fn push_decimal(text: &mut String, n: u64)
    ensures
        final(text)@ == old(text)@ + decimal(n as nat),
{
    // the digits, least significant first
    let mut digits: Vec<u8> = Vec::new();
    let mut rest: u64 = n;
    let ghost mut low: Seq<char> = Seq::empty();
    while rest >= 10
        invariant
            decimal(n as nat) == decimal(rest as nat) + low,
            low.len() == digits@.len(),
            forall|i: int|
                0 <= i < low.len() ==> digits@[i] < 10 && low[low.len() - 1 - i] == digit(
                    digits@[i] as nat,
                ),
        decreases rest,
    {
        let d: u8 = (rest % 10) as u8;
        proof {
            let next = seq![digit(d as nat)] + low;
            assert(decimal(rest as nat) == decimal((rest / 10) as nat).push(digit(d as nat)));
            assert(decimal((rest / 10) as nat).push(digit(d as nat)) + low =~= decimal(
                (rest / 10) as nat,
            ) + next);
            low = next;
        }
        digits.push(d);
        rest = rest / 10;
    }
    let top: u8 = rest as u8;
    proof {
        low = seq![digit(top as nat)] + low;
        assert(decimal(n as nat) =~= low);
    }
    digits.push(top);
    let mut at: usize = digits.len();
    while at > 0
        invariant
            at <= digits@.len(),
            low.len() == digits@.len(),
            forall|i: int|
                0 <= i < low.len() ==> digits@[i] < 10 && low[low.len() - 1 - i] == digit(
                    digits@[i] as nat,
                ),
            text@ == old(text)@ + low.subrange(0, low.len() - at),
        decreases at,
    {
        at = at - 1;
        let c: char = (0x30u8 + digits[at]) as char;
        let ghost before = text@;
        push_char(text, c);
        proof {
            let k = low.len() - 1 - at;
            assert(low[k] == digit(digits@[at as int] as nat));
            assert(low.subrange(0, k + 1) =~= low.subrange(0, k).push(low[k]));
            assert(text@ =~= old(text)@ + low.subrange(0, k + 1));
        }
    }
    proof {
        assert(low.subrange(0, low.len() as int) =~= low);
    }
}

/// Appends an integer in decimal, with a minus sign if it is negative.
pub fn push_signed_decimal(text: &mut String, i: i64)
    ensures
        final(text)@ == old(text)@ + signed_decimal(i as int),
{
    if i < 0 {
        push_char(text, '-');
        let magnitude: u64 = if i == i64::MIN {
            0x8000_0000_0000_0000u64
        } else {
            (-i) as u64
        };
        push_decimal(text, magnitude);
        proof {
            assert(text@ =~= old(text)@ + signed_decimal(i as int));
        }
    } else {
        push_decimal(text, i as u64);
    }
}

/// A number in decimal.
pub fn decimal_string(n: u64) -> (text: String)
    ensures
        text@ == decimal(n as nat),
{
    let mut text = String::new();
    push_decimal(&mut text, n);
    proof {
        assert(Seq::<char>::empty() + decimal(n as nat) =~= decimal(n as nat));
    }
    text
}

} // verus!
