//! Decimal text of integers.

use vstd::prelude::*;

verus! {

/// The decimal digit for `d`.
pub open spec fn digit(d: nat) -> char
    recommends
        d < 10,
{
    "0123456789"@[d as int]
}

/// The decimal numeral of `n`: no sign, no leading zeros, `0` for zero.
pub open spec fn natural_text(n: nat) -> Seq<char>
    decreases n,
{
    if n < 10 {
        seq![digit(n)]
    } else {
        natural_text(n / 10).push(digit(n % 10))
    }
}

/// The decimal numeral of `n`, with a leading `-` when it is negative.
pub open spec fn integer_text(n: int) -> Seq<char> {
    if n < 0 {
        "-"@ + natural_text((-n) as nat)
    } else {
        natural_text(n as nat)
    }
}

/// Appends the numeral of `n`.
pub fn push_natural(out: &mut String, n: u128)
    ensures
        final(out)@ == old(out)@ + natural_text(n as nat),
    decreases n,
{
    proof {
        reveal_strlit("0123456789");
    }
    if n >= 10 {
        push_natural(out, n / 10);
    }
    let d: usize = (n % 10) as usize;
    let ghost before = out@;
    out.append("0123456789".substring_ascii(d, d + 1));
    assert(out@ =~= before.push(digit(d as nat)));
    assert(out@ =~= old(out)@ + natural_text(n as nat));
}

/// Appends the numeral of `n`, signed if negative.
pub fn push_integer(out: &mut String, n: i128)
    ensures
        final(out)@ == old(out)@ + integer_text(n as int),
{
    if n < 0 {
        out.append("-");
        let magnitude: u128 = (-(n + 1)) as u128 + 1;
        push_natural(out, magnitude);
        assert(out@ =~= old(out)@ + integer_text(n as int));
    } else {
        push_natural(out, n as u128);
    }
}

/// The number that a string of decimal digits stands for.
pub open spec fn numeral_value(digits: Seq<char>) -> int
    decreases digits.len(),
{
    if digits.len() == 0 {
        0
    } else {
        10 * numeral_value(digits.drop_last()) + (digits.last() as int - '0' as int)
    }
}

/// Decimal digits alone, at least one, and no leading zero in front of others.
pub open spec fn is_plain_numeral(text: Seq<char>) -> bool {
    &&& text.len() > 0
    &&& forall|i: int| 0 <= i < text.len() ==> '0' <= #[trigger] text[i] <= '9'
    &&& text.len() > 1 ==> text[0] != '0'
}

/// The numeral of a natural number reads back as that number.
pub proof fn law_natural_numeral_reads_back(n: nat)
    ensures
        is_plain_numeral(natural_text(n)),
        numeral_value(natural_text(n)) == n,
        natural_text(n)[0] == '0' ==> n == 0,
    decreases n,
{
    reveal_strlit("0123456789");
    if n < 10 {
        assert(natural_text(n).drop_last() =~= seq![]);
        reveal_with_fuel(numeral_value, 2);
    } else {
        law_natural_numeral_reads_back(n / 10);
        assert(natural_text(n).drop_last() =~= natural_text(n / 10));
    }
}

/// The numeral of an integer reads back as that integer: plain digits from 0
/// on, and below 0 a `-` in front of the plain digits of the magnitude.
pub proof fn law_integer_numeral_reads_back(n: int)
    ensures
        n >= 0 ==> is_plain_numeral(integer_text(n)) && numeral_value(integer_text(n)) == n,
        n < 0 ==> integer_text(n)[0] == '-' && is_plain_numeral(integer_text(n).drop_first())
            && numeral_value(integer_text(n).drop_first()) == -n,
{
    if n < 0 {
        reveal_strlit("-");
        law_natural_numeral_reads_back((-n) as nat);
        assert(integer_text(n).drop_first() =~= natural_text((-n) as nat));
    } else {
        law_natural_numeral_reads_back(n as nat);
    }
}

/// Different integers have different numerals.
pub proof fn law_numerals_tell_integers_apart(a: int, b: int)
    requires
        integer_text(a) == integer_text(b),
    ensures
        a == b,
{
    law_integer_numeral_reads_back(a);
    law_integer_numeral_reads_back(b);
}

} // verus!
