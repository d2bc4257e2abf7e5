//! Decimal notation for the line and column numbers of a report.

use vstd::prelude::*;

verus! {

/// The ten decimal digits, in order of their value.
pub open spec fn digits() -> Seq<char> {
    "0123456789"@
}

/// The digit that stands for `value`, which is below ten.
pub open spec fn digit(value: nat) -> char
    recommends
        value < 10,
{
    digits()[value as int]
}

/// `n` in decimal notation: most significant digit first, no sign, no
/// separators, and no leading zero except for zero itself.
pub open spec fn decimal(n: nat) -> Seq<char>
    decreases n,
{
    if n < 10 {
        seq![digit(n)]
    } else {
        decimal(n / 10).push(digit(n % 10))
    }
}

/// The value that the digit `glyph` stands for.
pub open spec fn digit_value(glyph: char) -> nat
    recommends
        digits().contains(glyph),
{
    (glyph as int - '0' as int) as nat
}

/// The number that a text of digits denotes, read from the left; the empty
/// text denotes zero.
pub open spec fn decimal_value(text: Seq<char>) -> nat
    decreases text.len(),
{
    if text.len() == 0 {
        0
    } else {
        10 * decimal_value(text.drop_last()) + digit_value(text.last())
    }
}

/// The decimal notation of a number is not empty, holds digits only, and
/// starts with a zero for zero alone.
pub proof fn lemma_decimal_is_digits(n: nat)
    ensures
        decimal(n).len() >= 1,
        forall|i: int| 0 <= i < decimal(n).len() ==> digits().contains(#[trigger] decimal(n)[i]),
        n > 0 ==> decimal(n)[0] != '0',
    decreases n,
{
    reveal_strlit("0123456789");
    assert(digits()[(n % 10) as int] == digit(n % 10));
    if n >= 10 {
        lemma_decimal_is_digits(n / 10);
    }
}

/// Read as a number, the decimal notation of `n` gives `n` back.
pub proof fn lemma_decimal_reads_back(n: nat)
    ensures
        decimal_value(decimal(n)) == n,
    decreases n,
{
    reveal_strlit("0123456789");
    assert(digit_value(digit(n % 10)) == n % 10);
    assert(decimal(n).last() == digit(n % 10));
    if n < 10 {
        assert(decimal(n).drop_last() =~= Seq::<char>::empty());
        assert(decimal_value(Seq::<char>::empty()) == 0);
    } else {
        assert(decimal(n).drop_last() =~= decimal(n / 10));
        lemma_decimal_reads_back(n / 10);
    }
}

/// Appends the decimal notation of `n` to `out`.
pub(crate) fn append_decimal(out: &mut String, n: usize)
    ensures
        final(out)@ == old(out)@ + decimal(n as nat),
    decreases n,
{
    if n >= 10 {
        append_decimal(out, n / 10);
    }
    let last: usize = n % 10;
    proof {
        reveal_strlit("0123456789");
    }
    let glyph = "0123456789".substring_char(last, last + 1);
    assert(glyph@ =~= seq![digit(last as nat)]);
    out.append(glyph);
}

} // verus!
