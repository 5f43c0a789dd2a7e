//! Decimal notation for integers, most significant digit first.

use vstd::prelude::*;
use vstd::string::StringExecFns;

verus! {

/// The character of the decimal digit `d`.
pub open spec fn digit_char(d: int) -> char {
    (48 + d) as char
}

/// `n` in decimal notation, without leading zeros.
pub open spec fn decimal_nat(n: nat) -> Seq<char>
    decreases n,
{
    if n < 10 {
        seq![digit_char(n as int)]
    } else {
        decimal_nat(n / 10).push(digit_char((n % 10) as int))
    }
}

/// `i` in decimal notation: a minus sign where it is negative, then its magnitude.
pub open spec fn decimal(i: int) -> Seq<char> {
    if i < 0 {
        seq!['-'] + decimal_nat((-i) as nat)
    } else {
        decimal_nat(i as nat)
    }
}

/// The number that the digits `digits` denote, read from the left: each digit
/// that follows makes what was read before it ten times as large.
pub open spec fn digits_value(digits: Seq<int>) -> int {
    digits.fold_left(0int, |read: int, digit: int| 10 * read + digit)
}

/// Whether `text` is a numeral: one or more of the characters `0` to `9`, the
/// first of them no `0` where others follow.
pub open spec fn is_numeral(text: Seq<char>) -> bool {
    &&& text.len() > 0
    &&& forall|k: int| 0 <= k < text.len() ==> '0' <= #[trigger] text[k] <= '9'
    &&& text.len() > 1 ==> text[0] != '0'
}

/// Whether a reader of `text` finds the integer `i` in it: a numeral that
/// denotes `i`, or, for a negative `i`, a minus sign and a numeral that denotes
/// its magnitude.
pub open spec fn reads_as(text: Seq<char>, i: int) -> bool {
    if i < 0 {
        &&& text.len() > 0
        &&& text[0] == '-'
        &&& is_numeral(text.skip(1))
        &&& digits_value(text.skip(1).map_values(|c: char| c as int - '0' as int)) == -i
    } else {
        &&& is_numeral(text)
        &&& digits_value(text.map_values(|c: char| c as int - '0' as int)) == i
    }
}

/// The one-character text of the digit `d`.
fn digit_text(d: u32) -> (text: &'static str)
    requires
        d < 10,
    ensures
        text@ == seq![digit_char(d as int)],
{
    proof {
        reveal_strlit("0");
        reveal_strlit("1");
        reveal_strlit("2");
        reveal_strlit("3");
        reveal_strlit("4");
        reveal_strlit("5");
        reveal_strlit("6");
        reveal_strlit("7");
        reveal_strlit("8");
        reveal_strlit("9");
    }
    match d {
        0 => "0",
        1 => "1",
        2 => "2",
        3 => "3",
        4 => "4",
        5 => "5",
        6 => "6",
        7 => "7",
        8 => "8",
        _ => "9",
    }
}

/// Appends the decimal notation of `n` to `text`.
fn append_magnitude(text: &mut String, n: u32)
    ensures
        final(text)@ == old(text)@ + decimal_nat(n as nat),
    decreases n,
{
    if n < 10 {
        text.append(digit_text(n));
    } else {
        append_magnitude(text, n / 10);
        text.append(digit_text(n % 10));
    }
}

/// Appends the decimal notation of `i` to `text`.
pub(crate) fn append_decimal(text: &mut String, i: i32)
    ensures
        final(text)@ == old(text)@ + decimal(i as int),
{
    if i < 0 {
        proof {
            reveal_strlit("-");
        }
        text.append("-");
        append_magnitude(text, (-(i as i64)) as u32);
    } else {
        append_magnitude(text, i as u32);
    }
}

proof fn lemma_decimal_nat_shape(n: nat)
    ensures
        decimal_nat(n).len() > 0,
        forall|i: int| 0 <= i < decimal_nat(n).len() ==> #[trigger] decimal_nat(n)[i] != '-',
    decreases n,
{
    if n >= 10 {
        lemma_decimal_nat_shape(n / 10);
    }
}

proof fn lemma_decimal_nat_injective(n: nat, m: nat)
    requires
        decimal_nat(n) == decimal_nat(m),
    ensures
        n == m,
    decreases n,
{
    lemma_decimal_nat_shape(n / 10);
    lemma_decimal_nat_shape(m / 10);
    let text = decimal_nat(n);
    assert(text.last() == digit_char((n % 10) as int));
    assert(text.last() == digit_char((m % 10) as int));
    if n >= 10 && m >= 10 {
        assert(text.drop_last() =~= decimal_nat(n / 10));
        assert(text.drop_last() =~= decimal_nat(m / 10));
        lemma_decimal_nat_injective(n / 10, m / 10);
    }
}

/// Decimal notation tells integers apart.
pub(crate) proof fn lemma_decimal_injective(i: int, j: int)
    requires
        decimal(i) == decimal(j),
    ensures
        i == j,
{
    let (n, m) = (if i < 0 { -i } else { i }, if j < 0 { -j } else { j });
    lemma_decimal_nat_shape(n as nat);
    lemma_decimal_nat_shape(m as nat);
    let text = decimal(i);
    if i < 0 {
        assert(text[0] == '-');
        assert(text.skip(1) =~= decimal_nat(n as nat));
    }
    if j < 0 {
        assert(text[0] == '-');
        assert(text.skip(1) =~= decimal_nat(m as nat));
    }
    assert(i < 0 <==> j < 0) by {
        assert(decimal_nat(n as nat)[0] != '-');
        assert(decimal_nat(m as nat)[0] != '-');
    }
    lemma_decimal_nat_injective(n as nat, m as nat);
}

/// One digit more makes what was read ten times as large and adds the digit.
pub(crate) proof fn lemma_digits_value_push(digits: Seq<int>, digit: int)
    ensures
        digits_value(Seq::<int>::empty()) == 0,
        digits_value(digits.push(digit)) == 10 * digits_value(digits) + digit,
{
    assert(digits.push(digit).drop_last() =~= digits);
    reveal_with_fuel(Seq::fold_left, 2);
}

proof fn lemma_decimal_nat_reads_back(n: nat)
    ensures
        reads_as(decimal_nat(n), n as int),
        n > 0 ==> decimal_nat(n)[0] != '0',
    decreases n,
{
    let text = decimal_nat(n);
    let digits = text.map_values(|c: char| c as int - '0' as int);
    if n < 10 {
        lemma_digits_value_push(Seq::<int>::empty(), n as int);
        assert(digits =~= Seq::<int>::empty().push(n as int));
    } else {
        let front = decimal_nat(n / 10);
        lemma_decimal_nat_reads_back(n / 10);
        lemma_digits_value_push(
            front.map_values(|c: char| c as int - '0' as int),
            (n % 10) as int,
        );
        assert(digits =~= front.map_values(|c: char| c as int - '0' as int).push((n % 10) as int));
    }
}

/// Decimal notation reads back: a reader finds in the decimal notation of an
/// integer that very integer.
pub proof fn law_decimal_reads_back(i: int)
    ensures
        reads_as(decimal(i), i),
{
    if i < 0 {
        lemma_decimal_nat_reads_back((-i) as nat);
        assert(decimal(i).skip(1) =~= decimal_nat((-i) as nat));
    } else {
        lemma_decimal_nat_reads_back(i as nat);
    }
}

} // verus!
