//! Numbers in decimal notation.

use vstd::prelude::*;

use crate::chars;

verus! {

/// The digit that stands for `d`.
pub open spec fn digit(d: nat) -> char
    recommends
        d < 10,
{
    ('0' as nat + d) as char
}

/// The number that a digit stands for.
pub open spec fn digit_value(c: char) -> nat
    recommends
        chars::ascii_digit(c),
{
    (c as nat - '0' as nat) as nat
}

/// `n` in decimal notation, without leading zeros.
pub open spec fn decimal(n: nat) -> Seq<char>
    decreases n,
{
    if n < 10 {
        seq![digit(n)]
    } else {
        decimal(n / 10).push(digit(n % 10))
    }
}

/// The number that a sequence of digits stands for; 0 for an empty one.
pub open spec fn value(ds: Seq<char>) -> nat
    decreases ds.len(),
{
    if ds.len() == 0 {
        0
    } else {
        value(ds.drop_last()) * 10 + digit_value(ds.last())
    }
}

/// Whether `s` consists of ASCII digits.
pub open spec fn all_digits(s: Seq<char>) -> bool {
    forall|i: int| 0 <= i < s.len() ==> chars::ascii_digit(#[trigger] s[i])
}

/// The number that the digits `ds` stand for, if there is at least one digit and the
/// number fits in 64 bits.
pub open spec fn parsed(ds: Seq<char>) -> Option<u64> {
    if ds.len() == 0 || value(ds) > u64::MAX {
        None
    } else {
        Some(value(ds) as u64)
    }
}

/// More digits never make a smaller number.
proof fn lemma_value_grows(ds: Seq<char>, n: int)
    requires
        0 <= n <= ds.len(),
    ensures
        value(ds.take(n)) <= value(ds),
    decreases ds.len() - n,
{
    if n == ds.len() {
        assert(ds.take(n) =~= ds);
    } else {
        lemma_value_grows(ds, n + 1);
        assert(ds.take(n + 1).drop_last() =~= ds.take(n));
    }
}

/// The number that the digits `ds` stand for, if any.
pub fn parse(ds: &[char]) -> (r: Option<u64>)
    requires
        all_digits(ds@),
    ensures
        r == parsed(ds@),
{
    if ds.len() == 0 {
        return None;
    }
    let mut n: u64 = 0;
    for i in 0..ds.len()
        invariant
            all_digits(ds@),
            n == value(ds@.take(i as int)),
    {
        assert(ds@.take(i + 1).drop_last() =~= ds@.take(i as int));
        assert(chars::ascii_digit(ds@[i as int]));
        proof {
            lemma_value_grows(ds@, i + 1);
        }
        let d: u64 = ds[i] as u64 - '0' as u64;
        if n > u64::MAX / 10 {
            return None;
        }
        let tens: u64 = n * 10;
        if tens > u64::MAX - d {
            return None;
        }
        n = tens + d;
    }
    assert(ds@.take(ds@.len() as int) =~= ds@);
    Some(n)
}

/// Appends `n` in decimal notation to `out`.
pub fn push_decimal(out: &mut String, n: u64)
    ensures
        final(out)@ == old(out)@ + decimal(n as nat),
    decreases n,
{
    if n >= 10 {
        push_decimal(out, n / 10);
    }
    let d: u8 = (n % 10) as u8;
    let c: char = (48u8 + d) as char;
    out.push(c);
    assert(out@ =~= old(out)@ + decimal(n as nat));
}

/// Decimal notation consists of digits, at least one.
pub proof fn law_decimal_is_digits(n: nat)
    ensures
        decimal(n).len() > 0,
        all_digits(decimal(n)),
    decreases n,
{
    if n >= 10 {
        law_decimal_is_digits(n / 10);
    }
}

/// Decimal notation stands for the number that was written.
pub proof fn law_decimal_reads_back(n: nat)
    ensures
        value(decimal(n)) == n,
    decreases n,
{
    if n >= 10 {
        law_decimal_reads_back(n / 10);
        assert(decimal(n).drop_last() =~= decimal(n / 10));
    } else {
        assert(decimal(n).drop_last() =~= Seq::<char>::empty());
        assert(value(Seq::<char>::empty()) == 0);
    }
}

/// Reading what was written gives back the number.
pub proof fn law_parse_undoes_decimal(n: u64)
    ensures
        parsed(decimal(n as nat)) == Some(n),
{
    law_decimal_is_digits(n as nat);
    law_decimal_reads_back(n as nat);
}

} // verus!
