//! Decimal digit sequences: the text form in which the trailer stores the
//! offset of the encrypted data.

use vstd::prelude::*;

verus! {

/// The decimal digits of `n`, most significant first, each a value in `0..10`.
/// Zero is the single digit `0`; no other number has a leading zero.
pub open spec fn decimal_digits(n: nat) -> Seq<u8>
    decreases n,
{
    if n < 10 {
        seq![n as u8]
    } else {
        decimal_digits(n / 10).push((n % 10) as u8)
    }
}

/// The number that a digit sequence spells in base ten (empty spells zero).
pub open spec fn digits_value(s: Seq<u8>) -> nat
    decreases s.len(),
{
    if s.len() == 0 {
        0
    } else {
        digits_value(s.drop_last()) * 10 + s.last() as nat
    }
}

/// Every element is a decimal digit.
pub open spec fn all_digits(s: Seq<u8>) -> bool {
    forall|i: int| 0 <= i < s.len() ==> #[trigger] s[i] < 10
}

pub proof fn lemma_decimal_digits_shape(n: nat)
    ensures
        decimal_digits(n).len() >= 1,
        all_digits(decimal_digits(n)),
        n > 0 ==> decimal_digits(n)[0] != 0,
    decreases n,
{
    if n >= 10 {
        lemma_decimal_digits_shape(n / 10);
    }
}

pub proof fn lemma_value_of_digits(n: nat)
    ensures
        digits_value(decimal_digits(n)) == n,
    decreases n,
{
    if n >= 10 {
        lemma_value_of_digits(n / 10);
        let d = decimal_digits(n / 10).push((n % 10) as u8);
        assert(d.drop_last() =~= decimal_digits(n / 10));
        assert(decimal_digits(n) == d);
        assert(d.last() as nat == n % 10);
        assert(digits_value(d) == digits_value(d.drop_last()) * 10 + d.last() as nat);
        assert((n / 10) * 10 + n % 10 == n) by (nonlinear_arith);
        assert(digits_value(d) == n);
    } else {
        assert(decimal_digits(n).drop_last() =~= Seq::<u8>::empty());
        assert(decimal_digits(n).last() as nat == n);
        assert(digits_value(decimal_digits(n).drop_last()) == 0);
        assert(digits_value(decimal_digits(n)) == n);
    }
}

/// A digit sequence without a leading zero can be read back from its value.
pub proof fn lemma_digits_of_value(s: Seq<u8>)
    requires
        s.len() >= 1,
        all_digits(s),
        s[0] != 0,
    ensures
        decimal_digits(digits_value(s)) == s,
        digits_value(s) >= 1,
    decreases s.len(),
{
    if s.len() == 1 {
        assert(s.drop_last() =~= Seq::<u8>::empty());
        assert(digits_value(s.drop_last()) == 0);
        assert(decimal_digits(digits_value(s)) =~= s);
    } else {
        let t = s.drop_last();
        assert(all_digits(t)) by {
            assert forall|i: int| 0 <= i < t.len() implies #[trigger] t[i] < 10 by {
                assert(t[i] == s[i]);
            }
        }
        lemma_digits_of_value(t);
        let v = digits_value(s);
        assert(s.last() < 10) by {
            assert(s[s.len() - 1] < 10);
        }
        assert(v == digits_value(t) * 10 + s.last() as nat);
        assert(v / 10 == digits_value(t));
        assert(v % 10 == s.last() as nat);
        assert(decimal_digits(v) =~= decimal_digits(digits_value(t)).push(s.last()));
        assert(t.push(s.last()) =~= s);
    }
}

/// Appending a digit multiplies by ten and adds it.
pub proof fn lemma_value_push(s: Seq<u8>, d: u8)
    ensures
        digits_value(s.push(d)) == digits_value(s) * 10 + d as nat,
{
    assert(s.push(d).drop_last() =~= s);
}

pub open spec fn pow10(k: nat) -> nat
    decreases k,
{
    if k == 0 {
        1
    } else {
        10 * pow10((k - 1) as nat)
    }
}

/// A number below `10^k` has at most `k` digits.
pub proof fn lemma_digit_count(n: nat, k: nat)
    requires
        k >= 1,
        n < pow10(k),
    ensures
        decimal_digits(n).len() <= k,
    decreases k,
{
    if n >= 10 {
        if k == 1 {
            assert(pow10(1) == 10 * pow10(0));
        } else {
            assert(n / 10 < pow10((k - 1) as nat));
            lemma_digit_count(n / 10, (k - 1) as nat);
        }
    }
}

/// A 64-bit number has at most twenty digits.
pub proof fn lemma_digit_count_u64(n: nat)
    requires
        n <= u64::MAX,
    ensures
        decimal_digits(n).len() <= 20,
{
    reveal_with_fuel(pow10, 21);
    assert(pow10(20) == 100000000000000000000nat);
    lemma_digit_count(n, 20);
}

} // verus!
