//! The mathematical model: what a digit sequence denotes, and the range
//! a given number of digits can cover.

use vstd::prelude::*;
use crate::trit::Bal3;

verus! {

/// 3 to the power `n`.
pub open spec fn pow3(n: nat) -> int
    decreases n,
{
    if n == 0 {
        1
    } else {
        3 * pow3((n - 1) as nat)
    }
}

/// The largest integer that `n` balanced-ternary digits can denote:
/// the sum of 3^i over i < n, that is (3^n - 1) / 2.  The smallest is
/// its negation.
pub open spec fn max_int(n: nat) -> int
    decreases n,
{
    if n == 0 {
        0
    } else {
        3 * max_int((n - 1) as nat) + 1
    }
}

/// The integer denoted by a digit sequence, most significant digit first.
pub open spec fn seq_val(s: Seq<Bal3>) -> int
    decreases s.len(),
{
    if s.len() == 0 {
        0
    } else {
        3 * seq_val(s.drop_last()) + s.last().weight()
    }
}

pub proof fn lemma_pow3_pos(n: nat)
    ensures
        pow3(n) >= 1,
    decreases n,
{
    if n > 0 {
        lemma_pow3_pos((n - 1) as nat);
    }
}

pub proof fn lemma_pow3_mono(m: nat, n: nat)
    requires
        m <= n,
    ensures
        pow3(m) <= pow3(n),
    decreases n,
{
    if m < n {
        lemma_pow3_mono(m, (n - 1) as nat);
        lemma_pow3_pos((n - 1) as nat);
    }
}

pub proof fn lemma_max_int_nonneg(n: nat)
    ensures
        max_int(n) >= 0,
    decreases n,
{
    if n > 0 {
        lemma_max_int_nonneg((n - 1) as nat);
    }
}

/// `max_int` grows with the width, strictly so past width zero.
pub proof fn lemma_max_int_mono(m: nat, n: nat)
    requires
        m <= n,
    ensures
        max_int(m) <= max_int(n),
        m < n ==> max_int(m) < max_int(n),
    decreases n,
{
    if m < n {
        lemma_max_int_mono(m, (n - 1) as nat);
        lemma_max_int_nonneg((n - 1) as nat);
    }
}

/// Adding one more digit extends the range by exactly that digit's weight:
/// max_int(n + 1) == max_int(n) + 3^n.
pub proof fn lemma_max_int_succ(n: nat)
    ensures
        max_int(n + 1) == max_int(n) + pow3(n),
    decreases n,
{
    if n > 0 {
        lemma_max_int_succ((n - 1) as nat);
    }
}

/// The range constant of the 5-digit width.
pub proof fn lemma_max_int_5()
    ensures
        max_int(5) == 121,
{
    reveal_with_fuel(max_int, 6);
}

/// The range constant of the 10-digit width.
pub proof fn lemma_max_int_10()
    ensures
        max_int(10) == 29524,
{
    reveal_with_fuel(max_int, 11);
}

/// The range constant of the 20-digit width.
pub proof fn lemma_max_int_20()
    ensures
        max_int(20) == 1743392200,
{
    reveal_with_fuel(max_int, 21);
}

/// The range constant of the 40-digit width.
pub proof fn lemma_max_int_40()
    ensures
        max_int(40) == 6078832729528464400,
{
    reveal_with_fuel(max_int, 41);
}

/// The largest power of three the algorithm ever forms.
pub proof fn lemma_pow3_39()
    ensures
        pow3(39) == 4052555153018976267,
{
    reveal_with_fuel(pow3, 40);
}

/// Every sequence of `n` digits denotes a value in [-max_int(n), max_int(n)].
pub proof fn lemma_seq_val_bounds(s: Seq<Bal3>)
    ensures
        -max_int(s.len()) <= seq_val(s) <= max_int(s.len()),
    decreases s.len(),
{
    if s.len() > 0 {
        lemma_seq_val_bounds(s.drop_last());
    }
}

/// A sequence of zero digits denotes zero.
pub proof fn lemma_seq_val_all_zero(s: Seq<Bal3>)
    requires
        forall|i: int| 0 <= i < s.len() ==> s[i] == Bal3::Zero,
    ensures
        seq_val(s) == 0,
    decreases s.len(),
{
    if s.len() > 0 {
        lemma_seq_val_all_zero(s.drop_last());
    }
}

/// Canonical uniqueness: two digit sequences of the same length that denote
/// the same integer are identical, digit for digit.  Every representable
/// integer therefore has exactly one fixed-width representation, whatever
/// procedure derived it.
pub proof fn lemma_seq_val_injective(a: Seq<Bal3>, b: Seq<Bal3>)
    requires
        a.len() == b.len(),
        seq_val(a) == seq_val(b),
    ensures
        a == b,
    decreases a.len(),
{
    if a.len() == 0 {
        assert(a =~= b);
    } else {
        let x = seq_val(a.drop_last());
        let y = seq_val(b.drop_last());
        assert(3 * x + a.last().weight() == 3 * y + b.last().weight());
        assert(-1 <= a.last().weight() <= 1);
        assert(-1 <= b.last().weight() <= 1);
        assert(x == y) by {
            if x < y {
                assert(3 * y - 3 * x >= 3);
            }
            if x > y {
                assert(3 * x - 3 * y >= 3);
            }
        }
        assert(a.last() == b.last()) by {
            assert(a.last().weight() == b.last().weight());
        }
        lemma_seq_val_injective(a.drop_last(), b.drop_last());
        assert(a =~= b) by {
            assert(forall|i: int|
                0 <= i < a.len() - 1 ==> a[i] == a.drop_last()[i] && b[i] == b.drop_last()[i]);
        }
    }
}

/// Replacing a zero digit at index `i` changes the denoted value by the
/// new digit's weight times 3^(len - 1 - i).
pub proof fn lemma_seq_val_update(s: Seq<Bal3>, i: int, t: Bal3)
    requires
        0 <= i < s.len(),
        s[i] == Bal3::Zero,
    ensures
        seq_val(s.update(i, t)) == seq_val(s) + t.weight() * pow3((s.len() - 1 - i) as nat),
    decreases s.len(),
{
    let n = s.len() as int;
    if i == n - 1 {
        assert(s.update(i, t).drop_last() =~= s.drop_last());
        assert(s.update(i, t).last() == t);
        assert(s.last().weight() == 0);
        assert(pow3(0) == 1);
        assert(t.weight() * 1 == t.weight());
    } else {
        lemma_seq_val_update(s.drop_last(), i, t);
        assert(s.update(i, t).drop_last() =~= s.drop_last().update(i, t));
        assert(s.update(i, t).last() == s.last());
        let p = pow3((n - 2 - i) as nat);
        assert(seq_val(s.update(i, t)) == 3 * (seq_val(s.drop_last()) + t.weight() * p)
            + s.last().weight());
        assert(3 * (seq_val(s.drop_last()) + t.weight() * p) == 3 * seq_val(s.drop_last()) + 3 * (
        t.weight() * p));
        assert(3 * (t.weight() * p) == t.weight() * (3 * p)) by {
            vstd::arithmetic::mul::lemma_mul_is_associative(3, t.weight(), p);
            vstd::arithmetic::mul::lemma_mul_is_commutative(3, t.weight());
            vstd::arithmetic::mul::lemma_mul_is_associative(t.weight(), 3, p);
        }
        assert(pow3((n - 1 - i) as nat) == 3 * p);
    }
}

} // verus!
