//! The digit-selection algorithm and the conversions between a native
//! integer and a fixed-width digit sequence.

use vstd::prelude::*;
use vstd::math::abs;
use crate::trit::Bal3;
use crate::value::{
    pow3, max_int, seq_val, lemma_pow3_pos, lemma_pow3_mono, lemma_max_int_nonneg,
    lemma_max_int_mono, lemma_max_int_succ, lemma_seq_val_bounds, lemma_seq_val_all_zero,
    lemma_seq_val_update, lemma_max_int_40, lemma_pow3_39,
};

verus! {

/// Position, counted from the least significant end, of the most
/// significant nonzero digit needed to represent `value`: the smallest
/// `k` whose cumulative capacity sum of 3^i for i <= k reaches `|value|`.
/// The boolean is the sign of `value` (true when nonnegative).
pub fn find_first_non_zero(value: i64) -> (r: (u8, bool))
    requires
        -max_int(40) <= value <= max_int(40),
    ensures
        r.1 == (value >= 0),
        r.0 < 40,
        abs(value as int) <= max_int((r.0 + 1) as nat),
        value != 0 ==> max_int(r.0 as nat) < abs(value as int),
{
    let pos: bool = value >= 0;
    if value == 0 {
        proof {
            assert(max_int(1) == 1) by {
                reveal_with_fuel(max_int, 2);
            }
        }
        return (0, true);
    }
    proof {
        lemma_max_int_40();
        assert(max_int(1) == 1) by {
            reveal_with_fuel(max_int, 2);
        }
    }
    let m: i64 = if value >= 0 {
        value
    } else {
        -value
    };
    let mut pow: u8 = 0;
    let mut max_num: i64 = 1;
    loop
        invariant
            1 <= m <= max_int(40),
            m == abs(value as int),
            pos == (value >= 0),
            value != 0,
            pow < 40,
            max_num == max_int((pow + 1) as nat),
            max_int(pow as nat) < m,
        decreases 40 - pow,
    {
        if max_num >= m {
            return (pow, pos);
        }
        proof {
            // max_int(pow + 1) < m <= max_int(40), so pow + 1 < 40.
            if pow + 1 >= 40 {
                lemma_max_int_mono(40, (pow + 1) as nat);
                assert(false);
            }
            // The next capacity still fits an i64.
            lemma_max_int_mono((pow + 2) as nat, 40);
            lemma_max_int_40();
            lemma_max_int_nonneg((pow + 1) as nat);
        }
        max_num = 3 * max_num + 1;
        pow = pow + 1;
    }
}

/// 3 to the power `k`, as a native integer.
fn power_of_three(k: u8) -> (r: i64)
    requires
        k < 40,
    ensures
        r == pow3(k as nat),
{
    let mut i: u8 = 0;
    let mut acc: i64 = 1;
    while i < k
        invariant
            i <= k < 40,
            acc == pow3(i as nat),
        decreases k - i,
    {
        proof {
            lemma_pow3_pos(i as nat);
            lemma_pow3_mono((i + 1) as nat, 39);
            lemma_pow3_39();
        }
        acc = acc * 3;
        i = i + 1;
    }
    acc
}

/// The canonical `width`-digit representation of `value`, most significant
/// digit first: repeatedly pick the most significant digit still needed
/// and cancel its contribution, until nothing remains.
pub fn to_trits(value: i64, width: usize) -> (r: Vec<Bal3>)
    requires
        width <= 40,
        -max_int(width as nat) <= value <= max_int(width as nat),
    ensures
        r@.len() == width,
        seq_val(r@) == value,
{
    let mut digits: Vec<Bal3> = Vec::new();
    let mut i: usize = 0;
    while i < width
        invariant
            i <= width,
            digits@.len() == i,
            forall|j: int| 0 <= j < i ==> digits@[j] == Bal3::Zero,
        decreases width - i,
    {
        digits.push(Bal3::Zero);
        i = i + 1;
    }
    proof {
        lemma_seq_val_all_zero(digits@);
    }
    let mut remainder: i64 = value;
    let ghost mut bound: int = width as int;
    while remainder != 0
        invariant
            digits@.len() == width <= 40,
            0 <= bound <= width,
            seq_val(digits@) + remainder == value,
            -max_int(bound as nat) <= remainder <= max_int(bound as nat),
            forall|j: int| width - bound <= j < width ==> digits@[j] == Bal3::Zero,
        decreases bound,
    {
        proof {
            lemma_max_int_mono(bound as nat, 40);
        }
        let (pow, pos) = find_first_non_zero(remainder);
        let k: usize = pow as usize;
        proof {
            // Minimality of the capacity at k forces k < bound.
            if k >= bound {
                lemma_max_int_mono(bound as nat, k as nat);
                assert(false);
            }
            // remainder steps from (max_int(k), max_int(k + 1)] down into
            // [-max_int(k), max_int(k)] (and symmetrically when negative).
            lemma_max_int_succ(k as nat);
            lemma_pow3_pos(k as nat);
        }
        let p3: i64 = power_of_three(pow);
        let idx: usize = width - 1 - k;
        let ghost before = digits@;
        if pos {
            remainder = remainder - p3;
            digits.set(idx, Bal3::One);
            proof {
                lemma_seq_val_update(before, idx as int, Bal3::One);
                assert((before.len() - 1 - idx) as nat == pow as nat);
                assert(Bal3::One.weight() * pow3(pow as nat) == pow3(pow as nat));
                assert(seq_val(digits@) == seq_val(before) + pow3(pow as nat));
            }
        } else {
            remainder = remainder + p3;
            digits.set(idx, Bal3::NegativeOne);
            proof {
                lemma_seq_val_update(before, idx as int, Bal3::NegativeOne);
                assert((before.len() - 1 - idx) as nat == pow as nat);
                assert(Bal3::NegativeOne.weight() * pow3(pow as nat) == -pow3(pow as nat));
                assert(seq_val(digits@) == seq_val(before) - pow3(pow as nat));
            }
        }
        proof {
            bound = k as int;
        }
    }
    digits
}

/// The integer a digit sequence denotes, computed most significant digit
/// first.  Total for any sequence of at most 40 digits: the running value
/// is bounded by the width's own range, so it never overflows the native
/// integer.
pub fn to_native(digits: &Vec<Bal3>) -> (r: i64)
    requires
        digits@.len() <= 40,
    ensures
        r == seq_val(digits@),
{
    let mut acc: i64 = 0;
    let mut i: usize = 0;
    while i < digits.len()
        invariant
            i <= digits@.len() <= 40,
            acc == seq_val(digits@.take(i as int)),
        decreases digits@.len() - i,
    {
        proof {
            lemma_seq_val_bounds(digits@.take(i as int));
            lemma_max_int_mono((i + 1) as nat, 40);
            lemma_max_int_nonneg(i as nat);
            lemma_max_int_40();
            assert(digits@.take(i + 1).drop_last() =~= digits@.take(i as int));
            assert(digits@.take(i + 1).last() == digits@[i as int]);
        }
        let t = digits[i];
        let w: i64 = match t {
            Bal3::One => 1,
            Bal3::Zero => 0,
            Bal3::NegativeOne => -1,
        };
        acc = 3 * acc + w;
        i = i + 1;
    }
    proof {
        assert(digits@.take(digits@.len() as int) =~= digits@);
    }
    acc
}

} // verus!
