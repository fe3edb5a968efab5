//! Expansion of a range descriptor into the sequence of composite values.
use vstd::prelude::*;
use crate::decimal::{
    concat_decimal, digit_count, lemma_num_digits_bound, lemma_pow10_20, num_digits, pow10,
    pow10_exec,
};

verus! {

/// Why a range descriptor, or the values it spans, are refused.
#[derive(Debug, Clone, Copy, PartialEq, Eq, Structural)]
pub enum RangeError {
    /// `start` is greater than `end`.
    StartAfterEnd,
    /// `start` is zero or negative.
    NonPositiveStart,
    /// `prefix` is negative.
    NegativePrefix,
    /// `global_prefix` is negative.
    NegativeGlobalPrefix,
    /// Some composite value of the range does not fit in an `i64`.
    ValueTooLarge,
}

/// The integers `start..=end`, each to be prefixed by `prefix` and then by `global_prefix`.
#[derive(Debug, Clone, Copy, PartialEq, Eq, Structural)]
pub struct RangeDesc {
    pub start: i64,
    pub end: i64,
    pub prefix: i64,
    pub global_prefix: i64,
}

/// The first objection to a descriptor, checked in the order of the variants.
pub open spec fn range_objection(start: int, end: int, prefix: int, global_prefix: int) -> Option<
    RangeError,
> {
    if start > end {
        Some(RangeError::StartAfterEnd)
    } else if start < 1 {
        Some(RangeError::NonPositiveStart)
    } else if prefix < 0 {
        Some(RangeError::NegativePrefix)
    } else if global_prefix < 0 {
        Some(RangeError::NegativeGlobalPrefix)
    } else {
        None
    }
}

/// The composite value for `x`: `prefix` written before `x`, then `global_prefix`
/// written before that.
pub open spec fn composite(x: nat, prefix: nat, global_prefix: nat) -> nat {
    concat_decimal(global_prefix, concat_decimal(prefix, x))
}

impl RangeDesc {
    pub open spec fn wf(&self) -> bool {
        range_objection(
            self.start as int,
            self.end as int,
            self.prefix as int,
            self.global_prefix as int,
        ) is None
    }

    /// The number of integers the range spans.
    pub open spec fn spec_len(&self) -> int {
        self.end - self.start + 1
    }

    /// The composite value of the `i`-th integer of the range.
    pub open spec fn value_at(&self, i: int) -> nat {
        composite((self.start + i) as nat, self.prefix as nat, self.global_prefix as nat)
    }

    /// Whether every composite value of the range fits in an `i64`.
    pub open spec fn fits(&self) -> bool {
        forall|i: int| 0 <= i < self.spec_len() ==> #[trigger] self.value_at(i) <= i64::MAX
    }

    /// A descriptor, once its bounds and prefixes are checked.
    pub fn new(start: i64, end: i64, prefix: i64, global_prefix: i64) -> (r: Result<
        RangeDesc,
        RangeError,
    >)
        ensures
            match range_objection(start as int, end as int, prefix as int, global_prefix as int) {
                Some(e) => r == Err::<RangeDesc, RangeError>(e),
                None => r == Ok::<RangeDesc, RangeError>(
                    (RangeDesc { start, end, prefix, global_prefix }),
                ),
            },
    {
        if start > end {
            Err(RangeError::StartAfterEnd)
        } else if start < 1 {
            Err(RangeError::NonPositiveStart)
        } else if prefix < 0 {
            Err(RangeError::NegativePrefix)
        } else if global_prefix < 0 {
            Err(RangeError::NegativeGlobalPrefix)
        } else {
            Ok(RangeDesc { start, end, prefix, global_prefix })
        }
    }
}

/// `prefix` written before the decimal digits of `x`, if the result fits in an `i64`.
pub fn concat_value(prefix: i64, x: i64) -> (r: Option<i64>)
    requires
        prefix >= 0,
        x >= 0,
    ensures
        r == (if concat_decimal(prefix as nat, x as nat) <= i64::MAX {
            Some(concat_decimal(prefix as nat, x as nat) as i64)
        } else {
            None::<i64>
        }),
{
    proof {
        lemma_pow10_20();
        lemma_num_digits_bound(x as nat, 19);
    }
    let d = digit_count(x as u64);
    proof {
        crate::decimal::lemma_pow10_monotone(d as nat, 19);
    }
    let p10 = pow10_exec(d);
    let p = prefix as u128;
    assert(p * p10 <= 9223372036854775807u128 * 10_000_000_000_000_000_000u128) by (nonlinear_arith)
        requires
            p <= 9223372036854775807u128,
            p10 <= 10_000_000_000_000_000_000u128,
    ;
    let v: u128 = p * p10 + x as u128;
    if v <= 9223372036854775807u128 {
        Some(v as i64)
    } else {
        None
    }
}

/// Composite value of `x`, if it fits in an `i64`.
pub fn composite_value(x: i64, prefix: i64, global_prefix: i64) -> (r: Option<i64>)
    requires
        x >= 0,
        prefix >= 0,
        global_prefix >= 0,
    ensures
        r == (if composite(x as nat, prefix as nat, global_prefix as nat) <= i64::MAX {
            Some(composite(x as nat, prefix as nat, global_prefix as nat) as i64)
        } else {
            None::<i64>
        }),
{
    match concat_value(prefix, x) {
        None => {
            proof {
                let v1 = concat_decimal(prefix as nat, x as nat);
                crate::decimal::lemma_pow10_positive(num_digits(v1));
                assert(global_prefix as nat * pow10(num_digits(v1)) >= 0) by (nonlinear_arith)
                    requires
                        global_prefix >= 0,
                        pow10(num_digits(v1)) >= 1,
                ;
            }
            None
        },
        Some(v1) => concat_value(global_prefix, v1),
    }
}

/// The composite values of the range, one per integer of `start..=end`, in ascending
/// order of the integer; `ValueTooLarge` exactly when one of them exceeds `i64::MAX`.
pub fn assemble_values(r: &RangeDesc) -> (res: Result<Vec<i64>, RangeError>)
    requires
        r.wf(),
    ensures
        res is Ok <==> r.fits(),
        res is Err ==> res == Err::<Vec<i64>, RangeError>(RangeError::ValueTooLarge),
        res matches Ok(v) ==> v@.len() == r.spec_len() && forall|i: int|
            0 <= i < r.spec_len() ==> v@[i] == #[trigger] r.value_at(i),
{
    let n: u64 = (r.end - r.start) as u64 + 1;
    let mut out: Vec<i64> = Vec::new();
    let mut i: u64 = 0;
    while i < n
        invariant
            r.wf(),
            n == r.spec_len(),
            i <= n,
            out@.len() == i,
            forall|j: int| 0 <= j < i ==> out@[j] == #[trigger] r.value_at(j),
        decreases n - i,
    {
        let x: i64 = r.start + i as i64;
        match composite_value(x, r.prefix, r.global_prefix) {
            None => {
                assert(!(r.value_at(i as int) <= i64::MAX));
                return Err(RangeError::ValueTooLarge);
            },
            Some(v) => {
                out.push(v);
            },
        }
        i = i + 1;
    }
    Ok(out)
}

} // verus!
