//! Exact decimal arithmetic: digit counts, powers of ten, decimal text and its parsing.
use vstd::prelude::*;

verus! {

/// `10^e`.
pub open spec fn pow10(e: nat) -> nat
    decreases e,
{
    if e == 0 {
        1
    } else {
        10 * pow10((e - 1) as nat)
    }
}

/// Number of digits of `n` in base ten; zero is written `0`, one digit.
pub open spec fn num_digits(n: nat) -> nat
    decreases n,
{
    if n < 10 {
        1
    } else {
        1 + num_digits(n / 10)
    }
}

/// The ASCII decimal text of `n`, most significant digit first, with no leading zero.
pub open spec fn decimal_text(n: nat) -> Seq<u8>
    decreases n,
{
    if n < 10 {
        seq![(48 + n) as u8]
    } else {
        decimal_text(n / 10).push((48 + n % 10) as u8)
    }
}

/// `prefix` written in front of the decimal digits of `x`.
pub open spec fn concat_decimal(prefix: nat, x: nat) -> nat {
    prefix * pow10(num_digits(x)) + x
}

pub proof fn lemma_pow10_positive(e: nat)
    ensures
        pow10(e) >= 1,
    decreases e,
{
    if e > 0 {
        lemma_pow10_positive((e - 1) as nat);
    }
}

pub proof fn lemma_pow10_monotone(a: nat, b: nat)
    requires
        a <= b,
    ensures
        pow10(a) <= pow10(b),
    decreases b,
{
    if a < b {
        lemma_pow10_monotone(a, (b - 1) as nat);
        lemma_pow10_positive((b - 1) as nat);
    }
}

/// A number below `10^k` has at most `k` digits.
pub proof fn lemma_num_digits_bound(n: nat, k: nat)
    requires
        k >= 1,
        n < pow10(k),
    ensures
        num_digits(n) <= k,
    decreases n,
{
    if n >= 10 {
        if k == 1 {
            assert(pow10(1) == 10) by {
                reveal_with_fuel(pow10, 2);
            }
        } else {
            assert(n / 10 < pow10((k - 1) as nat));
            lemma_num_digits_bound(n / 10, (k - 1) as nat);
        }
    }
}

/// The digit count of `n` is the length of its decimal text, and for `n >= 1`
/// it places `n` between two consecutive powers of ten.
pub proof fn lemma_digit_count_is_text_length(n: nat)
    ensures
        num_digits(n) == decimal_text(n).len(),
        num_digits(n) >= 1,
        n < pow10(num_digits(n)),
        n >= 1 ==> pow10((num_digits(n) - 1) as nat) <= n,
    decreases n,
{
    if n < 10 {
        assert(pow10(1) == 10) by {
            reveal_with_fuel(pow10, 2);
        }
    } else {
        lemma_digit_count_is_text_length(n / 10);
    }
}

/// For a prefix of at least one, the concatenated value is written as the prefix's
/// text followed by the text of `x`.
pub proof fn lemma_concat_is_text_concat(prefix: nat, x: nat)
    requires
        prefix >= 1,
    ensures
        decimal_text(concat_decimal(prefix, x)) == decimal_text(prefix) + decimal_text(x),
    decreases x,
{
    let c = concat_decimal(prefix, x);
    if x < 10 {
        assert(pow10(1) == 10) by {
            reveal_with_fuel(pow10, 2);
        }
        assert(c == prefix * 10 + x);
        assert(c / 10 == prefix && c % 10 == x);
        assert(decimal_text(x) == seq![(48 + x) as u8]);
    } else {
        let q = x / 10;
        let pq = pow10(num_digits(q));
        lemma_pow10_positive(num_digits(q));
        assert(pow10(num_digits(x)) == 10 * pq);
        assert(c == 10 * (prefix * pq + q) + x % 10 && prefix * pq >= 1) by (nonlinear_arith)
            requires
                c == prefix * (10 * pq) + x,
                x == 10 * q + x % 10,
                prefix >= 1,
                pq >= 1,
        ;
        assert(c / 10 == prefix * pq + q && c % 10 == x % 10);
        lemma_concat_is_text_concat(prefix, q);
        assert(decimal_text(c) == decimal_text(concat_decimal(prefix, q)).push(
            (48 + x % 10) as u8,
        ));
        assert(decimal_text(x) == decimal_text(q).push((48 + x % 10) as u8));
        assert((decimal_text(prefix) + decimal_text(q)).push((48 + x % 10) as u8)
            == decimal_text(prefix) + decimal_text(q).push((48 + x % 10) as u8));
    }
}

pub proof fn lemma_pow10_20()
    ensures
        pow10(19) == 10_000_000_000_000_000_000nat,
        pow10(20) == 100_000_000_000_000_000_000nat,
{
    reveal_with_fuel(pow10, 21);
}

/// Number of decimal digits of `n`, by repeated division; `digit_count(0) == 1`.
pub fn digit_count(n: u64) -> (r: u32)
    ensures
        r == num_digits(n as nat),
        r == decimal_text(n as nat).len(),
        1 <= r <= 20,
{
    proof {
        lemma_digit_count_is_text_length(n as nat);
        lemma_pow10_20();
        lemma_num_digits_bound(n as nat, 20);
    }
    let mut m: u64 = n;
    let mut c: u32 = 1;
    while m >= 10
        invariant
            num_digits(n as nat) == c - 1 + num_digits(m as nat),
            num_digits(n as nat) <= 20,
            1 <= c,
        decreases m,
    {
        m = m / 10;
        c = c + 1;
    }
    c
}

/// `10^e` for `e <= 20`.
pub fn pow10_exec(e: u32) -> (r: u128)
    requires
        e <= 20,
    ensures
        r == pow10(e as nat),
{
    proof {
        lemma_pow10_20();
    }
    let mut r: u128 = 1;
    let mut i: u32 = 0;
    while i < e
        invariant
            i <= e <= 20,
            r == pow10(i as nat),
            pow10(19) == 10_000_000_000_000_000_000nat,
        decreases e - i,
    {
        proof {
            lemma_pow10_monotone(i as nat, 19);
            assert(r <= 10_000_000_000_000_000_000u128);
        }
        r = r * 10;
        i = i + 1;
    }
    r
}

/// The ASCII decimal text of `n`.
pub fn decimal_bytes(n: u64) -> (r: Vec<u8>)
    ensures
        r@ == decimal_text(n as nat),
    decreases n,
{
    if n < 10 {
        let d: u8 = (48 + n) as u8;
        vec![d]
    } else {
        let mut v = decimal_bytes(n / 10);
        let d: u8 = (48 + n % 10) as u8;
        v.push(d);
        v
    }
}

} // verus!
