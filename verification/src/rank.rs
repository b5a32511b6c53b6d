//! The rank by which conversations are ordered.
//!
//! A rank is a binary64 number. The library carries it as an integer key
//! that keeps the order of the numbers: the pattern of the number where its
//! sign bit is clear, and the negated pattern of its magnitude where it is
//! set. Keys compare as the numbers do, and the two zeroes share the key 0.

use vstd::prelude::*;

verus! {

/// Pattern of the sign bit of a binary64 number.
pub const SIGN_BIT: u64 = 0x8000_0000_0000_0000;

/// Two to the power of 52: the weight of the exponent field in a pattern,
/// and the hidden bit of a significand.
pub const TWO_52: u64 = 0x10_0000_0000_0000;

/// Exponent field of the number one.
pub const EXPONENT_BIAS: u64 = 1023;

/// Two to the power of `e`.
pub open spec fn pow2(e: nat) -> nat
    decreases e,
{
    if e == 0 {
        1
    } else {
        2 * pow2((e - 1) as nat)
    }
}

/// The exponent of the largest power of two that is not above `n`, for a
/// positive `n`.
pub open spec fn top_bit(n: nat) -> nat
    decreases n,
{
    if n <= 1 {
        0
    } else {
        1 + top_bit(n / 2)
    }
}

/// The pattern of the binary64 number nearest to the whole number `n`, of
/// two that are equally near the one with the even significand.
///
/// With `p` the exponent of the leading bit of `n`, the exponent field is
/// `1023 + p` and the fraction field holds the 52 bits below the leading
/// one. A number of more than 53 bits is rounded to 53, and a significand
/// that rounds up to 54 bits carries into the exponent.
pub open spec fn whole_pattern(n: nat) -> int {
    let p = top_bit(n);
    if n == 0 {
        0
    } else if p <= 52 {
        (EXPONENT_BIAS + p) * pow2(52) + (n - pow2(p)) * pow2((52 - p) as nat)
    } else {
        let unit = pow2((p - 52) as nat);
        let kept = n / unit;
        let dropped = n % unit;
        let significand = if 2 * dropped > unit || (2 * dropped == unit && kept % 2 == 1) {
            kept + 1
        } else {
            kept
        };
        (EXPONENT_BIAS + p) * pow2(52) + significand - pow2(52)
    }
}

/// The key of the rank that is the number of milliseconds `millis`.
pub open spec fn millis_rank(millis: i64) -> i64 {
    if millis >= 0 {
        whole_pattern(millis as nat) as i64
    } else {
        (-whole_pattern((-millis) as nat)) as i64
    }
}

/// The key of the rank whose pattern is `bits`.
pub open spec fn rank_key(bits: u64) -> i64 {
    if bits < SIGN_BIT {
        bits as i64
    } else {
        (-(bits - SIGN_BIT)) as i64
    }
}

/// The pattern of the rank whose key is `rank`: for a key below zero, the
/// sign bit and the negated key. The one key whose negation is no
/// magnitude has the pattern of all ones.
pub open spec fn rank_pattern(rank: i64) -> u64 {
    if rank >= 0 {
        rank as u64
    } else if rank == i64::MIN {
        u64::MAX
    } else {
        (SIGN_BIT + (-rank)) as u64
    }
}

/// Powers of two multiply by adding their exponents.
pub proof fn lemma_pow2_adds(a: nat, b: nat)
    ensures
        pow2(a + b) == pow2(a) * pow2(b),
    decreases a,
{
    if a > 0 {
        let less = (a - 1) as nat;
        lemma_pow2_adds(less, b);
        let x = pow2(less);
        let y = pow2(b);
        assert(pow2(a) == 2 * x);
        assert(pow2(a + b) == 2 * pow2(((a + b) - 1) as nat));
        assert(((a + b) - 1) as nat == less + b);
        assert(2 * (x * y) == (2 * x) * y) by (nonlinear_arith);
        assert(pow2(a) * pow2(b) == (2 * x) * y);
    } else {
        assert(pow2(a) == 1);
        assert(a + b == b);
        assert(1 * pow2(b) == pow2(b)) by (nonlinear_arith);
    }
}

/// Powers of two are positive and grow with their exponents.
pub proof fn lemma_pow2_grows(a: nat, b: nat)
    requires
        a <= b,
    ensures
        1 <= pow2(a) <= pow2(b),
    decreases b,
{
    if b > a {
        lemma_pow2_grows(a, (b - 1) as nat);
    } else if a > 0 {
        lemma_pow2_grows((a - 1) as nat, (a - 1) as nat);
    }
}

/// The powers of two that the patterns are made of.
pub proof fn lemma_pow2_values()
    ensures
        pow2(11) == 2048,
        pow2(52) == TWO_52,
        pow2(63) == SIGN_BIT,
{
    assert(pow2(11) == 2048) by {
        reveal_with_fuel(pow2, 12);
    }
    assert(pow2(13) == 8192) by {
        reveal_with_fuel(pow2, 14);
    }
    lemma_pow2_adds(13, 13);
    assert(pow2(26) == 67108864);
    lemma_pow2_adds(26, 26);
    assert(pow2(52) == 4503599627370496);
    lemma_pow2_adds(52, 11);
    assert(pow2(63) == 9223372036854775808);
}

/// Computes [`whole_pattern`].
pub fn pattern_of_whole(n: u64) -> (pattern: u64)
    ensures
        pattern == whole_pattern(n as nat),
        pattern < SIGN_BIT,
        n > 0 ==> pattern > 0,
{
    if n == 0 {
        return 0;
    }
    proof {
        lemma_pow2_values();
    }
    let mut p: u64 = 0;
    let mut power: u64 = 1;
    let mut rest: u64 = n;
    while rest > 1
        invariant
            rest >= 1,
            power == pow2(p as nat),
            top_bit(n as nat) == p + top_bit(rest as nat),
            power * rest <= n,
            n < power * (rest + 1),
            p <= 63,
            pow2(63) == SIGN_BIT,
        decreases rest,
    {
        proof {
            let half = rest / 2;
            assert(2 * power * half <= power * rest && power * (rest + 1) <= 2 * power * (half
                + 1)) by (nonlinear_arith)
                requires
                    half == rest / 2,
                    rest >= 2,
                    power >= 0,
            ;
            assert(2 * power <= power * rest) by (nonlinear_arith)
                requires
                    rest >= 2,
                    power >= 0,
            ;
            if p >= 63 {
                lemma_pow2_grows(63, p as nat);
            }
        }
        rest = rest / 2;
        p = p + 1;
        power = power * 2;
    }
    assert(power <= n < 2 * power) by (nonlinear_arith)
        requires
            power * rest <= n,
            n < power * (rest + 1),
            rest == 1,
    ;
    if p <= 52 {
        let shift: u64 = 52 - p;
        let mut fraction: u64 = n - power;
        let mut k: u64 = 0;
        while k < shift
            invariant
                k <= shift,
                shift == 52 - p,
                p <= 52,
                power == pow2(p as nat),
                fraction == (n - power) * pow2(k as nat),
                fraction < pow2((p + k) as nat),
                pow2(52) == TWO_52,
            decreases shift - k,
        {
            proof {
                lemma_pow2_grows((p + k + 1) as nat, 52);
                assert((n - power) * (2 * pow2(k as nat)) == 2 * ((n - power) * pow2(k as nat)))
                    by (nonlinear_arith);
            }
            fraction = fraction * 2;
            k = k + 1;
        }
        (EXPONENT_BIAS + p) * TWO_52 + fraction
    } else {
        let shift: u64 = p - 52;
        let mut unit: u64 = 1;
        let mut k: u64 = 0;
        while k < shift
            invariant
                k <= shift,
                shift <= 11,
                unit == pow2(k as nat),
                1 <= unit <= 2048,
                pow2(11) == 2048,
            decreases shift - k,
        {
            proof {
                lemma_pow2_grows((k + 1) as nat, 11);
            }
            unit = unit * 2;
            k = k + 1;
        }
        let kept = n / unit;
        let dropped = n % unit;
        proof {
            lemma_pow2_adds(52, shift as nat);
            assert(kept < 2 * TWO_52) by (nonlinear_arith)
                requires
                    kept == n / unit,
                    n < 2 * (TWO_52 * unit),
                    unit > 0,
            ;
            assert(kept >= TWO_52) by (nonlinear_arith)
                requires
                    kept == n / unit,
                    n >= TWO_52 * unit,
                    unit > 0,
            ;
        }
        let significand = if 2 * dropped > unit || (2 * dropped == unit && kept % 2 == 1) {
            kept + 1
        } else {
            kept
        };
        (EXPONENT_BIAS + p) * TWO_52 + significand - TWO_52
    }
}

/// The key of the rank that is the number of milliseconds `millis`: the rank
/// that a conversation created at that time gets.
pub fn rank_of_millis(millis: i64) -> (rank: i64)
    ensures
        rank == millis_rank(millis),
        millis >= 0 <==> rank >= 0,
{
    if millis >= 0 {
        pattern_of_whole(millis as u64) as i64
    } else {
        let magnitude: u64 = (-(millis as i128)) as u64;
        -(pattern_of_whole(magnitude) as i64)
    }
}

/// The key of the rank whose pattern is `bits`.
pub fn rank_of_bits(bits: u64) -> (rank: i64)
    ensures
        rank == rank_key(bits),
{
    if bits < SIGN_BIT {
        bits as i64
    } else {
        -((bits - SIGN_BIT) as i64)
    }
}

/// The pattern of the rank whose key is `rank`.
pub fn bits_of_rank(rank: i64) -> (bits: u64)
    ensures
        bits == rank_pattern(rank),
{
    if rank >= 0 {
        rank as u64
    } else if rank == i64::MIN {
        u64::MAX
    } else {
        SIGN_BIT + ((-rank) as u64)
    }
}

/// A key gives the pattern that gives the key.
pub proof fn lemma_key_round_trip(rank: i64)
    requires
        rank > i64::MIN,
    ensures
        rank_key(rank_pattern(rank)) == rank,
{
}

/// A pattern gives the key that gives the pattern, but for the pattern of
/// minus zero, whose key is that of zero.
pub proof fn lemma_pattern_round_trip(bits: u64)
    requires
        bits != SIGN_BIT,
    ensures
        rank_pattern(rank_key(bits)) == bits,
{
}

/// Among patterns with a clear sign bit the larger has the larger key, among
/// patterns with a set sign bit the larger has the smaller key, and no key
/// of the latter is above a key of the former: the order of the numbers.
pub proof fn lemma_keys_keep_order(a: u64, b: u64)
    ensures
        a < SIGN_BIT && b < SIGN_BIT ==> (a <= b <==> rank_key(a) <= rank_key(b)),
        a >= SIGN_BIT && b >= SIGN_BIT ==> (a <= b <==> rank_key(a) >= rank_key(b)),
        a >= SIGN_BIT && b < SIGN_BIT ==> rank_key(a) <= rank_key(b),
{
}

/// The leading bit of a larger number is no lower.
pub proof fn lemma_top_bit_grows(n: nat, m: nat)
    requires
        n <= m,
    ensures
        top_bit(n) <= top_bit(m),
    decreases m,
{
    if n > 1 {
        lemma_top_bit_grows(n / 2, m / 2);
    }
}

/// A positive number lies between the power of two of its leading bit and
/// the next power of two.
pub proof fn lemma_top_bit_bounds(n: nat)
    requires
        n >= 1,
    ensures
        pow2(top_bit(n)) <= n < pow2(top_bit(n) + 1),
    decreases n,
{
    if n > 1 {
        lemma_top_bit_bounds(n / 2);
        let p = top_bit(n / 2);
        assert(pow2(p + 1) == 2 * pow2(p));
        assert(pow2(p + 2) == 2 * pow2(p + 1));
    } else {
        assert(pow2(1) == 2 * pow2(0));
    }
}

/// The pattern of a positive number lies between the patterns of the powers
/// of two around it.
pub proof fn lemma_pattern_bounds(n: nat)
    requires
        n >= 1,
    ensures
        (EXPONENT_BIAS + top_bit(n)) * TWO_52 <= whole_pattern(n) <= (EXPONENT_BIAS + top_bit(n)
            + 1) * TWO_52,
{
    let p = top_bit(n);
    lemma_pow2_values();
    lemma_top_bit_bounds(n);
    assert(pow2(p + 1) == 2 * pow2(p));
    if p <= 52 {
        let scale = pow2((52 - p) as nat);
        lemma_pow2_adds(p, (52 - p) as nat);
        lemma_pow2_grows(0, (52 - p) as nat);
        assert(0 <= (n - pow2(p)) * scale <= pow2(p) * scale) by (nonlinear_arith)
            requires
                pow2(p) <= n < 2 * pow2(p),
                scale >= 1,
        ;
    } else {
        let unit = pow2((p - 52) as nat);
        lemma_pow2_adds(52, (p - 52) as nat);
        lemma_pow2_grows(0, (p - 52) as nat);
        let kept = n / unit;
        assert(TWO_52 <= kept < 2 * TWO_52) by (nonlinear_arith)
            requires
                kept == n / unit,
                TWO_52 * unit <= n < 2 * (TWO_52 * unit),
                unit >= 1,
        ;
    }
}

/// Of two numbers with the same leading bit, the larger has the pattern that
/// is no smaller.
proof fn lemma_pattern_grows_within(n: nat, m: nat)
    requires
        1 <= n <= m,
        top_bit(n) == top_bit(m),
    ensures
        whole_pattern(n) <= whole_pattern(m),
{
    let p = top_bit(n);
    lemma_top_bit_bounds(n);
    if p <= 52 {
        let scale = pow2((52 - p) as nat);
        assert((n - pow2(p)) * scale <= (m - pow2(p)) * scale) by (nonlinear_arith)
            requires
                n <= m,
                scale >= 0,
        ;
    } else {
        let unit = pow2((p - 52) as nat);
        lemma_pow2_grows(0, (p - 52) as nat);
        let (kn, km) = (n / unit, m / unit);
        let (dn, dm) = (n % unit, m % unit);
        vstd::arithmetic::div_mod::lemma_fundamental_div_mod(n as int, unit as int);
        vstd::arithmetic::div_mod::lemma_fundamental_div_mod(m as int, unit as int);
        assert(kn <= km && (kn == km ==> dn <= dm)) by (nonlinear_arith)
            requires
                n <= m,
                unit >= 1,
                kn == n / unit,
                km == m / unit,
                dn == n % unit,
                dm == m % unit,
                n == unit * kn + dn,
                m == unit * km + dm,
                0 <= dn < unit,
                0 <= dm < unit,
        ;
    }
}

/// The pattern of a larger whole number is no smaller.
pub proof fn lemma_pattern_grows(n: nat, m: nat)
    requires
        n <= m,
    ensures
        whole_pattern(n) <= whole_pattern(m),
{
    if n == 0 {
        if m > 0 {
            lemma_pattern_bounds(m);
        }
    } else {
        lemma_top_bit_grows(n, m);
        if top_bit(n) == top_bit(m) {
            lemma_pattern_grows_within(n, m);
        } else {
            lemma_pattern_bounds(n);
            lemma_pattern_bounds(m);
            assert((EXPONENT_BIAS + top_bit(n) + 1) * TWO_52 <= (EXPONENT_BIAS + top_bit(m))
                * TWO_52) by (nonlinear_arith)
                requires
                    top_bit(n) + 1 <= top_bit(m),
            ;
        }
    }
}

/// A conversation that is created later gets a rank that is no lower: ranks
/// grow with the time of creation.
pub proof fn lemma_ranks_grow_with_time(earlier: i64, later: i64)
    requires
        earlier <= later,
    ensures
        millis_rank(earlier) <= millis_rank(later),
{
    lemma_pow2_values();
    let a = if earlier >= 0 { earlier as nat } else { (-earlier) as nat };
    let b = if later >= 0 { later as nat } else { (-later) as nat };
    lemma_whole_pattern_fits(a);
    lemma_whole_pattern_fits(b);
    if earlier >= 0 {
        lemma_pattern_grows(a, b);
    } else if later < 0 {
        lemma_pattern_grows(b, a);
    }
}

/// The pattern of a whole number of at most 64 bits has a clear sign bit.
pub proof fn lemma_whole_pattern_fits(n: nat)
    requires
        n <= SIGN_BIT,
    ensures
        0 <= whole_pattern(n) < SIGN_BIT,
{
    if n > 0 {
        lemma_pow2_values();
        lemma_top_bit_bounds(n);
        lemma_pattern_bounds(n);
        let p = top_bit(n);
        if p > 63 {
            lemma_pow2_grows(64, p);
            assert(pow2(64) == 2 * pow2(63));
        }
        assert((EXPONENT_BIAS + p + 1) * TWO_52 <= 1087 * TWO_52) by (nonlinear_arith)
            requires
                p <= 63,
        ;
    }
}

} // verus!
