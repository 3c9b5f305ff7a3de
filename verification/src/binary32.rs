//! IEEE binary32 (`f32`) rounding, stated and computed with integers.
use vstd::prelude::*;
use vstd::arithmetic::div_mod::{
    lemma_div_is_ordered, lemma_fundamental_div_mod, lemma_fundamental_div_mod_converse,
};

verus! {

/// Two to the power `n`.
pub open spec fn two_pow(n: nat) -> nat
    decreases n,
{
    if n == 0 {
        1
    } else {
        2 * two_pow((n - 1) as nat)
    }
}

pub proof fn lemma_two_pow_add(a: nat, b: nat)
    ensures
        two_pow(a + b) == two_pow(a) * two_pow(b),
    decreases b,
{
    if b == 0 {
        assert(a + b == a);
        assert(two_pow(b) == 1);
        assert(two_pow(a) * 1 == two_pow(a));
    } else {
        lemma_two_pow_add(a, (b - 1) as nat);
        assert(two_pow(a + b) == 2 * two_pow((a + b - 1) as nat));
        assert(two_pow(b) == 2 * two_pow((b - 1) as nat));
        assert((a + b - 1) as nat == a + (b - 1) as nat);
        assert(two_pow(a) * (2 * two_pow((b - 1) as nat)) == 2 * (two_pow(a) * two_pow(
            (b - 1) as nat,
        ))) by (nonlinear_arith);
    }
}

pub proof fn lemma_two_pow_constants()
    ensures
        two_pow(24) == 0x100_0000,
        two_pow(39) == 0x80_0000_0000,
        two_pow(64) == 0x1_0000_0000_0000_0000,
        two_pow(88) == 0x100_0000 * 0x1_0000_0000_0000_0000,
        two_pow(97) == 0x2_0000_0000_0000_0000_0000_0000,
        two_pow(27) == 0x800_0000,
        two_pow(67) == 0x8_0000_0000_0000_0000,
        two_pow(68) == 0x10_0000_0000_0000_0000,
        two_pow(91) == 0x800_0000_0000_0000_0000_0000,
        two_pow(66) == 0x4_0000_0000_0000_0000,
        two_pow(90) == 0x400_0000_0000_0000_0000_0000,
        two_pow(73) == 0x200_0000_0000_0000_0000,
        two_pow(74) == 0x400_0000_0000_0000_0000,
        two_pow(100) == 0x10_0000_0000_0000_0000_0000_0000,
        two_pow(10) == 0x400,
        two_pow(16) == 0x1_0000,
{
    reveal_with_fuel(two_pow, 10);
    assert(two_pow(9) == 0x200);
    assert(two_pow(8) == 0x100);
    assert(two_pow(7) == 0x80);
    lemma_two_pow_add(8, 8);
    assert(two_pow(16) == 0x1_0000);
    lemma_two_pow_add(16, 8);
    assert(two_pow(24) == 0x100_0000);
    lemma_two_pow_add(16, 16);
    assert(two_pow(32) == 0x1_0000_0000);
    lemma_two_pow_add(32, 7);
    assert(two_pow(39) == 0x80_0000_0000);
    lemma_two_pow_add(32, 32);
    assert(two_pow(64) == 0x1_0000_0000 * 0x1_0000_0000);
    lemma_two_pow_add(64, 24);
    assert(two_pow(88) == two_pow(64) * two_pow(24));
    lemma_two_pow_add(88, 9);
    assert(two_pow(97) == two_pow(88) * two_pow(9));
    lemma_two_pow_add(24, 3);
    lemma_two_pow_add(64, 3);
    lemma_two_pow_add(64, 4);
    lemma_two_pow_add(64, 27);
    lemma_two_pow_add(64, 2);
    lemma_two_pow_add(64, 26);
    lemma_two_pow_add(64, 9);
    lemma_two_pow_add(64, 10);
    assert(two_pow(10) == 0x400);
    lemma_two_pow_add(97, 3);
    assert(two_pow(2) == 4);
    assert(two_pow(26) == 0x400_0000);
    assert(two_pow(4) == 16);
    assert(two_pow(3) == 8);
}

pub proof fn lemma_two_pow_positive(n: nat)
    ensures
        two_pow(n) > 0,
    decreases n,
{
    if n > 0 {
        lemma_two_pow_positive((n - 1) as nat);
    }
}

pub proof fn lemma_two_pow_le(a: nat, b: nat)
    requires
        a <= b,
    ensures
        two_pow(a) <= two_pow(b),
    decreases b,
{
    if a < b {
        lemma_two_pow_le(a, (b - 1) as nat);
        lemma_two_pow_positive((b - 1) as nat);
    }
}

/// The least shift `s`, from `s` on and at most 128, with `p < q * 2^s * 2^24`.
pub open spec fn shift_of(p: nat, q: nat, s: nat) -> nat
    decreases 128 - s,
{
    if s >= 128 || p < q * two_pow(s) * 0x100_0000 {
        s
    } else {
        shift_of(p, q, s + 1)
    }
}

/// The mantissa and the shift of `p / q` rounded to 24 significant bits: the quotient by
/// `q * 2^s`, rounded to the nearest integer, ties to an even one.
pub open spec fn round_parts(p: nat, q: nat) -> (nat, nat) {
    let s = shift_of(p, q, 0);
    (round_div(p, q * two_pow(s)), s)
}

/// `p / d` rounded to the nearest integer, ties to the even one.
pub open spec fn round_div(p: nat, d: nat) -> nat {
    let m = p / d;
    let r = p % d;
    if 2 * r > d || (2 * r == d && m % 2 == 1) {
        m + 1
    } else {
        m
    }
}

/// Rounding to the nearest integer keeps the order.
pub proof fn lemma_round_div_monotone(a: nat, b: nat, d: nat)
    requires
        a <= b,
        d > 0,
    ensures
        round_div(a, d) <= round_div(b, d),
{
    let ma = a / d;
    let mb = b / d;
    lemma_fundamental_div_mod(a as int, d as int);
    lemma_fundamental_div_mod(b as int, d as int);
    assert(ma <= mb) by {
        lemma_div_is_ordered(a as int, b as int, d as int);
    }
    if ma == mb {
        let ra = a % d;
        let rb = b % d;
        assert(a == d * ma + ra);
        assert(b == d * ma + rb);
        assert(ra <= rb);
    }
}

/// Scaling the numerator and the denominator alike leaves the shift unchanged.
proof fn lemma_shift_scale(p: nat, q: nat, c: nat, s: nat)
    requires
        c >= 1,
    ensures
        shift_of(p * c, q * c, s) == shift_of(p, q, s),
    decreases 128 - s,
{
    let k = q * two_pow(s) * 0x100_0000;
    assert((q * c) * two_pow(s) * 0x100_0000 == k * c) by (nonlinear_arith)
        requires
            k == q * two_pow(s) * 0x100_0000,
    ;
    assert(p * c < k * c <==> p < k) by (nonlinear_arith)
        requires
            c >= 1,
    ;
    if s < 128 && !(p < k) {
        lemma_shift_scale(p, q, c, s + 1);
    }
}

/// Rounding `p / q` to binary32 depends on the ratio alone.
pub proof fn lemma_round_scale(p: nat, q: nat, c: nat)
    requires
        q >= 1,
        c >= 1,
    ensures
        round_parts(p * c, q * c) == round_parts(p, q),
        round_binary32(p * c, q * c) == round_binary32(p, q),
{
    lemma_shift_scale(p, q, c, 0);
    let s = shift_of(p, q, 0);
    let den = q * two_pow(s);
    lemma_two_pow_positive(s);
    assert(den >= 1) by (nonlinear_arith)
        requires
            q >= 1,
            two_pow(s) >= 1,
            den == q * two_pow(s),
    ;
    assert((q * c) * two_pow(s) == den * c) by (nonlinear_arith)
        requires
            den == q * two_pow(s),
    ;
    let m = p / den;
    let r = p % den;
    lemma_fundamental_div_mod(p as int, den as int);
    assert(p * c == m * (den * c) + r * c && 0 <= r * c < den * c) by (nonlinear_arith)
        requires
            p == den * m + r,
            0 <= r < den,
            c >= 1,
    ;
    lemma_fundamental_div_mod_converse((p * c) as int, (den * c) as int, m as int, (r * c) as int);
    assert(2 * (r * c) > den * c <==> 2 * r > den) by (nonlinear_arith)
        requires
            c >= 1,
    ;
    assert(2 * (r * c) == den * c <==> 2 * r == den) by (nonlinear_arith)
        requires
            c >= 1,
    ;
}

/// `p / q` rounded to binary32 (`f32`), to nearest with ties to even, for `p / q` an integer
/// or at least 2^23 (so that the 24 significant bits of the result are whole units): the
/// rounded mantissa times `2^shift`.
pub open spec fn round_binary32(p: nat, q: nat) -> nat {
    round_parts(p, q).0 * two_pow(round_parts(p, q).1)
}

/// `p / q` rounded to binary32: the mantissa, the shift and the value (see `round_binary32`).
pub fn round_exec(p: u128, q: u128) -> (r: (u128, u128, u128))
    requires
        1 <= q <= 0x1000_0000,
        p < 0x100_0000_0000_0000_0000_0000_0000_0000,
    ensures
        (r.0 as nat, r.1 as nat) == round_parts(p as nat, q as nat),
        r.2 as nat == round_binary32(p as nat, q as nat),
        r.0 <= 0x100_0000,
        r.2 <= 2 * (p / q) + 1,
        r.1 > 0 ==> r.0 >= 0x80_0000,
        r.1 > 0 ==> q * two_pow(r.1 as nat) * 0x80_0000 <= p,
        p > 0 && q == 1 ==> r.0 >= 1,
        p < q * two_pow(r.1 as nat) * 0x100_0000,
        p <= q * two_pow(91) ==> r.2 <= two_pow(91),
{
    let mut s: u128 = 0;
    let mut pw: u128 = 1;
    let mut limit: u128 = q * 0x100_0000;
    while s < 128 && p >= limit
        invariant
            1 <= q <= 0x1000_0000,
            p < 0x100_0000_0000_0000_0000_0000_0000_0000,
            s <= 128,
            pw as nat == two_pow(s as nat),
            limit == q * pw * 0x100_0000,
            limit <= 2 * p || s == 0,
            limit <= 0x1_0000_0000_0000_0000_0000_0000_0000_0000,
            s > 0 ==> q * pw * 0x80_0000 <= p,
            pw < 0x2_0000_0000_0000_0000_0000_0000,
            shift_of(p as nat, q as nat, 0) == shift_of(p as nat, q as nat, s as nat),
        decreases 128 - s,
    {
        assert(pw * 0x100_0000 <= limit) by (nonlinear_arith)
            requires
                limit == q * pw * 0x100_0000,
                q >= 1,
        ;
        assert(two_pow((s + 1) as nat) == 2 * two_pow(s as nat));
        assert(q * (pw * 2) * 0x100_0000 == 2 * (q * pw * 0x100_0000)) by (nonlinear_arith);
        assert(q * (pw * 2) * 0x80_0000 == q * pw * 0x100_0000) by (nonlinear_arith);
        s = s + 1;
        pw = pw * 2;
        limit = limit * 2;
    }
    proof {
        lemma_two_pow_positive(s as nat);
        if s == 128 {
            lemma_two_pow_constants();
            lemma_two_pow_le(97, 128);
            assert(false);
        }
        assert(q * pw >= 1) by (nonlinear_arith)
            requires
                q >= 1,
                pw >= 1,
        ;
        assert(q * pw <= limit) by (nonlinear_arith)
            requires
                limit == q * pw * 0x100_0000,
        ;
    }
    let den = q * pw;
    let m0 = p / den;
    let rem = p % den;
    proof {
        assert(m0 * den <= p) by (nonlinear_arith)
            requires
                m0 == p / den,
                den >= 1,
        ;
        assert(m0 < 0x100_0000) by (nonlinear_arith)
            requires
                m0 * den <= p,
                p < den * 0x100_0000,
                den >= 1,
        ;
    }
    let m = if 2 * rem > den || (2 * rem == den && m0 % 2 == 1) {
        m0 + 1
    } else {
        m0
    };
    proof {
        assert(m0 * pw <= p / q) by (nonlinear_arith)
            requires
                m0 * den <= p,
                den == q * pw,
                q >= 1,
        ;
        if s > 0 {
            assert(pw <= p / q) by (nonlinear_arith)
                requires
                    q * pw * 0x80_0000 <= p,
                    q >= 1,
            ;
            assert(m0 >= 0x80_0000) by (nonlinear_arith)
                requires
                    q * pw * 0x80_0000 <= p,
                    m0 == p / den,
                    den == q * pw,
                    den >= 1,
            ;
        } else {
            assert(pw == 1);
        }
        assert(m * pw <= m0 * pw + pw) by (nonlinear_arith)
            requires
                m <= m0 + 1,
        ;
        if p > 0 && q == 1 && s == 0 {
            assert(den == 1);
            assert(m0 == p) by (nonlinear_arith)
                requires
                    m0 == p / den,
                    den == 1,
            ;
        }
    }
    proof {
        if p <= q * two_pow(91) {
            lemma_two_pow_constants();
            if s >= 69 {
                lemma_two_pow_le(69, s as nat);
                lemma_two_pow_add(68, 1);
                assert(false) by (nonlinear_arith)
                    requires
                        q * pw * 0x80_0000 <= p,
                        p <= q * 0x800_0000_0000_0000_0000_0000,
                        pw >= 2 * 0x10_0000_0000_0000_0000,
                        q >= 1,
                ;
            } else if s == 68 {
                assert(p <= den * 0x80_0000) by (nonlinear_arith)
                    requires
                        p <= q * 0x800_0000_0000_0000_0000_0000,
                        den == q * pw,
                        pw == 0x10_0000_0000_0000_0000,
                ;
                assert(m0 <= 0x80_0000) by (nonlinear_arith)
                    requires
                        m0 * den <= p,
                        p <= den * 0x80_0000,
                        den >= 1,
                ;
                if m0 == 0x80_0000 {
                    lemma_fundamental_div_mod(p as int, den as int);
                    assert(rem == 0) by (nonlinear_arith)
                        requires
                            p == den * m0 + rem,
                            p <= den * 0x80_0000,
                            m0 == 0x80_0000,
                            rem >= 0,
                    ;
                }
                assert(m * pw <= 0x800_0000_0000_0000_0000_0000) by (nonlinear_arith)
                    requires
                        m <= 0x80_0000,
                        pw == 0x10_0000_0000_0000_0000,
                ;
            } else {
                lemma_two_pow_le(s as nat, 67);
                assert(m * pw <= 0x800_0000_0000_0000_0000_0000) by (nonlinear_arith)
                    requires
                        m <= 0x100_0000,
                        pw <= 0x8_0000_0000_0000_0000,
                ;
            }
        }
    }
    (m, s, m * pw)
}

proof fn lemma_shift_ge(p: nat, q: nat, s: nat)
    ensures
        shift_of(p, q, s) >= s,
        s <= 128 ==> shift_of(p, q, s) <= 128,
    decreases 128 - s,
{
    if s < 128 && !(p < q * two_pow(s) * 0x100_0000) {
        lemma_shift_ge(p, q, s + 1);
    }
}

/// Below 128, the shift that `shift_of` finds brings `p / q` under 2^24.
proof fn lemma_shift_fits(p: nat, q: nat, s: nat)
    requires
        shift_of(p, q, s) < 128,
    ensures
        p < q * two_pow(shift_of(p, q, s)) * 0x100_0000,
    decreases 128 - s,
{
    if s < 128 && !(p < q * two_pow(s) * 0x100_0000) {
        lemma_shift_fits(p, q, s + 1);
    }
}

/// Below the shift that `shift_of` finds, `p` is too large for 24 bits.
proof fn lemma_shift_least(p: nat, q: nat, s: nat, t: nat)
    requires
        s <= t < shift_of(p, q, s),
    ensures
        p >= q * two_pow(t) * 0x100_0000,
    decreases 128 - s,
{
    if s < t {
        lemma_shift_least(p, q, s + 1, t);
    }
}

/// Where `p < q * 2^t * 2^24`, the shift is at most `t`.
proof fn lemma_shift_at_most(p: nat, q: nat, s: nat, t: nat)
    requires
        s <= t,
        p < q * two_pow(t) * 0x100_0000,
    ensures
        shift_of(p, q, s) <= t,
    decreases t - s,
{
    if s < t && s < 128 && !(p < q * two_pow(s) * 0x100_0000) {
        lemma_shift_at_most(p, q, s + 1, t);
    }
}

proof fn lemma_shift_monotone(p1: nat, p2: nat, q: nat, s: nat)
    requires
        p1 <= p2,
    ensures
        shift_of(p1, q, s) <= shift_of(p2, q, s),
    decreases 128 - s,
{
    lemma_shift_ge(p2, q, s);
    if s < 128 && !(p1 < q * two_pow(s) * 0x100_0000) {
        lemma_shift_monotone(p1, p2, q, s + 1);
    }
}

/// Rounding to binary32 keeps the order (for quotients below 2^124).
pub proof fn lemma_round_binary32_monotone(p1: nat, p2: nat, q: nat)
    requires
        p1 <= p2,
        q >= 1,
        p2 < q * two_pow(100),
    ensures
        round_binary32(p1, q) <= round_binary32(p2, q),
{
    let s1 = shift_of(p1, q, 0);
    let s2 = shift_of(p2, q, 0);
    lemma_shift_monotone(p1, p2, q, 0);
    lemma_two_pow_positive(100);
    assert(q * two_pow(100) <= q * two_pow(100) * 0x100_0000) by (nonlinear_arith)
        requires
            q >= 1,
            two_pow(100) >= 1,
    ;
    lemma_shift_at_most(p2, q, 0, 100);
    lemma_two_pow_positive(s1);
    lemma_two_pow_positive(s2);
    let d1 = q * two_pow(s1);
    let d2 = q * two_pow(s2);
    assert(d1 >= 1 && d2 >= 1) by (nonlinear_arith)
        requires
            q >= 1,
            two_pow(s1) >= 1,
            two_pow(s2) >= 1,
            d1 == q * two_pow(s1),
            d2 == q * two_pow(s2),
    ;
    let m1 = round_div(p1, d1);
    let m2 = round_div(p2, d2);
    if s1 == s2 {
        lemma_round_div_monotone(p1, p2, d1);
        assert(m1 * two_pow(s1) <= m2 * two_pow(s2)) by (nonlinear_arith)
            requires
                m1 <= m2,
                s1 == s2,
        ;
    } else {
        // `p1 / d1` is below 2^24 and `p2 / d2` at least 2^23.
        lemma_shift_fits(p1, q, 0);
        assert(p1 < d1 * 0x100_0000) by (nonlinear_arith)
            requires
                p1 < q * two_pow(s1) * 0x100_0000,
                d1 == q * two_pow(s1),
        ;
        lemma_fundamental_div_mod(p1 as int, d1 as int);
        assert(p1 / d1 < 0x100_0000) by (nonlinear_arith)
            requires
                p1 == d1 * (p1 / d1) + p1 % d1,
                p1 % d1 >= 0,
                p1 < d1 * 0x100_0000,
                d1 >= 1,
        ;
        assert(m1 <= 0x100_0000);
        lemma_shift_least(p2, q, 0, (s2 - 1) as nat);
        assert(two_pow(s2) == 2 * two_pow((s2 - 1) as nat));
        assert(p2 >= d2 * 0x80_0000) by (nonlinear_arith)
            requires
                p2 >= q * two_pow((s2 - 1) as nat) * 0x100_0000,
                two_pow(s2) == 2 * two_pow((s2 - 1) as nat),
                d2 == q * two_pow(s2),
        ;
        lemma_div_is_ordered((d2 * 0x80_0000) as int, p2 as int, d2 as int);
        lemma_fundamental_div_mod_converse((d2 * 0x80_0000) as int, d2 as int, 0x80_0000, 0);
        assert(m2 >= 0x80_0000);
        lemma_two_pow_le((s1 + 1) as nat, s2);
        assert(two_pow((s1 + 1) as nat) == 2 * two_pow(s1));
        assert(m1 * two_pow(s1) <= m2 * two_pow(s2)) by (nonlinear_arith)
            requires
                m1 <= 0x100_0000,
                m2 >= 0x80_0000,
                two_pow(s2) >= 2 * two_pow(s1),
        ;
    }
}

/// Rounding to binary32 at most doubles a quotient, give or take one.
pub proof fn lemma_round_upper(p: nat, q: nat)
    requires
        q >= 1,
        p < q * two_pow(100),
    ensures
        round_binary32(p, q) * q <= 2 * p + q,
{
    let s = shift_of(p, q, 0);
    lemma_two_pow_positive(100);
    assert(q * two_pow(100) <= q * two_pow(100) * 0x100_0000) by (nonlinear_arith)
        requires
            q >= 1,
            two_pow(100) >= 1,
    ;
    lemma_shift_at_most(p, q, 0, 100);
    lemma_two_pow_positive(s);
    let d = q * two_pow(s);
    assert(d >= q) by (nonlinear_arith)
        requires
            d == q * two_pow(s),
            two_pow(s) >= 1,
    ;
    let m = round_div(p, d);
    lemma_fundamental_div_mod(p as int, d as int);
    assert(m <= p / d + 1);
    assert(m * two_pow(s) * q <= p + d) by (nonlinear_arith)
        requires
            m <= p / d + 1,
            p == d * (p / d) + p % d,
            p % d >= 0,
            d == q * two_pow(s),
    ;
    if s > 0 {
        lemma_shift_least(p, q, 0, (s - 1) as nat);
        assert(two_pow(s) == 2 * two_pow((s - 1) as nat));
        assert(p >= d) by (nonlinear_arith)
            requires
                p >= q * two_pow((s - 1) as nat) * 0x100_0000,
                two_pow(s) == 2 * two_pow((s - 1) as nat),
                d == q * two_pow(s),
        ;
    } else {
        assert(s == 0);
        assert(two_pow(s) == 1);
        assert(d == q) by (nonlinear_arith)
            requires
                d == q * two_pow(s),
                two_pow(s) == 1,
        ;
    }
    assert(round_binary32(p, q) == m * two_pow(s));
    assert(round_binary32(p, q) * q == m * two_pow(s) * q) by (nonlinear_arith)
        requires
            round_binary32(p, q) == m * two_pow(s),
    ;
}

/// A value with 24 significant bits, `m * 2^s` (`m` below 2^24, and at least 2^23 unless
/// `s` is 0), rounds to itself.
pub proof fn lemma_round_exact(m: nat, s: nat, q: nat)
    requires
        m < 0x100_0000,
        s == 0 || m >= 0x80_0000,
        s <= 100,
        q >= 1,
    ensures
        round_binary32(m * two_pow(s) * q, q) == m * two_pow(s),
{
    let p = m * two_pow(s) * q;
    let d = q * two_pow(s);
    lemma_two_pow_positive(s);
    assert(p == m * d && p < q * two_pow(s) * 0x100_0000) by (nonlinear_arith)
        requires
            p == m * two_pow(s) * q,
            d == q * two_pow(s),
            m < 0x100_0000,
            q >= 1,
            two_pow(s) >= 1,
    ;
    lemma_shift_at_most(p, q, 0, s);
    let t = shift_of(p, q, 0);
    if t < s {
        lemma_shift_fits(p, q, 0);
        lemma_two_pow_le((t + 1) as nat, s);
        assert(two_pow((t + 1) as nat) == 2 * two_pow(t));
        assert(false) by (nonlinear_arith)
            requires
                p < q * two_pow(t) * 0x100_0000,
                p == m * two_pow(s) * q,
                m >= 0x80_0000,
                two_pow(s) >= 2 * two_pow(t),
                q >= 1,
        ;
    }
    assert(d >= 1) by (nonlinear_arith)
        requires
            d == q * two_pow(s),
            q >= 1,
            two_pow(s) >= 1,
    ;
    lemma_fundamental_div_mod_converse(p as int, d as int, m as int, 0);
}

/// Rounding to binary32 moves a quotient by at most one part in 2^24 of it, plus half a unit.
pub proof fn lemma_round_close(p: nat, q: nat)
    requires
        q >= 1,
        p < q * two_pow(100),
    ensures
        round_binary32(p, q) * q * 0x100_0000 <= p * 0x100_0001 + q * 0x80_0000,
        round_binary32(p, q) * q * 0x100_0000 + q * 0x80_0000 >= p * 0xFF_FFFF,
{
    let s = shift_of(p, q, 0);
    lemma_two_pow_positive(100);
    assert(q * two_pow(100) <= q * two_pow(100) * 0x100_0000) by (nonlinear_arith)
        requires
            q >= 1,
            two_pow(100) >= 1,
    ;
    lemma_shift_at_most(p, q, 0, 100);
    lemma_two_pow_positive(s);
    let d = q * two_pow(s);
    assert(d >= 1) by (nonlinear_arith)
        requires
            d == q * two_pow(s),
            q >= 1,
            two_pow(s) >= 1,
    ;
    let m = round_div(p, d);
    lemma_fundamental_div_mod(p as int, d as int);
    let fl = p / d;
    let r = p % d;
    // Nearest rounding: `m * d` is within `d / 2` of `p`.
    assert(2 * (m * d) <= 2 * p + d && 2 * (m * d) + d >= 2 * p) by (nonlinear_arith)
        requires
            p == d * fl + r,
            0 <= r < d,
            m == fl || m == fl + 1,
            m == fl + 1 ==> 2 * r >= d,
            m == fl ==> 2 * r <= d,
    ;
    // The unit `d` is at most `p / 2^23`, or `q` itself.
    if s > 0 {
        lemma_shift_least(p, q, 0, (s - 1) as nat);
        assert(two_pow(s) == 2 * two_pow((s - 1) as nat));
        assert(d * 0x80_0000 <= p) by (nonlinear_arith)
            requires
                p >= q * two_pow((s - 1) as nat) * 0x100_0000,
                two_pow(s) == 2 * two_pow((s - 1) as nat),
                d == q * two_pow(s),
        ;
    } else {
        assert(two_pow(s) == 1);
        assert(d == q) by (nonlinear_arith)
            requires
                d == q * two_pow(s),
                two_pow(s) == 1,
        ;
    }
    assert(d * 0x80_0000 <= p + q * 0x80_0000);
    assert(round_binary32(p, q) == m * two_pow(s));
    assert(round_binary32(p, q) * q == m * d) by (nonlinear_arith)
        requires
            round_binary32(p, q) == m * two_pow(s),
            d == q * two_pow(s),
    ;
    assert(round_binary32(p, q) * q * 0x100_0000 == (m * d) * 0x100_0000) by (nonlinear_arith)
        requires
            round_binary32(p, q) * q == m * d,
    ;
}

/// `n as f32`, in units of 1.
pub open spec fn f32_of(n: nat) -> nat {
    round_binary32(n, 1)
}

/// `a as f32 / b as f32` computed in binary32, in units of 2^-91.
pub open spec fn quotient32(a: nat, b: nat) -> nat {
    round_binary32(f32_of(a) * two_pow(91), f32_of(b))
}

/// Two to the power `n`.
fn pow2_exec(n: u128) -> (r: u128)
    requires
        n <= 100,
    ensures
        r as nat == two_pow(n as nat),
{
    let mut r: u128 = 1;
    let mut i: u128 = 0;
    while i < n
        invariant
            i <= n <= 100,
            r as nat == two_pow(i as nat),
        decreases n - i,
    {
        proof {
            lemma_two_pow_le(i as nat, 99);
            lemma_two_pow_constants();
            lemma_two_pow_add(97, 2);
            assert(two_pow(2) == 4) by {
                reveal_with_fuel(two_pow, 3);
            }
        }
        r = r * 2;
        i = i + 1;
    }
    r
}

/// `a as f32 / b as f32` in binary32, for `a <= b`: in units of 2^-91, at most one.
pub fn quotient_exec(a: u128, b: u128) -> (r: u128)
    requires
        a <= b,
        1 <= b,
        b < 0x1_0000_0000_0000_0000,
    ensures
        r as nat == quotient32(a as nat, b as nat),
        r <= two_pow(91),
{
    let (ma, sa, va) = round_exec(a, 1);
    let (mb, sb, vb) = round_exec(b, 1);
    proof {
        lemma_two_pow_constants();
        lemma_two_pow_positive(sa as nat);
        lemma_two_pow_positive(sb as nat);
        assert(two_pow(24) == 2 * two_pow(23));
        if sa > sb {
            lemma_two_pow_le((sb + 1) as nat, sa as nat);
            assert(two_pow((sb + 1) as nat) == 2 * two_pow(sb as nat));
            assert(false) by (nonlinear_arith)
                requires
                    1 * two_pow(sa as nat) * 0x80_0000 <= a,
                    a <= b,
                    b < 1 * two_pow(sb as nat) * 0x100_0000,
                    two_pow(sa as nat) >= 2 * two_pow(sb as nat),
            ;
        }
        if sb >= 41 {
            lemma_two_pow_le(41, sb as nat);
            lemma_two_pow_add(41, 23);
            assert(false) by (nonlinear_arith)
                requires
                    1 * two_pow(sb as nat) * 0x80_0000 <= b,
                    b < 0x1_0000_0000_0000_0000,
                    two_pow(sb as nat) >= two_pow(41),
                    two_pow(41) * 0x80_0000 == 0x1_0000_0000_0000_0000,
            ;
        }
    }
    let sh = 91 - (sb - sa);
    let pw = pow2_exec(sh);
    proof {
        lemma_two_pow_le(sh as nat, 91);
        assert(ma * pw <= 0x100_0000 * 0x800_0000_0000_0000_0000_0000) by (nonlinear_arith)
            requires
                ma <= 0x100_0000,
                pw <= 0x800_0000_0000_0000_0000_0000,
        ;
    }
    let p = ma * pw;
    let (_, _, v) = round_exec(p, mb);
    proof {
        let ghost tb = two_pow(sb as nat);
        lemma_two_pow_add(sh as nat, sb as nat);
        lemma_two_pow_add(sa as nat, 91);
        assert((sh + sb) as nat == (sa + 91) as nat);
        assert(p * tb == va * two_pow(91)) by (nonlinear_arith)
            requires
                p == ma * pw,
                pw == two_pow(sh as nat),
                tb == two_pow(sb as nat),
                va == ma * two_pow(sa as nat),
                two_pow((sh + sb) as nat) == two_pow(sh as nat) * two_pow(sb as nat),
                two_pow((sa + 91) as nat) == two_pow(sa as nat) * two_pow(91),
                (sh + sb) as nat == (sa + 91) as nat,
        ;
        lemma_round_scale(p as nat, mb as nat, tb);
        assert(vb == mb * tb);
        // `a <= b`, so `a as f32 <= b as f32`.
        if sa < sb {
            lemma_two_pow_le((sa + 1) as nat, sb as nat);
            assert(two_pow((sa + 1) as nat) == 2 * two_pow(sa as nat));
            assert(va <= vb) by (nonlinear_arith)
                requires
                    va == ma * two_pow(sa as nat),
                    vb == mb * tb,
                    ma <= 0x100_0000,
                    mb >= 0x80_0000,
                    tb >= 2 * two_pow(sa as nat),
            ;
        } else {
            assert(sa == sb);
            lemma_round_div_monotone(a as nat, b as nat, 1 * two_pow(sa as nat));
            assert(ma <= mb);
            assert(va <= vb) by (nonlinear_arith)
                requires
                    va == ma * two_pow(sa as nat),
                    vb == mb * two_pow(sa as nat),
                    ma <= mb,
            ;
        }
        assert(p <= mb * two_pow(91)) by (nonlinear_arith)
            requires
                p * tb == va * two_pow(91),
                va <= vb,
                vb == mb * tb,
                tb > 0,
        ;
    }
    v
}

/// `a as f32 / b as f32` is at most one for `a <= b`.
pub proof fn lemma_quotient_at_most_one(a: nat, b: nat)
    requires
        a <= b,
        1 <= b < 0x1_0000_0000_0000_0000,
    ensures
        quotient32(a, b) <= two_pow(91),
{
    lemma_two_pow_constants();
    lemma_two_pow_le(64, 100);
    lemma_round_binary32_monotone(a, b, 1);
    lemma_round_binary32_monotone(1, b, 1);
    lemma_round_exact(1, 0, 1);
    assert(1 * two_pow(0) * 1 == 1);
    let fa = f32_of(a);
    let fb = f32_of(b);
    assert(fb >= 1);
    lemma_two_pow_le(92, 100);
    assert(two_pow(92) == 2 * two_pow(91));
    assert(fa * two_pow(91) <= fb * two_pow(91) && fb * two_pow(91) < fb * two_pow(100)) by (
    nonlinear_arith)
        requires
            fa <= fb,
            fb >= 1,
            two_pow(91) < two_pow(100),
    ;
    lemma_round_binary32_monotone(fa * two_pow(91), fb * two_pow(91), fb);
    lemma_round_scale(two_pow(91), 1, fb);
    assert(two_pow(91) * fb == fb * two_pow(91) && 1 * fb == fb) by (nonlinear_arith);
    lemma_round_exact(0x80_0000, 68, 1);
    assert(0x80_0000 * two_pow(68) * 1 == two_pow(91));
}

} // verus!
