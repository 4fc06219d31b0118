//! Modular inversion of `Vli` integers by the binary extended Euclidean
//! algorithm, for odd moduli.
use vstd::prelude::*;
use crate::bytes::{limb_radix, limbs_value};
use crate::vli::{
    lemma_limbs_value_bound, lemma_limbs_value_cons, lemma_limbs_value_single, radix_pow, Vli,
};

verus! {

/// `y` is a multiplicative inverse of `x` modulo `m`.
pub open spec fn is_inverse_mod(x: nat, y: nat, m: nat) -> bool {
    (x * y) % m == 1
}

/// `x` has a multiplicative inverse modulo `m`.
pub open spec fn invertible_mod(x: nat, m: nat) -> bool {
    exists|y: nat| #[trigger] is_inverse_mod(x, y, m)
}

/// The inverse of `x` modulo `m` below `m`, where there is one.
pub open spec fn inverse_mod(x: nat, m: nat) -> nat {
    choose|y: nat| y < m && #[trigger] is_inverse_mod(x, y, m)
}

/// Below the modulus, an inverse is unique, so `inverse_mod` names it.
pub proof fn lemma_inverse_unique(x: nat, y: nat, m: nat)
    requires
        m > 1,
        y < m,
        is_inverse_mod(x, y, m),
    ensures
        inverse_mod(x, m) == y,
{
    let z = inverse_mod(x, m);
    assert(z < m && is_inverse_mod(x, z, m));
    let (xi, yi, zi, mi) = (x as int, y as int, z as int, m as int);
    // y = y (x z) = (y x) z = z  (mod m)
    vstd::arithmetic::div_mod::lemma_mul_mod_noop_right(yi, xi * zi, mi);
    vstd::arithmetic::div_mod::lemma_mul_mod_noop_left(xi * yi, zi, mi);
    assert(yi * (xi * zi) == (xi * yi) * zi) by (nonlinear_arith);
    vstd::arithmetic::div_mod::lemma_small_mod(1, m);
    assert(yi * 1 == yi && 1 * zi == zi);
    vstd::arithmetic::div_mod::lemma_small_mod(y, m);
    vstd::arithmetic::div_mod::lemma_small_mod(z, m);
}

/// `m` is a prime: above one, with no divisor strictly between one and
/// itself.
pub open spec fn is_prime(m: nat) -> bool {
    m > 1 && forall|d: nat| 1 < d < m ==> #[trigger] (m % d) != 0
}

/// Modulo a prime, every nonzero residue has an inverse.
pub proof fn lemma_prime_units_invertible(x: nat, m: nat)
    requires
        is_prime(m),
        0 < x < m,
    ensures
        invertible_mod(x, m),
    decreases x,
{
    if x == 1 {
        vstd::arithmetic::div_mod::lemma_small_mod(1, m);
        assert(is_inverse_mod(1, 1, m));
    } else {
        let (xi, mi) = (x as int, m as int);
        vstd::arithmetic::div_mod::lemma_fundamental_div_mod(mi, xi);
        vstd::arithmetic::div_mod::lemma_mod_bound(mi, xi);
        let q = mi / xi;
        let r = mi % xi;
        assert(m % x != 0);
        assert(0 < r < xi);
        // m = x q + r, so r = -x q (mod m): invert r and negate.
        lemma_prime_units_invertible(r as nat, m);
        let y1 = choose|y: nat| #[trigger] is_inverse_mod(r as nat, y, m);
        let yi = y1 as int;
        assert(q >= 0) by {
            vstd::arithmetic::div_mod::lemma_div_pos_is_pos(mi, xi);
        }
        assert((mi - 1) * q * yi >= 0) by (nonlinear_arith)
            requires
                mi > 1,
                q >= 0,
                yi >= 0,
        ;
        let y = ((mi - 1) * q * yi) as nat;
        let b = (xi * q) * yi;
        assert(xi * ((mi - 1) * q * yi) == b * (mi - 1)) by (nonlinear_arith)
            requires
                b == (xi * q) * yi,
        ;
        assert(b * (mi - 1) == mi * b - b) by (nonlinear_arith);
        assert(b == mi * yi - r * yi) by (nonlinear_arith)
            requires
                b == (xi * q) * yi,
                xi * q == mi - r,
        ;
        let k = b - yi;
        assert(mi * b - b == mi * k + r * yi) by (nonlinear_arith)
            requires
                k == b - yi,
                b == mi * yi - r * yi,
        ;
        vstd::arithmetic::div_mod::lemma_mod_multiples_vanish(k, r * yi, mi);
        assert(is_inverse_mod(x, y, m));
    }
}

/// `d` divides `x`.
pub open spec fn divides(d: int, x: int) -> bool {
    x % d == 0
}

proof fn lemma_cong_diff(p: int, q: int, m: int)
    requires
        m > 0,
    ensures
        (p % m == q % m) <==> (p - q) % m == 0,
{
    vstd::arithmetic::div_mod::lemma_fundamental_div_mod(p, m);
    vstd::arithmetic::div_mod::lemma_fundamental_div_mod(q, m);
    let p1 = p / m;
    let q1 = q / m;
    assert(p - q == m * (p1 - q1) + (p % m - q % m)) by (nonlinear_arith)
        requires
            p == m * p1 + p % m,
            q == m * q1 + q % m,
    ;
    vstd::arithmetic::div_mod::lemma_mod_multiples_vanish(p1 - q1, p % m - q % m, m);
    vstd::arithmetic::div_mod::lemma_mod_bound(p, m);
    vstd::arithmetic::div_mod::lemma_mod_bound(q, m);
    if p % m - q % m >= 0 {
        vstd::arithmetic::div_mod::lemma_small_mod((p % m - q % m) as nat, m as nat);
    } else {
        vstd::arithmetic::div_mod::lemma_mod_add_multiples_vanish(p % m - q % m, m);
        vstd::arithmetic::div_mod::lemma_small_mod((m + (p % m - q % m)) as nat, m as nat);
    }
}

/// For an odd modulus, `m | 2 y` implies `m | y`.
proof fn lemma_odd_cancel_two(y: int, m: int)
    requires
        m > 0,
        m % 2 == 1,
        (2 * y) % m == 0,
    ensures
        y % m == 0,
{
    vstd::arithmetic::div_mod::lemma_fundamental_div_mod(2 * y, m);
    let q = (2 * y) / m;
    assert(2 * y == m * q);
    vstd::arithmetic::div_mod::lemma_fundamental_div_mod(q, 2);
    vstd::arithmetic::div_mod::lemma_fundamental_div_mod(m, 2);
    let j = q / 2;
    let mj = m / 2;
    if q % 2 == 1 {
        assert(m * q == 2 * (2 * mj * j + mj + j) + 1) by (nonlinear_arith)
            requires
                q == 2 * j + 1,
                m == 2 * mj + 1,
        ;
        assert(false);
    }
    assert(y == m * j) by (nonlinear_arith)
        requires
            2 * y == m * q,
            q == 2 * j + q % 2,
            q % 2 == 0,
    ;
    vstd::arithmetic::div_mod::lemma_mod_multiples_basic(j, m);
    assert(j * m == m * j) by (nonlinear_arith);
}

/// Halving step: if `u x = a (mod m)`, `2 h = u (mod m)` and `a = 2 a2`,
/// then `h x = a2 (mod m)`.
proof fn lemma_half_step(u: int, h: int, x: int, a: int, a2: int, m: int)
    requires
        m > 0,
        m % 2 == 1,
        (u * x) % m == a % m,
        (2 * h) % m == u % m,
        a == 2 * a2,
    ensures
        (h * x) % m == a2 % m,
{
    vstd::arithmetic::div_mod::lemma_mul_mod_noop_left(2 * h, x, m);
    vstd::arithmetic::div_mod::lemma_mul_mod_noop_left(u, x, m);
    assert((2 * h) * x == 2 * (h * x)) by (nonlinear_arith);
    assert((2 * (h * x)) % m == a % m);
    lemma_cong_diff(2 * (h * x), a, m);
    assert(2 * (h * x) - a == 2 * (h * x - a2));
    lemma_odd_cancel_two(h * x - a2, m);
    lemma_cong_diff(h * x, a2, m);
}

/// Subtraction step: if `u x = a`, `v x = b` and `w + v = u (mod m)`, then
/// `w x = a - b (mod m)`.
proof fn lemma_sub_step(u: int, v: int, w: int, x: int, a: int, b: int, m: int)
    requires
        m > 0,
        (u * x) % m == a % m,
        (v * x) % m == b % m,
        (w + v) % m == u % m,
    ensures
        (w * x) % m == (a - b) % m,
{
    lemma_cong_diff(w + v, u, m);
    assert((w + v - u) * x == w * x + v * x - u * x) by (nonlinear_arith);
    vstd::arithmetic::div_mod::lemma_mul_mod_noop_left(w + v - u, x, m);
    vstd::arithmetic::div_mod::lemma_small_mod(0, m as nat);
    assert(((w + v - u) * x) % m == 0) by {
        assert(((w + v - u) % m) * x == 0 * x);
        assert(0 * x == 0);
    }
    lemma_cong_diff(u * x, a, m);
    lemma_cong_diff(v * x, b, m);
    let e = w * x - (a - b);
    assert(e == (w * x + v * x - u * x) - (v * x - b) + (u * x - a));
    divides_sum3((w + v - u) * x, v * x - b, u * x - a, m);
    lemma_cong_diff(w * x, a - b, m);
}

proof fn divides_sum3(p: int, q: int, r: int, m: int)
    requires
        m > 0,
        p % m == 0,
        q % m == 0,
        r % m == 0,
    ensures
        (p - q + r) % m == 0,
{
    vstd::arithmetic::div_mod::lemma_fundamental_div_mod(p, m);
    vstd::arithmetic::div_mod::lemma_fundamental_div_mod(q, m);
    vstd::arithmetic::div_mod::lemma_fundamental_div_mod(r, m);
    let k = p / m - q / m + r / m;
    assert(p - q + r == m * k) by (nonlinear_arith)
        requires
            p == m * (p / m),
            q == m * (q / m),
            r == m * (r / m),
            k == p / m - q / m + r / m,
    ;
    vstd::arithmetic::div_mod::lemma_mod_multiples_basic(k, m);
    assert(k * m == m * k) by (nonlinear_arith);
}

proof fn lemma_divides_lin(d: int, p: int, q: int, k: int)
    requires
        d > 0,
        divides(d, p),
        divides(d, q),
    ensures
        divides(d, k * p + q),
        divides(d, p - q),
{
    vstd::arithmetic::div_mod::lemma_fundamental_div_mod(p, d);
    vstd::arithmetic::div_mod::lemma_fundamental_div_mod(q, d);
    let pi = p / d;
    let qi = q / d;
    assert(k * p + q == d * (k * pi + qi)) by (nonlinear_arith)
        requires
            p == d * pi,
            q == d * qi,
    ;
    assert(p - q == d * (pi - qi)) by (nonlinear_arith)
        requires
            p == d * pi,
            q == d * qi,
    ;
    vstd::arithmetic::div_mod::lemma_mod_multiples_basic(k * pi + qi, d);
    vstd::arithmetic::div_mod::lemma_mod_multiples_basic(pi - qi, d);
    assert((k * pi + qi) * d == d * (k * pi + qi)) by (nonlinear_arith);
    assert((pi - qi) * d == d * (pi - qi)) by (nonlinear_arith);
}

/// The common divisors of `a` and `b` divide both `x` and `m`.
pub open spec fn common_divisors_divide(a: int, b: int, x: int, m: int) -> bool {
    forall|d: int|
        d > 0 && #[trigger] divides(d, a) && #[trigger] divides(d, b) ==> divides(d, x) && divides(
            d,
            m,
        )
}

proof fn lemma_final_is_one(g: int, x: int, m: int)
    requires
        g > 0,
        m > 1,
        common_divisors_divide(g, g, x, m),
        invertible_mod(x as nat, m as nat),
        x >= 0,
    ensures
        g == 1,
{
    vstd::arithmetic::div_mod::lemma_mod_self_0(g);
    assert(divides(g, g));
    assert(divides(g, x) && divides(g, m));
    let y = choose|y: nat| #[trigger] is_inverse_mod(x as nat, y, m as nat);
    vstd::arithmetic::div_mod::lemma_fundamental_div_mod(x * y, m);
    let q = (x * y) / m;
    assert(x * y == m * q + 1);
    lemma_divides_lin(g, x, 0, y as int);
    assert(y * x + 0 == x * y) by (nonlinear_arith);
    lemma_divides_lin(g, m, 0, q);
    assert(q * m + 0 == m * q) by (nonlinear_arith);
    lemma_divides_lin(g, x * y, m * q, 0);
    assert(x * y - m * q == 1);
    if g > 1 {
        vstd::arithmetic::div_mod::lemma_small_mod(1, g as nat);
    }
}

/// Two raised to the 63rd power.
proof fn lemma_half_radix()
    ensures
        limb_radix() == 2 * 0x8000_0000_0000_0000,
{
}

proof fn lemma_shift_limb(l: u64, c: u64)
    requires
        c <= 1,
    ensures
        ((l >> 1u64) | (c << 63u64)) as int == l as int / 2 + c as int * 0x8000_0000_0000_0000,
        (l & 1u64) as int == l as int % 2,
{
    assert(((l >> 1u64) | (c << 63u64)) == l / 2 + c * 0x8000_0000_0000_0000u64) by (bit_vector)
        requires
            c <= 1,
    ;
    assert((l & 1u64) == l % 2) by (bit_vector);
}

proof fn lemma_shift_step(l: int, s: int, q: int, c: int, o: int)
    requires
        0 <= l,
        s >= 0,
        s == 2 * q + c,
        0 <= c <= 1,
        o == l / 2 + c * 0x8000_0000_0000_0000,
    ensures
        o + limb_radix() * q == (l + limb_radix() * s) / 2,
        (l + limb_radix() * s) % 2 == l % 2,
{
    lemma_half_radix();
    let r = limb_radix() as int;
    let e = r * s;
    assert(e == 2 * (r * q + c * 0x8000_0000_0000_0000)) by (nonlinear_arith)
        requires
            e == r * s,
            s == 2 * q + c,
            r == 2 * 0x8000_0000_0000_0000,
    ;
    let t = r * q + c * 0x8000_0000_0000_0000;
    vstd::arithmetic::div_mod::lemma_fundamental_div_mod(l, 2);
    assert(l + e == 2 * (l / 2 + t) + l % 2);
    vstd::arithmetic::div_mod::lemma_fundamental_div_mod_converse(l + e, 2, l / 2 + t, l % 2);
}

impl<const N: usize> Vli<N> {
    /// Whether the integer is even.
    pub fn is_even(&self) -> (r: bool)
        requires
            N > 0,
        ensures
            r == (self.value() % 2 == 0),
    {
        proof {
            lemma_limbs_value_cons(self@, 0);
            assert(self@.subrange(0, N as int) =~= self@);
            let rest = limbs_value(self@.subrange(1, N as int)) as int;
            let l0 = self@[0] as int;
            assert(l0 + rest * limb_radix() == 2 * (rest * 0x8000_0000_0000_0000) + l0)
                by (nonlinear_arith);
            vstd::arithmetic::div_mod::lemma_mod_multiples_vanish(
                rest * 0x8000_0000_0000_0000,
                l0,
                2,
            );
        }
        self.0[0] % 2 == 0
    }

    /// `(self + top 2^(64 N)) / 2`, rounding down, for a top bit `top`.
    pub fn rshift1(&self, top: u64) -> (r: Self)
        requires
            top <= 1,
        ensures
            r.value() == (self.value() + top * radix_pow(N as nat)) / 2,
    {
        let mut out = Self::zero();
        let mut c: u64 = top;
        let mut i: usize = N;
        proof {
            assert(self@.subrange(N as int, N as int) =~= Seq::<u64>::empty());
            assert(out@.subrange(N as int, N as int) =~= Seq::<u64>::empty());
            vstd::arithmetic::power::lemma_pow0(limb_radix() as int);
            assert(top * radix_pow(0) == top) by (nonlinear_arith)
                requires
                    radix_pow(0) == 1,
            ;
        }
        while i > 0
            invariant
                i <= N,
                self@.len() == N,
                out@.len() == N,
                top <= 1,
                c <= 1,
                limbs_value(out@.subrange(i as int, N as int)) == (limbs_value(
                    self@.subrange(i as int, N as int),
                ) + top * radix_pow((N - i) as nat)) / 2,
                c == (limbs_value(self@.subrange(i as int, N as int)) + top * radix_pow(
                    (N - i) as nat,
                )) % 2,
            decreases i,
        {
            i = i - 1;
            let l = self.0[i];
            let ghost old_out = out@;
            let ghost s = limbs_value(self@.subrange(i + 1, N as int)) + top * radix_pow(
                (N - (i + 1)) as nat,
            );
            out.0[i] = (l >> 1) | (c << 63);
            let c2 = l & 1;
            proof {
                lemma_shift_limb(l, c);
                assert(out@.subrange(i + 1, N as int) =~= old_out.subrange(i + 1, N as int));
                lemma_limbs_value_cons(out@, i as int);
                lemma_limbs_value_cons(self@, i as int);
                crate::vli::lemma_radix_pow_succ((N - (i + 1)) as nat);
                let q = s / 2;
                vstd::arithmetic::div_mod::lemma_fundamental_div_mod(s as int, 2);
                assert(top * radix_pow((N - i) as nat) == limb_radix() * (top * radix_pow(
                    (N - (i + 1)) as nat,
                ))) by (nonlinear_arith)
                    requires
                        radix_pow((N - i) as nat) == radix_pow((N - (i + 1)) as nat)
                            * limb_radix(),
                ;
                lemma_shift_step(l as int, s as int, q as int, c as int, out@[i as int] as int);
            }
            c = c2;
        }
        proof {
            assert(self@.subrange(0, N as int) =~= self@);
            assert(out@.subrange(0, N as int) =~= out@);
        }
        out
    }

    /// Half of `self` modulo the odd `modulus`: the `h` below the modulus
    /// with `2 h = self (mod modulus)`.
    pub fn half_mod(&self, modulus: &Self) -> (h: Self)
        requires
            N > 0,
            self.value() < modulus.value(),
            modulus.value() % 2 == 1,
        ensures
            h.value() < modulus.value(),
            (2 * h.value()) % modulus.value() == self.value() % modulus.value(),
    {
        let ghost m = modulus.value() as int;
        let ghost u = self.value() as int;
        let ghost mn = modulus.value();
        if self.is_even() {
            let h = self.rshift1(0);
            proof {
                assert(0 * radix_pow(N as nat) == 0) by (nonlinear_arith);
                vstd::arithmetic::div_mod::lemma_fundamental_div_mod(u, 2);
                assert(2 * h.value() == u);
            }
            h
        } else {
            let (s, c) = self.carrying_add(modulus, 0);
            let h = s.rshift1(c);
            proof {
                let p = radix_pow(N as nat);
                assert(s.value() + c * p == u + m);
                vstd::arithmetic::div_mod::lemma_fundamental_div_mod(u, 2);
                vstd::arithmetic::div_mod::lemma_fundamental_div_mod(m, 2);
                assert((u + m) % 2 == 0) by {
                    vstd::arithmetic::div_mod::lemma_fundamental_div_mod_converse(
                        u + m,
                        2,
                        u / 2 + m / 2 + 1,
                        0,
                    );
                }
                vstd::arithmetic::div_mod::lemma_fundamental_div_mod(u + m, 2);
                assert(2 * h.value() == u + m);
                vstd::arithmetic::div_mod::lemma_mod_add_multiples_vanish(u, m);
            }
            h
        }
    }

    /// `self - right` modulo `modulus`, for operands below the modulus.
    pub fn sub_mod(&self, right: &Self, modulus: &Self) -> (w: Self)
        requires
            self.value() < modulus.value(),
            right.value() < modulus.value(),
        ensures
            w.value() < modulus.value(),
            w.value() == if self.value() >= right.value() {
                self.value() - right.value()
            } else {
                self.value() - right.value() + modulus.value()
            },
    {
        let (d, bw) = self.sub_with_borrow(right);
        if bw == 0 {
            proof {
                assert(bw * radix_pow(N as nat) == 0);
            }
            d
        } else {
            let (e, c) = d.carrying_add(modulus, 0);
            proof {
                let p = radix_pow(N as nat);
                lemma_limbs_value_bound(e@);
                lemma_limbs_value_bound(d@);
                lemma_limbs_value_bound(modulus@);
                assert(bw * p == p);
                if c == 0 {
                    assert(c * p == 0);
                } else {
                    assert(c * p == p);
                }
            }
            e
        }
    }

    /// Whether two integers have the same value.
    pub fn same_value(&self, other: &Self) -> (r: bool)
        ensures
            r == (self.value() == other.value()),
    {
        let (d, bw) = self.sub_with_borrow(other);
        proof {
            lemma_limbs_value_bound(self@);
            lemma_limbs_value_bound(other@);
            if bw == 0 {
                assert(bw * radix_pow(N as nat) == 0);
            } else {
                assert(bw * radix_pow(N as nat) == radix_pow(N as nat));
            }
        }
        bw == 0 && d.is_zero()
    }

    /// The multiplicative inverse of `self` modulo the odd `modulus`, by
    /// the binary extended Euclidean algorithm.  Zero has none and gives
    /// zero; an invertible value gives its inverse.
    pub fn mod_inv(&self, modulus: &Self) -> (r: Self)
        requires
            modulus.value() > 1,
            modulus.value() % 2 == 1,
        ensures
            r.value() < modulus.value(),
            self.value() == 0 ==> r.value() == 0,
            invertible_mod(self.value(), modulus.value()) ==> (r.value() * self.value())
                % modulus.value() == 1,
            invertible_mod(self.value(), modulus.value()) ==> r.value() == inverse_mod(
                self.value(),
                modulus.value(),
            ),
    {
        let ghost m = modulus.value();
        let ghost x = self.value();
        let ghost mi = m as int;
        let ghost xi = x as int;
        assert(mi > 1);
        proof {
            lemma_limbs_value_bound(modulus@);
            if N == 0 {
                vstd::arithmetic::power::lemma_pow0(limb_radix() as int);
            }
        }
        if self.is_zero() {
            let z = Self::zero();
            return z;
        }
        let mut a = self.clone();
        let mut b = modulus.clone();
        let mut u = Self::zero();
        u.0[0] = 1;
        let mut v = Self::zero();
        proof {
            lemma_limbs_value_single(u@);
            vstd::arithmetic::div_mod::lemma_small_mod(0, m as nat);
            assert((v.value() * x) % m == 0);
            vstd::arithmetic::div_mod::lemma_mod_self_0(mi);
            assert(u.value() * x == x) by (nonlinear_arith)
                requires
                    u.value() == 1,
            ;
            assert((u.value() * x) % m == x % m);
            assert(common_divisors_divide(a.value() as int, b.value() as int, xi, mi));
        }
        let mut equal = a.same_value(&b);
        while !equal
            invariant
                N > 0,
                m == modulus.value(),
                m > 1,
                m % 2 == 1,
                x == self.value(),
                a.value() > 0,
                b.value() > 0,
                u.value() < m,
                v.value() < m,
                (u.value() * x) % m == a.value() % m,
                (v.value() * x) % m == b.value() % m,
                common_divisors_divide(a.value() as int, b.value() as int, xi, mi),
                equal == (a.value() == b.value()),
                mi == m as int,
                xi == x as int,
            decreases a.value() + b.value(),
        {
            let ghost a0 = a.value() as int;
            let ghost b0 = b.value() as int;
            if a.is_even() {
                a = a.rshift1(0);
                let h = u.half_mod(modulus);
                proof {
                    assert(0 * radix_pow(N as nat) == 0) by (nonlinear_arith);
                    vstd::arithmetic::div_mod::lemma_fundamental_div_mod(a0, 2);
                    lemma_half_step(u.value() as int, h.value() as int, xi, a0, a.value() as int, mi);
                    assert forall|d: int|
                        d > 0 && #[trigger] divides(d, a.value() as int) && #[trigger] divides(
                            d,
                            b0,
                        ) implies divides(d, xi) && divides(d, mi) by {
                        lemma_divides_lin(d, a.value() as int, 0, 2);
                        vstd::arithmetic::div_mod::lemma_mod_self_0(d);
                        vstd::arithmetic::div_mod::lemma_small_mod(0, d as nat);
                        assert(divides(d, 0));
                        assert(divides(d, a0));
                    }
                }
                u = h;
            } else if b.is_even() {
                b = b.rshift1(0);
                let h = v.half_mod(modulus);
                proof {
                    assert(0 * radix_pow(N as nat) == 0) by (nonlinear_arith);
                    vstd::arithmetic::div_mod::lemma_fundamental_div_mod(b0, 2);
                    lemma_half_step(v.value() as int, h.value() as int, xi, b0, b.value() as int, mi);
                    assert forall|d: int|
                        d > 0 && #[trigger] divides(d, a0) && #[trigger] divides(
                            d,
                            b.value() as int,
                        ) implies divides(d, xi) && divides(d, mi) by {
                        lemma_divides_lin(d, b.value() as int, 0, 2);
                        vstd::arithmetic::div_mod::lemma_small_mod(0, d as nat);
                        assert(divides(d, b0));
                    }
                }
                v = h;
            } else {
                let (ab, a_lt_b) = a.sub_with_borrow(&b);
                if a_lt_b == 0 {
                    a = ab.rshift1(0);
                    let w = u.sub_mod(&v, modulus);
                    let h = w.half_mod(modulus);
                    proof {
                        assert(a_lt_b * radix_pow(N as nat) == 0);
                        assert(0 * radix_pow(N as nat) == 0) by (nonlinear_arith);
                        vstd::arithmetic::div_mod::lemma_fundamental_div_mod(a0, 2);
                        vstd::arithmetic::div_mod::lemma_fundamental_div_mod(b0, 2);
                        vstd::arithmetic::div_mod::lemma_fundamental_div_mod(a0 - b0, 2);
                        assert(a0 - b0 == 2 * (a0 / 2 - b0 / 2));
                        vstd::arithmetic::div_mod::lemma_fundamental_div_mod_converse(
                            a0 - b0,
                            2,
                            a0 / 2 - b0 / 2,
                            0,
                        );
                        assert(a0 - b0 == 2 * a.value());
                        if u.value() < v.value() {
                            vstd::arithmetic::div_mod::lemma_mod_add_multiples_vanish(u.value() as int, mi);
                        }
                        lemma_sub_step(
                            u.value() as int,
                            v.value() as int,
                            w.value() as int,
                            xi,
                            a0,
                            b0,
                            mi,
                        );
                        lemma_half_step(
                            w.value() as int,
                            h.value() as int,
                            xi,
                            a0 - b0,
                            a.value() as int,
                            mi,
                        );
                        assert forall|d: int|
                            d > 0 && #[trigger] divides(d, a.value() as int) && #[trigger] divides(
                                d,
                                b0,
                            ) implies divides(d, xi) && divides(d, mi) by {
                            lemma_divides_lin(d, a.value() as int, b0, 2);
                            assert(divides(d, a0));
                        }
                    }
                    u = h;
                } else {
                    let (ba, _) = b.sub_with_borrow(&a);
                    b = ba.rshift1(0);
                    let w = v.sub_mod(&u, modulus);
                    let h = w.half_mod(modulus);
                    proof {
                        assert(0 * radix_pow(N as nat) == 0) by (nonlinear_arith);
                        assert(a0 != b0);
                        assert(b0 > a0);
                        vstd::arithmetic::div_mod::lemma_fundamental_div_mod(a0, 2);
                        vstd::arithmetic::div_mod::lemma_fundamental_div_mod(b0, 2);
                        vstd::arithmetic::div_mod::lemma_fundamental_div_mod_converse(
                            b0 - a0,
                            2,
                            b0 / 2 - a0 / 2,
                            0,
                        );
                        assert(b0 - a0 == 2 * b.value());
                        if v.value() < u.value() {
                            vstd::arithmetic::div_mod::lemma_mod_add_multiples_vanish(v.value() as int, mi);
                        }
                        lemma_sub_step(
                            v.value() as int,
                            u.value() as int,
                            w.value() as int,
                            xi,
                            b0,
                            a0,
                            mi,
                        );
                        lemma_half_step(
                            w.value() as int,
                            h.value() as int,
                            xi,
                            b0 - a0,
                            b.value() as int,
                            mi,
                        );
                        assert forall|d: int|
                            d > 0 && #[trigger] divides(d, a0) && #[trigger] divides(
                                d,
                                b.value() as int,
                            ) implies divides(d, xi) && divides(d, mi) by {
                            lemma_divides_lin(d, b.value() as int, a0, 2);
                            assert(divides(d, b0));
                        }
                    }
                    v = h;
                }
            }
            equal = a.same_value(&b);
        }
        proof {
            if invertible_mod(x as nat, m as nat) {
                lemma_final_is_one(a.value() as int, xi, mi);
                vstd::arithmetic::div_mod::lemma_small_mod(1, m as nat);
                assert((u.value() * x) % m == 1);
                assert(x * u.value() == u.value() * x) by (nonlinear_arith);
                lemma_inverse_unique(x, u.value(), m);
            }
        }
        u
    }
}

} // verus!
