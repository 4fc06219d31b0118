//! Variable-length unsigned integers of `N` little-endian 64-bit limbs, as
//! used for P-256 scalars and coordinates.
use vstd::prelude::*;
use vstd::arithmetic::power::pow;
use crate::bytes::{
    be_bytes_to_limbs, be_value, lemma_limbs_be_bytes_of_read, lemma_limbs_be_bytes_value,
    limb_radix, limbs_be_bytes, limbs_value, swap_u64, swap_u64_spec, u64_from_be_at, unswapped,
};

verus! {

/// `2^(64 k)`, the radix of `k` limbs.
pub open spec fn radix_pow(k: nat) -> nat {
    pow(limb_radix() as int, k) as nat
}

/// A `N`-limb integer, least significant limb first.
pub struct Vli<const N: usize>(pub [u64; N]);

impl<const N: usize> View for Vli<N> {
    type V = Seq<u64>;

    open spec fn view(&self) -> Seq<u64> {
        self.0@
    }
}

impl<const N: usize> Vli<N> {
    /// The integer the limbs stand for.
    pub open spec fn value(&self) -> nat {
        limbs_value(self@)
    }
}

/// P-256 scalar / coordinate (4 limbs, 256 bits).
pub type Scalar = Vli<4>;

pub proof fn lemma_radix_pow_succ(k: nat)
    ensures
        radix_pow(k + 1) == radix_pow(k) * limb_radix(),
        radix_pow(k) > 0,
{
    vstd::arithmetic::power::lemma_pow_adds(limb_radix() as int, k, 1);
    vstd::arithmetic::power::lemma_pow1(limb_radix() as int);
    vstd::arithmetic::power::lemma_pow_positive(limb_radix() as int, k);
}

/// The limbs' value is below the radix of that many limbs.
pub proof fn lemma_limbs_value_bound(l: Seq<u64>)
    ensures
        limbs_value(l) < radix_pow(l.len()),
    decreases l.len(),
{
    if l.len() == 0 {
        vstd::arithmetic::power::lemma_pow0(limb_radix() as int);
    } else {
        let n1 = (l.len() - 1) as nat;
        lemma_limbs_value_bound(l.drop_last());
        lemma_radix_pow_succ(n1);
        let p = radix_pow(n1);
        let v = limbs_value(l.drop_last());
        let x = l.last() as nat;
        assert(v + x * p < p * limb_radix()) by (nonlinear_arith)
            requires
                v < p,
                x < limb_radix(),
                x <= limb_radix() - 1,
        ;
    }
}

/// The limbs' value splits at any limb boundary.
pub proof fn lemma_limbs_value_split(l: Seq<u64>, k: int)
    requires
        0 <= k <= l.len(),
    ensures
        limbs_value(l) == limbs_value(l.subrange(0, k)) + limbs_value(l.subrange(k, l.len() as int))
            * radix_pow(k as nat),
    decreases l.len(),
{
    if k == l.len() {
        assert(l.subrange(0, k) =~= l);
        assert(l.subrange(k, l.len() as int) =~= Seq::<u64>::empty());
        assert(limbs_value(l.subrange(k, l.len() as int)) == 0);
        assert(limbs_value(l.subrange(0, k)) == limbs_value(l));
    } else {
        let d = l.drop_last();
        lemma_limbs_value_split(d, k);
        assert(d.subrange(0, k) =~= l.subrange(0, k));
        let hi = l.subrange(k, l.len() as int);
        assert(hi.drop_last() =~= d.subrange(k, d.len() as int));
        assert(hi.last() == l.last());
        vstd::arithmetic::power::lemma_pow_adds(limb_radix() as int, (l.len() - 1 - k) as nat, k as nat);
        vstd::arithmetic::power::lemma_pow_positive(limb_radix() as int, (l.len() - 1 - k) as nat);
        vstd::arithmetic::power::lemma_pow_positive(limb_radix() as int, k as nat);
        assert((l.len() - 1 - k) as nat + k as nat == (l.len() - 1) as nat);
        let a = limbs_value(d.subrange(k, d.len() as int));
        let x = l.last() as nat;
        let pk = radix_pow(k as nat);
        let ph = radix_pow((l.len() - 1 - k) as nat);
        assert((a + x * ph) * pk == a * pk + x * (ph * pk)) by (nonlinear_arith);
        assert(limbs_value(hi) == a + x * ph);
        assert(radix_pow((l.len() - 1) as nat) == ph * pk);
        assert(limbs_value(l) == limbs_value(d) + x * radix_pow((l.len() - 1) as nat));
        assert(limbs_value(d) == limbs_value(l.subrange(0, k)) + a * pk);
        assert(limbs_value(l.subrange(k, l.len() as int)) * pk == a * pk + x * (ph * pk));
        assert(x * radix_pow((l.len() - 1) as nat) == x * (ph * pk));
        assert(limbs_value(l) == limbs_value(l.subrange(0, k)) + limbs_value(l.subrange(k, l.len() as int))
            * radix_pow(k as nat));
    }
}

/// Extending limbs by one more significant limb.
pub proof fn lemma_limbs_value_push(l: Seq<u64>, i: int)
    requires
        0 <= i < l.len(),
    ensures
        limbs_value(l.subrange(0, i + 1)) == limbs_value(l.subrange(0, i)) + l[i] as nat
            * radix_pow(i as nat),
{
    assert(l.subrange(0, i + 1).drop_last() =~= l.subrange(0, i));
}

/// The value of the limbs from `i` on: limb `i` plus the rest one radix up.
pub proof fn lemma_limbs_value_cons(l: Seq<u64>, i: int)
    requires
        0 <= i < l.len(),
    ensures
        limbs_value(l.subrange(i, l.len() as int)) == l[i] as int + limbs_value(
            l.subrange(i + 1, l.len() as int),
        ) * limb_radix(),
{
    let t = l.subrange(i, l.len() as int);
    lemma_limbs_value_split(t, 1);
    assert(t.subrange(0, 1) =~= seq![l[i]]);
    assert(t.subrange(1, t.len() as int) =~= l.subrange(i + 1, l.len() as int));
    assert(seq![l[i]].drop_last() =~= Seq::<u64>::empty());
    reveal_with_fuel(limbs_value, 2);
    vstd::arithmetic::power::lemma_pow0(limb_radix() as int);
    vstd::arithmetic::power::lemma_pow1(limb_radix() as int);
    assert(limbs_value(seq![l[i]]) == l[i] as nat * pow(limb_radix() as int, 0) as nat);
    let h = limbs_value(l.subrange(i + 1, l.len() as int));
    assert(l[i] as nat * pow(limb_radix() as int, 0) as nat == l[i]) by (nonlinear_arith)
        requires
            pow(limb_radix() as int, 0) == 1,
    ;
    assert(h * radix_pow(1) == h * limb_radix()) by (nonlinear_arith)
        requires
            radix_pow(1) == limb_radix(),
    ;
}

/// Limbs that are zero apart from the lowest are worth that lowest limb.
pub proof fn lemma_limbs_value_single(l: Seq<u64>)
    requires
        l.len() >= 1,
        forall|k: int| 1 <= k < l.len() ==> l[k] == 0,
    ensures
        limbs_value(l) == l[0],
{
    lemma_limbs_value_cons(l, 0);
    assert(l.subrange(0, l.len() as int) =~= l);
    lemma_limbs_value_zero(l.subrange(1, l.len() as int));
}

/// Subtracting what was added gives the first operand back: if `s, c` is the
/// sum and carry of `a + b` and `d, w` the difference and borrow of
/// `s - b`, then `d` is worth `a`, and the borrow is the carry.
pub proof fn lemma_sub_undoes_add(a: nat, b: nat, s: nat, c: nat, d: nat, w: nat, n: nat)
    requires
        a < radix_pow(n),
        b < radix_pow(n),
        s < radix_pow(n),
        d < radix_pow(n),
        c <= 1,
        w <= 1,
        s + c * radix_pow(n) == a + b,
        d == s - b + w * radix_pow(n),
    ensures
        d == a,
        w == c,
{
    let p = radix_pow(n);
    if c == 0 {
        assert(c * p == 0);
    } else {
        assert(c * p == p);
    }
    if w == 0 {
        assert(w * p == 0);
    } else {
        assert(w * p == p);
    }
}

/// Limbs are worth zero exactly when all of them are zero.
pub proof fn lemma_limbs_value_zero(l: Seq<u64>)
    ensures
        limbs_value(l) == 0 <==> forall|i: int| 0 <= i < l.len() ==> l[i] == 0,
    decreases l.len(),
{
    if l.len() > 0 {
        let d = l.drop_last();
        lemma_limbs_value_zero(d);
        lemma_radix_pow_succ((l.len() - 1) as nat);
        let p = radix_pow((l.len() - 1) as nat);
        let x = l.last() as nat;
        assert(x * p == 0 <==> x == 0) by (nonlinear_arith)
            requires
                p > 0,
        ;
        if limbs_value(l) == 0 {
            assert forall|i: int| 0 <= i < l.len() implies l[i] == 0 by {
                if i < l.len() - 1 {
                    assert(d[i] == l[i]);
                }
            }
        }
        if forall|i: int| 0 <= i < l.len() ==> l[i] == 0 {
            assert forall|i: int| 0 <= i < d.len() implies d[i] == 0 by {
                assert(d[i] == l[i]);
            }
        }
    }
}

proof fn lemma_add_step(
    vl: int,
    va: int,
    vb: int,
    c: int,
    cin: int,
    p: int,
    ai: int,
    bi: int,
    t: int,
    li: int,
    c2: int,
)
    requires
        vl + c * p == va + vb + cin,
        t == ai + bi + c,
        li + c2 * limb_radix() == t,
    ensures
        (vl + li * p) + c2 * (p * limb_radix()) == (va + ai * p) + (vb + bi * p) + cin,
{
    assert((vl + li * p) + c2 * (p * limb_radix()) == vl + (li + c2 * limb_radix()) * p)
        by (nonlinear_arith);
    assert((ai + bi + c) * p == ai * p + bi * p + c * p) by (nonlinear_arith);
}

proof fn lemma_sub_step(
    vd: int,
    va: int,
    vb: int,
    bw: int,
    p: int,
    ai: int,
    bi: int,
    di: int,
    bw2: int,
)
    requires
        vd == va - vb + bw * p,
        di - bw2 * limb_radix() == ai - bi - bw,
    ensures
        vd + di * p == (va + ai * p) - (vb + bi * p) + bw2 * (p * limb_radix()),
{
    assert(di * p == (ai - bi - bw + bw2 * limb_radix()) * p);
    assert((ai - bi - bw + bw2 * limb_radix()) * p == ai * p - bi * p - bw * p + bw2 * (p
        * limb_radix())) by (nonlinear_arith);
}


proof fn lemma_mod_shift(x: int, y: int, k: int, m: int)
    requires
        m > 0,
        x == m * k + y,
    ensures
        x % m == y % m,
{
    vstd::arithmetic::div_mod::lemma_mod_multiples_vanish(k, y, m);
}

/// `(2 (q mod m) + bit) mod m == (2 q + bit) mod m`.
proof fn lemma_double_mod(q: int, bit: int, m: int)
    requires
        m > 0,
        q >= 0,
    ensures
        ((q % m) + (q % m) + bit) % m == (2 * q + bit) % m,
{
    vstd::arithmetic::div_mod::lemma_fundamental_div_mod(q, m);
    let k = q / m;
    assert(2 * q + bit == m * (2 * k) + ((q % m) + (q % m) + bit)) by (nonlinear_arith)
        requires
            q == m * k + q % m,
    ;
    lemma_mod_shift(2 * q + bit, (q % m) + (q % m) + bit, 2 * k, m);
}

/// One step of reading a word from its most significant bit down:
/// `x / 2^j == 2 (x / 2^(j+1)) + bit j of x`.
proof fn lemma_next_bit(x: u64, j: u64)
    requires
        j < 64,
    ensures
        ((x >> j) & 1u64) as int == (x as int / vstd::arithmetic::power2::pow2(j as nat) as int) % 2,
        x as int / vstd::arithmetic::power2::pow2(j as nat) as int == 2 * (x as int
            / vstd::arithmetic::power2::pow2((j + 1) as nat) as int) + ((x >> j) & 1u64) as int,
{
    vstd::bits::lemma_u64_shr_is_div(x, j);
    let y = x >> j;
    assert(y & 1u64 == y % 2) by (bit_vector);
    vstd::arithmetic::power2::lemma_pow2_pos(j as nat);
    vstd::arithmetic::power2::lemma_pow2_adds(j as nat, 1);
    vstd::arithmetic::power2::lemma_pow2(1);
    vstd::arithmetic::power2::lemma2_to64();
    let p = vstd::arithmetic::power2::pow2(j as nat) as int;
    vstd::arithmetic::div_mod::lemma_div_denominator(x as int, p, 2);
    vstd::arithmetic::div_mod::lemma_fundamental_div_mod(x as int / p, 2);
}

impl<const N: usize> Vli<N> {
    /// The integer zero.
    pub fn zero() -> (r: Self)
        ensures
            r@ == Seq::new(N as nat, |i: int| 0u64),
            r.value() == 0,
    {
        let r = Vli([0u64; N]);
        assert(r@ =~= Seq::new(N as nat, |i: int| 0u64));
        proof {
            lemma_limbs_value_zero(r@);
        }
        r
    }

    /// The integer with the given limbs.
    pub fn from_limbs(limbs: [u64; N]) -> (r: Self)
        ensures
            r@ == limbs@,
    {
        Vli(limbs)
    }

    /// The limbs.
    pub fn limbs(&self) -> (r: &[u64; N])
        ensures
            r@ == self@,
    {
        &self.0
    }

    /// Whether the integer is zero.
    pub fn is_zero(&self) -> (r: bool)
        ensures
            r <==> self.value() == 0,
            r <==> forall|i: int| 0 <= i < N ==> self@[i] == 0,
    {
        proof {
            lemma_limbs_value_zero(self@);
        }
        let mut i: usize = 0;
        while i < N
            invariant
                i <= N,
                self@.len() == N,
                forall|k: int| 0 <= k < i ==> self@[k] == 0,
            decreases N - i,
        {
            if self.0[i] != 0 {
                assert(self@[i as int] != 0);
                assert(!(forall|k: int| 0 <= k < self@.len() ==> self@[k] == 0));
                proof {
                    lemma_limbs_value_zero(self@);
                }
                return false;
            }
            i = i + 1;
        }
        true
    }

    /// Add `right` and an initial `carry`, returning the sum modulo
    /// `2^(64 N)` and the carry out of the top limb.
    pub fn carrying_add(&self, right: &Self, carry: u64) -> (r: (Self, u64))
        ensures
            r.0.value() + r.1 * radix_pow(N as nat) == self.value() + right.value() + carry,
            N > 0 ==> r.1 <= 2,
            carry <= 1 ==> r.1 <= 1,
    {
        let mut limbs = [0u64; N];
        let mut c: u64 = carry;
        let mut i: usize = 0;
        proof {
            vstd::arithmetic::power::lemma_pow0(limb_radix() as int);
            assert(radix_pow(0) == 1);
            assert(limbs@.subrange(0, 0) =~= Seq::<u64>::empty());
            assert(self@.subrange(0, 0) =~= Seq::<u64>::empty());
            assert(right@.subrange(0, 0) =~= Seq::<u64>::empty());
        }
        while i < N
            invariant
                i <= N,
                limbs@.len() == N,
                self@.len() == N,
                right@.len() == N,
                i > 0 ==> c <= 2,
                carry <= 1 ==> c <= 1,
                i == 0 ==> c == carry,
                limbs_value(limbs@.subrange(0, i as int)) + c * radix_pow(i as nat) == limbs_value(
                    self@.subrange(0, i as int),
                ) + limbs_value(right@.subrange(0, i as int)) + carry,
            decreases N - i,
        {
            let t: u128 = self.0[i] as u128 + right.0[i] as u128 + c as u128;
            let li = (t % 0x1_0000_0000_0000_0000u128) as u64;
            let c2 = (t / 0x1_0000_0000_0000_0000u128) as u64;
            let ghost old_limbs = limbs@;
            limbs[i] = li;
            proof {
                assert(limbs@.subrange(0, i as int) =~= old_limbs.subrange(0, i as int));
                lemma_limbs_value_push(limbs@, i as int);
                lemma_limbs_value_push(self@, i as int);
                lemma_limbs_value_push(right@, i as int);
                lemma_radix_pow_succ(i as nat);
                lemma_add_step(
                    limbs_value(old_limbs.subrange(0, i as int)) as int,
                    limbs_value(self@.subrange(0, i as int)) as int,
                    limbs_value(right@.subrange(0, i as int)) as int,
                    c as int,
                    carry as int,
                    radix_pow(i as nat) as int,
                    self@[i as int] as int,
                    right@[i as int] as int,
                    t as int,
                    li as int,
                    c2 as int,
                );
            }
            c = c2;
            i = i + 1;
        }
        proof {
            assert(limbs@.subrange(0, N as int) =~= limbs@);
            assert(self@.subrange(0, N as int) =~= self@);
            assert(right@.subrange(0, N as int) =~= right@);
        }
        (Vli(limbs), c)
    }

    /// Subtract `right`, returning the difference modulo `2^(64 N)` and the
    /// borrow out of the top limb.
    pub fn sub_with_borrow(&self, right: &Self) -> (r: (Self, u64))
        ensures
            r.0.value() == self.value() - right.value() + r.1 * radix_pow(N as nat),
            r.1 == 1 <==> self.value() < right.value(),
            r.1 == 0 <==> self.value() >= right.value(),
    {
        let mut limbs = [0u64; N];
        let mut borrow: u64 = 0;
        let mut i: usize = 0;
        proof {
            vstd::arithmetic::power::lemma_pow0(limb_radix() as int);
            assert(limbs@.subrange(0, 0) =~= Seq::<u64>::empty());
            assert(self@.subrange(0, 0) =~= Seq::<u64>::empty());
            assert(right@.subrange(0, 0) =~= Seq::<u64>::empty());
        }
        while i < N
            invariant
                i <= N,
                limbs@.len() == N,
                self@.len() == N,
                right@.len() == N,
                borrow <= 1,
                limbs_value(limbs@.subrange(0, i as int)) == limbs_value(self@.subrange(0, i as int))
                    - limbs_value(right@.subrange(0, i as int)) + borrow * radix_pow(i as nat),
            decreases N - i,
        {
            let a = self.0[i];
            let b = right.0[i];
            let di: u64;
            let b2: u64;
            if (a as u128) >= (b as u128) + (borrow as u128) {
                di = a - b - borrow;
                b2 = 0;
            } else {
                di = ((a as u128) + 0x1_0000_0000_0000_0000u128 - (b as u128) - (
                borrow as u128)) as u64;
                b2 = 1;
            }
            let ghost old_limbs = limbs@;
            limbs[i] = di;
            proof {
                assert(limbs@.subrange(0, i as int) =~= old_limbs.subrange(0, i as int));
                lemma_limbs_value_push(limbs@, i as int);
                lemma_limbs_value_push(self@, i as int);
                lemma_limbs_value_push(right@, i as int);
                lemma_radix_pow_succ(i as nat);
                lemma_sub_step(
                    limbs_value(old_limbs.subrange(0, i as int)) as int,
                    limbs_value(self@.subrange(0, i as int)) as int,
                    limbs_value(right@.subrange(0, i as int)) as int,
                    borrow as int,
                    radix_pow(i as nat) as int,
                    a as int,
                    b as int,
                    di as int,
                    b2 as int,
                );
            }
            borrow = b2;
            i = i + 1;
        }
        proof {
            assert(limbs@.subrange(0, N as int) =~= limbs@);
            assert(self@.subrange(0, N as int) =~= self@);
            assert(right@.subrange(0, N as int) =~= right@);
            lemma_limbs_value_bound(limbs@);
            lemma_limbs_value_bound(self@);
            lemma_limbs_value_bound(right@);
        }
        (Vli(limbs), borrow)
    }

    /// `(self + right + carry) mod modulus`, for operands already reduced.
    pub fn add_mod(&self, right: &Self, carry: u64, modulus: &Self) -> (r: Self)
        requires
            self.value() < modulus.value(),
            right.value() < modulus.value(),
            carry <= 1,
        ensures
            r.value() == (self.value() + right.value() + carry) % (modulus.value() as int),
            r.value() < modulus.value(),
    {
        let (s, c) = self.carrying_add(right, carry);
        let (d, borrow) = s.sub_with_borrow(modulus);
        let ghost total = self.value() + right.value() + carry;
        let ghost m = modulus.value();
        proof {
            lemma_limbs_value_bound(modulus@);
            lemma_limbs_value_bound(d@);
            lemma_limbs_value_bound(s@);
            let p = radix_pow(N as nat);
            if c == 0 {
                assert(c * p == 0);
            } else {
                assert(c == 1);
                assert(c * p == p);
            }
            if borrow == 0 {
                assert(borrow * p == 0);
            } else {
                assert(borrow * p == p);
            }
            if total < m {
                vstd::arithmetic::div_mod::lemma_small_mod(total as nat, m as nat);
            } else {
                vstd::arithmetic::div_mod::lemma_small_mod((total - m) as nat, m as nat);
                lemma_mod_shift(total, total - m, 1, m as int);
            }
        }
        if c != 0 || borrow == 0 {
            d
        } else {
            s
        }
    }

    /// `self mod modulus`.
    pub fn mod_reduce(&self, modulus: &Self) -> (r: Self)
        requires
            modulus.value() > 0,
        ensures
            r.value() == self.value() % modulus.value(),
            r.value() < modulus.value(),
    {
        let ghost m = modulus.value() as int;
        let mut r = Self::zero();
        let ghost mut q: int = 0;
        let mut i: usize = N;
        proof {
            vstd::arithmetic::div_mod::lemma_small_mod(0, m as nat);
            assert(self@.subrange(N as int, N as int) =~= Seq::<u64>::empty());
        }
        while i > 0
            invariant
                i <= N,
                self@.len() == N,
                m == modulus.value(),
                m > 0,
                r.value() < m,
                q == limbs_value(self@.subrange(i as int, N as int)),
                r.value() == q % m,
            decreases i,
        {
            i = i - 1;
            let limb = self.0[i];
            let ghost hi = q;
            let mut j: u64 = 64;
            proof {
                vstd::arithmetic::power2::lemma_pow2_pos(64);
                assert(vstd::arithmetic::power2::pow2(64) == limb_radix()) by {
                    vstd::arithmetic::power2::lemma2_to64();
                    vstd::arithmetic::power2::lemma2_to64_rest();
                }
                vstd::arithmetic::power2::lemma_pow2(0);
                vstd::arithmetic::div_mod::lemma_basic_div(limb as int, limb_radix() as int);
                vstd::arithmetic::power2::lemma2_to64();
                assert(hi * vstd::arithmetic::power2::pow2(0) == hi) by (nonlinear_arith)
                    requires
                        vstd::arithmetic::power2::pow2(0) == 1,
                ;
            }
            while j > 0
                invariant
                    j <= 64,
                    m == modulus.value(),
                    m > 0,
                    r.value() < m,
                    r.value() == q % m,
                    q == hi * vstd::arithmetic::power2::pow2((64 - j) as nat) + limb as int
                        / vstd::arithmetic::power2::pow2(j as nat) as int,
                    hi >= 0,
                    q >= 0,
                decreases j,
            {
                j = j - 1;
                let bit = (limb >> j) & 1;
                proof {
                    lemma_next_bit(limb, j);
                    lemma_double_mod(q, bit as int, m);
                    vstd::arithmetic::power2::lemma_pow2_adds((64 - (j + 1)) as nat, 1);
                    vstd::arithmetic::power2::lemma2_to64();
                    let pa = vstd::arithmetic::power2::pow2((64 - (j + 1)) as nat) as int;
                    let lb = limb as int / vstd::arithmetic::power2::pow2((j + 1) as nat) as int;
                    assert(2 * (hi * pa + lb) + bit as int == hi * (pa * 2) + (2 * lb
                        + bit as int)) by (nonlinear_arith);
                    q = 2 * q + bit as int;
                }
                r = r.add_mod(&r, bit, modulus);
            }
            proof {
                lemma_limbs_value_cons(self@, i as int);
                vstd::arithmetic::power2::lemma2_to64();
                vstd::arithmetic::power2::lemma2_to64_rest();
                assert(hi * vstd::arithmetic::power2::pow2(64) == hi * limb_radix()) by (nonlinear_arith)
                    requires
                        vstd::arithmetic::power2::pow2(64) == limb_radix(),
                ;
                assert(limb as int / vstd::arithmetic::power2::pow2(0) as int == limb as int);
            }
        }
        proof {
            assert(self@.subrange(0, N as int) =~= self@);
        }
        r
    }

    /// `(self * right) mod modulus`.
    pub fn mod_mult(&self, right: &Self, modulus: &Self) -> (r: Self)
        requires
            modulus.value() > 0,
        ensures
            r.value() == (self.value() * right.value()) % modulus.value(),
            r.value() < modulus.value(),
    {
        let ghost m = modulus.value() as int;
        let ghost vb = right.value() as int;
        let b = right.mod_reduce(modulus);
        let mut r = Self::zero();
        let ghost mut q: int = 0;
        let mut i: usize = N;
        proof {
            vstd::arithmetic::div_mod::lemma_small_mod(0, m as nat);
            assert(self@.subrange(N as int, N as int) =~= Seq::<u64>::empty());
        }
        while i > 0
            invariant
                i <= N,
                self@.len() == N,
                m == modulus.value(),
                m > 0,
                vb == right.value(),
                b.value() == vb % m,
                b.value() < m,
                r.value() < m,
                q == limbs_value(self@.subrange(i as int, N as int)),
                r.value() == (q * vb) % m,
            decreases i,
        {
            i = i - 1;
            let limb = self.0[i];
            let ghost hi = q;
            let mut j: u64 = 64;
            proof {
                vstd::arithmetic::power2::lemma_pow2_pos(64);
                assert(vstd::arithmetic::power2::pow2(64) == limb_radix()) by {
                    vstd::arithmetic::power2::lemma2_to64();
                    vstd::arithmetic::power2::lemma2_to64_rest();
                }
                vstd::arithmetic::div_mod::lemma_basic_div(limb as int, limb_radix() as int);
                vstd::arithmetic::power2::lemma2_to64();
                assert(hi * vstd::arithmetic::power2::pow2(0) == hi) by (nonlinear_arith)
                    requires
                        vstd::arithmetic::power2::pow2(0) == 1,
                ;
            }
            while j > 0
                invariant
                    j <= 64,
                    m == modulus.value(),
                    m > 0,
                    vb == right.value(),
                    b.value() == vb % m,
                    b.value() < m,
                    r.value() < m,
                    r.value() == (q * vb) % m,
                    q == hi * vstd::arithmetic::power2::pow2((64 - j) as nat) + limb as int
                        / vstd::arithmetic::power2::pow2(j as nat) as int,
                    hi >= 0,
                    q >= 0,
                decreases j,
            {
                j = j - 1;
                let bit = (limb >> j) & 1;
                let ghost r0 = r.value() as int;
                r = r.add_mod(&r, 0, modulus);
                proof {
                    lemma_next_bit(limb, j);
                    vstd::arithmetic::div_mod::lemma_add_mod_noop(q * vb, q * vb, m);
                    assert(q * vb + q * vb == (2 * q) * vb) by (nonlinear_arith);
                }
                if bit == 1 {
                    let ghost r1 = r.value() as int;
                    r = r.add_mod(&b, 0, modulus);
                    proof {
                        vstd::arithmetic::div_mod::lemma_mod_twice((2 * q) * vb, m);
                        vstd::arithmetic::div_mod::lemma_add_mod_noop((2 * q) * vb, vb, m);
                        assert((2 * q) * vb + vb == (2 * q + 1) * vb) by (nonlinear_arith);
                    }
                }
                proof {
                    vstd::arithmetic::power2::lemma_pow2_adds((64 - (j + 1)) as nat, 1);
                    vstd::arithmetic::power2::lemma2_to64();
                    let pa = vstd::arithmetic::power2::pow2((64 - (j + 1)) as nat) as int;
                    let lb = limb as int / vstd::arithmetic::power2::pow2((j + 1) as nat) as int;
                    assert(2 * (hi * pa + lb) + bit as int == hi * (pa * 2) + (2 * lb
                        + bit as int)) by (nonlinear_arith);
                    q = 2 * q + bit as int;
                }
            }
            proof {
                lemma_limbs_value_cons(self@, i as int);
                vstd::arithmetic::power2::lemma2_to64();
                vstd::arithmetic::power2::lemma2_to64_rest();
                assert(hi * vstd::arithmetic::power2::pow2(64) == hi * limb_radix()) by (nonlinear_arith)
                    requires
                        vstd::arithmetic::power2::pow2(64) == limb_radix(),
                ;
                assert(limb as int / vstd::arithmetic::power2::pow2(0) as int == limb as int);
            }
        }
        proof {
            assert(self@.subrange(0, N as int) =~= self@);
        }
        r
    }

    /// Convert from swapped form (limbs reversed, each byte-swapped) back
    /// to native limbs.
    pub fn unswap(&self) -> (r: Self)
        ensures
            r@ == unswapped(self@),
    {
        let mut out = Self::zero();
        let mut i: usize = 0;
        while i < N
            invariant
                i <= N,
                out@.len() == N,
                self@.len() == N,
                forall|k: int| 0 <= k < i ==> out@[k] == swap_u64_spec(self@[N - 1 - k]),
            decreases N - i,
        {
            out.0[i] = swap_u64(self.0[N - 1 - i]);
            i = i + 1;
        }
        assert(out@ =~= unswapped(self@));
        out
    }

    /// The integer whose big-endian octets are the first `8 N` octets of
    /// `bytes`; any octets after them are not read.
    pub fn from_be_bytes(bytes: &[u8]) -> (r: Self)
        requires
            bytes@.len() >= 8 * N,
        ensures
            r@ == be_bytes_to_limbs(bytes@.subrange(0, 8 * N)),
            limbs_be_bytes(r@) == bytes@.subrange(0, 8 * N),
            r.value() == be_value(bytes@.subrange(0, 8 * N)),
    {
        let ghost p = bytes@.subrange(0, 8 * N);
        let blen = bytes.len();
        let mut out = Self::zero();
        let mut i: usize = 0;
        while i < N
            invariant
                i <= N,
                out@.len() == N,
                blen == bytes@.len(),
                blen >= 8 * N,
                p == bytes@.subrange(0, 8 * N),
                forall|k: int| 0 <= k < i ==> out@[k] == be_bytes_to_limbs(p)[k],
            decreases N - i,
        {
            out.0[i] = u64_from_be_at(bytes, 8 * (N - 1 - i));
            assert(p.len() - 8 * (i + 1) == 8 * (N - 1 - i));
            assert(p.subrange(8 * (N - 1 - i), 8 * (N - 1 - i) + 8) =~= bytes@.subrange(
                8 * (N - 1 - i),
                8 * (N - 1 - i) + 8,
            ));
            i = i + 1;
        }
        assert(out@ =~= be_bytes_to_limbs(p));
        proof {
            lemma_limbs_be_bytes_of_read(p);
            lemma_limbs_be_bytes_value(out@);
        }
        out
    }
}

impl<const N: usize> Clone for Vli<N> {
    fn clone(&self) -> (r: Self)
        ensures
            r@ == self@,
    {
        Vli(self.0)
    }
}

} // verus!
