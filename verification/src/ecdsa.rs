//! The arithmetic of one ECDSA P-256 signing attempt.
//!
//! Producing the nonce `k` and the point `k G` is the kernel's work; what
//! is done with them is decided here.
use vstd::prelude::*;
use crate::bytes::{be_value, limbs_value, unswapped};
use crate::vli::{radix_pow, Scalar};
use crate::vli_inv::{
    inverse_mod, invertible_mod, is_inverse_mod, is_prime, lemma_inverse_unique,
    lemma_prime_units_invertible,
};

verus! {

/// Number of nonces tried before signing gives up.
pub const ECDSA_MAX_ATTEMPTS: usize = 100;

/// `x - n` when `x >= n`, else `x`: one conditional subtraction.
pub open spec fn reduce_once(x: nat, n: nat) -> nat {
    if x >= n {
        (x - n) as nat
    } else {
        x
    }
}

/// A value below twice the modulus is reduced by one conditional
/// subtraction.
pub proof fn lemma_reduce_once_is_mod(x: nat, n: nat)
    requires
        0 < n,
        x < 2 * n,
    ensures
        reduce_once(x, n) == x % n,
{
    if x >= n {
        vstd::arithmetic::div_mod::lemma_fundamental_div_mod_converse(x as int, n as int, 1, x - n);
    } else {
        vstd::arithmetic::div_mod::lemma_small_mod(x, n);
    }
}

/// The `r` component: the x-coordinate of `k G`, reduced once by `n`.
pub open spec fn ecdsa_r(rx_swapped: Seq<u64>, n: nat) -> nat {
    reduce_once(limbs_value(unswapped(rx_swapped)), n)
}

/// `z + r d mod n`, with the digest `z` reduced once by `n`.
pub open spec fn ecdsa_zrd(hash: Seq<u8>, r: nat, d: nat, n: nat) -> nat {
    let z = reduce_once(be_value(hash), n);
    reduce_once(z + (r * d) % n, n)
}

/// The `s` component: `(z + r d) k^-1 mod n`.
pub open spec fn ecdsa_s(hash: Seq<u8>, k: nat, r: nat, d: nat, n: nat) -> nat {
    (ecdsa_zrd(hash, r, d, n) * inverse_mod(k, n)) % n
}

/// What one signing attempt may give: nothing when `r` is zero; a pair
/// whose first half is `r` and whose second half is nonzero and below `n`;
/// and, for a nonce `k` invertible modulo `n`, exactly `(r, s)`, or nothing
/// when `s` is zero.
pub open spec fn attempt_outcome(
    hash: Seq<u8>,
    k: nat,
    rx_swapped: Seq<u64>,
    d: nat,
    n: nat,
    res: Option<(Scalar, Scalar)>,
) -> bool {
    let r = ecdsa_r(rx_swapped, n);
    let s = ecdsa_s(hash, k, r, d, n);
    &&& r == 0 ==> res is None
    &&& res matches Some((rr, ss)) ==> rr.value() == r && r != 0 && 0 < ss.value() < n
    &&& invertible_mod(k, n) ==> match res {
        None => r == 0 || s == 0,
        Some((rr, ss)) => ss.value() == s,
    }
}

/// For a prime group order every nonce `0 < k < n` is invertible, so an
/// attempt gives exactly `(r, s)`, or nothing exactly when `r` or `s` is
/// zero.
pub proof fn lemma_prime_order_attempt(
    hash: Seq<u8>,
    k: nat,
    rx_swapped: Seq<u64>,
    d: nat,
    n: nat,
    res: Option<(Scalar, Scalar)>,
)
    requires
        is_prime(n),
        0 < k < n,
        attempt_outcome(hash, k, rx_swapped, d, n, res),
    ensures
        ({
            let r = ecdsa_r(rx_swapped, n);
            let s = ecdsa_s(hash, k, r, d, n);
            match res {
                None => r == 0 || s == 0,
                Some((rr, ss)) => r != 0 && s != 0 && rr.value() == r && ss.value() == s,
            }
        }),
{
    lemma_prime_units_invertible(k, n);
}

/// `z + r d mod n` is the sum of the digest and `r d`, modulo `n`, for a
/// digest below `2 n` (every 32-octet digest, for the P-256 order): no
/// carry out of the limbs is lost.
pub proof fn lemma_zrd_is_sum_mod(hash: Seq<u8>, r: nat, d: nat, n: nat)
    requires
        n > 0,
        be_value(hash) < 2 * n,
    ensures
        ecdsa_zrd(hash, r, d, n) == (be_value(hash) + r * d) % n,
{
    let h = be_value(hash);
    lemma_reduce_once_is_mod(h, n);
    let z = reduce_once(h, n);
    vstd::arithmetic::div_mod::lemma_mod_bound(h as int, n as int);
    vstd::arithmetic::div_mod::lemma_mod_bound((r * d) as int, n as int);
    lemma_reduce_once_is_mod(z + (r * d) % n, n);
    vstd::arithmetic::div_mod::lemma_add_mod_noop(h as int, (r * d) as int, n as int);
    vstd::arithmetic::div_mod::lemma_mod_bound(h as int + (r * d) as int, n as int);
}

/// What an attempt signs: for an invertible nonce `k` and a digest `H`
/// below `2 n`, the returned `(r, s)` meets the ECDSA equation
/// `s k = H + r d (mod n)`.
pub proof fn lemma_attempt_signs(
    hash: Seq<u8>,
    k: nat,
    rx_swapped: Seq<u64>,
    d: nat,
    n: nat,
    res: Option<(Scalar, Scalar)>,
)
    requires
        n > 1,
        invertible_mod(k, n),
        be_value(hash) < 2 * n,
        attempt_outcome(hash, k, rx_swapped, d, n, res),
    ensures
        res matches Some((rr, ss)) ==> (ss.value() * k) % n == (be_value(hash) + rr.value() * d)
            % n,
{
    if res is Some {
        let r = ecdsa_r(rx_swapped, n);
        lemma_signature_equation(hash, k, r, d, n);
        lemma_zrd_is_sum_mod(hash, r, d, n);
        let t = (be_value(hash) + r * d) % n;
        vstd::arithmetic::div_mod::lemma_mod_bound((be_value(hash) + r * d) as int, n as int);
        vstd::arithmetic::div_mod::lemma_small_mod(t, n);
    }
}

/// The signature equation: for an invertible nonce, `s k = z + r d (mod n)`.
pub proof fn lemma_signature_equation(hash: Seq<u8>, k: nat, r: nat, d: nat, n: nat)
    requires
        n > 1,
        invertible_mod(k, n),
    ensures
        (ecdsa_s(hash, k, r, d, n) * k) % n == ecdsa_zrd(hash, r, d, n) % n,
{
    let zrd = ecdsa_zrd(hash, r, d, n) as int;
    let y = choose|y: nat| #[trigger] is_inverse_mod(k, y, n);
    let ym = y % n;
    let ni = n as int;
    vstd::arithmetic::div_mod::lemma_mod_bound(y as int, ni);
    vstd::arithmetic::div_mod::lemma_mul_mod_noop_right(k as int, y as int, ni);
    lemma_inverse_unique(k, ym, n);
    let inv = inverse_mod(k, n) as int;
    // (zrd inv mod n) k = zrd (inv k) = zrd  (mod n)
    vstd::arithmetic::div_mod::lemma_mul_mod_noop_left(zrd * inv, k as int, ni);
    assert((zrd * inv) * k == zrd * (k * inv)) by (nonlinear_arith);
    vstd::arithmetic::div_mod::lemma_mul_mod_noop_right(zrd, k * inv, ni);
    assert(zrd * 1 == zrd);
}

/// One signing attempt with nonce `k`, where `rx_swapped` is the
/// x-coordinate of `k G` in swapped form, `privkey` the private key `d`
/// and `curve_n` the odd group order `n`.  Returns `None` when `r` or `s`
/// comes out zero, in which case another nonce must be tried.
pub fn ecdsa_attempt(
    hash: &[u8; 32],
    k: &Scalar,
    rx_swapped: &Scalar,
    privkey: &Scalar,
    curve_n: &Scalar,
) -> (res: Option<(Scalar, Scalar)>)
    requires
        curve_n.value() > 1,
        curve_n.value() % 2 == 1,
    ensures
        attempt_outcome(hash@, k.value(), rx_swapped@, privkey.value(), curve_n.value(), res),
{
    let ghost n = curve_n.value();
    let r_swapped = rx_swapped;
    let mut r = r_swapped.unswap();
    let (r_red, r_borrow) = r.sub_with_borrow(curve_n);
    if r_borrow == 0 {
        r = r_red;
    }
    if r.is_zero() {
        return None;
    }
    let mut z = Scalar::from_be_bytes(hash);
    assert(hash@.subrange(0, 32) =~= hash@);
    let (z_red, z_borrow) = z.sub_with_borrow(curve_n);
    if z_borrow == 0 {
        z = z_red;
    }
    let s = r.mod_mult(privkey, curve_n);
    let (z_plus_rs, carry) = z.carrying_add(&s, 0);
    let (zrs_red, zrs_borrow) = z_plus_rs.sub_with_borrow(curve_n);
    proof {
        crate::vli::lemma_limbs_value_bound(curve_n@);
        crate::vli::lemma_limbs_value_bound(z@);
        crate::vli::lemma_limbs_value_bound(zrs_red@);
        crate::vli::lemma_limbs_value_bound(z_plus_rs@);
        let p = radix_pow(4);
        if carry == 0 {
            assert(carry * p == 0);
        } else {
            assert(carry * p == p);
        }
        if zrs_borrow == 0 {
            assert(zrs_borrow * p == 0);
        } else {
            assert(zrs_borrow * p == p);
        }
    }
    let z_plus_rs = if carry != 0 || zrs_borrow == 0 {
        zrs_red
    } else {
        z_plus_rs
    };
    assert(z_plus_rs.value() == ecdsa_zrd(hash@, r.value(), privkey.value(), n));
    let k_inv = k.mod_inv(curve_n);
    let s = z_plus_rs.mod_mult(&k_inv, curve_n);
    if s.is_zero() {
        return None;
    }
    Some((r, s))
}

/// What the signing loop does next.
pub enum SignStep {
    /// The signature `(r, s)` is done.
    Done(Scalar, Scalar),
    /// Draw a new nonce and try again.
    Retry,
    /// Every attempt failed; signing fails with `EINVAL`.
    GiveUp,
}

/// The signing loop: the kernel draws a nonce `k` and computes `k G`, and
/// this decides what follows, for at most `ECDSA_MAX_ATTEMPTS` nonces.
pub struct EcdsaSigner {
    hash: [u8; 32],
    attempts: usize,
}

impl EcdsaSigner {
    /// The digest being signed.
    pub closed spec fn spec_hash(&self) -> Seq<u8> {
        self.hash@
    }

    /// Nonces tried so far.
    pub closed spec fn spec_attempts(&self) -> nat {
        self.attempts as nat
    }

    /// A signing loop for the digest `hash`, with no nonce tried yet.
    pub fn new(hash: [u8; 32]) -> (r: Self)
        ensures
            r.spec_hash() == hash@,
            r.spec_attempts() == 0,
    {
        EcdsaSigner { hash, attempts: 0 }
    }

    /// Whether another nonce may still be tried.
    pub fn can_attempt(&self) -> (r: bool)
        ensures
            r == (self.spec_attempts() < ECDSA_MAX_ATTEMPTS),
    {
        self.attempts < ECDSA_MAX_ATTEMPTS
    }

    /// Try the nonce `k`, whose point `k G` has x-coordinate `rx_swapped`
    /// (swapped form), with private key `privkey` and group order
    /// `curve_n`.  A zero `r` or `s` asks for another nonce, unless the
    /// attempts are used up.
    pub fn step(&mut self, k: &Scalar, rx_swapped: &Scalar, privkey: &Scalar, curve_n: &Scalar) -> (r: SignStep)
        requires
            curve_n.value() > 1,
            curve_n.value() % 2 == 1,
            old(self).spec_attempts() < ECDSA_MAX_ATTEMPTS,
        ensures
            final(self).spec_hash() == old(self).spec_hash(),
            final(self).spec_attempts() == old(self).spec_attempts() + 1,
            ({
                let outcome = match r {
                    SignStep::Done(a, b) => Some((a, b)),
                    _ => None,
                };
                attempt_outcome(
                    old(self).spec_hash(),
                    k.value(),
                    rx_swapped@,
                    privkey.value(),
                    curve_n.value(),
                    outcome,
                )
            }),
            r is Retry ==> final(self).spec_attempts() < ECDSA_MAX_ATTEMPTS,
            r is GiveUp ==> final(self).spec_attempts() == ECDSA_MAX_ATTEMPTS,
    {
        self.attempts = self.attempts + 1;
        match ecdsa_attempt(&self.hash, k, rx_swapped, privkey, curve_n) {
            Some((r, s)) => SignStep::Done(r, s),
            None => if self.attempts < ECDSA_MAX_ATTEMPTS {
                SignStep::Retry
            } else {
                SignStep::GiveUp
            },
        }
    }
}

} // verus!
