//! Wrapping addition and subtraction operators on `Vli` integers.
use vstd::prelude::*;
use core::ops::{Add, Sub};
use vstd::std_specs::ops::{AddSpecImpl, SubSpecImpl};
use crate::bytes::{limb_radix, limbs_value};
use crate::vli::{lemma_limbs_value_bound, lemma_limbs_value_cons, radix_pow, Vli};

verus! {

/// Limb strings of equal length and equal value are equal.
pub proof fn lemma_limbs_value_injective(a: Seq<u64>, b: Seq<u64>)
    requires
        a.len() == b.len(),
        limbs_value(a) == limbs_value(b),
    ensures
        a == b,
    decreases a.len(),
{
    if a.len() > 0 {
        let n = a.len() as int;
        lemma_limbs_value_cons(a, 0);
        lemma_limbs_value_cons(b, 0);
        assert(a.subrange(0, n) =~= a);
        assert(b.subrange(0, n) =~= b);
        let ha = limbs_value(a.subrange(1, n)) as int;
        let hb = limbs_value(b.subrange(1, n)) as int;
        let v = limbs_value(a) as int;
        vstd::arithmetic::div_mod::lemma_fundamental_div_mod_converse(v, limb_radix() as int, ha, a[0] as int);
        vstd::arithmetic::div_mod::lemma_fundamental_div_mod_converse(v, limb_radix() as int, hb, b[0] as int);
        lemma_limbs_value_injective(a.subrange(1, n), b.subrange(1, n));
        assert forall|i: int| 0 <= i < n implies a[i] == b[i] by {
            if i > 0 {
                assert(a[i] == a.subrange(1, n)[i - 1]);
                assert(b[i] == b.subrange(1, n)[i - 1]);
            }
        }
        assert(a =~= b);
    } else {
        assert(a =~= b);
    }
}

/// `Vli` integers of equal value are equal.
pub proof fn lemma_vli_value_injective<const N: usize>(a: Vli<N>, b: Vli<N>)
    requires
        a.value() == b.value(),
    ensures
        a == b,
{
    lemma_limbs_value_injective(a@, b@);
    assert(a.0 == b.0);
}

impl<const N: usize> Add for Vli<N> {
    type Output = Self;

    /// Sum modulo `2^(64 N)`.
    fn add(self, rhs: Self) -> (r: Self) {
        let (result, carry) = self.carrying_add(&rhs, 0);
        proof {
            lemma_limbs_value_bound(result@);
            vstd::arithmetic::div_mod::lemma_fundamental_div_mod_converse(
                (self.value() + rhs.value()) as int,
                radix_pow(N as nat) as int,
                carry as int,
                result.value() as int,
            );
            let w = choose|w: Self| w.value() == (self.value() + rhs.value()) % radix_pow(N as nat);
            lemma_vli_value_injective(result, w);
        }
        result
    }
}

impl<const N: usize> AddSpecImpl for Vli<N> {
    open spec fn obeys_add_spec() -> bool {
        true
    }

    open spec fn add_req(self, rhs: Self) -> bool {
        true
    }

    /// The `N`-limb integer worth `(self + rhs) mod 2^(64 N)`.
    open spec fn add_spec(self, rhs: Self) -> Self {
        choose|w: Self| w.value() == (self.value() + rhs.value()) % radix_pow(N as nat)
    }
}

impl<const N: usize> Sub for Vli<N> {
    type Output = Self;

    /// Difference modulo `2^(64 N)`.
    fn sub(self, rhs: Self) -> (r: Self) {
        let (result, borrow) = self.sub_with_borrow(&rhs);
        proof {
            lemma_limbs_value_bound(result@);
            let p = radix_pow(N as nat) as int;
            if borrow == 0 {
                assert((1 - borrow as int) * p == p) by (nonlinear_arith)
                    requires
                        borrow == 0,
                ;
                assert(borrow * p == 0);
            } else {
                assert((1 - borrow as int) * p == 0) by (nonlinear_arith)
                    requires
                        borrow == 1,
                ;
                assert(borrow * p == p);
            }
            vstd::arithmetic::div_mod::lemma_fundamental_div_mod_converse(
                self.value() - rhs.value() + radix_pow(N as nat),
                radix_pow(N as nat) as int,
                1 - borrow as int,
                result.value() as int,
            );
            let w = choose|w: Self| w.value() == (self.value() - rhs.value() + radix_pow(N as nat)) % (radix_pow(N as nat) as int);
            lemma_vli_value_injective(result, w);
        }
        result
    }
}

impl<const N: usize> SubSpecImpl for Vli<N> {
    open spec fn obeys_sub_spec() -> bool {
        true
    }

    open spec fn sub_req(self, rhs: Self) -> bool {
        true
    }

    /// The `N`-limb integer worth `(self - rhs) mod 2^(64 N)`.
    open spec fn sub_spec(self, rhs: Self) -> Self {
        choose|w: Self| w.value() == (self.value() - rhs.value() + radix_pow(N as nat)) % (radix_pow(N as nat) as int)
    }
}

} // verus!
