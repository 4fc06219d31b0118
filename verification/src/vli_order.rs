//! Equality and ordering of `Vli` integers by value.
use vstd::prelude::*;
use core::cmp::Ordering;
use vstd::std_specs::cmp::{PartialEqSpecImpl, PartialOrdSpecImpl};
use crate::bytes::{limb_radix, limbs_value};
use crate::vli::{lemma_limbs_value_bound, lemma_limbs_value_cons, lemma_limbs_value_split, radix_pow, Vli};

verus! {

/// The ordering of two naturals.
pub open spec fn value_ordering(a: nat, b: nat) -> Ordering {
    if a < b {
        Ordering::Less
    } else if a == b {
        Ordering::Equal
    } else {
        Ordering::Greater
    }
}

/// The ordering a C-style three-way comparison result stands for.
pub fn vli_cmp_to_ordering(r: i32) -> (o: Ordering)
    ensures
        r == 0 ==> o == Ordering::Equal,
        r < 0 ==> o == Ordering::Less,
        r > 0 ==> o == Ordering::Greater,
{
    if r == 0 {
        Ordering::Equal
    } else if r < 0 {
        Ordering::Less
    } else {
        Ordering::Greater
    }
}

/// If two limb strings agree from limb `i + 1` on, the one with the smaller
/// limb `i` is the smaller integer.
proof fn lemma_value_lt_at(a: Seq<u64>, b: Seq<u64>, i: int)
    requires
        a.len() == b.len(),
        0 <= i < a.len(),
        a.subrange(i + 1, a.len() as int) == b.subrange(i + 1, b.len() as int),
        a[i] < b[i],
    ensures
        limbs_value(a) < limbs_value(b),
{
    let n = a.len() as int;
    lemma_limbs_value_split(a, i);
    lemma_limbs_value_split(b, i);
    lemma_limbs_value_cons(a, i);
    lemma_limbs_value_cons(b, i);
    lemma_limbs_value_bound(a.subrange(0, i));
    let h = limbs_value(a.subrange(i + 1, n)) as int;
    let p = radix_pow(i as nat) as int;
    let la = limbs_value(a.subrange(0, i)) as int;
    let lb = limbs_value(b.subrange(0, i)) as int;
    let x = a[i] as int;
    let y = b[i] as int;
    assert(la + (x + h * limb_radix()) * p < lb + (y + h * limb_radix()) * p) by (nonlinear_arith)
        requires
            0 <= la < p,
            0 <= lb,
            x < y,
    ;
}

/// Limb `i` of `a`.
pub open spec fn limb_at(a: Seq<u64>, i: usize) -> u64 {
    a[i as int]
}

/// `a` and `b` have the same limbs from limb `i` on.
pub open spec fn limbs_agree_from(a: Seq<u64>, b: Seq<u64>, i: usize) -> bool {
    a.subrange(i as int, a.len() as int) == b.subrange(i as int, b.len() as int)
}

proof fn lemma_agree_start(a: Seq<u64>, b: Seq<u64>)
    requires
        a.len() == b.len(),
        a.len() <= usize::MAX,
    ensures
        limbs_agree_from(a, b, a.len() as usize),
{
    assert(a.subrange(a.len() as int, a.len() as int) =~= b.subrange(b.len() as int, b.len() as int));
}

proof fn lemma_agree_step(a: Seq<u64>, b: Seq<u64>, i: usize)
    requires
        a.len() == b.len(),
        a.len() <= usize::MAX,
        i < a.len(),
        limbs_agree_from(a, b, (i + 1) as usize),
        limb_at(a, i) == limb_at(b, i),
    ensures
        limbs_agree_from(a, b, i),
{
    let x = a.subrange(i as int, a.len() as int);
    let y = b.subrange(i as int, b.len() as int);
    assert forall|k: int| 0 <= k < x.len() implies x[k] == y[k] by {
        if k == 0 {
            assert(x[k] == a[i as int]);
            assert(y[k] == b[i as int]);
        } else {
            assert(x[k] == a.subrange(i + 1, a.len() as int)[k - 1]);
            assert(y[k] == b.subrange(i + 1, b.len() as int)[k - 1]);
        }
    }
    assert(x =~= y);
}

proof fn lemma_agree_all(a: Seq<u64>, b: Seq<u64>)
    requires
        a.len() == b.len(),
        limbs_agree_from(a, b, 0),
    ensures
        limbs_value(a) == limbs_value(b),
{
    assert(a =~= a.subrange(0, a.len() as int));
    assert(b =~= b.subrange(0, b.len() as int));
}

proof fn lemma_lt_at(a: Seq<u64>, b: Seq<u64>, i: usize)
    requires
        a.len() == b.len(),
        a.len() <= usize::MAX,
        i < a.len(),
        limbs_agree_from(a, b, (i + 1) as usize),
        limb_at(a, i) < limb_at(b, i),
    ensures
        limbs_value(a) < limbs_value(b),
{
    lemma_value_lt_at(a, b, i as int);
}

impl<const N: usize> Vli<N> {
    /// Three-way comparison by value.
    pub fn cmp_ffi(&self, other: &Self) -> (o: Ordering)
        ensures
            o == value_ordering(self.value(), other.value()),
    {
        let mut i: usize = N;
        proof {
            lemma_agree_start(self@, other@);
        }
        while i > 0
            invariant
                i <= N,
                self@.len() == N,
                other@.len() == N,
                limbs_agree_from(self@, other@, i),
            decreases i,
        {
            i = i - 1;
            let a = self.0[i];
            let b = other.0[i];
            if a < b {
                proof {
                    lemma_lt_at(self@, other@, i);
                }
                return Ordering::Less;
            }
            if a > b {
                proof {
                    lemma_lt_at(other@, self@, i);
                }
                return Ordering::Greater;
            }
            proof {
                lemma_agree_step(self@, other@, i);
            }
        }
        proof {
            lemma_agree_all(self@, other@);
        }
        Ordering::Equal
    }
}

impl<const N: usize> PartialEq for Vli<N> {
    fn eq(&self, other: &Self) -> (r: bool) {
        match self.cmp_ffi(other) {
            Ordering::Equal => true,
            _ => false,
        }
    }
}

impl<const N: usize> PartialEqSpecImpl for Vli<N> {
    open spec fn obeys_eq_spec() -> bool {
        true
    }

    open spec fn eq_spec(&self, other: &Self) -> bool {
        self.value() == other.value()
    }
}

impl<const N: usize> PartialOrd for Vli<N> {
    fn partial_cmp(&self, other: &Self) -> (r: Option<Ordering>) {
        Some(self.cmp_ffi(other))
    }
}

impl<const N: usize> PartialOrdSpecImpl for Vli<N> {
    open spec fn obeys_partial_cmp_spec() -> bool {
        true
    }

    open spec fn partial_cmp_spec(&self, other: &Self) -> Option<Ordering> {
        Some(value_ordering(self.value(), other.value()))
    }
}

} // verus!
