//! Byte and limb views of integers: big- and little-endian octets of a
//! 64-bit word, the value of a big-endian octet string, and the value of a
//! little-endian sequence of 64-bit limbs.
use vstd::prelude::*;
use vstd::arithmetic::power::pow;

verus! {

/// The eight octets of `x`, most significant first.
pub open spec fn u64_be_bytes(x: u64) -> Seq<u8> {
    seq![
        (x >> 56u64) as u8,
        ((x >> 48u64) & 0xffu64) as u8,
        ((x >> 40u64) & 0xffu64) as u8,
        ((x >> 32u64) & 0xffu64) as u8,
        ((x >> 24u64) & 0xffu64) as u8,
        ((x >> 16u64) & 0xffu64) as u8,
        ((x >> 8u64) & 0xffu64) as u8,
        (x & 0xffu64) as u8,
    ]
}

/// The eight octets of `x`, least significant first (its memory image on a
/// little-endian machine).
pub open spec fn u64_le_bytes(x: u64) -> Seq<u8> {
    u64_be_bytes(x).reverse()
}

/// `x` with its octets in reverse order.
pub open spec fn swap_u64_spec(x: u64) -> u64 {
    ((x & 0xffu64) << 56u64) | ((x & 0xff00u64) << 40u64) | ((x & 0xff0000u64) << 24u64) | ((x
        & 0xff000000u64) << 8u64) | ((x >> 8u64) & 0xff000000u64) | ((x >> 24u64) & 0xff0000u64)
        | ((x >> 40u64) & 0xff00u64) | (x >> 56u64)
}

/// Value of a big-endian octet string.
pub open spec fn be_value(s: Seq<u8>) -> nat
    decreases s.len(),
{
    if s.len() == 0 {
        0
    } else {
        be_value(s.drop_last()) * 256 + s.last() as nat
    }
}

/// The radix of one 64-bit limb.
pub open spec fn limb_radix() -> nat {
    0x1_0000_0000_0000_0000
}

/// Value of little-endian 64-bit limbs (least significant limb first).
pub open spec fn limbs_value(l: Seq<u64>) -> nat
    decreases l.len(),
{
    if l.len() == 0 {
        0
    } else {
        limbs_value(l.drop_last()) + l.last() as nat * pow(limb_radix() as int, (l.len() - 1) as nat) as nat
    }
}

/// Big-endian octets of little-endian limbs: the most significant limb
/// first, each limb most significant octet first.
pub open spec fn limbs_be_bytes(l: Seq<u64>) -> Seq<u8>
    decreases l.len(),
{
    if l.len() == 0 {
        Seq::empty()
    } else {
        u64_be_bytes(l.last()) + limbs_be_bytes(l.drop_last())
    }
}

/// Memory image of limbs on a little-endian machine: each limb in turn,
/// least significant octet first.
pub open spec fn limbs_le_memory(l: Seq<u64>) -> Seq<u8>
    decreases l.len(),
{
    if l.len() == 0 {
        Seq::empty()
    } else {
        limbs_le_memory(l.drop_last()) + u64_le_bytes(l.last())
    }
}

/// Limbs in reverse order with every limb byte-swapped.
pub open spec fn unswapped(s: Seq<u64>) -> Seq<u64> {
    Seq::new(s.len(), |i: int| swap_u64_spec(s[s.len() - 1 - i]))
}

/// The word whose big-endian octets are `b[0..8]`.
pub open spec fn u64_from_be(b: Seq<u8>) -> u64 {
    ((b[0] as u64) << 56u64) | ((b[1] as u64) << 48u64) | ((b[2] as u64) << 40u64) | ((
    b[3] as u64) << 32u64) | ((b[4] as u64) << 24u64) | ((b[5] as u64) << 16u64) | ((
    b[6] as u64) << 8u64) | (b[7] as u64)
}

/// Limbs read from big-endian octets, eight octets per limb, the last
/// eight octets giving the least significant limb.
pub open spec fn be_bytes_to_limbs(b: Seq<u8>) -> Seq<u64> {
    Seq::new(
        b.len() / 8,
        |i: int| u64_from_be(b.subrange(b.len() - 8 * (i + 1), b.len() - 8 * i)),
    )
}

pub proof fn lemma_swap_u64_bytes(x: u64)
    ensures
        u64_be_bytes(swap_u64_spec(x)) == u64_le_bytes(x),
        swap_u64_spec(swap_u64_spec(x)) == x,
{
    let y = swap_u64_spec(x);
    assert(y == ((x & 0xffu64) << 56u64) | ((x & 0xff00u64) << 40u64) | ((x & 0xff0000u64)
        << 24u64) | ((x & 0xff000000u64) << 8u64) | ((x >> 8u64) & 0xff000000u64) | ((x
        >> 24u64) & 0xff0000u64) | ((x >> 40u64) & 0xff00u64) | (x >> 56u64));
    assert({
        &&& (y >> 56u64) as u8 == (x & 0xffu64) as u8
        &&& ((y >> 48u64) & 0xffu64) as u8 == ((x >> 8u64) & 0xffu64) as u8
        &&& ((y >> 40u64) & 0xffu64) as u8 == ((x >> 16u64) & 0xffu64) as u8
        &&& ((y >> 32u64) & 0xffu64) as u8 == ((x >> 24u64) & 0xffu64) as u8
        &&& ((y >> 24u64) & 0xffu64) as u8 == ((x >> 32u64) & 0xffu64) as u8
        &&& ((y >> 16u64) & 0xffu64) as u8 == ((x >> 40u64) & 0xffu64) as u8
        &&& ((y >> 8u64) & 0xffu64) as u8 == ((x >> 48u64) & 0xffu64) as u8
        &&& (y & 0xffu64) as u8 == (x >> 56u64) as u8
        &&& ((y & 0xffu64) << 56u64) | ((y & 0xff00u64) << 40u64) | ((y & 0xff0000u64) << 24u64)
            | ((y & 0xff000000u64) << 8u64) | ((y >> 8u64) & 0xff000000u64) | ((y >> 24u64)
            & 0xff0000u64) | ((y >> 40u64) & 0xff00u64) | (y >> 56u64) == x
    }) by (bit_vector)
        requires
            y == ((x & 0xffu64) << 56u64) | ((x & 0xff00u64) << 40u64) | ((x & 0xff0000u64)
                << 24u64) | ((x & 0xff000000u64) << 8u64) | ((x >> 8u64) & 0xff000000u64) | ((x
                >> 24u64) & 0xff0000u64) | ((x >> 40u64) & 0xff00u64) | (x >> 56u64),
    ;
    assert(u64_be_bytes(y) =~= u64_le_bytes(x));
}

/// Reading back the big-endian octets of a word gives the word.
pub proof fn lemma_u64_from_be_bytes(x: u64)
    ensures
        u64_from_be(u64_be_bytes(x)) == x,
{
    let b = u64_be_bytes(x);
    let b0 = b[0];
    let b1 = b[1];
    let b2 = b[2];
    let b3 = b[3];
    let b4 = b[4];
    let b5 = b[5];
    let b6 = b[6];
    let b7 = b[7];
    assert(((b0 as u64) << 56u64) | ((b1 as u64) << 48u64) | ((b2 as u64) << 40u64) | ((
    b3 as u64) << 32u64) | ((b4 as u64) << 24u64) | ((b5 as u64) << 16u64) | ((b6 as u64)
        << 8u64) | (b7 as u64) == x) by (bit_vector)
        requires
            b0 == (x >> 56u64) as u8,
            b1 == ((x >> 48u64) & 0xffu64) as u8,
            b2 == ((x >> 40u64) & 0xffu64) as u8,
            b3 == ((x >> 32u64) & 0xffu64) as u8,
            b4 == ((x >> 24u64) & 0xffu64) as u8,
            b5 == ((x >> 16u64) & 0xffu64) as u8,
            b6 == ((x >> 8u64) & 0xffu64) as u8,
            b7 == (x & 0xffu64) as u8,
    ;
}

/// Writing out the big-endian octets of a word read from eight octets
/// gives those octets back.
pub proof fn lemma_u64_be_bytes_from(b: Seq<u8>)
    requires
        b.len() == 8,
    ensures
        u64_be_bytes(u64_from_be(b)) == b,
{
    let b0 = b[0];
    let b1 = b[1];
    let b2 = b[2];
    let b3 = b[3];
    let b4 = b[4];
    let b5 = b[5];
    let b6 = b[6];
    let b7 = b[7];
    let x = u64_from_be(b);
    assert({
        &&& b0 == (x >> 56u64) as u8
        &&& b1 == ((x >> 48u64) & 0xffu64) as u8
        &&& b2 == ((x >> 40u64) & 0xffu64) as u8
        &&& b3 == ((x >> 32u64) & 0xffu64) as u8
        &&& b4 == ((x >> 24u64) & 0xffu64) as u8
        &&& b5 == ((x >> 16u64) & 0xffu64) as u8
        &&& b6 == ((x >> 8u64) & 0xffu64) as u8
        &&& b7 == (x & 0xffu64) as u8
    }) by (bit_vector)
        requires
            x == ((b0 as u64) << 56u64) | ((b1 as u64) << 48u64) | ((b2 as u64) << 40u64) | ((
            b3 as u64) << 32u64) | ((b4 as u64) << 24u64) | ((b5 as u64) << 16u64) | ((
            b6 as u64) << 8u64) | (b7 as u64),
    ;
    assert(u64_be_bytes(x) =~= b);
}

/// The big-endian octets of a word encode its value.
pub proof fn lemma_u64_be_bytes_value(x: u64)
    ensures
        be_value(u64_be_bytes(x)) == x as nat,
{
    let b = u64_be_bytes(x);
    let b0 = b[0];
    let b1 = b[1];
    let b2 = b[2];
    let b3 = b[3];
    let b4 = b[4];
    let b5 = b[5];
    let b6 = b[6];
    let b7 = b[7];
    reveal_with_fuel(be_value, 9);
    assert(b.drop_last().drop_last().drop_last().drop_last().drop_last().drop_last().drop_last()
        =~= seq![b0]);
    assert(b.drop_last().drop_last().drop_last().drop_last().drop_last().drop_last() =~= seq![
        b0,
        b1,
    ]);
    assert(b.drop_last().drop_last().drop_last().drop_last().drop_last() =~= seq![b0, b1, b2]);
    assert(b.drop_last().drop_last().drop_last().drop_last() =~= seq![b0, b1, b2, b3]);
    assert(b.drop_last().drop_last().drop_last() =~= seq![b0, b1, b2, b3, b4]);
    assert(b.drop_last().drop_last() =~= seq![b0, b1, b2, b3, b4, b5]);
    assert(b.drop_last() =~= seq![b0, b1, b2, b3, b4, b5, b6]);
    assert(seq![b0].drop_last() =~= Seq::<u8>::empty());
    assert(x as int == ((((((b0 as int * 256 + b1 as int) * 256 + b2 as int) * 256 + b3 as int)
        * 256 + b4 as int) * 256 + b5 as int) * 256 + b6 as int) * 256 + b7 as int) by (
    bit_vector)
        requires
            b0 == (x >> 56u64) as u8,
            b1 == ((x >> 48u64) & 0xffu64) as u8,
            b2 == ((x >> 40u64) & 0xffu64) as u8,
            b3 == ((x >> 32u64) & 0xffu64) as u8,
            b4 == ((x >> 24u64) & 0xffu64) as u8,
            b5 == ((x >> 16u64) & 0xffu64) as u8,
            b6 == ((x >> 8u64) & 0xffu64) as u8,
            b7 == (x & 0xffu64) as u8,
    ;
}

/// Equal big-endian octets mean equal words.
pub proof fn lemma_u64_be_bytes_injective(x: u64, y: u64)
    requires
        u64_be_bytes(x) == u64_be_bytes(y),
    ensures
        x == y,
{
    lemma_u64_from_be_bytes(x);
    lemma_u64_from_be_bytes(y);
}

/// The big-endian octets of an octet string followed by another.
pub proof fn lemma_be_value_concat(a: Seq<u8>, b: Seq<u8>)
    ensures
        be_value(a + b) == be_value(a) * pow(256, b.len()) + be_value(b),
    decreases b.len(),
{
    if b.len() == 0 {
        assert(a + b =~= a);
        vstd::arithmetic::power::lemma_pow0(256);
    } else {
        assert((a + b).drop_last() =~= a + b.drop_last());
        lemma_be_value_concat(a, b.drop_last());
        vstd::arithmetic::power::lemma_pow_adds(256, 1, (b.len() - 1) as nat);
        vstd::arithmetic::power::lemma_pow1(256);
        let p = pow(256, (b.len() - 1) as nat);
        assert((be_value(a) * p + be_value(b.drop_last())) * 256 + b.last() as nat == be_value(a)
            * (256 * p) + (be_value(b.drop_last()) * 256 + b.last() as nat)) by (nonlinear_arith);
    }
}

proof fn lemma_pow_256_8(k: nat)
    ensures
        pow(256, 8 * k) == pow(limb_radix() as int, k),
    decreases k,
{
    if k == 0 {
        vstd::arithmetic::power::lemma_pow0(256);
        vstd::arithmetic::power::lemma_pow0(limb_radix() as int);
    } else {
        lemma_pow_256_8((k - 1) as nat);
        vstd::arithmetic::power::lemma_pow_adds(256, 8, (8 * (k - 1)) as nat);
        vstd::arithmetic::power::lemma_pow_adds(limb_radix() as int, 1, (k - 1) as nat);
        vstd::arithmetic::power::lemma_pow1(limb_radix() as int);
        assert(pow(256, 8) == limb_radix()) by {
            reveal_with_fuel(pow, 9);
        }
        assert(8 * k == 8 + 8 * (k - 1));
    }
}

pub proof fn lemma_limbs_be_bytes_len(l: Seq<u64>)
    ensures
        limbs_be_bytes(l).len() == 8 * l.len(),
    decreases l.len(),
{
    if l.len() > 0 {
        lemma_limbs_be_bytes_len(l.drop_last());
    }
}

/// The big-endian octets of limbs encode the limbs' value.
pub proof fn lemma_limbs_be_bytes_value(l: Seq<u64>)
    ensures
        be_value(limbs_be_bytes(l)) == limbs_value(l),
    decreases l.len(),
{
    if l.len() > 0 {
        let rest = l.drop_last();
        lemma_limbs_be_bytes_value(rest);
        lemma_limbs_be_bytes_len(rest);
        lemma_be_value_concat(u64_be_bytes(l.last()), limbs_be_bytes(rest));
        lemma_u64_be_bytes_value(l.last());
        lemma_pow_256_8(rest.len());
        vstd::arithmetic::power::lemma_pow_positive(limb_radix() as int, rest.len());
        assert(limbs_be_bytes(l) == u64_be_bytes(l.last()) + limbs_be_bytes(rest));
        assert(limbs_be_bytes(rest).len() == 8 * rest.len());
        assert(be_value(limbs_be_bytes(l)) == l.last() as nat * pow(256, 8 * rest.len())
            + limbs_value(rest));
        assert(limbs_value(l) == limbs_value(rest) + l.last() as nat * pow(
            limb_radix() as int,
            rest.len(),
        ) as nat);
    }
}

/// Reading limbs back from their big-endian octets gives the limbs.
pub proof fn lemma_be_bytes_to_limbs_inverse(l: Seq<u64>)
    ensures
        be_bytes_to_limbs(limbs_be_bytes(l)) == l,
    decreases l.len(),
{
    lemma_limbs_be_bytes_len(l);
    let b = limbs_be_bytes(l);
    let n = l.len() as int;
    if n > 0 {
        let rest = l.drop_last();
        lemma_be_bytes_to_limbs_inverse(rest);
        lemma_limbs_be_bytes_len(rest);
        let rb = limbs_be_bytes(rest);
        assert(b == u64_be_bytes(l.last()) + rb);
        assert forall|i: int| 0 <= i < n implies #[trigger] be_bytes_to_limbs(b)[i] == l[i] by {
            if i < n - 1 {
                assert(b.subrange(b.len() - 8 * (i + 1), b.len() - 8 * i) =~= rb.subrange(
                    rb.len() - 8 * (i + 1),
                    rb.len() - 8 * i,
                ));
                assert(be_bytes_to_limbs(rb)[i] == rest[i]);
            } else {
                assert(b.subrange(b.len() - 8 * (i + 1), b.len() - 8 * i) =~= u64_be_bytes(
                    l.last(),
                ));
                lemma_u64_from_be_bytes(l.last());
            }
        }
        assert(be_bytes_to_limbs(b) =~= l);
    } else {
        assert(be_bytes_to_limbs(b) =~= l);
    }
}

/// The big-endian octets of limbs end with those of the least significant
/// limb.
pub proof fn lemma_limbs_be_bytes_front(s: Seq<u64>)
    requires
        s.len() > 0,
    ensures
        limbs_be_bytes(s) == limbs_be_bytes(s.drop_first()) + u64_be_bytes(s[0]),
    decreases s.len(),
{
    if s.len() > 1 {
        lemma_limbs_be_bytes_front(s.drop_last());
        assert(s.drop_last().drop_first() =~= s.drop_first().drop_last());
    } else {
        assert(s.drop_first() =~= Seq::<u64>::empty());
        assert(s.drop_last() =~= Seq::<u64>::empty());
    }
}

/// Writing out limbs read from octets gives those octets back.
pub proof fn lemma_limbs_be_bytes_of_read(b: Seq<u8>)
    requires
        b.len() % 8 == 0,
    ensures
        limbs_be_bytes(be_bytes_to_limbs(b)) == b,
    decreases b.len(),
{
    let l = be_bytes_to_limbs(b);
    if b.len() > 0 {
        let rb = b.subrange(8, b.len() as int);
        let n = l.len() as int;
        assert(l.drop_last() =~= be_bytes_to_limbs(rb)) by {
            assert forall|i: int| 0 <= i < n - 1 implies #[trigger] l.drop_last()[i]
                == be_bytes_to_limbs(rb)[i] by {
                assert(b.subrange(b.len() - 8 * (i + 1), b.len() - 8 * i) =~= rb.subrange(
                    rb.len() - 8 * (i + 1),
                    rb.len() - 8 * i,
                ));
            }
        }
        lemma_limbs_be_bytes_of_read(rb);
        assert(b.subrange(b.len() - 8 * n, b.len() - 8 * (n - 1)) =~= b.subrange(0, 8));
        lemma_u64_be_bytes_from(b.subrange(0, 8));
        assert(b =~= b.subrange(0, 8) + rb);
    } else {
        assert(limbs_be_bytes(l) =~= b);
    }
}

/// The eight big-endian octets of `x`.
pub fn u64_to_be_bytes(x: u64) -> (r: [u8; 8])
    ensures
        r@ == u64_be_bytes(x),
{
    let r = [
        (x >> 56) as u8,
        ((x >> 48) & 0xff) as u8,
        ((x >> 40) & 0xff) as u8,
        ((x >> 32) & 0xff) as u8,
        ((x >> 24) & 0xff) as u8,
        ((x >> 16) & 0xff) as u8,
        ((x >> 8) & 0xff) as u8,
        (x & 0xff) as u8,
    ];
    assert(r@ =~= u64_be_bytes(x));
    r
}

/// `x` with its octets in reverse order; on a little-endian machine this is
/// the conversion from big-endian representation to native order.
pub fn swap_u64(x: u64) -> (r: u64)
    ensures
        r == swap_u64_spec(x),
        u64_be_bytes(r) == u64_le_bytes(x),
{
    proof {
        lemma_swap_u64_bytes(x);
    }
    ((x & 0xff) << 56) | ((x & 0xff00) << 40) | ((x & 0xff0000) << 24) | ((x & 0xff000000) << 8)
        | ((x >> 8) & 0xff000000) | ((x >> 24) & 0xff0000) | ((x >> 40) & 0xff00) | (x >> 56)
}

/// The word whose big-endian octets are `b[at..at + 8]`.
pub fn u64_from_be_at(b: &[u8], at: usize) -> (r: u64)
    requires
        at + 8 <= b@.len(),
    ensures
        r == u64_from_be(b@.subrange(at as int, at + 8)),
{
    ((b[at] as u64) << 56) | ((b[at + 1] as u64) << 48) | ((b[at + 2] as u64) << 40) | ((b[at
        + 3] as u64) << 32) | ((b[at + 4] as u64) << 24) | ((b[at + 5] as u64) << 16) | ((b[at
        + 6] as u64) << 8) | (b[at + 7] as u64)
}

/// The eight little-endian octets of `x`.
pub fn u64_to_le_bytes(x: u64) -> (r: [u8; 8])
    ensures
        r@ == u64_le_bytes(x),
{
    let r = [
        (x & 0xff) as u8,
        ((x >> 8) & 0xff) as u8,
        ((x >> 16) & 0xff) as u8,
        ((x >> 24) & 0xff) as u8,
        ((x >> 32) & 0xff) as u8,
        ((x >> 40) & 0xff) as u8,
        ((x >> 48) & 0xff) as u8,
        (x >> 56) as u8,
    ];
    assert(r@ =~= u64_le_bytes(x));
    r
}

/// Copy eight octets into `out` at offset `at`.
pub fn put_bytes8<const M: usize>(out: &mut [u8; M], at: usize, b: &[u8; 8])
    requires
        at + 8 <= M,
    ensures
        final(out)@ == old(out)@.subrange(0, at as int) + b@ + old(out)@.subrange(at + 8, M as int),
{
    let ghost start = out@;
    let mut j: usize = 0;
    while j < 8
        invariant
            j <= 8,
            at + 8 <= M,
            out@.len() == M,
            start.len() == M,
            out@ == start.subrange(0, at as int) + b@.subrange(0, j as int) + start.subrange(
                at + j,
                M as int,
            ),
        decreases 8 - j,
    {
        out[at + j] = b[j];
        assert(out@ =~= start.subrange(0, at as int) + b@.subrange(0, j + 1) + start.subrange(
            at + j + 1,
            M as int,
        ));
        j = j + 1;
    }
    assert(b@.subrange(0, 8) =~= b@);
}

} // verus!
