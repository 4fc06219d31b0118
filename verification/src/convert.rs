//! Conversions between the limb formats used by the kernel ECC helpers and
//! the big-endian wire formats of keys and signatures.
//!
//! The ECC helpers work on little-endian arrays of 64-bit limbs, except for
//! the public-key output, which is in "swapped" form: limbs in reverse
//! order, each byte-swapped, so that its memory image on a little-endian
//! machine is the big-endian octet string of the coordinate.
use vstd::prelude::*;
use crate::bytes::{
    be_value, lemma_limbs_be_bytes_front, lemma_limbs_be_bytes_value, lemma_swap_u64_bytes, limbs_be_bytes, limbs_le_memory,
    limbs_value, put_bytes8, swap_u64, swap_u64_spec, u64_le_bytes, u64_to_be_bytes, u64_to_le_bytes,
    unswapped,
};

verus! {

/// Number of 64-bit limbs in a P-256 scalar or coordinate.
pub const P256_DIGITS: usize = 4;

/// Octets in a P-256 scalar or coordinate.
pub const P256_BYTES: usize = 32;

/// Octets in the device's public key: a compressed SEC 1 P-256 point
/// (`0x02` or `0x03` by the parity of Y, then X).
pub const P256_PUBKEY_BYTES: usize = 33;

/// Octets in an uncompressed SEC 1 P-256 point (`0x04 || X || Y`), the form
/// the certificate carries.
pub const P256_UNCOMPRESSED_PUBKEY_BYTES: usize = 65;

/// SEC 1 uncompressed encoding of a point with the given coordinate octets.
pub open spec fn sec1_uncompressed(x: Seq<u8>, y: Seq<u8>) -> Seq<u8> {
    seq![0x04u8] + x + y
}

/// SEC 1 compressed encoding of a point with the given big-endian
/// coordinate octets: `0x02` for an even Y, `0x03` for an odd one, then X.
pub open spec fn sec1_compressed(x: Seq<u8>, y: Seq<u8>) -> Seq<u8> {
    seq![(0x02 + be_value(y) % 2) as u8] + x
}

/// The parity of a big-endian number is that of its last octet.
pub proof fn lemma_be_value_parity(y: Seq<u8>)
    requires
        y.len() > 0,
    ensures
        be_value(y) % 2 == y.last() % 2,
{
    let h = be_value(y.drop_last());
    let l = y.last() as nat;
    assert(be_value(y) == h * 256 + l);
    assert(h * 256 + l == 2 * (h * 128) + l) by (nonlinear_arith);
    vstd::arithmetic::div_mod::lemma_mod_multiples_vanish((h * 128) as int, l as int, 2);
}

/// The compressed key is 33 octets: `0x02` or `0x03`, whose low bit is the
/// parity of Y, then the same big-endian X octets that the uncompressed key
/// carries, so that they read back as X.
pub proof fn lemma_compressed_key_fields(x: Seq<u8>, y: Seq<u8>)
    requires
        x.len() == 32,
        y.len() == 32,
    ensures
        ({
            let c = sec1_compressed(x, y);
            &&& c.len() == 33
            &&& c[0] == 2 || c[0] == 3
            &&& c[0] % 2 == be_value(y) % 2
            &&& c[0] % 2 == y[31] % 2
            &&& c.subrange(1, 33) == sec1_uncompressed(x, y).subrange(1, 33)
            &&& be_value(c.subrange(1, 33)) == be_value(x)
        }),
{
    lemma_be_value_parity(y);
    let c = sec1_compressed(x, y);
    assert(c.subrange(1, 33) =~= x);
    assert(sec1_uncompressed(x, y).subrange(1, 33) =~= x);
}

/// The compressed SEC 1 point from big-endian coordinates: the parity
/// prefix, then X.
pub fn compressed_pubkey_bytes(x: &[u8; 32], y: &[u8; 32]) -> (out: [u8; 33])
    ensures
        out@ == sec1_compressed(x@, y@),
{
    let mut out = [0u8; 33];
    out[0] = 0x02 + y[31] % 2;
    let mut i: usize = 0;
    while i < 32
        invariant
            i <= 32,
            out@.len() == 33,
            out@[0] == 0x02 + y@[31] % 2,
            out@.subrange(1, 1 + i) == x@.subrange(0, i as int),
        decreases 32 - i,
    {
        out[1 + i] = x[i];
        assert(out@.subrange(1, 1 + i + 1) =~= x@.subrange(0, i + 1));
        i = i + 1;
    }
    proof {
        lemma_be_value_parity(y@);
        assert(x@.subrange(0, 32) =~= x@);
    }
    assert(out@ =~= seq![out@[0]] + out@.subrange(1, 33));
    assert(out@ =~= sec1_compressed(x@, y@));
    out
}

/// Limbs in swapped form, as memory: limbs in order, each limb least
/// significant octet first.
pub fn digits_to_be_bytes(digits: &[u64; 4]) -> (out: [u8; 32])
    ensures
        out@ == limbs_le_memory(digits@),
{
    let mut out = [0u8; 32];
    let mut i: usize = 0;
    while i < 4
        invariant
            i <= 4,
            out@.len() == 32,
            out@.subrange(0, 8 * i) == limbs_le_memory(digits@.subrange(0, i as int)),
        decreases 4 - i,
    {
        let b = u64_to_le_bytes(digits[i]);
        let ghost before = out@;
        put_bytes8(&mut out, 8 * i, &b);
        assert(digits@.subrange(0, i + 1).drop_last() =~= digits@.subrange(0, i as int));
        assert(out@.subrange(0, 8 * (i + 1)) =~= before.subrange(0, 8 * i) + b@);
        i = i + 1;
    }
    assert(out@.subrange(0, 32) =~= out@);
    assert(digits@.subrange(0, 4) =~= digits@);
    out
}

/// Swapped-form limbs back to native little-endian limbs.
pub fn unswap_digits(swapped: &[u64; 4]) -> (out: [u64; 4])
    ensures
        out@ == unswapped(swapped@),
{
    let mut out = [0u64; 4];
    let mut i: usize = 0;
    while i < 4
        invariant
            i <= 4,
            out@.len() == 4,
            forall|k: int| 0 <= k < i ==> out@[k] == swap_u64_spec(swapped@[3 - k]),
        decreases 4 - i,
    {
        out[i] = swap_u64(swapped[3 - i]);
        i = i + 1;
    }
    assert(out@ =~= unswapped(swapped@));
    out
}

/// Native little-endian limbs to big-endian octets.
pub fn le_limbs_to_be_bytes(digits: &[u64; 4]) -> (out: [u8; 32])
    ensures
        out@ == limbs_be_bytes(digits@),
{
    let mut out = [0u8; 32];
    let mut i: usize = 0;
    while i < 4
        invariant
            i <= 4,
            out@.len() == 32,
            out@.subrange(0, 8 * i) == limbs_be_bytes(digits@.subrange(4 - i, 4)),
        decreases 4 - i,
    {
        let b = u64_to_be_bytes(digits[3 - i]);
        let ghost before = out@;
        put_bytes8(&mut out, 8 * i, &b);
        let ghost next = digits@.subrange(4 - (i + 1), 4);
        assert(next.drop_first() =~= digits@.subrange(4 - i, 4));
        proof {
            lemma_limbs_be_bytes_front(next);
        }
        assert(out@.subrange(0, 8 * (i + 1)) =~= before.subrange(0, 8 * i) + b@);
        i = i + 1;
    }
    assert(out@.subrange(0, 32) =~= out@);
    assert(digits@.subrange(0, 4) =~= digits@);
    out
}

/// The 65-octet uncompressed SEC 1 point `0x04 || X || Y` from coordinates
/// in swapped form.
pub fn uncompressed_pubkey_bytes(pub_x: &[u64; 4], pub_y: &[u64; 4]) -> (out: [u8; 65])
    ensures
        out@ == sec1_uncompressed(limbs_le_memory(pub_x@), limbs_le_memory(pub_y@)),
{
    let mut out = [0u8; 65];
    out[0] = 0x04;
    let xb = digits_to_be_bytes(pub_x);
    let yb = digits_to_be_bytes(pub_y);
    let mut i: usize = 0;
    while i < 32
        invariant
            i <= 32,
            out@.len() == 65,
            out@[0] == 0x04,
            out@.subrange(1, 1 + i) == xb@.subrange(0, i as int),
            out@.subrange(33, 33 + i) == yb@.subrange(0, i as int),
        decreases 32 - i,
    {
        out[1 + i] = xb[i];
        out[33 + i] = yb[i];
        assert(out@.subrange(1, 1 + i + 1) =~= xb@.subrange(0, i + 1));
        assert(out@.subrange(33, 33 + i + 1) =~= yb@.subrange(0, i + 1));
        i = i + 1;
    }
    assert(xb@.subrange(0, 32) =~= xb@);
    assert(yb@.subrange(0, 32) =~= yb@);
    assert(out@ =~= seq![out@[0]] + out@.subrange(1, 33) + out@.subrange(33, 65));
    assert(out@ =~= sec1_uncompressed(xb@, yb@));
    out
}

/// A SEC 1 uncompressed EC point (`0x04 || X || Y`, 65 octets).
pub struct UncompressedPubkey(pub [u8; 65]);

impl UncompressedPubkey {
    /// The encoded point.
    pub fn as_bytes(&self) -> (r: &[u8; 65])
        ensures
            r@ == self.0@,
    {
        &self.0
    }
}

proof fn lemma_limbs_le_memory_front(s: Seq<u64>)
    requires
        s.len() > 0,
    ensures
        limbs_le_memory(s) == u64_le_bytes(s[0]) + limbs_le_memory(s.drop_first()),
    decreases s.len(),
{
    if s.len() > 1 {
        lemma_limbs_le_memory_front(s.drop_last());
        assert(s.drop_last().drop_first() =~= s.drop_first().drop_last());
    } else {
        assert(s.drop_first() =~= Seq::<u64>::empty());
        assert(s.drop_last() =~= Seq::<u64>::empty());
    }
}

/// Undoing the swapped form twice gives the limbs back.
pub proof fn lemma_unswapped_involutive(s: Seq<u64>)
    ensures
        unswapped(unswapped(s)) == s,
{
    assert forall|i: int| 0 <= i < s.len() implies #[trigger] unswapped(unswapped(s))[i]
        == s[i] by {
        lemma_swap_u64_bytes(s[i]);
    }
    assert(unswapped(unswapped(s)) =~= s);
}

/// The memory image of swapped-form limbs is the big-endian octet string
/// of the native limbs they stand for.
pub proof fn lemma_swapped_memory_is_be(s: Seq<u64>)
    ensures
        limbs_le_memory(s) == limbs_be_bytes(unswapped(s)),
    decreases s.len(),
{
    if s.len() > 0 {
        let u = unswapped(s);
        lemma_limbs_le_memory_front(s);
        lemma_swapped_memory_is_be(s.drop_first());
        assert(u.drop_last() =~= unswapped(s.drop_first()));
        lemma_swap_u64_bytes(s[0]);
        assert(u.last() == swap_u64_spec(s[0]));
    } else {
        assert(limbs_le_memory(s) =~= limbs_be_bytes(unswapped(s)));
    }
}

/// For coordinates in swapped form, copying the memory image gives the same
/// octets as first converting to native limbs and then to big-endian.
pub proof fn lemma_digits_to_be_bytes_agrees(swapped: [u64; 4])
    ensures
        limbs_le_memory(swapped@) == limbs_be_bytes(unswapped(swapped@)),
        be_value(limbs_le_memory(swapped@)) == limbs_value(unswapped(swapped@)),
{
    lemma_swapped_memory_is_be(swapped@);
    lemma_limbs_be_bytes_value(unswapped(swapped@));
}

} // verus!
