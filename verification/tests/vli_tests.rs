use std::cmp::Ordering;
use tarako::convert::{digits_to_be_bytes, le_limbs_to_be_bytes, unswap_digits, UncompressedPubkey};
use tarako::bytes::{swap_u64, u64_to_be_bytes, u64_to_le_bytes};
use tarako::vli::{Scalar, Vli};

const N: [u64; 4] = [0xF3B9CAC2FC632551, 0xBCE6FAADA7179E84, 0xFFFFFFFFFFFFFFFF, 0xFFFFFFFF00000000];

fn s(l: [u64; 4]) -> Scalar {
    Vli::from_limbs(l)
}

fn to_u128(v: &Vli<2>) -> u128 {
    (v.0[1] as u128) << 64 | v.0[0] as u128
}

fn v2(x: u128) -> Vli<2> {
    Vli::from_limbs([x as u64, (x >> 64) as u64])
}

#[test]
fn zero_and_is_zero() {
    let z = Scalar::zero();
    assert_eq!(z.0, [0; 4]);
    assert!(z.is_zero());
    assert!(!s([0, 0, 0, 1]).is_zero());
    assert_eq!(s([1, 2, 3, 4]).limbs(), &[1, 2, 3, 4]);
}

#[test]
fn carrying_add_propagates_and_overflows() {
    let (sum, carry) = s([u64::MAX, u64::MAX, 0, 0]).carrying_add(&s([1, 0, 0, 0]), 0);
    assert_eq!(sum.0, [0, 0, 1, 0]);
    assert_eq!(carry, 0);
    let (sum, carry) = s([u64::MAX; 4]).carrying_add(&s([0; 4]), 1);
    assert_eq!(sum.0, [0; 4]);
    assert_eq!(carry, 1);
    let (sum, carry) = s([u64::MAX; 4]).carrying_add(&s([u64::MAX; 4]), 1);
    assert_eq!(sum.0, [u64::MAX; 4]);
    assert_eq!(carry, 1);
}

#[test]
fn sub_with_borrow_wraps() {
    let (d, b) = s([0, 0, 1, 0]).sub_with_borrow(&s([1, 0, 0, 0]));
    assert_eq!(d.0, [u64::MAX, u64::MAX, 0, 0]);
    assert_eq!(b, 0);
    let (d, b) = s([0; 4]).sub_with_borrow(&s([1, 0, 0, 0]));
    assert_eq!(d.0, [u64::MAX; 4]);
    assert_eq!(b, 1);
}

#[test]
fn subtraction_undoes_addition() {
    let a = s([5, 6, 7, 8]);
    let b = s([u64::MAX, 3, u64::MAX, 9]);
    let (sum, c) = a.carrying_add(&b, 0);
    let (d, w) = sum.sub_with_borrow(&b);
    assert_eq!(d.0, a.0);
    assert_eq!(c, w);
}

#[test]
fn comparison_by_value() {
    assert_eq!(s([5, 0, 0, 1]).cmp_ffi(&s([6, 0, 0, 0])), Ordering::Greater);
    assert_eq!(s([5, 0, 0, 0]).cmp_ffi(&s([6, 0, 0, 0])), Ordering::Less);
    assert_eq!(s([5, 1, 2, 3]).cmp_ffi(&s([5, 1, 2, 3])), Ordering::Equal);
    assert!(s([5, 1, 2, 3]) == s([5, 1, 2, 3]));
    assert!(s([0, 0, 0, 1]) > s([u64::MAX, u64::MAX, u64::MAX, 0]));
    assert_eq!(tarako::vli_order::vli_cmp_to_ordering(-3), Ordering::Less);
    assert_eq!(tarako::vli_order::vli_cmp_to_ordering(0), Ordering::Equal);
    assert_eq!(tarako::vli_order::vli_cmp_to_ordering(7), Ordering::Greater);
}

#[test]
fn modular_arithmetic_matches_u128() {
    let m: u128 = 0xffff_ffff_ffff_ffc5; // a prime below 2^64
    let cases: [(u128, u128); 4] = [(0, 5), (1, 1), (0xdead_beef_1234, 0xfeed_face_9876), (m - 1, m - 2)];
    for (a, b) in cases {
        let r = v2(a).mod_mult(&v2(b), &v2(m));
        assert_eq!(to_u128(&r), (a % m) * (b % m) % m);
        let r = v2(a % m).add_mod(&v2(b % m), 1, &v2(m));
        assert_eq!(to_u128(&r), (a % m + b % m + 1) % m);
    }
    let big: u128 = 0x1234_5678_9abc_def0_0fed_cba9_8765_4321;
    assert_eq!(to_u128(&v2(big).mod_reduce(&v2(m))), big % m);
}

#[test]
fn mod_inv_is_inverse_for_group_order() {
    let n = s(N);
    let k = s([0x1122334455667788, 0x99aabbccddeeff00, 0x0123456789abcdef, 0x0fedcba987654321]);
    let k_inv = k.mod_inv(&n);
    let one = k.mod_mult(&k_inv, &n);
    assert_eq!(one.0, [1, 0, 0, 0]);
}

#[test]
fn mod_inv_small_prime() {
    let p = v2(13);
    let inv = v2(5).mod_inv(&p);
    assert_eq!(to_u128(&inv), 8); // 5 * 8 = 40 = 3 * 13 + 1
}

#[test]
fn mod_inv_of_zero_is_zero() {
    assert!(Scalar::zero().mod_inv(&s(N)).is_zero());
    assert_eq!(to_u128(&v2(0).mod_inv(&v2(13))), 0);
}

#[test]
fn mod_inv_every_unit_of_a_small_odd_modulus() {
    // 15 is odd but not prime: the units are inverted, the rest stay below 15.
    for x in 1u128..40 {
        let inv = to_u128(&v2(x).mod_inv(&v2(15)));
        assert!(inv < 15);
        if x % 3 != 0 && x % 5 != 0 {
            assert_eq!((inv * x) % 15, 1, "x = {}", x);
        }
    }
}

#[test]
fn mod_inv_spans_limbs() {
    // 2^64 + 13 is odd; invert a value with both limbs in use.
    let m: u128 = (1u128 << 64) + 13;
    let x: u128 = (1u128 << 64) + 2;
    let inv = to_u128(&v2(x).mod_inv(&v2(m)));
    assert!(inv < m);
    // x = -11 (mod m), so inv * 11 = -1 (mod m)
    assert_eq!((inv * 11) % m, m - 1);
}

#[test]
fn byte_order_helpers() {
    assert_eq!(u64_to_be_bytes(0x0102030405060708), [1, 2, 3, 4, 5, 6, 7, 8]);
    assert_eq!(u64_to_le_bytes(0x0102030405060708), [8, 7, 6, 5, 4, 3, 2, 1]);
    assert_eq!(swap_u64(0x0102030405060708), 0x0807060504030201);
}

#[test]
fn le_limbs_to_big_endian_bytes() {
    let out = le_limbs_to_be_bytes(&[0x1111111111111111, 0x2222222222222222, 0x3333333333333333, 0x0102030405060708]);
    assert_eq!(&out[..8], &[1, 2, 3, 4, 5, 6, 7, 8]);
    assert_eq!(&out[8..16], &[0x33; 8]);
    assert_eq!(&out[24..], &[0x11; 8]);
}

#[test]
fn swapped_digits_agree_with_unswap() {
    let swapped = [0x0807060504030201, 0x100f0e0d0c0b0a09, 0x1817161514131211, 0x201f1e1d1c1b1a19];
    let direct = digits_to_be_bytes(&swapped);
    let expected: Vec<u8> = (1..=32).collect();
    assert_eq!(&direct[..], &expected[..]);
    assert_eq!(le_limbs_to_be_bytes(&unswap_digits(&swapped)), direct);
    assert_eq!(unswap_digits(&unswap_digits(&swapped)), swapped);
    assert_eq!(s(swapped).unswap().0, unswap_digits(&swapped));
}

#[test]
fn from_be_bytes_roundtrip() {
    let limbs = [0x1111111111111111, 0x2222222222222222, 0x3333333333333333, 0x0102030405060708];
    let bytes = le_limbs_to_be_bytes(&limbs);
    assert_eq!(Scalar::from_be_bytes(&bytes).0, limbs);
}

#[test]
fn from_be_bytes_reads_only_the_prefix() {
    let mut long = [0xeeu8; 40];
    long[7] = 5; // least significant octet of the 2-limb prefix's high limb
    long[15] = 9;
    let v: Vli<2> = Vli::from_be_bytes(&long);
    assert_eq!(v.0[0] & 0xff, 9);
    assert_eq!(v.0[1] & 0xff, 5);
    assert_eq!(v.0[1] >> 8, 0xeeeeeeeeeeeeee);
}

#[test]
fn uncompressed_pubkey_accessor() {
    let mut raw = [0u8; 65];
    raw[0] = 4;
    raw[64] = 9;
    let pk = UncompressedPubkey(raw);
    assert_eq!(pk.as_bytes(), &raw);
}

#[test]
fn clone_keeps_limbs() {
    let a = s([1, 2, 3, 4]);
    assert_eq!(a.clone().0, [1, 2, 3, 4]);
}

#[test]
fn operators_wrap_modulo_the_width() {
    let a = s([u64::MAX, 0, 0, 0]);
    let b = s([1, 0, 0, 0]);
    assert_eq!((a + b).0, [0, 1, 0, 0]);
    let top = s([u64::MAX; 4]);
    assert_eq!((top + s([2, 0, 0, 0])).0, [1, 0, 0, 0]);
    assert_eq!((s([0; 4]) - s([1, 0, 0, 0])).0, [u64::MAX; 4]);
    assert_eq!((s([0, 1, 0, 0]) - s([1, 0, 0, 0])).0, [u64::MAX, 0, 0, 0]);
}
