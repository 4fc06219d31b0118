use tarako::convert::{le_limbs_to_be_bytes, unswap_digits};
use tarako::ecdsa::{ecdsa_attempt, EcdsaSigner, SignStep, ECDSA_MAX_ATTEMPTS};
use tarako::vli::{Scalar, Vli};

const N: [u64; 4] = [0xF3B9CAC2FC632551, 0xBCE6FAADA7179E84, 0xFFFFFFFFFFFFFFFF, 0xFFFFFFFF00000000];

fn swap_form(native: [u64; 4]) -> Scalar {
    // the swapped form is its own inverse
    Vli::from_limbs(unswap_digits(&native))
}

#[test]
fn signature_satisfies_signing_equation() {
    let n = Vli::from_limbs(N);
    let d = Vli::from_limbs([7, 0, 0, 0]);
    let k = Vli::from_limbs([11, 0, 0, 0]);
    let rx_native = [0x1234, 0, 0, 0];
    let mut hash = [0u8; 32];
    hash[31] = 3;
    let (r, s) = ecdsa_attempt(&hash, &k, &swap_form(rx_native), &d, &n).unwrap();
    assert_eq!(r.0, rx_native);
    // s * k == z + r * d (mod n)
    let sk = s.mod_mult(&k, &n);
    let rd = r.mod_mult(&d, &n);
    let z = Vli::from_limbs([3, 0, 0, 0]);
    let rhs = z.add_mod(&rd, 0, &n);
    assert_eq!(sk.0, rhs.0);
    assert_eq!(sk.0, [3 + 0x1234 * 7, 0, 0, 0]);
}

#[test]
fn r_is_reduced_once_by_the_order() {
    let n = Vli::from_limbs(N);
    let d = Vli::from_limbs([1, 0, 0, 0]);
    let k = Vli::from_limbs([2, 0, 0, 0]);
    let mut rx = N;
    rx[0] += 5;
    let hash = [0u8; 32];
    let (r, _) = ecdsa_attempt(&hash, &k, &swap_form(rx), &d, &n).unwrap();
    assert_eq!(r.0, [5, 0, 0, 0]);
}

#[test]
fn zero_r_or_zero_s_asks_for_another_nonce() {
    let n = Vli::from_limbs(N);
    let d = Vli::from_limbs([1, 0, 0, 0]);
    let k = Vli::from_limbs([2, 0, 0, 0]);
    let hash = [0u8; 32];
    // r == n reduces to zero
    assert!(ecdsa_attempt(&hash, &k, &swap_form(N), &d, &n).is_none());
    // z + r d == 0 (mod n): z = n - 1, r = 1, d = 1
    let mut n_minus_1 = N;
    n_minus_1[0] -= 1;
    let hash = le_limbs_to_be_bytes(&n_minus_1);
    assert!(ecdsa_attempt(&hash, &k, &swap_form([1, 0, 0, 0]), &d, &n).is_none());
    assert_eq!(ECDSA_MAX_ATTEMPTS, 100);
}

#[test]
fn signing_loop_retries_then_gives_up() {

    let n = Vli::from_limbs(N);
    let d = Vli::from_limbs([1, 0, 0, 0]);
    let k = Vli::from_limbs([2, 0, 0, 0]);
    let mut signer = EcdsaSigner::new([0u8; 32]);
    let zero_r = swap_form(N);
    for _ in 0..ECDSA_MAX_ATTEMPTS - 1 {
        assert!(signer.can_attempt());
        assert!(matches!(signer.step(&k, &zero_r, &d, &n), SignStep::Retry));
    }
    assert!(signer.can_attempt());
    assert!(matches!(signer.step(&k, &zero_r, &d, &n), SignStep::GiveUp));
    assert!(!signer.can_attempt());
    let mut signer = EcdsaSigner::new([0u8; 32]);
    assert!(matches!(signer.step(&k, &swap_form([9, 0, 0, 0]), &d, &n), SignStep::Done(_, _)));
}
