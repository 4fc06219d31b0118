//! The self-signed X.509 certificate for the generated ECDSA P-256 key.
//!
//! `tbs_certificate` gives the to-be-signed part; once it has been signed,
//! `build_certificate` wraps it with the signature algorithm and the
//! DER-encoded `(r, s)` signature.
use vstd::prelude::*;
use crate::bytes::{limbs_be_bytes, limbs_le_memory};
use crate::convert::{le_limbs_to_be_bytes, sec1_uncompressed, uncompressed_pubkey_bytes};
use crate::der::{
    arcs_encoding, base128, base128_high, be_minimal, der_bit_string, der_explicit, der_integer,
    der_length, der_oid, der_sequence, der_set, der_unsigned_integer, der_utc_time,
    der_utf8_string, identifier, integer_content, lemma_tlv_len,
    lemma_unsigned_integer_content_len, oid_content, unsigned_integer_content, DerBuf,
};

verus! {

/// OID 1.2.840.10045.2.1, id-ecPublicKey (RFC 5480).
pub open spec fn oid_ec_pubkey_arcs() -> Seq<u32> {
    seq![1u32, 2, 840, 10045, 2, 1]
}

/// OID 1.2.840.10045.3.1.7, secp256r1 (SEC 2).
pub open spec fn oid_secp256r1_arcs() -> Seq<u32> {
    seq![1u32, 2, 840, 10045, 3, 1, 7]
}

/// OID 1.2.840.10045.4.3.2, ecdsa-with-SHA256 (RFC 5758).
pub open spec fn oid_ecdsa_with_sha256_arcs() -> Seq<u32> {
    seq![1u32, 2, 840, 10045, 4, 3, 2]
}

/// OID 2.5.4.3, commonName (X.520).
pub open spec fn oid_cn_arcs() -> Seq<u32> {
    seq![2u32, 5, 4, 3]
}

/// Start of the validity period, UTCTime "250101000000Z".
pub open spec fn not_before_time() -> Seq<u8> {
    seq![0x32u8, 0x35, 0x30, 0x31, 0x30, 0x31, 0x30, 0x30, 0x30, 0x30, 0x30, 0x30, 0x5a]
}

/// End of the validity period, UTCTime "350101000000Z".
pub open spec fn not_after_time() -> Seq<u8> {
    seq![0x33u8, 0x35, 0x30, 0x31, 0x30, 0x31, 0x30, 0x30, 0x30, 0x30, 0x30, 0x30, 0x5a]
}

/// Subject and issuer commonName, "signer".
pub open spec fn subject_cn() -> Seq<u8> {
    seq![0x73u8, 0x69, 0x67, 0x6e, 0x65, 0x72]
}

/// AlgorithmIdentifier for ecdsa-with-SHA256.
pub open spec fn signature_algorithm_spec() -> Seq<u8> {
    der_sequence(der_oid(oid_ecdsa_with_sha256_arcs()))
}

/// SubjectPublicKeyInfo for a P-256 public key given as SEC 1 octets.
pub open spec fn spki_spec(pubkey: Seq<u8>) -> Seq<u8> {
    der_sequence(
        der_sequence(der_oid(oid_ec_pubkey_arcs()) + der_oid(oid_secp256r1_arcs()))
            + der_bit_string(0, pubkey),
    )
}

/// The validity period.
pub open spec fn validity_spec() -> Seq<u8> {
    der_sequence(der_utc_time(not_before_time()) + der_utc_time(not_after_time()))
}

/// The Name `CN=signer`, used as subject and issuer.
pub open spec fn name_spec() -> Seq<u8> {
    der_sequence(der_set(der_sequence(der_oid(oid_cn_arcs()) + der_utf8_string(subject_cn()))))
}

/// TBSCertificate: version 3, serial number 1, the signature algorithm,
/// issuer, validity, subject and the subject public key.
pub open spec fn tbs_certificate_spec(pubkey: Seq<u8>) -> Seq<u8> {
    der_sequence(
        der_explicit(0, der_integer(2)) + der_integer(1) + signature_algorithm_spec() + name_spec()
            + validity_spec() + name_spec() + spki_spec(pubkey),
    )
}

/// ECDSA-Sig-Value: the SEQUENCE of the INTEGERs `r` and `s`, both given as
/// big-endian octets.
pub open spec fn ecdsa_sig_value_spec(r: Seq<u8>, s: Seq<u8>) -> Seq<u8> {
    der_sequence(der_unsigned_integer(r) + der_unsigned_integer(s))
}

/// Certificate: the TBSCertificate, the signature algorithm and the
/// signature as a BIT STRING.
pub open spec fn certificate_spec(tbs: Seq<u8>, r: Seq<u8>, s: Seq<u8>) -> Seq<u8> {
    der_sequence(tbs + signature_algorithm_spec() + der_bit_string(0, ecdsa_sig_value_spec(r, s)))
}

proof fn lemma_arc_840()
    ensures
        base128(840) == seq![0x86u8, 0x48],
        base128(10045) == seq![0xceu8, 0x3d],
{
    assert(base128_high(6) == seq![0x86u8]);
    assert(base128_high(78) == seq![0xceu8]);
}

pub proof fn lemma_oid_contents()
    ensures
        oid_content(oid_ec_pubkey_arcs()) == seq![0x2au8, 0x86, 0x48, 0xce, 0x3d, 0x02, 0x01],
        oid_content(oid_secp256r1_arcs()) == seq![
            0x2au8,
            0x86,
            0x48,
            0xce,
            0x3d,
            0x03,
            0x01,
            0x07,
        ],
        oid_content(oid_ecdsa_with_sha256_arcs()) == seq![
            0x2au8,
            0x86,
            0x48,
            0xce,
            0x3d,
            0x04,
            0x03,
            0x02,
        ],
        oid_content(oid_cn_arcs()) == seq![0x55u8, 0x04, 0x03],
{
    lemma_arc_840();
    let e = Seq::<u32>::empty();
    assert(arcs_encoding(e) == Seq::<u8>::empty());
    // shared prefix 840, 10045
    let p1 = seq![840u32];
    let p2 = seq![840u32, 10045];
    assert(p1.drop_last() =~= e);
    assert(arcs_encoding(p1) =~= seq![0x86u8, 0x48]);
    assert(p2.drop_last() =~= p1);
    assert(arcs_encoding(p2) =~= seq![0x86u8, 0x48, 0xce, 0x3d]);
    let a = oid_ec_pubkey_arcs().skip(2);
    let a3 = seq![840u32, 10045, 2];
    assert(a3.drop_last() =~= p2);
    assert(arcs_encoding(a3) =~= seq![0x86u8, 0x48, 0xce, 0x3d, 0x02]);
    assert(a =~= seq![840u32, 10045, 2, 1]);
    assert(a.drop_last() =~= a3);
    assert(arcs_encoding(a) =~= seq![0x86u8, 0x48, 0xce, 0x3d, 0x02, 0x01]);
    assert(oid_content(oid_ec_pubkey_arcs()) =~= seq![
        0x2au8,
        0x86,
        0x48,
        0xce,
        0x3d,
        0x02,
        0x01,
    ]);
    let b = oid_secp256r1_arcs().skip(2);
    let b3 = seq![840u32, 10045, 3];
    let b4 = seq![840u32, 10045, 3, 1];
    assert(b3.drop_last() =~= p2);
    assert(arcs_encoding(b3) =~= seq![0x86u8, 0x48, 0xce, 0x3d, 0x03]);
    assert(b4.drop_last() =~= b3);
    assert(arcs_encoding(b4) =~= seq![0x86u8, 0x48, 0xce, 0x3d, 0x03, 0x01]);
    assert(b =~= seq![840u32, 10045, 3, 1, 7]);
    assert(b.drop_last() =~= b4);
    assert(arcs_encoding(b) =~= seq![0x86u8, 0x48, 0xce, 0x3d, 0x03, 0x01, 0x07]);
    assert(oid_content(oid_secp256r1_arcs()) =~= seq![
        0x2au8,
        0x86,
        0x48,
        0xce,
        0x3d,
        0x03,
        0x01,
        0x07,
    ]);
    let c = oid_ecdsa_with_sha256_arcs().skip(2);
    let c3 = seq![840u32, 10045, 4];
    let c4 = seq![840u32, 10045, 4, 3];
    assert(c3.drop_last() =~= p2);
    assert(arcs_encoding(c3) =~= seq![0x86u8, 0x48, 0xce, 0x3d, 0x04]);
    assert(c4.drop_last() =~= c3);
    assert(arcs_encoding(c4) =~= seq![0x86u8, 0x48, 0xce, 0x3d, 0x04, 0x03]);
    assert(c =~= seq![840u32, 10045, 4, 3, 2]);
    assert(c.drop_last() =~= c4);
    assert(arcs_encoding(c) =~= seq![0x86u8, 0x48, 0xce, 0x3d, 0x04, 0x03, 0x02]);
    assert(oid_content(oid_ecdsa_with_sha256_arcs()) =~= seq![
        0x2au8,
        0x86,
        0x48,
        0xce,
        0x3d,
        0x04,
        0x03,
        0x02,
    ]);
    let d = oid_cn_arcs().skip(2);
    let d1 = seq![4u32];
    assert(d1.drop_last() =~= e);
    assert(arcs_encoding(d1) =~= seq![0x04u8]);
    assert(d =~= seq![4u32, 3]);
    assert(d.drop_last() =~= d1);
    assert(arcs_encoding(d) =~= seq![0x04u8, 0x03]);
    assert(oid_content(oid_cn_arcs()) =~= seq![0x55u8, 0x04, 0x03]);
}

proof fn lemma_small_integers()
    ensures
        der_integer(1) == seq![0x02u8, 0x01, 0x01],
        der_integer(2) == seq![0x02u8, 0x01, 0x02],
{
    assert(be_minimal(1) == seq![1u8]);
    assert(be_minimal(2) == seq![2u8]);
    assert(integer_content(1) == seq![1u8]);
    assert(integer_content(2) == seq![2u8]);
    assert(der_integer(1) =~= seq![0x02u8, 0x01, 0x01]);
    assert(der_integer(2) =~= seq![0x02u8, 0x01, 0x02]);
}

pub proof fn lemma_identifiers()
    ensures
        identifier(0, true, 0x10) == 0x30,
        identifier(0, true, 0x11) == 0x31,
        identifier(2, true, 0) == 0xa0,
{
    assert(((0u8 << 6u8) | (1u8 << 5u8) | 0x10u8) as u8 == 0x30u8) by (bit_vector);
    assert(((0u8 << 6u8) | (1u8 << 5u8) | 0x11u8) as u8 == 0x31u8) by (bit_vector);
    assert(((2u8 << 6u8) | (1u8 << 5u8) | 0u8) as u8 == 0xa0u8) by (bit_vector);
}

/// Lengths of the fixed parts of the certificate.
proof fn lemma_part_lengths(pubkey: Seq<u8>)
    requires
        pubkey.len() == 65,
    ensures
        signature_algorithm_spec().len() == 12,
        name_spec().len() == 19,
        validity_spec().len() == 32,
        spki_spec(pubkey).len() == 91,
        der_explicit(0, der_integer(2)).len() == 5,
        der_integer(1).len() == 3,
        tbs_certificate_spec(pubkey).len() == 184,
{
    lemma_oid_contents();
    lemma_small_integers();
    lemma_identifiers();
    let sig_oid = der_oid(oid_ecdsa_with_sha256_arcs());
    lemma_tlv_len(0x06, oid_content(oid_ecdsa_with_sha256_arcs()));
    lemma_tlv_len(0x30, sig_oid);
    let cn = der_oid(oid_cn_arcs());
    lemma_tlv_len(0x06, oid_content(oid_cn_arcs()));
    lemma_tlv_len(0x0c, subject_cn());
    let attr = cn + der_utf8_string(subject_cn());
    lemma_tlv_len(0x30, attr);
    lemma_tlv_len(0x31, der_sequence(attr));
    lemma_tlv_len(0x30, der_set(der_sequence(attr)));
    lemma_tlv_len(0x17, not_before_time());
    lemma_tlv_len(0x17, not_after_time());
    lemma_tlv_len(0x30, der_utc_time(not_before_time()) + der_utc_time(not_after_time()));
    lemma_tlv_len(0x06, oid_content(oid_ec_pubkey_arcs()));
    lemma_tlv_len(0x06, oid_content(oid_secp256r1_arcs()));
    let algo = der_oid(oid_ec_pubkey_arcs()) + der_oid(oid_secp256r1_arcs());
    lemma_tlv_len(0x30, algo);
    lemma_tlv_len(0x03, seq![0u8] + pubkey);
    lemma_tlv_len(0x30, der_sequence(algo) + der_bit_string(0, pubkey));
    lemma_tlv_len(0xa0, der_integer(2));
    let inner = der_explicit(0, der_integer(2)) + der_integer(1) + signature_algorithm_spec()
        + name_spec() + validity_spec() + name_spec() + spki_spec(pubkey);
    assert(inner.len() == 181);
    assert(der_length(181) == seq![0x81u8, 181u8]);
}

/// The certificate carries, right after its SEQUENCE header, exactly the
/// TBSCertificate octets that were signed.
pub proof fn lemma_certificate_embeds_tbs(tbs: Seq<u8>, r: Seq<u8>, s: Seq<u8>)
    ensures
        ({
            let inner = tbs + signature_algorithm_spec() + der_bit_string(0, ecdsa_sig_value_spec(r, s));
            let h = 1 + der_length(inner.len()).len() as int;
            certificate_spec(tbs, r, s).subrange(h, h + tbs.len()) == tbs
        }),
{
    lemma_identifiers();
    let inner = tbs + signature_algorithm_spec() + der_bit_string(0, ecdsa_sig_value_spec(r, s));
    let h = 1 + der_length(inner.len()).len() as int;
    let c = certificate_spec(tbs, r, s);
    assert(c == seq![0x30u8] + der_length(inner.len()) + inner);
    assert(c.subrange(h, h + tbs.len()) =~= tbs);
}

/// The certificate's validity runs from 2025-01-01 to 2035-01-01: in the
/// TBSCertificate, after the version, serial number, signature algorithm
/// and issuer, come the octets of
/// `SEQUENCE { UTCTime "250101000000Z", UTCTime "350101000000Z" }`,
/// notBefore first.
pub proof fn lemma_tbs_validity(pubkey: Seq<u8>)
    requires
        pubkey.len() == 65,
    ensures
        tbs_certificate_spec(pubkey).subrange(42, 74) == seq![
            0x30u8, 0x1e,
            0x17, 0x0d, 0x32, 0x35, 0x30, 0x31, 0x30, 0x31, 0x30, 0x30, 0x30, 0x30, 0x30, 0x30, 0x5a,
            0x17, 0x0d, 0x33, 0x35, 0x30, 0x31, 0x30, 0x31, 0x30, 0x30, 0x30, 0x30, 0x30, 0x30, 0x5a
        ],
{
    lemma_part_lengths(pubkey);
    lemma_identifiers();
    let inner = der_explicit(0, der_integer(2)) + der_integer(1) + signature_algorithm_spec()
        + name_spec() + validity_spec() + name_spec() + spki_spec(pubkey);
    assert(der_length(181) == seq![0x81u8, 181u8]);
    assert(tbs_certificate_spec(pubkey) == seq![0x30u8] + der_length(inner.len()) + inner);
    assert(tbs_certificate_spec(pubkey).subrange(42, 74) =~= validity_spec());
    assert(der_length(13) == seq![13u8]);
    assert(der_length(30) == seq![30u8]);
    lemma_tlv_len(0x17, not_before_time());
    lemma_tlv_len(0x17, not_after_time());
    assert(validity_spec() =~= seq![
        0x30u8, 0x1e,
        0x17, 0x0d, 0x32, 0x35, 0x30, 0x31, 0x30, 0x31, 0x30, 0x30, 0x30, 0x30, 0x30, 0x30, 0x5a,
        0x17, 0x0d, 0x33, 0x35, 0x30, 0x31, 0x30, 0x31, 0x30, 0x30, 0x30, 0x30, 0x30, 0x30, 0x5a
    ]);
}

/// The TBSCertificate ends with the SubjectPublicKeyInfo of the key it
/// certifies.
pub proof fn lemma_tbs_ends_with_spki(pubkey: Seq<u8>)
    requires
        pubkey.len() == 65,
    ensures
        tbs_certificate_spec(pubkey).subrange(184 - 91, 184) == spki_spec(pubkey),
{
    lemma_part_lengths(pubkey);
    lemma_identifiers();
    let inner = der_explicit(0, der_integer(2)) + der_integer(1) + signature_algorithm_spec()
        + name_spec() + validity_spec() + name_spec() + spki_spec(pubkey);
    assert(der_length(181) == seq![0x81u8, 181u8]);
    assert(tbs_certificate_spec(pubkey) == seq![0x30u8] + der_length(inner.len()) + inner);
    assert(tbs_certificate_spec(pubkey).subrange(184 - 91, 184) =~= spki_spec(pubkey));
}

/// The arcs of id-ecPublicKey.
pub fn oid_ec_pubkey() -> (r: [u32; 6])
    ensures
        r@ == oid_ec_pubkey_arcs(),
{
    let r = [1u32, 2, 840, 10045, 2, 1];
    assert(r@ =~= oid_ec_pubkey_arcs());
    r
}

/// The arcs of secp256r1.
pub fn oid_secp256r1() -> (r: [u32; 7])
    ensures
        r@ == oid_secp256r1_arcs(),
{
    let r = [1u32, 2, 840, 10045, 3, 1, 7];
    assert(r@ =~= oid_secp256r1_arcs());
    r
}

/// The arcs of ecdsa-with-SHA256.
pub fn oid_ecdsa_with_sha256() -> (r: [u32; 7])
    ensures
        r@ == oid_ecdsa_with_sha256_arcs(),
{
    let r = [1u32, 2, 840, 10045, 4, 3, 2];
    assert(r@ =~= oid_ecdsa_with_sha256_arcs());
    r
}

/// The arcs of commonName.
pub fn oid_cn() -> (r: [u32; 4])
    ensures
        r@ == oid_cn_arcs(),
{
    let r = [2u32, 5, 4, 3];
    assert(r@ =~= oid_cn_arcs());
    r
}

fn not_before() -> (r: [u8; 13])
    ensures
        r@ == not_before_time(),
{
    let r = [0x32u8, 0x35, 0x30, 0x31, 0x30, 0x31, 0x30, 0x30, 0x30, 0x30, 0x30, 0x30, 0x5a];
    assert(r@ =~= not_before_time());
    r
}

fn not_after() -> (r: [u8; 13])
    ensures
        r@ == not_after_time(),
{
    let r = [0x33u8, 0x35, 0x30, 0x31, 0x30, 0x31, 0x30, 0x30, 0x30, 0x30, 0x30, 0x30, 0x5a];
    assert(r@ =~= not_after_time());
    r
}

fn subject() -> (r: [u8; 6])
    ensures
        r@ == subject_cn(),
{
    let r = [0x73u8, 0x69, 0x67, 0x6e, 0x65, 0x72];
    assert(r@ =~= subject_cn());
    r
}

/// The AlgorithmIdentifier for ecdsa-with-SHA256.
fn signature_algorithm() -> (r: DerBuf)
    ensures
        r@ == signature_algorithm_spec(),
{
    proof {
        lemma_oid_contents();
        lemma_tlv_len(0x06, oid_content(oid_ecdsa_with_sha256_arcs()));
        lemma_identifiers();
        lemma_tlv_len(0x30, der_oid(oid_ecdsa_with_sha256_arcs()));
    }
    let mut sig_algo = DerBuf::new();
    sig_algo.oid(&oid_ecdsa_with_sha256());
    let mut s = DerBuf::new();
    s.sequence(sig_algo.as_slice());
    s
}

/// The Name `CN=signer`.
fn subject_name() -> (r: DerBuf)
    ensures
        r@ == name_spec(),
{
    proof {
        lemma_part_lengths(Seq::new(65, |i: int| 0u8));
        lemma_oid_contents();
        lemma_identifiers();
        lemma_tlv_len(0x06, oid_content(oid_cn_arcs()));
        lemma_tlv_len(0x0c, subject_cn());
        lemma_tlv_len(0x30, der_oid(oid_cn_arcs()) + der_utf8_string(subject_cn()));
        lemma_tlv_len(0x31, der_sequence(der_oid(oid_cn_arcs()) + der_utf8_string(subject_cn())));
    }
    let mut attr = DerBuf::new();
    attr.oid(&oid_cn());
    attr.utf8_string(&subject());
    let mut attr_seq = DerBuf::new();
    attr_seq.sequence(attr.as_slice());
    let mut set = DerBuf::new();
    set.set(attr_seq.as_slice());
    let mut name = DerBuf::new();
    name.sequence(set.as_slice());
    name
}

/// The TBSCertificate for the public key with coordinates `pub_x`, `pub_y`
/// in swapped form.
pub fn tbs_certificate(pub_x: &[u64; 4], pub_y: &[u64; 4]) -> (r: Vec<u8>)
    ensures
        r@ == tbs_certificate_spec(
            sec1_uncompressed(limbs_le_memory(pub_x@), limbs_le_memory(pub_y@)),
        ),
        r@.len() == 184,
{
    let pubkey_bytes = uncompressed_pubkey_bytes(pub_x, pub_y);
    let ghost pk = pubkey_bytes@;
    proof {
        lemma_part_lengths(pk);
        lemma_oid_contents();
        lemma_identifiers();
        lemma_tlv_len(0x06, oid_content(oid_ec_pubkey_arcs()));
        lemma_tlv_len(0x06, oid_content(oid_secp256r1_arcs()));
        lemma_tlv_len(0x30, der_oid(oid_ec_pubkey_arcs()) + der_oid(oid_secp256r1_arcs()));
        lemma_tlv_len(0x03, seq![0u8] + pk);
        lemma_tlv_len(0x17, not_before_time());
        lemma_tlv_len(0x17, not_after_time());
        lemma_tlv_len(0xa0, der_integer(2));
    }
    let mut spki = DerBuf::new();
    let mut algo = DerBuf::new();
    algo.oid(&oid_ec_pubkey());
    algo.oid(&oid_secp256r1());
    spki.sequence(algo.as_slice());
    spki.bit_string(0, &pubkey_bytes);
    let mut spki_seq = DerBuf::new();
    spki_seq.sequence(spki.as_slice());

    let sig_algo_seq = signature_algorithm();

    let mut validity = DerBuf::new();
    validity.utctime(&not_before());
    validity.utctime(&not_after());
    let mut validity_seq = DerBuf::new();
    validity_seq.sequence(validity.as_slice());

    let name = subject_name();

    let mut version = DerBuf::new();
    version.integer(2);
    let mut version_tagged = DerBuf::new();
    version_tagged.tagged_explicit(0, version.as_slice());

    let mut tbs = DerBuf::new();
    tbs.extend(version_tagged.as_slice());
    tbs.integer(1);
    tbs.extend(sig_algo_seq.as_slice());
    tbs.extend(name.as_slice());
    tbs.extend(validity_seq.as_slice());
    tbs.extend(name.as_slice());
    tbs.extend(spki_seq.as_slice());

    let mut s = DerBuf::new();
    s.sequence(tbs.as_slice());
    s.into_bytes()
}

/// The certificate for the public key with coordinates `pub_x`, `pub_y` in
/// swapped form, given the ECDSA signature `(sig_r, sig_s)` (native limbs)
/// of `tbs_certificate(pub_x, pub_y)`.
pub fn build_certificate(pub_x: &[u64; 4], pub_y: &[u64; 4], sig_r: &[u64; 4], sig_s: &[u64; 4]) -> (r: Vec<u8>)
    ensures
        r@ == certificate_spec(
            tbs_certificate_spec(
                sec1_uncompressed(limbs_le_memory(pub_x@), limbs_le_memory(pub_y@)),
            ),
            limbs_be_bytes(sig_r@),
            limbs_be_bytes(sig_s@),
        ),
{
    let tbs_bytes = tbs_certificate(pub_x, pub_y);
    let sig_r_bytes = le_limbs_to_be_bytes(sig_r);
    let sig_s_bytes = le_limbs_to_be_bytes(sig_s);
    let ghost rb = sig_r_bytes@;
    let ghost sb = sig_s_bytes@;
    proof {
        lemma_part_lengths(Seq::new(65, |i: int| 0u8));
        lemma_unsigned_integer_content_len(rb);
        lemma_unsigned_integer_content_len(sb);
        lemma_tlv_len(0x02, unsigned_integer_content(rb));
        lemma_tlv_len(0x02, unsigned_integer_content(sb));
        lemma_identifiers();
        lemma_tlv_len(0x30, der_unsigned_integer(rb) + der_unsigned_integer(sb));
        lemma_tlv_len(0x03, seq![0u8] + ecdsa_sig_value_spec(rb, sb));
        lemma_tlv_len(
            0x30,
            tbs_bytes@ + signature_algorithm_spec() + der_bit_string(0, ecdsa_sig_value_spec(rb, sb)),
        );
    }
    let mut sig_der = DerBuf::new();
    sig_der.integer_bytes(&sig_r_bytes);
    sig_der.integer_bytes(&sig_s_bytes);
    let mut sig_seq = DerBuf::new();
    sig_seq.sequence(sig_der.as_slice());

    let sig_algo_seq = signature_algorithm();

    let mut cert = DerBuf::new();
    cert.extend(tbs_bytes.as_slice());
    cert.extend(sig_algo_seq.as_slice());
    cert.bit_string(0, sig_seq.as_slice());

    let mut cert_seq = DerBuf::new();
    cert_seq.sequence(cert.as_slice());
    cert_seq.into_bytes()
}

} // verus!
