//! DER encodings the client prints: the SubjectPublicKeyInfo of the device
//! key and the ECDSA-Sig-Value of a signature, built with the `der` crate.
use vstd::prelude::*;
use der::Encode;
use crate::cert::{
    ecdsa_sig_value_spec, lemma_identifiers, lemma_oid_contents, oid_ec_pubkey,
    oid_ec_pubkey_arcs, oid_secp256r1, oid_secp256r1_arcs, spki_spec,
};
use crate::der::{
    der_oid, lemma_tlv_len,
    lemma_uint_content_agrees, lemma_x690_length_small, oid_content, x690_tlv, x690_uint_content,
};

verus! {

/// Whether `arcs` can be an OBJECT IDENTIFIER for the `der` crate: at
/// least two arcs, the first at most 2, the second at most 39, and at most
/// 39 contents octets.
pub open spec fn oid_arcs_encodable(arcs: Seq<u32>) -> bool {
    &&& arcs.len() >= 2
    &&& arcs[0] <= 2
    &&& arcs[1] <= 39
    &&& oid_content(arcs).len() <= 39
}

/// DER encoding of the OBJECT IDENTIFIER with the given arcs, by
/// `ObjectIdentifier::from_arcs` and `Encode::to_der`.  The contract
/// claims that an encoding, when produced, is tag 0x06, the length and the
/// arcs (the first two combined as `40 a0 + a1`, the rest in base 128), and
/// that one is produced for arcs within the crate's limits.
#[verifier::external_body]
fn encode_oid_der(arcs: &[u32]) -> (r: Option<Vec<u8>>)
    ensures
        r matches Some(v) ==> v@ == der_oid(arcs@),
        oid_arcs_encodable(arcs@) ==> r is Some,
{
    match der::asn1::ObjectIdentifier::from_arcs(arcs.iter().copied()) {
        Ok(oid) => match oid.to_der() {
            Ok(v) => Some(v),
            Err(_) => None,
        },
        Err(_) => None,
    }
}

/// DER encoding of the BIT STRING with no unused bits holding `bytes`, by
/// `BitString::from_bytes` and `Encode::to_der`.  The contract claims that
/// an encoding, when produced, is tag 0x03, the X.690 length, a zero
/// unused-bits octet and the bytes, and that one is produced for fewer than
/// 0x10000 bytes.
#[verifier::external_body]
fn encode_bit_string_der(bytes: &[u8]) -> (r: Option<Vec<u8>>)
    ensures
        r matches Some(v) ==> v@ == x690_tlv(0x03, seq![0u8] + bytes@),
        bytes@.len() < 0x10000 ==> r is Some,
{
    match der::asn1::BitString::from_bytes(bytes) {
        Ok(b) => match b.to_der() {
            Ok(v) => Some(v),
            Err(_) => None,
        },
        Err(_) => None,
    }
}

/// DER encoding of the INTEGER whose unsigned big-endian digits are
/// `bytes`, by `UintRef::new` and `Encode::to_der`.  The contract claims
/// that an encoding, when produced, is tag 0x02, the X.690 length and the
/// digits without leading zeros (keeping the last), preceded by a zero octet
/// when the first has its top bit set, and that one is produced for fewer
/// than 0x10000 bytes.
#[verifier::external_body]
fn encode_uint_der(bytes: &[u8]) -> (r: Option<Vec<u8>>)
    ensures
        r matches Some(v) ==> v@ == x690_tlv(0x02, x690_uint_content(bytes@)),
        bytes@.len() < 0x10000 ==> r is Some,
{
    match der::asn1::UintRef::new(bytes) {
        Ok(u) => match u.to_der() {
            Ok(v) => Some(v),
            Err(_) => None,
        },
        Err(_) => None,
    }
}

/// DER encoding of a SEQUENCE with the given (already encoded) contents, by
/// `AnyRef::new(Tag::Sequence, ..)` and `Encode::to_der`.  The contract
/// claims that an encoding, when produced, is tag 0x30, the X.690 length
/// and the contents, and that one is produced for fewer than 0x10000
/// content bytes.
#[verifier::external_body]
fn encode_sequence_der(contents: &[u8]) -> (r: Option<Vec<u8>>)
    ensures
        r matches Some(v) ==> v@ == x690_tlv(0x30, contents@),
        contents@.len() < 0x10000 ==> r is Some,
{
    match der::asn1::AnyRef::new(der::Tag::Sequence, contents) {
        Ok(a) => match a.to_der() {
            Ok(v) => Some(v),
            Err(_) => None,
        },
        Err(_) => None,
    }
}

/// The ECDSA-Sig-Value of `(r, s)` as the `der` crate encodes it.
pub open spec fn sig_der_spec(r: Seq<u8>, s: Seq<u8>) -> Seq<u8> {
    x690_tlv(0x30, x690_tlv(0x02, x690_uint_content(r)) + x690_tlv(0x02, x690_uint_content(s)))
}

proof fn lemma_uint_content_len(s: Seq<u8>)
    ensures
        x690_uint_content(s).len() <= s.len() + 1,
    decreases s.len(),
{
    if s.len() >= 2 && s[0] == 0 {
        lemma_uint_content_len(s.drop_first());
    }
}

/// The DER SubjectPublicKeyInfo of the device's P-256 key, given as its
/// compressed SEC 1 octets: the same structure (`spki_spec`) that the
/// certificate encoder writes around a key.
pub fn pubkey_der(pubkey: &[u8; 33]) -> (r: Vec<u8>)
    ensures
        r@ == spki_spec(pubkey@),
{
    proof {
        lemma_oid_contents();
        lemma_identifiers();
    }
    let mut algo_inner = encode_oid_der(&oid_ec_pubkey()).unwrap();
    let mut curve_oid = encode_oid_der(&oid_secp256r1()).unwrap();
    proof {
        lemma_tlv_len(0x06, oid_content(oid_ec_pubkey_arcs()));
        lemma_tlv_len(0x06, oid_content(oid_secp256r1_arcs()));
    }
    algo_inner.append(&mut curve_oid);
    let mut content = encode_sequence_der(algo_inner.as_slice()).unwrap();
    let mut pk_bits = encode_bit_string_der(pubkey).unwrap();
    let ghost algo = algo_inner@;
    proof {
        lemma_x690_length_small(algo.len());
        lemma_x690_length_small(34);
        lemma_tlv_len(0x30, algo);
        lemma_tlv_len(0x03, seq![0u8] + pubkey@);
    }
    content.append(&mut pk_bits);
    let out = encode_sequence_der(content.as_slice()).unwrap();
    proof {
        lemma_x690_length_small(content@.len());
    }
    out
}

/// The DER ECDSA-Sig-Value of the signature with big-endian components
/// `sig_r` and `sig_s`.  When neither is all zeros it is the same as the
/// signature value this crate's certificate encoder writes.
pub fn sig_der(sig_r: &[u8; 32], sig_s: &[u8; 32]) -> (out: Vec<u8>)
    ensures
        out@ == sig_der_spec(sig_r@, sig_s@),
        (exists|i: int| 0 <= i < 32 && sig_r@[i] != 0) && (exists|j: int|
            0 <= j < 32 && sig_s@[j] != 0) ==> out@ == ecdsa_sig_value_spec(sig_r@, sig_s@),
{
    let mut content = encode_uint_der(sig_r).unwrap();
    let mut s = encode_uint_der(sig_s).unwrap();
    proof {
        lemma_uint_content_len(sig_r@);
        lemma_uint_content_len(sig_s@);
        lemma_x690_length_small(x690_uint_content(sig_r@).len());
        lemma_x690_length_small(x690_uint_content(sig_s@).len());
        lemma_tlv_len(0x02, x690_uint_content(sig_r@));
        lemma_tlv_len(0x02, x690_uint_content(sig_s@));
    }
    content.append(&mut s);
    let out = encode_sequence_der(content.as_slice()).unwrap();
    proof {
        lemma_x690_length_small(content@.len());
        lemma_identifiers();
        if (exists|i: int| 0 <= i < 32 && sig_r@[i] != 0) && (exists|j: int|
            0 <= j < 32 && sig_s@[j] != 0) {
            let i = choose|i: int| 0 <= i < 32 && sig_r@[i] != 0;
            let j = choose|j: int| 0 <= j < 32 && sig_s@[j] != 0;
            lemma_uint_content_agrees(sig_r@, i);
            lemma_uint_content_agrees(sig_s@, j);
        }
    }
    out
}

} // verus!
