use der::Tagged;
use der::Decode;
use tarako::cert::{build_certificate, tbs_certificate};
use tarako::client_der::pubkey_der;
use tarako::convert::uncompressed_pubkey_bytes;

const X: [u64; 4] = [0x0807060504030201, 0x100f0e0d0c0b0a09, 0x1817161514131211, 0x201f1e1d1c1b1a19];
const Y: [u64; 4] = [0x2827262524232221, 0x302f2e2d2c2b2a29, 0x3837363534333231, 0x403f3e3d3c3b3a39];

#[test]
fn tbs_certificate_layout() {
    let tbs = tbs_certificate(&X, &Y);
    assert_eq!(tbs.len(), 184);
    assert_eq!(&tbs[..3], &[0x30, 0x81, 181]);
    // version [0] EXPLICIT INTEGER 2, serial 1
    assert_eq!(&tbs[3..11], &[0xa0, 0x03, 0x02, 0x01, 0x02, 0x02, 0x01, 0x01]);
    // the public key is the last 65 octets
    let pk = uncompressed_pubkey_bytes(&X, &Y);
    assert_eq!(&tbs[184 - 65..], &pk[..]);
    assert_eq!(pk[0], 0x04);
    assert_eq!(pk[1], 0x01);
}

#[test]
fn certificate_contains_the_signed_bytes() {
    let tbs = tbs_certificate(&X, &Y);
    let r = [1u64, 0, 0, 0x8000_0000_0000_0000];
    let s = [2u64, 0, 0, 0];
    let cert = build_certificate(&X, &Y, &r, &s);
    assert_eq!(cert[0], 0x30);
    let header = if cert[1] == 0x82 { 4 } else { 3 };
    assert_eq!(&cert[header..header + tbs.len()], &tbs[..]);
    // signature algorithm follows
    assert_eq!(
        &cert[header + tbs.len()..header + tbs.len() + 12],
        &[0x30, 0x0a, 0x06, 0x08, 0x2a, 0x86, 0x48, 0xce, 0x3d, 0x04, 0x03, 0x02]
    );
    let rest = &cert[header + tbs.len() + 12..];
    // BIT STRING { 0 unused, SEQUENCE { INTEGER 00 80 .. 01, INTEGER 02 } }
    assert_eq!(rest[0], 0x03);
    assert_eq!(rest[2], 0x00);
    assert_eq!(rest[3], 0x30);
    assert_eq!(&rest[5..8], &[0x02, 0x21, 0x00]);
    assert_eq!(rest[8], 0x80);
    assert_eq!(&rest[rest.len() - 3..], &[0x02, 0x01, 0x02]);
    assert_eq!(cert.len(), header + tbs.len() + 12 + rest.len());
}

#[test]
fn certificate_is_well_formed_der() {

    let cert = build_certificate(&X, &Y, &[5, 6, 7, 8], &[9, 10, 11, 12]);
    let any = der::asn1::AnyRef::from_der(&cert).unwrap();
    assert_eq!(any.tag(), der::Tag::Sequence);
    let tbs = tbs_certificate(&X, &Y);
    let any = der::asn1::AnyRef::from_der(&tbs).unwrap();
    assert_eq!(any.tag(), der::Tag::Sequence);
}

#[test]
fn client_spki_has_the_certificate_algorithm() {
    // the certificate carries the uncompressed key, the client the
    // compressed one; both name id-ecPublicKey on secp256r1
    let tbs = tbs_certificate(&X, &Y);
    let mut pk = [0u8; 33];
    pk[0] = 2;
    let spki = pubkey_der(&pk);
    assert_eq!(spki.len(), 59);
    assert_eq!(&tbs[184 - 91 + 2..184 - 91 + 23], &spki[2..23]);
}
