use der::Encode;
use tarako::der::DerBuf;

fn encoded(f: impl FnOnce(&mut DerBuf)) -> Vec<u8> {
    let mut b = DerBuf::new();
    f(&mut b);
    b.into_bytes()
}

#[test]
fn length_short_and_long_forms() {
    assert_eq!(encoded(|b| b.encode_length(0)), vec![0x00]);
    assert_eq!(encoded(|b| b.encode_length(0x7f)), vec![0x7f]);
    assert_eq!(encoded(|b| b.encode_length(0x80)), vec![0x81, 0x80]);
    assert_eq!(encoded(|b| b.encode_length(0xff)), vec![0x81, 0xff]);
    assert_eq!(encoded(|b| b.encode_length(0x100)), vec![0x82, 0x01, 0x00]);
    assert_eq!(encoded(|b| b.encode_length(0xffff)), vec![0x82, 0xff, 0xff]);
}

#[test]
fn length_beyond_two_octets_writes_nothing() {
    assert_eq!(encoded(|b| b.encode_length(0x10000)), Vec::<u8>::new());
}

#[test]
fn integer_encodings() {
    assert_eq!(encoded(|b| b.integer(0)), vec![0x02, 0x01, 0x00]);
    assert_eq!(encoded(|b| b.integer(1)), vec![0x02, 0x01, 0x01]);
    assert_eq!(encoded(|b| b.integer(2)), vec![0x02, 0x01, 0x02]);
    assert_eq!(encoded(|b| b.integer(127)), vec![0x02, 0x01, 0x7f]);
    assert_eq!(encoded(|b| b.integer(128)), vec![0x02, 0x02, 0x00, 0x80]);
    assert_eq!(encoded(|b| b.integer(256)), vec![0x02, 0x02, 0x01, 0x00]);
    assert_eq!(encoded(|b| b.integer(0x8000)), vec![0x02, 0x03, 0x00, 0x80, 0x00]);
    assert_eq!(
        encoded(|b| b.integer(i64::MAX)),
        vec![0x02, 0x08, 0x7f, 0xff, 0xff, 0xff, 0xff, 0xff, 0xff, 0xff]
    );
}

#[test]
fn integer_bytes_encodings() {
    assert_eq!(encoded(|b| b.integer_bytes(&[0, 0, 1])), vec![0x02, 0x01, 0x01]);
    assert_eq!(encoded(|b| b.integer_bytes(&[0x80])), vec![0x02, 0x02, 0x00, 0x80]);
    assert_eq!(encoded(|b| b.integer_bytes(&[0x00, 0x7f])), vec![0x02, 0x01, 0x7f]);
    assert_eq!(encoded(|b| b.integer_bytes(&[])), vec![0x02, 0x01, 0x00]);
    // all-zero input keeps every zero octet
    assert_eq!(encoded(|b| b.integer_bytes(&[0, 0])), vec![0x02, 0x02, 0x00, 0x00]);
}

#[test]
fn oid_encodings() {
    assert_eq!(
        encoded(|b| b.oid(&[1, 2, 840, 10045, 2, 1])),
        vec![0x06, 0x07, 0x2a, 0x86, 0x48, 0xce, 0x3d, 0x02, 0x01]
    );
    assert_eq!(
        encoded(|b| b.oid(&[1, 2, 840, 10045, 3, 1, 7])),
        vec![0x06, 0x08, 0x2a, 0x86, 0x48, 0xce, 0x3d, 0x03, 0x01, 0x07]
    );
    assert_eq!(encoded(|b| b.oid(&[2, 5, 4, 3])), vec![0x06, 0x03, 0x55, 0x04, 0x03]);
    assert_eq!(encoded(|b| b.oid(&[1, 2])), vec![0x06, 0x01, 0x2a]);
    assert_eq!(
        encoded(|b| b.oid(&[1, 2, 0xffff_ffff])),
        vec![0x06, 0x06, 0x2a, 0x8f, 0xff, 0xff, 0xff, 0x7f]
    );
}

#[test]
fn oid_agrees_with_der_crate() {

    for arcs in [
        vec![1u32, 2, 840, 10045, 4, 3, 2],
        vec![2, 5, 4, 3],
        vec![1, 3, 6, 1, 4, 1, 311, 21, 20],
        vec![0, 39, 128, 16383, 16384, 2097151, 2097152],
    ] {
        let ours = encoded(|b| b.oid(&arcs));
        let theirs = der::asn1::ObjectIdentifier::from_arcs(arcs.iter().copied())
            .unwrap()
            .to_der()
            .unwrap();
        assert_eq!(ours, theirs);
    }
}

#[test]
fn string_and_constructed_elements() {
    assert_eq!(encoded(|b| b.utf8_string(b"signer")), vec![0x0c, 6, b's', b'i', b'g', b'n', b'e', b'r']);
    assert_eq!(encoded(|b| b.utctime(b"Z")), vec![0x17, 1, b'Z']);
    assert_eq!(encoded(|b| b.bit_string(0, &[0xaa])), vec![0x03, 0x02, 0x00, 0xaa]);
    assert_eq!(encoded(|b| b.sequence(&[0x05, 0x00])), vec![0x30, 0x02, 0x05, 0x00]);
    assert_eq!(encoded(|b| b.set(&[])), vec![0x31, 0x00]);
    assert_eq!(encoded(|b| b.tagged_explicit(0, &[0x02, 0x01, 0x02])), vec![0xa0, 0x03, 0x02, 0x01, 0x02]);
    assert_eq!(encoded(|b| b.tag(1, false, 5, &[9])), vec![0x45, 0x01, 0x09]);
}

#[test]
fn long_contents_use_long_length_form() {
    let data = vec![0x11u8; 200];
    let out = encoded(|b| b.sequence(&data));
    assert_eq!(&out[..3], &[0x30, 0x81, 200]);
    assert_eq!(out.len(), 203);
    let data = vec![0x22u8; 300];
    let out = encoded(|b| b.utf8_string(&data));
    assert_eq!(&out[..4], &[0x0c, 0x82, 0x01, 0x2c]);
}

#[test]
fn push_extend_and_positions() {
    let mut b = DerBuf::new();
    assert_eq!(b.pos(), 0);
    b.push(7);
    b.extend(&[8, 9]);
    assert_eq!(b.as_slice(), &[7, 8, 9]);
    assert_eq!(b.pos(), 3);
}
