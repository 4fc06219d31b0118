use tarako::client::{parse_hex_user_data, USER_DATA_BYTES};

#[test]
fn parses_and_pads_hex_user_data() {
    let parsed = parse_hex_user_data("01aBff").unwrap();
    assert_eq!(&parsed[..3], &[0x01, 0xab, 0xff]);
    assert!(parsed[3..].iter().all(|byte| *byte == 0));
}

#[test]
fn rejects_invalid_hex_user_data() {
    assert!(parse_hex_user_data("").is_none());
    assert!(parse_hex_user_data("0").is_none());
    assert!(parse_hex_user_data("xx").is_none());
    assert!(parse_hex_user_data("é").is_none());
    assert!(parse_hex_user_data(&"00".repeat(USER_DATA_BYTES + 1)).is_none());
}

use tarako::client::{
    check_hello, check_pubkey, check_sign, default_user_data, hex, hex_nibble, usage_error,
    user_data_from_args, ClientError, SignDataReq, i32_decimal, ClientAction, ClientEvent,
    ClientRequest, ClientSession, ClientStage,
};
use tarako::client_der::{pubkey_der, sig_der};

#[test]
fn hex_nibble_values() {
    assert_eq!(hex_nibble(b'0'), Some(0));
    assert_eq!(hex_nibble(b'9'), Some(9));
    assert_eq!(hex_nibble(b'a'), Some(10));
    assert_eq!(hex_nibble(b'F'), Some(15));
    assert_eq!(hex_nibble(b'g'), None);
    assert_eq!(hex_nibble(b'/'), None);
}

#[test]
fn hex_renders_lowercase_pairs() {
    assert_eq!(hex(&[0x00, 0xab, 0xff, 0x10]), "00abff10");
    assert_eq!(hex(&[]), "");
}

#[test]
fn hex_then_parse_gives_padded_data() {
    let data: Vec<u8> = (0..=255u8).step_by(3).take(77).collect();
    let parsed = parse_hex_user_data(&hex(&data)).unwrap();
    assert_eq!(&parsed[..77], &data[..]);
    assert!(parsed[77..].iter().all(|b| *b == 0));
    let full = [0xa5u8; 128];
    assert_eq!(parse_hex_user_data(&hex(&full)).unwrap(), full);
}

#[test]
fn parse_accepts_the_longest_input() {
    assert!(parse_hex_user_data(&"ff".repeat(USER_DATA_BYTES)).is_some());
    assert!(parse_hex_user_data("0g").is_none());
}

#[test]
fn default_user_data_counts_to_32() {
    let d = default_user_data();
    for (i, b) in d.iter().enumerate() {
        assert_eq!(*b as usize, if i < 32 { i + 1 } else { 0 });
    }
}

#[test]
fn usage_message() {
    assert_eq!(usage_error("tarako-app"), "usage: tarako-app [hex-user-data (up to 256 hex chars)]");
}

#[test]
fn user_data_from_command_line() {
    assert_eq!(user_data_from_args(&[]).unwrap(), default_user_data());
    let one = user_data_from_args(&[Some("0102".to_string())]).unwrap();
    assert_eq!(&one[..3], &[1, 2, 0]);
    assert!(user_data_from_args(&[Some("zz".to_string())]).is_none());
    assert!(user_data_from_args(&[None]).is_none());
    assert!(user_data_from_args(&[Some("00".to_string()), Some("11".to_string())]).is_none());
}

#[test]
fn reply_checks() {
    assert!(check_hello(0).is_ok());
    assert!(matches!(check_hello(3), Err(ClientError::UnexpectedHello(3))));
    assert!(check_pubkey(33).is_ok());
    assert!(matches!(check_pubkey(65), Err(ClientError::UnexpectedPubkeyLength(65))));
    let key = [2u8; 33];
    let mut reply = SignDataReq::default();
    reply.pubkey = key;
    assert!(check_sign(0, &reply, &key).is_ok());
    assert!(matches!(check_sign(1, &reply, &key), Err(ClientError::UnexpectedSign(1))));
    let mut other = key;
    other[32] = 5;
    assert!(matches!(check_sign(0, &reply, &other), Err(ClientError::PubkeyChanged)));
}

#[test]
fn default_request_is_zero() {
    let r = SignDataReq::default();
    assert_eq!(r.user_data, [0; 128]);
    assert_eq!(r.hash, [0; 32]);
    assert_eq!(r.sig_r, [0; 32]);
    assert_eq!(r.sig_s, [0; 32]);
    assert_eq!(r.pubkey, [0; 33]);
}

#[test]
fn spki_der_layout() {
    let mut pk = [0u8; 33];
    pk[0] = 3;
    pk[1] = 0x11;
    let der = pubkey_der(&pk);
    assert_eq!(der.len(), 59);
    assert_eq!(
        &der[..25],
        &[
            0x30, 0x39, 0x30, 0x13, 0x06, 0x07, 0x2a, 0x86, 0x48, 0xce, 0x3d, 0x02, 0x01, 0x06,
            0x08, 0x2a, 0x86, 0x48, 0xce, 0x3d, 0x03, 0x01, 0x07, 0x03, 0x22
        ]
    );
    assert_eq!(der[25], 0);
    assert_eq!(&der[26..], &pk[..]);
}

#[test]
fn signature_der_layout() {
    let mut r = [0u8; 32];
    r[0] = 0x80;
    let mut s = [0u8; 32];
    s[31] = 0x05;
    let der = sig_der(&r, &s);
    assert_eq!(&der[..5], &[0x30, 0x26, 0x02, 0x21, 0x00]);
    assert_eq!(der[5], 0x80);
    assert_eq!(&der[der.len() - 3..], &[0x02, 0x01, 0x05]);
    // all-zero components encode as a single zero octet
    let zero = sig_der(&[0; 32], &[0; 32]);
    assert_eq!(zero, vec![0x30, 0x06, 0x02, 0x01, 0x00, 0x02, 0x01, 0x00]);
}

#[test]
fn decimal_rendering() {
    assert_eq!(i32_decimal(0), "0");
    assert_eq!(i32_decimal(7), "7");
    assert_eq!(i32_decimal(-12), "-12");
    assert_eq!(i32_decimal(1234567890), "1234567890");
    assert_eq!(i32_decimal(i32::MIN), "-2147483648");
    assert_eq!(i32_decimal(i32::MAX), "2147483647");
}

#[test]
fn error_messages() {
    assert_eq!(ClientError::UnexpectedHello(3).message(), "TARAKO_HELLO returned unexpected value 3");
    assert_eq!(
        ClientError::UnexpectedPubkeyLength(65).message(),
        "TARAKO_GET_PUBKEY returned 65, expected 33"
    );
    assert_eq!(
        ClientError::UnexpectedSign(-1).message(),
        "TARAKO_SIGN_DATA returned unexpected value -1"
    );
    assert_eq!(ClientError::PubkeyChanged.message(), "public key changed between ioctls");
}

#[test]
fn session_issues_requests_in_order() {
    let data = [0x5a; 128];
    let (mut session, action) = ClientSession::new(data);
    assert!(matches!(action, ClientAction::Issue(ClientRequest::Hello)));
    assert!(matches!(
        session.step(ClientEvent::HelloReturned(0)),
        ClientAction::Issue(ClientRequest::GetPubkey)
    ));
    let key = [3u8; 33];
    let request = match session.step(ClientEvent::PubkeyReturned(33, key)) {
        ClientAction::Issue(ClientRequest::SignData(w)) => w,
        _ => panic!("expected the signing request"),
    };
    assert_eq!(&request[..128], &data[..]);
    assert!(request[128..].iter().all(|b| *b == 0));
    let mut reply = request;
    reply[128] = 0x11;
    reply[224..].copy_from_slice(&key);
    match session.step(ClientEvent::SignReturned(0, reply)) {
        ClientAction::Finish(Ok(r)) => {
            assert_eq!(r.hash[0], 0x11);
            assert_eq!(r.user_data, data);
        }
        _ => panic!("expected the signed reply"),
    }
    assert!(matches!(session.stage, ClientStage::Finished));
}

#[test]
fn session_stops_on_unexpected_answers() {
    let (mut s, _) = ClientSession::new([0; 128]);
    assert!(matches!(
        s.step(ClientEvent::HelloReturned(1)),
        ClientAction::Finish(Err(ClientError::UnexpectedHello(1)))
    ));
    let (mut s, _) = ClientSession::new([0; 128]);
    s.step(ClientEvent::HelloReturned(0));
    assert!(matches!(
        s.step(ClientEvent::PubkeyReturned(65, [0; 33])),
        ClientAction::Finish(Err(ClientError::UnexpectedPubkeyLength(65)))
    ));
    let (mut s, _) = ClientSession::new([0; 128]);
    s.step(ClientEvent::HelloReturned(0));
    let req = match s.step(ClientEvent::PubkeyReturned(33, [2; 33])) {
        ClientAction::Issue(ClientRequest::SignData(w)) => w,
        _ => panic!("expected the signing request"),
    };
    // the reply carries a different key
    assert!(matches!(
        s.step(ClientEvent::SignReturned(0, req)),
        ClientAction::Finish(Err(ClientError::PubkeyChanged))
    ));
    let (mut s, _) = ClientSession::new([0; 128]);
    s.step(ClientEvent::HelloReturned(0));
    s.step(ClientEvent::PubkeyReturned(33, [2; 33]));
    assert!(matches!(
        s.step(ClientEvent::SignReturned(4, [0; 257])),
        ClientAction::Finish(Err(ClientError::UnexpectedSign(4)))
    ));
}
