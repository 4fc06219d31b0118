use tarako::client::SignDataReq;
use tarako::ioctl::{
    check_caller_executable, check_point_alloc, check_ret, curve_order, decode_command, install_key_pair, SignDataAction,
    SignDataEvent, SignDataHandler, SignDataStage, decode_signer_command, fill_sign_reply, get_pubkey_reply, ioc,
    ioc_size, sign_data_admission, sign_message, Command, Errno, FsverityDigest, KeyPair,
    SignerCommand, SIGNER_GET_CERT, SIGNER_HELLO, SIGNER_SIGN_DATA, TARAKO_GET_PUBKEY,
    TARAKO_HELLO, TARAKO_SIGN_DATA,
};
use tarako::set_once::SetOnce;
use tarako::vli::Vli;

#[test]
fn command_numbers_are_standard_encodings() {
    assert_eq!(ioc(0, 0x53, 0, 0), TARAKO_HELLO);
    assert_eq!(ioc(2, 0x53, 1, 33), TARAKO_GET_PUBKEY);
    assert_eq!(ioc(3, 0x53, 2, 257), TARAKO_SIGN_DATA);
    assert_eq!(TARAKO_HELLO, 0x0000_5300);
    assert_eq!(TARAKO_GET_PUBKEY, 0x8021_5301);
    assert_eq!(TARAKO_SIGN_DATA, 0xC101_5302);
    assert_eq!(ioc_size(TARAKO_SIGN_DATA), 257);
    assert_eq!(ioc_size(TARAKO_GET_PUBKEY), 33);
    assert_eq!(ioc_size(TARAKO_HELLO), 0);
}

#[test]
fn dispatch() {
    assert!(decode_command(TARAKO_HELLO) == Ok(Command::Hello));
    assert!(decode_command(TARAKO_GET_PUBKEY) == Ok(Command::GetPubkey));
    assert!(decode_command(TARAKO_SIGN_DATA) == Ok(Command::SignData));
    assert!(decode_command(0x1234) == Err(Errno::Enotty));
    assert!(decode_signer_command(Ok(()), SIGNER_HELLO) == Ok(SignerCommand::Hello));
    assert!(decode_signer_command(Ok(()), SIGNER_GET_CERT) == Ok(SignerCommand::GetCert));
    assert!(decode_signer_command(Ok(()), SIGNER_SIGN_DATA) == Ok(SignerCommand::SignData));
    assert!(decode_signer_command(Ok(()), 7) == Err(Errno::Enotty));
    assert!(decode_signer_command(Err(Errno::Eperm), SIGNER_HELLO) == Err(Errno::Eperm));
}

#[test]
fn errno_numbers() {
    assert!(Errno::from_errno(-22) == Errno::Einval);
    assert!(Errno::from_errno(-5) == Errno::Other(-5));
    // outside -4095..-1 the kernel takes the value as EINVAL
    assert!(Errno::from_errno(-4096) == Errno::Einval);
    assert!(Errno::from_errno(i32::MIN) == Errno::Einval);
    assert!(Errno::from_errno(0) == Errno::Einval);
    assert!(Errno::from_errno(-4095) == Errno::Other(-4095));
    assert!(check_ret(-70000) == Err(Errno::Einval));
    assert_eq!(Errno::Enotty.to_errno(), -25);
    assert_eq!(Errno::Other(-5).to_errno(), -5);
    for code in [-1, -2, -6, -7, -12, -14, -16, -22, -25, -28, -75, -99] {
        assert_eq!(Errno::from_errno(code).to_errno(), code);
    }
    assert!(check_ret(0).is_ok());
    assert!(check_ret(-12) == Err(Errno::Enomem));
}

#[test]
fn request_wire_layout_roundtrip() {
    let mut req = SignDataReq::default();
    for i in 0..128 {
        req.user_data[i] = i as u8;
    }
    req.hash = [1; 32];
    req.sig_r = [2; 32];
    req.sig_s = [3; 32];
    req.pubkey = [4; 33];
    let wire = req.to_bytes();
    assert_eq!(wire.len(), 257);
    assert_eq!(wire[256], 4);
    assert_eq!(wire[127], 127);
    assert_eq!(wire[128], 1);
    assert_eq!(wire[160], 2);
    assert_eq!(wire[192], 3);
    assert_eq!(wire[224], 4);
    let back = SignDataReq::from_bytes(&wire);
    assert_eq!(back.to_bytes(), wire);
    assert_eq!(back.user_data, req.user_data);
}

#[test]
fn fsverity_digest_results() {
    let mut buf = [0u8; 64];
    buf[0] = 0xaa;
    buf[31] = 0xbb;
    let d = FsverityDigest::from_ret(32, buf).ok().unwrap();
    assert_eq!(d.digest().len(), 32);
    assert_eq!(d.digest()[31], 0xbb);
    assert!(matches!(FsverityDigest::from_ret(0, buf), Err(Errno::Enoent)));
    assert!(matches!(FsverityDigest::from_ret(65, buf), Err(Errno::Eoverflow)));
    assert!(matches!(FsverityDigest::from_ret(-61, buf), Err(Errno::Other(-61))));
    assert!(matches!(FsverityDigest::from_ret(-1, buf), Err(Errno::Eperm)));
    assert_eq!(FsverityDigest::from_ret(64, buf).ok().unwrap().digest().len(), 64);
}

#[test]
fn pubkey_request_decisions() {
    assert!(get_pubkey_reply(false, TARAKO_GET_PUBKEY) == Err(Errno::Enxio));
    assert!(get_pubkey_reply(true, TARAKO_GET_PUBKEY) == Ok(33));
    assert!(get_pubkey_reply(true, ioc(2, 0x53, 1, 65)) == Ok(33));
    assert!(get_pubkey_reply(true, ioc(2, 0x53, 1, 32)) == Err(Errno::E2big));
}

fn key_pair(ima: Result<(), Errno>) -> KeyPair {
    KeyPair::from_parts(
        Vli::from_limbs([7, 0, 0, 0]),
        &[1; 32],
        &[2; 32],
        Some(Vli::from_limbs([0xF3B9CAC2FC632551, 0xBCE6FAADA7179E84, u64::MAX, 0xFFFFFFFF00000000])),
        ima,
    )
    .ok()
    .unwrap()
}

#[test]
fn key_pair_assembly() {
    let kp = key_pair(Ok(()));
    // Y = 0x0202..02 is even: prefix 0x02, then X
    assert_eq!(kp.pubkey[0], 2);
    assert_eq!(&kp.pubkey[1..], &[1u8; 32]);
    let mut odd_y = [2u8; 32];
    odd_y[31] = 7;
    let odd = KeyPair::from_parts(Vli::from_limbs([7, 0, 0, 0]), &[9; 32], &odd_y, Some(Vli::from_limbs([13, 0, 0, 0])), Ok(()))
        .ok()
        .unwrap();
    assert_eq!(odd.pubkey[0], 3);
    assert_eq!(odd.pubkey[32], 9);
    assert!(kp.ima_measured());
    assert!(!key_pair(Err(Errno::Eperm)).ima_measured());
    assert!(matches!(
        KeyPair::from_parts(Vli::from_limbs([1, 0, 0, 0]), &[0; 32], &[0; 32], None, Ok(())),
        Err(Errno::Einval)
    ));
}

#[test]
fn signing_admission() {
    assert!(sign_data_admission(None) == Err(Errno::Enxio));
    assert!(sign_data_admission(Some(&key_pair(Err(Errno::Enoent)))) == Err(Errno::Eperm));
    assert!(sign_data_admission(Some(&key_pair(Ok(())))) == Ok(()));
}

#[test]
fn message_is_digest_then_user_data() {
    let digest = [9u8; 32];
    let user = [5u8; 128];
    let m = sign_message(&digest, &user);
    assert_eq!(m.len(), 160);
    assert_eq!(&m[..32], &digest);
    assert_eq!(&m[32..], &user[..]);
    assert_eq!(sign_message(&[], &user).len(), 128);
}

#[test]
fn key_pair_signs_with_its_key() {
    let kp = key_pair(Ok(()));
    let mut hash = [0u8; 32];
    hash[31] = 1;
    let k = Vli::from_limbs([3, 0, 0, 0]);
    let rx = Vli::from_limbs([0, 0, 0, 0x0200000000000000]); // native 2 in swapped form
    let (r, s) = kp.sign_attempt(&hash, &k, &rx).unwrap();
    assert_eq!(r.0, [2, 0, 0, 0]);
    // s * k == z + r d == 1 + 14
    assert_eq!(s.mod_mult(&k, &kp.curve_n).0, [15, 0, 0, 0]);
}

#[test]
fn reply_is_filled_big_endian() {
    let mut req = SignDataReq::default();
    req.user_data = [8; 128];
    let r = Vli::from_limbs([1, 0, 0, 0x0102030405060708]);
    let s = Vli::from_limbs([2, 0, 0, 0]);
    fill_sign_reply(&mut req, [6; 32], &r, &s, &[4; 33]);
    assert_eq!(req.user_data, [8; 128]);
    assert_eq!(req.hash, [6; 32]);
    assert_eq!(&req.sig_r[..8], &[1, 2, 3, 4, 5, 6, 7, 8]);
    assert_eq!(req.sig_r[31], 1);
    assert_eq!(req.sig_s[31], 2);
    assert_eq!(req.pubkey, [4; 33]);
}

#[test]
fn set_once_is_set_once() {
    let mut cell: SetOnce<u32> = SetOnce::new();
    assert!(cell.as_ref().is_none());
    assert!(cell.populate(5));
    assert!(!cell.populate(6));
    assert_eq!(cell.as_ref(), Some(&5));
    cell.clear();
    assert!(cell.as_ref().is_none());
    assert!(cell.populate(7));
    assert_eq!(cell.as_ref(), Some(&7));
    let d: SetOnce<u8> = SetOnce::default();
    assert!(d.as_ref().is_none());
}

#[test]
fn module_init_installs_one_key_pair() {
    let mut cell: SetOnce<KeyPair> = SetOnce::new();
    assert!(install_key_pair(&mut cell, key_pair(Ok(()))) == Ok(()));
    assert!(install_key_pair(&mut cell, key_pair(Err(Errno::Eperm))) == Err(Errno::Ebusy));
    // the first key pair stays
    assert!(cell.as_ref().unwrap().ima_measured());
    cell.clear();
    assert!(cell.as_ref().is_none());
}

#[test]
fn key_generation_checks() {
    assert!(check_point_alloc(false, false) == Err(Errno::Enomem));
    assert!(check_point_alloc(true, false) == Err(Errno::Efault));
    assert!(check_point_alloc(true, true) == Ok(()));
    assert!(curve_order(false, Some([1, 2, 3, 4])).is_none());
    assert!(curve_order(true, None).is_none());
    assert_eq!(curve_order(true, Some([1, 2, 3, 4])).unwrap().0, [1, 2, 3, 4]);
}

fn digest32() -> FsverityDigest {
    FsverityDigest::from_ret(32, [0xd5; 64]).ok().unwrap()
}

#[test]
fn sign_data_handler_success() {
    let kp = key_pair(Ok(()));
    let (mut h, a) = SignDataHandler::start(Some(&kp));
    assert!(matches!(a, SignDataAction::ReadDigest));
    assert!(matches!(h.step(SignDataEvent::Digest(Ok(digest32()))), SignDataAction::ReadRequest));
    let mut req = SignDataReq::default();
    req.user_data = [0x42; 128];
    let message = match h.step(SignDataEvent::Request(Ok(req.to_bytes()))) {
        SignDataAction::Sign(m) => m,
        _ => panic!("expected a message to sign"),
    };
    assert_eq!(message.len(), 32 + 128);
    assert_eq!(&message[..32], &[0xd5; 32]);
    assert_eq!(&message[32..], &[0x42; 128]);
    let r = Vli::from_limbs([1, 0, 0, 0]);
    let s = Vli::from_limbs([2, 0, 0, 0]);
    let wire = match h.step(SignDataEvent::Signed([7; 32], Ok((r, s)))) {
        SignDataAction::Write(w) => w,
        _ => panic!("expected a reply"),
    };
    let reply = SignDataReq::from_bytes(&wire);
    assert_eq!(reply.user_data, [0x42; 128]);
    assert_eq!(reply.hash, [7; 32]);
    assert_eq!(reply.sig_r[31], 1);
    assert_eq!(reply.sig_s[31], 2);
    assert_eq!(reply.pubkey, kp.pubkey);
    assert!(matches!(h.step(SignDataEvent::Written(Ok(()))), SignDataAction::Finish(Ok(0))));
    assert!(matches!(h.stage, SignDataStage::Done));
}

#[test]
fn sign_data_handler_errors_write_nothing() {
    assert!(matches!(SignDataHandler::start(None).1, SignDataAction::Finish(Err(Errno::Enxio))));
    let unmeasured = key_pair(Err(Errno::Enoent));
    assert!(matches!(
        SignDataHandler::start(Some(&unmeasured)).1,
        SignDataAction::Finish(Err(Errno::Eperm))
    ));
    let kp = key_pair(Ok(()));
    let (mut h, _) = SignDataHandler::start(Some(&kp));
    assert!(matches!(
        h.step(SignDataEvent::Digest(Err(Errno::Enoent))),
        SignDataAction::Finish(Err(Errno::Enoent))
    ));
    let (mut h, _) = SignDataHandler::start(Some(&kp));
    h.step(SignDataEvent::Digest(Ok(digest32())));
    assert!(matches!(
        h.step(SignDataEvent::Request(Err(Errno::Efault))),
        SignDataAction::Finish(Err(Errno::Efault))
    ));
    let (mut h, _) = SignDataHandler::start(Some(&kp));
    h.step(SignDataEvent::Digest(Ok(digest32())));
    h.step(SignDataEvent::Request(Ok(SignDataReq::default().to_bytes())));
    assert!(matches!(
        h.step(SignDataEvent::Signed([0; 32], Err(Errno::Einval))),
        SignDataAction::Finish(Err(Errno::Einval))
    ));
    assert!(matches!(h.stage, SignDataStage::Done));
}

#[test]
fn caller_without_executable_is_refused() {
    assert!(check_caller_executable(true, true, true) == Ok(()));
    assert!(check_caller_executable(false, true, true) == Err(Errno::Eperm));
    assert!(check_caller_executable(true, false, true) == Err(Errno::Eperm));
    assert!(check_caller_executable(true, true, false) == Err(Errno::Eperm));
}
