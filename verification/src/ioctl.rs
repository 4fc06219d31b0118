//! The device's ioctl interface: command numbers, dispatch, the signing
//! request's wire layout, the key pair, and the decisions the handlers take
//! on the results of kernel services.
use vstd::prelude::*;
use crate::client::{SignDataReq, USER_DATA_BYTES};
use crate::convert::{compressed_pubkey_bytes, le_limbs_to_be_bytes, sec1_compressed, P256_PUBKEY_BYTES};
use crate::bytes::limbs_be_bytes;
use crate::ecdsa::{attempt_outcome, ecdsa_attempt};
use crate::vli::Scalar;
use crate::set_once::SetOnce;

verus! {

/// Octets of the signing request on the wire: user data, hash, `r`, `s`
/// and the compressed public key, in that order.
pub const SIGN_DATA_REQ_BYTES: usize = 257;

/// Largest fs-verity digest (`FS_VERITY_MAX_DIGEST_SIZE`).
pub const FS_VERITY_MAX_DIGEST_SIZE: usize = 64;

/// `TARAKO_HELLO`: `_IO('S', 0)`, that is 0x0000_5300.
pub const TARAKO_HELLO: u32 = (0u32 << 30u32) | (0u32 << 16u32) | (0x53u32 << 8u32) | 0u32;

/// `TARAKO_GET_PUBKEY`: `_IOR('S', 1, [u8; 33])`, that is 0x8021_5301.
pub const TARAKO_GET_PUBKEY: u32 = (2u32 << 30u32) | ((P256_PUBKEY_BYTES as u32) << 16u32) | (
0x53u32 << 8u32) | 1u32;

/// `TARAKO_SIGN_DATA`: `_IOWR('S', 2, SignDataReq)`, that is 0xC101_5302.
pub const TARAKO_SIGN_DATA: u32 = (3u32 << 30u32) | ((SIGN_DATA_REQ_BYTES as u32) << 16u32) | (
0x53u32 << 8u32) | 2u32;

/// The Linux ioctl command encoding: direction in bits 30-31, argument size
/// in bits 16-29, type in bits 8-15, number in bits 0-7.
pub open spec fn ioc_spec(dir: u32, ty: u32, nr: u32, size: u32) -> u32 {
    ((dir << 30u32) | (size << 16u32) | (ty << 8u32) | nr) as u32
}

/// The argument size encoded in an ioctl command.
pub open spec fn ioc_size_spec(cmd: u32) -> u32 {
    (cmd >> 16u32) & 0x3fffu32
}

/// Encode an ioctl command.
pub fn ioc(dir: u32, ty: u32, nr: u32, size: u32) -> (r: u32)
    requires
        dir < 4,
        ty < 256,
        nr < 256,
        size < 0x4000,
    ensures
        r == ioc_spec(dir, ty, nr, size),
{
    (dir << 30) | (size << 16) | (ty << 8) | nr
}

/// The argument size of an ioctl command (`_IOC_SIZE`).
pub fn ioc_size(cmd: u32) -> (r: usize)
    ensures
        r == ioc_size_spec(cmd),
{
    ((cmd >> 16) & 0x3fff) as usize
}

/// The command numbers are the standard encodings, each carries the size
/// of its argument, and they are the documented values.
pub proof fn lemma_command_numbers()
    ensures
        TARAKO_HELLO == ioc_spec(0, 0x53, 0, 0),
        TARAKO_GET_PUBKEY == ioc_spec(2, 0x53, 1, P256_PUBKEY_BYTES as u32),
        TARAKO_SIGN_DATA == ioc_spec(3, 0x53, 2, SIGN_DATA_REQ_BYTES as u32),
        ioc_size_spec(TARAKO_GET_PUBKEY) == P256_PUBKEY_BYTES,
        ioc_size_spec(TARAKO_SIGN_DATA) == SIGN_DATA_REQ_BYTES,
        TARAKO_HELLO == 0x0000_5300,
        TARAKO_GET_PUBKEY == 0x8021_5301,
        TARAKO_SIGN_DATA == 0xC101_5302,
{
    assert(((0u32 << 30u32) | (0u32 << 16u32) | (0x53u32 << 8u32) | 0u32) == 0x0000_5300u32)
        by (bit_vector);
    assert(((2u32 << 30u32) | (33u32 << 16u32) | (0x53u32 << 8u32) | 1u32) == 0x8021_5301u32)
        by (bit_vector);
    assert(((3u32 << 30u32) | (257u32 << 16u32) | (0x53u32 << 8u32) | 2u32) == 0xC101_5302u32)
        by (bit_vector);
    assert((0x8021_5301u32 >> 16u32) & 0x3fffu32 == 33u32) by (bit_vector);
    assert((0xC101_5302u32 >> 16u32) & 0x3fffu32 == 257u32) by (bit_vector);
}

/// Kernel error numbers the handlers return.
#[derive(PartialEq, Eq, Structural)]
pub enum Errno {
    Eperm,
    Enoent,
    Enxio,
    E2big,
    Efault,
    Ebusy,
    Einval,
    Enotty,
    Enospc,
    Eoverflow,
    Enomem,
    /// Any other error number, from -4095 to -1.
    Other(i32),
}

impl Errno {
    /// The error for a return value of a kernel service, as the kernel's
    /// `Error::from_errno` gives it: error numbers run from -4095 to -1, and
    /// any value outside that range is taken as `EINVAL`.
    pub fn from_errno(ret: i32) -> (e: Errno)
        ensures
            e == Errno::from_errno_spec(ret),
    {
        if ret < -4095 || ret >= 0 {
            return Errno::Einval;
        }
        match ret {
            -1 => Errno::Eperm,
            -2 => Errno::Enoent,
            -6 => Errno::Enxio,
            -7 => Errno::E2big,
            -12 => Errno::Enomem,
            -14 => Errno::Efault,
            -16 => Errno::Ebusy,
            -22 => Errno::Einval,
            -25 => Errno::Enotty,
            -28 => Errno::Enospc,
            -75 => Errno::Eoverflow,
            _ => Errno::Other(ret),
        }
    }

    /// The error number of an error.
    pub open spec fn errno_value(&self) -> i32 {
        match *self {
            Errno::Eperm => -1i32,
            Errno::Enoent => -2i32,
            Errno::Enxio => -6i32,
            Errno::E2big => -7i32,
            Errno::Enomem => -12i32,
            Errno::Efault => -14i32,
            Errno::Ebusy => -16i32,
            Errno::Einval => -22i32,
            Errno::Enotty => -25i32,
            Errno::Enospc => -28i32,
            Errno::Eoverflow => -75i32,
            Errno::Other(v) => v,
        }
    }

    /// The (negative) error number.
    pub fn to_errno(&self) -> (r: i32)
        ensures
            r == self.errno_value(),
    {
        match self {
            Errno::Eperm => -1,
            Errno::Enoent => -2,
            Errno::Enxio => -6,
            Errno::E2big => -7,
            Errno::Enomem => -12,
            Errno::Efault => -14,
            Errno::Ebusy => -16,
            Errno::Einval => -22,
            Errno::Enotty => -25,
            Errno::Enospc => -28,
            Errno::Eoverflow => -75,
            Errno::Other(v) => *v,
        }
    }

    /// The error `from_errno` gives for `ret`.
    pub open spec fn from_errno_spec(ret: i32) -> Errno {
        if ret < -4095 || ret >= 0 {
            Errno::Einval
        } else if ret == -1 {
            Errno::Eperm
        } else if ret == -2 {
            Errno::Enoent
        } else if ret == -6 {
            Errno::Enxio
        } else if ret == -7 {
            Errno::E2big
        } else if ret == -12 {
            Errno::Enomem
        } else if ret == -14 {
            Errno::Efault
        } else if ret == -16 {
            Errno::Ebusy
        } else if ret == -22 {
            Errno::Einval
        } else if ret == -25 {
            Errno::Enotty
        } else if ret == -28 {
            Errno::Enospc
        } else if ret == -75 {
            Errno::Eoverflow
        } else {
            Errno::Other(ret)
        }
    }
}

/// Reading an error back from its number gives the error, for every named
/// error and every other error number (-4095 to -1, not a named one).
pub proof fn lemma_errno_roundtrip(e: Errno)
    requires
        e matches Errno::Other(v) ==> Errno::from_errno_spec(v) == e,
    ensures
        Errno::from_errno_spec(e.errno_value()) == e,
{
}

/// The result of a kernel service that reports failure by a negative
/// return value.
pub fn check_ret(ret: i32) -> (r: Result<(), Errno>)
    ensures
        ret >= 0 ==> r is Ok,
        ret < 0 ==> r == Err::<(), Errno>(Errno::from_errno_spec(ret)),
{
    if ret < 0 {
        Err(Errno::from_errno(ret))
    } else {
        Ok(())
    }
}

/// `SIGNER_HELLO` of the certificate-issuing variant of the device.
pub const SIGNER_HELLO: u32 = 0x0000_5300;

/// `SIGNER_GET_CERT`: returns the self-signed certificate.
pub const SIGNER_GET_CERT: u32 = 0x8800_5301;

/// `SIGNER_SIGN_DATA`: signs a nonce together with the caller's digest.
pub const SIGNER_SIGN_DATA: u32 = 0xC0C1_5302;

/// The requests of the certificate-issuing variant of the device.
#[derive(PartialEq, Eq, Structural)]
pub enum SignerCommand {
    Hello,
    GetCert,
    SignData,
}

/// The request an ioctl command number stands for in the
/// certificate-issuing variant, which serves only callers whose executable
/// passed the fs-verity check (`verity`): its error comes first, unknown
/// numbers are refused with `ENOTTY`.
pub fn decode_signer_command(verity: Result<(), Errno>, cmd: u32) -> (r: Result<SignerCommand, Errno>)
    ensures
        verity matches Err(e) ==> r == Err::<SignerCommand, Errno>(e),
        verity is Ok && cmd == SIGNER_HELLO ==> r == Ok::<SignerCommand, Errno>(SignerCommand::Hello),
        verity is Ok && cmd == SIGNER_GET_CERT ==> r == Ok::<SignerCommand, Errno>(
            SignerCommand::GetCert,
        ),
        verity is Ok && cmd == SIGNER_SIGN_DATA ==> r == Ok::<SignerCommand, Errno>(
            SignerCommand::SignData,
        ),
        verity is Ok && cmd != SIGNER_HELLO && cmd != SIGNER_GET_CERT && cmd != SIGNER_SIGN_DATA
            ==> r == Err::<SignerCommand, Errno>(Errno::Enotty),
{
    match verity {
        Err(e) => Err(e),
        Ok(()) => if cmd == SIGNER_HELLO {
            Ok(SignerCommand::Hello)
        } else if cmd == SIGNER_GET_CERT {
            Ok(SignerCommand::GetCert)
        } else if cmd == SIGNER_SIGN_DATA {
            Ok(SignerCommand::SignData)
        } else {
            Err(Errno::Enotty)
        },
    }
}

/// The requests the device serves.
#[derive(PartialEq, Eq, Structural)]
pub enum Command {
    Hello,
    GetPubkey,
    SignData,
}

/// The request an ioctl command number stands for; unknown numbers are
/// refused with `ENOTTY`.
pub fn decode_command(cmd: u32) -> (r: Result<Command, Errno>)
    ensures
        cmd == TARAKO_HELLO ==> r == Ok::<Command, Errno>(Command::Hello),
        cmd == TARAKO_GET_PUBKEY ==> r == Ok::<Command, Errno>(Command::GetPubkey),
        cmd == TARAKO_SIGN_DATA ==> r == Ok::<Command, Errno>(Command::SignData),
        cmd != TARAKO_HELLO && cmd != TARAKO_GET_PUBKEY && cmd != TARAKO_SIGN_DATA ==> r
            == Err::<Command, Errno>(Errno::Enotty),
{
    proof {
        lemma_command_numbers();
    }
    if cmd == TARAKO_HELLO {
        Ok(Command::Hello)
    } else if cmd == TARAKO_GET_PUBKEY {
        Ok(Command::GetPubkey)
    } else if cmd == TARAKO_SIGN_DATA {
        Ok(Command::SignData)
    } else {
        Err(Errno::Enotty)
    }
}

/// The wire layout of a signing request.
pub open spec fn sign_data_req_layout(req: SignDataReq) -> Seq<u8> {
    req.user_data@ + req.hash@ + req.sig_r@ + req.sig_s@ + req.pubkey@
}

fn copy_into<const M: usize, const K: usize>(out: &mut [u8; M], at: usize, src: &[u8; K])
    requires
        at + K <= M,
    ensures
        final(out)@ == old(out)@.subrange(0, at as int) + src@ + old(out)@.subrange(
            at + K,
            M as int,
        ),
{
    let ghost start = out@;
    let mut j: usize = 0;
    while j < K
        invariant
            j <= K,
            at + K <= M,
            out@.len() == M,
            start.len() == M,
            out@ == start.subrange(0, at as int) + src@.subrange(0, j as int) + start.subrange(
                at + j,
                M as int,
            ),
        decreases K - j,
    {
        out[at + j] = src[j];
        assert(out@ =~= start.subrange(0, at as int) + src@.subrange(0, j + 1) + start.subrange(
            at + j + 1,
            M as int,
        ));
        j = j + 1;
    }
    assert(src@.subrange(0, K as int) =~= src@);
}

fn copy_from<const M: usize, const K: usize>(src: &[u8; M], at: usize) -> (out: [u8; K])
    requires
        at + K <= M,
    ensures
        out@ == src@.subrange(at as int, at + K),
{
    let mut out = [0u8; K];
    let mut j: usize = 0;
    while j < K
        invariant
            j <= K,
            at + K <= M,
            out@.len() == K,
            forall|i: int| 0 <= i < j ==> out@[i] == src@[at + i],
        decreases K - j,
    {
        out[j] = src[at + j];
        j = j + 1;
    }
    assert(out@ =~= src@.subrange(at as int, at + K));
    out
}

impl SignDataReq {
    /// The request as it travels between the client and the device.
    pub fn to_bytes(&self) -> (r: [u8; 257])
        ensures
            r@ == sign_data_req_layout(*self),
    {
        let mut out = [0u8; 257];
        copy_into(&mut out, 0, &self.user_data);
        copy_into(&mut out, 128, &self.hash);
        copy_into(&mut out, 160, &self.sig_r);
        copy_into(&mut out, 192, &self.sig_s);
        copy_into(&mut out, 224, &self.pubkey);
        assert(out@ =~= sign_data_req_layout(*self));
        out
    }

    /// The request read from its wire layout.
    pub fn from_bytes(bytes: &[u8; 257]) -> (r: SignDataReq)
        ensures
            sign_data_req_layout(r) == bytes@,
    {
        let r = SignDataReq {
            user_data: copy_from(bytes, 0),
            hash: copy_from(bytes, 128),
            sig_r: copy_from(bytes, 160),
            sig_s: copy_from(bytes, 192),
            pubkey: copy_from(bytes, 224),
        };
        assert(sign_data_req_layout(r) =~= bytes@);
        r
    }
}

/// Reading a request back from its wire layout gives the request.
pub proof fn lemma_sign_data_req_layout_injective(a: SignDataReq, b: SignDataReq)
    requires
        sign_data_req_layout(a) == sign_data_req_layout(b),
    ensures
        a.user_data@ == b.user_data@,
        a.hash@ == b.hash@,
        a.sig_r@ == b.sig_r@,
        a.sig_s@ == b.sig_s@,
        a.pubkey@ == b.pubkey@,
{
    let la = sign_data_req_layout(a);
    let lb = sign_data_req_layout(b);
    assert(a.user_data@ =~= la.subrange(0, 128));
    assert(b.user_data@ =~= lb.subrange(0, 128));
    assert(a.hash@ =~= la.subrange(128, 160));
    assert(b.hash@ =~= lb.subrange(128, 160));
    assert(a.sig_r@ =~= la.subrange(160, 192));
    assert(b.sig_r@ =~= lb.subrange(160, 192));
    assert(a.sig_s@ =~= la.subrange(192, 224));
    assert(b.sig_s@ =~= lb.subrange(192, 224));
    assert(a.pubkey@ =~= la.subrange(224, 257));
    assert(b.pubkey@ =~= lb.subrange(224, 257));
}

/// The device's key pair: the private key, its compressed SEC 1 public key, the
/// group order, and whether IMA measured the public key.
pub struct KeyPair {
    pub private: Scalar,
    pub pubkey: [u8; 33],
    pub curve_n: Scalar,
    pub ima_measured: bool,
}

impl KeyPair {
    /// Whether signing is allowed: only once IMA has measured the key.
    pub open spec fn spec_ima_measured(&self) -> bool {
        self.ima_measured
    }

    /// The group order the key pair signs with.
    pub open spec fn spec_curve_n(&self) -> Scalar {
        self.curve_n
    }

    /// Assemble the key pair from the generated private key, the public
    /// point's big-endian coordinates, the group order (`None` when the
    /// curve could not be looked up, refused with `EINVAL`) and the result of
    /// measuring the public key with IMA (a failure keeps the key but
    /// disables signing).
    pub fn from_parts(
        private: Scalar,
        x: &[u8; 32],
        y: &[u8; 32],
        curve_n: Option<Scalar>,
        ima_result: Result<(), Errno>,
    ) -> (r: Result<KeyPair, Errno>)
        ensures
            curve_n is None ==> r == Err::<KeyPair, Errno>(Errno::Einval),
            curve_n matches Some(n) ==> (r matches Ok(kp) && kp.private == private
                && kp.pubkey@ == sec1_compressed(x@, y@) && kp.spec_curve_n() == n
                && kp.spec_ima_measured() == (ima_result is Ok)),
    {
        let pubkey_sec1 = compressed_pubkey_bytes(x, y);
        let curve_n = match curve_n {
            Some(n) => n,
            None => {
                return Err(Errno::Einval);
            },
        };
        let ima_measured = match ima_result {
            Ok(()) => true,
            Err(_) => false,
        };
        Ok(KeyPair { private, pubkey: pubkey_sec1, curve_n, ima_measured })
    }

    /// Whether the public key was measured, so that signing is allowed.
    pub fn ima_measured(&self) -> (r: bool)
        ensures
            r == self.spec_ima_measured(),
    {
        self.ima_measured
    }

    /// One signing attempt with this key, for the digest `hash`, the nonce
    /// `k` and the x-coordinate `rx_swapped` of `k G` in swapped form.
    pub fn sign_attempt(&self, hash: &[u8; 32], k: &Scalar, rx_swapped: &Scalar) -> (res: Option<
        (Scalar, Scalar),
    >)
        requires
            self.spec_curve_n().value() > 1,
            self.spec_curve_n().value() % 2 == 1,
        ensures
            attempt_outcome(
                hash@,
                k.value(),
                rx_swapped@,
                self.private.value(),
                self.spec_curve_n().value(),
                res,
            ),
    {
        ecdsa_attempt(hash, k, rx_swapped, &self.private, &self.curve_n)
    }
}

/// Publish a freshly generated key pair in the device's cell, as module
/// initialisation does.  A cell that already holds a key pair keeps it, and
/// the new one is refused with `EBUSY`.
pub fn install_key_pair(cell: &mut SetOnce<KeyPair>, kp: KeyPair) -> (r: Result<(), Errno>)
    requires
        old(cell).wf(),
    ensures
        final(cell).wf(),
        old(cell).contents() is None ==> r is Ok && final(cell).contents() == Some(kp),
        old(cell).contents() is Some ==> r == Err::<(), Errno>(Errno::Ebusy)
            && final(cell).contents() == old(cell).contents(),
{
    if cell.populate(kp) {
        Ok(())
    } else {
        Err(Errno::Ebusy)
    }
}

/// Whether the caller's executable can be looked up for its fs-verity
/// digest: a task without a memory map, a map without an executable file,
/// or a file without an inode is refused with `EPERM`.
pub fn check_caller_executable(has_mm: bool, has_exe_file: bool, has_inode: bool) -> (r: Result<
    (),
    Errno,
>)
    ensures
        r is Ok <==> (has_mm && has_exe_file && has_inode),
        r is Err ==> r == Err::<(), Errno>(Errno::Eperm),
{
    if !has_mm || !has_exe_file || !has_inode {
        Err(Errno::Eperm)
    } else {
        Ok(())
    }
}

/// An fs-verity digest of the calling executable.
pub struct FsverityDigest {
    size: usize,
    buffer: [u8; 64],
}

impl FsverityDigest {
    /// The recorded size fits the buffer.
    pub closed spec fn wf(&self) -> bool {
        self.size <= 64
    }

    /// The digest octets.
    pub closed spec fn spec_digest(&self) -> Seq<u8> {
        self.buffer@.subrange(0, self.size as int)
    }

    /// The digest of `size` octets that `fsverity_get_digest` left in
    /// `buffer`, given its return value `ret`: a negative value is its
    /// error, zero means no digest (`ENOENT`), more than the buffer holds is
    /// `EOVERFLOW`.
    pub fn from_ret(ret: i32, buffer: [u8; 64]) -> (r: Result<FsverityDigest, Errno>)
        ensures
            ret < 0 ==> r == Err::<FsverityDigest, Errno>(Errno::from_errno_spec(ret)),
            ret == 0 ==> r == Err::<FsverityDigest, Errno>(Errno::Enoent),
            ret > 64 ==> r == Err::<FsverityDigest, Errno>(Errno::Eoverflow),
            0 < ret <= 64 ==> (r matches Ok(d) && d.wf() && d.spec_digest() == buffer@.subrange(
                0,
                ret as int,
            )),
    {
        if ret < 0 {
            return Err(Errno::from_errno(ret));
        }
        let size = ret as usize;
        if size == 0 {
            return Err(Errno::Enoent);
        }
        if size > FS_VERITY_MAX_DIGEST_SIZE {
            return Err(Errno::Eoverflow);
        }
        Ok(FsverityDigest { size, buffer })
    }

    /// The digest octets.
    pub fn digest(&self) -> (r: &[u8])
        requires
            self.wf(),
        ensures
            r@ == self.spec_digest(),
    {
        &self.buffer[0..self.size]
    }
}

/// The decision of the public-key request: `ENXIO` without a key, `E2BIG`
/// when the caller's buffer cannot hold the 33-octet key, else the number
/// of octets written.
pub fn get_pubkey_reply(have_key: bool, cmd: u32) -> (r: Result<usize, Errno>)
    ensures
        !have_key ==> r == Err::<usize, Errno>(Errno::Enxio),
        have_key && ioc_size_spec(cmd) < 33 ==> r == Err::<usize, Errno>(Errno::E2big),
        have_key && ioc_size_spec(cmd) >= 33 ==> r == Ok::<usize, Errno>(33),
{
    if !have_key {
        return Err(Errno::Enxio);
    }
    let buf_size = ioc_size(cmd);
    if buf_size < P256_PUBKEY_BYTES {
        return Err(Errno::E2big);
    }
    Ok(P256_PUBKEY_BYTES)
}

/// The admission check of the signing request: `ENXIO` without a key,
/// `EPERM` when the key was not measured by IMA.
pub fn sign_data_admission(key: Option<&KeyPair>) -> (r: Result<(), Errno>)
    ensures
        key is None ==> r == Err::<(), Errno>(Errno::Enxio),
        key matches Some(kp) && !kp.spec_ima_measured() ==> r == Err::<(), Errno>(Errno::Eperm),
        key matches Some(kp) && kp.spec_ima_measured() ==> r is Ok,
{
    match key {
        None => Err(Errno::Enxio),
        Some(kp) => if !kp.ima_measured() {
            Err(Errno::Eperm)
        } else {
            Ok(())
        },
    }
}

/// The message that is hashed and signed: the caller's fs-verity digest
/// followed by its user data.
pub fn sign_message(digest: &[u8], user_data: &[u8; 128]) -> (r: Vec<u8>)
    requires
        digest@.len() <= FS_VERITY_MAX_DIGEST_SIZE,
    ensures
        r@ == digest@ + user_data@,
{
    let mut to_sign: Vec<u8> = Vec::new();
    let mut i: usize = 0;
    while i < digest.len()
        invariant
            i <= digest@.len(),
            to_sign@ == digest@.subrange(0, i as int),
        decreases digest@.len() - i,
    {
        to_sign.push(digest[i]);
        assert(digest@.subrange(0, i + 1) =~= digest@.subrange(0, i as int).push(digest@[i as int]));
        i = i + 1;
    }
    let mut j: usize = 0;
    while j < USER_DATA_BYTES
        invariant
            j <= 128,
            to_sign@ == digest@ + user_data@.subrange(0, j as int),
        decreases 128 - j,
    {
        to_sign.push(user_data[j]);
        assert(user_data@.subrange(0, j + 1) =~= user_data@.subrange(0, j as int).push(
            user_data@[j as int],
        ));
        j = j + 1;
    }
    assert(digest@.subrange(0, digest@.len() as int) =~= digest@);
    assert(user_data@.subrange(0, 128) =~= user_data@);
    to_sign
}

/// Fill in the reply to a signing request: the hash, the signature
/// `(r, s)` as big-endian octets and the public key; the user data is kept.
pub fn fill_sign_reply(req: &mut SignDataReq, hash: [u8; 32], r: &Scalar, s: &Scalar, pubkey: &[u8; 33])
    ensures
        final(req).user_data == old(req).user_data,
        final(req).hash@ == hash@,
        final(req).sig_r@ == limbs_be_bytes(r@),
        final(req).sig_s@ == limbs_be_bytes(s@),
        final(req).pubkey@ == pubkey@,
{
    req.hash = hash;
    req.sig_r = le_limbs_to_be_bytes(r.limbs());
    req.sig_s = le_limbs_to_be_bytes(s.limbs());
    req.pubkey = *pubkey;
}

/// The checks of the kernel's point allocation before the public key is
/// computed: no point is `ENOMEM`, a point without its coordinate buffers is
/// `EFAULT` (and is freed again).
pub fn check_point_alloc(point_allocated: bool, coords_allocated: bool) -> (r: Result<(), Errno>)
    ensures
        !point_allocated ==> r == Err::<(), Errno>(Errno::Enomem),
        point_allocated && !coords_allocated ==> r == Err::<(), Errno>(Errno::Efault),
        point_allocated && coords_allocated ==> r is Ok,
{
    if !point_allocated {
        Err(Errno::Enomem)
    } else if !coords_allocated {
        Err(Errno::Efault)
    } else {
        Ok(())
    }
}

/// The group order looked up from the kernel's curve table: nothing when
/// the curve is unknown or has no order buffer, else the order's limbs.
pub fn curve_order(curve_found: bool, order: Option<[u64; 4]>) -> (r: Option<Scalar>)
    ensures
        !curve_found ==> r is None,
        curve_found && order is None ==> r is None,
        curve_found ==> (order matches Some(l) ==> (r matches Some(n) && n@ == l@)),
{
    if !curve_found {
        return None;
    }
    match order {
        Some(l) => Some(Scalar::from_limbs(l)),
        None => None,
    }
}

/// Where a signing request stands.
pub enum SignDataStage {
    /// The caller's fs-verity digest is being read.
    AwaitDigest,
    /// The request is being read from the caller's buffer.
    AwaitRequest(FsverityDigest),
    /// The message is being hashed and signed.
    AwaitSignature(SignDataReq),
    /// The reply is being written to the caller's buffer.
    AwaitWrite,
    /// The request is answered.
    Done,
}

/// What the kernel reports back for the action it was given.
pub enum SignDataEvent {
    /// The caller's fs-verity digest, or why it could not be read.
    Digest(Result<FsverityDigest, Errno>),
    /// The request octets read from the caller's buffer, or the fault.
    Request(Result<[u8; 257], Errno>),
    /// The SHA-256 of the message and the outcome of the signing loop.
    Signed([u8; 32], Result<(Scalar, Scalar), Errno>),
    /// Whether the reply reached the caller's buffer.
    Written(Result<(), Errno>),
}

/// What the kernel is to do next for a signing request.
pub enum SignDataAction {
    /// Read the caller's fs-verity digest.
    ReadDigest,
    /// Read the request from the caller's buffer.
    ReadRequest,
    /// Hash and sign this message.
    Sign(Vec<u8>),
    /// Write this reply to the caller's buffer.
    Write([u8; 257]),
    /// Return from the ioctl with this result.
    Finish(Result<usize, Errno>),
}

/// The error an event carries, if any.
pub open spec fn event_error(event: SignDataEvent) -> Option<Errno> {
    match event {
        SignDataEvent::Digest(Err(e)) => Some(e),
        SignDataEvent::Request(Err(e)) => Some(e),
        SignDataEvent::Signed(_, Err(e)) => Some(e),
        SignDataEvent::Written(Err(e)) => Some(e),
        _ => None,
    }
}

/// The event a stage waits for.
pub open spec fn stage_expects(stage: SignDataStage, event: SignDataEvent) -> bool {
    match stage {
        SignDataStage::AwaitDigest => match event {
            SignDataEvent::Digest(Ok(d)) => d.wf(),
            SignDataEvent::Digest(Err(_)) => true,
            _ => false,
        },
        SignDataStage::AwaitRequest(_) => event is Request,
        SignDataStage::AwaitSignature(_) => event is Signed,
        SignDataStage::AwaitWrite => event is Written,
        SignDataStage::Done => false,
    }
}

/// The handling of one `TARAKO_SIGN_DATA` request, step by step: the kernel
/// performs each action and reports the outcome as the next event.
pub struct SignDataHandler {
    pub stage: SignDataStage,
    /// The public key returned with the signature.
    pub pubkey: [u8; 33],
}

impl SignDataHandler {
    /// A digest held by the handler fits its buffer.
    pub open spec fn wf(&self) -> bool {
        self.stage matches SignDataStage::AwaitRequest(d) ==> d.wf()
    }

    /// Begin a request with the device's key pair, if any: `ENXIO` without
    /// one, `EPERM` when it was not measured by IMA, else read the caller's
    /// digest.
    pub fn start(key: Option<&KeyPair>) -> (r: (SignDataHandler, SignDataAction))
        ensures
            r.0.wf(),
            key is None ==> r.0.stage is Done && r.1 == SignDataAction::Finish(
                Err::<usize, Errno>(Errno::Enxio),
            ),
            key matches Some(kp) && !kp.spec_ima_measured() ==> r.0.stage is Done && r.1
                == SignDataAction::Finish(Err::<usize, Errno>(Errno::Eperm)),
            key matches Some(kp) ==> (kp.spec_ima_measured() ==> (r.0.pubkey == kp.pubkey
                && r.0.stage is AwaitDigest && r.1 is ReadDigest)),
    {
        match sign_data_admission(key) {
            Err(e) => (SignDataHandler { stage: SignDataStage::Done, pubkey: [0u8; 33] }, SignDataAction::Finish(Err(e))),
            Ok(()) => {
                let kp = key.unwrap();
                (
                    SignDataHandler { stage: SignDataStage::AwaitDigest, pubkey: kp.pubkey },
                    SignDataAction::ReadDigest,
                )
            },
        }
    }

    /// Take the outcome of the last action and give the next one.  Any
    /// error ends the request with that error, so the reply is written only
    /// once the digest, the request and the signature are all in hand.
    pub fn step(&mut self, event: SignDataEvent) -> (action: SignDataAction)
        requires
            old(self).wf(),
            stage_expects(old(self).stage, event),
        ensures
            final(self).wf(),
            final(self).pubkey == old(self).pubkey,
            event_error(event) matches Some(e) ==> final(self).stage is Done && action
                == SignDataAction::Finish(Err::<usize, Errno>(e)),
            action is Write ==> old(self).stage is AwaitSignature && event matches SignDataEvent::Signed(
                _,
                Ok(_),
            ),
            old(self).stage is AwaitDigest ==> (event matches SignDataEvent::Digest(Ok(d))
                ==> final(self).stage == SignDataStage::AwaitRequest(d) && action is ReadRequest),
            old(self).stage matches SignDataStage::AwaitRequest(d) ==> (event matches SignDataEvent::Request(Ok(b))
                ==> (final(self).stage matches SignDataStage::AwaitSignature(req)
                && sign_data_req_layout(req) == b@ && (action matches SignDataAction::Sign(m)
                && m@ == d.spec_digest() + req.user_data@))),
            old(self).stage matches SignDataStage::AwaitSignature(req) ==> (event matches SignDataEvent::Signed(h, Ok((r, s)))
                ==> (final(self).stage is AwaitWrite && (action matches SignDataAction::Write(w)
                && w@ == req.user_data@ + h@ + limbs_be_bytes(r@) + limbs_be_bytes(s@)
                + old(self).pubkey@))),
            old(self).stage is AwaitWrite ==> (event matches SignDataEvent::Written(Ok(_))
                ==> final(self).stage is Done && action == SignDataAction::Finish(Ok::<usize, Errno>(0))),
    {
        let mut stage = SignDataStage::Done;
        std::mem::swap(&mut stage, &mut self.stage);
        match event {
            SignDataEvent::Digest(Err(e)) => SignDataAction::Finish(Err(e)),
            SignDataEvent::Digest(Ok(d)) => {
                self.stage = SignDataStage::AwaitRequest(d);
                SignDataAction::ReadRequest
            },
            SignDataEvent::Request(Err(e)) => SignDataAction::Finish(Err(e)),
            SignDataEvent::Request(Ok(bytes)) => {
                match stage {
                    SignDataStage::AwaitRequest(d) => {
                        let req = SignDataReq::from_bytes(&bytes);
                        let message = sign_message(d.digest(), &req.user_data);
                        self.stage = SignDataStage::AwaitSignature(req);
                        SignDataAction::Sign(message)
                    },
                    _ => {
                        // the stage expects this event, so no other stage is here
                        proof {
                            assert(false);
                        }
                        SignDataAction::Finish(Err(Errno::Einval))
                    },
                }
            },
            SignDataEvent::Signed(_, Err(e)) => SignDataAction::Finish(Err(e)),
            SignDataEvent::Signed(hash, Ok((r, s))) => {
                match stage {
                    SignDataStage::AwaitSignature(req) => {
                        let mut reply = req;
                        fill_sign_reply(&mut reply, hash, &r, &s, &self.pubkey);
                        let bytes = reply.to_bytes();
                        self.stage = SignDataStage::AwaitWrite;
                        SignDataAction::Write(bytes)
                    },
                    _ => {
                        // the stage expects this event, so no other stage is here
                        proof {
                            assert(false);
                        }
                        SignDataAction::Finish(Err(Errno::Einval))
                    },
                }
            },
            SignDataEvent::Written(Err(e)) => SignDataAction::Finish(Err(e)),
            SignDataEvent::Written(Ok(())) => SignDataAction::Finish(Ok(0)),
        }
    }
}

} // verus!
