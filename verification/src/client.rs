//! Logic of the userspace client: command-line user data, hex formatting,
//! the signing request and the checks on the device's replies.
use vstd::prelude::*;
use vstd::string::StringExecFns;
use vstd::utf8::encode_utf8;
use crate::convert::P256_PUBKEY_BYTES;

verus! {

/// Octets of opaque user data in a signing request (1024 bits).
pub const USER_DATA_BYTES: usize = 128;

/// The value of an ASCII hex digit (either case).
pub open spec fn hex_digit_value(b: u8) -> Option<u8> {
    if 0x30 <= b <= 0x39 {
        Some((b - 0x30) as u8)
    } else if 0x61 <= b <= 0x66 {
        Some((b - 0x61 + 10) as u8)
    } else if 0x41 <= b <= 0x46 {
        Some((b - 0x41 + 10) as u8)
    } else {
        None
    }
}

/// Whether `s` is acceptable user data: a non-empty, even number of hex
/// digits, at most two per octet of user data.
pub open spec fn valid_hex_user_data(s: Seq<u8>) -> bool {
    &&& 0 < s.len() <= 2 * USER_DATA_BYTES
    &&& s.len() % 2 == 0
    &&& forall|i: int| 0 <= i < s.len() ==> #[trigger] hex_digit_value(s[i]) is Some
}

/// The octet written as the two hex digits `s[2 i]`, `s[2 i + 1]`.
pub open spec fn hex_pair_value(s: Seq<u8>, i: int) -> u8 {
    (hex_digit_value(s[2 * i]).unwrap() * 16 + hex_digit_value(s[2 * i + 1]).unwrap()) as u8
}

/// The user data the hex digits `s` stand for, zero-padded to
/// `USER_DATA_BYTES` octets.
pub open spec fn decoded_user_data(s: Seq<u8>) -> Seq<u8> {
    Seq::new(
        USER_DATA_BYTES as nat,
        |i: int|
            if i < s.len() / 2 {
                hex_pair_value(s, i)
            } else {
                0u8
            },
    )
}

/// `data` zero-padded to `USER_DATA_BYTES` octets.
pub open spec fn padded_user_data(data: Seq<u8>) -> Seq<u8> {
    Seq::new(
        USER_DATA_BYTES as nat,
        |i: int|
            if i < data.len() {
                data[i]
            } else {
                0u8
            },
    )
}

/// The lowercase hex digit for a value below 16.
pub open spec fn hex_char(n: u8) -> char {
    if n < 10 {
        ((n + 0x30) as u8) as char
    } else {
        ((n - 10 + 0x61) as u8) as char
    }
}

/// Lowercase hex rendering, two digits per octet.
pub open spec fn hex_chars(buf: Seq<u8>) -> Seq<char>
    decreases buf.len(),
{
    if buf.len() == 0 {
        Seq::empty()
    } else {
        hex_chars(buf.drop_last()) + seq![hex_char(buf.last() / 16), hex_char(buf.last() % 16)]
    }
}

/// The user data used when none is given: the octets 1 to 32, then zeros.
pub open spec fn default_user_data_spec() -> Seq<u8> {
    Seq::new(
        USER_DATA_BYTES as nat,
        |i: int|
            if i < 32 {
                (i + 1) as u8
            } else {
                0u8
            },
    )
}

proof fn lemma_hex_chars_shape(data: Seq<u8>)
    ensures
        hex_chars(data).len() == 2 * data.len(),
        forall|i: int|
            0 <= i < data.len() ==> #[trigger] hex_chars(data)[2 * i] == hex_char(data[i] / 16)
                && hex_chars(data)[2 * i + 1] == hex_char(data[i] % 16),
    decreases data.len(),
{
    if data.len() > 0 {
        let d = data.drop_last();
        lemma_hex_chars_shape(d);
        assert forall|i: int| 0 <= i < data.len() implies #[trigger] hex_chars(data)[2 * i]
            == hex_char(data[i] / 16) && hex_chars(data)[2 * i + 1] == hex_char(data[i] % 16) by {
            if i < data.len() - 1 {
                assert(hex_chars(d)[2 * i] == hex_char(d[i] / 16));
            }
        }
    }
}

proof fn lemma_hex_char_value(v: u8)
    requires
        v < 16,
    ensures
        '\0' <= hex_char(v) <= '\u{7f}',
        hex_digit_value(hex_char(v) as u8) == Some(v),
{
}

/// Hex rendering is ASCII, so its UTF-8 octets are its characters.
pub proof fn lemma_hex_is_ascii(data: Seq<u8>)
    ensures
        vstd::utf8::is_ascii_chars(hex_chars(data)),
        encode_utf8(hex_chars(data)).len() == 2 * data.len(),
        forall|k: int|
            0 <= k < 2 * data.len() ==> #[trigger] encode_utf8(hex_chars(data))[k] == hex_chars(
                data,
            )[k] as u8,
{
    let hc = hex_chars(data);
    lemma_hex_chars_shape(data);
    assert forall|k: int| 0 <= k < hc.len() implies '\0' <= #[trigger] hc[k] <= '\u{7f}' by {
        let i = k / 2;
        assert(0 <= i < data.len());
        if k % 2 == 0 {
            assert(k == 2 * i);
            assert(hc[2 * i] == hex_char(data[i] / 16));
            lemma_hex_char_value(data[i] / 16);
        } else {
            assert(k == 2 * i + 1);
            assert(hc[2 * i] == hex_char(data[i] / 16));
            assert(hc[2 * i + 1] == hex_char(data[i] % 16));
            lemma_hex_char_value(data[i] % 16);
        }
    }
    vstd::utf8::is_ascii_chars_encode_utf8(hc);
}

/// Parsing the hex rendering of 1 to 128 octets of user data gives back
/// those octets, zero-padded.
pub proof fn lemma_hex_roundtrip(data: Seq<u8>)
    requires
        0 < data.len() <= USER_DATA_BYTES,
    ensures
        valid_hex_user_data(encode_utf8(hex_chars(data))),
        decoded_user_data(encode_utf8(hex_chars(data))) == padded_user_data(data),
{
    let s = encode_utf8(hex_chars(data));
    lemma_hex_is_ascii(data);
    lemma_hex_chars_shape(data);
    assert forall|i: int| 0 <= i < data.len() implies hex_digit_value(s[2 * i]) == Some(
        data[i] / 16,
    ) && hex_digit_value(s[2 * i + 1]) == Some(data[i] % 16) by {
        lemma_hex_char_value(data[i] / 16);
        lemma_hex_char_value(data[i] % 16);
        assert(s[2 * i] == hex_chars(data)[2 * i] as u8);
        assert(s[2 * i + 1] == hex_chars(data)[2 * i + 1] as u8);
    }
    assert forall|k: int| 0 <= k < s.len() implies #[trigger] hex_digit_value(s[k]) is Some by {
        let i = k / 2;
        assert(hex_digit_value(s[2 * i]) == Some(data[i] / 16));
        if k % 2 == 0 {
            assert(k == 2 * i);
        } else {
            assert(k == 2 * i + 1);
        }
    }
    assert forall|i: int| 0 <= i < USER_DATA_BYTES implies #[trigger] decoded_user_data(s)[i]
        == padded_user_data(data)[i] by {
        if i < data.len() {
            assert(hex_pair_value(s, i) == data[i]);
        }
    }
    assert(decoded_user_data(s) =~= padded_user_data(data));
}

/// The ASCII uppercase of an octet (`a-z` to `A-Z`, others unchanged).
pub open spec fn ascii_upper(b: u8) -> u8 {
    if 0x61 <= b <= 0x7a {
        (b - 0x20) as u8
    } else {
        b
    }
}

/// The ASCII uppercase of an octet string.
pub open spec fn ascii_upper_seq(s: Seq<u8>) -> Seq<u8> {
    Seq::new(s.len(), |i: int| ascii_upper(s[i]))
}

/// Hex digits are read the same in either case.
pub proof fn lemma_hex_digit_case(b: u8)
    ensures
        hex_digit_value(ascii_upper(b)) == hex_digit_value(b),
{
}

/// Hex user data is read the same in either case: uppercasing it changes
/// neither whether it is accepted nor the octets it stands for.
pub proof fn lemma_hex_user_data_case(s: Seq<u8>)
    ensures
        valid_hex_user_data(ascii_upper_seq(s)) == valid_hex_user_data(s),
        decoded_user_data(ascii_upper_seq(s)) == decoded_user_data(s),
{
    let u = ascii_upper_seq(s);
    assert forall|i: int| 0 <= i < s.len() implies #[trigger] hex_digit_value(u[i])
        == hex_digit_value(s[i]) by {
        lemma_hex_digit_case(s[i]);
    }
    if valid_hex_user_data(s) {
        assert forall|i: int| 0 <= i < u.len() implies #[trigger] hex_digit_value(u[i]) is Some by {
            assert(hex_digit_value(u[i]) == hex_digit_value(s[i]));
        }
    }
    if valid_hex_user_data(u) {
        assert forall|i: int| 0 <= i < s.len() implies #[trigger] hex_digit_value(s[i]) is Some by {
            assert(hex_digit_value(u[i]) == hex_digit_value(s[i]));
        }
    }
    assert forall|i: int| 0 <= i < USER_DATA_BYTES implies #[trigger] decoded_user_data(u)[i]
        == decoded_user_data(s)[i] by {
        if i < s.len() / 2 {
            assert(hex_digit_value(u[2 * i]) == hex_digit_value(s[2 * i]));
            assert(hex_digit_value(u[2 * i + 1]) == hex_digit_value(s[2 * i + 1]));
        }
    }
    assert(decoded_user_data(u) =~= decoded_user_data(s));
}

/// Parsing the uppercase hex rendering of 1 to 128 octets of user data
/// gives back those octets, zero-padded.
pub proof fn lemma_hex_roundtrip_upper(data: Seq<u8>)
    requires
        0 < data.len() <= USER_DATA_BYTES,
    ensures
        valid_hex_user_data(ascii_upper_seq(encode_utf8(hex_chars(data)))),
        decoded_user_data(ascii_upper_seq(encode_utf8(hex_chars(data)))) == padded_user_data(data),
{
    lemma_hex_roundtrip(data);
    lemma_hex_user_data_case(encode_utf8(hex_chars(data)));
}

/// The value of one hex digit (`0-9`, `a-f`, `A-F`), or `None` for any
/// other octet.
pub fn hex_nibble(byte: u8) -> (r: Option<u8>)
    ensures
        r == hex_digit_value(byte),
{
    if 0x30 <= byte && byte <= 0x39 {
        Some(byte - 0x30)
    } else if 0x61 <= byte && byte <= 0x66 {
        Some(byte - 0x61 + 10)
    } else if 0x41 <= byte && byte <= 0x46 {
        Some(byte - 0x41 + 10)
    } else {
        None
    }
}

/// Parse user data given as hex digits: up to 128 octets, zero-padded.
/// `None` unless the text is a non-empty, even number of hex digits, at
/// most 256.
pub fn parse_hex_user_data(value: &str) -> (r: Option<[u8; 128]>)
    ensures
        match r {
            None => !valid_hex_user_data(encode_utf8(value@)),
            Some(out) => valid_hex_user_data(encode_utf8(value@)) && out@ == decoded_user_data(
                encode_utf8(value@),
            ),
        },
{
    let input = value.as_bytes();
    if input.len() == 0 || input.len() > USER_DATA_BYTES * 2 || input.len() % 2 != 0 {
        return None;
    }
    let ghost s = input@;
    let mut output = [0u8; 128];
    let mut i: usize = 0;
    while i < input.len() / 2
        invariant
            s == input@,
            s == encode_utf8(value@),
            0 < s.len() <= 256,
            s.len() % 2 == 0,
            i <= s.len() / 2,
            output@.len() == 128,
            forall|j: int| 0 <= j < 2 * i ==> #[trigger] hex_digit_value(s[j]) is Some,
            forall|j: int|
                0 <= j < 128 ==> #[trigger] output@[j] == if j < i {
                    hex_pair_value(s, j)
                } else {
                    0u8
                },
        decreases s.len() / 2 - i,
    {
        let hi = match hex_nibble(input[2 * i]) {
            Some(v) => v,
            None => {
                assert(hex_digit_value(s[2 * i as int]) is None);
                return None;
            },
        };
        let lo = match hex_nibble(input[2 * i + 1]) {
            Some(v) => v,
            None => {
                assert(hex_digit_value(s[2 * i + 1]) is None);
                return None;
            },
        };
        assert((hi << 4u8) | lo == (hi * 16 + lo) as u8) by (bit_vector)
            requires
                hi < 16,
                lo < 16,
        ;
        output[i] = (hi << 4) | lo;
        i = i + 1;
    }
    assert(output@ =~= decoded_user_data(s));
    Some(output)
}

/// The lowercase hex digit for `n`, as a string.
fn hex_digit_str(n: u8) -> (r: &'static str)
    requires
        n < 16,
    ensures
        r@ == seq![hex_char(n)],
{
    match n {
        0 => {
            proof {
                reveal_strlit("0");
            }
            "0"
        },
        1 => {
            proof {
                reveal_strlit("1");
            }
            "1"
        },
        2 => {
            proof {
                reveal_strlit("2");
            }
            "2"
        },
        3 => {
            proof {
                reveal_strlit("3");
            }
            "3"
        },
        4 => {
            proof {
                reveal_strlit("4");
            }
            "4"
        },
        5 => {
            proof {
                reveal_strlit("5");
            }
            "5"
        },
        6 => {
            proof {
                reveal_strlit("6");
            }
            "6"
        },
        7 => {
            proof {
                reveal_strlit("7");
            }
            "7"
        },
        8 => {
            proof {
                reveal_strlit("8");
            }
            "8"
        },
        9 => {
            proof {
                reveal_strlit("9");
            }
            "9"
        },
        10 => {
            proof {
                reveal_strlit("a");
            }
            "a"
        },
        11 => {
            proof {
                reveal_strlit("b");
            }
            "b"
        },
        12 => {
            proof {
                reveal_strlit("c");
            }
            "c"
        },
        13 => {
            proof {
                reveal_strlit("d");
            }
            "d"
        },
        14 => {
            proof {
                reveal_strlit("e");
            }
            "e"
        },
        _ => {
            proof {
                reveal_strlit("f");
            }
            "f"
        },
    }
}

/// Lowercase hex rendering of `buf`, two digits per octet.
pub fn hex(buf: &[u8]) -> (r: String)
    ensures
        r@ == hex_chars(buf@),
{
    let mut output = String::new();
    let mut i: usize = 0;
    while i < buf.len()
        invariant
            i <= buf@.len(),
            output@ == hex_chars(buf@.subrange(0, i as int)),
        decreases buf@.len() - i,
    {
        let byte = buf[i];
        output.append(hex_digit_str(byte / 16));
        output.append(hex_digit_str(byte % 16));
        assert(buf@.subrange(0, i + 1).drop_last() =~= buf@.subrange(0, i as int));
        i = i + 1;
    }
    assert(buf@.subrange(0, buf@.len() as int) =~= buf@);
    output
}

/// The default user data: the octets 1 to 32, then zeros.
pub fn default_user_data() -> (r: [u8; 128])
    ensures
        r@ == default_user_data_spec(),
{
    let mut data = [0u8; 128];
    let mut index: usize = 0;
    while index < 32
        invariant
            index <= 32,
            data@.len() == 128,
            forall|j: int|
                0 <= j < 128 ==> #[trigger] data@[j] == if j < index {
                    (j + 1) as u8
                } else {
                    0u8
                },
        decreases 32 - index,
    {
        data[index] = (index + 1) as u8;
        index = index + 1;
    }
    assert(data@ =~= default_user_data_spec());
    data
}

/// The usage message for the program named `program`.
pub fn usage_error(program: &str) -> (r: String)
    ensures
        r@ == "usage: "@ + program@ + " [hex-user-data (up to 256 hex chars)]"@,
{
    let mut message = String::from_str("usage: ");
    message.append(program);
    message.append(" [hex-user-data (up to 256 hex chars)]");
    message
}

/// The user data chosen by the command-line arguments after the program
/// name, each given as `None` when it is not valid Unicode: none gives the
/// default, one gives its hex value, anything else is a usage error
/// (`None`).
pub fn user_data_from_args(args: &[Option<String>]) -> (r: Option<[u8; 128]>)
    ensures
        args@.len() == 0 ==> (r matches Some(d) && d@ == default_user_data_spec()),
        args@.len() == 1 ==> match args@[0] {
            None => r is None,
            Some(s) => match r {
                None => !valid_hex_user_data(encode_utf8(s@)),
                Some(d) => valid_hex_user_data(encode_utf8(s@)) && d@ == decoded_user_data(
                    encode_utf8(s@),
                ),
            },
        },
        args@.len() >= 2 ==> r is None,
{
    if args.len() == 0 {
        Some(default_user_data())
    } else if args.len() == 1 {
        match &args[0] {
            Some(s) => parse_hex_user_data(s.as_str()),
            None => None,
        }
    } else {
        None
    }
}

/// The signing request exchanged with the device.
pub struct SignDataReq {
    pub user_data: [u8; 128],
    pub hash: [u8; 32],
    pub sig_r: [u8; 32],
    pub sig_s: [u8; 32],
    pub pubkey: [u8; 33],
}

impl Default for SignDataReq {
    fn default() -> (r: Self)
        ensures
            r.user_data@ == Seq::new(128, |i: int| 0u8),
            r.hash@ == Seq::new(32, |i: int| 0u8),
            r.sig_r@ == Seq::new(32, |i: int| 0u8),
            r.sig_s@ == Seq::new(32, |i: int| 0u8),
            r.pubkey@ == Seq::new(33, |i: int| 0u8),
    {
        let r = SignDataReq {
            user_data: [0; 128],
            hash: [0; 32],
            sig_r: [0; 32],
            sig_s: [0; 32],
            pubkey: [0; 33],
        };
        assert(r.user_data@ =~= Seq::new(128, |i: int| 0u8));
        assert(r.hash@ =~= Seq::new(32, |i: int| 0u8));
        assert(r.sig_r@ =~= Seq::new(32, |i: int| 0u8));
        assert(r.sig_s@ =~= Seq::new(32, |i: int| 0u8));
        assert(r.pubkey@ =~= Seq::new(33, |i: int| 0u8));
        r
    }
}

/// A reply of the device that the client does not accept.
pub enum ClientError {
    /// The hello request returned this instead of 0.
    UnexpectedHello(i32),
    /// The public-key request returned this instead of 33.
    UnexpectedPubkeyLength(i32),
    /// The signing request returned this instead of 0.
    UnexpectedSign(i32),
    /// The public key in the signing reply differs from the one fetched.
    PubkeyChanged,
}

/// Decimal digits of `n`, most significant first.
pub open spec fn decimal_digits(n: nat) -> Seq<char>
    decreases n,
{
    if n < 10 {
        seq![hex_char(n as u8)]
    } else {
        decimal_digits(n / 10) + seq![hex_char((n % 10) as u8)]
    }
}

/// Decimal rendering of an integer, with a leading `-` when negative.
pub open spec fn decimal(v: int) -> Seq<char> {
    if v < 0 {
        seq!['-'] + decimal_digits((-v) as nat)
    } else {
        decimal_digits(v as nat)
    }
}

fn append_decimal_digits(out: &mut String, n: u64)
    ensures
        final(out)@ == old(out)@ + decimal_digits(n as nat),
    decreases n,
{
    if n >= 10 {
        append_decimal_digits(out, n / 10);
    }
    let d = (n % 10) as u8;
    out.append(hex_digit_str(d));
    proof {
        if n < 10 {
            vstd::arithmetic::div_mod::lemma_small_mod(n as nat, 10);
        }
    }
}

/// Decimal rendering of `v`.
pub fn i32_decimal(v: i32) -> (r: String)
    ensures
        r@ == decimal(v as int),
{
    let mut out = String::new();
    if v < 0 {
        out.append("-");
        proof {
            reveal_strlit("-");
        }
        let m: i64 = -(v as i64);
        append_decimal_digits(&mut out, m as u64);
    } else {
        append_decimal_digits(&mut out, v as u64);
    }
    out
}

impl ClientError {
    /// What the client reports for this error.
    pub open spec fn message_spec(&self) -> Seq<char> {
        match *self {
            ClientError::UnexpectedHello(v) => "TARAKO_HELLO returned unexpected value "@ + decimal(
                v as int,
            ),
            ClientError::UnexpectedPubkeyLength(v) => "TARAKO_GET_PUBKEY returned "@ + decimal(
                v as int,
            ) + ", expected 33"@,
            ClientError::UnexpectedSign(v) => "TARAKO_SIGN_DATA returned unexpected value "@
                + decimal(v as int),
            ClientError::PubkeyChanged => "public key changed between ioctls"@,
        }
    }

    /// The message the client reports for this error.
    pub fn message(&self) -> (r: String)
        ensures
            r@ == self.message_spec(),
    {
        match self {
            ClientError::UnexpectedHello(v) => {
                let mut m = String::from_str("TARAKO_HELLO returned unexpected value ");
                let d = i32_decimal(*v);
                m.append(d.as_str());
                m
            },
            ClientError::UnexpectedPubkeyLength(v) => {
                let mut m = String::from_str("TARAKO_GET_PUBKEY returned ");
                let d = i32_decimal(*v);
                m.append(d.as_str());
                m.append(", expected 33");
                m
            },
            ClientError::UnexpectedSign(v) => {
                let mut m = String::from_str("TARAKO_SIGN_DATA returned unexpected value ");
                let d = i32_decimal(*v);
                m.append(d.as_str());
                m
            },
            ClientError::PubkeyChanged => String::from_str("public key changed between ioctls"),
        }
    }
}

/// Check the reply to the hello request.
pub fn check_hello(result: i32) -> (r: Result<(), ClientError>)
    ensures
        r is Ok <==> result == 0,
        r is Err ==> r == Err::<(), ClientError>(ClientError::UnexpectedHello(result)),
{
    if result != 0 {
        Err(ClientError::UnexpectedHello(result))
    } else {
        Ok(())
    }
}

/// Check the reply to the public-key request.
pub fn check_pubkey(result: i32) -> (r: Result<(), ClientError>)
    ensures
        r is Ok <==> result == P256_PUBKEY_BYTES,
        r is Err ==> r == Err::<(), ClientError>(ClientError::UnexpectedPubkeyLength(result)),
{
    if result != 33 {
        Err(ClientError::UnexpectedPubkeyLength(result))
    } else {
        Ok(())
    }
}

/// Check the reply to the signing request against the public key fetched
/// before.
pub fn check_sign(result: i32, reply: &SignDataReq, pubkey: &[u8; 33]) -> (r: Result<
    (),
    ClientError,
>)
    ensures
        result != 0 ==> r == Err::<(), ClientError>(ClientError::UnexpectedSign(result)),
        result == 0 && reply.pubkey@ != pubkey@ ==> r == Err::<(), ClientError>(
            ClientError::PubkeyChanged,
        ),
        result == 0 && reply.pubkey@ == pubkey@ ==> r is Ok,
{
    if result != 0 {
        return Err(ClientError::UnexpectedSign(result));
    }
    let mut i: usize = 0;
    while i < 33
        invariant
            i <= 33,
            result == 0,
            forall|j: int| 0 <= j < i ==> reply.pubkey@[j] == pubkey@[j],
        decreases 33 - i,
    {
        if reply.pubkey[i] != pubkey[i] {
            return Err(ClientError::PubkeyChanged);
        }
        i = i + 1;
    }
    assert(reply.pubkey@ =~= pubkey@);
    Ok(())
}

/// A request the client makes of the device.
pub enum ClientRequest {
    /// `TARAKO_HELLO`.
    Hello,
    /// `TARAKO_GET_PUBKEY`, into a 33-octet buffer.
    GetPubkey,
    /// `TARAKO_SIGN_DATA`, with these request octets.
    SignData([u8; 257]),
}

/// What the client does next.
pub enum ClientAction {
    /// Make this request of the device.
    Issue(ClientRequest),
    /// Stop: the signed reply, or the reply that was not accepted.
    Finish(Result<SignDataReq, ClientError>),
}

/// The device's answer to the last request (its non-negative ioctl result,
/// with the buffer it filled).
pub enum ClientEvent {
    HelloReturned(i32),
    PubkeyReturned(i32, [u8; 33]),
    SignReturned(i32, [u8; 257]),
}

/// Where the client stands.
pub enum ClientStage {
    AwaitHello,
    AwaitPubkey,
    /// The signing request was sent; the public key fetched before.
    AwaitSign([u8; 33]),
    Finished,
}

/// The answer a stage waits for.
pub open spec fn client_expects(stage: ClientStage, event: ClientEvent) -> bool {
    match stage {
        ClientStage::AwaitHello => event is HelloReturned,
        ClientStage::AwaitPubkey => event is PubkeyReturned,
        ClientStage::AwaitSign(_) => event is SignReturned,
        ClientStage::Finished => false,
    }
}

/// The client's requests, in order: hello, then the public key, then the
/// signature over the user data; any unexpected answer stops it.
pub struct ClientSession {
    pub user_data: [u8; 128],
    pub stage: ClientStage,
}

impl ClientSession {
    /// A session for `user_data`, which begins with the hello request.
    pub fn new(user_data: [u8; 128]) -> (r: (ClientSession, ClientAction))
        ensures
            r.0.user_data == user_data,
            r.0.stage is AwaitHello,
            r.1 == ClientAction::Issue(ClientRequest::Hello),
    {
        (ClientSession { user_data, stage: ClientStage::AwaitHello }, ClientAction::Issue(ClientRequest::Hello))
    }

    /// Take the device's answer and give the next action.
    pub fn step(&mut self, event: ClientEvent) -> (action: ClientAction)
        requires
            client_expects(old(self).stage, event),
        ensures
            final(self).user_data == old(self).user_data,
            event matches ClientEvent::HelloReturned(res) ==> (res == 0 ==> final(self).stage is AwaitPubkey
                && action == ClientAction::Issue(ClientRequest::GetPubkey)),
            event matches ClientEvent::HelloReturned(res) ==> (res != 0 ==> final(self).stage is Finished
                && action == ClientAction::Finish(Err(ClientError::UnexpectedHello(res)))),
            event matches ClientEvent::PubkeyReturned(res, key) ==> (res == 33 ==> (final(self).stage
                == ClientStage::AwaitSign(key) && (action matches ClientAction::Issue(
                ClientRequest::SignData(w)) && w@ == old(self).user_data@ + Seq::new(
                96,
                |i: int| 0u8,
            ) + Seq::new(33, |i: int| 0u8)))),
            event matches ClientEvent::PubkeyReturned(res, key) ==> (res != 33 ==> final(self).stage is Finished
                && action == ClientAction::Finish(Err(ClientError::UnexpectedPubkeyLength(res)))),
            old(self).stage matches ClientStage::AwaitSign(key) ==> (event matches ClientEvent::SignReturned(
                res,
                w,
            ) ==> (final(self).stage is Finished && (action matches ClientAction::Finish(out) && (res != 0
                ==> out == Err::<SignDataReq, ClientError>(ClientError::UnexpectedSign(res))) && (res
                == 0 && w@.subrange(224, 257) != key@ ==> out == Err::<SignDataReq, ClientError>(
                ClientError::PubkeyChanged)) && (res == 0 && w@.subrange(224, 257) == key@ ==> (
                out matches Ok(reply) && crate::ioctl::sign_data_req_layout(reply) == w@))))),
    {
        let mut stage = ClientStage::Finished;
        std::mem::swap(&mut stage, &mut self.stage);
        match event {
            ClientEvent::HelloReturned(res) => match check_hello(res) {
                Err(e) => ClientAction::Finish(Err(e)),
                Ok(()) => {
                    self.stage = ClientStage::AwaitPubkey;
                    ClientAction::Issue(ClientRequest::GetPubkey)
                },
            },
            ClientEvent::PubkeyReturned(res, key) => match check_pubkey(res) {
                Err(e) => ClientAction::Finish(Err(e)),
                Ok(()) => {
                    let request = SignDataReq {
                        user_data: self.user_data,
                        hash: [0; 32],
                        sig_r: [0; 32],
                        sig_s: [0; 32],
                        pubkey: [0; 33],
                    };
                    let wire = request.to_bytes();
                    proof {
                        assert(request.hash@ =~= Seq::new(32, |i: int| 0u8));
                        assert(request.sig_r@ =~= Seq::new(32, |i: int| 0u8));
                        assert(request.sig_s@ =~= Seq::new(32, |i: int| 0u8));
                        assert(request.pubkey@ =~= Seq::new(33, |i: int| 0u8));
                        assert(wire@ =~= self.user_data@ + Seq::new(96, |i: int| 0u8) + Seq::new(
                            33,
                            |i: int| 0u8,
                        ));
                    }
                    self.stage = ClientStage::AwaitSign(key);
                    ClientAction::Issue(ClientRequest::SignData(wire))
                },
            },
            ClientEvent::SignReturned(res, wire) => match stage {
                ClientStage::AwaitSign(key) => {
                    let reply = SignDataReq::from_bytes(&wire);
                    proof {
                        let l = crate::ioctl::sign_data_req_layout(reply);
                        assert(reply.pubkey@ =~= l.subrange(224, 257));
                    }
                    match check_sign(res, &reply, &key) {
                        Err(e) => ClientAction::Finish(Err(e)),
                        Ok(()) => ClientAction::Finish(Ok(reply)),
                    }
                },
                _ => {
                    // the stage expects this event, so no other stage is here
                    proof {
                        assert(false);
                    }
                    ClientAction::Finish(Err(ClientError::UnexpectedSign(res)))
                },
            },
        }
    }
}

} // verus!
