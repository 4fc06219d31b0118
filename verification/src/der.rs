//! A minimal DER (ITU-T X.690) encoder writing into a bounded buffer.
//!
//! Every encoding routine appends one complete TLV element to the buffer and
//! is specified by a spec function giving the exact bytes it appends.
use vstd::prelude::*;

verus! {

/// Number of bytes a `DerBuf` can hold.
pub const DER_BUF_CAPACITY: usize = 2048;

/// DER length octets as this encoder writes them: short form below 0x80,
/// long form with one or two length octets up to 0xffff.  Longer lengths
/// are not supported and produce no length octets at all.
pub open spec fn der_length(len: nat) -> Seq<u8> {
    if len <= 0x7f {
        seq![len as u8]
    } else if len <= 0xff {
        seq![0x81u8, len as u8]
    } else if len <= 0xffff {
        seq![0x82u8, (len / 256) as u8, (len % 256) as u8]
    } else {
        Seq::empty()
    }
}

/// The identifier octet for a tag of the given class, form and number.
pub open spec fn identifier(class: u8, constructed: bool, tag: u8) -> u8 {
    ((class << 6u8) | ((if constructed { 1u8 } else { 0u8 }) << 5u8) | tag) as u8
}

/// A string has no more leading zero octets than octets.
pub proof fn lemma_leading_zeros_bound(s: Seq<u8>)
    ensures
        leading_zeros(s) <= s.len(),
    decreases s.len(),
{
    if s.len() > 0 && s[0] == 0 {
        lemma_leading_zeros_bound(s.drop_first());
    }
}

/// The contents of an unsigned INTEGER are at most one octet longer than
/// the digits given.
pub proof fn lemma_unsigned_integer_content_len(s: Seq<u8>)
    ensures
        unsigned_integer_content(s).len() <= s.len() + 1,
{
    lemma_leading_zeros_bound(s);
}

/// A complete tag-length-value element.
pub open spec fn tlv(id: u8, contents: Seq<u8>) -> Seq<u8> {
    seq![id] + der_length(contents.len()) + contents
}

/// Minimal big-endian base-256 digits of `v` (one zero octet for zero).
pub open spec fn be_minimal(v: nat) -> Seq<u8>
    decreases v,
{
    if v < 256 {
        seq![v as u8]
    } else {
        be_minimal(v / 256).push((v % 256) as u8)
    }
}

/// Contents octets of a non-negative INTEGER: minimal big-endian digits,
/// with a leading zero octet when the top bit of the first digit is set.
pub open spec fn integer_content(v: nat) -> Seq<u8> {
    let b = be_minimal(v);
    if b[0] >= 0x80 {
        seq![0u8] + b
    } else {
        b
    }
}

/// Number of zero octets at the start of `s`.
pub open spec fn leading_zeros(s: Seq<u8>) -> nat
    decreases s.len(),
{
    if s.len() == 0 || s[0] != 0 {
        0
    } else {
        1 + leading_zeros(s.drop_first())
    }
}

/// The digits `integer_bytes` keeps: `s` without its leading zero octets,
/// or the whole of `s` when it holds nothing but zero octets.
pub open spec fn unsigned_digits(s: Seq<u8>) -> Seq<u8> {
    if leading_zeros(s) == s.len() {
        s
    } else {
        s.skip(leading_zeros(s) as int)
    }
}

/// Contents octets that `integer_bytes` writes for the big-endian unsigned
/// integer `s`.
pub open spec fn unsigned_integer_content(s: Seq<u8>) -> Seq<u8> {
    let d = unsigned_digits(s);
    if d.len() == 0 || d[0] >= 0x80 {
        seq![0u8] + d
    } else {
        d
    }
}

/// Base-128 octets of a positive value, every octet with its top bit set.
pub open spec fn base128_high(v: nat) -> Seq<u8>
    decreases v,
{
    if v < 128 {
        seq![(v + 128) as u8]
    } else {
        base128_high(v / 128).push((v % 128 + 128) as u8)
    }
}

/// Base-128 encoding of one OID arc: the last octet has its top bit clear,
/// all others have it set.
pub open spec fn base128(v: nat) -> Seq<u8> {
    if v < 128 {
        seq![v as u8]
    } else {
        base128_high(v / 128).push((v % 128) as u8)
    }
}

/// Concatenated base-128 encodings of the given arcs.
pub open spec fn arcs_encoding(arcs: Seq<u32>) -> Seq<u8>
    decreases arcs.len(),
{
    if arcs.len() == 0 {
        Seq::empty()
    } else {
        arcs_encoding(arcs.drop_last()) + base128(arcs.last() as nat)
    }
}

/// Contents octets of an OBJECT IDENTIFIER with at least two arcs: the
/// first two arcs combined as `40 * a0 + a1` (truncated to one octet),
/// then every further arc in base 128.
pub open spec fn oid_content(arcs: Seq<u32>) -> Seq<u8> {
    seq![(arcs[0] * 40 + arcs[1]) as u8] + arcs_encoding(arcs.skip(2))
}

/// Encoding of a complete OBJECT IDENTIFIER element.
pub open spec fn der_oid(arcs: Seq<u32>) -> Seq<u8> {
    tlv(0x06, oid_content(arcs))
}

/// Encoding of a complete non-negative INTEGER element.
pub open spec fn der_integer(v: nat) -> Seq<u8> {
    tlv(0x02, integer_content(v))
}

/// Encoding of a complete INTEGER element holding the unsigned big-endian
/// integer `s`.
pub open spec fn der_unsigned_integer(s: Seq<u8>) -> Seq<u8> {
    tlv(0x02, unsigned_integer_content(s))
}

/// Encoding of a complete BIT STRING element.
pub open spec fn der_bit_string(unused: u8, contents: Seq<u8>) -> Seq<u8> {
    tlv(0x03, seq![unused] + contents)
}

/// Encoding of a complete SEQUENCE element.
pub open spec fn der_sequence(contents: Seq<u8>) -> Seq<u8> {
    tlv(identifier(0, true, 0x10), contents)
}

/// Encoding of a complete SET element.
pub open spec fn der_set(contents: Seq<u8>) -> Seq<u8> {
    tlv(identifier(0, true, 0x11), contents)
}

/// Encoding of a context-specific, constructed, explicitly tagged element.
pub open spec fn der_explicit(tag: u8, contents: Seq<u8>) -> Seq<u8> {
    tlv(identifier(2, true, tag), contents)
}

/// An explicitly tagged element names its tag: for a tag number below 31
/// its identifier octet is `0xa0 + tag` (context-specific, constructed),
/// and what follows is the length and the contents, as for a SEQUENCE of
/// the same contents.
pub proof fn lemma_explicit_tag(tag: u8, contents: Seq<u8>)
    requires
        tag < 31,
    ensures
        der_explicit(tag, contents)[0] == 0xa0 + tag,
        der_explicit(tag, contents).len() == der_sequence(contents).len(),
        der_explicit(tag, contents).subrange(1, der_explicit(tag, contents).len() as int)
            == der_sequence(contents).subrange(1, der_sequence(contents).len() as int),
{
    assert(((2u8 << 6u8) | (1u8 << 5u8) | tag) as u8 == 0xa0 + tag) by (bit_vector)
        requires
            tag < 31,
    ;
    let e = der_explicit(tag, contents);
    let q = der_sequence(contents);
    assert(e.subrange(1, e.len() as int) =~= der_length(contents.len()) + contents);
    assert(q.subrange(1, q.len() as int) =~= der_length(contents.len()) + contents);
}

/// Elements tagged with different tag numbers below 31 differ.
pub proof fn lemma_explicit_tags_differ(t1: u8, t2: u8, contents: Seq<u8>)
    requires
        t1 < 31,
        t2 < 31,
        t1 != t2,
    ensures
        der_explicit(t1, contents) != der_explicit(t2, contents),
{
    lemma_explicit_tag(t1, contents);
    lemma_explicit_tag(t2, contents);
}

/// Encoding of a complete UTF8String element.
pub open spec fn der_utf8_string(s: Seq<u8>) -> Seq<u8> {
    tlv(0x0c, s)
}

/// Encoding of a complete UTCTime element.
pub open spec fn der_utc_time(s: Seq<u8>) -> Seq<u8> {
    tlv(0x17, s)
}

pub proof fn lemma_der_length_len(len: nat)
    ensures
        len <= 0x7f ==> der_length(len).len() == 1,
        0x7f < len <= 0xff ==> der_length(len).len() == 2,
        0xff < len <= 0xffff ==> der_length(len).len() == 3,
        der_length(len).len() <= 3,
{
}

pub proof fn lemma_tlv_len(id: u8, contents: Seq<u8>)
    ensures
        tlv(id, contents).len() == 1 + der_length(contents.len()).len() + contents.len(),
        contents.len() <= 0x7f ==> tlv(id, contents).len() == 2 + contents.len(),
        tlv(id, contents).len() <= 4 + contents.len(),
{
    lemma_der_length_len(contents.len());
}

proof fn lemma_be_minimal_len(v: nat, k: nat)
    requires
        k >= 1,
        v < vstd::arithmetic::power::pow(256, k),
    ensures
        1 <= be_minimal(v).len() <= k,
    decreases v,
{
    if v >= 256 {
        vstd::arithmetic::power::lemma_pow_positive(256, (k - 1) as nat);
        if k == 1 {
            vstd::arithmetic::power::lemma_pow1(256);
        } else {
            assert(vstd::arithmetic::power::pow(256, k) == 256 * vstd::arithmetic::power::pow(
                256,
                (k - 1) as nat,
            )) by {
                vstd::arithmetic::power::lemma_pow_adds(256, 1, (k - 1) as nat);
                vstd::arithmetic::power::lemma_pow1(256);
            }
            vstd::arithmetic::div_mod::lemma_div_by_multiple_is_strongly_ordered(
                v as int,
                vstd::arithmetic::power::pow(256, k) as int,
                vstd::arithmetic::power::pow(256, (k - 1) as nat) as int,
                256,
            );
            vstd::arithmetic::div_mod::lemma_div_by_multiple(
                vstd::arithmetic::power::pow(256, (k - 1) as nat) as int,
                256,
            );
            lemma_be_minimal_len(v / 256, (k - 1) as nat);
        }
    }
}

proof fn lemma_be_minimal_len_u64(v: nat)
    requires
        v <= u64::MAX,
    ensures
        1 <= be_minimal(v).len() <= 8,
{
    assert(vstd::arithmetic::power::pow(256, 8) == 0x1_0000_0000_0000_0000) by {
        reveal_with_fuel(vstd::arithmetic::power::pow, 9);
    }
    lemma_be_minimal_len(v, 8);
}

proof fn lemma_base128_high_len(v: nat)
    requires
        0 < v < 0x1000_0000,
    ensures
        1 <= base128_high(v).len() <= 4,
    decreases v,
{
    if v >= 128 {
        if v / 128 >= 128 {
            if v / 128 / 128 >= 128 {
                assert(v / 128 / 128 / 128 < 128);
            }
        }
        lemma_base128_high_len(v / 128);
        if v / 128 >= 128 {
            lemma_base128_high_len(v / 128 / 128);
            if v / 128 / 128 >= 128 {
                lemma_base128_high_len(v / 128 / 128 / 128);
            }
        }
    }
}

/// A base-128 arc encoding of a 32-bit value takes one to five octets.
pub proof fn lemma_base128_len(v: u32)
    ensures
        1 <= base128(v as nat).len() <= 5,
{
    if v >= 128 {
        lemma_base128_high_len(v as nat / 128);
    }
}

proof fn lemma_leading_zeros(s: Seq<u8>, i: int)
    requires
        0 <= i <= s.len(),
        forall|j: int| 0 <= j < i ==> s[j] == 0,
        i == s.len() || s[i] != 0,
    ensures
        leading_zeros(s) == i,
    decreases i,
{
    if i > 0 {
        let t = s.drop_first();
        assert forall|j: int| 0 <= j < i - 1 implies t[j] == 0 by {
            assert(t[j] == s[j + 1]);
        }
        if i < s.len() {
            assert(t[i - 1] == s[i]);
        }
        lemma_leading_zeros(t, i - 1);
    }
}

/// The first `n` octets of `t` in reverse order.
pub open spec fn rev_prefix(t: Seq<u8>, n: int) -> Seq<u8> {
    Seq::new(n as nat, |k: int| t[n - 1 - k])
}

/// Minimal X.690 length octets for any length below 2^32: short form below
/// 0x80, otherwise 0x80 plus the count of big-endian length octets.
pub open spec fn x690_length(len: nat) -> Seq<u8> {
    if len <= 0x7f {
        seq![len as u8]
    } else if len <= 0xff {
        seq![0x81u8, len as u8]
    } else if len <= 0xffff {
        seq![0x82u8, (len / 256) as u8, (len % 256) as u8]
    } else if len <= 0xff_ffff {
        seq![0x83u8, (len / 0x1_0000) as u8, ((len / 256) % 256) as u8, (len % 256) as u8]
    } else {
        seq![
            0x84u8,
            (len / 0x100_0000) as u8,
            ((len / 0x1_0000) % 256) as u8,
            ((len / 256) % 256) as u8,
            (len % 256) as u8,
        ]
    }
}

/// A complete X.690 DER element with a one-octet identifier.
pub open spec fn x690_tlv(id: u8, contents: Seq<u8>) -> Seq<u8> {
    seq![id] + x690_length(contents.len()) + contents
}

/// Big-endian digits with leading zero octets removed, keeping the last
/// octet.
pub open spec fn uint_digits(s: Seq<u8>) -> Seq<u8>
    decreases s.len(),
{
    if s.len() >= 2 && s[0] == 0 {
        uint_digits(s.drop_first())
    } else {
        s
    }
}

/// X.690 contents octets of the non-negative INTEGER with big-endian
/// digits `s`: the digits without leading zeros, with one zero octet in
/// front when the first remaining digit has its top bit set.
pub open spec fn x690_uint_content(s: Seq<u8>) -> Seq<u8> {
    let d = uint_digits(s);
    if d.len() > 0 && d[0] >= 0x80 {
        seq![0u8] + d
    } else {
        d
    }
}

/// Up to 0xffff this encoder writes the same length octets as X.690.
pub proof fn lemma_x690_length_small(len: nat)
    requires
        len <= 0xffff,
    ensures
        x690_length(len) == der_length(len),
{
}

proof fn lemma_uint_digits_skip(s: Seq<u8>, k: int)
    requires
        0 <= k < s.len(),
        forall|j: int| 0 <= j < k ==> s[j] == 0,
        s[k] != 0,
    ensures
        uint_digits(s) == s.skip(k),
    decreases k,
{
    if k == 0 {
        assert(s.skip(0) =~= s);
    } else {
        let t = s.drop_first();
        assert forall|j: int| 0 <= j < k - 1 implies t[j] == 0 by {
            assert(t[j] == s[j + 1]);
        }
        assert(t[k - 1] == s[k]);
        lemma_uint_digits_skip(t, k - 1);
        assert(t.skip(k - 1) =~= s.skip(k));
    }
}

/// For an integer with at least one non-zero octet, X.690 and this
/// encoder's `integer_bytes` agree on the contents octets.
pub proof fn lemma_uint_content_agrees(s: Seq<u8>, k: int)
    requires
        0 <= k < s.len(),
        s[k] != 0,
    ensures
        x690_uint_content(s) == unsigned_integer_content(s),
{
    let first = choose|f: int| 0 <= f < s.len() && s[f] != 0 && forall|j: int| 0 <= j < f ==> s[j] == 0;
    assert(exists|f: int| 0 <= f < s.len() && s[f] != 0 && forall|j: int| 0 <= j < f ==> s[j] == 0) by {
        lemma_first_nonzero_exists(s, k);
    }
    lemma_uint_digits_skip(s, first);
    lemma_leading_zeros(s, first);
}

proof fn lemma_first_nonzero_exists(s: Seq<u8>, k: int)
    requires
        0 <= k < s.len(),
        s[k] != 0,
    ensures
        exists|f: int| 0 <= f < s.len() && s[f] != 0 && forall|j: int| 0 <= j < f ==> s[j] == 0,
    decreases k,
{
    if forall|j: int| 0 <= j < k ==> s[j] == 0 {
        assert(0 <= k < s.len() && s[k] != 0 && forall|j: int| 0 <= j < k ==> s[j] == 0);
    } else {
        let j = choose|j: int| 0 <= j < k && s[j] != 0;
        lemma_first_nonzero_exists(s, j);
    }
}

/// Reading back the minimal big-endian digits of `v` gives `v`.
pub proof fn lemma_be_minimal_value(v: nat)
    ensures
        crate::bytes::be_value(be_minimal(v)) == v,
        be_minimal(v).len() >= 1,
        be_minimal(v).len() > 1 ==> be_minimal(v)[0] != 0,
    decreases v,
{
    reveal_with_fuel(crate::bytes::be_value, 2);
    if v >= 256 {
        lemma_be_minimal_value(v / 256);
        assert(be_minimal(v).drop_last() =~= be_minimal(v / 256));
        if be_minimal(v / 256).len() == 1 {
            assert(be_minimal(v / 256)[0] == (v / 256) as u8);
        }
    } else {
        assert(seq![v as u8].drop_last() =~= Seq::<u8>::empty());
    }
}

/// The contents octets of a non-negative INTEGER read as a big-endian
/// two's-complement number give the value back: the first octet has its top
/// bit clear, and no octet is redundant.
pub proof fn lemma_integer_content_value(v: nat)
    ensures
        crate::bytes::be_value(integer_content(v)) == v,
        integer_content(v)[0] < 0x80,
        integer_content(v).len() > 1 ==> !(integer_content(v)[0] == 0 && integer_content(v)[1]
            < 0x80),
{
    lemma_be_minimal_value(v);
    let b = be_minimal(v);
    if b[0] >= 0x80 {
        crate::bytes::lemma_be_value_concat(seq![0u8], b);
        reveal_with_fuel(crate::bytes::be_value, 2);
        assert(seq![0u8].drop_last() =~= Seq::<u8>::empty());
        assert(crate::bytes::be_value(seq![0u8]) == 0);
        assert((seq![0u8] + b)[1] == b[0]);
        let p = vstd::arithmetic::power::pow(256, b.len());
        assert(0 * p == 0) by (nonlinear_arith);
        assert(crate::bytes::be_value(seq![0u8] + b) == crate::bytes::be_value(b));
    }
}

/// The length octets this encoder writes for a length up to 0xffff read
/// back to that length: one octet below 0x80, otherwise 0x80 plus the
/// count of big-endian length octets, with no redundant leading zero.
pub proof fn lemma_der_length_value(len: nat)
    requires
        len <= 0xffff,
    ensures
        len <= 0x7f ==> der_length(len) == seq![len as u8],
        len > 0x7f ==> der_length(len)[0] == 0x80 + (der_length(len).len() - 1) && der_length(
            len,
        )[1] != 0 && crate::bytes::be_value(der_length(len).drop_first()) == len,
{
    if len > 0x7f {
        reveal_with_fuel(crate::bytes::be_value, 3);
        let t = der_length(len).drop_first();
        if len <= 0xff {
            assert(t =~= seq![len as u8]);
            assert(t.drop_last() =~= Seq::<u8>::empty());
        } else {
            assert(t =~= seq![(len / 256) as u8, (len % 256) as u8]);
            assert(t.drop_last() =~= seq![(len / 256) as u8]);
            assert(t.drop_last().drop_last() =~= Seq::<u8>::empty());
        }
    }
}

/// A buffer into which DER elements are appended.
pub struct DerBuf {
    buf: Vec<u8>,
}

impl View for DerBuf {
    type V = Seq<u8>;

    closed spec fn view(&self) -> Seq<u8> {
        self.buf@
    }
}

impl DerBuf {
    /// An empty buffer.
    pub fn new() -> (r: DerBuf)
        ensures
            r@ == Seq::<u8>::empty(),
    {
        DerBuf { buf: Vec::new() }
    }

    /// The bytes written so far.
    pub fn as_slice(&self) -> (r: &[u8])
        ensures
            r@ == self@,
    {
        self.buf.as_slice()
    }

    /// The bytes written, taking the buffer apart.
    pub fn into_bytes(self) -> (r: Vec<u8>)
        ensures
            r@ == self@,
    {
        self.buf
    }

    /// Number of bytes written so far.
    pub fn pos(&self) -> (r: usize)
        ensures
            r == self@.len(),
    {
        self.buf.len()
    }

    /// Append one byte.
    pub fn push(&mut self, b: u8)
        requires
            old(self)@.len() < DER_BUF_CAPACITY,
        ensures
            final(self)@ == old(self)@.push(b),
    {
        self.buf.push(b);
    }

    /// Append raw bytes.
    pub fn extend(&mut self, data: &[u8])
        requires
            old(self)@.len() + data@.len() <= DER_BUF_CAPACITY,
        ensures
            final(self)@ == old(self)@ + data@,
    {
        let ghost start = self@;
        let mut i: usize = 0;
        while i < data.len()
            invariant
                i <= data@.len(),
                self@ == start + data@.subrange(0, i as int),
                start.len() + data@.len() <= DER_BUF_CAPACITY,
            decreases data@.len() - i,
        {
            self.push(data[i]);
            assert(data@.subrange(0, i + 1) == data@.subrange(0, i as int).push(data@[i as int]));
            i = i + 1;
        }
        assert(data@.subrange(0, data@.len() as int) == data@);
    }

    /// Append the length octets for a contents of `len` bytes.
    pub fn encode_length(&mut self, len: usize)
        requires
            old(self)@.len() + der_length(len as nat).len() <= DER_BUF_CAPACITY,
        ensures
            final(self)@ == old(self)@ + der_length(len as nat),
    {
        if len <= 0x7f {
            self.push(len as u8);
        } else if len <= 0xff {
            self.push(0x81);
            self.push(len as u8);
        } else if len <= 0xffff {
            self.push(0x82);
            self.push((len / 256) as u8);
            self.push((len % 256) as u8);
        }
    }

    /// Append a complete element with the given class, form, tag number
    /// and contents.
    pub fn tag(&mut self, class: u8, constructed: bool, tag: u8, contents: &[u8])
        requires
            old(self)@.len() + tlv(identifier(class, constructed, tag), contents@).len()
                <= DER_BUF_CAPACITY,
        ensures
            final(self)@ == old(self)@ + tlv(identifier(class, constructed, tag), contents@),
    {
        let form: u8 = if constructed {
            1
        } else {
            0
        };
        let id: u8 = (class << 6u8) | (form << 5u8) | tag;
        proof {
            lemma_tlv_len(id, contents@);
        }
        self.push(id);
        self.encode_length(contents.len());
        self.extend(contents);
    }

    /// Append a SEQUENCE with the given contents.
    pub fn sequence(&mut self, contents: &[u8])
        requires
            old(self)@.len() + der_sequence(contents@).len() <= DER_BUF_CAPACITY,
        ensures
            final(self)@ == old(self)@ + der_sequence(contents@),
    {
        self.tag(0, true, 0x10, contents);
    }

    /// Append a SET with the given contents.
    pub fn set(&mut self, contents: &[u8])
        requires
            old(self)@.len() + der_set(contents@).len() <= DER_BUF_CAPACITY,
        ensures
            final(self)@ == old(self)@ + der_set(contents@),
    {
        self.tag(0, true, 0x11, contents);
    }

    /// Append a context-specific explicitly tagged element.
    pub fn tagged_explicit(&mut self, tag: u8, contents: &[u8])
        requires
            old(self)@.len() + der_explicit(tag, contents@).len() <= DER_BUF_CAPACITY,
        ensures
            final(self)@ == old(self)@ + der_explicit(tag, contents@),
    {
        self.tag(2, true, tag, contents);
    }

    /// Append a BIT STRING with the given count of unused bits.
    pub fn bit_string(&mut self, unused: u8, contents: &[u8])
        requires
            old(self)@.len() + der_bit_string(unused, contents@).len() <= DER_BUF_CAPACITY,
            contents@.len() < usize::MAX,
        ensures
            final(self)@ == old(self)@ + der_bit_string(unused, contents@),
    {
        proof {
            lemma_tlv_len(0x03, seq![unused] + contents@);
        }
        self.push(0x03);
        self.encode_length(1 + contents.len());
        self.push(unused);
        self.extend(contents);
    }

    /// Append a non-negative INTEGER.
    pub fn integer(&mut self, val: i64)
        requires
            val >= 0,
            old(self)@.len() + der_integer(val as nat).len() <= DER_BUF_CAPACITY,
        ensures
            final(self)@ == old(self)@ + der_integer(val as nat),
    {
        let ghost start = self@;
        if val == 0 {
            self.push(0x02);
            self.push(0x01);
            self.push(0x00);
            assert(self@ == start + der_integer(0));
            return;
        }
        proof {
            lemma_be_minimal_len_u64(val as nat);
        }
        let mut tmp: [u8; 9] = [0u8; 9];
        let mut n: usize = 0;
        let mut v: i64 = val;
        while v != 0
            invariant
                0 <= v <= val,
                n <= 8,
                tmp@.len() == 9,
                v > 0 ==> be_minimal(val as nat) == be_minimal(v as nat) + tmp@.subrange(
                    9 - n,
                    9,
                ),
                v > 0 ==> n + be_minimal(v as nat).len() <= 8,
                v == 0 ==> n >= 1 && be_minimal(val as nat) == tmp@.subrange(9 - n, 9),
            decreases v,
        {
            let ghost old_tmp = tmp@;
            let b = (v % 256) as u8;
            tmp[8 - n] = b;
            assert(tmp@.subrange(9 - (n + 1), 9) == seq![b] + old_tmp.subrange(9 - n, 9));
            if v >= 256 {
                assert(be_minimal(v as nat) == be_minimal(v as nat / 256).push(b));
                assert(be_minimal(v as nat / 256) + (seq![b] + old_tmp.subrange(9 - n, 9))
                    == be_minimal(v as nat / 256).push(b) + old_tmp.subrange(9 - n, 9));
            } else {
                assert(be_minimal(v as nat) == seq![b]);
            }
            v = v / 256;
            n = n + 1;
        }
        let bytes = &tmp[9 - n..9];
        assert(bytes@ == be_minimal(val as nat));
        let b0 = bytes[0];
        assert((b0 & 0x80u8 != 0) == (b0 >= 0x80u8)) by (bit_vector);
        let extra: usize = if bytes[0] & 0x80 != 0 {
            1
        } else {
            0
        };
        proof {
            lemma_tlv_len(0x02, integer_content(val as nat));
        }
        self.push(0x02);
        self.encode_length(bytes.len() + extra);
        if extra > 0 {
            self.push(0x00);
        }
        self.extend(bytes);
        proof {
            if extra > 0 {
                assert(self@ == start + seq![0x02u8] + der_length(
                    integer_content(val as nat).len(),
                ) + seq![0u8] + bytes@);
            }
            assert(self@ == start + der_integer(val as nat));
        }
    }

    /// Append an INTEGER holding the unsigned big-endian integer `val`.
    pub fn integer_bytes(&mut self, val: &[u8])
        requires
            val@.len() < usize::MAX,
            old(self)@.len() + der_unsigned_integer(val@).len() <= DER_BUF_CAPACITY,
        ensures
            final(self)@ == old(self)@ + der_unsigned_integer(val@),
    {
        let ghost start = self@;
        let mut i: usize = 0;
        while i < val.len() && val[i] == 0
            invariant
                i <= val@.len(),
                forall|j: int| 0 <= j < i ==> val@[j] == 0,
            decreases val@.len() - i,
        {
            i = i + 1;
        }
        proof {
            lemma_leading_zeros(val@, i as int);
        }
        let first_nonzero = if i == val.len() {
            0
        } else {
            i
        };
        let data = &val[first_nonzero..val.len()];
        assert(data@ == unsigned_digits(val@));
        proof {
            lemma_tlv_len(0x02, unsigned_integer_content(val@));
        }
        self.push(0x02);
        if data.len() == 0 || data[0] & 0x80 != 0 {
            proof {
                if data@.len() > 0 {
                    let d0 = data@[0];
                    assert((d0 & 0x80u8 != 0) ==> d0 >= 0x80u8) by (bit_vector);
                }
            }
            self.encode_length(data.len() + 1);
            self.push(0x00);
            self.extend(data);
            assert(self@ == start + der_unsigned_integer(val@));
        } else {
            let d0 = data[0];
            assert((d0 & 0x80u8 == 0) ==> d0 < 0x80u8) by (bit_vector);
            self.encode_length(data.len());
            self.extend(data);
            assert(self@ == start + der_unsigned_integer(val@));
        }
    }

    /// Append an OBJECT IDENTIFIER with the given arcs.
    pub fn oid(&mut self, oid: &[u32])
        requires
            oid@.len() >= 2,
            oid@[0] * 40 + oid@[1] <= u32::MAX,
            oid_content(oid@).len() <= 64,
            old(self)@.len() + der_oid(oid@).len() <= DER_BUF_CAPACITY,
        ensures
            final(self)@ == old(self)@ + der_oid(oid@),
    {
        let ghost start = self@;
        let mut enc: Vec<u8> = Vec::new();
        let first = (oid[0] * 40 + oid[1]) as u8;
        enc.push(first);
        let mut i: usize = 2;
        assert(oid@.subrange(2, 2) == Seq::<u32>::empty());
        while i < oid.len()
            invariant
                2 <= i <= oid@.len(),
                first == (oid@[0] * 40 + oid@[1]) as u8,
                enc@ == seq![first] + arcs_encoding(oid@.subrange(2, i as int)),
            decreases oid@.len() - i,
        {
            let ghost before = enc@;
            let val = oid[i];
            if val < 128 {
                enc.push(val as u8);
            } else {
                proof {
                    lemma_base128_len(val);
                }
                let mut v: u32 = val / 128;
                let mut tmp: [u8; 5] = [0u8; 5];
                tmp[0] = (val % 128) as u8;
                let mut tn: usize = 1;
                assert(rev_prefix(tmp@, 1) == seq![(val % 128) as u8]);
                while v > 0
                    invariant
                        1 <= tn <= 5,
                        tmp@.len() == 5,
                        v > 0 ==> base128(val as nat) == base128_high(v as nat) + rev_prefix(
                            tmp@,
                            tn as int,
                        ),
                        v > 0 ==> tn + base128_high(v as nat).len() <= 5,
                        v == 0 ==> base128(val as nat) == rev_prefix(tmp@, tn as int),
                    decreases v,
                {
                    let ghost old_tmp = tmp@;
                    let b = (v % 128 + 128) as u8;
                    tmp[tn] = b;
                    assert(rev_prefix(tmp@, tn + 1) == seq![b] + rev_prefix(old_tmp, tn as int));
                    if v >= 128 {
                        assert(base128_high(v as nat) == base128_high(v as nat / 128).push(b));
                        assert(base128_high(v as nat / 128) + (seq![b] + rev_prefix(
                            old_tmp,
                            tn as int,
                        )) == base128_high(v as nat / 128).push(b) + rev_prefix(
                            old_tmp,
                            tn as int,
                        ));
                    }
                    v = v / 128;
                    tn = tn + 1;
                }
                let mut j: usize = tn;
                while j > 0
                    invariant
                        j <= tn <= 5,
                        tmp@.len() == 5,
                        enc@ == before + rev_prefix(tmp@, tn as int).subrange(0, tn - j),
                    decreases j,
                {
                    j = j - 1;
                    enc.push(tmp[j]);
                    assert(rev_prefix(tmp@, tn as int).subrange(0, tn - j) == rev_prefix(
                        tmp@,
                        tn as int,
                    ).subrange(0, tn - j - 1).push(tmp@[j as int]));
                }
                assert(rev_prefix(tmp@, tn as int).subrange(0, tn as int) == rev_prefix(
                    tmp@,
                    tn as int,
                ));
            }
            assert(oid@.subrange(2, i + 1).drop_last() == oid@.subrange(2, i as int));
            i = i + 1;
        }
        assert(oid@.subrange(2, oid@.len() as int) == oid@.skip(2));
        proof {
            lemma_tlv_len(0x06, enc@);
        }
        self.push(0x06);
        self.encode_length(enc.len());
        self.extend(enc.as_slice());
    }

    /// Append a UTF8String.
    pub fn utf8_string(&mut self, s: &[u8])
        requires
            old(self)@.len() + der_utf8_string(s@).len() <= DER_BUF_CAPACITY,
        ensures
            final(self)@ == old(self)@ + der_utf8_string(s@),
    {
        proof {
            lemma_tlv_len(0x0c, s@);
        }
        self.push(0x0c);
        self.encode_length(s.len());
        self.extend(s);
    }

    /// Append a UTCTime.
    pub fn utctime(&mut self, s: &[u8])
        requires
            old(self)@.len() + der_utc_time(s@).len() <= DER_BUF_CAPACITY,
        ensures
            final(self)@ == old(self)@ + der_utc_time(s@),
    {
        proof {
            lemma_tlv_len(0x17, s@);
        }
        self.push(0x17);
        self.encode_length(s.len());
        self.extend(s);
    }
}

} // verus!
