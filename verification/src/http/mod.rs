//! HTTP layer: object keys, percent-encoding, request building and
//! response handling.

pub mod request;
pub mod response;
pub mod retry;

use vstd::prelude::*;
use vstd::std_specs::cmp::PartialEqSpec;
use vstd::utf8::{encode_scalar, encode_utf8};

use crate::text::concat2;

verus! {

/// The upper-case hexadecimal digit for a value below 16.
pub open spec fn hex_upper(d: nat) -> char {
    if d < 10 {
        crate::text::digit_char(d)
    } else if d == 10 {
        'A'
    } else if d == 11 {
        'B'
    } else if d == 12 {
        'C'
    } else if d == 13 {
        'D'
    } else if d == 14 {
        'E'
    } else {
        'F'
    }
}

/// `%XX`: a byte percent-encoded with upper-case hex digits.
pub open spec fn percent_triplet(b: u8) -> Seq<char> {
    seq!['%', hex_upper(b as nat / 16), hex_upper(b as nat % 16)]
}

/// `percent_encoding::percent_encode_byte` renders a byte as `%` followed by
/// its two upper-case hexadecimal digits.
#[verifier::external_body]
fn percent_encode_byte(byte: u8) -> (s: &'static str)
    ensures
        s@ == percent_triplet(byte),
{
    percent_encoding::percent_encode_byte(byte)
}

/// ASCII letters and digits.
pub open spec fn is_ascii_alphanumeric(b: u8) -> bool {
    (0x30 <= b <= 0x39) || (0x41 <= b <= 0x5a) || (0x61 <= b <= 0x7a)
}

/// Which bytes a percent-encoding keeps as they are.
#[derive(Debug, Clone, Copy, PartialEq, Eq, Structural)]
pub enum EncodeSet {
    /// Object keys in URI paths: RFC 3986 unreserved characters
    /// (`A-Z a-z 0-9 - . _ ~`) and the key separator `/` are kept.
    KeyPath,
    /// Query-string components: only ASCII letters and digits are kept.
    Component,
}

/// Whether `set` keeps byte `b` unencoded. Every non-ASCII byte is encoded.
pub open spec fn keeps(set: EncodeSet, b: u8) -> bool {
    match set {
        EncodeSet::KeyPath => is_ascii_alphanumeric(b) || b == 0x2d || b == 0x2e || b == 0x5f
            || b == 0x7e || b == 0x2f,
        EncodeSet::Component => is_ascii_alphanumeric(b),
    }
}

/// The percent-encoding of a byte string under `set`.
pub open spec fn percent_encode_bytes(bytes: Seq<u8>, set: EncodeSet) -> Seq<char>
    decreases bytes.len(),
{
    if bytes.len() == 0 {
        Seq::empty()
    } else {
        percent_encode_bytes(bytes.drop_last(), set) + if keeps(set, bytes.last()) {
            seq![bytes.last() as char]
        } else {
            percent_triplet(bytes.last())
        }
    }
}

/// The percent-encoding of the UTF-8 bytes of a string under `set`.
pub open spec fn percent_encode(s: Seq<char>, set: EncodeSet) -> Seq<char> {
    percent_encode_bytes(encode_utf8(s), set)
}

fn keeps_byte(set: EncodeSet, b: u8) -> (r: bool)
    ensures
        r == keeps(set, b),
{
    let alnum = (0x30 <= b && b <= 0x39) || (0x41 <= b && b <= 0x5a) || (0x61 <= b && b <= 0x7a);
    match set {
        EncodeSet::KeyPath => alnum || b == 0x2d || b == 0x2e || b == 0x5f || b == 0x7e || b
            == 0x2f,
        EncodeSet::Component => alnum,
    }
}

/// Percent-encode the UTF-8 bytes of `input`, keeping the bytes `set` keeps.
pub fn utf8_percent_encode(input: &str, set: EncodeSet) -> (out: String)
    ensures
        out@ == percent_encode(input@, set),
{
    let bytes = input.as_bytes();
    let mut out = String::new();
    let mut i: usize = 0;
    while i < bytes.len()
        invariant
            bytes@ == encode_utf8(input@),
            i <= bytes.len(),
            out@ == percent_encode_bytes(bytes@.take(i as int), set),
        decreases bytes.len() - i,
    {
        let b = bytes[i];
        proof {
            assert(bytes@.take(i + 1).drop_last() =~= bytes@.take(i as int));
        }
        if keeps_byte(set, b) {
            out.push(b as char);
        } else {
            out.append(percent_encode_byte(b));
        }
        i = i + 1;
    }
    proof {
        assert(bytes@.take(bytes.len() as int) =~= bytes@);
    }
    out
}

/// The value of an upper-case hexadecimal digit.
pub open spec fn hex_value(c: char) -> Option<nat> {
    if '0' <= c <= '9' {
        Some((c as nat - '0' as nat) as nat)
    } else if 'A' <= c <= 'F' {
        Some((c as nat - 'A' as nat + 10) as nat)
    } else {
        None
    }
}

/// Percent-decoding: `%` followed by two hexadecimal digits is the byte
/// they spell; any other character stands for itself.
pub open spec fn percent_decode(cs: Seq<char>) -> Seq<u8>
    decreases cs.len(),
{
    if cs.len() == 0 {
        Seq::empty()
    } else if cs[0] == '%' && cs.len() >= 3 && hex_value(cs[1]) is Some && hex_value(cs[2]) is Some {
        seq![(hex_value(cs[1]).unwrap() * 16 + hex_value(cs[2]).unwrap()) as u8] + percent_decode(
            cs.subrange(3, cs.len() as int),
        )
    } else {
        seq![cs[0] as u8] + percent_decode(cs.drop_first())
    }
}

/// The encoding of one byte under `set`.
pub open spec fn encode_piece(b: u8, set: EncodeSet) -> Seq<char> {
    if keeps(set, b) {
        seq![b as char]
    } else {
        percent_triplet(b)
    }
}

proof fn lemma_hex_roundtrip(d: nat)
    requires
        d < 16,
    ensures
        hex_value(hex_upper(d)) == Some(d),
{
}

proof fn lemma_encode_front(b: Seq<u8>, set: EncodeSet)
    requires
        b.len() > 0,
    ensures
        percent_encode_bytes(b, set) == encode_piece(b[0], set) + percent_encode_bytes(
            b.drop_first(),
            set,
        ),
    decreases b.len(),
{
    if b.len() == 1 {
        assert(b.drop_last() =~= Seq::<u8>::empty());
        assert(b.drop_first() =~= Seq::<u8>::empty());
        assert(b.last() == b[0]);
        assert(percent_encode_bytes(b.drop_last(), set) =~= Seq::<char>::empty());
        assert(percent_encode_bytes(b, set) =~= encode_piece(b[0], set));
    } else {
        lemma_encode_front(b.drop_last(), set);
        assert(b.drop_last().drop_first() =~= b.drop_first().drop_last());
        assert(b.drop_first().last() == b.last());
        assert(percent_encode_bytes(b, set) =~= encode_piece(b[0], set) + percent_encode_bytes(
            b.drop_first(),
            set,
        ));
    }
}

proof fn lemma_decode_piece(b: u8, set: EncodeSet, rest: Seq<char>)
    ensures
        percent_decode(encode_piece(b, set) + rest) == seq![b] + percent_decode(rest),
{
    let p = encode_piece(b, set);
    let cs = p + rest;
    if keeps(set, b) {
        assert(cs[0] == b as char);
        assert(cs[0] != '%');
        assert(cs.drop_first() =~= rest);
        assert((b as char) as u8 == b);
    } else {
        lemma_hex_roundtrip(b as nat / 16);
        lemma_hex_roundtrip(b as nat % 16);
        assert(cs[0] == '%');
        assert(cs[1] == hex_upper(b as nat / 16));
        assert(cs[2] == hex_upper(b as nat % 16));
        assert(cs.subrange(3, cs.len() as int) =~= rest);
        assert((b as nat / 16) * 16 + b as nat % 16 == b);
    }
}

/// Percent-decoding undoes percent-encoding, whichever bytes `set` keeps:
/// the encoding of a byte string decodes back to it.
pub proof fn lemma_percent_decode_encode(b: Seq<u8>, set: EncodeSet)
    ensures
        percent_decode(percent_encode_bytes(b, set)) == b,
    decreases b.len(),
{
    if b.len() == 0 {
        assert(percent_encode_bytes(b, set) =~= Seq::<char>::empty());
        assert(b =~= Seq::<u8>::empty());
    } else {
        lemma_encode_front(b, set);
        lemma_decode_piece(b[0], set, percent_encode_bytes(b.drop_first(), set));
        lemma_percent_decode_encode(b.drop_first(), set);
        assert(b =~= seq![b[0]] + b.drop_first());
    }
}

/// Distinct keys never share an encoded form: percent-encoding a string
/// loses nothing.
pub proof fn lemma_percent_encode_injective(s1: Seq<char>, s2: Seq<char>, set: EncodeSet)
    requires
        percent_encode(s1, set) == percent_encode(s2, set),
    ensures
        s1 == s2,
{
    lemma_percent_decode_encode(encode_utf8(s1), set);
    lemma_percent_decode_encode(encode_utf8(s2), set);
    vstd::utf8::encode_utf8_decode_utf8(s1);
    vstd::utf8::encode_utf8_decode_utf8(s2);
}

proof fn lemma_encode_bytes_concat(a: Seq<u8>, b: Seq<u8>, set: EncodeSet)
    ensures
        percent_encode_bytes(a + b, set) == percent_encode_bytes(a, set) + percent_encode_bytes(
            b,
            set,
        ),
    decreases b.len(),
{
    if b.len() == 0 {
        assert(a + b =~= a);
        assert(percent_encode_bytes(a, set) + percent_encode_bytes(b, set) =~= percent_encode_bytes(a, set));
    } else {
        lemma_encode_bytes_concat(a, b.drop_last(), set);
        assert((a + b).drop_last() =~= a + b.drop_last());
        assert((a + b).last() == b.last());
        assert(percent_encode_bytes(a + b, set) =~= percent_encode_bytes(a, set)
            + percent_encode_bytes(b, set));
    }
}

/// The bytes each encoding keeps as they are: for object keys exactly
/// `A-Z a-z 0-9 - . _ ~ /`, for query components exactly `A-Z a-z 0-9`.
/// Every other byte (`:`, `%`, space and all non-ASCII bytes among them)
/// becomes `%` and its two upper-case hexadecimal digits.
pub proof fn lemma_encoded_bytes(b: u8)
    ensures
        keeps(EncodeSet::KeyPath, b) <==> ((0x41 <= b <= 0x5a) || (0x61 <= b <= 0x7a) || (0x30 <= b
            <= 0x39) || b == 0x2d || b == 0x2e || b == 0x5f || b == 0x7e || b == 0x2f),
        keeps(EncodeSet::Component, b) <==> ((0x41 <= b <= 0x5a) || (0x61 <= b <= 0x7a) || (0x30
            <= b <= 0x39)),
        percent_encode_bytes(seq![b], EncodeSet::KeyPath) == if (0x41 <= b <= 0x5a) || (0x61 <= b
            <= 0x7a) || (0x30 <= b <= 0x39) || b == 0x2d || b == 0x2e || b == 0x5f || b == 0x7e
            || b == 0x2f {
            seq![b as char]
        } else {
            seq!['%', hex_upper(b as nat / 16), hex_upper(b as nat % 16)]
        },
        percent_encode_bytes(seq![b], EncodeSet::Component) == if (0x41 <= b <= 0x5a) || (0x61
            <= b <= 0x7a) || (0x30 <= b <= 0x39) {
            seq![b as char]
        } else {
            seq!['%', hex_upper(b as nat / 16), hex_upper(b as nat % 16)]
        },
        percent_encode_bytes(seq![0x3au8], EncodeSet::KeyPath) == seq!['%', '3', 'A'],
{
    assert(seq![b].drop_last() =~= Seq::<u8>::empty());
    assert(seq![b].last() == b);
    assert(seq![0x3au8].drop_last() =~= Seq::<u8>::empty());
    assert(seq![0x3au8].last() == 0x3au8);
    assert(percent_encode_bytes(seq![b].drop_last(), EncodeSet::KeyPath) =~= Seq::<char>::empty());
    assert(percent_encode_bytes(seq![b].drop_last(), EncodeSet::Component) =~= Seq::<char>::empty());
    assert(percent_encode_bytes(seq![0x3au8].drop_last(), EncodeSet::KeyPath) =~= Seq::<char>::empty());
    assert(percent_encode_bytes(seq![b], EncodeSet::KeyPath) =~= encode_piece(b, EncodeSet::KeyPath));
    assert(percent_encode_bytes(seq![b], EncodeSet::Component) =~= encode_piece(b, EncodeSet::Component));
    assert(percent_encode_bytes(seq![0x3au8], EncodeSet::KeyPath) =~= seq!['%', '3', 'A']);
}

/// Every byte is one that `set` keeps.
pub open spec fn all_kept(b: Seq<u8>, set: EncodeSet) -> bool {
    forall|i: int| 0 <= i < b.len() ==> keeps(set, #[trigger] b[i])
}

proof fn lemma_encode_bytes_len(b: Seq<u8>, set: EncodeSet)
    ensures
        percent_encode_bytes(b, set).len() >= b.len(),
        percent_encode_bytes(b, set).len() == b.len() <==> all_kept(b, set),
    decreases b.len(),
{
    if b.len() > 0 {
        lemma_encode_bytes_len(b.drop_last(), set);
        if all_kept(b.drop_last(), set) && keeps(set, b.last()) {
            assert forall|i: int| 0 <= i < b.len() implies keeps(set, #[trigger] b[i]) by {
                if i < b.len() - 1 {
                    assert(b[i] == b.drop_last()[i]);
                }
            }
        }
        if all_kept(b, set) {
            assert(keeps(set, b[b.len() - 1]));
            assert forall|i: int| 0 <= i < b.len() - 1 implies keeps(set, #[trigger] b.drop_last()[i]) by {
                assert(b.drop_last()[i] == b[i]);
            }
        }
    }
}

/// The UTF-8 encoding of one character: the byte itself below `0x80`, else
/// at least two bytes, the first at least `0x80`.
proof fn lemma_encode_scalar_shape(c: char)
    ensures
        (c as u32) < 0x80 ==> encode_scalar(c as u32) == seq![c as u8],
        (c as u32) >= 0x80 ==> encode_scalar(c as u32).len() >= 2 && encode_scalar(c as u32)[0] >= 0x80,
{
    let v = c as u32;
    vstd::utf8::char_is_scalar(c);
    if v < 0x80 {
        assert((v & 0x7F) as u8 == v as u8) by (bit_vector)
            requires
                v < 0x80,
        ;
        assert(encode_scalar(v) =~= seq![c as u8]);
    } else if v <= 0x7FF {
        assert(0xC0 | ((v >> 6) & 0x1F) as u8 >= 0x80) by (bit_vector);
    } else if v <= 0xFFFF {
        assert(0xE0 | ((v >> 12) & 0x0F) as u8 >= 0x80) by (bit_vector);
    } else {
        assert(0xF0 | ((v >> 18) & 0x7) as u8 >= 0x80) by (bit_vector);
    }
}

/// The encoding of a string is never shorter than the string, and it is
/// the string itself exactly when every byte of its UTF-8 encoding is one
/// that `set` keeps: an object key's encoded form equals the key exactly
/// when the key holds nothing but unreserved characters and `/`.
pub proof fn lemma_percent_encode_identity(s: Seq<char>, set: EncodeSet)
    ensures
        percent_encode(s, set).len() >= s.len(),
        percent_encode(s, set) == s <==> all_kept(encode_utf8(s), set),
    decreases s.len(),
{
    if s.len() > 0 {
        let c = s[0];
        let r = s.drop_first();
        let ec = encode_scalar(c as u32);
        lemma_percent_encode_identity(r, set);
        assert(encode_utf8(s) == ec + encode_utf8(r));
        lemma_encode_bytes_concat(ec, encode_utf8(r), set);
        lemma_encode_bytes_len(ec, set);
        lemma_encode_scalar_shape(c);
        let pc = percent_encode_bytes(ec, set);
        assert(percent_encode(s, set) == pc + percent_encode(r, set));
        if all_kept(encode_utf8(s), set) {
            assert forall|i: int| 0 <= i < ec.len() implies keeps(set, #[trigger] ec[i]) by {
                assert(ec[i] == encode_utf8(s)[i]);
            }
            assert forall|i: int| 0 <= i < encode_utf8(r).len() implies keeps(set, #[trigger] encode_utf8(r)[i]) by {
                assert(encode_utf8(r)[i] == encode_utf8(s)[i + ec.len()]);
            }
        }
        if (c as u32) < 0x80 {
            assert(ec =~= seq![c as u8]);
            if keeps(set, c as u8) {
                assert(ec.drop_last() =~= Seq::<u8>::empty());
                assert(pc =~= seq![(c as u8) as char]);
                let v = c as u32;
                vstd::utf8::char_u32_cast(c, v);
                assert(c as u8 == v as u8);
                assert((v as u8) as u32 == v);
                assert((c as u8) as char == v as char);
                assert(percent_encode(s, set) =~= seq![c] + percent_encode(r, set));
                if percent_encode(s, set) == s {
                    assert(percent_encode(r, set) =~= percent_encode(s, set).drop_first());
                    assert(r =~= s.drop_first());
                    assert(percent_encode(r, set) == r);
                }
                if percent_encode(r, set) == r {
                    assert(percent_encode(s, set) =~= s);
                }
                if all_kept(encode_utf8(r), set) {
                    assert forall|i: int| 0 <= i < encode_utf8(s).len() implies keeps(set, #[trigger] encode_utf8(s)[i]) by {
                        if i > 0 {
                            assert(encode_utf8(s)[i] == encode_utf8(r)[i - 1]);
                        } else {
                            assert(encode_utf8(s)[0] == ec[0]);
                        }
                    }
                }
                assert((percent_encode(s, set) == s) == all_kept(encode_utf8(s), set));
            } else {
                assert(encode_utf8(s)[0] == ec[0]);
                assert(!keeps(set, encode_utf8(s)[0]));
                assert(pc.len() == 3) by {
                    assert(ec.drop_last() =~= Seq::<u8>::empty());
                    assert(ec.last() == c as u8);
                    assert(percent_encode_bytes(ec.drop_last(), set).len() == 0);
                    assert(percent_triplet(c as u8).len() == 3);
                }
            }
        } else {
            assert(encode_utf8(s)[0] == ec[0]);
            assert(!keeps(set, encode_utf8(s)[0]));
            assert(!all_kept(ec, set)) by {
                assert(!keeps(set, ec[0]));
            }
            assert(percent_encode(s, set).len() > s.len());
        }
        if !((c as u32) < 0x80 && keeps(set, c as u8)) {
            assert(percent_encode(s, set).len() > s.len());
            assert(!all_kept(encode_utf8(s), set));
        }
    } else {
        assert(encode_utf8(s) =~= Seq::<u8>::empty());
        assert(percent_encode(s, set) =~= s);
    }
}

/// A percent-encoded S3 object key.
///
/// Stores the raw key (for display / result reporting) and its
/// percent-encoded form (for URI construction). Encoding is performed once,
/// at construction.
#[derive(Debug, Eq)]
pub struct ObjectKey {
    /// The percent-encoded key for use in URI paths.
    encoded: String,
    /// The key as given, unencoded.
    raw: String,
}

impl ObjectKey {
    /// The encoded form is always the encoding of the raw key.
    #[verifier::type_invariant]
    spec fn well_formed(self) -> bool {
        self.encoded@ == percent_encode(self.raw@, EncodeSet::KeyPath)
    }

    /// The raw, unencoded key.
    pub closed spec fn spec_raw(&self) -> Seq<char> {
        self.raw@
    }

    /// The percent-encoded form, safe for use in URI paths.
    pub fn encoded(&self) -> (s: &str)
        ensures
            s@ == percent_encode(self.spec_raw(), EncodeSet::KeyPath),
    {
        proof {
            use_type_invariant(self);
        }
        self.encoded.as_str()
    }

    /// Create a new object key, eagerly percent-encoding it.
    pub fn new(key: &str) -> (k: Self)
        ensures
            k.spec_raw() == key@,
    {
        let encoded = utf8_percent_encode(key, EncodeSet::KeyPath);
        ObjectKey { encoded, raw: key.to_owned() }
    }

    /// The raw, unencoded key.
    pub fn raw(&self) -> (s: &str)
        ensures
            s@ == self.spec_raw(),
    {
        self.raw.as_str()
    }

    /// The key as it is displayed: the raw key.
    pub fn to_string(&self) -> (s: String)
        ensures
            s@ == self.spec_raw(),
    {
        self.raw.clone()
    }
}

impl Clone for ObjectKey {
    fn clone(&self) -> (k: Self)
        ensures
            k.spec_raw() == self.spec_raw(),
    {
        proof {
            use_type_invariant(self);
        }
        ObjectKey { encoded: self.encoded.clone(), raw: self.raw.clone() }
    }
}

impl From<String> for ObjectKey {
    fn from(s: String) -> (k: Self)
        ensures
            k.spec_raw() == s@,
    {
        Self::new(s.as_str())
    }
}

impl<'a> From<&'a str> for ObjectKey {
    fn from(s: &'a str) -> (k: Self)
        ensures
            k.spec_raw() == s@,
    {
        Self::new(s)
    }
}

/// Two keys are equal when their texts are (their encoded forms, which the
/// texts determine, are then equal too).
impl PartialEq for ObjectKey {
    fn eq(&self, other: &Self) -> (r: bool) {
        self.raw == other.raw
    }
}

impl vstd::std_specs::cmp::PartialEqSpecImpl for ObjectKey {
    open spec fn obeys_eq_spec() -> bool {
        true
    }

    open spec fn eq_spec(&self, other: &ObjectKey) -> bool {
        self.spec_raw() == other.spec_raw()
    }
}

/// Key equality is text equality, and it is also equality of the encoded
/// forms: two keys are equal exactly when the texts they were made from
/// are, and exactly when their encoded forms are.
pub proof fn lemma_key_equality(k1: ObjectKey, k2: ObjectKey)
    ensures
        k1.eq_spec(&k2) <==> k1.spec_raw() == k2.spec_raw(),
        k1.eq_spec(&k2) <==> percent_encode(k1.spec_raw(), EncodeSet::KeyPath) == percent_encode(
            k2.spec_raw(),
            EncodeSet::KeyPath,
        ),
{
    if percent_encode(k1.spec_raw(), EncodeSet::KeyPath) == percent_encode(
        k2.spec_raw(),
        EncodeSet::KeyPath,
    ) {
        lemma_percent_encode_injective(k1.spec_raw(), k2.spec_raw(), EncodeSet::KeyPath);
    }
}

// `from` gives a key whose text is the argument (its `ensures` says so
// through `spec_raw`); a key is not fixed as a value by its text alone, so
// the conversions do not claim to return the value `from_spec` names.
impl vstd::std_specs::convert::FromSpecImpl<String> for ObjectKey {
    open spec fn obeys_from_spec() -> bool {
        false
    }

    closed spec fn from_spec(v: String) -> ObjectKey {
        choose|k: ObjectKey| k.raw@ == v@ && k.encoded@ == percent_encode(v@, EncodeSet::KeyPath)
    }
}

impl<'a> vstd::std_specs::convert::FromSpecImpl<&'a str> for ObjectKey {
    open spec fn obeys_from_spec() -> bool {
        false
    }

    closed spec fn from_spec(v: &'a str) -> ObjectKey {
        choose|k: ObjectKey| k.raw@ == v@ && k.encoded@ == percent_encode(v@, EncodeSet::KeyPath)
    }
}

/// `prefix` followed by `key`, as an object key.
pub fn prefixed_key(prefix: &str, key: &str) -> (k: ObjectKey)
    ensures
        k.spec_raw() == prefix@ + key@,
{
    let joined = concat2(prefix, key);
    ObjectKey::new(joined.as_str())
}

} // verus!
