//! The protobuf wire format: base-128 varints, field keys and
//! length-delimited string fields, as `prost` reads and writes them.

use vstd::prelude::*;
use vstd::utf8::{decode_utf8, encode_utf8, valid_utf8};

verus! {

/// The largest field number that protobuf allows.
pub const MAX_TAG: u32 = 536870911;

/// The most bytes that a varint may take.
pub open spec fn max_varint_len() -> nat {
    10
}

/// The base-128 varint that encodes `v`: seven bits per byte, least
/// significant group first, the high bit set on every byte but the last.
pub open spec fn varint_bytes(v: u64) -> Seq<u8>
    decreases v,
{
    if v < 0x80 {
        seq![v as u8]
    } else {
        proof {
            lemma_shift_decreases(v);
        }
        seq![((v & 0x7f) | 0x80) as u8] + varint_bytes(v >> 7)
    }
}

/// Reads a varint from the front of `s`, looking at no more than `budget`
/// bytes: the value (its bits above the 64th dropped) and the number of bytes
/// it took, or `None` when no byte among the first `budget` ends it.
pub open spec fn varint_prefix(s: Seq<u8>, budget: nat) -> Option<(u64, nat)>
    decreases budget,
{
    if budget == 0 || s.len() == 0 {
        None
    } else if s[0] < 0x80 {
        Some((s[0] as u64, 1nat))
    } else {
        match varint_prefix(s.drop_first(), (budget - 1) as nat) {
            Some((v, n)) => Some((((s[0] & 0x7f) as u64) | (v << 7u64), n + 1)),
            None => None,
        }
    }
}

/// What `prost::encoding::decode_varint` reads from the front of `s`.
pub open spec fn varint_decode(s: Seq<u8>) -> Option<(u64, nat)> {
    varint_prefix(s, max_varint_len())
}

pub proof fn lemma_shift_decreases(v: u64)
    ensures
        v >= 0x80 ==> v >> 7u64 < v,
        v < 0x80 ==> v >> 7u64 == 0,
{
    assert(v >= 0x80 ==> v >> 7u64 < v) by (bit_vector);
    assert(v < 0x80 ==> v >> 7u64 == 0) by (bit_vector);
}

proof fn lemma_varint_len_step(v: u64)
    ensures
        1 <= varint_bytes(v).len() <= 1 + varint_bytes(v >> 7u64).len(),
        v < 0x80 ==> varint_bytes(v).len() == 1,
{
    lemma_shift_decreases(v);
    if v >= 0x80 {
        assert(varint_bytes(v).len() == 1 + varint_bytes(v >> 7u64).len());
    } else {
        assert(varint_bytes(v >> 7u64) == varint_bytes(0));
    }
}

/// A varint takes between one and ten bytes.
pub proof fn lemma_varint_len(v: u64)
    ensures
        1 <= varint_bytes(v).len() <= max_varint_len(),
{
    let v1 = v >> 7u64;
    let v2 = v1 >> 7u64;
    let v3 = v2 >> 7u64;
    let v4 = v3 >> 7u64;
    let v5 = v4 >> 7u64;
    let v6 = v5 >> 7u64;
    let v7 = v6 >> 7u64;
    let v8 = v7 >> 7u64;
    let v9 = v8 >> 7u64;
    assert(v9 < 0x80) by (bit_vector)
        requires
            v1 == v >> 7u64,
            v2 == v1 >> 7u64,
            v3 == v2 >> 7u64,
            v4 == v3 >> 7u64,
            v5 == v4 >> 7u64,
            v6 == v5 >> 7u64,
            v7 == v6 >> 7u64,
            v8 == v7 >> 7u64,
            v9 == v8 >> 7u64,
    ;
    lemma_varint_len_step(v);
    lemma_varint_len_step(v1);
    lemma_varint_len_step(v2);
    lemma_varint_len_step(v3);
    lemma_varint_len_step(v4);
    lemma_varint_len_step(v5);
    lemma_varint_len_step(v6);
    lemma_varint_len_step(v7);
    lemma_varint_len_step(v8);
    lemma_varint_len_step(v9);
}

proof fn lemma_varint_prefix_roundtrip(v: u64, rest: Seq<u8>, budget: nat)
    requires
        varint_bytes(v).len() <= budget,
    ensures
        varint_prefix(varint_bytes(v) + rest, budget) == Some((v, varint_bytes(v).len())),
    decreases v,
{
    let s = varint_bytes(v) + rest;
    if v < 0x80 {
        assert(s[0] == v as u8);
        assert((v as u8) as u64 == v) by (bit_vector)
            requires
                v < 0x80,
        ;
    } else {
        lemma_shift_decreases(v);
        let hi = v >> 7u64;
        let b0 = ((v & 0x7f) | 0x80) as u8;
        lemma_varint_prefix_roundtrip(hi, rest, (budget - 1) as nat);
        assert(s[0] == b0);
        assert(s.drop_first() =~= varint_bytes(hi) + rest);
        assert(b0 >= 0x80) by (bit_vector)
            requires
                b0 == ((v & 0x7f) | 0x80) as u8,
        ;
        assert((((b0 & 0x7f) as u64) | (hi << 7u64)) == v) by (bit_vector)
            requires
                b0 == ((v & 0x7f) | 0x80) as u8,
                hi == v >> 7u64,
        ;
    }
}

/// Reading back the varint of `v`, whatever follows it, gives `v` and the
/// varint's length.
pub proof fn lemma_varint_roundtrip(v: u64, rest: Seq<u8>)
    ensures
        varint_decode(varint_bytes(v) + rest) == Some((v, varint_bytes(v).len())),
{
    lemma_varint_len(v);
    lemma_varint_prefix_roundtrip(v, rest, max_varint_len());
}


proof fn lemma_varint_prefix_len(s: Seq<u8>, budget: nat)
    ensures
        varint_prefix(s, budget) matches Some((_, n)) ==> 1 <= n <= s.len() && n <= budget,
    decreases budget,
{
    if budget > 0 && s.len() > 0 && s[0] >= 0x80 {
        lemma_varint_prefix_len(s.drop_first(), (budget - 1) as nat);
    }
}

/// A varint that can be read takes at least one byte and no more than are there.
pub proof fn lemma_varint_decode_len(s: Seq<u8>)
    ensures
        varint_decode(s) matches Some((_, n)) ==> 1 <= n <= s.len() && n <= max_varint_len(),
{
    lemma_varint_prefix_len(s, max_varint_len());
}

/// How a field's value is laid out on the wire.
#[derive(Clone, Copy, Debug, PartialEq, Eq, Structural)]
pub enum WireType {
    Varint,
    SixtyFourBit,
    LengthDelimited,
    ThirtyTwoBit,
}

impl WireType {
    /// The three-bit code of the wire type inside a field key.
    pub open spec fn code(self) -> u8 {
        match self {
            WireType::Varint => 0,
            WireType::SixtyFourBit => 1,
            WireType::LengthDelimited => 2,
            WireType::ThirtyTwoBit => 5,
        }
    }
}

/// The wire type with the given code, if there is one.
pub open spec fn wire_type_of(code: u8) -> Option<WireType> {
    if code == 0 {
        Some(WireType::Varint)
    } else if code == 1 {
        Some(WireType::SixtyFourBit)
    } else if code == 2 {
        Some(WireType::LengthDelimited)
    } else if code == 5 {
        Some(WireType::ThirtyTwoBit)
    } else {
        None
    }
}

/// The bytes of the key of field `tag` with wire type `wire`.
pub open spec fn key_bytes(tag: u32, wire: WireType) -> Seq<u8> {
    varint_bytes(((tag << 3u32) | (wire.code() as u32)) as u64)
}

/// What `prost::encoding::decode_key` reads from the front of `s`: the field
/// number, the wire type and the number of bytes the key took.
pub open spec fn key_decode(s: Seq<u8>) -> Option<(u32, WireType, nat)> {
    match varint_decode(s) {
        None => None,
        Some((key, n)) => if key > u32::MAX as u64 {
            None
        } else {
            match wire_type_of((key as u8) & 7u8) {
                None => None,
                Some(wire) => {
                    let tag = (key as u32) >> 3u32;
                    if tag < 1 {
                        None
                    } else {
                        Some((tag, wire, n))
                    }
                },
            }
        },
    }
}

/// Reading back the key of field `tag` with wire type `wire`, whatever
/// follows it, gives that field number and wire type.
pub proof fn lemma_key_roundtrip(tag: u32, wire: WireType, rest: Seq<u8>)
    requires
        1 <= tag <= MAX_TAG,
    ensures
        key_decode(key_bytes(tag, wire) + rest) == Some((tag, wire, key_bytes(tag, wire).len())),
{
    let c = wire.code();
    let key: u64 = ((tag << 3u32) | (c as u32)) as u64;
    assert(key <= u32::MAX as u64 && ((key as u8) & 7u8) == c && ((key as u32) >> 3u32) == tag) by (bit_vector)
        requires
            tag <= 536870911u32,
            c < 8u8,
            key == ((tag << 3u32) | (c as u32)) as u64,
    ;
    lemma_varint_roundtrip(key, rest);
}

/// A field key that can be read takes at least one byte and no more than are there.
pub proof fn lemma_key_decode_len(s: Seq<u8>)
    ensures
        key_decode(s) matches Some((_, _, n)) ==> 1 <= n <= s.len(),
{
    lemma_varint_decode_len(s);
}

/// The bytes of string field `tag` holding `value`: its key, the length of
/// the UTF-8 bytes of `value` as a varint, then those bytes.
pub open spec fn string_field_bytes(tag: u32, value: Seq<char>) -> Seq<u8> {
    key_bytes(tag, WireType::LengthDelimited) + varint_bytes(encode_utf8(value).len() as u64)
        + encode_utf8(value)
}

/// What `prost::encoding::string::merge` does with the front of `s` when the
/// string field held `value`: the field's new value and the number of bytes
/// read. The bytes read are added to those the field held, and the whole must
/// be valid UTF-8.
pub open spec fn string_merge(wire: WireType, value: Seq<char>, s: Seq<u8>) -> Option<(Seq<char>, nat)> {
    if wire != WireType::LengthDelimited {
        None
    } else {
        match varint_decode(s) {
            None => None,
            Some((len, n)) => if len > s.len() - n {
                None
            } else {
                let bytes = encode_utf8(value) + s.subrange(n as int, n + len);
                if valid_utf8(bytes) {
                    Some((decode_utf8(bytes), (n + len) as nat))
                } else {
                    None
                }
            },
        }
    }
}

/// What `prost::encoding::skip_field` passes over at the front of `s`: the
/// number of bytes of a field value of wire type `wire`.
pub open spec fn skip_len(wire: WireType, s: Seq<u8>) -> Option<nat> {
    match wire {
        WireType::Varint => match varint_decode(s) {
            Some((_, n)) => Some(n),
            None => None,
        },
        WireType::ThirtyTwoBit => if 4 <= s.len() {
            Some(4nat)
        } else {
            None
        },
        WireType::SixtyFourBit => if 8 <= s.len() {
            Some(8nat)
        } else {
            None
        },
        WireType::LengthDelimited => match varint_decode(s) {
            Some((len, n)) => if len <= s.len() - n {
                Some((n + len) as nat)
            } else {
                None
            },
            None => None,
        },
    }
}

/// A string field that can be read takes no more bytes than are there.
pub proof fn lemma_string_merge_len(wire: WireType, value: Seq<char>, s: Seq<u8>)
    ensures
        string_merge(wire, value, s) matches Some((_, n)) ==> n <= s.len(),
{
    lemma_varint_decode_len(s);
}

/// A field that can be skipped takes no more bytes than are there.
pub proof fn lemma_skip_len(wire: WireType, s: Seq<u8>)
    ensures
        skip_len(wire, s) matches Some(n) ==> n <= s.len(),
{
    lemma_varint_decode_len(s);
}

/// The error that `prost` reports when bytes do not hold a valid message.
#[verifier::external_type_specification]
#[verifier::external_body]
pub struct ExDecodeError(prost::DecodeError);

/// Reads a field key at `pos` with `prost::encoding::decode_key` (over a
/// cursor on `buf`). Trusted: the key is read as `key_decode` states, and the
/// new position lies just past it; on failure nothing is said of the error.
#[verifier::external_body]
pub(crate) fn decode_key_at(buf: &[u8], pos: usize) -> (res: Result<(u32, WireType, usize), prost::DecodeError>)
    requires
        pos <= buf@.len(),
    ensures
        match key_decode(buf@.skip(pos as int)) {
            Some((tag, wire, n)) => res matches Ok((t, w, p)) && t == tag && w == wire && p == pos + n,
            None => res is Err,
        },
{
    let mut cursor = std::io::Cursor::new(buf);
    cursor.set_position(pos as u64);
    match prost::encoding::decode_key(&mut cursor) {
        Ok((tag, prost::encoding::WireType::Varint)) => Ok((tag, WireType::Varint, cursor.position() as usize)),
        Ok((tag, prost::encoding::WireType::SixtyFourBit)) => Ok((tag, WireType::SixtyFourBit, cursor.position() as usize)),
        Ok((tag, prost::encoding::WireType::LengthDelimited)) => Ok((tag, WireType::LengthDelimited, cursor.position() as usize)),
        Ok((tag, prost::encoding::WireType::ThirtyTwoBit)) => Ok((tag, WireType::ThirtyTwoBit, cursor.position() as usize)),
        Err(e) => Err(e),
    }
}

/// Reads the value of a string field at `pos` into `value` with
/// `prost::encoding::string::merge`. Trusted: on the inputs where
/// `string_merge` gives a result the call succeeds, `value` becomes that
/// result and the new position lies just past the field; elsewhere it fails,
/// and nothing is said of `value` then.
#[verifier::external_body]
pub(crate) fn string_merge_at(wire: WireType, value: &mut String, buf: &[u8], pos: usize) -> (res: Result<usize, prost::DecodeError>)
    requires
        pos <= buf@.len(),
    ensures
        match string_merge(wire, old(value)@, buf@.skip(pos as int)) {
            Some((v, n)) => res matches Ok(p) && p == pos + n && final(value)@ == v,
            None => res is Err,
        },
{
    let wire_type = match wire {
        WireType::Varint => prost::encoding::WireType::Varint,
        WireType::SixtyFourBit => prost::encoding::WireType::SixtyFourBit,
        WireType::LengthDelimited => prost::encoding::WireType::LengthDelimited,
        WireType::ThirtyTwoBit => prost::encoding::WireType::ThirtyTwoBit,
    };
    let mut cursor = std::io::Cursor::new(buf);
    cursor.set_position(pos as u64);
    match prost::encoding::string::merge(wire_type, value, &mut cursor) {
        Ok(()) => Ok(cursor.position() as usize),
        Err(e) => Err(e),
    }
}

/// Passes over a field value of wire type `wire` at `pos` with
/// `prost::encoding::skip_field`. Trusted: it succeeds exactly where
/// `skip_len` gives a length, and the new position lies just past the value.
#[verifier::external_body]
pub(crate) fn skip_field_at(wire: WireType, buf: &[u8], pos: usize) -> (res: Result<usize, prost::DecodeError>)
    requires
        pos <= buf@.len(),
    ensures
        match skip_len(wire, buf@.skip(pos as int)) {
            Some(n) => res matches Ok(p) && p == pos + n,
            None => res is Err,
        },
{
    let wire_type = match wire {
        WireType::Varint => prost::encoding::WireType::Varint,
        WireType::SixtyFourBit => prost::encoding::WireType::SixtyFourBit,
        WireType::LengthDelimited => prost::encoding::WireType::LengthDelimited,
        WireType::ThirtyTwoBit => prost::encoding::WireType::ThirtyTwoBit,
    };
    let mut cursor = std::io::Cursor::new(buf);
    cursor.set_position(pos as u64);
    match prost::encoding::skip_field(wire_type, &mut cursor) {
        Ok(()) => Ok(cursor.position() as usize),
        Err(e) => Err(e),
    }
}

/// Appends string field `tag` holding `value` to `buf` with
/// `prost::encoding::string::encode`. Trusted: exactly the bytes of
/// `string_field_bytes` are appended. The buffer must have room to grow.
#[verifier::external_body]
pub(crate) fn string_encode(tag: u32, value: &String, buf: &mut Vec<u8>)
    requires
        1 <= tag <= MAX_TAG,
        old(buf)@.len() + string_field_bytes(tag, value@).len() + 64 <= isize::MAX,
    ensures
        final(buf)@ == old(buf)@ + string_field_bytes(tag, value@),
{
    prost::encoding::string::encode(tag, value, buf)
}

/// The number of bytes of string field `tag` holding `value`, from
/// `prost::encoding::string::encoded_len`. Trusted: it is the length of
/// `string_field_bytes` (a string holds at most `isize::MAX` bytes, so the sum
/// does not overflow).
#[verifier::external_body]
pub(crate) fn string_encoded_len(tag: u32, value: &String) -> (n: usize)
    requires
        1 <= tag <= MAX_TAG,
    ensures
        n == string_field_bytes(tag, value@).len(),
{
    prost::encoding::string::encoded_len(tag, value)
}

/// Adds the location of a failed field (message name, field name) to a
/// decoding error with `prost::DecodeError::push`, as the `prost` derive does
/// when a field cannot be read. Trusted: nothing is claimed of the error.
#[verifier::external_body]
pub(crate) fn push_location(error: &mut prost::DecodeError, message: &'static str, field: &'static str) {
    error.push(message, field)
}

} // verus!
