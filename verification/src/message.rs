//! The two messages of the Greeter service, each a single string field
//! numbered 1, and their protobuf encoding: what the `prost` derive writes
//! for such a message, over `prost::encoding`.

use vstd::prelude::*;
use vstd::utf8::{encode_utf8, encode_utf8_decode_utf8, encode_utf8_valid_utf8};
use crate::wire::{
    decode_key_at, key_decode, lemma_key_roundtrip, push_location, varint_decode, MAX_TAG, lemma_key_decode_len, lemma_skip_len, lemma_string_merge_len,
    lemma_varint_roundtrip, skip_field_at, skip_len, string_encode, string_encoded_len,
    string_field_bytes, string_merge, string_merge_at, varint_bytes, WireType, key_bytes,
};

verus! {

/// The number of the single field of both messages.
pub const FIELD_TAG: u32 = 1;

/// The step at which bytes could not be read as a message.
#[derive(Clone, Copy, Debug, PartialEq, Eq, Structural)]
pub enum DecodeStep {
    /// A field key could not be read.
    Key,
    /// The value of the string field could not be read.
    Field,
    /// The value of a field of another number could not be passed over.
    Skip,
}

/// Why bytes could not be read as a message: the step that failed, and the
/// error that `prost` reported for it. When the string field could not be
/// read, the error names the message and the field, as the `prost` derive
/// adds them.
#[derive(Debug)]
pub struct DecodeFailure {
    pub step: DecodeStep,
    pub error: prost::DecodeError,
}

/// The encoding of a message whose string field holds `value`: nothing when
/// the field holds the empty string, the field otherwise.
pub open spec fn string_message_bytes(value: Seq<char>) -> Seq<u8> {
    if value.len() == 0 {
        Seq::empty()
    } else {
        string_field_bytes(FIELD_TAG, value)
    }
}

/// Reading one field from the front of `s` into a message whose string field
/// holds `value`: the field's new value and the number of bytes read. Fields
/// of other numbers are passed over.
pub open spec fn merge_one(value: Seq<char>, s: Seq<u8>) -> Result<(Seq<char>, nat), DecodeStep> {
    match key_decode(s) {
        None => Err(DecodeStep::Key),
        Some((tag, wire, n)) => {
            let rest = s.skip(n as int);
            if tag == FIELD_TAG {
                match string_merge(wire, value, rest) {
                    Some((v, m)) => Ok((v, n + m)),
                    None => Err(DecodeStep::Field),
                }
            } else {
                match skip_len(wire, rest) {
                    Some(m) => Ok((value, n + m)),
                    None => Err(DecodeStep::Skip),
                }
            }
        },
    }
}

/// A field that can be read takes at least one byte and no more than are there.
pub proof fn lemma_merge_one_len(value: Seq<char>, s: Seq<u8>)
    ensures
        merge_one(value, s) matches Ok((_, n)) ==> 1 <= n <= s.len(),
{
    lemma_key_decode_len(s);
    if let Some((tag, wire, n)) = key_decode(s) {
        lemma_string_merge_len(wire, value, s.skip(n as int));
        lemma_skip_len(wire, s.skip(n as int));
    }
}

/// Reading all of `s`, field after field, into a message whose string field
/// holds `value`.
pub open spec fn merge_all(value: Seq<char>, s: Seq<u8>) -> Result<Seq<char>, DecodeStep>
    decreases s.len(),
{
    if s.len() == 0 {
        Ok(value)
    } else {
        match merge_one(value, s) {
            Err(e) => Err(e),
            Ok((v, n)) => {
                proof {
                    lemma_merge_one_len(value, s);
                }
                merge_all(v, s.skip(n as int))
            },
        }
    }
}

/// What the string field holds when reading `s` into a message whose field
/// holds `value` stops: after all fields, or just before the field that could
/// not be read.
pub open spec fn merge_reached(value: Seq<char>, s: Seq<u8>) -> Seq<char>
    decreases s.len(),
{
    if s.len() == 0 {
        value
    } else {
        match merge_one(value, s) {
            Err(_) => value,
            Ok((v, n)) => {
                proof {
                    lemma_merge_one_len(value, s);
                }
                merge_reached(v, s.skip(n as int))
            },
        }
    }
}

/// Reading a whole message from `s`, starting from the empty string.
pub open spec fn decode_string_message(s: Seq<u8>) -> Result<Seq<char>, DecodeStep> {
    merge_all(Seq::empty(), s)
}

/// The number of bytes of the encoding of a message whose field holds `value`.
fn string_message_len(value: &String) -> (n: usize)
    ensures
        n == string_message_bytes(value@).len(),
{
    if value.as_str().is_empty() {
        0
    } else {
        string_encoded_len(FIELD_TAG, value)
    }
}

/// Appends the encoding of a message whose field holds `value`.
fn encode_string_message(value: &String, buf: &mut Vec<u8>)
    requires
        old(buf)@.len() + string_message_bytes(value@).len() + 64 <= isize::MAX,
    ensures
        final(buf)@ == old(buf)@ + string_message_bytes(value@),
{
    if value.as_str().is_empty() {
        assert(old(buf)@ + string_message_bytes(value@) =~= old(buf)@);
    } else {
        string_encode(FIELD_TAG, value, buf);
    }
}

/// Reads the field at `pos` into `value`, returning the position after it.
/// When the key or a field of another number cannot be read, `value` is left
/// as it was.
fn merge_string_field(
    value: &mut String,
    buf: &[u8],
    pos: usize,
    message: &'static str,
    field: &'static str,
) -> (res: Result<usize, DecodeFailure>)
    requires
        pos <= buf@.len(),
    ensures
        match merge_one(old(value)@, buf@.skip(pos as int)) {
            Ok((v, n)) => res matches Ok(p) && p == pos + n && final(value)@ == v,
            Err(e) => res matches Err(f) && f.step == e && (e != DecodeStep::Field
                ==> final(value)@ == old(value)@),
        },
{
    let ghost s = buf@.skip(pos as int);
    let (tag, wire, p) = match decode_key_at(buf, pos) {
        Ok(k) => k,
        Err(error) => {
            return Err(DecodeFailure { step: DecodeStep::Key, error });
        },
    };
    proof {
        lemma_key_decode_len(s);
    }
    assert(buf@.skip(p as int) =~= s.skip(p - pos));
    if tag == FIELD_TAG {
        match string_merge_at(wire, value, buf, p) {
            Ok(q) => Ok(q),
            Err(mut error) => {
                push_location(&mut error, message, field);
                Err(DecodeFailure { step: DecodeStep::Field, error })
            },
        }
    } else {
        match skip_field_at(wire, buf, p) {
            Ok(q) => Ok(q),
            Err(error) => Err(DecodeFailure { step: DecodeStep::Skip, error }),
        }
    }
}

/// Reads all of `buf`, field after field, into `value`. When a key or a
/// field of another number cannot be read, `value` holds what the fields
/// before it made of it.
fn merge_string_message(
    value: &mut String,
    buf: &[u8],
    message: &'static str,
    field: &'static str,
) -> (res: Result<(), DecodeFailure>)
    ensures
        match merge_all(old(value)@, buf@) {
            Ok(v) => res is Ok && final(value)@ == v,
            Err(e) => res matches Err(f) && f.step == e && (e != DecodeStep::Field
                ==> final(value)@ == merge_reached(old(value)@, buf@)),
        },
{
    let ghost start = value@;
    let mut pos: usize = 0;
    assert(buf@.skip(0) =~= buf@);
    while pos < buf.len()
        invariant
            pos <= buf@.len(),
            merge_all(value@, buf@.skip(pos as int)) == merge_all(start, buf@),
            merge_reached(value@, buf@.skip(pos as int)) == merge_reached(start, buf@),
            start == old(value)@,
        decreases buf@.len() - pos,
    {
        let ghost before = value@;
        let ghost s = buf@.skip(pos as int);
        proof {
            lemma_merge_one_len(before, s);
        }
        match merge_string_field(value, buf, pos, message, field) {
            Ok(p) => {
                assert(buf@.skip(p as int) =~= s.skip(p - pos));
                pos = p;
            },
            Err(e) => {
                assert(s.len() > 0);
                assert(merge_all(before, s) == Err::<Seq<char>, DecodeStep>(e.step));
                assert(merge_reached(before, s) == before);
                return Err(e);
            },
        }
    }
    assert(buf@.skip(pos as int).len() == 0);
    Ok(())
}


/// A greeting request: the name of whom to greet.
#[derive(Clone, Debug, PartialEq, Eq)]
pub struct HelloRequest {
    pub name: String,
}

impl HelloRequest {
    /// The number of bytes of the message's encoding.
    pub fn encoded_len(&self) -> (n: usize)
        ensures
            n == string_message_bytes(self.name@).len(),
    {
        string_message_len(&self.name)
    }

    /// Appends the message's encoding to `buf`: nothing when the field holds
    /// the empty string, the field with its key and length otherwise.
    pub fn encode_raw(&self, buf: &mut Vec<u8>)
        requires
            old(buf)@.len() + string_message_bytes(self.name@).len() + 64 <= isize::MAX,
        ensures
            final(buf)@ == old(buf)@ + string_message_bytes(self.name@),
    {
        encode_string_message(&self.name, buf)
    }

    /// Reads the field at `pos` of `buf` into the message and returns the
    /// position after it. A second occurrence of the string field adds its
    /// text to the text already there; fields of other numbers are passed over.
    /// When the key or a field of another number cannot be read, the field is
    /// left as it was. When the string field's bytes are not UTF-8, `prost`
    /// has already added them to the field, which then holds bytes that are
    /// not UTF-8: nothing is said of it, and the message must be dropped.
    pub fn merge_field(&mut self, buf: &[u8], pos: usize) -> (res: Result<usize, DecodeFailure>)
        requires
            pos <= buf@.len(),
        ensures
            match merge_one(old(self).name@, buf@.skip(pos as int)) {
                Ok((v, n)) => res matches Ok(p) && p == pos + n && final(self).name@ == v,
                Err(e) => res matches Err(f) && f.step == e && (e != DecodeStep::Field
                    ==> final(self).name@ == old(self).name@),
            },
    {
        merge_string_field(&mut self.name, buf, pos, "HelloRequest", "name")
    }

    /// Reads all of `buf`, field after field, into the message. When a key or
    /// a field of another number cannot be read, the field holds what the
    /// fields before it made of it. When the string field's bytes are not
    /// UTF-8, the field holds bytes that are not UTF-8: nothing is said of it,
    /// and the message must be dropped.
    pub fn merge(&mut self, buf: &[u8]) -> (res: Result<(), DecodeFailure>)
        ensures
            match merge_all(old(self).name@, buf@) {
                Ok(v) => res is Ok && final(self).name@ == v,
                Err(e) => res matches Err(f) && f.step == e && (e != DecodeStep::Field
                    ==> final(self).name@ == merge_reached(old(self).name@, buf@)),
            },
    {
        merge_string_message(&mut self.name, buf, "HelloRequest", "name")
    }

    /// Reads a message from all of `buf`.
    pub fn decode(buf: &[u8]) -> (res: Result<HelloRequest, DecodeFailure>)
        ensures
            match decode_string_message(buf@) {
                Ok(v) => res matches Ok(m) && m.name@ == v,
                Err(e) => res matches Err(f) && f.step == e,
            },
    {
        let mut message = HelloRequest { name: String::new() };
        match message.merge(buf) {
            Ok(()) => Ok(message),
            Err(e) => Err(e),
        }
    }

    /// Resets the field to the empty string.
    pub fn clear(&mut self)
        ensures
            final(self).name@ == Seq::<char>::empty(),
    {
        self.name = String::new();
    }
}

impl Default for HelloRequest {
    /// The message whose field holds the empty string.
    fn default() -> (m: HelloRequest)
        ensures
            m.name@ == Seq::<char>::empty(),
    {
        HelloRequest { name: String::new() }
    }
}

/// A greeting reply: the text of the greeting.
#[derive(Clone, Debug, PartialEq, Eq)]
pub struct HelloReply {
    pub reply: String,
}

impl HelloReply {
    /// The number of bytes of the message's encoding.
    pub fn encoded_len(&self) -> (n: usize)
        ensures
            n == string_message_bytes(self.reply@).len(),
    {
        string_message_len(&self.reply)
    }

    /// Appends the message's encoding to `buf`: nothing when the field holds
    /// the empty string, the field with its key and length otherwise.
    pub fn encode_raw(&self, buf: &mut Vec<u8>)
        requires
            old(buf)@.len() + string_message_bytes(self.reply@).len() + 64 <= isize::MAX,
        ensures
            final(buf)@ == old(buf)@ + string_message_bytes(self.reply@),
    {
        encode_string_message(&self.reply, buf)
    }

    /// Reads the field at `pos` of `buf` into the message and returns the
    /// position after it. A second occurrence of the string field adds its
    /// text to the text already there; fields of other numbers are passed over.
    /// When the key or a field of another number cannot be read, the field is
    /// left as it was. When the string field's bytes are not UTF-8, `prost`
    /// has already added them to the field, which then holds bytes that are
    /// not UTF-8: nothing is said of it, and the message must be dropped.
    pub fn merge_field(&mut self, buf: &[u8], pos: usize) -> (res: Result<usize, DecodeFailure>)
        requires
            pos <= buf@.len(),
        ensures
            match merge_one(old(self).reply@, buf@.skip(pos as int)) {
                Ok((v, n)) => res matches Ok(p) && p == pos + n && final(self).reply@ == v,
                Err(e) => res matches Err(f) && f.step == e && (e != DecodeStep::Field
                    ==> final(self).reply@ == old(self).reply@),
            },
    {
        merge_string_field(&mut self.reply, buf, pos, "HelloReply", "reply")
    }

    /// Reads all of `buf`, field after field, into the message. When a key or
    /// a field of another number cannot be read, the field holds what the
    /// fields before it made of it. When the string field's bytes are not
    /// UTF-8, the field holds bytes that are not UTF-8: nothing is said of it,
    /// and the message must be dropped.
    pub fn merge(&mut self, buf: &[u8]) -> (res: Result<(), DecodeFailure>)
        ensures
            match merge_all(old(self).reply@, buf@) {
                Ok(v) => res is Ok && final(self).reply@ == v,
                Err(e) => res matches Err(f) && f.step == e && (e != DecodeStep::Field
                    ==> final(self).reply@ == merge_reached(old(self).reply@, buf@)),
            },
    {
        merge_string_message(&mut self.reply, buf, "HelloReply", "reply")
    }

    /// Reads a message from all of `buf`.
    pub fn decode(buf: &[u8]) -> (res: Result<HelloReply, DecodeFailure>)
        ensures
            match decode_string_message(buf@) {
                Ok(v) => res matches Ok(m) && m.reply@ == v,
                Err(e) => res matches Err(f) && f.step == e,
            },
    {
        let mut message = HelloReply { reply: String::new() };
        match message.merge(buf) {
            Ok(()) => Ok(message),
            Err(e) => Err(e),
        }
    }

    /// Resets the field to the empty string.
    pub fn clear(&mut self)
        ensures
            final(self).reply@ == Seq::<char>::empty(),
    {
        self.reply = String::new();
    }
}

impl Default for HelloReply {
    /// The message whose field holds the empty string.
    fn default() -> (m: HelloReply)
        ensures
            m.reply@ == Seq::<char>::empty(),
    {
        HelloReply { reply: String::new() }
    }
}

/// The UTF-8 bytes of two texts put together are the bytes of the first
/// followed by those of the second.
pub proof fn lemma_encode_utf8_concat(a: Seq<char>, b: Seq<char>)
    ensures
        encode_utf8(a + b) == encode_utf8(a) + encode_utf8(b),
    decreases a.len(),
{
    if a.len() == 0 {
        assert(a + b =~= b);
        assert(encode_utf8(a) + encode_utf8(b) =~= encode_utf8(b));
    } else {
        assert((a + b).drop_first() =~= a.drop_first() + b);
        lemma_encode_utf8_concat(a.drop_first(), b);
        assert(encode_utf8(a + b) =~= encode_utf8(a) + encode_utf8(b));
    }
}

/// Reading the encoding of a message whose field holds `text` into a message
/// whose field holds `value` adds `text` after `value`, whatever follows.
pub proof fn lemma_merge_encoded(value: Seq<char>, text: Seq<char>, rest: Seq<u8>)
    requires
        encode_utf8(text).len() <= isize::MAX,
    ensures
        merge_all(value, string_message_bytes(text) + rest) == merge_all(value + text, rest),
        merge_reached(value, string_message_bytes(text) + rest) == merge_reached(value + text, rest),
{
    let s = string_message_bytes(text) + rest;
    if text.len() == 0 {
        assert(value + text =~= value);
        assert(s =~= rest);
    } else {
        let utf8 = encode_utf8(text);
        let len = utf8.len() as u64;
        let key: u64 = ((FIELD_TAG << 3u32) | (WireType::LengthDelimited.code() as u32)) as u64;
        assert(((1u32 << 3u32) | 2u32) as u64 == 10u64) by (bit_vector);
        let body = varint_bytes(len) + utf8 + rest;
        assert(s =~= varint_bytes(key) + body);
        lemma_varint_roundtrip(key, body);
        assert(varint_bytes(key) =~= seq![10u8]);
        assert(key_decode(s) == Some((FIELD_TAG, WireType::LengthDelimited, 1nat))) by {
            assert(((10u64 as u8) & 7u8) == 2u8) by (bit_vector);
            assert(((10u64 as u32) >> 3u32) == 1u32) by (bit_vector);
        }
        assert(s.skip(1) =~= body);
        assert(body =~= varint_bytes(len) + (utf8 + rest));
        lemma_varint_roundtrip(len, utf8 + rest);
        let m = varint_bytes(len).len();
        assert(body.subrange(m as int, m + len) =~= utf8);
        lemma_encode_utf8_concat(value, text);
        encode_utf8_valid_utf8(value + text);
        encode_utf8_decode_utf8(value + text);
        assert(string_merge(WireType::LengthDelimited, value, body) == Some((value + text, (m + len) as nat)));
        let k = (1 + m + len) as nat;
        assert(merge_one(value, s) == Ok::<(Seq<char>, nat), DecodeStep>((value + text, k)));
        assert(s.skip(k as int) =~= rest);
        if rest.len() == 0 {
            assert(merge_all(value + text, s.skip(k as int)) == Ok::<Seq<char>, DecodeStep>(value + text));
            assert(merge_reached(value + text, s.skip(k as int)) == value + text);
        }
    }
}

/// Decoding the encoding of a message gives the message back.
pub proof fn lemma_string_message_roundtrip(text: Seq<char>)
    requires
        encode_utf8(text).len() <= isize::MAX,
    ensures
        decode_string_message(string_message_bytes(text)) == Ok::<Seq<char>, DecodeStep>(text),
{
    let empty = Seq::<u8>::empty();
    lemma_merge_encoded(Seq::empty(), text, empty);
    assert(string_message_bytes(text) + empty =~= string_message_bytes(text));
    assert(Seq::<char>::empty() + text =~= text);
}

/// Decoding two encoded messages one after the other gives one message whose
/// field holds the first text followed by the second.
pub proof fn lemma_concatenated_messages(first: Seq<char>, second: Seq<char>)
    requires
        encode_utf8(first).len() <= isize::MAX,
        encode_utf8(second).len() <= isize::MAX,
    ensures
        decode_string_message(string_message_bytes(first) + string_message_bytes(second))
            == Ok::<Seq<char>, DecodeStep>(first + second),
{
    let empty = Seq::<u8>::empty();
    lemma_merge_encoded(Seq::empty(), first, string_message_bytes(second));
    lemma_merge_encoded(Seq::empty() + first, second, empty);
    assert(string_message_bytes(second) + empty =~= string_message_bytes(second));
    assert(Seq::<char>::empty() + first =~= first);
}

/// Passing over a field of another number leaves the string field as it
/// was, and reading goes on just past that field.
pub proof fn lemma_other_field_passed_over(value: Seq<char>, s: Seq<u8>)
    requires
        key_decode(s) matches Some((tag, wire, n)) && tag != FIELD_TAG
            && skip_len(wire, s.skip(n as int)) is Some,
    ensures
        ({
            let (tag, wire, n) = key_decode(s).unwrap();
            let m = skip_len(wire, s.skip(n as int)).unwrap();
            &&& merge_one(value, s) == Ok::<(Seq<char>, nat), DecodeStep>((value, n + m))
            &&& merge_all(value, s) == merge_all(value, s.skip((n + m) as int))
        }),
{
    lemma_key_decode_len(s);
}

/// A varint field of another number is passed over wherever it stands: the
/// text of the string field is what it would be without that field.
pub proof fn lemma_unknown_varint_field_ignored(value: Seq<char>, tag: u32, x: u64, rest: Seq<u8>)
    requires
        FIELD_TAG < tag <= MAX_TAG,
    ensures
        merge_all(value, key_bytes(tag, WireType::Varint) + (varint_bytes(x) + rest)) == merge_all(value, rest),
{
    let k = key_bytes(tag, WireType::Varint);
    let body = varint_bytes(x) + rest;
    let s = k + body;
    lemma_key_roundtrip(tag, WireType::Varint, body);
    assert(s.skip(k.len() as int) =~= body);
    lemma_varint_roundtrip(x, rest);
    let m = varint_bytes(x).len();
    lemma_other_field_passed_over(value, s);
    assert(s.skip((k.len() + m) as int) =~= rest);
}

/// A fixed-width field of another number (four bytes for a 32-bit field,
/// eight for a 64-bit one) is passed over wherever it stands.
pub proof fn lemma_unknown_fixed_field_ignored(
    value: Seq<char>,
    tag: u32,
    wire: WireType,
    bytes: Seq<u8>,
    rest: Seq<u8>,
)
    requires
        FIELD_TAG < tag <= MAX_TAG,
        (wire == WireType::ThirtyTwoBit && bytes.len() == 4) || (wire == WireType::SixtyFourBit
            && bytes.len() == 8),
    ensures
        merge_all(value, key_bytes(tag, wire) + (bytes + rest)) == merge_all(value, rest),
{
    let k = key_bytes(tag, wire);
    let body = bytes + rest;
    let s = k + body;
    lemma_key_roundtrip(tag, wire, body);
    assert(s.skip(k.len() as int) =~= body);
    lemma_other_field_passed_over(value, s);
    assert(s.skip((k.len() + bytes.len()) as int) =~= rest);
}

/// A length-delimited field of another number is passed over wherever it
/// stands, whatever its bytes.
pub proof fn lemma_unknown_bytes_field_ignored(value: Seq<char>, tag: u32, bytes: Seq<u8>, rest: Seq<u8>)
    requires
        FIELD_TAG < tag <= MAX_TAG,
        bytes.len() <= u64::MAX,
    ensures
        merge_all(value, key_bytes(tag, WireType::LengthDelimited) + (varint_bytes(bytes.len() as u64) + bytes + rest))
            == merge_all(value, rest),
{
    let k = key_bytes(tag, WireType::LengthDelimited);
    let len = varint_bytes(bytes.len() as u64);
    let body = len + bytes + rest;
    let s = k + body;
    lemma_key_roundtrip(tag, WireType::LengthDelimited, body);
    assert(s.skip(k.len() as int) =~= body);
    assert(body =~= len + (bytes + rest));
    lemma_varint_roundtrip(bytes.len() as u64, bytes + rest);
    lemma_other_field_passed_over(value, s);
    assert(s.skip((k.len() + len.len() + bytes.len()) as int) =~= rest);
}

/// A field numbered as the string field but laid out otherwise than as a
/// length-delimited value cannot be read, and reading fails at that field.
pub proof fn lemma_string_field_of_other_type_fails(value: Seq<char>, wire: WireType, rest: Seq<u8>)
    requires
        wire != WireType::LengthDelimited,
    ensures
        merge_all(value, key_bytes(FIELD_TAG, wire) + rest) == Err::<Seq<char>, DecodeStep>(DecodeStep::Field),
{
    let s = key_bytes(FIELD_TAG, wire) + rest;
    lemma_key_roundtrip(FIELD_TAG, wire, rest);
    lemma_key_decode_len(s);
}

/// Decoding a message followed by a varint field of another number gives
/// the message's text.
pub proof fn lemma_decode_ignores_unknown_field(text: Seq<char>, tag: u32, x: u64)
    requires
        encode_utf8(text).len() <= isize::MAX,
        FIELD_TAG < tag <= MAX_TAG,
    ensures
        decode_string_message(string_message_bytes(text) + (key_bytes(tag, WireType::Varint) + varint_bytes(x)))
            == Ok::<Seq<char>, DecodeStep>(text),
{
    let empty = Seq::<u8>::empty();
    let field = key_bytes(tag, WireType::Varint) + varint_bytes(x);
    lemma_merge_encoded(Seq::empty(), text, field);
    assert(Seq::<char>::empty() + text =~= text);
    assert(varint_bytes(x) + empty =~= varint_bytes(x));
    lemma_unknown_varint_field_ignored(text, tag, x, empty);
}

/// Reading stops at the first field that cannot be read, with that field's
/// failure, whatever the string field holds.
pub proof fn lemma_failed_field_fails_merge(value: Seq<char>, s: Seq<u8>)
    requires
        s.len() > 0,
        merge_one(value, s) is Err,
    ensures
        merge_all(value, s) == Err::<Seq<char>, DecodeStep>(merge_one(value, s)->Err_0),
{
    lemma_key_decode_len(s);
}

/// When a field cannot be read, the string field keeps what it held before
/// that field, whatever it held.
pub proof fn lemma_failed_field_keeps_text(value: Seq<char>, s: Seq<u8>)
    requires
        s.len() > 0,
        merge_one(value, s) is Err,
    ensures
        merge_reached(value, s) == value,
{
}

/// Reading a whole message and then bytes whose field key cannot be read
/// leaves the string field with the message's text added: the fields read
/// before a failure stay read.
pub proof fn lemma_merge_stops_after_message(value: Seq<char>, text: Seq<char>, rest: Seq<u8>)
    requires
        encode_utf8(text).len() <= isize::MAX,
        rest.len() > 0,
        key_decode(rest) is None,
    ensures
        merge_all(value, string_message_bytes(text) + rest) == Err::<Seq<char>, DecodeStep>(DecodeStep::Key),
        merge_reached(value, string_message_bytes(text) + rest) == value + text,
{
    lemma_merge_encoded(value, text, rest);
    lemma_failed_field_fails_merge(value + text, rest);
    lemma_failed_field_keeps_text(value + text, rest);
}

/// Decoding bytes that begin with a whole message reads on from that
/// message's text.
pub proof fn lemma_decode_after_message(text: Seq<char>, rest: Seq<u8>)
    requires
        encode_utf8(text).len() <= isize::MAX,
    ensures
        decode_string_message(string_message_bytes(text) + rest) == merge_all(text, rest),
{
    lemma_merge_encoded(Seq::empty(), text, rest);
    assert(Seq::<char>::empty() + text =~= text);
}

/// A message followed by bytes whose field key cannot be read does not
/// decode: it fails at the key, whatever came before.
pub proof fn lemma_decode_fails_on_bad_key(text: Seq<char>, rest: Seq<u8>)
    requires
        encode_utf8(text).len() <= isize::MAX,
        rest.len() > 0,
        key_decode(rest) is None,
    ensures
        decode_string_message(string_message_bytes(text) + rest) == Err::<Seq<char>, DecodeStep>(DecodeStep::Key),
{
    lemma_decode_after_message(text, rest);
    lemma_failed_field_fails_merge(text, rest);
}

/// A message followed by a varint field of another number that is cut short
/// does not decode: it fails at passing over that field.
pub proof fn lemma_decode_fails_on_cut_field(text: Seq<char>, tag: u32, rest: Seq<u8>)
    requires
        encode_utf8(text).len() <= isize::MAX,
        FIELD_TAG < tag <= MAX_TAG,
        varint_decode(rest) is None,
    ensures
        decode_string_message(string_message_bytes(text) + (key_bytes(tag, WireType::Varint) + rest))
            == Err::<Seq<char>, DecodeStep>(DecodeStep::Skip),
{
    let k = key_bytes(tag, WireType::Varint);
    let s = k + rest;
    lemma_decode_after_message(text, s);
    lemma_key_roundtrip(tag, WireType::Varint, rest);
    assert(s.skip(k.len() as int) =~= rest);
    lemma_failed_field_fails_merge(text, s);
}

} // verus!
