//! The AMF0 values that commands carry, and the calls into the `amf` crate
//! that encode and decode them.

use vstd::prelude::*;
use vstd::utf8::{decode_utf8, encode_utf8, valid_utf8};
use vstd::arithmetic::logarithm::log;
use vstd::arithmetic::power2::pow2;
use amf::amf0::Value;
use amf::Pair;
use crate::bytes::{be16, be16_bytes, be32, be32_bytes, be64, be64_bytes};

verus! {

/// Marker of an AMF0 number.
pub const NUMBER_MARKER: u8 = 0x00;
/// Marker of an AMF0 string of up to 65535 bytes.
pub const STRING_MARKER: u8 = 0x02;
/// Marker of an AMF0 anonymous object.
pub const OBJECT_MARKER: u8 = 0x03;
/// Marker of AMF0 null.
pub const NULL_MARKER: u8 = 0x05;
/// Marker of the byte that closes an AMF0 object.
pub const OBJECT_END_MARKER: u8 = 0x09;
/// Marker of an AMF0 string longer than 65535 bytes.
pub const LONG_STRING_MARKER: u8 = 0x0c;

/// The longest key, in characters, that an object entry may have: its UTF-8
/// form then fits the 16-bit length field.
pub const MAX_KEY_CHARS: usize = 16383;

/// The longest text, in characters, that a string value may have: its UTF-8
/// form then fits the 32-bit length field.
pub const MAX_TEXT_CHARS: usize = 0x3fff_ffff;

/// A value inside an object that this server sends.
#[derive(Clone, Debug)]
pub enum Amf0Field {
    /// A number; a double holds every 32-bit integer exactly.
    Number(u32),
    Text(String),
}

/// A value that this server sends in a command.
#[derive(Clone, Debug)]
pub enum Amf0Value {
    Field(Amf0Field),
    /// An anonymous object with its entries in order.
    Object(Vec<(String, Amf0Field)>),
}

/// A value read from a command where a number, a string or null is expected.
#[derive(Clone, Debug)]
pub enum Amf0Scalar {
    /// A number, as the bits of its IEEE 754 double.
    Number(u64),
    Text(String),
    Null,
    /// Any other kind of value.
    Other,
}

pub enum Amf0FieldView {
    Number(u32),
    Text(Seq<char>),
}

pub enum Amf0ValueView {
    Field(Amf0FieldView),
    Object(Seq<(Seq<char>, Amf0FieldView)>),
}

pub enum Amf0ScalarView {
    Number(u64),
    Text(Seq<char>),
    Null,
    Other,
}

impl View for Amf0Field {
    type V = Amf0FieldView;

    open spec fn view(&self) -> Amf0FieldView {
        match self {
            Amf0Field::Number(n) => Amf0FieldView::Number(*n),
            Amf0Field::Text(s) => Amf0FieldView::Text(s@),
        }
    }
}

/// The view of an object's entries.
pub open spec fn entries_view(e: Seq<(String, Amf0Field)>) -> Seq<(Seq<char>, Amf0FieldView)> {
    e.map_values(|p: (String, Amf0Field)| (p.0@, p.1@))
}

impl View for Amf0Value {
    type V = Amf0ValueView;

    open spec fn view(&self) -> Amf0ValueView {
        match self {
            Amf0Value::Field(f) => Amf0ValueView::Field(f@),
            Amf0Value::Object(e) => Amf0ValueView::Object(entries_view(e@)),
        }
    }
}

impl View for Amf0Scalar {
    type V = Amf0ScalarView;

    open spec fn view(&self) -> Amf0ScalarView {
        match self {
            Amf0Scalar::Number(n) => Amf0ScalarView::Number(*n),
            Amf0Scalar::Text(s) => Amf0ScalarView::Text(s@),
            Amf0Scalar::Null => Amf0ScalarView::Null,
            Amf0Scalar::Other => Amf0ScalarView::Other,
        }
    }
}

/// The IEEE 754 double-precision bits of the integer `n`.
pub open spec fn double_bits(n: u32) -> u64 {
    if n == 0 {
        0
    } else {
        let e = log(2, n as int) as nat;
        ((1023 + e) * pow2(52) + (n - pow2(e)) * pow2((52 - e) as nat)) as u64
    }
}

/// An AMF0 number with these double bits.
pub open spec fn number_wire(bits: u64) -> Seq<u8> {
    seq![NUMBER_MARKER] + be64_bytes(bits as nat)
}

/// An AMF0 string: a 16-bit length and marker 2 up to 65535 bytes of UTF-8,
/// a 32-bit length and marker 12 above.
pub open spec fn string_wire(s: Seq<char>) -> Seq<u8> {
    let b = encode_utf8(s);
    if b.len() <= 0xffff {
        seq![STRING_MARKER] + be16_bytes(b.len()) + b
    } else {
        seq![LONG_STRING_MARKER] + be32_bytes(b.len()) + b
    }
}

pub open spec fn field_wire(f: Amf0FieldView) -> Seq<u8> {
    match f {
        Amf0FieldView::Number(n) => number_wire(double_bits(n)),
        Amf0FieldView::Text(s) => string_wire(s),
    }
}

/// Object entries: each key with a 16-bit length, then its value.
pub open spec fn entries_wire(e: Seq<(Seq<char>, Amf0FieldView)>) -> Seq<u8>
    decreases e.len(),
{
    if e.len() == 0 {
        Seq::empty()
    } else {
        let k = encode_utf8(e[0].0);
        be16_bytes(k.len()) + k + field_wire(e[0].1) + entries_wire(e.drop_first())
    }
}

/// An AMF0 value as `amf` encodes it; an object ends with an empty key and
/// the end marker.
pub open spec fn value_wire(v: Amf0ValueView) -> Seq<u8> {
    match v {
        Amf0ValueView::Field(f) => field_wire(f),
        Amf0ValueView::Object(e) => seq![OBJECT_MARKER] + entries_wire(e) + seq![
            0u8,
            0u8,
            OBJECT_END_MARKER,
        ],
    }
}

/// Whether a field can be encoded without overflowing a length field.
pub open spec fn field_encodable(f: Amf0FieldView) -> bool {
    match f {
        Amf0FieldView::Number(_) => true,
        Amf0FieldView::Text(s) => s.len() <= MAX_TEXT_CHARS,
    }
}

/// Whether a value can be encoded without overflowing a length field.
pub open spec fn value_encodable(v: Amf0ValueView) -> bool {
    match v {
        Amf0ValueView::Field(f) => field_encodable(f),
        Amf0ValueView::Object(e) => e.len() <= 0xffff_ffff && forall|i: int|
            0 <= i < e.len() ==> e[i].0.len() <= MAX_KEY_CHARS && field_encodable(#[trigger] e[i].1),
    }
}

/// Relies on amf::amf0::Value::write_to: a number is its marker and the
/// double big-endian; a string is its marker, length and UTF-8 bytes; an
/// object is its marker, each key and value, and an empty key with the end
/// marker. It panics on a key over 65535 bytes, a text over 2^32 - 1 bytes
/// or an object of 2^32 entries or more, which `requires` leaves out; writing
/// to a `Vec` cannot fail.
#[verifier::external_body]
pub(crate) fn write_amf0(v: &Amf0Value) -> (r: Vec<u8>)
    requires
        value_encodable(v@),
    ensures
        r@ == value_wire(v@),
{
    let field = |f: &Amf0Field| match f {
        Amf0Field::Number(n) => Value::Number((*n).into()),
        Amf0Field::Text(s) => Value::String(s.clone()),
    };
    let value = match v {
        Amf0Value::Field(f) => field(f),
        Amf0Value::Object(e) => Value::Object { class_name: None, entries: e.iter().map(|(k, f)| Pair { key: k.clone(), value: field(f) }).collect() },
    };
    let mut buf = Vec::new();
    value.write_to(&mut buf).ok();
    buf
}

/// Whether `m` marks a number, a string or null: the values that the command
/// parser reads, none of which nests other values.
pub open spec fn is_scalar_marker(m: u8) -> bool {
    m == NUMBER_MARKER || m == STRING_MARKER || m == NULL_MARKER || m == LONG_STRING_MARKER
}

/// A string value whose UTF-8 bytes start at `start` and run `len` bytes.
pub open spec fn read_text(b: Seq<u8>, start: nat, len: nat) -> Option<(Amf0ScalarView, nat)> {
    if b.len() < start + len || !valid_utf8(b.subrange(start as int, (start + len) as int)) {
        None
    } else {
        Some((Amf0ScalarView::Text(decode_utf8(b.subrange(start as int, (start + len) as int))), start + len))
    }
}

/// What decoding the scalar value at the front of `b` gives: the value and
/// the bytes it took, or `None` where the bytes do not hold one.
pub open spec fn read_scalar_spec(b: Seq<u8>) -> Option<(Amf0ScalarView, nat)> {
    let m = b[0];
    if m == NUMBER_MARKER {
        if b.len() < 9 {
            None
        } else {
            Some((Amf0ScalarView::Number(be64(b, 1) as u64), 9))
        }
    } else if m == NULL_MARKER {
        Some((Amf0ScalarView::Null, 1))
    } else if m == STRING_MARKER {
        if b.len() < 3 {
            None
        } else {
            read_text(b, 3, be16(b, 1))
        }
    } else {
        if b.len() < 5 {
            None
        } else {
            read_text(b, 5, be32(b, 1))
        }
    }
}

#[verifier::external_type_specification]
#[verifier::external_body]
pub struct ExDecodeError(amf::error::DecodeError);

/// Whether `b` starts with a scalar value that the decoder can be handed: a
/// long string must not declare more bytes than follow it, since the decoder
/// allocates the declared length before reading.
pub open spec fn decodable_scalar(b: Seq<u8>) -> bool {
    &&& b.len() > 0
    &&& is_scalar_marker(b[0])
    &&& b[0] == LONG_STRING_MARKER ==> b.len() >= 5 && be32(b, 1) <= b.len() - 5
}

/// Relies on amf::amf0::Value::read_from: a number is eight big-endian bytes
/// after its marker, null is its marker alone, a string is a 16-bit (marker
/// 2) or 32-bit (marker 12) length and that many bytes of valid UTF-8. It
/// fails where the bytes run out or the UTF-8 is invalid, and returns the
/// bytes after the value.
#[verifier::external_body]
pub(crate) fn read_amf0<'a>(bytes: &'a [u8]) -> (r: Result<(Amf0Scalar, &'a [u8]), amf::error::DecodeError>)
    requires
        decodable_scalar(bytes@),
    ensures
        match r {
            Ok((v, rest)) => rest@.len() <= bytes@.len() && read_scalar_spec(bytes@) == Some(
                (v@, (bytes@.len() - rest@.len()) as nat),
            ) && rest@ == bytes@.subrange(bytes@.len() - rest@.len(), bytes@.len() as int),
            Err(_) => read_scalar_spec(bytes@) is None,
        },
{
    let mut rest: &[u8] = bytes;
    let value = match Value::read_from(&mut rest)? {
        Value::Number(n) => Amf0Scalar::Number(n.to_bits()),
        Value::String(s) => Amf0Scalar::Text(s),
        Value::Null => Amf0Scalar::Null,
        _ => Amf0Scalar::Other,
    };
    Ok((value, rest))
}

} // verus!
