//! The wire format of messages: fields in the order of their tags, each a key and a value.

use vstd::prelude::*;
use vstd::utf8::{encode_utf8, encode_utf8_decode_utf8};

verus! {

/// A natural number in base 128, the least significant digit first, with the high bit set on
/// every byte but the last.
pub open spec fn varint(n: nat) -> Seq<u8>
    decreases n,
{
    if n < 128 {
        seq![n as u8]
    } else {
        seq![(n % 128 + 128) as u8] + varint(n / 128)
    }
}

/// The key of a field: its tag and how its value is written.
pub open spec fn field_key(tag: nat, wire_type: nat) -> Seq<u8> {
    varint(8 * tag + wire_type)
}

/// An integer as a natural number of 64 bits, in two's complement.
pub open spec fn as_unsigned(n: i64) -> nat {
    if n >= 0 {
        n as nat
    } else {
        (n + 0x1_0000_0000_0000_0000) as nat
    }
}

/// A field that holds bytes, with their number before them.
pub open spec fn bytes_field(tag: nat, bytes: Seq<u8>) -> Seq<u8> {
    field_key(tag, 2) + varint(bytes.len()) + bytes
}

/// A field that holds a text, in UTF-8.
pub open spec fn string_field(tag: nat, text: Seq<char>) -> Seq<u8> {
    bytes_field(tag, encode_utf8(text))
}

/// A field that holds an integer.
pub open spec fn int64_field(tag: nat, n: i64) -> Seq<u8> {
    field_key(tag, 0) + varint(as_unsigned(n))
}

/// A field of bytes; one that holds none is left out.
pub open spec fn set_bytes(tag: nat, bytes: Seq<u8>) -> Seq<u8> {
    if bytes.len() == 0 {
        seq![]
    } else {
        bytes_field(tag, bytes)
    }
}

/// A field of text; an empty one is left out.
pub open spec fn set_string(tag: nat, text: Seq<char>) -> Seq<u8> {
    if text.len() == 0 {
        seq![]
    } else {
        string_field(tag, text)
    }
}

/// A field of an integer; a zero is left out.
pub open spec fn set_int64(tag: nat, n: i64) -> Seq<u8> {
    if n == 0 {
        seq![]
    } else {
        int64_field(tag, n)
    }
}

/// Whether a number can be the tag of a field.
pub open spec fn is_tag(tag: u32) -> bool {
    1 <= tag <= 0x1fff_ffff
}

/// Calls `prost::encoding::bytes::encode`, which appends a field of bytes.
#[verifier::external_body]
pub(crate) fn put_bytes(tag: u32, value: &Vec<u8>, out: &mut Vec<u8>)
    requires
        is_tag(tag),
    ensures
        final(out)@ == old(out)@ + bytes_field(tag as nat, value@),
{
    prost::encoding::bytes::encode(tag, value, out)
}

/// Calls `prost::encoding::string::encode`, which appends a field of text.
#[verifier::external_body]
pub(crate) fn put_string(tag: u32, value: &String, out: &mut Vec<u8>)
    requires
        is_tag(tag),
    ensures
        final(out)@ == old(out)@ + string_field(tag as nat, value@),
{
    prost::encoding::string::encode(tag, value, out)
}

/// Calls `prost::encoding::int64::encode`, which appends a field of an integer, in two's
/// complement where it is negative.
#[verifier::external_body]
pub(crate) fn put_int64(tag: u32, value: &i64, out: &mut Vec<u8>)
    requires
        is_tag(tag),
    ensures
        final(out)@ == old(out)@ + int64_field(tag as nat, *value),
{
    prost::encoding::int64::encode(tag, value, out)
}

/// Appends a field of bytes, unless it holds none.
pub(crate) fn write_bytes(tag: u32, value: &Vec<u8>, out: &mut Vec<u8>)
    requires
        is_tag(tag),
    ensures
        final(out)@ == old(out)@ + set_bytes(tag as nat, value@),
{
    if value.len() > 0 {
        put_bytes(tag, value, out);
    } else {
        assert(out@ =~= out@ + set_bytes(tag as nat, value@));
    }
}

/// Appends a field of text, unless it is empty.
pub(crate) fn write_string(tag: u32, value: &String, out: &mut Vec<u8>)
    requires
        is_tag(tag),
    ensures
        final(out)@ == old(out)@ + set_string(tag as nat, value@),
{
    if !value.as_str().is_empty() {
        put_string(tag, value, out);
    } else {
        assert(out@ =~= out@ + set_string(tag as nat, value@));
    }
}

/// Appends a field of an integer, unless it is zero.
pub(crate) fn write_int64(tag: u32, value: &i64, out: &mut Vec<u8>)
    requires
        is_tag(tag),
    ensures
        final(out)@ == old(out)@ + set_int64(tag as nat, *value),
{
    if *value != 0 {
        put_int64(tag, value, out);
    } else {
        assert(out@ =~= out@ + set_int64(tag as nat, *value));
    }
}

/// A number in base 128 shows where it ends: what follows it can be told apart from it.
pub proof fn lemma_varint_is_self_delimiting(a: nat, b: nat, x: Seq<u8>, y: Seq<u8>)
    requires
        varint(a) + x == varint(b) + y,
    ensures
        a == b,
        x == y,
    decreases a,
{
    let s = varint(a) + x;
    let t = varint(b) + y;
    assert(s[0] == varint(a)[0]);
    assert(t[0] == varint(b)[0]);
    if a < 128 {
        assert(s.skip(1) =~= x);
        assert(b < 128);
        assert(t.skip(1) =~= y);
    } else {
        assert(b >= 128);
        assert(s.skip(1) =~= varint(a / 128) + x);
        assert(t.skip(1) =~= varint(b / 128) + y);
        lemma_varint_is_self_delimiting(a / 128, b / 128, x, y);
    }
}

/// Whether what follows a field begins, if it is not empty, with a greater key of one byte.
pub open spec fn begins_above(x: Seq<u8>, key: nat) -> bool {
    x.len() == 0 || x[0] > key
}

/// A field of bytes can be told apart from what follows it, whether it is left out or not.
pub proof fn lemma_bytes_are_self_delimiting(
    tag: nat,
    a: Seq<u8>,
    b: Seq<u8>,
    x: Seq<u8>,
    y: Seq<u8>,
)
    requires
        8 * tag + 2 < 128,
        begins_above(x, 8 * tag + 2),
        begins_above(y, 8 * tag + 2),
        set_bytes(tag, a) + x == set_bytes(tag, b) + y,
    ensures
        a == b,
        x == y,
{
    let s = set_bytes(tag, a) + x;
    let t = set_bytes(tag, b) + y;
    if a.len() > 0 {
        assert(s[0] == 8 * tag + 2);
    } else {
        assert(s =~= x);
    }
    if b.len() > 0 {
        assert(t[0] == 8 * tag + 2);
    } else {
        assert(t =~= y);
    }
    if a.len() > 0 && b.len() > 0 {
        assert(s.skip(1) =~= varint(a.len()) + (a + x));
        assert(t.skip(1) =~= varint(b.len()) + (b + y));
        lemma_varint_is_self_delimiting(a.len(), b.len(), a + x, b + y);
        assert(a =~= (a + x).take(a.len() as int));
        assert(b =~= (b + y).take(b.len() as int));
        assert(x =~= (a + x).skip(a.len() as int));
        assert(y =~= (b + y).skip(b.len() as int));
    } else {
        assert(a =~= b);
    }
}

/// The bytes of a text in UTF-8 are none exactly where the text is empty, and are no other text's.
pub proof fn lemma_utf8_determines_the_text(a: Seq<char>, b: Seq<char>)
    ensures
        encode_utf8(a).len() == 0 <==> a.len() == 0,
        encode_utf8(a) == encode_utf8(b) ==> a == b,
{
    encode_utf8_decode_utf8(a);
    encode_utf8_decode_utf8(b);
    if a.len() > 0 {
        if encode_utf8(a).len() == 0 {
            assert(encode_utf8(a) =~= encode_utf8(seq![]));
            encode_utf8_decode_utf8(seq![]);
        }
    }
}

/// A field of text can be told apart from what follows it, whether it is left out or not.
pub proof fn lemma_string_is_self_delimiting(
    tag: nat,
    a: Seq<char>,
    b: Seq<char>,
    x: Seq<u8>,
    y: Seq<u8>,
)
    requires
        8 * tag + 2 < 128,
        begins_above(x, 8 * tag + 2),
        begins_above(y, 8 * tag + 2),
        set_string(tag, a) + x == set_string(tag, b) + y,
    ensures
        a == b,
        x == y,
{
    lemma_utf8_determines_the_text(a, b);
    lemma_utf8_determines_the_text(b, a);
    lemma_bytes_are_self_delimiting(tag, encode_utf8(a), encode_utf8(b), x, y);
}

/// A field of an integer can be told apart from what follows it, whether it is left out or not.
pub proof fn lemma_int64_is_self_delimiting(tag: nat, a: i64, b: i64, x: Seq<u8>, y: Seq<u8>)
    requires
        8 * tag < 128,
        begins_above(x, 8 * tag),
        begins_above(y, 8 * tag),
        set_int64(tag, a) + x == set_int64(tag, b) + y,
    ensures
        a == b,
        x == y,
{
    let s = set_int64(tag, a) + x;
    let t = set_int64(tag, b) + y;
    if a != 0 {
        assert(s[0] == 8 * tag);
    } else {
        assert(s =~= x);
    }
    if b != 0 {
        assert(t[0] == 8 * tag);
    } else {
        assert(t =~= y);
    }
    if a != 0 && b != 0 {
        assert(s.skip(1) =~= varint(as_unsigned(a)) + x);
        assert(t.skip(1) =~= varint(as_unsigned(b)) + y);
        lemma_varint_is_self_delimiting(as_unsigned(a), as_unsigned(b), x, y);
    }
}

/// Fields before others keep what they begin with above a smaller key.
pub proof fn lemma_fields_begin_above(field: Seq<u8>, rest: Seq<u8>, key: nat, below: nat)
    requires
        below < key < 128,
        field.len() == 0 || field[0] == key,
        begins_above(rest, key),
    ensures
        begins_above(field + rest, below),
{
    if field.len() == 0 {
        assert(field + rest =~= rest);
    }
}

} // verus!
