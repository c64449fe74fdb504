//! The protobuf wire format of the messages the contract sends: varints, field
//! keys, length-delimited fields, and proto3 scalar fields, which are left out
//! when they hold their default value.
use vstd::prelude::*;
use vstd::utf8::encode_utf8;

verus! {

/// The largest field number protobuf allows.
pub const MAX_TAG: u32 = 536_870_911;

/// The wire type of a varint field.
pub const WIRE_VARINT: u32 = 0;

/// The wire type of a length-delimited field.
pub const WIRE_LENGTH_DELIMITED: u32 = 2;

/// The base-128 varint of `n`: seven bits per byte, least significant first, the
/// high bit set on every byte but the last.
pub open spec fn varint(n: nat) -> Seq<u8>
    decreases n,
{
    if n < 128 {
        seq![n as u8]
    } else {
        seq![(n % 128 + 128) as u8] + varint(n / 128)
    }
}

/// The key of field `tag` with `wire_type`: the varint of `tag * 8 + wire_type`.
pub open spec fn field_key(tag: nat, wire_type: nat) -> Seq<u8> {
    varint(tag * 8 + wire_type)
}

/// A length-delimited field: its key, the length of `body`, then `body`.
pub open spec fn length_delimited(tag: nat, body: Seq<u8>) -> Seq<u8> {
    field_key(tag, 2) + varint(body.len()) + body
}

/// A proto3 `bytes` field: left out when empty.
pub open spec fn bytes_field(tag: nat, b: Seq<u8>) -> Seq<u8> {
    if b.len() == 0 {
        Seq::empty()
    } else {
        length_delimited(tag, b)
    }
}

/// A proto3 `string` field: its UTF-8 bytes, left out when empty.
pub open spec fn string_field(tag: nat, s: Seq<char>) -> Seq<u8> {
    bytes_field(tag, encode_utf8(s))
}

/// A proto3 `uint64` field: left out when zero.
pub open spec fn uint64_field(tag: nat, v: u64) -> Seq<u8> {
    if v == 0 {
        Seq::empty()
    } else {
        field_key(tag, 0) + varint(v as nat)
    }
}

/// prost's `encoding::encode_varint`: appends the varint of `value` to `buf`.
/// Trusted: states the base-128 encoding the function writes.
#[verifier::external_body]
fn put_varint(value: u64, buf: &mut Vec<u8>)
    ensures
        final(buf)@ == old(buf)@ + varint(value as nat),
{
    prost::encoding::encode_varint(value, buf);
}

/// Appends the key of field `tag` with `wire_type`.
pub fn put_key(tag: u32, wire_type: u32, buf: &mut Vec<u8>)
    requires
        1 <= tag <= MAX_TAG,
        wire_type < 8,
    ensures
        final(buf)@ == old(buf)@ + field_key(tag as nat, wire_type as nat),
{
    put_varint((tag as u64) * 8 + (wire_type as u64), buf);
}

/// Appends `bytes`.
pub fn put_bytes(bytes: &[u8], buf: &mut Vec<u8>)
    ensures
        final(buf)@ == old(buf)@ + bytes@,
{
    let ghost start = buf@;
    let mut i: usize = 0;
    while i < bytes.len()
        invariant
            i <= bytes@.len(),
            buf@ == start + bytes@.take(i as int),
        decreases bytes@.len() - i,
    {
        buf.push(bytes[i]);
        assert(bytes@.take(i + 1) =~= bytes@.take(i as int).push(bytes@[i as int]));
        i = i + 1;
    }
    assert(bytes@.take(bytes@.len() as int) =~= bytes@);
}

/// Appends `body` as the length-delimited field `tag`.
pub fn put_length_delimited(tag: u32, body: &[u8], buf: &mut Vec<u8>)
    requires
        1 <= tag <= MAX_TAG,
    ensures
        final(buf)@ == old(buf)@ + length_delimited(tag as nat, body@),
{
    let ghost start = buf@;
    put_key(tag, WIRE_LENGTH_DELIMITED, buf);
    put_varint(body.len() as u64, buf);
    put_bytes(body, buf);
    assert(buf@ =~= start + length_delimited(tag as nat, body@));
}

/// Appends the `bytes` field `tag`.
pub fn put_bytes_field(tag: u32, b: &[u8], buf: &mut Vec<u8>)
    requires
        1 <= tag <= MAX_TAG,
    ensures
        final(buf)@ == old(buf)@ + bytes_field(tag as nat, b@),
{
    if b.len() == 0 {
        assert(old(buf)@ + bytes_field(tag as nat, b@) =~= old(buf)@);
    } else {
        put_length_delimited(tag, b, buf);
    }
}

/// Appends the `string` field `tag`.
pub fn put_string_field(tag: u32, s: &str, buf: &mut Vec<u8>)
    requires
        1 <= tag <= MAX_TAG,
    ensures
        final(buf)@ == old(buf)@ + string_field(tag as nat, s@),
{
    put_bytes_field(tag, s.as_bytes(), buf);
}

/// Appends the `uint64` field `tag`.
pub fn put_uint64_field(tag: u32, v: u64, buf: &mut Vec<u8>)
    requires
        1 <= tag <= MAX_TAG,
    ensures
        final(buf)@ == old(buf)@ + uint64_field(tag as nat, v),
{
    if v == 0 {
        assert(old(buf)@ + uint64_field(tag as nat, v) =~= old(buf)@);
    } else {
        let ghost start = buf@;
        put_key(tag, WIRE_VARINT, buf);
        put_varint(v, buf);
        assert(buf@ =~= start + uint64_field(tag as nat, v));
    }
}

} // verus!
