use vstd::prelude::*;
use vstd::utf8::encode_utf8;
use crate::model::KeyFile;

verus! {

/// LEB128 encoding of an unsigned integer: seven bits per byte, least
/// significant first, the high bit set on every byte but the last.
pub open spec fn varint(v: u64) -> Seq<u8>
    decreases v,
{
    if v < 128 {
        seq![v as u8]
    } else {
        seq![(v % 128 + 128) as u8] + varint(v / 128)
    }
}

/// A length-delimited string field: omitted when empty.
pub open spec fn string_field(tag: u64, s: Seq<char>) -> Seq<u8> {
    let b = encode_utf8(s);
    if b.len() == 0 {
        Seq::empty()
    } else {
        varint((tag * 8 + 2) as u64) + varint(b.len() as u64) + b
    }
}

/// A varint integer field: omitted when zero.
pub open spec fn uint_field(tag: u64, v: u64) -> Seq<u8> {
    if v == 0 {
        Seq::empty()
    } else {
        varint((tag * 8) as u64) + varint(v)
    }
}

/// The canonical record encoding of a key file, its fields in tag order.
pub open spec fn key_file_body(kf: KeyFile) -> Seq<u8> {
    string_field(1, kf.product_id@) + string_field(2, kf.product_version@) + string_field(
        3,
        kf.license_code@,
    ) + string_field(4, kf.license_type@) + string_field(5, kf.machine_id@) + uint_field(
        6,
        kf.timestamp,
    ) + uint_field(7, kf.expiration_timestamp) + uint_field(8, kf.check_back_timestamp)
        + string_field(9, kf.message@) + uint_field(10, kf.message_code as u64) + uint_field(
        11,
        kf.post_expiration_error_code as u64,
    )
}

/// The length-delimited encoding of a key file: the bytes its signature covers.
pub open spec fn key_file_wire(kf: KeyFile) -> Seq<u8> {
    varint(key_file_body(kf).len() as u64) + key_file_body(kf)
}

/// Relies on prost's `encoding::encode_varint`, which appends the LEB128
/// encoding of the value.
#[verifier::external_body]
fn put_varint(value: u64, buf: &mut Vec<u8>)
    ensures
        final(buf)@ == old(buf)@ + varint(value),
{
    prost::encoding::encode_varint(value, buf)
}

fn put_bytes(buf: &mut Vec<u8>, b: &[u8])
    ensures
        final(buf)@ == old(buf)@ + b@,
{
    let ghost start = buf@;
    let mut i: usize = 0;
    while i < b.len()
        invariant
            i <= b@.len(),
            buf@ == start + b@.subrange(0, i as int),
        decreases b@.len() - i,
    {
        buf.push(b[i]);
        i = i + 1;
        assert(buf@ =~= start + b@.subrange(0, i as int));
    }
    assert(b@.subrange(0, b@.len() as int) =~= b@);
}

fn put_string_field(buf: &mut Vec<u8>, tag: u64, s: &String)
    requires
        1 <= tag <= 15,
    ensures
        final(buf)@ == old(buf)@ + string_field(tag, s@),
{
    let b = s.as_str().as_bytes();
    if b.len() > 0 {
        put_varint(tag * 8 + 2, buf);
        put_varint(b.len() as u64, buf);
        put_bytes(buf, b);
        assert(buf@ =~= old(buf)@ + string_field(tag, s@));
    } else {
        assert(buf@ =~= old(buf)@ + string_field(tag, s@));
    }
}

fn put_uint_field(buf: &mut Vec<u8>, tag: u64, v: u64)
    requires
        1 <= tag <= 15,
    ensures
        final(buf)@ == old(buf)@ + uint_field(tag, v),
{
    if v != 0 {
        put_varint(tag * 8, buf);
        put_varint(v, buf);
        assert(buf@ =~= old(buf)@ + uint_field(tag, v));
    } else {
        assert(buf@ =~= old(buf)@ + uint_field(tag, v));
    }
}

/// Encodes a key file the way its signature was computed.
pub fn encode_key_file(kf: &KeyFile) -> (r: Vec<u8>)
    ensures
        r@ == key_file_wire(*kf),
{
    let mut body: Vec<u8> = Vec::new();
    put_string_field(&mut body, 1, &kf.product_id);
    put_string_field(&mut body, 2, &kf.product_version);
    put_string_field(&mut body, 3, &kf.license_code);
    put_string_field(&mut body, 4, &kf.license_type);
    put_string_field(&mut body, 5, &kf.machine_id);
    put_uint_field(&mut body, 6, kf.timestamp);
    put_uint_field(&mut body, 7, kf.expiration_timestamp);
    put_uint_field(&mut body, 8, kf.check_back_timestamp);
    put_string_field(&mut body, 9, &kf.message);
    put_uint_field(&mut body, 10, kf.message_code as u64);
    put_uint_field(&mut body, 11, kf.post_expiration_error_code as u64);
    assert(body@ =~= key_file_body(*kf));
    let mut out: Vec<u8> = Vec::new();
    put_varint(body.len() as u64, &mut out);
    put_bytes(&mut out, body.as_slice());
    assert(out@ =~= key_file_wire(*kf));
    out
}

} // verus!
