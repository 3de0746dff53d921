//! Encoders of the primitive fields, little-endian throughout, with the
//! byte sequences they produce stated as spec functions.
use crate::connection_attrs::PacketProtVer;
use vstd::prelude::*;
use vstd::string::*;
use vstd::utf8::*;

verus! {

/// The four little-endian bytes of `v`.
pub open spec fn u32_le(v: u32) -> Seq<u8> {
    seq![v as u8, (v >> 8u32) as u8, (v >> 16u32) as u8, (v >> 24u32) as u8]
}

/// The eight little-endian bytes of `v`.
pub open spec fn u64_le(v: u64) -> Seq<u8> {
    seq![
        v as u8,
        (v >> 8u64) as u8,
        (v >> 16u64) as u8,
        (v >> 24u64) as u8,
        (v >> 32u64) as u8,
        (v >> 40u64) as u8,
        (v >> 48u64) as u8,
        (v >> 56u64) as u8,
    ]
}

/// A 32-bit two's-complement integer on the wire.
pub open spec fn i32_le(v: i32) -> Seq<u8> {
    u32_le(v as u32)
}

/// A 64-bit two's-complement integer on the wire.
pub open spec fn i64_le(v: i64) -> Seq<u8> {
    u64_le(v as u64)
}

/// A flag on the wire: one byte, 1 for true and 0 for false.
pub open spec fn bool_byte(v: bool) -> Seq<u8> {
    seq![if v { 1u8 } else { 0u8 }]
}

/// A "legacy long": truncated to its low 32 bits under protocol versions
/// below 2, all 64 bits otherwise.
pub open spec fn long_le(v: i64, protocol_version: i32) -> Seq<u8> {
    if protocol_version < 2 {
        i32_le(v as i32)
    } else {
        i64_le(v)
    }
}

/// A byte array on the wire: its length as a 32-bit integer, then the bytes.
pub open spec fn byte_array_bytes(b: Seq<u8>) -> Seq<u8> {
    i32_le(b.len() as i32) + b
}

/// The greatest character boundary of `b` that is at most `i`.
pub open spec fn boundary_at_or_below(b: Seq<u8>, i: nat) -> nat
    decreases i,
{
    if i == 0 || is_char_boundary(b, i as int) {
        i
    } else {
        boundary_at_or_below(b, (i - 1) as nat)
    }
}

/// How many of the UTF-8 bytes `b` of a string a pascal string keeps: all of
/// them up to 255, else the longest prefix of whole characters that fits.
pub open spec fn pascal_len(b: Seq<u8>) -> nat {
    if b.len() <= 255 {
        b.len()
    } else {
        boundary_at_or_below(b, 255)
    }
}

/// A pascal string on the wire: one length byte, then that many UTF-8 bytes.
pub open spec fn pascal_string(s: Seq<char>) -> Seq<u8> {
    let b = encode_utf8(s);
    seq![pascal_len(b) as u8] + b.subrange(0, pascal_len(b) as int)
}

/// The strings that a pascal string carries whole.
pub open spec fn fits_pascal(s: Seq<char>) -> bool {
    encode_utf8(s).len() <= 255
}

pub proof fn lemma_boundary_at_or_below(b: Seq<u8>, i: nat)
    requires
        valid_utf8(b),
    ensures
        boundary_at_or_below(b, i) <= i,
        is_char_boundary(b, boundary_at_or_below(b, i) as int),
    decreases i,
{
    reveal_with_fuel(is_char_boundary, 1);
    if i != 0 && !is_char_boundary(b, i as int) {
        lemma_boundary_at_or_below(b, (i - 1) as nat);
    }
}

/// The encodings of the items of `s`, one after another.
pub open spec fn flat_map<T>(s: Seq<T>, f: spec_fn(T) -> Seq<u8>) -> Seq<u8>
    decreases s.len(),
{
    if s.len() == 0 {
        seq![]
    } else {
        f(s[0]) + flat_map(s.drop_first(), f)
    }
}

pub proof fn lemma_flat_map_push<T>(s: Seq<T>, x: T, f: spec_fn(T) -> Seq<u8>)
    ensures
        flat_map(s.push(x), f) == flat_map(s, f) + f(x),
    decreases s.len(),
{
    if s.len() == 0 {
        assert(s.push(x).drop_first() =~= s);
        assert(flat_map(s.push(x), f) =~= flat_map(s, f) + f(x));
    } else {
        assert(s.push(x).drop_first() =~= s.drop_first().push(x));
        lemma_flat_map_push(s.drop_first(), x, f);
        assert(flat_map(s.push(x), f) =~= flat_map(s, f) + f(x));
    }
}

/// Appending the item at `i` extends the encoding of the first `i` items.
pub proof fn lemma_flat_map_take<T>(s: Seq<T>, i: int, f: spec_fn(T) -> Seq<u8>)
    requires
        0 <= i < s.len(),
    ensures
        flat_map(s.take(i + 1), f) == flat_map(s.take(i), f) + f(s[i]),
{
    assert(s.take(i + 1) =~= s.take(i).push(s[i]));
    lemma_flat_map_push(s.take(i), s[i], f);
}

/// A list on the wire: its length as a 32-bit integer, then the items.
pub open spec fn list_bytes<T>(e: Seq<T>, f: spec_fn(T) -> Seq<u8>) -> Seq<u8> {
    i32_le(e.len() as i32) + flat_map(e, f)
}

/// Appends one byte.
pub fn serialize_byte(data: &mut Vec<u8>, v: u8)
    ensures
        final(data)@ == old(data)@.push(v),
{
    data.push(v);
}

/// Appends a flag as one byte.
pub fn serialize_bool(data: &mut Vec<u8>, v: bool)
    ensures
        final(data)@ == old(data)@ + bool_byte(v),
{
    if v {
        data.push(1);
    } else {
        data.push(0);
    }
}

fn push_u32(data: &mut Vec<u8>, v: u32)
    ensures
        final(data)@ == old(data)@ + u32_le(v),
{
    data.push(v as u8);
    data.push((v >> 8u32) as u8);
    data.push((v >> 16u32) as u8);
    data.push((v >> 24u32) as u8);
}

fn push_u64(data: &mut Vec<u8>, v: u64)
    ensures
        final(data)@ == old(data)@ + u64_le(v),
{
    data.push(v as u8);
    data.push((v >> 8u64) as u8);
    data.push((v >> 16u64) as u8);
    data.push((v >> 24u64) as u8);
    data.push((v >> 32u64) as u8);
    data.push((v >> 40u64) as u8);
    data.push((v >> 48u64) as u8);
    data.push((v >> 56u64) as u8);
}

/// Appends a 32-bit integer in four little-endian bytes.
pub fn serialize_i32(data: &mut Vec<u8>, v: i32)
    ensures
        final(data)@ == old(data)@ + i32_le(v),
{
    push_u32(data, v as u32);
}

/// Appends a 64-bit integer in eight little-endian bytes.
pub fn serialize_i64(data: &mut Vec<u8>, v: i64)
    ensures
        final(data)@ == old(data)@ + i64_le(v),
{
    push_u64(data, v as u64);
}

fn push_bytes(data: &mut Vec<u8>, v: &[u8], n: usize)
    requires
        n <= v@.len(),
    ensures
        final(data)@ == old(data)@ + v@.subrange(0, n as int),
{
    let ghost start = data@;
    let mut i: usize = 0;
    while i < n
        invariant
            i <= n,
            n <= v@.len(),
            data@ == start + v@.subrange(0, i as int),
        decreases n - i,
    {
        data.push(v[i]);
        i = i + 1;
        assert(data@ =~= start + v@.subrange(0, i as int));
    }
}

/// Appends a legacy long: its low 32 bits under protocol versions below 2,
/// all 64 bits otherwise.
pub fn serialize_long(payload: &mut Vec<u8>, value: i64, ver: &PacketProtVer)
    ensures
        final(payload)@ == old(payload)@ + long_le(value, ver.protocol_version),
{
    if ver.protocol_version < 2 {
        serialize_i32(payload, value as i32);
    } else {
        serialize_i64(payload, value);
    }
}

/// Appends a pascal string. A string of more than 255 UTF-8 bytes is cut to
/// its longest prefix of whole characters that fits in 255 bytes.
pub fn serialize_pascal_string(data: &mut Vec<u8>, s: &str)
    ensures
        final(data)@ == old(data)@ + pascal_string(s@),
{
    let bytes = s.as_bytes();
    let ghost b = encode_utf8(s@);
    assert(bytes@ == b);
    let len = bytes.len();
    let mut n: usize = if len <= 255 {
        len
    } else {
        255
    };
    if len > 255 {
        while n > 0 && !s.is_char_boundary(n)
            invariant
                n <= 255,
                b.len() > 255,
                s.spec_bytes() == b,
                boundary_at_or_below(b, n as nat) == boundary_at_or_below(b, 255),
            decreases n,
        {
            n = n - 1;
        }
    }
    assert(n == pascal_len(b));
    proof {
        encode_utf8_valid_utf8(s@);
        lemma_boundary_at_or_below(b, 255);
    }
    data.push(n as u8);
    push_bytes(data, bytes, n);
    assert(data@ =~= old(data)@ + pascal_string(s@));
}

/// Appends a byte array: its length in four bytes, then the bytes.
pub fn serialize_byte_array(data: &mut Vec<u8>, v: &[u8])
    requires
        v@.len() <= i32::MAX,
    ensures
        final(data)@ == old(data)@ + byte_array_bytes(v@),
{
    serialize_i32(data, v.len() as i32);
    push_bytes(data, v, v.len());
    assert(v@.subrange(0, v@.len() as int) =~= v@);
    assert(data@ =~= old(data)@ + byte_array_bytes(v@));
}

} // verus!
