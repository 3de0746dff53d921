//! Decoders of the primitive fields. Each reads from a byte buffer at a
//! position and returns the value with the position after it. What each one
//! returns is stated by a spec parser over the buffer's bytes; the lemmas
//! beside them say that each parser reads back what the matching encoder of
//! `common_serializers` wrote.
use crate::common_serializers::{
    bool_byte, byte_array_bytes, fits_pascal, flat_map, i32_le, i64_le, list_bytes, long_le,
    pascal_string, u64_le,
};
use crate::my_sb_socket_error::MySbSocketError;
use vstd::prelude::*;
use vstd::utf8::*;

verus! {

/// Declares std's error of `String::from_utf8`, which `bytes_to_string`
/// returns.
#[verifier::external_type_specification]
#[verifier::external_body]
pub struct ExFromUtf8Error(std::string::FromUtf8Error);

/// Relies on `String::from_utf8`: it succeeds exactly when the bytes are
/// valid UTF-8, and the string then holds the characters that they encode.
#[verifier::external_body]
fn bytes_to_string(bytes: Vec<u8>) -> (r: Result<String, std::string::FromUtf8Error>)
    ensures
        r is Ok <==> valid_utf8(bytes@),
        r matches Ok(s) ==> s@ == decode_utf8(bytes@),
{
    String::from_utf8(bytes)
}

/// What a spec parser gives: the value read and the position after it.
pub type Parsed<V> = Result<(V, int), MySbSocketError>;

/// An executable read `r` agrees with the spec parser's result `s`.
pub open spec fn read_outcome<V: View>(
    r: Result<(V, usize), MySbSocketError>,
    s: Parsed<V::V>,
) -> bool {
    match r {
        Ok((v, p)) => s == Ok::<(V::V, int), MySbSocketError>((v@, p as int)),
        Err(e) => s == Err::<(V::V, int), MySbSocketError>(e),
    }
}

/// `s` holds the bytes `e` from position `pos` on.
pub open spec fn holds_at(s: Seq<u8>, pos: int, e: Seq<u8>) -> bool {
    &&& 0 <= pos
    &&& pos + e.len() <= s.len()
    &&& s.subrange(pos, pos + e.len()) == e
}

/// Where `a + b` stands, `a` stands and `b` follows it.
pub proof fn lemma_split(s: Seq<u8>, pos: int, a: Seq<u8>, b: Seq<u8>)
    requires
        holds_at(s, pos, a + b),
    ensures
        holds_at(s, pos, a),
        holds_at(s, pos + a.len(), b),
{
    let w = s.subrange(pos, pos + a.len() + b.len());
    assert(w == a + b);
    assert(s.subrange(pos, pos + a.len()) =~= w.subrange(0, a.len() as int));
    assert(w.subrange(0, a.len() as int) =~= a);
    assert(s.subrange(pos + a.len(), pos + a.len() + b.len()) =~= w.subrange(
        a.len() as int,
        (a.len() + b.len()) as int,
    ));
    assert(w.subrange(a.len() as int, (a.len() + b.len()) as int) =~= b);
}

/// A byte sequence stands at the start of itself.
pub proof fn lemma_holds_whole(s: Seq<u8>)
    ensures
        holds_at(s, 0, s),
{
    assert(s.subrange(0, s.len() as int) =~= s);
}

pub open spec fn u32_from_le(b0: u8, b1: u8, b2: u8, b3: u8) -> u32 {
    (b0 as u32) | ((b1 as u32) << 8u32) | ((b2 as u32) << 16u32) | ((b3 as u32) << 24u32)
}

pub open spec fn u64_from_le(b: Seq<u8>) -> u64
    recommends
        b.len() == 8,
{
    (b[0] as u64) | ((b[1] as u64) << 8u64) | ((b[2] as u64) << 16u64) | ((b[3] as u64) << 24u64)
        | ((b[4] as u64) << 32u64) | ((b[5] as u64) << 40u64) | ((b[6] as u64) << 48u64) | ((
    b[7] as u64) << 56u64)
}

pub open spec fn parse_byte(s: Seq<u8>, pos: int) -> Parsed<u8> {
    if 0 <= pos < s.len() {
        Ok((s[pos], pos + 1))
    } else {
        Err(MySbSocketError::SocketDisconnected)
    }
}

/// Any nonzero byte reads as true.
pub open spec fn parse_bool(s: Seq<u8>, pos: int) -> Parsed<bool> {
    match parse_byte(s, pos) {
        Ok((b, p)) => Ok((b > 0, p)),
        Err(e) => Err(e),
    }
}

pub open spec fn parse_i32(s: Seq<u8>, pos: int) -> Parsed<i32> {
    if 0 <= pos && pos + 4 <= s.len() {
        Ok((u32_from_le(s[pos], s[pos + 1], s[pos + 2], s[pos + 3]) as i32, pos + 4))
    } else {
        Err(MySbSocketError::SocketDisconnected)
    }
}

pub open spec fn parse_i64(s: Seq<u8>, pos: int) -> Parsed<i64> {
    if 0 <= pos && pos + 8 <= s.len() {
        Ok((u64_from_le(s.subrange(pos, pos + 8)) as i64, pos + 8))
    } else {
        Err(MySbSocketError::SocketDisconnected)
    }
}

/// A legacy long: 32 bits sign-extended under protocol versions below 2,
/// 64 bits otherwise.
pub open spec fn parse_long(s: Seq<u8>, pos: int, protocol_version: i32) -> Parsed<i64> {
    if protocol_version < 2 {
        match parse_i32(s, pos) {
            Ok((v, p)) => Ok((v as i64, p)),
            Err(e) => Err(e),
        }
    } else {
        parse_i64(s, pos)
    }
}

/// A negative length is refused; a length beyond the end of the input is
/// truncated input.
pub open spec fn parse_byte_array(s: Seq<u8>, pos: int) -> Parsed<Seq<u8>> {
    match parse_i32(s, pos) {
        Err(e) => Err(e),
        Ok((n, p)) => if n < 0 {
            Err(MySbSocketError::ErrorReadingSize)
        } else if p + n <= s.len() {
            Ok((s.subrange(p, p + n), p + n))
        } else {
            Err(MySbSocketError::SocketDisconnected)
        },
    }
}

pub open spec fn parse_pascal_string(s: Seq<u8>, pos: int) -> Parsed<Seq<char>> {
    match parse_byte(s, pos) {
        Err(e) => Err(e),
        Ok((n, p)) => if p + n > s.len() {
            Err(MySbSocketError::SocketDisconnected)
        } else if !valid_utf8(s.subrange(p, p + n)) {
            Err(MySbSocketError::ParsingUtf8StringError)
        } else {
            Ok((decode_utf8(s.subrange(p, p + n)), p + n))
        },
    }
}

proof fn lemma_u32_round_trip(v: u32)
    ensures
        u32_from_le(v as u8, (v >> 8u32) as u8, (v >> 16u32) as u8, (v >> 24u32) as u8) == v,
{
    assert(u32_from_le(v as u8, (v >> 8u32) as u8, (v >> 16u32) as u8, (v >> 24u32) as u8) == v)
        by (bit_vector);
}

proof fn lemma_u64_round_trip(v: u64)
    ensures
        u64_from_le(u64_le(v)) == v,
{
    let b = u64_le(v);
    let (b0, b1, b2, b3, b4, b5, b6, b7) = (b[0], b[1], b[2], b[3], b[4], b[5], b[6], b[7]);
    assert(b0 == v as u8 && b1 == (v >> 8u64) as u8 && b2 == (v >> 16u64) as u8 && b3 == (v
        >> 24u64) as u8 && b4 == (v >> 32u64) as u8 && b5 == (v >> 40u64) as u8 && b6 == (v
        >> 48u64) as u8 && b7 == (v >> 56u64) as u8);
    assert(b0 == v as u8 && b1 == (v >> 8u64) as u8 && b2 == (v >> 16u64) as u8 && b3 == (v
        >> 24u64) as u8 && b4 == (v >> 32u64) as u8 && b5 == (v >> 40u64) as u8 && b6 == (v
        >> 48u64) as u8 && b7 == (v >> 56u64) as u8 ==> (b0 as u64) | ((b1 as u64) << 8u64) | ((
    b2 as u64) << 16u64) | ((b3 as u64) << 24u64) | ((b4 as u64) << 32u64) | ((b5 as u64)
        << 40u64) | ((b6 as u64) << 48u64) | ((b7 as u64) << 56u64) == v) by (bit_vector);
}

pub proof fn lemma_parse_byte(s: Seq<u8>, pos: int, v: u8)
    requires
        holds_at(s, pos, seq![v]),
    ensures
        parse_byte(s, pos) == Ok::<(u8, int), MySbSocketError>((v, pos + 1)),
{
    assert(s[pos] == s.subrange(pos, pos + 1)[0]);
}

pub proof fn lemma_parse_bool(s: Seq<u8>, pos: int, v: bool)
    requires
        holds_at(s, pos, bool_byte(v)),
    ensures
        parse_bool(s, pos) == Ok::<(bool, int), MySbSocketError>((v, pos + 1)),
{
    assert(s[pos] == s.subrange(pos, pos + 1)[0]);
}

pub proof fn lemma_parse_i32(s: Seq<u8>, pos: int, v: i32)
    requires
        holds_at(s, pos, i32_le(v)),
    ensures
        parse_i32(s, pos) == Ok::<(i32, int), MySbSocketError>((v, pos + 4)),
{
    let e = i32_le(v);
    assert(s[pos] == e[0] && s[pos + 1] == e[1] && s[pos + 2] == e[2] && s[pos + 3] == e[3]) by {
        assert(s.subrange(pos, pos + 4)[0] == s[pos]);
        assert(s.subrange(pos, pos + 4)[1] == s[pos + 1]);
        assert(s.subrange(pos, pos + 4)[2] == s[pos + 2]);
        assert(s.subrange(pos, pos + 4)[3] == s[pos + 3]);
    }
    lemma_u32_round_trip(v as u32);
    assert((v as u32) as i32 == v) by (bit_vector);
}

pub proof fn lemma_parse_i64(s: Seq<u8>, pos: int, v: i64)
    requires
        holds_at(s, pos, i64_le(v)),
    ensures
        parse_i64(s, pos) == Ok::<(i64, int), MySbSocketError>((v, pos + 8)),
{
    lemma_u64_round_trip(v as u64);
    assert((v as u64) as i64 == v) by (bit_vector);
}

/// Reading a legacy long back gives the value truncated to 32 bits and
/// sign-extended under protocol versions below 2, the value itself otherwise.
pub proof fn lemma_parse_long(s: Seq<u8>, pos: int, v: i64, protocol_version: i32)
    requires
        holds_at(s, pos, long_le(v, protocol_version)),
    ensures
        parse_long(s, pos, protocol_version) == Ok::<(i64, int), MySbSocketError>(
            (
                if protocol_version < 2 {
                    (v as i32) as i64
                } else {
                    v
                },
                pos + long_le(v, protocol_version).len(),
            ),
        ),
{
    if protocol_version < 2 {
        lemma_parse_i32(s, pos, v as i32);
    } else {
        lemma_parse_i64(s, pos, v);
    }
}

pub proof fn lemma_parse_byte_array(s: Seq<u8>, pos: int, b: Seq<u8>)
    requires
        b.len() <= i32::MAX,
        holds_at(s, pos, byte_array_bytes(b)),
    ensures
        parse_byte_array(s, pos) == Ok::<(Seq<u8>, int), MySbSocketError>(
            (b, pos + byte_array_bytes(b).len()),
        ),
{
    let e = byte_array_bytes(b);
    assert(s.subrange(pos, pos + 4) =~= e.subrange(0, 4));
    assert(e.subrange(0, 4) =~= i32_le(b.len() as i32));
    lemma_parse_i32(s, pos, b.len() as i32);
    assert(s.subrange(pos + 4, pos + 4 + b.len()) =~= e.subrange(4, e.len() as int));
    assert(e.subrange(4, e.len() as int) =~= b);
}

pub proof fn lemma_parse_pascal_string(s: Seq<u8>, pos: int, c: Seq<char>)
    requires
        fits_pascal(c),
        holds_at(s, pos, pascal_string(c)),
    ensures
        parse_pascal_string(s, pos) == Ok::<(Seq<char>, int), MySbSocketError>(
            (c, pos + pascal_string(c).len()),
        ),
{
    let e = pascal_string(c);
    let b = encode_utf8(c);
    assert(b.subrange(0, b.len() as int) =~= b);
    assert(s[pos] == e[0]) by {
        assert(s.subrange(pos, pos + e.len())[0] == s[pos]);
    }
    assert(s.subrange(pos + 1, pos + 1 + b.len()) =~= b) by {
        assert(s.subrange(pos + 1, pos + 1 + b.len()) =~= s.subrange(pos, pos + e.len()).subrange(
            1,
            e.len() as int,
        ));
    }
    encode_utf8_valid_utf8(c);
    encode_utf8_decode_utf8(c);
}

/// Reads `count` items with `item`, appending each to `acc`.
pub open spec fn parse_items<T>(
    s: Seq<u8>,
    pos: int,
    count: nat,
    acc: Seq<T>,
    item: spec_fn(Seq<u8>, int) -> Parsed<T>,
) -> Parsed<Seq<T>>
    decreases count,
{
    if count == 0 {
        Ok((acc, pos))
    } else {
        match item(s, pos) {
            Err(e) => Err(e),
            Ok((x, p)) => parse_items(s, p, (count - 1) as nat, acc.push(x), item),
        }
    }
}

/// A list: a 32-bit count, refused when negative, then that many items.
pub open spec fn parse_list<T>(
    s: Seq<u8>,
    pos: int,
    item: spec_fn(Seq<u8>, int) -> Parsed<T>,
) -> Parsed<Seq<T>> {
    match parse_i32(s, pos) {
        Err(e) => Err(e),
        Ok((n, p)) => if n < 0 {
            Err(MySbSocketError::ErrorReadingSize)
        } else {
            parse_items(s, p, n as nat, Seq::empty(), item)
        },
    }
}

/// `item` reads back each item of `e` as `back` of it, wherever its
/// encoding stands in `s`.
pub open spec fn reads_back<U, T>(
    s: Seq<u8>,
    e: Seq<U>,
    f: spec_fn(U) -> Seq<u8>,
    item: spec_fn(Seq<u8>, int) -> Parsed<T>,
    back: spec_fn(U) -> T,
) -> bool {
    forall|i: int, p: int|
        0 <= i < e.len() && #[trigger] holds_at(s, p, f(e[i])) ==> #[trigger] item(s, p) == Ok::<
            (T, int),
            MySbSocketError,
        >((back(e[i]), p + f(e[i]).len()))
}

pub proof fn lemma_parse_items<U, T>(
    s: Seq<u8>,
    pos: int,
    e: Seq<U>,
    acc: Seq<T>,
    f: spec_fn(U) -> Seq<u8>,
    item: spec_fn(Seq<u8>, int) -> Parsed<T>,
    back: spec_fn(U) -> T,
)
    requires
        holds_at(s, pos, flat_map(e, f)),
        reads_back(s, e, f, item, back),
    ensures
        parse_items(s, pos, e.len(), acc, item) == Ok::<(Seq<T>, int), MySbSocketError>(
            (acc + e.map_values(back), pos + flat_map(e, f).len()),
        ),
    decreases e.len(),
{
    if e.len() == 0 {
        assert(acc + e.map_values(back) =~= acc);
    } else {
        let x = f(e[0]);
        let rest = flat_map(e.drop_first(), f);
        let all = flat_map(e, f);
        assert(all == x + rest);
        assert(s.subrange(pos, pos + x.len()) =~= x) by {
            assert(s.subrange(pos, pos + x.len()) =~= s.subrange(pos, pos + all.len()).subrange(
                0,
                x.len() as int,
            ));
        }
        assert(holds_at(s, pos, f(e[0])));
        assert(item(s, pos) == Ok::<(T, int), MySbSocketError>((back(e[0]), pos + x.len())));
        let p = pos + x.len();
        assert(s.subrange(p, p + rest.len()) =~= rest) by {
            assert(s.subrange(p, p + rest.len()) =~= s.subrange(pos, pos + all.len()).subrange(
                x.len() as int,
                all.len() as int,
            ));
        }
        assert(reads_back(s, e.drop_first(), f, item, back)) by {
            assert forall|i: int, q: int|
                0 <= i < e.drop_first().len() && #[trigger] holds_at(
                    s,
                    q,
                    f(e.drop_first()[i]),
                ) implies #[trigger] item(s, q) == Ok::<(T, int), MySbSocketError>(
                (back(e.drop_first()[i]), q + f(e.drop_first()[i]).len()),
            ) by {
                assert(e.drop_first()[i] == e[i + 1]);
            }
        }
        lemma_parse_items(s, p, e.drop_first(), acc.push(back(e[0])), f, item, back);
        assert(acc.push(back(e[0])) + e.drop_first().map_values(back) =~= acc + e.map_values(
            back,
        ));
    }
}

pub proof fn lemma_parse_list<U, T>(
    s: Seq<u8>,
    pos: int,
    e: Seq<U>,
    f: spec_fn(U) -> Seq<u8>,
    item: spec_fn(Seq<u8>, int) -> Parsed<T>,
    back: spec_fn(U) -> T,
)
    requires
        e.len() <= i32::MAX,
        holds_at(s, pos, list_bytes(e, f)),
        reads_back(s, e, f, item, back),
    ensures
        parse_list(s, pos, item) == Ok::<(Seq<T>, int), MySbSocketError>(
            (e.map_values(back), pos + list_bytes(e, f).len()),
        ),
{
    let all = list_bytes(e, f);
    let items = flat_map(e, f);
    assert(s.subrange(pos, pos + 4) =~= i32_le(e.len() as i32)) by {
        assert(s.subrange(pos, pos + 4) =~= s.subrange(pos, pos + all.len()).subrange(0, 4));
    }
    lemma_parse_i32(s, pos, e.len() as i32);
    assert(s.subrange(pos + 4, pos + 4 + items.len()) =~= items) by {
        assert(s.subrange(pos + 4, pos + 4 + items.len()) =~= s.subrange(pos, pos + all.len()).subrange(
            4,
            all.len() as int,
        ));
    }
    lemma_parse_items(s, pos + 4, e, Seq::empty(), f, item, back);
    assert(Seq::<T>::empty() + e.map_values(back) =~= e.map_values(back));
}

fn copy_range(data: &[u8], from: usize, to: usize) -> (r: Vec<u8>)
    requires
        from <= to <= data@.len(),
    ensures
        r@ == data@.subrange(from as int, to as int),
{
    let mut r: Vec<u8> = Vec::new();
    let mut i = from;
    while i < to
        invariant
            from <= i <= to <= data@.len(),
            r@ == data@.subrange(from as int, i as int),
        decreases to - i,
    {
        r.push(data[i]);
        i = i + 1;
        assert(r@ =~= data@.subrange(from as int, i as int));
    }
    r
}

/// Reads one byte.
pub fn read_byte(data: &[u8], pos: usize) -> (r: Result<(u8, usize), MySbSocketError>)
    ensures
        read_outcome(r, parse_byte(data@, pos as int)),
{
    if pos < data.len() {
        Ok((data[pos], pos + 1))
    } else {
        Err(MySbSocketError::SocketDisconnected)
    }
}

/// Reads a flag: any nonzero byte is true.
pub fn read_bool(data: &[u8], pos: usize) -> (r: Result<(bool, usize), MySbSocketError>)
    ensures
        read_outcome(r, parse_bool(data@, pos as int)),
{
    match read_byte(data, pos) {
        Ok((b, p)) => Ok((b > 0, p)),
        Err(e) => Err(e),
    }
}

/// Reads a 32-bit little-endian integer.
pub fn read_i32(data: &[u8], pos: usize) -> (r: Result<(i32, usize), MySbSocketError>)
    ensures
        read_outcome(r, parse_i32(data@, pos as int)),
{
    if data.len() >= 4 && pos <= data.len() - 4 {
        let v: u32 = (data[pos] as u32) | ((data[pos + 1] as u32) << 8u32) | ((data[pos + 2] as u32)
            << 16u32) | ((data[pos + 3] as u32) << 24u32);
        Ok((v as i32, pos + 4))
    } else {
        Err(MySbSocketError::SocketDisconnected)
    }
}

/// Reads a 64-bit little-endian integer.
pub fn read_i64(data: &[u8], pos: usize) -> (r: Result<(i64, usize), MySbSocketError>)
    ensures
        read_outcome(r, parse_i64(data@, pos as int)),
{
    if data.len() >= 8 && pos <= data.len() - 8 {
        let v: u64 = (data[pos] as u64) | ((data[pos + 1] as u64) << 8u64) | ((data[pos + 2] as u64)
            << 16u64) | ((data[pos + 3] as u64) << 24u64) | ((data[pos + 4] as u64) << 32u64) | ((
        data[pos + 5] as u64) << 40u64) | ((data[pos + 6] as u64) << 48u64) | ((data[pos
            + 7] as u64) << 56u64);
        assert(data@.subrange(pos as int, pos + 8)[7] == data@[pos + 7]);
        Ok((v as i64, pos + 8))
    } else {
        Err(MySbSocketError::SocketDisconnected)
    }
}

/// Reads a legacy long: four bytes widened to 64 bits under protocol
/// versions below 2, eight bytes otherwise.
pub fn read_long(data: &[u8], pos: usize, protocol_version: i32) -> (r: Result<
    (i64, usize),
    MySbSocketError,
>)
    ensures
        read_outcome(r, parse_long(data@, pos as int, protocol_version)),
{
    if protocol_version < 2 {
        match read_i32(data, pos) {
            Ok((v, p)) => Ok((v as i64, p)),
            Err(e) => Err(e),
        }
    } else {
        read_i64(data, pos)
    }
}

/// Reads a byte array: a 32-bit length, then that many bytes.
pub fn read_byte_array(data: &[u8], pos: usize) -> (r: Result<(Vec<u8>, usize), MySbSocketError>)
    ensures
        read_outcome(r, parse_byte_array(data@, pos as int)),
{
    let (n, p) = read_i32(data, pos)?;
    if n < 0 {
        return Err(MySbSocketError::ErrorReadingSize);
    }
    let n = n as usize;
    if p <= data.len() && n <= data.len() - p {
        Ok((copy_range(data, p, p + n), p + n))
    } else {
        Err(MySbSocketError::SocketDisconnected)
    }
}

/// Reads a pascal string: a length byte, then that many UTF-8 bytes.
pub fn read_pascal_string(data: &[u8], pos: usize) -> (r: Result<(String, usize), MySbSocketError>)
    ensures
        read_outcome(r, parse_pascal_string(data@, pos as int)),
{
    let (n, p) = read_byte(data, pos)?;
    let n = n as usize;
    if p <= data.len() && n <= data.len() - p {
        let bytes = copy_range(data, p, p + n);
        match bytes_to_string(bytes) {
            Ok(s) => Ok((s, p + n)),
            Err(_) => Err(MySbSocketError::ParsingUtf8StringError),
        }
    } else {
        Err(MySbSocketError::SocketDisconnected)
    }
}

} // verus!
