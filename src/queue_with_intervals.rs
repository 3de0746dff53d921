//! Lists of message-id ranges, as confirmations carry them: a 32-bit count,
//! then each range as two 64-bit ids.
use crate::common_deserializers::{
    holds_at, lemma_parse_i64, lemma_parse_list, parse_i32, parse_i64, parse_items, parse_list,
    read_i32, read_i64, reads_back, Parsed,
};
use crate::common_serializers::{flat_map, i64_le, lemma_flat_map_take, list_bytes, serialize_i32, serialize_i64};
use crate::my_sb_socket_error::MySbSocketError;
use vstd::prelude::*;

verus! {

/// The message ids from `from_id` to `to_id`, both included.
#[derive(Debug, Clone, Copy, PartialEq, Eq, Structural)]
pub struct QueueIndexRange {
    pub from_id: i64,
    pub to_id: i64,
}

pub open spec fn range_bytes() -> spec_fn(QueueIndexRange) -> Seq<u8> {
    |r: QueueIndexRange| i64_le(r.from_id) + i64_le(r.to_id)
}

pub open spec fn ranges_bytes(e: Seq<QueueIndexRange>) -> Seq<u8> {
    list_bytes(e, range_bytes())
}

pub open spec fn parse_range(s: Seq<u8>, pos: int) -> Parsed<QueueIndexRange> {
    match parse_i64(s, pos) {
        Err(e) => Err(e),
        Ok((from_id, p)) => match parse_i64(s, p) {
            Err(e) => Err(e),
            Ok((to_id, q)) => Ok((QueueIndexRange { from_id, to_id }, q)),
        },
    }
}

pub open spec fn range_item() -> spec_fn(Seq<u8>, int) -> Parsed<QueueIndexRange> {
    |s: Seq<u8>, pos: int| parse_range(s, pos)
}

pub open spec fn parse_ranges(s: Seq<u8>, pos: int) -> Parsed<Seq<QueueIndexRange>> {
    parse_list(s, pos, range_item())
}

pub proof fn lemma_parse_ranges(s: Seq<u8>, pos: int, e: Seq<QueueIndexRange>)
    requires
        e.len() <= i32::MAX,
        holds_at(s, pos, ranges_bytes(e)),
    ensures
        parse_ranges(s, pos) == Ok::<(Seq<QueueIndexRange>, int), MySbSocketError>(
            (e, pos + ranges_bytes(e).len()),
        ),
{
    let f = range_bytes();
    let id = |r: QueueIndexRange| r;
    assert forall|i: int, p: int|
        0 <= i < e.len() && #[trigger] holds_at(s, p, f(e[i])) implies #[trigger] range_item()(
        s,
        p,
    ) == Ok::<(QueueIndexRange, int), MySbSocketError>((id(e[i]), p + f(e[i]).len())) by {
        let r = e[i];
        let b = f(r);
        assert(s.subrange(p, p + 8) =~= b.subrange(0, 8));
        assert(b.subrange(0, 8) =~= i64_le(r.from_id));
        lemma_parse_i64(s, p, r.from_id);
        assert(s.subrange(p + 8, p + 16) =~= b.subrange(8, 16));
        assert(b.subrange(8, 16) =~= i64_le(r.to_id));
        lemma_parse_i64(s, p + 8, r.to_id);
    }
    assert(reads_back(s, e, f, range_item(), id));
    lemma_parse_list(s, pos, e, f, range_item(), id);
    assert(e.map_values(id) =~= e);
}

/// Appends a list of ranges.
pub fn serialize_queue_with_intervals(payload: &mut Vec<u8>, value: &Vec<QueueIndexRange>)
    requires
        value@.len() <= i32::MAX,
    ensures
        final(payload)@ == old(payload)@ + ranges_bytes(value@),
{
    serialize_i32(payload, value.len() as i32);
    let ghost start = payload@;
    let mut i: usize = 0;
    while i < value.len()
        invariant
            i <= value@.len(),
            payload@ == start + flat_map(value@.take(i as int), range_bytes()),
        decreases value@.len() - i,
    {
        let r = value[i];
        serialize_i64(payload, r.from_id);
        serialize_i64(payload, r.to_id);
        proof {
            lemma_flat_map_take(value@, i as int, range_bytes());
        }
        i = i + 1;
        assert(payload@ =~= start + flat_map(value@.take(i as int), range_bytes()));
    }
    assert(value@.take(value@.len() as int) =~= value@);
    assert(payload@ =~= old(payload)@ + ranges_bytes(value@));
}

/// Reads a list of ranges. A negative count is refused.
pub fn read_queue_with_intervals(data: &[u8], pos: usize) -> (r: Result<
    (Vec<QueueIndexRange>, usize),
    MySbSocketError,
>)
    ensures
        match r {
            Ok((v, p)) => parse_ranges(data@, pos as int) == Ok::<
                (Seq<QueueIndexRange>, int),
                MySbSocketError,
            >((v@, p as int)),
            Err(e) => parse_ranges(data@, pos as int) == Err::<
                (Seq<QueueIndexRange>, int),
                MySbSocketError,
            >(e),
        },
{
    let (n, p0) = read_i32(data, pos)?;
    if n < 0 {
        return Err(MySbSocketError::ErrorReadingSize);
    }
    let count = n as u32;
    let mut result: Vec<QueueIndexRange> = Vec::new();
    let mut p = p0;
    let mut i: u32 = 0;
    while i < count
        invariant
            i <= count,
            count == n,
            parse_i32(data@, pos as int) == Ok::<(i32, int), MySbSocketError>((n, p0 as int)),
            parse_items(data@, p0 as int, count as nat, Seq::empty(), range_item())
                == parse_items(data@, p as int, (count - i) as nat, result@, range_item()),
        decreases count - i,
    {
        let ghost rest = (count - i) as nat;
        let (from_id, p1) = match read_i64(data, p) {
            Ok(x) => x,
            Err(e) => {
                assert(parse_items(data@, p as int, rest, result@, range_item()) == Err::<
                    (Seq<QueueIndexRange>, int),
                    MySbSocketError,
                >(e));
                return Err(e);
            },
        };
        let (to_id, p2) = match read_i64(data, p1) {
            Ok(x) => x,
            Err(e) => {
                assert(parse_items(data@, p as int, rest, result@, range_item()) == Err::<
                    (Seq<QueueIndexRange>, int),
                    MySbSocketError,
                >(e));
                return Err(e);
            },
        };
        result.push(QueueIndexRange { from_id, to_id });
        p = p2;
        i = i + 1;
    }
    Ok((result, p))
}

} // verus!
