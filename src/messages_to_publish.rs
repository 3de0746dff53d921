//! The messages of a publish packet: a 32-bit count, then each message's
//! content, preceded by its headers from protocol version 3 on.
use crate::common_deserializers::{
    holds_at, lemma_parse_byte_array, lemma_parse_list, parse_byte_array, parse_i32, parse_items,
    parse_list, read_byte_array, read_i32, reads_back, Parsed,
};
use crate::common_serializers::{
    byte_array_bytes, flat_map, lemma_flat_map_take, list_bytes, serialize_byte_array, serialize_i32,
};
use crate::message_headers::{
    deserealize_message_headers, headers_bytes, headers_fit, headers_read_back, headers_view,
    keys_distinct, lemma_parse_headers, parse_headers, serialize_message_headers, HeadersModel,
    MessageHeaders,
};
use crate::my_sb_socket_error::MySbSocketError;
use vstd::prelude::*;

verus! {

/// The model of a message to publish.
pub struct PublishModel {
    pub headers: Option<HeadersModel>,
    pub content: Seq<u8>,
}

/// A message handed to the broker: optional headers and the content.
#[derive(Clone, Debug)]
pub struct MessageToPublish {
    pub headers: Option<MessageHeaders>,
    pub content: Vec<u8>,
}

impl View for MessageToPublish {
    type V = PublishModel;

    open spec fn view(&self) -> PublishModel {
        PublishModel { headers: headers_view(self.headers), content: self.content@ }
    }
}

pub open spec fn publish_view(v: Seq<MessageToPublish>) -> Seq<PublishModel> {
    v.map_values(|m: MessageToPublish| m@)
}

/// The wire form of one message: under protocol versions below 3 its
/// content alone, from 3 on its headers and then its content.
pub open spec fn publish_bytes(protocol_version: i32) -> spec_fn(PublishModel) -> Seq<u8> {
    |m: PublishModel|
        if protocol_version < 3 {
            byte_array_bytes(m.content)
        } else {
            headers_bytes(m.headers) + byte_array_bytes(m.content)
        }
}

pub open spec fn parse_publish(s: Seq<u8>, pos: int, protocol_version: i32) -> Parsed<PublishModel> {
    if protocol_version < 3 {
        match parse_byte_array(s, pos) {
            Err(e) => Err(e),
            Ok((content, p)) => Ok((PublishModel { headers: None, content }, p)),
        }
    } else {
        match parse_headers(s, pos) {
            Err(e) => Err(e),
            Ok((headers, p1)) => match parse_byte_array(s, p1) {
                Err(e) => Err(e),
                Ok((content, p2)) => Ok((PublishModel { headers, content }, p2)),
            },
        }
    }
}

pub open spec fn publish_item(protocol_version: i32) -> spec_fn(Seq<u8>, int) -> Parsed<PublishModel> {
    |s: Seq<u8>, pos: int| parse_publish(s, pos, protocol_version)
}

/// What reading back a message gives: no headers under protocol versions
/// below 3, else its headers as `headers_read_back` gives them.
pub open spec fn publish_read_back(protocol_version: i32) -> spec_fn(PublishModel) -> PublishModel {
    |m: PublishModel|
        if protocol_version < 3 {
            PublishModel { headers: None, content: m.content }
        } else {
            PublishModel { headers: headers_read_back(m.headers), content: m.content }
        }
}

/// The messages whose wire form reads back whole.
pub open spec fn publish_fits(m: PublishModel) -> bool {
    &&& m.content.len() <= i32::MAX
    &&& m.headers matches Some(h) ==> keys_distinct(h) && headers_fit(h)
}

pub proof fn lemma_parse_publish_list(
    s: Seq<u8>,
    pos: int,
    e: Seq<PublishModel>,
    protocol_version: i32,
)
    requires
        e.len() <= i32::MAX,
        forall|i: int| 0 <= i < e.len() ==> publish_fits(#[trigger] e[i]),
        holds_at(s, pos, list_bytes(e, publish_bytes(protocol_version))),
    ensures
        parse_list(s, pos, publish_item(protocol_version)) == Ok::<
            (Seq<PublishModel>, int),
            MySbSocketError,
        >(
            (
                e.map_values(publish_read_back(protocol_version)),
                pos + list_bytes(e, publish_bytes(protocol_version)).len(),
            ),
        ),
{
    let f = publish_bytes(protocol_version);
    let back = publish_read_back(protocol_version);
    assert forall|i: int, p: int|
        0 <= i < e.len() && #[trigger] holds_at(s, p, f(e[i])) implies #[trigger] publish_item(
        protocol_version,
    )(s, p) == Ok::<(PublishModel, int), MySbSocketError>((back(e[i]), p + f(e[i]).len())) by {
        let m = e[i];
        assert(publish_fits(m));
        let b = f(m);
        if protocol_version < 3 {
            lemma_parse_byte_array(s, p, m.content);
        } else {
            let h = headers_bytes(m.headers);
            assert(s.subrange(p, p + h.len()) =~= b.subrange(0, h.len() as int));
            assert(b.subrange(0, h.len() as int) =~= h);
            lemma_parse_headers(s, p, m.headers);
            let q = p + h.len();
            assert(s.subrange(q, q + byte_array_bytes(m.content).len()) =~= b.subrange(
                h.len() as int,
                b.len() as int,
            ));
            assert(b.subrange(h.len() as int, b.len() as int) =~= byte_array_bytes(m.content));
            lemma_parse_byte_array(s, q, m.content);
        }
    }
    assert(reads_back(s, e, f, publish_item(protocol_version), back));
    lemma_parse_list(s, pos, e, f, publish_item(protocol_version), back);
}

spec fn contents_fit(v: Seq<MessageToPublish>) -> bool {
    forall|i: int| 0 <= i < v.len() ==> (#[trigger] v[i]).content@.len() <= i32::MAX
}

fn serialize_with(data: &mut Vec<u8>, v: &Vec<MessageToPublish>, protocol_version: i32)
    requires
        v@.len() <= i32::MAX,
        contents_fit(v@),
    ensures
        final(data)@ == old(data)@ + list_bytes(publish_view(v@), publish_bytes(protocol_version)),
{
    let ghost f = publish_bytes(protocol_version);
    let ghost e = publish_view(v@);
    serialize_i32(data, v.len() as i32);
    let ghost start = data@;
    let mut i: usize = 0;
    while i < v.len()
        invariant
            i <= v@.len(),
            contents_fit(v@),
            e == publish_view(v@),
            f == publish_bytes(protocol_version),
            data@ == start + flat_map(e.take(i as int), f),
        decreases v@.len() - i,
    {
        let item = &v[i];
        assert(item.content@.len() <= i32::MAX);
        if protocol_version >= 3 {
            serialize_message_headers(data, item.headers.as_ref());
        }
        serialize_byte_array(data, item.content.as_slice());
        proof {
            lemma_flat_map_take(e, i as int, f);
        }
        i = i + 1;
        assert(data@ =~= start + flat_map(e.take(i as int), f));
    }
    assert(e.take(v@.len() as int) =~= e);
    assert(data@ =~= old(data)@ + list_bytes(e, f));
}

/// Appends messages in the revision of protocol versions below 3: the
/// count, then each content.
pub fn serialize_messages_v2(data: &mut Vec<u8>, v: &Vec<MessageToPublish>)
    requires
        v@.len() <= i32::MAX,
        forall|i: int| 0 <= i < v@.len() ==> (#[trigger] v@[i]).content@.len() <= i32::MAX,
    ensures
        final(data)@ == old(data)@ + list_bytes(publish_view(v@), publish_bytes(2)),
{
    serialize_with(data, v, 2);
}

/// Appends messages in the revision of protocol version 3: the count, then
/// each message's headers and content.
pub fn serialize_messages_v3(data: &mut Vec<u8>, v: &Vec<MessageToPublish>)
    requires
        v@.len() <= i32::MAX,
        forall|i: int| 0 <= i < v@.len() ==> (#[trigger] v@[i]).content@.len() <= i32::MAX,
    ensures
        final(data)@ == old(data)@ + list_bytes(publish_view(v@), publish_bytes(3)),
{
    serialize_with(data, v, 3);
}

/// Appends messages in the revision that `protocol_version` selects.
pub fn serialize(data: &mut Vec<u8>, v: &Vec<MessageToPublish>, protocol_version: i32)
    requires
        v@.len() <= i32::MAX,
        forall|i: int| 0 <= i < v@.len() ==> (#[trigger] v@[i]).content@.len() <= i32::MAX,
    ensures
        final(data)@ == old(data)@ + list_bytes(publish_view(v@), publish_bytes(protocol_version)),
{
    serialize_with(data, v, protocol_version);
}

/// Reads the messages of a publish packet in the revision that
/// `protocol_version` selects. A negative count is refused.
pub fn read_messages_to_publish(data: &[u8], pos: usize, protocol_version: i32) -> (r: Result<
    (Vec<MessageToPublish>, usize),
    MySbSocketError,
>)
    ensures
        match r {
            Ok((v, p)) => parse_list(data@, pos as int, publish_item(protocol_version)) == Ok::<
                (Seq<PublishModel>, int),
                MySbSocketError,
            >((publish_view(v@), p as int)),
            Err(e) => parse_list(data@, pos as int, publish_item(protocol_version)) == Err::<
                (Seq<PublishModel>, int),
                MySbSocketError,
            >(e),
        },
{
    let ghost item = publish_item(protocol_version);
    let (n, p0) = read_i32(data, pos)?;
    if n < 0 {
        return Err(MySbSocketError::ErrorReadingSize);
    }
    let count = n as u32;
    let mut result: Vec<MessageToPublish> = Vec::new();
    assert(publish_view(result@) =~= Seq::<PublishModel>::empty());
    let mut p = p0;
    let mut i: u32 = 0;
    while i < count
        invariant
            i <= count,
            count == n,
            item == publish_item(protocol_version),
            parse_i32(data@, pos as int) == Ok::<(i32, int), MySbSocketError>((n, p0 as int)),
            parse_items(data@, p0 as int, count as nat, Seq::empty(), item) == parse_items(
                data@,
                p as int,
                (count - i) as nat,
                publish_view(result@),
                item,
            ),
        decreases count - i,
    {
        let ghost rest = (count - i) as nat;
        let ghost acc = publish_view(result@);
        let (headers, p1) = if protocol_version < 3 {
            (None, p)
        } else {
            match deserealize_message_headers(data, p) {
                Ok(x) => x,
                Err(e) => {
                    assert(parse_items(data@, p as int, rest, acc, item) == Err::<
                        (Seq<PublishModel>, int),
                        MySbSocketError,
                    >(e));
                    return Err(e);
                },
            }
        };
        let (content, p2) = match read_byte_array(data, p1) {
            Ok(x) => x,
            Err(e) => {
                assert(parse_items(data@, p as int, rest, acc, item) == Err::<
                    (Seq<PublishModel>, int),
                    MySbSocketError,
                >(e));
                return Err(e);
            },
        };
        let m = MessageToPublish { headers, content };
        assert(item(data@, p as int) == Ok::<(PublishModel, int), MySbSocketError>(
            (m@, p2 as int),
        ));
        result.push(m);
        assert(publish_view(result@) =~= acc.push(m@));
        p = p2;
        i = i + 1;
    }
    Ok((result, p))
}

/// Appends a list of byte arrays: the count, then each array.
pub fn serialize_list_of_arrays(data: &mut Vec<u8>, v: &Vec<Vec<u8>>)
    requires
        v@.len() <= i32::MAX,
        forall|i: int| 0 <= i < v@.len() ==> (#[trigger] v@[i])@.len() <= i32::MAX,
    ensures
        final(data)@ == old(data)@ + list_bytes(
            v@.map_values(|a: Vec<u8>| a@),
            |b: Seq<u8>| byte_array_bytes(b),
        ),
{
    let ghost f = |b: Seq<u8>| byte_array_bytes(b);
    let ghost e = v@.map_values(|a: Vec<u8>| a@);
    serialize_i32(data, v.len() as i32);
    let ghost start = data@;
    let mut i: usize = 0;
    while i < v.len()
        invariant
            i <= v@.len(),
            forall|j: int| 0 <= j < v@.len() ==> (#[trigger] v@[j])@.len() <= i32::MAX,
            e == v@.map_values(|a: Vec<u8>| a@),
            f == (|b: Seq<u8>| byte_array_bytes(b)),
            data@ == start + flat_map(e.take(i as int), f),
        decreases v@.len() - i,
    {
        assert(v@[i as int]@.len() <= i32::MAX);
        serialize_byte_array(data, v[i].as_slice());
        proof {
            lemma_flat_map_take(e, i as int, f);
        }
        i = i + 1;
        assert(data@ =~= start + flat_map(e.take(i as int), f));
    }
    assert(e.take(v@.len() as int) =~= e);
    assert(data@ =~= old(data)@ + list_bytes(e, f));
}

} // verus!
