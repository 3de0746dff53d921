//! What holds of the codec as a whole: reading back what was written, the
//! lossy corners of the wire format, and the refusal of unknown tags.
use crate::common_deserializers::{
    holds_at, lemma_holds_whole, lemma_parse_bool, lemma_parse_byte, lemma_parse_i32,
    lemma_parse_list, lemma_parse_long, lemma_parse_pascal_string, lemma_split, parse_byte,
    parse_long, parse_pascal_string, reads_back,
};
use crate::common_serializers::{
    bool_byte, fits_pascal, i32_le, list_bytes, long_le, pascal_len, pascal_string,
};
use crate::connection_attrs::PacketProtVer;
use crate::message_headers::{
    headers_bytes, headers_fit, headers_read_back, keys_distinct, lemma_parse_headers,
    parse_headers, HeadersModel,
};
use crate::messages_to_deliver::{delivered_bytes, envelope_item};
use crate::messages_to_publish::{
    lemma_parse_publish_list, publish_bytes, publish_fits, publish_read_back, };
use crate::my_sb_socket_error::MySbSocketError;
use crate::queue_with_intervals::{lemma_parse_ranges, ranges_bytes, QueueIndexRange};
use crate::tcp_contract_message::{
    envelope_fits, envelope_read_back, lemma_parse_envelope, DeliveredModel,
};
use crate::tcp_contracts::{
    encode_packet, lemma_parse_versions, parse_packet, queue_type_byte, queue_type_of,
    versions_bytes, versions_list, PacketModel, };
use crate::tcp_message_id::is_known_tag;
use vstd::prelude::*;
use vstd::utf8::*;

verus! {

/// A legacy long after a trip over the wire.
pub open spec fn long_read_back(v: i64, protocol_version: i32) -> i64 {
    if protocol_version < 2 {
        (v as i32) as i64
    } else {
        v
    }
}

/// The packets whose every field goes on the wire whole: strings of at most
/// 255 UTF-8 bytes, lists and contents short enough for a 32-bit length,
/// header maps with distinct keys, version maps of at most 255 entries.
/// Raw bytes are no packet of their own.
pub open spec fn packet_fits(p: PacketModel) -> bool {
    match p {
        PacketModel::Ping => true,
        PacketModel::Pong => true,
        PacketModel::Greeting { name, .. } => fits_pascal(name),
        PacketModel::Publish { topic_id, data_to_publish, .. } => {
            &&& fits_pascal(topic_id)
            &&& data_to_publish.len() <= i32::MAX
            &&& forall|i: int|
                0 <= i < data_to_publish.len() ==> publish_fits(#[trigger] data_to_publish[i])
        },
        PacketModel::PublishResponse { .. } => true,
        PacketModel::Subscribe { topic_id, queue_id, .. } => fits_pascal(topic_id) && fits_pascal(
            queue_id,
        ),
        PacketModel::SubscribeResponse { topic_id, queue_id } => fits_pascal(topic_id)
            && fits_pascal(queue_id),
        PacketModel::Raw(_) => false,
        PacketModel::NewMessages { topic_id, queue_id, messages, .. } => {
            &&& fits_pascal(topic_id)
            &&& fits_pascal(queue_id)
            &&& messages.len() <= i32::MAX
            &&& forall|i: int| 0 <= i < messages.len() ==> envelope_fits(#[trigger] messages[i])
        },
        PacketModel::NewMessagesConfirmation { topic_id, queue_id, .. } => fits_pascal(topic_id)
            && fits_pascal(queue_id),
        PacketModel::CreateTopicIfNotExists { topic_id } => fits_pascal(topic_id),
        PacketModel::IntermediaryConfirm { topic_id, queue_id, delivered, .. } => fits_pascal(
            topic_id,
        ) && fits_pascal(queue_id) && delivered.len() <= i32::MAX,
        PacketModel::PacketVersions { packet_versions } => versions_list(packet_versions, 256).len()
            <= 255,
        PacketModel::Reject { message } => fits_pascal(message),
        PacketModel::AllMessagesConfirmedAsFail { topic_id, queue_id, .. } => fits_pascal(topic_id)
            && fits_pascal(queue_id),
        PacketModel::ConfirmSomeMessagesAsOk { topic_id, queue_id, delivered, .. } => fits_pascal(
            topic_id,
        ) && fits_pascal(queue_id) && delivered.len() <= i32::MAX,
    }
}

/// The read-back form of a delivered message as a delivery batch carries it.
pub open spec fn delivered_read_back(ver: PacketProtVer) -> spec_fn(DeliveredModel) -> DeliveredModel {
    |m: DeliveredModel| envelope_read_back(m, m.attempt_no, ver)
}

/// What a packet reads back as. Legacy longs lose their high bits under
/// protocol versions below 2; messages lose what their revision does not
/// carry, and empty header maps read as none.
pub open spec fn packet_read_back(p: PacketModel, ver: PacketProtVer) -> PacketModel {
    let pv = ver.protocol_version;
    match p {
        PacketModel::Publish { topic_id, request_id, persist_immediately, data_to_publish } => {
            PacketModel::Publish {
                topic_id,
                request_id: long_read_back(request_id, pv),
                persist_immediately,
                data_to_publish: data_to_publish.map_values(publish_read_back(pv)),
            }
        },
        PacketModel::PublishResponse { request_id } => PacketModel::PublishResponse {
            request_id: long_read_back(request_id, pv),
        },
        PacketModel::NewMessages { topic_id, queue_id, confirmation_id, messages } => {
            PacketModel::NewMessages {
                topic_id,
                queue_id,
                confirmation_id: long_read_back(confirmation_id, pv),
                messages: messages.map_values(delivered_read_back(ver)),
            }
        },
        PacketModel::NewMessagesConfirmation { topic_id, queue_id, confirmation_id } => {
            PacketModel::NewMessagesConfirmation {
                topic_id,
                queue_id,
                confirmation_id: long_read_back(confirmation_id, pv),
            }
        },
        PacketModel::IntermediaryConfirm {
            packet_version,
            topic_id,
            queue_id,
            confirmation_id,
            delivered,
        } => PacketModel::IntermediaryConfirm {
            packet_version,
            topic_id,
            queue_id,
            confirmation_id: long_read_back(confirmation_id, pv),
            delivered,
        },
        PacketModel::AllMessagesConfirmedAsFail { topic_id, queue_id, confirmation_id } => {
            PacketModel::AllMessagesConfirmedAsFail {
                topic_id,
                queue_id,
                confirmation_id: long_read_back(confirmation_id, pv),
            }
        },
        PacketModel::ConfirmSomeMessagesAsOk {
            packet_version,
            topic_id,
            queue_id,
            confirmation_id,
            delivered,
        } => PacketModel::ConfirmSomeMessagesAsOk {
            packet_version,
            topic_id,
            queue_id,
            confirmation_id: long_read_back(confirmation_id, pv),
            delivered,
        },
        _ => p,
    }
}

/// The parser reads `e` back as `v`, consuming all of it.
pub open spec fn reads_whole(e: Seq<u8>, ver: PacketProtVer, v: PacketModel) -> bool {
    parse_packet(e, 0, ver) == Ok::<(PacketModel, int), MySbSocketError>((v, e.len() as int))
}

proof fn lemma_tag(e: Seq<u8>, tag: u8, rest: Seq<u8>)
    requires
        e == seq![tag] + rest,
    ensures
        parse_byte(e, 0) == Ok::<(u8, int), MySbSocketError>((tag, 1)),
        holds_at(e, 1, rest),
{
    lemma_holds_whole(e);
    lemma_split(e, 0, seq![tag], rest);
    lemma_parse_byte(e, 0, tag);
}

proof fn lemma_two_strings(e: Seq<u8>, pos: int, a: Seq<char>, b: Seq<char>, rest: Seq<u8>)
    requires
        fits_pascal(a),
        fits_pascal(b),
        holds_at(e, pos, pascal_string(a) + pascal_string(b) + rest),
    ensures
        parse_pascal_string(e, pos) == Ok::<(Seq<char>, int), MySbSocketError>(
            (a, pos + pascal_string(a).len()),
        ),
        parse_pascal_string(e, pos + pascal_string(a).len()) == Ok::<
            (Seq<char>, int),
            MySbSocketError,
        >((b, pos + pascal_string(a).len() + pascal_string(b).len())),
        holds_at(e, pos + pascal_string(a).len() + pascal_string(b).len(), rest),
{
    let pa = pascal_string(a);
    let pb = pascal_string(b);
    lemma_split(e, pos, pa + pb, rest);
    lemma_split(e, pos, pa, pb);
    lemma_parse_pascal_string(e, pos, a);
    lemma_parse_pascal_string(e, pos + pa.len(), b);
}

proof fn lemma_confirmation(
    e: Seq<u8>,
    pos: int,
    t: Seq<char>,
    q: Seq<char>,
    c: i64,
    pv: i32,
    rest: Seq<u8>,
)
    requires
        fits_pascal(t),
        fits_pascal(q),
        holds_at(e, pos, pascal_string(t) + pascal_string(q) + long_le(c, pv) + rest),
    ensures
        ({
            let p1 = pos + pascal_string(t).len() + pascal_string(q).len();
            &&& parse_pascal_string(e, pos) == Ok::<(Seq<char>, int), MySbSocketError>(
                (t, pos + pascal_string(t).len()),
            )
            &&& parse_pascal_string(e, pos + pascal_string(t).len()) == Ok::<
                (Seq<char>, int),
                MySbSocketError,
            >((q, p1))
            &&& parse_long(e, p1, pv) == Ok::<(i64, int), MySbSocketError>(
                (long_read_back(c, pv), p1 + long_le(c, pv).len()),
            )
            &&& holds_at(e, p1 + long_le(c, pv).len(), rest)
        }),
{
    let pt = pascal_string(t);
    let pq = pascal_string(q);
    let l = long_le(c, pv);
    lemma_split(e, pos, pt + pq + l, rest);
    lemma_split(e, pos, pt + pq, l);
    assert(pt + pq + l + rest =~= pt + pq + (l + rest));
    lemma_two_strings(e, pos, t, q, l + rest);
    lemma_parse_long(e, pos + pt.len() + pq.len(), c, pv);
}

#[verifier::rlimit(80)]
proof fn lemma_publish_round_trip(p: PacketModel, ver: PacketProtVer)
    requires
        packet_fits(p),
        p is Publish,
    ensures
        reads_whole(encode_packet(p, ver), ver, packet_read_back(p, ver)),
{
    let pv = ver.protocol_version;
    let e = encode_packet(p, ver);
    if let PacketModel::Publish { topic_id, request_id, persist_immediately, data_to_publish } = p {
        let pt = pascal_string(topic_id);
        let l = long_le(request_id, pv);
        let lb = list_bytes(data_to_publish, publish_bytes(pv));
        let b = bool_byte(persist_immediately);
        assert(e =~= seq![crate::tcp_message_id::PUBLISH] + (pt + l + lb + b));
        lemma_tag(e, crate::tcp_message_id::PUBLISH, pt + l + lb + b);
        lemma_split(e, 1, pt + l + lb, b);
        lemma_split(e, 1, pt + l, lb);
        lemma_split(e, 1, pt, l);
        let p1 = 1int + pt.len();
        let p2 = p1 + l.len();
        let p3 = p2 + lb.len();
        lemma_parse_pascal_string(e, 1, topic_id);
        lemma_parse_long(e, p1, request_id, pv);
        lemma_parse_publish_list(e, p2, data_to_publish, pv);
        lemma_parse_bool(e, p3, persist_immediately);
        assert(e.len() == p3 + 1);
        assert(crate::tcp_contracts::parse_publish_packet(e, 1, pv) == Ok::<
            (PacketModel, int),
            MySbSocketError,
        >((packet_read_back(p, ver), p3 + 1)));
    }
}

#[verifier::rlimit(80)]
proof fn lemma_new_messages_round_trip(p: PacketModel, ver: PacketProtVer)
    requires
        packet_fits(p),
        p is NewMessages,
    ensures
        reads_whole(encode_packet(p, ver), ver, packet_read_back(p, ver)),
{
    let pv = ver.protocol_version;
    let e = encode_packet(p, ver);
    if let PacketModel::NewMessages { topic_id, queue_id, confirmation_id, messages } = p {
        let f = delivered_bytes(ver);
        let back = delivered_read_back(ver);
        let lb = list_bytes(messages, f);
        let body = pascal_string(topic_id) + pascal_string(queue_id) + long_le(confirmation_id, pv)
            + lb;
        assert(e =~= seq![crate::tcp_message_id::NEW_MESSAGES] + body);
        lemma_tag(e, crate::tcp_message_id::NEW_MESSAGES, body);
        lemma_confirmation(e, 1, topic_id, queue_id, confirmation_id, pv, lb);
        let p1 = 1int + pascal_string(topic_id).len() + pascal_string(queue_id).len() + long_le(
            confirmation_id,
            pv,
        ).len();
        assert forall|i: int, q: int|
            0 <= i < messages.len() && #[trigger] holds_at(e, q, f(messages[i])) implies #[trigger] envelope_item(
            ver,
        )(e, q) == Ok::<(DeliveredModel, int), MySbSocketError>(
            (back(messages[i]), q + f(messages[i]).len()),
        ) by {
            assert(envelope_fits(messages[i]));
            lemma_parse_envelope(e, q, messages[i], messages[i].attempt_no, ver);
        }
        assert(reads_back(e, messages, f, envelope_item(ver), back));
        lemma_parse_list(e, p1, messages, f, envelope_item(ver), back);
        assert(e.len() == p1 + lb.len());
        assert(crate::tcp_contracts::parse_confirmation(e, 1, pv) == Ok::<
            ((Seq<char>, Seq<char>, i64), int),
            MySbSocketError,
        >(((topic_id, queue_id, long_read_back(confirmation_id, pv)), p1)));
    }
}

#[verifier::rlimit(80)]
proof fn lemma_range_confirmation_bytes(
    e: Seq<u8>,
    tag: u8,
    r: u8,
    t: Seq<char>,
    q: Seq<char>,
    c: i64,
    d: Seq<QueueIndexRange>,
    pv: i32,
)
    requires
        fits_pascal(t),
        fits_pascal(q),
        d.len() <= i32::MAX,
        e == seq![tag, r] + pascal_string(t) + pascal_string(q) + long_le(c, pv) + ranges_bytes(d),
    ensures
        parse_byte(e, 0) == Ok::<(u8, int), MySbSocketError>((tag, 1)),
        crate::tcp_contracts::parse_range_confirmation(e, 1, pv) == Ok::<
            (((u8, Seq<char>, Seq<char>, i64, Seq<QueueIndexRange>)), int),
            MySbSocketError,
        >(((r, t, q, long_read_back(c, pv), d), e.len() as int)),
{
    let rb = ranges_bytes(d);
    let body = pascal_string(t) + pascal_string(q) + long_le(c, pv) + rb;
    assert(e =~= seq![tag] + (seq![r] + body));
    lemma_tag(e, tag, seq![r] + body);
    lemma_split(e, 1, seq![r], body);
    lemma_parse_byte(e, 1, r);
    lemma_confirmation(e, 2, t, q, c, pv, rb);
    let p1 = 2int + pascal_string(t).len() + pascal_string(q).len();
    let p2 = p1 + long_le(c, pv).len();
    assert(crate::tcp_contracts::parse_two_strings(e, 2) == Ok::<
        ((Seq<char>, Seq<char>), int),
        MySbSocketError,
    >(((t, q), p1)));
    assert(crate::tcp_contracts::parse_confirmation(e, 2, pv) == Ok::<
        ((Seq<char>, Seq<char>, i64), int),
        MySbSocketError,
    >(((t, q, long_read_back(c, pv)), p2)));
    lemma_parse_ranges(e, p2, d);
    assert(e.len() == p2 + rb.len());
}

proof fn lemma_range_confirmation_round_trip(p: PacketModel, ver: PacketProtVer)
    requires
        packet_fits(p),
        p is IntermediaryConfirm || p is ConfirmSomeMessagesAsOk,
    ensures
        reads_whole(encode_packet(p, ver), ver, packet_read_back(p, ver)),
{
    let pv = ver.protocol_version;
    let e = encode_packet(p, ver);
    match p {
        PacketModel::IntermediaryConfirm {
            packet_version,
            topic_id,
            queue_id,
            confirmation_id,
            delivered,
        } => {
            lemma_range_confirmation_bytes(
                e,
                crate::tcp_message_id::INTERMEDIARY_CONFIRM,
                packet_version,
                topic_id,
                queue_id,
                confirmation_id,
                delivered,
                pv,
            );
        },
        PacketModel::ConfirmSomeMessagesAsOk {
            packet_version,
            topic_id,
            queue_id,
            confirmation_id,
            delivered,
        } => {
            lemma_range_confirmation_bytes(
                e,
                crate::tcp_message_id::CONFIRM_SOME_MESSAGES_AS_OK,
                packet_version,
                topic_id,
                queue_id,
                confirmation_id,
                delivered,
                pv,
            );
        },
        _ => {},
    }
}

#[verifier::rlimit(60)]
proof fn lemma_short_round_trip(p: PacketModel, ver: PacketProtVer)
    requires
        packet_fits(p),
        p is Ping || p is Pong || p is Greeting || p is PublishResponse || p is Subscribe
            || p is SubscribeResponse,
    ensures
        reads_whole(encode_packet(p, ver), ver, packet_read_back(p, ver)),
{
    let pv = ver.protocol_version;
    let e = encode_packet(p, ver);
    match p {
        PacketModel::Ping => {
            lemma_tag(e, crate::tcp_message_id::PING, Seq::empty());
        },
        PacketModel::Pong => {
            lemma_tag(e, crate::tcp_message_id::PONG, Seq::empty());
        },
        PacketModel::Greeting { name, protocol_version } => {
            let body = pascal_string(name) + i32_le(protocol_version);
            assert(e =~= seq![crate::tcp_message_id::GREETING] + body);
            lemma_tag(e, crate::tcp_message_id::GREETING, body);
            lemma_split(e, 1, pascal_string(name), i32_le(protocol_version));
            lemma_parse_pascal_string(e, 1, name);
            lemma_parse_i32(e, 1int + pascal_string(name).len(), protocol_version);
        },
        PacketModel::PublishResponse { request_id } => {
            lemma_tag(e, crate::tcp_message_id::PUBLISH_RESPONSE, long_le(request_id, pv));
            lemma_parse_long(e, 1, request_id, pv);
        },
        PacketModel::Subscribe { topic_id, queue_id, queue_type } => {
            let qb = seq![queue_type_byte(queue_type)];
            let body = pascal_string(topic_id) + pascal_string(queue_id) + qb;
            assert(e =~= seq![crate::tcp_message_id::SUBSCRIBE] + body);
            lemma_tag(e, crate::tcp_message_id::SUBSCRIBE, body);
            lemma_two_strings(e, 1, topic_id, queue_id, qb);
            lemma_parse_byte(
                e,
                1int + pascal_string(topic_id).len() + pascal_string(queue_id).len(),
                queue_type_byte(queue_type),
            );
            assert(queue_type_of(queue_type_byte(queue_type)) == Some(queue_type));
        },
        PacketModel::SubscribeResponse { topic_id, queue_id } => {
            let body = pascal_string(topic_id) + pascal_string(queue_id);
            assert(e =~= seq![crate::tcp_message_id::SUBSCRIBE_RESPONSE] + body);
            lemma_tag(e, crate::tcp_message_id::SUBSCRIBE_RESPONSE, body);
            assert(body =~= body + Seq::<u8>::empty());
            lemma_two_strings(e, 1, topic_id, queue_id, Seq::empty());
        },
        _ => {},
    }
}

#[verifier::rlimit(60)]
proof fn lemma_named_round_trip(p: PacketModel, ver: PacketProtVer)
    requires
        packet_fits(p),
        p is NewMessagesConfirmation || p is AllMessagesConfirmedAsFail
            || p is CreateTopicIfNotExists || p is Reject || p is PacketVersions,
    ensures
        reads_whole(encode_packet(p, ver), ver, packet_read_back(p, ver)),
{
    let pv = ver.protocol_version;
    let e = encode_packet(p, ver);
    match p {
        PacketModel::NewMessagesConfirmation { topic_id, queue_id, confirmation_id } => {
            let body = pascal_string(topic_id) + pascal_string(queue_id) + long_le(
                confirmation_id,
                pv,
            );
            assert(e =~= seq![crate::tcp_message_id::ALL_MESSAGES_DELIVERED_CONFIRMATION] + body);
            lemma_tag(e, crate::tcp_message_id::ALL_MESSAGES_DELIVERED_CONFIRMATION, body);
            assert(body =~= body + Seq::<u8>::empty());
            lemma_confirmation(e, 1, topic_id, queue_id, confirmation_id, pv, Seq::empty());
        },
        PacketModel::AllMessagesConfirmedAsFail { topic_id, queue_id, confirmation_id } => {
            let body = pascal_string(topic_id) + pascal_string(queue_id) + long_le(
                confirmation_id,
                pv,
            );
            assert(e =~= seq![crate::tcp_message_id::ALL_MESSAGES_NOT_DELIVERED_CONFIRMATION]
                + body);
            lemma_tag(e, crate::tcp_message_id::ALL_MESSAGES_NOT_DELIVERED_CONFIRMATION, body);
            assert(body =~= body + Seq::<u8>::empty());
            lemma_confirmation(e, 1, topic_id, queue_id, confirmation_id, pv, Seq::empty());
        },
        PacketModel::CreateTopicIfNotExists { topic_id } => {
            lemma_tag(e, crate::tcp_message_id::CREATE_TOPIC_IF_NOT_EXISTS, pascal_string(topic_id));
            lemma_parse_pascal_string(e, 1, topic_id);
        },
        PacketModel::Reject { message } => {
            lemma_tag(e, crate::tcp_message_id::REJECT, pascal_string(message));
            lemma_parse_pascal_string(e, 1, message);
        },
        PacketModel::PacketVersions { packet_versions } => {
            lemma_tag(e, crate::tcp_message_id::PACKET_VERSIONS, versions_bytes(packet_versions));
            lemma_parse_versions(e, 1, packet_versions);
        },
        _ => {},
    }
}

/// Reading back what the encoder wrote gives the packet again, in the form
/// `packet_read_back` states, and takes exactly the bytes written. This
/// holds for every packet kind and every protocol version and packet
/// revision.
pub proof fn lemma_packet_round_trip(p: PacketModel, ver: PacketProtVer)
    requires
        packet_fits(p),
    ensures
        reads_whole(encode_packet(p, ver), ver, packet_read_back(p, ver)),
{
    if p is Publish {
        lemma_publish_round_trip(p, ver);
    } else if p is NewMessages {
        lemma_new_messages_round_trip(p, ver);
    } else if p is IntermediaryConfirm || p is ConfirmSomeMessagesAsOk {
        lemma_range_confirmation_round_trip(p, ver);
    } else if p is Ping || p is Pong || p is Greeting || p is PublishResponse || p is Subscribe
        || p is SubscribeResponse {
        lemma_short_round_trip(p, ver);
    } else {
        lemma_named_round_trip(p, ver);
    }
}

/// A header map that reads back as itself: none, or between 1 and 255
/// entries.
pub open spec fn headers_canonical(h: Option<HeadersModel>) -> bool {
    h matches Some(e) ==> 0 < e.len() <= 255
}

/// A legacy long that reads back as itself.
pub open spec fn long_canonical(v: i64, protocol_version: i32) -> bool {
    protocol_version < 2 ==> i32::MIN <= v <= i32::MAX
}

/// The packets that read back exactly as they were: ids within 32 bits on
/// connections below protocol version 2, no empty or oversized header maps,
/// and messages that hold nothing that their revision leaves off the wire.
pub open spec fn packet_canonical(p: PacketModel, ver: PacketProtVer) -> bool {
    let pv = ver.protocol_version;
    match p {
        PacketModel::Publish { request_id, data_to_publish, .. } => {
            &&& long_canonical(request_id, pv)
            &&& forall|i: int|
                0 <= i < data_to_publish.len() ==> {
                    &&& pv < 3 ==> (#[trigger] data_to_publish[i]).headers is None
                    &&& headers_canonical(data_to_publish[i].headers)
                }
        },
        PacketModel::PublishResponse { request_id } => long_canonical(request_id, pv),
        PacketModel::NewMessages { confirmation_id, messages, .. } => {
            &&& long_canonical(confirmation_id, pv)
            &&& forall|i: int|
                0 <= i < messages.len() ==> {
                    &&& pv < 3 ==> (#[trigger] messages[i]).headers is None
                    &&& pv < 3 && ver.packet_version != 1 ==> messages[i].attempt_no == 0
                    &&& headers_canonical(messages[i].headers)
                }
        },
        PacketModel::NewMessagesConfirmation { confirmation_id, .. } => long_canonical(
            confirmation_id,
            pv,
        ),
        PacketModel::IntermediaryConfirm { confirmation_id, .. } => long_canonical(
            confirmation_id,
            pv,
        ),
        PacketModel::AllMessagesConfirmedAsFail { confirmation_id, .. } => long_canonical(
            confirmation_id,
            pv,
        ),
        PacketModel::ConfirmSomeMessagesAsOk { confirmation_id, .. } => long_canonical(
            confirmation_id,
            pv,
        ),
        _ => true,
    }
}

proof fn lemma_long_canonical(v: i64, protocol_version: i32)
    requires
        long_canonical(v, protocol_version),
    ensures
        long_read_back(v, protocol_version) == v,
{
    if protocol_version < 2 {
        assert(-0x8000_0000 <= v <= 0x7fff_ffff ==> (v as i32) as i64 == v) by (bit_vector);
    }
}

proof fn lemma_headers_canonical(h: Option<HeadersModel>)
    requires
        headers_canonical(h),
    ensures
        headers_read_back(h) == h,
{
    if let Some(e) = h {
        assert(e.take(e.len() as int) =~= e);
    }
}

/// Reading back what the encoder wrote gives the very packet that was
/// written, for every packet kind and every version, whenever each field
/// goes on the wire whole and nothing in it is lost by the format.
pub proof fn lemma_packet_round_trip_exact(p: PacketModel, ver: PacketProtVer)
    requires
        packet_fits(p),
        packet_canonical(p, ver),
    ensures
        reads_whole(encode_packet(p, ver), ver, p),
{
    lemma_packet_round_trip(p, ver);
    let pv = ver.protocol_version;
    match p {
        PacketModel::Publish { request_id, data_to_publish, .. } => {
            lemma_long_canonical(request_id, pv);
            assert forall|i: int| 0 <= i < data_to_publish.len() implies publish_read_back(pv)(
                data_to_publish[i],
            ) == data_to_publish[i] by {
                lemma_headers_canonical(data_to_publish[i].headers);
            }
            assert(data_to_publish.map_values(publish_read_back(pv)) =~= data_to_publish);
        },
        PacketModel::PublishResponse { request_id } => {
            lemma_long_canonical(request_id, pv);
        },
        PacketModel::NewMessages { confirmation_id, messages, .. } => {
            lemma_long_canonical(confirmation_id, pv);
            assert forall|i: int| 0 <= i < messages.len() implies delivered_read_back(ver)(
                messages[i],
            ) == messages[i] by {
                lemma_headers_canonical(messages[i].headers);
            }
            assert(messages.map_values(delivered_read_back(ver)) =~= messages);
        },
        PacketModel::NewMessagesConfirmation { confirmation_id, .. } => {
            lemma_long_canonical(confirmation_id, pv);
        },
        PacketModel::IntermediaryConfirm { confirmation_id, .. } => {
            lemma_long_canonical(confirmation_id, pv);
        },
        PacketModel::AllMessagesConfirmedAsFail { confirmation_id, .. } => {
            lemma_long_canonical(confirmation_id, pv);
        },
        PacketModel::ConfirmSomeMessagesAsOk { confirmation_id, .. } => {
            lemma_long_canonical(confirmation_id, pv);
        },
        _ => {},
    }
}

/// No header map and an empty one go on the wire alike, as the single byte
/// 0, and that byte reads back as no map: the two cannot be told apart.
pub proof fn lemma_empty_headers_collapse(s: Seq<u8>, pos: int)
    requires
        holds_at(s, pos, seq![0u8]),
    ensures
        headers_bytes(None) == seq![0u8],
        headers_bytes(Some(Seq::<(Seq<char>, Seq<char>)>::empty())) == seq![0u8],
        parse_headers(s, pos) == Ok::<(Option<HeadersModel>, int), MySbSocketError>(
            (None, pos + 1),
        ),
{
    let e = Seq::<(Seq<char>, Seq<char>)>::empty();
    assert(e.take(0) =~= e);
    assert(headers_bytes(Some(e)) =~= seq![0u8]);
    lemma_parse_byte(s, pos, 0u8);
}

/// A header map of more than 255 entries goes on the wire as its first 255,
/// and reads back as exactly those 255 entries.
pub proof fn lemma_headers_cap(h: HeadersModel)
    requires
        h.len() > 255,
        keys_distinct(h),
        headers_fit(h),
    ensures
        parse_headers(headers_bytes(Some(h)), 0) == Ok::<(Option<HeadersModel>, int), MySbSocketError>(
            (Some(h.take(255)), headers_bytes(Some(h)).len() as int),
        ),
        h.take(255).len() == 255,
{
    lemma_holds_whole(headers_bytes(Some(h)));
    lemma_parse_headers(headers_bytes(Some(h)), 0, Some(h));
}

/// A string of more than 255 UTF-8 bytes goes on the wire cut to the longest
/// prefix of whole characters within 255 bytes, and reads back as the
/// characters of that prefix.
pub proof fn lemma_pascal_cap(c: Seq<char>)
    requires
        encode_utf8(c).len() > 255,
    ensures
        ({
            let b = encode_utf8(c);
            let n = pascal_len(b);
            &&& n <= 255
            &&& pascal_string(c).len() == n + 1
            &&& valid_utf8(b.subrange(0, n as int))
            &&& parse_pascal_string(pascal_string(c), 0) == Ok::<(Seq<char>, int), MySbSocketError>(
                (decode_utf8(b.subrange(0, n as int)), n + 1int),
            )
            &&& encode_utf8(decode_utf8(b.subrange(0, n as int))) == b.subrange(0, n as int)
        }),
{
    let b = encode_utf8(c);
    let n = pascal_len(b);
    encode_utf8_valid_utf8(c);
    crate::common_serializers::lemma_boundary_at_or_below(b, 255);
    valid_utf8_split(b, n as int);
    decode_utf8_encode_utf8(b.subrange(0, n as int));
    let e = pascal_string(c);
    assert(e.subrange(1, 1 + n as int) =~= b.subrange(0, n as int));
    assert(e[0] == n as u8);
}

/// Under protocol versions below 2 a legacy long takes four bytes and reads
/// back as its low 32 bits, sign-extended: the value itself exactly when it
/// fits in 32 bits.
pub proof fn lemma_legacy_long(v: i64, protocol_version: i32)
    requires
        protocol_version < 2,
    ensures
        long_le(v, protocol_version).len() == 4,
        parse_long(long_le(v, protocol_version), 0, protocol_version) == Ok::<
            (i64, int),
            MySbSocketError,
        >(((v as i32) as i64, 4)),
        ((v as i32) as i64 == v) <==> (i32::MIN <= v <= i32::MAX),
{
    lemma_holds_whole(long_le(v, protocol_version));
    lemma_parse_long(long_le(v, protocol_version), 0, v, protocol_version);
    assert(((v as i32) as i64 == v) <==> (-0x8000_0000 <= v && v <= 0x7fff_ffff)) by (bit_vector);
}

/// A packet whose tag byte names no packet kind is refused with that byte.
pub proof fn lemma_unknown_tag(s: Seq<u8>, ver: PacketProtVer)
    requires
        s.len() > 0,
        !is_known_tag(s[0]),
    ensures
        parse_packet(s, 0, ver) == Err::<(PacketModel, int), MySbSocketError>(
            MySbSocketError::InvalidPacketId(s[0]),
        ),
{
}

} // verus!
