//! The packet kinds, their wire layouts and the packet codec.
use crate::common_deserializers::{
    holds_at, lemma_parse_byte, lemma_parse_i32, lemma_split, parse_bool, parse_byte, parse_i32,
    parse_items, parse_list, parse_long, parse_pascal_string,
    read_bool, read_byte, read_i32, read_long, read_outcome, read_pascal_string, Parsed,
};
use crate::connection_attrs::ConnectionAttributes;
use crate::messages_to_deliver;
use crate::messages_to_publish::read_messages_to_publish;
use crate::queue_with_intervals::read_queue_with_intervals;
use crate::common_serializers::{
    bool_byte, flat_map, i32_le, lemma_flat_map_push, list_bytes, long_le, pascal_string,
    serialize_bool, serialize_byte, serialize_i32, serialize_long, serialize_pascal_string,
};
use crate::connection_attrs::PacketProtVer;
use crate::messages_to_deliver::{delivered_bytes, envelope_item};
use crate::messages_to_publish::{
    publish_bytes, publish_item, publish_view, MessageToPublish, PublishModel,
};
use crate::messages_to_publish;
use crate::my_sb_socket_error::MySbSocketError;
use crate::queue_with_intervals::{
    parse_ranges, ranges_bytes, serialize_queue_with_intervals, QueueIndexRange,
};
use crate::tcp_contract_message::{DeliveredModel, TcpContractMessage};
use crate::tcp_message_id::{
    ALL_MESSAGES_DELIVERED_CONFIRMATION, ALL_MESSAGES_NOT_DELIVERED_CONFIRMATION,
    CONFIRM_SOME_MESSAGES_AS_OK, CREATE_TOPIC_IF_NOT_EXISTS, GREETING, INTERMEDIARY_CONFIRM,
    NEW_MESSAGES, PACKET_VERSIONS, PING, PONG, PUBLISH, PUBLISH_RESPONSE, REJECT, SUBSCRIBE,
    SUBSCRIBE_RESPONSE,
};
use std::collections::HashMap;
use vstd::prelude::*;

verus! {

broadcast use vstd::std_specs::hash::group_hash_axioms;

/// How a subscriber's queue lives on the broker.
#[derive(Debug, Clone, Copy, PartialEq, Eq, Structural)]
pub enum TopicQueueType {
    /// Kept when the subscriber disconnects.
    Permanent,
    /// Dropped when the subscriber disconnects.
    DeleteOnDisconnect,
    /// Kept, and served to one connection at a time.
    PermanentWithSingleConnection,
}

pub open spec fn queue_type_byte(t: TopicQueueType) -> u8 {
    match t {
        TopicQueueType::Permanent => 0,
        TopicQueueType::DeleteOnDisconnect => 1,
        TopicQueueType::PermanentWithSingleConnection => 2,
    }
}

pub open spec fn queue_type_of(b: u8) -> Option<TopicQueueType> {
    if b == 0 {
        Some(TopicQueueType::Permanent)
    } else if b == 1 {
        Some(TopicQueueType::DeleteOnDisconnect)
    } else if b == 2 {
        Some(TopicQueueType::PermanentWithSingleConnection)
    } else {
        None
    }
}

impl TopicQueueType {
    /// The byte that stands for this queue type on the wire.
    pub fn into_u8(&self) -> (r: u8)
        ensures
            r == queue_type_byte(*self),
    {
        match self {
            TopicQueueType::Permanent => 0,
            TopicQueueType::DeleteOnDisconnect => 1,
            TopicQueueType::PermanentWithSingleConnection => 2,
        }
    }

    /// The queue type that `b` stands for, if any.
    pub fn from_u8(b: u8) -> (r: Option<TopicQueueType>)
        ensures
            r == queue_type_of(b),
    {
        if b == 0 {
            Some(TopicQueueType::Permanent)
        } else if b == 1 {
            Some(TopicQueueType::DeleteOnDisconnect)
        } else if b == 2 {
            Some(TopicQueueType::PermanentWithSingleConnection)
        } else {
            None
        }
    }
}

/// The model of a packet.
pub enum PacketModel {
    Ping,
    Pong,
    Greeting { name: Seq<char>, protocol_version: i32 },
    Publish {
        topic_id: Seq<char>,
        request_id: i64,
        persist_immediately: bool,
        data_to_publish: Seq<PublishModel>,
    },
    PublishResponse { request_id: i64 },
    Subscribe { topic_id: Seq<char>, queue_id: Seq<char>, queue_type: TopicQueueType },
    SubscribeResponse { topic_id: Seq<char>, queue_id: Seq<char> },
    Raw(Seq<u8>),
    NewMessages {
        topic_id: Seq<char>,
        queue_id: Seq<char>,
        confirmation_id: i64,
        messages: Seq<DeliveredModel>,
    },
    NewMessagesConfirmation { topic_id: Seq<char>, queue_id: Seq<char>, confirmation_id: i64 },
    CreateTopicIfNotExists { topic_id: Seq<char> },
    IntermediaryConfirm {
        packet_version: u8,
        topic_id: Seq<char>,
        queue_id: Seq<char>,
        confirmation_id: i64,
        delivered: Seq<QueueIndexRange>,
    },
    PacketVersions { packet_versions: Map<u8, i32> },
    Reject { message: Seq<char> },
    AllMessagesConfirmedAsFail { topic_id: Seq<char>, queue_id: Seq<char>, confirmation_id: i64 },
    ConfirmSomeMessagesAsOk {
        packet_version: u8,
        topic_id: Seq<char>,
        queue_id: Seq<char>,
        confirmation_id: i64,
        delivered: Seq<QueueIndexRange>,
    },
}

/// A packet of the protocol.
#[derive(Debug, Clone)]
pub enum TcpContract {
    Ping,
    Pong,
    Greeting { name: String, protocol_version: i32 },
    Publish {
        topic_id: String,
        request_id: i64,
        persist_immediately: bool,
        data_to_publish: Vec<MessageToPublish>,
    },
    PublishResponse { request_id: i64 },
    Subscribe { topic_id: String, queue_id: String, queue_type: TopicQueueType },
    SubscribeResponse { topic_id: String, queue_id: String },
    /// Bytes already encoded, as the delivery-batch builder produces them.
    Raw(Vec<u8>),
    NewMessages {
        topic_id: String,
        queue_id: String,
        confirmation_id: i64,
        messages: Vec<TcpContractMessage>,
    },
    NewMessagesConfirmation { topic_id: String, queue_id: String, confirmation_id: i64 },
    CreateTopicIfNotExists { topic_id: String },
    IntermediaryConfirm {
        packet_version: u8,
        topic_id: String,
        queue_id: String,
        confirmation_id: i64,
        delivered: Vec<QueueIndexRange>,
    },
    PacketVersions { packet_versions: HashMap<u8, i32> },
    Reject { message: String },
    AllMessagesConfirmedAsFail { topic_id: String, queue_id: String, confirmation_id: i64 },
    ConfirmSomeMessagesAsOk {
        packet_version: u8,
        topic_id: String,
        queue_id: String,
        confirmation_id: i64,
        delivered: Vec<QueueIndexRange>,
    },
}

pub open spec fn delivered_view(v: Seq<TcpContractMessage>) -> Seq<DeliveredModel> {
    v.map_values(|m: TcpContractMessage| m@)
}

impl View for TcpContract {
    type V = PacketModel;

    open spec fn view(&self) -> PacketModel {
        match self {
            TcpContract::Ping => PacketModel::Ping,
            TcpContract::Pong => PacketModel::Pong,
            TcpContract::Greeting { name, protocol_version } => PacketModel::Greeting {
                name: name@,
                protocol_version: *protocol_version,
            },
            TcpContract::Publish {
                topic_id,
                request_id,
                persist_immediately,
                data_to_publish,
            } => PacketModel::Publish {
                topic_id: topic_id@,
                request_id: *request_id,
                persist_immediately: *persist_immediately,
                data_to_publish: publish_view(data_to_publish@),
            },
            TcpContract::PublishResponse { request_id } => PacketModel::PublishResponse {
                request_id: *request_id,
            },
            TcpContract::Subscribe { topic_id, queue_id, queue_type } => PacketModel::Subscribe {
                topic_id: topic_id@,
                queue_id: queue_id@,
                queue_type: *queue_type,
            },
            TcpContract::SubscribeResponse { topic_id, queue_id } => PacketModel::SubscribeResponse {
                topic_id: topic_id@,
                queue_id: queue_id@,
            },
            TcpContract::Raw(b) => PacketModel::Raw(b@),
            TcpContract::NewMessages { topic_id, queue_id, confirmation_id, messages } => {
                PacketModel::NewMessages {
                    topic_id: topic_id@,
                    queue_id: queue_id@,
                    confirmation_id: *confirmation_id,
                    messages: delivered_view(messages@),
                }
            },
            TcpContract::NewMessagesConfirmation { topic_id, queue_id, confirmation_id } => {
                PacketModel::NewMessagesConfirmation {
                    topic_id: topic_id@,
                    queue_id: queue_id@,
                    confirmation_id: *confirmation_id,
                }
            },
            TcpContract::CreateTopicIfNotExists { topic_id } => PacketModel::CreateTopicIfNotExists {
                topic_id: topic_id@,
            },
            TcpContract::IntermediaryConfirm {
                packet_version,
                topic_id,
                queue_id,
                confirmation_id,
                delivered,
            } => PacketModel::IntermediaryConfirm {
                packet_version: *packet_version,
                topic_id: topic_id@,
                queue_id: queue_id@,
                confirmation_id: *confirmation_id,
                delivered: delivered@,
            },
            TcpContract::PacketVersions { packet_versions } => PacketModel::PacketVersions {
                packet_versions: packet_versions@,
            },
            TcpContract::Reject { message } => PacketModel::Reject { message: message@ },
            TcpContract::AllMessagesConfirmedAsFail { topic_id, queue_id, confirmation_id } => {
                PacketModel::AllMessagesConfirmedAsFail {
                    topic_id: topic_id@,
                    queue_id: queue_id@,
                    confirmation_id: *confirmation_id,
                }
            },
            TcpContract::ConfirmSomeMessagesAsOk {
                packet_version,
                topic_id,
                queue_id,
                confirmation_id,
                delivered,
            } => PacketModel::ConfirmSomeMessagesAsOk {
                packet_version: *packet_version,
                topic_id: topic_id@,
                queue_id: queue_id@,
                confirmation_id: *confirmation_id,
                delivered: delivered@,
            },
        }
    }
}

/// The entries of `m` whose keys are below `k`, in ascending key order.
pub open spec fn versions_list(m: Map<u8, i32>, k: nat) -> Seq<(u8, i32)>
    decreases k,
{
    if k == 0 {
        seq![]
    } else {
        let rest = versions_list(m, (k - 1) as nat);
        if m.contains_key((k - 1) as u8) {
            rest.push(((k - 1) as u8, m[(k - 1) as u8]))
        } else {
            rest
        }
    }
}

pub open spec fn version_entry_bytes() -> spec_fn((u8, i32)) -> Seq<u8> {
    |e: (u8, i32)| seq![e.0] + i32_le(e.1)
}

/// The wire form of a version announcement: the entry count in one byte,
/// then each entry as its tag byte and its revision, by ascending tag.
pub open spec fn versions_bytes(m: Map<u8, i32>) -> Seq<u8> {
    let l = versions_list(m, 256);
    seq![l.len() as u8] + flat_map(l, version_entry_bytes())
}

/// Reads `count` entries, inserting each into `acc`.
pub open spec fn parse_version_pairs(s: Seq<u8>, pos: int, count: nat, acc: Map<u8, i32>) -> Parsed<
    Map<u8, i32>,
>
    decreases count,
{
    if count == 0 {
        Ok((acc, pos))
    } else {
        match parse_byte(s, pos) {
            Err(e) => Err(e),
            Ok((k, p1)) => match parse_i32(s, p1) {
                Err(e) => Err(e),
                Ok((v, p2)) => parse_version_pairs(s, p2, (count - 1) as nat, acc.insert(k, v)),
            },
        }
    }
}

pub open spec fn parse_versions(s: Seq<u8>, pos: int) -> Parsed<Map<u8, i32>> {
    match parse_byte(s, pos) {
        Err(e) => Err(e),
        Ok((n, p)) => parse_version_pairs(s, p, n as nat, Map::empty()),
    }
}

/// `acc` with the entries of `e` inserted in order.
pub open spec fn insert_all(acc: Map<u8, i32>, e: Seq<(u8, i32)>) -> Map<u8, i32>
    decreases e.len(),
{
    if e.len() == 0 {
        acc
    } else {
        insert_all(acc.insert(e[0].0, e[0].1), e.drop_first())
    }
}

proof fn lemma_insert_all_push(acc: Map<u8, i32>, e: Seq<(u8, i32)>, x: (u8, i32))
    ensures
        insert_all(acc, e.push(x)) == insert_all(acc, e).insert(x.0, x.1),
    decreases e.len(),
{
    let ex = e.push(x);
    assert(ex[0] == if e.len() == 0 {
        x
    } else {
        e[0]
    });
    if e.len() == 0 {
        assert(ex.drop_first() =~= e);
        assert(insert_all(acc.insert(x.0, x.1), ex.drop_first()) == acc.insert(x.0, x.1));
    } else {
        assert(ex.drop_first() =~= e.drop_first().push(x));
        lemma_insert_all_push(acc.insert(e[0].0, e[0].1), e.drop_first(), x);
    }
}

proof fn lemma_versions_list(m: Map<u8, i32>, k: nat)
    requires
        k <= 256,
    ensures
        insert_all(Map::empty(), versions_list(m, k)) == Map::new(
            |key: u8| (key as nat) < k && m.contains_key(key),
            |key: u8| m[key],
        ),
    decreases k,
{
    if k == 0 {
        assert(insert_all(Map::empty(), versions_list(m, k)) =~= Map::new(
            |key: u8| (key as nat) < k && m.contains_key(key),
            |key: u8| m[key],
        ));
    } else {
        lemma_versions_list(m, (k - 1) as nat);
        let key = (k - 1) as u8;
        if m.contains_key(key) {
            lemma_insert_all_push(Map::empty(), versions_list(m, (k - 1) as nat), (key, m[key]));
        }
        assert(insert_all(Map::empty(), versions_list(m, k)) =~= Map::new(
            |key: u8| (key as nat) < k && m.contains_key(key),
            |key: u8| m[key],
        ));
    }
}

proof fn lemma_parse_version_pairs(s: Seq<u8>, pos: int, e: Seq<(u8, i32)>, acc: Map<u8, i32>)
    requires
        holds_at(s, pos, flat_map(e, version_entry_bytes())),
    ensures
        parse_version_pairs(s, pos, e.len(), acc) == Ok::<(Map<u8, i32>, int), MySbSocketError>(
            (insert_all(acc, e), pos + flat_map(e, version_entry_bytes()).len()),
        ),
    decreases e.len(),
{
    if e.len() > 0 {
        let f = version_entry_bytes();
        let x = f(e[0]);
        let rest = flat_map(e.drop_first(), f);
        lemma_split(s, pos, x, rest);
        lemma_split(s, pos, seq![e[0].0], i32_le(e[0].1));
        lemma_parse_byte(s, pos, e[0].0);
        lemma_parse_i32(s, pos + 1, e[0].1);
        lemma_parse_version_pairs(s, pos + x.len(), e.drop_first(), acc.insert(e[0].0, e[0].1));
    }
}

/// Reading back a version announcement gives the same map, as long as it
/// has at most 255 entries.
pub proof fn lemma_parse_versions(s: Seq<u8>, pos: int, m: Map<u8, i32>)
    requires
        versions_list(m, 256).len() <= 255,
        holds_at(s, pos, versions_bytes(m)),
    ensures
        parse_versions(s, pos) == Ok::<(Map<u8, i32>, int), MySbSocketError>(
            (m, pos + versions_bytes(m).len()),
        ),
{
    let l = versions_list(m, 256);
    lemma_split(s, pos, seq![l.len() as u8], flat_map(l, version_entry_bytes()));
    lemma_parse_byte(s, pos, l.len() as u8);
    lemma_parse_version_pairs(s, pos + 1, l, Map::empty());
    lemma_versions_list(m, 256);
    assert(Map::new(|key: u8| (key as nat) < 256 && m.contains_key(key), |key: u8| m[key]) =~= m);
}

/// The bytes of a packet. The protocol version selects the width of request
/// and confirmation ids and the layout of published messages; the packet
/// revision is read only for delivery batches.
pub open spec fn encode_packet(p: PacketModel, ver: PacketProtVer) -> Seq<u8> {
    let pv = ver.protocol_version;
    match p {
        PacketModel::Ping => seq![PING],
        PacketModel::Pong => seq![PONG],
        PacketModel::Greeting { name, protocol_version } => seq![GREETING] + pascal_string(name)
            + i32_le(protocol_version),
        PacketModel::Publish { topic_id, request_id, persist_immediately, data_to_publish } => seq![
            PUBLISH,
        ] + pascal_string(topic_id) + long_le(request_id, pv) + list_bytes(
            data_to_publish,
            publish_bytes(pv),
        ) + bool_byte(persist_immediately),
        PacketModel::PublishResponse { request_id } => seq![PUBLISH_RESPONSE] + long_le(
            request_id,
            pv,
        ),
        PacketModel::Subscribe { topic_id, queue_id, queue_type } => seq![SUBSCRIBE]
            + pascal_string(topic_id) + pascal_string(queue_id) + seq![queue_type_byte(queue_type)],
        PacketModel::SubscribeResponse { topic_id, queue_id } => seq![SUBSCRIBE_RESPONSE]
            + pascal_string(topic_id) + pascal_string(queue_id),
        PacketModel::Raw(b) => b,
        PacketModel::NewMessages { topic_id, queue_id, confirmation_id, messages } => seq![
            NEW_MESSAGES,
        ] + pascal_string(topic_id) + pascal_string(queue_id) + long_le(confirmation_id, pv)
            + list_bytes(messages, delivered_bytes(ver)),
        PacketModel::NewMessagesConfirmation { topic_id, queue_id, confirmation_id } => seq![
            ALL_MESSAGES_DELIVERED_CONFIRMATION,
        ] + pascal_string(topic_id) + pascal_string(queue_id) + long_le(confirmation_id, pv),
        PacketModel::CreateTopicIfNotExists { topic_id } => seq![CREATE_TOPIC_IF_NOT_EXISTS]
            + pascal_string(topic_id),
        PacketModel::IntermediaryConfirm {
            packet_version,
            topic_id,
            queue_id,
            confirmation_id,
            delivered,
        } => seq![INTERMEDIARY_CONFIRM, packet_version] + pascal_string(topic_id) + pascal_string(
            queue_id,
        ) + long_le(confirmation_id, pv) + ranges_bytes(delivered),
        PacketModel::PacketVersions { packet_versions } => seq![PACKET_VERSIONS] + versions_bytes(
            packet_versions,
        ),
        PacketModel::Reject { message } => seq![REJECT] + pascal_string(message),
        PacketModel::AllMessagesConfirmedAsFail { topic_id, queue_id, confirmation_id } => seq![
            ALL_MESSAGES_NOT_DELIVERED_CONFIRMATION,
        ] + pascal_string(topic_id) + pascal_string(queue_id) + long_le(confirmation_id, pv),
        PacketModel::ConfirmSomeMessagesAsOk {
            packet_version,
            topic_id,
            queue_id,
            confirmation_id,
            delivered,
        } => seq![CONFIRM_SOME_MESSAGES_AS_OK, packet_version] + pascal_string(topic_id)
            + pascal_string(queue_id) + long_le(confirmation_id, pv) + ranges_bytes(delivered),
    }
}

/// Two pascal strings.
pub open spec fn parse_two_strings(s: Seq<u8>, pos: int) -> Parsed<(Seq<char>, Seq<char>)> {
    match parse_pascal_string(s, pos) {
        Err(e) => Err(e),
        Ok((a, p1)) => match parse_pascal_string(s, p1) {
            Err(e) => Err(e),
            Ok((b, p2)) => Ok(((a, b), p2)),
        },
    }
}

/// Topic id, queue id and confirmation id.
pub open spec fn parse_confirmation(s: Seq<u8>, pos: int, pv: i32) -> Parsed<
    (Seq<char>, Seq<char>, i64),
> {
    match parse_two_strings(s, pos) {
        Err(e) => Err(e),
        Ok(((t, q), p1)) => match parse_long(s, p1, pv) {
            Err(e) => Err(e),
            Ok((c, p2)) => Ok(((t, q, c), p2)),
        },
    }
}

/// Revision byte, topic id, queue id, confirmation id and ranges.
pub open spec fn parse_range_confirmation(s: Seq<u8>, pos: int, pv: i32) -> Parsed<
    (u8, Seq<char>, Seq<char>, i64, Seq<QueueIndexRange>),
> {
    match parse_byte(s, pos) {
        Err(e) => Err(e),
        Ok((r, p1)) => match parse_confirmation(s, p1, pv) {
            Err(e) => Err(e),
            Ok(((t, q, c), p2)) => match parse_ranges(s, p2) {
                Err(e) => Err(e),
                Ok((d, p3)) => Ok(((r, t, q, c, d), p3)),
            },
        },
    }
}

pub open spec fn parse_greeting(s: Seq<u8>, pos: int) -> Parsed<PacketModel> {
    match parse_pascal_string(s, pos) {
        Err(e) => Err(e),
        Ok((name, p1)) => match parse_i32(s, p1) {
            Err(e) => Err(e),
            Ok((protocol_version, p2)) => Ok(
                (PacketModel::Greeting { name, protocol_version }, p2),
            ),
        },
    }
}

pub open spec fn parse_publish_packet(s: Seq<u8>, pos: int, pv: i32) -> Parsed<PacketModel> {
    match parse_pascal_string(s, pos) {
        Err(e) => Err(e),
        Ok((topic_id, p1)) => match parse_long(s, p1, pv) {
            Err(e) => Err(e),
            Ok((request_id, p2)) => match parse_list(s, p2, publish_item(pv)) {
                Err(e) => Err(e),
                Ok((data_to_publish, p3)) => match parse_bool(s, p3) {
                    Err(e) => Err(e),
                    Ok((persist_immediately, p4)) => Ok(
                        (
                            PacketModel::Publish {
                                topic_id,
                                request_id,
                                persist_immediately,
                                data_to_publish,
                            },
                            p4,
                        ),
                    ),
                },
            },
        },
    }
}

pub open spec fn parse_subscribe(s: Seq<u8>, pos: int) -> Parsed<PacketModel> {
    match parse_two_strings(s, pos) {
        Err(e) => Err(e),
        Ok(((topic_id, queue_id), p1)) => match parse_byte(s, p1) {
            Err(e) => Err(e),
            Ok((b, p2)) => match queue_type_of(b) {
                None => Err(MySbSocketError::InvalidQueueType(b)),
                Some(queue_type) => Ok(
                    (PacketModel::Subscribe { topic_id, queue_id, queue_type }, p2),
                ),
            },
        },
    }
}

pub open spec fn parse_new_messages(s: Seq<u8>, pos: int, ver: PacketProtVer) -> Parsed<
    PacketModel,
> {
    match parse_confirmation(s, pos, ver.protocol_version) {
        Err(e) => Err(e),
        Ok(((topic_id, queue_id, confirmation_id), p1)) => match parse_list(
            s,
            p1,
            envelope_item(ver),
        ) {
            Err(e) => Err(e),
            Ok((messages, p2)) => Ok(
                (PacketModel::NewMessages { topic_id, queue_id, confirmation_id, messages }, p2),
            ),
        },
    }
}

pub open spec fn parse_publish_response(s: Seq<u8>, pos: int, pv: i32) -> Parsed<PacketModel> {
    match parse_long(s, pos, pv) {
        Err(e) => Err(e),
        Ok((request_id, p)) => Ok((PacketModel::PublishResponse { request_id }, p)),
    }
}

pub open spec fn parse_subscribe_response(s: Seq<u8>, pos: int) -> Parsed<PacketModel> {
    match parse_two_strings(s, pos) {
        Err(e) => Err(e),
        Ok(((topic_id, queue_id), p)) => Ok((PacketModel::SubscribeResponse { topic_id, queue_id }, p)),
    }
}

pub open spec fn parse_delivered_confirmation(s: Seq<u8>, pos: int, pv: i32) -> Parsed<PacketModel> {
    match parse_confirmation(s, pos, pv) {
        Err(e) => Err(e),
        Ok(((topic_id, queue_id, confirmation_id), p)) => Ok(
            (PacketModel::NewMessagesConfirmation { topic_id, queue_id, confirmation_id }, p),
        ),
    }
}

pub open spec fn parse_failed_confirmation(s: Seq<u8>, pos: int, pv: i32) -> Parsed<PacketModel> {
    match parse_confirmation(s, pos, pv) {
        Err(e) => Err(e),
        Ok(((topic_id, queue_id, confirmation_id), p)) => Ok(
            (PacketModel::AllMessagesConfirmedAsFail { topic_id, queue_id, confirmation_id }, p),
        ),
    }
}

pub open spec fn parse_create_topic(s: Seq<u8>, pos: int) -> Parsed<PacketModel> {
    match parse_pascal_string(s, pos) {
        Err(e) => Err(e),
        Ok((topic_id, p)) => Ok((PacketModel::CreateTopicIfNotExists { topic_id }, p)),
    }
}

pub open spec fn parse_reject(s: Seq<u8>, pos: int) -> Parsed<PacketModel> {
    match parse_pascal_string(s, pos) {
        Err(e) => Err(e),
        Ok((message, p)) => Ok((PacketModel::Reject { message }, p)),
    }
}

pub open spec fn parse_versions_packet(s: Seq<u8>, pos: int) -> Parsed<PacketModel> {
    match parse_versions(s, pos) {
        Err(e) => Err(e),
        Ok((packet_versions, p)) => Ok((PacketModel::PacketVersions { packet_versions }, p)),
    }
}

pub open spec fn parse_confirm_some(s: Seq<u8>, pos: int, pv: i32) -> Parsed<PacketModel> {
    match parse_range_confirmation(s, pos, pv) {
        Err(e) => Err(e),
        Ok(((packet_version, topic_id, queue_id, confirmation_id, delivered), p)) => Ok(
            (
                PacketModel::ConfirmSomeMessagesAsOk {
                    packet_version,
                    topic_id,
                    queue_id,
                    confirmation_id,
                    delivered,
                },
                p,
            ),
        ),
    }
}

pub open spec fn parse_intermediary_confirm(s: Seq<u8>, pos: int, pv: i32) -> Parsed<PacketModel> {
    match parse_range_confirmation(s, pos, pv) {
        Err(e) => Err(e),
        Ok(((packet_version, topic_id, queue_id, confirmation_id, delivered), p)) => Ok(
            (
                PacketModel::IntermediaryConfirm {
                    packet_version,
                    topic_id,
                    queue_id,
                    confirmation_id,
                    delivered,
                },
                p,
            ),
        ),
    }
}

/// Everything after the tag byte `tag`, read at `pos`.
pub open spec fn parse_body(s: Seq<u8>, pos: int, tag: u8, ver: PacketProtVer) -> Parsed<
    PacketModel,
> {
    let pv = ver.protocol_version;
    if tag == PING {
        Ok((PacketModel::Ping, pos))
    } else if tag == PONG {
        Ok((PacketModel::Pong, pos))
    } else if tag == GREETING {
        parse_greeting(s, pos)
    } else if tag == PUBLISH {
        parse_publish_packet(s, pos, pv)
    } else if tag == PUBLISH_RESPONSE {
        parse_publish_response(s, pos, pv)
    } else if tag == SUBSCRIBE {
        parse_subscribe(s, pos)
    } else if tag == SUBSCRIBE_RESPONSE {
        parse_subscribe_response(s, pos)
    } else if tag == NEW_MESSAGES {
        parse_new_messages(s, pos, ver)
    } else if tag == ALL_MESSAGES_DELIVERED_CONFIRMATION {
        parse_delivered_confirmation(s, pos, pv)
    } else if tag == CREATE_TOPIC_IF_NOT_EXISTS {
        parse_create_topic(s, pos)
    } else if tag == REJECT {
        parse_reject(s, pos)
    } else if tag == PACKET_VERSIONS {
        parse_versions_packet(s, pos)
    } else if tag == ALL_MESSAGES_NOT_DELIVERED_CONFIRMATION {
        parse_failed_confirmation(s, pos, pv)
    } else if tag == CONFIRM_SOME_MESSAGES_AS_OK {
        parse_confirm_some(s, pos, pv)
    } else if tag == INTERMEDIARY_CONFIRM {
        parse_intermediary_confirm(s, pos, pv)
    } else {
        Err(MySbSocketError::InvalidPacketId(tag))
    }
}

/// A packet read at `pos`: its tag byte, then the fields of that kind.
/// `ver` holds the connection's protocol version and the revision that it
/// negotiated for delivery batches.
pub open spec fn parse_packet(s: Seq<u8>, pos: int, ver: PacketProtVer) -> Parsed<PacketModel> {
    match parse_byte(s, pos) {
        Err(e) => Err(e),
        Ok((tag, p)) => parse_body(s, p, tag, ver),
    }
}

/// Appends the body of a version announcement: the entry count, then the
/// entries by ascending tag.
fn serialize_packet_versions(data: &mut Vec<u8>, m: &HashMap<u8, i32>)
    ensures
        final(data)@ == old(data)@ + versions_bytes(m@),
{
    let count_at = data.len();
    data.push(0);
    let ghost start = data@;
    let mut count: usize = 0;
    let mut k: usize = 0;
    while k < 256
        invariant
            k <= 256,
            count_at == old(data)@.len(),
            start == old(data)@.push(0),
            count == versions_list(m@, k as nat).len(),
            count <= k,
            data@ == start + flat_map(versions_list(m@, k as nat), version_entry_bytes()),
        decreases 256 - k,
    {
        let key = k as u8;
        let ghost before = versions_list(m@, k as nat);
        match m.get(&key) {
            Some(v) => {
                data.push(key);
                serialize_i32(data, *v);
                proof {
                    lemma_flat_map_push(before, (key, *v), version_entry_bytes());
                }
                assert(data@ =~= start + flat_map(before.push((key, *v)), version_entry_bytes()));
                count = count + 1;
            },
            None => {},
        }
        k = k + 1;
    }
    data.set(count_at, count as u8);
    assert(data@ =~= old(data)@ + versions_bytes(m@));
}

fn read_two_strings(data: &[u8], pos: usize) -> (r: Result<((String, String), usize), MySbSocketError>)
    ensures
        read_outcome(r, parse_two_strings(data@, pos as int)),
{
    let (a, p1) = read_pascal_string(data, pos)?;
    let (b, p2) = read_pascal_string(data, p1)?;
    Ok(((a, b), p2))
}

fn read_confirmation(data: &[u8], pos: usize, pv: i32) -> (r: Result<
    ((String, String, i64), usize),
    MySbSocketError,
>)
    ensures
        read_outcome(r, parse_confirmation(data@, pos as int, pv)),
{
    let ((t, q), p1) = read_two_strings(data, pos)?;
    let (c, p2) = read_long(data, p1, pv)?;
    Ok(((t, q, c), p2))
}

fn read_range_confirmation(data: &[u8], pos: usize, pv: i32) -> (r: Result<
    ((u8, String, String, i64, Vec<QueueIndexRange>), usize),
    MySbSocketError,
>)
    ensures
        read_outcome(r, parse_range_confirmation(data@, pos as int, pv)),
{
    let (revision, p1) = read_byte(data, pos)?;
    let ((t, q, c), p2) = read_confirmation(data, p1, pv)?;
    let (d, p3) = read_queue_with_intervals(data, p2)?;
    Ok(((revision, t, q, c, d), p3))
}

fn read_versions(data: &[u8], pos: usize) -> (r: Result<(HashMap<u8, i32>, usize), MySbSocketError>)
    ensures
        read_outcome(r, parse_versions(data@, pos as int)),
{
    let (count, p0) = read_byte(data, pos)?;
    let mut result: HashMap<u8, i32> = HashMap::new();
    let mut p = p0;
    let mut i: u8 = 0;
    while i < count
        invariant
            i <= count,
            parse_byte(data@, pos as int) == Ok::<(u8, int), MySbSocketError>((count, p0 as int)),
            parse_version_pairs(data@, p0 as int, count as nat, Map::empty()) == parse_version_pairs(
                data@,
                p as int,
                (count - i) as nat,
                result@,
            ),
        decreases count - i,
    {
        let ghost rest = (count - i) as nat;
        let (k, p1) = match read_byte(data, p) {
            Ok(x) => x,
            Err(e) => {
                assert(parse_version_pairs(data@, p as int, rest, result@) == Err::<
                    (Map<u8, i32>, int),
                    MySbSocketError,
                >(e));
                return Err(e);
            },
        };
        let (v, p2) = match read_i32(data, p1) {
            Ok(x) => x,
            Err(e) => {
                assert(parse_version_pairs(data@, p as int, rest, result@) == Err::<
                    (Map<u8, i32>, int),
                    MySbSocketError,
                >(e));
                return Err(e);
            },
        };
        result.insert(k, v);
        p = p2;
        i = i + 1;
    }
    Ok((result, p))
}

fn read_delivered_messages(data: &[u8], pos: usize, ver: &PacketProtVer) -> (r: Result<
    (Vec<TcpContractMessage>, usize),
    MySbSocketError,
>)
    ensures
        match r {
            Ok((v, p)) => parse_list(data@, pos as int, envelope_item(*ver)) == Ok::<
                (Seq<DeliveredModel>, int),
                MySbSocketError,
            >((delivered_view(v@), p as int)),
            Err(e) => parse_list(data@, pos as int, envelope_item(*ver)) == Err::<
                (Seq<DeliveredModel>, int),
                MySbSocketError,
            >(e),
        },
{
    let ghost item = envelope_item(*ver);
    let (n, p0) = read_i32(data, pos)?;
    if n < 0 {
        return Err(MySbSocketError::ErrorReadingSize);
    }
    let count = n as u32;
    let mut result: Vec<TcpContractMessage> = Vec::new();
    assert(delivered_view(result@) =~= Seq::<DeliveredModel>::empty());
    let mut p = p0;
    let mut i: u32 = 0;
    while i < count
        invariant
            i <= count,
            count == n,
            item == envelope_item(*ver),
            parse_i32(data@, pos as int) == Ok::<(i32, int), MySbSocketError>((n, p0 as int)),
            parse_items(data@, p0 as int, count as nat, Seq::empty(), item) == parse_items(
                data@,
                p as int,
                (count - i) as nat,
                delivered_view(result@),
                item,
            ),
        decreases count - i,
    {
        let ghost acc = delivered_view(result@);
        let (m, p1) = match messages_to_deliver::deserialize(data, p, ver) {
            Ok(x) => x,
            Err(e) => {
                assert(parse_items(data@, p as int, (count - i) as nat, acc, item) == Err::<
                    (Seq<DeliveredModel>, int),
                    MySbSocketError,
                >(e));
                return Err(e);
            },
        };
        result.push(m);
        assert(delivered_view(result@) =~= acc.push(m@));
        p = p1;
        i = i + 1;
    }
    Ok((result, p))
}

fn read_body(data: &[u8], pos: usize, tag: u8, ver: &PacketProtVer) -> (r: Result<
    (TcpContract, usize),
    MySbSocketError,
>)
    ensures
        read_outcome(r, parse_body(data@, pos as int, tag, *ver)),
{
    let pv = ver.protocol_version;
    if tag == PING {
        Ok((TcpContract::Ping, pos))
    } else if tag == PONG {
        Ok((TcpContract::Pong, pos))
    } else if tag == GREETING {
        let (name, p1) = read_pascal_string(data, pos)?;
        let (protocol_version, p2) = read_i32(data, p1)?;
        Ok((TcpContract::Greeting { name, protocol_version }, p2))
    } else if tag == PUBLISH {
        let (topic_id, p1) = read_pascal_string(data, pos)?;
        let (request_id, p2) = read_long(data, p1, pv)?;
        let (data_to_publish, p3) = read_messages_to_publish(data, p2, pv)?;
        let (persist_immediately, p4) = read_bool(data, p3)?;
        Ok((TcpContract::Publish { topic_id, request_id, persist_immediately, data_to_publish }, p4))
    } else if tag == PUBLISH_RESPONSE {
        let (request_id, p1) = read_long(data, pos, pv)?;
        Ok((TcpContract::PublishResponse { request_id }, p1))
    } else if tag == SUBSCRIBE {
        let ((topic_id, queue_id), p1) = read_two_strings(data, pos)?;
        let (b, p2) = read_byte(data, p1)?;
        match TopicQueueType::from_u8(b) {
            Some(queue_type) => Ok((TcpContract::Subscribe { topic_id, queue_id, queue_type }, p2)),
            None => Err(MySbSocketError::InvalidQueueType(b)),
        }
    } else if tag == SUBSCRIBE_RESPONSE {
        let ((topic_id, queue_id), p1) = read_two_strings(data, pos)?;
        Ok((TcpContract::SubscribeResponse { topic_id, queue_id }, p1))
    } else if tag == NEW_MESSAGES {
        let ((topic_id, queue_id, confirmation_id), p1) = read_confirmation(data, pos, pv)?;
        let (messages, p2) = read_delivered_messages(data, p1, ver)?;
        Ok((TcpContract::NewMessages { topic_id, queue_id, confirmation_id, messages }, p2))
    } else if tag == ALL_MESSAGES_DELIVERED_CONFIRMATION {
        let ((topic_id, queue_id, confirmation_id), p1) = read_confirmation(data, pos, pv)?;
        Ok((TcpContract::NewMessagesConfirmation { topic_id, queue_id, confirmation_id }, p1))
    } else if tag == CREATE_TOPIC_IF_NOT_EXISTS {
        let (topic_id, p1) = read_pascal_string(data, pos)?;
        Ok((TcpContract::CreateTopicIfNotExists { topic_id }, p1))
    } else if tag == REJECT {
        let (message, p1) = read_pascal_string(data, pos)?;
        Ok((TcpContract::Reject { message }, p1))
    } else if tag == PACKET_VERSIONS {
        let (packet_versions, p1) = read_versions(data, pos)?;
        Ok((TcpContract::PacketVersions { packet_versions }, p1))
    } else if tag == ALL_MESSAGES_NOT_DELIVERED_CONFIRMATION {
        let ((topic_id, queue_id, confirmation_id), p1) = read_confirmation(data, pos, pv)?;
        Ok((TcpContract::AllMessagesConfirmedAsFail { topic_id, queue_id, confirmation_id }, p1))
    } else if tag == CONFIRM_SOME_MESSAGES_AS_OK {
        let ((packet_version, topic_id, queue_id, confirmation_id, delivered), p1) =
            read_range_confirmation(data, pos, pv)?;
        Ok(
            (
                TcpContract::ConfirmSomeMessagesAsOk {
                    packet_version,
                    topic_id,
                    queue_id,
                    confirmation_id,
                    delivered,
                },
                p1,
            ),
        )
    } else if tag == INTERMEDIARY_CONFIRM {
        let ((packet_version, topic_id, queue_id, confirmation_id, delivered), p1) =
            read_range_confirmation(data, pos, pv)?;
        Ok(
            (
                TcpContract::IntermediaryConfirm {
                    packet_version,
                    topic_id,
                    queue_id,
                    confirmation_id,
                    delivered,
                },
                p1,
            ),
        )
    } else {
        Err(MySbSocketError::InvalidPacketId(tag))
    }
}

impl TcpContract {
    /// The packets that `serialize` writes: every kind but a delivery batch
    /// (which only the batch builder writes), with lists short enough for a
    /// 32-bit count.
    pub open spec fn serializable(&self) -> bool {
        match self {
            TcpContract::NewMessages { .. } => false,
            TcpContract::Publish { data_to_publish, .. } => {
                &&& data_to_publish@.len() <= i32::MAX
                &&& forall|i: int|
                    0 <= i < data_to_publish@.len() ==> (#[trigger] data_to_publish@[i]).content@.len()
                        <= i32::MAX
            },
            TcpContract::IntermediaryConfirm { delivered, .. } => delivered@.len() <= i32::MAX,
            TcpContract::ConfirmSomeMessagesAsOk { delivered, .. } => delivered@.len() <= i32::MAX,
            _ => true,
        }
    }

    /// The bytes of this packet on a connection of protocol version
    /// `protocol_version`.
    #[verifier::rlimit(50)]
    pub fn serialize(self, protocol_version: i32) -> (r: Vec<u8>)
        requires
            self.serializable(),
        ensures
            r@ == encode_packet(self@, PacketProtVer { packet_version: 0, protocol_version }),
    {
        let ver = PacketProtVer { packet_version: 0, protocol_version };
        let ghost model = self@;
        let mut result: Vec<u8> = Vec::new();
        match self {
            TcpContract::Ping => {
                result.push(PING);
            },
            TcpContract::Pong => {
                result.push(PONG);
            },
            TcpContract::Greeting { name, protocol_version: announced } => {
                result.push(GREETING);
                serialize_pascal_string(&mut result, name.as_str());
                serialize_i32(&mut result, announced);
            },
            TcpContract::Publish { topic_id, request_id, persist_immediately, data_to_publish } => {
                result.push(PUBLISH);
                serialize_pascal_string(&mut result, topic_id.as_str());
                serialize_long(&mut result, request_id, &ver);
                messages_to_publish::serialize(&mut result, &data_to_publish, protocol_version);
                serialize_bool(&mut result, persist_immediately);
            },
            TcpContract::PublishResponse { request_id } => {
                result.push(PUBLISH_RESPONSE);
                serialize_long(&mut result, request_id, &ver);
            },
            TcpContract::Subscribe { topic_id, queue_id, queue_type } => {
                result.push(SUBSCRIBE);
                serialize_pascal_string(&mut result, topic_id.as_str());
                serialize_pascal_string(&mut result, queue_id.as_str());
                serialize_byte(&mut result, queue_type.into_u8());
            },
            TcpContract::SubscribeResponse { topic_id, queue_id } => {
                result.push(SUBSCRIBE_RESPONSE);
                serialize_pascal_string(&mut result, topic_id.as_str());
                serialize_pascal_string(&mut result, queue_id.as_str());
            },
            TcpContract::Raw(payload) => {
                result = payload;
            },
            TcpContract::NewMessages { .. } => {},
            TcpContract::NewMessagesConfirmation { topic_id, queue_id, confirmation_id } => {
                result.push(ALL_MESSAGES_DELIVERED_CONFIRMATION);
                serialize_pascal_string(&mut result, topic_id.as_str());
                serialize_pascal_string(&mut result, queue_id.as_str());
                serialize_long(&mut result, confirmation_id, &ver);
            },
            TcpContract::CreateTopicIfNotExists { topic_id } => {
                result.push(CREATE_TOPIC_IF_NOT_EXISTS);
                serialize_pascal_string(&mut result, topic_id.as_str());
            },
            TcpContract::IntermediaryConfirm {
                packet_version,
                topic_id,
                queue_id,
                confirmation_id,
                delivered,
            } => {
                result.push(INTERMEDIARY_CONFIRM);
                result.push(packet_version);
                serialize_pascal_string(&mut result, topic_id.as_str());
                serialize_pascal_string(&mut result, queue_id.as_str());
                serialize_long(&mut result, confirmation_id, &ver);
                serialize_queue_with_intervals(&mut result, &delivered);
            },
            TcpContract::PacketVersions { packet_versions } => {
                result.push(PACKET_VERSIONS);
                serialize_packet_versions(&mut result, &packet_versions);
            },
            TcpContract::Reject { message } => {
                result.push(REJECT);
                serialize_pascal_string(&mut result, message.as_str());
            },
            TcpContract::AllMessagesConfirmedAsFail { topic_id, queue_id, confirmation_id } => {
                result.push(ALL_MESSAGES_NOT_DELIVERED_CONFIRMATION);
                serialize_pascal_string(&mut result, topic_id.as_str());
                serialize_pascal_string(&mut result, queue_id.as_str());
                serialize_long(&mut result, confirmation_id, &ver);
            },
            TcpContract::ConfirmSomeMessagesAsOk {
                packet_version,
                topic_id,
                queue_id,
                confirmation_id,
                delivered,
            } => {
                result.push(CONFIRM_SOME_MESSAGES_AS_OK);
                result.push(packet_version);
                serialize_pascal_string(&mut result, topic_id.as_str());
                serialize_pascal_string(&mut result, queue_id.as_str());
                serialize_long(&mut result, confirmation_id, &ver);
                serialize_queue_with_intervals(&mut result, &delivered);
            },
        }
        assert(result@ =~= encode_packet(model, ver));
        result
    }

    /// Reads one packet from the start of `data`, and says how many bytes it
    /// took. The connection's attributes select the layouts: its protocol
    /// version, and the revision that it negotiated for delivery batches.
    pub fn deserialize(data: &[u8], attr: &ConnectionAttributes) -> (r: Result<
        (TcpContract, usize),
        MySbSocketError,
    >)
        requires
            attr.wf(),
        ensures
            read_outcome(r, parse_packet(data@, 0, attr.spec_get(NEW_MESSAGES))),
    {
        let (tag, p) = read_byte(data, 0)?;
        let ver = attr.get(NEW_MESSAGES);
        read_body(data, p, tag, &ver)
    }
}

/// The name of a packet's kind.
pub open spec fn packet_name(p: PacketModel) -> Seq<char> {
    match p {
        PacketModel::Ping => "Ping"@,
        PacketModel::Pong => "Pong"@,
        PacketModel::Greeting { .. } => "Greeting"@,
        PacketModel::Publish { .. } => "Publish"@,
        PacketModel::PublishResponse { .. } => "PublishResponse"@,
        PacketModel::Subscribe { .. } => "Subscribe"@,
        PacketModel::SubscribeResponse { .. } => "SubscribeResponse"@,
        PacketModel::Raw(_) => "NewMessagesServer"@,
        PacketModel::NewMessages { .. } => "NewMessages"@,
        PacketModel::NewMessagesConfirmation { .. } => "NewMessagesConfirmation"@,
        PacketModel::CreateTopicIfNotExists { .. } => "CreateTopicIfExists"@,
        PacketModel::IntermediaryConfirm { .. } => "IntermediaryConfirm"@,
        PacketModel::PacketVersions { .. } => "PacketVersions"@,
        PacketModel::Reject { .. } => "Reject"@,
        PacketModel::AllMessagesConfirmedAsFail { .. } => "AllMessagesConfirmedAsFail"@,
        PacketModel::ConfirmSomeMessagesAsOk { .. } => "ConfirmSomeMessagesAsOk"@,
    }
}

impl TcpContract {
    /// The name of this packet's kind, for logs. Raw bytes are the server's
    /// pre-encoded delivery batches.
    pub fn to_string(&self) -> (r: &'static str)
        ensures
            r@ == packet_name(self@),
    {
        match self {
            TcpContract::Ping => "Ping",
            TcpContract::Pong => "Pong",
            TcpContract::Greeting { .. } => "Greeting",
            TcpContract::Publish { .. } => "Publish",
            TcpContract::PublishResponse { .. } => "PublishResponse",
            TcpContract::Subscribe { .. } => "Subscribe",
            TcpContract::SubscribeResponse { .. } => "SubscribeResponse",
            TcpContract::Raw(_) => "NewMessagesServer",
            TcpContract::NewMessages { .. } => "NewMessages",
            TcpContract::NewMessagesConfirmation { .. } => "NewMessagesConfirmation",
            TcpContract::CreateTopicIfNotExists { .. } => "CreateTopicIfExists",
            TcpContract::IntermediaryConfirm { .. } => "IntermediaryConfirm",
            TcpContract::PacketVersions { .. } => "PacketVersions",
            TcpContract::Reject { .. } => "Reject",
            TcpContract::AllMessagesConfirmedAsFail { .. } => "AllMessagesConfirmedAsFail",
            TcpContract::ConfirmSomeMessagesAsOk { .. } => "ConfirmSomeMessagesAsOk",
        }
    }

    /// True for the answer to a keep-alive ping.
    pub fn is_pong(&self) -> (r: bool)
        ensures
            r == (self@ is Pong),
    {
        match self {
            TcpContract::Pong => true,
            _ => false,
        }
    }
}

/// Reads back the packet that raw bytes hold, as a connection with the
/// given protocol version and delivery-batch revision reads it.
pub fn convert_from_raw(src: TcpContract, version: &PacketProtVer) -> (r: Result<
    TcpContract,
    MySbSocketError,
>)
    requires
        src is Raw,
    ensures
        match src@ {
            PacketModel::Raw(b) => match r {
                Ok(p) => parse_packet(b, 0, *version) is Ok && parse_packet(
                    b,
                    0,
                    *version,
                )->Ok_0.0 == p@,
                Err(e) => parse_packet(b, 0, *version) == Err::<(PacketModel, int), MySbSocketError>(
                    e,
                ),
            },
            _ => false,
        },
{
    match src {
        TcpContract::Raw(payload) => {
            let mut attr = ConnectionAttributes::new(version.protocol_version);
            attr.versions.set_packet_version(NEW_MESSAGES, version.packet_version);
            assert(attr.spec_get(NEW_MESSAGES) == *version);
            match TcpContract::deserialize(payload.as_slice(), &attr) {
                Ok((p, _)) => Ok(p),
                Err(e) => Err(e),
            }
        },
        _ => Err(MySbSocketError::SocketDisconnected),
    }
}

} // verus!
