//! Builds a delivery batch straight into its output buffer: the header and a
//! zeroed message count go first, the messages are appended one at a time,
//! and the count is written in place at the end.
use crate::common_serializers::{
    flat_map, i32_le, lemma_flat_map_push, long_le, pascal_string, serialize_i32,
    serialize_long, serialize_pascal_string, u32_le,
};
use crate::connection_attrs::PacketProtVer;
use crate::messages_to_deliver::{self, delivered_bytes};
use crate::tcp_contract_message::{envelope_bytes, DeliveredModel, TcpContractMessage};
use crate::tcp_contracts::{encode_packet, PacketModel, TcpContract};
use crate::tcp_message_id::NEW_MESSAGES;
use vstd::prelude::*;

verus! {

pub struct DeliverTcpPacketBuilder {
    payload: Vec<u8>,
    amount_offset: usize,
    version: PacketProtVer,
    amount: i32,
    topic_id: Ghost<Seq<char>>,
    queue_id: Ghost<Seq<char>>,
    confirmation_id: Ghost<i64>,
    messages: Ghost<Seq<DeliveredModel>>,
}

/// The bytes of a delivery batch before its messages.
pub open spec fn batch_header(
    topic_id: Seq<char>,
    queue_id: Seq<char>,
    confirmation_id: i64,
    ver: PacketProtVer,
) -> Seq<u8> {
    seq![NEW_MESSAGES] + pascal_string(topic_id) + pascal_string(queue_id) + long_le(
        confirmation_id,
        ver.protocol_version,
    )
}

impl DeliverTcpPacketBuilder {
    /// The delivery batch that the builder holds so far.
    pub closed spec fn packet(&self) -> PacketModel {
        PacketModel::NewMessages {
            topic_id: self.topic_id@,
            queue_id: self.queue_id@,
            confirmation_id: self.confirmation_id@,
            messages: self.messages@,
        }
    }

    /// The versions that the builder writes with.
    pub closed spec fn version(&self) -> PacketProtVer {
        self.version
    }

    /// The buffer holds the header, a zero count and the messages so far.
    pub closed spec fn wf(&self) -> bool {
        let h = batch_header(self.topic_id@, self.queue_id@, self.confirmation_id@, self.version);
        &&& self.amount_offset == h.len()
        &&& self.amount == self.messages@.len()
        &&& self.payload@ == h + i32_le(0) + flat_map(self.messages@, delivered_bytes(self.version))
    }

    /// How many messages the builder holds.
    pub closed spec fn count(&self) -> nat {
        self.messages@.len()
    }

    /// Starts a delivery batch for the queue `queue_id` of the topic
    /// `topic_id`, confirmed later under `subscriber_id`.
    pub fn new(topic_id: &str, queue_id: &str, subscriber_id: i64, version: PacketProtVer) -> (r:
        DeliverTcpPacketBuilder)
        ensures
            r.wf(),
            r.count() == 0,
            r.version() == version,
            r.packet() == (PacketModel::NewMessages {
                topic_id: topic_id@,
                queue_id: queue_id@,
                confirmation_id: subscriber_id,
                messages: Seq::empty(),
            }),
    {
        let mut payload: Vec<u8> = Vec::new();
        payload.push(NEW_MESSAGES);
        serialize_pascal_string(&mut payload, topic_id);
        serialize_pascal_string(&mut payload, queue_id);
        serialize_long(&mut payload, subscriber_id, &version);
        let amount_offset = payload.len();
        serialize_i32(&mut payload, 0);
        let r = DeliverTcpPacketBuilder {
            payload,
            amount_offset,
            version,
            amount: 0,
            topic_id: Ghost(topic_id@),
            queue_id: Ghost(queue_id@),
            confirmation_id: Ghost(subscriber_id),
            messages: Ghost(Seq::empty()),
        };
        assert(r.payload@ =~= batch_header(topic_id@, queue_id@, subscriber_id, version) + i32_le(0)
            + flat_map(Seq::<DeliveredModel>::empty(), delivered_bytes(version)));
        r
    }

    /// Appends `msg` as delivery attempt `attempt_no`.
    pub fn append_packet(&mut self, msg: &TcpContractMessage, attempt_no: i32)
        requires
            old(self).wf(),
            old(self).count() < i32::MAX,
            msg.content@.len() <= i32::MAX,
        ensures
            final(self).wf(),
            final(self).version() == old(self).version(),
            final(self).count() == old(self).count() + 1,
            final(self).packet() == (PacketModel::NewMessages {
                topic_id: old(self).packet()->NewMessages_topic_id,
                queue_id: old(self).packet()->NewMessages_queue_id,
                confirmation_id: old(self).packet()->NewMessages_confirmation_id,
                messages: old(self).packet()->NewMessages_messages.push(
                    DeliveredModel { attempt_no, ..msg@ },
                ),
            }),
    {
        let ghost m = DeliveredModel { attempt_no, ..msg@ };
        messages_to_deliver::serialize(&mut self.payload, msg, attempt_no, &self.version);
        assert(envelope_bytes(msg@, attempt_no, self.version) == delivered_bytes(self.version)(m));
        proof {
            lemma_flat_map_push(self.messages@, m, delivered_bytes(self.version));
        }
        self.messages = Ghost(self.messages@.push(m));
        self.amount = self.amount + 1;
        assert(self.payload@ =~= batch_header(
            self.topic_id@,
            self.queue_id@,
            self.confirmation_id@,
            self.version,
        ) + i32_le(0) + flat_map(self.messages@, delivered_bytes(self.version)));
    }

    /// Writes the message count in place and hands out the finished batch.
    pub fn get_result(self) -> (r: TcpContract)
        requires
            self.wf(),
        ensures
            r@ == PacketModel::Raw(encode_packet(self.packet(), self.version())),
    {
        let mut payload = self.payload;
        let off = self.amount_offset;
        let n = self.amount as u32;
        let len = payload.len();
        assert(off + 4 <= len);
        payload.set(off, n as u8);
        payload.set(off + 1, (n >> 8u32) as u8);
        payload.set(off + 2, (n >> 16u32) as u8);
        payload.set(off + 3, (n >> 24u32) as u8);
        let ghost h = batch_header(self.topic_id@, self.queue_id@, self.confirmation_id@, self.version);
        assert(payload@ =~= h + u32_le(n) + flat_map(self.messages@, delivered_bytes(self.version)));
        assert(payload@ =~= encode_packet(self.packet(), self.version));
        TcpContract::Raw(payload)
    }
}

} // verus!
