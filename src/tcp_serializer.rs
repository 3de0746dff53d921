//! The codec of one connection: it encodes and decodes packets with the
//! versions that the connection has negotiated, and takes in the two packet
//! kinds that change them.
use crate::common_deserializers::read_outcome;
use crate::connection_attrs::{ConnectionAttributes, PacketProtVer};
use crate::packet_versions::merged;
use crate::tcp_contracts::{encode_packet, parse_packet, PacketModel, TcpContract};
use crate::my_sb_socket_error::MySbSocketError;
use crate::tcp_message_id::NEW_MESSAGES;
use vstd::prelude::*;

verus! {

pub struct MySbTcpSerializer {
    attr: ConnectionAttributes,
}

impl MySbTcpSerializer {
    /// What the connection has negotiated so far.
    pub closed spec fn attributes(&self) -> ConnectionAttributes {
        self.attr
    }

    pub open spec fn wf(&self) -> bool {
        self.attributes().wf()
    }

    pub fn new(attr: ConnectionAttributes) -> (r: MySbTcpSerializer)
        ensures
            r.attributes() == attr,
    {
        MySbTcpSerializer { attr }
    }

    /// The versions that govern delivery batches on this connection.
    pub fn get_messages_to_deliver_packet_version(&self) -> (r: PacketProtVer)
        requires
            self.wf(),
        ensures
            r == self.attributes().spec_get(NEW_MESSAGES),
    {
        self.attr.get(NEW_MESSAGES)
    }

    /// The bytes of `contract` under the negotiated protocol version.
    pub fn serialize(&self, contract: TcpContract) -> (r: Vec<u8>)
        requires
            contract.serializable(),
        ensures
            r@ == encode_packet(
                contract@,
                PacketProtVer {
                    packet_version: 0,
                    protocol_version: self.attributes().protocol_version,
                },
            ),
    {
        contract.serialize(self.attr.protocol_version)
    }

    /// The packet that keeps the connection alive.
    pub fn get_ping(&self) -> (r: TcpContract)
        ensures
            r@ == PacketModel::Ping,
    {
        TcpContract::Ping
    }

    /// Reads one packet from the start of `data` with the negotiated
    /// versions, and says how many bytes it took.
    pub fn deserialize(&self, data: &[u8]) -> (r: Result<(TcpContract, usize), MySbSocketError>)
        requires
            self.wf(),
        ensures
            read_outcome(r, parse_packet(data@, 0, self.attributes().spec_get(NEW_MESSAGES))),
    {
        TcpContract::deserialize(data, &self.attr)
    }

    /// Takes in a received packet. A greeting sets the protocol version, a
    /// version announcement writes its entries into the revision table; both
    /// return true. Every other packet changes nothing and returns false.
    pub fn apply_packet(&mut self, contract: &TcpContract) -> (r: bool)
        requires
            old(self).wf(),
        ensures
            final(self).wf(),
            match contract@ {
                PacketModel::Greeting { protocol_version, .. } => {
                    &&& r
                    &&& final(self).attributes().protocol_version == protocol_version
                    &&& final(self).attributes().versions@ == old(self).attributes().versions@
                },
                PacketModel::PacketVersions { packet_versions } => {
                    &&& r
                    &&& final(self).attributes().protocol_version == old(
                        self,
                    ).attributes().protocol_version
                    &&& final(self).attributes().versions@ == merged(
                        old(self).attributes().versions@,
                        packet_versions,
                    )
                },
                _ => !r && final(self).attributes() == old(self).attributes(),
            },
    {
        match contract {
            TcpContract::Greeting { protocol_version, .. } => {
                self.attr.protocol_version = *protocol_version;
                true
            },
            TcpContract::PacketVersions { packet_versions } => {
                self.attr.versions.update(packet_versions);
                true
            },
            _ => false,
        }
    }
}

} // verus!
