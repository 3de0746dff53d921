//! What a connection has negotiated: the protocol version and the revision
//! of each packet kind.
use crate::packet_versions::PacketVersions;
use vstd::prelude::*;

verus! {

/// The two numbers that select a wire layout: the connection's protocol
/// version and the negotiated revision of one packet kind.
#[derive(Debug, Clone, Copy, PartialEq, Eq, Structural)]
pub struct PacketProtVer {
    pub packet_version: i32,
    pub protocol_version: i32,
}

#[derive(Clone)]
pub struct ConnectionAttributes {
    pub versions: PacketVersions,
    pub protocol_version: i32,
}

impl ConnectionAttributes {
    /// The revision table has an entry for every tag byte.
    pub open spec fn wf(&self) -> bool {
        self.versions.wf()
    }

    /// Fresh attributes: the given protocol version, every revision 0.
    pub fn new(protocol_version: i32) -> (r: ConnectionAttributes)
        ensures
            r.protocol_version == protocol_version,
            r.versions@ == Seq::new(256, |i: int| 0i32),
            r.wf(),
    {
        ConnectionAttributes { versions: PacketVersions::new(), protocol_version }
    }

    /// The versions that govern the packet kind `packet_no`.
    pub fn get(&self, packet_no: u8) -> (r: PacketProtVer)
        requires
            self.wf(),
        ensures
            r == self.spec_get(packet_no),
    {
        PacketProtVer {
            protocol_version: self.protocol_version,
            packet_version: self.versions.get_packet_version(packet_no),
        }
    }

    pub open spec fn spec_get(&self, packet_no: u8) -> PacketProtVer {
        PacketProtVer {
            protocol_version: self.protocol_version,
            packet_version: self.versions@[packet_no as int],
        }
    }

    /// The revision negotiated for the packet kind `packet_no`.
    pub fn get_packet_version(&self, packet_no: u8) -> (r: i32)
        requires
            self.wf(),
        ensures
            r == self.versions@[packet_no as int],
    {
        self.versions.get_packet_version(packet_no)
    }
}

} // verus!
