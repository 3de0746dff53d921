//! Writing and reading one delivered message in the revision that the
//! connection's versions select.
use crate::common_deserializers::Parsed;
use crate::common_serializers::{serialize_byte_array, serialize_i32, serialize_i64};
use crate::connection_attrs::PacketProtVer;
use crate::message_headers::serialize_message_headers;
use crate::my_sb_socket_error::MySbSocketError;
use crate::tcp_contract_message::{
    envelope_bytes, parse_envelope, DeliveredModel, TcpContractMessage,
};
use vstd::prelude::*;

verus! {

/// The wire form of a delivered message that carries its own attempt number.
pub open spec fn delivered_bytes(ver: PacketProtVer) -> spec_fn(DeliveredModel) -> Seq<u8> {
    |m: DeliveredModel| envelope_bytes(m, m.attempt_no, ver)
}

pub open spec fn envelope_item(ver: PacketProtVer) -> spec_fn(Seq<u8>, int) -> Parsed<DeliveredModel> {
    |s: Seq<u8>, pos: int| parse_envelope(s, pos, ver)
}

/// Appends `msg` as delivery attempt `attempt_no`, in the revision that
/// `version` selects.
pub fn serialize(
    dest: &mut Vec<u8>,
    msg: &TcpContractMessage,
    attempt_no: i32,
    version: &PacketProtVer,
)
    requires
        msg.content@.len() <= i32::MAX,
    ensures
        final(dest)@ == old(dest)@ + envelope_bytes(msg@, attempt_no, *version),
{
    if version.protocol_version < 3 {
        serialize_v2(dest, msg, attempt_no, version.packet_version);
        assert(envelope_bytes(msg@, attempt_no, *version) == envelope_bytes(
            msg@,
            attempt_no,
            PacketProtVer { packet_version: version.packet_version, protocol_version: 2 },
        ));
    } else {
        serialize_v3(dest, msg, attempt_no);
        assert(envelope_bytes(msg@, attempt_no, *version) == envelope_bytes(
            msg@,
            attempt_no,
            PacketProtVer { packet_version: version.packet_version, protocol_version: 3 },
        ));
    }
}

/// The revision of protocol versions below 3: id, the attempt number only
/// when `packet_version` is 1, content.
pub fn serialize_v2(dest: &mut Vec<u8>, msg: &TcpContractMessage, attempt_no: i32, packet_version: i32)
    requires
        msg.content@.len() <= i32::MAX,
    ensures
        final(dest)@ == old(dest)@ + envelope_bytes(
            msg@,
            attempt_no,
            PacketProtVer { packet_version, protocol_version: 2 },
        ),
{
    serialize_i64(dest, msg.id);
    if packet_version == 1 {
        serialize_i32(dest, attempt_no);
    }
    serialize_byte_array(dest, msg.content.as_slice());
    assert(final(dest)@ =~= old(dest)@ + envelope_bytes(
        msg@,
        attempt_no,
        PacketProtVer { packet_version, protocol_version: 2 },
    ));
}

/// The revision of protocol version 3: id, attempt number, headers, content.
pub fn serialize_v3(dest: &mut Vec<u8>, msg: &TcpContractMessage, attempt_no: i32)
    requires
        msg.content@.len() <= i32::MAX,
    ensures
        forall|packet_version: i32|
            final(dest)@ == old(dest)@ + #[trigger] envelope_bytes(
                msg@,
                attempt_no,
                PacketProtVer { packet_version, protocol_version: 3 },
            ),
{
    serialize_i64(dest, msg.id);
    serialize_i32(dest, attempt_no);
    serialize_message_headers(dest, msg.headers.as_ref());
    serialize_byte_array(dest, msg.content.as_slice());
    assert forall|packet_version: i32|
        final(dest)@ == old(dest)@ + #[trigger] envelope_bytes(
            msg@,
            attempt_no,
            PacketProtVer { packet_version, protocol_version: 3 },
        ) by {
        assert(final(dest)@ =~= old(dest)@ + envelope_bytes(
            msg@,
            attempt_no,
            PacketProtVer { packet_version, protocol_version: 3 },
        ));
    }
}

/// Reads a delivered message in the revision that `version` selects.
pub fn deserialize(data: &[u8], pos: usize, version: &PacketProtVer) -> (r: Result<
    (TcpContractMessage, usize),
    MySbSocketError,
>)
    ensures
        match r {
            Ok((m, p)) => parse_envelope(data@, pos as int, *version) == Ok::<
                (DeliveredModel, int),
                MySbSocketError,
            >((m@, p as int)),
            Err(e) => parse_envelope(data@, pos as int, *version) == Err::<
                (DeliveredModel, int),
                MySbSocketError,
            >(e),
        },
{
    if version.protocol_version < 3 {
        TcpContractMessage::deserialize(data, pos, version.packet_version)
    } else {
        TcpContractMessage::deserialize_v3(data, pos)
    }
}

} // verus!
