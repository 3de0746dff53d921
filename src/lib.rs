//! Wire codec of the message-bus TCP transport: packet kinds, field
//! encoders and decoders, per-connection negotiated versions and the
//! incremental delivery-batch builder.
pub mod common_deserializers;
pub mod common_serializers;
mod connection_attrs;
pub mod delivery_package_builder;
pub mod message_headers;
pub mod messages_to_deliver;
pub mod messages_to_publish;
pub mod my_sb_socket_error;
mod packet_versions;
pub mod queue_with_intervals;
pub mod round_trip;
pub mod tcp_contract_message;
pub mod tcp_contracts;
pub mod tcp_message_id;
mod tcp_serializer;
pub mod test_utils;

pub use connection_attrs::{ConnectionAttributes, PacketProtVer};
pub use delivery_package_builder::DeliverTcpPacketBuilder;
pub use message_headers::MessageHeaders;
pub use my_sb_socket_error::MySbSocketError;
pub use packet_versions::PacketVersions;
pub use tcp_contracts::{convert_from_raw, TcpContract, TopicQueueType};
pub use tcp_serializer::MySbTcpSerializer;
