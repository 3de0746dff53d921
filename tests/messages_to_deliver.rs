use my_service_bus_tcp_shared::messages_to_deliver::{deserialize, serialize};
use my_service_bus_tcp_shared::tcp_contract_message::TcpContractMessage;
use my_service_bus_tcp_shared::{MessageHeaders, PacketProtVer};

#[test]
fn test_v2() {
    let version = PacketProtVer {
        protocol_version: 2,
        packet_version: 1,
    };

    let mut headers = MessageHeaders::new();
    headers.insert("key1".to_string(), "value1".to_string());

    let src_msg = TcpContractMessage {
        id: 1,
        content: vec![0u8, 1u8, 2u8],
        headers: Some(headers),
        attempt_no: 1,
    };

    let mut serialized_data = Vec::new();

    serialize(&mut serialized_data, &src_msg, src_msg.attempt_no, &version);

    let (result, _) = deserialize(&serialized_data, 0, &version).unwrap();

    assert_eq!(src_msg.id, result.id);
    assert_eq!(src_msg.content, result.content);
    assert_eq!(true, result.headers.is_none());
}

#[test]
fn test_v3() {
    let version = PacketProtVer {
        protocol_version: 3,
        packet_version: 1,
    };

    let mut headers = MessageHeaders::new();
    headers.insert("key1".to_string(), "value1".to_string());

    let src_msg = TcpContractMessage {
        id: 1,
        content: vec![0u8, 1u8, 2u8],
        headers: Some(headers),
        attempt_no: 1,
    };

    let mut serialized_data = Vec::new();

    serialize(&mut serialized_data, &src_msg, src_msg.attempt_no, &version);

    let (result, _) = deserialize(&serialized_data, 0, &version).unwrap();

    assert_eq!(src_msg.id, result.id);
    assert_eq!(src_msg.content, result.content);

    let headers = result.headers.unwrap();
    assert_eq!(1, headers.len());

    assert_eq!("value1", headers.get("key1").unwrap());
}

#[test]
fn v2_bare_revision_carries_no_attempt_number() {
    let version = PacketProtVer {
        protocol_version: 2,
        packet_version: 0,
    };
    let msg = TcpContractMessage {
        id: 5,
        content: vec![9],
        headers: None,
        attempt_no: 3,
    };
    let mut data = Vec::new();
    serialize(&mut data, &msg, 3, &version);
    assert_eq!(vec![5u8, 0, 0, 0, 0, 0, 0, 0, 1, 0, 0, 0, 9], data);
    let (result, next) = deserialize(&data, 0, &version).unwrap();
    assert_eq!(13, next);
    assert_eq!(0, result.attempt_no);
    assert_eq!(vec![9u8], result.content);
}

#[test]
fn v3_revision_always_carries_attempt_and_headers() {
    let version = PacketProtVer {
        protocol_version: 3,
        packet_version: 0,
    };
    let msg = TcpContractMessage {
        id: 1,
        content: vec![],
        headers: None,
        attempt_no: 7,
    };
    let mut data = Vec::new();
    serialize(&mut data, &msg, 7, &version);
    assert_eq!(vec![1u8, 0, 0, 0, 0, 0, 0, 0, 7, 0, 0, 0, 0, 0, 0, 0, 0], data);
    let (result, _) = deserialize(&data, 0, &version).unwrap();
    assert_eq!(7, result.attempt_no);
    assert!(result.headers.is_none());
    assert!(result.content.is_empty());
}
