use my_service_bus_tcp_shared::tcp_contract_message::TcpContractMessage;
use my_service_bus_tcp_shared::{
    convert_from_raw, DeliverTcpPacketBuilder, MessageHeaders, PacketProtVer, TcpContract,
};

#[test]
fn test_basic_use_case_v2() {
    const PROTOCOL_VERSION: i32 = 2;

    let version = PacketProtVer {
        packet_version: 1,
        protocol_version: PROTOCOL_VERSION,
    };

    let mut headers = MessageHeaders::new();
    headers.insert("1".to_string(), "1".to_string());
    headers.insert("2".to_string(), "2".to_string());

    let msg1 = TcpContractMessage {
        id: 1,
        content: vec![1, 1, 1],
        headers: Some(headers),
        attempt_no: 1,
    };

    let msg2 = TcpContractMessage {
        id: 2,
        content: vec![2, 2, 2],
        headers: None,
        attempt_no: 1,
    };

    let mut builder = DeliverTcpPacketBuilder::new("test_topic", "test_queue", 15, version.clone());

    builder.append_packet(&msg1, 1);
    builder.append_packet(&msg2, 2);

    let tcp_contract = builder.get_result();

    let result = convert_from_raw(tcp_contract, &version).unwrap();

    if let TcpContract::NewMessages {
        topic_id,
        queue_id,
        confirmation_id,
        mut messages,
    } = result
    {
        assert_eq!("test_topic", topic_id);
        assert_eq!("test_queue", queue_id);
        assert_eq!(15, confirmation_id);
        assert_eq!(2, messages.len());

        let result_msg1 = messages.remove(0);

        assert_eq!(1, result_msg1.attempt_no);
        assert_eq!(msg1.content, result_msg1.content);
        assert_eq!(true, result_msg1.headers.is_none());

        let result_msg2 = messages.remove(0);

        assert_eq!(2, result_msg2.attempt_no);
        assert_eq!(msg2.content, result_msg2.content);
        assert_eq!(true, result_msg2.headers.is_none());
    } else {
        panic!("We should not be ere")
    }
}

#[test]
fn test_basic_use_case_v3() {
    const PROTOCOL_VERSION: i32 = 3;

    let version = PacketProtVer {
        packet_version: 1,
        protocol_version: PROTOCOL_VERSION,
    };

    let mut headers = MessageHeaders::new();
    headers.insert("1".to_string(), "1".to_string());
    headers.insert("2".to_string(), "2".to_string());

    let msg1 = TcpContractMessage {
        id: 1,
        content: vec![1, 1, 1],
        headers: Some(headers),
        attempt_no: 1,
    };

    let msg2 = TcpContractMessage {
        id: 2,
        content: vec![2, 2, 2],
        headers: None,
        attempt_no: 1,
    };

    let mut builder = DeliverTcpPacketBuilder::new("test_topic", "test_queue", 15, version.clone());

    builder.append_packet(&msg1, 1);
    builder.append_packet(&msg2, 2);

    let tcp_contract = builder.get_result();

    let result = convert_from_raw(tcp_contract, &version).unwrap();

    if let TcpContract::NewMessages {
        topic_id,
        queue_id,
        confirmation_id,
        mut messages,
    } = result
    {
        assert_eq!("test_topic", topic_id);
        assert_eq!("test_queue", queue_id);
        assert_eq!(15, confirmation_id);
        assert_eq!(2, messages.len());

        let result_msg1 = messages.remove(0);

        assert_eq!(1, result_msg1.attempt_no);
        assert_eq!(msg1.content, result_msg1.content);
        assert_eq!(2, result_msg1.headers.unwrap().len());

        let result_msg2 = messages.remove(0);

        assert_eq!(2, result_msg2.attempt_no);
        assert_eq!(msg2.content, result_msg2.content);
        assert_eq!(true, result_msg2.headers.is_none());
    } else {
        panic!("We should not be ere")
    }
}

#[test]
fn empty_batch_has_zero_count() {
    let version = PacketProtVer {
        packet_version: 1,
        protocol_version: 3,
    };
    let builder = DeliverTcpPacketBuilder::new("t", "q", 9, version);
    match builder.get_result() {
        TcpContract::Raw(bytes) => {
            assert_eq!(
                vec![7u8, 1, b't', 1, b'q', 9, 0, 0, 0, 0, 0, 0, 0, 0, 0, 0, 0],
                bytes
            );
        }
        _ => panic!("expected raw bytes"),
    }
}
