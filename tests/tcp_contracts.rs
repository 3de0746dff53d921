use my_service_bus_tcp_shared::messages_to_publish::MessageToPublish;
use my_service_bus_tcp_shared::{ConnectionAttributes, MessageHeaders, TcpContract, TopicQueueType};

#[test]
fn test_ping_packet() {
    let tcp_packet = TcpContract::Ping;

    let serialized_data: Vec<u8> = tcp_packet.serialize(2);

    let attr = ConnectionAttributes::new(0);

    let (result, _) = TcpContract::deserialize(&serialized_data, &attr).unwrap();

    match result {
        TcpContract::Ping => {}
        _ => {
            panic!("Invalid Packet Type");
        }
    }
}

#[test]
fn test_pong_packet() {
    let tcp_packet = TcpContract::Pong;

    let serialized_data: Vec<u8> = tcp_packet.serialize(2);
    let attr = ConnectionAttributes::new(0);

    let (result, _) = TcpContract::deserialize(&serialized_data, &attr).unwrap();

    match result {
        TcpContract::Pong => {}
        _ => {
            panic!("Invalid Packet Type");
        }
    }
}

#[test]
fn test_greeting_packet() {
    let test_app_name = "testtttt";
    let test_protocol_version = 2;

    let tcp_packet = TcpContract::Greeting {
        name: test_app_name.to_string(),
        protocol_version: test_protocol_version,
    };
    let serialized_data: Vec<u8> = tcp_packet.serialize(0);

    let attr = ConnectionAttributes::new(0);

    let (result, _) = TcpContract::deserialize(&serialized_data, &attr).unwrap();

    match result {
        TcpContract::Greeting {
            name,
            protocol_version,
        } => {
            assert_eq!(test_app_name, name);
            assert_eq!(test_protocol_version, protocol_version);
        }
        _ => {
            panic!("Invalid Packet Type");
        }
    }
}

#[test]
fn test_publish_packet_v2() {
    const PROTOCOL_VERSION: i32 = 2;

    let request_id_test = 1;

    let message_to_publish = MessageToPublish {
        content: vec![1, 2, 3, 4, 5, 6, 7, 8, 9, 0],
        headers: None,
    };

    let data_test = vec![message_to_publish];
    let topic_test = String::from("test-topic");
    let persist_test = true;

    let tcp_packet = TcpContract::Publish {
        data_to_publish: data_test,
        persist_immediately: persist_test,
        request_id: request_id_test,
        topic_id: topic_test,
    };
    let attr = ConnectionAttributes::new(PROTOCOL_VERSION);
    let serialized_data: Vec<u8> = tcp_packet.serialize(attr.protocol_version);

    let (result, _) = TcpContract::deserialize(&serialized_data, &attr).unwrap();

    match result {
        TcpContract::Publish {
            data_to_publish,
            persist_immediately,
            request_id,
            topic_id,
        } => {
            assert_eq!(request_id_test, request_id);
            assert_eq!(String::from("test-topic"), topic_id);
            assert_eq!(persist_test, persist_immediately);

            let data_test = vec![vec![1, 2, 3, 4, 5, 6, 7, 8, 9, 0]];

            for index in 0..data_to_publish[0].content.len() {
                assert_eq!(data_test[0][index], data_to_publish[0].content[index]);
            }
        }
        _ => {
            panic!("Invalid Packet Type");
        }
    }
}

#[test]
fn test_publish_packet_v3() {
    const PROTOCOL_VERSION: i32 = 3;

    let request_id_test = 1;

    let mut headers = MessageHeaders::new();
    headers.insert("key1".to_string(), "value1".to_string());
    headers.insert("key2".to_string(), "value2".to_string());

    let message_to_publish = MessageToPublish {
        content: vec![1, 2, 3, 4, 5, 6, 7, 8, 9, 0],
        headers: Some(headers),
    };

    let data_test = vec![message_to_publish];
    let topic_test = String::from("test-topic");
    let persist_test = true;

    let tcp_packet = TcpContract::Publish {
        data_to_publish: data_test,
        persist_immediately: persist_test,
        request_id: request_id_test,
        topic_id: topic_test,
    };

    let attr = ConnectionAttributes::new(PROTOCOL_VERSION);
    let serialized_data: Vec<u8> = tcp_packet.serialize(attr.protocol_version);

    let (result, _) = TcpContract::deserialize(&serialized_data, &attr).unwrap();

    match result {
        TcpContract::Publish {
            mut data_to_publish,
            persist_immediately,
            request_id,
            topic_id,
        } => {
            assert_eq!(request_id_test, request_id);
            assert_eq!(String::from("test-topic"), topic_id);
            assert_eq!(persist_test, persist_immediately);

            let data_test = vec![1, 2, 3, 4, 5, 6, 7, 8, 9, 0];

            assert_eq!(1, data_to_publish.len());

            let el0 = data_to_publish.remove(0);

            let mut headers = el0.headers.unwrap();

            assert_eq!(data_test, el0.content);
            assert_eq!(2, headers.len());

            assert_eq!("value1", headers.remove("key1").unwrap());
            assert_eq!("value2", headers.remove("key2").unwrap());
        }
        _ => {
            panic!("Invalid Packet Type");
        }
    }
}

#[test]
fn test_publish_response_packet() {
    const PROTOCOL_VERSION: i32 = 2;

    let request_id_test = 1;

    let tcp_packet = TcpContract::PublishResponse {
        request_id: request_id_test,
    };

    let mut attr = ConnectionAttributes::new(PROTOCOL_VERSION);
    attr.protocol_version = PROTOCOL_VERSION;

    let serialized_data: Vec<u8> = tcp_packet.serialize(PROTOCOL_VERSION);

    let (result, _) = TcpContract::deserialize(&serialized_data, &attr).unwrap();

    match result {
        TcpContract::PublishResponse { request_id } => {
            assert_eq!(request_id_test, request_id);
        }
        _ => {
            panic!("Invalid Packet Type");
        }
    }
}

#[test]
fn test_subscribe_packet() {
    const PROTOCOL_VERSION: i32 = 2;
    let queue_id_test = String::from("queue");
    let topic_id_test = String::from("topic");
    let queue_type_test = TopicQueueType::PermanentWithSingleConnection;

    let tcp_packet = TcpContract::Subscribe {
        queue_id: queue_id_test,
        topic_id: topic_id_test,
        queue_type: queue_type_test,
    };

    let attr = ConnectionAttributes::new(PROTOCOL_VERSION);
    let serialized_data: Vec<u8> = tcp_packet.serialize(PROTOCOL_VERSION);

    let (result, _) = TcpContract::deserialize(&serialized_data, &attr).unwrap();

    match result {
        TcpContract::Subscribe {
            queue_id,
            queue_type,
            topic_id,
        } => {
            let queue_id_test = String::from("queue");
            let topic_id_test = String::from("topic");

            assert_eq!(queue_id_test, queue_id);
            assert_eq!(topic_id_test, topic_id);
            match queue_type {
                TopicQueueType::PermanentWithSingleConnection => {}
                _ => {
                    panic!("Invalid Queue Type");
                }
            };
        }
        _ => {
            panic!("Invalid Packet Type");
        }
    }
}
