use std::collections::HashMap;

use my_service_bus_tcp_shared::common_deserializers::{
    read_bool, read_byte_array, read_i32, read_i64, read_long, read_pascal_string,
};
use my_service_bus_tcp_shared::common_serializers::{
    serialize_bool, serialize_byte, serialize_byte_array, serialize_i32, serialize_i64,
    serialize_long, serialize_pascal_string,
};
use my_service_bus_tcp_shared::message_headers::{deserealize_message_headers, serialize_message_headers};
use my_service_bus_tcp_shared::messages_to_deliver;
use my_service_bus_tcp_shared::messages_to_publish::{
    serialize_list_of_arrays, serialize_messages_v2, serialize_messages_v3, MessageToPublish,
};
use my_service_bus_tcp_shared::queue_with_intervals::{
    read_queue_with_intervals, serialize_queue_with_intervals, QueueIndexRange,
};
use my_service_bus_tcp_shared::tcp_contract_message::TcpContractMessage;
use my_service_bus_tcp_shared::tcp_message_id::{NEW_MESSAGES, PACKET_VERSIONS};
use my_service_bus_tcp_shared::test_utils::DataReaderMock;
use my_service_bus_tcp_shared::{
    convert_from_raw, ConnectionAttributes, DeliverTcpPacketBuilder, MessageHeaders,
    MySbSocketError, MySbTcpSerializer, PacketProtVer, PacketVersions, TcpContract,
};

#[test]
fn integers_are_little_endian() {
    let mut data = Vec::new();
    serialize_i32(&mut data, 0x0403_0201);
    serialize_i64(&mut data, -2);
    serialize_byte(&mut data, 0xAB);
    serialize_bool(&mut data, true);
    serialize_bool(&mut data, false);
    assert_eq!(
        vec![1u8, 2, 3, 4, 0xFE, 0xFF, 0xFF, 0xFF, 0xFF, 0xFF, 0xFF, 0xFF, 0xAB, 1, 0],
        data
    );
    assert_eq!((0x0403_0201, 4), read_i32(&data, 0).unwrap());
    assert_eq!((-2, 12), read_i64(&data, 4).unwrap());
}

#[test]
fn any_nonzero_byte_reads_as_true() {
    let data = vec![0u8, 1, 7, 255];
    assert_eq!((false, 1), read_bool(&data, 0).unwrap());
    assert_eq!((true, 2), read_bool(&data, 1).unwrap());
    assert_eq!((true, 3), read_bool(&data, 2).unwrap());
    assert_eq!((true, 4), read_bool(&data, 3).unwrap());
}

#[test]
fn pascal_string_and_byte_array_wire_forms() {
    let mut data = Vec::new();
    serialize_pascal_string(&mut data, "héllo");
    serialize_byte_array(&mut data, &[9, 8]);
    assert_eq!(
        vec![6u8, b'h', 0xC3, 0xA9, b'l', b'l', b'o', 2, 0, 0, 0, 9, 8],
        data
    );
    let (s, p) = read_pascal_string(&data, 0).unwrap();
    assert_eq!("héllo", s);
    assert_eq!(7, p);
    assert_eq!((vec![9u8, 8], 13), read_byte_array(&data, 7).unwrap());
}

#[test]
fn empty_string_and_empty_content_round_trip() {
    let mut data = Vec::new();
    serialize_pascal_string(&mut data, "");
    serialize_byte_array(&mut data, &[]);
    assert_eq!(vec![0u8, 0, 0, 0, 0], data);
    assert_eq!((String::new(), 1), read_pascal_string(&data, 0).unwrap());
    assert_eq!((Vec::<u8>::new(), 5), read_byte_array(&data, 1).unwrap());
}

#[test]
fn longest_pascal_string_round_trips() {
    let s = "x".repeat(255);
    let mut data = Vec::new();
    serialize_pascal_string(&mut data, &s);
    assert_eq!(256, data.len());
    assert_eq!(255, data[0]);
    assert_eq!((s, 256), read_pascal_string(&data, 0).unwrap());
}

#[test]
fn pascal_string_of_300_bytes_is_cut_to_255() {
    let s = "y".repeat(300);
    let mut data = Vec::new();
    serialize_pascal_string(&mut data, &s);
    assert_eq!(256, data.len());
    assert_eq!(255, data[0]);
    let (read, _) = read_pascal_string(&data, 0).unwrap();
    assert_eq!("y".repeat(255), read);
}

#[test]
fn pascal_string_is_cut_at_a_character_boundary() {
    // 127 two-byte characters make 254 bytes; one more would pass 255.
    let s = "é".repeat(200);
    let mut data = Vec::new();
    serialize_pascal_string(&mut data, &s);
    assert_eq!(254, data[0]);
    let (read, _) = read_pascal_string(&data, 0).unwrap();
    assert_eq!("é".repeat(127), read);
}

#[test]
fn none_and_empty_headers_collapse() {
    let mut none_bytes = Vec::new();
    serialize_message_headers(&mut none_bytes, None);
    let empty = MessageHeaders::new();
    let mut empty_bytes = Vec::new();
    serialize_message_headers(&mut empty_bytes, Some(&empty));
    assert_eq!(vec![0u8], none_bytes);
    assert_eq!(vec![0u8], empty_bytes);
    assert!(deserealize_message_headers(&none_bytes, 0).unwrap().0.is_none());
    assert!(deserealize_message_headers(&empty_bytes, 0).unwrap().0.is_none());
}

#[test]
fn header_map_of_300_entries_reads_back_255() {
    let mut headers = MessageHeaders::new();
    for i in 0..300 {
        headers.insert(format!("k{}", i), format!("v{}", i));
    }
    assert_eq!(300, headers.len());
    let mut data = Vec::new();
    serialize_message_headers(&mut data, Some(&headers));
    assert_eq!(255, data[0]);
    let (read, next) = deserealize_message_headers(&data, 0).unwrap();
    let read = read.unwrap();
    assert_eq!(data.len(), next);
    assert_eq!(255, read.len());
    assert_eq!("v254", read.get("k254").unwrap());
    assert!(read.get("k255").is_none());
}

#[test]
fn legacy_long_wraps_to_32_bits() {
    let old = PacketProtVer {
        packet_version: 0,
        protocol_version: 1,
    };
    let mut data = Vec::new();
    serialize_long(&mut data, 5_000_000_000, &old);
    assert_eq!(4, data.len());
    assert_eq!(vec![0x00u8, 0xF2, 0x05, 0x2A], data);
    let (v, p) = read_long(&data, 0, 1).unwrap();
    assert_eq!(4, p);
    assert_eq!(705_032_704, v);
    assert_eq!((5_000_000_000i64 as i32) as i64, v);
    assert_ne!(5_000_000_000, v);

    let new = PacketProtVer {
        packet_version: 0,
        protocol_version: 2,
    };
    let mut data = Vec::new();
    serialize_long(&mut data, 5_000_000_000, &new);
    assert_eq!(8, data.len());
    assert_eq!((5_000_000_000, 8), read_long(&data, 0, 2).unwrap());
}

#[test]
fn legacy_long_sign_extends_on_read() {
    let data = vec![0xFFu8, 0xFF, 0xFF, 0xFF];
    assert_eq!((-1, 4), read_long(&data, 0, 0).unwrap());
}

#[test]
fn request_id_is_32_bits_on_old_connections() {
    let packet = TcpContract::PublishResponse {
        request_id: 5_000_000_000,
    };
    let data = packet.serialize(1);
    assert_eq!(5, data.len());
    let attr = ConnectionAttributes::new(1);
    let (read, n) = TcpContract::deserialize(&data, &attr).unwrap();
    assert_eq!(5, n);
    match read {
        TcpContract::PublishResponse { request_id } => assert_eq!(705_032_704, request_id),
        _ => panic!("wrong kind"),
    }
}

#[test]
fn unknown_tag_is_refused_with_its_byte() {
    let attr = ConnectionAttributes::new(3);
    let data = vec![0xFFu8, 1, 2, 3];
    assert_eq!(
        MySbSocketError::InvalidPacketId(0xFF),
        TcpContract::deserialize(&data, &attr).unwrap_err()
    );
    let data = vec![15u8];
    assert_eq!(
        MySbSocketError::InvalidPacketId(15),
        TcpContract::deserialize(&data, &attr).unwrap_err()
    );
}

#[test]
fn truncated_input_is_a_disconnection() {
    let attr = ConnectionAttributes::new(3);
    assert_eq!(
        MySbSocketError::SocketDisconnected,
        TcpContract::deserialize(&[], &attr).unwrap_err()
    );
    let full = TcpContract::Greeting {
        name: "abc".to_string(),
        protocol_version: 3,
    }
    .serialize(3);
    for cut in 0..full.len() {
        assert_eq!(
            MySbSocketError::SocketDisconnected,
            TcpContract::deserialize(&full[..cut], &attr).unwrap_err()
        );
    }
    assert!(TcpContract::deserialize(&full, &attr).is_ok());
}

#[test]
fn invalid_utf8_is_refused() {
    let data = vec![2u8, 2, 0xC3, 0x28];
    let attr = ConnectionAttributes::new(3);
    assert_eq!(
        MySbSocketError::ParsingUtf8StringError,
        TcpContract::deserialize(&data, &attr).unwrap_err()
    );
}

#[test]
fn negative_length_is_refused() {
    let data = vec![0xFFu8, 0xFF, 0xFF, 0xFF];
    assert_eq!(
        MySbSocketError::ErrorReadingSize,
        read_byte_array(&data, 0).unwrap_err()
    );
    assert_eq!(
        MySbSocketError::ErrorReadingSize,
        read_queue_with_intervals(&data, 0).unwrap_err()
    );
}

#[test]
fn unknown_queue_type_is_refused() {
    let data = vec![5u8, 1, b't', 1, b'q', 9];
    let attr = ConnectionAttributes::new(3);
    assert_eq!(
        MySbSocketError::InvalidQueueType(9),
        TcpContract::deserialize(&data, &attr).unwrap_err()
    );
}

#[test]
fn confirmations_round_trip() {
    let attr = ConnectionAttributes::new(3);
    let ranges = vec![
        QueueIndexRange { from_id: 1, to_id: 5 },
        QueueIndexRange { from_id: 9, to_id: 9 },
    ];
    let packet = TcpContract::ConfirmSomeMessagesAsOk {
        packet_version: 1,
        topic_id: "t".to_string(),
        queue_id: "q".to_string(),
        confirmation_id: 77,
        delivered: ranges.clone(),
    };
    let data = packet.serialize(3);
    let (read, n) = TcpContract::deserialize(&data, &attr).unwrap();
    assert_eq!(data.len(), n);
    match read {
        TcpContract::ConfirmSomeMessagesAsOk {
            packet_version,
            topic_id,
            queue_id,
            confirmation_id,
            delivered,
        } => {
            assert_eq!(1, packet_version);
            assert_eq!("t", topic_id);
            assert_eq!("q", queue_id);
            assert_eq!(77, confirmation_id);
            assert_eq!(ranges, delivered);
        }
        _ => panic!("wrong kind"),
    }

    let packet = TcpContract::IntermediaryConfirm {
        packet_version: 2,
        topic_id: "t".to_string(),
        queue_id: "q".to_string(),
        confirmation_id: 78,
        delivered: vec![],
    };
    let data = packet.serialize(3);
    match TcpContract::deserialize(&data, &attr).unwrap().0 {
        TcpContract::IntermediaryConfirm {
            packet_version,
            confirmation_id,
            delivered,
            ..
        } => {
            assert_eq!(2, packet_version);
            assert_eq!(78, confirmation_id);
            assert!(delivered.is_empty());
        }
        _ => panic!("wrong kind"),
    }

    for packet in [
        TcpContract::NewMessagesConfirmation {
            topic_id: "a".to_string(),
            queue_id: "b".to_string(),
            confirmation_id: 3,
        },
        TcpContract::AllMessagesConfirmedAsFail {
            topic_id: "a".to_string(),
            queue_id: "b".to_string(),
            confirmation_id: 3,
        },
    ] {
        let data = packet.clone().serialize(3);
        assert_eq!(1 + 2 + 2 + 8, data.len());
        let (read, _) = TcpContract::deserialize(&data, &attr).unwrap();
        match (packet, read) {
            (
                TcpContract::NewMessagesConfirmation { confirmation_id: a, .. },
                TcpContract::NewMessagesConfirmation { confirmation_id: b, .. },
            ) => assert_eq!(a, b),
            (
                TcpContract::AllMessagesConfirmedAsFail { confirmation_id: a, .. },
                TcpContract::AllMessagesConfirmedAsFail { confirmation_id: b, .. },
            ) => assert_eq!(a, b),
            _ => panic!("wrong kind"),
        }
    }
}

#[test]
fn ranges_wire_form() {
    let mut data = Vec::new();
    serialize_queue_with_intervals(&mut data, &vec![QueueIndexRange { from_id: 1, to_id: 2 }]);
    assert_eq!(
        vec![1u8, 0, 0, 0, 1, 0, 0, 0, 0, 0, 0, 0, 2, 0, 0, 0, 0, 0, 0, 0],
        data
    );
}

#[test]
fn simple_packets_round_trip() {
    let attr = ConnectionAttributes::new(3);
    for packet in [
        TcpContract::CreateTopicIfNotExists {
            topic_id: "topic".to_string(),
        },
        TcpContract::Reject {
            message: "no".to_string(),
        },
        TcpContract::SubscribeResponse {
            topic_id: "t".to_string(),
            queue_id: "q".to_string(),
        },
    ] {
        let data = packet.clone().serialize(3);
        let (read, n) = TcpContract::deserialize(&data, &attr).unwrap();
        assert_eq!(data.len(), n);
        assert_eq!(format!("{:?}", packet), format!("{:?}", read));
    }
}

#[test]
fn packet_versions_round_trip_in_tag_order() {
    let mut map = HashMap::new();
    map.insert(NEW_MESSAGES, 1);
    map.insert(3u8, -2);
    let data = TcpContract::PacketVersions {
        packet_versions: map.clone(),
    }
    .serialize(3);
    assert_eq!(
        vec![PACKET_VERSIONS, 2, 3, 0xFE, 0xFF, 0xFF, 0xFF, NEW_MESSAGES, 1, 0, 0, 0],
        data
    );
    let attr = ConnectionAttributes::new(3);
    match TcpContract::deserialize(&data, &attr).unwrap().0 {
        TcpContract::PacketVersions { packet_versions } => assert_eq!(map, packet_versions),
        _ => panic!("wrong kind"),
    }
}

#[test]
fn end_to_end_negotiation_and_delivery() {
    let mut serializer = MySbTcpSerializer::new(ConnectionAttributes::new(0));

    let greeting = TcpContract::Greeting {
        name: "test".to_string(),
        protocol_version: 3,
    };
    let data = serializer.serialize(greeting);
    let (greeting, _) = serializer.deserialize(&data).unwrap();
    match &greeting {
        TcpContract::Greeting {
            name,
            protocol_version,
        } => {
            assert_eq!("test", name);
            assert_eq!(3, *protocol_version);
        }
        _ => panic!("wrong kind"),
    }
    assert!(serializer.apply_packet(&greeting));

    assert_eq!(0, serializer.get_messages_to_deliver_packet_version().packet_version);
    let mut versions = HashMap::new();
    versions.insert(NEW_MESSAGES, 1);
    let announce = TcpContract::PacketVersions {
        packet_versions: versions,
    };
    assert!(serializer.apply_packet(&announce));
    let version = serializer.get_messages_to_deliver_packet_version();
    assert_eq!(1, version.packet_version);
    assert_eq!(3, version.protocol_version);
    assert!(!serializer.apply_packet(&TcpContract::Ping));

    let mut headers = MessageHeaders::new();
    headers.insert("a".to_string(), "1".to_string());
    headers.insert("b".to_string(), "2".to_string());
    let msg1 = TcpContractMessage {
        id: 10,
        attempt_no: 0,
        headers: Some(headers),
        content: vec![1, 2],
    };
    let msg2 = TcpContractMessage {
        id: 11,
        attempt_no: 0,
        headers: None,
        content: vec![],
    };
    let mut builder = DeliverTcpPacketBuilder::new("topic", "queue", 99, version);
    builder.append_packet(&msg1, 4);
    builder.append_packet(&msg2, 5);
    let raw = builder.get_result();
    let bytes = match &raw {
        TcpContract::Raw(b) => b.clone(),
        _ => panic!("expected raw bytes"),
    };
    let (read, n) = serializer.deserialize(&bytes).unwrap();
    assert_eq!(bytes.len(), n);
    match read {
        TcpContract::NewMessages {
            topic_id,
            queue_id,
            confirmation_id,
            messages,
        } => {
            assert_eq!("topic", topic_id);
            assert_eq!("queue", queue_id);
            assert_eq!(99, confirmation_id);
            assert_eq!(2, messages.len());
            assert_eq!(4, messages[0].attempt_no);
            assert_eq!(5, messages[1].attempt_no);
            let h = messages[0].headers.as_ref().unwrap();
            assert_eq!(2, h.len());
            assert_eq!("2", h.get("b").unwrap());
            assert!(messages[1].headers.is_none());
            assert_eq!(vec![1u8, 2], messages[0].content);
        }
        _ => panic!("wrong kind"),
    }
    assert_eq!(bytes, serializer.serialize(raw));
}

#[test]
fn builder_output_matches_field_by_field_encoding() {
    let version = PacketProtVer {
        packet_version: 1,
        protocol_version: 3,
    };
    let mut headers = MessageHeaders::new();
    headers.insert("h".to_string(), "v".to_string());
    let msgs = vec![
        TcpContractMessage {
            id: 1,
            attempt_no: 0,
            headers: Some(headers),
            content: vec![1],
        },
        TcpContractMessage {
            id: 2,
            attempt_no: 0,
            headers: None,
            content: vec![2, 2],
        },
    ];
    let mut builder = DeliverTcpPacketBuilder::new("tp", "qu", 1234, version);
    for (i, m) in msgs.iter().enumerate() {
        builder.append_packet(m, i as i32 + 1);
    }
    let built = match builder.get_result() {
        TcpContract::Raw(b) => b,
        _ => panic!("expected raw bytes"),
    };

    let mut expected = vec![NEW_MESSAGES];
    serialize_pascal_string(&mut expected, "tp");
    serialize_pascal_string(&mut expected, "qu");
    serialize_i64(&mut expected, 1234);
    serialize_i32(&mut expected, 2);
    for (i, m) in msgs.iter().enumerate() {
        messages_to_deliver::serialize(&mut expected, m, i as i32 + 1, &version);
    }
    assert_eq!(expected, built);

    match convert_from_raw(TcpContract::Raw(built), &version).unwrap() {
        TcpContract::NewMessages { messages, .. } => {
            assert_eq!(2, messages.len());
            assert_eq!(2, messages[1].attempt_no);
            assert_eq!(vec![2u8, 2], messages[1].content);
        }
        _ => panic!("wrong kind"),
    }
}

#[test]
fn publish_message_lists_by_revision() {
    let mut headers = MessageHeaders::new();
    headers.insert("k".to_string(), "v".to_string());
    let msgs = vec![MessageToPublish {
        headers: Some(headers),
        content: vec![7],
    }];
    let mut v2 = Vec::new();
    serialize_messages_v2(&mut v2, &msgs);
    assert_eq!(vec![1u8, 0, 0, 0, 1, 0, 0, 0, 7], v2);
    let mut v3 = Vec::new();
    serialize_messages_v3(&mut v3, &msgs);
    assert_eq!(
        vec![1u8, 0, 0, 0, 1, 1, b'k', 1, b'v', 1, 0, 0, 0, 7],
        v3
    );
    let mut arrays = Vec::new();
    serialize_list_of_arrays(&mut arrays, &vec![vec![5u8], vec![]]);
    assert_eq!(vec![2u8, 0, 0, 0, 1, 0, 0, 0, 5, 0, 0, 0, 0], arrays);
}

#[test]
fn packet_versions_table_updates() {
    let mut table = PacketVersions::new();
    assert_eq!(0, table.get_packet_version(200));
    table.set_packet_version(200, 4);
    let mut m = HashMap::new();
    m.insert(1u8, 9);
    table.update(&m);
    assert_eq!(4, table.get_packet_version(200));
    assert_eq!(9, table.get_packet_version(1));
    assert_eq!(0, table.get_packet_version(2));

    let attr = ConnectionAttributes::new(2);
    let v = attr.get(NEW_MESSAGES);
    assert_eq!(2, v.protocol_version);
    assert_eq!(0, v.packet_version);
    assert_eq!(0, attr.get_packet_version(NEW_MESSAGES));
}

#[test]
fn reader_reads_fields_in_turn() {
    let mut reader = DataReaderMock::new();
    let mut data = Vec::new();
    serialize_pascal_string(&mut data, "hi");
    serialize_i32(&mut data, -5);
    reader.push(&data);
    reader.push(&[1, 0, 0, 0, 0, 0, 0, 0, 0, 2, 0, 0, 0, 3, 4]);
    assert_eq!("hi", reader.read_pascal_string().unwrap());
    assert_eq!(-5, reader.read_i32().unwrap());
    assert_eq!(1, reader.read_i64().unwrap());
    assert_eq!(false, reader.read_bool().unwrap());
    assert_eq!(vec![3u8, 4], reader.read_byte_array().unwrap());
    assert_eq!(MySbSocketError::SocketDisconnected, reader.read_byte().unwrap_err());
    reader.push(&[42]);
    assert_eq!(42, reader.read_byte().unwrap());
}

#[test]
fn ping_is_the_keep_alive_packet() {
    let serializer = MySbTcpSerializer::new(ConnectionAttributes::new(3));
    match serializer.get_ping() {
        TcpContract::Ping => {}
        _ => panic!("wrong kind"),
    }
    assert_eq!(vec![0u8], TcpContract::Ping.serialize(3));
    assert_eq!(vec![1u8], TcpContract::Pong.serialize(3));
}
