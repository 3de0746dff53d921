use my_service_bus_tcp_shared::message_headers::{deserealize_message_headers, serialize_message_headers};
use my_service_bus_tcp_shared::MessageHeaders;

#[test]
fn test_headers() {
    let mut headers = MessageHeaders::new();
    headers.insert("Key1".to_string(), "Value1".to_string());
    headers.insert("Key2".to_string(), "Value2".to_string());
    let mut serialized_data = Vec::new();

    serialize_message_headers(&mut serialized_data, Some(&headers));

    let (result, _) = deserealize_message_headers(&serialized_data, 0).unwrap();

    let result = result.unwrap();
    assert_eq!(2, result.len());
}

#[test]
fn test_empty_headers() {
    let headers = MessageHeaders::new();
    let mut serialized_data = Vec::new();

    serialize_message_headers(&mut serialized_data, Some(&headers));

    let (result, _) = deserealize_message_headers(&serialized_data, 0).unwrap();
    assert_eq!(true, result.is_none());
}

#[test]
fn headers_insert_replaces_value_of_existing_key() {
    let mut headers = MessageHeaders::new();
    headers.insert("k".to_string(), "a".to_string());
    headers.insert("other".to_string(), "b".to_string());
    headers.insert("k".to_string(), "c".to_string());
    assert_eq!(2, headers.len());
    assert_eq!("c", headers.get("k").unwrap());
    assert_eq!("b", headers.get("other").unwrap());
    assert!(headers.get("missing").is_none());
    let (k, v) = headers.entry(0);
    assert_eq!("k", k);
    assert_eq!("c", v);
}

#[test]
fn headers_remove_takes_the_entry_out() {
    let mut headers = MessageHeaders::new();
    headers.insert("a".to_string(), "1".to_string());
    headers.insert("b".to_string(), "2".to_string());
    assert_eq!(Some("1".to_string()), headers.remove("a"));
    assert_eq!(None, headers.remove("a"));
    assert_eq!(1, headers.len());
    assert!(!headers.is_empty());
}

#[test]
fn headers_wire_form_is_count_then_pascal_pairs() {
    let mut headers = MessageHeaders::new();
    headers.insert("ab".to_string(), "c".to_string());
    let mut data = Vec::new();
    serialize_message_headers(&mut data, Some(&headers));
    assert_eq!(vec![1u8, 2, b'a', b'b', 1, b'c'], data);
}

#[test]
fn duplicate_keys_on_the_wire_keep_the_last_value() {
    let data = vec![2u8, 1, b'k', 1, b'x', 1, b'k', 1, b'y'];
    let (result, next) = deserealize_message_headers(&data, 0).unwrap();
    let result = result.unwrap();
    assert_eq!(9, next);
    assert_eq!(1, result.len());
    assert_eq!("y", result.get("k").unwrap());
}
