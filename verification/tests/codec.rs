use nanodb::protocol::ProtocolParser;
use nanodb::serializer::serialize_command;
use nanodb::serializer::try_serialize_command;
use nanodb::DbOperation;

#[test]
fn put_encodes_to_exact_wire_bytes() {
    let op = DbOperation::Put { key: "hello".to_string(), value: b"world".to_vec() };
    let bytes = serialize_command(&op);
    assert_eq!(
        bytes,
        vec![2, 0, 5, b'h', b'e', b'l', b'l', b'o', 0, 0, 0, 5, b'w', b'o', b'r', b'l', b'd']
    );
}

#[test]
fn get_encodes_with_zero_value_length() {
    let op = DbOperation::Get { key: "hello".to_string(), default: None };
    let bytes = serialize_command(&op);
    assert_eq!(bytes, vec![1, 0, 5, b'h', b'e', b'l', b'l', b'o', 0, 0, 0, 0]);
}

#[test]
fn delete_encodes_with_zero_value_length() {
    let op = DbOperation::Delete { key: "hi".to_string() };
    let bytes = serialize_command(&op);
    assert_eq!(bytes, vec![3, 0, 2, b'h', b'i', 0, 0, 0, 0]);
}

#[test]
fn flush_encodes_as_single_opcode_byte() {
    let bytes = serialize_command(&DbOperation::Flush);
    assert_eq!(bytes, vec![4]);
}

#[test]
fn multibyte_key_length_counts_bytes_not_chars() {
    let op = DbOperation::Delete { key: "\u{00E9}".to_string() };
    let bytes = serialize_command(&op);
    assert_eq!(bytes, vec![3, 0, 2, 0xC3, 0xA9, 0, 0, 0, 0]);
}

#[test]
fn round_trip_put() {
    let op = DbOperation::Put { key: "hello".to_string(), value: b"world".to_vec() };
    let mut parser = ProtocolParser::new();
    let commands = parser.feed_bytes(&serialize_command(&op));
    assert_eq!(commands, vec![op]);
}

#[test]
fn round_trip_get() {
    let op = DbOperation::Get { key: "a key".to_string(), default: None };
    let mut parser = ProtocolParser::new();
    let commands = parser.feed_bytes(&serialize_command(&op));
    assert_eq!(commands, vec![op]);
}

#[test]
fn round_trip_delete() {
    let op = DbOperation::Delete { key: "gone".to_string() };
    let mut parser = ProtocolParser::new();
    let commands = parser.feed_bytes(&serialize_command(&op));
    assert_eq!(commands, vec![op]);
}

#[test]
fn round_trip_flush() {
    let mut parser = ProtocolParser::new();
    let commands = parser.feed_bytes(&serialize_command(&DbOperation::Flush));
    assert_eq!(commands, vec![DbOperation::Flush]);
}

#[test]
fn round_trip_empty_key_and_value() {
    let op = DbOperation::Put { key: "".to_string(), value: vec![] };
    let bytes = serialize_command(&op);
    assert_eq!(bytes, vec![2, 0, 0, 0, 0, 0, 0]);
    let mut parser = ProtocolParser::new();
    let commands = parser.feed_bytes(&bytes);
    assert_eq!(commands, vec![op]);
}

#[test]
fn round_trip_multibyte_key() {
    let op = DbOperation::Put { key: "caf\u{00E9}".to_string(), value: b"au lait".to_vec() };
    let mut parser = ProtocolParser::new();
    let commands = parser.feed_bytes(&serialize_command(&op));
    assert_eq!(commands, vec![op]);
}

#[test]
fn unwired_variant_is_refused_by_try_serialize() {
    assert!(try_serialize_command(&DbOperation::Keys).is_none());
    assert!(try_serialize_command(&DbOperation::Size).is_none());
    assert!(
        try_serialize_command(&DbOperation::Exists { key: "k".to_string() }).is_none()
    );
}

#[test]
fn try_serialize_agrees_with_serialize_on_wired_ops() {
    let op = DbOperation::Put { key: "k".to_string(), value: b"v".to_vec() };
    assert_eq!(try_serialize_command(&op), Some(serialize_command(&op)));
    assert_eq!(try_serialize_command(&DbOperation::Flush), Some(vec![4]));
}

#[test]
fn oversize_key_is_refused_by_try_serialize() {
    let long_key = "k".repeat(65536);
    let op = DbOperation::Delete { key: long_key };
    assert!(try_serialize_command(&op).is_none());
}
