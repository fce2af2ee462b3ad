use nanodb::protocol::ProtocolParser;
use nanodb::DbOperation;

#[test]
fn test_flush_command() {
    let mut parser = ProtocolParser::new();
    let commands = parser.feed_bytes(&[4]);
    assert_eq!(commands.len(), 1);
    assert_eq!(commands[0], DbOperation::Flush);
}

#[test]
fn test_incomplete_command() {
    let mut parser = ProtocolParser::new();
    let commands = parser.feed_bytes(&[1]);
    assert_eq!(commands.len(), 0);
}

fn put_hello_world_frame() -> Vec<u8> {
    vec![
        2, 0, 5, b'h', b'e', b'l', b'l', b'o', 0, 0, 0, 5, b'w', b'o', b'r', b'l', b'd',
    ]
}

fn put_hello_world_op() -> DbOperation {
    DbOperation::Put { key: "hello".to_string(), value: b"world".to_vec() }
}

#[test]
fn whole_frame_in_one_call() {
    let mut parser = ProtocolParser::new();
    let commands = parser.feed_bytes(&put_hello_world_frame());
    assert_eq!(commands.len(), 1);
    assert_eq!(commands[0], put_hello_world_op());
}

#[test]
fn one_byte_at_a_time_matches_one_call() {
    let frame = put_hello_world_frame();

    let mut whole = ProtocolParser::new();
    let all_at_once = whole.feed_bytes(&frame);

    let mut trickle = ProtocolParser::new();
    let mut dribbled: Vec<DbOperation> = Vec::new();
    for byte in &frame {
        dribbled.extend(trickle.feed_bytes(&[*byte]));
    }

    assert_eq!(dribbled, all_at_once);
    assert_eq!(dribbled.len(), 1);
}

#[test]
fn every_split_point_matches_one_call() {
    let mut frame = put_hello_world_frame();
    frame.extend_from_slice(&[4]);
    frame.extend_from_slice(&[3, 0, 1, b'x', 0, 0, 0, 0]);

    let mut whole = ProtocolParser::new();
    let all_at_once = whole.feed_bytes(&frame);
    assert_eq!(all_at_once.len(), 3);

    for split in 0..=frame.len() {
        let mut parser = ProtocolParser::new();
        let mut commands = parser.feed_bytes(&frame[..split]);
        commands.extend(parser.feed_bytes(&frame[split..]));
        assert_eq!(commands, all_at_once);
    }
}

#[test]
fn bad_byte_then_flush_yields_one_command() {
    let mut parser = ProtocolParser::new();
    let commands = parser.feed_bytes(&[0, 4]);
    assert_eq!(commands.len(), 1);
    assert_eq!(commands[0], DbOperation::Flush);
}

#[test]
fn garbage_alone_yields_nothing() {
    let mut parser = ProtocolParser::new();
    let commands = parser.feed_bytes(&[0, 99, 250, 17]);
    assert_eq!(commands.len(), 0);

    let commands = parser.feed_bytes(&[4]);
    assert_eq!(commands, vec![DbOperation::Flush]);
}

#[test]
fn get_frame_decodes_with_no_default() {
    let mut parser = ProtocolParser::new();
    let commands = parser.feed_bytes(&[1, 0, 2, b'h', b'i', 0, 0, 0, 0]);
    assert_eq!(commands.len(), 1);
    assert_eq!(commands[0], DbOperation::Get { key: "hi".to_string(), default: None });
}

#[test]
fn get_frame_with_value_bytes_consumes_them() {
    let mut parser = ProtocolParser::new();
    let commands = parser.feed_bytes(&[1, 0, 1, b'k', 0, 0, 0, 2, 9, 9, 4]);
    assert_eq!(
        commands,
        vec![DbOperation::Get { key: "k".to_string(), default: None }, DbOperation::Flush]
    );
}

#[test]
fn delete_frame_decodes() {
    let mut parser = ProtocolParser::new();
    let commands = parser.feed_bytes(&[3, 0, 2, b'h', b'i', 0, 0, 0, 0]);
    assert_eq!(commands, vec![DbOperation::Delete { key: "hi".to_string() }]);
}

#[test]
fn partial_frame_resumes_across_calls() {
    let mut parser = ProtocolParser::new();
    assert_eq!(parser.feed_bytes(&[2, 0]).len(), 0);
    assert_eq!(parser.feed_bytes(&[5, b'h', b'e', b'l']).len(), 0);
    assert_eq!(parser.feed_bytes(&[b'l', b'o', 0, 0]).len(), 0);
    let commands = parser.feed_bytes(&[0, 5, b'w', b'o', b'r', b'l', b'd']);
    assert_eq!(commands, vec![put_hello_world_op()]);
}

#[test]
fn invalid_utf8_key_is_lossily_decoded() {
    let mut parser = ProtocolParser::new();
    let commands = parser.feed_bytes(&[3, 0, 1, 0xFF, 0, 0, 0, 0]);
    assert_eq!(commands, vec![DbOperation::Delete { key: "\u{FFFD}".to_string() }]);
}
