use spread::client::SpreadClient;
use spread::codec::encode_connect_message;
use spread::error::SpreadError;

fn name_slot(name: &[u8]) -> Vec<u8> {
    let mut slot = name.to_vec();
    slot.resize(32, 0);
    slot
}

#[test]
fn should_encode_connect_message_with_sufficiently_short_private_name() {
    match encode_connect_message("test", true) {
        Ok(result) => assert_eq!(result, vec![4, 4, 0, 16, 4, 116, 101, 115, 116]),
        Err(error) => panic!("{:?}", error),
    }
}

#[test]
fn should_encode_service_message() {
    match SpreadClient::encode_message(0x00010000, "de", &["ad"], "beef".as_bytes()) {
        Ok(result) => assert_eq!(
            result,
            vec![
                0, 1, 0, 0, 100, 101, 0, 0, 0, 0, 0, 0, 0, 0, 0, 0, 0, 0, 0, 0, 0, 0, 0, 0, 0, 0,
                0, 0, 0, 0, 0, 0, 0, 0, 0, 0, 0, 0, 0, 1, 0, 0, 0, 0, 0, 0, 0, 4, 97, 100, 0, 0,
                0, 0, 0, 0, 0, 0, 0, 0, 0, 0, 0, 0, 0, 0, 0, 0, 0, 0, 0, 0, 0, 0, 0, 0, 0, 0, 0,
                0, 98, 101, 101, 102
            ]
        ),
        Err(error) => panic!("{:?}", error),
    }
}

#[test]
fn connect_message_with_empty_name() {
    assert_eq!(encode_connect_message("", false).unwrap(), vec![4, 4, 0, 0, 0]);
}

#[test]
fn connect_message_truncates_long_name_to_ten_characters() {
    let frame = encode_connect_message("abcdefghijkl", true).unwrap();
    let mut expected = vec![4u8, 4, 0, 0x10, 10];
    expected.extend_from_slice(b"abcdefghij");
    assert_eq!(frame, expected);
}

#[test]
fn connect_message_encodes_name_through_the_wire_codec() {
    // U+00E9 is two bytes in the source text's UTF-8 but one byte on the
    // wire, so the frame shows the codec at work rather than raw bytes.
    let frame = encode_connect_message("\u{e9}", false).unwrap();
    assert_eq!(frame, vec![4, 4, 0, 0, 1, 0xe9]);
}

#[test]
fn connect_message_rejects_unencodable_name() {
    assert_eq!(
        encode_connect_message("\u{20ac}", true),
        Err(SpreadError::EncodingFailed)
    );
}

#[test]
fn encode_message_rejects_unencodable_group() {
    assert_eq!(
        SpreadClient::encode_message(2, "de", &["\u{20ac}"], b""),
        Err(SpreadError::EncodingFailed)
    );
}

#[test]
fn join_produces_frame_and_logs_group() {
    let mut client = SpreadClient::new("priv".to_string(), false);
    let frame = client.join("foo").unwrap();
    let mut expected = vec![0u8, 1, 0, 0];
    expected.extend_from_slice(&name_slot(b"priv"));
    expected.extend_from_slice(&[0, 0, 0, 1, 0, 0, 0, 0, 0, 0, 0, 0]);
    expected.extend_from_slice(&name_slot(b"foo"));
    assert_eq!(frame, expected);
    assert_eq!(client.groups, vec!["foo".to_string()]);
}

#[test]
fn leave_produces_frame_and_logs_group_again() {
    let mut client = SpreadClient::new("priv".to_string(), false);
    client.join("foo").unwrap();
    let frame = client.leave("foo").unwrap();
    let mut expected = vec![0u8, 2, 0, 0];
    expected.extend_from_slice(&name_slot(b"priv"));
    expected.extend_from_slice(&[0, 0, 0, 1, 0, 0, 0, 0, 0, 0, 0, 0]);
    expected.extend_from_slice(&name_slot(b"foo"));
    assert_eq!(frame, expected);
    // The log is append-only: leave appends rather than removing.
    assert_eq!(client.groups, vec!["foo".to_string(), "foo".to_string()]);
}

#[test]
fn multicast_produces_exact_reliable_frame() {
    let mut client = SpreadClient::new("de".to_string(), false);
    let frame = client.multicast(&["foo"], b"beef").unwrap();
    let mut expected = vec![0u8, 0, 0, 2];
    expected.extend_from_slice(&name_slot(b"de"));
    expected.extend_from_slice(&[0, 0, 0, 1, 0, 0, 0, 0, 0, 0, 0, 4]);
    expected.extend_from_slice(&name_slot(b"foo"));
    expected.extend_from_slice(b"beef");
    assert_eq!(frame, expected);
}

#[test]
fn disconnect_kill_frame_addresses_own_private_name() {
    let client = SpreadClient::new("priv".to_string(), true);
    let frame = client.disconnect().unwrap();
    let mut expected = vec![0u8, 4, 0, 0];
    expected.extend_from_slice(&name_slot(b"priv"));
    expected.extend_from_slice(&[0, 0, 0, 1, 0, 0, 0, 0, 0, 0, 0, 0]);
    expected.extend_from_slice(&name_slot(b"priv"));
    assert_eq!(frame, expected);
}
