use spread::client::SpreadClient;
use spread::error::SpreadError;
use spread::framer::{decode_frame, decode_groups, decode_header};

fn name_slot(name: &[u8]) -> Vec<u8> {
    let mut slot = name.to_vec();
    slot.resize(32, 0);
    slot
}

fn header(service_word: &[u8; 4], sender: &[u8], count_word: &[u8; 4], len_word: &[u8; 4]) -> Vec<u8> {
    let mut h = service_word.to_vec();
    h.extend_from_slice(&name_slot(sender));
    h.extend_from_slice(count_word);
    h.extend_from_slice(&[0, 0, 0, 0]);
    h.extend_from_slice(len_word);
    h
}

#[test]
fn header_fields_decode_big_endian_without_sentinel() {
    let h = header(&[0, 1, 0, 0], b"alice", &[0, 0, 0, 2], &[0, 0, 0, 5]);
    let parsed = decode_header(&h);
    assert_eq!(parsed.service_type, 0x00010000);
    assert_eq!(parsed.sender, "alice");
    assert_eq!(parsed.num_groups, 2);
    assert_eq!(parsed.data_len, 5);
}

#[test]
fn sentinel_in_leading_word_flips_every_integer_field() {
    // The leading word carries the sentinel bit 0x80000000, so the whole
    // frame reads as byte-swapped: 0x84000000 flips to 0x00000084, and the
    // counts flip likewise.
    let h = header(&[0x84, 0, 0, 0], b"bob", &[1, 0, 0, 0], &[4, 0, 0, 0]);
    let parsed = decode_header(&h);
    assert_eq!(parsed.service_type, 0x00000084);
    assert_eq!(parsed.num_groups, 1);
    assert_eq!(parsed.data_len, 4);
}

#[test]
fn sender_slot_decodes_latin1_and_trims_padding() {
    let h = header(&[0, 0, 0, 2], &[0xe9, 0x64], &[0, 0, 0, 0], &[0, 0, 0, 0]);
    let parsed = decode_header(&h);
    assert_eq!(parsed.sender, "\u{e9}d");
}

#[test]
fn groups_decode_in_order_with_padding_trimmed() {
    let mut bytes = name_slot(b"first");
    bytes.extend_from_slice(&name_slot(b"second"));
    let groups = decode_groups(&bytes, 2);
    assert_eq!(groups, vec!["first".to_string(), "second".to_string()]);
}

#[test]
fn frame_round_trip_recovers_fields() {
    let frame =
        SpreadClient::encode_message(0x00000002, "de", &["foo", "bar"], b"beef").unwrap();
    let msg = decode_frame(&frame).unwrap();
    assert_eq!(msg.service_type, 0x00000002);
    assert_eq!(msg.sender, "de");
    assert_eq!(msg.groups, vec!["foo".to_string(), "bar".to_string()]);
    assert_eq!(msg.data, b"beef".to_vec());
}

#[test]
fn frame_round_trip_with_no_groups_and_empty_payload() {
    let frame = SpreadClient::encode_message(0x00040000, "x", &[], b"").unwrap();
    let msg = decode_frame(&frame).unwrap();
    assert_eq!(msg.service_type, 0x00040000);
    assert_eq!(msg.sender, "x");
    assert!(msg.groups.is_empty());
    assert!(msg.data.is_empty());
}

#[test]
fn short_buffer_is_malformed() {
    assert_eq!(
        decode_frame(&[0u8; 47]),
        Err(SpreadError::MalformedServerResponse)
    );
}

#[test]
fn length_mismatch_is_malformed() {
    let mut frame =
        SpreadClient::encode_message(0x00000002, "de", &["foo"], b"beef").unwrap();
    frame.push(0);
    assert_eq!(decode_frame(&frame), Err(SpreadError::MalformedServerResponse));
}
