use spread::client::SpreadClient;
use spread::error::SpreadError;
use spread::handshake::{Handshake, HandshakeState, HandshakeStep};

fn started(name: &str, membership: bool) -> (Handshake, Vec<u8>) {
    Handshake::begin(name, membership).unwrap()
}

#[test]
fn begin_yields_connect_frame_and_first_read() {
    let (hs, frame) = started("test_user", false);
    let mut expected = vec![4u8, 4, 0, 0, 9];
    expected.extend_from_slice(b"test_user");
    assert_eq!(frame, expected);
    assert_eq!(hs.state, HandshakeState::AwaitAuthLen);
    assert_eq!(hs.expected_read(), 1);
}

#[test]
fn begin_rejects_unencodable_name() {
    assert!(matches!(
        Handshake::begin("\u{20ac}", false),
        Err(SpreadError::EncodingFailed)
    ));
}

#[test]
fn auth_length_of_130_refuses_connection_with_sign_extended_code() {
    let (mut hs, _frame) = started("test_user", false);
    let r = hs.feed(&vec![130]);
    assert_eq!(r, Err(SpreadError::ConnectionRefused(-126)));
    assert_eq!(hs.state, HandshakeState::Failed);
}

#[test]
fn auth_choice_is_null_padded_to_ninety_one_bytes() {
    let (mut hs, _frame) = started("test_user", false);
    assert!(matches!(hs.feed(&vec![4]), Ok(HandshakeStep::Read)));
    assert_eq!(hs.expected_read(), 4);
    match hs.feed(&vec![78, 85, 76, 76]) {
        Ok(HandshakeStep::Send(choice)) => {
            assert_eq!(choice.len(), 91);
            assert_eq!(&choice[..4], b"NULL");
            assert!(choice[4..].iter().all(|b| *b == 0));
        }
        other => panic!("{:?}", other),
    }
    assert_eq!(hs.state, HandshakeState::AwaitAccept);
}

#[test]
fn acceptance_byte_other_than_one_refuses_connection() {
    let (mut hs, _frame) = started("test_user", false);
    hs.feed(&vec![0]).unwrap();
    hs.feed(&vec![]).unwrap();
    let r = hs.feed(&vec![6]);
    assert_eq!(r, Err(SpreadError::ConnectionRefused(-250)));
    assert_eq!(hs.state, HandshakeState::Failed);
}

#[test]
fn version_below_minimum_is_unsupported() {
    let (mut hs, _frame) = started("test_user", false);
    hs.feed(&vec![0]).unwrap();
    hs.feed(&vec![]).unwrap();
    hs.feed(&vec![1]).unwrap();
    let r = hs.feed(&vec![3, 0, 99]);
    assert_eq!(r, Err(SpreadError::ProtocolVersionUnsupported));
    assert_eq!(hs.state, HandshakeState::Failed);
}

#[test]
fn scripted_handshake_succeeds_and_takes_assigned_name() {
    let (mut hs, frame) = started("test_user", true);
    assert_eq!(frame[3], 0x10);
    assert!(matches!(hs.feed(&vec![1]), Ok(HandshakeStep::Read)));
    assert!(matches!(hs.feed(&vec![0]), Ok(HandshakeStep::Send(_))));
    assert!(matches!(hs.feed(&vec![1]), Ok(HandshakeStep::Read)));
    assert!(matches!(hs.feed(&vec![4, 4, 0]), Ok(HandshakeStep::Read)));
    assert_eq!(hs.expected_read(), 1);
    assert!(matches!(hs.feed(&vec![3]), Ok(HandshakeStep::Read)));
    assert_eq!(hs.expected_read(), 3);
    match hs.feed(&vec![97, 98, 99]) {
        Ok(HandshakeStep::Done(name)) => {
            assert_eq!(name, "abc");
            let client = SpreadClient::new(name, true);
            assert_eq!(client.private_name, "abc");
            assert!(client.groups.is_empty());
        }
        other => panic!("{:?}", other),
    }
    assert_eq!(hs.state, HandshakeState::Complete);
}

#[test]
fn assigned_name_may_be_non_ascii_utf8() {
    let (mut hs, _frame) = started("x", false);
    hs.feed(&vec![0]).unwrap();
    hs.feed(&vec![]).unwrap();
    hs.feed(&vec![1]).unwrap();
    hs.feed(&vec![4, 4, 0]).unwrap();
    hs.feed(&vec![2]).unwrap();
    match hs.feed(&vec![0xc3, 0xa9]) {
        Ok(HandshakeStep::Done(name)) => assert_eq!(name, "\u{e9}"),
        other => panic!("{:?}", other),
    }
}

#[test]
fn invalid_utf8_assigned_name_is_malformed() {
    let (mut hs, _frame) = started("x", false);
    hs.feed(&vec![0]).unwrap();
    hs.feed(&vec![]).unwrap();
    hs.feed(&vec![1]).unwrap();
    hs.feed(&vec![4, 4, 0]).unwrap();
    hs.feed(&vec![1]).unwrap();
    let r = hs.feed(&vec![0xff]);
    assert_eq!(r, Err(SpreadError::MalformedServerResponse));
    assert_eq!(hs.state, HandshakeState::Failed);
}

#[test]
fn long_requested_name_is_truncated_in_connect_frame() {
    let (_hs, frame) = started("abcdefghijkl", false);
    let mut expected = vec![4u8, 4, 0, 0, 10];
    expected.extend_from_slice(b"abcdefghij");
    assert_eq!(frame, expected);
}
