//! The frame codec: exact byte layouts, the size bound, and each decode
//! error on its malformed input.

use chat_rs::codec::decode_frame;
use chat_rs::codec::encode_frame;
use chat_rs::ChatError;
use chat_rs::Msg;
use chat_rs::ProtocolError;
use chat_rs::MSG_LENGTH;

fn s(text: &str) -> String {
    text.to_string()
}

#[test]
fn encode_produces_header_then_payload() {
    let bytes = encode_frame(&Msg::UserMsg(s("hi"))).unwrap();
    assert_eq!(bytes, vec![0u8, 0, 2, b'h', b'i']);
}

#[test]
fn encode_stringless_variant_carries_its_default_text() {
    let bytes = encode_frame(&Msg::ConnectionAccepted).unwrap();
    let text = b"connection accepted";
    let mut expected = vec![254u8, 0, text.len() as u8];
    expected.extend_from_slice(text);
    assert_eq!(bytes, expected);
}

#[test]
fn decode_inverts_encode_for_every_variant() {
    let variants = vec![
        Msg::UserMsg(s("hello")),
        Msg::NickChange(s("alice")),
        Msg::Command(s("quit")),
        Msg::NickedConnect(s("alice")),
        Msg::NickedDisconnect(s("alice")),
        Msg::NickedUserMsg(s("alice"), s("hello")),
        Msg::NickedNickChange(s("alice"), s("bob")),
        Msg::NickedCommand(s("alice"), s("quit")),
        Msg::ConnectionEncrypted,
        Msg::ConnectionAccepted,
        Msg::ConnectionRejected(s("nick taken")),
    ];
    for m in variants {
        let bytes = encode_frame(&m).unwrap();
        assert_eq!(decode_frame(&bytes).unwrap(), m);
    }
}

#[test]
fn decode_inverts_encode_for_multibyte_utf8() {
    let m = Msg::UserMsg(s("grüße ✓"));
    let bytes = encode_frame(&m).unwrap();
    assert_eq!(decode_frame(&bytes).unwrap(), m);
}

#[test]
fn encode_refuses_oversized_payload() {
    // MSG_LENGTH - 3 payload bytes still fit; one more does not.
    let largest = Msg::UserMsg("x".repeat(MSG_LENGTH - 3));
    assert!(encode_frame(&largest).is_ok());
    let too_big = Msg::UserMsg("x".repeat(MSG_LENGTH - 2));
    assert_eq!(
        encode_frame(&too_big),
        Err(ChatError::Protocol(ProtocolError::Oversized))
    );
}

#[test]
fn decode_refuses_oversized_declared_length() {
    // A header declaring 0xFFFF payload bytes, with no payload at all: the
    // length check must fail before the payload is ever wanted.
    let bytes = [0u8, 0xFF, 0xFF];
    assert_eq!(
        decode_frame(&bytes),
        Err(ChatError::Protocol(ProtocolError::Oversized))
    );
}

#[test]
fn decode_refuses_short_input() {
    assert_eq!(
        decode_frame(&[0u8, 0]),
        Err(ChatError::Protocol(ProtocolError::Truncated))
    );
    // Header declares 5 payload bytes but only 3 follow.
    assert_eq!(
        decode_frame(&[0u8, 0, 5, b'a', b'b', b'c']),
        Err(ChatError::Protocol(ProtocolError::Truncated))
    );
}

#[test]
fn decode_refuses_unknown_code() {
    let bytes = [42u8, 0, 2, b'h', b'i'];
    assert_eq!(
        decode_frame(&bytes),
        Err(ChatError::Protocol(ProtocolError::InvalidCode))
    );
}

#[test]
fn decode_refuses_nicked_payload_without_nul() {
    let bytes = [100u8, 0, 2, b'h', b'i'];
    assert_eq!(
        decode_frame(&bytes),
        Err(ChatError::Protocol(ProtocolError::InvalidPayload))
    );
}

#[test]
fn decode_recovers_nicked_frame() {
    let m = Msg::NickedUserMsg(s("alice"), s("hi"));
    let bytes = encode_frame(&m).unwrap();
    assert_eq!(&bytes[..3], &[100u8, 0, 8]);
    assert_eq!(&bytes[3..], b"alice\0hi");
    assert_eq!(decode_frame(&bytes).unwrap(), m);
}
