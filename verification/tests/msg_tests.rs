//! The message model: codes, canonical payloads, NUL join/split, and the
//! decode of every variant.

use chat_rs::Msg;

fn s(text: &str) -> String {
    text.to_string()
}

#[test]
fn codes_are_wire_stable() {
    assert_eq!(Msg::UserMsg(s("x")).code(), 0);
    assert_eq!(Msg::NickChange(s("x")).code(), 1);
    assert_eq!(Msg::Command(s("x")).code(), 3);
    assert_eq!(Msg::NickedConnect(s("x")).code(), 98);
    assert_eq!(Msg::NickedDisconnect(s("x")).code(), 99);
    assert_eq!(Msg::NickedUserMsg(s("a"), s("x")).code(), 100);
    assert_eq!(Msg::NickedNickChange(s("a"), s("x")).code(), 101);
    assert_eq!(Msg::NickedCommand(s("a"), s("x")).code(), 103);
    assert_eq!(Msg::ConnectionEncrypted.code(), 253);
    assert_eq!(Msg::ConnectionAccepted.code(), 254);
    assert_eq!(Msg::ConnectionRejected(s("x")).code(), 255);
}

#[test]
fn from_parts_round_trips_every_variant() {
    let variants = vec![
        Msg::UserMsg(s("hello")),
        Msg::NickChange(s("alice")),
        Msg::Command(s("quit")),
        Msg::NickedConnect(s("alice")),
        Msg::NickedDisconnect(s("alice")),
        Msg::NickedUserMsg(s("alice"), s("hello")),
        Msg::NickedNickChange(s("alice"), s("bob")),
        Msg::NickedCommand(s("alice"), s("quit")),
        Msg::ConnectionEncrypted,
        Msg::ConnectionAccepted,
        Msg::ConnectionRejected(s("nick taken")),
    ];
    for m in variants {
        let back = Msg::from_parts(m.code(), m.string()).expect("known code must decode");
        assert_eq!(back, m);
    }
}

#[test]
fn nicked_join_split_are_symmetric() {
    let joined = Msg::nicked_join("alice", "hello there");
    assert_eq!(joined, "alice\0hello there");
    let (nick, rest) = Msg::nicked_split(joined).expect("a NUL is present");
    assert_eq!(nick, "alice");
    assert_eq!(rest, "hello there");
}

#[test]
fn nicked_split_takes_the_first_nul() {
    let (nick, rest) = Msg::nicked_split(s("a\0b\0c")).expect("a NUL is present");
    assert_eq!(nick, "a");
    assert_eq!(rest, "b\0c");
}

#[test]
fn nicked_split_of_empty_segments() {
    let (nick, rest) = Msg::nicked_split(s("\0")).expect("a NUL is present");
    assert_eq!(nick, "");
    assert_eq!(rest, "");
}

#[test]
fn nicked_split_without_nul_fails() {
    assert!(Msg::nicked_split(s("no separator here")).is_none());
}

#[test]
fn from_parts_rejects_unknown_codes() {
    for code in [2u8, 4, 42, 97, 104, 200, 252] {
        assert!(Msg::from_parts(code, s("payload")).is_none());
    }
}

#[test]
fn from_parts_rejects_nicked_payload_without_nul() {
    assert!(Msg::from_parts(100, s("no separator")).is_none());
    assert!(Msg::from_parts(101, s("no separator")).is_none());
    assert!(Msg::from_parts(103, s("no separator")).is_none());
}

#[test]
fn from_parts_ignores_string_for_stringless_variants() {
    assert_eq!(
        Msg::from_parts(253, s("anything")).unwrap(),
        Msg::ConnectionEncrypted
    );
    assert_eq!(
        Msg::from_parts(254, s("anything")).unwrap(),
        Msg::ConnectionAccepted
    );
}

#[test]
fn nicked_string_is_nul_joined() {
    let m = Msg::NickedUserMsg(s("alice"), s("hi"));
    assert_eq!(m.string(), "alice\0hi");
}

#[test]
fn header_encode_and_parse_are_inverse() {
    let m = Msg::UserMsg(s("hello"));
    let header = m.encode_header();
    assert_eq!(header, [0u8, 0, 5]);
    let (code, len) = Msg::parse_header(&header);
    assert_eq!(code, 0);
    assert_eq!(len, 5);
}

#[test]
fn header_length_is_big_endian_bytes() {
    // 300 = 0x012C: a payload long enough to exercise the high byte.
    let m = Msg::UserMsg("x".repeat(300));
    let header = m.encode_header();
    assert_eq!(header, [0u8, 0x01, 0x2C]);
    let (_, len) = Msg::parse_header(&header);
    assert_eq!(len, 300);
}

#[test]
fn header_length_counts_utf8_bytes_not_chars() {
    // Three characters, six UTF-8 bytes.
    let m = Msg::UserMsg(s("äöü"));
    let header = m.encode_header();
    assert_eq!(header, [0u8, 0, 6]);
}
