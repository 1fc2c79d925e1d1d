//! Registry policy, routing, and the connection lifecycle scenario.

use chat_rs::AuthDecision;
use chat_rs::Msg;
use chat_rs::Registry;
use chat_rs::RejectReason;
use chat_rs::Router;
use chat_rs::Server;

fn s(text: &str) -> String {
    text.to_string()
}

#[test]
fn registry_rejects_when_full_and_never_inserts() {
    let mut reg = Registry::new(2);
    reg.insert(s("alice"), 0).unwrap();
    reg.insert(s("bob"), 1).unwrap();
    assert_eq!(
        reg.insert(s("carol"), 2),
        Err(RejectReason::TooManyUsers)
    );
    assert_eq!(reg.len(), 2);
    assert!(!reg.contains(&s("carol")));
}

#[test]
fn registry_rejects_taken_nick_and_never_inserts() {
    let mut reg = Registry::new(10);
    reg.insert(s("alice"), 0).unwrap();
    assert_eq!(reg.insert(s("alice"), 1), Err(RejectReason::NickTaken));
    assert_eq!(reg.len(), 1);
    assert_eq!(reg.ids(), vec![0]);
}

#[test]
fn registry_remove_keeps_the_others_in_order() {
    let mut reg = Registry::new(10);
    reg.insert(s("alice"), 0).unwrap();
    reg.insert(s("bob"), 1).unwrap();
    reg.insert(s("carol"), 2).unwrap();
    reg.remove(&s("bob"));
    assert_eq!(reg.len(), 2);
    assert!(!reg.contains(&s("bob")));
    assert_eq!(reg.ids(), vec![0, 2]);
    // Removing an absent nickname changes nothing.
    reg.remove(&s("bob"));
    assert_eq!(reg.ids(), vec![0, 2]);
}

#[test]
fn reject_reason_texts() {
    assert_eq!(RejectReason::TooManyUsers.message(), "too many users");
    assert_eq!(RejectReason::NickTaken.message(), "nick taken");
}

#[test]
fn router_is_first_in_first_out() {
    let mut router = Router::new();
    assert!(router.dequeue().is_none());
    router.enqueue(Msg::UserMsg(s("first")), None);
    router.enqueue(Msg::UserMsg(s("second")), None);
    let (m, recipient) = router.dequeue().unwrap();
    assert_eq!(m, Msg::UserMsg(s("first")));
    assert!(recipient.is_none());
    let (m, _) = router.dequeue().unwrap();
    assert_eq!(m, Msg::UserMsg(s("second")));
    assert!(router.dequeue().is_none());
}

#[test]
fn authenticate_wants_a_nick_change_first() {
    let server = Server::new(10, false);
    assert!(matches!(
        server.authenticate(&Msg::UserMsg(s("hi"))),
        AuthDecision::Abort
    ));
    assert!(matches!(
        server.authenticate(&Msg::ConnectionAccepted),
        AuthDecision::Abort
    ));
}

#[test]
fn authenticate_rejects_at_capacity() {
    let mut server = Server::new(1, false);
    server.register(s("alice"), 0).unwrap();
    match server.authenticate(&Msg::NickChange(s("bob"))) {
        AuthDecision::Reject(m) => {
            assert_eq!(m, Msg::ConnectionRejected(s("too many users")))
        }
        _ => panic!("a full server must reject"),
    }
}

#[test]
fn authenticate_rejects_taken_nick() {
    let mut server = Server::new(10, false);
    server.register(s("alice"), 0).unwrap();
    match server.authenticate(&Msg::NickChange(s("alice"))) {
        AuthDecision::Reject(m) => {
            assert_eq!(m, Msg::ConnectionRejected(s("nick taken")))
        }
        _ => panic!("a taken nickname must be rejected"),
    }
}

#[test]
fn authenticate_reply_follows_the_encryption_policy() {
    let plain = Server::new(10, false);
    match plain.authenticate(&Msg::NickChange(s("alice"))) {
        AuthDecision::Accept(reply, nick) => {
            assert_eq!(reply, Msg::ConnectionAccepted);
            assert_eq!(nick, "alice");
        }
        _ => panic!("a fresh nickname must be accepted"),
    }
    let secured = Server::new(10, true);
    assert!(secured.encryption_required());
    assert!(!plain.encryption_required());
    match secured.authenticate(&Msg::NickChange(s("alice"))) {
        AuthDecision::Accept(reply, _) => assert_eq!(reply, Msg::ConnectionEncrypted),
        _ => panic!("a fresh nickname must be accepted"),
    }
}

#[test]
fn register_queues_the_connect_broadcast() {
    let mut server = Server::new(10, false);
    server.register(s("alice"), 7).unwrap();
    let (m, targets) = server.route_one().unwrap();
    assert_eq!(m, Msg::NickedConnect(s("alice")));
    assert_eq!(targets, vec![7]);
}

#[test]
fn inbound_rewraps_and_ignores() {
    let mut server = Server::new(10, false);
    server.register(s("alice"), 0).unwrap();
    server.route_one().unwrap();
    server.inbound(&s("alice"), Msg::UserMsg(s("hi")));
    server.inbound(&s("alice"), Msg::NickChange(s("alicia")));
    server.inbound(&s("alice"), Msg::Command(s("quit")));
    server.inbound(&s("alice"), Msg::ConnectionAccepted);
    let (m, _) = server.route_one().unwrap();
    assert_eq!(m, Msg::NickedUserMsg(s("alice"), s("hi")));
    let (m, _) = server.route_one().unwrap();
    assert_eq!(m, Msg::NickedNickChange(s("alice"), s("alicia")));
    let (m, _) = server.route_one().unwrap();
    assert_eq!(m, Msg::NickedCommand(s("alice"), s("quit")));
    assert!(server.route_one().is_none(), "other variants are ignored");
}

#[test]
fn three_sessions_broadcast_and_disconnect() {
    // Sessions A, B, C connect and authenticate.
    let mut server = Server::new(10, false);
    for (nick, id) in [("A", 0u64), ("B", 1), ("C", 2)] {
        match server.authenticate(&Msg::NickChange(s(nick))) {
            AuthDecision::Accept(reply, negotiated) => {
                assert_eq!(reply, Msg::ConnectionAccepted);
                server.register(negotiated, id).unwrap();
            }
            _ => panic!("fresh nicknames must be accepted"),
        }
        server.route_one().unwrap();
    }

    // A sends a message; all of A, B and C receive it, A included.
    server.inbound(&s("A"), Msg::UserMsg(s("hi")));
    let (m, targets) = server.route_one().unwrap();
    assert_eq!(m, Msg::NickedUserMsg(s("A"), s("hi")));
    assert_eq!(targets, vec![0, 1, 2]);

    // B disconnects; A and C receive the disconnect broadcast.
    server.disconnect(&s("B"));
    let (m, targets) = server.route_one().unwrap();
    assert_eq!(m, Msg::NickedDisconnect(s("B")));
    assert_eq!(targets, vec![0, 2]);

    // Later broadcasts reach only A and C.
    server.inbound(&s("C"), Msg::UserMsg(s("bye B")));
    let (m, targets) = server.route_one().unwrap();
    assert_eq!(m, Msg::NickedUserMsg(s("C"), s("bye B")));
    assert_eq!(targets, vec![0, 2]);
}

#[test]
fn directed_entries_are_an_unimplemented_extension() {
    let mut server = Server::new(10, false);
    server.register(s("alice"), 0).unwrap();
    server.route_one().unwrap();
    // A directed recipient is queued but delivered to nobody.
    let mut router = Router::new();
    router.enqueue(Msg::UserMsg(s("psst")), Some(s("alice")));
    let (_, recipient) = router.dequeue().unwrap();
    assert_eq!(recipient, Some(s("alice")));
}
