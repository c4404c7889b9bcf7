use nym_rpc::session::{
    DropReason, OutgoingSession, Payload, ProxiedMessage, RouteDecision, SessionReplies,
    SessionRouter,
};
use nym_rpc::upstream::add_upstream_header;

fn data_of(message: &ProxiedMessage) -> Option<Vec<u8>> {
    match &message.message {
        Payload::Data(d) => Some(d.clone()),
        Payload::Close => None,
    }
}

#[test]
fn client_numbers_messages_and_frames_only_the_first() {
    let mut session = OutgoingSession::new(7, "rpc.example.org:443".to_string());
    let first = session.next_data(b"hello".to_vec());
    assert_eq!(first.message_id, 1);
    assert_eq!(first.session_id, 7);
    assert_eq!(
        data_of(&first).unwrap(),
        add_upstream_header("rpc.example.org:443", b"hello")
    );
    let second = session.next_data(b"world".to_vec());
    assert_eq!(second.message_id, 2);
    assert_eq!(data_of(&second).unwrap(), b"world");
    assert!(session.can_send());
    let close = session.close();
    assert_eq!(close.message_id, 3);
    assert!(data_of(&close).is_none());
    assert!(!session.can_send());
}

#[test]
fn first_message_opens_session_on_server() {
    let mut client = OutgoingSession::new(42, "node.example:8545".to_string());
    let mut router = SessionRouter::new();
    let first = client.next_data(b"{\"id\":1}".to_vec());
    match router.route_message(first) {
        RouteDecision::Forward { message, new_upstream } => {
            assert_eq!(new_upstream.as_deref(), Some("node.example:8545"));
            assert_eq!(message.session_id, 42);
            assert_eq!(message.message_id, 1);
            assert_eq!(data_of(&message).unwrap(), b"{\"id\":1}");
        }
        RouteDecision::Drop(_) => panic!("first message dropped"),
    }
    assert_eq!(router.upstream_of(42), Some("node.example:8545".to_string()));
    assert_eq!(router.upstream_of(43), None);
    let second = client.next_data(b"UPSTREAM:x\nkeep".to_vec());
    match router.route_message(second) {
        RouteDecision::Forward { message, new_upstream } => {
            assert!(new_upstream.is_none());
            assert_eq!(data_of(&message).unwrap(), b"UPSTREAM:x\nkeep");
        }
        RouteDecision::Drop(_) => panic!("second message dropped"),
    }
    let close = client.close();
    match router.route_message(close) {
        RouteDecision::Forward { message, new_upstream } => {
            assert!(new_upstream.is_none());
            assert!(data_of(&message).is_none());
            assert_eq!(message.message_id, 3);
        }
        RouteDecision::Drop(_) => panic!("close dropped"),
    }
    assert_eq!(router.session_count(), 1);
}

#[test]
fn close_cannot_open_a_session() {
    let mut router = SessionRouter::new();
    let decision = router.route_message(ProxiedMessage {
        message: Payload::Close,
        session_id: 1,
        message_id: 1,
    });
    assert!(matches!(decision, RouteDecision::Drop(DropReason::FirstMessageIsClose)));
    assert_eq!(router.session_count(), 0);
}

#[test]
fn session_needs_an_upstream_address() {
    let mut router = SessionRouter::new();
    let decision = router.route_message(ProxiedMessage {
        message: Payload::Data(b"no header".to_vec()),
        session_id: 2,
        message_id: 1,
    });
    assert!(matches!(decision, RouteDecision::Drop(DropReason::MissingUpstream)));
    let decision = router.route_message(ProxiedMessage {
        message: Payload::Data(b"UPSTREAM:\npayload".to_vec()),
        session_id: 2,
        message_id: 1,
    });
    assert!(matches!(decision, RouteDecision::Drop(DropReason::MissingUpstream)));
    assert_eq!(router.session_count(), 0);
}

#[test]
fn replies_are_numbered_from_zero() {
    let mut replies = SessionReplies::new(9);
    let own = ProxiedMessage { message: Payload::Close, session_id: 9, message_id: 4 };
    let other = ProxiedMessage { message: Payload::Close, session_id: 10, message_id: 4 };
    assert!(replies.owns(&own));
    assert!(!replies.owns(&other));
    let r0 = replies.reply(b"a".to_vec());
    let r1 = replies.reply(b"b".to_vec());
    assert_eq!((r0.session_id, r0.message_id), (9, 0));
    assert_eq!((r1.session_id, r1.message_id), (9, 1));
    assert_eq!(data_of(&r1).unwrap(), b"b");
}
