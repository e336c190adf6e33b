use cyan_backend::chat::{incoming, outbound_message, outgoing, stream_continues, DirectChatMessage, StreamStep};
use cyan_backend::discovery::{parse_discovery, Discovery};
use cyan_backend::model::{DirectChatOutbound, NetworkEvent, SwiftEvent};
use cyan_backend::tables::Statement;

fn s(x: &str) -> String {
    x.to_string()
}

#[test]
fn an_incoming_message_is_stored_twice_and_shown() {
    let msg = DirectChatMessage { message: s("hi"), parent_id: Some(s("p0")) };
    let r = incoming(&s("peer"), &s("w"), msg, "t", 4);
    assert!(matches!(&r.statements[0], Statement::InsertChat(c, _) if c.author == "peer" && c.id == r.id));
    assert!(matches!(&r.statements[1], Statement::InsertMessage(m, _) if !m.is_outgoing));
    assert_eq!(r.events.len(), 2);
    assert!(matches!(&r.events[1], SwiftEvent::DirectMessageReceived { is_incoming: true, .. }));
}

#[test]
fn an_outgoing_message_is_stored_once() {
    let msg = DirectChatOutbound { workspace_id: s("w"), message: s("hi"), parent_id: None };
    assert_eq!(outbound_message(&msg), DirectChatMessage { message: s("hi"), parent_id: None });
    let r = outgoing(&s("me"), msg, "t", 4);
    assert_eq!(r.statements.len(), 1);
    assert!(matches!(
        &r.events[0],
        SwiftEvent::Network(NetworkEvent::ChatSent { author, .. }) if author == "me"
    ));
}

#[test]
fn a_stream_ends_where_it_breaks() {
    assert!(stream_continues(StreamStep::MessageIn));
    assert!(stream_continues(StreamStep::UnreadableIn));
    assert!(!stream_continues(StreamStep::ReadFailed));
    assert!(!stream_continues(StreamStep::WriteFailed));
    assert!(!stream_continues(StreamStep::ChannelClosed));
}

#[test]
fn discovery_reads_group_lists() {
    assert_eq!(parse_discovery("nonsense", None), Discovery::Ignored);
    let deleted = || Some(NetworkEvent::GroupDeleted { id: s("g") });
    assert_eq!(
        parse_discovery(r#"{"msg_type":"group_deleted","event":{}}"#, deleted()),
        Discovery::GroupDeleted { id: s("g") }
    );
    assert_eq!(parse_discovery(r#"{"msg_type":"group_deleted"}"#, deleted()), Discovery::Ignored);
    assert_eq!(
        parse_discovery(r#"{"msg_type":"groups_exchange","local_groups":["a",1,"b"]}"#, None),
        Discovery::Groups { ids: vec![s("a"), s("b")] }
    );
    assert_eq!(parse_discovery(r#"{"msg_type":"groups_exchange"}"#, None), Discovery::Ignored);
}
