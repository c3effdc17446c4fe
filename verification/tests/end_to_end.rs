use chat_infra::handlers::message_insert_event::{create_private_chats, handler, unread_count};
use chat_infra::models::chat::{ChatType, MessagePayload, MessageStatus, MessageType};
use chat_infra::models::common::{attribute, AttributeValue, WebSocketEvent};
use chat_infra::models::user::User;
use chat_infra::registry::{lookup, register};
use chat_infra::router::{
    address, begin, save_private_message, settle, Outcome, ParsedBody, Progress, Start,
};
use chat_infra::store::Table;
use chat_infra::stream::{fan_out_records, StreamRecord};

fn user(sub: &str, name: &str) -> User {
    User {
        sub: sub.to_string(),
        name: name.to_string(),
        email: format!("{}@example.com", sub),
    }
}

fn hi_to_b1() -> ParsedBody {
    ParsedBody::Valid(WebSocketEvent {
        action: "send-message".to_string(),
        data: MessagePayload::new(
            "t1".to_string(),
            Some("hi".to_string()),
            None,
            Some(MessageType::Text),
            ChatType::Private,
            Some("b1".to_string()),
            None,
        ),
    })
}

fn text_of<'a>(item: &'a Vec<(String, AttributeValue)>, name: &str) -> &'a str {
    match attribute(item, name) {
        Some(AttributeValue::S(text)) => text,
        other => panic!("{} is {:?}", name, other),
    }
}

fn send(table: &mut Table, body: ParsedBody) -> (Vec<(String, String)>, Option<String>) {
    let mut pushes: Vec<(String, String)> = Vec::new();
    let (message, notification, pending) =
        match begin(Some("chan-a".to_string()), Some(user("a1", "Ada")), body) {
            Start::Dispatched { message, notification, pending } => (message, notification, pending),
            Start::Rejected(push) => {
                pushes.push((push.connection_id, push.frame.data.status.to_string()));
                return (pushes, None);
            }
            Start::Ignored => return (pushes, None),
        };
    let message_id = pending.message_id.clone();
    let timestamp = pending.timestamp.clone();
    let recipient = lookup(table, &notification.recipient);
    if let Some(push) = address(notification, recipient) {
        assert_eq!(push.frame.data.message_id, message_id);
        assert_eq!(push.frame.data.timestamp, timestamp);
        pushes.push((push.connection_id, push.frame.action));
    }
    let pending = match settle(pending, Outcome::Notified) {
        Progress::Waiting(pending) => pending,
        Progress::Acknowledge(_) => panic!("acknowledged before the message was stored"),
    };
    let saved = table.put(message.to_item()).is_ok();
    let ack = match settle(pending, Outcome::Saved(saved)) {
        Progress::Acknowledge(ack) => ack,
        Progress::Waiting(_) => panic!("not acknowledged after both outcomes"),
    };
    assert_eq!(ack.frame.data.status, MessageStatus::Okay);
    assert_eq!(ack.frame.data.temp_id.as_deref(), Some("t1"));
    assert_eq!(ack.frame.data.timestamp.as_deref(), Some(timestamp.as_str()));
    assert_eq!(ack.frame.data.message_id.as_deref(), Some(message_id.as_str()));
    pushes.push((ack.connection_id, ack.frame.action));
    (pushes, Some(message_id))
}

fn fan_out(table: &mut Table, record: &chat_infra::models::chat::Message) {
    let (first, second) = handler(&Some(record.clone())).unwrap();
    let first_unread = unread_count(table.get(&format!("user#{}", first), &format!("chat@user#{}", second)));
    let second_unread = unread_count(table.get(&format!("user#{}", second), &format!("chat@user#{}", first)));
    let (first_chat, second_chat) = create_private_chats(
        record,
        &Ok(user(&first, "Bob")),
        &Ok(user(&second, "Ada")),
        first_unread,
        second_unread,
    )
    .unwrap();
    table
        .batch_write(vec![first_chat.to_item(), second_chat.to_item()])
        .unwrap();
}

#[test]
fn send_to_an_online_recipient() {
    let mut table = Table::new();
    register(&mut table, "a1", "chan-a");
    register(&mut table, "b1", "chan-b");
    let (pushes, message_id) = send(&mut table, hi_to_b1());
    assert_eq!(
        pushes,
        vec![
            ("chan-b".to_string(), "receive-message".to_string()),
            ("chan-a".to_string(), "message-status".to_string()),
        ]
    );
    let sort_key = format!("message#{}", message_id.unwrap());
    let stored = table.get("users#b1|a1", &sort_key).unwrap();
    assert_eq!(text_of(stored, "content"), "hi");
    assert_eq!(text_of(stored, "messageType"), "text");
    assert_eq!(text_of(stored, "entityType"), "message");
}

#[test]
fn send_to_an_offline_recipient_still_stores_and_acknowledges() {
    let mut table = Table::new();
    register(&mut table, "a1", "chan-a");
    let (pushes, message_id) = send(&mut table, hi_to_b1());
    assert_eq!(pushes, vec![("chan-a".to_string(), "message-status".to_string())]);
    let sort_key = format!("message#{}", message_id.unwrap());
    assert!(table.get("users#b1|a1", &sort_key).is_some());
}

#[test]
fn send_to_oneself_stores_nothing() {
    let mut table = Table::new();
    register(&mut table, "a1", "chan-a");
    let body = ParsedBody::Valid(WebSocketEvent {
        action: "send-message".to_string(),
        data: MessagePayload::new(
            "t1".to_string(),
            Some("hi".to_string()),
            None,
            None,
            ChatType::Private,
            Some("a1".to_string()),
            None,
        ),
    });
    let (pushes, message_id) = send(&mut table, body);
    assert_eq!(pushes, vec![("chan-a".to_string(), "error".to_string())]);
    assert_eq!(message_id, None);
}

#[test]
fn fan_out_creates_then_updates_both_chat_entries() {
    let mut table = Table::new();
    let payload = MessagePayload::new(
        "t1".to_string(),
        Some("hi".to_string()),
        None,
        None,
        ChatType::Private,
        Some("b1".to_string()),
        None,
    );
    let first = save_private_message(&payload, "01A", "2020-01-01T00:00:00.000Z", &user("a1", "Ada")).unwrap();
    table.put(first.to_item()).unwrap();
    let feed = vec![StreamRecord {
        event_name: "INSERT".to_string(),
        sequence_number: Some("1".to_string()),
        new_image: first.to_item(),
        old_image: Vec::new(),
    }];
    assert_eq!(fan_out_records(&feed), vec![0]);
    fan_out(&mut table, &first);

    let of_a = table.get("user#a1", "chat@user#b1").unwrap();
    assert_eq!(attribute(of_a, "unreadMessages"), Some(&AttributeValue::N("0".to_string())));
    assert_eq!(text_of(of_a, "title"), "Bob");
    assert_eq!(text_of(of_a, "gsi2PK"), "user#a1");
    assert_eq!(text_of(of_a, "gsi2SK"), "chat-timestamp#2020-01-01T00:00:00.000Z");
    let of_b = table.get("user#b1", "chat@user#a1").unwrap();
    assert_eq!(attribute(of_b, "unreadMessages"), Some(&AttributeValue::N("1".to_string())));
    assert_eq!(text_of(of_b, "title"), "Ada");
    assert_eq!(text_of(of_b, "chatType"), "private");

    let second = save_private_message(&payload, "01B", "2020-01-02T00:00:00.000Z", &user("a1", "Ada")).unwrap();
    fan_out(&mut table, &second);
    let of_a = table.get("user#a1", "chat@user#b1").unwrap();
    assert_eq!(unread_count(Some(of_a)), Some(0));
    let of_b = table.get("user#b1", "chat@user#a1").unwrap();
    assert_eq!(unread_count(Some(of_b)), Some(2));

    chat_infra::endpoints::mark_as_read(&mut table, "user#b1", "chat@user#a1").unwrap();
    let of_b = table.get("user#b1", "chat@user#a1").unwrap();
    assert_eq!(unread_count(Some(of_b)), Some(0));
    assert_eq!(text_of(of_b, "title"), "Ada");
}

#[test]
fn chats_and_messages_are_listed_latest_first() {
    let mut table = Table::new();
    let ada = user("a1", "Ada");
    let mut stamps: Vec<String> = Vec::new();
    for (id, stamp, peer) in [("01A", "2020-01-01T00:00:00.000Z", "b1"), ("01C", "2020-01-03T00:00:00.000Z", "c1"), ("01B", "2020-01-02T00:00:00.000Z", "b1")] {
        let payload = MessagePayload::new(
            "t".to_string(),
            Some(format!("to {}", peer)),
            None,
            None,
            ChatType::Private,
            Some(peer.to_string()),
            None,
        );
        let message = save_private_message(&payload, id, stamp, &ada).unwrap();
        table.put(message.to_item()).unwrap();
        let (first, second) = handler(&Some(message.clone())).unwrap();
        let first_unread = unread_count(table.get(&format!("user#{}", first), &format!("chat@user#{}", second)));
        let second_unread = unread_count(table.get(&format!("user#{}", second), &format!("chat@user#{}", first)));
        let (first_chat, second_chat) = create_private_chats(
            &message,
            &Ok(user(&first, &first)),
            &Ok(user(&second, &second)),
            first_unread,
            second_unread,
        )
        .unwrap();
        table.batch_write(vec![first_chat.to_item(), second_chat.to_item()]).unwrap();
        stamps.push(stamp.to_string());
    }

    let chats = table.query(&chat_infra::endpoints::chats_query("a1"));
    let titles: Vec<&str> = chats.iter().map(|item| text_of(item, "title")).collect();
    assert_eq!(titles, vec!["c1", "b1"]);
    assert_eq!(text_of(chats[1], "gsi2SK"), "chat-timestamp#2020-01-02T00:00:00.000Z");

    let messages = table.query(&chat_infra::endpoints::messages_query("a1", "chat@user#b1"));
    let ids: Vec<&str> = messages.iter().map(|item| text_of(item, "sortKey")).collect();
    assert_eq!(ids, vec!["message#01B", "message#01A"]);
    let from_the_other_side = table.query(&chat_infra::endpoints::messages_query("b1", "chat@user#a1"));
    assert_eq!(from_the_other_side.len(), 2);

    let of_b = table.query(&chat_infra::endpoints::chats_query("b1"));
    assert_eq!(of_b.len(), 1);
    assert_eq!(unread_count(Some(of_b[0])), Some(2));
}
