use chat_infra::errors::ErrorKind;
use chat_infra::models::chat::{ChatType, Message, MessagePayload, MessageStatus, MessageType};
use chat_infra::models::common::{DatabaseItem, WebSocketEvent};
use chat_infra::models::user::User;
use chat_infra::router::{
    acknowledge, address, begin, check_recipient, generate_error_message,
    handle_send_private_message, refuse, save_private_message, screen, settle, start, Admission,
    InFlight, Notification, Outcome,
    ParsedBody, Progress, Push, ReceiveData, Rejection, Start, StatusData,
};

fn ada() -> User {
    User {
        sub: "a1".to_string(),
        name: "Ada".to_string(),
        email: "ada@example.com".to_string(),
    }
}

fn payload_to(user_sub: Option<&str>) -> MessagePayload {
    MessagePayload {
        temp_id: "t1".to_string(),
        content: "hi".to_string(),
        image_url: None,
        message_type: MessageType::Text,
        chat_type: ChatType::Private,
        user_sub: user_sub.map(|sub| sub.to_string()),
        group_id: None,
    }
}

fn body(payload: MessagePayload) -> ParsedBody {
    ParsedBody::Valid(WebSocketEvent {
        action: "send-message".to_string(),
        data: payload,
    })
}

fn rejected(rejection: Rejection) -> Admission {
    Admission::Rejected {
        connection_id: "c-a".to_string(),
        rejection,
    }
}

fn error_frame(reason: &str) -> WebSocketEvent<StatusData> {
    WebSocketEvent {
        action: "message-status".to_string(),
        data: StatusData {
            status: MessageStatus::Error,
            timestamp: None,
            temp_id: None,
            message_id: None,
            message: Some(reason.to_string()),
        },
    }
}

#[test]
fn request_without_a_channel_is_ignored() {
    assert_eq!(
        screen(None, Some(ada()), body(payload_to(Some("b1")))),
        Admission::Ignored
    );
    assert_eq!(screen(None, None, ParsedBody::Unparsable), Admission::Ignored);
}

#[test]
fn request_without_a_principal_is_rejected_first() {
    assert_eq!(
        screen(Some("c-a".to_string()), None, ParsedBody::Unparsable),
        rejected(Rejection::InvalidToken)
    );
    assert_eq!(
        screen(Some("c-a".to_string()), None, body(payload_to(Some("b1")))),
        rejected(Rejection::InvalidToken)
    );
}

#[test]
fn body_that_does_not_parse_is_rejected() {
    assert_eq!(
        screen(Some("c-a".to_string()), Some(ada()), ParsedBody::Unparsable),
        rejected(Rejection::UnparsableBody)
    );
}

#[test]
fn body_of_the_wrong_shape_is_rejected() {
    assert_eq!(
        screen(Some("c-a".to_string()), Some(ada()), ParsedBody::Invalid),
        rejected(Rejection::InvalidBody)
    );
}

#[test]
fn group_chat_is_not_served() {
    let mut payload = payload_to(Some("b1"));
    payload.chat_type = ChatType::Group;
    payload.group_id = Some("g1".to_string());
    assert_eq!(
        screen(Some("c-a".to_string()), Some(ada()), body(payload)),
        rejected(Rejection::NotImplemented)
    );
}

#[test]
fn missing_or_empty_recipient_is_rejected() {
    assert_eq!(
        screen(Some("c-a".to_string()), Some(ada()), body(payload_to(None))),
        rejected(Rejection::MissingRecipient)
    );
    assert_eq!(
        screen(Some("c-a".to_string()), Some(ada()), body(payload_to(Some("")))),
        rejected(Rejection::MissingRecipient)
    );
}

#[test]
fn self_send_is_rejected() {
    assert_eq!(
        screen(Some("c-a".to_string()), Some(ada()), body(payload_to(Some("a1")))),
        rejected(Rejection::CannotMessageSelf)
    );
}

#[test]
fn self_send_yields_an_error_status() {
    let push = refuse("c-a".to_string(), Rejection::CannotMessageSelf);
    assert_eq!(push.connection_id, "c-a");
    assert_eq!(push.frame, error_frame("You can't send a message to yourself"));
    assert_eq!(push.frame.data.status, MessageStatus::Error);
}

#[test]
fn valid_request_is_accepted_as_it_stands() {
    assert_eq!(
        screen(Some("c-a".to_string()), Some(ada()), body(payload_to(Some("b1")))),
        Admission::Accepted {
            connection_id: "c-a".to_string(),
            sender: ada(),
            payload: payload_to(Some("b1")),
        }
    );
}

#[test]
fn image_message_is_accepted() {
    let mut payload = payload_to(Some("b1"));
    payload.message_type = MessageType::Image;
    payload.content = String::new();
    let admission = screen(Some("c-a".to_string()), Some(ada()), body(payload));
    assert!(matches!(admission, Admission::Accepted { .. }));
}

#[test]
fn every_rejection_has_its_reason_and_kind() {
    assert_eq!(Rejection::InvalidToken.reason(), "Invalid token received");
    assert_eq!(Rejection::UnparsableBody.reason(), "Couldn't parse request body");
    assert_eq!(Rejection::InvalidBody.reason(), "Request body failed validation");
    assert_eq!(Rejection::NotImplemented.reason(), "Group chats are not supported");
    assert_eq!(Rejection::MissingRecipient.reason(), "Missing message recipient");
    assert_eq!(
        Rejection::CannotMessageSelf.reason(),
        "You can't send a message to yourself"
    );
    assert_eq!(Rejection::InvalidToken.kind(), ErrorKind::Unauthenticated);
    assert_eq!(Rejection::CannotMessageSelf.kind(), ErrorKind::ValidationFailed);
    assert_eq!(Rejection::InvalidBody.kind(), ErrorKind::ValidationFailed);
}

#[test]
fn error_message_carries_only_status_and_reason() {
    assert_eq!(generate_error_message("boom"), error_frame("boom"));
}

#[test]
fn stored_message_is_keyed_by_both_participants_and_its_id() {
    let message = save_private_message(&payload_to(Some("b1")), "m1", "2018-01-26T18:30:09.453Z", &ada()).unwrap();
    assert_eq!(
        message,
        Message {
            db_item: DatabaseItem {
                partition_key: "users#b1|a1".to_string(),
                sort_key: "message#m1".to_string(),
                entity_type: "message".to_string(),
                gsi1_pk: None,
                gsi1_sk: None,
                gsi2_pk: None,
                gsi2_sk: None,
            },
            content: "hi".to_string(),
            message_type: MessageType::Text,
            timestamp: "2018-01-26T18:30:09.453Z".to_string(),
            user: ada(),
        }
    );
}

#[test]
fn acknowledgement_names_the_stored_message() {
    let payload = payload_to(Some("b1"));
    let message = save_private_message(&payload, "m1", "T1", &ada()).unwrap();
    let ack = acknowledge("c-a".to_string(), true, &payload.temp_id, "m1", "T1");
    assert_eq!(ack.connection_id, "c-a");
    assert_eq!(ack.frame.action, "message-status");
    assert_eq!(ack.frame.data.status, MessageStatus::Okay);
    assert_eq!(ack.frame.data.timestamp, Some(message.timestamp.clone()));
    assert_eq!(
        format!("message#{}", ack.frame.data.message_id.clone().unwrap()),
        message.db_item.sort_key
    );
    assert_eq!(ack.frame.data.temp_id, Some("t1".to_string()));
    assert_eq!(ack.frame.data.message, None);
}

#[test]
fn failure_to_store_is_acknowledged_as_an_error() {
    let ack = acknowledge("c-a".to_string(), false, "t1", "m1", "T1");
    assert_eq!(
        ack,
        Push {
            connection_id: "c-a".to_string(),
            frame: error_frame("Couldn't save the message"),
        }
    );
}

#[test]
fn online_recipient_is_notified() {
    let push = handle_send_private_message(
        &payload_to(Some("b1")),
        "m1",
        "T1",
        &ada(),
        Some("c-b".to_string()),
    );
    assert_eq!(
        push,
        Some(Push {
            connection_id: "c-b".to_string(),
            frame: WebSocketEvent {
                action: "receive-message".to_string(),
                data: ReceiveData {
                    timestamp: "T1".to_string(),
                    message_type: MessageType::Text,
                    chat_type: ChatType::Private,
                    content: "hi".to_string(),
                    message_id: "m1".to_string(),
                    sender: ada(),
                },
            },
        })
    );
}

#[test]
fn offline_recipient_is_skipped_and_the_sender_still_acknowledged() {
    let payload = payload_to(Some("b1"));
    assert_eq!(
        handle_send_private_message(&payload, "m1", "T1", &ada(), None),
        None
    );
    let message = save_private_message(&payload, "m1", "T1", &ada()).unwrap();
    assert_eq!(message.db_item.partition_key, "users#b1|a1");
    let ack = acknowledge("c-a".to_string(), true, "t1", "m1", "T1");
    assert_eq!(ack.frame.data.status, MessageStatus::Okay);
}

#[test]
fn payload_without_recipient_notifies_nobody() {
    assert_eq!(
        handle_send_private_message(&payload_to(None), "m1", "T1", &ada(), Some("c-b".to_string())),
        None
    );
}

fn accepted() -> Admission {
    Admission::Accepted {
        connection_id: "c-a".to_string(),
        sender: ada(),
        payload: payload_to(Some("b1")),
    }
}

fn pending(saved: Option<bool>, notified: bool) -> InFlight {
    InFlight {
        connection_id: "c-a".to_string(),
        temp_id: "t1".to_string(),
        message_id: "m1".to_string(),
        timestamp: "T1".to_string(),
        saved,
        notified,
    }
}

#[test]
fn start_of_an_ignored_or_rejected_request() {
    assert_eq!(start(Admission::Ignored, "m1", "T1"), Start::Ignored);
    assert_eq!(
        start(rejected(Rejection::InvalidBody), "m1", "T1"),
        Start::Rejected(Push {
            connection_id: "c-a".to_string(),
            frame: error_frame("Request body failed validation"),
        })
    );
}

#[test]
fn start_of_an_accepted_request_dispatches_under_one_identity() {
    let started = start(accepted(), "m1", "T1");
    assert_eq!(
        started,
        Start::Dispatched {
            message: save_private_message(&payload_to(Some("b1")), "m1", "T1", &ada()).unwrap(),
            notification: Notification {
                recipient: "b1".to_string(),
                frame: handle_send_private_message(
                    &payload_to(Some("b1")),
                    "m1",
                    "T1",
                    &ada(),
                    Some("any".to_string())
                )
                .unwrap()
                .frame,
            },
            pending: pending(None, false),
        }
    );
}

#[test]
fn settle_waits_for_both_outcomes_in_either_order() {
    assert_eq!(
        settle(pending(None, false), Outcome::Saved(true)),
        Progress::Waiting(pending(Some(true), false))
    );
    assert_eq!(
        settle(pending(None, false), Outcome::Notified),
        Progress::Waiting(pending(None, true))
    );
    let ack = acknowledge("c-a".to_string(), true, "t1", "m1", "T1");
    assert_eq!(
        settle(pending(Some(true), false), Outcome::Notified),
        Progress::Acknowledge(acknowledge("c-a".to_string(), true, "t1", "m1", "T1"))
    );
    assert_eq!(settle(pending(None, true), Outcome::Saved(true)), Progress::Acknowledge(ack));
}

#[test]
fn settle_reports_a_failure_to_store() {
    assert_eq!(
        settle(pending(None, true), Outcome::Saved(false)),
        Progress::Acknowledge(Push {
            connection_id: "c-a".to_string(),
            frame: error_frame("Couldn't save the message"),
        })
    );
    assert_eq!(
        settle(pending(Some(false), false), Outcome::Notified),
        Progress::Acknowledge(acknowledge("c-a".to_string(), false, "t1", "m1", "T1"))
    );
}

#[test]
fn settle_keeps_the_first_word_on_storing() {
    assert_eq!(
        settle(pending(Some(false), false), Outcome::Saved(true)),
        Progress::Waiting(pending(Some(false), false))
    );
    assert_eq!(
        settle(pending(None, true), Outcome::Notified),
        Progress::Waiting(pending(None, true))
    );
}

#[test]
fn address_needs_a_channel() {
    let notification = || Notification {
        recipient: "b1".to_string(),
        frame: handle_send_private_message(&payload_to(Some("b1")), "m1", "T1", &ada(), Some("x".to_string()))
            .unwrap()
            .frame,
    };
    assert_eq!(address(notification(), None), None);
    let push = address(notification(), Some("c-b".to_string())).unwrap();
    assert_eq!(push.connection_id, "c-b");
    assert_eq!(push.frame, notification().frame);
}

fn begin_accepted() -> (Message, Notification, InFlight) {
    match begin(Some("c-a".to_string()), Some(ada()), body(payload_to(Some("b1")))) {
        Start::Dispatched { message, notification, pending } => (message, notification, pending),
        other => panic!("not dispatched: {:?}", other),
    }
}

#[test]
fn begin_draws_a_fresh_identity_and_dispatches_under_it() {
    let (message, notification, first) = begin_accepted();
    let (_, _, second) = begin_accepted();
    assert_eq!(first.message_id.chars().count(), 26);
    assert_ne!(first.message_id, second.message_id);
    assert_eq!(
        message,
        save_private_message(&payload_to(Some("b1")), &first.message_id, &first.timestamp, &ada()).unwrap()
    );
    assert_eq!(message.db_item.sort_key, format!("message#{}", first.message_id));
    assert_eq!(message.timestamp, first.timestamp);
    assert_eq!(notification.frame.data.message_id, first.message_id);
    assert_eq!(notification.frame.data.timestamp, first.timestamp);
    assert_eq!(first.temp_id, "t1");
    assert_eq!(first.saved, None);
    assert!(!first.notified);
}

#[test]
fn begin_stamps_utc_with_milliseconds() {
    let (_, _, pending) = begin_accepted();
    let stamp: Vec<char> = pending.timestamp.chars().collect();
    assert_eq!(stamp.len(), 24);
    for (at, c) in stamp.iter().enumerate() {
        match at {
            4 | 7 => assert_eq!(*c, '-'),
            10 => assert_eq!(*c, 'T'),
            13 | 16 => assert_eq!(*c, ':'),
            19 => assert_eq!(*c, '.'),
            23 => assert_eq!(*c, 'Z'),
            _ => assert!(c.is_ascii_digit()),
        }
    }
    assert!(pending.timestamp.as_str() > "2020-01-01T00:00:00.000Z");
}

fn group_payload() -> MessagePayload {
    let mut payload = payload_to(Some("b1"));
    payload.chat_type = ChatType::Group;
    payload
}

#[test]
fn check_recipient_gives_the_peer_or_the_rule() {
    assert_eq!(check_recipient(&ada(), &payload_to(Some("b1"))), Ok("b1".to_string()));
    assert_eq!(check_recipient(&ada(), &payload_to(None)), Err(Rejection::MissingRecipient));
    assert_eq!(check_recipient(&ada(), &payload_to(Some(""))), Err(Rejection::MissingRecipient));
    assert_eq!(check_recipient(&ada(), &payload_to(Some("a1"))), Err(Rejection::CannotMessageSelf));
    assert_eq!(check_recipient(&ada(), &group_payload()), Err(Rejection::NotImplemented));
}

#[test]
fn nothing_is_stored_without_a_recipient() {
    assert_eq!(
        save_private_message(&payload_to(None), "m1", "T1", &ada()),
        Err(Rejection::MissingRecipient)
    );
    assert_eq!(
        save_private_message(&payload_to(Some("")), "m1", "T1", &ada()),
        Err(Rejection::MissingRecipient)
    );
}

#[test]
fn nothing_is_stored_for_a_message_to_oneself_or_to_a_group() {
    assert_eq!(
        save_private_message(&payload_to(Some("a1")), "m1", "T1", &ada()),
        Err(Rejection::CannotMessageSelf)
    );
    assert_eq!(
        save_private_message(&group_payload(), "m1", "T1", &ada()),
        Err(Rejection::NotImplemented)
    );
}

#[test]
fn nobody_is_notified_of_what_may_not_be_sent() {
    for payload in [payload_to(None), payload_to(Some("")), payload_to(Some("a1")), group_payload()] {
        assert_eq!(
            handle_send_private_message(&payload, "m1", "T1", &ada(), Some("c-b".to_string())),
            None
        );
    }
}

#[test]
fn start_rejects_what_is_called_accepted_but_may_not_be_sent() {
    let cases = [
        (payload_to(None), Rejection::MissingRecipient),
        (payload_to(Some("")), Rejection::MissingRecipient),
        (payload_to(Some("a1")), Rejection::CannotMessageSelf),
        (group_payload(), Rejection::NotImplemented),
    ];
    for (payload, rejection) in cases {
        let admission = Admission::Accepted {
            connection_id: "c-a".to_string(),
            sender: ada(),
            payload,
        };
        assert_eq!(
            start(admission, "m1", "T1"),
            Start::Rejected(refuse("c-a".to_string(), rejection))
        );
    }
}

#[test]
fn begin_rejects_and_ignores_like_screen() {
    assert_eq!(begin(None, Some(ada()), body(payload_to(Some("b1")))), Start::Ignored);
    assert_eq!(
        begin(Some("c-a".to_string()), Some(ada()), body(payload_to(Some("a1")))),
        Start::Rejected(refuse("c-a".to_string(), Rejection::CannotMessageSelf))
    );
}
