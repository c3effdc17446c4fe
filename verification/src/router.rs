//! The send protocol: screen a request, give the message its identity, say
//! what is stored and what is pushed, and acknowledge to the sender.
//!
//! A request is decided on the first rule that applies. An accepted message
//! gets one id and one timestamp, and both the stored item and every frame
//! carry exactly these. Storing and notifying the recipient do not depend on
//! each other. The sender is acknowledged after both, and what the
//! acknowledgement says depends on storing alone.
use crate::keys::{
    message_key_of,
    message_partition_key,
    message_sort_key,
    pair_key_of,
};
use crate::models::chat::{
    ChatType,
    Message,
    MessagePayload,
    MessagePayloadView,
    MessageStatus,
    MessageType,
    MessageView,
};
use crate::models::common::{DatabaseItem, DatabaseItemView, WebSocketEvent, WebSocketEventView};
use crate::models::user::{User, UserView, optional_user_view};
use crate::text::digit_value;
use vstd::prelude::*;
use vstd::string::*;

verus! {

/// Why a send request was turned down.
#[derive(Debug, Clone, Copy, PartialEq, Eq, Structural)]
pub enum Rejection {
    /// The request carries no valid principal.
    InvalidToken,
    /// The body is not a document at all.
    UnparsableBody,
    /// The body is a document, but not a send request.
    InvalidBody,
    /// The request is for a group chat, which is not served.
    NotImplemented,
    /// The request names no recipient.
    MissingRecipient,
    /// The recipient is the sender.
    CannotMessageSelf,
}

impl Rejection {
    /// The reason given to the sender.
    pub open spec fn reason_text(self) -> Seq<char> {
        match self {
            Rejection::InvalidToken => "Invalid token received"@,
            Rejection::UnparsableBody => "Couldn't parse request body"@,
            Rejection::InvalidBody => "Request body failed validation"@,
            Rejection::NotImplemented => "Group chats are not supported"@,
            Rejection::MissingRecipient => "Missing message recipient"@,
            Rejection::CannotMessageSelf => "You can't send a message to yourself"@,
        }
    }

    /// The reason given to the sender.
    pub fn reason(&self) -> (text: String)
        ensures
            text@ == self.reason_text(),
    {
        match self {
            Rejection::InvalidToken => String::from_str("Invalid token received"),
            Rejection::UnparsableBody => String::from_str("Couldn't parse request body"),
            Rejection::InvalidBody => String::from_str("Request body failed validation"),
            Rejection::NotImplemented => String::from_str("Group chats are not supported"),
            Rejection::MissingRecipient => String::from_str("Missing message recipient"),
            Rejection::CannotMessageSelf => String::from_str(
                "You can't send a message to yourself",
            ),
        }
    }
}

/// What decoding the body of a request gave.
#[derive(Debug, PartialEq, Eq)]
pub enum ParsedBody {
    /// The body is missing or is not a document.
    Unparsable,
    /// The body is a document without the shape of a send request.
    Invalid,
    /// The body is a send request.
    Valid(WebSocketEvent<MessagePayload>),
}

/// What a `ParsedBody` holds.
pub ghost enum ParsedBodyView {
    Unparsable,
    Invalid,
    Valid(WebSocketEventView<MessagePayloadView>),
}

impl View for ParsedBody {
    type V = ParsedBodyView;

    open spec fn view(&self) -> ParsedBodyView {
        match self {
            ParsedBody::Unparsable => ParsedBodyView::Unparsable,
            ParsedBody::Invalid => ParsedBodyView::Invalid,
            ParsedBody::Valid(event) => ParsedBodyView::Valid(event@),
        }
    }
}

/// The data of a `message-status` frame. A success names the message; a
/// failure gives a reason.
#[derive(Debug, PartialEq, Eq)]
pub struct StatusData {
    pub status: MessageStatus,
    pub timestamp: Option<String>,
    pub temp_id: Option<String>,
    pub message_id: Option<String>,
    pub message: Option<String>,
}

/// What a `StatusData` holds.
pub ghost struct StatusDataView {
    pub status: MessageStatus,
    pub timestamp: Option<Seq<char>>,
    pub temp_id: Option<Seq<char>>,
    pub message_id: Option<Seq<char>>,
    pub message: Option<Seq<char>>,
}

impl View for StatusData {
    type V = StatusDataView;

    open spec fn view(&self) -> StatusDataView {
        StatusDataView {
            status: self.status,
            timestamp: self.timestamp.deep_view(),
            temp_id: self.temp_id.deep_view(),
            message_id: self.message_id.deep_view(),
            message: self.message.deep_view(),
        }
    }
}

/// The data of a `receive-message` frame.
#[derive(Debug, PartialEq, Eq)]
pub struct ReceiveData {
    pub timestamp: String,
    pub message_type: MessageType,
    pub chat_type: ChatType,
    pub content: String,
    pub message_id: String,
    pub sender: User,
}

/// What a `ReceiveData` holds.
pub ghost struct ReceiveDataView {
    pub timestamp: Seq<char>,
    pub message_type: MessageType,
    pub chat_type: ChatType,
    pub content: Seq<char>,
    pub message_id: Seq<char>,
    pub sender: UserView,
}

impl View for ReceiveData {
    type V = ReceiveDataView;

    open spec fn view(&self) -> ReceiveDataView {
        ReceiveDataView {
            timestamp: self.timestamp@,
            message_type: self.message_type,
            chat_type: self.chat_type,
            content: self.content@,
            message_id: self.message_id@,
            sender: self.sender@,
        }
    }
}

/// A frame to deliver on one channel.
#[derive(Debug, PartialEq, Eq)]
pub struct Push<T> {
    pub connection_id: String,
    pub frame: WebSocketEvent<T>,
}

/// What a `Push` holds.
pub ghost struct PushView<V> {
    pub connection_id: Seq<char>,
    pub frame: WebSocketEventView<V>,
}

impl<T: View> View for Push<T> {
    type V = PushView<T::V>;

    open spec fn view(&self) -> PushView<T::V> {
        PushView { connection_id: self.connection_id@, frame: self.frame@ }
    }
}

/// The decision on a send request.
#[derive(Debug, PartialEq, Eq)]
pub enum Admission {
    /// The request came over no channel: there is nobody to answer.
    Ignored,
    /// The request is turned down; the sender is told why.
    Rejected { connection_id: String, rejection: Rejection },
    /// The request is accepted: `sender` sends `payload` over `connection_id`.
    Accepted { connection_id: String, sender: User, payload: MessagePayload },
}

/// What an `Admission` holds.
pub ghost enum AdmissionView {
    Ignored,
    Rejected { connection_id: Seq<char>, rejection: Rejection },
    Accepted { connection_id: Seq<char>, sender: UserView, payload: MessagePayloadView },
}

impl View for Admission {
    type V = AdmissionView;

    open spec fn view(&self) -> AdmissionView {
        match self {
            Admission::Ignored => AdmissionView::Ignored,
            Admission::Rejected { connection_id, rejection } => AdmissionView::Rejected {
                connection_id: connection_id@,
                rejection: *rejection,
            },
            Admission::Accepted { connection_id, sender, payload } => AdmissionView::Accepted {
                connection_id: connection_id@,
                sender: sender@,
                payload: payload@,
            },
        }
    }
}

/// The recipient of a payload that `sender` may send, or the rule that
/// turns the payload down: the chat must be private, and the recipient must
/// be named, must not be empty and must not be the sender.
pub open spec fn checked_recipient(sender: UserView, payload: MessagePayloadView) -> Result<
    Seq<char>,
    Rejection,
> {
    if payload.chat_type == ChatType::Group {
        Err(Rejection::NotImplemented)
    } else {
        match payload.user_sub {
            None => Err(Rejection::MissingRecipient),
            Some(recipient) => if recipient.len() == 0 {
                Err(Rejection::MissingRecipient)
            } else if recipient == sender.sub {
                Err(Rejection::CannotMessageSelf)
            } else {
                Ok(recipient)
            },
        }
    }
}

/// The first rule that turns a request down, if any does: the principal must
/// be known, the body must be a send request, and its payload must name a
/// recipient that the principal may send to.
pub open spec fn rejection_of(principal: Option<UserView>, body: ParsedBodyView) -> Option<
    Rejection,
> {
    match principal {
        None => Some(Rejection::InvalidToken),
        Some(sender) => match body {
            ParsedBodyView::Unparsable => Some(Rejection::UnparsableBody),
            ParsedBodyView::Invalid => Some(Rejection::InvalidBody),
            ParsedBodyView::Valid(event) => match checked_recipient(sender, event.data) {
                Ok(_) => None,
                Err(rejection) => Some(rejection),
            },
        },
    }
}

/// The decision on a request: ignored without a channel, else rejected on
/// the first rule that applies, else accepted as it stands.
pub open spec fn admission_of(
    connection_id: Option<Seq<char>>,
    principal: Option<UserView>,
    body: ParsedBodyView,
) -> AdmissionView {
    match connection_id {
        None => AdmissionView::Ignored,
        Some(channel) => match rejection_of(principal, body) {
            Some(rejection) => AdmissionView::Rejected { connection_id: channel, rejection },
            None => AdmissionView::Accepted {
                connection_id: channel,
                sender: principal->0,
                payload: body->Valid_0.data,
            },
        },
    }
}

/// Entity kind of a stored message.
pub open spec fn message_entity() -> Seq<char> {
    "message"@
}

/// The item stored for a message to `recipient`: in the partition of its
/// two participants, under its id, with the sender as the principal
/// describes them.
pub open spec fn stored_message_of(
    recipient: Seq<char>,
    payload: MessagePayloadView,
    message_id: Seq<char>,
    timestamp: Seq<char>,
    sender: UserView,
) -> MessageView {
    MessageView {
        db_item: DatabaseItemView {
            partition_key: pair_key_of(recipient, sender.sub),
            sort_key: message_key_of(message_id),
            entity_type: message_entity(),
            gsi1_pk: None,
            gsi1_sk: None,
            gsi2_pk: None,
            gsi2_sk: None,
        },
        content: payload.content,
        message_type: payload.message_type,
        timestamp,
        user: sender,
    }
}

/// The frame that tells a recipient of a message.
pub open spec fn notification_of(
    payload: MessagePayloadView,
    message_id: Seq<char>,
    timestamp: Seq<char>,
    sender: UserView,
) -> WebSocketEventView<ReceiveDataView> {
    WebSocketEventView {
        action: "receive-message"@,
        data: ReceiveDataView {
            timestamp,
            message_type: payload.message_type,
            chat_type: ChatType::Private,
            content: payload.content,
            message_id,
            sender,
        },
    }
}

/// The push that notifies the recipient: one frame to the recipient's
/// channel when the payload names a recipient that the sender may send to
/// and a channel is registered for them, none otherwise.
pub open spec fn delivery_of(
    payload: MessagePayloadView,
    message_id: Seq<char>,
    timestamp: Seq<char>,
    sender: UserView,
    recipient_channel: Option<Seq<char>>,
) -> Option<PushView<ReceiveDataView>> {
    match (checked_recipient(sender, payload), recipient_channel) {
        (Ok(_), Some(channel)) => Some(
            PushView {
                connection_id: channel,
                frame: notification_of(payload, message_id, timestamp, sender),
            },
        ),
        _ => None,
    }
}

/// The frame that reports a failure to the sender.
pub open spec fn error_frame_of(reason: Seq<char>) -> WebSocketEventView<StatusDataView> {
    WebSocketEventView {
        action: "message-status"@,
        data: StatusDataView {
            status: MessageStatus::Error,
            timestamp: None,
            temp_id: None,
            message_id: None,
            message: Some(reason),
        },
    }
}

/// The reason reported when a message could not be stored.
pub open spec fn store_failure_text() -> Seq<char> {
    "Couldn't save the message"@
}

/// The frame that acknowledges a send: a success names the id and the
/// timestamp of the stored message and echoes the client's own id; a failure
/// to store is reported as an error.
pub open spec fn status_of(
    saved: bool,
    temp_id: Seq<char>,
    message_id: Seq<char>,
    timestamp: Seq<char>,
) -> WebSocketEventView<StatusDataView> {
    if saved {
        WebSocketEventView {
            action: "message-status"@,
            data: StatusDataView {
                status: MessageStatus::Okay,
                timestamp: Some(timestamp),
                temp_id: Some(temp_id),
                message_id: Some(message_id),
                message: None,
            },
        }
    } else {
        error_frame_of(store_failure_text())
    }
}

/// Whether a character is a decimal digit.
pub open spec fn is_digit(c: char) -> bool {
    digit_value(c) is Some
}

/// The form of a timestamp: a date and a time of day in UTC to the
/// millisecond. After a year of at least four characters stand a month and
/// a day, `T`, hours, minutes and seconds, three digits of milliseconds,
/// and `Z` for the zone: `<year>-MM-DDThh:mm:ss.mmmZ`.
pub open spec fn is_utc_millis(text: Seq<char>) -> bool {
    let end = text.len() as int;
    &&& end >= 24
    &&& text[end - 20] == '-'
    &&& is_digit(text[end - 19]) && is_digit(text[end - 18])
    &&& text[end - 17] == '-'
    &&& is_digit(text[end - 16]) && is_digit(text[end - 15])
    &&& text[end - 14] == 'T'
    &&& is_digit(text[end - 13]) && is_digit(text[end - 12])
    &&& text[end - 11] == ':'
    &&& is_digit(text[end - 10]) && is_digit(text[end - 9])
    &&& text[end - 8] == ':'
    &&& is_digit(text[end - 7]) && is_digit(text[end - 6])
    &&& text[end - 5] == '.'
    &&& is_digit(text[end - 4]) && is_digit(text[end - 3]) && is_digit(text[end - 2])
    &&& text[end - 1] == 'Z'
}

/// `Ulid::new` of the `ulid` crate draws an identifier from the clock and a
/// random source, and `Ulid::to_string` writes it as 26 characters of
/// Crockford's base 32. Which characters is not said: two calls differ.
#[verifier::external_body]
fn new_message_id() -> (id: String)
    ensures
        id@.len() == 26,
{
    ulid::Ulid::new().to_string()
}

/// `SystemTime::now` of the standard library reads the clock, the `chrono`
/// crate's `DateTime::<Utc>::from` takes that instant over, and its
/// `DateTime::to_rfc3339_opts`, asked for milliseconds and for `Z`, writes
/// it as a year of four characters or more followed by
/// `-MM-DDThh:mm:ss.mmmZ`. A clock that reads before 1970 gives the instant
/// it reads, written in the same form. Which instant is not said: it
/// depends on the clock.
#[verifier::external_body]
fn current_timestamp() -> (timestamp: String)
    ensures
        is_utc_millis(timestamp@),
{
    chrono::DateTime::<chrono::Utc>::from(std::time::SystemTime::now())
        .to_rfc3339_opts(chrono::SecondsFormat::Millis, true)
}

/// The recipient of a payload that `sender` may send, or the rule that
/// turns the payload down.
pub fn check_recipient(sender: &User, payload: &MessagePayload) -> (checked: Result<
    String,
    Rejection,
>)
    ensures
        match checked {
            Ok(recipient) => checked_recipient(sender@, payload@) == Ok::<Seq<char>, Rejection>(
                recipient@,
            ),
            Err(rejection) => checked_recipient(sender@, payload@) == Err::<
                Seq<char>,
                Rejection,
            >(rejection),
        },
{
    if payload.chat_type == ChatType::Group {
        return Err(Rejection::NotImplemented);
    }
    match &payload.user_sub {
        None => Err(Rejection::MissingRecipient),
        Some(recipient) => {
            if recipient.as_str().unicode_len() == 0 {
                Err(Rejection::MissingRecipient)
            } else if *recipient == sender.sub {
                Err(Rejection::CannotMessageSelf)
            } else {
                Ok(recipient.clone())
            }
        },
    }
}

/// Decides a send request.
pub fn screen(connection_id: Option<String>, principal: Option<User>, body: ParsedBody) -> (admission:
    Admission)
    ensures
        admission@ == admission_of(
            connection_id.deep_view(),
            optional_user_view(principal),
            body@,
        ),
{
    let connection_id = match connection_id {
        Some(id) => id,
        None => {
            return Admission::Ignored;
        },
    };
    let sender = match principal {
        Some(user) => user,
        None => {
            return Admission::Rejected { connection_id, rejection: Rejection::InvalidToken };
        },
    };
    let payload = match body {
        ParsedBody::Valid(event) => event.data,
        ParsedBody::Unparsable => {
            return Admission::Rejected { connection_id, rejection: Rejection::UnparsableBody };
        },
        ParsedBody::Invalid => {
            return Admission::Rejected { connection_id, rejection: Rejection::InvalidBody };
        },
    };
    match check_recipient(&sender, &payload) {
        Ok(_) => Admission::Accepted { connection_id, sender, payload },
        Err(rejection) => Admission::Rejected { connection_id, rejection },
    }
}

/// The frame that reports a failure to the sender.
pub fn generate_error_message(message: &str) -> (frame: WebSocketEvent<StatusData>)
    ensures
        frame@ == error_frame_of(message@),
{
    WebSocketEvent {
        action: String::from_str("message-status"),
        data: StatusData {
            status: MessageStatus::Error,
            timestamp: None,
            temp_id: None,
            message_id: None,
            message: Some(String::from_str(message)),
        },
    }
}

/// The push that tells the sender why their request was turned down.
pub fn refuse(connection_id: String, rejection: Rejection) -> (push: Push<StatusData>)
    ensures
        push@ == (PushView {
            connection_id: connection_id@,
            frame: error_frame_of(rejection.reason_text()),
        }),
{
    let reason = rejection.reason();
    Push { connection_id, frame: generate_error_message(reason.as_str()) }
}

/// The item to store for a message, or the rule that turns its payload
/// down: nothing is stored for a payload without a recipient that the
/// sender may send to.
pub fn save_private_message(
    message_payload: &MessagePayload,
    message_id: &str,
    message_timestamp: &str,
    user_info: &User,
) -> (saved: Result<Message, Rejection>)
    ensures
        match checked_recipient(user_info@, message_payload@) {
            Ok(recipient) => saved is Ok && saved->Ok_0@ == stored_message_of(
                recipient,
                message_payload@,
                message_id@,
                message_timestamp@,
                user_info@,
            ),
            Err(rejection) => saved == Err::<Message, Rejection>(rejection),
        },
{
    let receiver_sub = match check_recipient(user_info, message_payload) {
        Ok(sub) => sub,
        Err(rejection) => {
            return Err(rejection);
        },
    };
    Ok(
        Message {
            db_item: DatabaseItem {
                partition_key: message_partition_key(
                    receiver_sub.as_str(),
                    user_info.sub.as_str(),
                ),
                sort_key: message_sort_key(message_id),
                entity_type: String::from_str("message"),
                gsi1_pk: None,
                gsi1_sk: None,
                gsi2_pk: None,
                gsi2_sk: None,
            },
            content: message_payload.content.clone(),
            message_type: message_payload.message_type,
            timestamp: String::from_str(message_timestamp),
            user: user_info.clone(),
        },
    )
}

/// The push that notifies the recipient of a message, given the channel
/// that is registered for them, if one is. Nobody is notified of a message
/// whose payload names no recipient that the sender may send to.
pub fn handle_send_private_message(
    message_payload: &MessagePayload,
    message_id: &str,
    message_timestamp: &str,
    user_info: &User,
    recipient_channel: Option<String>,
) -> (push: Option<Push<ReceiveData>>)
    ensures
        match push {
            Some(frame) => delivery_of(
                message_payload@,
                message_id@,
                message_timestamp@,
                user_info@,
                recipient_channel.deep_view(),
            ) == Some(frame@),
            None => delivery_of(
                message_payload@,
                message_id@,
                message_timestamp@,
                user_info@,
                recipient_channel.deep_view(),
            ) is None,
        },
{
    if check_recipient(user_info, message_payload).is_err() {
        return None;
    }
    let connection_id = match recipient_channel {
        Some(id) => id,
        None => {
            return None;
        },
    };
    Some(
        Push {
            connection_id,
            frame: WebSocketEvent {
                action: String::from_str("receive-message"),
                data: ReceiveData {
                    timestamp: String::from_str(message_timestamp),
                    message_type: message_payload.message_type,
                    chat_type: ChatType::Private,
                    content: message_payload.content.clone(),
                    message_id: String::from_str(message_id),
                    sender: user_info.clone(),
                },
            },
        },
    )
}

/// The push that acknowledges a send to its sender, once it is known
/// whether the message was stored.
pub fn acknowledge(
    connection_id: String,
    saved: bool,
    temp_id: &str,
    message_id: &str,
    message_timestamp: &str,
) -> (push: Push<StatusData>)
    ensures
        push@ == (PushView {
            connection_id: connection_id@,
            frame: status_of(saved, temp_id@, message_id@, message_timestamp@),
        }),
{
    if saved {
        Push {
            connection_id,
            frame: WebSocketEvent {
                action: String::from_str("message-status"),
                data: StatusData {
                    status: MessageStatus::Okay,
                    timestamp: Some(String::from_str(message_timestamp)),
                    temp_id: Some(String::from_str(temp_id)),
                    message_id: Some(String::from_str(message_id)),
                    message: None,
                },
            },
        }
    } else {
        Push { connection_id, frame: generate_error_message("Couldn't save the message") }
    }
}

/// What is to be sent to the recipient of a message, once their channel is
/// known.
#[derive(Debug, PartialEq, Eq)]
pub struct Notification {
    pub recipient: String,
    pub frame: WebSocketEvent<ReceiveData>,
}

/// What a `Notification` holds.
pub ghost struct NotificationView {
    pub recipient: Seq<char>,
    pub frame: WebSocketEventView<ReceiveDataView>,
}

impl View for Notification {
    type V = NotificationView;

    open spec fn view(&self) -> NotificationView {
        NotificationView { recipient: self.recipient@, frame: self.frame@ }
    }
}

/// A send that waits for its two outcomes: whether the message was stored,
/// and that notifying the recipient was attempted.
#[derive(Debug, PartialEq, Eq)]
pub struct InFlight {
    pub connection_id: String,
    pub temp_id: String,
    pub message_id: String,
    pub timestamp: String,
    pub saved: Option<bool>,
    pub notified: bool,
}

/// What an `InFlight` holds.
pub ghost struct InFlightView {
    pub connection_id: Seq<char>,
    pub temp_id: Seq<char>,
    pub message_id: Seq<char>,
    pub timestamp: Seq<char>,
    pub saved: Option<bool>,
    pub notified: bool,
}

impl View for InFlight {
    type V = InFlightView;

    open spec fn view(&self) -> InFlightView {
        InFlightView {
            connection_id: self.connection_id@,
            temp_id: self.temp_id@,
            message_id: self.message_id@,
            timestamp: self.timestamp@,
            saved: self.saved,
            notified: self.notified,
        }
    }
}

/// How a send request starts.
#[derive(Debug, PartialEq, Eq)]
pub enum Start {
    /// Nothing is to be done.
    Ignored,
    /// The sender is told why the request was turned down; nothing else is
    /// to be done.
    Rejected(Push<StatusData>),
    /// The message is to be stored and its recipient notified, in any order
    /// or at once; the outcomes are handed to `settle`.
    Dispatched { message: Message, notification: Notification, pending: InFlight },
}

/// What a `Start` holds.
pub ghost enum StartView {
    Ignored,
    Rejected(PushView<StatusDataView>),
    Dispatched { message: MessageView, notification: NotificationView, pending: InFlightView },
}

impl View for Start {
    type V = StartView;

    open spec fn view(&self) -> StartView {
        match self {
            Start::Ignored => StartView::Ignored,
            Start::Rejected(push) => StartView::Rejected(push@),
            Start::Dispatched { message, notification, pending } => StartView::Dispatched {
                message: message@,
                notification: notification@,
                pending: pending@,
            },
        }
    }
}

/// An outcome of one of the two actions of a dispatched send.
#[derive(Debug, Clone, Copy, PartialEq, Eq, Structural)]
pub enum Outcome {
    /// Storing the message went through, or did not.
    Saved(bool),
    /// Notifying the recipient was attempted; whether they were reached
    /// does not matter.
    Notified,
}

/// Where a send stands after an outcome.
#[derive(Debug, PartialEq, Eq)]
pub enum Progress {
    /// An outcome is still to come.
    Waiting(InFlight),
    /// Both outcomes are in: the acknowledgement goes to the sender, and
    /// the send is over.
    Acknowledge(Push<StatusData>),
}

/// What a `Progress` holds.
pub ghost enum ProgressView {
    Waiting(InFlightView),
    Acknowledge(PushView<StatusDataView>),
}

impl View for Progress {
    type V = ProgressView;

    open spec fn view(&self) -> ProgressView {
        match self {
            Progress::Waiting(pending) => ProgressView::Waiting(pending@),
            Progress::Acknowledge(push) => ProgressView::Acknowledge(push@),
        }
    }
}

/// How a decided request starts, with the identity that was drawn for its
/// message: an accepted request dispatches the item to store and the frame
/// for the recipient, both under that identity, and waits for both outcomes.
/// A request that is called accepted although its payload names no
/// recipient that the sender may send to is rejected all the same.
pub open spec fn start_of(
    admission: AdmissionView,
    message_id: Seq<char>,
    timestamp: Seq<char>,
) -> StartView {
    match admission {
        AdmissionView::Ignored => StartView::Ignored,
        AdmissionView::Rejected { connection_id, rejection } => StartView::Rejected(
            PushView { connection_id, frame: error_frame_of(rejection.reason_text()) },
        ),
        AdmissionView::Accepted { connection_id, sender, payload } => match checked_recipient(
            sender,
            payload,
        ) {
            Err(rejection) => StartView::Rejected(
                PushView { connection_id, frame: error_frame_of(rejection.reason_text()) },
            ),
            Ok(recipient) => StartView::Dispatched {
                message: stored_message_of(recipient, payload, message_id, timestamp, sender),
                notification: NotificationView {
                    recipient,
                    frame: notification_of(payload, message_id, timestamp, sender),
                },
                pending: InFlightView {
                    connection_id,
                    temp_id: payload.temp_id,
                    message_id,
                    timestamp,
                    saved: None,
                    notified: false,
                },
            },
        },
    }
}

/// A send after an outcome: the outcome is recorded, the first word on
/// storing stands, and once both outcomes are in the sender is acknowledged
/// according to whether the message was stored.
pub open spec fn settled(pending: InFlightView, outcome: Outcome) -> ProgressView {
    let saved = match outcome {
        Outcome::Saved(stored) => if pending.saved is Some {
            pending.saved
        } else {
            Some(stored)
        },
        Outcome::Notified => pending.saved,
    };
    let notified = pending.notified || outcome == Outcome::Notified;
    if saved is Some && notified {
        ProgressView::Acknowledge(
            PushView {
                connection_id: pending.connection_id,
                frame: status_of(
                    saved->0,
                    pending.temp_id,
                    pending.message_id,
                    pending.timestamp,
                ),
            },
        )
    } else {
        ProgressView::Waiting(InFlightView { saved, notified, ..pending })
    }
}

/// The push of a notification: to the recipient's channel, when one is
/// registered for them.
pub open spec fn addressed(notification: NotificationView, channel: Option<Seq<char>>) -> Option<
    PushView<ReceiveDataView>,
> {
    match channel {
        Some(connection_id) => Some(PushView { connection_id, frame: notification.frame }),
        None => None,
    }
}

/// How a decided request starts, with the identity drawn for its message.
pub fn start(admission: Admission, message_id: &str, message_timestamp: &str) -> (started: Start)
    ensures
        started@ == start_of(admission@, message_id@, message_timestamp@),
{
    match admission {
        Admission::Ignored => Start::Ignored,
        Admission::Rejected { connection_id, rejection } => Start::Rejected(
            refuse(connection_id, rejection),
        ),
        Admission::Accepted { connection_id, sender, payload } => {
            let recipient = match check_recipient(&sender, &payload) {
                Ok(recipient) => recipient,
                Err(rejection) => {
                    return Start::Rejected(refuse(connection_id, rejection));
                },
            };
            let message = match save_private_message(
                &payload,
                message_id,
                message_timestamp,
                &sender,
            ) {
                Ok(message) => message,
                Err(rejection) => {
                    return Start::Rejected(refuse(connection_id, rejection));
                },
            };
            let frame = WebSocketEvent {
                action: String::from_str("receive-message"),
                data: ReceiveData {
                    timestamp: String::from_str(message_timestamp),
                    message_type: payload.message_type,
                    chat_type: ChatType::Private,
                    content: payload.content.clone(),
                    message_id: String::from_str(message_id),
                    sender,
                },
            };
            Start::Dispatched {
                message,
                notification: Notification { recipient, frame },
                pending: InFlight {
                    connection_id,
                    temp_id: payload.temp_id,
                    message_id: String::from_str(message_id),
                    timestamp: String::from_str(message_timestamp),
                    saved: None,
                    notified: false,
                },
            }
        },
    }
}

/// Decides a send request and starts it. Only an accepted message is given
/// an identity: a fresh id of 26 characters and the current time in UTC to
/// the millisecond. Whatever they are, the send starts as `start` says for
/// them; a request that is not accepted starts as `start` says for any
/// identity.
pub fn begin(connection_id: Option<String>, principal: Option<User>, body: ParsedBody) -> (started:
    Start)
    ensures
        admission_of(connection_id.deep_view(), optional_user_view(principal), body@)
            is Accepted ==> exists|message_id: Seq<char>, timestamp: Seq<char>|
            message_id.len() == 26 && is_utc_millis(timestamp) && started@ == #[trigger] start_of(
                admission_of(connection_id.deep_view(), optional_user_view(principal), body@),
                message_id,
                timestamp,
            ),
        !(admission_of(connection_id.deep_view(), optional_user_view(principal), body@)
            is Accepted) ==> started@ == start_of(
            admission_of(connection_id.deep_view(), optional_user_view(principal), body@),
            Seq::empty(),
            Seq::empty(),
        ),
{
    let admission = screen(connection_id, principal, body);
    match admission {
        Admission::Accepted { .. } => {
            let message_id = new_message_id();
            let timestamp = current_timestamp();
            let started = start(admission, message_id.as_str(), timestamp.as_str());
            assert(started@ == start_of(
                admission_of(connection_id.deep_view(), optional_user_view(principal), body@),
                message_id@,
                timestamp@,
            ));
            started
        },
        _ => {
            proof {
                reveal_strlit("");
                assert(""@ =~= Seq::<char>::empty());
            }
            start(admission, "", "")
        },
    }
}

/// Records an outcome of a dispatched send.
pub fn settle(pending: InFlight, outcome: Outcome) -> (progress: Progress)
    ensures
        progress@ == settled(pending@, outcome),
{
    let saved = match outcome {
        Outcome::Saved(stored) => {
            if pending.saved.is_some() {
                pending.saved
            } else {
                Some(stored)
            }
        },
        Outcome::Notified => pending.saved,
    };
    let notified = pending.notified || outcome == Outcome::Notified;
    match (saved, notified) {
        (Some(stored), true) => Progress::Acknowledge(
            acknowledge(
                pending.connection_id,
                stored,
                pending.temp_id.as_str(),
                pending.message_id.as_str(),
                pending.timestamp.as_str(),
            ),
        ),
        _ => Progress::Waiting(
            InFlight {
                connection_id: pending.connection_id,
                temp_id: pending.temp_id,
                message_id: pending.message_id,
                timestamp: pending.timestamp,
                saved,
                notified,
            },
        ),
    }
}

/// The push of a notification, given the channel that is registered for
/// its recipient, if one is.
pub fn address(notification: Notification, channel: Option<String>) -> (push: Option<
    Push<ReceiveData>,
>)
    ensures
        match push {
            Some(frame) => addressed(notification@, channel.deep_view()) == Some(frame@),
            None => addressed(notification@, channel.deep_view()) is None,
        },
{
    match channel {
        Some(connection_id) => Some(Push { connection_id, frame: notification.frame }),
        None => None,
    }
}

/// The sender is acknowledged exactly when both outcomes of a dispatched
/// send are in, in whichever order they come: not before the message was
/// stored or failed to be, and not before notifying the recipient was
/// attempted. Nothing follows the acknowledgement, so it is the last
/// effect of a send. It reports success exactly when the message was stored,
/// and then names the id and the timestamp that the stored item carries.
pub proof fn law_acknowledged_last(
    connection_id: Seq<char>,
    sender: UserView,
    payload: MessagePayloadView,
    recipient: Seq<char>,
    message_id: Seq<char>,
    timestamp: Seq<char>,
    stored: bool,
)
    requires
        checked_recipient(sender, payload) == Ok::<Seq<char>, Rejection>(recipient),
    ensures
        ({
            let started = start_of(
                AdmissionView::Accepted { connection_id, sender, payload },
                message_id,
                timestamp,
            );
            let pending = started->Dispatched_pending;
            let ack = PushView {
                connection_id,
                frame: status_of(stored, payload.temp_id, message_id, timestamp),
            };
            &&& started is Dispatched
            &&& started->Dispatched_message == stored_message_of(
                recipient,
                payload,
                message_id,
                timestamp,
                sender,
            )
            &&& settled(pending, Outcome::Saved(stored)) is Waiting
            &&& settled(pending, Outcome::Notified) is Waiting
            &&& settled(
                settled(pending, Outcome::Saved(stored))->Waiting_0,
                Outcome::Notified,
            ) == ProgressView::Acknowledge(ack)
            &&& settled(
                settled(pending, Outcome::Notified)->Waiting_0,
                Outcome::Saved(stored),
            ) == ProgressView::Acknowledge(ack)
            &&& (ack.frame.data.status == MessageStatus::Okay <==> stored)
            &&& stored ==> ack.frame.data.timestamp == Some(started->Dispatched_message.timestamp)
                && ack.frame.data.message_id is Some && message_key_of(
                ack.frame.data.message_id->0,
            ) == started->Dispatched_message.db_item.sort_key
        }),
{
}

/// The acknowledgement of a stored message names the message that was
/// stored: it carries the timestamp of the stored item, and its id is the
/// one the item is stored under.
pub proof fn law_acknowledgement_names_stored_message(
    recipient: Seq<char>,
    payload: MessagePayloadView,
    message_id: Seq<char>,
    timestamp: Seq<char>,
    sender: UserView,
)
    ensures
        status_of(true, payload.temp_id, message_id, timestamp).data.timestamp == Some(
            stored_message_of(recipient, payload, message_id, timestamp, sender).timestamp,
        ),
        status_of(true, payload.temp_id, message_id, timestamp).data.message_id is Some,
        message_key_of(status_of(true, payload.temp_id, message_id, timestamp).data.message_id->0)
            == stored_message_of(
            recipient,
            payload,
            message_id,
            timestamp,
            sender,
        ).db_item.sort_key,
        status_of(true, payload.temp_id, message_id, timestamp).data.temp_id == Some(
            payload.temp_id,
        ),
{
}

/// Nothing is stored and nobody is notified for a payload that names no
/// recipient, an empty one or the sender, or that asks for a group chat:
/// the payload is turned down, a send with it starts as a rejection even
/// when it is handed over as accepted, and no channel gets a push.
pub proof fn law_unsendable_payload(
    connection_id: Seq<char>,
    sender: UserView,
    payload: MessagePayloadView,
    message_id: Seq<char>,
    timestamp: Seq<char>,
    channel: Option<Seq<char>>,
)
    requires
        payload.chat_type == ChatType::Group || payload.user_sub is None || payload.user_sub
            == Some(Seq::<char>::empty()) || payload.user_sub == Some(sender.sub),
    ensures
        checked_recipient(sender, payload) is Err,
        start_of(
            AdmissionView::Accepted { connection_id, sender, payload },
            message_id,
            timestamp,
        ) == StartView::Rejected(
            PushView {
                connection_id,
                frame: error_frame_of(
                    checked_recipient(sender, payload)->Err_0.reason_text(),
                ),
            },
        ),
        delivery_of(payload, message_id, timestamp, sender, channel) is None,
        payload.chat_type == ChatType::Private && (payload.user_sub is None || payload.user_sub
            == Some(Seq::<char>::empty())) ==> checked_recipient(sender, payload) == Err::<
            Seq<char>,
            Rejection,
        >(Rejection::MissingRecipient),
{
}

/// A message to oneself is never accepted: the request is rejected, so that
/// no message is planned for it, and the sender is told so.
pub proof fn law_self_send_rejected(
    connection_id: Seq<char>,
    sender: UserView,
    event: WebSocketEventView<MessagePayloadView>,
)
    requires
        event.data.user_sub == Some(sender.sub),
    ensures
        admission_of(Some(connection_id), Some(sender), ParsedBodyView::Valid(event))
            is Rejected,
        event.data.chat_type == ChatType::Private && sender.sub.len() > 0 ==> admission_of(
            Some(connection_id),
            Some(sender),
            ParsedBodyView::Valid(event),
        ) == (AdmissionView::Rejected {
            connection_id,
            rejection: Rejection::CannotMessageSelf,
        }),
{
}

/// A recipient without a registered channel gets no push, and the message
/// is stored and acknowledged all the same: neither the stored item nor the
/// acknowledgement depends on the channel.
pub proof fn law_offline_recipient(
    payload: MessagePayloadView,
    message_id: Seq<char>,
    timestamp: Seq<char>,
    sender: UserView,
)
    ensures
        delivery_of(payload, message_id, timestamp, sender, None) is None,
        status_of(true, payload.temp_id, message_id, timestamp).data.status
            == MessageStatus::Okay,
{
}

} // verus!
