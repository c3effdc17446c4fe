//! Messages, the payload that asks for one, and the per-user chat entry that
//! is derived from them.
use crate::models::common::{
    AttributeValue,
    AttributeView,
    DatabaseItem,
    DatabaseItemView,
    clone_text,
    item_view,
    key_attributes,
    lemma_key_attributes_in_order,
    lemma_name_ranks,
    lemma_order_continues,
    lemma_order_is_unique,
    text_attribute,
    unique_names,
    written_in_order,
};
use crate::models::user::{User, UserView, user_attribute};
use crate::text::{decimal, decimal_of};
use vstd::prelude::*;
use vstd::string::*;

verus! {

/// Outcome reported to the sender of a message.
#[derive(Debug, Clone, Copy, PartialEq, Eq, Structural)]
pub enum MessageStatus {
    Okay,
    Error,
}

/// Kind of conversation a message belongs to. Only private chats are served;
/// the group kind is reserved.
#[derive(Debug, Clone, Copy, PartialEq, Eq, Structural)]
pub enum ChatType {
    Private,
    Group,
}

/// Kind of content a message carries.
#[derive(Debug, Clone, Copy, PartialEq, Eq, Structural)]
pub enum MessageType {
    Text,
    Image,
}

impl MessageStatus {
    /// The name of the status on the wire.
    pub open spec fn name(self) -> Seq<char> {
        match self {
            MessageStatus::Okay => "ok"@,
            MessageStatus::Error => "error"@,
        }
    }

    /// The name of the status on the wire.
    pub fn to_string(&self) -> (text: String)
        ensures
            text@ == self.name(),
    {
        match self {
            MessageStatus::Okay => String::from_str("ok"),
            MessageStatus::Error => String::from_str("error"),
        }
    }
}

impl ChatType {
    /// The name of the chat kind on the wire and in the store.
    pub open spec fn name(self) -> Seq<char> {
        match self {
            ChatType::Private => "private"@,
            ChatType::Group => "group"@,
        }
    }

    /// The name of the chat kind on the wire and in the store.
    pub fn to_string(&self) -> (text: String)
        ensures
            text@ == self.name(),
    {
        match self {
            ChatType::Private => String::from_str("private"),
            ChatType::Group => String::from_str("group"),
        }
    }
}

impl MessageType {
    /// The name of the message kind on the wire and in the store.
    pub open spec fn name(self) -> Seq<char> {
        match self {
            MessageType::Text => "text"@,
            MessageType::Image => "image"@,
        }
    }

    /// The name of the message kind on the wire and in the store.
    pub fn to_string(&self) -> (text: String)
        ensures
            text@ == self.name(),
    {
        match self {
            MessageType::Text => String::from_str("text"),
            MessageType::Image => String::from_str("image"),
        }
    }
}

impl Default for MessageType {
    /// A payload that names no kind is a text message.
    fn default() -> (kind: Self)
        ensures
            kind == MessageType::Text,
    {
        MessageType::Text
    }
}

/// Content of a message whose payload carries none.
pub fn default_message_content() -> (content: String)
    ensures
        content@ == Seq::<char>::empty(),
{
    String::new()
}

/// What a client asks for when it sends a message.
#[derive(Debug, PartialEq, Eq)]
pub struct MessagePayload {
    pub temp_id: String,
    pub content: String,
    pub image_url: Option<String>,
    pub message_type: MessageType,
    pub chat_type: ChatType,
    pub user_sub: Option<String>,
    pub group_id: Option<String>,
}

/// What a `MessagePayload` holds.
pub ghost struct MessagePayloadView {
    pub temp_id: Seq<char>,
    pub content: Seq<char>,
    pub image_url: Option<Seq<char>>,
    pub message_type: MessageType,
    pub chat_type: ChatType,
    pub user_sub: Option<Seq<char>>,
    pub group_id: Option<Seq<char>>,
}

impl View for MessagePayload {
    type V = MessagePayloadView;

    open spec fn view(&self) -> MessagePayloadView {
        MessagePayloadView {
            temp_id: self.temp_id@,
            content: self.content@,
            image_url: self.image_url.deep_view(),
            message_type: self.message_type,
            chat_type: self.chat_type,
            user_sub: self.user_sub.deep_view(),
            group_id: self.group_id.deep_view(),
        }
    }
}

impl Clone for MessagePayload {
    fn clone(&self) -> (copy: Self)
        ensures
            copy@ == self@,
    {
        MessagePayload {
            temp_id: self.temp_id.clone(),
            content: self.content.clone(),
            image_url: clone_text(&self.image_url),
            message_type: self.message_type,
            chat_type: self.chat_type,
            user_sub: clone_text(&self.user_sub),
            group_id: clone_text(&self.group_id),
        }
    }
}

impl MessagePayload {
    /// A payload from the fields of a frame. A frame without content stands
    /// for the empty content, and one without a kind for a text message.
    pub fn new(
        temp_id: String,
        content: Option<String>,
        image_url: Option<String>,
        message_type: Option<MessageType>,
        chat_type: ChatType,
        user_sub: Option<String>,
        group_id: Option<String>,
    ) -> (payload: Self)
        ensures
            payload@ == (MessagePayloadView {
                temp_id: temp_id@,
                content: match content {
                    Some(text) => text@,
                    None => Seq::empty(),
                },
                image_url: image_url.deep_view(),
                message_type: match message_type {
                    Some(kind) => kind,
                    None => MessageType::Text,
                },
                chat_type,
                user_sub: user_sub.deep_view(),
                group_id: group_id.deep_view(),
            }),
    {
        let content = match content {
            Some(text) => text,
            None => default_message_content(),
        };
        let message_type = match message_type {
            Some(kind) => kind,
            None => MessageType::default(),
        };
        MessagePayload { temp_id, content, image_url, message_type, chat_type, user_sub, group_id }
    }
}

/// A stored message: its keys, content, kind, time of sending and a snapshot
/// of its sender.
#[derive(Debug, PartialEq, Eq)]
pub struct Message {
    pub db_item: DatabaseItem,
    pub content: String,
    pub message_type: MessageType,
    pub timestamp: String,
    pub user: User,
}

/// What a `Message` holds.
pub ghost struct MessageView {
    pub db_item: DatabaseItemView,
    pub content: Seq<char>,
    pub message_type: MessageType,
    pub timestamp: Seq<char>,
    pub user: UserView,
}

impl View for Message {
    type V = MessageView;

    open spec fn view(&self) -> MessageView {
        MessageView {
            db_item: self.db_item@,
            content: self.content@,
            message_type: self.message_type,
            timestamp: self.timestamp@,
            user: self.user@,
        }
    }
}

impl Clone for Message {
    fn clone(&self) -> (copy: Self)
        ensures
            copy@ == self@,
    {
        Message {
            db_item: self.db_item.clone(),
            content: self.content.clone(),
            message_type: self.message_type,
            timestamp: self.timestamp.clone(),
            user: self.user.clone(),
        }
    }
}

/// The attributes under which a message is stored.
pub open spec fn message_item(message: MessageView) -> Seq<(Seq<char>, AttributeView)> {
    key_attributes(message.db_item) + seq![
        ("timestamp"@, AttributeView::S(message.timestamp)),
        ("messageType"@, AttributeView::S(message.message_type.name())),
        ("user"@, user_attribute(message.user)),
        ("content"@, AttributeView::S(message.content)),
    ]
}

/// No attribute name occurs twice in a stored message.
pub proof fn lemma_message_item_unique(message: MessageView)
    ensures
        unique_names(message_item(message)),
{
    lemma_name_ranks();
    lemma_key_attributes_in_order(message.db_item);
    let rest = seq![
        ("timestamp"@, AttributeView::S(message.timestamp)),
        ("messageType"@, AttributeView::S(message.message_type.name())),
        ("user"@, user_attribute(message.user)),
        ("content"@, AttributeView::S(message.content)),
    ];
    assert(written_in_order(rest, 7, 15));
    lemma_order_continues(key_attributes(message.db_item), rest, 0, 7, 15);
    lemma_order_is_unique(message_item(message), 0, 15);
}

impl Message {
    /// The attributes under which this message is stored.
    pub fn to_item(&self) -> (item: Vec<(String, AttributeValue)>)
        ensures
            item_view(item@) == message_item(self@),
            unique_names(item_view(item@)),
    {
        proof {
            lemma_message_item_unique(self@);
        }
        let mut item = self.db_item.to_item();
        let ghost keys = item_view(item@);
        let kind = self.message_type.to_string();
        item.push(text_attribute("timestamp", self.timestamp.as_str()));
        item.push(text_attribute("messageType", kind.as_str()));
        item.push((String::from_str("user"), self.user.to_attribute()));
        item.push(text_attribute("content", self.content.as_str()));
        assert(item_view(item@) =~= keys + seq![
            ("timestamp"@, AttributeView::S(self.timestamp@)),
            ("messageType"@, AttributeView::S(self.message_type.name())),
            ("user"@, user_attribute(self.user@)),
            ("content"@, AttributeView::S(self.content@)),
        ]);
        item
    }
}

/// The latest message of a chat, as the chat list shows it.
#[derive(Debug, PartialEq, Eq)]
pub struct LastMessage {
    pub user_name: String,
    pub user_sub: String,
    pub timestamp: String,
    pub preview: String,
    pub message_type: MessageType,
}

/// What a `LastMessage` holds.
pub ghost struct LastMessageView {
    pub user_name: Seq<char>,
    pub user_sub: Seq<char>,
    pub timestamp: Seq<char>,
    pub preview: Seq<char>,
    pub message_type: MessageType,
}

impl View for LastMessage {
    type V = LastMessageView;

    open spec fn view(&self) -> LastMessageView {
        LastMessageView {
            user_name: self.user_name@,
            user_sub: self.user_sub@,
            timestamp: self.timestamp@,
            preview: self.preview@,
            message_type: self.message_type,
        }
    }
}

impl Clone for LastMessage {
    fn clone(&self) -> (copy: Self)
        ensures
            copy@ == self@,
    {
        LastMessage {
            user_name: self.user_name.clone(),
            user_sub: self.user_sub.clone(),
            timestamp: self.timestamp.clone(),
            preview: self.preview.clone(),
            message_type: self.message_type,
        }
    }
}

/// The map attribute that stores the latest message of a chat.
pub open spec fn last_message_attribute(last: LastMessageView) -> AttributeView {
    AttributeView::M(
        seq![
            ("userName"@, AttributeView::S(last.user_name)),
            ("userSub"@, AttributeView::S(last.user_sub)),
            ("timestamp"@, AttributeView::S(last.timestamp)),
            ("preview"@, AttributeView::S(last.preview)),
            ("messageType"@, AttributeView::S(last.message_type.name())),
        ],
    )
}

/// The fields of a stored preview have five different names.
pub proof fn lemma_last_message_fields_unique(last: LastMessageView)
    ensures
        last_message_attribute(last) is M,
        unique_names(last_message_attribute(last)->M_0),
{
    reveal_strlit("userName");
    reveal_strlit("userSub");
    reveal_strlit("timestamp");
    reveal_strlit("preview");
    reveal_strlit("messageType");
    assert("userName"@.len() == 8 && "userSub"@.len() == 7 && "timestamp"@.len() == 9);
    assert("preview"@.len() == 7 && "messageType"@.len() == 11);
    assert("userSub"@[0] != "preview"@[0]);
}

impl LastMessage {
    /// The map attribute that stores this preview.
    pub fn to_attribute(&self) -> (value: AttributeValue)
        ensures
            value@ == last_message_attribute(self@),
            unique_names(value@->M_0),
    {
        proof {
            lemma_last_message_fields_unique(self@);
        }
        let kind = self.message_type.to_string();
        let mut fields: Vec<(String, AttributeValue)> = Vec::new();
        fields.push(text_attribute("userName", self.user_name.as_str()));
        fields.push(text_attribute("userSub", self.user_sub.as_str()));
        fields.push(text_attribute("timestamp", self.timestamp.as_str()));
        fields.push(text_attribute("preview", self.preview.as_str()));
        fields.push(text_attribute("messageType", kind.as_str()));
        let value = AttributeValue::M(fields);
        assert(value@->M_0 =~= last_message_attribute(self@)->M_0);
        value
    }
}

/// One user's entry for a chat in their chat list: who the peer is, what was
/// said last and how many messages the owner has not read.
#[derive(Debug, PartialEq, Eq)]
pub struct ChatProjection {
    pub db_item: DatabaseItem,
    pub chat_type: ChatType,
    pub title: String,
    pub user: User,
    pub last_message: LastMessage,
    pub unread_messages: u64,
}

/// What a `ChatProjection` holds.
pub ghost struct ChatProjectionView {
    pub db_item: DatabaseItemView,
    pub chat_type: ChatType,
    pub title: Seq<char>,
    pub user: UserView,
    pub last_message: LastMessageView,
    pub unread_messages: nat,
}

impl View for ChatProjection {
    type V = ChatProjectionView;

    open spec fn view(&self) -> ChatProjectionView {
        ChatProjectionView {
            db_item: self.db_item@,
            chat_type: self.chat_type,
            title: self.title@,
            user: self.user@,
            last_message: self.last_message@,
            unread_messages: self.unread_messages as nat,
        }
    }
}

impl Clone for ChatProjection {
    fn clone(&self) -> (copy: Self)
        ensures
            copy@ == self@,
    {
        ChatProjection {
            db_item: self.db_item.clone(),
            chat_type: self.chat_type,
            title: self.title.clone(),
            user: self.user.clone(),
            last_message: self.last_message.clone(),
            unread_messages: self.unread_messages,
        }
    }
}

/// The attributes under which a chat entry is stored.
pub open spec fn chat_item(chat: ChatProjectionView) -> Seq<(Seq<char>, AttributeView)> {
    key_attributes(chat.db_item) + seq![
        ("chatType"@, AttributeView::S(chat.chat_type.name())),
        ("title"@, AttributeView::S(chat.title)),
        ("user"@, user_attribute(chat.user)),
        ("lastMessage"@, last_message_attribute(chat.last_message)),
        ("unreadMessages"@, AttributeView::N(decimal_of(chat.unread_messages))),
    ]
}

/// No attribute name occurs twice in a stored chat entry.
pub proof fn lemma_chat_item_unique(chat: ChatProjectionView)
    ensures
        unique_names(chat_item(chat)),
{
    lemma_name_ranks();
    lemma_key_attributes_in_order(chat.db_item);
    let rest = seq![
        ("chatType"@, AttributeView::S(chat.chat_type.name())),
        ("title"@, AttributeView::S(chat.title)),
        ("user"@, user_attribute(chat.user)),
        ("lastMessage"@, last_message_attribute(chat.last_message)),
        ("unreadMessages"@, AttributeView::N(decimal_of(chat.unread_messages))),
    ];
    assert(written_in_order(rest, 7, 14));
    lemma_order_continues(key_attributes(chat.db_item), rest, 0, 7, 14);
    lemma_order_is_unique(chat_item(chat), 0, 14);
}

impl ChatProjection {
    /// The attributes under which this chat entry is stored.
    pub fn to_item(&self) -> (item: Vec<(String, AttributeValue)>)
        ensures
            item_view(item@) == chat_item(self@),
            unique_names(item_view(item@)),
    {
        proof {
            lemma_chat_item_unique(self@);
        }
        let mut item = self.db_item.to_item();
        let ghost keys = item_view(item@);
        let kind = self.chat_type.to_string();
        item.push(text_attribute("chatType", kind.as_str()));
        item.push(text_attribute("title", self.title.as_str()));
        item.push((String::from_str("user"), self.user.to_attribute()));
        item.push((String::from_str("lastMessage"), self.last_message.to_attribute()));
        item.push((String::from_str("unreadMessages"), AttributeValue::N(decimal(self.unread_messages))));
        assert(item_view(item@) =~= keys + seq![
            ("chatType"@, AttributeView::S(self.chat_type.name())),
            ("title"@, AttributeView::S(self.title@)),
            ("user"@, user_attribute(self.user@)),
            ("lastMessage"@, last_message_attribute(self.last_message@)),
            ("unreadMessages"@, AttributeView::N(decimal_of(self.unread_messages as nat))),
        ]);
        item
    }
}

} // verus!
