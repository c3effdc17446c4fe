//! Fan-out of a stored message into the chat lists of its two participants.
//!
//! Each participant owns one entry per peer. A new message rewrites the last
//! message of both entries and counts as unread for the one who did not send
//! it.
use crate::keys::{
    chat_index_key_of,
    chat_index_sort_key,
    chat_key_of,
    chat_sort_key,
    participants,
    participants_of,
    user_key_of,
    user_partition_key,
};
use crate::models::chat::{
    ChatProjection,
    ChatProjectionView,
    ChatType,
    LastMessage,
    LastMessageView,
    Message,
    MessageView,
};
use crate::models::common::{
    AttributeValue,
    AttributeView,
    DatabaseItem,
    DatabaseItemView,
    attribute,
    attribute_of,
    item_view,
};
use crate::text::{decimal_value, parse_decimal};
use crate::models::user::{User as UserModel, UserView};
use crate::utils::user::GetUserError;
use vstd::prelude::*;
use vstd::string::*;

verus! {

/// Why a message was not fanned out.
#[derive(Debug, Clone, Copy, PartialEq, Eq, Structural)]
pub enum FanoutError {
    /// The partition key of the message names no two participants.
    MalformedKey,
    /// The identity of a participant could not be resolved.
    ResolverFailure,
}

/// Entity kind of a chat entry.
pub open spec fn chat_entity() -> Seq<char> {
    "chat"@
}

/// The unread counter of an entry after a message: one more for the
/// participant who receives it, unchanged for the one who sent it. An entry
/// that does not exist yet counts from zero.
pub open spec fn unread_after(existing: Option<u64>, receives: bool) -> nat {
    let before: nat = match existing {
        Some(count) => count as nat,
        None => 0,
    };
    if receives {
        before + 1
    } else {
        before
    }
}

/// The unread counter that a stored chat entry holds; `None` when there is
/// no entry. An entry whose counter is missing, is no number or is too
/// large for a `u64` counts from zero.
pub open spec fn unread_of(item: Option<Seq<(Seq<char>, AttributeView)>>) -> Option<u64> {
    match item {
        None => None,
        Some(attributes) => Some(
            match attribute_of(attributes, "unreadMessages"@) {
                Some(AttributeView::N(text)) => match decimal_value(text) {
                    Some(count) => if count <= u64::MAX {
                        count as u64
                    } else {
                        0
                    },
                    None => 0,
                },
                _ => 0,
            },
        ),
    }
}

/// The unread counter that a message increments, if it is there already:
/// that of the entry of the participant who receives the message, the one
/// whose sub is not the sender's.
pub open spec fn receiver_unread(
    record: MessageView,
    first_unread: Option<u64>,
    second_unread: Option<u64>,
) -> Option<u64> {
    match participants_of(record.db_item.partition_key) {
        Some((first, _)) => if record.user.sub == first {
            second_unread
        } else {
            first_unread
        },
        None => None,
    }
}

/// Whether the counter that a message increments has room for one more.
pub open spec fn counter_fits_of(
    record: MessageView,
    first_unread: Option<u64>,
    second_unread: Option<u64>,
) -> bool {
    receiver_unread(record, first_unread, second_unread) != Some(u64::MAX)
}

/// What the chat list shows of a message.
pub open spec fn preview_of(record: MessageView) -> LastMessageView {
    LastMessageView {
        user_name: record.user.name,
        user_sub: record.user.sub,
        timestamp: record.timestamp,
        preview: record.content,
        message_type: record.message_type,
    }
}

/// The entry that `owner` holds for the chat with `peer` once `record` is its
/// last message: stored in the owner's partition under the peer's sub, listed
/// by the time of the message, titled with the peer's name.
pub open spec fn chat_entry_of(
    record: MessageView,
    owner: Seq<char>,
    peer: Seq<char>,
    peer_info: UserView,
    unread: nat,
) -> ChatProjectionView {
    ChatProjectionView {
        db_item: DatabaseItemView {
            partition_key: user_key_of(owner),
            sort_key: chat_key_of(peer),
            entity_type: chat_entity(),
            gsi1_pk: None,
            gsi1_sk: None,
            gsi2_pk: Some(user_key_of(owner)),
            gsi2_sk: Some(chat_index_key_of(record.timestamp)),
        },
        chat_type: ChatType::Private,
        title: peer_info.name,
        user: peer_info,
        last_message: preview_of(record),
        unread_messages: unread,
    }
}

/// The two entries that follow from `record`, for the participants that its
/// partition key names, in the key's order. The participant whose sub is the
/// sender's keeps their counter; the other one receives.
pub open spec fn private_chats_of(
    record: MessageView,
    first_info: Result<UserView, GetUserError>,
    second_info: Result<UserView, GetUserError>,
    first_unread: Option<u64>,
    second_unread: Option<u64>,
) -> Result<(ChatProjectionView, ChatProjectionView), FanoutError> {
    match participants_of(record.db_item.partition_key) {
        None => Err(FanoutError::MalformedKey),
        Some((first, second)) => match (first_info, second_info) {
            (Ok(first_user), Ok(second_user)) => {
                let first_sent = record.user.sub == first;
                Ok(
                    (
                        chat_entry_of(
                            record,
                            first,
                            second,
                            second_user,
                            unread_after(first_unread, !first_sent),
                        ),
                        chat_entry_of(
                            record,
                            second,
                            first,
                            first_user,
                            unread_after(second_unread, first_sent),
                        ),
                    ),
                )
            },
            _ => Err(FanoutError::ResolverFailure),
        },
    }
}

/// A lookup result seen through the view of the principal it found.
pub open spec fn lookup_view(lookup: Result<UserModel, GetUserError>) -> Result<
    UserView,
    GetUserError,
> {
    match lookup {
        Ok(user) => Ok(user@),
        Err(error) => Err(error),
    }
}

/// The subs to resolve for a change record: those that the partition key of
/// the message names. `None` when the record holds no message or its key
/// names no two participants; nothing is fanned out then.
pub fn handler(parsed_record: &Option<Message>) -> (subs: Option<(String, String)>)
    ensures
        match subs {
            Some((first, second)) => parsed_record is Some && participants_of(
                parsed_record->0@.db_item.partition_key,
            ) == Some((first@, second@)),
            None => parsed_record is None || participants_of(
                parsed_record->0@.db_item.partition_key,
            ) is None,
        },
{
    match parsed_record {
        Some(record) => participants(record.db_item.partition_key.as_str()),
        None => None,
    }
}

/// The unread counter of the chat entry that was found under a key, if one
/// was found.
pub fn unread_count(found: Option<&Vec<(String, AttributeValue)>>) -> (count: Option<u64>)
    ensures
        count == unread_of(
            match found {
                Some(item) => Some(item_view(item@)),
                None => None,
            },
        ),
{
    let item = match found {
        Some(item) => item,
        None => {
            return None;
        },
    };
    match attribute(item, "unreadMessages") {
        Some(AttributeValue::N(text)) => match parse_decimal(text.as_str()) {
            Some(count) => Some(count),
            None => Some(0),
        },
        _ => Some(0),
    }
}

/// What the chat list shows of `record`.
pub fn preview(record: &Message) -> (last: LastMessage)
    ensures
        last@ == preview_of(record@),
{
    LastMessage {
        user_name: record.user.name.clone(),
        user_sub: record.user.sub.clone(),
        timestamp: record.timestamp.clone(),
        preview: record.content.clone(),
        message_type: record.message_type,
    }
}

/// The entry that `owner` holds for the chat with `peer` once `record` is its
/// last message.
pub fn chat_entry(
    record: &Message,
    owner: &str,
    peer: &str,
    peer_info: &UserModel,
    unread: u64,
) -> (entry: ChatProjection)
    ensures
        entry@ == chat_entry_of(record@, owner@, peer@, peer_info@, unread as nat),
{
    ChatProjection {
        db_item: DatabaseItem {
            partition_key: user_partition_key(owner),
            sort_key: chat_sort_key(peer),
            entity_type: String::from_str("chat"),
            gsi1_pk: None,
            gsi1_sk: None,
            gsi2_pk: Some(user_partition_key(owner)),
            gsi2_sk: Some(chat_index_sort_key(record.timestamp.as_str())),
        },
        chat_type: ChatType::Private,
        title: peer_info.name.clone(),
        user: peer_info.clone(),
        last_message: preview(record),
        unread_messages: unread,
    }
}

/// Whether the counter that a message increments has room for one more:
/// the counter of the entry of the participant who receives the message,
/// the one whose sub is not the sender's. A message whose key names no two
/// participants increments none.
pub fn counter_fits(record: &Message, first_unread: Option<u64>, second_unread: Option<u64>) -> (fits:
    bool)
    ensures
        fits == counter_fits_of(record@, first_unread, second_unread),
{
    match participants(record.db_item.partition_key.as_str()) {
        Some((first_sub, _)) => {
            let receiver = if crate::text::str_eq(record.user.sub.as_str(), first_sub.as_str()) {
                second_unread
            } else {
                first_unread
            };
            match receiver {
                Some(count) => count < u64::MAX,
                None => true,
            }
        },
        None => true,
    }
}

/// The counter of an entry after a message.
fn count_after(existing: Option<u64>, receives: bool) -> (count: u64)
    requires
        receives ==> existing != Some(u64::MAX),
    ensures
        count as nat == unread_after(existing, receives),
{
    let before: u64 = match existing {
        Some(count) => count,
        None => 0,
    };
    if receives {
        before + 1
    } else {
        before
    }
}

/// The two chat entries to write for a stored message, from the identities
/// that were resolved for its participants and the unread counters of the
/// entries that exist already (`None` for one that does not). The counter
/// of the receiving side must have room for one more; the sending side's
/// is kept, whatever it is.
///
/// Nothing is to be written when either identity could not be resolved.
pub fn create_private_chats(
    record: &Message,
    first_user_info: &Result<UserModel, GetUserError>,
    second_user_info: &Result<UserModel, GetUserError>,
    first_unread: Option<u64>,
    second_unread: Option<u64>,
) -> (chats: Result<(ChatProjection, ChatProjection), FanoutError>)
    requires
        counter_fits_of(record@, first_unread, second_unread),
    ensures
        match chats {
            Ok((first, second)) => private_chats_of(
                record@,
                lookup_view(*first_user_info),
                lookup_view(*second_user_info),
                first_unread,
                second_unread,
            ) == Ok::<(ChatProjectionView, ChatProjectionView), FanoutError>((first@, second@)),
            Err(error) => private_chats_of(
                record@,
                lookup_view(*first_user_info),
                lookup_view(*second_user_info),
                first_unread,
                second_unread,
            ) == Err::<(ChatProjectionView, ChatProjectionView), FanoutError>(error),
        },
{
    let (first_sub, second_sub) = match participants(record.db_item.partition_key.as_str()) {
        Some(subs) => subs,
        None => {
            return Err(FanoutError::MalformedKey);
        },
    };
    let (first_info, second_info) = match (first_user_info, second_user_info) {
        (Ok(first_info), Ok(second_info)) => (first_info, second_info),
        _ => {
            return Err(FanoutError::ResolverFailure);
        },
    };
    let first_sent = crate::text::str_eq(record.user.sub.as_str(), first_sub.as_str());
    let first_item = chat_entry(
        record,
        first_sub.as_str(),
        second_sub.as_str(),
        second_info,
        count_after(first_unread, !first_sent),
    );
    let second_item = chat_entry(
        record,
        second_sub.as_str(),
        first_sub.as_str(),
        first_info,
        count_after(second_unread, first_sent),
    );
    Ok((first_item, second_item))
}

} // verus!
