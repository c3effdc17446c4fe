//! The request/response endpoints: marking a chat as read, listing chats
//! and messages, and looking a user up.
//!
//! Each endpoint first says what to ask of the store or the directory, or
//! why the request ends at once, and then answers from what came back.
use crate::keys::{
    chat_peer,
    chat_peer_of,
    message_partition_key,
    pair_key_of,
    user_key_of,
    user_partition_key,
};
use crate::models::common::{AttributeValue, AttributeView, attribute_of};
use crate::models::user::User;
use crate::store::{
    Query,
    QueryView,
    StoreError,
    Table,
    Update,
    UpdateView,
    lemma_with_attribute,
    updated,
};
use crate::text::{decimal, decimal_of};
use crate::utils::http::{ApiResponse, ApiResponseView, HttpResponse, cors_headers_of};
use crate::utils::jwt::{Jwt, claims_bytes};
use vstd::prelude::*;
use vstd::string::*;

verus! {

/// Why an endpoint did not do what it was asked.
#[derive(Debug, Clone, Copy, PartialEq, Eq, Structural)]
pub enum EndpointError {
    MissingSortKey,
    MissingToken,
    InvalidToken,
    ResourceNotFound,
    ChatsQueryFailed,
    MessagesQueryFailed,
    MissingUserSelector,
    UserNotFound,
}

impl EndpointError {
    /// The status the error is reported with: 400 for a request that lacks
    /// something, 404 for what is not there, 500 for a failure of the store.
    pub open spec fn status_of(self) -> int {
        match self {
            EndpointError::MissingSortKey => 400,
            EndpointError::MissingToken => 400,
            EndpointError::InvalidToken => 400,
            EndpointError::ResourceNotFound => 404,
            EndpointError::ChatsQueryFailed => 500,
            EndpointError::MessagesQueryFailed => 500,
            EndpointError::MissingUserSelector => 400,
            EndpointError::UserNotFound => 404,
        }
    }

    /// The message the error is reported with.
    pub open spec fn message_of(self) -> Seq<char> {
        match self {
            EndpointError::MissingSortKey => "Missing sort key in query params"@,
            EndpointError::MissingToken => "Missing authentication token"@,
            EndpointError::InvalidToken => "Invalid user token"@,
            EndpointError::ResourceNotFound => "Resource not found"@,
            EndpointError::ChatsQueryFailed => "An error ocurred while fetching the chats"@,
            EndpointError::MessagesQueryFailed => "An error happened while querying the resource"@,
            EndpointError::MissingUserSelector =>
                "You must specify either an email or sub value in the query parameters"@,
            EndpointError::UserNotFound => "User not found"@,
        }
    }

    /// The status the error is reported with.
    pub fn status(&self) -> (status: u16)
        ensures
            status as int == self.status_of(),
    {
        match self {
            EndpointError::MissingSortKey => 400,
            EndpointError::MissingToken => 400,
            EndpointError::InvalidToken => 400,
            EndpointError::ResourceNotFound => 404,
            EndpointError::ChatsQueryFailed => 500,
            EndpointError::MessagesQueryFailed => 500,
            EndpointError::MissingUserSelector => 400,
            EndpointError::UserNotFound => 404,
        }
    }

    /// The message the error is reported with.
    pub fn message(&self) -> (text: String)
        ensures
            text@ == self.message_of(),
    {
        match self {
            EndpointError::MissingSortKey => String::from_str("Missing sort key in query params"),
            EndpointError::MissingToken => String::from_str("Missing authentication token"),
            EndpointError::InvalidToken => String::from_str("Invalid user token"),
            EndpointError::ResourceNotFound => String::from_str("Resource not found"),
            EndpointError::ChatsQueryFailed => String::from_str(
                "An error ocurred while fetching the chats",
            ),
            EndpointError::MessagesQueryFailed => String::from_str(
                "An error happened while querying the resource",
            ),
            EndpointError::MissingUserSelector => String::from_str(
                "You must specify either an email or sub value in the query parameters",
            ),
            EndpointError::UserNotFound => String::from_str("User not found"),
        }
    }

    /// The response that reports the error.
    pub fn response(&self) -> (response: ApiResponse)
        ensures
            response@ == (ApiResponseView {
                status: self.status_of(),
                headers: cors_headers_of(),
                message: self.message_of(),
            }),
    {
        let text = self.message();
        HttpResponse::message(self.status(), text.as_str())
    }
}

/// The query that lists the chats of `sub`, latest first: through the
/// second index, in the user's partition, every entry that is listed by the
/// time of its last message.
pub open spec fn chats_query_of(sub: Seq<char>) -> QueryView {
    QueryView {
        index_name: Some("GSI2"@),
        partition_key: user_key_of(sub),
        sort_key_prefix: "chat-timestamp#"@,
        newest_first: true,
    }
}

/// The query that lists the messages of the chat that `sub` holds under
/// `chat_sort_key`, latest first: the partition of the two participants,
/// every item that is a message.
pub open spec fn messages_query_of(sub: Seq<char>, chat_sort_key: Seq<char>) -> QueryView {
    QueryView {
        index_name: None,
        partition_key: pair_key_of(chat_peer_of(chat_sort_key), sub),
        sort_key_prefix: "message#"@,
        newest_first: true,
    }
}

/// Who a lookup in the user directory is for.
#[derive(Debug, PartialEq, Eq)]
pub enum UserSelector {
    Email(String),
    Sub(String),
}

/// What a `UserSelector` holds.
pub ghost enum UserSelectorView {
    Email(Seq<char>),
    Sub(Seq<char>),
}

impl View for UserSelector {
    type V = UserSelectorView;

    open spec fn view(&self) -> UserSelectorView {
        match self {
            UserSelector::Email(email) => UserSelectorView::Email(email@),
            UserSelector::Sub(sub) => UserSelectorView::Sub(sub@),
        }
    }
}

/// Whether `result` is what authenticating gives when the claims of the
/// token parse to `parsed`.
pub open spec fn authenticates_as(result: Result<User, EndpointError>, parsed: Option<User>) -> bool {
    match parsed {
        Some(user) => result == Ok::<User, EndpointError>(user),
        None => result == Err::<User, EndpointError>(EndpointError::InvalidToken),
    }
}

/// The table after the chat under `key` was marked as read, or why it is
/// left as it is: the unread counter of an existing item is set to zero,
/// and a missing item is not created.
pub open spec fn marked_read(
    table: Map<(Seq<char>, Seq<char>), Seq<(Seq<char>, AttributeView)>>,
    key: (Seq<char>, Seq<char>),
) -> Result<Map<(Seq<char>, Seq<char>), Seq<(Seq<char>, AttributeView)>>, StoreError> {
    updated(table, key, "unreadMessages"@, AttributeView::N(decimal_of(0)), true)
}

/// The request that marks the chat under `key` as read: it sets the unread
/// counter to zero, on the condition that the entry exists.
pub open spec fn mark_as_read_update_of(key: (Seq<char>, Seq<char>)) -> UpdateView {
    UpdateView {
        partition_key: key.0,
        sort_key: key.1,
        attribute: "unreadMessages"@,
        value: AttributeView::N(decimal_of(0)),
        must_exist: true,
    }
}

/// The principal behind a request, from the token in its authorization
/// header, as `parse` reads the claims.
pub fn authenticate<F: Fn(&Vec<u8>) -> Option<User>>(id_token: Option<&str>, parse: F) -> (result:
    Result<User, EndpointError>)
    requires
        forall|bytes: &Vec<u8>| call_requires(parse, (bytes,)),
    ensures
        match id_token {
            None => result == Err::<User, EndpointError>(EndpointError::MissingToken),
            Some(token) => match claims_bytes(token@) {
                Some(payload) => exists|bytes: Vec<u8>, parsed: Option<User>|
                    bytes@ == payload && call_ensures(parse, (&bytes,), parsed) && authenticates_as(
                        result,
                        parsed,
                    ),
                None => result == Err::<User, EndpointError>(EndpointError::InvalidToken),
            },
        },
{
    let token = match id_token {
        Some(token) => token,
        None => {
            return Err(EndpointError::MissingToken);
        },
    };
    match Jwt::decode_payload(token, parse) {
        Ok(user) => Ok(user),
        Err(_) => Err(EndpointError::InvalidToken),
    }
}

/// The primary key of the chat entry to mark as read: the entry that
/// `user` holds under `chat_sort_key`. A request without a sort key ends
/// before anyone is authenticated.
pub fn mark_as_read_key(chat_sort_key: Option<&str>, user: &Result<User, EndpointError>) -> (key:
    Result<(String, String), EndpointError>)
    ensures
        match (chat_sort_key, *user) {
            (None, _) => key == Err::<(String, String), EndpointError>(
                EndpointError::MissingSortKey,
            ),
            (Some(_), Err(reason)) => key == Err::<(String, String), EndpointError>(reason),
            (Some(sort_key), Ok(found)) => key is Ok && key->Ok_0.0@ == user_key_of(found.sub@)
                && key->Ok_0.1@ == sort_key@,
        },
{
    let sort_key = match chat_sort_key {
        Some(key) => key,
        None => {
            return Err(EndpointError::MissingSortKey);
        },
    };
    match user {
        Ok(found) => Ok((user_partition_key(found.sub.as_str()), String::from_str(sort_key))),
        Err(reason) => Err(*reason),
    }
}

/// The request that marks the chat entry under a primary key as read.
pub fn mark_as_read_update(partition_key: &str, sort_key: &str) -> (request: Update)
    ensures
        request@ == mark_as_read_update_of((partition_key@, sort_key@)),
{
    Update {
        partition_key: String::from_str(partition_key),
        sort_key: String::from_str(sort_key),
        attribute: String::from_str("unreadMessages"),
        value: AttributeValue::N(decimal(0)),
        must_exist: true,
    }
}

/// Marks the chat entry under a primary key as read: sets its unread
/// counter to zero when the entry exists, and writes nothing when it does
/// not.
pub fn mark_as_read(table: &mut Table, partition_key: &str, sort_key: &str) -> (result: Result<
    (),
    StoreError,
>)
    ensures
        match result {
            Ok(()) => marked_read(old(table)@, (partition_key@, sort_key@)) == Ok::<
                Map<(Seq<char>, Seq<char>), Seq<(Seq<char>, AttributeView)>>,
                StoreError,
            >(final(table)@),
            Err(error) => marked_read(old(table)@, (partition_key@, sort_key@)) == Err::<
                Map<(Seq<char>, Seq<char>), Seq<(Seq<char>, AttributeView)>>,
                StoreError,
            >(error) && final(table)@ == old(table)@,
        },
{
    table.apply(mark_as_read_update(partition_key, sort_key))
}

/// The response to a request to mark a chat as read, from whether the
/// conditional write went through.
pub fn mark_as_read_response(updated: bool) -> (response: ApiResponse)
    ensures
        response@ == if updated {
            ApiResponseView {
                status: 200,
                headers: cors_headers_of(),
                message: "Succesfully updated the requested resource"@,
            }
        } else {
            ApiResponseView {
                status: 404,
                headers: cors_headers_of(),
                message: EndpointError::ResourceNotFound.message_of(),
            }
        },
{
    if updated {
        HttpResponse::message(200, "Succesfully updated the requested resource")
    } else {
        EndpointError::ResourceNotFound.response()
    }
}

/// The query that lists the chats of the user `sub`.
pub fn chats_query(sub: &str) -> (query: Query)
    ensures
        query@ == chats_query_of(sub@),
{
    Query {
        index_name: Some(String::from_str("GSI2")),
        partition_key: user_partition_key(sub),
        sort_key_prefix: String::from_str("chat-timestamp#"),
        newest_first: true,
    }
}

/// The query that lists the messages of the chat that the user `sub` holds
/// under `chat_sort_key`.
pub fn messages_query(sub: &str, chat_sort_key: &str) -> (query: Query)
    ensures
        query@ == messages_query_of(sub@, chat_sort_key@),
{
    let peer = chat_peer(chat_sort_key);
    Query {
        index_name: None,
        partition_key: message_partition_key(peer.as_str(), sub),
        sort_key_prefix: String::from_str("message#"),
        newest_first: true,
    }
}

/// Who a lookup is for: the email when one is given, else the sub. A
/// request that gives neither is refused.
pub fn user_selector(email: Option<&str>, sub: Option<&str>) -> (selector: Result<
    UserSelector,
    EndpointError,
>)
    ensures
        match selector {
            Ok(found) => found@ == match email {
                Some(address) => UserSelectorView::Email(address@),
                None => UserSelectorView::Sub(sub->0@),
            } && (email is Some || sub is Some),
            Err(error) => error == EndpointError::MissingUserSelector && email is None && sub
                is None,
        },
{
    match (email, sub) {
        (Some(address), _) => Ok(UserSelector::Email(String::from_str(address))),
        (None, Some(sub)) => Ok(UserSelector::Sub(String::from_str(sub))),
        (None, None) => Err(EndpointError::MissingUserSelector),
    }
}

/// Marking a chat as read that does not exist is reported as not found and
/// leaves the table as it is. Marking one that exists sets its unread
/// counter to the text `0`, leaves every other attribute of the entry as it
/// was, and leaves every other item of the table alone.
pub proof fn law_mark_as_read(
    table: Map<(Seq<char>, Seq<char>), Seq<(Seq<char>, AttributeView)>>,
    key: (Seq<char>, Seq<char>),
)
    ensures
        !table.contains_key(key) ==> marked_read(table, key) == Err::<
            Map<(Seq<char>, Seq<char>), Seq<(Seq<char>, AttributeView)>>,
            StoreError,
        >(StoreError::NotFound),
        table.contains_key(key) ==> marked_read(table, key) is Ok,
        table.contains_key(key) ==> attribute_of(
            marked_read(table, key)->Ok_0[key],
            "unreadMessages"@,
        ) == Some(AttributeView::N(seq!['0'])),
        table.contains_key(key) ==> forall|name: Seq<char>|
            name != "unreadMessages"@ ==> #[trigger] attribute_of(
                marked_read(table, key)->Ok_0[key],
                name,
            ) == attribute_of(table[key], name),
        table.contains_key(key) ==> forall|other: (Seq<char>, Seq<char>)|
            other != key ==> (#[trigger] marked_read(table, key)->Ok_0.contains_key(other)
                <==> table.contains_key(other)) && (table.contains_key(other) ==> marked_read(
                table,
                key,
            )->Ok_0[other] == table[other]),
{
    reveal_strlit("unreadMessages");
    reveal_strlit("partitionKey");
    reveal_strlit("sortKey");
    assert("unreadMessages"@ != "partitionKey"@) by {
        assert("unreadMessages"@[0] != "partitionKey"@[0]);
    }
    assert("unreadMessages"@ != "sortKey"@) by {
        assert("unreadMessages"@[0] != "sortKey"@[0]);
    }
    assert(decimal_of(0) =~= seq!['0']);
    if table.contains_key(key) {
        lemma_with_attribute(table[key], "unreadMessages"@, AttributeView::N(decimal_of(0)));
    }
}

} // verus!
