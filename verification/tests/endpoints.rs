use chat_infra::endpoints::{
    authenticate, chats_query, mark_as_read, mark_as_read_key, mark_as_read_response,
    messages_query, user_selector, EndpointError, UserSelector,
};
use chat_infra::models::common::{attribute, AttributeValue};
use chat_infra::models::user::User;
use chat_infra::store::{Query, StoreError, Table};
use chat_infra::utils::http::{ApiResponse, HttpResponse, ProxyResponse};

const CLAIMS: &str = "eyJzdWIiOiJhMSIsIm5hbWUiOiJBZGEiLCJlbWFpbCI6ImFkYUBleGFtcGxlLmNvbSJ9";

fn ada() -> User {
    User {
        sub: "a1".to_string(),
        name: "Ada".to_string(),
        email: "ada@example.com".to_string(),
    }
}

fn always_ada(_bytes: &Vec<u8>) -> Option<User> {
    Some(ada())
}

fn never(_bytes: &Vec<u8>) -> Option<User> {
    None
}

fn cors() -> Vec<(String, String)> {
    vec![
        ("Access-Control-Allow-Headers".to_string(), "Content-Type".to_string()),
        ("Access-Control-Allow-Origin".to_string(), "*".to_string()),
        ("Access-Control-Allow-Methods".to_string(), "*".to_string()),
    ]
}

fn s(value: &str) -> AttributeValue {
    AttributeValue::S(value.to_string())
}

fn chat_row(unread: &str) -> Vec<(String, AttributeValue)> {
    vec![
        ("partitionKey".to_string(), s("user#a1")),
        ("sortKey".to_string(), s("chat@user#b1")),
        ("entityType".to_string(), s("chat")),
        ("title".to_string(), s("Bob")),
        ("unreadMessages".to_string(), AttributeValue::N(unread.to_string())),
        ("chatType".to_string(), s("private")),
    ]
}

#[test]
fn success_response_is_200_with_cors_headers() {
    assert_eq!(
        HttpResponse::build_success_response(),
        ProxyResponse {
            status_code: 200,
            headers: cors(),
            multi_value_headers: vec![
                ("Access-Control-Allow-Headers".to_string(), vec!["Content-Type".to_string()]),
                ("Access-Control-Allow-Origin".to_string(), vec!["*".to_string()]),
                ("Access-Control-Allow-Methods".to_string(), vec!["*".to_string()]),
            ],
            body: None,
            is_base64_encoded: false,
        }
    );
    assert_eq!(HttpResponse::cors_headers(), cors());
}

#[test]
fn message_response_carries_status_and_text() {
    assert_eq!(
        HttpResponse::message(418, "teapot"),
        ApiResponse { status: 418, headers: cors(), message: "teapot".to_string() }
    );
}

#[test]
fn every_error_has_its_status_and_message() {
    let table = [
        (EndpointError::MissingSortKey, 400, "Missing sort key in query params"),
        (EndpointError::MissingToken, 400, "Missing authentication token"),
        (EndpointError::InvalidToken, 400, "Invalid user token"),
        (EndpointError::ResourceNotFound, 404, "Resource not found"),
        (EndpointError::ChatsQueryFailed, 500, "An error ocurred while fetching the chats"),
        (EndpointError::MessagesQueryFailed, 500, "An error happened while querying the resource"),
        (
            EndpointError::MissingUserSelector,
            400,
            "You must specify either an email or sub value in the query parameters",
        ),
        (EndpointError::UserNotFound, 404, "User not found"),
    ];
    for (error, status, message) in table {
        assert_eq!(error.status(), status);
        assert_eq!(error.message(), message);
        assert_eq!(
            error.response(),
            ApiResponse { status, headers: cors(), message: message.to_string() }
        );
    }
}

#[test]
fn authenticate_needs_a_token_that_reads() {
    assert_eq!(authenticate(None, always_ada), Err(EndpointError::MissingToken));
    assert_eq!(authenticate(Some("nodots"), always_ada), Err(EndpointError::InvalidToken));
    assert_eq!(authenticate(Some("h.!!.s"), always_ada), Err(EndpointError::InvalidToken));
    let token = format!("h.{}.s", CLAIMS);
    assert_eq!(authenticate(Some(&token), never), Err(EndpointError::InvalidToken));
    assert_eq!(authenticate(Some(&token), always_ada), Ok(ada()));
}

#[test]
fn mark_as_read_key_checks_the_sort_key_first() {
    assert_eq!(
        mark_as_read_key(None, &Err(EndpointError::MissingToken)),
        Err(EndpointError::MissingSortKey)
    );
    assert_eq!(mark_as_read_key(None, &Ok(ada())), Err(EndpointError::MissingSortKey));
    assert_eq!(
        mark_as_read_key(Some("chat@user#b1"), &Err(EndpointError::MissingToken)),
        Err(EndpointError::MissingToken)
    );
    assert_eq!(
        mark_as_read_key(Some("chat@user#b1"), &Err(EndpointError::InvalidToken)),
        Err(EndpointError::InvalidToken)
    );
    assert_eq!(
        mark_as_read_key(Some("chat@user#b1"), &Ok(ada())),
        Ok(("user#a1".to_string(), "chat@user#b1".to_string()))
    );
}

#[test]
fn mark_as_read_of_a_missing_chat_is_not_found_and_writes_nothing() {
    let mut table = Table::new();
    table.put(chat_row("3")).unwrap();
    assert_eq!(
        mark_as_read(&mut table, "user#a1", "chat@user#zz"),
        Err(StoreError::NotFound)
    );
    assert_eq!(table.get("user#a1", "chat@user#zz"), None);
    assert_eq!(table.get("user#a1", "chat@user#b1"), Some(&chat_row("3")));
    assert_eq!(
        mark_as_read_response(false),
        ApiResponse { status: 404, headers: cors(), message: "Resource not found".to_string() }
    );
}

#[test]
fn mark_as_read_sets_the_counter_to_zero_and_nothing_else() {
    let mut table = Table::new();
    table.put(chat_row("3")).unwrap();
    assert_eq!(mark_as_read(&mut table, "user#a1", "chat@user#b1"), Ok(()));
    assert_eq!(table.get("user#a1", "chat@user#b1"), Some(&chat_row("0")));
    let stored = table.get("user#a1", "chat@user#b1").unwrap();
    assert_eq!(
        attribute(stored, "unreadMessages"),
        Some(&AttributeValue::N("0".to_string()))
    );
    assert_eq!(mark_as_read(&mut table, "user#a1", "chat@user#b1"), Ok(()));
    assert_eq!(table.get("user#a1", "chat@user#b1"), Some(&chat_row("0")));
    assert_eq!(
        mark_as_read_response(true),
        ApiResponse {
            status: 200,
            headers: cors(),
            message: "Succesfully updated the requested resource".to_string()
        }
    );
}

#[test]
fn chats_are_listed_through_the_second_index_latest_first() {
    assert_eq!(
        chats_query("a1"),
        Query {
            index_name: Some("GSI2".to_string()),
            partition_key: "user#a1".to_string(),
            sort_key_prefix: "chat-timestamp#".to_string(),
            newest_first: true,
        }
    );
}

#[test]
fn messages_are_listed_from_the_partition_of_both_participants() {
    let expected = Query {
        index_name: None,
        partition_key: "users#b1|a1".to_string(),
        sort_key_prefix: "message#".to_string(),
        newest_first: true,
    };
    assert_eq!(messages_query("a1", "chat@user#b1"), expected);
    assert_eq!(messages_query("b1", "chat@user#a1"), expected);
}

#[test]
fn user_selector_prefers_the_email() {
    assert_eq!(
        user_selector(Some("ada@example.com"), Some("a1")),
        Ok(UserSelector::Email("ada@example.com".to_string()))
    );
    assert_eq!(
        user_selector(Some("ada@example.com"), None),
        Ok(UserSelector::Email("ada@example.com".to_string()))
    );
    assert_eq!(user_selector(None, Some("a1")), Ok(UserSelector::Sub("a1".to_string())));
    assert_eq!(user_selector(None, None), Err(EndpointError::MissingUserSelector));
}

#[test]
fn update_request_for_mark_as_read() {
    assert_eq!(
        chat_infra::endpoints::mark_as_read_update("user#a1", "chat@user#b1"),
        chat_infra::store::Update {
            partition_key: "user#a1".to_string(),
            sort_key: "chat@user#b1".to_string(),
            attribute: "unreadMessages".to_string(),
            value: AttributeValue::N("0".to_string()),
            must_exist: true,
        }
    );
}
