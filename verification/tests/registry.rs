use chat_infra::models::common::{AttributeValue, DatabaseItem};
use chat_infra::registry::{
    channel, connection_key_of, lookup, register, unregister, Connection,
};
use chat_infra::store::Table;

fn s(value: &str) -> AttributeValue {
    AttributeValue::S(value.to_string())
}

fn connection_item(sub: &str, channel_id: &str) -> Vec<(String, AttributeValue)> {
    vec![
        ("partitionKey".to_string(), s(&format!("user#{}", sub))),
        ("sortKey".to_string(), s("connection")),
        ("entityType".to_string(), s("connection")),
        ("gsi1PK".to_string(), s("connection")),
        ("gsi1SK".to_string(), s(&format!("user#{}", sub))),
        ("connectionId".to_string(), s(channel_id)),
    ]
}

#[test]
fn connection_is_keyed_by_the_sub_alone() {
    let connection = Connection::new("a1", "c-1");
    assert_eq!(
        connection,
        Connection {
            db_item: DatabaseItem {
                partition_key: "user#a1".to_string(),
                sort_key: "connection".to_string(),
                entity_type: "connection".to_string(),
                gsi1_pk: Some("connection".to_string()),
                gsi1_sk: Some("user#a1".to_string()),
                gsi2_pk: None,
                gsi2_sk: None,
            },
            connection_id: "c-1".to_string(),
        }
    );
    assert_eq!(connection.to_item(), connection_item("a1", "c-1"));
    assert_eq!(
        connection_key_of("a1"),
        ("user#a1".to_string(), "connection".to_string())
    );
}

#[test]
fn lookup_of_an_unknown_user_is_offline() {
    let table = Table::new();
    assert_eq!(lookup(&table, "a1"), None);
}

#[test]
fn register_then_lookup() {
    let mut table = Table::new();
    register(&mut table, "a1", "c-1");
    assert_eq!(lookup(&table, "a1"), Some("c-1".to_string()));
    assert_eq!(lookup(&table, "b1"), None);
    assert_eq!(table.get("user#a1", "connection"), Some(&connection_item("a1", "c-1")));
}

#[test]
fn registering_twice_leaves_one_row_bound_to_the_latest_channel() {
    let mut twice = Table::new();
    register(&mut twice, "b1", "other");
    register(&mut twice, "a1", "c-1");
    register(&mut twice, "a1", "c-2");
    assert_eq!(lookup(&twice, "a1"), Some("c-2".to_string()));
    assert_eq!(twice.get("user#a1", "connection"), Some(&connection_item("a1", "c-2")));
    assert_eq!(lookup(&twice, "b1"), Some("other".to_string()));
    twice.delete("user#a1", "connection");
    assert_eq!(twice.get("user#a1", "connection"), None);
    assert_eq!(lookup(&twice, "a1"), None);
}

#[test]
fn registering_the_same_channel_again_changes_nothing() {
    let mut table = Table::new();
    register(&mut table, "a1", "c-1");
    register(&mut table, "a1", "c-1");
    assert_eq!(table.get("user#a1", "connection"), Some(&connection_item("a1", "c-1")));
}

#[test]
fn unregister_makes_offline_and_tolerates_absence() {
    let mut table = Table::new();
    unregister(&mut table, "a1");
    assert_eq!(lookup(&table, "a1"), None);
    register(&mut table, "a1", "c-1");
    register(&mut table, "b1", "c-2");
    unregister(&mut table, "a1");
    assert_eq!(lookup(&table, "a1"), None);
    assert_eq!(lookup(&table, "b1"), Some("c-2".to_string()));
}

#[test]
fn channel_of_items_that_are_no_proper_connection() {
    assert_eq!(channel(None), None);
    let without = vec![("partitionKey".to_string(), s("user#a1"))];
    assert_eq!(channel(Some(&without)), None);
    let not_a_text = vec![("connectionId".to_string(), AttributeValue::N("7".to_string()))];
    assert_eq!(channel(Some(&not_a_text)), Some(String::new()));
    let proper = connection_item("a1", "c-9");
    assert_eq!(channel(Some(&proper)), Some("c-9".to_string()));
}

#[test]
fn closing_a_channel_names_the_connection_to_delete() {
    let ada = chat_infra::models::user::User {
        sub: "a1".to_string(),
        name: "Ada".to_string(),
        email: "ada@example.com".to_string(),
    };
    assert_eq!(
        chat_infra::registry::closing(&Some(ada)),
        Some(("user#a1".to_string(), "connection".to_string()))
    );
    assert_eq!(chat_infra::registry::closing(&None), None);
}
