use chat_infra::models::common::AttributeValue;
use chat_infra::stream::{
    batch_item_failures, fan_out_records, get_entity_type, reaction, Reaction, StreamRecord,
};

fn image(entity: Option<AttributeValue>) -> Vec<(String, AttributeValue)> {
    let mut item = vec![("partitionKey".to_string(), AttributeValue::S("p".to_string()))];
    if let Some(value) = entity {
        item.push(("entityType".to_string(), value));
    }
    item
}

fn kind(name: &str) -> Option<AttributeValue> {
    Some(AttributeValue::S(name.to_string()))
}

fn record(event: &str, number: Option<&str>, new: Option<AttributeValue>, old: Option<AttributeValue>) -> StreamRecord {
    StreamRecord {
        event_name: event.to_string(),
        sequence_number: number.map(|n| n.to_string()),
        new_image: image(new),
        old_image: image(old),
    }
}

#[test]
fn entity_type_comes_from_the_new_image_on_insert_and_update() {
    let inserted = record("INSERT", None, kind("message"), kind("old"));
    assert_eq!(get_entity_type(&inserted, "INSERT"), Some("message".to_string()));
    assert_eq!(get_entity_type(&inserted, "UPDATE"), Some("message".to_string()));
}

#[test]
fn entity_type_comes_from_the_old_image_on_remove() {
    let removed = record("REMOVE", None, kind("new"), kind("chat"));
    assert_eq!(get_entity_type(&removed, "REMOVE"), Some("chat".to_string()));
}

#[test]
fn entity_type_is_unknown_otherwise() {
    let any = record("INSERT", None, kind("message"), kind("message"));
    assert_eq!(get_entity_type(&any, "MODIFY"), None);
    assert_eq!(get_entity_type(&any, ""), None);
    let missing = record("INSERT", None, None, None);
    assert_eq!(get_entity_type(&missing, "INSERT"), None);
    let not_a_text = record("INSERT", None, Some(AttributeValue::Bool(true)), None);
    assert_eq!(get_entity_type(&not_a_text, "INSERT"), None);
}

#[test]
fn only_the_insertion_of_a_message_fans_out() {
    assert_eq!(reaction(&record("INSERT", None, kind("message"), None)), Reaction::FanOut);
    assert_eq!(reaction(&record("INSERT", None, kind("chat"), None)), Reaction::Ignore);
    assert_eq!(reaction(&record("INSERT", None, kind("connection"), None)), Reaction::Ignore);
    assert_eq!(reaction(&record("UPDATE", None, kind("message"), None)), Reaction::Ignore);
    assert_eq!(reaction(&record("REMOVE", None, None, kind("message"))), Reaction::Ignore);
    assert_eq!(reaction(&record("INSERT", None, None, None)), Reaction::Ignore);
    assert_eq!(reaction(&record("OTHER", None, kind("message"), None)), Reaction::Ignore);
}

#[test]
fn every_message_insert_of_a_batch_is_selected() {
    let records = vec![
        record("INSERT", Some("1"), kind("message"), None),
        record("INSERT", Some("2"), kind("chat"), None),
        record("REMOVE", Some("3"), None, kind("connection")),
        record("INSERT", Some("4"), kind("message"), None),
    ];
    assert_eq!(fan_out_records(&records), vec![0, 3]);
    assert_eq!(fan_out_records(&vec![]), Vec::<usize>::new());
}

#[test]
fn failures_are_reported_by_sequence_number() {
    let records = vec![
        record("INSERT", Some("100"), kind("message"), None),
        record("INSERT", None, kind("message"), None),
        record("INSERT", Some("300"), kind("message"), None),
    ];
    assert_eq!(
        batch_item_failures(&records, &vec![2, 0]),
        vec!["300".to_string(), "100".to_string()]
    );
    assert_eq!(batch_item_failures(&records, &vec![1, 7]), Vec::<String>::new());
    assert_eq!(batch_item_failures(&records, &vec![]), Vec::<String>::new());
}
