use chat_infra::keys::{
    chat_index_sort_key, chat_peer, chat_sort_key, connection_sort_key, message_partition_key,
    message_sort_key, participants, user_partition_key,
};

#[test]
fn partition_key_puts_greater_sub_first() {
    assert_eq!(message_partition_key("a1", "b1"), "users#b1|a1");
}

#[test]
fn partition_key_is_the_same_in_both_directions() {
    let pairs = [("a1", "b1"), ("b1", "a1"), ("x", "x"), ("", "z"), ("ab", "a"), ("é", "z")];
    for (a, b) in pairs {
        assert_eq!(message_partition_key(a, b), message_partition_key(b, a));
    }
}

#[test]
fn partition_key_orders_by_bytes() {
    assert_eq!(message_partition_key("ab", "a"), "users#ab|a");
    assert_eq!(message_partition_key("Z", "a"), "users#a|Z");
    assert_eq!(message_partition_key("é", "z"), "users#é|z");
    assert_eq!(message_partition_key("same", "same"), "users#same|same");
}

#[test]
fn partition_key_with_an_empty_sub() {
    assert_eq!(message_partition_key("", "a1"), "users#a1|");
}

#[test]
fn participants_reads_both_subs() {
    assert_eq!(
        participants("users#b1|a1"),
        Some(("b1".to_string(), "a1".to_string()))
    );
}

#[test]
fn participants_needs_a_separator() {
    assert_eq!(participants("users#b1"), None);
    assert_eq!(participants(""), None);
}

#[test]
fn participants_takes_the_first_two_pieces() {
    assert_eq!(
        participants("users#c|b|a"),
        Some(("c".to_string(), "b".to_string()))
    );
    assert_eq!(
        participants("users#|"),
        Some((String::new(), String::new()))
    );
}

#[test]
fn participants_drops_every_marker() {
    assert_eq!(
        participants("users#xusers#y|z"),
        Some(("xy".to_string(), "z".to_string()))
    );
    assert_eq!(
        participants("b1|a1"),
        Some(("b1".to_string(), "a1".to_string()))
    );
}

#[test]
fn participants_inverts_the_partition_key() {
    let key = message_partition_key("a1", "b1");
    assert_eq!(
        participants(&key),
        Some(("b1".to_string(), "a1".to_string()))
    );
}

#[test]
fn user_partition_key_prefixes_sub() {
    assert_eq!(user_partition_key("a1"), "user#a1");
    assert_eq!(user_partition_key(""), "user#");
}

#[test]
fn fixed_and_prefixed_sort_keys() {
    assert_eq!(connection_sort_key(), "connection");
    assert_eq!(message_sort_key("01D39ZY06FGSCTVN4T2V9PKHFZ"), "message#01D39ZY06FGSCTVN4T2V9PKHFZ");
    assert_eq!(chat_sort_key("b1"), "chat@user#b1");
    assert_eq!(
        chat_index_sort_key("2018-01-26T18:30:09.453Z"),
        "chat-timestamp#2018-01-26T18:30:09.453Z"
    );
}

#[test]
fn chat_peer_strips_the_marker() {
    assert_eq!(chat_peer("chat@user#b1"), "b1");
    assert_eq!(chat_peer("b1"), "b1");
    assert_eq!(chat_peer(&chat_sort_key("a1")), "a1");
}
