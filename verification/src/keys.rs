//! The keys under which items are stored, and how a key is read back.
//!
//! A connection and a chat entry live in their owner's partition,
//! `user#<sub>`. The messages of two users live in one partition named after
//! both, the greater sub first, so that either side finds it from its own sub
//! and the peer's.
use crate::text::{
    lemma_segments_of_pair,
    lemma_text_less_total,
    lemma_without_absent,
    lemma_without_prefix,
    remove_all,
    segment,
    segment_of,
    str_less,
    text_less,
    without,
};
use vstd::prelude::*;
use vstd::string::*;

verus! {

/// Partition of everything one user owns.
pub open spec fn user_key_of(sub: Seq<char>) -> Seq<char> {
    "user#"@ + sub
}

/// Sort key of a user's connection item.
pub open spec fn connection_key() -> Seq<char> {
    "connection"@
}

/// Partition of the messages between two users: the greater sub, by the
/// order of its bytes, stands first.
pub open spec fn pair_key_of(a: Seq<char>, b: Seq<char>) -> Seq<char> {
    if text_less(a, b) {
        "users#"@ + b + "|"@ + a
    } else {
        "users#"@ + a + "|"@ + b
    }
}

/// Sort key of the message with the given id.
pub open spec fn message_key_of(id: Seq<char>) -> Seq<char> {
    "message#"@ + id
}

/// Sort key of the chat entry that a user holds for the peer `sub`.
pub open spec fn chat_key_of(sub: Seq<char>) -> Seq<char> {
    "chat@user#"@ + sub
}

/// Index sort key that lists a chat entry by the time of its last message.
pub open spec fn chat_index_key_of(timestamp: Seq<char>) -> Seq<char> {
    "chat-timestamp#"@ + timestamp
}

/// The two subs named by a message partition key: the key without its
/// `users#` marker, cut at `|`; the first two pieces, in their order. `None`
/// when the key holds no `|`.
pub open spec fn participants_of(key: Seq<char>) -> Option<(Seq<char>, Seq<char>)> {
    let subs = without(key, "users#"@);
    match (segment_of(subs, '|', 0), segment_of(subs, '|', 1)) {
        (Some(first), Some(second)) => Some((first, second)),
        _ => None,
    }
}

/// The peer named by a chat sort key: the key without its `chat@user#` marker.
pub open spec fn chat_peer_of(sort_key: Seq<char>) -> Seq<char> {
    without(sort_key, "chat@user#"@)
}

/// Partition of everything the user `sub` owns.
pub fn user_partition_key(sub: &str) -> (key: String)
    ensures
        key@ == user_key_of(sub@),
{
    let mut key = String::from_str("user#");
    key.append(sub);
    key
}

/// Sort key of a user's connection item.
pub fn connection_sort_key() -> (key: String)
    ensures
        key@ == connection_key(),
{
    String::from_str("connection")
}

/// Partition of the messages between `a` and `b`, whichever of them sends.
pub fn message_partition_key(a: &str, b: &str) -> (key: String)
    ensures
        key@ == pair_key_of(a@, b@),
{
    let swap = str_less(a, b);
    let mut key = String::from_str("users#");
    if swap {
        key.append(b);
        key.append("|");
        key.append(a);
        assert(key@ =~= "users#"@ + b@ + "|"@ + a@);
    } else {
        key.append(a);
        key.append("|");
        key.append(b);
        assert(key@ =~= "users#"@ + a@ + "|"@ + b@);
    }
    key
}

/// Sort key of the message with the given id.
pub fn message_sort_key(id: &str) -> (key: String)
    ensures
        key@ == message_key_of(id@),
{
    let mut key = String::from_str("message#");
    key.append(id);
    key
}

/// Sort key of the chat entry that a user holds for the peer `sub`.
pub fn chat_sort_key(sub: &str) -> (key: String)
    ensures
        key@ == chat_key_of(sub@),
{
    let mut key = String::from_str("chat@user#");
    key.append(sub);
    key
}

/// Index sort key that lists a chat entry by the time of its last message.
pub fn chat_index_sort_key(timestamp: &str) -> (key: String)
    ensures
        key@ == chat_index_key_of(timestamp@),
{
    let mut key = String::from_str("chat-timestamp#");
    key.append(timestamp);
    key
}

/// The two subs named by a message partition key, the greater first as the
/// key holds them.
pub fn participants(key: &str) -> (subs: Option<(String, String)>)
    ensures
        match subs {
            Some((first, second)) => participants_of(key@) == Some((first@, second@)),
            None => participants_of(key@) is None,
        },
{
    let stripped = remove_all(key, "users#");
    let first = segment(stripped.as_str(), '|', 0);
    let second = segment(stripped.as_str(), '|', 1);
    match (first, second) {
        (Some(first), Some(second)) => Some((first, second)),
        _ => None,
    }
}

/// The peer named by a chat sort key.
pub fn chat_peer(sort_key: &str) -> (sub: String)
    ensures
        sub@ == chat_peer_of(sort_key@),
{
    remove_all(sort_key, "chat@user#")
}

/// The partition of the messages between two users does not depend on which
/// of them sends: both directions name the same key.
pub proof fn law_partition_key_commutes(a: Seq<char>, b: Seq<char>)
    ensures
        pair_key_of(a, b) == pair_key_of(b, a),
{
    lemma_text_less_total(a, b);
}

/// Whether a sub can be told apart from the signs of a key: it holds
/// neither the separator `|` nor the sign `#` that ends a marker.
pub open spec fn plain_sub(sub: Seq<char>) -> bool {
    forall|i: int| 0 <= i < sub.len() ==> sub[i] != '|' && sub[i] != '#'
}

/// The partition key of two plain subs is read back as the same two subs,
/// the greater first: a fan-out finds the participants that the sender's
/// side wrote.
pub proof fn law_participants_round_trip(a: Seq<char>, b: Seq<char>)
    requires
        plain_sub(a),
        plain_sub(b),
    ensures
        participants_of(pair_key_of(a, b)) == Some(
            if text_less(a, b) {
                (b, a)
            } else {
                (a, b)
            },
        ),
{
    let (first, second) = if text_less(a, b) {
        (b, a)
    } else {
        (a, b)
    };
    reveal_strlit("users#");
    reveal_strlit("|");
    let marker = "users#"@;
    let subs = first + "|"@ + second;
    assert("|"@ =~= seq!['|']);
    assert(marker[5] == '#');
    assert(pair_key_of(a, b) =~= marker + subs);
    lemma_without_prefix(subs, marker);
    assert forall|i: int| 0 <= i < subs.len() implies subs[i] != marker[5] by {
        if i < first.len() {
            assert(subs[i] == first[i]);
        } else if i == first.len() {
            assert(subs[i] == '|');
        } else {
            assert(subs[i] == second[i - first.len() - 1]);
        }
    }
    lemma_without_absent(subs, marker, 5);
    lemma_segments_of_pair(first, second, '|');
}

} // verus!
