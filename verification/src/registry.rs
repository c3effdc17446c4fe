//! The connection registry: which channel, if any, reaches a user right now.
//!
//! A user has at most one connection item, under a key that depends on
//! their sub alone. Registering writes it without asking what was there, so
//! the last registration wins; a user without one is offline.
use crate::keys::{connection_key, connection_sort_key, user_key_of, user_partition_key};
use crate::models::common::{
    AttributeValue,
    AttributeView,
    DatabaseItem,
    DatabaseItemView,
    attribute,
    attribute_of,
    item_view,
    key_attributes,
    lemma_key_attributes_in_order,
    lemma_name_ranks,
    lemma_order_continues,
    lemma_order_is_unique,
    text_attribute,
    unique_names,
    written_in_order,
};
use crate::store::{Table, key_of, lemma_keyed_item};
use crate::models::user::User;
use vstd::prelude::*;
use vstd::string::*;

verus! {

/// The item that binds a user to their live channel.
#[derive(Debug, PartialEq, Eq)]
pub struct Connection {
    pub db_item: DatabaseItem,
    pub connection_id: String,
}

/// What a `Connection` holds.
pub ghost struct ConnectionView {
    pub db_item: DatabaseItemView,
    pub connection_id: Seq<char>,
}

impl View for Connection {
    type V = ConnectionView;

    open spec fn view(&self) -> ConnectionView {
        ConnectionView { db_item: self.db_item@, connection_id: self.connection_id@ }
    }
}

/// The connection item of the user `sub` on the channel `channel_id`: in
/// the user's partition, and listed among all connections by the first index.
pub open spec fn connection_of(sub: Seq<char>, channel_id: Seq<char>) -> ConnectionView {
    ConnectionView {
        db_item: DatabaseItemView {
            partition_key: user_key_of(sub),
            sort_key: connection_key(),
            entity_type: "connection"@,
            gsi1_pk: Some("connection"@),
            gsi1_sk: Some(user_key_of(sub)),
            gsi2_pk: None,
            gsi2_sk: None,
        },
        connection_id: channel_id,
    }
}

/// The attributes under which a connection is stored.
pub open spec fn connection_item(connection: ConnectionView) -> Seq<(Seq<char>, AttributeView)> {
    key_attributes(connection.db_item) + seq![
        ("connectionId"@, AttributeView::S(connection.connection_id)),
    ]
}

/// The channel that a connection item names. An item without a channel
/// names none; a channel that is not a text counts as the empty channel.
pub open spec fn channel_of(item: Option<Seq<(Seq<char>, AttributeView)>>) -> Option<Seq<char>> {
    match item {
        None => None,
        Some(attributes) => match attribute_of(attributes, "connectionId"@) {
            None => None,
            Some(AttributeView::S(channel_id)) => Some(channel_id),
            Some(_) => Some(Seq::empty()),
        },
    }
}

/// The primary key of the connection item of `sub`.
pub open spec fn registry_key(sub: Seq<char>) -> (Seq<char>, Seq<char>) {
    (user_key_of(sub), connection_key())
}

/// The table after `sub` registered on `channel_id`.
pub open spec fn registered(
    table: Map<(Seq<char>, Seq<char>), Seq<(Seq<char>, AttributeView)>>,
    sub: Seq<char>,
    channel_id: Seq<char>,
) -> Map<(Seq<char>, Seq<char>), Seq<(Seq<char>, AttributeView)>> {
    table.insert(registry_key(sub), connection_item(connection_of(sub, channel_id)))
}

/// The channel registered for `sub` in a table, if any.
pub open spec fn channel_in(
    table: Map<(Seq<char>, Seq<char>), Seq<(Seq<char>, AttributeView)>>,
    sub: Seq<char>,
) -> Option<Seq<char>> {
    channel_of(
        if table.contains_key(registry_key(sub)) {
            Some(table[registry_key(sub)])
        } else {
            None
        },
    )
}

/// No attribute name occurs twice in a stored connection.
pub proof fn lemma_connection_item_unique(connection: ConnectionView)
    ensures
        unique_names(connection_item(connection)),
{
    lemma_name_ranks();
    lemma_key_attributes_in_order(connection.db_item);
    let rest = seq![("connectionId"@, AttributeView::S(connection.connection_id))];
    assert(written_in_order(rest, 7, 16));
    lemma_order_continues(key_attributes(connection.db_item), rest, 0, 7, 16);
    lemma_order_is_unique(connection_item(connection), 0, 16);
}

impl Connection {
    /// The connection item of the user `sub` on the channel `channel_id`.
    pub fn new(sub: &str, channel_id: &str) -> (connection: Connection)
        ensures
            connection@ == connection_of(sub@, channel_id@),
    {
        Connection {
            db_item: DatabaseItem {
                partition_key: user_partition_key(sub),
                sort_key: connection_sort_key(),
                entity_type: String::from_str("connection"),
                gsi1_pk: Some(String::from_str("connection")),
                gsi1_sk: Some(user_partition_key(sub)),
                gsi2_pk: None,
                gsi2_sk: None,
            },
            connection_id: String::from_str(channel_id),
        }
    }

    /// The attributes under which this connection is stored.
    pub fn to_item(&self) -> (item: Vec<(String, AttributeValue)>)
        ensures
            item_view(item@) == connection_item(self@),
            unique_names(item_view(item@)),
    {
        proof {
            lemma_connection_item_unique(self@);
        }
        let mut item = self.db_item.to_item();
        let ghost keys = item_view(item@);
        item.push(text_attribute("connectionId", self.connection_id.as_str()));
        assert(item_view(item@) =~= keys + seq![
            ("connectionId"@, AttributeView::S(self.connection_id@)),
        ]);
        item
    }
}

/// The primary key of the connection item of `sub`: what to read to find
/// their channel, and what to delete when they leave.
pub fn connection_key_of(sub: &str) -> (key: (String, String))
    ensures
        (key.0@, key.1@) == registry_key(sub@),
{
    (user_partition_key(sub), connection_sort_key())
}

/// The connection item to delete when a channel closes: that of the
/// principal behind the channel. A channel without a principal leaves
/// nothing to delete.
pub fn closing(principal: &Option<User>) -> (key: Option<(String, String)>)
    ensures
        match key {
            Some((partition_key, sort_key)) => principal is Some && (partition_key@, sort_key@)
                == registry_key(principal->0.sub@),
            None => principal is None,
        },
{
    match principal {
        Some(user) => Some(connection_key_of(user.sub.as_str())),
        None => None,
    }
}

/// The channel that a connection item names, if one was found.
pub fn channel(found: Option<&Vec<(String, AttributeValue)>>) -> (channel_id: Option<String>)
    ensures
        channel_id.deep_view() == channel_of(
            match found {
                Some(item) => Some(item_view(item@)),
                None => None,
            },
        ),
{
    let item = match found {
        Some(item) => item,
        None => {
            return None;
        },
    };
    match attribute(item, "connectionId") {
        None => None,
        Some(AttributeValue::S(channel_id)) => Some(channel_id.clone()),
        Some(_) => Some(String::new()),
    }
}

/// Binds `sub` to `channel_id`, whatever they were bound to before.
pub fn register(table: &mut Table, sub: &str, channel_id: &str)
    ensures
        final(table)@ == registered(old(table)@, sub@, channel_id@),
{
    let connection = Connection::new(sub, channel_id);
    let item = connection.to_item();
    proof {
        lemma_keyed_item(
            connection@.db_item,
            seq![("connectionId"@, AttributeView::S(connection@.connection_id))],
        );
    }
    let written = table.put(item);
    assert(written is Ok);
}

/// Forgets the channel of `sub`. A user who has none stays without one.
pub fn unregister(table: &mut Table, sub: &str)
    ensures
        final(table)@ == old(table)@.remove(registry_key(sub@)),
{
    let key = connection_key_of(sub);
    table.delete(key.0.as_str(), key.1.as_str());
}

/// The channel that reaches `sub`; `None` when they are offline.
pub fn lookup(table: &Table, sub: &str) -> (channel_id: Option<String>)
    ensures
        channel_id.deep_view() == channel_in(table@, sub@),
{
    let key = connection_key_of(sub);
    channel(table.get(key.0.as_str(), key.1.as_str()))
}

/// A registered connection names the channel it was registered with.
pub proof fn lemma_registered_channel(sub: Seq<char>, channel_id: Seq<char>)
    ensures
        channel_of(Some(connection_item(connection_of(sub, channel_id)))) == Some(channel_id),
        key_of(connection_item(connection_of(sub, channel_id))) == Some(registry_key(sub)),
{
    let connection = connection_of(sub, channel_id);
    let item = connection_item(connection);
    lemma_keyed_item(connection.db_item, seq![("connectionId"@, AttributeView::S(channel_id))]);
    reveal_strlit("partitionKey");
    reveal_strlit("sortKey");
    reveal_strlit("entityType");
    reveal_strlit("gsi1PK");
    reveal_strlit("gsi1SK");
    reveal_strlit("connectionId");
    assert("partitionKey"@ != "connectionId"@) by {
        assert("partitionKey"@[0] != "connectionId"@[0]);
    }
    assert("sortKey"@ != "connectionId"@) by {
        assert("sortKey"@[0] != "connectionId"@[0]);
    }
    assert("entityType"@ != "connectionId"@) by {
        assert("entityType"@[0] != "connectionId"@[0]);
    }
    assert("gsi1PK"@ != "connectionId"@) by {
        assert("gsi1PK"@[0] != "connectionId"@[0]);
    }
    assert("gsi1SK"@ != "connectionId"@) by {
        assert("gsi1SK"@[0] != "connectionId"@[0]);
    }
    assert(item.len() == 6);
    assert(item[5] == ("connectionId"@, AttributeView::S(channel_id)));
    crate::models::common::lemma_position_is(item, "connectionId"@, 5);
}

/// Registering the same user twice, on any two channels, leaves what
/// registering on the second channel alone would have left: one connection
/// item for the user, under the one key that their sub names, bound to the
/// channel that registered last.
pub proof fn law_last_registration_wins(
    table: Map<(Seq<char>, Seq<char>), Seq<(Seq<char>, AttributeView)>>,
    sub: Seq<char>,
    first_channel: Seq<char>,
    second_channel: Seq<char>,
)
    ensures
        registered(registered(table, sub, first_channel), sub, second_channel) == registered(
            table,
            sub,
            second_channel,
        ),
        channel_in(registered(registered(table, sub, first_channel), sub, second_channel), sub)
            == Some(second_channel),
        forall|key: (Seq<char>, Seq<char>)|
            key != registry_key(sub) ==> (#[trigger] registered(
                registered(table, sub, first_channel),
                sub,
                second_channel,
            ).contains_key(key) <==> table.contains_key(key)),
{
    lemma_registered_channel(sub, second_channel);
    assert(registered(registered(table, sub, first_channel), sub, second_channel) =~= registered(
        table,
        sub,
        second_channel,
    ));
}

/// A user who unregistered is offline, whether or not they were registered.
pub proof fn law_unregistered_is_offline(
    table: Map<(Seq<char>, Seq<char>), Seq<(Seq<char>, AttributeView)>>,
    sub: Seq<char>,
)
    ensures
        channel_in(table.remove(registry_key(sub)), sub) is None,
{
}

} // verus!
