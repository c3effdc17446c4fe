//! Keys and attributes shared by every stored item, and the envelope of a
//! frame on the live channel.
use vstd::prelude::*;
use vstd::string::*;

verus! {

/// A frame on the live channel: the action it names and the data it carries.
#[derive(Debug, PartialEq, Eq)]
pub struct WebSocketEvent<T> {
    pub action: String,
    pub data: T,
}

/// What a `WebSocketEvent` holds.
pub ghost struct WebSocketEventView<V> {
    pub action: Seq<char>,
    pub data: V,
}

impl<T: View> View for WebSocketEvent<T> {
    type V = WebSocketEventView<T::V>;

    open spec fn view(&self) -> WebSocketEventView<T::V> {
        WebSocketEventView { action: self.action@, data: self.data@ }
    }
}

/// The keys every stored item carries: primary key, entity kind and the keys
/// of the two secondary indexes, where the item is listed in them.
#[derive(Debug, PartialEq, Eq)]
pub struct DatabaseItem {
    pub partition_key: String,
    pub sort_key: String,
    pub entity_type: String,
    pub gsi1_pk: Option<String>,
    pub gsi1_sk: Option<String>,
    pub gsi2_pk: Option<String>,
    pub gsi2_sk: Option<String>,
}

/// What a `DatabaseItem` holds, as sequences of characters.
pub ghost struct DatabaseItemView {
    pub partition_key: Seq<char>,
    pub sort_key: Seq<char>,
    pub entity_type: Seq<char>,
    pub gsi1_pk: Option<Seq<char>>,
    pub gsi1_sk: Option<Seq<char>>,
    pub gsi2_pk: Option<Seq<char>>,
    pub gsi2_sk: Option<Seq<char>>,
}

impl View for DatabaseItem {
    type V = DatabaseItemView;

    open spec fn view(&self) -> DatabaseItemView {
        DatabaseItemView {
            partition_key: self.partition_key@,
            sort_key: self.sort_key@,
            entity_type: self.entity_type@,
            gsi1_pk: self.gsi1_pk.deep_view(),
            gsi1_sk: self.gsi1_sk.deep_view(),
            gsi2_pk: self.gsi2_pk.deep_view(),
            gsi2_sk: self.gsi2_sk.deep_view(),
        }
    }
}

/// A copy of an optional text.
pub fn clone_text(text: &Option<String>) -> (copy: Option<String>)
    ensures
        copy.deep_view() == text.deep_view(),
{
    match text {
        Some(s) => Some(s.clone()),
        None => None,
    }
}

impl Clone for DatabaseItem {
    fn clone(&self) -> (copy: Self)
        ensures
            copy@ == self@,
    {
        DatabaseItem {
            partition_key: self.partition_key.clone(),
            sort_key: self.sort_key.clone(),
            entity_type: self.entity_type.clone(),
            gsi1_pk: clone_text(&self.gsi1_pk),
            gsi1_sk: clone_text(&self.gsi1_sk),
            gsi2_pk: clone_text(&self.gsi2_pk),
            gsi2_sk: clone_text(&self.gsi2_sk),
        }
    }
}

/// The value of one attribute of a stored item. Numbers are kept as the text
/// the store holds for them.
#[derive(Debug, PartialEq, Eq)]
pub enum AttributeValue {
    S(String),
    N(String),
    Bool(bool),
    B(Vec<u8>),
    Ss(Vec<String>),
    Ns(Vec<String>),
    Bs(Vec<Vec<u8>>),
    M(Vec<(String, AttributeValue)>),
    L(Vec<AttributeValue>),
    Null,
}

/// What an `AttributeValue` holds.
pub ghost enum AttributeView {
    S(Seq<char>),
    N(Seq<char>),
    Bool(bool),
    B(Seq<u8>),
    Ss(Seq<Seq<char>>),
    Ns(Seq<Seq<char>>),
    Bs(Seq<Seq<u8>>),
    M(Seq<(Seq<char>, AttributeView)>),
    L(Seq<AttributeView>),
    Null,
}

impl View for AttributeValue {
    type V = AttributeView;

    open spec fn view(&self) -> AttributeView
        decreases self,
    {
        match self {
            AttributeValue::S(s) => AttributeView::S(s@),
            AttributeValue::N(n) => AttributeView::N(n@),
            AttributeValue::Bool(b) => AttributeView::Bool(*b),
            AttributeValue::B(b) => AttributeView::B(b@),
            AttributeValue::Ss(v) => AttributeView::Ss(v.deep_view()),
            AttributeValue::Ns(v) => AttributeView::Ns(v.deep_view()),
            AttributeValue::Bs(v) => AttributeView::Bs(v.deep_view()),
            AttributeValue::M(m) => AttributeView::M(
                Seq::new(
                    m@.len(),
                    |i: int|
                        if 0 <= i < m@.len() {
                            (m@[i].0@, m@[i].1.view())
                        } else {
                            (Seq::empty(), AttributeView::Null)
                        },
                ),
            ),
            AttributeValue::L(l) => AttributeView::L(
                Seq::new(
                    l@.len(),
                    |i: int|
                        if 0 <= i < l@.len() {
                            l@[i].view()
                        } else {
                            AttributeView::Null
                        },
                ),
            ),
            AttributeValue::Null => AttributeView::Null,
        }
    }
}

/// The named attributes of an item, in the order they were written.
pub open spec fn item_view(item: Seq<(String, AttributeValue)>) -> Seq<(Seq<char>, AttributeView)> {
    Seq::new(item.len(), |i: int| (item[i].0@, item[i].1@))
}

/// Position of the first attribute called `name`, or the number of
/// attributes when none has that name.
pub open spec fn position_of(item: Seq<(Seq<char>, AttributeView)>, name: Seq<char>) -> int
    decreases item.len(),
{
    if item.len() == 0 || item[0].0 == name {
        0
    } else {
        1 + position_of(item.drop_first(), name)
    }
}

/// The value of the first attribute called `name`, if the item has one.
pub open spec fn attribute_of(item: Seq<(Seq<char>, AttributeView)>, name: Seq<char>) -> Option<
    AttributeView,
> {
    let at = position_of(item, name);
    if at < item.len() {
        Some(item[at].1)
    } else {
        None
    }
}

/// `position_of` is the least position that holds an attribute called `name`.
pub proof fn lemma_position(item: Seq<(Seq<char>, AttributeView)>, name: Seq<char>)
    ensures
        0 <= position_of(item, name) <= item.len(),
        forall|j: int| 0 <= j < position_of(item, name) ==> item[j].0 != name,
        position_of(item, name) < item.len() ==> item[position_of(item, name)].0 == name,
    decreases item.len(),
{
    if item.len() == 0 || item[0].0 == name {
    } else {
        let rest = item.drop_first();
        lemma_position(rest, name);
        assert forall|j: int| 0 <= j < position_of(item, name) implies item[j].0 != name by {
            if j > 0 {
                assert(rest[j - 1] == item[j]);
            }
        }
        if position_of(rest, name) < rest.len() {
            assert(rest[position_of(rest, name)] == item[position_of(rest, name) + 1]);
        }
    }
}

/// A position before which no attribute is called `name`, and which holds
/// one that is or is the end, is `position_of`.
pub proof fn lemma_position_is(item: Seq<(Seq<char>, AttributeView)>, name: Seq<char>, at: int)
    requires
        0 <= at <= item.len(),
        forall|j: int| 0 <= j < at ==> item[j].0 != name,
        at < item.len() ==> item[at].0 == name,
    ensures
        position_of(item, name) == at,
    decreases item.len(),
{
    if item.len() == 0 || item[0].0 == name {
        if at > 0 {
            assert(item[0].0 != name);
        }
    } else {
        let rest = item.drop_first();
        assert forall|j: int| 0 <= j < at - 1 implies rest[j].0 != name by {
            assert(rest[j] == item[j + 1]);
        }
        if at < item.len() {
            assert(rest[at - 1] == item[at]);
        }
        lemma_position_is(rest, name, at - 1);
    }
}

/// Whether no name occurs twice among the attributes of an item. An item
/// stands for a map from names to values, so a name has one value.
pub open spec fn unique_names(item: Seq<(Seq<char>, AttributeView)>) -> bool {
    forall|i: int, j: int| 0 <= i < j < item.len() ==> (#[trigger] item[i]).0 != (#[trigger] item[j]).0
}

/// The place of an attribute name in the order in which the items of the
/// table are written; zero for a name that no item of the table has.
pub open spec fn name_rank(name: Seq<char>) -> int {
    if name == "partitionKey"@ {
        1
    } else if name == "sortKey"@ {
        2
    } else if name == "entityType"@ {
        3
    } else if name == "gsi1PK"@ {
        4
    } else if name == "gsi1SK"@ {
        5
    } else if name == "gsi2PK"@ {
        6
    } else if name == "gsi2SK"@ {
        7
    } else if name == "timestamp"@ {
        8
    } else if name == "messageType"@ {
        9
    } else if name == "chatType"@ {
        10
    } else if name == "title"@ {
        11
    } else if name == "user"@ {
        12
    } else if name == "lastMessage"@ {
        13
    } else if name == "unreadMessages"@ {
        14
    } else if name == "content"@ {
        15
    } else if name == "connectionId"@ {
        16
    } else {
        0
    }
}

/// Whether the attributes of an item stand in the order of writing, each
/// name later in that order than the one before it, and all of them after
/// the place `low` and up to the place `high`.
pub open spec fn written_in_order(item: Seq<(Seq<char>, AttributeView)>, low: int, high: int) -> bool {
    &&& forall|i: int| 0 <= i < item.len() ==> low < name_rank((#[trigger] item[i]).0) <= high
    &&& forall|i: int, j: int|
        0 <= i < j < item.len() ==> name_rank((#[trigger] item[i]).0) < name_rank(
            (#[trigger] item[j]).0,
        )
}

/// The sixteen attribute names of the table are sixteen different names,
/// each with its own place in the order of writing.
pub proof fn lemma_name_ranks()
    ensures
        name_rank("partitionKey"@) == 1,
        name_rank("sortKey"@) == 2,
        name_rank("entityType"@) == 3,
        name_rank("gsi1PK"@) == 4,
        name_rank("gsi1SK"@) == 5,
        name_rank("gsi2PK"@) == 6,
        name_rank("gsi2SK"@) == 7,
        name_rank("timestamp"@) == 8,
        name_rank("messageType"@) == 9,
        name_rank("chatType"@) == 10,
        name_rank("title"@) == 11,
        name_rank("user"@) == 12,
        name_rank("lastMessage"@) == 13,
        name_rank("unreadMessages"@) == 14,
        name_rank("content"@) == 15,
        name_rank("connectionId"@) == 16,
{
    reveal_strlit("partitionKey");
    reveal_strlit("sortKey");
    reveal_strlit("entityType");
    reveal_strlit("gsi1PK");
    reveal_strlit("gsi1SK");
    reveal_strlit("gsi2PK");
    reveal_strlit("gsi2SK");
    reveal_strlit("timestamp");
    reveal_strlit("messageType");
    reveal_strlit("chatType");
    reveal_strlit("title");
    reveal_strlit("user");
    reveal_strlit("lastMessage");
    reveal_strlit("unreadMessages");
    reveal_strlit("content");
    reveal_strlit("connectionId");
    assert("partitionKey"@.len() == 12 && "sortKey"@.len() == 7 && "entityType"@.len() == 10);
    assert("gsi1PK"@.len() == 6 && "gsi1SK"@.len() == 6 && "gsi2PK"@.len() == 6);
    assert("gsi2SK"@.len() == 6 && "timestamp"@.len() == 9 && "messageType"@.len() == 11);
    assert("chatType"@.len() == 8 && "title"@.len() == 5 && "user"@.len() == 4);
    assert("lastMessage"@.len() == 11 && "unreadMessages"@.len() == 14);
    assert("content"@.len() == 7 && "connectionId"@.len() == 12);
    assert("gsi1PK"@[4] != "gsi1SK"@[4]);
    assert("gsi1PK"@[3] != "gsi2PK"@[3]);
    assert("gsi1PK"@[3] != "gsi2SK"@[3]);
    assert("gsi1SK"@[3] != "gsi2PK"@[3]);
    assert("gsi1SK"@[3] != "gsi2SK"@[3]);
    assert("gsi2PK"@[4] != "gsi2SK"@[4]);
    assert("sortKey"@[0] != "content"@[0]);
    assert("messageType"@[0] != "lastMessage"@[0]);
    assert("partitionKey"@[0] != "connectionId"@[0]);
}

/// Attributes that stand in the order of writing have different names.
pub proof fn lemma_order_is_unique(item: Seq<(Seq<char>, AttributeView)>, low: int, high: int)
    requires
        written_in_order(item, low, high),
    ensures
        unique_names(item),
{
}

/// Attributes in the order of writing, followed by attributes in that order
/// from later places, stand in the order of writing.
pub proof fn lemma_order_continues(
    first: Seq<(Seq<char>, AttributeView)>,
    then: Seq<(Seq<char>, AttributeView)>,
    low: int,
    middle: int,
    high: int,
)
    requires
        written_in_order(first, low, middle),
        written_in_order(then, middle, high),
        low <= middle <= high,
    ensures
        written_in_order(first + then, low, high),
{
    let whole = first + then;
    assert forall|i: int| 0 <= i < whole.len() implies low < name_rank((#[trigger] whole[i]).0)
        <= high by {
        if i < first.len() {
            assert(whole[i] == first[i]);
        } else {
            assert(whole[i] == then[i - first.len()]);
        }
    }
    assert forall|i: int, j: int| 0 <= i < j < whole.len() implies name_rank(
        (#[trigger] whole[i]).0,
    ) < name_rank((#[trigger] whole[j]).0) by {
        if j < first.len() {
            assert(whole[i] == first[i] && whole[j] == first[j]);
        } else if i < first.len() {
            assert(whole[i] == first[i] && whole[j] == then[j - first.len()]);
        } else {
            assert(whole[i] == then[i - first.len()] && whole[j] == then[j - first.len()]);
        }
    }
}

/// The attributes that carry the keys of an item: the primary key and the
/// entity kind, then each index key that is present.
pub open spec fn key_attributes(keys: DatabaseItemView) -> Seq<(Seq<char>, AttributeView)> {
    seq![
        ("partitionKey"@, AttributeView::S(keys.partition_key)),
        ("sortKey"@, AttributeView::S(keys.sort_key)),
        ("entityType"@, AttributeView::S(keys.entity_type)),
    ] + optional_attribute("gsi1PK"@, keys.gsi1_pk) + optional_attribute("gsi1SK"@, keys.gsi1_sk)
        + optional_attribute("gsi2PK"@, keys.gsi2_pk) + optional_attribute("gsi2SK"@, keys.gsi2_sk)
}

/// One text attribute when the value is present, none otherwise.
pub open spec fn optional_attribute(name: Seq<char>, value: Option<Seq<char>>) -> Seq<
    (Seq<char>, AttributeView),
> {
    match value {
        Some(text) => seq![(name, AttributeView::S(text))],
        None => Seq::empty(),
    }
}

/// The attributes that carry the keys of an item stand in the order of
/// writing, at its first seven places, so none of their names occurs twice.
pub proof fn lemma_key_attributes_in_order(keys: DatabaseItemView)
    ensures
        written_in_order(key_attributes(keys), 0, 7),
        unique_names(key_attributes(keys)),
{
    lemma_name_ranks();
    let primary = seq![
        ("partitionKey"@, AttributeView::S(keys.partition_key)),
        ("sortKey"@, AttributeView::S(keys.sort_key)),
        ("entityType"@, AttributeView::S(keys.entity_type)),
    ];
    assert(written_in_order(primary, 0, 3));
    let first = optional_attribute("gsi1PK"@, keys.gsi1_pk);
    let second = optional_attribute("gsi1SK"@, keys.gsi1_sk);
    let third = optional_attribute("gsi2PK"@, keys.gsi2_pk);
    let fourth = optional_attribute("gsi2SK"@, keys.gsi2_sk);
    assert(written_in_order(first, 3, 4));
    assert(written_in_order(second, 4, 5));
    assert(written_in_order(third, 5, 6));
    assert(written_in_order(fourth, 6, 7));
    lemma_order_continues(primary, first, 0, 3, 4);
    lemma_order_continues(primary + first, second, 0, 4, 5);
    lemma_order_continues(primary + first + second, third, 0, 5, 6);
    lemma_order_continues(primary + first + second + third, fourth, 0, 6, 7);
    lemma_order_is_unique(key_attributes(keys), 0, 7);
}

/// Whether no name occurs twice among the attributes of `item`.
pub fn has_unique_names(item: &Vec<(String, AttributeValue)>) -> (unique: bool)
    ensures
        unique == unique_names(item_view(item@)),
{
    let mut j: usize = 0;
    while j < item.len()
        invariant
            j <= item.len(),
            forall|a: int, b: int|
                0 <= a < b < j ==> (#[trigger] item_view(item@)[a]).0 != (#[trigger] item_view(
                    item@,
                )[b]).0,
        decreases item.len() - j,
    {
        let at = position(item, item[j].0.as_str());
        proof {
            lemma_position(item_view(item@), item@[j as int].0@);
            assert(item_view(item@)[j as int].0 == item@[j as int].0@);
        }
        if at < j {
            assert(item_view(item@)[at as int].0 == item_view(item@)[j as int].0);
            return false;
        }
        j = j + 1;
    }
    true
}

/// A text attribute called `name`.
pub fn text_attribute(name: &str, value: &str) -> (entry: (String, AttributeValue))
    ensures
        entry.0@ == name@,
        entry.1@ == AttributeView::S(value@),
{
    (String::from_str(name), AttributeValue::S(String::from_str(value)))
}

/// Appends the text attribute `name` to `item` when `value` is present.
pub fn push_optional(item: &mut Vec<(String, AttributeValue)>, name: &str, value: &Option<String>)
    ensures
        item_view(final(item)@) == item_view(old(item)@) + optional_attribute(
            name@,
            value.deep_view(),
        ),
{
    match value {
        Some(text) => {
            let entry = text_attribute(name, text.as_str());
            item.push(entry);
            assert(item_view(item@) =~= item_view(old(item)@) + seq![
                (name@, AttributeView::S(text@)),
            ]);
        },
        None => {
            assert(item_view(item@) =~= item_view(old(item)@) + Seq::empty());
        },
    }
}

/// Position of the first attribute of `item` called `name`, or the number
/// of attributes when none has that name.
pub fn position(item: &Vec<(String, AttributeValue)>, name: &str) -> (at: usize)
    ensures
        at == position_of(item_view(item@), name@),
        at <= item.len(),
{
    let mut i: usize = 0;
    while i < item.len() && !crate::text::str_eq(item[i].0.as_str(), name)
        invariant
            i <= item.len(),
            forall|j: int| 0 <= j < i ==> item_view(item@)[j].0 != name@,
        decreases item.len() - i,
    {
        i = i + 1;
    }
    proof {
        lemma_position_is(item_view(item@), name@, i as int);
    }
    i
}

/// The first attribute of `item` called `name`.
pub fn attribute<'a>(item: &'a Vec<(String, AttributeValue)>, name: &str) -> (found: Option<
    &'a AttributeValue,
>)
    ensures
        match found {
            Some(value) => attribute_of(item_view(item@), name@) == Some(value@),
            None => attribute_of(item_view(item@), name@) is None,
        },
{
    let at = position(item, name);
    if at < item.len() {
        Some(&item[at].1)
    } else {
        None
    }
}

impl DatabaseItem {
    /// The attributes that carry these keys.
    pub fn to_item(&self) -> (item: Vec<(String, AttributeValue)>)
        ensures
            item_view(item@) == key_attributes(self@),
            unique_names(item_view(item@)),
    {
        proof {
            lemma_key_attributes_in_order(self@);
        }
        let mut item: Vec<(String, AttributeValue)> = Vec::new();
        item.push(text_attribute("partitionKey", self.partition_key.as_str()));
        item.push(text_attribute("sortKey", self.sort_key.as_str()));
        item.push(text_attribute("entityType", self.entity_type.as_str()));
        assert(item_view(item@) =~= seq![
            ("partitionKey"@, AttributeView::S(self.partition_key@)),
            ("sortKey"@, AttributeView::S(self.sort_key@)),
            ("entityType"@, AttributeView::S(self.entity_type@)),
        ]);
        push_optional(&mut item, "gsi1PK", &self.gsi1_pk);
        push_optional(&mut item, "gsi1SK", &self.gsi1_sk);
        push_optional(&mut item, "gsi2PK", &self.gsi2_pk);
        push_optional(&mut item, "gsi2SK", &self.gsi2_sk);
        item
    }
}

} // verus!
