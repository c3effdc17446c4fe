//! The table: items under a composite primary key, with unconditional and
//! conditional writes.
//!
//! `Table` holds the items in memory and says what each operation of the
//! store does to them: its view is the map from primary key to item. An item
//! is a list of named attributes; its primary key is the pair of its
//! `partitionKey` and `sortKey` attributes, which must both be texts.
//!
//! An item stands for a map from names to values. The table therefore
//! holds no item that gives a name twice: such an item is refused when it
//! is written, and setting an attribute never repeats a name.
use crate::models::common::{
    AttributeValue,
    AttributeView,
    DatabaseItemView,
    attribute,
    attribute_of,
    has_unique_names,
    item_view,
    key_attributes,
    lemma_position,
    lemma_position_is,
    position,
    position_of,
    text_attribute,
    unique_names,
};
use crate::text::{
    begins_with,
    lemma_text_less_total,
    lemma_text_less_transitive,
    starts_with,
    str_eq,
    str_less,
    text_less,
};
use vstd::prelude::*;
use vstd::string::*;

verus! {

/// Why a write was not performed.
#[derive(Debug, Clone, Copy, PartialEq, Eq, Structural)]
pub enum StoreError {
    /// The write asked for an item that does not exist.
    NotFound,
    /// The item lacks a primary key, or the write would change it.
    InvalidItem,
}

/// A request to set one attribute of the item under a primary key. With
/// `must_exist` the write is conditional on the item being there.
#[derive(Debug, PartialEq, Eq)]
pub struct Update {
    pub partition_key: String,
    pub sort_key: String,
    pub attribute: String,
    pub value: AttributeValue,
    pub must_exist: bool,
}

/// What an `Update` holds.
pub ghost struct UpdateView {
    pub partition_key: Seq<char>,
    pub sort_key: Seq<char>,
    pub attribute: Seq<char>,
    pub value: AttributeView,
    pub must_exist: bool,
}

impl View for Update {
    type V = UpdateView;

    open spec fn view(&self) -> UpdateView {
        UpdateView {
            partition_key: self.partition_key@,
            sort_key: self.sort_key@,
            attribute: self.attribute@,
            value: self.value@,
            must_exist: self.must_exist,
        }
    }
}

/// A query for the items of one partition whose sort key begins with a
/// prefix, through an index or the table itself, latest first or not.
#[derive(Debug, PartialEq, Eq)]
pub struct Query {
    pub index_name: Option<String>,
    pub partition_key: String,
    pub sort_key_prefix: String,
    pub newest_first: bool,
}

/// What a `Query` holds.
pub ghost struct QueryView {
    pub index_name: Option<Seq<char>>,
    pub partition_key: Seq<char>,
    pub sort_key_prefix: Seq<char>,
    pub newest_first: bool,
}

impl View for Query {
    type V = QueryView;

    open spec fn view(&self) -> QueryView {
        QueryView {
            index_name: self.index_name.deep_view(),
            partition_key: self.partition_key@,
            sort_key_prefix: self.sort_key_prefix@,
            newest_first: self.newest_first,
        }
    }
}

/// The attribute `name` of an item, when it is a text.
pub open spec fn text_of(item: Seq<(Seq<char>, AttributeView)>, name: Seq<char>) -> Option<
    Seq<char>,
> {
    match attribute_of(item, name) {
        Some(AttributeView::S(text)) => Some(text),
        _ => None,
    }
}

/// The names of the attributes that hold the partition and sort key under
/// an index: those of the primary key without an index, the first or the
/// second pair of index keys under `GSI1` and `GSI2`. No other index exists.
pub open spec fn key_names_of(index: Option<Seq<char>>) -> Option<(Seq<char>, Seq<char>)> {
    match index {
        None => Some(("partitionKey"@, "sortKey"@)),
        Some(name) => if name == "GSI1"@ {
            Some(("gsi1PK"@, "gsi1SK"@))
        } else if name == "GSI2"@ {
            Some(("gsi2PK"@, "gsi2SK"@))
        } else {
            None
        },
    }
}

/// The partition and sort key of an item under an index, if the item is
/// listed in it: both key attributes of the index must be texts.
pub open spec fn keys_under(item: Seq<(Seq<char>, AttributeView)>, index: Option<Seq<char>>) -> Option<
    (Seq<char>, Seq<char>),
> {
    match key_names_of(index) {
        Some((partition_name, sort_name)) => match (
            text_of(item, partition_name),
            text_of(item, sort_name),
        ) {
            (Some(partition_key), Some(sort_key)) => Some((partition_key, sort_key)),
            _ => None,
        },
        None => None,
    }
}

/// Whether a query selects an item: the item is listed under the index of
/// the query, in the partition it names, under a sort key that begins with
/// its prefix.
pub open spec fn selected(query: QueryView, item: Seq<(Seq<char>, AttributeView)>) -> bool {
    match keys_under(item, query.index_name) {
        Some((partition_key, sort_key)) => partition_key == query.partition_key && begins_with(
            sort_key,
            query.sort_key_prefix,
        ),
        None => false,
    }
}

/// The sort key of an item under an index; the empty text for an item that
/// the index does not list.
pub open spec fn sort_key_under(item: Seq<(Seq<char>, AttributeView)>, index: Option<Seq<char>>) -> Seq<
    char,
> {
    match keys_under(item, index) {
        Some((_, sort_key)) => sort_key,
        None => Seq::empty(),
    }
}

/// Whether the order of a query puts `a` strictly before `b`: by the bytes
/// of their sort keys, the greater first when the latest come first.
pub open spec fn comes_before(
    query: QueryView,
    a: Seq<(Seq<char>, AttributeView)>,
    b: Seq<(Seq<char>, AttributeView)>,
) -> bool {
    let first = sort_key_under(a, query.index_name);
    let second = sort_key_under(b, query.index_name);
    if query.newest_first {
        text_less(second, first)
    } else {
        text_less(first, second)
    }
}

/// The primary key of an item, if it has one.
pub open spec fn key_of(item: Seq<(Seq<char>, AttributeView)>) -> Option<(Seq<char>, Seq<char>)> {
    match (attribute_of(item, "partitionKey"@), attribute_of(item, "sortKey"@)) {
        (Some(AttributeView::S(partition_key)), Some(AttributeView::S(sort_key))) => Some(
            (partition_key, sort_key),
        ),
        _ => None,
    }
}

/// The item that holds nothing but a primary key.
pub open spec fn bare_item(key: (Seq<char>, Seq<char>)) -> Seq<(Seq<char>, AttributeView)> {
    seq![("partitionKey"@, AttributeView::S(key.0)), ("sortKey"@, AttributeView::S(key.1))]
}

/// `item` with the attribute `name` set to `value`: the first attribute of
/// that name is replaced in its place, and one is appended when there is none.
pub open spec fn with_attribute(
    item: Seq<(Seq<char>, AttributeView)>,
    name: Seq<char>,
    value: AttributeView,
) -> Seq<(Seq<char>, AttributeView)> {
    let at = position_of(item, name);
    if at < item.len() {
        item.update(at, (name, value))
    } else {
        item.push((name, value))
    }
}

/// Whether `name` is one of the two attributes that make the primary key.
pub open spec fn is_key_attribute(name: Seq<char>) -> bool {
    name == "partitionKey"@ || name == "sortKey"@
}

/// The table after setting one attribute of the item under `key`, or why it
/// is left as it is. The primary key cannot be set. A missing item is an
/// error when the write is conditional on its existence, and is created from
/// its key otherwise.
pub open spec fn updated(
    table: Map<(Seq<char>, Seq<char>), Seq<(Seq<char>, AttributeView)>>,
    key: (Seq<char>, Seq<char>),
    name: Seq<char>,
    value: AttributeView,
    must_exist: bool,
) -> Result<Map<(Seq<char>, Seq<char>), Seq<(Seq<char>, AttributeView)>>, StoreError> {
    if is_key_attribute(name) {
        Err(StoreError::InvalidItem)
    } else if table.contains_key(key) {
        Ok(table.insert(key, with_attribute(table[key], name, value)))
    } else if must_exist {
        Err(StoreError::NotFound)
    } else {
        Ok(table.insert(key, with_attribute(bare_item(key), name, value)))
    }
}

/// Whether an item can be written: it has a primary key, and none of its
/// attribute names occurs twice.
pub open spec fn writable(item: Seq<(Seq<char>, AttributeView)>) -> bool {
    key_of(item) is Some && unique_names(item)
}

/// Whether every item of a batch can be written.
pub open spec fn all_writable(items: Seq<Seq<(Seq<char>, AttributeView)>>) -> bool {
    forall|i: int| 0 <= i < items.len() ==> writable(#[trigger] items[i])
}

/// The table after writing the items of a batch in their order.
pub open spec fn after_batch(
    table: Map<(Seq<char>, Seq<char>), Seq<(Seq<char>, AttributeView)>>,
    items: Seq<Seq<(Seq<char>, AttributeView)>>,
) -> Map<(Seq<char>, Seq<char>), Seq<(Seq<char>, AttributeView)>>
    decreases items.len(),
{
    if items.len() == 0 {
        table
    } else {
        after_batch(table.insert(key_of(items[0])->0, items[0]), items.drop_first())
    }
}

/// The views of the items of a batch.
pub open spec fn batch_view(items: Seq<Vec<(String, AttributeValue)>>) -> Seq<
    Seq<(Seq<char>, AttributeView)>,
> {
    Seq::new(items.len(), |i: int| item_view(items[i]@))
}

/// Setting an attribute gives it the new value and leaves every attribute
/// of another name as it was.
pub proof fn lemma_with_attribute(
    item: Seq<(Seq<char>, AttributeView)>,
    name: Seq<char>,
    value: AttributeView,
)
    ensures
        attribute_of(with_attribute(item, name, value), name) == Some(value),
        forall|other: Seq<char>|
            other != name ==> #[trigger] attribute_of(with_attribute(item, name, value), other)
                == attribute_of(item, other),
{
    let at = position_of(item, name);
    let changed = with_attribute(item, name, value);
    lemma_position(item, name);
    lemma_position_is(changed, name, at);
    assert forall|other: Seq<char>| other != name implies #[trigger] attribute_of(changed, other)
        == attribute_of(item, other) by {
        let p = position_of(item, other);
        lemma_position(item, other);
        if p < item.len() {
            lemma_position_is(changed, other, p);
        } else {
            lemma_position_is(changed, other, changed.len() as int);
        }
    }
}

/// Setting an attribute that is not part of the primary key keeps the key.
pub proof fn lemma_with_attribute_keeps_key(
    item: Seq<(Seq<char>, AttributeView)>,
    name: Seq<char>,
    value: AttributeView,
)
    requires
        !is_key_attribute(name),
    ensures
        key_of(with_attribute(item, name, value)) == key_of(item),
{
    lemma_with_attribute(item, name, value);
    assert(attribute_of(with_attribute(item, name, value), "partitionKey"@) == attribute_of(
        item,
        "partitionKey"@,
    ));
    assert(attribute_of(with_attribute(item, name, value), "sortKey"@) == attribute_of(
        item,
        "sortKey"@,
    ));
}

/// Setting an attribute of an item without a repeated name repeats none.
pub proof fn lemma_with_attribute_unique(
    item: Seq<(Seq<char>, AttributeView)>,
    name: Seq<char>,
    value: AttributeView,
)
    requires
        unique_names(item),
    ensures
        unique_names(with_attribute(item, name, value)),
{
    let at = position_of(item, name);
    let changed = with_attribute(item, name, value);
    lemma_position(item, name);
    assert forall|i: int, j: int| 0 <= i < j < changed.len() implies (#[trigger] changed[i]).0
        != (#[trigger] changed[j]).0 by {
        if at < item.len() {
            assert(changed[i].0 == item[i].0 && changed[j].0 == item[j].0);
        } else if j < item.len() {
            assert(changed[i] == item[i] && changed[j] == item[j]);
        } else {
            assert(changed[i] == item[i]);
        }
    }
}

/// The primary key of the item that holds nothing else, whose two names
/// differ.
pub proof fn lemma_bare_item_key(key: (Seq<char>, Seq<char>))
    ensures
        key_of(bare_item(key)) == Some(key),
        unique_names(bare_item(key)),
{
    reveal_strlit("partitionKey");
    reveal_strlit("sortKey");
    let item = bare_item(key);
    assert("partitionKey"@ != "sortKey"@) by {
        assert("partitionKey"@[0] != "sortKey"@[0]);
    }
    lemma_position_is(item, "partitionKey"@, 0);
    lemma_position_is(item, "sortKey"@, 1);
}

/// An item that starts with the attributes of its keys is stored under the
/// primary key they name.
pub proof fn lemma_keyed_item(keys: DatabaseItemView, rest: Seq<(Seq<char>, AttributeView)>)
    ensures
        key_of(key_attributes(keys) + rest) == Some((keys.partition_key, keys.sort_key)),
{
    reveal_strlit("partitionKey");
    reveal_strlit("sortKey");
    let item = key_attributes(keys) + rest;
    assert("partitionKey"@ != "sortKey"@) by {
        assert("partitionKey"@[0] != "sortKey"@[0]);
    }
    assert(item[0] == ("partitionKey"@, AttributeView::S(keys.partition_key)));
    assert(item[1] == ("sortKey"@, AttributeView::S(keys.sort_key)));
    lemma_position_is(item, "partitionKey"@, 0);
    lemma_position_is(item, "sortKey"@, 1);
}

spec fn keyed(rows: Seq<Seq<(Seq<char>, AttributeView)>>) -> bool {
    forall|i: int| 0 <= i < rows.len() ==> (#[trigger] key_of(rows[i])) is Some
}

spec fn plain(rows: Seq<Seq<(Seq<char>, AttributeView)>>) -> bool {
    forall|i: int| 0 <= i < rows.len() ==> unique_names(#[trigger] rows[i])
}

spec fn distinct(rows: Seq<Seq<(Seq<char>, AttributeView)>>) -> bool {
    forall|i: int, j: int|
        0 <= i < j < rows.len() ==> #[trigger] key_of(rows[i]) != #[trigger] key_of(rows[j])
}

spec fn holds(rows: Seq<Seq<(Seq<char>, AttributeView)>>, key: (Seq<char>, Seq<char>)) -> bool {
    exists|i: int| 0 <= i < rows.len() && #[trigger] key_of(rows[i]) == Some(key)
}

spec fn row_at(rows: Seq<Seq<(Seq<char>, AttributeView)>>, key: (Seq<char>, Seq<char>)) -> int {
    choose|i: int| 0 <= i < rows.len() && #[trigger] key_of(rows[i]) == Some(key)
}

spec fn table_of(rows: Seq<Seq<(Seq<char>, AttributeView)>>) -> Map<
    (Seq<char>, Seq<char>),
    Seq<(Seq<char>, AttributeView)>,
> {
    Map::new(
        |key: (Seq<char>, Seq<char>)| holds(rows, key),
        |key: (Seq<char>, Seq<char>)| rows[row_at(rows, key)],
    )
}

proof fn lemma_row(rows: Seq<Seq<(Seq<char>, AttributeView)>>, i: int)
    requires
        keyed(rows),
        distinct(rows),
        0 <= i < rows.len(),
    ensures
        holds(rows, key_of(rows[i])->0),
        row_at(rows, key_of(rows[i])->0) == i,
        table_of(rows).contains_key(key_of(rows[i])->0),
        table_of(rows)[key_of(rows[i])->0] == rows[i],
{
    let key = key_of(rows[i])->0;
    assert(key_of(rows[i]) == Some(key));
    let j = row_at(rows, key);
    assert(0 <= j < rows.len() && key_of(rows[j]) == Some(key));
    if j < i {
        assert(key_of(rows[j]) != key_of(rows[i]));
    }
    if i < j {
        assert(key_of(rows[i]) != key_of(rows[j]));
    }
}

proof fn lemma_push(
    rows: Seq<Seq<(Seq<char>, AttributeView)>>,
    item: Seq<(Seq<char>, AttributeView)>,
)
    requires
        keyed(rows),
        distinct(rows),
        key_of(item) is Some,
        !holds(rows, key_of(item)->0),
    ensures
        keyed(rows.push(item)),
        distinct(rows.push(item)),
        table_of(rows.push(item)) == table_of(rows).insert(key_of(item)->0, item),
{
    let key = key_of(item)->0;
    let grown = rows.push(item);
    assert forall|i: int| 0 <= i < grown.len() implies (#[trigger] key_of(grown[i])) is Some by {
        if i < rows.len() {
            assert(key_of(rows[i]) is Some);
        }
    }
    assert forall|i: int, j: int| 0 <= i < j < grown.len() implies #[trigger] key_of(grown[i])
        != #[trigger] key_of(grown[j]) by {
        if j < rows.len() {
            assert(key_of(rows[i]) != key_of(rows[j]));
        } else {
            assert(key_of(rows[i]) != Some(key));
        }
    }
    assert forall|q: (Seq<char>, Seq<char>)|
        table_of(grown).contains_key(q) == table_of(rows).insert(key, item).contains_key(
            q,
        ) by {
        if holds(grown, q) {
            let j = row_at(grown, q);
            if j < rows.len() {
                assert(key_of(rows[j]) == Some(q));
            }
        }
        if q == key {
            assert(key_of(grown[rows.len() as int]) == Some(q));
        } else if holds(rows, q) {
            let j = row_at(rows, q);
            assert(key_of(grown[j]) == Some(q));
        }
    }
    assert forall|q: (Seq<char>, Seq<char>)| table_of(grown).contains_key(q) implies table_of(
        grown,
    )[q] == table_of(rows).insert(key, item)[q] by {
        if q == key {
            lemma_row(grown, rows.len() as int);
        } else {
            let j = row_at(grown, q);
            assert(j < rows.len());
            assert(key_of(rows[j]) == Some(q));
            lemma_row(rows, j);
        }
    }
    assert(table_of(grown) =~= table_of(rows).insert(key, item));
}

proof fn lemma_remove(rows: Seq<Seq<(Seq<char>, AttributeView)>>, i: int)
    requires
        keyed(rows),
        distinct(rows),
        0 <= i < rows.len(),
    ensures
        keyed(rows.remove(i)),
        distinct(rows.remove(i)),
        !holds(rows.remove(i), key_of(rows[i])->0),
        table_of(rows.remove(i)) == table_of(rows).remove(key_of(rows[i])->0),
{
    let key = key_of(rows[i])->0;
    let less = rows.remove(i);
    assert forall|j: int| 0 <= j < less.len() implies less[j] == rows[if j < i {
        j
    } else {
        j + 1
    }] by {}
    assert forall|j: int| 0 <= j < less.len() implies (#[trigger] key_of(less[j])) is Some by {
        let from = if j < i {
            j
        } else {
            j + 1
        };
        assert(key_of(rows[from]) is Some);
    }
    assert forall|a: int, b: int| 0 <= a < b < less.len() implies #[trigger] key_of(less[a])
        != #[trigger] key_of(less[b]) by {
        let from_a = if a < i {
            a
        } else {
            a + 1
        };
        let from_b = if b < i {
            b
        } else {
            b + 1
        };
        assert(key_of(rows[from_a]) != key_of(rows[from_b]));
    }
    assert forall|j: int| 0 <= j < less.len() implies #[trigger] key_of(less[j]) != Some(
        key,
    ) by {
        let from = if j < i {
            j
        } else {
            j + 1
        };
        if from < i {
            assert(key_of(rows[from]) != key_of(rows[i]));
        } else {
            assert(key_of(rows[i]) != key_of(rows[from]));
        }
    }
    assert forall|q: (Seq<char>, Seq<char>)|
        table_of(less).contains_key(q) == table_of(rows).remove(key).contains_key(q) by {
        if holds(less, q) {
            let j = row_at(less, q);
            let from = if j < i {
                j
            } else {
                j + 1
            };
            assert(key_of(rows[from]) == Some(q));
        }
        if q != key && holds(rows, q) {
            let j = row_at(rows, q);
            let to = if j < i {
                j
            } else {
                j - 1
            };
            assert(key_of(less[to]) == Some(q));
        }
    }
    assert forall|q: (Seq<char>, Seq<char>)| table_of(less).contains_key(q) implies table_of(
        less,
    )[q] == table_of(rows).remove(key)[q] by {
        let j = row_at(less, q);
        let from = if j < i {
            j
        } else {
            j + 1
        };
        assert(key_of(rows[from]) == Some(q));
        lemma_row(rows, from);
    }
    assert(table_of(less) =~= table_of(rows).remove(key));
}

/// The primary key of `item`, if it has one.
pub fn item_key(item: &Vec<(String, AttributeValue)>) -> (key: Option<(String, String)>)
    ensures
        match key {
            Some((partition_key, sort_key)) => key_of(item_view(item@)) == Some(
                (partition_key@, sort_key@),
            ),
            None => key_of(item_view(item@)) is None,
        },
{
    match (attribute(item, "partitionKey"), attribute(item, "sortKey")) {
        (Some(AttributeValue::S(partition_key)), Some(AttributeValue::S(sort_key))) => Some(
            (partition_key.clone(), sort_key.clone()),
        ),
        _ => None,
    }
}

/// The attribute `name` of `item`, when it is a text.
fn text_in(item: &Vec<(String, AttributeValue)>, name: &str) -> (text: Option<String>)
    ensures
        text.deep_view() == text_of(item_view(item@), name@),
{
    match attribute(item, name) {
        Some(AttributeValue::S(text)) => Some(text.clone()),
        _ => None,
    }
}

/// The names of the attributes that hold the partition and sort key under
/// an index, if the index exists.
pub fn key_names(index: &Option<String>) -> (names: Option<(String, String)>)
    ensures
        match names {
            Some((partition_name, sort_name)) => key_names_of(index.deep_view()) == Some(
                (partition_name@, sort_name@),
            ),
            None => key_names_of(index.deep_view()) is None,
        },
{
    match index {
        None => Some((String::from_str("partitionKey"), String::from_str("sortKey"))),
        Some(name) => {
            if str_eq(name.as_str(), "GSI1") {
                Some((String::from_str("gsi1PK"), String::from_str("gsi1SK")))
            } else if str_eq(name.as_str(), "GSI2") {
                Some((String::from_str("gsi2PK"), String::from_str("gsi2SK")))
            } else {
                None
            }
        },
    }
}

/// The partition and sort key of `item` under an index.
fn index_keys(item: &Vec<(String, AttributeValue)>, index: &Option<String>) -> (keys: Option<
    (String, String),
>)
    ensures
        match keys {
            Some((partition_key, sort_key)) => keys_under(item_view(item@), index.deep_view())
                == Some((partition_key@, sort_key@)),
            None => keys_under(item_view(item@), index.deep_view()) is None,
        },
{
    match key_names(index) {
        Some((partition_name, sort_name)) => match (
            text_in(item, partition_name.as_str()),
            text_in(item, sort_name.as_str()),
        ) {
            (Some(partition_key), Some(sort_key)) => Some((partition_key, sort_key)),
            _ => None,
        },
        None => None,
    }
}

/// Whether `query` selects `item`.
fn selects(query: &Query, item: &Vec<(String, AttributeValue)>) -> (chosen: bool)
    ensures
        chosen == selected(query@, item_view(item@)),
{
    match index_keys(item, &query.index_name) {
        Some((partition_key, sort_key)) => str_eq(
            partition_key.as_str(),
            query.partition_key.as_str(),
        ) && starts_with(sort_key.as_str(), query.sort_key_prefix.as_str()),
        None => false,
    }
}

/// Whether the order of `query` puts `a` strictly before `b`.
fn precedes(query: &Query, a: &Vec<(String, AttributeValue)>, b: &Vec<(String, AttributeValue)>) -> (before:
    bool)
    requires
        selected(query@, item_view(a@)),
        selected(query@, item_view(b@)),
    ensures
        before == comes_before(query@, item_view(a@), item_view(b@)),
{
    let first = index_keys(a, &query.index_name);
    let second = index_keys(b, &query.index_name);
    match (first, second) {
        (Some((_, first_key)), Some((_, second_key))) => {
            if query.newest_first {
                str_less(second_key.as_str(), first_key.as_str())
            } else {
                str_less(first_key.as_str(), second_key.as_str())
            }
        },
        _ => false,
    }
}

/// The order of a query is strict: of two items at most one comes before
/// the other, and what comes before an item comes before all that the item
/// comes before.
proof fn lemma_order(
    query: QueryView,
    a: Seq<(Seq<char>, AttributeView)>,
    b: Seq<(Seq<char>, AttributeView)>,
    c: Seq<(Seq<char>, AttributeView)>,
)
    ensures
        comes_before(query, a, b) ==> !comes_before(query, b, a),
        comes_before(query, a, b) && comes_before(query, b, c) ==> comes_before(query, a, c),
{
    let x = sort_key_under(a, query.index_name);
    let y = sort_key_under(b, query.index_name);
    let z = sort_key_under(c, query.index_name);
    lemma_text_less_total(x, y);
    lemma_text_less_total(y, x);
    if comes_before(query, a, b) && comes_before(query, b, c) {
        if query.newest_first {
            lemma_text_less_transitive(z, y, x);
        } else {
            lemma_text_less_transitive(x, y, z);
        }
    }
}

/// The positions of the rows that `query` selects, in its order.
fn select_rows(items: &Vec<Vec<(String, AttributeValue)>>, query: &Query) -> (order: Vec<usize>)
    ensures
        forall|p: int| 0 <= p < order@.len() ==> #[trigger] order@[p] < items@.len(),
        forall|p: int|
            0 <= p < order@.len() ==> selected(
                query@,
                batch_view(items@)[#[trigger] order@[p] as int],
            ),
        forall|p: int, q: int| 0 <= p < q < order@.len() ==> order@[p] != order@[q],
        forall|j: int|
            0 <= j < items@.len() && selected(query@, #[trigger] batch_view(items@)[j])
                ==> order@.contains(j as usize),
        forall|p: int, q: int|
            0 <= p < q < order@.len() ==> !comes_before(
                query@,
                batch_view(items@)[#[trigger] order@[q] as int],
                batch_view(items@)[#[trigger] order@[p] as int],
            ),
{
    let ghost rows = batch_view(items@);
    let mut order: Vec<usize> = Vec::new();
    let mut r: usize = 0;
    while r < items.len()
        invariant
            r <= items@.len(),
            rows == batch_view(items@),
            forall|p: int| 0 <= p < order@.len() ==> #[trigger] order@[p] < r,
            forall|p: int|
                0 <= p < order@.len() ==> selected(query@, rows[#[trigger] order@[p] as int]),
            forall|p: int, q: int| 0 <= p < q < order@.len() ==> order@[p] != order@[q],
            forall|j: int|
                0 <= j < r && selected(query@, #[trigger] rows[j]) ==> order@.contains(
                    j as usize,
                ),
            forall|p: int, q: int|
                0 <= p < q < order@.len() ==> !comes_before(
                    query@,
                    rows[#[trigger] order@[q] as int],
                    rows[#[trigger] order@[p] as int],
                ),
        decreases items@.len() - r,
    {
        if selects(query, &items[r]) {
            let mut at: usize = 0;
            while at < order.len() && !precedes(query, &items[r], &items[order[at]])
                invariant
                    at <= order@.len(),
                    r < items@.len(),
                    rows == batch_view(items@),
                    selected(query@, rows[r as int]),
                    forall|p: int| 0 <= p < order@.len() ==> #[trigger] order@[p] < r,
                    forall|p: int|
                        0 <= p < order@.len() ==> selected(
                            query@,
                            rows[#[trigger] order@[p] as int],
                        ),
                    forall|p: int|
                        0 <= p < at ==> !comes_before(
                            query@,
                            rows[r as int],
                            rows[#[trigger] order@[p] as int],
                        ),
                decreases order@.len() - at,
            {
                at = at + 1;
            }
            let ghost before = order@;
            order.insert(at, r);
            proof {
                let after = order@;
                assert forall|p: int| 0 <= p < after.len() implies after[p] == (if p < at {
                    before[p]
                } else if p == at {
                    r
                } else {
                    before[p - 1]
                }) by {}
                assert forall|p: int| 0 <= p < after.len() implies #[trigger] after[p] < r + 1
                    && selected(query@, rows[after[p] as int]) by {
                    if p < at {
                        assert(before[p] < r);
                    } else if p > at {
                        assert(before[p - 1] < r);
                    }
                }
                assert forall|p: int, q: int| 0 <= p < q < after.len() implies !comes_before(
                    query@,
                    rows[#[trigger] after[q] as int],
                    rows[#[trigger] after[p] as int],
                ) by {
                    if q == at {
                        assert(after[p] == before[p]);
                    } else if p == at {
                        let old_q = q - 1;
                        assert(after[q] == before[old_q]);
                        lemma_order(
                            query@,
                            rows[before[old_q] as int],
                            rows[r as int],
                            rows[before[at as int] as int],
                        );
                        lemma_order(
                            query@,
                            rows[r as int],
                            rows[before[at as int] as int],
                            rows[r as int],
                        );
                        if old_q > at {
                            assert(!comes_before(
                                query@,
                                rows[before[old_q] as int],
                                rows[before[at as int] as int],
                            ));
                        }
                    } else {
                        let old_p = if p < at {
                            p
                        } else {
                            p - 1
                        };
                        let old_q = if q < at {
                            q
                        } else {
                            q - 1
                        };
                        assert(after[p] == before[old_p] && after[q] == before[old_q]);
                        assert(!comes_before(
                            query@,
                            rows[before[old_q] as int],
                            rows[before[old_p] as int],
                        ));
                    }
                }
                assert forall|p: int, q: int| 0 <= p < q < after.len() implies after[p]
                    != after[q] by {
                    let old_p = if p < at {
                        p
                    } else {
                        p - 1
                    };
                    let old_q = if q < at {
                        q
                    } else {
                        q - 1
                    };
                    if p != at && q != at {
                        assert(before[old_p] != before[old_q]);
                    } else if p == at {
                        assert(before[old_q] < r);
                    } else {
                        assert(before[old_p] < r);
                    }
                }
                assert forall|j: int| 0 <= j < r + 1 && selected(
                    query@,
                    #[trigger] rows[j],
                ) implies after.contains(j as usize) by {
                    if j == r {
                        assert(after[at as int] == r);
                    } else {
                        assert(before.contains(j as usize));
                        let w = choose|w: int| 0 <= w < before.len() && before[w] == j as usize;
                        if w < at {
                            assert(after[w] == j as usize);
                        } else {
                            assert(after[w + 1] == j as usize);
                        }
                    }
                }
            }
        }
        r = r + 1;
    }
    order
}

/// Sets the attribute `name` of `item` to `value`.
pub fn set_attribute(item: &mut Vec<(String, AttributeValue)>, name: &str, value: AttributeValue)
    ensures
        item_view(final(item)@) == with_attribute(item_view(old(item)@), name@, value@),
{
    let at = position(item, name);
    let entry = (String::from_str(name), value);
    if at < item.len() {
        item.set(at, entry);
        assert(item_view(item@) =~= item_view(old(item)@).update(at as int, (name@, value@)));
    } else {
        item.push(entry);
        assert(item_view(item@) =~= item_view(old(item)@).push((name@, value@)));
    }
}

/// Position of the row under a primary key.
fn find_row(items: &Vec<Vec<(String, AttributeValue)>>, partition_key: &str, sort_key: &str) -> (at:
    Option<usize>)
    requires
        keyed(batch_view(items@)),
    ensures
        match at {
            Some(i) => i < items@.len() && key_of(batch_view(items@)[i as int]) == Some(
                (partition_key@, sort_key@),
            ),
            None => !holds(batch_view(items@), (partition_key@, sort_key@)),
        },
{
    let ghost rows = batch_view(items@);
    let mut i: usize = 0;
    while i < items.len()
        invariant
            i <= items@.len(),
            rows == batch_view(items@),
            keyed(rows),
            forall|j: int| 0 <= j < i ==> #[trigger] key_of(rows[j]) != Some(
                (partition_key@, sort_key@),
            ),
        decreases items@.len() - i,
    {
        assert(key_of(rows[i as int]) is Some);
        match item_key(&items[i]) {
            Some((row_partition, row_sort)) => {
                if str_eq(row_partition.as_str(), partition_key) && str_eq(
                    row_sort.as_str(),
                    sort_key,
                ) {
                    return Some(i);
                }
            },
            None => {},
        }
        i = i + 1;
    }
    None
}

/// Takes the row under a primary key out of the rows, if there is one.
fn take_row(items: &mut Vec<Vec<(String, AttributeValue)>>, partition_key: &str, sort_key: &str) -> (taken:
    Option<Vec<(String, AttributeValue)>>)
    requires
        keyed(batch_view(old(items)@)),
        distinct(batch_view(old(items)@)),
        plain(batch_view(old(items)@)),
    ensures
        keyed(batch_view(final(items)@)),
        distinct(batch_view(final(items)@)),
        plain(batch_view(final(items)@)),
        taken is Some ==> unique_names(item_view(taken->0@)),
        !holds(batch_view(final(items)@), (partition_key@, sort_key@)),
        table_of(batch_view(final(items)@)) == table_of(batch_view(old(items)@)).remove(
            (partition_key@, sort_key@),
        ),
        match taken {
            Some(item) => table_of(batch_view(old(items)@)).contains_key(
                (partition_key@, sort_key@),
            ) && table_of(batch_view(old(items)@))[(partition_key@, sort_key@)] == item_view(
                item@,
            ) && key_of(item_view(item@)) == Some((partition_key@, sort_key@)),
            None => !table_of(batch_view(old(items)@)).contains_key((partition_key@, sort_key@)),
        },
{
    let ghost before = batch_view(items@);
    match find_row(items, partition_key, sort_key) {
        Some(i) => {
            proof {
                lemma_row(before, i as int);
                lemma_remove(before, i as int);
            }
            let item = items.remove(i);
            assert(batch_view(items@) =~= before.remove(i as int));
            proof {
                assert(unique_names(before[i as int]));
                assert forall|j: int| 0 <= j < batch_view(items@).len() implies unique_names(
                    #[trigger] batch_view(items@)[j],
                ) by {
                    let from = if j < i {
                        j
                    } else {
                        j + 1
                    };
                    assert(batch_view(items@)[j] == before[from]);
                    assert(unique_names(before[from]));
                }
            }
            Some(item)
        },
        None => {
            assert(table_of(before).remove((partition_key@, sort_key@)) =~= table_of(before));
            None
        },
    }
}

/// Adds a row under a primary key that no row has.
fn add_row(items: &mut Vec<Vec<(String, AttributeValue)>>, item: Vec<(String, AttributeValue)>)
    requires
        keyed(batch_view(old(items)@)),
        distinct(batch_view(old(items)@)),
        plain(batch_view(old(items)@)),
        writable(item_view(item@)),
        !holds(batch_view(old(items)@), key_of(item_view(item@))->0),
    ensures
        keyed(batch_view(final(items)@)),
        distinct(batch_view(final(items)@)),
        plain(batch_view(final(items)@)),
        table_of(batch_view(final(items)@)) == table_of(batch_view(old(items)@)).insert(
            key_of(item_view(item@))->0,
            item_view(item@),
        ),
{
    let ghost before = batch_view(items@);
    proof {
        lemma_push(before, item_view(item@));
    }
    items.push(item);
    assert(batch_view(items@) =~= before.push(item_view(item@)));
    assert forall|j: int| 0 <= j < batch_view(items@).len() implies unique_names(
        #[trigger] batch_view(items@)[j],
    ) by {
        if j < before.len() {
            assert(batch_view(items@)[j] == before[j]);
            assert(unique_names(before[j]));
        }
    }
}

/// Items in memory, one under each primary key.
pub struct Table {
    items: Vec<Vec<(String, AttributeValue)>>,
}

impl View for Table {
    type V = Map<(Seq<char>, Seq<char>), Seq<(Seq<char>, AttributeView)>>;

    /// The item under each primary key.
    closed spec fn view(&self) -> Map<(Seq<char>, Seq<char>), Seq<(Seq<char>, AttributeView)>> {
        table_of(batch_view(self.items@))
    }
}

impl Table {
    #[verifier::type_invariant]
    spec fn well_formed(&self) -> bool {
        keyed(batch_view(self.items@)) && distinct(batch_view(self.items@)) && plain(
            batch_view(self.items@),
        )
    }

    /// A table without items.
    pub fn new() -> (table: Table)
        ensures
            table@ == Map::<(Seq<char>, Seq<char>), Seq<(Seq<char>, AttributeView)>>::empty(),
    {
        let table = Table { items: Vec::new() };
        assert(table@ =~= Map::<(Seq<char>, Seq<char>), Seq<(Seq<char>, AttributeView)>>::empty());
        table
    }

    /// The item under a primary key. What is found is writable: it has the
    /// key it was asked under, and none of its names occurs twice.
    pub fn get(&self, partition_key: &str, sort_key: &str) -> (found: Option<
        &Vec<(String, AttributeValue)>,
    >)
        ensures
            match found {
                Some(item) => self@.contains_key((partition_key@, sort_key@)) && self@[(
                    partition_key@,
                    sort_key@,
                )] == item_view(item@) && key_of(item_view(item@)) == Some(
                    (partition_key@, sort_key@),
                ) && unique_names(item_view(item@)),
                None => !self@.contains_key((partition_key@, sort_key@)),
            },
    {
        proof {
            use_type_invariant(self);
        }
        match find_row(&self.items, partition_key, sort_key) {
            Some(i) => {
                proof {
                    lemma_row(batch_view(self.items@), i as int);
                    assert(unique_names(batch_view(self.items@)[i as int]));
                }
                Some(&self.items[i])
            },
            None => None,
        }
    }

    /// Writes `item` under its primary key, in place of what was there. An
    /// item without a primary key, and one that gives a name twice, is
    /// refused and nothing is written.
    pub fn put(&mut self, item: Vec<(String, AttributeValue)>) -> (result: Result<(), StoreError>)
        ensures
            match result {
                Ok(()) => writable(item_view(item@)) && final(self)@ == old(self)@.insert(
                    key_of(item_view(item@))->0,
                    item_view(item@),
                ),
                Err(error) => error == StoreError::InvalidItem && !writable(item_view(item@))
                    && final(self)@ == old(self)@,
            },
    {
        proof {
            use_type_invariant(&*self);
        }
        let (partition_key, sort_key) = match item_key(&item) {
            Some(key) => key,
            None => {
                return Err(StoreError::InvalidItem);
            },
        };
        if !has_unique_names(&item) {
            return Err(StoreError::InvalidItem);
        }
        let ghost key = (partition_key@, sort_key@);
        let ghost before = self@;
        let mut items: Vec<Vec<(String, AttributeValue)>> = Vec::new();
        core::mem::swap(&mut self.items, &mut items);
        take_row(&mut items, partition_key.as_str(), sort_key.as_str());
        add_row(&mut items, item);
        assert(before.remove(key).insert(key, item_view(item@)) =~= before.insert(
            key,
            item_view(item@),
        ));
        core::mem::swap(&mut self.items, &mut items);
        Ok(())
    }

    /// Deletes the item under a primary key. Deleting what is not there
    /// changes nothing.
    pub fn delete(&mut self, partition_key: &str, sort_key: &str)
        ensures
            final(self)@ == old(self)@.remove((partition_key@, sort_key@)),
    {
        proof {
            use_type_invariant(&*self);
        }
        let mut items: Vec<Vec<(String, AttributeValue)>> = Vec::new();
        core::mem::swap(&mut self.items, &mut items);
        take_row(&mut items, partition_key, sort_key);
        core::mem::swap(&mut self.items, &mut items);
    }

    /// Sets one attribute of the item under a primary key. With `must_exist`
    /// a missing item is reported and nothing is written; without it the
    /// item is created from its key.
    pub fn update(
        &mut self,
        partition_key: &str,
        sort_key: &str,
        name: &str,
        value: AttributeValue,
        must_exist: bool,
    ) -> (result: Result<(), StoreError>)
        ensures
            match result {
                Ok(()) => updated(
                    old(self)@,
                    (partition_key@, sort_key@),
                    name@,
                    value@,
                    must_exist,
                ) == Ok::<
                    Map<(Seq<char>, Seq<char>), Seq<(Seq<char>, AttributeView)>>,
                    StoreError,
                >(final(self)@),
                Err(error) => updated(
                    old(self)@,
                    (partition_key@, sort_key@),
                    name@,
                    value@,
                    must_exist,
                ) == Err::<
                    Map<(Seq<char>, Seq<char>), Seq<(Seq<char>, AttributeView)>>,
                    StoreError,
                >(error) && final(self)@ == old(self)@,
            },
    {
        proof {
            use_type_invariant(&*self);
        }
        if str_eq(name, "partitionKey") || str_eq(name, "sortKey") {
            return Err(StoreError::InvalidItem);
        }
        let ghost key = (partition_key@, sort_key@);
        let ghost before = self@;
        if must_exist && self.get(partition_key, sort_key).is_none() {
            return Err(StoreError::NotFound);
        }
        let mut items: Vec<Vec<(String, AttributeValue)>> = Vec::new();
        core::mem::swap(&mut self.items, &mut items);
        let mut item = match take_row(&mut items, partition_key, sort_key) {
            Some(item) => item,
            None => {
                let mut item: Vec<(String, AttributeValue)> = Vec::new();
                item.push(text_attribute("partitionKey", partition_key));
                item.push(text_attribute("sortKey", sort_key));
                proof {
                    assert(item_view(item@) =~= bare_item(key));
                    lemma_bare_item_key(key);
                }
                item
            },
        };
        let ghost unchanged = item_view(item@);
        set_attribute(&mut item, name, value);
        proof {
            lemma_with_attribute_keeps_key(unchanged, name@, value@);
            lemma_with_attribute_unique(unchanged, name@, value@);
        }
        add_row(&mut items, item);
        assert(before.remove(key).insert(key, item_view(item@)) =~= before.insert(
            key,
            item_view(item@),
        ));
        core::mem::swap(&mut self.items, &mut items);
        Ok(())
    }

    /// The items that a query selects, in its order. Every selected item of
    /// the table is found, once; items whose sort keys are equal come in
    /// any order.
    pub fn query(&self, query: &Query) -> (found: Vec<&Vec<(String, AttributeValue)>>)
        ensures
            forall|i: int|
                0 <= i < found@.len() ==> selected(query@, #[trigger] item_view(found@[i]@))
                    && writable(item_view(found@[i]@)) && self@.contains_key(
                    key_of(item_view(found@[i]@))->0,
                ) && self@[key_of(item_view(found@[i]@))->0] == item_view(found@[i]@),
            forall|key: (Seq<char>, Seq<char>)|
                self@.contains_key(key) && selected(query@, #[trigger] self@[key]) ==> exists|
                    i: int,
                |
                    0 <= i < found@.len() && #[trigger] item_view(found@[i]@) == self@[key],
            forall|i: int, j: int|
                0 <= i < j < found@.len() ==> !comes_before(
                    query@,
                    #[trigger] item_view(found@[j]@),
                    #[trigger] item_view(found@[i]@),
                ) && key_of(item_view(found@[i]@)) != key_of(item_view(found@[j]@)),
    {
        proof {
            use_type_invariant(self);
        }
        let ghost rows = batch_view(self.items@);
        let rows_len = self.items.len();
        let order = select_rows(&self.items, query);
        let mut found: Vec<&Vec<(String, AttributeValue)>> = Vec::new();
        let mut p: usize = 0;
        while p < order.len()
            invariant
                p <= order@.len(),
                found@.len() == p,
                forall|q: int| 0 <= q < order@.len() ==> #[trigger] order@[q] < self.items@.len(),
                forall|q: int| 0 <= q < p ==> #[trigger] found@[q] == &self.items@[order@[q] as int],
            decreases order@.len() - p,
        {
            found.push(&self.items[order[p]]);
            p = p + 1;
        }
        proof {
            assert forall|i: int| 0 <= i < found@.len() implies #[trigger] item_view(found@[i]@)
                == rows[order@[i] as int] by {
                assert(found@[i] == &self.items@[order@[i] as int]);
            }
            assert forall|i: int| 0 <= i < found@.len() implies selected(
                query@,
                #[trigger] item_view(found@[i]@),
            ) && writable(item_view(found@[i]@)) && self@.contains_key(
                key_of(item_view(found@[i]@))->0,
            ) && self@[key_of(item_view(found@[i]@))->0] == item_view(found@[i]@) by {
                assert(item_view(found@[i]@) == rows[order@[i] as int]);
                assert(order@[i] < self.items@.len());
                lemma_row(rows, order@[i] as int);
                assert(unique_names(rows[order@[i] as int]));
            }
            assert forall|key: (Seq<char>, Seq<char>)|
                self@.contains_key(key) && selected(query@, #[trigger] self@[key]) implies exists|
                i: int,
            |
                0 <= i < found@.len() && #[trigger] item_view(found@[i]@) == self@[key] by {
                let j = row_at(rows, key);
                assert(0 <= j < rows.len() && key_of(rows[j]) == Some(key));
                assert(selected(query@, rows[j]));
                assert(self@[key] == rows[j]);
                assert(j < rows_len);
                let position = j as usize;
                assert(position as int == j);
                assert(order@.contains(position));
                let w = choose|w: int| 0 <= w < order@.len() && order@[w] == position;
                assert(0 <= w < found@.len());
                assert(item_view(found@[w]@) == rows[order@[w] as int]);
                assert(item_view(found@[w]@) == self@[key]);
            }
            assert forall|i: int, j: int| 0 <= i < j < found@.len() implies !comes_before(
                query@,
                #[trigger] item_view(found@[j]@),
                #[trigger] item_view(found@[i]@),
            ) && key_of(item_view(found@[i]@)) != key_of(item_view(found@[j]@)) by {
                assert(item_view(found@[i]@) == rows[order@[i] as int]);
                assert(item_view(found@[j]@) == rows[order@[j] as int]);
                assert(order@[i] != order@[j]);
                if order@[i] < order@[j] {
                    assert(key_of(rows[order@[i] as int]) != key_of(rows[order@[j] as int]));
                } else {
                    assert(key_of(rows[order@[j] as int]) != key_of(rows[order@[i] as int]));
                }
            }
        }
        found
    }

    /// Performs an update request.
    pub fn apply(&mut self, request: Update) -> (result: Result<(), StoreError>)
        ensures
            match result {
                Ok(()) => updated(
                    old(self)@,
                    (request@.partition_key, request@.sort_key),
                    request@.attribute,
                    request@.value,
                    request@.must_exist,
                ) == Ok::<
                    Map<(Seq<char>, Seq<char>), Seq<(Seq<char>, AttributeView)>>,
                    StoreError,
                >(final(self)@),
                Err(error) => updated(
                    old(self)@,
                    (request@.partition_key, request@.sort_key),
                    request@.attribute,
                    request@.value,
                    request@.must_exist,
                ) == Err::<
                    Map<(Seq<char>, Seq<char>), Seq<(Seq<char>, AttributeView)>>,
                    StoreError,
                >(error) && final(self)@ == old(self)@,
            },
    {
        let Update { partition_key, sort_key, attribute, value, must_exist } = request;
        self.update(
            partition_key.as_str(),
            sort_key.as_str(),
            attribute.as_str(),
            value,
            must_exist,
        )
    }

    /// Writes a batch of items, all or none: when one of them lacks a
    /// primary key or gives a name twice, nothing is written.
    pub fn batch_write(&mut self, items: Vec<Vec<(String, AttributeValue)>>) -> (result: Result<
        (),
        StoreError,
    >)
        ensures
            match result {
                Ok(()) => all_writable(batch_view(items@)) && final(self)@ == after_batch(
                    old(self)@,
                    batch_view(items@),
                ),
                Err(error) => error == StoreError::InvalidItem && !all_writable(
                    batch_view(items@),
                ) && final(self)@ == old(self)@,
            },
    {
        let mut i: usize = 0;
        while i < items.len()
            invariant
                i <= items.len(),
                forall|j: int| 0 <= j < i ==> writable(#[trigger] batch_view(items@)[j]),
            decreases items.len() - i,
        {
            if item_key(&items[i]).is_none() || !has_unique_names(&items[i]) {
                assert(!writable(batch_view(items@)[i as int]));
                return Err(StoreError::InvalidItem);
            }
            i = i + 1;
        }
        let mut rest = items;
        while rest.len() > 0
            invariant
                all_writable(batch_view(rest@)),
                after_batch(old(self)@, batch_view(items@)) == after_batch(
                    self@,
                    batch_view(rest@),
                ),
            decreases rest.len(),
        {
            let ghost before = batch_view(rest@);
            let item = rest.remove(0);
            proof {
                assert(writable(before[0]));
                assert(batch_view(rest@) =~= before.drop_first());
                assert forall|j: int| 0 <= j < batch_view(rest@).len() implies writable(
                    #[trigger] batch_view(rest@)[j],
                ) by {
                    assert(writable(before[j + 1]));
                }
            }
            let written = self.put(item);
            assert(written is Ok);
        }
        Ok(())
    }
}

} // verus!
