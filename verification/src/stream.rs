//! Dispatch of the table's change feed.
//!
//! Every record of a batch is looked at by itself. Only the insertion of a
//! message calls for a fan-out; every other change is passed over, which is
//! no error.
use crate::models::common::{AttributeValue, AttributeView, attribute, attribute_of, item_view};
use crate::text::str_eq;
use vstd::prelude::*;
use vstd::string::*;

verus! {

/// One record of the change feed: the kind of change, the item after it and
/// the item before it, and the number that identifies the record in its
/// batch.
#[derive(Debug, PartialEq, Eq)]
pub struct StreamRecord {
    pub event_name: String,
    pub sequence_number: Option<String>,
    pub new_image: Vec<(String, AttributeValue)>,
    pub old_image: Vec<(String, AttributeValue)>,
}

/// What a `StreamRecord` holds.
pub ghost struct StreamRecordView {
    pub event_name: Seq<char>,
    pub sequence_number: Option<Seq<char>>,
    pub new_image: Seq<(Seq<char>, AttributeView)>,
    pub old_image: Seq<(Seq<char>, AttributeView)>,
}

impl View for StreamRecord {
    type V = StreamRecordView;

    open spec fn view(&self) -> StreamRecordView {
        StreamRecordView {
            event_name: self.event_name@,
            sequence_number: self.sequence_number.deep_view(),
            new_image: item_view(self.new_image@),
            old_image: item_view(self.old_image@),
        }
    }
}

/// What a record calls for.
#[derive(Debug, Clone, Copy, PartialEq, Eq, Structural)]
pub enum Reaction {
    FanOut,
    Ignore,
}

/// The entity kind that an image names: its `entityType`, when that is a text.
pub open spec fn image_entity(image: Seq<(Seq<char>, AttributeView)>) -> Option<Seq<char>> {
    match attribute_of(image, "entityType"@) {
        Some(AttributeView::S(kind)) => Some(kind),
        _ => None,
    }
}

/// The entity kind of the item a record is about: read from the item after
/// an insertion or an update, from the item before a removal, and unknown
/// for any other kind of change.
pub open spec fn entity_type_of(record: StreamRecordView, event_type: Seq<char>) -> Option<
    Seq<char>,
> {
    if event_type == "INSERT"@ || event_type == "UPDATE"@ {
        image_entity(record.new_image)
    } else if event_type == "REMOVE"@ {
        image_entity(record.old_image)
    } else {
        None
    }
}

/// What a change of `event_type` to an item of kind `entity_type` calls for.
pub open spec fn reaction_to(event_type: Seq<char>, entity_type: Seq<char>) -> Reaction {
    if event_type == "INSERT"@ && entity_type == "message"@ {
        Reaction::FanOut
    } else {
        Reaction::Ignore
    }
}

/// What a record calls for: a record whose entity kind is unknown is passed
/// over.
pub open spec fn reaction_of(record: StreamRecordView) -> Reaction {
    match entity_type_of(record, record.event_name) {
        Some(kind) => reaction_to(record.event_name, kind),
        None => Reaction::Ignore,
    }
}

/// The positions of the records of a batch that call for a fan-out, in the
/// order of the batch.
pub open spec fn fan_out_positions(records: Seq<StreamRecord>) -> Seq<usize>
    decreases records.len(),
{
    if records.len() == 0 {
        Seq::empty()
    } else if reaction_of(records.last()@) == Reaction::FanOut {
        fan_out_positions(records.drop_last()).push((records.len() - 1) as usize)
    } else {
        fan_out_positions(records.drop_last())
    }
}

/// The identifiers to report as failed: those of the records at the given
/// positions, in their order. A position outside the batch, or a record
/// without an identifier, reports nothing.
pub open spec fn failure_report(records: Seq<StreamRecord>, failed: Seq<usize>) -> Seq<Seq<char>>
    decreases failed.len(),
{
    if failed.len() == 0 {
        Seq::empty()
    } else {
        let before = failure_report(records, failed.drop_last());
        let at = failed.last() as int;
        if at < records.len() && records[at].sequence_number is Some {
            before.push(records[at].sequence_number->0@)
        } else {
            before
        }
    }
}

/// The entity kind that an image names.
fn entity_in(image: &Vec<(String, AttributeValue)>) -> (kind: Option<String>)
    ensures
        kind.deep_view() == image_entity(item_view(image@)),
{
    match attribute(image, "entityType") {
        Some(AttributeValue::S(kind)) => Some(kind.clone()),
        _ => None,
    }
}

/// The entity kind of the item that `record` is about, for a change of kind
/// `record_event_type`.
pub fn get_entity_type(record: &StreamRecord, record_event_type: &str) -> (entity_type: Option<
    String,
>)
    ensures
        entity_type.deep_view() == entity_type_of(record@, record_event_type@),
{
    if str_eq(record_event_type, "INSERT") || str_eq(record_event_type, "UPDATE") {
        entity_in(&record.new_image)
    } else if str_eq(record_event_type, "REMOVE") {
        entity_in(&record.old_image)
    } else {
        None
    }
}

/// What `record` calls for.
pub fn reaction(record: &StreamRecord) -> (reaction: Reaction)
    ensures
        reaction == reaction_of(record@),
{
    match get_entity_type(record, record.event_name.as_str()) {
        Some(kind) => {
            if str_eq(record.event_name.as_str(), "INSERT") && str_eq(kind.as_str(), "message") {
                Reaction::FanOut
            } else {
                Reaction::Ignore
            }
        },
        None => Reaction::Ignore,
    }
}

/// The positions of the records of a batch that call for a fan-out.
pub fn fan_out_records(records: &Vec<StreamRecord>) -> (positions: Vec<usize>)
    ensures
        positions@ == fan_out_positions(records@),
{
    let mut positions: Vec<usize> = Vec::new();
    let mut i: usize = 0;
    while i < records.len()
        invariant
            i <= records.len(),
            positions@ == fan_out_positions(records@.subrange(0, i as int)),
        decreases records.len() - i,
    {
        let ghost next = records@.subrange(0, i + 1);
        assert(next.last() == records@[i as int]);
        assert(next.drop_last() =~= records@.subrange(0, i as int));
        if reaction(&records[i]) == Reaction::FanOut {
            positions.push(i);
        }
        i = i + 1;
    }
    assert(records@.subrange(0, records@.len() as int) =~= records@);
    positions
}

/// The identifiers to report as failed for the records at the positions
/// `failed`, so that the feed delivers them again.
pub fn batch_item_failures(records: &Vec<StreamRecord>, failed: &Vec<usize>) -> (identifiers: Vec<
    String,
>)
    ensures
        identifiers.deep_view() == failure_report(records@, failed@),
{
    let mut identifiers: Vec<String> = Vec::new();
    let mut i: usize = 0;
    assert(identifiers.deep_view() =~= Seq::<Seq<char>>::empty());
    while i < failed.len()
        invariant
            i <= failed.len(),
            identifiers.deep_view() == failure_report(records@, failed@.subrange(0, i as int)),
        decreases failed.len() - i,
    {
        let ghost next = failed@.subrange(0, i + 1);
        let ghost before = identifiers.deep_view();
        assert(next.last() == failed@[i as int]);
        assert(next.drop_last() =~= failed@.subrange(0, i as int));
        let at = failed[i];
        if at < records.len() {
            match &records[at].sequence_number {
                Some(number) => {
                    identifiers.push(number.clone());
                    assert(identifiers.deep_view() =~= before.push(number@));
                },
                None => {},
            }
        }
        i = i + 1;
    }
    assert(failed@.subrange(0, failed@.len() as int) =~= failed@);
    identifiers
}

} // verus!
