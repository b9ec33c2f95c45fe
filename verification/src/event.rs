//! Events, and how a payload is matched against the schemas.

use crate::flaw::Flaw;
use crate::line::begins;
use crate::line::begins_with;
use crate::record::fits;
use crate::record::record_spec;
use crate::record::FieldModel;
use crate::record::Record;
use crate::schema::schema_models;
use crate::schema::EventKind;
use crate::schema::Schema;
use crate::schema::SchemaModel;
use vstd::prelude::*;
use vstd::slice::slice_subrange;

verus! {

/// Something that happened inside the exchange program.
#[derive(Debug, PartialEq, Eq)]
pub enum Event {
    Buy(Record),
    Sell(Record),
    CreatePool(Record),
    Deposit(Record),
    Withdraw(Record),
}

/// The mathematical value of an [`Event`].
pub struct EventModel {
    pub kind: EventKind,
    pub fields: Seq<FieldModel>,
}

impl View for Event {
    type V = EventModel;

    open spec fn view(&self) -> EventModel {
        match *self {
            Event::Buy(record) => EventModel { kind: EventKind::Buy, fields: record@ },
            Event::Sell(record) => EventModel { kind: EventKind::Sell, fields: record@ },
            Event::CreatePool(record) => EventModel {
                kind: EventKind::CreatePool,
                fields: record@,
            },
            Event::Deposit(record) => EventModel { kind: EventKind::Deposit, fields: record@ },
            Event::Withdraw(record) => EventModel { kind: EventKind::Withdraw, fields: record@ },
        }
    }
}

/// The values of a list of events.
pub open spec fn event_models(events: Seq<Event>) -> Seq<EventModel> {
    Seq::new(events.len(), |i: int| events[i]@)
}

/// The event that `bytes` hold under `schema`: there is one when `bytes`
/// begin with the schema's discriminator and go on with at least the bytes
/// of its fields.
pub open spec fn event_of(schema: SchemaModel, bytes: Seq<u8>) -> Option<EventModel> {
    let payload = bytes.skip(schema.discriminator.len() as int);
    if begins_with(bytes, schema.discriminator) && fits(schema.layout, payload) {
        Some(EventModel { kind: schema.kind, fields: record_spec(schema.layout, payload) })
    } else {
        None
    }
}

/// The events that `bytes` hold under `schemas`: one for each schema that
/// accepts them, in the order of the schemas.
pub open spec fn events_of(schemas: Seq<SchemaModel>, bytes: Seq<u8>) -> Seq<EventModel>
    decreases schemas.len(),
{
    if schemas.len() == 0 {
        Seq::empty()
    } else {
        let before = events_of(schemas.drop_last(), bytes);
        match event_of(schemas.last(), bytes) {
            Some(event) => before.push(event),
            None => before,
        }
    }
}

/// The number of schemas among `schemas` that accept `bytes`.
pub open spec fn accepting(schemas: Seq<SchemaModel>, bytes: Seq<u8>) -> nat
    decreases schemas.len(),
{
    if schemas.len() == 0 {
        0
    } else {
        accepting(schemas.drop_last(), bytes) + if event_of(schemas.last(), bytes).is_some() {
            1nat
        } else {
            0nat
        }
    }
}

/// A payload gives as many events as there are schemas that accept it.
pub proof fn lemma_one_event_per_accepting_schema(schemas: Seq<SchemaModel>, bytes: Seq<u8>)
    ensures
        events_of(schemas, bytes).len() == accepting(schemas, bytes),
        events_of(schemas, bytes).len() <= schemas.len(),
    decreases schemas.len(),
{
    if schemas.len() > 0 {
        lemma_one_event_per_accepting_schema(schemas.drop_last(), bytes);
    }
}

/// Where two schemas in a row both accept a payload, both events are
/// there, the first schema's first.
pub proof fn lemma_both_schemas_heard(first: SchemaModel, second: SchemaModel, bytes: Seq<u8>)
    requires
        event_of(first, bytes).is_some(),
        event_of(second, bytes).is_some(),
    ensures
        events_of(seq![first, second], bytes) == seq![
            event_of(first, bytes).unwrap(),
            event_of(second, bytes).unwrap(),
        ],
{
    let both = seq![first, second];
    let one = both.drop_last();
    assert(one =~= seq![first]);
    assert(one.drop_last() =~= Seq::<SchemaModel>::empty());
    assert(events_of(one.drop_last(), bytes) =~= Seq::<EventModel>::empty());
    assert(events_of(one, bytes) =~= seq![event_of(first, bytes).unwrap()]);
    assert(events_of(both, bytes) =~= seq![
        event_of(first, bytes).unwrap(),
        event_of(second, bytes).unwrap(),
    ]);
}

impl Event {
    /// The event of `kind` with the fields of `record`.
    pub fn new(kind: EventKind, record: Record) -> (event: Event)
        ensures
            event@ == (EventModel { kind, fields: record@ }),
    {
        match kind {
            EventKind::Buy => Event::Buy(record),
            EventKind::Sell => Event::Sell(record),
            EventKind::CreatePool => Event::CreatePool(record),
            EventKind::Deposit => Event::Deposit(record),
            EventKind::Withdraw => Event::Withdraw(record),
        }
    }

    /// Which kind of event this is.
    pub fn kind(&self) -> (kind: EventKind)
        ensures
            kind == self@.kind,
    {
        match self {
            Event::Buy(_) => EventKind::Buy,
            Event::Sell(_) => EventKind::Sell,
            Event::CreatePool(_) => EventKind::CreatePool,
            Event::Deposit(_) => EventKind::Deposit,
            Event::Withdraw(_) => EventKind::Withdraw,
        }
    }

    /// The fields of the event.
    pub fn record(&self) -> (record: &Record)
        ensures
            record@ == self@.fields,
    {
        match self {
            Event::Buy(record) => record,
            Event::Sell(record) => record,
            Event::CreatePool(record) => record,
            Event::Deposit(record) => record,
            Event::Withdraw(record) => record,
        }
    }

    /// Reads `bytes` under `schema`. Bytes that begin with another
    /// discriminator, or that end before the last field, are a mismatch.
    pub fn decode(schema: &Schema, bytes: &[u8]) -> (event: Result<Event, Flaw>)
        ensures
            match event {
                Ok(found) => event_of(schema@, bytes@) == Some(found@),
                Err(flaw) => event_of(schema@, bytes@).is_none() && flaw == Flaw::DecodeMismatch,
            },
    {
        if !begins(bytes, schema.discriminator.as_slice()) {
            return Err(Flaw::DecodeMismatch);
        }
        let payload = slice_subrange(bytes, schema.discriminator.len(), bytes.len());
        assert(payload@ =~= bytes@.skip(schema.discriminator@.len() as int));
        match Record::decode(&schema.layout, payload) {
            Some(record) => Ok(Event::new(schema.kind, record)),
            None => Err(Flaw::DecodeMismatch),
        }
    }
}

/// Reads `bytes` under each of `schemas` in turn and gathers every event
/// found. A schema that does not accept the bytes is passed over.
pub fn decode_payload(schemas: &Vec<Schema>, bytes: &[u8]) -> (events: Vec<Event>)
    ensures
        event_models(events@) == events_of(schema_models(schemas@), bytes@),
{
    let mut events: Vec<Event> = Vec::new();
    let mut i: usize = 0;
    assert(schema_models(schemas@).take(0) =~= Seq::<SchemaModel>::empty());
    assert(event_models(events@) =~= Seq::<EventModel>::empty());
    while i < schemas.len()
        invariant
            i <= schemas@.len(),
            event_models(events@) == events_of(schema_models(schemas@).take(i as int), bytes@),
        decreases schemas@.len() - i,
    {
        let ghost models = schema_models(schemas@);
        let ghost before = event_models(events@);
        proof {
            assert(models.take(i + 1).drop_last() =~= models.take(i as int));
            assert(models.take(i + 1).last() == schemas@[i as int]@);
        }
        match Event::decode(&schemas[i], bytes) {
            Ok(event) => {
                events.push(event);
                assert(event_models(events@) =~= before.push(event@));
            },
            Err(_) => {},
        }
        i += 1;
    }
    assert(schema_models(schemas@).take(i as int) =~= schema_models(schemas@));
    events
}

} // verus!
