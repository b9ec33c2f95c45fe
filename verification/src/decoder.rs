//! From log lines to events: one line, and a whole batch.

use crate::encoding::base64_decoded;
use crate::encoding::decode_base64;
use crate::event::decode_payload;
use crate::event::event_models;
use crate::event::events_of;
use crate::event::Event;
use crate::event::EventModel;
use crate::frame::in_scope_spec;
use crate::frame::stack_after;
use crate::frame::FrameModel;
use crate::frame::FrameTracker;
use crate::line::begins;
use crate::line::begins_with;
use crate::line::classify_spec;
use crate::line::classify_tail;
use crate::line::failed_infix;
use crate::line::invoke_infix;
use crate::line::lemma_id_run;
use crate::line::lemma_phrasing_bytes;
use crate::line::lemma_readings_take;
use crate::line::lines_bytes;
use crate::line::program_prefix;
use crate::line::readings;
use crate::line::success_suffix;
use crate::line::LineModel;
use crate::schema::known_schemas;
use crate::schema::known_schemas_spec;
use crate::schema::schema_models;
use crate::schema::Schema;
use crate::schema::SchemaModel;
use vstd::prelude::*;
use vstd::slice::slice_subrange;
use vstd::string::StringSliceAdditionalSpecFns;
use vstd::utf8::is_ascii_chars;
use vstd::utf8::is_ascii_chars_encode_utf8;

verus! {

/// Begins a line that carries a payload.
pub open spec fn data_marker() -> Seq<u8> {
    "Program data: ".spec_bytes()
}

/// Begins a line of plain output. Programs built with early tools wrote
/// their payloads into such lines, so they are read as well.
pub open spec fn log_marker() -> Seq<u8> {
    "Program log: ".spec_bytes()
}

/// The text behind the marker of a line, where the line has one.
pub open spec fn carried_text(line: Seq<u8>) -> Option<Seq<u8>> {
    if begins_with(line, log_marker()) {
        Some(line.skip(log_marker().len() as int))
    } else if begins_with(line, data_marker()) {
        Some(line.skip(data_marker().len() as int))
    } else {
        None
    }
}

/// The events of a payload once its text has been decoded. A text that
/// is not base64 gives none.
pub open spec fn payload_events(schemas: Seq<SchemaModel>, decoded: Option<Seq<u8>>) -> Seq<
    EventModel,
> {
    match decoded {
        Some(bytes) => events_of(schemas, bytes),
        None => Seq::empty(),
    }
}

/// The events that a line holds under `schemas`. A line without a marker
/// gives none.
pub open spec fn line_events(schemas: Seq<SchemaModel>, line: Seq<u8>) -> Seq<EventModel> {
    match carried_text(line) {
        Some(text) => payload_events(schemas, base64_decoded(text)),
        None => Seq::empty(),
    }
}

/// The stack of invocations once `lines` have been read from the start
/// of a batch.
pub open spec fn stack_at_end(lines: Seq<Seq<u8>>) -> Seq<FrameModel> {
    stack_after(Seq::empty(), readings(lines))
}

/// The events of a batch: those of each line that is reached while
/// `target` is the innermost running program, in the order of the lines.
pub open spec fn batch_events(
    schemas: Seq<SchemaModel>,
    lines: Seq<Seq<u8>>,
    target: Seq<u8>,
) -> Seq<EventModel>
    decreases lines.len(),
{
    if lines.len() == 0 {
        Seq::empty()
    } else {
        let front = lines.drop_last();
        let before = batch_events(schemas, front, target);
        if in_scope_spec(stack_at_end(front), target) {
            before + line_events(schemas, lines.last())
        } else {
            before
        }
    }
}

/// For each line of a batch, whether it belongs to `target`.
pub open spec fn batch_scopes(lines: Seq<Seq<u8>>, target: Seq<u8>) -> Seq<bool> {
    Seq::new(lines.len(), |i: int| in_scope_spec(stack_at_end(lines.take(i)), target))
}

/// The bytes of the markers: `Program data: ` and `Program log: `.
pub proof fn lemma_marker_bytes()
    ensures
        data_marker() == seq![
            0x50u8,
            0x72u8,
            0x6fu8,
            0x67u8,
            0x72u8,
            0x61u8,
            0x6du8,
            0x20u8,
            0x64u8,
            0x61u8,
            0x74u8,
            0x61u8,
            0x3au8,
            0x20u8,
        ],
        log_marker() == seq![
            0x50u8,
            0x72u8,
            0x6fu8,
            0x67u8,
            0x72u8,
            0x61u8,
            0x6du8,
            0x20u8,
            0x6cu8,
            0x6fu8,
            0x67u8,
            0x3au8,
            0x20u8,
        ],
{
    reveal_strlit("Program data: ");
    reveal_strlit("Program log: ");
    assert(is_ascii_chars("Program data: "@));
    assert(is_ascii_chars("Program log: "@));
    is_ascii_chars_encode_utf8("Program data: "@);
    is_ascii_chars_encode_utf8("Program log: "@);
    assert(data_marker() =~= seq![
        0x50u8,
        0x72u8,
        0x6fu8,
        0x67u8,
        0x72u8,
        0x61u8,
        0x6du8,
        0x20u8,
        0x64u8,
        0x61u8,
        0x74u8,
        0x61u8,
        0x3au8,
        0x20u8,
    ]);
    assert(log_marker() =~= seq![
        0x50u8,
        0x72u8,
        0x6fu8,
        0x67u8,
        0x72u8,
        0x61u8,
        0x6du8,
        0x20u8,
        0x6cu8,
        0x6fu8,
        0x67u8,
        0x3au8,
        0x20u8,
    ]);
}

/// A line that carries a payload neither opens nor closes an invocation:
/// reading it for events and following it through the tree never
/// interfere.
pub proof fn lemma_payload_line_is_other(line: Seq<u8>)
    requires
        carried_text(line).is_some(),
    ensures
        classify_spec(line) is Other,
{
    lemma_marker_bytes();
    lemma_phrasing_bytes();
    let marker = if begins_with(line, log_marker()) {
        log_marker()
    } else {
        data_marker()
    };
    let word: int = marker.len() - 10;
    assert(begins_with(line, marker));
    assert forall|i: int| 0 <= i < marker.len() implies line[i] == marker[i] by {
        assert(line.take(marker.len() as int)[i] == line[i]);
    }
    assert(line.take(program_prefix().len() as int) =~= program_prefix());
    let body = line.skip(program_prefix().len() as int);
    assert forall|i: int| 0 <= i < marker.len() - 8 implies body[i] == marker[i + 8] by {
        assert(body[i] == line[i + 8]);
    }
    lemma_id_run(body, word);
    let tail = body.skip(word);
    assert(tail[0] == 0x3au8) by {
        assert(tail[0] == body[word]);
    }
    assert(tail != success_suffix());
    assert(!begins_with(tail, failed_infix())) by {
        if begins_with(tail, failed_infix()) {
            assert(tail.take(failed_infix().len() as int)[0] == tail[0]);
        }
    }
    assert(!begins_with(tail, invoke_infix())) by {
        if begins_with(tail, invoke_infix()) {
            assert(tail.take(invoke_infix().len() as int)[0] == tail[0]);
        }
    }
    assert(classify_tail(body.take(word), tail) is Other);
}

/// Reading the same line again gives the same events, as many and in the
/// same order.
pub proof fn lemma_decode_repeatable(
    schemas: Seq<SchemaModel>,
    line: Seq<u8>,
    first: Seq<Event>,
    second: Seq<Event>,
)
    requires
        event_models(first) == line_events(schemas, line),
        event_models(second) == line_events(schemas, line),
    ensures
        first.len() == second.len(),
        forall|i: int| 0 <= i < first.len() ==> first[i]@ == second[i]@,
{
    assert(event_models(first).len() == first.len());
    assert(event_models(second).len() == second.len());
    assert forall|i: int| 0 <= i < first.len() implies first[i]@ == second[i]@ by {
        assert(event_models(first)[i] == first[i]@);
        assert(event_models(second)[i] == second[i]@);
    }
}

/// A line whose marker is followed by text that is not base64 holds no
/// event.
pub proof fn lemma_bad_text_holds_nothing(schemas: Seq<SchemaModel>, line: Seq<u8>)
    requires
        carried_text(line).is_some(),
        base64_decoded(carried_text(line).unwrap()).is_none(),
    ensures
        line_events(schemas, line).len() == 0,
{
}

/// The text behind the marker of `line`, where the line has one.
pub fn carried(line: &[u8]) -> (text: Option<&[u8]>)
    ensures
        match text {
            Some(found) => carried_text(line@) == Some(found@),
            None => carried_text(line@).is_none(),
        },
{
    if begins(line, "Program log: ".as_bytes()) {
        let text = slice_subrange(line, "Program log: ".as_bytes().len(), line.len());
        assert(text@ =~= line@.skip(log_marker().len() as int));
        Some(text)
    } else if begins(line, "Program data: ".as_bytes()) {
        let text = slice_subrange(line, "Program data: ".as_bytes().len(), line.len());
        assert(text@ =~= line@.skip(data_marker().len() as int));
        Some(text)
    } else {
        None
    }
}

/// The events of a payload whose text has been put through the base64
/// decoder, `decoded` being what came out.
pub fn events_from(schemas: &Vec<Schema>, decoded: Option<Vec<u8>>) -> (events: Vec<Event>)
    ensures
        event_models(events@) == payload_events(
            schema_models(schemas@),
            match decoded {
                Some(bytes) => Some(bytes@),
                None => None,
            },
        ),
        decoded.is_none() ==> events@.len() == 0,
{
    match decoded {
        Some(bytes) => decode_payload(schemas, bytes.as_slice()),
        None => {
            let events: Vec<Event> = Vec::new();
            assert(event_models(events@) =~= Seq::<EventModel>::empty());
            events
        },
    }
}

/// Reads a line known to belong to the program under `schemas`. Every
/// schema is tried, and every one that accepts the payload gives an event;
/// a line that carries no payload, or a broken one, gives none.
pub fn decode_with(schemas: &Vec<Schema>, line: &str) -> (events: Vec<Event>)
    ensures
        event_models(events@) == line_events(schema_models(schemas@), line.spec_bytes()),
        carried_text(line.spec_bytes()).is_none() ==> events@.len() == 0,
        carried_text(line.spec_bytes()).is_some() && base64_decoded(
            carried_text(line.spec_bytes()).unwrap(),
        ).is_none() ==> events@.len() == 0,
{
    match carried(line.as_bytes()) {
        Some(text) => events_from(schemas, decode_base64(text)),
        None => {
            let events: Vec<Event> = Vec::new();
            assert(event_models(events@) =~= Seq::<EventModel>::empty());
            events
        },
    }
}

/// Reads a line known to belong to the program under the published
/// schemas.
pub fn decode(line: &str) -> (events: Vec<Event>)
    ensures
        event_models(events@) == line_events(known_schemas_spec(), line.spec_bytes()),
{
    let schemas = known_schemas();
    decode_with(&schemas, line)
}

/// Says of each line of a batch whether it belongs to `target`: whether
/// `target` is the innermost running program when the line is reached.
pub fn scopes(lines: &Vec<String>, target: &str) -> (inside: Vec<bool>)
    ensures
        inside@ == batch_scopes(lines_bytes(lines@), target.spec_bytes()),
{
    let mut tracker = FrameTracker::new();
    let mut inside: Vec<bool> = Vec::new();
    let mut i: usize = 0;
    let ghost all = lines_bytes(lines@);
    assert(readings(all.take(0)) =~= Seq::<LineModel>::empty());
    while i < lines.len()
        invariant
            i <= lines@.len(),
            all == lines_bytes(lines@),
            tracker@ == stack_at_end(all.take(i as int)),
            inside@.len() == i,
            forall|j: int|
                0 <= j < i ==> inside@[j] == in_scope_spec(
                    stack_at_end(all.take(j)),
                    target.spec_bytes(),
                ),
        decreases lines@.len() - i,
    {
        let line = lines[i].as_str();
        inside.push(tracker.in_scope(target.as_bytes()));
        proof {
            lemma_readings_take(all, i as int);
        }
        tracker.observe(line);
        i += 1;
    }
    assert(inside@ =~= batch_scopes(all, target.spec_bytes()));
    inside
}

/// Reads a batch under `schemas`: the lines are followed through the tree
/// of invocations, and each line that belongs to `target` is decoded.
pub fn parse_logs_with(schemas: &Vec<Schema>, lines: &Vec<String>, target: &str) -> (events: Vec<
    Event,
>)
    ensures
        event_models(events@) == batch_events(
            schema_models(schemas@),
            lines_bytes(lines@),
            target.spec_bytes(),
        ),
        lines@.len() == 0 ==> events@.len() == 0,
{
    let mut tracker = FrameTracker::new();
    let mut events: Vec<Event> = Vec::new();
    let mut i: usize = 0;
    let ghost all = lines_bytes(lines@);
    let ghost models = schema_models(schemas@);
    proof {
        assert(readings(all.take(0)) =~= Seq::<LineModel>::empty());
        assert(event_models(events@) =~= Seq::<EventModel>::empty());
    }
    while i < lines.len()
        invariant
            i <= lines@.len(),
            all == lines_bytes(lines@),
            models == schema_models(schemas@),
            tracker@ == stack_at_end(all.take(i as int)),
            event_models(events@) == batch_events(models, all.take(i as int), target.spec_bytes()),
            lines@.len() == 0 ==> events@.len() == 0,
        decreases lines@.len() - i,
    {
        let line = lines[i].as_str();
        let ghost before = event_models(events@);
        proof {
            lemma_readings_take(all, i as int);
        }
        if tracker.in_scope(target.as_bytes()) {
            let mut found = decode_with(schemas, line);
            let ghost added = event_models(found@);
            events.append(&mut found);
            assert(event_models(events@) =~= before + added);
        }
        tracker.observe(line);
        i += 1;
    }
    assert(all.take(i as int) =~= all);
    events
}

/// One notification of the log subscription: the log of one transaction.
#[derive(Debug, PartialEq, Eq)]
pub struct LogsResponse {
    /// The slot in which the transaction was processed.
    pub slot: u64,
    /// The signature of the transaction.
    pub signature: String,
    /// Whether the transaction ended in an error.
    pub failed: bool,
    /// The lines of the log, in the order in which they were written.
    pub logs: Vec<String>,
}

/// The events that the program `program_id_str` emitted in one
/// transaction, in the order in which its log shows them. Lines written
/// while another program was running are passed over, and so is a payload
/// that no published schema accepts. An empty log gives no event.
pub fn parse_logs_response(logs: &LogsResponse, program_id_str: &str) -> (events: Vec<Event>)
    ensures
        event_models(events@) == batch_events(
            known_schemas_spec(),
            lines_bytes(logs.logs@),
            program_id_str.spec_bytes(),
        ),
        logs.logs@.len() == 0 ==> events@.len() == 0,
{
    let schemas = known_schemas();
    parse_logs_with(&schemas, &logs.logs, program_id_str)
}

} // verus!
