//! JSON text of compaction responses: the response object and the server-sent event stream.
//!
//! Objects are written compactly with their keys in sorted order, the way `serde_json` writes
//! a JSON `Value` object.

use vstd::prelude::*;
use vstd::string::StringExecFns;

use crate::json_text::{json_quote, json_string};
use crate::responses_compaction::{
    event_name, event_name_of, events_of, outcome_usage, response_status, status_of,
    stream_events, CompactionItem, Outcome, StreamEvent, Usage,
};
use crate::utf8_text::{decimal, push_decimal};

verus! {

/// The usage object.
pub open spec fn usage_json(u: Usage) -> Seq<char> {
    "{\"input_tokens\":"@ + decimal(u.input_tokens as nat)
        + ",\"input_tokens_details\":{\"cached_tokens\":"@ + decimal(u.cached_tokens as nat)
        + "},\"output_tokens\":"@ + decimal(u.output_tokens as nat)
        + ",\"output_tokens_details\":{\"reasoning_tokens\":0},\"total_tokens\":"@ + decimal(
        u.total_tokens as nat,
    ) + "}"@
}

/// The compaction item object.
pub open spec fn item_json(item: CompactionItem) -> Seq<char> {
    "{\"encrypted_content\":"@ + json_string(item.encrypted_content@) + ",\"id\":"@ + json_string(
        item.id@,
    ) + ",\"type\":\"compaction\"}"@
}

/// The `output` list's contents: the item of a complete outcome, nothing otherwise.
pub open spec fn output_json(o: Outcome) -> Seq<char> {
    match o {
        Outcome::Complete { item, .. } => item_json(item),
        _ => Seq::empty(),
    }
}

/// The `error` member of a failed outcome.
pub open spec fn error_member(o: Outcome) -> Seq<char> {
    match o {
        Outcome::Failed { code, message, .. } => ",\"error\":{\"code\":"@ + json_string(code@)
            + ",\"message\":"@ + json_string(message@) + "}"@,
        _ => Seq::empty(),
    }
}

/// The `incomplete_details` member of an incomplete outcome (output-token limit).
pub open spec fn incomplete_member(o: Outcome) -> Seq<char> {
    match o {
        Outcome::Incomplete { .. } => ",\"incomplete_details\":{\"reason\":\"max_output_tokens\"}"@,
        _ => Seq::empty(),
    }
}

/// The final response object of an outcome.
pub open spec fn response_json(o: Outcome, id: Seq<char>, model: Seq<char>, created_at: nat) -> Seq<
    char,
> {
    "{\"created_at\":"@ + decimal(created_at) + error_member(o) + ",\"id\":"@ + json_string(id)
        + incomplete_member(o) + ",\"model\":"@ + json_string(model)
        + ",\"object\":\"response\",\"output\":["@ + output_json(o) + "],\"status\":"@
        + json_string(status_of(o)) + ",\"usage\":"@ + usage_json(outcome_usage(o)) + "}"@
}

/// The response object announced before the outcome is known.
pub open spec fn initial_json(id: Seq<char>, model: Seq<char>, created_at: nat) -> Seq<char> {
    "{\"created_at\":"@ + decimal(created_at) + ",\"id\":"@ + json_string(id) + ",\"model\":"@
        + json_string(model) + ",\"object\":\"response\",\"output\":[],\"status\":\"in_progress\"}"@
}

/// The members of one event's data that follow its payload: number and type.
pub open spec fn event_data_tail(e: StreamEvent, seq_no: nat) -> Seq<char> {
    ",\"sequence_number\":"@ + decimal(seq_no) + ",\"type\":"@ + json_string(event_name_of(e))
        + "}"@
}

/// The opening of one event's data, with its payload: the announced response, the item, or
/// the final response.
pub open spec fn event_data_head(
    e: StreamEvent,
    o: Outcome,
    id: Seq<char>,
    model: Seq<char>,
    created_at: nat,
) -> Seq<char> {
    match e {
        StreamEvent::Created | StreamEvent::InProgress => "{\"response\":"@ + initial_json(
            id,
            model,
            created_at,
        ),
        StreamEvent::OutputItemAdded | StreamEvent::OutputItemDone => "{\"item\":"@ + output_json(o)
            + ",\"output_index\":0"@,
        _ => "{\"response\":"@ + response_json(o, id, model, created_at),
    }
}

/// The data of one event.
pub open spec fn event_data(
    e: StreamEvent,
    o: Outcome,
    id: Seq<char>,
    model: Seq<char>,
    created_at: nat,
    seq_no: nat,
) -> Seq<char> {
    event_data_head(e, o, id, model, created_at) + event_data_tail(e, seq_no)
}

/// One server-sent event.
pub open spec fn event_frame(
    e: StreamEvent,
    o: Outcome,
    id: Seq<char>,
    model: Seq<char>,
    created_at: nat,
    seq_no: nat,
) -> Seq<char> {
    "event: "@ + event_name_of(e) + "\ndata: "@ + event_data(e, o, id, model, created_at, seq_no)
        + "\n\n"@
}

/// The first `k` events of the stream, numbered from 0.
pub open spec fn stream_frames(
    o: Outcome,
    id: Seq<char>,
    model: Seq<char>,
    created_at: nat,
    k: nat,
) -> Seq<char>
    decreases k,
{
    if k == 0 {
        Seq::empty()
    } else {
        stream_frames(o, id, model, created_at, (k - 1) as nat) + event_frame(
            events_of(o)[k - 1],
            o,
            id,
            model,
            created_at,
            (k - 1) as nat,
        )
    }
}

/// The whole event stream of an outcome.
pub open spec fn stream_json(o: Outcome, id: Seq<char>, model: Seq<char>, created_at: nat) -> Seq<
    char,
> {
    stream_frames(o, id, model, created_at, events_of(o).len())
}

/// The response object of a complete outcome is the completed response whose `output` list
/// holds exactly the one compaction item, with its encrypted content and id, and whose usage
/// is the outcome's.
pub proof fn law_complete_response_carries_item(
    item: CompactionItem,
    usage: Usage,
    id: Seq<char>,
    model: Seq<char>,
    created_at: nat,
)
    ensures
        response_json(Outcome::Complete { item, usage }, id, model, created_at) == "{\"created_at\":"@
            + decimal(created_at) + ",\"id\":"@ + json_string(id) + ",\"model\":"@ + json_string(
            model,
        ) + ",\"object\":\"response\",\"output\":["@ + "{\"encrypted_content\":"@ + json_string(
            item.encrypted_content@,
        ) + ",\"id\":"@ + json_string(item.id@) + ",\"type\":\"compaction\"}"@ + "],\"status\":"@
            + json_string("completed"@) + ",\"usage\":"@ + usage_json(usage) + "}"@,
{
    let o = Outcome::Complete { item, usage };
    assert(error_member(o) =~= Seq::<char>::empty());
    assert(incomplete_member(o) =~= Seq::<char>::empty());
    assert(response_json(o, id, model, created_at) =~= "{\"created_at\":"@ + decimal(created_at)
        + ",\"id\":"@ + json_string(id) + ",\"model\":"@ + json_string(model)
        + ",\"object\":\"response\",\"output\":["@ + "{\"encrypted_content\":"@ + json_string(
        item.encrypted_content@,
    ) + ",\"id\":"@ + json_string(item.id@) + ",\"type\":\"compaction\"}"@ + "],\"status\":"@
        + json_string("completed"@) + ",\"usage\":"@ + usage_json(usage) + "}"@);
}

/// The stream of a complete outcome ends with the `response.output_item.done` event, numbered 3,
/// whose item is the compaction item, then the `response.completed` event, numbered 4, that
/// carries the final response object.
pub proof fn law_complete_stream_ends_with_item(
    item: CompactionItem,
    usage: Usage,
    id: Seq<char>,
    model: Seq<char>,
    created_at: nat,
)
    ensures
        ({
            let o = Outcome::Complete { item, usage };
            stream_json(o, id, model, created_at) == stream_frames(o, id, model, created_at, 3) + (
            "event: "@ + "response.output_item.done"@ + "\ndata: "@ + (("{\"item\":"@ + (
            "{\"encrypted_content\":"@ + json_string(item.encrypted_content@) + ",\"id\":"@
                + json_string(item.id@) + ",\"type\":\"compaction\"}"@) + ",\"output_index\":0"@) + (
            ",\"sequence_number\":"@ + decimal(3) + ",\"type\":"@ + json_string(
                "response.output_item.done"@,
            ) + "}"@)) + "\n\n"@) + ("event: "@ + "response.completed"@ + "\ndata: "@ + (
            "{\"response\":"@ + response_json(o, id, model, created_at) + (",\"sequence_number\":"@
                + decimal(4) + ",\"type\":"@ + json_string("response.completed"@) + "}"@))
                + "\n\n"@)
        }),
{
    let o = Outcome::Complete { item, usage };
    let e = events_of(o);
    assert(e.len() == 5);
    assert(e[3] == StreamEvent::OutputItemDone);
    assert(e[4] == StreamEvent::Completed);
    assert(stream_frames(o, id, model, created_at, 4) == stream_frames(o, id, model, created_at, 3)
        + event_frame(e[3], o, id, model, created_at, 3));
}

fn push_json_string(out: &mut String, s: &str)
    ensures
        final(out)@ == old(out)@ + json_string(s@),
{
    let quoted = json_quote(s);
    out.append(quoted.as_str());
}

fn push_usage_json(out: &mut String, u: &Usage)
    ensures
        final(out)@ == old(out)@ + usage_json(*u),
{
    let ghost start = out@;
    out.append("{\"input_tokens\":");
    push_decimal(out, u.input_tokens);
    out.append(",\"input_tokens_details\":{\"cached_tokens\":");
    push_decimal(out, u.cached_tokens);
    out.append("},\"output_tokens\":");
    push_decimal(out, u.output_tokens);
    out.append(",\"output_tokens_details\":{\"reasoning_tokens\":0},\"total_tokens\":");
    push_decimal(out, u.total_tokens);
    out.append("}");
    assert(out@ =~= start + usage_json(*u));
}

fn push_output_json(out: &mut String, o: &Outcome)
    ensures
        final(out)@ == old(out)@ + output_json(*o),
{
    let ghost start = out@;
    match o {
        Outcome::Complete { item, .. } => {
            out.append("{\"encrypted_content\":");
            push_json_string(out, item.encrypted_content.as_str());
            out.append(",\"id\":");
            push_json_string(out, item.id.as_str());
            out.append(",\"type\":\"compaction\"}");
        },
        _ => {},
    }
    assert(out@ =~= start + output_json(*o));
}

#[verifier::rlimit(40)]
fn push_response_json(out: &mut String, o: &Outcome, id: &str, model: &str, created_at: u64)
    ensures
        final(out)@ == old(out)@ + response_json(*o, id@, model@, created_at as nat),
{
    let ghost start = out@;
    out.append("{\"created_at\":");
    push_decimal(out, created_at);
    match o {
        Outcome::Failed { code, message, .. } => {
            out.append(",\"error\":{\"code\":");
            push_json_string(out, code.as_str());
            out.append(",\"message\":");
            push_json_string(out, message.as_str());
            out.append("}");
        },
        _ => {},
    }
    let ghost mid = out@;
    assert(mid =~= start + "{\"created_at\":"@ + decimal(created_at as nat) + error_member(*o));
    out.append(",\"id\":");
    push_json_string(out, id);
    match o {
        Outcome::Incomplete { .. } => {
            out.append(",\"incomplete_details\":{\"reason\":\"max_output_tokens\"}");
        },
        _ => {},
    }
    let ghost mid2 = out@;
    assert(mid2 =~= mid + ",\"id\":"@ + json_string(id@) + incomplete_member(*o));
    out.append(",\"model\":");
    push_json_string(out, model);
    out.append(",\"object\":\"response\",\"output\":[");
    push_output_json(out, o);
    out.append("],\"status\":");
    push_json_string(out, response_status(o));
    out.append(",\"usage\":");
    let usage = match o {
        Outcome::Complete { usage, .. } => usage,
        Outcome::Incomplete { usage } => usage,
        Outcome::Failed { usage, .. } => usage,
    };
    push_usage_json(out, usage);
    out.append("}");
    assert(out@ =~= start + response_json(*o, id@, model@, created_at as nat));
}

/// The final response object of `outcome`, with response id `id`, as JSON text.
pub fn response_to_json(outcome: &Outcome, id: &str, model: &str, created_at: u64) -> (res: String)
    ensures
        res@ == response_json(*outcome, id@, model@, created_at as nat),
{
    let mut out = String::new();
    push_response_json(&mut out, outcome, id, model, created_at);
    assert(out@ =~= response_json(*outcome, id@, model@, created_at as nat));
    out
}

fn push_initial_json(out: &mut String, id: &str, model: &str, created_at: u64)
    ensures
        final(out)@ == old(out)@ + initial_json(id@, model@, created_at as nat),
{
    let ghost start = out@;
    out.append("{\"created_at\":");
    push_decimal(out, created_at);
    out.append(",\"id\":");
    push_json_string(out, id);
    out.append(",\"model\":");
    push_json_string(out, model);
    out.append(",\"object\":\"response\",\"output\":[],\"status\":\"in_progress\"}");
    assert(out@ =~= start + initial_json(id@, model@, created_at as nat));
}

fn push_event_data_head(out: &mut String, e: StreamEvent, o: &Outcome, id: &str, model: &str, created_at: u64)
    ensures
        final(out)@ == old(out)@ + event_data_head(e, *o, id@, model@, created_at as nat),
{
    let ghost start = out@;
    match e {
        StreamEvent::Created | StreamEvent::InProgress => {
            out.append("{\"response\":");
            push_initial_json(out, id, model, created_at);
        },
        StreamEvent::OutputItemAdded | StreamEvent::OutputItemDone => {
            out.append("{\"item\":");
            push_output_json(out, o);
            out.append(",\"output_index\":0");
        },
        _ => {
            out.append("{\"response\":");
            push_response_json(out, o, id, model, created_at);
        },
    }
    assert(out@ =~= start + event_data_head(e, *o, id@, model@, created_at as nat));
}

fn push_event_data_tail(out: &mut String, e: StreamEvent, seq_no: u64)
    ensures
        final(out)@ == old(out)@ + event_data_tail(e, seq_no as nat),
{
    let ghost start = out@;
    out.append(",\"sequence_number\":");
    push_decimal(out, seq_no);
    out.append(",\"type\":");
    push_json_string(out, event_name(e));
    out.append("}");
    assert(out@ =~= start + event_data_tail(e, seq_no as nat));
}

fn push_event_frame(
    out: &mut String,
    e: StreamEvent,
    o: &Outcome,
    id: &str,
    model: &str,
    created_at: u64,
    seq_no: u64,
)
    ensures
        final(out)@ == old(out)@ + event_frame(e, *o, id@, model@, created_at as nat, seq_no as nat),
{
    let ghost start = out@;
    out.append("event: ");
    out.append(event_name(e));
    out.append("\ndata: ");
    push_event_data_head(out, e, o, id, model, created_at);
    push_event_data_tail(out, e, seq_no);
    out.append("\n\n");
    assert(out@ =~= start + event_frame(e, *o, id@, model@, created_at as nat, seq_no as nat));
}

/// The server-sent event stream of `outcome` with response id `id`: the events of
/// [`stream_events`], numbered from 0, each with its JSON data.
pub fn stream_body(outcome: &Outcome, id: &str, model: &str, created_at: u64) -> (res: String)
    ensures
        res@ == stream_json(*outcome, id@, model@, created_at as nat),
{
    let events = stream_events(outcome);
    let n = events.len();
    let mut out = String::new();
    let mut i: usize = 0;
    while i < n
        invariant
            n == events@.len(),
            events@ == events_of(*outcome),
            i <= n,
            out@ == stream_frames(*outcome, id@, model@, created_at as nat, i as nat),
        decreases n - i,
    {
        push_event_frame(&mut out, events[i], outcome, id, model, created_at, i as u64);
        i += 1;
    }
    out
}

} // verus!
