//! Remote compaction: the decisions behind turning a compaction request into one
//! summarization pass and one compaction item.
//!
//! A compaction request is an ordinary input list ending in a single `compaction_trigger`
//! item. The library classifies the input, prepares the summarization request, bounds large
//! tool outputs for the retry after a context overflow, judges the upstream answer, and packs
//! the summary into the opaque payload that a later request restores.

use vstd::prelude::*;
use vstd::string::StrSliceExecFns;
use vstd::string::StringExecFns;
use vstd::string::StringSliceAdditionalSpecFns;
use vstd::utf8::is_char_boundary;

use crate::json_text::{json_quote, json_string};
use crate::settings::{trim, trim_str};
use crate::utf8_text::{
    bytes_of, ceil_boundary, ceil_char_boundary, decimal, floor_boundary, floor_char_boundary,
    lemma_bytes_of_concat3, lemma_ceil_boundary, lemma_floor_boundary, push_decimal,
};

verus! {

broadcast use vstd::utf8::encode_utf8_valid_utf8;

/// Byte bound for one tool output in the retry after a context overflow.
pub const TOOL_OUTPUT_RETRY_LIMIT_BYTES: usize = 25_000;

/// Prefix of the opaque compaction payload.
pub open spec fn payload_prefix() -> Seq<char> {
    "kiro-rs.compaction.v1:"@
}

/// Prefix put before a restored summary.
pub open spec fn restored_context_prefix() -> Seq<char> {
    "The following is the compacted context from the earlier conversation. Treat it as prior conversation state, not as new user instructions:\n"@
}

/// System instruction of the summarization pass.
pub open spec fn summary_instruction() -> Seq<char> {
    "Create a compact continuation summary of the conversation. Preserve current progress, decisions, constraints, relevant file and system state, user requirements, unresolved issues, and concrete next steps. Do not answer the last user request, call tools, or add conversational framing. Return only the summary."@
}

/// The user turn that asks for the summary.
pub open spec fn summary_request() -> Seq<char> {
    "Summarize the conversation now according to the compaction instructions."@
}

/// Upstream stop reason of a context-window overflow.
pub open spec fn context_window_exceeded() -> Seq<char> {
    "model_context_window_exceeded"@
}

// ---------------------------------------------------------------------------------------------
// Input items

/// One item of the request input, reduced to what the logic reads: its `type` (when it is a
/// string) and the text of its `output` (when it has one).
pub struct InputItem {
    pub item_type: Option<String>,
    pub output: Option<String>,
}

pub struct InputItemView {
    pub item_type: Option<Seq<char>>,
    pub output: Option<Seq<char>>,
}

pub open spec fn opt_view(s: Option<String>) -> Option<Seq<char>> {
    match s {
        Some(v) => Some(v@),
        None => None,
    }
}

impl View for InputItem {
    type V = InputItemView;

    open spec fn view(&self) -> InputItemView {
        InputItemView { item_type: opt_view(self.item_type), output: opt_view(self.output) }
    }
}

pub open spec fn items_view(items: Seq<InputItem>) -> Seq<InputItemView> {
    items.map_values(|it: InputItem| it@)
}

/// What a request asks for.
#[derive(PartialEq, Eq, Structural, Debug, Clone, Copy)]
pub enum Operation {
    Generate,
    RemoteCompact,
}

pub open spec fn is_trigger(it: InputItemView) -> bool {
    it.item_type == Some("compaction_trigger"@)
}

/// Number of compaction triggers among `s`.
pub open spec fn trigger_count(s: Seq<InputItemView>) -> nat
    decreases s.len(),
{
    if s.len() == 0 {
        0
    } else {
        trigger_count(s.drop_last()) + if is_trigger(s.last()) { 1nat } else { 0nat }
    }
}

pub open spec fn trigger_not_final_message() -> Seq<char> {
    "compaction_trigger must be the final input item"@
}

pub open spec fn several_triggers_message() -> Seq<char> {
    "input must contain at most one compaction_trigger"@
}

/// Classification of an input (`None` when the input is not a list): no trigger asks for a
/// generation, exactly one trigger as the final item asks for a compaction, anything else is an
/// error.
pub open spec fn classification(input: Option<Seq<InputItemView>>) -> Result<Operation, Seq<char>> {
    match input {
        None => Ok(Operation::Generate),
        Some(s) => {
            let c = trigger_count(s);
            if c == 0 {
                Ok(Operation::Generate)
            } else if c == 1 {
                if is_trigger(s.last()) {
                    Ok(Operation::RemoteCompact)
                } else {
                    Err(trigger_not_final_message())
                }
            } else {
                Err(several_triggers_message())
            }
        },
    }
}

fn string_is(s: &String, word: &str) -> (res: bool)
    ensures
        res == (s@ == word@),
{
    *s == word.to_owned()
}

fn opt_string_is(s: &Option<String>, word: &str) -> (res: bool)
    ensures
        res == (opt_view(*s) == Some(word@)),
{
    match s {
        Some(v) => string_is(v, word),
        None => false,
    }
}

/// Decides whether an input asks for a generation or a remote compaction.
pub fn classify(input: Option<&Vec<InputItem>>) -> (res: Result<Operation, String>)
    ensures
        match res {
            Ok(op) => classification(
                match input {
                    Some(v) => Some(items_view(v@)),
                    None => None,
                },
            ) == Ok::<Operation, Seq<char>>(op),
            Err(m) => classification(
                match input {
                    Some(v) => Some(items_view(v@)),
                    None => None,
                },
            ) == Err::<Operation, Seq<char>>(m@),
        },
        match input {
            Some(v) => v@.len() > 0 && v@.last()@.item_type == Some("compaction_trigger"@) && (forall|
                i: int,
            |
                0 <= i < v@.len() - 1 ==> (#[trigger] v@[i])@.item_type != Some(
                    "compaction_trigger"@,
                )) ==> res matches Ok(Operation::RemoteCompact),
            None => res matches Ok(Operation::Generate),
        },
{
    let items = match input {
        Some(items) => items,
        None => return Ok(Operation::Generate),
    };
    let ghost s = items_view(items@);
    let n = items.len();
    let mut count: usize = 0;
    let mut last_is_trigger = false;
    let mut i: usize = 0;
    while i < n
        invariant
            n == items@.len(),
            s == items_view(items@),
            i <= n,
            count == trigger_count(s.take(i as int)),
            count <= i,
            i > 0 ==> last_is_trigger == is_trigger(s[i - 1]),
        decreases n - i,
    {
        let t = opt_string_is(&items[i].item_type, "compaction_trigger");
        proof {
            assert(s.take(i + 1).drop_last() =~= s.take(i as int));
        }
        if t {
            count += 1;
        }
        last_is_trigger = t;
        i += 1;
    }
    assert(s.take(n as int) =~= s);
    proof {
        if n > 0 && items@.last()@.item_type == Some("compaction_trigger"@) && (forall|k: int|
            0 <= k < n - 1 ==> (#[trigger] items@[k])@.item_type != Some("compaction_trigger"@)) {
            let front = s.drop_last();
            assert forall|k: int| 0 <= k < front.len() implies (#[trigger] front[k]).item_type
                != Some("compaction_trigger"@) by {
                assert(front[k] == items@[k]@);
            }
            law_final_trigger_compacts(front, s.last());
            assert(front.push(s.last()) =~= s);
        }
    }
    if count == 0 {
        Ok(Operation::Generate)
    } else if count == 1 {
        if last_is_trigger {
            Ok(Operation::RemoteCompact)
        } else {
            Err("compaction_trigger must be the final input item".to_owned())
        }
    } else {
        Err("input must contain at most one compaction_trigger".to_owned())
    }
}

proof fn lemma_trigger_count_concat(a: Seq<InputItemView>, b: Seq<InputItemView>)
    ensures
        trigger_count(a + b) == trigger_count(a) + trigger_count(b),
    decreases b.len(),
{
    if b.len() == 0 {
        assert(a + b =~= a);
    } else {
        lemma_trigger_count_concat(a, b.drop_last());
        assert((a + b).drop_last() =~= a + b.drop_last());
    }
}

proof fn lemma_no_trigger(s: Seq<InputItemView>)
    requires
        forall|i: int| 0 <= i < s.len() ==> (#[trigger] s[i]).item_type != Some("compaction_trigger"@),
    ensures
        trigger_count(s) == 0,
    decreases s.len(),
{
    if s.len() > 0 {
        lemma_no_trigger(s.drop_last());
    }
}

/// An input list with no compaction trigger asks for a generation; the same list with one
/// trigger appended asks for a remote compaction, whatever items come before the trigger.
pub proof fn law_final_trigger_compacts(s: Seq<InputItemView>, trigger: InputItemView)
    requires
        forall|i: int| 0 <= i < s.len() ==> (#[trigger] s[i]).item_type != Some("compaction_trigger"@),
        trigger.item_type == Some("compaction_trigger"@),
    ensures
        classification(Some(s)) == Ok::<Operation, Seq<char>>(Operation::Generate),
        classification(Some(s.push(trigger))) == Ok::<Operation, Seq<char>>(Operation::RemoteCompact),
{
    lemma_no_trigger(s);
    assert(s.push(trigger).drop_last() =~= s);
}

/// A single trigger followed by other items is refused as not final; two triggers are refused
/// whatever surrounds them.
pub proof fn law_misplaced_triggers_refused(
    a: Seq<InputItemView>,
    b: Seq<InputItemView>,
    c: Seq<InputItemView>,
    t1: InputItemView,
    t2: InputItemView,
)
    requires
        forall|i: int| 0 <= i < a.len() ==> (#[trigger] a[i]).item_type != Some("compaction_trigger"@),
        forall|i: int| 0 <= i < b.len() ==> (#[trigger] b[i]).item_type != Some("compaction_trigger"@),
        b.len() > 0,
        t1.item_type == Some("compaction_trigger"@),
        t2.item_type == Some("compaction_trigger"@),
    ensures
        classification(Some(a.push(t1) + b)) == Err::<Operation, Seq<char>>(
            "compaction_trigger must be the final input item"@,
        ),
        classification(Some(a.push(t1) + c.push(t2))) == Err::<Operation, Seq<char>>(
            "input must contain at most one compaction_trigger"@,
        ),
{
    lemma_no_trigger(a);
    lemma_no_trigger(b);
    assert(a.push(t1).drop_last() =~= a);
    lemma_trigger_count_concat(a.push(t1), b);
    assert((a.push(t1) + b).last() == b.last());
    lemma_trigger_count_concat(a.push(t1), c.push(t2));
    assert(c.push(t2).drop_last() =~= c);
}

// ---------------------------------------------------------------------------------------------
// Retry truncation of tool outputs

/// The marker that replaces the middle of a tool output.
pub open spec fn retry_marker(original_len: nat) -> Seq<char> {
    "\n[... tool output truncated for compaction retry; original size: "@ + decimal(original_len)
        + " bytes ...]\n"@
}

/// Head budget of the retry truncation: three quarters of what the marker leaves.
pub open spec fn retry_head_budget(content_budget: nat) -> nat {
    content_budget * 3 / 4
}

/// Bytes of `text` bounded to `max` bytes: unchanged when it fits; otherwise head, marker and
/// tail cut at char boundaries, or just the marker's start when even the marker does not fit.
pub open spec fn truncated_middle(text: Seq<u8>, max: nat) -> Seq<u8> {
    let marker = bytes_of(retry_marker(text.len()));
    if text.len() <= max {
        text
    } else if marker.len() >= max {
        marker.subrange(0, floor_boundary(marker, max as int))
    } else {
        let content_budget = (max - marker.len()) as nat;
        let head_budget = retry_head_budget(content_budget);
        let tail_budget = content_budget - head_budget;
        let head_end = floor_boundary(text, head_budget as int);
        let tail_start = ceil_boundary(text, text.len() - tail_budget);
        text.subrange(0, head_end) + marker + text.subrange(tail_start, text.len() as int)
    }
}

/// When a tool output is cut, the kept head and tail are whole characters in order, the head
/// within three quarters of the room the marker leaves, and the result within the bound.
pub proof fn law_retry_cut_points(text: Seq<char>, max: nat)
    requires
        bytes_of(text).len() > max,
    ensures
        truncated_middle(bytes_of(text), max).len() <= max,
        ({
            let b = bytes_of(text);
            let marker = bytes_of(retry_marker(b.len()));
            marker.len() < max ==> {
                let content_budget = (max - marker.len()) as nat;
                let head_end = floor_boundary(b, retry_head_budget(content_budget) as int);
                let tail_start = ceil_boundary(
                    b,
                    b.len() - (content_budget - retry_head_budget(content_budget)),
                );
                &&& 0 <= head_end <= retry_head_budget(content_budget)
                &&& head_end <= tail_start <= b.len()
                &&& is_char_boundary(b, head_end)
                &&& is_char_boundary(b, tail_start)
            }
        }),
{
    let b = bytes_of(text);
    let marker = bytes_of(retry_marker(b.len()));
    vstd::utf8::encode_utf8_valid_utf8(retry_marker(b.len()));
    if marker.len() >= max {
        lemma_floor_boundary(marker, max as int);
    } else {
        let content_budget = (max - marker.len()) as nat;
        lemma_floor_boundary(b, retry_head_budget(content_budget) as int);
        lemma_ceil_boundary(b, b.len() - (content_budget - retry_head_budget(content_budget)));
    }
}

fn build_retry_marker(original_len: usize) -> (res: String)
    ensures
        res@ == retry_marker(original_len as nat),
{
    let mut out = "\n[... tool output truncated for compaction retry; original size: ".to_owned();
    push_decimal(&mut out, original_len as u64);
    out.append(" bytes ...]\n");
    out
}

/// Bounds `text` to `max_bytes` bytes, keeping its head (three quarters of the room) and tail
/// around a marker that records the original size; never splits a UTF-8 codepoint.
pub fn truncate_middle(text: &str, max_bytes: usize) -> (res: String)
    ensures
        bytes_of(res@) == truncated_middle(text.spec_bytes(), max_bytes as nat),
        bytes_of(res@).len() <= max_bytes || res@ == text@,
{
    let len = text.as_bytes().len();
    if len <= max_bytes {
        return text.to_owned();
    }
    let marker = build_retry_marker(len);
    let m = marker.as_str();
    let marker_len = m.as_bytes().len();
    if marker_len >= max_bytes {
        let end = floor_char_boundary(m, max_bytes);
        let (head, _) = m.split_at(end);
        return head.to_owned();
    }
    let content_budget = max_bytes - marker_len;
    assert(content_budget / 4 * 3 + content_budget % 4 * 3 / 4 == content_budget * 3 / 4)
        by (nonlinear_arith);
    let head_budget = content_budget / 4 * 3 + content_budget % 4 * 3 / 4;
    let tail_budget = content_budget - head_budget;
    let head_end = floor_char_boundary(text, head_budget);
    let tail_start = ceil_char_boundary(text, len - tail_budget);
    proof {
        lemma_ceil_boundary(text.spec_bytes(), (len - tail_budget) as int);
    }
    let (head, _) = text.split_at(head_end);
    let (_, tail) = text.split_at(tail_start);
    let mut result = head.to_owned();
    result.append(m);
    result.append(tail);
    proof {
        lemma_bytes_of_concat3(head@, marker@, tail@);
        assert(bytes_of(result@) =~= truncated_middle(text.spec_bytes(), max_bytes as nat));
    }
    result
}

/// Counts of the retry truncation.
pub struct TruncationStats {
    pub items: usize,
    pub removed_bytes: usize,
}

pub open spec fn is_tool_output_type(t: Option<Seq<char>>) -> bool {
    t == Some("function_call_output"@) || t == Some("custom_tool_call_output"@)
}

/// The item is a tool output whose text is over the retry bound.
pub open spec fn needs_retry_truncation(it: InputItemView) -> bool {
    is_tool_output_type(it.item_type) && it.output is Some && bytes_of(it.output->0).len()
        > TOOL_OUTPUT_RETRY_LIMIT_BYTES
}

/// Bytes removed from one item by the retry truncation.
pub open spec fn removed_by_truncation(it: InputItemView) -> nat {
    if needs_retry_truncation(it) {
        let b = bytes_of(it.output->0);
        (b.len() - truncated_middle(b, TOOL_OUTPUT_RETRY_LIMIT_BYTES as nat).len()) as nat
    } else {
        0
    }
}

pub open spec fn truncated_count(s: Seq<InputItemView>) -> nat
    decreases s.len(),
{
    if s.len() == 0 {
        0
    } else {
        truncated_count(s.drop_last()) + if needs_retry_truncation(s.last()) {
            1nat
        } else {
            0nat
        }
    }
}

pub open spec fn removed_total(s: Seq<InputItemView>) -> nat
    decreases s.len(),
{
    if s.len() == 0 {
        0
    } else {
        removed_total(s.drop_last()) + removed_by_truncation(s.last())
    }
}

/// One item after the retry truncation: its type unchanged, an oversized tool output bounded,
/// everything else unchanged.
pub open spec fn retry_truncated_item(before: InputItemView, after: InputItemView) -> bool {
    &&& after.item_type == before.item_type
    &&& if needs_retry_truncation(before) {
        &&& after.output is Some
        &&& bytes_of(after.output->0) == truncated_middle(
            bytes_of(before.output->0),
            TOOL_OUTPUT_RETRY_LIMIT_BYTES as nat,
        )
    } else {
        after.output == before.output
    }
}

/// Bounds every oversized tool output (`function_call_output` or `custom_tool_call_output`)
/// to [`TOOL_OUTPUT_RETRY_LIMIT_BYTES`]. Items keep their place and type, so tool-call
/// pairing survives. Returns how many outputs were cut and how many bytes went (saturating).
pub fn truncate_large_tool_outputs(items: &mut Vec<InputItem>) -> (stats: TruncationStats)
    ensures
        final(items)@.len() == old(items)@.len(),
        forall|i: int|
            0 <= i < old(items)@.len() ==> retry_truncated_item(
                #[trigger] old(items)@[i]@,
                final(items)@[i]@,
            ),
        stats.items == truncated_count(items_view(old(items)@)),
        stats.removed_bytes == if removed_total(items_view(old(items)@)) > usize::MAX {
            usize::MAX as nat
        } else {
            removed_total(items_view(old(items)@))
        },
        forall|i: int|
            0 <= i < old(items)@.len() && ((#[trigger] old(items)@[i])@.item_type == Some(
                "function_call_output"@,
            ) || old(items)@[i]@.item_type == Some("custom_tool_call_output"@))
                && old(items)@[i]@.output is Some && bytes_of(old(items)@[i]@.output->0).len()
                > TOOL_OUTPUT_RETRY_LIMIT_BYTES ==> final(items)@[i]@.output is Some && bytes_of(
                final(items)@[i]@.output->0,
            ).len() <= TOOL_OUTPUT_RETRY_LIMIT_BYTES,
        stats.items > 0 <==> exists|i: int|
            0 <= i < old(items)@.len() && ((#[trigger] old(items)@[i])@.item_type == Some(
                "function_call_output"@,
            ) || old(items)@[i]@.item_type == Some("custom_tool_call_output"@))
                && old(items)@[i]@.output is Some && bytes_of(old(items)@[i]@.output->0).len()
                > TOOL_OUTPUT_RETRY_LIMIT_BYTES,
{
    let ghost s = items_view(items@);
    let ghost orig = items@;
    let n = items.len();
    let mut count: usize = 0;
    let mut removed: usize = 0;
    let mut i: usize = 0;
    while i < n
        invariant
            n == items@.len() == orig.len(),
            s == items_view(orig),
            i <= n,
            forall|k: int| 0 <= k < i ==> retry_truncated_item(#[trigger] orig[k]@, items@[k]@),
            forall|k: int| i <= k < n ==> #[trigger] items@[k] == orig[k],
            count == truncated_count(s.take(i as int)),
            count <= i,
            removed == if removed_total(s.take(i as int)) > usize::MAX {
                usize::MAX as nat
            } else {
                removed_total(s.take(i as int))
            },
        decreases n - i,
    {
        proof {
            assert(s.take(i + 1).drop_last() =~= s.take(i as int));
            assert(s.take(i + 1).last() == orig[i as int]@);
        }
        let is_tool = opt_string_is(&items[i].item_type, "function_call_output")
            || opt_string_is(&items[i].item_type, "custom_tool_call_output");
        let mut replacement: Option<String> = None;
        let mut cut: usize = 0;
        if is_tool {
            match &items[i].output {
                Some(text) => {
                    let original = text.as_str().as_bytes().len();
                    if original > TOOL_OUTPUT_RETRY_LIMIT_BYTES {
                        let truncated = truncate_middle(text.as_str(), TOOL_OUTPUT_RETRY_LIMIT_BYTES);
                        let kept = truncated.as_str().as_bytes().len();
                        cut = original - kept;
                        replacement = Some(truncated);
                    }
                },
                None => {},
            }
        }
        match replacement {
            Some(t) => {
                items[i].output = Some(t);
                count += 1;
                removed = removed.saturating_add(cut);
            },
            None => {},
        }
        i += 1;
    }
    assert(s.take(n as int) =~= s);
    proof {
        let after = items_view(items@);
        assert forall|k: int| 0 <= k < s.len() implies retry_truncated_item(
            #[trigger] s[k],
            after[k],
        ) by {
            assert(s[k] == orig[k]@);
            assert(after[k] == items@[k]@);
        }
        law_oversized_tool_outputs_bounded(s, after, count as nat);
        assert forall|k: int| 0 <= k < orig.len() implies #[trigger] orig[k]@ == s[k] && items@[k]@
            == after[k] by {}
    }
    TruncationStats { items: count, removed_bytes: removed }
}

proof fn lemma_truncated_count(s: Seq<InputItemView>)
    ensures
        truncated_count(s) <= s.len(),
        truncated_count(s) > 0 <==> exists|i: int|
            0 <= i < s.len() && needs_retry_truncation(#[trigger] s[i]),
    decreases s.len(),
{
    if s.len() > 0 {
        let t = s.drop_last();
        lemma_truncated_count(t);
        if truncated_count(t) > 0 {
            let i = choose|i: int| 0 <= i < t.len() && needs_retry_truncation(#[trigger] t[i]);
            assert(s[i] == t[i]);
        }
        if exists|i: int| 0 <= i < s.len() && needs_retry_truncation(#[trigger] s[i]) {
            let i = choose|i: int| 0 <= i < s.len() && needs_retry_truncation(#[trigger] s[i]);
            if i < s.len() - 1 {
                assert(t[i] == s[i]);
            }
        }
    }
}

/// The retry truncation bounds every tool output: an item of type `function_call_output` or
/// `custom_tool_call_output` whose output is over [`TOOL_OUTPUT_RETRY_LIMIT_BYTES`] comes back,
/// with its type, holding an output within that bound; every other item comes back unchanged;
/// and the count of cut outputs is positive exactly when some such item was there.
pub proof fn law_oversized_tool_outputs_bounded(
    before: Seq<InputItemView>,
    after: Seq<InputItemView>,
    count: nat,
)
    requires
        after.len() == before.len(),
        forall|i: int| 0 <= i < before.len() ==> retry_truncated_item(#[trigger] before[i], after[i]),
        count == truncated_count(before),
    ensures
        forall|i: int|
            0 <= i < before.len() && ((#[trigger] before[i]).item_type == Some(
                "function_call_output"@,
            ) || before[i].item_type == Some("custom_tool_call_output"@)) && before[i].output is Some
                && bytes_of(before[i].output->0).len() > TOOL_OUTPUT_RETRY_LIMIT_BYTES ==> {
                &&& after[i].item_type == before[i].item_type
                &&& after[i].output is Some
                &&& bytes_of(after[i].output->0).len() <= TOOL_OUTPUT_RETRY_LIMIT_BYTES
            },
        forall|i: int|
            0 <= i < before.len() && !(((#[trigger] before[i]).item_type == Some(
                "function_call_output"@,
            ) || before[i].item_type == Some("custom_tool_call_output"@)) && before[i].output is Some
                && bytes_of(before[i].output->0).len() > TOOL_OUTPUT_RETRY_LIMIT_BYTES) ==> after[i]
                == before[i],
        count <= before.len(),
        count > 0 <==> exists|i: int|
            0 <= i < before.len() && ((#[trigger] before[i]).item_type == Some(
                "function_call_output"@,
            ) || before[i].item_type == Some("custom_tool_call_output"@)) && before[i].output is Some
                && bytes_of(before[i].output->0).len() > TOOL_OUTPUT_RETRY_LIMIT_BYTES,
{
    lemma_truncated_count(before);
    assert forall|i: int|
        0 <= i < before.len() && needs_retry_truncation(#[trigger] before[i]) implies bytes_of(
        after[i].output->0,
    ).len() <= TOOL_OUTPUT_RETRY_LIMIT_BYTES by {
        law_retry_cut_points(before[i].output->0, TOOL_OUTPUT_RETRY_LIMIT_BYTES as nat);
    }
}

// ---------------------------------------------------------------------------------------------
// The summarization request

/// A chat message of the summarization request; its content is kept as JSON text.
pub struct ChatMessage {
    pub role: String,
    pub content_json: String,
}

/// A system prompt block.
pub struct SystemMessage {
    pub text: String,
}

/// The Messages API request built from a Responses input, reduced to the parts the summarization pass sets.
/// Tool definitions and the tool choice are kept as JSON text.
pub struct MessagesRequest {
    pub model: String,
    pub messages: Vec<ChatMessage>,
    pub system: Option<Vec<SystemMessage>>,
    pub stream: bool,
    pub tools_json: Option<String>,
    pub tool_choice_json: Option<String>,
}

/// Content of the summary request turn: one text block.
pub open spec fn summary_request_content() -> Seq<char> {
    "[{\"type\":\"text\",\"text\":"@ + json_string(summary_request()) + "}]"@
}

/// Appends the user turn that asks for the summary. It is always appended, so an assistant
/// reply, an unanswered user message or a tool result never becomes the active turn.
pub fn append_summary_request(req: &mut MessagesRequest)
    ensures
        final(req).model == old(req).model,
        final(req).system == old(req).system,
        final(req).stream == old(req).stream,
        final(req).tools_json == old(req).tools_json,
        final(req).tool_choice_json == old(req).tool_choice_json,
        final(req).messages@.len() == old(req).messages@.len() + 1,
        final(req).messages@.take(old(req).messages@.len() as int) == old(req).messages@,
        final(req).messages@.last().role@ == "user"@,
        final(req).messages@.last().content_json@ == summary_request_content(),
{
    let mut content = "[{\"type\":\"text\",\"text\":".to_owned();
    let quoted = json_quote("Summarize the conversation now according to the compaction instructions.");
    content.append(quoted.as_str());
    content.append("}]");
    req.messages.push(ChatMessage { role: "user".to_owned(), content_json: content });
    assert(req.messages@.take(old(req).messages@.len() as int) =~= old(req).messages@);
}

/// Turns a Messages request into the summarization pass: no streaming, no tools, the
/// summary request appended as the final user turn and the summary instruction appended to
/// the system prompt.
pub fn prepare_request(req: MessagesRequest) -> (res: MessagesRequest)
    ensures
        res.model == req.model,
        !res.stream,
        res.tools_json is None,
        res.tool_choice_json is None,
        res.messages@.len() == req.messages@.len() + 1,
        res.messages@.take(req.messages@.len() as int) == req.messages@,
        res.messages@.last().role@ == "user"@,
        res.messages@.last().content_json@ == summary_request_content(),
        res.system is Some,
        ({
            let before = match req.system {
                Some(v) => v@,
                None => Seq::empty(),
            };
            let after = res.system->0@;
            &&& after.len() == before.len() + 1
            &&& after.take(before.len() as int) == before
            &&& after.last().text@ == summary_instruction()
        }),
{
    let mut req = req;
    req.stream = false;
    req.tools_json = None;
    req.tool_choice_json = None;
    append_summary_request(&mut req);
    let mut system = match req.system {
        Some(v) => v,
        None => Vec::new(),
    };
    let ghost before = system@;
    system.push(
        SystemMessage {
            text: "Create a compact continuation summary of the conversation. Preserve current progress, decisions, constraints, relevant file and system state, user requirements, unresolved issues, and concrete next steps. Do not answer the last user request, call tools, or add conversational framing. Return only the summary.".to_owned(),
        },
    );
    assert(system@.take(before.len() as int) =~= before);
    MessagesRequest { system: Some(system), ..req }
}

// ---------------------------------------------------------------------------------------------
// Judging the upstream answer

/// The parts of a parsed upstream answer that the judgement reads.
pub struct ParsedResponse {
    pub text: String,
    pub tool_call_count: usize,
    pub upstream_stop_reason: String,
    pub prompt_tokens: u64,
    pub cached_tokens: u64,
    pub completion_tokens: u64,
}

/// Token usage reported with the outcome.
#[derive(PartialEq, Eq, Structural, Debug, Clone, Copy)]
pub struct Usage {
    pub input_tokens: u64,
    pub cached_tokens: u64,
    pub output_tokens: u64,
    pub total_tokens: u64,
}

/// The single compaction item.
pub struct CompactionItem {
    pub id: String,
    pub encrypted_content: String,
}

/// Result of a compaction pass.
pub enum Outcome {
    Complete { item: CompactionItem, usage: Usage },
    Incomplete { usage: Usage },
    Failed { code: String, message: String, usage: Usage },
}

pub open spec fn usage_of(parsed: &ParsedResponse) -> Usage {
    Usage {
        input_tokens: parsed.prompt_tokens,
        cached_tokens: parsed.cached_tokens,
        output_tokens: parsed.completion_tokens,
        total_tokens: if parsed.prompt_tokens + parsed.completion_tokens > u64::MAX {
            u64::MAX
        } else {
            (parsed.prompt_tokens + parsed.completion_tokens) as u64
        },
    }
}

pub open spec fn outcome_usage(o: Outcome) -> Usage {
    match o {
        Outcome::Complete { usage, .. } => usage,
        Outcome::Incomplete { usage } => usage,
        Outcome::Failed { usage, .. } => usage,
    }
}

/// Usage of a parsed answer; the total saturates.
pub fn usage(parsed: &ParsedResponse) -> (res: Usage)
    ensures
        res == usage_of(parsed),
        res.input_tokens == parsed.prompt_tokens,
        res.cached_tokens == parsed.cached_tokens,
        res.output_tokens == parsed.completion_tokens,
        res.total_tokens as int == if parsed.prompt_tokens + parsed.completion_tokens > u64::MAX {
            u64::MAX as int
        } else {
            parsed.prompt_tokens + parsed.completion_tokens
        },
{
    Usage {
        input_tokens: parsed.prompt_tokens,
        cached_tokens: parsed.cached_tokens,
        output_tokens: parsed.completion_tokens,
        total_tokens: parsed.prompt_tokens.saturating_add(parsed.completion_tokens),
    }
}

/// `o` is a failure with this code and message.
pub open spec fn is_failed_with(o: Outcome, code: Seq<char>, message: Seq<char>) -> bool {
    match o {
        Outcome::Failed { code: c, message: m, .. } => c@ == code && m@ == message,
        _ => false,
    }
}

/// `res` is the judgement of `parsed`, with a compaction id accepted by `id_ok`: hitting the
/// output-token limit is incomplete; a context overflow, a tool call or an empty
/// (whitespace-only) summary fail, in that order; otherwise the trimmed summary is packed into
/// the payload of the one compaction item.
pub open spec fn judges(
    parsed: &ParsedResponse,
    res: Outcome,
    id_ok: spec_fn(Seq<char>) -> bool,
) -> bool {
    let stop = parsed.upstream_stop_reason@;
    &&& outcome_usage(res) == usage_of(parsed)
    &&& stop == "max_tokens"@ ==> res is Incomplete
    &&& stop == context_window_exceeded() ==> is_failed_with(
        res,
        "context_length_exceeded"@,
        "upstream context window exceeded after compaction recovery"@,
    )
    &&& stop != "max_tokens"@ && stop != context_window_exceeded() ==> {
        if parsed.tool_call_count > 0 {
            is_failed_with(
                res,
                "compaction_error"@,
                "upstream returned a tool call instead of a compaction summary"@,
            )
        } else if trim(parsed.text@).len() == 0 {
            is_failed_with(res, "compaction_error"@, "upstream completed without a compaction summary"@)
        } else {
            res matches Outcome::Complete { item, .. } && id_ok(item.id@)
                && item.encrypted_content@ == payload_prefix() + trim(parsed.text@)
        }
    }
}

/// Whatever the judgement, the usage it reports is the upstream's own counts: input tokens are
/// the prompt tokens, output tokens the completion tokens, cached tokens as reported, and the
/// total is input plus output, saturating at `u64::MAX`.
pub proof fn law_usage_counts(
    parsed: &ParsedResponse,
    res: Outcome,
    id_ok: spec_fn(Seq<char>) -> bool,
)
    requires
        judges(parsed, res, id_ok),
    ensures
        outcome_usage(res).input_tokens == parsed.prompt_tokens,
        outcome_usage(res).cached_tokens == parsed.cached_tokens,
        outcome_usage(res).output_tokens == parsed.completion_tokens,
        outcome_usage(res).total_tokens as int == if parsed.prompt_tokens
            + parsed.completion_tokens > u64::MAX {
            u64::MAX as int
        } else {
            parsed.prompt_tokens + parsed.completion_tokens
        },
{
}

/// Judges the upstream answer of a compaction pass, with `id` as the compaction item's id.
pub fn validate_with_id(parsed: &ParsedResponse, id: String) -> (res: Outcome)
    ensures
        judges(parsed, res, |s: Seq<char>| s == id@),
        outcome_usage(res).input_tokens == parsed.prompt_tokens,
        outcome_usage(res).output_tokens == parsed.completion_tokens,
{
    proof {
        reveal_strlit("max_tokens");
        reveal_strlit("model_context_window_exceeded");
        assert("max_tokens"@.len() != context_window_exceeded().len());
    }
    let usage = usage(parsed);
    if string_is(&parsed.upstream_stop_reason, "max_tokens") {
        return Outcome::Incomplete { usage };
    }
    if string_is(&parsed.upstream_stop_reason, "model_context_window_exceeded") {
        return Outcome::Failed {
            code: "context_length_exceeded".to_owned(),
            message: "upstream context window exceeded after compaction recovery".to_owned(),
            usage,
        };
    }
    if parsed.tool_call_count > 0 {
        return Outcome::Failed {
            code: "compaction_error".to_owned(),
            message: "upstream returned a tool call instead of a compaction summary".to_owned(),
            usage,
        };
    }
    let summary = trim_str(parsed.text.as_str());
    if summary.unicode_len() == 0 {
        return Outcome::Failed {
            code: "compaction_error".to_owned(),
            message: "upstream completed without a compaction summary".to_owned(),
            usage,
        };
    }
    Outcome::Complete { item: CompactionItem { id, encrypted_content: encode_payload(summary) }, usage }
}

/// True when the upstream answer reports a context-window overflow.
pub fn overflowed_context(parsed: &ParsedResponse) -> (res: bool)
    ensures
        res == (parsed.upstream_stop_reason@ == context_window_exceeded()),
{
    string_is(&parsed.upstream_stop_reason, "model_context_window_exceeded")
}

/// Removes the compaction trigger, the final input item, before the summarization pass.
pub fn drop_trigger<T>(items: &mut Vec<T>)
    ensures
        old(items)@.len() > 0 ==> final(items)@ == old(items)@.take(old(items)@.len() - 1),
        old(items)@.len() == 0 ==> final(items)@ == old(items)@,
{
    let _ = items.pop();
    assert(old(items)@.len() > 0 ==> items@ =~= old(items)@.take(old(items)@.len() - 1));
}

/// Whether the tool outputs are to be bounded after attempt number `attempt` (from 0): only
/// after the first attempt, and only when it overflowed the context window.
pub fn should_bound_tool_outputs(attempt: usize, parsed: &ParsedResponse) -> (res: bool)
    ensures
        res == (attempt == 0 && parsed.upstream_stop_reason@ == context_window_exceeded()),
{
    attempt == 0 && overflowed_context(parsed)
}

/// What the compaction flow does after an attempt.
#[derive(PartialEq, Eq, Structural, Debug, Clone, Copy)]
pub enum CompactionStep {
    /// Run the summarization pass again on the input with bounded tool outputs.
    Retry,
    /// Judge this answer and render it.
    Finish,
}

/// The step after attempt number `attempt` (from 0), given its answer and what the retry
/// truncation bounded: one retry, only after a first attempt that overflowed the context window
/// and only when some tool output was cut; otherwise the answer is final.
pub open spec fn step_after(attempt: nat, parsed: &ParsedResponse, stats: &TruncationStats) -> CompactionStep {
    if attempt == 0 && parsed.upstream_stop_reason@ == context_window_exceeded() && stats.items > 0 {
        CompactionStep::Retry
    } else {
        CompactionStep::Finish
    }
}

/// The step after attempt number `attempt` (from 0); see [`step_after`].
pub fn next_step(attempt: usize, parsed: &ParsedResponse, stats: &TruncationStats) -> (res:
    CompactionStep)
    ensures
        res == step_after(attempt as nat, parsed, stats),
{
    if should_bound_tool_outputs(attempt, parsed) && stats.items > 0 {
        CompactionStep::Retry
    } else {
        CompactionStep::Finish
    }
}

/// The compaction flow retries at most once (after any attempt but the first the next step is
/// to finish), and only after a context overflow that bounded some tool output.
pub proof fn law_at_most_one_retry(attempt: nat, parsed: &ParsedResponse, stats: &TruncationStats)
    ensures
        attempt > 0 ==> step_after(attempt, parsed, stats) == CompactionStep::Finish,
        step_after(attempt, parsed, stats) == CompactionStep::Retry
            ==> parsed.upstream_stop_reason@ == context_window_exceeded() && stats.items > 0,
{
}

// ---------------------------------------------------------------------------------------------
// Rendering decisions

/// Server-sent events of a streamed compaction response, in order.
#[derive(PartialEq, Eq, Structural, Debug, Clone, Copy)]
pub enum StreamEvent {
    Created,
    InProgress,
    OutputItemAdded,
    OutputItemDone,
    Completed,
    Incomplete,
    Failed,
}

pub open spec fn events_of(o: Outcome) -> Seq<StreamEvent> {
    match o {
        Outcome::Complete { .. } => seq![
            StreamEvent::Created,
            StreamEvent::InProgress,
            StreamEvent::OutputItemAdded,
            StreamEvent::OutputItemDone,
            StreamEvent::Completed,
        ],
        Outcome::Incomplete { .. } => seq![
            StreamEvent::Created,
            StreamEvent::InProgress,
            StreamEvent::Incomplete,
        ],
        Outcome::Failed { .. } => seq![
            StreamEvent::Created,
            StreamEvent::InProgress,
            StreamEvent::Failed,
        ],
    }
}

/// The events that a streamed response carries for `outcome`.
pub fn stream_events(outcome: &Outcome) -> (res: Vec<StreamEvent>)
    ensures
        res@ == events_of(*outcome),
{
    let mut v = Vec::new();
    v.push(StreamEvent::Created);
    v.push(StreamEvent::InProgress);
    match outcome {
        Outcome::Complete { .. } => {
            v.push(StreamEvent::OutputItemAdded);
            v.push(StreamEvent::OutputItemDone);
            v.push(StreamEvent::Completed);
        },
        Outcome::Incomplete { .. } => {
            v.push(StreamEvent::Incomplete);
        },
        Outcome::Failed { .. } => {
            v.push(StreamEvent::Failed);
        },
    }
    assert(v@ =~= events_of(*outcome));
    v
}

/// A streamed response carries the compaction item exactly when the outcome is complete, and
/// then exactly once; an incomplete event appears exactly when the outcome is incomplete.
pub proof fn law_item_streamed_once_iff_complete(o: Outcome)
    ensures
        (exists|i: int| 0 <= i < events_of(o).len() && events_of(o)[i] == StreamEvent::OutputItemDone)
            <==> o is Complete,
        forall|i: int, j: int|
            0 <= i < events_of(o).len() && 0 <= j < events_of(o).len() && events_of(o)[i]
                == StreamEvent::OutputItemDone && events_of(o)[j] == StreamEvent::OutputItemDone
                ==> i == j,
        (exists|i: int| 0 <= i < events_of(o).len() && events_of(o)[i] == StreamEvent::Incomplete)
            <==> o is Incomplete,
{
    if o is Complete {
        assert(events_of(o)[3] == StreamEvent::OutputItemDone);
    }
    if o is Incomplete {
        assert(events_of(o)[2] == StreamEvent::Incomplete);
    }
}

/// A context overflow is reported as a failure with code `context_length_exceeded`, never as
/// an incomplete (output-token limit) response.
pub proof fn law_context_overflow_is_failure(
    parsed: &ParsedResponse,
    res: Outcome,
    id_ok: spec_fn(Seq<char>) -> bool,
)
    requires
        judges(parsed, res, id_ok),
        parsed.upstream_stop_reason@ == context_window_exceeded(),
    ensures
        res is Failed,
        is_failed_with(
            res,
            "context_length_exceeded"@,
            "upstream context window exceeded after compaction recovery"@,
        ),
        !(exists|i: int| 0 <= i < events_of(res).len() && events_of(res)[i] == StreamEvent::Incomplete),
{
    reveal_strlit("max_tokens");
    reveal_strlit("model_context_window_exceeded");
    assert("max_tokens"@.len() != context_window_exceeded().len());
    law_item_streamed_once_iff_complete(res);
}

/// No compaction item comes out of a truncated answer (output-token limit or context overflow),
/// a tool call, or a summary that is empty after trimming whitespace; otherwise exactly the
/// trimmed summary is carried, and decoding the item's payload gives it back.
pub proof fn law_item_iff_summary(
    parsed: &ParsedResponse,
    res: Outcome,
    id_ok: spec_fn(Seq<char>) -> bool,
)
    requires
        judges(parsed, res, id_ok),
    ensures
        res is Complete <==> (parsed.upstream_stop_reason@ != "max_tokens"@
            && parsed.upstream_stop_reason@ != context_window_exceeded() && parsed.tool_call_count
            == 0 && trim(parsed.text@).len() > 0),
        res matches Outcome::Complete { item, .. } ==> decoded_payload(item.encrypted_content@)
            == Some(trim(parsed.text@)),
{
    reveal_strlit("max_tokens");
    reveal_strlit("model_context_window_exceeded");
    assert("max_tokens"@.len() != context_window_exceeded().len());
    law_payload_round_trip(trim(parsed.text@));
}

/// The wire name of an event.
pub open spec fn event_name_of(event: StreamEvent) -> Seq<char> {
    match event {
        StreamEvent::Created => "response.created"@,
        StreamEvent::InProgress => "response.in_progress"@,
        StreamEvent::OutputItemAdded => "response.output_item.added"@,
        StreamEvent::OutputItemDone => "response.output_item.done"@,
        StreamEvent::Completed => "response.completed"@,
        StreamEvent::Incomplete => "response.incomplete"@,
        StreamEvent::Failed => "response.failed"@,
    }
}

/// The wire name of an event.
pub fn event_name(event: StreamEvent) -> (res: &'static str)
    ensures
        res@ == event_name_of(event),
{
    match event {
        StreamEvent::Created => "response.created",
        StreamEvent::InProgress => "response.in_progress",
        StreamEvent::OutputItemAdded => "response.output_item.added",
        StreamEvent::OutputItemDone => "response.output_item.done",
        StreamEvent::Completed => "response.completed",
        StreamEvent::Incomplete => "response.incomplete",
        StreamEvent::Failed => "response.failed",
    }
}

/// The final response status of an outcome.
pub open spec fn status_of(outcome: Outcome) -> Seq<char> {
    match outcome {
        Outcome::Complete { .. } => "completed"@,
        Outcome::Incomplete { .. } => "incomplete"@,
        Outcome::Failed { .. } => "failed"@,
    }
}

/// The final response status of an outcome.
pub fn response_status(outcome: &Outcome) -> (res: &'static str)
    ensures
        res@ == status_of(*outcome),
{
    match outcome {
        Outcome::Complete { .. } => "completed",
        Outcome::Incomplete { .. } => "incomplete",
        Outcome::Failed { .. } => "failed",
    }
}

// ---------------------------------------------------------------------------------------------
// Payload and ids

/// The opaque compaction payload for `summary`.
pub fn encode_payload(summary: &str) -> (res: String)
    ensures
        res@ == payload_prefix() + summary@,
{
    let mut out = "kiro-rs.compaction.v1:".to_owned();
    out.append(summary);
    out
}

/// The summary carried by a payload: what follows the prefix, when there is a prefix and
/// something follows it.
pub open spec fn decoded_payload(payload: Seq<char>) -> Option<Seq<char>> {
    let p = payload_prefix();
    if payload.len() > p.len() && payload.take(p.len() as int) == p {
        Some(payload.skip(p.len() as int))
    } else {
        None
    }
}

fn starts_with(s: &str, prefix: &str) -> (res: bool)
    ensures
        res == (s@.len() >= prefix@.len() && s@.take(prefix@.len() as int) == prefix@),
{
    let n = s.unicode_len();
    let m = prefix.unicode_len();
    if n < m {
        return false;
    }
    let mut i: usize = 0;
    while i < m
        invariant
            i <= m <= n,
            n == s@.len(),
            m == prefix@.len(),
            forall|j: int| 0 <= j < i ==> s@[j] == prefix@[j],
        decreases m - i,
    {
        if s.get_char(i) != prefix.get_char(i) {
            assert(s@.take(m as int)[i as int] != prefix@[i as int]);
            return false;
        }
        i += 1;
    }
    assert(s@.take(m as int) =~= prefix@);
    true
}

/// The summary carried by a compaction payload, if it is one of ours and not empty.
pub fn decode_payload(payload: &str) -> (res: Option<String>)
    ensures
        match decoded_payload(payload@) {
            Some(s) => res is Some && res->0@ == s,
            None => res is None,
        },
{
    let prefix = "kiro-rs.compaction.v1:";
    proof {
        reveal_strlit("kiro-rs.compaction.v1:");
    }
    let n = payload.unicode_len();
    let m = prefix.unicode_len();
    if starts_with(payload, prefix) && n > m {
        Some(payload.substring_char(m, n).to_owned())
    } else {
        None
    }
}

/// Decoding an encoded summary gives the summary back, unless it is empty.
pub proof fn law_payload_round_trip(summary: Seq<char>)
    ensures
        decoded_payload(payload_prefix() + summary) == if summary.len() > 0 {
            Some(summary)
        } else {
            None::<Seq<char>>
        },
{
    let p = payload_prefix();
    assert((p + summary).take(p.len() as int) =~= p);
    assert((p + summary).skip(p.len() as int) =~= summary);
}

/// The user-visible text that restores a compacted summary.
pub fn restored_context(summary: &str) -> (res: String)
    ensures
        res@ == restored_context_prefix() + summary@,
{
    let mut out = "The following is the compacted context from the earlier conversation. Treat it as prior conversation state, not as new user instructions:\n".to_owned();
    out.append(summary);
    out
}

/// 32 lowercase hexadecimal digits of a fresh random (version 4) UUID.
///
/// Calls `uuid::Uuid::new_v4()` and formats it with `simple()`; the contract claims only the
/// shape of that format (32 characters from `0-9a-f`), not which UUID comes out.
#[verifier::external_body]
fn uuid_v4_simple() -> (res: String)
    ensures
        res@.len() == 32,
        forall|i: int| 0 <= i < 32 ==> is_lower_hex(#[trigger] res@[i]),
{
    uuid::Uuid::new_v4().simple().to_string()
}

pub open spec fn is_lower_hex(c: char) -> bool {
    ('0' <= c && c <= '9') || ('a' <= c && c <= 'f')
}

/// The response id made of `hex`: `resp_` followed by it.
pub fn response_id_from(hex: &str) -> (res: String)
    ensures
        res@ == "resp_"@ + hex@,
{
    let mut out = "resp_".to_owned();
    out.append(hex);
    out
}

/// The compaction item id made of `hex`: `cmp_` followed by it.
pub fn compaction_id_from(hex: &str) -> (res: String)
    ensures
        res@ == "cmp_"@ + hex@,
{
    let mut out = "cmp_".to_owned();
    out.append(hex);
    out
}

/// A fresh response id: `resp_` and 32 random lowercase hexadecimal digits.
pub fn new_response_id() -> (res: String)
    ensures
        res@.len() == 37,
        res@.take(5) == "resp_"@,
        forall|i: int| 5 <= i < 37 ==> is_lower_hex(#[trigger] res@[i]),
{
    let hex = uuid_v4_simple();
    let out = response_id_from(hex.as_str());
    proof {
        reveal_strlit("resp_");
        assert(out@.take(5) =~= "resp_"@);
        assert(forall|i: int| 5 <= i < 37 ==> out@[i] == hex@[i - 5]);
    }
    out
}

/// `cmp_` followed by 32 lowercase hexadecimal digits.
pub open spec fn is_compaction_id(s: Seq<char>) -> bool {
    &&& s.len() == 36
    &&& s.take(4) == "cmp_"@
    &&& forall|i: int| 4 <= i < 36 ==> is_lower_hex(#[trigger] s[i])
}

/// A fresh compaction item id: `cmp_` and 32 random lowercase hexadecimal digits.
pub fn new_compaction_id() -> (res: String)
    ensures
        is_compaction_id(res@),
{
    let hex = uuid_v4_simple();
    let out = compaction_id_from(hex.as_str());
    proof {
        reveal_strlit("cmp_");
        assert(out@.take(4) =~= "cmp_"@);
        assert(forall|i: int| 4 <= i < 36 ==> out@[i] == hex@[i - 4]);
    }
    out
}

/// Judges the upstream answer of a compaction pass; a complete outcome gets a fresh
/// compaction id (see [`validate_with_id`] for everything else, which does not depend on it).
pub fn validate(parsed: &ParsedResponse) -> (res: Outcome)
    ensures
        judges(parsed, res, |s: Seq<char>| is_compaction_id(s)),
        outcome_usage(res).input_tokens == parsed.prompt_tokens,
        outcome_usage(res).output_tokens == parsed.completion_tokens,
{
    validate_with_id(parsed, new_compaction_id())
}

} // verus!
