//! Whole-payload truncation: an overall byte cap on the serialized request.
//!
//! When the serialized request is over the cap, the oldest history turns are dropped until it
//! fits. Kept, in order: the system-priming pair at the front of history (a user turn carrying
//! the system prompt and the fixed assistant reply), at least the most recent
//! [`MIN_RECENT_HISTORY_TURNS`] turns, and the current message, which is only hard-truncated as
//! a last resort. One placeholder turn notes where older turns were dropped.

use vstd::prelude::*;
use vstd::string::StringSliceAdditionalSpecFns;
use vstd::utf8::*;

use crate::json_text::{
    json_escape_overhead, json_string, json_string_len, lemma_json_escape_overhead,
    lemma_json_string_len,
};
use crate::kiro_request::{
    entries_size, entry_byte_size, entry_size, history_json, history_view,
    lemma_entries_size_concat, lemma_history_json_len, lemma_payload_history_split, payload_byte_size, payload_size,
    request_json_head, request_json_tail,
    HistoryUserMessage, KiroRequest, Message, MessageView, RequestView, UserInputMessage,
};
use crate::settings::{parse_usize_trimmed, parsed_unsigned, trim};
use crate::utf8_text::{
    bytes_of, floor_boundary, floor_char_boundary, lemma_bytes_of_concat3, lemma_floor_boundary,
};

verus! {

broadcast use {vstd::utf8::encode_utf8_valid_utf8, vstd::utf8::encode_utf8_decode_utf8};

/// Default whole-payload byte cap; `0` disables.
pub const DEFAULT_MAX_PAYLOAD_BYTES: usize = 640_000;

/// Most-recent history entries always kept.
pub const MIN_RECENT_HISTORY_TURNS: usize = 4;

/// The assistant half of the system-priming pair.
pub const PRIMING_ASSISTANT_MARKER: &'static str = "I will follow these instructions.";

/// Text of the turn inserted where older turns were dropped.
pub const TRUNCATION_PLACEHOLDER: &'static str = "[Earlier conversation history was truncated to fit the model's input limit. Older messages and tool activity have been omitted.]";

/// Content left when even the current message must be emptied.
pub const MINIMAL_FALLBACK_CONTENT: &'static str = "[content truncated]";

/// Config for whole-payload truncation. `max_bytes == 0` disables.
#[derive(Debug, Clone, Copy)]
pub struct PayloadLimitConfig {
    pub max_bytes: usize,
}

impl PayloadLimitConfig {
    /// The configuration given the raw cap setting: surrounding whitespace is ignored, `0`
    /// disables, and an absent or unparsable value gives [`DEFAULT_MAX_PAYLOAD_BYTES`].
    pub fn from_setting(max_bytes: Option<&str>) -> (res: Self)
        ensures
            res.max_bytes == match max_bytes {
                Some(v) => match parsed_unsigned(trim(v@), usize::MAX as nat) {
                    Some(n) => n,
                    None => DEFAULT_MAX_PAYLOAD_BYTES as nat,
                },
                None => DEFAULT_MAX_PAYLOAD_BYTES as nat,
            },
    {
        let max_bytes = match max_bytes {
            Some(v) => match parse_usize_trimmed(v) {
                Some(n) => n,
                None => DEFAULT_MAX_PAYLOAD_BYTES,
            },
            None => DEFAULT_MAX_PAYLOAD_BYTES,
        };
        PayloadLimitConfig { max_bytes }
    }
}

/// The assistant half of the system-priming pair.
pub open spec fn priming_marker() -> Seq<char> {
    PRIMING_ASSISTANT_MARKER@
}

/// Text of the turn inserted where older turns were dropped.
pub open spec fn placeholder_text() -> Seq<char> {
    TRUNCATION_PLACEHOLDER@
}

/// Content left when even the current message must be emptied.
pub open spec fn fallback_content() -> Seq<char> {
    MINIMAL_FALLBACK_CONTENT@
}

/// Number of leading history entries that form the system-priming pair (0 or 2): a user turn
/// followed by an assistant turn whose content is exactly the priming marker.
pub open spec fn priming_len(h: Seq<MessageView>) -> nat {
    if h.len() >= 2 && h[0] is User && h[1] is Assistant && h[1]->Assistant_content
        == priming_marker() {
        2
    } else {
        0
    }
}

/// The placeholder turn, addressed to `model_id`.
pub open spec fn placeholder_entry(model_id: Seq<char>) -> MessageView {
    MessageView::User { content: placeholder_text(), model_id }
}

/// Total entry size of `c[j..]`.
pub open spec fn suffix_size(c: Seq<MessageView>, j: int) -> nat
    decreases c.len() - j,
{
    if j < 0 || j >= c.len() {
        0
    } else {
        entry_size(c[j]) + suffix_size(c, j + 1)
    }
}

/// Entry `j` may stay: the kept suffix from `j` fits on top of `base`, or it is one of the
/// most recent turns.
pub open spec fn keeps(c: Seq<MessageView>, base: nat, max: nat, j: int) -> bool {
    base + suffix_size(c, j) <= max || c.len() - j <= MIN_RECENT_HISTORY_TURNS
}

/// Start of the kept suffix: going down from `j`, the first index whose entry may not stay,
/// plus one (0 when all may stay).
pub open spec fn keep_start(c: Seq<MessageView>, base: nat, max: nat, j: int) -> int
    decreases j,
{
    if j <= 0 {
        0
    } else if keeps(c, base, max, j - 1) {
        keep_start(c, base, max, j - 1)
    } else {
        j
    }
}

/// `s` without its leading assistant turns.
pub open spec fn drop_leading_assistants(s: Seq<MessageView>) -> Seq<MessageView>
    decreases s.len(),
{
    if s.len() > 0 && s[0] is Assistant {
        drop_leading_assistants(s.drop_first())
    } else {
        s
    }
}

pub open spec fn with_history(r: RequestView, h: Seq<MessageView>) -> RequestView {
    RequestView { history: h, ..r }
}

pub open spec fn with_content(r: RequestView, c: Seq<char>) -> RequestView {
    RequestView { content: c, ..r }
}

/// Size of the request reduced to its priming pair, plus the placeholder turn.
pub open spec fn base_size(r: RequestView) -> nat {
    payload_size(with_history(r, r.history.take(priming_len(r.history) as int))) + entry_size(
        placeholder_entry(r.model_id),
    )
}

/// History entries after the priming pair.
pub open spec fn conversation_of(r: RequestView) -> Seq<MessageView> {
    r.history.skip(priming_len(r.history) as int)
}

/// Index (into the conversation) of the oldest kept turn, for a cap of `max`.
pub open spec fn kept_from(r: RequestView, max: nat) -> int {
    let c = conversation_of(r);
    keep_start(c, base_size(r), max, c.len() as int)
}

/// The conversation turns kept for a cap of `max`: all of them when none is old enough to go;
/// otherwise the recent suffix without leading assistant turns (whose user turns were dropped).
pub open spec fn kept_turns(r: RequestView, max: nat) -> Seq<MessageView> {
    let kf = kept_from(r, max);
    if kf > 0 {
        drop_leading_assistants(conversation_of(r).skip(kf))
    } else {
        conversation_of(r)
    }
}

/// History after dropping old turns: priming, the placeholder exactly when some turn was
/// removed, and the kept turns.
pub open spec fn trimmed_history(r: RequestView, max: nat) -> Seq<MessageView> {
    let kf = kept_from(r, max);
    r.history.take(priming_len(r.history) as int) + (if kf > 0 {
        seq![placeholder_entry(r.model_id)]
    } else {
        Seq::empty()
    }) + kept_turns(r, max)
}

/// The request with its history trimmed for a cap of `max`.
pub open spec fn history_trimmed(r: RequestView, max: nat) -> RequestView {
    with_history(r, trimmed_history(r, max))
}

/// Serialized size of `r` apart from the raw bytes of the current message's text.
pub open spec fn current_overhead(r: RequestView) -> int {
    payload_size(r) - bytes_of(r.content).len()
}

/// Bytes left for the current message's text under a cap of `max`.
pub open spec fn current_budget(r: RequestView, max: nat) -> int {
    let overhead = if current_overhead(r) > 0 { current_overhead(r) } else { 0 };
    if max > overhead { max - overhead } else { 0 }
}

/// Hard truncation of the current message: cut at a char boundary within the budget, or the
/// fallback text when no budget is left.
pub open spec fn cut_current(r: RequestView, max: nat) -> RequestView {
    let bytes = bytes_of(r.content);
    let budget = current_budget(r, max);
    if bytes.len() > budget {
        if budget == 0 {
            with_content(r, fallback_content())
        } else {
            with_content(r, decode_utf8(bytes.subrange(0, floor_boundary(bytes, budget))))
        }
    } else {
        r
    }
}

/// What whole-payload truncation makes of `r` under a cap of `max`.
pub open spec fn truncated_payload(r: RequestView, max: nat) -> RequestView {
    if max == 0 || payload_size(r) <= max {
        r
    } else {
        let mid = history_trimmed(r, max);
        if payload_size(mid) > max {
            cut_current(mid, max)
        } else {
            mid
        }
    }
}

/// True if the entry is an assistant turn.
pub fn is_assistant(entry: &Message) -> (res: bool)
    ensures
        res == entry@ is Assistant,
{
    match entry {
        Message::Assistant(_) => true,
        Message::User(_) => false,
    }
}

/// Number of leading history entries that form the system-priming pair (0 or 2).
pub fn priming_count(history: &Vec<Message>) -> (res: usize)
    ensures
        res == priming_len(history_view(history@)),
{
    if history.len() >= 2 {
        match (&history[0], &history[1]) {
            (Message::User(_), Message::Assistant(a)) => {
                let marker = PRIMING_ASSISTANT_MARKER.to_owned();
                if a.assistant_response_message.content == marker {
                    return 2;
                }
            },
            _ => {},
        }
    }
    0
}

/// Hard-truncates the current message's content as a last resort: cuts at a UTF-8 boundary
/// within the budget the rest of the request leaves, or, with no budget left, replaces it
/// with a short marker.
pub fn truncate_current_message(req: &mut KiroRequest, max_bytes: usize)
    ensures
        final(req)@ == cut_current(old(req)@, max_bytes as nat),
        final(req).conversation_state.history == old(req).conversation_state.history,
{
    let content_len = req.conversation_state.current_message.user_input_message.content.as_str().as_bytes().len();
    let overhead = payload_byte_size(req).saturating_sub(content_len);
    let budget = max_bytes.saturating_sub(overhead);
    if content_len > budget {
        if budget == 0 {
            req.conversation_state.current_message.user_input_message.content =
                MINIMAL_FALLBACK_CONTENT.to_owned();
        } else {
            let kept = {
                let s = req.conversation_state.current_message.user_input_message.content.as_str();
                let cut = floor_char_boundary(s, budget);
                let (head, _) = s.split_at(cut);
                head.to_owned()
            };
            req.conversation_state.current_message.user_input_message.content = kept;
        }
    }
}

proof fn lemma_drop_leading_assistants(s: Seq<MessageView>, k: int)
    requires
        0 <= k <= s.len(),
        forall|j: int| 0 <= j < k ==> #[trigger] s[j] is Assistant,
        k == s.len() || !(s[k] is Assistant),
    ensures
        drop_leading_assistants(s) == s.skip(k),
    decreases k,
{
    if k == 0 {
        assert(s.skip(0) =~= s);
    } else {
        lemma_drop_leading_assistants(s.drop_first(), k - 1);
        assert(s.drop_first().skip(k - 1) =~= s.skip(k));
    }
}

/// The turns without their leading assistant turns.
fn drop_orphan_assistants(tail: Vec<Message>) -> (res: Vec<Message>)
    ensures
        history_view(res@) == drop_leading_assistants(history_view(tail@)),
{
    let ghost tv = history_view(tail@);
    let mut lead: usize = 0;
    while lead < tail.len() && is_assistant(&tail[lead])
        invariant
            lead <= tail@.len(),
            tv == history_view(tail@),
            forall|k: int| 0 <= k < lead ==> #[trigger] tv[k] is Assistant,
        decreases tail@.len() - lead,
    {
        lead += 1;
    }
    proof {
        lemma_drop_leading_assistants(tv, lead as int);
    }
    let mut tail = tail;
    let rest = tail.split_off(lead);
    assert(history_view(rest@) =~= drop_leading_assistants(tv));
    rest
}

/// Drops the oldest conversation history turns until the serialized payload fits within
/// `cfg.max_bytes`. No-op when disabled (`max_bytes == 0`) or already under budget.
///
/// Preserves the system-priming pair, the most recent turns and the current message; inserts
/// a single placeholder turn where older turns were dropped. If the retained request still
/// exceeds the cap, the current message's text is cut.
pub fn truncate_payload_to_limit(req: &mut KiroRequest, cfg: &PayloadLimitConfig)
    ensures
        final(req)@ == truncated_payload(old(req)@, cfg.max_bytes as nat),
{
    let max = cfg.max_bytes;
    if max == 0 {
        return;
    }
    let before = payload_byte_size(req);
    if before <= max {
        return;
    }
    let ghost r0 = req@;
    let ghost h0 = req.conversation_state.history@;
    let pc = priming_count(&req.conversation_state.history);
    let conversation = req.conversation_state.history.split_off(pc);
    let ghost cv = history_view(conversation@);
    proof {
        assert(history_view(req.conversation_state.history@) =~= r0.history.take(pc as int));
        assert(cv =~= conversation_of(r0));
        assert(req@ == with_history(r0, r0.history.take(pc as int)));
    }
    let model_id = req.conversation_state.current_message.user_input_message.model_id.clone();
    let placeholder = Message::User(
        HistoryUserMessage {
            user_input_message: UserInputMessage {
                content: TRUNCATION_PLACEHOLDER.to_owned(),
                model_id,
            },
        },
    );
    let n = conversation.len();
    let mut sizes: Vec<usize> = Vec::new();
    let mut j: usize = 0;
    while j < n
        invariant
            n == conversation@.len(),
            cv == history_view(conversation@),
            j <= n,
            sizes@.len() == j,
            forall|k: int| 0 <= k < j ==> #[trigger] sizes@[k] == if entry_size(cv[k]) > usize::MAX {
                usize::MAX as nat
            } else {
                entry_size(cv[k])
            },
        decreases n - j,
    {
        sizes.push(entry_byte_size(&conversation[j]));
        j += 1;
    }
    let base = payload_byte_size(req).saturating_add(entry_byte_size(&placeholder));
    let ghost b = base_size(r0);
    assert(base == if b > usize::MAX { usize::MAX as nat } else { b });
    let mut keep_from = n;
    let mut running = base;
    let mut i = n;
    while i > 0
        invariant_except_break
            i <= n == cv.len() == sizes@.len(),
            max < before <= usize::MAX,
            keep_from == i,
            running == if b + suffix_size(cv, i as int) > usize::MAX {
                usize::MAX as nat
            } else {
                b + suffix_size(cv, i as int)
            },
            keep_start(cv, b, max as nat, n as int) == keep_start(cv, b, max as nat, i as int),
            forall|k: int| 0 <= k < n ==> #[trigger] sizes@[k] == if entry_size(cv[k]) > usize::MAX {
                usize::MAX as nat
            } else {
                entry_size(cv[k])
            },
        ensures
            keep_from == keep_start(cv, b, max as nat, n as int),
            keep_from <= n,
        decreases i,
    {
        let k = i - 1;
        let next = running.saturating_add(sizes[k]);
        assert(suffix_size(cv, k as int) == entry_size(cv[k as int]) + suffix_size(cv, i as int));
        if next > max && n - k > MIN_RECENT_HISTORY_TURNS {
            assert(!keeps(cv, b, max as nat, k as int));
            break;
        }
        running = next;
        keep_from = k;
        i = k;
    }
    let mut conversation = conversation;
    let tail = conversation.split_off(keep_from);
    let ghost tv = history_view(tail@);
    assert(tv =~= cv.skip(keep_from as int));
    // Only when older turns went can a kept assistant turn have lost its user turn.
    let mut rest = if keep_from > 0 {
        drop_orphan_assistants(tail)
    } else {
        tail
    };
    assert(keep_from == 0 ==> history_view(rest@) =~= cv);
    let ghost priming_hist = req.conversation_state.history@;
    if keep_from > 0 {
        req.conversation_state.history.push(placeholder);
    }
    req.conversation_state.history.append(&mut rest);
    proof {
        assert(history_view(req.conversation_state.history@) =~= trimmed_history(r0, max as nat));
        assert(req@ == history_trimmed(r0, max as nat));
    }
    if payload_byte_size(req) > max {
        truncate_current_message(req, max);
    }
}

/// A disabled cap, or a request already within the cap, is left exactly as it is.
pub proof fn law_within_cap_unchanged(r: RequestView, max: nat)
    requires
        max == 0 || payload_size(r) <= max,
    ensures
        truncated_payload(r, max) == r,
{
}

/// Truncation never touches the conversation id, the target model, the profile ARN, or the
/// system-priming pair at the front of history.
pub proof fn law_identity_and_priming_kept(r: RequestView, max: nat)
    ensures
        ({
            let t = truncated_payload(r, max);
            let p = priming_len(r.history) as int;
            &&& t.conversation_id == r.conversation_id
            &&& t.model_id == r.model_id
            &&& t.profile_arn == r.profile_arn
            &&& t.history.len() >= p
            &&& t.history.take(p) == r.history.take(p)
        }),
{
    let t = truncated_payload(r, max);
    let p = priming_len(r.history) as int;
    if !(max == 0 || payload_size(r) <= max) {
        let h = trimmed_history(r, max);
        assert(h.take(p) =~= r.history.take(p));
    }
}

proof fn lemma_keep_start_bounds(c: Seq<MessageView>, base: nat, max: nat, j: int)
    requires
        0 <= j <= c.len(),
    ensures
        0 <= keep_start(c, base, max, j) <= j,
        forall|k: int| keep_start(c, base, max, j) <= k < j ==> keeps(c, base, max, k),
        keep_start(c, base, max, j) > 0 ==> !keeps(c, base, max, keep_start(c, base, max, j) - 1),
        c.len() - j < MIN_RECENT_HISTORY_TURNS ==> keep_start(c, base, max, j) <= if c.len()
            >= MIN_RECENT_HISTORY_TURNS {
            c.len() - MIN_RECENT_HISTORY_TURNS
        } else {
            0
        },
    decreases j,
{
    if j > 0 && keeps(c, base, max, j - 1) {
        lemma_keep_start_bounds(c, base, max, j - 1);
    }
}

/// The kept conversation suffix is the longest one each of whose turns may stay (it fits on
/// top of the priming pair and placeholder, or is among the most recent turns), and it always
/// holds the most recent [`MIN_RECENT_HISTORY_TURNS`] turns (all of them when there are fewer).
pub proof fn law_recent_turns_kept(r: RequestView, max: nat)
    ensures
        ({
            let c = conversation_of(r);
            let kf = kept_from(r, max);
            &&& 0 <= kf <= c.len()
            &&& forall|k: int| kf <= k < c.len() ==> keeps(c, base_size(r), max, k)
            &&& kf > 0 ==> !keeps(c, base_size(r), max, kf - 1)
            &&& c.len() >= MIN_RECENT_HISTORY_TURNS ==> kf <= c.len() - MIN_RECENT_HISTORY_TURNS
            &&& c.len() < MIN_RECENT_HISTORY_TURNS ==> kf == 0
        }),
{
    let c = conversation_of(r);
    lemma_keep_start_bounds(c, base_size(r), max, c.len() as int);
}

proof fn lemma_drop_leading_assistants_first(s: Seq<MessageView>)
    ensures
        drop_leading_assistants(s).len() > 0 ==> !(drop_leading_assistants(s)[0] is Assistant),
        s.len() >= drop_leading_assistants(s).len(),
        drop_leading_assistants(s) == s.skip(s.len() - drop_leading_assistants(s).len()),
    decreases s.len(),
{
    if s.len() > 0 && s[0] is Assistant {
        lemma_drop_leading_assistants_first(s.drop_first());
        let d = drop_leading_assistants(s);
        assert(s.drop_first().skip(s.drop_first().len() - d.len()) =~= s.skip(s.len() - d.len()));
    } else {
        assert(s.skip(0) =~= s);
    }
}

/// When the request is over the cap, the history is the priming pair, then the placeholder turn
/// exactly when some turn was removed, then a recent suffix of the conversation. When no turn is
/// old enough to go, history is left exactly as it was; otherwise the kept suffix never starts
/// with an assistant turn whose user turn was dropped.
pub proof fn law_trimmed_history_shape(r: RequestView, max: nat)
    requires
        max > 0,
        payload_size(r) > max,
    ensures
        ({
            let t = truncated_payload(r, max);
            let p = priming_len(r.history) as int;
            let kf = kept_from(r, max);
            let q = if kf > 0 { p + 1 } else { p };
            let c = conversation_of(r);
            &&& t.history == trimmed_history(r, max)
            &&& kf > 0 ==> t.history[p] == placeholder_entry(r.model_id)
            &&& kf == 0 ==> t.history == r.history
            &&& t.history.len() >= q
            &&& kf > 0 && t.history.len() > q ==> !(t.history[q] is Assistant)
            &&& t.history.skip(q) == c.skip(c.len() - (t.history.len() - q))
            &&& t.history.len() - q <= c.len() - kf
        }),
{
    let c = conversation_of(r);
    let kf = kept_from(r, max);
    law_recent_turns_kept(r, max);
    lemma_drop_leading_assistants_first(c.skip(kf));
    let t = truncated_payload(r, max);
    let p = priming_len(r.history) as int;
    let q = if kf > 0 { p + 1 } else { p };
    let d = kept_turns(r, max);
    assert(t.history.skip(q) =~= d);
    if kf > 0 {
        assert(c.skip(kf).skip(c.skip(kf).len() - d.len()) =~= c.skip(c.len() - d.len()));
    } else {
        assert(c.skip(0) =~= c);
        assert(r.history.take(p) + c =~= r.history);
    }
}

/// The current message is only cut when the request with trimmed history is still over the cap.
pub proof fn law_current_message_kept(r: RequestView, max: nat)
    requires
        payload_size(history_trimmed(r, max)) <= max || payload_size(r) <= max || max == 0,
    ensures
        truncated_payload(r, max).content == r.content,
{
}

proof fn lemma_suffix_size(c: Seq<MessageView>, j: int)
    requires
        0 <= j <= c.len(),
    ensures
        suffix_size(c, j) == entries_size(c.skip(j)),
    decreases c.len() - j,
{
    if j < c.len() {
        lemma_suffix_size(c, j + 1);
        assert(c.skip(j) =~= seq![c[j]] + c.skip(j + 1));
        lemma_entries_size_concat(seq![c[j]], c.skip(j + 1));
        assert(seq![c[j]].drop_last() =~= Seq::<MessageView>::empty());
        assert(entries_size(seq![c[j]].drop_last()) == 0);
        assert(seq![c[j]].last() == c[j]);
        assert(entries_size(seq![c[j]]) == entry_size(c[j]));
    } else {
        assert(c.skip(j) =~= Seq::<MessageView>::empty());
    }
}

proof fn lemma_history_append_len(p: Seq<MessageView>, x: Seq<MessageView>)
    ensures
        bytes_of(history_json(p + x)).len() <= bytes_of(history_json(p)).len() + entries_size(x),
{
    lemma_history_json_len(p);
    lemma_history_json_len(x);
    lemma_history_json_len(p + x);
    lemma_entries_size_concat(p, x);
}

/// Dropping old turns alone brings the request within the cap, leaving the current message
/// untouched, whenever the kept conversation suffix fits its budget (on top of the priming pair
/// and the placeholder).
pub proof fn law_dropping_history_fits(r: RequestView, max: nat)
    requires
        max > 0,
        payload_size(r) > max,
        base_size(r) + suffix_size(conversation_of(r), kept_from(r, max)) <= max,
    ensures
        payload_size(history_trimmed(r, max)) <= max,
        truncated_payload(r, max) == history_trimmed(r, max),
{
    let c = conversation_of(r);
    let kf = kept_from(r, max);
    law_recent_turns_kept(r, max);
    let pr = r.history.take(priming_len(r.history) as int);
    let ph = placeholder_entry(r.model_id);
    let s = c.skip(kf);
    let d = kept_turns(r, max);
    let front: Seq<MessageView> = if kf > 0 { seq![ph] } else { Seq::empty() };
    let x = front + d;
    let rp = with_history(r, pr);
    // size of the kept entries
    assert(entries_size(x) <= entry_size(ph) + suffix_size(c, kf)) by {
        lemma_drop_leading_assistants_first(s);
        assert(c.skip(0) =~= c);
        lemma_suffix_size(c, kf);
        assert(s =~= s.take(s.len() - d.len()) + d);
        lemma_entries_size_concat(s.take(s.len() - d.len()), d);
        lemma_entries_size_concat(front, d);
        assert(seq![ph].drop_last() =~= Seq::<MessageView>::empty());
        assert(entries_size(seq![ph].drop_last()) == 0);
        assert(seq![ph].last() == ph);
        assert(entries_size(Seq::<MessageView>::empty()) == 0);
    }
    // size of the request with the trimmed history
    assert(payload_size(with_history(rp, pr + x)) <= payload_size(rp) + entries_size(x)) by {
        lemma_history_append_len(pr, x);
        lemma_payload_history_split(rp, pr + x);
    }
    assert(trimmed_history(r, max) =~= pr + x);
    assert(with_history(rp, pr + x) == history_trimmed(r, max));
}

proof fn lemma_payload_split(r: RequestView)
    ensures
        payload_size(r) == bytes_of(request_json_head(r)).len() + json_string_len(r.content)
            + bytes_of(request_json_tail(r)).len(),
        current_overhead(r) == bytes_of(request_json_head(r)).len() + 2 + json_escape_overhead(
            r.content,
        ) + bytes_of(request_json_tail(r)).len(),
{
    lemma_bytes_of_concat3(request_json_head(r), json_string(r.content), request_json_tail(r));
    lemma_json_string_len(r.content);
}

/// The truncated request fits the cap whenever the trimmed request leaves room for some of the
/// current message's text (its size apart from that text's raw bytes is below the cap).
pub proof fn law_truncated_payload_fits(r: RequestView, max: nat)
    requires
        max > 0,
        current_overhead(history_trimmed(r, max)) < max,
    ensures
        payload_size(truncated_payload(r, max)) <= max,
{
    if payload_size(r) > max {
        let mid = history_trimmed(r, max);
        if payload_size(mid) > max {
            lemma_payload_split(mid);
            lemma_json_escape_overhead(mid.content, Seq::empty());
            let bytes = bytes_of(mid.content);
            let budget = current_budget(mid, max);
            assert(budget > 0);
            assert(bytes.len() > budget);
            let cut = floor_boundary(bytes, budget);
            lemma_floor_boundary(bytes, budget);
            let pre = bytes.subrange(0, cut);
            let suf = bytes.subrange(cut, bytes.len() as int);
            vstd::utf8::valid_utf8_split(bytes, cut);
            vstd::utf8::decode_utf8_split(bytes, cut);
            let p = decode_utf8(pre);
            let q = decode_utf8(suf);
            assert(mid.content == p + q);
            lemma_json_escape_overhead(p, q);
            lemma_json_escape_overhead(q, Seq::empty());
            vstd::utf8::decode_utf8_encode_utf8(pre);
            assert(bytes_of(p) == pre);
            let t = cut_current(mid, max);
            assert(t == with_content(mid, p));
            lemma_payload_split(t);
            assert(request_json_head(t) == request_json_head(mid));
            assert(request_json_tail(t) == request_json_tail(mid));
            lemma_json_string_len(p);
        }
    }
}

/// When the request is over the cap and old turns are dropped, the kept conversation suffix is
/// the longest one that fits: every kept turn either is among the most recent
/// [`MIN_RECENT_HISTORY_TURNS`] turns or fits, with all turns after it, on top of the priming
/// pair and the placeholder; and the newest dropped turn would not fit with them, nor is it one
/// of the most recent turns.
pub proof fn law_longest_fitting_suffix_kept(r: RequestView, max: nat)
    requires
        max > 0,
        payload_size(r) > max,
    ensures
        ({
            let p = priming_len(r.history) as int;
            let pr = r.history.take(p);
            let c = r.history.skip(p);
            let ph = placeholder_entry(r.model_id);
            let base = payload_size(RequestView { history: pr, ..r }) + entry_size(ph);
            exists|k: int|
                #![trigger c.skip(k)]
                {
                    &&& 0 <= k <= c.len()
                    &&& truncated_payload(r, max).history == if k > 0 {
                        pr + seq![ph] + drop_leading_assistants(c.skip(k))
                    } else {
                        r.history
                    }
                    &&& forall|j: int|
                        k <= j < c.len() ==> base + entries_size(#[trigger] c.skip(j)) <= max
                            || c.len() - j <= MIN_RECENT_HISTORY_TURNS
                    &&& k > 0 ==> base + entries_size(c.skip(k - 1)) > max && c.len() - (k - 1)
                        > MIN_RECENT_HISTORY_TURNS
                }
        }),
{
    let p = priming_len(r.history) as int;
    let pr = r.history.take(p);
    let c = r.history.skip(p);
    let ph = placeholder_entry(r.model_id);
    let base = payload_size(RequestView { history: pr, ..r }) + entry_size(ph);
    let kf = kept_from(r, max);
    law_recent_turns_kept(r, max);
    law_trimmed_history_shape(r, max);
    assert(c == conversation_of(r));
    assert(base == base_size(r));
    assert forall|j: int| kf <= j < c.len() implies base + entries_size(#[trigger] c.skip(j)) <= max
        || c.len() - j <= MIN_RECENT_HISTORY_TURNS by {
        lemma_suffix_size(c, j);
        assert(keeps(c, base, max, j));
    }
    if kf > 0 {
        lemma_suffix_size(c, kf - 1);
        assert(!keeps(c, base, max, kf - 1));
        assert(trimmed_history(r, max) =~= pr + seq![ph] + drop_leading_assistants(c.skip(kf)));
    } else {
        assert(pr + c =~= r.history);
    }
    assert(truncated_payload(r, max).history == if kf > 0 {
        pr + seq![ph] + drop_leading_assistants(c.skip(kf))
    } else {
        r.history
    });
}

} // verus!
