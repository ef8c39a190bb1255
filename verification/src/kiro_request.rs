//! The conversation request sent upstream, its abstract view and its JSON wire form.

use vstd::prelude::*;
use vstd::string::StringExecFns;
use vstd::string::StringSliceAdditionalSpecFns;

use crate::json_text::{json_quote, json_string};
use crate::utf8_text::{bytes_of, lemma_bytes_of_concat3};

verus! {

/// A user turn's text and the model it targets.
pub struct UserInputMessage {
    pub content: String,
    pub model_id: String,
}

/// A user turn kept in history.
pub struct HistoryUserMessage {
    pub user_input_message: UserInputMessage,
}

/// The text of an assistant reply.
pub struct AssistantResponseMessage {
    pub content: String,
}

/// An assistant turn kept in history.
pub struct HistoryAssistantMessage {
    pub assistant_response_message: AssistantResponseMessage,
}

/// One history entry.
pub enum Message {
    User(HistoryUserMessage),
    Assistant(HistoryAssistantMessage),
}

/// The turn being asked now.
pub struct CurrentMessage {
    pub user_input_message: UserInputMessage,
}

/// History plus the current turn.
pub struct ConversationState {
    pub conversation_id: String,
    pub history: Vec<Message>,
    pub current_message: CurrentMessage,
}

/// The whole request body.
pub struct KiroRequest {
    pub conversation_state: ConversationState,
    pub profile_arn: Option<String>,
}

/// Abstract history entry.
pub enum MessageView {
    User { content: Seq<char>, model_id: Seq<char> },
    Assistant { content: Seq<char> },
}

/// Abstract request.
pub struct RequestView {
    pub conversation_id: Seq<char>,
    pub history: Seq<MessageView>,
    pub content: Seq<char>,
    pub model_id: Seq<char>,
    pub profile_arn: Option<Seq<char>>,
}

impl View for Message {
    type V = MessageView;

    open spec fn view(&self) -> MessageView {
        match self {
            Message::User(u) => MessageView::User {
                content: u.user_input_message.content@,
                model_id: u.user_input_message.model_id@,
            },
            Message::Assistant(a) => MessageView::Assistant {
                content: a.assistant_response_message.content@,
            },
        }
    }
}

/// The views of a sequence of history entries.
pub open spec fn history_view(h: Seq<Message>) -> Seq<MessageView> {
    h.map_values(|m: Message| m@)
}

impl View for KiroRequest {
    type V = RequestView;

    open spec fn view(&self) -> RequestView {
        RequestView {
            conversation_id: self.conversation_state.conversation_id@,
            history: history_view(self.conversation_state.history@),
            content: self.conversation_state.current_message.user_input_message.content@,
            model_id: self.conversation_state.current_message.user_input_message.model_id@,
            profile_arn: match self.profile_arn {
                Some(a) => Some(a@),
                None => None,
            },
        }
    }
}

impl UserInputMessage {
    pub fn new(content: &str, model_id: &str) -> (res: Self)
        ensures
            res.content@ == content@,
            res.model_id@ == model_id@,
    {
        UserInputMessage { content: content.to_owned(), model_id: model_id.to_owned() }
    }
}

impl HistoryUserMessage {
    pub fn new(content: &str, model_id: &str) -> (res: Self)
        ensures
            res.user_input_message.content@ == content@,
            res.user_input_message.model_id@ == model_id@,
    {
        HistoryUserMessage { user_input_message: UserInputMessage::new(content, model_id) }
    }
}

impl HistoryAssistantMessage {
    pub fn new(content: &str) -> (res: Self)
        ensures
            res.assistant_response_message.content@ == content@,
    {
        HistoryAssistantMessage {
            assistant_response_message: AssistantResponseMessage { content: content.to_owned() },
        }
    }
}

impl CurrentMessage {
    pub fn new(user_input_message: UserInputMessage) -> (res: Self)
        ensures
            res.user_input_message == user_input_message,
    {
        CurrentMessage { user_input_message }
    }
}

impl ConversationState {
    /// An empty conversation with the given id and an empty current message.
    pub fn new(conversation_id: &str) -> (res: Self)
        ensures
            res.conversation_id@ == conversation_id@,
            res.history@.len() == 0,
            res.current_message.user_input_message.content@.len() == 0,
            res.current_message.user_input_message.model_id@.len() == 0,
    {
        ConversationState {
            conversation_id: conversation_id.to_owned(),
            history: Vec::new(),
            current_message: CurrentMessage::new(
                UserInputMessage { content: String::new(), model_id: String::new() },
            ),
        }
    }

    pub fn with_history(self, history: Vec<Message>) -> (res: Self)
        ensures
            res.conversation_id == self.conversation_id,
            res.history == history,
            res.current_message == self.current_message,
    {
        ConversationState { history, ..self }
    }

    pub fn with_current_message(self, current_message: CurrentMessage) -> (res: Self)
        ensures
            res.conversation_id == self.conversation_id,
            res.history == self.history,
            res.current_message == current_message,
    {
        ConversationState { current_message, ..self }
    }
}

/// `{"content":…,"modelId":…}`
pub open spec fn user_input_json(content: Seq<char>, model_id: Seq<char>) -> Seq<char> {
    "{\"content\":"@ + json_string(content) + ",\"modelId\":"@ + json_string(model_id) + "}"@
}

/// The JSON object of one history entry.
pub open spec fn message_json(m: MessageView) -> Seq<char> {
    match m {
        MessageView::User { content, model_id } => "{\"userInputMessage\":"@ + user_input_json(
            content,
            model_id,
        ) + "}"@,
        MessageView::Assistant { content } => "{\"assistantResponseMessage\":{\"content\":"@
            + json_string(content) + "}}"@,
    }
}

/// The history entries joined by commas (the inside of the JSON array).
pub open spec fn history_json(h: Seq<MessageView>) -> Seq<char>
    decreases h.len(),
{
    if h.len() == 0 {
        Seq::empty()
    } else if h.len() == 1 {
        message_json(h[0])
    } else {
        history_json(h.drop_last()) + ","@ + message_json(h.last())
    }
}

/// Everything of the request body that follows the current message's text.
pub open spec fn request_json_tail(r: RequestView) -> Seq<char> {
    ",\"modelId\":"@ + json_string(r.model_id) + "}}}"@ + match r.profile_arn {
        Some(a) => ",\"profileArn\":"@ + json_string(a),
        None => Seq::empty(),
    } + "}"@
}

/// Everything of the request body that precedes the current message's text.
pub open spec fn request_json_head(r: RequestView) -> Seq<char> {
    "{\"conversationState\":{\"conversationId\":"@ + json_string(r.conversation_id)
        + ",\"history\":["@ + history_json(r.history)
        + "],\"currentMessage\":{\"userInputMessage\":{\"content\":"@
}

/// The JSON body of the request.
pub open spec fn request_json(r: RequestView) -> Seq<char> {
    request_json_head(r) + json_string(r.content) + request_json_tail(r)
}

/// Serialized byte size of the whole request.
pub open spec fn payload_size(r: RequestView) -> nat {
    bytes_of(request_json(r)).len()
}

/// Serialized byte size of one history entry plus its array delimiter.
pub open spec fn entry_size(m: MessageView) -> nat {
    bytes_of(message_json(m)).len() + 1
}

/// Total entry size (each entry with its delimiter) of a sequence of history entries.
pub open spec fn entries_size(h: Seq<MessageView>) -> nat
    decreases h.len(),
{
    if h.len() == 0 {
        0
    } else {
        entries_size(h.drop_last()) + entry_size(h.last())
    }
}

/// Entry sizes add up over concatenation.
pub proof fn lemma_entries_size_concat(a: Seq<MessageView>, b: Seq<MessageView>)
    ensures
        entries_size(a + b) == entries_size(a) + entries_size(b),
    decreases b.len(),
{
    if b.len() == 0 {
        assert(a + b =~= a);
    } else {
        lemma_entries_size_concat(a, b.drop_last());
        assert((a + b).drop_last() =~= a + b.drop_last());
        assert((a + b).last() == b.last());
    }
}

/// The joined history takes one byte less than its entry sizes (no delimiter after the last).
pub proof fn lemma_history_json_len(h: Seq<MessageView>)
    ensures
        h.len() == 0 ==> bytes_of(history_json(h)).len() == 0,
        h.len() > 0 ==> bytes_of(history_json(h)).len() + 1 == entries_size(h),
    decreases h.len(),
{
    if h.len() == 0 {
        assert(bytes_of(Seq::<char>::empty()) =~= Seq::<u8>::empty());
    } else if h.len() == 1 {
        assert(h.drop_last() =~= Seq::<MessageView>::empty());
        assert(entries_size(h.drop_last()) == 0);
        assert(h.last() == h[0]);
    } else {
        lemma_history_json_len(h.drop_last());
        lemma_bytes_of_concat3(history_json(h.drop_last()), ","@, message_json(h.last()));
        reveal_strlit(",");
        reveal_with_fuel(vstd::utf8::encode_utf8, 2);
        assert((","@).drop_first() =~= Seq::<char>::empty());
        assert(bytes_of(","@).len() == 1);
    }
}

/// The request size is its history's joined size plus a part that does not depend on history.
pub proof fn lemma_payload_history_split(r: RequestView, h: Seq<MessageView>)
    ensures
        payload_size(RequestView { history: h, ..r }) + bytes_of(history_json(r.history)).len()
            == payload_size(r) + bytes_of(history_json(h)).len(),
{
    let r2 = RequestView { history: h, ..r };
    let a = "{\"conversationState\":{\"conversationId\":"@ + json_string(r.conversation_id)
        + ",\"history\":["@;
    let rest = "],\"currentMessage\":{\"userInputMessage\":{\"content\":"@ + json_string(
        r.content,
    ) + request_json_tail(r);
    assert(request_json(r) =~= a + history_json(r.history) + rest);
    assert(request_json(r2) =~= a + history_json(h) + rest);
    lemma_bytes_of_concat3(a, history_json(r.history), rest);
    lemma_bytes_of_concat3(a, history_json(h), rest);
}

fn push_json_string(out: &mut String, s: &str)
    ensures
        final(out)@ == old(out)@ + json_string(s@),
{
    let quoted = json_quote(s);
    out.append(quoted.as_str());
}

fn push_message_json(out: &mut String, m: &Message)
    ensures
        final(out)@ == old(out)@ + message_json(m@),
{
    let ghost start = out@;
    match m {
        Message::User(u) => {
            out.append("{\"userInputMessage\":{\"content\":");
            push_json_string(out, u.user_input_message.content.as_str());
            out.append(",\"modelId\":");
            push_json_string(out, u.user_input_message.model_id.as_str());
            out.append("}}");
            proof {
                reveal_strlit("{\"userInputMessage\":{\"content\":");
                reveal_strlit("{\"userInputMessage\":");
                reveal_strlit("{\"content\":");
                reveal_strlit("}}");
                reveal_strlit("}");
                assert(out@ =~= start + message_json(m@));
            }
        },
        Message::Assistant(a) => {
            out.append("{\"assistantResponseMessage\":{\"content\":");
            push_json_string(out, a.assistant_response_message.content.as_str());
            out.append("}}");
            proof {
                assert(out@ =~= start + message_json(m@));
            }
        },
    }
}

/// The JSON object of one history entry.
pub fn message_to_json(m: &Message) -> (res: String)
    ensures
        res@ == message_json(m@),
{
    let mut out = String::new();
    push_message_json(&mut out, m);
    proof {
        assert(out@ =~= message_json(m@));
    }
    out
}

/// The JSON body of the request.
pub fn request_to_json(req: &KiroRequest) -> (res: String)
    ensures
        res@ == request_json(req@),
{
    let state = &req.conversation_state;
    let history = &state.history;
    let ghost h = history_view(history@);
    let mut out = String::new();
    out.append("{\"conversationState\":{\"conversationId\":");
    push_json_string(&mut out, state.conversation_id.as_str());
    out.append(",\"history\":[");
    let ghost prefix = out@;
    let n = history.len();
    let mut i: usize = 0;
    while i < n
        invariant
            n == history@.len(),
            h == history_view(history@),
            i <= n,
            out@ == prefix + history_json(h.take(i as int)),
        decreases n - i,
    {
        let ghost before = out@;
        if i > 0 {
            out.append(",");
        }
        push_message_json(&mut out, &history[i]);
        proof {
            let hi = h.take(i + 1);
            assert(hi.drop_last() =~= h.take(i as int));
            assert(hi.last() == history@[i as int]@);
            if i == 0 {
                assert(history_json(h.take(0)) =~= Seq::<char>::empty());
                assert(out@ =~= prefix + history_json(hi));
            } else {
                assert(out@ =~= prefix + history_json(hi));
            }
        }
        i += 1;
    }
    assert(h.take(n as int) =~= h);
    out.append("],\"currentMessage\":{\"userInputMessage\":{\"content\":");
    push_json_string(&mut out, state.current_message.user_input_message.content.as_str());
    out.append(",\"modelId\":");
    push_json_string(&mut out, state.current_message.user_input_message.model_id.as_str());
    out.append("}}}");
    match &req.profile_arn {
        Some(arn) => {
            out.append(",\"profileArn\":");
            push_json_string(&mut out, arn.as_str());
        },
        None => {},
    }
    out.append("}");
    proof {
        assert(out@ =~= request_json(req@));
    }
    out
}

/// Serialized byte size of the whole request (the body the upstream measures).
pub fn payload_byte_size(req: &KiroRequest) -> (res: usize)
    ensures
        res == payload_size(req@),
{
    request_to_json(req).as_str().as_bytes().len()
}

/// Serialized byte size of one history entry plus 1 for its array delimiter, saturating at
/// `usize::MAX`.
pub fn entry_byte_size(m: &Message) -> (res: usize)
    ensures
        res == if entry_size(m@) > usize::MAX { usize::MAX as nat } else { entry_size(m@) },
{
    message_to_json(m).as_str().as_bytes().len().saturating_add(1)
}

} // verus!
