use kiro_rs::kiro_request::{
    payload_byte_size, request_to_json, ConversationState, CurrentMessage, HistoryAssistantMessage,
    HistoryUserMessage, KiroRequest, Message, UserInputMessage,
};
use kiro_rs::payload_truncate::{
    is_assistant, truncate_payload_to_limit, PayloadLimitConfig, DEFAULT_MAX_PAYLOAD_BYTES,
    MINIMAL_FALLBACK_CONTENT, PRIMING_ASSISTANT_MARKER, TRUNCATION_PLACEHOLDER,
};

fn req_with(history: Vec<Message>, current: &str) -> KiroRequest {
    let state = ConversationState::new("conv-test")
        .with_history(history)
        .with_current_message(CurrentMessage::new(UserInputMessage::new(
            current,
            "test-model",
        )));
    KiroRequest {
        conversation_state: state,
        profile_arn: None,
    }
}

fn user(content: &str) -> Message {
    Message::User(HistoryUserMessage::new(content, "test-model"))
}
fn assistant(content: &str) -> Message {
    Message::Assistant(HistoryAssistantMessage::new(content))
}
fn priming() -> Vec<Message> {
    vec![user("SYSTEM PROMPT"), assistant(PRIMING_ASSISTANT_MARKER)]
}

fn contents(req: &KiroRequest) -> Vec<String> {
    req.conversation_state
        .history
        .iter()
        .map(|m| match m {
            Message::User(u) => u.user_input_message.content.clone(),
            Message::Assistant(a) => a.assistant_response_message.content.clone(),
        })
        .collect()
}

#[test]
fn disabled_is_noop() {
    let mut req = req_with((0..40).map(|_| user(&"x".repeat(50_000))).collect(), "now");
    let before = payload_byte_size(&req);
    truncate_payload_to_limit(&mut req, &PayloadLimitConfig { max_bytes: 0 });
    assert_eq!(payload_byte_size(&req), before, "max_bytes=0 必须零改动");
}

#[test]
fn under_budget_is_noop() {
    let mut req = req_with(vec![user("short"), assistant("ok")], "now");
    let n = req.conversation_state.history.len();
    truncate_payload_to_limit(&mut req, &PayloadLimitConfig { max_bytes: 640_000 });
    assert_eq!(req.conversation_state.history.len(), n, "未超预算不应裁剪");
}

#[test]
fn over_budget_fits_and_keeps_priming_and_recent() {
    let mut history = priming();
    for i in 0..60 {
        history.push(user(&format!("user turn {i} {}", "a".repeat(8_000))));
        history.push(assistant(&format!("assistant turn {i} {}", "b".repeat(8_000))));
    }
    let mut req = req_with(history, "current question");
    let cap = 200_000;
    truncate_payload_to_limit(&mut req, &PayloadLimitConfig { max_bytes: cap });
    assert!(payload_byte_size(&req) <= cap, "裁剪后必须 ≤ 上限");
    let h = &req.conversation_state.history;
    assert!(matches!(&h[0], Message::User(_)));
    assert!(
        matches!(&h[1], Message::Assistant(a) if a.assistant_response_message.content == PRIMING_ASSISTANT_MARKER),
        "priming 配对必须保留"
    );
    assert!(
        h.iter().any(|m| matches!(m, Message::User(u) if u.user_input_message.content == TRUNCATION_PLACEHOLDER)),
        "应插入截断占位"
    );
    assert_eq!(
        req.conversation_state.current_message.user_input_message.content,
        "current question"
    );
}

#[test]
fn huge_current_message_hard_truncated() {
    let mut req = req_with(vec![], &"z".repeat(900_000));
    let cap = 300_000;
    truncate_payload_to_limit(&mut req, &PayloadLimitConfig { max_bytes: cap });
    assert!(payload_byte_size(&req) <= cap, "兜底后必须 ≤ 上限");
}

#[test]
fn tail_does_not_start_with_orphan_assistant() {
    let mut history = priming();
    for i in 0..50 {
        history.push(user(&format!("u{i} {}", "a".repeat(9_000))));
        history.push(assistant(&format!("a{i} {}", "b".repeat(9_000))));
    }
    let mut req = req_with(history, "q");
    truncate_payload_to_limit(&mut req, &PayloadLimitConfig { max_bytes: 150_000 });
    let h = &req.conversation_state.history;
    let first_tail = h.iter().position(|m| {
        matches!(m, Message::User(u) if u.user_input_message.content == TRUNCATION_PLACEHOLDER)
    });
    if let Some(idx) = first_tail {
        if let Some(next) = h.get(idx + 1) {
            assert!(!is_assistant(next), "tail 不应以孤立 assistant 开头");
        }
    }
}

#[test]
fn wire_body_is_json_with_escaped_strings() {
    let mut req = req_with(vec![user("say \"hi\"\n"), assistant("ok\\")], "now\u{1}");
    req.profile_arn = Some("arn:x".to_string());
    assert_eq!(
        request_to_json(&req),
        [
            "{\"conversationState\":{\"conversationId\":\"conv-test\",\"history\":[",
            "{\"userInputMessage\":{\"content\":\"say \\\"hi\\\"\\n\",\"modelId\":\"test-model\"}},",
            "{\"assistantResponseMessage\":{\"content\":\"ok\\\\\"}}],",
            "\"currentMessage\":{\"userInputMessage\":{\"content\":\"now\\u0001\",\"modelId\":\"test-model\"}}},",
            "\"profileArn\":\"arn:x\"}",
        ]
        .concat()
    );
    assert_eq!(payload_byte_size(&req), request_to_json(&req).len());
}

#[test]
fn keeps_only_recent_turns_and_placeholder() {
    // Six user turns of 1000 bytes each; cap leaves room for about two of them, but the four
    // most recent always stay, and nothing is cut from the current message if it fits.
    let history: Vec<Message> = (0..6).map(|i| user(&format!("{i}{}", "x".repeat(999)))).collect();
    let mut req = req_with(history, "q");
    let cap = 4_900;
    truncate_payload_to_limit(&mut req, &PayloadLimitConfig { max_bytes: cap });
    let c = contents(&req);
    assert_eq!(c.len(), 5);
    assert_eq!(c[0], TRUNCATION_PLACEHOLDER);
    assert!(c[1].starts_with('2') && c[4].starts_with('5'));
    assert_eq!(req.conversation_state.current_message.user_input_message.content, "q");
}

#[test]
fn leading_assistant_of_kept_tail_is_dropped() {
    let history = vec![
        user(&"u".repeat(3000)),
        assistant(&"a".repeat(3000)),
        assistant("a2"),
        user("u3"),
        assistant("a4"),
        user("u5"),
    ];
    let mut req = req_with(history, "q");
    truncate_payload_to_limit(&mut req, &PayloadLimitConfig { max_bytes: 2000 });
    let c = contents(&req);
    assert_eq!(c, vec![TRUNCATION_PLACEHOLDER, "u3", "a4", "u5"]);
}

#[test]
fn current_message_gets_fallback_when_nothing_is_left() {
    let mut req = req_with(vec![user(&"u".repeat(500))], &"z".repeat(100));
    truncate_payload_to_limit(&mut req, &PayloadLimitConfig { max_bytes: 50 });
    assert_eq!(
        req.conversation_state.current_message.user_input_message.content,
        MINIMAL_FALLBACK_CONTENT
    );
}

#[test]
fn current_message_cut_at_char_boundary() {
    let mut req = req_with(vec![], &"中".repeat(1000));
    let cap = 1000;
    truncate_payload_to_limit(&mut req, &PayloadLimitConfig { max_bytes: cap });
    let content = &req.conversation_state.current_message.user_input_message.content;
    assert!(content.chars().all(|c| c == '中'));
    assert!(payload_byte_size(&req) <= cap);
    assert!(payload_byte_size(&req) > cap - 3);
}

#[test]
fn payload_setting() {
    assert_eq!(PayloadLimitConfig::from_setting(None).max_bytes, DEFAULT_MAX_PAYLOAD_BYTES);
    assert_eq!(PayloadLimitConfig::from_setting(Some(" 1000 ")).max_bytes, 1000);
    assert_eq!(PayloadLimitConfig::from_setting(Some("0")).max_bytes, 0);
    assert_eq!(PayloadLimitConfig::from_setting(Some("x")).max_bytes, DEFAULT_MAX_PAYLOAD_BYTES);
}

#[test]
fn nothing_dropped_keeps_leading_assistant_turns() {
    // Over the cap, but no turn is old enough to go: history stays as it is, no placeholder.
    let mut req = req_with(vec![assistant("a0"), user("u1")], "q");
    truncate_payload_to_limit(&mut req, &PayloadLimitConfig { max_bytes: 1 });
    assert_eq!(contents(&req), vec!["a0", "u1"]);
    let mut req = req_with(vec![assistant("only")], "q");
    truncate_payload_to_limit(&mut req, &PayloadLimitConfig { max_bytes: 1 });
    assert_eq!(contents(&req), vec!["only"]);
    assert_eq!(
        req.conversation_state.current_message.user_input_message.content,
        MINIMAL_FALLBACK_CONTENT
    );
}
