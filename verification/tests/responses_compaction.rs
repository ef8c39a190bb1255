use kiro_rs::compaction_render::{response_to_json, stream_body};
use kiro_rs::responses_compaction::{
    classify, compaction_id_from, decode_payload, drop_trigger, encode_payload, event_name,
    new_compaction_id, new_response_id, next_step, prepare_request, response_id_from,
    response_status, restored_context, should_bound_tool_outputs, stream_events,
    truncate_large_tool_outputs, truncate_middle, usage, validate, validate_with_id, ChatMessage,
    CompactionStep, InputItem, MessagesRequest, Operation, Outcome, ParsedResponse, StreamEvent,
    SystemMessage, TruncationStats, TOOL_OUTPUT_RETRY_LIMIT_BYTES,
};
use serde_json::Value;

fn body_of(outcome: &Outcome) -> String {
    stream_body(outcome, "resp_test", "gpt-5.6-sol", 1_700_000_000)
}

fn parsed(text: &str, upstream_stop_reason: &str) -> ParsedResponse {
    ParsedResponse {
        text: text.to_string(),
        tool_call_count: 0,
        upstream_stop_reason: upstream_stop_reason.to_string(),
        prompt_tokens: 10,
        cached_tokens: 2,
        completion_tokens: 4,
    }
}

fn item(t: &str) -> InputItem {
    InputItem {
        item_type: Some(t.to_string()),
        output: None,
    }
}

fn untyped() -> InputItem {
    InputItem {
        item_type: None,
        output: None,
    }
}

fn names(outcome: &Outcome) -> Vec<&'static str> {
    stream_events(outcome).into_iter().map(event_name).collect()
}

#[test]
fn trigger_must_be_unique_and_final() {
    assert_eq!(
        classify(Some(&vec![item("compaction_trigger")])).unwrap(),
        Operation::RemoteCompact
    );
    assert!(classify(Some(&vec![item("compaction_trigger"), untyped()])).is_err());
    assert!(classify(Some(&vec![item("compaction_trigger"), item("compaction_trigger")])).is_err());
    assert_eq!(classify(Some(&vec![untyped()])).unwrap(), Operation::Generate);
}

#[test]
fn classify_messages() {
    assert_eq!(classify(None).unwrap(), Operation::Generate);
    assert_eq!(
        classify(Some(&vec![item("compaction_trigger"), item("message")])).unwrap_err(),
        "compaction_trigger must be the final input item"
    );
    assert_eq!(
        classify(Some(&vec![item("compaction_trigger"), item("compaction_trigger")])).unwrap_err(),
        "input must contain at most one compaction_trigger"
    );
}

#[test]
fn completed_summary_emits_exactly_one_compaction_item() {
    let body = body_of(&validate(&parsed("handoff", "end_turn")));
    assert_eq!(body.matches("event: response.output_item.done").count(), 1);
    assert!(body.contains("\"type\":\"compaction\""));
    assert!(!body.contains("\"type\":\"message\""));
    assert!(body.contains("event: response.completed"));
}

#[test]
fn truncated_or_empty_summary_never_emits_compaction_item() {
    let incomplete = body_of(&validate(&parsed("partial", "max_tokens")));
    assert!(incomplete.contains("event: response.incomplete"));
    assert!(!incomplete.contains("\"type\":\"compaction\""));

    let failed = body_of(&validate(&parsed("   ", "end_turn")));
    assert!(failed.contains("event: response.failed"));
    assert!(!failed.contains("\"type\":\"compaction\""));
}

#[test]
fn context_overflow_is_not_reported_as_max_output_tokens() {
    let body = body_of(&validate(&parsed("partial", "model_context_window_exceeded")));
    assert!(body.contains("event: response.failed"));
    assert!(body.contains("\"code\":\"context_length_exceeded\""));
    assert!(!body.contains("event: response.incomplete"));
    assert!(!body.contains("max_output_tokens"));
    assert!(!body.contains("\"type\":\"compaction\""));
}

#[test]
fn stream_events_follow_the_outcome() {
    let names = |o: &Outcome| -> Vec<&'static str> {
        stream_events(o).into_iter().map(event_name).collect()
    };
    let complete = validate(&parsed("handoff", "end_turn"));
    assert_eq!(
        names(&complete),
        vec![
            "response.created",
            "response.in_progress",
            "response.output_item.added",
            "response.output_item.done",
            "response.completed"
        ]
    );
    assert_eq!(response_status(&complete), "completed");
    let overflow = validate(&parsed("partial", "model_context_window_exceeded"));
    match &overflow {
        Outcome::Failed { code, .. } => assert_eq!(code, "context_length_exceeded"),
        _ => panic!("expected a failure"),
    }
    assert_ne!(response_status(&overflow), "incomplete");
}

#[test]
fn stream_body_is_json_event_stream() {
    let outcome = validate_with_id(&parsed("sum \"q\"", "end_turn"), "cmp_x".to_string());
    let body = body_of(&outcome);
    let frames: Vec<&str> = body.split("\n\n").filter(|f| !f.is_empty()).collect();
    assert_eq!(frames.len(), 5);
    for (i, frame) in frames.iter().enumerate() {
        let (event, data) = frame.split_once("\ndata: ").unwrap();
        let event = event.strip_prefix("event: ").unwrap();
        let data: Value = serde_json::from_str(data).unwrap();
        assert_eq!(data["type"], event);
        assert_eq!(data["sequence_number"], i as u64);
        // Keys are written sorted, compactly: re-serialising gives the same text.
        assert_eq!(serde_json::to_string(&data).unwrap(), frame.split_once("\ndata: ").unwrap().1);
    }
    let done: Value = serde_json::from_str(frames[3].split_once("\ndata: ").unwrap().1).unwrap();
    assert_eq!(done["item"]["id"], "cmp_x");
    assert_eq!(done["item"]["encrypted_content"], "kiro-rs.compaction.v1:sum \"q\"");
    let last: Value = serde_json::from_str(frames[4].split_once("\ndata: ").unwrap().1).unwrap();
    assert_eq!(last["response"]["usage"]["total_tokens"], 14);
    assert_eq!(last["response"]["usage"]["input_tokens_details"]["cached_tokens"], 2);
    assert_eq!(last["response"]["status"], "completed");
    assert_eq!(last["response"]["created_at"], 1_700_000_000u64);
}

#[test]
fn response_object_members() {
    let incomplete = validate(&parsed("partial", "max_tokens"));
    let v: Value = serde_json::from_str(&response_to_json(&incomplete, "resp_1", "m", 5)).unwrap();
    assert_eq!(v["status"], "incomplete");
    assert_eq!(v["incomplete_details"]["reason"], "max_output_tokens");
    assert_eq!(v["output"].as_array().unwrap().len(), 0);
    let failed = validate(&parsed("  ", "end_turn"));
    let text = response_to_json(&failed, "resp_1", "m", 5);
    let v: Value = serde_json::from_str(&text).unwrap();
    assert_eq!(v["error"]["code"], "compaction_error");
    assert_eq!(v["error"]["message"], "upstream completed without a compaction summary");
    assert_eq!(serde_json::to_string(&v).unwrap(), text);
}

#[test]
fn retry_only_once_after_overflow_with_cuts() {
    let overflow = parsed("x", "model_context_window_exceeded");
    let cut = TruncationStats { items: 1, removed_bytes: 10 };
    let none = TruncationStats { items: 0, removed_bytes: 0 };
    assert_eq!(next_step(0, &overflow, &cut), CompactionStep::Retry);
    assert_eq!(next_step(0, &overflow, &none), CompactionStep::Finish);
    assert_eq!(next_step(1, &overflow, &cut), CompactionStep::Finish);
    assert_eq!(next_step(0, &parsed("x", "end_turn"), &cut), CompactionStep::Finish);
    assert!(should_bound_tool_outputs(0, &overflow));
    assert!(!should_bound_tool_outputs(1, &overflow));
    let mut items = vec![item("message"), item("compaction_trigger")];
    drop_trigger(&mut items);
    assert_eq!(items.len(), 1);
    assert_eq!(items[0].item_type.as_deref(), Some("message"));
    let mut empty: Vec<InputItem> = Vec::new();
    drop_trigger(&mut empty);
    assert!(empty.is_empty());
}

#[test]
fn tool_call_instead_of_summary_fails() {
    let mut p = parsed("summary", "tool_use");
    p.tool_call_count = 1;
    match validate(&p) {
        Outcome::Failed { code, message, usage } => {
            assert_eq!(code, "compaction_error");
            assert_eq!(message, "upstream returned a tool call instead of a compaction summary");
            assert_eq!(usage.total_tokens, 14);
        }
        _ => panic!("expected a failure"),
    }
    assert_eq!(
        stream_events(&validate(&parsed("x", "max_tokens"))),
        vec![StreamEvent::Created, StreamEvent::InProgress, StreamEvent::Incomplete]
    );
}

#[test]
fn usage_total_saturates() {
    let mut p = parsed("x", "end_turn");
    p.prompt_tokens = u64::MAX;
    let u = usage(&p);
    assert_eq!(u.total_tokens, u64::MAX);
    assert_eq!(u.cached_tokens, 2);
}

#[test]
fn retry_truncation_is_utf8_safe() {
    let text = "测".repeat(10_000);
    let truncated = truncate_middle(&text, 1000);
    assert!(truncated.len() <= 1000);
    assert!(truncated.contains("tool output truncated for compaction retry"));
}

#[test]
fn truncate_middle_layout() {
    let text = format!("BEGIN:{}:END", "x".repeat(100));
    assert_eq!(truncate_middle(&text, 200), text);
    let marker = "\n[... tool output truncated for compaction retry; original size: 110 bytes ...]\n";
    let out = truncate_middle(&text, marker.len() + 20);
    assert_eq!(out, format!("{}{}{}", &text[..15], marker, &text[105..]));
    assert_eq!(truncate_middle(&text, 10), &marker[..10]);
}

#[test]
fn retry_truncation_bounds_only_large_tool_outputs() {
    let large_output = format!("BEGIN:{}:END", "x".repeat(TOOL_OUTPUT_RETRY_LIMIT_BYTES + 1000));
    let mut items = vec![
        item("message"),
        InputItem {
            item_type: Some("function_call_output".to_string()),
            output: Some(large_output.clone()),
        },
        InputItem {
            item_type: Some("custom_tool_call_output".to_string()),
            output: Some("small".to_string()),
        },
        InputItem {
            item_type: Some("message".to_string()),
            output: Some(large_output.clone()),
        },
    ];
    let stats = truncate_large_tool_outputs(&mut items);
    assert_eq!(stats.items, 1);
    let output = items[1].output.as_deref().unwrap();
    assert!(output.len() <= TOOL_OUTPUT_RETRY_LIMIT_BYTES);
    assert!(output.starts_with("BEGIN:"));
    assert!(output.ends_with(":END"));
    assert!(output.contains("tool output truncated for compaction retry"));
    assert_eq!(stats.removed_bytes, large_output.len() - output.len());
    assert_eq!(items[2].output.as_deref(), Some("small"));
    assert_eq!(items[3].output.as_deref(), Some(large_output.as_str()));
    assert_eq!(items[1].item_type.as_deref(), Some("function_call_output"));
}

#[test]
fn payload_round_trips() {
    let payload = encode_payload("summary");
    assert_eq!(decode_payload(&payload).as_deref(), Some("summary"));
}

#[test]
fn payload_rejects_foreign_or_empty() {
    assert_eq!(encode_payload("s"), "kiro-rs.compaction.v1:s");
    assert_eq!(decode_payload("kiro-rs.compaction.v1:"), None);
    assert_eq!(decode_payload("other:summary"), None);
    assert!(restored_context("S").ends_with("new user instructions:\nS"));
}

#[test]
fn ids_are_made_of_the_hex_text() {
    assert_eq!(compaction_id_from("0123abcd"), "cmp_0123abcd");
    assert_eq!(response_id_from("ff"), "resp_ff");
}

#[test]
fn ids_have_their_shape() {
    let id = new_response_id();
    assert!(id.starts_with("resp_") && id.len() == 37);
    let c = new_compaction_id();
    assert!(c.starts_with("cmp_") && c.len() == 36);
    assert!(c[4..].chars().all(|ch| ch.is_ascii_hexdigit() && !ch.is_ascii_uppercase()));
    assert_ne!(new_compaction_id(), c);
    assert_ne!(new_response_id(), id);
}

#[test]
fn summarization_request_is_prepared() {
    let req = MessagesRequest {
        model: "m".to_string(),
        messages: vec![ChatMessage {
            role: "assistant".to_string(),
            content_json: "\"done\"".to_string(),
        }],
        system: Some(vec![SystemMessage { text: "be brief".to_string() }]),
        stream: true,
        tools_json: Some("[]".to_string()),
        tool_choice_json: Some("\"auto\"".to_string()),
    };
    let out = prepare_request(req);
    assert!(!out.stream && out.tools_json.is_none() && out.tool_choice_json.is_none());
    assert_eq!(out.messages.len(), 2);
    assert_eq!(out.messages[1].role, "user");
    assert_eq!(
        out.messages[1].content_json,
        "[{\"type\":\"text\",\"text\":\"Summarize the conversation now according to the compaction instructions.\"}]"
    );
    let system = out.system.unwrap();
    assert_eq!(system.len(), 2);
    assert!(system[1].text.starts_with("Create a compact continuation summary"));
}
