use qs_native::flow::{provider_for, Provider, SubmitOutcome};
use qs_native::session::{ChatSession, MessageKind, Sender, SessionConfig, ViewEvent};

fn config(model: &str, openai: &str, gemini: &str) -> SessionConfig {
    SessionConfig {
        model_id: model.to_string(),
        system_prompt: "Be brief.".to_string(),
        openai_api_key: openai.to_string(),
        gemini_api_key: gemini.to_string(),
        openai_base_url: String::new(),
    }
}

fn bodies(s: &ChatSession) -> Vec<String> {
    s.messages.iter().map(|m| m.body.clone()).collect()
}

fn started_session() -> (ChatSession, String) {
    let mut s = ChatSession::new(config("gpt-5-mini", "sk-test", ""), 1000);
    let out = s.submit_input("hello", 1001);
    let pending = match out {
        SubmitOutcome::NeedsClient(p) => p,
        _ => panic!("expected a request"),
    };
    let req = s.start_request(pending, 1002);
    (s, req.assistant_id)
}

#[test]
fn new_session_is_greeted_and_ready() {
    let s = ChatSession::new(config("gpt-5-mini", "", ""), 5);
    assert_eq!(s.messages.len(), 2);
    assert!(!s.busy);
    assert_eq!(s.status, "Ready");
    assert!(s.messages.iter().all(|m| m.kind == MessageKind::Info && m.sender == Sender::Assistant));
    assert_eq!(s.messages[0].message_id, "5-1");
    assert_eq!(s.messages[1].message_id, "5-2");
}

#[test]
fn message_ids_are_unique_and_increasing() {
    let mut s = ChatSession::new(config("gpt-5-mini", "", ""), 7);
    for i in 0..20u64 {
        s.append_info("note", 7 + i / 5);
    }
    let ids: Vec<&String> = s.messages.iter().map(|m| &m.message_id).collect();
    for i in 0..ids.len() {
        for j in (i + 1)..ids.len() {
            assert_ne!(ids[i], ids[j]);
            assert!(s.messages[i].seq < s.messages[j].seq);
        }
    }
    assert_eq!(s.messages.last().unwrap().message_id, "10-22");
}

#[test]
fn submit_while_busy_changes_nothing() {
    let (mut s, _) = started_session();
    assert!(s.busy);
    let before = bodies(&s);
    let events = s.events.len();
    let out = s.submit_input("another", 2000);
    assert!(matches!(out, SubmitOutcome::Ignored));
    assert_eq!(bodies(&s), before);
    assert_eq!(s.events.len(), events);
    assert_eq!(s.status, "Thinking...");
    let cmd = s.submit_input("/clear", 2001);
    assert!(matches!(cmd, SubmitOutcome::Ignored));
    assert_eq!(bodies(&s), before);
}

#[test]
fn end_to_end_openai_stream() {
    let mut s = ChatSession::new(config("gpt-5-mini", "sk-test", ""), 1000);
    s.take_events();
    let out = s.submit_input("  hello  ", 1001);
    let pending = match out {
        SubmitOutcome::NeedsClient(p) => p,
        _ => panic!("expected a request"),
    };
    assert_eq!(pending.provider, Provider::OpenAi);
    assert_eq!(pending.credential, "sk-test");
    assert_eq!(pending.prompt, "hello");
    let req = s.start_request(pending, 1002);
    assert!(s.busy);
    assert_eq!(s.status, "Thinking...");
    assert_eq!(s.error, "");
    assert_eq!(s.last_request_at, Some(1002));
    assert_eq!(req.model_id, "gpt-5-mini");
    assert_eq!(req.system_prompt, "Be brief.");
    assert!(req.history.is_empty());
    assert_eq!(req.prompt, "hello");
    assert_eq!(s.take_events(), vec![ViewEvent::Inserted(2), ViewEvent::Inserted(3)]);
    assert_eq!(s.messages[2].body, "hello");
    assert_eq!(s.messages[2].sender, Sender::User);
    assert_eq!(s.messages[3].body, "");
    assert_eq!(s.messages[3].message_id, req.assistant_id);

    s.push_fragment("Hel", 1010);
    assert_eq!(s.messages[3].body, "");
    s.push_fragment("lo", 1060);
    assert_eq!(s.messages[3].body, "Hello");
    s.push_fragment(" there", 1070);
    assert_eq!(s.messages[3].body, "Hello");
    assert_eq!(s.take_events(), vec![ViewEvent::Changed(3)]);
    s.finish_stream(Ok(()), 68, 1071);
    assert_eq!(s.messages[3].body, "Hello there");
    assert!(!s.busy);
    assert_eq!(s.status, "Ready");
    assert_eq!(s.error, "");
    assert_eq!(s.last_success_at, Some(1071));
    assert_eq!(s.last_latency_ms, Some(68));
}

#[test]
fn stream_error_replaces_placeholder_with_clean_note() {
    let (mut s, id) = started_session();
    s.push_fragment("partial", 1003);
    s.finish_stream(
        Err("OpenAI request failed: CompletionError: ProviderError: Invalid status code 429 with message: {\"error\":{\"message\":\"Rate limited. For more information see https://x\"}}".to_string()),
        12,
        1100,
    );
    assert!(!s.busy);
    assert_eq!(s.status, "Error");
    assert_eq!(s.error, "Rate limited");
    assert_eq!(s.last_error_at, Some(1100));
    assert!(s.messages.iter().all(|m| m.message_id != id));
    let last = s.messages.last().unwrap();
    assert_eq!(last.body, "Error: Rate limited");
    assert_eq!(last.kind, MessageKind::Info);
}

#[test]
fn missing_key_appends_note_and_stays_idle() {
    let mut s = ChatSession::new(config("gemini-3-flash-preview", "sk", ""), 1);
    let out = s.submit_input("hi", 2);
    assert!(matches!(out, SubmitOutcome::MissingKey));
    assert!(!s.busy);
    let n = s.messages.len();
    assert_eq!(s.messages[n - 2].body, "hi");
    assert_eq!(s.messages[n - 1].body, "Set GEMINI_API_KEY to enable replies.");
    assert_eq!(s.messages[n - 1].kind, MessageKind::Info);
}

#[test]
fn provider_routing_by_model_prefix() {
    assert_eq!(provider_for("gemini-3-flash-preview"), Provider::Gemini);
    assert_eq!(provider_for("gpt-5-mini"), Provider::OpenAi);
    let mut s = ChatSession::new(config("gemini-3-flash-preview", "", "g-key"), 1);
    match s.submit_input("hi", 2) {
        SubmitOutcome::NeedsClient(p) => {
            assert_eq!(p.provider, Provider::Gemini);
            assert_eq!(p.credential, "g-key");
        }
        _ => panic!("expected a request"),
    }
}

#[test]
fn regenerate_truncates_and_resubmits() {
    let (mut s, id) = started_session();
    s.push_fragment("first answer", 1100);
    s.finish_stream(Ok(()), 5, 1101);
    s.take_events();
    let out = s.regenerate(&id, 1200);
    let pending = match out {
        SubmitOutcome::NeedsClient(p) => p,
        _ => panic!("expected a request"),
    };
    assert_eq!(pending.prompt, "hello");
    assert_eq!(bodies(&s)[2..].to_vec(), vec!["hello".to_string(), "hello".to_string()]);
    assert_eq!(s.take_events(), vec![ViewEvent::Reset, ViewEvent::Inserted(3)]);
    let req = s.start_request(pending, 1201);
    assert_eq!(req.history.len(), 1);
    assert_eq!(req.history[0].body, "hello");
}

#[test]
fn regenerate_ignores_user_messages_and_unknown_ids() {
    let (mut s, _) = started_session();
    s.finish_stream(Ok(()), 5, 1101);
    let user_id = s.messages[2].message_id.clone();
    let before = bodies(&s);
    assert!(matches!(s.regenerate(&user_id, 1200), SubmitOutcome::Ignored));
    assert!(matches!(s.regenerate("no-such-id", 1200), SubmitOutcome::Ignored));
    let greeting = s.messages[0].message_id.clone();
    assert!(matches!(s.regenerate(&greeting, 1200), SubmitOutcome::Ignored));
    assert_eq!(bodies(&s), before);
}

#[test]
fn commands_are_routed() {
    let mut s = ChatSession::new(config("gpt-5-mini", "sk", ""), 1);
    assert!(matches!(s.submit_input("/MODEL", 2), SubmitOutcome::OpenModelPicker));
    assert!(matches!(s.submit_input("/mood", 2), SubmitOutcome::OpenMoodPicker));
    assert!(matches!(s.submit_input("/debug", 2), SubmitOutcome::DebugReport));
    assert!(matches!(s.submit_input("/help", 3), SubmitOutcome::Handled));
    assert!(s.messages.last().unwrap().body.starts_with("**Commands**"));
    s.submit_input("/status", 4);
    assert_eq!(
        s.messages.last().unwrap().body,
        "**Current Settings**\n\n- Model: `gpt-5-mini`\n- Provider: openai\n- OpenAI Key: Set\n- Gemini Key: Not set"
    );
    s.submit_input("/nope", 5);
    assert_eq!(
        s.messages.last().unwrap().body,
        "Unknown command: /nope\nType /help for available commands."
    );
    s.submit_input("/clear", 6);
    assert_eq!(bodies(&s), vec!["Chat cleared.".to_string()]);
}

#[test]
fn copy_all_text_skips_notes() {
    let (mut s, _) = started_session();
    s.push_fragment("hi there", 2000);
    s.finish_stream(Ok(()), 1, 2001);
    assert_eq!(s.copy_all_text(), "*user*: hello\n*assistant*: hi there");
    match s.submit_input("/copy", 2002) {
        SubmitOutcome::CopyText(t) => assert_eq!(t, "*user*: hello\n*assistant*: hi there"),
        _ => panic!("expected text"),
    }
}

#[test]
fn edit_delete_and_model_switch() {
    let mut s = ChatSession::new(config("gpt-5-mini", "", ""), 1);
    let id = s.messages[0].message_id.clone();
    s.take_events();
    s.edit_message(&id, "edited");
    assert_eq!(s.messages[0].body, "edited");
    s.delete_message(&id);
    assert_eq!(s.messages.len(), 1);
    s.delete_message("missing");
    assert_eq!(s.messages.len(), 1);
    assert_eq!(s.take_events(), vec![ViewEvent::Changed(0), ViewEvent::Removed(0)]);
    s.reset_for_model_switch("gemini-2.5-flash-lite", 9);
    assert_eq!(
        bodies(&s),
        vec!["Switched to gemini-2.5-flash-lite. Chat history cleared.".to_string()]
    );
    assert_eq!(s.take_events(), vec![ViewEvent::Reset, ViewEvent::Inserted(0)]);
}

#[test]
fn client_failure_is_noted() {
    let mut s = ChatSession::new(config("gpt-5-mini", "sk", ""), 1);
    s.submit_input("hi", 2);
    s.client_failed("OpenAI client error: bad url", 3);
    assert!(!s.busy);
    assert_eq!(s.status, "Error");
    assert_eq!(s.error, "OpenAI client error: bad url");
    assert_eq!(s.messages.last().unwrap().body, "Error: OpenAI client error: bad url");
}

#[test]
fn empty_submit_is_a_no_op_and_image_only_is_sent() {
    let mut s = ChatSession::new(config("gpt-5-mini", "sk", ""), 1);
    let before = bodies(&s);
    assert!(matches!(s.submit("   ", Vec::new(), 2), SubmitOutcome::Ignored));
    assert_eq!(bodies(&s), before);
    let image = qs_native::attachments::ChatAttachment {
        mime: "image/png".to_string(),
        b64: "aGk=".to_string(),
        path: String::new(),
    };
    match s.submit("", vec![image], 3) {
        SubmitOutcome::NeedsClient(p) => {
            assert_eq!(p.prompt, "");
            assert_eq!(p.attachments.len(), 1);
        }
        _ => panic!("expected a request"),
    }
    assert_eq!(s.messages.last().unwrap().body, "[Attached 1 image]");
}

#[test]
fn model_switch_is_dropped_while_busy() {
    let (mut s, _) = started_session();
    let before = bodies(&s);
    s.reset_for_model_switch("gemini-3-flash-preview", 1500);
    assert_eq!(bodies(&s), before);
    assert!(s.busy);
}
