use saw::session::SessionRecord;
use saw::types::AgentEvent;

fn parse_event(line: &str) -> AgentEvent {
    SessionRecord::parse(line).unwrap_or_else(|| panic!("failed to parse line: {line}"))
}

#[test]
fn parses_session_started() {
    let line = r#"{"ts":"2026-03-24T05:41:20.047714044Z","kind":"session_started","type":"session_started","sessionId":"ses-123"}"#;
    let event = parse_event(line);
    match event {
        AgentEvent::SessionStart { session_id, .. } => assert_eq!(session_id, "ses-123"),
        other => panic!("unexpected event: {other:?}"),
    }
}

#[test]
fn parses_assistant_tool_use() {
    let line = r#"{"type":"assistant","timestamp":"2026-03-24T12:11:40.700Z","isSidechain":true,"message":{"stop_reason":"tool_use","usage":{"input_tokens":123,"output_tokens":45},"content":[{"type":"tool_use","name":"Bash","input":{"command":"cargo test","file_path":"/tmp/a.txt"}}]}}"#;
    let event = parse_event(line);
    match event {
        AgentEvent::ToolCall(tool_call) => {
            assert_eq!(tool_call.tool_name, "Bash");
            assert_eq!(tool_call.file_path, Some(String::from("/tmp/a.txt")));
            assert_eq!(tool_call.command.as_deref(), Some("cargo test"));
            assert!(!tool_call.is_error);
            assert!(!tool_call.is_write);
            assert!(tool_call.is_sidechain);
        }
        other => panic!("unexpected event: {other:?}"),
    }
}

#[test]
fn parses_assistant_token_usage_without_tool_use() {
    let line = r#"{"type":"assistant","timestamp":"2026-03-24T12:11:40.700Z","message":{"stop_reason":"end_turn","usage":{"input_tokens":1234,"output_tokens":56},"content":[{"type":"text","text":"done"}]}}"#;
    let event = parse_event(line);
    match event {
        AgentEvent::TokenActivity(activity) => {
            assert_eq!(activity.input_tokens, 1234);
            assert_eq!(activity.output_tokens, 56);
            assert_eq!(activity.stop_reason.as_deref(), Some("end_turn"));
            assert!(!activity.is_sidechain);
        }
        other => panic!("unexpected event: {other:?}"),
    }
}

#[test]
fn parses_tool_result() {
    let line = r#"{"type":"user","timestamp":"2026-03-24T12:11:22.059Z","message":{"content":[{"type":"tool_result","tool_use_id":"call_1","is_error":true,"content":"oops"}]}}"#;
    let event = parse_event(line);
    match event {
        AgentEvent::ToolResult {
            is_error,
            output,
            stderr,
            interrupted,
            persisted_output_path,
            is_sidechain,
            ..
        } => {
            assert!(is_error);
            assert_eq!(output.as_deref(), Some("oops"));
            assert_eq!(stderr, None);
            assert!(!interrupted);
            assert_eq!(persisted_output_path, None);
            assert!(!is_sidechain);
        }
        other => panic!("unexpected event: {other:?}"),
    }
}

#[test]
fn parses_bash_failure_from_tool_use_result_envelope() {
    let line = r#"{"type":"user","timestamp":"2026-03-24T12:11:22.059Z","message":{"content":[{"type":"tool_result","tool_use_id":"call_1","is_error":false,"content":"ok"}]},"toolUseResult":{"stdout":"ok","stderr":"boom","interrupted":false}}"#;
    let event = parse_event(line);
    match event {
        AgentEvent::ToolResult {
            is_error,
            output,
            stderr,
            interrupted,
            persisted_output_path,
            ..
        } => {
            assert!(is_error);
            assert_eq!(output.as_deref(), Some("ok"));
            assert_eq!(stderr.as_deref(), Some("boom"));
            assert!(!interrupted);
            assert_eq!(persisted_output_path, None);
        }
        other => panic!("unexpected event: {other:?}"),
    }
}

#[test]
fn parses_sidechain_and_persisted_output_pointer() {
    let line = r#"{"type":"user","isSidechain":true,"timestamp":"2026-03-24T12:11:22.059Z","message":{"content":[{"type":"tool_result","tool_use_id":"call_1","is_error":false,"content":"<persisted-output>\nOutput too large. Full output saved to:\n/tmp/tool-results/call_1.txt\n\nPreview:\n...\n</persisted-output>"}]},"toolUseResult":{"stderr":"","interrupted":false}}"#;
    let event = parse_event(line);
    match event {
        AgentEvent::ToolResult {
            output,
            persisted_output_path,
            is_sidechain,
            ..
        } => {
            assert!(output.unwrap().contains("persisted-output"));
            assert_eq!(
                persisted_output_path,
                Some(String::from("/tmp/tool-results/call_1.txt"))
            );
            assert!(is_sidechain);
        }
        other => panic!("unexpected event: {other:?}"),
    }
}

#[test]
fn parses_plain_user_message() {
    let line = r#"{"type":"user","timestamp":"2026-03-24T12:11:05.949Z","isSidechain":false,"message":{"content":"hello"}}"#;
    let event = parse_event(line);
    match event {
        AgentEvent::UserMessage { is_sidechain, .. } => assert!(!is_sidechain),
        other => panic!("unexpected event: {other:?}"),
    }
}

#[test]
fn parses_compact_boundary() {
    let line = r#"{"type":"system","subtype":"compact_boundary","timestamp":"2026-03-24T12:11:22.059Z","isSidechain":true}"#;
    let event = parse_event(line);
    match event {
        AgentEvent::CompactBoundary { is_sidechain, .. } => assert!(is_sidechain),
        other => panic!("unexpected event: {other:?}"),
    }
}

#[test]
fn parses_compact_boundary_from_kind_without_system_type() {
    let line = r#"{"kind":"compact_boundary","timestamp":"2026-03-24T12:11:22.059Z"}"#;
    let event = parse_event(line);
    match event {
        AgentEvent::CompactBoundary { is_sidechain, .. } => assert!(!is_sidechain),
        other => panic!("unexpected event: {other:?}"),
    }
}

#[test]
fn ignores_non_event_record_types_without_panicking() {
    for line in [
        r#"{"type":"progress","timestamp":"2026-03-24T12:11:22.059Z"}"#,
        r#"{"type":"file-history-snapshot","timestamp":"2026-03-24T12:11:22.059Z"}"#,
        r#"{"type":"queue-operation","timestamp":"2026-03-24T12:11:22.059Z"}"#,
        r#"{"type":"last-prompt","timestamp":"2026-03-24T12:11:22.059Z"}"#,
        r#"{"type":"custom-title","timestamp":"2026-03-24T12:11:22.059Z"}"#,
        r#"{"type":"agent-name","timestamp":"2026-03-24T12:11:22.059Z"}"#,
    ] {
        assert!(
            SessionRecord::parse(line).is_none(),
            "expected None for {line}"
        );
    }
}

#[test]
fn ignores_malformed_json() {
    assert!(SessionRecord::parse("{").is_none());
}

#[test]
fn ignores_partial_line() {
    let line = r#"{"type":"assistant","timestamp":"2026-03-24T12:11:40.700Z""#;
    assert!(SessionRecord::parse(line).is_none());
}
