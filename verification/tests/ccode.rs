use harness_sessions::ccode::message::{ccode_stop_reason, human_origin, joined_text, CcodeMessage};
use harness_sessions::ccode::session::{CcodeListener, CcodeSession, CcodeSessions};
use harness_sessions::ccode::typed::{strip_output, tag, typed_text};
use harness_sessions::json::{JsonObject, JsonValue};
use harness_sessions::model::{Content, MessageId, Role, SessionId, StopReason, Usage};
use harness_sessions::sessions::RuntimeError;
use serde_json::Value;

fn json(text: &str) -> Value {
    serde_json::from_str(text).unwrap()
}

fn value(raw: &Value) -> JsonValue {
    match raw {
        Value::Null => JsonValue::Null,
        Value::Bool(b) => JsonValue::Bool(*b),
        Value::Number(n) => JsonValue::Number(n.clone()),
        Value::String(s) => JsonValue::String(s.clone()),
        Value::Array(items) => JsonValue::Array(items.iter().map(value).collect()),
        Value::Object(members) => {
            let mut object = JsonObject::new();
            for (name, member) in members {
                object = object.with(name.clone(), value(member));
            }
            JsonValue::Object(object)
        }
    }
}

fn text(raw: &Value, name: &str) -> Option<String> {
    raw.get(name).and_then(Value::as_str).map(str::to_owned)
}

fn flag(raw: &Value, name: &str) -> Option<bool> {
    raw.get(name).and_then(Value::as_bool)
}

fn member(raw: &Value, name: &str) -> Option<JsonValue> {
    raw.get(name).filter(|v| !v.is_null()).map(value)
}

fn message(raw: &Value) -> CcodeMessage {
    CcodeMessage {
        kind: text(raw, "type").unwrap(),
        subtype: text(raw, "subtype"),
        uuid: text(raw, "uuid"),
        timestamp: text(raw, "timestamp"),
        message: member(raw, "message"),
        content: member(raw, "content"),
        cwd: text(raw, "cwd"),
        git_branch: text(raw, "gitBranch"),
        ai_title: text(raw, "aiTitle"),
        custom_title: text(raw, "customTitle"),
        summary: member(raw, "summary"),
        parent_uuid: text(raw, "parentUuid"),
        logical_parent_uuid: text(raw, "logicalParentUuid"),
        session_id: text(raw, "sessionId"),
        forked_from: member(raw, "forkedFrom"),
        attachment: member(raw, "attachment"),
        origin: member(raw, "origin"),
        is_meta: flag(raw, "isMeta"),
        is_compact_summary: flag(raw, "isCompactSummary"),
        is_api_error_message: flag(raw, "isApiErrorMessage"),
        error: member(raw, "error"),
    }
}

fn parse(raw: &str) -> CcodeMessage {
    message(&json(raw))
}

fn line(kind: &str, role: &str, content: &Value) -> CcodeMessage {
    let mut raw = json(
        r#"{"sessionId": "11111111-1111-1111-1111-111111111111", "uuid": "aaaa",
            "timestamp": "2026-09-18T10:00:00Z", "message": {}}"#,
    );
    raw["type"] = Value::from(kind);
    raw["message"]["role"] = Value::from(role);
    raw["message"]["content"] = content.clone();
    message(&raw)
}

fn extended(base: &str, extra: &str) -> Value {
    let mut raw = json(base);
    for (name, member) in json(extra).as_object().unwrap() {
        raw[name.as_str()] = member.clone();
    }
    raw
}

fn said(text: &str) -> Content {
    Content::Text(text.to_owned())
}

#[test]
fn normalizes_a_user_string_message() {
    let m = line("user", "user", &Value::from("hi there"));
    assert_eq!(m.role(), Role::User);
    assert_eq!(m.content(), vec![said("hi there")]);
}

#[test]
fn normalizes_assistant_tool_use_blocks() {
    let m = line(
        "assistant",
        "assistant",
        &json(
            r#"[{"type": "text", "text": "running"},
                {"type": "tool_use", "id": "call_1", "name": "Bash", "input": {"cmd": "ls"}}]"#,
        ),
    );
    assert_eq!(m.role(), Role::Assistant);
    let content = m.content();
    assert_eq!(content.len(), 2);
    assert!(matches!(content[1], Content::ToolUse(_)));
    match &content[1] {
        Content::ToolUse(call) => {
            assert_eq!(call.id.0, "call_1");
            assert_eq!(call.name, "Bash");
            assert_eq!(call.input, value(&json(r#"{"cmd": "ls"}"#)));
        }
        _ => unreachable!(),
    }
}

#[test]
fn normalizes_assistant_enrichment_fields() {
    let m = parse(
        r#"{"type": "assistant", "uuid": "aaaa", "cwd": "/work/atuin", "gitBranch": "main",
            "message": {"role": "assistant", "content": [{"type": "text", "text": "done"}],
                "model": "opus-4-8", "stop_reason": "end_turn",
                "usage": {"input_tokens": 10, "output_tokens": 20, "cache_read_input_tokens": 5,
                    "cache_creation_input_tokens": 2}}}"#,
    );
    assert_eq!(m.model(), Some("opus-4-8".to_owned()));
    assert_eq!(m.stop_reason(), Some(StopReason::EndTurn));
    assert_eq!(m.cwd(), Some("/work/atuin".to_owned()));
    assert_eq!(m.git_branch(), Some("main".to_owned()));
    assert!(m.usage_fits());
    assert_eq!(
        m.usage(),
        Some(Usage { input: Some(10), output: Some(20), cache_read: Some(5), cache_write: Some(2) })
    );
}

#[test]
fn maps_stop_reason_vocabulary() {
    let cases = [
        ("max_tokens", StopReason::MaxTokens),
        ("tool_use", StopReason::ToolUse),
        ("stop_sequence", StopReason::StopSequence),
        ("refusal", StopReason::Refusal),
        ("weird", StopReason::Other("weird".to_owned())),
    ];
    for (raw, expected) in cases {
        let mut line = json(r#"{"type": "assistant", "message": {"role": "assistant", "content": []}}"#);
        line["message"]["stop_reason"] = Value::from(raw);
        assert_eq!(message(&line).stop_reason(), Some(expected.clone()));
        assert_eq!(ccode_stop_reason(raw), expected);
    }
    assert_eq!(ccode_stop_reason("end_turn"), StopReason::EndTurn);
}

#[test]
fn enrichment_is_none_when_the_harness_did_not_provide_it() {
    let m = line("user", "user", &Value::from("hi there"));
    assert_eq!(m.model(), None);
    assert_eq!(m.usage(), None);
    assert_eq!(m.stop_reason(), None);
    assert_eq!(m.cwd(), None);
    assert_eq!(m.git_branch(), None);
}

#[test]
fn exposes_parent_line_parent_session_and_turn() {
    let m = parse(
        r#"{"type": "assistant", "uuid": "bbbb", "parentUuid": "aaaa", "sessionId": "p",
            "message": {"role": "assistant", "id": "msg_01", "content": []}}"#,
    );
    assert_eq!(m.parent_id(), Some(MessageId::from("aaaa".to_owned())));
    assert_eq!(m.parent_session(), Some(SessionId::from("p".to_owned())));
    assert_eq!(m.turn_id().as_deref(), Some("msg_01"));
    assert_eq!(m.id(), Some(MessageId::from("bbbb".to_owned())));
}

#[test]
fn title_lines_expose_the_title() {
    let cases = [
        (r#"{"type": "ai-title", "aiTitle": "generated"}"#, "generated"),
        (r#"{"type": "custom-title", "customTitle": "by hand"}"#, "by hand"),
        (r#"{"type": "x", "customTitle": "by hand", "aiTitle": "generated"}"#, "by hand"),
    ];
    for (raw, expected) in cases {
        let m = parse(raw);
        assert_eq!(m.title().as_deref(), Some(expected));
        assert!(m.content().is_empty());
    }
    assert_eq!(parse(r#"{"type": "other", "summary": "no title"}"#).title(), None);
}

#[test]
fn compaction_lines_are_system() {
    let cases = [
        r#"{"type": "user", "isCompactSummary": true,
            "message": {"role": "user", "content": "summary"}}"#,
        r#"{"type": "system", "subtype": "compact_boundary",
            "compactMetadata": {"trigger": "auto"}, "content": "boundary"}"#,
    ];
    for raw in cases {
        assert_eq!(parse(raw).role(), Role::System);
    }
}

#[test]
fn interrupt_lines_end_the_turn() {
    let cases = [
        ("[Request interrupted by user]", Some(StopReason::Aborted)),
        ("[Request interrupted by user for tool use]", Some(StopReason::Aborted)),
        ("please continue", None),
    ];
    for (text, expected) in cases {
        let mut blocks = json(r#"[{"type": "text"}]"#);
        blocks[0]["text"] = Value::from(text);
        assert_eq!(line("user", "user", &blocks).stop_reason(), expected);
    }
}

#[test]
fn listener_reports_not_found_for_a_missing_root() {
    let sessions = CcodeSessions { root: Some("/no/such/ccode".to_owned()), pool: 7u8 };
    let found = sessions.listener("/no/such/ccode".to_owned(), false);
    assert!(matches!(found, Err(RuntimeError::NotFound(path)) if path == "/no/such/ccode"));
}

#[test]
fn listener_opens_an_existing_root() {
    let sessions = CcodeSessions { root: Some("/ccode".to_owned()), pool: 7u8 };
    let listener = sessions.listener("/ccode".to_owned(), true).unwrap();
    assert_eq!(listener.root, "/ccode");
    assert_eq!(listener.pool, 7);
}

#[test]
fn transcripts_are_looked_for_in_the_configured_directory() {
    let home = "/home/u".to_owned();
    let config = "/config".to_owned();
    let given = CcodeSessions { root: Some("/given".to_owned()), pool: () };
    let root = given.resolve_root(Some(&config), &home, ".own");
    assert_eq!((root.base.as_str(), root.below), ("/given", vec![]));
    let plain = CcodeSessions::<String, ()> { root: None, pool: () };
    let root = plain.resolve_root(Some(&config), &home, ".own");
    assert_eq!((root.base.as_str(), root.below), ("/config", vec!["projects"]));
    let root = plain.resolve_root(None, &home, ".own");
    assert_eq!((root.base.as_str(), root.below), ("/home/u", vec![".own", "projects"]));
}

#[test]
fn only_jsonl_files_are_sessions() {
    let open = |name: Option<&str>, is_file: bool| -> Option<CcodeSession<&str, u8, ()>> {
        CcodeListener::open_session(name, is_file, "path", ())
    };
    let session = open(Some("22222222-2222-2222-2222-222222222222.jsonl"), true).unwrap();
    assert_eq!(session.id().0, "22222222-2222-2222-2222-222222222222");
    assert_eq!(session.path, "path");
    assert_eq!(session.changes, None);
    assert!(open(Some("a.jsonl"), false).is_none());
    assert!(open(Some("a.json"), true).is_none());
    assert!(open(Some(".jsonl"), true).is_none());
    assert!(open(None, true).is_none());
    assert_eq!(open(Some("a.b.jsonl"), true).unwrap().id().0, "a.b");
}

#[test]
fn an_accepted_session_follows_its_changes() {
    let (session, signal): (CcodeSession<&str, &str, ()>, &str) =
        CcodeListener::accept(Some("s1.jsonl"), true, "path", (), "signal", "changes").unwrap();
    assert_eq!(session.id().0, "s1");
    assert_eq!(session.changes, Some("changes"));
    assert_eq!(signal, "signal");
    let none: Option<(CcodeSession<&str, &str, ()>, &str)> =
        CcodeListener::accept(Some("s1.txt"), true, "path", (), "signal", "changes");
    assert!(none.is_none());
}

#[test]
fn each_turn_of_a_session_has_its_role() {
    let session = CcodeSession::<&str, (), ()>::open(
        SessionId::from("11111111-1111-1111-1111-111111111111".to_owned()),
        "session.jsonl",
        (),
    );
    assert_eq!(session.id().0, "11111111-1111-1111-1111-111111111111");
    let lines = [
        line("user", "user", &Value::from("first")),
        line("assistant", "assistant", &json(r#"[{"type": "text", "text": "second"}]"#)),
    ];
    let got: Vec<Role> = lines.iter().map(|m| m.role()).collect();
    assert_eq!(got, vec![Role::User, Role::Assistant]);
}

#[test]
fn summary_line_exposes_its_title() {
    let m =
        parse(r#"{"type": "summary", "summary": "Fix the flaky sync test", "leafUuid": "u9"}"#);
    assert_eq!(m.title().as_deref(), Some("Fix the flaky sync test"));
    assert!(m.content().is_empty());
}

#[test]
fn queued_prompt_is_user_text() {
    for extra in [r#"{"origin": {"kind": "human"}}"#, r#"{"commandMode": "prompt"}"#] {
        let mut raw = json(
            r#"{"type": "attachment", "uuid": "a1", "parentUuid": "u0", "sessionId": "s",
                "timestamp": "2026-09-23T22:44:00Z"}"#,
        );
        raw["attachment"] =
            extended(r#"{"type": "queued_command", "prompt": "also check forks please"}"#, extra);
        let m = message(&raw);
        assert_eq!(m.role(), Role::User);
        assert_eq!(m.content(), vec![said("also check forks please")]);
    }
}

#[test]
fn queued_harness_message_is_system() {
    let cases = [
        r#"{"commandMode": "task-notification"}"#,
        r#"{"origin": {"kind": "peer", "from": "a1"}}"#,
        r#"{"isMeta": true}"#,
    ];
    for extra in cases {
        let mut raw = json(r#"{"type": "attachment", "uuid": "a1"}"#);
        raw["attachment"] = extended(
            r#"{"type": "queued_command",
                "prompt": "<task-notification>\n<task-id>b1</task-id>\n</task-notification>"}"#,
            extra,
        );
        assert_eq!(message(&raw).role(), Role::System);
    }
}

#[test]
fn queued_blocks_are_kept_as_blocks() {
    let m = parse(
        r#"{"type": "attachment", "attachment": {"type": "queued_command",
            "prompt": [{"type": "text", "text": "<bash-stdout>x</bash-stdout>"}]}}"#,
    );
    assert_eq!(m.content(), vec![said("<bash-stdout>x</bash-stdout>")]);
    assert!(parse(r#"{"type": "attachment", "attachment": {"type": "queued_command"}}"#)
        .content()
        .is_empty());
}

#[test]
fn other_attachments_have_a_role_of_their_own() {
    let m = parse(r#"{"type": "attachment", "attachment": {"type": "file"}}"#);
    assert_eq!(m.role(), Role::Other("attachment".to_owned()));
}

#[test]
fn queue_operation_is_not_user_text() {
    for operation in ["remove", "enqueue", "popAll"] {
        let mut raw = json(
            r#"{"type": "queue-operation", "sessionId": "s",
                "timestamp": "2026-09-23T22:44:00Z", "content": "stop and use rstest"}"#,
        );
        raw["operation"] = Value::from(operation);
        let m = message(&raw);
        assert_ne!(m.role(), Role::User);
        assert_eq!(m.role(), Role::Other("queue-operation".to_owned()));
    }
}

#[test]
fn compact_boundary_keeps_its_logical_parent() {
    let m = parse(
        r#"{"type": "system", "subtype": "compact_boundary", "uuid": "b1", "parentUuid": null,
            "logicalParentUuid": "u41", "content": "Conversation compacted",
            "compactMetadata": {"trigger": "auto"}}"#,
    );
    assert_eq!(m.parent_id(), Some(MessageId::from("u41".to_owned())));
}

#[test]
fn compact_summary_is_a_summary() {
    let cases = [r#""Summary: fixed forks""#, r#"[{"type": "text", "text": "Summary: fixed forks"}]"#];
    for content in cases {
        let mut raw =
            json(r#"{"type": "user", "uuid": "c1", "isCompactSummary": true, "message": {"role": "user"}}"#);
        raw["message"]["content"] = json(content);
        assert_eq!(message(&raw).content(), vec![Content::Summary("Summary: fixed forks".to_owned())]);
    }
}

#[test]
fn forked_line_names_the_session_it_was_forked_from() {
    let m = parse(
        r#"{"type": "user", "uuid": "u1", "parentUuid": null, "sessionId": "new",
            "forkedFrom": {"sessionId": "old", "messageUuid": "u1"},
            "message": {"role": "user", "content": "hi"}}"#,
    );
    assert_eq!(m.parent_session(), Some(SessionId::from("old".to_owned())));
}

#[test]
fn api_error_line_is_an_error_not_a_synthetic_model() {
    let m = parse(
        r#"{"type": "assistant", "uuid": "e1", "isApiErrorMessage": true, "error": "rate_limit",
            "message": {"id": "0b5c", "role": "assistant", "model": "<synthetic>",
                "stop_reason": "stop_sequence", "stop_sequence": "",
                "content": [{"type": "text", "text": "API Error: 529 Overloaded"}],
                "usage": {"input_tokens": 0, "output_tokens": 0,
                    "cache_creation_input_tokens": 0, "cache_read_input_tokens": 0}}}"#,
    );
    assert_eq!(m.stop_reason(), Some(StopReason::Error));
    assert_eq!(m.model(), None, "`<synthetic>` is not a model");
    assert_eq!(m.usage(), None);
    assert_eq!(m.turn_id(), None);
    assert_eq!(m.content(), vec![Content::Error("API Error: 529 Overloaded".to_owned())]);
}

#[test]
fn an_api_error_without_text_tells_its_class() {
    let m = parse(
        r#"{"type": "assistant", "isApiErrorMessage": true, "error": "rate_limit",
            "message": {"role": "assistant", "content": []}}"#,
    );
    assert_eq!(m.content(), vec![Content::Error("rate_limit".to_owned())]);
    let silent = parse(
        r#"{"type": "assistant", "isApiErrorMessage": true, "error": "rate_limit",
            "message": {"role": "assistant"}}"#,
    );
    assert_eq!(silent.content(), vec![Content::Error("rate_limit".to_owned())]);
    let bare = parse(r#"{"type": "assistant", "isApiErrorMessage": true, "message": {"content": []}}"#);
    assert!(bare.content().is_empty());
    let empty =
        parse(r#"{"type": "assistant", "isApiErrorMessage": true, "error": "rate_limit"}"#);
    assert!(empty.content().is_empty());
    let outer = parse(
        r#"{"type": "assistant", "isApiErrorMessage": true, "error": "rate_limit",
            "message": {}, "content": "why"}"#,
    );
    assert_eq!(outer.content(), vec![Content::Error("why".to_owned())]);
    let summary = parse(
        r#"{"type": "user", "isApiErrorMessage": true, "isCompactSummary": true,
            "error": "rate_limit", "message": {}}"#,
    );
    assert!(summary.content().is_empty());
}

#[test]
fn a_canned_reply_names_no_model_and_no_call() {
    let m = parse(
        r#"{"type": "assistant", "message": {"id": "x", "role": "assistant",
            "model": "<synthetic>", "content": "No response requested.",
            "stop_reason": "end_turn", "usage": {"input_tokens": 0}}}"#,
    );
    assert_eq!((m.model(), m.usage(), m.turn_id()), (None, None, None));
    assert_eq!(m.stop_reason(), Some(StopReason::EndTurn));
    assert_eq!(m.content(), vec![said("No response requested.")]);
}

#[test]
fn injected_user_line_is_system() {
    let cases = [
        r#"{"isMeta": true, "message": {"role": "user",
            "content": "<local-command-caveat>Caveat</local-command-caveat>"}}"#,
        r#"{"origin": {"kind": "task-notification"}, "message": {"role": "user",
            "content": "<task-notification>done</task-notification>"}}"#,
        r#"{"origin": {"kind": "peer"}, "message": {"role": "user",
            "content": "<agent-message>report</agent-message>"}}"#,
        r#"{"message": {"role": "user",
            "content": "<local-command-stdout>ok</local-command-stdout>"}}"#,
        r#"{"message": {"role": "user",
            "content": [{"type": "text", "text": "[Request interrupted by user]"}]}}"#,
    ];
    for extra in cases {
        let raw = extended(r#"{"type": "user", "uuid": "m1"}"#, extra);
        assert_eq!(message(&raw).role(), Role::System);
    }
}

#[test]
fn user_text_is_what_the_user_typed() {
    let cases: [(&str, Vec<Content>); 8] = [
        ("<local-command-stdout>PRIVATE</local-command-stdout>", vec![]),
        ("<local-command-stderr>PRIVATE</local-command-stderr>", vec![]),
        (
            "<bash-stdout>PRIVATE</bash-stdout><bash-stderr></bash-stderr><bash-exit-code>0</bash-exit-code>",
            vec![],
        ),
        (
            "<command-name>/model</command-name>\n  <command-message>model</command-message>\n  <command-args>opus</command-args>",
            vec![said("/model opus")],
        ),
        (
            "<command-message>login</command-message>\n<command-name>/login</command-name>\n<command-args></command-args>",
            vec![said("/login")],
        ),
        ("<bash-input>ls -la</bash-input>", vec![said("! ls -la")]),
        ("see <local-command-stdout>PRIVATE</local-command-stdout>this", vec![said("see this")]),
        ("hi <bash-stdout>PRIVATE", vec![said("hi ")]),
    ];
    for (text, expected) in cases {
        let mut raw = json(r#"{"type": "user", "uuid": "c1", "message": {"role": "user"}}"#);
        raw["message"]["content"] = Value::from(text);
        assert_eq!(message(&raw).content(), expected);
    }
}

#[test]
fn local_command_record_is_user_text() {
    let m = parse(
        r#"{"type": "system", "subtype": "local_command", "uuid": "l1",
            "content": "<command-name>/cost</command-name><command-args></command-args>"}"#,
    );
    assert_eq!(m.role(), Role::User);
    assert_eq!(m.content(), vec![said("/cost")]);

    let output = parse(
        r#"{"type": "system", "subtype": "local_command", "uuid": "l2",
            "content": "<local-command-stdout>$0.12</local-command-stdout>"}"#,
    );
    assert_eq!(output.role(), Role::System);
    assert!(output.content().is_empty());
}

fn assistant_line(blocks: &str, usage: &str) -> CcodeMessage {
    let mut raw =
        json(r#"{"type": "assistant", "uuid": "t1", "message": {"id": "msg_01", "role": "assistant"}}"#);
    raw["message"]["content"] = json(blocks);
    raw["message"]["usage"] = json(usage);
    message(&raw)
}

#[test]
fn split_line_without_thinking_gains_no_reasoning_block() {
    let usage = r#"{"input_tokens": 2, "output_tokens": 206,
        "output_tokens_details": {"thinking_tokens": 21}}"#;
    let cases = [
        r#"[{"type": "tool_use", "id": "toolu_1", "name": "Bash", "input": {}}]"#,
        r#"[{"type": "text", "text": "done"}]"#,
    ];
    for blocks in cases {
        let content = assistant_line(blocks, usage).content();
        assert!(
            !content.iter().any(|c| matches!(c, Content::ReasoningSummary { .. })),
            "{content:?}"
        );
    }
}

#[test]
fn thinking_line_carries_the_calls_thinking_tokens() {
    let cases = [
        (r#"{"output_tokens": 206, "output_tokens_details": {"thinking_tokens": 21}}"#, Some(21)),
        (r#"{"output_tokens": 5}"#, None),
    ];
    for (usage, expected) in cases {
        for kind in ["thinking", "redacted_thinking"] {
            let blocks = format!(r#"[{{"type": "{kind}"}}]"#);
            assert_eq!(
                assistant_line(&blocks, usage).content(),
                vec![Content::ReasoningSummary { tokens: expected }]
            );
        }
    }
}

#[test]
fn only_the_first_reasoning_marker_tells_tokens() {
    let blocks = r#"[{"type": "text", "text": "a"}, {"type": "thinking", "thinking": "secret"},
        {"type": "redacted_thinking"}]"#;
    let usage = r#"{"output_tokens_details": {"thinking_tokens": 9}}"#;
    assert_eq!(
        assistant_line(blocks, usage).content(),
        vec![
            said("a"),
            Content::ReasoningSummary { tokens: Some(9) },
            Content::ReasoningSummary { tokens: None },
        ]
    );
}

#[test]
fn cache_write_falls_back_to_the_lifetime_split() {
    let cases = [
        (
            r#"{"cache_creation_input_tokens": 7,
                "cache_creation": {"ephemeral_5m_input_tokens": 3, "ephemeral_1h_input_tokens": 1}}"#,
            Some(7),
        ),
        (
            r#"{"cache_creation": {"ephemeral_5m_input_tokens": 3, "ephemeral_1h_input_tokens": 4}}"#,
            Some(7),
        ),
        (r#"{"input_tokens": 1}"#, None),
    ];
    for (usage, expected) in cases {
        let m = assistant_line("[]", usage);
        assert!(m.usage_fits());
        assert_eq!(m.usage().unwrap().cache_write, expected);
    }
}

#[test]
fn a_split_that_cannot_be_summed_is_told() {
    let split = r#"{"cache_creation": {"a": 18446744073709551615, "b": 1, "c": "x", "d": -1}}"#;
    assert!(!assistant_line("[]", split).usage_fits());
    let edge = r#"{"cache_creation": {"a": 18446744073709551614, "b": 1, "c": 1.5}}"#;
    let m = assistant_line("[]", edge);
    assert!(m.usage_fits());
    assert_eq!(m.usage().unwrap().cache_write, Some(u64::MAX));
    let none = assistant_line("[]", r#"{"cache_creation": {"c": 1.5}}"#);
    assert_eq!(none.usage().unwrap().cache_write, None);
    let total = r#"{"cache_creation_input_tokens": 3,
        "cache_creation": {"a": 18446744073709551615, "b": 1}}"#;
    let m = assistant_line("[]", total);
    assert!(m.usage_fits());
    assert_eq!(m.usage().unwrap().cache_write, Some(3));
}

#[test]
fn image_blocks_drop_their_bytes() {
    let m = parse(
        r#"{"type": "user", "uuid": "i1", "message": {"role": "user", "content": [
            {"type": "image", "source": {"type": "base64", "media_type": "image/png",
                "data": "PRIVATE_BYTES"}},
            {"type": "text", "text": "what is this?"}]}}"#,
    );
    assert_eq!(m.role(), Role::User);
    let content = m.content();
    assert!(!format!("{content:?}").contains("PRIVATE_BYTES"));
    assert_eq!(content[1], said("what is this?"));
    match &content[0] {
        Content::Other(kept) => assert_eq!(
            kept.to_text(),
            r#"{"source":{"media_type":"image/png","type":"base64"},"type":"image"}"#
        ),
        other => panic!("{other:?}"),
    }
}

#[test]
fn blocks_come_to_their_content() {
    let result = value(&json(
        r#"{"type": "tool_result", "tool_use_id": "t", "content": "out", "is_error": true}"#,
    ));
    match CcodeMessage::block(&result) {
        Content::ToolResult(result) => {
            assert_eq!(result.call.0, "t");
            assert_eq!(result.output, JsonValue::String("out".to_owned()));
            assert!(result.error);
        }
        other => panic!("{other:?}"),
    }
    let odd = value(&json(r#"{"type": "new_block", "n": 1}"#));
    assert_eq!(CcodeMessage::block(&odd), Content::Other(odd.clone()));
    let bare = value(&json(r#"{"type": "text"}"#));
    assert_eq!(CcodeMessage::block(&bare), said(""));
}

#[test]
fn tags_are_read_between_their_marks() {
    assert_eq!(tag("x<a>1</a><a>2</a>", "a"), Some("1"));
    assert_eq!(tag("</a><a>\u{e9}\u{1f600}</a>", "a"), Some("\u{e9}\u{1f600}"));
    assert_eq!(tag("<a>1", "a"), None);
    assert_eq!(tag("1</a>", "a"), None);
}

#[test]
fn output_is_stripped_wherever_it_stands() {
    assert_eq!(strip_output("plain <b>text</b>"), "plain <b>text</b>");
    assert_eq!(strip_output("a<bash-stdout>1</bash-stdout>b<bash-stdout>2</bash-stdout>c"), "abc");
    assert_eq!(strip_output("a<bash-exit-code>0</bash-exit-code>\u{e9}"), "a\u{e9}");
    assert_eq!(strip_output("<bash-<bash-stdout></bash-stdout>stdout>x"), "");
    // A later cut can put an earlier tag together; it is left then.
    assert_eq!(
        strip_output("<local-command-<bash-stdout></bash-stdout>stdout>x"),
        "<local-command-stdout>x"
    );
}

#[test]
fn the_payload_of_output_does_not_matter() {
    let tags = [
        "local-command-stdout",
        "local-command-stderr",
        "bash-stdout",
        "bash-stderr",
        "bash-exit-code",
    ];
    let behind = "b<bash-stderr>x</bash-stderr>c";
    for tag in tags {
        for payload in ["", "PRIVATE > \u{e9}", "</"] {
            let text = format!("a > <{tag}>{payload}</{tag}>{behind}");
            assert_eq!(strip_output(&text), format!("a > {}", strip_output(behind)));
        }
        let around = "<local-command-<bash-stdout></bash-stdout>stderr><b>";
        assert_eq!(
            strip_output(&format!("{around}<{tag}>one</{tag}>{behind}")),
            strip_output(&format!("{around}<{tag}>another > one</{tag}>{behind}"))
        );
        assert_eq!(strip_output(&format!("a<{tag}>one")), "a");
    }
}

#[test]
fn typed_text_is_none_where_nothing_remains() {
    assert_eq!(typed_text(" \n\u{3000}<bash-stderr>x</bash-stderr>\u{2003}"), None);
    assert_eq!(typed_text(""), None);
    assert_eq!(typed_text(" <command-x>"), Some(" <command-x>".to_owned()));
    assert_eq!(typed_text("<bash-input>ls"), Some("<bash-input>ls".to_owned()));
    assert_eq!(
        typed_text("\u{a0}<command-name>/a</command-name><command-args>\u{2003}b c\t</command-args>"),
        Some("/a b c".to_owned())
    );
}

#[test]
fn origins_name_the_user_or_the_harness() {
    assert!(human_origin(None));
    assert!(human_origin(Some(&JsonValue::Null)));
    assert!(!human_origin(Some(&value(&json(r#"{"kind": 1}"#)))));
    assert!(!human_origin(Some(&value(&json(r#"{"from": "a1"}"#)))));
    assert!(!human_origin(Some(&value(&json(r#""human""#)))));
    assert!(human_origin(Some(&value(&json(r#"{"kind": "human"}"#)))));
    assert!(!human_origin(Some(&value(&json(r#"{"kind": "auto-continuation"}"#)))));
}

#[test]
fn content_is_that_of_the_message_else_of_the_line() {
    let own = parse(r#"{"type": "system", "message": {"role": "system"}, "content": "boundary"}"#);
    assert_eq!(own.raw_content(), Some(&JsonValue::String("boundary".to_owned())));
    assert_eq!(own.first_text(), Some("boundary"));
    assert_eq!(own.content(), vec![said("boundary")]);
    let both = parse(r#"{"type": "system", "message": {"content": "inner"}, "content": "outer"}"#);
    assert_eq!(both.raw_content(), Some(&JsonValue::String("inner".to_owned())));
    let null = parse(r#"{"type": "system", "message": {"content": null}, "content": "outer"}"#);
    assert_eq!(null.raw_content(), Some(&JsonValue::Null));
    let none = parse(r#"{"type": "system", "message": {}}"#);
    assert_eq!(none.raw_content(), None);
}

#[test]
fn a_queued_command_has_the_mode_of_a_prompt_or_none() {
    let queued = |raw: &str| CcodeMessage::queued_by_user(&value(&json(raw)));
    assert!(queued("{}"));
    assert!(queued(r#"{"commandMode": null}"#));
    assert!(queued(r#"{"commandMode": "prompt"}"#));
    assert!(!queued(r#"{"commandMode": true}"#));
    assert!(!queued(r#"{"commandMode": "task-notification"}"#));
    assert!(!queued(r#"{"origin": {"from": "a1"}}"#));
}

#[test]
fn texts_of_blocks_are_joined() {
    let blocks = value(&json(r#"[{"text": "a"}, {"x": 1}, {"text": "b"}]"#));
    assert_eq!(joined_text(&blocks), Some("a\nb".to_owned()));
    assert_eq!(joined_text(&value(&json(r#"[{"x": 1}]"#))), None);
    assert_eq!(joined_text(&JsonValue::String("s".to_owned())), Some("s".to_owned()));
    assert_eq!(joined_text(&JsonValue::Null), None);
}

#[test]
fn timestamps_are_instants_with_an_offset() {
    let at = |text: &str| {
        let mut raw = json(r#"{"type": "user"}"#);
        raw["timestamp"] = Value::from(text);
        message(&raw).timestamp()
    };
    let utc = at("2026-09-18T10:00:00Z").unwrap();
    assert_eq!(utc.unix_nanos, 1_789_725_600_000_000_000);
    assert_eq!(utc.offset_seconds, 0);
    let east = at("2026-09-18T12:00:00.000000005+02:00").unwrap();
    assert_eq!(east.unix_nanos, 1_789_725_600_000_000_005);
    assert_eq!(east.offset_seconds, 7200);
    assert_eq!(at("2026-09-18 10:00"), None);
    assert_eq!(parse(r#"{"type": "user"}"#).timestamp(), None);
}

#[test]
fn lines_of_one_message_name_one_call() {
    let message_part = r#"{"id": "msg_9", "role": "assistant", "model": "m", "content": "x"}"#;
    let a = parse(&format!(r#"{{"type": "assistant", "uuid": "1", "message": {message_part}}}"#));
    let copy = parse(&format!(
        r#"{{"type": "assistant", "uuid": "2", "sessionId": "fork",
            "forkedFrom": {{"sessionId": "old"}}, "message": {message_part}}}"#
    ));
    assert_eq!(a.turn_id().as_deref(), Some("msg_9"));
    assert_eq!(a.turn_id(), copy.turn_id());
    assert_eq!(a.model(), copy.model());
    assert_ne!(a.id(), copy.id());
}

#[test]
fn a_result_answers_its_call() {
    let call = CcodeMessage::block(&value(&json(r#"{"type": "tool_use", "id": "toolu_1"}"#)));
    let result =
        CcodeMessage::block(&value(&json(r#"{"type": "tool_result", "tool_use_id": "toolu_1"}"#)));
    match (call, result) {
        (Content::ToolUse(call), Content::ToolResult(result)) => {
            assert_eq!(call.id, result.call);
            assert_eq!(call.input, JsonValue::Null);
            assert!(!result.error);
        }
        other => panic!("{other:?}"),
    }
}

#[test]
fn an_interrupt_is_no_user_turn() {
    let m = line("user", "user", &Value::from("  [Request interrupted by user]"));
    assert_eq!(m.role(), Role::System);
    assert_eq!(m.stop_reason(), Some(StopReason::Aborted));
}
