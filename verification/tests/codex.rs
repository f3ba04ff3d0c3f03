use harness_sessions::codex::contextual::{
    ends_with_ignore_case, is_contextual_user_text, starts_with_ignore_case,
};
use harness_sessions::codex::message::{CodexMessage, LineContext};
use harness_sessions::codex::output::codex_output_failed;
use harness_sessions::codex::scan::{usage_record_marker, PrefixScan, Progress, CHUNK};
use harness_sessions::codex::session::{CodexListener, CodexSession, CodexSessions};
use harness_sessions::codex::stamp::Stamper;
use harness_sessions::codex::usage::{usage_key, usage_of};
use harness_sessions::json::{JsonObject, JsonValue};
use harness_sessions::model::{Content, MessageId, Role, SessionId, StopReason, Usage};
use harness_sessions::sessions::RuntimeError;
use serde_json::Value;

fn json(text: &str) -> Value {
    serde_json::from_str(text).unwrap()
}

fn value(raw: &Value) -> JsonValue {
    match raw {
        Value::Null => JsonValue::Null,
        Value::Bool(b) => JsonValue::Bool(*b),
        Value::Number(n) => JsonValue::Number(n.clone()),
        Value::String(s) => JsonValue::String(s.clone()),
        Value::Array(items) => JsonValue::Array(items.iter().map(value).collect()),
        Value::Object(members) => {
            let mut object = JsonObject::new();
            for (name, member) in members {
                object = object.with(name.clone(), value(member));
            }
            JsonValue::Object(object)
        }
    }
}

fn line(raw: &Value) -> CodexMessage {
    let text = |name: &str| raw.get(name).and_then(Value::as_str).map(str::to_owned);
    CodexMessage {
        kind: text("type").unwrap(),
        timestamp: text("timestamp"),
        payload: raw.get("payload").filter(|v| !v.is_null()).map(value),
        context: LineContext::default(),
    }
}

fn parse(raw: &str) -> CodexMessage {
    line(&json(raw))
}

fn said(text: &str) -> Content {
    Content::Text(text.to_owned())
}

fn id(text: &str) -> Option<MessageId> {
    Some(MessageId::from(text.to_owned()))
}

fn with_payload(base: &str, payload: &Value) -> Value {
    let mut raw = json(base);
    raw["payload"] = payload.clone();
    raw
}

fn item(payload: &Value) -> CodexMessage {
    line(&with_payload(r#"{"type": "response_item"}"#, payload))
}

#[test]
fn normalizes_a_codex_assistant_message() {
    let m = parse(
        r#"{"timestamp": "2026-09-18T10:00:00Z", "type": "message", "payload": {"type": "message",
            "role": "assistant", "content": [{"type": "output_text", "text": "done"}]}}"#,
    );
    assert_eq!(m.role(), Role::Assistant);
    assert_eq!(m.content(), vec![said("done")]);
    assert_eq!(m.timestamp().unwrap().unix_nanos, 1_789_725_600_000_000_000);
}

#[test]
fn turn_context_exposes_model_and_cwd() {
    let m = parse(
        r#"{"type": "turn_context",
            "payload": {"model": "gpt-5.6-terra", "effort": "medium", "cwd": "/work/atuin"}}"#,
    );
    assert_eq!(m.model(), Some("gpt-5.6-terra".to_owned()));
    assert_eq!(m.cwd(), Some("/work/atuin".to_owned()));
}

#[test]
fn token_usage_record_exposes_usage() {
    let m = parse(
        r#"{"type": "token_usage_record", "payload": {"usage": {"input_tokens": 100,
            "output_tokens": 50, "cached_input_tokens": 20, "cache_write_input_tokens": 0}}}"#,
    );
    assert!(m.usage_fits());
    assert_eq!(
        m.usage(),
        Some(Usage {
            input: Some(80),
            output: Some(50),
            cache_read: Some(20),
            cache_write: Some(0)
        })
    );
}

#[test]
fn codex_enrichment_is_none_when_the_harness_did_not_provide_it() {
    let m = parse(
        r#"{"type": "response_item", "payload": {"type": "message", "role": "assistant",
            "content": [{"type": "output_text", "text": "hi"}]}}"#,
    );
    assert_eq!(m.model(), None);
    assert_eq!(m.usage(), None);
    assert_eq!(m.stop_reason(), None);
    assert_eq!(m.git_branch(), None);
}

#[test]
fn normalizes_a_codex_function_call() {
    let m = parse(
        r#"{"type": "response_item", "payload": {"type": "function_call", "name": "shell",
            "arguments": "{\"cmd\":\"ls\"}", "call_id": "c1"}}"#,
    );
    assert!(matches!(m.content().as_slice(), [Content::ToolUse(_)]));
    match &m.content()[0] {
        Content::ToolUse(call) => {
            assert_eq!((call.id.0.as_str(), call.name.as_str()), ("c1", "shell"));
            assert_eq!(call.input, JsonValue::String("{\"cmd\":\"ls\"}".to_owned()));
        }
        _ => unreachable!(),
    }
}

#[test]
fn normalizes_a_codex_custom_tool_call() {
    let m = parse(
        r#"{"type": "response_item",
            "payload": {"type": "custom_tool_call", "name": "shell", "input": "ls", "call_id": "c1"}}"#,
    );
    assert_eq!(m.role(), Role::Assistant);
    assert!(matches!(m.content().as_slice(), [Content::ToolUse(u)] if u.id.0 == "c1"));

    let m = parse(
        r#"{"type": "response_item",
            "payload": {"type": "custom_tool_call_output", "call_id": "c1", "output": "files"}}"#,
    );
    assert_eq!(m.role(), Role::Tool);
    assert!(matches!(m.content().as_slice(), [Content::ToolResult(r)] if r.call.0 == "c1"));
}

#[test]
fn tool_call_and_output_have_distinct_ids_despite_shared_call_id() {
    let call = parse(
        r#"{"type": "response_item", "payload": {"type": "custom_tool_call", "id": "ctc_1",
            "call_id": "call_x", "name": "sh", "input": "ls"}}"#,
    );
    let output = parse(
        r#"{"type": "response_item", "payload": {"type": "custom_tool_call_output",
            "id": "ctco_1", "call_id": "call_x", "output": "files"}}"#,
    );
    assert_ne!(call.id(), output.id(), "call and its output must not share a source id");
    assert_eq!(call.id(), id("ctc_1"));
    assert_eq!(output.id(), id("ctco_1"));
}

#[test]
fn id_less_tool_output_does_not_collide_with_its_call() {
    let cases = [
        ("function_call", "function_call_output"),
        ("custom_tool_call", "custom_tool_call_output"),
    ];
    for (call_kind, output_kind) in cases {
        let mut call = json(r#"{"call_id": "call_x", "name": "sh", "arguments": "ls"}"#);
        call["type"] = Value::from(call_kind);
        let mut output = json(r#"{"call_id": "call_x", "output": "files"}"#);
        output["type"] = Value::from(output_kind);
        assert_eq!(item(&call).id(), id("call_x"));
        assert_eq!(item(&output).id(), id("call_x#out"));
    }
}

#[test]
fn tool_output_error_is_derived_from_exit_code() {
    let cases = [
        (r#""ok\nProcess exited with code 0""#, false),
        (r#""boom\nProcess exited with code 2""#, true),
        (r#"[{"type": "output_text", "text": "{\"output\":\"x\",\"exit_code\":0}"}]"#, false),
        (r#"[{"type": "output_text", "text": "{\"output\":\"x\",\"exit_code\":1}"}]"#, true),
        (r#""plain text""#, false),
        (r#""killed\nProcess exited with code -9""#, true),
        (r#""log: Process exited with code 1\nProcess exited with code 0""#, false),
        (r#"[{"type": "output_text", "text": "{\"output\": \"x\", \"exit_code\": 3}"}]"#, true),
    ];
    for (output, error) in cases {
        let mut payload = json(r#"{"type": "function_call_output", "call_id": "c1"}"#);
        payload["output"] = json(output);
        let m = item(&payload);
        assert!(matches!(m.content().as_slice(), [Content::ToolResult(r)] if r.error == error));
    }
}

#[test]
fn exit_codes_are_read_as_signed_numbers() {
    let fails = |text: &str| codex_output_failed(&JsonValue::String(text.to_owned()));
    assert!(fails("Process exited with code 9223372036854775807"));
    assert!(!fails("Process exited with code 9223372036854775808"));
    assert!(fails("Process exited with code -9223372036854775808"));
    assert!(!fails("Process exited with code -9223372036854775809"));
    assert!(!fails("Process exited with code -0"));
    assert!(!fails("Process exited with code 000"));
    assert!(fails("Process exited with code \u{2003}007"));
    assert!(!fails("Process exited with code +1"));
    assert!(!fails("Process exited with code 1-2"));
    assert!(!fails("Process exited with code --1"));
    assert!(!fails("Process exited with code -"));
    assert!(!fails("Process exited with code "));
    assert!(fails("\"exit_code\":1,\nProcess exited with code 0"));
    assert!(!codex_output_failed(&JsonValue::Null));
    assert!(!codex_output_failed(&JsonValue::Array(vec![])));
}

#[test]
fn turn_aborted_events_end_the_turn() {
    let cases = [("turn_aborted", Some(StopReason::Aborted)), ("token_count", None)];
    for (kind, expected) in cases {
        let mut raw = json(r#"{"type": "event_msg", "payload": {}}"#);
        raw["payload"]["type"] = Value::from(kind);
        assert_eq!(line(&raw).stop_reason(), expected);
    }
}

#[test]
fn codex_listener_reports_not_found_for_a_missing_root() {
    let sessions = CodexSessions { root: Some("/no/such/codex".to_owned()), pool: 7u8 };
    let found = sessions.listener("/no/such/codex".to_owned(), false);
    assert!(matches!(found, Err(RuntimeError::NotFound(path)) if path == "/no/such/codex"));
    let listener = sessions.listener("/codex".to_owned(), true).unwrap();
    assert_eq!((listener.root.as_str(), listener.pool), ("/codex", 7));
}

#[test]
fn rollouts_are_looked_for_in_the_configured_directory() {
    let home = "/home/u".to_owned();
    let config = "/config".to_owned();
    let given = CodexSessions { root: Some("/given".to_owned()), pool: () };
    let root = given.resolve_root(Some(&config), &home);
    assert_eq!((root.base.as_str(), root.below), ("/given", vec![]));
    let plain = CodexSessions::<String, ()> { root: None, pool: () };
    let root = plain.resolve_root(Some(&config), &home);
    assert_eq!((root.base.as_str(), root.below), ("/config", vec!["sessions"]));
    let root = plain.resolve_root(None, &home);
    assert_eq!((root.base.as_str(), root.below), ("/home/u", vec![".codex", "sessions"]));
}

fn opened(name: &str) -> Option<String> {
    let session: Option<CodexSession<&str, u8, ()>> =
        CodexListener::open_session(Some(name), true, "path", ());
    session.map(|s| s.id().0)
}

#[test]
fn an_accepted_rollout_follows_its_changes() {
    let sid = "0a1b2c3d-4e5f-6789-abcd-ef0123456789";
    let name = format!("rollout-2026-09-19T00-00-00-{sid}.jsonl");
    let (session, signal): (CodexSession<&str, &str, ()>, u8) =
        CodexListener::accept(Some(name.as_str()), true, "path", (), 3, "changes").unwrap();
    assert_eq!(session.id(), SessionId::from(sid.to_owned()));
    assert_eq!((session.changes, signal), (Some("changes"), 3));
}

#[test]
fn a_rollout_is_named_by_the_end_of_its_stem() {
    assert_eq!(opened("rollout-2026-09-18-th1.jsonl").as_deref(), Some("rollout-2026-09-18-th1"));
    assert_eq!(opened("rollout-s.jsonl").as_deref(), Some("rollout-s"));
    assert_eq!(opened("rollout-a-b-c-d-e.jsonl").as_deref(), Some("a-b-c-d-e"));
    assert_eq!(opened("rollout-x-a-b-c-d-\u{e9}.jsonl").as_deref(), Some("a-b-c-d-\u{e9}"));
    assert_eq!(opened("rollout-----.jsonl").as_deref(), Some("----"));
    assert_eq!(opened("rollout-.jsonl").as_deref(), Some("rollout-"));
    assert_eq!(opened("a-rollout-s.jsonl"), None);
    assert_eq!(opened("rollout-s.json"), None);
    let directory: Option<CodexSession<&str, u8, ()>> =
        CodexListener::open_session(Some("rollout-s.jsonl"), false, "path", ());
    assert!(directory.is_none());
    let unnamed: Option<CodexSession<&str, u8, ()>> =
        CodexListener::open_session(None, true, "path", ());
    assert!(unnamed.is_none());
}

fn token_usage(input: u64, cached: u64, output: u64) -> Value {
    json(&format!(
        r#"{{"input_tokens": {input}, "cached_input_tokens": {cached},
            "cache_write_input_tokens": 0, "output_tokens": {output},
            "reasoning_output_tokens": 0, "total_tokens": {}}}"#,
        input + output
    ))
}

fn token_count(total: &Value, last: &Value) -> Value {
    json(&format!(
        r#"{{"timestamp": "2025-09-18T10:00:00.000Z", "type": "event_msg",
            "payload": {{"type": "token_count", "info": {{
                "total_token_usage": {total}, "last_token_usage": {last},
                "model_context_window": 258400}}, "rate_limits": null}}}}"#
    ))
}

fn usage_record(response: &str, usage: &Value) -> Value {
    json(&format!(
        r#"{{"timestamp": "2026-09-18T10:00:00.000Z", "type": "token_usage_record",
            "payload": {{"turn_id": "t1", "response_id": "{response}", "usage": {usage},
                "turn_token_usage": {usage}, "thread_token_usage": {usage}}}}}"#
    ))
}

#[test]
fn legacy_token_count_usage_is_captured() {
    let m = line(&token_count(&token_usage(30_000, 20_000, 300), &token_usage(15_000, 10_000, 100)));
    assert_eq!(
        m.usage(),
        Some(Usage {
            input: Some(5_000),
            output: Some(100),
            cache_read: Some(10_000),
            cache_write: Some(0),
        })
    );
    assert!(m.turn_id().is_some(), "usage-bearing line without a turn id");
    assert!(m.id().is_some());
    assert_eq!(m.turn_id().as_deref(), Some("token_count:30000.20000.300.0.30300"));
    assert_eq!(m.id(), id("token_count:30000.20000.300.0.30300#usage"));
}

#[test]
fn repeated_token_count_snapshots_name_one_turn() {
    let first = line(&token_count(&token_usage(30, 20, 3), &token_usage(15, 10, 1)));
    let mut copied = token_count(&token_usage(30, 20, 3), &token_usage(15, 10, 1));
    let again = line(&copied);
    copied["timestamp"] = Value::from("2026-01-01T00:00:00Z");
    let next = line(&token_count(&token_usage(45, 30, 4), &token_usage(15, 10, 1)));
    assert_eq!(first.turn_id(), again.turn_id());
    assert_eq!(first.id(), again.id());
    assert_eq!(first.turn_id(), line(&copied).turn_id());
    assert_ne!(first.turn_id(), next.turn_id());
    assert_ne!(first.id(), next.id());
}

#[test]
fn a_snapshot_without_a_total_is_told_by_its_time() {
    let m = line(&token_count(&Value::Null, &token_usage(15, 10, 1)));
    assert_eq!(m.turn_id().as_deref(), Some("token_count:2025-09-18T10:00:00.000Z:15.10.1.0.16"));
    let mut untimed = token_count(&Value::Null, &token_usage(15, 10, 1));
    untimed["timestamp"] = Value::Null;
    assert_eq!(line(&untimed).turn_id().as_deref(), Some("token_count::15.10.1.0.16"));
}

#[test]
fn token_count_without_new_tokens_has_no_usage() {
    let empty = r#"{"input_tokens": 0, "cached_input_tokens": 0, "output_tokens": 0,
        "reasoning_output_tokens": 0, "total_tokens": 900}"#;
    let cases = [
        json(
            r#"{"timestamp": "2025-09-18T10:00:00.000Z", "type": "event_msg",
                "payload": {"type": "token_count", "info": null, "rate_limits": {}}}"#,
        ),
        token_count(&token_usage(30, 20, 3), &json(empty)),
    ];
    for raw in cases {
        let m = line(&raw);
        assert_eq!(m.usage(), None);
        assert_eq!(m.turn_id(), None);
        assert_eq!(m.id(), None, "an empty snapshot would keep a row");
    }
}

#[test]
fn token_count_after_a_usage_record_has_no_usage() {
    let mut m = line(&token_count(&token_usage(30, 20, 3), &token_usage(15, 10, 1)));
    m.context.usage_recorded = true;
    assert_eq!(m.usage(), None);
    assert_eq!(m.turn_id(), None);
    assert_eq!(m.id(), None);
}

#[test]
fn new_tokens_that_cannot_be_summed_are_told() {
    let last = json(r#"{"input_tokens": 18446744073709551615, "output_tokens": 1}"#);
    let mut m = line(&token_count(&token_usage(1, 0, 1), &last));
    assert!(!m.usage_fits());
    m.context.usage_recorded = true;
    assert!(m.usage_fits());
    assert_eq!(m.usage(), None);
    let edge = json(r#"{"input_tokens": 18446744073709551615, "output_tokens": 0}"#);
    let m = line(&token_count(&token_usage(1, 0, 1), &edge));
    assert!(m.usage_fits());
    assert_eq!(m.usage().unwrap().input, Some(u64::MAX));
}

#[test]
fn usage_input_excludes_cached_input() {
    let m = line(&usage_record("resp_1", &token_usage(14_161, 9_984, 123)));
    let usage = m.usage().unwrap();
    assert_eq!(usage.cache_read, Some(9_984));
    assert_eq!(usage.input, Some(14_161 - 9_984), "cached input counted as fresh input too");
    let over = usage_of(&value(&json(r#"{"input_tokens": 1, "cached_input_tokens": 5}"#))).unwrap();
    assert_eq!(over.input, Some(0));
    let bare = usage_of(&value(&json(r#"{"cached_input_tokens": 5}"#))).unwrap();
    assert_eq!((bare.input, bare.output, bare.cache_write), (None, None, None));
    assert_eq!(usage_of(&JsonValue::Null), None);
}

#[test]
fn usage_keys_tell_counts_apart() {
    let key = |text: &str| usage_key(&value(&json(text)));
    assert_eq!(key("{}").as_deref(), Some("0.0.0.0.0"));
    assert_eq!(
        key(r#"{"input_tokens": 18446744073709551615, "cached_input_tokens": 10,
            "output_tokens": 7, "reasoning_output_tokens": 105, "total_tokens": 1.5}"#)
        .as_deref(),
        Some("18446744073709551615.10.7.105.0")
    );
    assert_ne!(
        key(r#"{"input_tokens": 1, "cached_input_tokens": 11}"#),
        key(r#"{"input_tokens": 11, "cached_input_tokens": 1}"#)
    );
    assert_eq!(key("[]"), None);
}

#[test]
fn usage_record_is_keyed_by_its_response() {
    let a = line(&usage_record("resp_a", &token_usage(10, 0, 5)));
    let b = line(&usage_record("resp_b", &token_usage(10, 0, 5)));
    assert_eq!(a.turn_id().as_deref(), Some("resp_a"));
    assert_ne!(a.id(), b.id());
    assert!(a.id().is_some());
    assert_eq!(a.id(), id("resp_a#usage"));
    let unnamed = line(&usage_record("", &token_usage(10, 0, 5)));
    assert_eq!(unnamed.turn_id().as_deref(), Some("thread:10.0.5.0.15"));
}

#[test]
fn session_meta_git_branch_is_read() {
    let m = parse(
        r#"{"timestamp": "2026-09-18T10:00:00.000Z", "type": "session_meta",
            "payload": {"id": "child", "cwd": "/work", "git": {"branch": "main", "commit_hash": "abc"}}}"#,
    );
    assert_eq!(m.git_branch().as_deref(), Some("main"));
}

#[test]
fn session_meta_names_its_parent() {
    let cases = [
        r#"{"id": "child", "cwd": "/work", "forked_from_id": "parent"}"#,
        r#"{"id": "child", "cwd": "/work", "parent_thread_id": "parent"}"#,
        r#"{"id": "child", "cwd": "/work",
            "source": {"subagent": {"thread_spawn": {"parent_thread_id": "parent", "depth": 1}}}}"#,
    ];
    for payload in cases {
        let m = line(&with_payload(
            r#"{"timestamp": "2026-09-18T10:00:00.000Z", "type": "session_meta"}"#,
            &json(payload),
        ));
        assert_eq!(m.parent_session(), Some(SessionId::from("parent".to_owned())));
    }
}

fn session(name: &str) -> CodexSession<&'static str, (), ()> {
    CodexSession::open(SessionId::from(name.to_owned()), "path", ())
}

/// Stamps lines as a reader does that starts at `from`; `skipped` are the bytes before that.
fn read(name: &str, from: u64, skipped: &[u8], lines: &[Value]) -> Vec<CodexMessage> {
    let mut stamper: Stamper = session(name).stamper(from);
    let mut out = Vec::new();
    for raw in lines {
        let mut message = line(raw);
        let found = match stamper.lookup(&message) {
            Some(end) => contains(skipped, end, usage_record_marker(), CHUNK),
            None => false,
        };
        stamper.stamp(&mut message, found);
        out.push(message);
    }
    out
}

fn contains(body: &[u8], end: u64, needle: &[u8], step: usize) -> bool {
    let mut scan = PrefixScan::new(end, needle.to_vec());
    let mut rest = body;
    loop {
        let n = scan.wants().min(step).min(rest.len());
        let (chunk, more) = rest.split_at(n);
        rest = more;
        match scan.feed(chunk) {
            Progress::Found => return true,
            Progress::Missing => return false,
            Progress::More(next) => scan = next,
        }
    }
}

#[test]
fn turns_of_a_rollout_have_their_roles() {
    let lines = [
        json(r#"{"type": "session_meta", "payload": {"id": "th1"}}"#),
        json(
            r#"{"type": "message", "payload": {"type": "message", "role": "user",
                "content": [{"type": "input_text", "text": "hi"}]}}"#,
        ),
    ];
    let roles: Vec<Role> = read("th1", 0, b"", &lines).iter().map(|m| m.role()).collect();
    assert_eq!(roles.last(), Some(&Role::User));
}

#[test]
fn a_fork_keeps_its_own_session_meta() {
    let lines = read(
        "child",
        0,
        b"",
        &[
            json(
                r#"{"type": "session_meta",
                    "payload": {"id": "child", "forked_from_id": "parent", "cwd": "/work"}}"#,
            ),
            json(
                r#"{"type": "session_meta", "payload": {"id": "parent",
                    "forked_from_id": "grandparent", "cwd": "/elsewhere", "git": {"branch": "old"}}}"#,
            ),
        ],
    );
    let parents: Vec<_> = lines.iter().map(|m| m.parent_session()).collect();
    assert_eq!(parents, vec![Some(SessionId::from("parent".to_owned())), None]);
    assert_eq!(lines[1].cwd(), None);
    assert_eq!(lines[1].git_branch(), None);
    assert_eq!(lines[1].id(), None);
    assert_eq!(lines[0].cwd().as_deref(), Some("/work"));
    assert_eq!(lines[0].id(), id("child"));
}

#[test]
fn a_rollout_reports_each_call_once() {
    let cases = [
        vec![
            token_count(&token_usage(10, 0, 1), &token_usage(10, 0, 1)),
            token_count(&token_usage(30, 0, 3), &token_usage(20, 0, 2)),
        ],
        vec![
            usage_record("resp_a", &token_usage(10, 0, 1)),
            token_count(&token_usage(10, 0, 1), &token_usage(10, 0, 1)),
            usage_record("resp_b", &token_usage(20, 0, 2)),
            token_count(&token_usage(30, 0, 3), &token_usage(20, 0, 2)),
        ],
        vec![
            token_count(&token_usage(10, 0, 1), &token_usage(10, 0, 1)),
            usage_record("resp_b", &token_usage(20, 0, 2)),
            token_count(&token_usage(30, 0, 3), &token_usage(20, 0, 2)),
        ],
    ];
    for lines in cases {
        let outputs: Vec<u64> = read("s", 0, b"", &lines)
            .iter()
            .filter_map(|m| m.usage().and_then(|u| u.output))
            .collect();
        assert_eq!(outputs, vec![1, 2]);
    }
}

#[test]
fn a_resumed_reader_still_knows_usage_is_recorded() {
    let record = usage_record("resp_a", &token_usage(10, 0, 1));
    let count = token_count(&token_usage(10, 0, 1), &token_usage(10, 0, 1));
    let body = format!("{record}\n{count}\n");
    let past_record = u64::try_from(record.to_string().len() + 1).unwrap();
    let end = u64::try_from(body.len()).unwrap();
    for from in [past_record, end] {
        let lines = read("s", from, body.as_bytes(), &[count.clone()]);
        let snapshot = &lines[0];
        assert!(snapshot.is_token_count());
        assert_eq!(snapshot.usage(), None, "a recorded call counted twice after a resume");
    }
    let quoting = format!("{}\n", json(r#"{"text": "\"type\":\"token_usage_record\""}"#));
    let before = u64::try_from(quoting.len()).unwrap();
    let lines = read("s", before, quoting.as_bytes(), &[count]);
    assert_eq!(lines[0].usage().unwrap().output, Some(1));
}

#[test]
fn a_search_is_asked_for_once() {
    let count = line(&token_count(&token_usage(10, 0, 1), &token_usage(10, 0, 1)));
    let other = parse(r#"{"type": "turn_context", "payload": {}}"#);
    let record = line(&usage_record("r", &token_usage(1, 0, 1)));
    let mut whole = session("s").stamper(0);
    assert_eq!(whole.lookup(&count), None);
    whole.stamp(&mut record.clone(), false);
    assert_eq!(whole.usage_recorded, Some(true));

    let mut resumed = session("s").stamper(9);
    assert_eq!(resumed.lookup(&other), None);
    assert_eq!(resumed.lookup(&record), None);
    let mut first = other.clone();
    resumed.stamp(&mut first, true);
    assert!(!first.context.usage_recorded);
    assert_eq!(first.context.session, Some(SessionId::from("s".to_owned())));
    assert_eq!(resumed.lookup(&count), Some(9));
    let mut second = count.clone();
    resumed.stamp(&mut second, true);
    assert!(second.context.usage_recorded);
    assert_eq!(resumed.lookup(&count), None);
}

#[test]
fn prefix_contains_stops_at_the_end() {
    let cases: [(&[u8], u64, &[u8], bool); 3] = [
        (b"abc", 3, b"abc", true),
        (b"abc", 2, b"abc", false),
        (b"xyz", 3, b"abc", false),
    ];
    for (body, end, needle, expected) in cases {
        assert_eq!(contains(body, end, needle, CHUNK), expected);
    }
}

#[test]
fn prefix_contains_finds_a_needle_across_chunks() {
    let mut body = vec![b'x'; 64 * 1024 - 5];
    body.extend_from_slice(usage_record_marker());
    let len = u64::try_from(body.len()).unwrap();
    assert!(contains(&body, len, usage_record_marker(), CHUNK));
    assert!(!contains(&body, len - 1, usage_record_marker(), CHUNK));
}

#[test]
fn a_needle_is_found_however_the_bytes_are_cut() {
    for step in 1..7 {
        assert!(contains(b"aabaabab", 8, b"aabab", step));
        assert!(!contains(b"aabaabaa", 8, b"aabab", step));
    }
    assert!(!contains(b"", 5, b"", 1));
    assert!(contains(b"a", 5, b"", 1));
    assert!(!contains(b"a", 0, b"", 1));
}

#[test]
fn the_marker_is_how_a_record_names_its_type() {
    assert_eq!(usage_record_marker(), b"\"type\":\"token_usage_record\"");
}

#[test]
fn compacted_summary_is_kept() {
    let m = parse(
        r#"{"timestamp": "2026-09-18T10:00:00.000Z", "type": "compacted",
            "payload": {"message": "Summary of the conversation so far", "replacement_history": []}}"#,
    );
    assert_eq!(
        m.content(),
        vec![Content::Summary("Summary of the conversation so far".to_owned())]
    );
    assert_eq!(m.role(), Role::System);
    assert!(parse(r#"{"type": "compacted", "payload": {"message": ""}}"#).content().is_empty());
}

#[test]
fn turn_failures_report_an_error() {
    let cases = [
        (
            r#"{"type": "turn_complete", "turn_id": "t1", "last_agent_message": null,
                "error": {"message": "stream disconnected before completion", "codex_error_info": null}}"#,
            Some((StopReason::Error, "stream disconnected before completion")),
        ),
        (
            r#"{"type": "turn_aborted", "turn_id": "t1", "reason": "interrupted"}"#,
            Some((StopReason::Aborted, "interrupted")),
        ),
        (r#"{"type": "turn_complete", "turn_id": "t1", "last_agent_message": "ok"}"#, None),
        (
            r#"{"type": "turn_complete", "error": {"b": [1, -2, 1.5, "q\"", null, true], "a": {}}}"#,
            Some((StopReason::Error, r#"{"a":{},"b":[1,-2,1.5,"q\"",null,true]}"#)),
        ),
        (r#"{"type": "turn_complete", "error": "odd"}"#, Some((StopReason::Error, r#""odd""#))),
        (r#"{"type": "turn_complete", "error": null}"#, None),
        (r#"{"type": "turn_aborted"}"#, Some((StopReason::Aborted, "aborted"))),
    ];
    for (payload, expected) in cases {
        let m = line(&with_payload(
            r#"{"timestamp": "2026-09-18T10:00:00.000Z", "type": "event_msg"}"#,
            &json(payload),
        ));
        assert_eq!(m.stop_reason(), expected.as_ref().map(|(reason, _)| reason.clone()));
        let errors: Vec<Content> =
            expected.iter().map(|(_, why)| Content::Error((*why).to_owned())).collect();
        assert_eq!(m.content(), errors);
        if expected.is_some() {
            assert_eq!(m.role(), Role::Assistant);
        }
    }
}

#[test]
fn an_error_without_a_message_is_told_as_given() {
    let m = parse(r#"{"type": "event_msg", "payload": {"type": "turn_complete", "error": {"x": 1}}}"#);
    assert_eq!(m.unexplained_error(), Some(&value(&json(r#"{"x": 1}"#))));
    assert_eq!(
        m.failure_told("why".to_owned()),
        Some((StopReason::Error, "why".to_owned()))
    );
}

fn user_text(text: &str) -> CodexMessage {
    let mut raw = json(
        r#"{"timestamp": "2026-09-18T10:00:00.000Z", "type": "response_item",
            "payload": {"type": "message", "id": "msg_1", "role": "user",
                "content": [{"type": "input_text"}]}}"#,
    );
    raw["payload"]["content"][0]["text"] = Value::from(text);
    line(&raw)
}

#[test]
fn contextual_user_messages_are_system() {
    let cases = [
        "# AGENTS.md instructions for /work\n\n<INSTRUCTIONS>\nbe nice\n</INSTRUCTIONS>",
        "<environment_context>\n  <cwd>/work</cwd>\n</environment_context>",
        "<user_instructions>\nbe nice\n</user_instructions>",
        "<skill>\n<name>demo</name>\n</skill>",
        "<external_ide_context>open: a.rs</external_ide_context>",
        "<codex_internal_context source=\"goal\">\nx\n</codex_internal_context>",
        "<hook_prompt hook_run_id=\"h1\">do it</hook_prompt>",
        "Warning: apply_patch was requested via exec_command. Use the apply_patch tool instead of \
         exec_command.",
        "\u{2003}<SKILL>x</Skill>\n",
    ];
    for text in cases {
        assert_eq!(
            user_text(text).role(),
            Role::System,
            "harness-injected context captured as a user turn"
        );
    }
}

#[test]
fn typed_user_messages_stay_user_turns() {
    let cases = [
        "please read AGENTS.md",
        "<environment_context> is what codex sends",
        "<external_a>mismatched</external_b>",
        "warning: apply_patch was requested via x",
    ];
    for text in cases {
        assert_eq!(user_text(text).role(), Role::User);
        assert!(!is_contextual_user_text(text));
    }
}

#[test]
fn case_is_ignored_for_ascii_letters_only() {
    assert!(starts_with_ignore_case("<SkIlL>x", "<skill>"));
    assert!(!starts_with_ignore_case("<ski", "<skill>"));
    assert!(!starts_with_ignore_case("\u{c9}t\u{e9}", "\u{e9}t\u{e9}"));
    assert!(!starts_with_ignore_case("[", "{"));
    assert!(ends_with_ignore_case("x</SKILL>", "</skill>"));
    assert!(!ends_with_ignore_case("\u{212a}", "k"));
}

#[test]
fn developer_role_is_system() {
    let m = parse(
        r#"{"type": "response_item", "payload": {"type": "message", "id": "msg_1",
            "role": "developer",
            "content": [{"type": "input_text", "text": "<permissions instructions>"}]}}"#,
    );
    assert_eq!(m.role(), Role::System);
}

#[test]
fn other_tool_calls_normalize_to_tool_use() {
    let cases = [
        (
            r#"{"type": "local_shell_call", "id": "lsh_1", "call_id": "c1",
                "status": "completed", "action": {"type": "exec", "command": ["ls"]}}"#,
            "c1",
            "local_shell",
        ),
        (
            r#"{"type": "web_search_call", "id": "ws_1", "status": "completed",
                "action": {"type": "search", "query": "rust"}}"#,
            "ws_1",
            "web_search",
        ),
        (
            r#"{"type": "tool_search_call", "id": "ts_1", "call_id": "c2",
                "execution": "server", "arguments": {}}"#,
            "c2",
            "tool_search",
        ),
        (r#"{"type": "local_shell_call", "id": "lsh_1", "action": {}}"#, "lsh_1", "local_shell"),
    ];
    for (payload, call, name) in cases {
        let m = item(&json(payload));
        assert_eq!(m.role(), Role::Assistant);
        assert!(
            matches!(m.content().as_slice(), [Content::ToolUse(u)] if u.id.0 == call && u.name == name),
            "tool call lost: {:?}",
            m.content()
        );
    }
}

#[test]
fn other_tool_outputs_answer_their_call() {
    let cases = [
        (
            r#"{"type": "tool_search_output", "call_id": "c2", "status": "completed",
                "execution": "server", "tools": []}"#,
            "c2#out",
        ),
        (
            r#"{"type": "function_call_output", "call_id": "c1",
                "output": "files\nProcess exited with code 0"}"#,
            "c1#out",
        ),
    ];
    for (payload, expected) in cases {
        let m = item(&json(payload));
        assert_eq!(m.role(), Role::Tool);
        assert_eq!(m.id(), id(expected));
        assert!(matches!(m.content().as_slice(), [Content::ToolResult(r)] if !r.error));
    }
    let failed = item(&json(r#"{"type": "tool_search_output", "call_id": "c", "status": "failed"}"#));
    assert!(matches!(failed.content().as_slice(), [Content::ToolResult(r)] if r.error));
}

#[test]
fn reasoning_keeps_nothing() {
    let m = item(&json(r#"{"type": "reasoning", "summary": ["PRIVATE"], "encrypted_content": "x"}"#));
    assert_eq!(m.role(), Role::Assistant);
    assert_eq!(m.content(), vec![Content::ReasoningSummary { tokens: None }]);
}

#[test]
fn plain_and_unknown_content_is_kept() {
    assert_eq!(item(&json(r#"{"role": "assistant", "content": "hi"}"#)).content(), vec![said("hi")]);
    let odd = value(&json(r#"{"type": "input_image", "image_url": "u"}"#));
    let m = item(&json(
        r#"{"role": "user", "content": [{"type": "input_image", "image_url": "u"}, {"type": "text"}]}"#,
    ));
    assert_eq!(m.content(), vec![Content::Other(odd), said("")]);
    let bare = parse(r#"{"type": "odd"}"#);
    assert_eq!(bare.role(), Role::Other("odd".to_owned()));
    assert!(bare.content().is_empty());
    assert_eq!(bare.id(), None);
}

#[test]
fn an_output_answers_the_id_its_call_goes_by() {
    let calls = ["function_call", "custom_tool_call", "local_shell_call", "tool_search_call"];
    let outputs = ["function_call_output", "custom_tool_call_output", "tool_search_output"];
    for call_kind in calls {
        for output_kind in outputs {
            let call = item(&json(&format!(
                r#"{{"type": "{call_kind}", "id": "own", "call_id": "c7"}}"#
            )));
            let output =
                item(&json(&format!(r#"{{"type": "{output_kind}", "id": "other", "call_id": "c7"}}"#)));
            match (&call.content()[0], &output.content()[0]) {
                (Content::ToolUse(call), Content::ToolResult(result)) => {
                    assert_eq!(call.id.0, "c7");
                    assert_eq!(call.id, result.call);
                }
                other => panic!("{other:?}"),
            }
        }
    }
}

#[test]
fn a_copied_meta_names_no_model() {
    let meta = json(r#"{"type": "session_meta", "payload": {"id": "parent", "model": "m"}}"#);
    let lines = read("child", 0, b"", &[meta.clone()]);
    assert_eq!(lines[0].model(), None);
    let own = read("parent", 0, b"", &[meta]);
    assert_eq!(own[0].model().as_deref(), Some("m"));
    assert_eq!(own[0].id(), id("parent"));
}
