//! The published schema of agent events.

use heddle::agent::protocol::{
    decode, is_agent_event, Arg, Args, DecodeError, Kind, ResultKind, Tool, ToolStatus, CONTENT_KEY,
};
use heddle::json::{read, Json};

fn json(text: &str) -> Json {
    read(text).expect("json")
}

fn text(value: &str) -> Json {
    Json::Text(value.to_owned())
}

fn tool_call() -> Json {
    json(&format!(
        r##"{{
            "msgtype": "m.notice",
            "body": "🔧 edit: \"src/main.rs\"",
            "{CONTENT_KEY}": {{
                "v": 1,
                "session_id": "proj-b/thread-$root",
                "turn_id": "01JQ8XKQ2W9YHVB0ZC7T5N3E4M",
                "seq": 12,
                "kind": "tool.call",
                "tool": {{
                    "name": "edit",
                    "index": 0,
                    "args": {{ "path": "src/main.rs" }},
                    "preview": "src/main.rs",
                    "status": "running"
                }}
            }}
        }}"##
    ))
}

#[test]
fn decodes_a_tool_call() {
    let content = tool_call();
    let payload = decode(&content).expect("decodes");
    assert_eq!(payload.get("kind"), Some(&text("tool.call")));
    assert_eq!(payload.get("seq"), Some(&Json::Unsigned(12)));
    let tool = payload.get("tool").expect("tool present");
    assert_eq!(tool.get("name"), Some(&text("edit")));
    assert_eq!(tool.get("status"), Some(&text("running")));
    assert_eq!(tool.get("preview"), Some(&text("src/main.rs")));
}

#[test]
fn absent_key_is_not_an_error_condition() {
    let content = json(r##"{ "msgtype": "m.text", "body": "hello" }"##);
    assert_eq!(decode(&content), Err(DecodeError::Absent));
    assert!(!is_agent_event(&content));
}

#[test]
fn prefers_new_content_on_edits() {
    let content = json(&format!(
        r##"{{
            "msgtype": "m.text",
            "body": "* updated",
            "{CONTENT_KEY}": {{ "v": 1, "session_id": "s", "turn_id": "t", "seq": 1, "kind": "message.delta", "text": "stale" }},
            "m.new_content": {{
                "msgtype": "m.text",
                "body": "updated",
                "{CONTENT_KEY}": {{ "v": 1, "session_id": "s", "turn_id": "t", "seq": 9, "kind": "message.delta", "text": "fresh" }}
            }},
            "m.relates_to": {{ "rel_type": "m.replace", "event_id": "$abc" }}
        }}"##
    ));
    let payload = decode(&content).expect("decodes");
    assert_eq!(payload.get("seq"), Some(&Json::Unsigned(9)));
    assert_eq!(payload.get("text"), Some(&text("fresh")));
}

#[test]
fn rejects_a_future_schema_rather_than_guessing() {
    let content = json(&format!(
        r##"{{
            "{CONTENT_KEY}": {{ "v": 2, "session_id": "s", "turn_id": "t", "seq": 1, "kind": "message.delta" }}
        }}"##
    ));
    assert_eq!(
        decode(&content),
        Err(DecodeError::UnsupportedVersion { found: 2 })
    );
}

#[test]
fn unknown_kinds_degrade_instead_of_failing() {
    let content = json(&format!(
        r##"{{
            "{CONTENT_KEY}": {{ "v": 1, "session_id": "s", "turn_id": "t", "seq": 1, "kind": "some.future.kind" }}
        }}"##
    ));
    match decode(&content).expect("decodes").get("kind") {
        Some(Json::Text(word)) => assert_eq!(Kind::named(word), Kind::Unknown),
        other => panic!("expected a word, got {other:?}"),
    }
    assert_eq!(Kind::named("tool.call"), Kind::ToolCall);
    assert_eq!(Kind::named("approval.resolved"), Kind::ApprovalResolved);
}

#[test]
fn resolves_result_renderers_from_mime() {
    let cases = [
        (Some("text/x-diff"), ResultKind::Diff),
        (Some("application/json"), ResultKind::Json),
        (Some("text/markdown"), ResultKind::Markdown),
        (Some("text/plain"), ResultKind::Plain),
        (None, ResultKind::Plain),
    ];
    for (mime, want) in cases {
        let tool = Tool {
            name: "t".into(),
            index: 0,
            args: None,
            preview: None,
            status: ToolStatus::Success,
            duration_ms: None,
            mime: mime.map(str::to_owned),
            body: None,
            truncated: false,
        };
        assert_eq!(tool.result_kind(), want, "mime {mime:?}");
    }
}

#[test]
fn summary_falls_back_to_first_scalar_arg() {
    let tool = Tool {
        name: "bash".into(),
        index: 0,
        args: Some(Args::Object(vec![(
            "command".to_owned(),
            Arg::Text("cargo test".to_owned()),
        )])),
        preview: None,
        status: ToolStatus::Running,
        duration_ms: None,
        mime: None,
        body: None,
        truncated: false,
    };
    assert_eq!(tool.summary(), "cargo test");
}

#[test]
fn a_version_too_large_for_the_schema_is_refused() {
    for (v, error) in [
        (4_294_967_297_u64, "invalid value: integer `4294967297`, expected u32"),
        (4_294_967_296, "invalid value: integer `4294967296`, expected u32"),
    ] {
        let content = json(&format!(r##"{{ "{CONTENT_KEY}": {{ "v": {v} }} }}"##));
        assert_eq!(decode(&content), Err(DecodeError::Malformed(error.to_owned())));
    }
    let content = json(&format!(r##"{{ "{CONTENT_KEY}": {{ "v": 4294967298 }} }}"##));
    assert_eq!(decode(&content), Err(DecodeError::UnsupportedVersion { found: 2 }));
}
