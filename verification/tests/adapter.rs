//! Which agent a message comes from.

use heddle::agent::adapter::{Adapter, Adapters, Claim, Heddle, Hermes, Ingest, Textual};
use heddle::agent::fallback::{parse_with, Chrome, Parsed};
use heddle::agent::protocol::{
    AgentEvent, DecodeError, Kind, Tool, ToolStatus, CONTENT_KEY, LEGACY_CONTENT_KEY, SCHEMA_VERSION,
};
use heddle::json::{read, Json};

fn json(text: &str) -> Json {
    read(text).expect("json")
}

fn envelope(key: &str) -> Json {
    json(&format!(
        r##"{{
            "body": "🔧 edit: \"src/main.rs\"",
            "{key}": {{
                "v": {SCHEMA_VERSION}, "session_id": "s", "turn_id": "t", "seq": 1,
                "kind": "tool.call",
                "tool": {{ "name": "edit", "index": 0, "status": "running" }}
            }}
        }}"##
    ))
}

fn text_of(payload: &Json, name: &str) -> Option<String> {
    match payload.get(name) {
        Some(Json::Text(text)) => Some(text.clone()),
        _ => None,
    }
}

/// A tool call, from its payload.
fn event(payload: &Json) -> Option<AgentEvent> {
    if text_of(payload, "kind").as_deref() != Some("tool.call") {
        return None;
    }
    let tool = payload.get("tool").map(|tool| Tool {
        name: text_of(tool, "name").unwrap_or_default(),
        index: 0,
        args: None,
        preview: None,
        status: ToolStatus::Running,
        duration_ms: None,
        mime: None,
        body: None,
        truncated: false,
    });
    Some(AgentEvent {
        v: SCHEMA_VERSION,
        session_id: text_of(payload, "session_id")?,
        turn_id: text_of(payload, "turn_id")?,
        seq: 1,
        kind: Kind::ToolCall,
        agent: None,
        text: None,
        final_: None,
        tool,
        notice: None,
        approval: None,
        picker: None,
        usage: None,
    })
}

struct Bracketed;

impl Adapter for Bracketed {
    fn id(&self) -> &'static str {
        "bracketed"
    }

    fn structured<'a>(&self, _content: &'a Json) -> Result<Option<Claim<'a>>, DecodeError> {
        Ok(None)
    }

    fn textual(&self, body: &str) -> Parsed {
        parse_with(
            body,
            Chrome {
                leading_emoji: false,
                preview: true,
                ellipsis: false,
                call: false,
            },
        )
    }
}

/// An agent with a grammar and a content key of its own.
struct Shouting;

impl Adapter for Shouting {
    fn id(&self) -> &'static str {
        "shouting"
    }

    fn structured<'a>(&self, content: &'a Json) -> Result<Option<Claim<'a>>, DecodeError> {
        match content.get("shout") {
            None => Ok(None),
            Some(Json::Text(turn)) => Ok(Some(Claim::Event(AgentEvent {
                turn_id: turn.clone(),
                ..event(envelope(CONTENT_KEY).get(CONTENT_KEY).expect("payload")).expect("event")
            }))),
            Some(_) => Err(DecodeError::Malformed("no text".to_owned())),
        }
    }

    fn textual(&self, body: &str) -> Parsed {
        let mut parsed = Parsed::default();
        for line in body.lines() {
            if let Some(name) = line.strip_suffix('!') {
                parsed.tools.push(Tool {
                    name: name.to_owned(),
                    index: parsed.tools.len() as u32,
                    args: None,
                    preview: None,
                    status: ToolStatus::Success,
                    duration_ms: None,
                    mime: None,
                    body: None,
                    truncated: false,
                });
            }
        }
        parsed
    }
}

#[test]
fn the_published_key_is_understood_without_naming_an_agent() {
    let set = Adapters::new();
    match set.ingest(&envelope(CONTENT_KEY), "chrome", event) {
        Ingest::Structured { adapter, .. } => assert_eq!(adapter, "heddle"),
        other => panic!("expected structured, got {other:?}"),
    }
}

#[test]
fn the_legacy_hermes_key_still_works() {
    let set = Adapters::new();
    match set.ingest(&envelope(LEGACY_CONTENT_KEY), "chrome", event) {
        Ingest::Structured { adapter, .. } => assert_eq!(adapter, "hermes"),
        other => panic!("expected structured, got {other:?}"),
    }
}

#[test]
fn chrome_is_recovered_when_no_extension_is_present() {
    let set = Adapters::new();
    let content = json(r##"{ "body": "🔧 edit: \"src/main.rs\"" }"##);
    match set.ingest(&content, "🔧 edit: \"src/main.rs\"", event) {
        Ingest::Degraded { adapter, parsed } => {
            assert_eq!(adapter, "hermes");
            assert_eq!(parsed.tools.len(), 1);
        }
        other => panic!("expected degraded, got {other:?}"),
    }
}

#[test]
fn a_lossless_read_beats_a_lossy_one_whoever_offers_it() {
    let set = Adapters::none()
        .with(Textual::new("eager", Chrome::hermes()))
        .with(Heddle);
    match set.ingest(&envelope(CONTENT_KEY), "🔧 edit: \"x\"", event) {
        Ingest::Structured { adapter, .. } => assert_eq!(adapter, "heddle"),
        other => panic!("expected structured, got {other:?}"),
    }
}

#[test]
fn ordinary_chat_belongs_to_nobody() {
    let set = Adapters::new();
    let content = json(r##"{ "body": "morning" }"##);
    assert!(matches!(set.ingest(&content, "morning", event), Ingest::Plain));
    assert_eq!(set.ingest(&content, "morning", event).adapter(), None);
}

#[test]
fn the_lossy_path_can_be_switched_off_without_losing_the_lossless_one() {
    let set = Adapters::new().textual(false);
    let chrome = json(r##"{ "body": "🔧 edit: \"x\"" }"##);
    assert!(matches!(
        set.ingest(&chrome, "🔧 edit: \"x\"", event),
        Ingest::Plain
    ));
    assert!(matches!(
        set.ingest(&envelope(CONTENT_KEY), "🔧 edit: \"x\"", event),
        Ingest::Structured { .. }
    ));
}

#[test]
fn a_future_schema_degrades_rather_than_dropping_the_message() {
    let content = json(&format!(
        r##"{{
            "body": "🔧 edit: \"src/main.rs\"",
            "{CONTENT_KEY}": {{ "v": 99, "session_id": "s", "turn_id": "t", "seq": 1, "kind": "tool.call" }}
        }}"##
    ));
    match Adapters::new().ingest(&content, "🔧 edit: \"src/main.rs\"", event) {
        Ingest::Degraded { parsed, .. } => assert_eq!(parsed.tools.len(), 1),
        other => panic!("expected degraded, got {other:?}"),
    }
}

#[test]
fn an_agent_can_be_added_without_touching_this_crate() {
    let set = Adapters::none().with(Bracketed);
    match set.ingest(&json("{}"), "edit: \"src/main.rs\"", event) {
        Ingest::Degraded { adapter, parsed } => {
            assert_eq!(adapter, "bracketed");
            assert_eq!(parsed.tools[0].name, "edit");
        }
        other => panic!("expected degraded, got {other:?}"),
    }
    assert!(matches!(
        Adapters::new().ingest(&json("{}"), "edit: \"src/main.rs\"", event),
        Ingest::Plain
    ));
}

#[test]
fn adapters_are_selected_by_name_and_a_typo_costs_only_itself() {
    let set = Adapters::by_id(&vec!["hermes".to_owned(), "nonsense".to_owned()]);
    assert_eq!(set.ids(), vec!["hermes"]);

    let empty = Adapters::by_id(&vec![]);
    assert!(empty.is_empty());
    assert!(matches!(
        empty.ingest(&envelope(CONTENT_KEY), "🔧 edit: \"x\"", event),
        Ingest::Plain
    ));
}

#[test]
fn an_adapter_answers_for_itself() {
    assert_eq!(Heddle.id(), "heddle");
    assert_eq!(Hermes.id(), "hermes");
    assert_eq!(Textual::new("eager", Chrome::hermes()).id(), "eager");
    assert_eq!(Bracketed.id(), "bracketed");

    let content = envelope(CONTENT_KEY);
    match Heddle.structured(&content) {
        Ok(Some(Claim::Payload(payload))) => assert_eq!(Some(payload), content.get(CONTENT_KEY)),
        other => panic!("expected a payload, got {other:?}"),
    }
    assert!(matches!(Hermes.structured(&content), Ok(None)));
    assert!(matches!(Bracketed.structured(&content), Ok(None)));

    let chrome = "🔧 edit: \"src/main.rs\"";
    assert!(Heddle.textual(chrome).tools.is_empty());
    assert_eq!(Hermes.textual(chrome).tools[0].name, "edit");
    assert_eq!(Bracketed.textual("edit: \"src/main.rs\"").tools[0].name, "edit");
}

#[test]
fn an_agent_may_bring_a_parser_of_its_own() {
    let set = Adapters::new().with(Shouting);
    assert_eq!(set.ids(), vec!["heddle", "hermes", "shouting"]);

    match set.ingest(&json("{}"), "deploy!\nand wait\nverify!", event) {
        Ingest::Degraded { adapter, parsed } => {
            assert_eq!(adapter, "shouting");
            assert_eq!(parsed.tools.len(), 2);
            assert_eq!(parsed.tools[1].name, "verify");
        }
        other => panic!("expected degraded, got {other:?}"),
    }

    // Its own key is read without the envelope, and beats everyone's text.
    match set.ingest(&json(r##"{ "shout": "t9" }"##), "🔧 edit: \"x\"", event) {
        Ingest::Structured { adapter, event } => {
            assert_eq!(adapter, "shouting");
            assert_eq!(event.turn_id, "t9");
        }
        other => panic!("expected structured, got {other:?}"),
    }

    // A claim that cannot be read leaves the message to the text.
    match set.ingest(&json(r##"{ "shout": 7 }"##), "🔧 edit: \"x\"", event) {
        Ingest::Degraded { adapter, .. } => assert_eq!(adapter, "hermes"),
        other => panic!("expected degraded, got {other:?}"),
    }
}
