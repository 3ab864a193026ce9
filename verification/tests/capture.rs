//! Recording what comes in.

use heddle::agent::adapter::Adapters;
use heddle::agent::protocol::AgentEvent;
use heddle::json::{read, Json};
use heddle::matrix::capture::{is_new, Record};
use heddle::matrix::worker::decode_agent;
use heddle::table::Table;

fn nothing(_payload: &Json) -> Option<AgentEvent> {
    None
}

#[test]
fn a_record_says_what_was_made_of_a_message() {
    let body = "🔧 edit: \"src/main.rs\"";
    let raw = r##"{ "content": { "msgtype": "m.notice", "body": "🔧 edit: \"src/main.rs\"" } }"##;
    let event = read(raw).expect("json");
    let content = event.get("content").expect("content");

    let payload = decode_agent(Some(raw), body, &Adapters::new(), nothing);
    let record = Record::of(Some("$abc"), "@hermes:example.org", body, &payload, content);
    assert_eq!(record.verdict, "degraded");
    assert_eq!(record.adapter, Some("hermes"));
    assert_eq!(record.tools, vec!["edit"]);
    assert_eq!(record.content.get("msgtype"), Some(&Json::Text("m.notice".to_owned())));
    assert_eq!(record.body, body);
    assert_eq!(record.event_id, Some("$abc"));

    let chat = decode_agent(Some(raw), "morning", &Adapters::new(), nothing);
    let record = Record::of(None, "@someone:example.org", "morning", &chat, content);
    assert_eq!((record.verdict, record.adapter), ("plain", None));
    assert!(record.tools.is_empty());
}

#[test]
fn an_event_is_recorded_once_however_often_it_is_converted() {
    let mut seen = Table::new();
    assert!(is_new(&mut seen, Some("$a")));
    assert!(!is_new(&mut seen, Some("$a")));
    assert!(is_new(&mut seen, Some("$b")));
}

#[test]
fn a_local_echo_is_always_recorded() {
    let mut seen = Table::new();
    assert!(is_new(&mut seen, None));
    assert!(is_new(&mut seen, None));
}

