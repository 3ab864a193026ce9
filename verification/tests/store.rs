//! Agent sessions.

use heddle::agent::protocol::{AgentEvent, Approval, ApprovalChoice, Kind, Tool, ToolStatus, SCHEMA_VERSION};
use heddle::agent::store::{AgentState, AgentStore};

fn ev(seq: u64, kind: Kind) -> AgentEvent {
    AgentEvent {
        v: SCHEMA_VERSION,
        session_id: "s1".into(),
        turn_id: "t1".into(),
        seq,
        kind,
        agent: None,
        text: None,
        final_: None,
        tool: None,
        notice: None,
        approval: None,
        picker: None,
        usage: None,
    }
}

fn tool(index: u32, status: ToolStatus) -> Tool {
    Tool {
        name: "bash".into(),
        index,
        args: None,
        preview: Some("cargo test".into()),
        status,
        duration_ms: None,
        mime: None,
        body: None,
        truncated: false,
    }
}

#[test]
fn accumulates_cumulative_text_without_duplicating() {
    let mut store = AgentStore::new();
    for (seq, text) in [(1, "Hello"), (2, "Hello wor"), (3, "Hello world")] {
        let mut e = ev(seq, Kind::MessageDelta);
        e.text = Some(text.into());
        store.apply(&e);
    }
    let s = store.get("s1").expect("session");
    assert_eq!(s.latest_turn().expect("turn").text, "Hello world");
}

#[test]
fn appends_when_deltas_are_genuinely_incremental() {
    let mut store = AgentStore::new();
    for (seq, text) in [(1, "abc"), (2, "def")] {
        let mut e = ev(seq, Kind::MessageDelta);
        e.text = Some(text.into());
        store.apply(&e);
    }
    assert_eq!(
        store.get("s1").expect("s").latest_turn().expect("t").text,
        "abcdef"
    );
}

#[test]
fn a_tool_result_updates_its_call_in_place() {
    let mut store = AgentStore::new();

    let mut call = ev(1, Kind::ToolCall);
    call.tool = Some(tool(0, ToolStatus::Running));
    store.apply(&call);
    assert_eq!(store.get("s1").expect("s").state(), AgentState::Working);

    let mut result = ev(2, Kind::ToolResult);
    result.tool = Some(Tool {
        status: ToolStatus::Success,
        duration_ms: Some(1400),
        mime: Some("text/x-diff".into()),
        body: Some("--- a\n+++ b".into()),
        ..tool(0, ToolStatus::Success)
    });
    store.apply(&result);

    let s = store.get("s1").expect("s");
    let t = s.latest_turn().expect("t");
    assert_eq!(t.tools().len(), 1, "result must not append a second card");
    let card = t.tools().first().expect("card");
    assert_eq!(card.status, ToolStatus::Success);
    assert_eq!(card.duration_ms, Some(1400));
    assert_eq!(card.preview.as_deref(), Some("cargo test"));
    assert!(!t.has_running_tool());
}

#[test]
fn blocked_outranks_working() {
    let mut store = AgentStore::new();
    let mut call = ev(1, Kind::ToolCall);
    call.tool = Some(tool(0, ToolStatus::Running));
    store.apply(&call);

    let mut req = ev(2, Kind::ApprovalRequest);
    req.approval = Some(Approval {
        id: "a1".into(),
        kind: "exec".into(),
        command: Some("rm -rf ./build".into()),
        cwd: None,
        expires_at: Some(9999),
        reactions: Default::default(),
        choice: None,
        by: None,
    });
    store.apply(&req);

    assert_eq!(store.get("s1").expect("s").state(), AgentState::Blocked);
}

#[test]
fn resolution_unblocks() {
    let mut store = AgentStore::new();
    let mut req = ev(1, Kind::ApprovalRequest);
    req.approval = Some(Approval {
        id: "a1".into(),
        kind: "exec".into(),
        command: None,
        cwd: None,
        expires_at: None,
        reactions: Default::default(),
        choice: None,
        by: None,
    });
    store.apply(&req);
    assert_eq!(store.get("s1").expect("s").state(), AgentState::Blocked);

    let mut res = ev(2, Kind::ApprovalResolved);
    res.approval = Some(Approval {
        id: "a1".into(),
        kind: "exec".into(),
        command: None,
        cwd: None,
        expires_at: None,
        reactions: Default::default(),
        choice: Some(ApprovalChoice::Approve),
        by: Some("@quintin:example.org".into()),
    });
    store.apply(&res);
    assert!(store.get("s1").expect("s").pending.is_empty());
}

#[test]
fn expired_prompts_do_not_block_for_ever() {
    let mut store = AgentStore::new();
    let mut req = ev(1, Kind::ApprovalRequest);
    req.approval = Some(Approval {
        id: "a1".into(),
        kind: "exec".into(),
        command: None,
        cwd: None,
        expires_at: Some(1_000),
        reactions: Default::default(),
        choice: None,
        by: None,
    });
    store.apply(&req);

    assert_eq!(store.expire_pending(999), 0, "not yet due");
    assert_eq!(store.expire_pending(1_001), 1);
    assert_ne!(store.get("s1").expect("s").state(), AgentState::Blocked);
}

#[test]
fn done_collapses_to_idle_once_seen() {
    let mut store = AgentStore::new();
    let mut stop = ev(1, Kind::MessageStop);
    stop.final_ = Some(true);
    store.apply(&stop);
    assert_eq!(store.get("s1").expect("s").state(), AgentState::Done);

    store.get_mut("s1").expect("s").mark_seen();
    assert_eq!(store.get("s1").expect("s").state(), AgentState::Idle);
}

#[test]
fn non_final_stop_is_only_a_segment_break() {
    let mut store = AgentStore::new();
    let mut stop = ev(1, Kind::MessageStop);
    stop.final_ = Some(false);
    store.apply(&stop);
    assert_eq!(
        store.get("s1").expect("s").state(),
        AgentState::Working,
        "text -> tool -> text must not look finished"
    );
}

#[test]
fn detects_and_heals_sequence_gaps() {
    let mut store = AgentStore::new();
    store.apply(&ev(1, Kind::Commentary));
    store.apply(&ev(4, Kind::Commentary));

    let s = store.get("s1").expect("s");
    assert!(s.has_gaps());
    assert_eq!(s.latest_turn().expect("t").gaps, vec![2, 3]);

    store.apply(&ev(2, Kind::Commentary));
    store.apply(&ev(3, Kind::Commentary));
    assert!(!store.get("s1").expect("s").has_gaps());
}

#[test]
fn rollup_takes_the_most_urgent_session() {
    let mut store = AgentStore::new();

    let mut a = ev(1, Kind::MessageStop);
    a.final_ = Some(true);
    store.apply(&a);

    let mut b = ev(1, Kind::ApprovalRequest);
    b.session_id = "s2".into();
    b.approval = Some(Approval {
        id: "a1".into(),
        kind: "exec".into(),
        command: None,
        cwd: None,
        expires_at: None,
        reactions: Default::default(),
        choice: None,
        by: None,
    });
    store.apply(&b);

    assert_eq!(store.rollup(), AgentState::Blocked);
    assert_eq!(store.count_in(AgentState::Done), 1);
    assert_eq!(store.count_in(AgentState::Blocked), 1);
}

#[test]
fn typing_reads_as_working_before_the_first_token() {
    let mut store = AgentStore::new();
    store.apply(&ev(1, Kind::Commentary));
    store.set_typing("s1", true);
    assert_eq!(store.get("s1").expect("s").state(), AgentState::Working);
}

#[test]
fn typing_creates_the_session_it_is_about() {
    let mut store = AgentStore::new();
    store.set_typing("s1", true);
    assert_eq!(store.get("s1").expect("s").state(), AgentState::Working);

    store.set_typing("s1", false);
    assert_eq!(store.get("s1").expect("s").state(), AgentState::Idle);
}

#[test]
fn clearing_typing_does_not_conjure_a_session() {
    let mut store = AgentStore::new();
    store.set_typing("s1", false);
    assert!(store.get("s1").is_none());
}

#[test]
fn a_replay_does_not_make_a_seen_session_new_again() {
    let mut store = AgentStore::new();
    let mut stop = ev(1, Kind::MessageStop);
    stop.final_ = Some(true);
    store.apply(&stop);
    store.get_mut("s1").expect("s").mark_seen();

    store.apply(&stop);
    assert_eq!(store.get("s1").expect("s").state(), AgentState::Idle);

    store.apply(&ev(2, Kind::Notice));
    assert_eq!(store.get("s1").expect("s").state(), AgentState::Done);
}

fn prompt(id: &str, expires_at: Option<u64>) -> Approval {
    Approval {
        id: id.into(),
        kind: "exec".into(),
        command: None,
        cwd: None,
        expires_at,
        reactions: Default::default(),
        choice: None,
        by: None,
    }
}

#[test]
fn a_settled_prompt_is_not_asked_again() {
    let mut request = ev(1, Kind::ApprovalRequest);
    request.approval = Some(prompt("a1", Some(300)));
    let mut resolved = ev(2, Kind::ApprovalResolved);
    resolved.approval = Some(prompt("a1", None));

    // By an event, in either order and however often either comes.
    for order in [[&request, &resolved], [&resolved, &request]] {
        let mut store = AgentStore::new();
        for event in order.into_iter().chain([&request, &resolved, &request]) {
            store.apply(event);
        }
        assert!(store.get("s1").expect("s").pending.is_empty());
    }

    // By an answer given here, and by running out.
    let mut store = AgentStore::new();
    store.apply(&request);
    store.resolve_pending("s1", "a1", ApprovalChoice::Approve);
    store.apply(&request);
    assert!(store.get("s1").expect("s").pending.is_empty());

    let mut store = AgentStore::new();
    store.apply(&request);
    assert_eq!(store.expire_pending(300), 1);
    store.apply(&request);
    assert!(store.get("s1").expect("s").pending.is_empty());

    // A prompt that is still open is asked once.
    let mut store = AgentStore::new();
    store.apply(&request);
    store.apply(&request);
    assert_eq!(store.get("s1").expect("s").pending.len(), 1);
}

#[test]
fn a_prompt_asked_anew_is_shown() {
    let request = |turn: &str, seq: u64| {
        let mut event = ev(seq, Kind::ApprovalRequest);
        event.turn_id = turn.into();
        event.approval = Some(prompt("a1", None));
        event
    };
    let mut resolved = ev(2, Kind::ApprovalResolved);
    resolved.approval = Some(prompt("a1", None));
    let open = |store: &AgentStore| store.get("s1").expect("s").pending.len();

    let mut store = AgentStore::new();
    store.apply(&request("t1", 1));
    store.apply(&resolved);
    store.apply(&request("t1", 3));
    assert_eq!(open(&store), 1, "asked again behind the resolution");

    // The whole history again, as every snapshot brings it.
    store.apply(&request("t1", 1));
    store.apply(&resolved);
    store.apply(&request("t1", 3));
    assert_eq!(open(&store), 1);

    store.resolve_pending("s1", "a1", ApprovalChoice::Deny);
    store.apply(&request("t1", 3));
    assert_eq!(open(&store), 0, "answered here");
    store.apply(&request("t1", 4));
    assert_eq!(open(&store), 1, "and asked once more");

    // A resolution in another turn settles what was asked before it, and nothing asked later.
    resolved.turn_id = "t2".into();
    store.apply(&resolved);
    store.apply(&request("t1", 4));
    assert_eq!(open(&store), 0);
    store.apply(&request("t3", 1));
    assert_eq!(open(&store), 1);
}
