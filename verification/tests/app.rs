//! The state machine as a whole.

use heddle::agent::protocol::{AgentEvent, Approval, Kind, Tool, ToolStatus};
use heddle::agent::store::AgentState;
use heddle::app::composer::Composer;
use heddle::app::config::Config;
use heddle::app::keymap::{Action, Mode};
use heddle::app::mentions::{mention_text, rank_members, resolve_mention};
use heddle::app::state::{App, Hit, Modal, Pending, RecoveryPanel, TYPING_IDLE_MS};
use heddle::layout::model::{PaneKind, Unread, ORPHAN_WORKSPACE};
use heddle::layout::persist::Layout;
use heddle::layout::tiling::{Dir, Rect, Tiling};
use heddle::matrix::model::{
    AgentPayload, Command, Entry, EntryKind, MemberSummary, Message, RecoveryState, RoomSummary, Shield,
    ShieldReason, ThreadSummary, Verification, View, WorkerEvent,
};
use ratatui::layout::Direction;
use ratatui_hypertile::SplitSnapshot;

/// Give the first side of a split this share.
fn share(path: &[usize], ratio: f32) -> SplitSnapshot {
    SplitSnapshot {
        path: path.to_vec(),
        rect: ratatui::layout::Rect::ZERO,
        direction: Direction::Horizontal,
        ratio,
    }
}

/// Move a held border to the pointer: the engine sets the share that puts it there.
fn drag(app: &mut App, column: u16, row: u16) {
    let Some(drag) = app.drag_to(column, row) else {
        return;
    };
    let at = (f32::from(drag.offset) / f32::from(drag.extent.max(1))).clamp(0.1, 0.9);
    let moved = app
        .tilings
        .get_mut(&drag.room_id)
        .expect("tiling")
        .set_share(&share(&drag.path, at));
    if moved {
        app.border_moved();
    }
}

fn members() -> Vec<MemberSummary> {
    vec![
        MemberSummary {
            user_id: "@quintin:example.org".into(),
            display_name: "Quintin".into(),
            ambiguous: false,
        },
        MemberSummary {
            user_id: "@wright:example.org".into(),
            display_name: "Retinue".into(),
            ambiguous: false,
        },
        MemberSummary {
            user_id: "@alex:example.org".into(),
            display_name: "Alex".into(),
            ambiguous: true,
        },
        MemberSummary {
            user_id: "@alex:other.example".into(),
            display_name: "Alex".into(),
            ambiguous: true,
        },
    ]
}

#[test]
fn a_mention_is_written_as_a_localpart() {
    let m = members();
    assert_eq!(mention_text(&m[0], &m), "@quintin");
}

#[test]
fn a_shared_localpart_is_written_out_in_full() {
    let m = members();
    assert_eq!(mention_text(&m[2], &m), "@alex:example.org");
    assert_eq!(mention_text(&m[3], &m), "@alex:other.example");
}

#[test]
fn a_written_mention_resolves_to_a_user_id() {
    let m = members();
    assert_eq!(
        resolve_mention(&m, "quintin").map(|x| x.user_id.as_str()),
        Some("@quintin:example.org")
    );
    assert_eq!(
        resolve_mention(&m, "Retinue").map(|x| x.user_id.as_str()),
        Some("@wright:example.org")
    );
}

#[test]
fn an_ambiguous_display_name_resolves_to_nobody() {
    assert!(resolve_mention(&members(), "Alex").is_none());
    assert_eq!(
        resolve_mention(&members(), "alex:other.example").map(|x| x.user_id.as_str()),
        Some("@alex:other.example")
    );
}

#[test]
fn mentions_are_read_out_of_a_finished_message() {
    let mut app = app();
    app.members.insert("!r:x".into(), members());
    assert_eq!(
        app.mentioned_in("!r:x", "morning @quintin and @wright, ready?"),
        vec![
            "@quintin:example.org".to_owned(),
            "@wright:example.org".to_owned()
        ]
    );
}

#[test]
fn a_mention_at_the_end_of_a_sentence_still_counts() {
    let mut app = app();
    app.members.insert("!r:x".into(), members());
    assert_eq!(
        app.mentioned_in("!r:x", "please look at this, @quintin."),
        vec!["@quintin:example.org".to_owned()]
    );
}

#[test]
fn an_email_address_mentions_nobody() {
    let mut app = app();
    app.members.insert("!r:x".into(), members());
    assert!(app
        .mentioned_in("!r:x", "write to quintin@example.org")
        .is_empty());
}

#[test]
fn the_same_person_is_mentioned_once() {
    let mut app = app();
    app.members.insert("!r:x".into(), members());
    assert_eq!(
        app.mentioned_in("!r:x", "@quintin @quintin @quintin:example.org"),
        vec!["@quintin:example.org".to_owned()]
    );
}

#[test]
fn a_room_with_no_roster_mentions_nobody() {
    assert!(app().mentioned_in("!r:x", "hello @quintin").is_empty());
}

#[test]
fn ranking_finds_a_member_by_name_or_by_id() {
    let m = members();
    assert_eq!(rank_members(&m, "wri"), vec![1]);
    assert_eq!(rank_members(&m, "retin"), vec![1]);
}

#[test]
fn ranking_with_no_query_offers_the_whole_room() {
    assert_eq!(rank_members(&members(), ""), vec![0, 1, 2, 3]);
}

fn app() -> App {
    let mut app = App::new(Config::default(), Layout::default());
    app.apply_worker_event(WorkerEvent::Rooms(vec![RoomSummary {
        room_id: "!r:x".into(),
        display_name: "#backend".into(),
        is_space: false,
        parents: Vec::new(),
        is_direct: false,
        is_encrypted: false,
        notification_count: 0,
        highlight_count: 0,
    }]));
    let _ = app.take_commands();
    app
}
fn app_with_members() -> App {
    let mut app = app();
    app.apply_worker_event(WorkerEvent::Members {
        room_id: "!r:x".into(),
        members: members(),
    });
    app.mode = Mode::Insert;
    app
}

#[test]
fn the_room_roster_is_asked_for_when_a_room_is_focused() {
    let mut app = App::new(Config::default(), Layout::default());
    app.apply_worker_event(WorkerEvent::Rooms(vec![RoomSummary {
        room_id: "!r:x".into(),
        display_name: "#backend".into(),
        is_space: false,
        parents: Vec::new(),
        is_direct: false,
        is_encrypted: false,
        notification_count: 0,
        highlight_count: 0,
    }]));
    assert!(
        app.take_commands()
            .iter()
            .any(|c| matches!(c, Command::ListMembers { room_id } if room_id == "!r:x")),
        "the picker needs a roster before the user types @, not after"
    );
}

#[test]
fn the_roster_is_only_asked_for_once() {
    let mut app = app_with_members();
    app.open_focused_view();
    assert!(!app
        .take_commands()
        .iter()
        .any(|c| matches!(c, Command::ListMembers { .. })));
}

#[test]
fn typing_an_at_opens_the_picker_and_a_space_closes_it() {
    let mut app = app_with_members();
    type_into(&mut app, "hi @");
    assert!(app.mentions.is_some(), "@ arms the picker");
    assert_eq!(app.mention_matches().len(), 4, "and offers the whole room");

    type_into(&mut app, "qu");
    assert_eq!(
        app.mention_matches().first().map(|m| m.user_id.as_str()),
        Some("@quintin:example.org")
    );

    type_into(&mut app, "x ");
    assert!(app.mentions.is_none(), "a space ends the mention");
}

#[test]
fn tab_completes_the_highlighted_member() {
    let mut app = app_with_members();
    type_into(&mut app, "morning @qu");
    app.apply_action(Action::Complete);
    assert_eq!(
        app.composer().map(Composer::text),
        Some("morning @quintin ")
    );
    assert!(app.mentions.is_none(), "completing closes the picker");
}

#[test]
fn enter_completes_rather_than_sending_while_the_picker_is_open() {
    let mut app = app_with_members();
    type_into(&mut app, "@qu");
    app.apply_action(Action::Submit);
    assert_eq!(app.composer().map(Composer::text), Some("@quintin "));
    assert!(
        app.take_commands().is_empty(),
        "the half-typed name must not go out as a message"
    );
}

#[test]
fn escape_dismisses_the_picker_without_leaving_the_composer() {
    let mut app = app_with_members();
    type_into(&mut app, "@qu");
    app.mode = Mode::Normal;
    app.apply_action(Action::Cancel);
    assert!(app.mentions.is_none());
    assert_eq!(
        app.mode,
        Mode::Insert,
        "escape closed the popup, not the composer"
    );
    assert_eq!(
        app.composer().map(Composer::text),
        Some("@qu"),
        "the text survives"
    );
    app.apply_action(Action::Submit);
    assert!(app
        .take_commands()
        .iter()
        .any(|c| matches!(c, Command::SendMessage { .. })));
}

#[test]
fn up_and_down_move_the_highlight_instead_of_the_caret() {
    let mut app = app_with_members();
    type_into(&mut app, "@");
    app.apply_action(Action::CaretDown);
    assert_eq!(app.mentions.as_ref().map(|m| m.selected), Some(1));
    app.apply_action(Action::CaretUp);
    assert_eq!(app.mentions.as_ref().map(|m| m.selected), Some(0));
}

#[test]
fn a_sent_message_carries_the_mention_on_the_wire() {
    let mut app = app_with_members();
    type_into(&mut app, "@qu");
    app.apply_action(Action::Complete);
    type_into(&mut app, "any news?");
    app.apply_action(Action::Submit);

    let commands = app.take_commands();
    let sent = commands
        .iter()
        .find_map(|c| match c {
            Command::SendMessage { body, mentions, .. } => Some((body, mentions)),
            _ => None,
        })
        .expect("a message went out");
    assert_eq!(sent.0, "@quintin any news?");
    assert_eq!(sent.1, &vec!["@quintin:example.org".to_owned()]);
}

#[test]
fn an_at_that_matches_nobody_does_not_swallow_the_return_key() {
    let mut app = app_with_members();
    type_into(&mut app, "email me @ 5pm");
    app.apply_action(Action::Submit);
    assert!(
        app.take_commands()
            .iter()
            .any(|c| matches!(c, Command::SendMessage { .. })),
        "the message has to send even with an armed but empty picker"
    );
}

#[test]
fn the_mouse_wheel_scrolls_the_transcript_not_the_picker() {
    let mut app = app_with_members();
    type_into(&mut app, "@");
    app.apply_action(Action::ScrollUp(3));
    assert_eq!(
        app.mentions.as_ref().map(|m| m.selected),
        Some(0),
        "reaching for the mouse does not mean picking a name"
    );
}

#[test]
fn moving_pane_closes_the_picker() {
    let mut app = app_with_members();
    type_into(&mut app, "@qu");
    assert!(app.mentions.is_some());
    app.open_thread_pane("$root".into(), "a thread".into());
    assert!(
        app.mentions.is_none(),
        "a picker left open would offer the last pane's name over this one"
    );
}

#[test]
fn the_picker_works_in_a_thread_pane_too() {
    let mut app = app_with_members();
    app.open_thread_pane("$root".into(), "a thread".into());
    app.mode = Mode::Insert;
    type_into(&mut app, "@wri");
    assert_eq!(
        app.mention_matches().first().map(|m| m.user_id.as_str()),
        Some("@wright:example.org"),
        "the mention picker is not special-cased by pane kind"
    );
}

fn agent_entry(event_id: &str, event: AgentEvent) -> Entry {
    Entry {
        id: event_id.into(),
        event_id: Some(event_id.into()),
        kind: EntryKind::Message(Message {
            shield: Shield::Clear,
            sender: "@hermes:x".into(),
            sender_display: "hermes".into(),
            body: "chrome".into(),
            timestamp: 0,
            is_own: false,
            is_edited: false,
            thread_root: Some("$root".into()),
            thread_replies: None,
            reactions: Vec::new(),
            agent: AgentPayload::Structured {
                adapter: "test",
                event: Box::new(event),
            },
        }),
    }
}

fn event(kind: Kind) -> AgentEvent {
    AgentEvent {
        v: 1,
        session_id: "$root".into(),
        turn_id: "t1".into(),
        seq: 1,
        kind,
        agent: None,
        text: None,
        final_: None,
        tool: None,
        notice: None,
        approval: None,
        picker: None,
        usage: None,
    }
}

#[test]
fn rooms_become_tabs_with_a_root_pane() {
    let app = app();
    let workspace = app.workspaces.focused().expect("workspace");
    let tab = workspace.focused_tab().expect("tab");
    assert_eq!(tab.room_id, "!r:x");
    assert_eq!(tab.panes.len(), 1);
    assert_eq!(app.focused_view(), Some(View::room("!r:x")));
}

#[test]
fn spaces_become_workspaces_not_tabs() {
    let mut app = App::new(Config::default(), Layout::default());
    app.apply_worker_event(WorkerEvent::Rooms(vec![RoomSummary {
        room_id: "!space:x".into(),
        display_name: "hermes-proj".into(),
        is_space: true,
        parents: Vec::new(),
        is_direct: false,
        is_encrypted: false,
        notification_count: 0,
        highlight_count: 0,
    }]));
    assert_eq!(app.workspaces.items.len(), 1);
    assert_eq!(app.workspaces.items[0].id, "!space:x");
    assert!(app.workspaces.items[0].tabs.is_empty());
}

#[test]
fn a_room_update_does_not_duplicate_its_tab() {
    let mut app = app();
    let room = RoomSummary {
        room_id: "!r:x".into(),
        display_name: "#backend-renamed".into(),
        is_space: false,
        parents: Vec::new(),
        is_direct: false,
        is_encrypted: true,
        notification_count: 3,
        highlight_count: 1,
    };
    app.apply_worker_event(WorkerEvent::Rooms(vec![room]));

    let tab = app
        .workspaces
        .focused()
        .expect("workspace")
        .focused_tab()
        .expect("tab");
    assert_eq!(tab.title, "#backend-renamed");
    assert!(tab.is_encrypted);
    assert_eq!(tab.unread, Unread::new(3, 1));
    assert_eq!(
        app.workspaces.focused().expect("workspace").tabs.len(),
        1,
        "re-sending the room list must not clone tabs"
    );
}
fn type_into(app: &mut App, text: &str) {
    app.mode = Mode::Insert;
    for c in text.chars() {
        if c == '\n' {
            app.apply_action(Action::Newline);
        } else {
            app.apply_action(Action::Insert(c));
        }
    }
}

#[test]
fn submitting_sends_and_clears_the_composer() {
    let mut app = app();
    type_into(&mut app, "  hello  ");
    app.apply_action(Action::Submit);

    assert!(app.composer().expect("composer").text().is_empty());
    let commands = app.take_commands();
    match commands.as_slice() {
        [Command::SendMessage { view, body, .. }] => {
            assert_eq!(view, &View::room("!r:x"));
            assert_eq!(body, "hello");
        }
        other => panic!("expected one SendMessage, got {other:?}"),
    }
}

#[test]
fn submitting_an_empty_composer_sends_nothing() {
    let mut app = app();
    type_into(&mut app, "   \n ");
    app.apply_action(Action::Submit);
    assert!(app.take_commands().is_empty());
}

#[test]
fn splitting_adds_a_pane_to_the_tab() {
    let mut app = app();
    app.apply_action(Action::Split(Dir::Right));
    let tab = app
        .workspaces
        .focused()
        .expect("workspace")
        .focused_tab()
        .expect("tab");
    assert_eq!(tab.panes.len(), 2);
}

#[test]
fn agent_events_drive_pane_state() {
    let mut app = app();
    if let Some(tab) = app
        .workspaces
        .focused_mut()
        .and_then(|w| w.focused_tab_mut())
    {
        if let Some(pane) = tab.focused_pane_mut() {
            pane.kind = PaneKind::Thread {
                room_id: "!r:x".into(),
                root: "$root".into(),
            };
        }
    }

    let mut call = event(Kind::ToolCall);
    call.tool = Some(Tool {
        name: "bash".into(),
        index: 0,
        args: None,
        preview: Some("cargo test".into()),
        status: ToolStatus::Running,
        duration_ms: None,
        mime: None,
        body: None,
        truncated: false,
    });

    app.apply_worker_event(WorkerEvent::Timeline {
        view: View::thread("!r:x", "$root"),
        entries: vec![agent_entry("$e1", call)],
    });

    let tab = app
        .workspaces
        .focused()
        .expect("workspace")
        .focused_tab()
        .expect("tab");
    assert_eq!(tab.state(), AgentState::Working);
    assert_eq!(app.badge().0, AgentState::Working);
}

#[test]
fn approving_reacts_on_the_prompt_event_and_unblocks() {
    let mut app = app();
    if let Some(tab) = app
        .workspaces
        .focused_mut()
        .and_then(|w| w.focused_tab_mut())
    {
        if let Some(pane) = tab.focused_pane_mut() {
            pane.kind = PaneKind::Thread {
                room_id: "!r:x".into(),
                root: "$root".into(),
            };
        }
    }

    let mut request = event(Kind::ApprovalRequest);
    request.approval = Some(Approval {
        id: "a1".into(),
        kind: "exec".into(),
        command: Some("rm -rf ./build".into()),
        cwd: None,
        expires_at: None,
        reactions: [("👍".to_owned(), "approve".to_owned())]
            .into_iter()
            .collect(),
        choice: None,
        by: None,
    });

    let view = View::thread("!r:x", "$root");
    app.apply_worker_event(WorkerEvent::Timeline {
        view: view.clone(),
        entries: vec![agent_entry("$prompt", request)],
    });
    let _ = app.take_commands();

    assert_eq!(app.badge().0, AgentState::Blocked);

    app.apply_action(Action::Approve);
    match app.take_commands().as_slice() {
        [Command::ToggleReaction { event_id, key, .. }] => {
            assert_eq!(event_id, "$prompt");
            assert_eq!(key, "👍", "must use the emoji Hermes advertised");
        }
        other => panic!("expected one ToggleReaction, got {other:?}"),
    }
    assert_ne!(app.badge().0, AgentState::Blocked);
}

#[test]
fn approving_without_advertised_emoji_falls_back_to_the_convention() {
    let mut app = app();
    if let Some(tab) = app
        .workspaces
        .focused_mut()
        .and_then(|w| w.focused_tab_mut())
    {
        if let Some(pane) = tab.focused_pane_mut() {
            pane.kind = PaneKind::Thread {
                room_id: "!r:x".into(),
                root: "$root".into(),
            };
        }
    }
    let mut request = event(Kind::ApprovalRequest);
    request.approval = Some(Approval {
        id: "a1".into(),
        kind: "exec".into(),
        command: None,
        cwd: None,
        expires_at: None,
        reactions: Default::default(),
        choice: None,
        by: None,
    });
    app.apply_worker_event(WorkerEvent::Timeline {
        view: View::thread("!r:x", "$root"),
        entries: vec![agent_entry("$prompt", request)],
    });
    let _ = app.take_commands();

    app.apply_action(Action::Deny);
    match app.take_commands().as_slice() {
        [Command::ToggleReaction { key, .. }] => assert_eq!(key, "❌"),
        other => panic!("expected ToggleReaction, got {other:?}"),
    }
}

#[test]
fn opening_a_view_requests_it_and_a_first_page() {
    let mut app = app();
    app.open_focused_view();
    match app.take_commands().as_slice() {
        [Command::OpenView(a), Command::Paginate { view: b, .. }] => {
            assert_eq!(a, &View::room("!r:x"));
            assert_eq!(b, &View::room("!r:x"));
        }
        other => panic!("expected OpenView then Paginate, got {other:?}"),
    }

    app.apply_worker_event(WorkerEvent::Timeline {
        view: View::room("!r:x"),
        entries: Vec::new(),
    });
    app.open_focused_view();
    assert!(
        app.take_commands().is_empty(),
        "an already-streaming view must not be re-opened"
    );
}

#[test]
fn focusing_a_streaming_view_sends_a_read_receipt() {
    let mut app = app();
    app.apply_worker_event(WorkerEvent::Timeline {
        view: View::room("!r:x"),
        entries: Vec::new(),
    });
    let _ = app.take_commands();

    app.focus_pane_id(
        app.workspaces
            .focused()
            .and_then(|w| w.focused_tab())
            .and_then(|t| t.focused_pane())
            .expect("pane")
            .id,
    );
    assert!(
        app.take_commands()
            .iter()
            .any(|c| matches!(c, Command::MarkRead { .. })),
        "looking at a room must mark it read"
    );
}

#[test]
fn a_view_that_is_not_open_is_not_marked_read() {
    let mut app = app();
    app.mark_focused_seen();
    assert!(
        !app.take_commands()
            .iter()
            .any(|c| matches!(c, Command::MarkRead { .. })),
        "the worker needs an open timeline to place a receipt against"
    );
}

#[test]
fn scrolling_to_the_top_requests_older_events_once() {
    let mut app = app();
    app.apply_worker_event(WorkerEvent::Timeline {
        view: View::room("!r:x"),
        entries: Vec::new(),
    });
    let _ = app.take_commands();
    app.rendered_lines = 200;
    app.viewport_height = 20;

    app.apply_action(Action::ScrollUp(10));
    assert!(
        app.take_commands().is_empty(),
        "scrolling near the bottom must not paginate"
    );

    app.apply_action(Action::ScrollUp(170));
    assert!(
        app.take_commands()
            .iter()
            .any(|c| matches!(c, Command::Paginate { .. })),
        "reaching the top must request older events"
    );
    app.apply_action(Action::ScrollUp(5));
    assert!(
        app.take_commands().is_empty(),
        "a pagination request must not be duplicated while one is in flight"
    );
}

#[test]
fn pagination_stops_at_the_start_of_the_room() {
    let mut app = app();
    app.apply_worker_event(WorkerEvent::Timeline {
        view: View::room("!r:x"),
        entries: vec![Entry {
            id: "start".into(),
            event_id: None,
            kind: EntryKind::TimelineStart,
        }],
    });
    let _ = app.take_commands();

    app.rendered_lines = 200;
    app.viewport_height = 20;
    app.apply_action(Action::ScrollUp(200));
    assert!(
        app.take_commands().is_empty(),
        "there is nothing older than the start of the room"
    );
}

#[test]
fn rooms_without_a_space_land_in_the_orphan_workspace() {
    let app = app();
    assert_eq!(app.workspaces.items[0].id, ORPHAN_WORKSPACE);
    assert_eq!(app.workspaces.items[0].title, ORPHAN_WORKSPACE);
}

const PANE_AREA: Rect = Rect {
    x: 0,
    y: 0,
    width: 80,
    height: 24,
};
fn split_app() -> (App, u16) {
    let mut app = app();
    app.apply_action(Action::Split(Dir::Right));
    let tiling = app.tilings.get_mut("!r:x").expect("tiling");
    let placements = tiling.layout(PANE_AREA);
    let seam = placements[0].rect.right();
    (app, seam)
}

#[test]
fn dragging_a_border_resizes_without_moving_focus() {
    let (mut app, seam) = split_app();
    let focused_before = app
        .tilings
        .get("!r:x")
        .and_then(Tiling::focused);
    let width_before = app
        .tilings
        .get_mut("!r:x")
        .expect("tiling")
        .layout(PANE_AREA)[0]
        .rect
        .width;

    assert!(app.begin_drag(seam, 5), "the seam must be grabbable");
    drag(&mut app, PANE_AREA.width / 4, 5);
    app.end_drag();

    let width_after = app
        .tilings
        .get_mut("!r:x")
        .expect("tiling")
        .layout(PANE_AREA)[0]
        .rect
        .width;
    assert!(width_after < width_before);
    assert_eq!(
        app.tilings
            .get("!r:x")
            .and_then(Tiling::focused),
        focused_before,
        "widening a pane is not a request to read it"
    );
    assert!(app.layout_dirty, "a resize is worth remembering");
    assert!(!app.is_dragging(), "the border must be let go of");
}

#[test]
fn a_press_in_a_transcript_is_not_a_resize() {
    let (mut app, _) = split_app();
    assert!(!app.begin_drag(PANE_AREA.width / 4, PANE_AREA.height / 2));
    assert!(!app.is_dragging());
}

#[test]
fn moving_the_mouse_without_a_border_held_changes_nothing() {
    let (mut app, _) = split_app();
    app.layout_dirty = false;
    drag(&mut app, 10, 10);
    assert!(!app.layout_dirty);
}

#[test]
fn a_drag_survives_the_pointer_leaving_the_pane() {
    let (mut app, seam) = split_app();
    assert!(app.begin_drag(seam, 5));
    drag(&mut app, 0, 0);
    drag(&mut app, PANE_AREA.width * 3, PANE_AREA.height * 3);

    let placements = app
        .tilings
        .get_mut("!r:x")
        .expect("tiling")
        .layout(PANE_AREA);
    assert!(placements.iter().all(|p| p.rect.width > 0));
    assert!(app.is_dragging(), "the border is still held");
}

fn type_query(app: &mut App, text: &str) {
    for ch in text.chars() {
        app.apply_action(Action::Insert(ch));
    }
}

#[test]
fn the_palette_runs_the_command_it_is_showing() {
    let mut app = app();
    assert_eq!(
        app.workspaces
            .focused()
            .expect("w")
            .focused_tab()
            .expect("t")
            .panes
            .len(),
        1
    );

    app.apply_action(Action::CommandPalette);
    assert!(app.palette().is_some());
    assert_eq!(app.mode, Mode::Insert, "the palette is typed into");

    type_query(&mut app, "split r");
    assert_eq!(
        app.palette()
            .cloned()
            .as_ref()
            .and_then(|p| p.chosen())
            .expect("match")
            .name,
        "split right"
    );

    app.apply_action(Action::Submit);
    assert!(
        app.palette().is_none(),
        "running a command closes the palette"
    );
    assert_eq!(app.mode, Mode::Normal);
    assert_eq!(
        app.workspaces
            .focused()
            .expect("w")
            .focused_tab()
            .expect("t")
            .panes
            .len(),
        2,
        "the command must actually run, not merely be selected"
    );
}

#[test]
fn the_palette_swallows_keys_that_mean_something_else() {
    let mut app = app();
    app.apply_action(Action::CommandPalette);
    type_query(&mut app, "qj");

    assert!(!app.should_quit);
    assert_eq!(app.palette().expect("open").query, "qj");
}

#[test]
fn escape_closes_the_palette_without_running_anything() {
    let mut app = app();
    app.apply_action(Action::CommandPalette);
    type_query(&mut app, "quit");
    app.apply_action(Action::Cancel);

    assert!(app.palette().is_none());
    assert_eq!(app.mode, Mode::Normal);
    assert!(
        !app.should_quit,
        "cancelling must not run the highlighted row"
    );
}

#[test]
fn submitting_a_query_that_matches_nothing_does_nothing() {
    let mut app = app();
    app.apply_action(Action::CommandPalette);
    type_query(&mut app, "xyzzy");
    app.apply_action(Action::Submit);

    assert!(app.palette().is_none());
    assert!(!app.should_quit);
    assert_eq!(app.status.as_deref(), Some("no command selected"));
}

#[test]
fn the_arrows_walk_the_list_while_the_letters_go_to_the_query() {
    let mut app = app();
    app.apply_action(Action::CommandPalette);
    app.apply_action(Action::CaretDown);
    assert_eq!(app.palette().expect("open").selected, 1);
    assert!(app.palette().expect("open").query.is_empty());

    app.apply_action(Action::CaretUp);
    assert_eq!(app.palette().expect("open").selected, 0);
}

#[test]
fn backspace_edits_the_query_rather_than_the_composer() {
    let mut app = app();
    app.apply_action(Action::CommandPalette);
    type_query(&mut app, "zoom");
    app.apply_action(Action::Backspace);
    assert_eq!(app.palette().expect("open").query, "zoo");
    assert!(app.composer().is_none_or(|c| c.text().is_empty()));
}

#[test]
fn a_command_that_opens_another_overlay_hands_over_cleanly() {
    let mut app = app();
    app.apply_action(Action::CommandPalette);
    type_query(&mut app, "thread picker");
    app.apply_action(Action::Submit);

    assert!(app.palette().is_none());
    assert!(
        app.threads().is_some(),
        "the thread picker should have opened"
    );
}

fn summary(room_id: &str, name: &str) -> RoomSummary {
    RoomSummary {
        room_id: room_id.into(),
        display_name: name.into(),
        is_space: false,
        parents: Vec::new(),
        is_direct: false,
        is_encrypted: false,
        notification_count: 0,
        highlight_count: 0,
    }
}
fn arranged() -> App {
    let mut app = app();
    app.open_thread_pane("$thread".into(), "a thread".into());
    assert_eq!(
        app.workspaces
            .focused()
            .expect("w")
            .focused_tab()
            .expect("t")
            .panes
            .len(),
        2
    );
    app
}

#[test]
fn a_relaunch_comes_back_to_the_panes_that_were_open() {
    let saved = arranged().layout();

    let mut fresh = App::new(Config::default(), saved);
    fresh.apply_worker_event(WorkerEvent::Rooms(vec![summary("!r:x", "#backend")]));

    let tab = fresh
        .workspaces
        .focused()
        .expect("workspace")
        .focused_tab()
        .expect("tab");
    assert_eq!(tab.panes.len(), 2, "the thread pane must come back");
    assert_eq!(
        tab.panes[1].kind,
        PaneKind::Thread {
            room_id: "!r:x".into(),
            root: "$thread".into()
        }
    );
    let commands = fresh.take_commands();
    assert!(commands.iter().any(
        |c| matches!(c, Command::OpenView(v) if v.thread_root.as_deref() == Some("$thread"))
    ));
}

#[test]
fn a_relaunch_returns_to_the_room_that_was_focused() {
    let mut app = app_with_two_rooms();
    app.apply_action(Action::NextTab);
    assert_eq!(app.focused_view(), Some(View::room("!b:x")));
    let saved = app.layout();

    let mut fresh = App::new(Config::default(), saved);
    fresh.apply_worker_event(WorkerEvent::Rooms(vec![
        summary("!a:x", "Commons"),
        summary("!b:x", "smith"),
    ]));
    assert_eq!(fresh.focused_view(), Some(View::room("!b:x")));
}

#[test]
fn a_workspace_that_has_not_synced_yet_is_waited_for() {
    let mut app = App::new(Config::default(), Layout::default());
    app.apply_worker_event(WorkerEvent::Rooms(vec![
        RoomSummary {
            room_id: "!space:x".into(),
            display_name: "hermes".into(),
            is_space: true,
            ..summary("", "")
        },
        RoomSummary {
            parents: vec!["!space:x".into()],
            ..summary("!inspace:x", "backend")
        },
        summary("!orphan:x", "elsewhere"),
    ]));
    let index = app
        .workspaces
        .items
        .iter()
        .position(|w| w.id == "!space:x")
        .expect("space workspace");
    app.workspaces.focus(index);
    let saved = app.layout();
    assert_eq!(saved.workspace.as_deref(), Some("!space:x"));

    let mut fresh = App::new(Config::default(), saved);
    fresh.apply_worker_event(WorkerEvent::Rooms(vec![summary("!orphan:x", "elsewhere")]));
    assert_eq!(fresh.workspaces.focused().expect("w").id, ORPHAN_WORKSPACE);
    fresh.apply_worker_event(WorkerEvent::Rooms(vec![
        RoomSummary {
            room_id: "!space:x".into(),
            display_name: "hermes".into(),
            is_space: true,
            ..summary("", "")
        },
        RoomSummary {
            parents: vec!["!space:x".into()],
            ..summary("!inspace:x", "backend")
        },
    ]));
    assert_eq!(fresh.workspaces.focused().expect("w").id, "!space:x");
}

#[test]
fn moving_first_beats_the_restore_to_it() {
    let mut app = app_with_two_rooms();
    app.apply_action(Action::NextTab);
    let saved = app.layout();
    assert_eq!(saved.tabs.get(ORPHAN_WORKSPACE).map(String::as_str), Some("!b:x"));

    let mut fresh = App::new(Config::default(), saved);
    fresh.apply_worker_event(WorkerEvent::Rooms(vec![summary("!a:x", "Commons")]));
    fresh.apply_action(Action::NextTab);
    let chosen = fresh.focused_view();

    fresh.apply_worker_event(WorkerEvent::Rooms(vec![summary("!b:x", "smith")]));
    assert_eq!(
        fresh.focused_view(),
        chosen,
        "the restore must yield to the user, not compete with them"
    );
}

#[test]
fn rearranging_marks_the_layout_for_saving() {
    let mut app = app();
    app.layout_dirty = false;
    app.apply_action(Action::Split(Dir::Right));
    assert!(app.layout_dirty);

    app.layout_dirty = false;
    app.apply_action(Action::ResizePane(Dir::Left));
    assert!(app.layout_dirty);

    app.layout_dirty = false;
    app.apply_action(Action::ZoomPane);
    assert!(app.layout_dirty);
}

#[test]
fn a_saved_pane_for_a_room_that_is_gone_costs_nothing() {
    let saved = arranged().layout();
    let mut fresh = App::new(Config::default(), saved);
    fresh.apply_worker_event(WorkerEvent::Rooms(vec![summary(
        "!other:x",
        "somewhere else",
    )]));

    let tab = fresh
        .workspaces
        .focused()
        .expect("workspace")
        .focused_tab()
        .expect("tab");
    assert_eq!(tab.room_id, "!other:x");
    assert_eq!(tab.panes.len(), 1);
}
fn pane_count(app: &App) -> usize {
    app.workspaces
        .focused()
        .and_then(|w| w.focused_tab())
        .map_or(0, |t| t.panes.len())
}

fn app_with_two_rooms() -> App {
    let mut app = App::new(Config::default(), Layout::default());
    app.apply_worker_event(WorkerEvent::Rooms(vec![
        RoomSummary {
            room_id: "!a:x".into(),
            display_name: "Commons".into(),
            is_space: false,
            parents: Vec::new(),
            is_direct: false,
            is_encrypted: false,
            notification_count: 0,
            highlight_count: 0,
        },
        RoomSummary {
            room_id: "!b:x".into(),
            display_name: "smith".into(),
            is_space: false,
            parents: Vec::new(),
            is_direct: false,
            is_encrypted: true,
            notification_count: 0,
            highlight_count: 0,
        },
    ]));
    let _ = app.take_commands();
    app
}

#[test]
fn clicking_a_tab_focuses_its_room() {
    let mut app = app_with_two_rooms();
    assert_eq!(app.focused_view(), Some(View::room("!a:x")));
    app.bars.tab_row = 1;
    app.bars.tabs = vec![
        Hit {
            x0: 1,
            x1: 13,
            index: 0,
        },
        Hit {
            x0: 14,
            x1: 26,
            index: 1,
        },
    ];

    assert!(app.click_bar(20, 1), "a click on the tab bar is handled");
    assert_eq!(
        app.focused_view(),
        Some(View::room("!b:x")),
        "clicking the second tab must focus the second room"
    );
}

#[test]
fn a_click_on_the_bar_never_falls_through_to_a_pane() {
    let mut app = app_with_two_rooms();
    app.bars.tab_row = 1;
    app.bars.tabs = vec![Hit {
        x0: 1,
        x1: 13,
        index: 0,
    }];
    assert!(app.click_bar(200, 1));
    assert!(!app.click_bar(5, 9));
}

#[test]
fn clicking_a_workspace_focuses_it() {
    let mut app = app_with_two_rooms();
    app.workspaces.entry("!space:x", "hermes-proj");
    app.bars.workspace_row = 0;
    app.bars.workspaces = vec![
        Hit {
            x0: 1,
            x1: 13,
            index: 0,
        },
        Hit {
            x0: 14,
            x1: 26,
            index: 1,
        },
    ];

    assert!(app.click_bar(18, 0));
    assert_eq!(app.workspaces.focused().expect("workspace").id, "!space:x");
}

#[test]
fn switching_tabs_marks_the_new_one_read() {
    let mut app = app_with_two_rooms();
    app.apply_worker_event(WorkerEvent::Timeline {
        view: View::room("!b:x"),
        entries: Vec::new(),
    });
    let _ = app.take_commands();

    app.apply_action(Action::NextTab);
    assert_eq!(app.focused_view(), Some(View::room("!b:x")));
    assert!(
        app.take_commands()
            .iter()
            .any(|c| matches!(c, Command::MarkRead { .. })),
        "moving to a tab is looking at it"
    );
}

#[test]
fn drafts_survive_switching_room() {
    let mut app = app_with_two_rooms();
    type_into(&mut app, "half a thought");

    app.apply_action(Action::NextTab);
    assert_eq!(
        app.composer().map(Composer::text).unwrap_or(""),
        "",
        "the other room starts blank"
    );

    type_into(&mut app, "different room");
    app.apply_action(Action::PrevTab);
    assert_eq!(
        app.composer().expect("composer").text(),
        "half a thought",
        "coming back must restore the draft, not discard it"
    );
}

#[test]
fn history_is_per_room() {
    let mut app = app_with_two_rooms();
    type_into(&mut app, "said in the first room");
    app.apply_action(Action::Submit);

    app.apply_action(Action::NextTab);
    app.apply_action(Action::CaretUp);
    assert_eq!(
        app.composer().map(Composer::text).unwrap_or(""),
        "",
        "another room's history must not leak in"
    );
}

#[test]
fn up_recalls_the_last_message_once_the_composer_is_flat() {
    let mut app = app();
    type_into(&mut app, "first thing");
    app.apply_action(Action::Submit);
    let _ = app.take_commands();

    app.apply_action(Action::CaretUp);
    assert_eq!(app.composer().expect("composer").text(), "first thing");
    app.apply_action(Action::CaretDown);
    assert_eq!(app.composer().expect("composer").text(), "");
}

#[test]
fn up_moves_between_lines_before_it_touches_history() {
    let mut app = app();
    type_into(&mut app, "sent");
    app.apply_action(Action::Submit);
    let _ = app.take_commands();

    type_into(&mut app, "one\ntwo");
    app.apply_action(Action::CaretUp);
    assert_eq!(
        app.composer().expect("composer").text(),
        "one\ntwo",
        "moving within the message must not recall history"
    );
    assert_eq!(app.composer().expect("composer").wrapped(200).caret.0, 0);
}

#[test]
fn selection_ignores_notices_and_stops_at_the_newest_message() {
    let mut app = app();
    app.apply_worker_event(WorkerEvent::Timeline {
        view: View::room("!r:x"),
        entries: vec![
            their_message("$theirs", "hello there"),
            my_message("$mine", "my own words"),
            Entry {
                id: "$notice".into(),
                event_id: Some("$notice".into()),
                kind: EntryKind::Notice("· m.room.member".into()),
            },
        ],
    });
    let _ = app.take_commands();

    app.apply_action(Action::SelectNewer);
    assert_eq!(app.selected_event(), Some("$mine"));
    app.apply_action(Action::SelectNewer);
    app.apply_action(Action::SelectNewer);
    assert_eq!(app.selected_event(), Some("$mine"));
}

#[test]
fn selecting_the_newest_message_pins_the_transcript_to_the_bottom() {
    let mut app = app_with_messages();
    app.rendered_lines = 200;
    app.viewport_height = 20;
    let view = app.focused_view().expect("view");
    app.scroll.insert(view.clone(), 120);

    app.apply_action(Action::SelectNewer);

    assert_eq!(app.selected_event(), Some("$mine"));
    assert_eq!(
        *app.scroll.get(&view).unwrap_or(&0),
        0,
        "the newest message means the bottom of the pane, not merely on screen"
    );
}

#[test]
fn selecting_the_oldest_message_scrolls_to_the_top_and_asks_for_more() {
    let mut app = app_with_messages();
    app.rendered_lines = 200;
    app.viewport_height = 20;
    let view = app.focused_view().expect("view");

    app.apply_action(Action::SelectOlder);
    app.apply_action(Action::SelectOlder);

    assert_eq!(app.selected_event(), Some("$theirs"));
    assert_eq!(*app.scroll.get(&view).unwrap_or(&0), app.max_scroll());
    assert!(
        app.take_commands()
            .iter()
            .any(|c| matches!(c, Command::Paginate { view: v, .. } if v == &view)),
        "reaching the oldest loaded message is a request for history"
    );
}

#[test]
fn a_room_with_a_parent_space_lands_in_that_workspace() {
    let mut app = App::new(Config::default(), Layout::default());
    app.apply_worker_event(WorkerEvent::Rooms(vec![
        RoomSummary {
            room_id: "!space:x".into(),
            display_name: "SynthSwarm".into(),
            is_space: true,
            parents: Vec::new(),
            is_direct: false,
            is_encrypted: false,
            notification_count: 0,
            highlight_count: 0,
        },
        RoomSummary {
            room_id: "!commons:x".into(),
            display_name: "Commons".into(),
            is_space: false,
            parents: vec!["!space:x".into()],
            is_direct: false,
            is_encrypted: false,
            notification_count: 0,
            highlight_count: 0,
        },
    ]));

    let workspace = app
        .workspaces
        .items
        .iter()
        .find(|w| w.id == "!space:x")
        .expect("the Space must become a workspace");
    assert_eq!(
        workspace.title, "SynthSwarm",
        "the workspace is named after the Space, not after a room inside it"
    );
    assert!(
        workspace.tabs.iter().any(|t| t.room_id == "!commons:x"),
        "a room listing the Space as a parent belongs to its workspace"
    );
    assert!(
        !app.workspaces
            .items
            .iter()
            .any(|w| w.id == ORPHAN_WORKSPACE),
        "nothing is left over for the orphan workspace"
    );
}

#[test]
fn the_prefix_cycles_workspaces_and_follows_the_focus() {
    let mut app = App::new(Config::default(), Layout::default());
    app.apply_worker_event(WorkerEvent::Rooms(vec![
        RoomSummary {
            room_id: "!space:x".into(),
            display_name: "SynthSwarm".into(),
            is_space: true,
            parents: Vec::new(),
            is_direct: false,
            is_encrypted: false,
            notification_count: 0,
            highlight_count: 0,
        },
        RoomSummary {
            room_id: "!commons:x".into(),
            display_name: "Commons".into(),
            is_space: false,
            parents: vec!["!space:x".into()],
            is_direct: false,
            is_encrypted: false,
            notification_count: 0,
            highlight_count: 0,
        },
        RoomSummary {
            room_id: "!loose:x".into(),
            display_name: "#loose".into(),
            is_space: false,
            parents: Vec::new(),
            is_direct: false,
            is_encrypted: false,
            notification_count: 0,
            highlight_count: 0,
        },
    ]));
    let first = app.workspaces.focused().map(|w| w.id.clone());

    app.apply_action(Action::NextWorkspace);
    let second = app.workspaces.focused().map(|w| w.id.clone());
    assert_ne!(first, second, "the focus must actually move");
    app.apply_action(Action::NextWorkspace);
    assert_eq!(app.workspaces.focused().map(|w| w.id.clone()), first);

    app.apply_action(Action::PrevWorkspace);
    assert_eq!(app.workspaces.focused().map(|w| w.id.clone()), second);
    assert!(
        app.take_commands()
            .iter()
            .any(|c| matches!(c, Command::OpenView(_))),
        "moving to a workspace opens the view it focuses"
    );
}

#[test]
fn the_emoji_picker_reacts_to_the_selected_message() {
    let mut app = app_with_messages();
    app.apply_action(Action::SelectNewer);
    let view = app.focused_view().expect("view");
    let _ = app.take_commands();

    app.apply_action(Action::ReactToSelected);
    assert!(app.emoji().is_some(), "the picker must open");

    for c in "rocket".chars() {
        app.apply_action(Action::Insert(c));
    }
    app.apply_action(Action::Accept);

    assert!(app.emoji().is_none(), "accepting closes the picker");
    match app.take_commands().as_slice() {
        [Command::ToggleReaction {
            view: v,
            event_id,
            key,
        }] => {
            assert_eq!(v, &view);
            assert_eq!(event_id, "$mine");
            assert_eq!(key, "🚀");
        }
        other => panic!("expected one ToggleReaction, got {other:?}"),
    }
}

#[test]
fn reacting_needs_a_selection() {
    let mut app = app_with_messages();
    app.apply_action(Action::ReactToSelected);

    assert!(app.emoji().is_none());
    assert!(app.take_commands().is_empty());
    assert!(app.status.is_some(), "and says why");
}

#[test]
fn the_emoji_picker_inserts_into_the_composer_at_the_caret() {
    let mut app = app_with_messages();
    app.apply_action(Action::EnterInsert);
    for c in "ship it ".chars() {
        app.apply_action(Action::Insert(c));
    }

    app.apply_action(Action::EmojiIntoComposer);
    for c in "rocket".chars() {
        app.apply_action(Action::Insert(c));
    }
    app.apply_action(Action::Submit);

    assert!(app.emoji().is_none());
    assert_eq!(app.composer().expect("composer").text(), "ship it 🚀");
    assert_eq!(
        app.mode,
        Mode::Insert,
        "choosing an emoji is part of writing the message, so typing continues"
    );
    assert!(
        app.take_commands().is_empty(),
        "accepting into the composer must not also send the message"
    );
}

#[test]
fn the_emoji_picker_swallows_the_keys_underneath_it() {
    let mut app = app_with_messages();
    app.apply_action(Action::SelectNewer);
    let before = app.workspaces.focused().map(|w| w.id.clone());
    let _ = app.take_commands();

    app.apply_action(Action::EmojiIntoComposer);
    app.apply_action(Action::NextWorkspace);
    app.apply_action(Action::RedactMessage);

    assert!(app.emoji().is_some(), "the picker stays open");
    assert_eq!(app.workspaces.focused().map(|w| w.id.clone()), before);
    assert!(app.take_commands().is_empty());
}

#[test]
fn escape_closes_the_emoji_picker_without_acting() {
    let mut app = app_with_messages();
    app.apply_action(Action::SelectNewer);
    let _ = app.take_commands();

    app.apply_action(Action::ReactToSelected);
    app.apply_action(Action::Cancel);

    assert!(app.emoji().is_none());
    assert_eq!(app.mode, Mode::Normal);
    assert!(app.take_commands().is_empty());
}

#[test]
fn typing_is_announced_once_and_refreshed_while_it_continues() {
    let mut app = app_with_messages();
    let _ = app.take_commands();

    app.apply_action(Action::EnterInsert);
    app.apply_action(Action::Insert('h'));
    app.tick_typing(1_000);
    match app.take_commands().as_slice() {
        [Command::SendTyping { room_id, typing }] => {
            assert_eq!(room_id, "!r:x");
            assert!(*typing);
        }
        other => panic!("expected one SendTyping, got {other:?}"),
    }
    app.apply_action(Action::Insert('i'));
    app.tick_typing(1_500);
    assert!(app.take_commands().is_empty());
    app.apply_action(Action::Insert('!'));
    app.tick_typing(4_100);
    assert!(matches!(
        app.take_commands().as_slice(),
        [Command::SendTyping { typing: true, .. }]
    ));
}

#[test]
fn typing_stops_by_itself_once_the_keyboard_goes_quiet() {
    let mut app = app_with_messages();
    app.apply_action(Action::EnterInsert);
    app.apply_action(Action::Insert('h'));
    app.tick_typing(1_000);
    let _ = app.take_commands();

    app.tick_typing(1_000 + TYPING_IDLE_MS - 1);
    assert!(app.take_commands().is_empty(), "not yet idle");

    app.tick_typing(1_000 + TYPING_IDLE_MS);
    assert!(matches!(
        app.take_commands().as_slice(),
        [Command::SendTyping { typing: false, .. }]
    ));
    app.tick_typing(99_000);
    assert!(app.take_commands().is_empty());
}

#[test]
fn sending_stops_typing_without_waiting_for_the_timer() {
    let mut app = app_with_messages();
    app.apply_action(Action::EnterInsert);
    app.apply_action(Action::Insert('h'));
    app.tick_typing(1_000);
    let _ = app.take_commands();

    app.apply_action(Action::Submit);

    let commands = app.take_commands();
    let stop = commands
        .iter()
        .position(|c| matches!(c, Command::SendTyping { typing: false, .. }))
        .expect("sending must stop the notice");
    let sent = commands
        .iter()
        .position(|c| matches!(c, Command::SendMessage { .. }))
        .expect("and still send the message");
    assert!(stop < sent, "the stop goes first");
}

#[test]
fn leaving_the_composer_or_the_room_stops_typing() {
    for action in [Action::Cancel, Action::NextWorkspace] {
        let mut app = app_with_messages();
        app.apply_action(Action::EnterInsert);
        app.apply_action(Action::Insert('h'));
        app.tick_typing(1_000);
        let _ = app.take_commands();

        app.apply_action(action.clone());

        assert!(
            app.take_commands()
                .iter()
                .any(|c| matches!(c, Command::SendTyping { typing: false, .. })),
            "{action:?} must stop the notice"
        );
    }
}

#[test]
fn moving_the_caret_is_not_typing() {
    let mut app = app_with_messages();
    app.apply_action(Action::EnterInsert);
    app.apply_action(Action::Insert('h'));
    app.tick_typing(1_000);
    let _ = app.take_commands();

    app.apply_action(Action::CaretLeft);
    app.apply_action(Action::CaretRight);
    app.tick_typing(1_100);
    assert!(app.take_commands().is_empty());
}

#[test]
fn starting_a_thread_opens_a_pane_on_a_message_with_no_replies() {
    let mut app = app_with_messages();
    app.apply_action(Action::SelectNewer);
    let _ = app.take_commands();

    app.apply_action(Action::NewThread);

    assert_eq!(
        app.focused_view(),
        Some(View::thread("!r:x", "$mine")),
        "focus moves into the new thread, ready to type"
    );
    assert!(
        app.take_commands()
            .iter()
            .any(|c| matches!(c, Command::OpenView(v) if v == &View::thread("!r:x", "$mine"))),
        "and the thread's timeline is streamed"
    );
}

#[test]
fn starting_a_thread_sends_nothing_by_itself() {
    let mut app = app_with_messages();
    app.apply_action(Action::SelectNewer);
    let _ = app.take_commands();

    app.apply_action(Action::NewThread);

    assert!(
        !app.take_commands()
            .iter()
            .any(|c| matches!(c, Command::SendMessage { .. } | Command::SendReply { .. })),
        "nothing is sent until the user types something"
    );
}

#[test]
fn starting_a_thread_twice_focuses_the_pane_already_open() {
    let mut app = app_with_messages();
    app.apply_action(Action::SelectNewer);
    app.apply_action(Action::NewThread);
    let panes = app
        .workspaces
        .focused()
        .and_then(|w| w.focused_tab())
        .map_or(0, |t| t.panes.len());

    app.apply_action(Action::NewThread);

    assert_eq!(
        app.workspaces
            .focused()
            .and_then(|w| w.focused_tab())
            .map_or(0, |t| t.panes.len()),
        panes,
        "a second attempt must not grow another pane onto the same thread"
    );
}

#[test]
fn a_thread_cannot_be_started_inside_a_thread() {
    let mut app = app_with_messages();
    app.apply_action(Action::SelectNewer);
    app.apply_action(Action::NewThread);
    let _ = app.take_commands();

    app.apply_action(Action::NewThread);

    assert_eq!(app.focused_view(), Some(View::thread("!r:x", "$mine")));
    assert!(app.status.is_some(), "and says why");
}

#[test]
fn starting_a_thread_needs_a_selection() {
    let mut app = app_with_messages();
    app.apply_action(Action::NewThread);

    assert_eq!(app.focused_view(), Some(View::room("!r:x")));
    assert!(app.status.is_some());
}

fn comparing() -> Verification {
    Verification::Compare {
        other_device: "Element X Android".into(),
        emoji: vec![("🐶".into(), "Dog".into()), ("🎂".into(), "Cake".into())],
    }
}

#[test]
fn accepting_a_request_does_not_confirm_the_keys() {
    let mut app = app();
    app.apply_worker_event(WorkerEvent::Verification(Verification::Requested {
        other_device: "phone".into(),
    }));
    app.apply_action(Action::Approve);
    assert!(matches!(
        app.take_commands().as_slice(),
        [Command::AcceptVerification]
    ));
}

#[test]
fn yes_at_the_emoji_confirms_and_no_reports_a_mismatch() {
    let mut confirming = app();
    confirming.apply_worker_event(WorkerEvent::Verification(comparing()));
    confirming.apply_action(Action::Approve);
    assert!(matches!(
        confirming.take_commands().as_slice(),
        [Command::ConfirmVerification]
    ));

    let mut app = app();
    app.apply_worker_event(WorkerEvent::Verification(comparing()));
    app.apply_action(Action::Deny);
    assert!(
        matches!(
            app.take_commands().as_slice(),
            [Command::MismatchVerification]
        ),
        "`no` must report a mismatch, not withdraw quietly: the other side needs to \
         know its keys were rejected"
    );
}

#[test]
fn the_verification_panel_swallows_everything_else() {
    let mut app = app();
    let before = format!("{:?}", app.workspaces);
    app.apply_worker_event(WorkerEvent::Verification(comparing()));
    for action in [
        Action::Split(Dir::Right),
        Action::ClosePane,
        Action::NewThread,
        Action::Submit,
        Action::EnterInsert,
        Action::NextTab,
    ] {
        app.apply_action(action);
    }

    assert!(app.take_commands().is_empty(), "no command may escape");
    assert_eq!(
        format!("{:?}", app.workspaces),
        before,
        "the layout must be untouched"
    );
    assert!(matches!(
        app.verification().cloned(),
        Some(Verification::Compare { .. })
    ));
}

#[test]
fn a_finished_verification_clears_the_panel() {
    let mut app = app();
    app.apply_worker_event(WorkerEvent::Verification(comparing()));
    app.apply_worker_event(WorkerEvent::Verification(Verification::Done));

    assert!(app.verification().is_none(), "good news needs no dialog");
    assert_eq!(app.device_verified, Some(true));
    assert!(app.status.is_some());
}

#[test]
fn a_cancelled_verification_says_why() {
    let mut app = app();
    app.apply_worker_event(WorkerEvent::Verification(comparing()));
    app.apply_worker_event(WorkerEvent::Verification(Verification::Cancelled {
        reason: "m.mismatched_sas".into(),
    }));

    assert!(app.verification().is_none());
    assert!(
        app.status
            .as_deref()
            .is_some_and(|s| s.contains("m.mismatched_sas")),
        "the reason is the whole point: a mismatch is not the same as a withdrawal"
    );
}

#[test]
fn verifying_an_already_verified_device_asks_for_nothing() {
    let mut app = app();
    app.apply_worker_event(WorkerEvent::DeviceVerified(Some(true)));
    app.apply_action(Action::StartVerification);

    assert!(app.take_commands().is_empty());
    assert!(app.status.is_some());
}

#[test]
fn an_unverified_device_can_ask_to_be_verified() {
    let mut app = app();
    app.apply_worker_event(WorkerEvent::DeviceVerified(Some(false)));
    app.apply_action(Action::StartVerification);

    assert!(matches!(
        app.take_commands().as_slice(),
        [Command::StartVerification]
    ));
}

#[test]
fn not_knowing_yet_does_not_block_verifying() {
    let mut app = app();
    app.apply_worker_event(WorkerEvent::DeviceVerified(None));
    app.apply_action(Action::StartVerification);

    assert!(matches!(
        app.take_commands().as_slice(),
        [Command::StartVerification]
    ));
}

#[test]
fn an_unknown_answer_does_not_erase_a_known_one() {
    let mut app = app();
    app.apply_worker_event(WorkerEvent::DeviceVerified(Some(true)));
    app.apply_worker_event(WorkerEvent::DeviceVerified(None));

    assert_eq!(
        app.device_verified,
        Some(true),
        "a shield must not flicker off because the store went quiet"
    );
}

#[test]
fn a_recovery_key_never_reaches_a_room() {
    let mut app = app();
    app.apply_worker_event(WorkerEvent::Recovery(RecoveryState::Incomplete));
    app.apply_action(Action::OpenRecovery);
    assert!(app.recovery_prompt().is_some());

    for c in "EsTc 1234".chars() {
        app.apply_action(Action::Insert(c));
    }
    app.apply_action(Action::NewThread);
    app.apply_action(Action::Reply);
    app.apply_action(Action::NextTab);

    assert!(
        app.take_commands().is_empty(),
        "nothing may escape the prompt before the key is submitted"
    );
    assert!(matches!(
        app.recovery_prompt(),
        Some(RecoveryPanel::AskKey { key, .. }) if key == "EsTc 1234"
    ));
}

#[test]
fn submitting_the_key_sends_it_once_and_clears_it() {
    let mut app = app();
    app.apply_worker_event(WorkerEvent::Recovery(RecoveryState::Incomplete));
    app.apply_action(Action::OpenRecovery);
    for c in "secret".chars() {
        app.apply_action(Action::Insert(c));
    }
    app.apply_action(Action::Submit);

    match app.take_commands().as_slice() {
        [Command::RecoverWithKey(key)] => assert_eq!(key, "secret"),
        other => panic!("expected one recover command, got {other:?}"),
    }
    assert!(
        matches!(
            app.recovery_prompt(),
            Some(RecoveryPanel::AskKey { key, submitted: true, .. }) if key.is_empty()
        ),
        "the key must not be left sitting in the prompt after being sent"
    );
}

#[test]
fn cancelling_drops_a_half_typed_key() {
    let mut app = app();
    app.apply_worker_event(WorkerEvent::Recovery(RecoveryState::Incomplete));
    app.apply_action(Action::OpenRecovery);
    for c in "half".chars() {
        app.apply_action(Action::Insert(c));
    }
    app.apply_action(Action::Cancel);

    assert!(app.recovery_prompt().is_none());
    assert!(app.take_commands().is_empty());
}

#[test]
fn an_account_with_no_recovery_is_offered_it_rather_than_asked_for_a_key() {
    let mut app = app();
    app.apply_worker_event(WorkerEvent::Recovery(RecoveryState::Disabled));
    app.apply_action(Action::OpenRecovery);

    assert_eq!(
        app.recovery_prompt(),
        Some(&RecoveryPanel::OfferEnable),
        "asking for a key that was never created sends the user hunting for nothing"
    );
    assert!(
        app.take_commands().is_empty(),
        "nothing happens until they agree"
    );

    app.apply_action(Action::Approve);
    assert!(matches!(
        app.take_commands().as_slice(),
        [Command::EnableRecovery]
    ));
}

#[test]
fn replacing_a_working_recovery_key_needs_an_explicit_yes() {
    let mut app = app();
    app.apply_worker_event(WorkerEvent::Recovery(RecoveryState::Enabled));
    app.apply_action(Action::OpenRecovery);
    assert_eq!(
        app.recovery_prompt(),
        Some(&RecoveryPanel::ConfirmReset)
    );
    app.apply_action(Action::Submit);
    assert!(app.take_commands().is_empty());
    assert_eq!(
        app.recovery_prompt(),
        Some(&RecoveryPanel::ConfirmReset)
    );

    app.apply_action(Action::Approve);
    assert!(matches!(
        app.take_commands().as_slice(),
        [Command::ResetRecoveryKey]
    ));
}

#[test]
fn declining_a_reset_leaves_the_key_alone() {
    let mut app = app();
    app.apply_worker_event(WorkerEvent::Recovery(RecoveryState::Enabled));
    app.apply_action(Action::OpenRecovery);
    app.apply_action(Action::Deny);

    assert!(app.recovery_prompt().is_none());
    assert!(app.take_commands().is_empty());
}

#[test]
fn a_new_key_is_shown_and_waits_to_be_acknowledged() {
    let mut app = app();
    app.apply_worker_event(WorkerEvent::Recovery(RecoveryState::Disabled));
    app.apply_action(Action::OpenRecovery);
    app.apply_action(Action::Approve);
    let _ = app.take_commands();

    app.apply_worker_event(WorkerEvent::RecoveryKeyCreated("EsTc AAAA BBBB".into()));

    assert_eq!(
        app.recovery_prompt(),
        Some(&RecoveryPanel::ShowKey {
            key: "EsTc AAAA BBBB".into()
        })
    );
    assert!(
        app.status.as_deref() != Some("EsTc AAAA BBBB"),
        "the key must not be copied into the status line, which outlives the panel"
    );

    app.apply_action(Action::Accept);
    assert!(app.recovery_prompt().is_none());
}
fn their_message(event_id: &str, body: &str) -> Entry {
    Entry {
        id: event_id.into(),
        event_id: Some(event_id.into()),
        kind: EntryKind::Message(Message {
            shield: Shield::Clear,
            sender: "@someone:x".into(),
            sender_display: "someone".into(),
            body: body.into(),
            timestamp: 0,
            is_own: false,
            is_edited: false,
            thread_root: None,
            thread_replies: None,
            reactions: Vec::new(),
            agent: AgentPayload::Plain,
        }),
    }
}
fn my_message(event_id: &str, body: &str) -> Entry {
    let mut entry = their_message(event_id, body);
    if let EntryKind::Message(m) = &mut entry.kind {
        m.is_own = true;
        m.sender_display = "quintin".into();
    }
    entry
}
fn app_with_messages() -> App {
    let mut app = app();
    app.apply_worker_event(WorkerEvent::Timeline {
        view: View::room("!r:x"),
        entries: vec![
            their_message("$theirs", "hello there"),
            my_message("$mine", "my own words"),
        ],
    });
    let _ = app.take_commands();
    app
}

#[test]
fn selection_falls_back_to_scrolling_when_there_is_nothing_to_select() {
    let mut app = app();
    app.rendered_lines = 200;
    app.viewport_height = 20;
    let view = app.focused_view().expect("view");

    app.apply_action(Action::SelectOlder);
    assert_eq!(*app.scroll.get(&view).unwrap_or(&0), 1);
    assert_eq!(app.selected_event(), None);
}

#[test]
fn selection_starts_at_the_newest_message_and_walks_back() {
    let mut app = app_with_messages();
    assert_eq!(app.selected_event(), None);

    app.apply_action(Action::SelectOlder);
    assert_eq!(
        app.selected_event(),
        Some("$mine"),
        "the first move selects the newest, which is what `up` means in a chat"
    );

    app.apply_action(Action::SelectOlder);
    assert_eq!(app.selected_event(), Some("$theirs"));

    app.apply_action(Action::SelectOlder);
    assert_eq!(
        app.selected_event(),
        Some("$theirs"),
        "selection must clamp at the oldest rather than wrap"
    );

    app.apply_action(Action::SelectNewer);
    assert_eq!(app.selected_event(), Some("$mine"));
}

#[test]
fn replying_sends_a_reply_not_a_message() {
    let mut app = app_with_messages();
    app.apply_action(Action::SelectOlder);
    app.apply_action(Action::Reply);
    assert_eq!(app.composing, Some(Pending::Reply("$mine".into())));

    type_into(&mut app, "quite so");
    app.apply_action(Action::Submit);

    match app.take_commands().as_slice() {
        [Command::SendReply {
            in_reply_to, body, ..
        }] => {
            assert_eq!(in_reply_to, "$mine");
            assert_eq!(body, "quite so");
        }
        other => panic!("expected SendReply, got {other:?}"),
    }
    assert_eq!(app.composing, None, "the reply target must not persist");
}

#[test]
fn editing_loads_the_message_and_sends_a_replacement() {
    let mut app = app_with_messages();
    app.apply_action(Action::SelectOlder);
    app.apply_action(Action::EditMessage);

    assert_eq!(
        app.composer().expect("composer").text(),
        "my own words",
        "editing must load the existing text, not start blank"
    );

    type_into(&mut app, "!");
    app.apply_action(Action::Submit);
    match app.take_commands().as_slice() {
        [Command::Edit { event_id, body, .. }] => {
            assert_eq!(event_id, "$mine");
            assert_eq!(body, "my own words!");
        }
        other => panic!("expected Edit, got {other:?}"),
    }
}

#[test]
fn other_peoples_messages_cannot_be_edited() {
    let mut app = app_with_messages();
    app.apply_action(Action::SelectOlder);
    app.apply_action(Action::SelectOlder);
    assert_eq!(app.selected_event(), Some("$theirs"));

    app.apply_action(Action::EditMessage);
    assert_eq!(app.composing, None, "no edit may be armed");
    assert!(app.status.as_deref().is_some_and(|s| s.contains("own")));
    assert!(app.composer().map(Composer::text).unwrap_or("").is_empty());
}

#[test]
fn redaction_needs_confirming() {
    let mut app = app_with_messages();
    app.apply_action(Action::SelectOlder);

    app.apply_action(Action::RedactMessage);
    assert!(
        app.take_commands().is_empty(),
        "one keypress must not delete anything"
    );

    app.apply_action(Action::RedactMessage);
    match app.take_commands().as_slice() {
        [Command::Redact { event_id, .. }] => assert_eq!(event_id, "$mine"),
        other => panic!("expected Redact, got {other:?}"),
    }
}

#[test]
fn escape_disarms_a_redaction() {
    let mut app = app_with_messages();
    app.apply_action(Action::SelectOlder);
    app.apply_action(Action::RedactMessage);
    app.apply_action(Action::Cancel);

    app.apply_action(Action::RedactMessage);
    assert!(
        app.take_commands().is_empty(),
        "cancelling must reset the confirmation, not leave it armed"
    );
}

#[test]
fn escape_abandons_a_reply_and_clears_the_draft() {
    let mut app = app_with_messages();
    app.apply_action(Action::SelectOlder);
    app.apply_action(Action::Reply);
    type_into(&mut app, "never mind");

    app.apply_action(Action::Cancel);
    assert_eq!(app.composing, None);
    assert_eq!(app.mode, Mode::Normal);
    assert!(app.composer().map(Composer::text).unwrap_or("").is_empty());
}

#[test]
fn the_thread_picker_asks_the_worker_and_opens_a_pane() {
    let mut app = app();
    app.apply_action(Action::OpenThreads);
    match app.take_commands().as_slice() {
        [Command::ListThreads { room_id }] => assert_eq!(room_id, "!r:x"),
        other => panic!("expected ListThreads, got {other:?}"),
    }
    assert!(app.threads().expect("picker").loading);

    app.apply_worker_event(WorkerEvent::Threads {
        room_id: "!r:x".into(),
        threads: vec![ThreadSummary {
            root_event_id: "$root".into(),
            sender_display: "hermes".into(),
            preview: "fix auth".into(),
            timestamp: 0,
        }],
    });
    assert!(!app.threads().expect("picker").loading);

    let panes_before = app
        .workspaces
        .focused()
        .and_then(|w| w.focused_tab())
        .map_or(0, |t| t.panes.len());

    app.apply_action(Action::Accept);
    assert!(app.threads().is_none(), "opening must close the picker");

    let tab = app
        .workspaces
        .focused()
        .expect("workspace")
        .focused_tab()
        .expect("tab");
    assert_eq!(tab.panes.len(), panes_before + 1);
    assert_eq!(
        app.focused_view(),
        Some(View::thread("!r:x", "$root")),
        "a thread opens as its own pane, focused"
    );
}

#[test]
fn a_stale_thread_answer_is_ignored() {
    let mut app = app();
    app.apply_action(Action::OpenThreads);
    let _ = app.take_commands();

    app.apply_worker_event(WorkerEvent::Threads {
        room_id: "!somewhere-else:x".into(),
        threads: vec![ThreadSummary {
            root_event_id: "$x".into(),
            sender_display: "x".into(),
            preview: "x".into(),
            timestamp: 0,
        }],
    });
    let picker = app.threads().expect("picker");
    assert!(picker.threads.is_empty());
    assert!(
        picker.loading,
        "a late answer for another room must not land"
    );
}
fn thread_root_message(event_id: &str, body: &str, replies: u32) -> Entry {
    let mut entry = their_message(event_id, body);
    if let EntryKind::Message(m) = &mut entry.kind {
        m.thread_replies = Some(replies);
    }
    entry
}

#[test]
fn enter_opens_the_thread_on_the_selected_message() {
    let mut app = app();
    app.apply_worker_event(WorkerEvent::Timeline {
        view: View::room("!r:x"),
        entries: vec![thread_root_message("$root", "fix auth", 3)],
    });
    let _ = app.take_commands();

    app.apply_action(Action::SelectOlder);
    app.apply_action(Action::Accept);

    assert_eq!(
        app.focused_view(),
        Some(View::thread("!r:x", "$root")),
        "enter must open the thread as a focused pane"
    );
}

#[test]
fn enter_on_a_message_with_no_thread_says_so() {
    let mut app = app_with_messages();
    app.apply_action(Action::SelectOlder);
    app.apply_action(Action::Accept);
    assert!(app
        .status
        .as_deref()
        .is_some_and(|s| s.contains("no thread")));
    assert_eq!(app.focused_view(), Some(View::room("!r:x")));
}

#[test]
fn a_message_inside_a_thread_is_also_a_way_in() {
    let mut app = app();
    let mut reply = their_message("$reply", "a reply");
    if let EntryKind::Message(m) = &mut reply.kind {
        m.thread_root = Some("$root".into());
    }
    app.apply_worker_event(WorkerEvent::Timeline {
        view: View::room("!r:x"),
        entries: vec![reply],
    });
    let _ = app.take_commands();

    app.apply_action(Action::SelectOlder);
    app.apply_action(Action::Accept);
    assert_eq!(app.focused_view(), Some(View::thread("!r:x", "$root")));
}

#[test]
fn the_first_thread_splits_beside_the_room_and_later_ones_stack() {
    let mut app = app();
    app.open_thread_pane("$a".into(), "first".into());
    app.open_thread_pane("$b".into(), "second".into());

    let tab = app
        .workspaces
        .focused()
        .expect("workspace")
        .focused_tab()
        .expect("tab");
    assert_eq!(tab.panes.len(), 3, "room plus two threads");
    let room = tab
        .panes
        .iter()
        .find(|p| p.kind.thread_root().is_none())
        .expect("room pane");
    let tiling = app.tilings.get_mut("!r:x").expect("tiling");
    let placements = tiling.layout(Rect::new(0, 0, 100, 100));
    let room_rect = placements
        .iter()
        .find(|p| p.id == room.id)
        .expect("room placement")
        .rect;
    assert!(
        room_rect.width < 100,
        "the room pane gives up width to the first thread"
    );
    assert_eq!(
        room_rect.height, 100,
        "but keeps its full height, because later threads stack instead"
    );
}

#[test]
fn reopening_a_thread_focuses_it_rather_than_duplicating_it() {
    let mut app = app();
    app.open_thread_pane("$a".into(), "first".into());
    let after_first = app
        .workspaces
        .focused()
        .and_then(|w| w.focused_tab())
        .map_or(0, |t| t.panes.len());

    app.open_thread_pane("$a".into(), "first".into());
    let after_second = app
        .workspaces
        .focused()
        .and_then(|w| w.focused_tab())
        .map_or(0, |t| t.panes.len());

    assert_eq!(
        after_first, after_second,
        "no second pane on the same thread"
    );
    assert_eq!(app.focused_view(), Some(View::thread("!r:x", "$a")));
}

#[test]
fn the_last_pane_cannot_be_closed() {
    let mut app = app();
    app.apply_action(Action::ClosePane);
    let tab = app
        .workspaces
        .focused()
        .expect("workspace")
        .focused_tab()
        .expect("tab");
    assert_eq!(
        tab.panes.len(),
        1,
        "an empty tab shows nothing and offers no way back"
    );
}

#[test]
fn closing_a_thread_pane_leaves_the_room_pane() {
    let mut app = app();
    app.open_thread_pane("$a".into(), "first".into());
    app.apply_action(Action::ClosePane);

    let tab = app
        .workspaces
        .focused()
        .expect("workspace")
        .focused_tab()
        .expect("tab");
    assert_eq!(tab.panes.len(), 1);
    assert_eq!(app.focused_view(), Some(View::room("!r:x")));
}

#[test]
fn every_pane_on_show_gets_its_own_timeline() {
    let mut app = app();
    app.apply_worker_event(WorkerEvent::Timeline {
        view: View::room("!r:x"),
        entries: Vec::new(),
    });
    let _ = app.take_commands();

    app.open_thread_pane("$root".into(), "a thread".into());

    let commands = app.take_commands();
    assert!(
        commands
            .iter()
            .any(|c| matches!(c, Command::OpenView(v) if v == &View::thread("!r:x", "$root"))),
        "the new thread pane must be opened: {commands:?}"
    );
    assert!(
        !commands
            .iter()
            .any(|c| matches!(c, Command::OpenView(v) if v == &View::room("!r:x"))),
        "an already-streaming view must not be reopened"
    );
}

#[test]
fn a_fatal_worker_error_quits() {
    let mut app = app();
    app.apply_worker_event(WorkerEvent::Fatal("store corrupt".into()));
    assert!(app.should_quit);
    assert!(app.status.expect("status").contains("store corrupt"));
}

#[test]
fn scrolling_never_goes_below_the_bottom() {
    let mut app = app();
    app.rendered_lines = 200;
    app.viewport_height = 20;

    app.apply_action(Action::ScrollDown(50));
    let view = app.focused_view().expect("view");
    assert_eq!(*app.scroll.get(&view).unwrap_or(&0), 0);

    app.apply_action(Action::ScrollUp(5));
    assert_eq!(*app.scroll.get(&view).unwrap_or(&0), 5);
}

#[test]
fn scrolling_up_past_the_top_does_not_strand_the_transcript() {
    let mut app = app();
    app.rendered_lines = 200;
    app.viewport_height = 20;
    let view = app.focused_view().expect("view");

    app.apply_action(Action::ScrollUp(1_000));
    assert_eq!(
        *app.scroll.get(&view).expect("scroll"),
        180,
        "scroll must clamp at the oldest line, not keep counting"
    );
    app.apply_action(Action::ScrollDown(20));
    assert_eq!(*app.scroll.get(&view).expect("scroll"), 160);
}

#[test]
fn jumping_to_the_top_is_reversible() {
    let mut app = app();
    app.rendered_lines = 200;
    app.viewport_height = 20;
    let view = app.focused_view().expect("view");
    app.apply_action(Action::ScrollTop);
    assert_eq!(*app.scroll.get(&view).expect("scroll"), 180);

    app.apply_action(Action::ScrollBottom);
    assert_eq!(*app.scroll.get(&view).expect("scroll"), 0);
}

#[test]
fn the_room_list_arriving_opens_the_focused_view() {
    let mut app = App::new(Config::default(), Layout::default());
    app.open_focused_view();
    assert!(app.take_commands().is_empty(), "nothing to focus yet");

    app.apply_worker_event(WorkerEvent::Rooms(vec![RoomSummary {
        room_id: "!r:x".into(),
        display_name: "Commons".into(),
        is_space: false,
        parents: Vec::new(),
        is_direct: false,
        is_encrypted: false,
        notification_count: 0,
        highlight_count: 0,
    }]));

    let commands = app.take_commands();
    assert!(
        commands
            .iter()
            .any(|c| matches!(c, Command::OpenView(v) if v == &View::room("!r:x"))),
        "the first room list must open the focused view: {commands:?}"
    );
}

#[test]
fn the_help_overlay_toggles_and_escape_closes_it() {
    let mut app = app();
    assert!(!matches!(app.modal, Some(Modal::Help)));
    app.apply_action(Action::ToggleHelp);
    assert!(matches!(app.modal, Some(Modal::Help)));
    app.apply_action(Action::ToggleHelp);
    assert!(!matches!(app.modal, Some(Modal::Help)));

    app.apply_action(Action::ToggleHelp);
    app.apply_action(Action::Cancel);
    assert!(
        !matches!(app.modal, Some(Modal::Help)),
        "escape must close the overlay"
    );
}

#[test]
fn a_second_overlay_cannot_open_over_the_first() {
    let mut app = app_with_two_rooms();
    app.apply_action(Action::OpenThreads);
    assert!(app.threads().is_some());

    app.apply_action(Action::CommandPalette);

    assert!(app.palette().is_none(), "no palette opened over the picker");
    assert!(app.threads().is_some(), "and the picker is still reachable");
}

#[test]
fn the_thread_picker_swallows_keys_that_would_act_behind_it() {
    let mut app = app_with_two_rooms();
    app.apply_action(Action::OpenThreads);
    let before = pane_count(&app);

    app.apply_action(Action::Split(Dir::Right));

    assert_eq!(pane_count(&app), before, "the split must not have happened");
    assert!(app.threads().is_some(), "and the picker is still up");
}

#[test]
fn the_key_overlay_swallows_keys_that_would_act_behind_it() {
    let mut app = app_with_two_rooms();
    app.apply_action(Action::ToggleHelp);
    let before = pane_count(&app);

    app.apply_action(Action::Split(Dir::Right));

    assert_eq!(pane_count(&app), before);
    assert!(matches!(app.modal, Some(Modal::Help)));
}

#[test]
fn moving_focus_forces_a_full_repaint() {
    let mut app = app_with_two_rooms();
    app.needs_redraw = false;

    app.apply_action(Action::NextTab);
    assert!(app.needs_redraw, "switching tab must repaint");

    app.needs_redraw = false;
    app.bars.tab_row = 1;
    app.bars.tabs = vec![Hit {
        x0: 1,
        x1: 13,
        index: 0,
    }];
    app.click_bar(5, 1);
    assert!(app.needs_redraw, "clicking a tab must repaint");
}

#[test]
fn toggling_a_card_records_an_override() {
    let mut app = app();
    let mut result = event(Kind::ToolResult);
    result.tool = Some(Tool {
        name: "edit".into(),
        index: 0,
        args: None,
        preview: None,
        status: ToolStatus::Success,
        duration_ms: None,
        mime: Some("text/plain".into()),
        body: Some("body".into()),
        truncated: false,
    });
    app.apply_worker_event(WorkerEvent::Timeline {
        view: View::room("!r:x"),
        entries: vec![agent_entry("$e1", result)],
    });

    app.apply_action(Action::ToggleCard);
    assert_eq!(
        app.overrides.get(&("$e1".to_owned(), 0)),
        Some(&true),
        "a finished card is collapsed, so toggling opens it"
    );
}

#[test]
fn a_room_stays_suspect_until_its_own_history_is_clean() {
    let mut app = app();
    let mut doubtful = their_message("$odd", "trust me");
    if let EntryKind::Message(m) = &mut doubtful.kind {
        m.shield = Shield::Warning(ShieldReason::UnknownDevice);
    }
    app.apply_worker_event(WorkerEvent::Timeline {
        view: View::room("!r:x"),
        entries: vec![doubtful, their_message("$fine", "hello")],
    });
    assert!(app.unverified_rooms.contains_key("!r:x"));

    // A clean thread of the room says nothing about the rest of it.
    app.apply_worker_event(WorkerEvent::Timeline {
        view: View {
            room_id: "!r:x".into(),
            thread_root: Some("$root".into()),
        },
        entries: vec![their_message("$reply", "fine here")],
    });
    assert!(app.unverified_rooms.contains_key("!r:x"));

    app.apply_worker_event(WorkerEvent::Timeline {
        view: View::room("!r:x"),
        entries: vec![their_message("$fine", "hello")],
    });
    assert!(!app.unverified_rooms.contains_key("!r:x"));
}

fn app_on_a_thread() -> App {
    let mut app = app();
    let pane = app
        .workspaces
        .focused_mut()
        .and_then(|w| w.focused_tab_mut())
        .and_then(|t| t.focused_pane_mut())
        .expect("pane");
    pane.kind = PaneKind::Thread {
        room_id: "!r:x".into(),
        root: "$root".into(),
    };
    app
}

#[test]
fn a_typing_agent_shows_as_working_before_anything_arrives() {
    let mut app = app_on_a_thread();
    assert!(app.agents.get("$root").is_none());
    app.apply_worker_event(WorkerEvent::Typing {
        room_id: "!r:x".into(),
        users: vec!["@hermes:x".into()],
    });
    assert_eq!(app.badge().0, AgentState::Working);

    app.apply_worker_event(WorkerEvent::Typing {
        room_id: "!r:x".into(),
        users: vec![],
    });
    assert_eq!(app.badge().0, AgentState::Idle);
}

#[test]
fn a_prompt_that_runs_out_unblocks_its_pane() {
    let mut app = app_on_a_thread();
    let mut request = event(Kind::ApprovalRequest);
    request.approval = Some(Approval {
        id: "a1".into(),
        kind: "exec".into(),
        command: None,
        cwd: None,
        expires_at: Some(300),
        reactions: Default::default(),
        choice: None,
        by: None,
    });
    app.apply_worker_event(WorkerEvent::Timeline {
        view: View::thread("!r:x", "$root"),
        entries: vec![agent_entry("$prompt", request)],
    });
    assert_eq!(app.badge().0, AgentState::Blocked);
    app.tick(299_999, 0);
    assert_eq!(app.badge().0, AgentState::Blocked);
    app.tick(300_000, 0);
    assert_eq!(app.badge().0, AgentState::Working);
}
