//! Workspaces, tabs and panes.

use heddle::agent::store::AgentState;
use heddle::layout::model::{Pane, PaneId, PaneKind, Tab, Unread, Workspace, Workspaces, ORPHAN_WORKSPACE};

fn pane(n: u64, state: AgentState) -> Pane {
    let mut p = Pane::new(
        PaneId::new(n),
        PaneKind::Thread {
            room_id: "!r:x".into(),
            root: format!("$t{n}"),
        },
        &format!("thread {n}"),
    );
    p.state = state;
    p
}

#[test]
fn tab_badge_takes_the_most_urgent_pane() {
    let mut tab = Tab::new("!r:x", "#backend");
    tab.push_pane(pane(1, AgentState::Idle));
    tab.push_pane(pane(2, AgentState::Blocked));
    tab.push_pane(pane(3, AgentState::Working));
    assert_eq!(tab.state(), AgentState::Blocked);
    assert_eq!(tab.count_in(AgentState::Working), 1);
}

#[test]
fn unread_labels_distinguish_a_mention_from_mere_traffic() {
    assert_eq!(Unread::default().label(), None);
    assert_eq!(Unread::new(4, 0).label().as_deref(), Some("(4)"));
    assert_eq!(Unread::new(4, 1).label().as_deref(), Some("(@4)"));
}

#[test]
fn a_highlight_without_a_notification_still_counts() {
    let unread = Unread::new(0, 2);
    assert!(unread.any());
    assert_eq!(unread.count(), 2);
    assert_eq!(unread.label().as_deref(), Some("(@2)"));
}

#[test]
fn unread_rolls_up_from_tabs_to_the_whole_bar() {
    let mut ws = Workspaces::new();

    let quiet = ws.entry("!a:x", "alpha");
    let mut tab = Tab::new("!r1:x", "r1");
    tab.unread = Unread::new(3, 0);
    quiet.tabs.push(tab);

    let loud = ws.entry("!b:x", "bravo");
    let mut one = Tab::new("!r2:x", "r2");
    one.unread = Unread::new(5, 1);
    let mut two = Tab::new("!r3:x", "r3");
    two.unread = Unread::new(2, 0);
    loud.tabs.push(one);
    loud.tabs.push(two);

    assert_eq!(ws.items[0].unread(), Unread::new(3, 0));
    assert_eq!(ws.items[1].unread(), Unread::new(7, 1));
    assert_eq!(ws.unread(), Unread::new(10, 1));
    assert!(ws.unread().is_highlight());
}

#[test]
fn an_unread_workspace_is_not_silent_just_because_no_agent_is_running() {
    let mut ws = Workspaces::new();
    let w = ws.entry("~", ORPHAN_WORKSPACE);
    let mut tab = Tab::new("!r:x", "Another");
    tab.unread = Unread::new(1, 0);
    w.tabs.push(tab);

    assert_eq!(ws.state(), AgentState::Idle);
    assert!(ws.unread().any(), "unread must survive an idle agent state");
}

#[test]
fn badges_roll_all_the_way_up() {
    let mut ws = Workspaces::new();
    let w = ws.entry("!space:x", "hermes-proj");
    let mut tab = Tab::new("!r:x", "#backend");
    tab.push_pane(pane(1, AgentState::Blocked));
    w.tabs.push(tab);

    assert_eq!(ws.state(), AgentState::Blocked);
    assert_eq!(ws.count_in(AgentState::Blocked), 1);
}

#[test]
fn entry_is_idempotent() {
    let mut ws = Workspaces::new();
    ws.entry("!s:x", "one");
    ws.entry("!s:x", "one");
    assert_eq!(ws.items.len(), 1);
}

#[test]
fn closing_a_pane_keeps_focus_in_range() {
    let mut tab = Tab::new("!r:x", "#backend");
    tab.push_pane(pane(1, AgentState::Idle));
    tab.push_pane(pane(2, AgentState::Idle));
    tab.push_pane(pane(3, AgentState::Idle));
    assert_eq!(tab.focused_pane().expect("focused").id, PaneId::new(3));

    tab.remove_pane(PaneId::new(3));
    assert_eq!(
        tab.focused_pane().expect("focused").id,
        PaneId::new(2),
        "focus should land on a neighbour, not snap to the first pane"
    );

    tab.remove_pane(PaneId::new(1));
    tab.remove_pane(PaneId::new(2));
    assert!(tab.focused_pane().is_none());
}

#[test]
fn closing_a_pane_below_the_focused_one_does_not_move_the_focus() {
    let mut tab = Tab::new("!r:x", "#backend");
    for id in 1..=4 {
        tab.push_pane(pane(id, AgentState::Idle));
    }
    tab.focused = 1;
    assert_eq!(tab.focused_pane().expect("focused").id, PaneId::new(2));

    tab.remove_pane(PaneId::new(1));

    assert_eq!(
        tab.focused_pane().expect("focused").id,
        PaneId::new(2),
        "closing another pane must not change which pane you are looking at"
    );
}

#[test]
fn closing_a_pane_above_the_focused_one_leaves_it_alone_too() {
    let mut tab = Tab::new("!r:x", "#backend");
    for id in 1..=4 {
        tab.push_pane(pane(id, AgentState::Idle));
    }
    tab.focused = 1;

    tab.remove_pane(PaneId::new(4));

    assert_eq!(tab.focused_pane().expect("focused").id, PaneId::new(2));
}

#[test]
fn tab_cycling_wraps_both_ways() {
    let mut w = Workspace::new("~", "orphans");
    w.tabs.push(Tab::new("!a:x", "a"));
    w.tabs.push(Tab::new("!b:x", "b"));

    w.next_tab();
    assert_eq!(w.focused_tab().expect("tab").room_id, "!b:x");
    w.next_tab();
    assert_eq!(w.focused_tab().expect("tab").room_id, "!a:x");
    w.prev_tab();
    assert_eq!(w.focused_tab().expect("tab").room_id, "!b:x");
}

#[test]
fn cycling_an_empty_workspace_does_not_panic() {
    let mut w = Workspace::new("~", "empty");
    w.next_tab();
    w.prev_tab();
    assert!(w.focused_tab().is_none());
}

#[test]
fn threads_are_locatable_by_root() {
    let mut tab = Tab::new("!r:x", "#backend");
    tab.push_pane(pane(1, AgentState::Idle));
    tab.push_pane(pane(2, AgentState::Idle));
    assert_eq!(tab.pane_for_thread("$t2").expect("pane").id, PaneId::new(2));
    assert!(tab.pane_for_thread("$nope").is_none());
}

#[test]
fn urgency_sort_keeps_the_focused_workspace_focused() {
    let mut ws = Workspaces::new();
    for (id, title) in [("!a:x", "alpha"), ("!b:x", "bravo"), ("!c:x", "charlie")] {
        let w = ws.entry(id, title);
        w.tabs.push(Tab::new("!r:x", "r"));
    }
    ws.focus(0);
    let w = ws.entry("!c:x", "charlie");
    w.tabs[0].push_pane(pane(1, AgentState::Blocked));

    ws.sort_by_urgency();
    assert_eq!(ws.items[0].id, "!c:x");
    assert_eq!(
        ws.focused().expect("focused").id,
        "!a:x",
        "sorting must not move the user's focus"
    );
}

#[test]
fn rooms_are_locatable_across_workspaces() {
    let mut ws = Workspaces::new();
    ws.entry("!a:x", "alpha").tabs.push(Tab::new("!r1:x", "r1"));
    ws.entry("!b:x", "bravo").tabs.push(Tab::new("!r2:x", "r2"));
    assert_eq!(ws.locate_room("!r2:x"), Some((1, 0)));
    assert_eq!(ws.locate_room("!nope:x"), None);
}

#[test]
fn pane_header_shows_badge_and_lossiness_markers() {
    let mut p = pane(1, AgentState::Working);
    assert_eq!(p.header(), "● thread 1");
    p.degraded = true;
    assert_eq!(p.header(), "● ~thread 1");
    p.gaps = true;
    assert_eq!(p.header(), "● !~thread 1");
    p.degraded = false;
    assert_eq!(p.header(), "● !thread 1");
}
