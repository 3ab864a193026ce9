//! Saving an arrangement and bringing it back.

use heddle::layout::model::{Pane, PaneKind, Tab, Workspace, Workspaces};
use heddle::layout::persist::{Layout, VERSION};
use heddle::layout::tiling::{Dir, Rect, Tiling};
use heddle::table::Table;
use ratatui::layout::Direction;
use ratatui_hypertile::raw::Node;
use ratatui_hypertile::SplitSnapshot;

/// The share of the first side of the split at this path.
fn ratio_at(node: &Node, path: &[usize]) -> Option<f32> {
    match node {
        Node::Split { ratio, first, second, .. } => match path.split_first() {
            None => Some(*ratio),
            Some((0, rest)) => ratio_at(first, rest),
            Some((_, rest)) => ratio_at(second, rest),
        },
        _ => None,
    }
}

/// Give the first side of a split this share.
fn share(path: &[usize], ratio: f32) -> SplitSnapshot {
    SplitSnapshot {
        path: path.to_vec(),
        rect: ratatui::layout::Rect::ZERO,
        direction: Direction::Horizontal,
        ratio,
    }
}

/// Move the border of the focused pane by this share.
fn resize(tiling: &mut Tiling, dir: Dir, amount: f32) {
    let Some(change) = tiling.resize(dir) else { return };
    let delta = if change.grow_first { amount } else { -amount };
    let current = ratio_at(&tiling.snapshot().tree, &change.path).unwrap_or(0.5);
    tiling.set_share(&share(&change.path, (current + delta).clamp(0.1, 0.9)));
}

const AREA: Rect = Rect {
    x: 0,
    y: 0,
    width: 80,
    height: 24,
};
fn arranged() -> (Workspaces, Table<String, Tiling>) {
    let mut tiling = Tiling::new();
    let placements = tiling.layout(AREA);
    let root = placements[0].id;

    let mut tab = Tab::new("!room:x", "#backend");
    tab.push_pane(Pane::new(
        root,
        PaneKind::Room {
            room_id: "!room:x".into(),
        },
        "#backend",
    ));

    for root_event in ["$one", "$two"] {
        let id = tiling.split(Dir::Right).expect("splits");
        tab.push_pane(Pane::new(
            id,
            PaneKind::Thread {
                room_id: "!room:x".into(),
                root: root_event.into(),
            },
            root_event,
        ));
    }
    tiling.layout(AREA);

    let mut workspaces = Workspaces::new();
    workspaces.entry("!space:x", "hermes").tabs.push(tab);

    let mut tilings = Table::new();
    tilings.insert("!room:x".to_owned(), tiling);
    (workspaces, tilings)
}

#[test]
fn a_captured_layout_comes_back_pane_for_pane() {
    let (workspaces, mut tilings) = arranged();
    let before = tilings.get_mut("!room:x").expect("tiling").layout(AREA);

    let mut layout = Layout::capture(&workspaces, &tilings);
    let saved = layout.rooms.get_mut("!room:x").expect("room");
    let json = serde_json::to_string(&saved.tiling.tree).expect("encodes");
    saved.tiling.tree = serde_json::from_str(&json).expect("decodes");

    let mut tab = Tab::new("!room:x", "#backend");
    let mut restored = layout.take_room("!room:x", &mut tab).expect("restores");

    assert_eq!(tab.panes.len(), 3);
    assert_eq!(
        tab.panes.iter().map(|p| p.kind.clone()).collect::<Vec<_>>(),
        workspaces.items[0].tabs[0]
            .panes
            .iter()
            .map(|p| p.kind.clone())
            .collect::<Vec<_>>(),
        "pane order decides where the next thread splits, so it must survive"
    );
    assert_eq!(
        restored.layout(AREA),
        before,
        "geometry must come back identical, not merely similar"
    );
}

#[test]
fn a_resized_border_survives_the_round_trip() {
    let (workspaces, mut tilings) = arranged();
    let tiling = tilings.get_mut("!room:x").expect("tiling");
    resize(tiling, Dir::Left, 0.2);
    let before = tiling.layout(AREA);

    let mut layout = Layout::capture(&workspaces, &tilings);
    let mut tab = Tab::new("!room:x", "#backend");
    let mut restored = layout.take_room("!room:x", &mut tab).expect("restores");
    assert_eq!(restored.layout(AREA), before);
    resize(&mut restored, Dir::Left, 0.2);
    assert_ne!(restored.layout(AREA), before);
}

#[test]
fn focus_and_zoom_come_back() {
    let (workspaces, mut tilings) = arranged();
    let tiling = tilings.get_mut("!room:x").expect("tiling");
    tiling.focus_dir(Dir::Left);
    let focused = tiling.focused().expect("focused");
    tiling.toggle_zoom();

    let mut layout = Layout::capture(&workspaces, &tilings);
    let mut tab = Tab::new("!room:x", "#backend");
    let restored = layout.take_room("!room:x", &mut tab).expect("restores");

    assert_eq!(restored.focused(), Some(focused));
    assert!(restored.is_zoomed());
    assert_eq!(tab.focused_pane().expect("pane").id, focused);
}

#[test]
fn the_focused_workspace_and_its_tab_are_recorded() {
    let (mut workspaces, tilings) = arranged();
    workspaces
        .entry("!other:x", "other")
        .tabs
        .push(Tab::new("!elsewhere:x", "elsewhere"));

    let layout = Layout::capture(&workspaces, &tilings);
    assert_eq!(layout.workspace.as_deref(), Some("!space:x"));
    assert_eq!(layout.tabs.get("!space:x").expect("tab"), "!room:x");
    assert_eq!(
        layout.tabs.get("!other:x").expect("tab"), "!elsewhere:x",
        "an unfocused workspace still remembers where you left it"
    );
}

#[test]
fn a_room_is_only_restored_once() {
    let (workspaces, tilings) = arranged();
    let mut layout = Layout::capture(&workspaces, &tilings);

    let mut first = Tab::new("!room:x", "#backend");
    assert!(layout.take_room("!room:x", &mut first).is_some());
    let mut second = Tab::new("!room:x", "#backend");
    assert!(layout.take_room("!room:x", &mut second).is_none());
    assert!(second.panes.is_empty());
}

#[test]
fn a_layout_whose_panes_and_tree_disagree_is_refused() {
    let (workspaces, tilings) = arranged();
    let mut layout = Layout::capture(&workspaces, &tilings);
    layout
        .rooms
        .get_mut("!room:x")
        .expect("room")
        .panes
        .pop()
        .expect("a pane to drop");

    let mut tab = Tab::new("!room:x", "#backend");
    assert!(
        layout.take_room("!room:x", &mut tab).is_none(),
        "a leaf with no pane would be drawn empty for ever"
    );
    assert!(
        tab.panes.is_empty(),
        "a refused restore must leave no trace"
    );
}

#[test]
fn nothing_saved_for_a_room_is_not_an_error() {
    let mut layout = Layout::new();
    let mut tab = Tab::new("!new:x", "new");
    assert!(layout.take_room("!new:x", &mut tab).is_none());
}
#[test]
fn a_file_from_another_version_is_discarded_not_guessed_at() {
    let (workspaces, tilings) = arranged();
    let mut layout = Layout::capture(&workspaces, &tilings);
    layout.version = VERSION + 1;

    assert!(
        layout.of_this_version().rooms.len() == 0,
        "guessing at an unknown schema risks rearranging panes silently"
    );
}

#[test]
fn an_empty_workspace_set_captures_cleanly() {
    let layout = Layout::capture(&Workspaces::new(), &Table::new());
    assert_eq!(layout.version, VERSION);
    assert!(layout.workspace.is_none());
    assert!(layout.rooms.len() == 0);
}

#[test]
fn a_workspace_with_no_tiling_is_skipped_rather_than_half_saved() {
    let mut workspaces = Workspaces::new();
    let w: &mut Workspace = workspaces.entry("!s:x", "s");
    w.tabs.push(Tab::new("!untiled:x", "untiled"));

    let layout = Layout::capture(&workspaces, &Table::new());
    assert!(layout.rooms.len() == 0);
    assert_eq!(layout.tabs.get("!s:x").expect("tab"), "!untiled:x");
}

#[test]
fn two_saved_panes_of_one_id_are_refused() {
    let (workspaces, tilings) = arranged();
    let mut layout = Layout::capture(&workspaces, &tilings);
    let saved = layout.rooms.get_mut("!room:x").expect("room");
    let id = saved.panes[0].id;
    saved.panes[1].id = id;

    let mut tab = Tab::new("!room:x", "#backend");
    assert!(layout.take_room("!room:x", &mut tab).is_none());
    assert!(tab.panes.is_empty());
    assert!(!layout.rooms.contains_key("!room:x"));
}
