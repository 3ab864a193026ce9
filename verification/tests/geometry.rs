//! Where panes lie, and what is known of what has not arrived.

use heddle::agent::protocol::{AgentEvent, Kind, SCHEMA_VERSION};
use heddle::agent::store::AgentStore;
use heddle::layout::model::PaneId;
use heddle::layout::tiling::{Dir, Rect, StateError, Tiling};
use ratatui::layout::Direction;
use ratatui_hypertile::raw::Node;

const AREA: Rect = Rect {
    x: 3,
    y: 2,
    width: 31,
    height: 17,
};

#[test]
fn every_cell_of_a_tab_is_in_one_pane() {
    let mut t = Tiling::new();
    t.split(Dir::Right);
    t.split(Dir::Down);
    t.layout(AREA);
    t.focus_dir(Dir::Left);
    t.split(Dir::Down);
    let placements = t.layout(AREA);
    assert_eq!(placements.len(), 4);
    for column in AREA.x..AREA.right() {
        for row in AREA.y..AREA.bottom() {
            let holding: Vec<_> = placements
                .iter()
                .filter(|p| p.rect.contains(column, row))
                .collect();
            assert_eq!(holding.len(), 1, "cell {column},{row}");
            assert_eq!(t.pane_at(column, row), Some(holding[0].id));
        }
    }
    assert_eq!(t.pane_at(AREA.right(), AREA.y), None);
}

#[test]
fn a_new_pane_lies_where_it_was_asked_for() {
    for (dir, back) in [(Dir::Right, Dir::Left), (Dir::Down, Dir::Up)] {
        let mut t = Tiling::new();
        let old = t.focused().expect("focus");
        let new = t.split(dir).expect("splits");
        let placements = t.layout(AREA);
        let rect = |id| placements.iter().find(|p| p.id == id).expect("placed").rect;
        match dir {
            Dir::Right => assert_eq!(rect(old).right(), rect(new).x),
            _ => assert_eq!(rect(old).bottom(), rect(new).y),
        }
        assert_eq!(t.focused(), Some(new));
        assert_eq!(t.focus_dir(back), Some(old));
        assert_eq!(t.focus_dir(back), None);
    }
}

#[test]
fn a_snapshot_brings_the_tiling_back() {
    let mut t = Tiling::new();
    t.split(Dir::Right);
    let kept = t.split(Dir::Down).expect("splits");
    t.toggle_zoom();
    let mut back = Tiling::restore(&t.snapshot()).expect("restores");
    assert_eq!(back.pane_ids(), t.pane_ids());
    assert_eq!(back.focused(), Some(kept));
    assert!(back.is_zoomed());
    back.toggle_zoom();
    t.toggle_zoom();
    assert_eq!(back.layout(AREA), t.layout(AREA));
    let new = back.split(Dir::Right).expect("splits");
    assert!(!t.pane_ids().contains(&new), "a number is not given twice");
}

#[test]
fn a_tree_with_a_pane_twice_is_refused() {
    let leaf = |id| Box::new(Node::Pane(ratatui_hypertile::PaneId::new(id)));
    let mut snapshot = Tiling::new().snapshot();
    snapshot.tree = Node::Split {
        direction: Direction::Horizontal,
        ratio: 0.5,
        first: leaf(7),
        second: Box::new(Node::Split {
            direction: Direction::Vertical,
            ratio: 0.5,
            first: leaf(3),
            second: leaf(7),
        }),
    };
    assert_eq!(
        Tiling::restore(&snapshot).err(),
        Some(StateError::DuplicatePaneId(PaneId::new(7)))
    );
}

fn notice(seq: u64) -> AgentEvent {
    AgentEvent {
        v: SCHEMA_VERSION,
        session_id: "s".into(),
        turn_id: "t".into(),
        seq,
        kind: Kind::Notice,
        agent: None,
        text: None,
        final_: None,
        tool: None,
        notice: None,
        approval: None,
        picker: None,
        usage: None,
    }
}

fn delta(seq: u64, text: &str) -> AgentEvent {
    AgentEvent {
        kind: Kind::MessageDelta,
        text: Some(text.into()),
        ..notice(seq)
    }
}

#[test]
fn a_delta_that_comes_again_is_ignored() {
    let mut store = AgentStore::new();
    for (seq, text) in [(1, "abc"), (2, "def"), (2, "def"), (1, "abc")] {
        store.apply(&delta(seq, text));
    }
    let text = |store: &AgentStore| {
        let session = store.get("s").expect("session");
        session.latest_turn().expect("turn").text.clone()
    };
    assert_eq!(text(&store), "abcdef");
    store.apply(&delta(2, "abcdefghi"));
    assert_eq!(text(&store), "abcdefghi", "a frame that extends the text is newer");
}

#[test]
fn the_first_event_of_a_turn_counts_whatever_its_number() {
    let mut store = AgentStore::new();
    let stop = AgentEvent {
        kind: Kind::MessageStop,
        final_: Some(true),
        ..notice(0)
    };
    store.apply(&stop);
    assert!(store.get("s").expect("session").latest_turn().expect("turn").complete);
}

#[test]
fn a_turn_knows_what_is_missing_of_it() {
    let mut store = AgentStore::new();
    for seq in [4, 9, 6, 9] {
        store.apply(&notice(seq));
    }
    let turn = store.get("s").expect("session").latest_turn().expect("turn");
    assert_eq!(turn.gaps, vec![5, 7, 8]);
    assert_eq!(turn.high_seq, 9);
    for seq in [8, 5, 7, 2] {
        store.apply(&notice(seq));
    }
    assert!(!store.get("s").expect("session").has_gaps());
}
