//! Panes tiled over an area.

use heddle::layout::tiling::{Dir, Rect, SplitHandle, Tiling};
use ratatui::layout::Direction;
use ratatui_hypertile::raw::Node;
use ratatui_hypertile::SplitSnapshot;

/// Give the first side of a split this share.
fn share(path: &[usize], ratio: f32) -> SplitSnapshot {
    SplitSnapshot {
        path: path.to_vec(),
        rect: ratatui::layout::Rect::ZERO,
        direction: Direction::Horizontal,
        ratio,
    }
}

/// Move the held border to the pointer: the engine sets the share that puts it there.
fn drag(t: &mut Tiling, handle: &SplitHandle, column: u16, row: u16) -> bool {
    let (offset, extent) = handle.offset_at(column, row);
    let at = (f32::from(offset) / f32::from(extent.max(1))).clamp(0.1, 0.9);
    t.set_share(&share(&handle.path, at))
}

const AREA: Rect = Rect {
    x: 0,
    y: 0,
    width: 80,
    height: 24,
};

#[test]
fn starts_with_a_single_pane() {
    let mut t = Tiling::new();
    let placements = t.layout(AREA);
    assert_eq!(placements.len(), 1);
    assert_eq!(placements[0].rect, AREA);
}

#[test]
fn splitting_halves_the_area() {
    let mut t = Tiling::new();
    t.split(Dir::Right).expect("splits");
    let placements = t.layout(AREA);
    assert_eq!(placements.len(), 2);
    let total: u32 = placements.iter().map(|p| p.rect.area()).sum();
    assert!(total <= AREA.area(), "panes must not overlap the area");
}

#[test]
fn focus_moves_geometrically() {
    let mut t = Tiling::new();
    let right = t.split(Dir::Right).expect("splits");
    t.layout(AREA);
    assert_eq!(t.focused(), Some(right));
    let left = t.focus_dir(Dir::Left).expect("moves left");
    assert_ne!(left, right);
    assert_eq!(t.focus_dir(Dir::Right), Some(right));
}

#[test]
fn focus_does_not_move_past_an_edge() {
    let mut t = Tiling::new();
    t.split(Dir::Right);
    t.layout(AREA);
    t.focus_dir(Dir::Left);
    assert_eq!(t.focus_dir(Dir::Left), None, "no pane further left");
}

#[test]
fn zoom_gives_one_pane_the_whole_area() {
    let mut t = Tiling::new();
    t.split(Dir::Right);
    t.layout(AREA);

    t.toggle_zoom();
    assert!(t.is_zoomed());
    let placements = t.layout(AREA);
    assert_eq!(placements.len(), 1);
    assert_eq!(placements[0].rect, AREA);

    t.toggle_zoom();
    assert!(!t.is_zoomed());
    assert_eq!(t.layout(AREA).len(), 2);
}

#[test]
fn splitting_while_zoomed_unzooms() {
    let mut t = Tiling::new();
    t.split(Dir::Right);
    t.layout(AREA);
    t.toggle_zoom();
    t.split(Dir::Down);
    assert!(!t.is_zoomed());
    assert_eq!(t.layout(AREA).len(), 3);
}

#[test]
fn closing_the_zoomed_pane_clears_zoom() {
    let mut t = Tiling::new();
    t.split(Dir::Right);
    t.layout(AREA);
    t.toggle_zoom();
    t.close_focused();
    assert!(!t.is_zoomed());
}

#[test]
fn click_resolves_to_a_pane() {
    let mut t = Tiling::new();
    t.split(Dir::Right);
    let placements = t.layout(AREA);
    let target = placements[0];
    let hit = t.pane_at(target.rect.x + 1, target.rect.y + 1);
    assert_eq!(hit, Some(target.id));
}

#[test]
fn a_border_can_be_grabbed_and_dragged() {
    let mut t = Tiling::new();
    t.split(Dir::Right);
    let before = t.layout(AREA);
    let seam = before[0].rect.right();

    let handle = t
        .split_at(seam, AREA.height / 2)
        .expect("the seam between two panes is grabbable");
    assert!(drag(&mut t, &handle, AREA.width / 4, AREA.height / 2));

    let after = t.layout(AREA);
    assert!(
        after[0].rect.width < before[0].rect.width,
        "dragging left must shrink the left pane"
    );
    assert_eq!(
        after[0].rect.width + after[1].rect.width,
        AREA.width,
        "the panes must still tile the area exactly"
    );
}

#[test]
fn a_dragged_border_stops_before_either_pane_vanishes() {
    let mut t = Tiling::new();
    t.split(Dir::Right);
    let before = t.layout(AREA);
    let handle = t.split_at(before[0].rect.right(), 1).expect("handle");
    drag(&mut t, &handle, 0, 1);
    let squeezed = t.layout(AREA);
    assert!(squeezed[0].rect.width > 0 && squeezed[1].rect.width > 0);

    drag(&mut t, &handle, AREA.width * 2, 1);
    let stretched = t.layout(AREA);
    assert!(stretched[0].rect.width > 0 && stretched[1].rect.width > 0);
}

#[test]
fn a_horizontal_split_is_dragged_along_the_other_axis() {
    let mut t = Tiling::new();
    t.split(Dir::Down);
    let before = t.layout(AREA);
    let handle = t
        .split_at(AREA.width / 2, before[0].rect.bottom())
        .expect("handle");

    assert!(drag(&mut t, &handle, AREA.width / 2, AREA.height / 4));
    let after = t.layout(AREA);
    assert!(after[0].rect.height < before[0].rect.height);
}

#[test]
fn the_middle_of_a_pane_is_not_a_border() {
    let mut t = Tiling::new();
    t.split(Dir::Right);
    let placements = t.layout(AREA);
    let centre = placements[0].rect;
    assert!(t
        .split_at(centre.x + centre.width / 2, centre.y + centre.height / 2)
        .is_none());
}

#[test]
fn a_single_pane_has_no_border_to_drag() {
    let mut t = Tiling::new();
    t.layout(AREA);
    assert!(t.split_at(AREA.width / 2, AREA.height / 2).is_none());
}

#[test]
fn a_zoomed_tab_offers_no_borders() {
    let mut t = Tiling::new();
    t.split(Dir::Right);
    let placements = t.layout(AREA);
    let seam = placements[0].rect.right();
    assert!(t.split_at(seam, 1).is_some());

    t.toggle_zoom();
    t.layout(AREA);
    assert!(t.split_at(seam, 1).is_none());
}

#[test]
fn a_share_is_settled_and_says_whether_it_changed() {
    let of = |t: &Tiling| match t.snapshot().tree {
        Node::Split { ratio, .. } => ratio,
        Node::Pane(_) => panic!("expected a split"),
    };
    let mut t = Tiling::new();
    assert!(!t.set_share(&share(&[], 0.3)), "there is no split");
    t.split(Dir::Right).expect("splits");
    assert_eq!(of(&t), 0.5);
    assert!(t.set_share(&share(&[], 0.3)));
    assert_eq!(of(&t), 0.3);
    assert!(!t.set_share(&share(&[], 0.3)), "it has that share");
    assert!(!t.set_share(&share(&[0], 0.3)), "a pane is no split");
    assert!(!t.set_share(&share(&[], f32::from_bits(0.3_f32.to_bits() + 3))), "a rounding error");
    assert!(t.set_share(&share(&[], f32::from_bits(0.3_f32.to_bits() + 4))));
    for (given, kept) in [(7.0, 0.9), (-1.0, 0.1), (f32::NAN, 0.5), (0.05, 0.1), (f32::INFINITY, 0.5)] {
        assert!(t.set_share(&share(&[], given)));
        assert_eq!(of(&t), kept);
    }
}
