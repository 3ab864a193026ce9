//! Where things stand on the screen.

use heddle::app::screen::wrapped_anchors;
use heddle::app::state::Anchor;

fn anchor(event_id: &str, row: u16) -> Anchor {
    Anchor {
        event_id: event_id.into(),
        row,
    }
}

#[test]
fn anchors_move_down_by_the_wrapping_above_them() {
    let lines = vec![
        "short".to_owned(),
        "a considerably longer line that has to wrap several times over".to_owned(),
        "also short".to_owned(),
    ];
    let anchors = vec![anchor("$a", 0), anchor("$b", 1), anchor("$c", 2)];

    let mapped = wrapped_anchors(&lines, &anchors, 10);

    assert_eq!(mapped[0].row, 0, "nothing wraps above the first line");
    assert_eq!(mapped[1].row, 1, "one unwrapped line above");
    assert!(
        mapped[2].row > 2,
        "the wrapped line must push the last anchor down, got {}",
        mapped[2].row
    );
}

#[test]
fn anchors_are_left_alone_when_the_width_is_unknown() {
    let lines = vec!["anything".to_owned()];
    let anchors = vec![anchor("$a", 7)];

    assert_eq!(wrapped_anchors(&lines, &anchors, 0), anchors);
}

#[test]
fn a_line_of_any_length_is_counted_at_any_width() {
    let anchors = vec![anchor("$a", 1)];
    let row = |length: usize, width: u16| wrapped_anchors(&vec!["x".repeat(length)], &anchors, width)[0].row;
    assert_eq!(row(21_845, 65_535), 1);
    assert_eq!(row(70_000, 16_384), 5);
    assert_eq!(row(70_000, 65_535), 5, "counted at the largest width that fits every line");
    assert_eq!(row(70_000, 1_000), 70);

    // Clusters as wide as the area, one behind the other.
    let wide = "\u{1100}".repeat(8_192);
    let line = format!("\u{200b}{wide}x{wide}").repeat(3);
    assert!(wrapped_anchors(&vec![line], &anchors, 16_384)[0].row >= 6);
}
