//! The emoji picker.

use heddle::app::emoji::{common, Picker, Target, MAX_MATCHES};

#[test]
fn the_starting_list_is_the_common_set_and_every_entry_resolves() {
    let picker = Picker::new(Target::Composer);
    assert_eq!(
        picker.matches.len(),
        common().len(),
        "a typo in the curated list would silently shorten it"
    );
    assert_eq!(picker.chosen(), Some("👍"));
}

#[test]
fn searching_finds_by_name_and_by_shortcode() {
    let mut picker = Picker::new(Target::Composer);
    for c in "thumbsup".chars() {
        picker.push(c);
    }
    assert_eq!(picker.chosen(), Some("👍"));

    let mut picker = Picker::new(Target::Composer);
    for c in "rocket".chars() {
        picker.push(c);
    }
    assert_eq!(picker.chosen(), Some("🚀"));
}

#[test]
fn an_exact_shortcode_wins_over_a_longer_name_containing_it() {
    let mut picker = Picker::new(Target::Composer);
    for c in "+1".chars() {
        picker.push(c);
    }
    assert_eq!(picker.chosen(), Some("👍"));
}

#[test]
fn emoji_a_query_that_matches_nothing_chooses_nothing() {
    let mut picker = Picker::new(Target::Composer);
    for c in "notanemojiatall".chars() {
        picker.push(c);
    }
    assert!(picker.matches.is_empty());
    assert_eq!(picker.chosen(), None);
}

#[test]
fn deleting_the_query_returns_to_the_starting_list() {
    let mut picker = Picker::new(Target::Composer);
    picker.push('r');
    picker.pop();
    assert_eq!(picker.query, "");
    assert_eq!(picker.chosen(), Some("👍"));
}

#[test]
fn emoji_moving_the_selection_stops_at_both_ends() {
    let mut picker = Picker::new(Target::Composer);
    picker.up();
    assert_eq!(picker.selected, 0, "cannot move above the first match");

    for _ in 0..common().len() * 2 {
        picker.down();
    }
    assert_eq!(picker.selected, common().len() - 1, "nor past the last");
}

#[test]
fn an_exact_shortcode_is_found_however_many_names_hold_it() {
    let mut picker = Picker::new(Target::Composer);
    picker.push('o');
    assert_eq!(picker.matches.len(), MAX_MATCHES);
    assert_eq!(picker.chosen(), Some("⭕"));
    assert_eq!(picker.matches[1].text, "🤣");
}
