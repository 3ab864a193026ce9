//! The command palette.

use heddle::app::keymap::{KeyCode, KeyEvent, KeyModifiers, Mode, Prefix};
use heddle::app::palette::{commands, keys_for, Palette, MAX_ROWS};

fn typed(query: &str) -> Palette {
    let mut palette = Palette::new();
    for ch in query.chars() {
        palette.push(ch);
    }
    palette
}

#[test]
fn an_unfiltered_palette_offers_everything() {
    let palette = Palette::new();
    assert_eq!(palette.matches.len(), commands().len());
    assert_eq!(palette.chosen().expect("first").name, "split right");
}

#[test]
fn a_substring_outranks_a_scattered_match() {
    let palette = typed("sp");
    assert_eq!(palette.chosen().expect("match").name, "split right");
}

#[test]
fn initials_find_a_command_without_typing_the_space() {
    assert_eq!(typed("nw").chosen().expect("match").name, "next workspace");
    assert_eq!(
        typed("pw").chosen().expect("match").name,
        "previous workspace"
    );
    assert_eq!(typed("sr").chosen().expect("match").name, "split right");
}

#[test]
fn a_word_start_beats_a_letter_stranded_mid_word() {
    let palette = typed("nw");
    let names: Vec<_> = palette.matches.iter().map(|i| commands()[*i].name).collect();
    let workspace = names.iter().position(|n| *n == "next workspace");
    let thread = names.iter().position(|n| *n == "new thread");
    assert!(workspace < thread, "ranked {names:?}");
}

#[test]
fn searching_is_case_insensitive() {
    assert_eq!(typed("ZOOM").chosen().expect("match").name, "zoom pane");
}

#[test]
fn palette_a_query_that_matches_nothing_chooses_nothing() {
    let palette = typed("xyzzy");
    assert!(palette.matches.is_empty());
    assert!(palette.chosen().is_none());
}

#[test]
fn deleting_the_query_restores_the_full_list() {
    let mut palette = typed("zoom");
    for _ in 0.."zoom".len() {
        palette.pop();
    }
    assert_eq!(palette.matches.len(), commands().len());
}

#[test]
fn palette_moving_the_selection_stops_at_both_ends() {
    let mut palette = Palette::new();
    palette.up();
    assert_eq!(palette.selected, 0);
    for _ in 0..commands().len() * 2 {
        palette.down();
    }
    assert_eq!(palette.selected, commands().len() - 1);
}

#[test]
fn refiltering_returns_the_selection_to_the_top() {
    let mut palette = Palette::new();
    palette.down();
    palette.down();
    palette.push('q');
    assert_eq!(palette.selected, 0);
}

#[test]
fn the_visible_window_follows_the_selection() {
    let mut palette = Palette::new();
    for _ in 0..MAX_ROWS + 2 {
        palette.down();
    }
    let shown: Vec<_> = palette.visible(MAX_ROWS).into_iter().collect();
    assert_eq!(shown.len(), MAX_ROWS);
    assert!(
        shown.iter().any(|(_, selected)| *selected),
        "the highlight must stay on screen"
    );
}

#[test]
fn every_command_that_claims_a_key_is_what_that_key_does() {
    let prefix = Prefix::default();
    for command in commands() {
        if command.keys.chars().count() != 1 {
            continue;
        }
        let ch = command.keys.chars().next().expect("one char");
        let mode = if command.prefixed {
            Mode::Prefix
        } else {
            Mode::Normal
        };
        let modifiers = if ch.is_ascii_uppercase() {
            KeyModifiers::shift()
        } else {
            KeyModifiers::none()
        };
        let (action, _) = heddle::app::keymap::map(KeyEvent::new(KeyCode::Char(ch), modifiers), mode, prefix);
        assert_eq!(
            action, command.action,
            "the palette says `{}` runs {:?}, but that key runs {action:?}",
            command.name, command.action
        );
    }
}

#[test]
fn keys_are_written_with_the_configured_prefix() {
    let prefix = Prefix::parse("alt+x").expect("alt+x");
    let all = commands();
    let split = all
        .iter()
        .find(|c| c.name == "split right")
        .expect("split right");
    assert_eq!(keys_for(split, prefix), "⌥x |");

    let reply = all
        .iter()
        .find(|c| c.name == "reply to selection")
        .expect("reply");
    assert_eq!(keys_for(reply, prefix), "r", "unprefixed keys stand alone");
}

#[test]
fn no_command_is_listed_twice() {
    let mut names: Vec<_> = commands().iter().map(|c| c.name).collect();
    names.sort_unstable();
    let before = names.len();
    names.dedup();
    assert_eq!(before, names.len(), "a duplicate row is a confusing row");
}
