//! Keys and what they mean.

use heddle::app::keymap::{Action, KeyCode, KeyEvent, KeyModifiers, Mode, Prefix};
use heddle::layout::tiling::Dir;

fn key(c: char) -> KeyEvent {
    KeyEvent::new(KeyCode::Char(c), KeyModifiers::none())
}

fn ctrl(c: char) -> KeyEvent {
    KeyEvent::new(KeyCode::Char(c), KeyModifiers::control())
}

#[test]
fn parses_prefix_specs() {
    assert_eq!(
        Prefix::parse("ctrl+a"),
        Some(Prefix {
            code: KeyCode::Char('a'),
            modifiers: KeyModifiers::control()
        })
    );
    assert_eq!(
        Prefix::parse("ALT+X"),
        Some(Prefix {
            code: KeyCode::Char('x'),
            modifiers: KeyModifiers::alt()
        })
    );
    assert_eq!(Prefix::parse("f1").expect("f1").code, KeyCode::F(1));
}

#[test]
fn rejects_unparseable_prefixes_rather_than_guessing() {
    assert_eq!(Prefix::parse("hyper+a"), None);
    assert_eq!(Prefix::parse("ctrl+"), None);
    assert_eq!(Prefix::parse("ctrl+abc"), None);
    assert_eq!(Prefix::parse(""), None);
}

#[test]
fn default_prefix_avoids_the_tmux_and_herdr_binding() {
    assert_eq!(Prefix::default().code, KeyCode::Char('a'));
    assert_ne!(Prefix::default().code, KeyCode::Char('b'));
}

#[test]
fn prefix_then_action_splits_a_pane() {
    let p = Prefix::default();
    let (action, mode) = heddle::app::keymap::map(ctrl('a'), Mode::Normal, p);
    assert_eq!(action, Action::Ignore);
    assert_eq!(mode, Mode::Prefix);

    let (action, mode) = heddle::app::keymap::map(key('|'), Mode::Prefix, p);
    assert_eq!(action, Action::Split(Dir::Right));
    assert_eq!(mode, Mode::Normal, "prefix mode is single-shot");
}

#[test]
fn the_prefix_works_from_inside_the_composer() {
    let p = Prefix::default();
    let (_, mode) = heddle::app::keymap::map(ctrl('a'), Mode::Insert, p);
    assert_eq!(mode, Mode::Prefix);
}

#[test]
fn an_unbound_prefix_key_is_swallowed_not_inserted() {
    let p = Prefix::default();
    let (action, mode) = heddle::app::keymap::map(key('%'), Mode::Prefix, p);
    assert_eq!(action, Action::Ignore);
    assert_eq!(mode, Mode::Normal);
}

#[test]
fn insert_mode_types_characters_that_are_normal_mode_commands() {
    let p = Prefix::default();
    for c in ['q', 'y', 'n', 'i', 'g'] {
        assert_eq!(
            heddle::app::keymap::map(key(c), Mode::Insert, p),
            (Action::Insert(c), Mode::Insert),
            "typing {c:?} must not trigger a command"
        );
    }
}

#[test]
fn enter_sends_and_shift_enter_breaks_the_line() {
    let p = Prefix::default();
    assert_eq!(
        heddle::app::keymap::map(
            KeyEvent::new(KeyCode::Enter, KeyModifiers::none()),
            Mode::Insert,
            p
        ),
        (Action::Submit, Mode::Insert)
    );
    assert_eq!(
        heddle::app::keymap::map(
            KeyEvent::new(KeyCode::Enter, KeyModifiers::shift()),
            Mode::Insert,
            p
        ),
        (Action::Newline, Mode::Insert)
    );
}

#[test]
fn approvals_are_one_keypress_in_normal_mode() {
    let p = Prefix::default();
    assert_eq!(heddle::app::keymap::map(key('y'), Mode::Normal, p).0, Action::Approve);
    assert_eq!(heddle::app::keymap::map(key('n'), Mode::Normal, p).0, Action::Deny);
}

#[test]
fn escape_leaves_insert_mode() {
    let p = Prefix::default();
    let (action, mode) = heddle::app::keymap::map(
        KeyEvent::new(KeyCode::Esc, KeyModifiers::none()),
        Mode::Insert,
        p,
    );
    assert_eq!(action, Action::EnterNormal);
    assert_eq!(mode, Mode::Normal);
}

#[test]
fn focus_and_resize_use_the_same_letters_in_different_cases() {
    let p = Prefix::default();
    assert_eq!(
        heddle::app::keymap::map(key('h'), Mode::Prefix, p).0,
        Action::FocusPane(Dir::Left)
    );
    assert_eq!(
        heddle::app::keymap::map(
            KeyEvent::new(KeyCode::Char('H'), KeyModifiers::shift()),
            Mode::Prefix,
            p
        )
        .0,
        Action::ResizePane(Dir::Left)
    );
}

#[test]
fn a_custom_prefix_is_honoured() {
    let p = Prefix::parse("alt+space").unwrap_or_default();
    let alt_space = KeyEvent::new(KeyCode::Char(' '), KeyModifiers::alt());
    assert_eq!(heddle::app::keymap::map(alt_space, Mode::Normal, p).1, Mode::Prefix);
    assert_eq!(heddle::app::keymap::map(ctrl('a'), Mode::Normal, p).1, Mode::Normal);
}
