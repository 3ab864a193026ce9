//! What is drawn and where, on exact values.

use heddle::agent::store::AgentState;
use heddle::app::bars::{draw_composer, draw_emoji, draw_help, draw_status, hints, place_help};
use heddle::app::composer::Composer;
use heddle::app::config::Config;
use heddle::app::emoji::{Picker, Target};
use heddle::app::keymap::{Mode, Prefix};
use heddle::app::mentions::{localpart, mention_words};
use heddle::app::palette::{score, Palette};
use heddle::app::screen::{
    bar_badge, centred, composer_height, composer_title, draw_threads, draw_verification, emoji_title, emoji_window,
    first_row, fit_hints, help_rows, inner_of, label_tab, move_anchors, pad, place_emoji, place_threads, scroll_offset,
    status_width, sync_mark, tab_strip, Span, Tone,
};
use heddle::app::state::{Anchor, App, Hit, Pending, ThreadPicker};
use heddle::layout::model::Tab;
use heddle::layout::persist::Layout;
use heddle::layout::tiling::Rect;
use heddle::matrix::model::{SyncState, ThreadSummary, Verification};

fn span(text: &str, tone: Tone) -> Span {
    Span {
        text: text.into(),
        tone,
    }
}

const SCREEN: Rect = Rect {
    x: 0,
    y: 0,
    width: 80,
    height: 24,
};

#[test]
fn an_overlay_is_centred_and_clamped() {
    assert_eq!(centred(SCREEN, 20, 10), Rect::new(30, 7, 20, 10));
    assert_eq!(inner_of(Rect::new(3, 4, 10, 1)), Rect::new(4, 5, 8, 0));
    assert_eq!(place_threads(SCREEN, 30), Rect::new(10, 2, 60, 20));
    assert_eq!(place_threads(SCREEN, 0).height, 4);
    assert_eq!(place_emoji(SCREEN, 100), Rect::new(20, 4, 40, 15));
    let tiny = Rect::new(0, 0, 5, 2);
    for place in [place_threads(tiny, 9), place_emoji(tiny, 9)] {
        assert!(place.right() <= 5 && place.bottom() <= 2);
    }
}

#[test]
fn scrolling_counts_from_the_bottom() {
    assert_eq!(scroll_offset(100, 20, 0), 80);
    assert_eq!(scroll_offset(100, 20, 30), 50);
    assert_eq!(scroll_offset(100, 20, 500), 0);
    assert_eq!(scroll_offset(10, 20, 3), 0);
    assert_eq!(first_row(2, 5), 0);
    assert_eq!(first_row(7, 5), 3);
    assert_eq!(first_row(7, 0), 7);
}

#[test]
fn the_composer_grows_up_to_a_limit() {
    let typed = |text: &str| {
        let mut c = Composer::new();
        c.set_text(text);
        c
    };
    assert_eq!(composer_height(None, 80), 3);
    assert_eq!(composer_height(Some(&typed("")), 80), 3);
    assert_eq!(composer_height(Some(&typed("a\nb")), 80), 4);
    assert_eq!(composer_height(Some(&typed("a\na\na\na\na\na\na\na\na\na")), 80), 10);
    assert_eq!(composer_height(Some(&typed("the quick brown fox")), 12), 4);
    assert_eq!(composer_title(None, Mode::Normal), "normal");
    assert_eq!(composer_title(Some(&Pending::Edit("$e".into())), Mode::Insert), "edit");
}

#[test]
fn no_row_is_wider_than_the_composer() {
    let wrapped = |text: &str, width: u16| -> Vec<String> {
        let mut c = Composer::new();
        c.set_text(text);
        c.wrapped(width).lines.iter().map(|l| (*l).to_owned()).collect()
    };
    assert_eq!(wrapped(" ab\u{2705}", 3), vec![" ", "ab", "\u{2705}"]);
    assert_eq!(wrapped("a\u{2705}b", 1), vec!["a", "\u{2705}", "b"]);
    for line in wrapped("one two\u{2705}\u{2705} three \u{2705}four", 5) {
        assert!(unicode_width::UnicodeWidthStr::width(line.as_str()) <= 5, "{line:?}");
    }
}

#[test]
fn tabs_stand_side_by_side() {
    let (cells, hits, end) = tab_strip(&vec!["ab".to_owned(), "a longer label".to_owned()], 5);
    assert_eq!(cells, vec![" ab         ", " a longer label "]);
    assert_eq!(
        hits,
        vec![
            Hit {
                x0: 6,
                x1: 18,
                index: 0
            },
            Hit {
                x0: 19,
                x1: 35,
                index: 1
            },
        ]
    );
    assert_eq!(end, 36);
    assert!(hits[0].contains(6) && hits[0].contains(17) && !hits[0].contains(18));
}

#[test]
fn badges_are_shown_for_what_is_notable() {
    assert_eq!(bar_badge(AgentState::Blocked, 0), None);
    assert_eq!(bar_badge(AgentState::Working, 3), None);
    let badge = bar_badge(AgentState::Blocked, 3).expect("notable");
    assert_eq!(badge, format!(" {} 3 ", AgentState::Blocked.glyph()));
    let mut tab = Tab::new("!r:x", "room");
    assert_eq!(label_tab(&tab), "room");
    tab.is_encrypted = true;
    assert_eq!(label_tab(&tab), "room 🔒");
}

#[test]
fn hints_are_shed_from_the_end() {
    assert_eq!(fit_hints(&vec![5, 9, 7], 100, 3), (3, 12));
    assert_eq!(fit_hints(&vec![5, 9, 7], 35, 3), (2, 12));
    assert_eq!(fit_hints(&vec![5, 9, 7], 12, 3), (1, 8));
    assert_eq!(fit_hints(&vec![5, 9, 7], 10, 3), (0, 0));
    assert_eq!(sync_mark(SyncState::Running), ("●", None));
    assert_eq!(sync_mark(SyncState::Offline), ("⚠", Some("offline")));
    assert_eq!(status_width(SyncState::Running, None), 3);
    assert_eq!(status_width(SyncState::Offline, Some("hm")), 3 + 7 + 2 + 2);

    let all = hints(Prefix::default());
    assert_eq!(all[0], ("i".to_owned(), "write".to_owned()));
    let line = draw_status(SyncState::Running, Some("hello"), &all, 20);
    assert_eq!(line.left[0].text, " ● ");
    assert_eq!(line.hints.last().map(|s| s.text.as_str()), Some("write"));
    assert_eq!(line.width, 10);
    assert!(draw_status(SyncState::Running, None, &all, 3).hints.is_empty());
}

#[test]
fn a_verification_spells_its_emoji_out() {
    let panel = draw_verification(&Verification::Compare {
        other_device: "phone".into(),
        emoji: vec![("🐶".into(), "Dog".into())],
    })
    .expect("drawn");
    assert_eq!(panel.title, " compare emoji ");
    assert_eq!(
        panel.lines[0],
        vec![span("Do these match what phone shows?", Tone::Plain)]
    );
    assert_eq!(
        panel.lines[2],
        vec![span(" 🐶 ", Tone::Accent), span("  ", Tone::Plain), span("Dog", Tone::Plain)]
    );
    assert_eq!(
        panel.lines.last().expect("hint"),
        &vec![span("y they match   n they do NOT match", Tone::Dim)]
    );
    let place = panel.placed(SCREEN);
    assert_eq!((place.width, place.height), (38, 7));
    assert!(draw_verification(&Verification::Done).is_none());
}

#[test]
fn threads_are_listed_with_the_selection_marked() {
    let thread = |sender: &str, preview: &str| ThreadSummary {
        root_event_id: "$e".into(),
        sender_display: sender.into(),
        preview: preview.into(),
        timestamp: 0,
    };
    let mut picker = ThreadPicker {
        room_id: "!r:x".into(),
        threads: vec![],
        selected: 1,
        loading: true,
    };
    assert_eq!(
        draw_threads(&picker),
        vec![vec![span(" listing threads…", Tone::Dim)]]
    );
    picker.loading = false;
    assert_eq!(
        draw_threads(&picker),
        vec![vec![span(" no threads in this room", Tone::Dim)]]
    );
    picker.threads = vec![thread("bob", "one"), thread("alice", "two")];
    let lines = draw_threads(&picker);
    assert_eq!(
        lines[0],
        vec![
            span(" ", Tone::Accent),
            span("bob         ", Tone::Dim),
            span("one", Tone::Dim)
        ]
    );
    assert_eq!(
        lines[1],
        vec![
            span("\u{258e}", Tone::Accent),
            span("alice       ", Tone::Accent),
            span("two", Tone::Dim)
        ]
    );
    assert_eq!(pad("ab", 4), "ab  ");
    assert_eq!(pad("abcde", 4), "abcde");
}

#[test]
fn the_emoji_window_follows_the_selection() {
    assert_eq!(emoji_window(100, 0), (0, 12));
    assert_eq!(emoji_window(100, 20), (9, 12));
    assert_eq!(emoji_window(0, 0), (0, 1));
    let reaction = Target::Reaction { event_id: "$e".into() };
    assert_eq!(emoji_title(&Target::Composer), " emoji ");
    assert_eq!(emoji_title(&reaction), " react ");
    let mut picker = Picker::new(reaction);
    for c in "rocket".chars() {
        picker.push(c);
    }
    let lines = draw_emoji(&picker);
    assert_eq!(lines[0][1], span("rocket", Tone::Accent));
    assert_eq!(lines[1][1], span("🚀  ", Tone::Accent));
    picker.push('~');
    assert_eq!(draw_emoji(&picker)[1], vec![span(" nothing matches", Tone::Dim)]);
}

#[test]
fn help_lines_up_its_columns() {
    let rows = vec![("a".to_owned(), "one".to_owned()), ("bcd".to_owned(), "three".to_owned())];
    let lines = draw_help(&rows);
    assert_eq!(lines[0][0].text, "   ");
    assert_eq!(lines[0][1], span("a", Tone::Accent));
    assert_eq!(lines[1][0].text, " ");
    assert_eq!(place_help(&rows, SCREEN), Some(Rect::new(32, 10, 16, 4)));
    assert_eq!(place_help(&rows, Rect::new(0, 0, 7, 24)), None);
    assert_eq!(help_rows(Prefix::default()).len(), Palette::new().matches.len());
}

#[test]
fn the_composer_shows_its_caret() {
    let mut app = App::new(Config::default(), Layout::new());
    let inner = Rect::new(1, 20, 10, 2);
    let view = draw_composer(&app, inner);
    assert!(view.prompt);
    app.mode = Mode::Insert;
    assert!(!draw_composer(&app, inner).prompt);
}

#[test]
fn the_layout_is_written_now_and_then() {
    let mut app = App::new(Config::default(), Layout::new());
    assert!(!app.tick(1_000, 60_000), "nothing to write");
    app.layout_dirty = true;
    assert!(!app.tick(1_000, 1_999), "too soon");
    assert!(app.tick(1_000, 2_000));
    assert!(!app.tick(1_000, 60_000), "written already");
}

#[test]
fn wrapping_pushes_anchors_down() {
    let anchor = |row| Anchor {
        event_id: "$e".into(),
        row,
    };
    let heights = vec![1, 3, 0, 1];
    let rows: Vec<u16> = move_anchors(&heights, &vec![anchor(0), anchor(1), anchor(2), anchor(3), anchor(9)])
        .iter()
        .map(|a| a.row)
        .collect();
    assert_eq!(rows, vec![0, 1, 4, 5, 6]);

    let far = move_anchors(&vec![65_536, 1], &vec![anchor(1), anchor(2)]);
    assert_eq!((far[0].row, far[1].row), (65_535, 65_535), "it stops at the largest number");
}

#[test]
fn a_mention_is_found_by_its_byte() {
    let mut c = Composer::new();
    c.set_text("né @qu");
    assert_eq!(c.mention_query(), Some((4, "qu")));
    assert_eq!(c.cursor(), 7);
    c.replace_mention(2, "x");
    assert_eq!(c.text(), "né @qu", "a byte inside a character replaces nothing");
    c.replace_mention(9, "x");
    assert_eq!(c.text(), "né @qu", "nor does one behind the caret");
    c.replace_mention(4, "@quintin ");
    assert_eq!(c.text(), "né @quintin ");
    assert_eq!(c.cursor(), c.text().len());
}

#[test]
fn mentions_are_read_by_the_word() {
    assert_eq!(localpart("@bob:example.org"), "bob");
    assert_eq!(mention_words("hi @bob, and @alice.smith!"), vec!["bob", "alice.smith"]);
    assert!(mention_words("mail bob@example.org").is_empty());
    assert_eq!(score("split right", "split"), score("split right", "split"));
    assert!(score("zoom pane", "xyz").is_none());
}
