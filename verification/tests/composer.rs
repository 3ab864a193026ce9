//! Editing, wrapping, history and mentions.

use heddle::app::composer::Composer;

fn caret(c: &Composer) -> (u16, u16) {
    c.wrapped(200).caret
}

fn rows(c: &Composer) -> usize {
    c.wrapped(200).lines.len()
}

fn typed(s: &str) -> Composer {
    let mut c = Composer::new();
    for ch in s.chars() {
        c.insert(ch);
    }
    c
}

#[test]
fn a_mention_arms_at_the_start_of_a_word() {
    assert_eq!(typed("@qu").mention_query(), Some((0, "qu")));
    assert_eq!(typed("hi @qu").mention_query(), Some((3, "qu")));
}

#[test]
fn a_bare_at_offers_everyone() {
    assert_eq!(typed("@").mention_query(), Some((0, "")));
}

#[test]
fn an_email_address_does_not_arm_a_mention() {
    assert_eq!(typed("mail bob@example").mention_query(), None);
    assert_eq!(typed("@bob@example").mention_query(), None);
}

#[test]
fn a_mention_ends_at_a_space() {
    assert_eq!(typed("@bob ").mention_query(), None);
}

#[test]
fn a_mention_does_not_reach_across_a_line_break() {
    let mut c = typed("@bob");
    c.insert_newline();
    assert_eq!(c.mention_query(), None);
}

#[test]
fn a_mention_is_read_from_the_caret_not_the_end() {
    let mut c = typed("@quintin and @wright");
    for _ in 0.." and @wright".len() {
        c.left();
    }
    assert_eq!(c.mention_query(), Some((0, "quintin")));
}

#[test]
fn accepting_a_completion_replaces_only_the_mention() {
    let mut c = typed("hi @qu");
    let (from, _) = c.mention_query().expect("armed");
    c.replace_mention(from, "@quintin ");
    assert_eq!(c.text(), "hi @quintin ");
    c.insert('o');
    assert_eq!(c.text(), "hi @quintin o");
    assert_eq!(c.mention_query(), None);
}

#[test]
fn accepting_a_completion_keeps_what_came_after_the_caret() {
    let mut c = typed("@qu, morning");
    for _ in 0..", morning".len() {
        c.left();
    }
    let (from, _) = c.mention_query().expect("armed");
    c.replace_mention(from, "@quintin");
    assert_eq!(c.text(), "@quintin, morning");
}

#[test]
fn typing_and_sending_round_trips() {
    let mut c = typed("  hello  ");
    assert_eq!(c.take().as_deref(), Some("hello"));
    assert!(c.text().is_empty());
}

#[test]
fn whitespace_alone_sends_nothing() {
    let mut c = typed("   \n  ");
    assert_eq!(c.take(), None);
}

#[test]
fn backspace_deletes_a_grapheme_not_a_char() {
    let mut c = typed("hi \u{1F54A}\u{FE0F}");
    c.backspace();
    assert_eq!(
        c.text(),
        "hi ",
        "one backspace must remove the whole cluster"
    );
}

#[test]
fn the_caret_is_measured_in_display_columns() {
    let c = typed("\u{2705}\u{2705}");
    assert_eq!(caret(&c), (0, 4));
}

#[test]
fn moving_left_and_right_steps_over_clusters() {
    let mut c = typed("a\u{1F54A}\u{FE0F}b");
    c.home();
    c.right();
    c.right();
    assert_eq!(
        caret(&c).1,
        unicode_width::UnicodeWidthStr::width("a\u{1F54A}\u{FE0F}") as u16
    );
    c.left();
    assert_eq!(caret(&c).1, 1);
}

#[test]
fn newlines_grow_the_composer() {
    let mut c = typed("one");
    c.insert_newline();
    for ch in "two".chars() {
        c.insert(ch);
    }
    assert_eq!(rows(&c), 2);
    assert_eq!(caret(&c), (1, 3));
}

#[test]
fn vertical_movement_keeps_the_column_and_reports_the_edges() {
    let mut c = typed("first\nsecond");
    assert_eq!(caret(&c), (1, 6));

    assert!(c.up(), "there is a line above");
    assert_eq!(caret(&c), (0, 5), "clamped to the shorter line");

    assert!(!c.up(), "already on the first line");
    assert!(c.down());
    assert!(!c.down(), "already on the last line");
}

#[test]
fn home_and_end_work_per_line() {
    let mut c = typed("first\nsecond");
    c.home();
    assert_eq!(caret(&c), (1, 0));
    c.end();
    assert_eq!(caret(&c), (1, 6));
}

#[test]
fn deleting_a_word_takes_its_trailing_space() {
    let mut c = typed("one two three");
    c.delete_word();
    assert_eq!(c.text(), "one two ");
    c.delete_word();
    assert_eq!(c.text(), "one ");
}

#[test]
fn deleting_to_line_start_leaves_earlier_lines_alone() {
    let mut c = typed("keep\ndrop this");
    c.delete_to_line_start();
    assert_eq!(c.text(), "keep\n");
}

#[test]
fn history_walks_back_and_returns_the_parked_draft() {
    let mut c = typed("first");
    c.take();
    for ch in "second".chars() {
        c.insert(ch);
    }
    c.take();
    for ch in "draft".chars() {
        c.insert(ch);
    }

    assert!(c.history_prev());
    assert_eq!(c.text(), "second");
    assert!(c.history_prev());
    assert_eq!(c.text(), "first");
    assert!(!c.history_prev(), "nothing older");

    assert!(c.history_next());
    assert_eq!(c.text(), "second");
    assert!(c.history_next());
    assert_eq!(c.text(), "draft", "the parked draft comes back");
}

#[test]
fn editing_a_recalled_message_detaches_it() {
    let mut c = typed("original");
    c.take();
    c.history_prev();
    c.insert('!');
    assert_eq!(c.text(), "original!");
    assert!(!c.history_next());
    assert_eq!(c.text(), "original!");
}

#[test]
fn history_does_not_record_immediate_repeats() {
    let mut c = typed("same");
    c.take();
    for ch in "same".chars() {
        c.insert(ch);
    }
    c.take();
    assert!(c.history_prev());
    assert_eq!(c.text(), "same");
    assert!(!c.history_prev(), "the repeat must not be a second entry");
}

#[test]
fn an_empty_history_is_not_browsable() {
    let mut c = typed("draft");
    assert!(!c.history_prev());
    assert_eq!(c.text(), "draft", "the draft must survive a failed recall");
}

#[test]
fn word_movement_stops_at_line_ends() {
    let mut c = typed("alpha beta gamma");
    c.word_left();
    assert_eq!(c.text()[..c.cursor()].to_owned(), "alpha beta ");
    c.word_left();
    assert_eq!(c.text()[..c.cursor()].to_owned(), "alpha ");
    c.word_left();
    assert_eq!(c.cursor(), 0);
    c.word_left();
    assert_eq!(c.cursor(), 0, "already at the start");

    c.word_right();
    assert_eq!(c.text()[..c.cursor()].to_owned(), "alpha");
    c.word_right();
    assert_eq!(c.text()[..c.cursor()].to_owned(), "alpha beta");
    c.word_right();
    c.word_right();
    assert_eq!(c.cursor(), c.text().len(), "already at the end");
}

#[test]
fn word_movement_does_not_cross_a_newline() {
    let mut c = typed("one two\nthree four");
    c.home();
    assert_eq!(caret(&c), (1, 0));
    c.word_left();
    assert_eq!(caret(&c), (1, 0), "must not jump up to the previous line");

    c.end();
    c.word_right();
    assert_eq!(caret(&c).0, 1, "must not fall through to the next line");
}

#[test]
fn wrapping_breaks_at_spaces() {
    let c = typed("the quick brown fox");
    let w = c.wrapped(10);
    assert_eq!(w.lines, vec!["the quick ", "brown fox"]);
}

#[test]
fn a_word_longer_than_the_pane_is_broken_rather_than_hidden() {
    let c = typed("supercalifragilistic");
    let w = c.wrapped(8);
    assert_eq!(w.lines, vec!["supercal", "ifragili", "stic"]);
}

#[test]
fn wrapping_keeps_hard_line_breaks() {
    let c = typed("short\nalso short");
    let w = c.wrapped(40);
    assert_eq!(w.lines, vec!["short", "also short"]);
}

#[test]
fn a_blank_line_still_occupies_a_row() {
    let c = typed("a\n\nb");
    let w = c.wrapped(10);
    assert_eq!(w.lines, vec!["a", "", "b"]);
}

#[test]
fn the_caret_follows_the_text_across_a_soft_break() {
    let mut c = typed("the quick brown fox");
    assert_eq!(c.wrapped(10).caret, (1, 9));

    c.home();
    assert_eq!(c.wrapped(10).caret, (0, 0), "home goes to the logical line");
    for _ in 0..10 {
        c.right();
    }
    assert_eq!(c.wrapped(10).caret, (1, 0));
}

#[test]
fn the_caret_accounts_for_wide_glyphs_when_wrapped() {
    let c = typed("\u{2705}\u{2705}\u{2705}");
    let w = c.wrapped(5);
    assert_eq!(w.lines.len(), 2);
    assert_eq!(w.caret, (1, 2), "column is cells, not characters");
}

#[test]
fn wrapping_a_trailing_newline_leaves_an_empty_last_row() {
    let mut c = typed("done");
    c.insert_newline();
    let w = c.wrapped(10);
    assert_eq!(w.lines, vec!["done", ""]);
    assert_eq!(w.caret, (1, 0));
}

#[test]
fn left_and_delete_is_backspace() {
    for text in [
        "abc",
        "a👨\u{200d}👩\u{200d}👧b",
        "🇩🇪🇫🇷🇮🇹",
        "e\u{301}o\u{308}",
        "line\nnext\r\n",
        "각\u{11a8}",
    ] {
        let mut steps = 0;
        loop {
            let mut one = typed(text);
            let mut other = typed(text);
            for _ in 0..steps {
                one.left();
                other.left();
            }
            if one.cursor() == 0 {
                break;
            }
            one.backspace();
            other.left();
            other.delete();
            assert_eq!(one.text(), other.text());
            assert_eq!(one.cursor(), other.cursor());
            steps += 1;
        }
    }
}

#[test]
fn the_history_keeps_the_last_hundred_messages() {
    let mut c = Composer::new();
    for i in 0..150 {
        for ch in format!("message {i}").chars() {
            c.insert(ch);
        }
        let _ = c.take();
    }
    for _ in 0..150 {
        c.history_prev();
    }
    assert_eq!(c.text(), "message 50");
}

#[test]
fn wrapping_loses_nothing() {
    for text in ["", "\n", "a b c\n\nlonger words here", "👨\u{200d}👩\u{200d}👧 family\n", "日本語 text"] {
        let mut c = typed(text);
        for width in [0, 1, 2, 3, 7, 200] {
            loop {
                let w = c.wrapped(width);
                assert_eq!(w.lines.concat(), text.replace('\n', ""));
                assert!(usize::from(w.caret.0) < w.lines.len());
                if c.cursor() == 0 {
                    break;
                }
                c.left();
            }
        }
    }
}
