//! What is promised of what is drawn, and where.

use vstd::prelude::*;

use crate::agent::store::AgentState;
use crate::app::bars::{
    all_hints, composer_view, cursor_at, emoji_lines, emoji_span, first_shown, help_line, help_lines, help_place,
    hint_spans, hint_table, hint_width, left_width, row_texts, rows_at, status_left, status_line, tab_cells,
    workspace_cells,
};
use crate::app::composer::{caret_in, line_end, placed_rows, rows_of, text_rows, Row};
use crate::app::emoji;
use crate::app::glyphs::{LOCK, SELECTED_MARK};
use crate::app::graphemes::{cells, display_width, graphemes};
use crate::app::keymap::{Mode, Prefix};
use crate::app::screen::{
    badge_for, cell, centre, columns, composer_rows, first_line, frame_at, height_for, hints_shown, inside,
    left_of_status, line_width, most, moved_anchor, padded, placements_of, row_behind, strip_end, strip_hits,
    sync_words, tab_label, taken_by, thread_rows, threads_place, title_for, verification_panel, widest, within,
    PanelModel, SpanModel, TAB_SEPARATOR,
};
use crate::app::state::{AnchorModel, AppModel, PendingModel, ThreadPickerModel};
use crate::layout::model::{with_id, TabModel, WorkspaceModel};
use crate::layout::tiling::{rect_of, Placement, Rect, TilingModel};
use crate::matrix::model::{SyncState, VerificationModel, ViewModel};
use crate::seqs::{first_where, lemma_first_where};
use crate::text::decimal;

verus! {

// -------------------------------------------------------------------------- places

/// A size is kept between its bounds, and left alone within them.
pub proof fn law_sizes_are_kept_in_bounds(n: int, floor: int, limit: int)
    requires
        floor <= limit,
    ensures
        floor <= within(n, floor, limit) <= limit,
        floor <= n <= limit ==> within(n, floor, limit) == n,
        n < floor ==> within(n, floor, limit) == floor,
        n > limit ==> within(n, floor, limit) == limit,
{
}

/// What is centred leaves as much free on one side as on the other, but for one cell at most.
pub proof fn law_the_centre_is_in_the_middle(area: Rect, width: u16, height: u16)
    requires
        area.x + area.width <= u16::MAX,
        area.y + area.height <= u16::MAX,
        width <= area.width,
        height <= area.height,
    ensures
        ({
            let r = centre(area, width, height);
            let left = r.x - area.x;
            let right = (area.x + area.width) - (r.x + r.width);
            let above = r.y - area.y;
            let below = (area.y + area.height) - (r.y + r.height);
            &&& r.width == width
            &&& r.height == height
            &&& left == right || left + 1 == right
            &&& above == below || above + 1 == below
            &&& left >= 0
            &&& above >= 0
        }),
{
}

/// The transcript is shown from its end, scrolled back by as many lines, and no further than its
/// beginning.
pub proof fn law_the_end_is_shown_first(total: u16, height: u16, scroll: u16)
    ensures
        total <= height ==> first_line(total, height, scroll) == 0,
        total > height && scroll <= total - height ==> first_line(total, height, scroll) + height + scroll == total,
        total > height && scroll > total - height ==> first_line(total, height, scroll) == 0,
{
}

/// Lines that wrap push those behind them down, each by the rows that it takes, one at least.
pub proof fn law_wrapped_lines_push_down(heights: Seq<usize>, rows: usize, anchor: AnchorModel)
    ensures
        row_behind(Seq::empty()) == 0,
        rows == 0 ==> taken_by(rows) == 1,
        0 < rows <= u16::MAX ==> taken_by(rows) == rows,
        row_behind(heights) + taken_by(rows) <= u16::MAX ==> row_behind(heights.push(rows)) == row_behind(heights)
            + taken_by(rows),
        anchor.row <= heights.len() ==> moved_anchor(heights, anchor).row == row_behind(heights.take(anchor.row as int)),
        moved_anchor(heights, anchor).event_id == anchor.event_id,
{
    assert(heights.push(rows).drop_last() =~= heights);
    if anchor.row == heights.len() {
        assert(heights.take(anchor.row as int) =~= heights);
    }
}

/// A zoomed pane has the whole area to itself.
pub proof fn law_a_zoomed_pane_has_the_area(t: TilingModel, area: Rect, r: Seq<Placement>)
    requires
        placements_of(t, area, r),
    ensures
        t.zoomed is Some && rect_of(t.rects, (t.zoomed->0).0) is Some ==> r.len() == 1 && r[0].id == t.zoomed->0
            && r[0].rect == area && r[0].is_focused,
        t.zoomed is None ==> r.len() == t.rects.len() && forall|i: int|
            0 <= i < r.len() ==> (#[trigger] r[i]).id.0 == t.rects[i].0 && r[i].rect == t.rects[i].1,
{
}

/// A frame shows the pane that has its place: its header, its state, its view and how far that is
/// scrolled; the selection is shown in the focused frame.
pub proof fn law_a_frame_shows_its_pane(app: AppModel, placement: Placement, tab: TabModel, i: int)
    requires
        app.focused_tab() == Some(tab),
        0 <= i < tab.panes.len(),
        tab.panes[i].id == placement.id,
        forall|j: int| 0 <= j < i ==> (#[trigger] tab.panes[j]).id != placement.id,
    ensures
        ({
            let f = frame_at(app, placement);
            let pane = tab.panes[i];
            &&& f.placement == placement
            &&& f.header == pane.header()
            &&& f.state == pane.state
            &&& f.view is Some
            &&& f.view->0.room_id == pane.kind.room_id()
            &&& f.view->0.thread_root == pane.kind.thread_root()
            &&& app.scroll.contains_key(f.view->0) ==> f.scroll == app.scroll[f.view->0]
            &&& !app.scroll.contains_key(f.view->0) ==> f.scroll == 0
            &&& placement.is_focused ==> f.selected == app.selected_event()
            &&& !placement.is_focused ==> f.selected is None
        }),
{
    let test = with_id(placement.id);
    lemma_first_where(tab.panes, test);
    assert(test(tab.panes[i]));
    let k = first_where(tab.panes, test)->0;
    if k < i {
        assert(test(tab.panes[k]));
    }
    if i < k {
        assert(!test(tab.panes[i]));
    }
}

// -------------------------------------------------------------------------- panels

/// A line is as wide as its pieces together, and the widest of lines is none narrower than any.
pub proof fn law_lines_are_measured(line: Seq<SpanModel>, piece: SpanModel, lines: Seq<Seq<SpanModel>>, i: int)
    ensures
        line_width(Seq::empty()) == 0,
        line_width(line) + display_width(piece.text) <= usize::MAX ==> line_width(line.push(piece)) == line_width(line)
            + display_width(piece.text),
        0 <= i < lines.len() ==> line_width(lines[i]) <= widest(lines),
        lines.len() > 0 && widest(lines) > 0 ==> exists|k: int|
            0 <= k < lines.len() && line_width(#[trigger] lines[k]) == widest(lines),
{
    assert(line.push(piece).drop_last() =~= line);
    lemma_widest(lines);
}

proof fn lemma_widest(lines: Seq<Seq<SpanModel>>)
    ensures
        forall|i: int| 0 <= i < lines.len() ==> line_width(#[trigger] lines[i]) <= widest(lines),
        widest(lines) > 0 ==> exists|k: int| 0 <= k < lines.len() && line_width(#[trigger] lines[k]) == widest(lines),
    decreases lines.len(),
{
    if lines.len() > 0 {
        let rest = lines.drop_last();
        let n = lines.len() - 1;
        lemma_widest(rest);
        assert forall|i: int| 0 <= i < lines.len() implies line_width(#[trigger] lines[i]) <= widest(lines) by {
            if i < n {
                assert(rest[i] == lines[i]);
            }
        }
        if widest(lines) > 0 {
            if line_width(lines[n]) > widest(rest) {
                assert(line_width(lines[n]) == widest(lines));
            } else {
                let k = choose|k: int| 0 <= k < rest.len() && line_width(#[trigger] rest[k]) == widest(rest);
                assert(lines[k] == rest[k]);
            }
        }
    }
}

/// A panel is as large as its lines need, with its frame, as far as there is room.
pub proof fn law_a_panel_is_as_large_as_its_lines(panel: PanelModel, area: Rect)
    requires
        24 <= widest(panel.lines) + 4 <= area.width,
        panel.lines.len() + 2 <= area.height,
    ensures
        panel.size(area).0 == widest(panel.lines) + 4,
        panel.size(area).1 == panel.lines.len() + 2,
{
}

/// The symbols to compare are all shown, in their order, each with its name; nothing is shown of a
/// verification that is over.
pub proof fn law_the_symbols_are_shown_in_order(state: VerificationModel, i: int)
    ensures
        verification_panel(state) is None <==> state is Done || state is Cancelled,
        state is Compare && 0 <= i < state->Compare_emoji.len() ==> {
            let line = verification_panel(state)->0.lines[2 + i];
            &&& line.len() == 3
            &&& line[0].text == " "@ + state->Compare_emoji[i].0 + " "@
            &&& line[2].text == state->Compare_emoji[i].1
        },
        state is Compare ==> verification_panel(state)->0.lines.len() == state->Compare_emoji.len() + 4,
{
}

/// Padding makes a text long enough by blanks behind it.
pub proof fn law_padding_is_blank(text: Seq<char>, to: nat, i: int)
    ensures
        padded(text, to).len() == if text.len() < to {
            to
        } else {
            text.len()
        },
        0 <= i < text.len() ==> padded(text, to)[i] == text[i],
        text.len() <= i < padded(text, to).len() ==> padded(text, to)[i] == ' ',
{
}

/// Every thread has its row, in order: who began it and how; the chosen one is marked.
pub proof fn law_every_thread_has_its_row(picker: ThreadPickerModel, i: int)
    requires
        !picker.loading,
        0 <= i < picker.threads.len(),
    ensures
        thread_rows(picker).len() == picker.threads.len(),
        thread_rows(picker)[i].len() == 3,
        thread_rows(picker)[i][2].text == picker.threads[i].preview,
        thread_rows(picker)[i][1].text == padded(picker.threads[i].sender_display, 12),
        i == picker.selected ==> thread_rows(picker)[i][0].text == SELECTED_MARK@,
        i != picker.selected ==> thread_rows(picker)[i][0].text == " "@,
{
}

/// What is waited for, or is not there, is told in one row.
pub proof fn law_a_list_without_threads_says_so(picker: ThreadPickerModel)
    requires
        picker.loading || picker.threads.len() == 0,
    ensures
        thread_rows(picker).len() == 1,
        thread_rows(picker)[0].len() == 1,
        picker.loading ==> thread_rows(picker)[0][0].text == " listing threads…"@,
        !picker.loading ==> thread_rows(picker)[0][0].text == " no threads in this room"@,
{
}

/// The emoji on show are a run of rows that holds the highlighted one, from the first on where they
/// all fit.
pub proof fn law_the_highlighted_emoji_is_on_show(matches: nat, selected: usize)
    requires
        selected < matches,
    ensures
        ({
            let (from, to) = emoji_span(matches, selected);
            &&& 0 <= from <= selected < to <= matches
            &&& to - from <= 12
            &&& matches <= 12 ==> from == 0 && to == matches
            &&& matches > 12 ==> to - from == 12
        }),
{
}

/// Each row shows its emoji and what it is called, and the highlighted one is marked.
pub proof fn law_each_emoji_has_its_row(picker: emoji::PickerModel, k: int)
    requires
        picker.matches.len() > 0,
        picker.selected < picker.matches.len(),
        emoji_span(picker.matches.len(), picker.selected).0 <= k < emoji_span(picker.matches.len(), picker.selected).1,
    ensures
        ({
            let row = emoji_lines(picker)[1 + k - emoji_span(picker.matches.len(), picker.selected).0];
            &&& row.len() == 3
            &&& row[1].text == picker.matches[k].text + "  "@
            &&& row[2].text == picker.matches[k].name
            &&& k == picker.selected ==> row[0].text == SELECTED_MARK@
            &&& k != picker.selected ==> row[0].text == " "@
        }),
        emoji_lines(picker)[0][1].text == picker.query,
{
}

// -------------------------------------------------------------------------- bars

/// A tab's label is its title, with a lock where it is encrypted and with what is unread.
pub proof fn law_a_label_tells_of_its_tab(tab: TabModel)
    ensures
        !tab.is_encrypted && tab.unread.badge() is None ==> tab_label(tab) =~= tab.title,
        tab.is_encrypted && tab.unread.badge() is None ==> tab_label(tab) =~= tab.title + " "@ + LOCK@,
        !tab.is_encrypted && tab.unread.badge() is Some ==> tab_label(tab) =~= tab.title + " "@
            + tab.unread.badge()->0,
        tab.is_encrypted && tab.unread.badge() is Some ==> tab_label(tab) =~= tab.title + " "@ + LOCK@ + " "@
            + tab.unread.badge()->0,
{
    reveal_strlit("");
}

/// A cell holds its label between blanks, and is never narrower than ten columns.
pub proof fn law_a_cell_holds_its_label(label: Seq<char>, i: int)
    ensures
        cell(label).len() >= label.len() + 2,
        cell(label)[0] == ' ',
        cell(label).last() == ' ',
        0 <= i < label.len() ==> cell(label)[1 + i] == label[i],
        display_width(label) >= 10 ==> cell(label).len() == label.len() + 2,
        display_width(label) < 10 ==> cell(label).len() == label.len() + 2 + (10 - display_width(label)),
{
    reveal_strlit(" ");
}

/// The cells of a strip stand one behind another, each behind a separator and as wide as it is
/// drawn, and each leads to what it is the cell of.
pub proof fn law_cells_stand_in_a_row(labels: Seq<Seq<char>>, origin: u16, i: int)
    requires
        0 <= i < labels.len() <= usize::MAX,
        strip_end(labels.take(i), origin) + columns(TAB_SEPARATOR@) + columns(cell(labels[i])) <= u16::MAX,
    ensures
        strip_hits(labels, origin).len() == labels.len(),
        strip_hits(labels, origin)[i].index == i,
        strip_hits(labels, origin)[i].x1 - strip_hits(labels, origin)[i].x0 == columns(cell(labels[i])),
        strip_hits(labels, origin)[i].x0 == strip_end(labels.take(i), origin) + columns(TAB_SEPARATOR@),
        i == 0 ==> strip_hits(labels, origin)[i].x0 == origin + columns(TAB_SEPARATOR@),
        i + 1 < labels.len() ==> strip_hits(labels, origin)[i + 1].x0 >= strip_hits(labels, origin)[i].x1,
{
    assert(labels.take(i + 1).drop_last() =~= labels.take(i));
}

/// Each workspace has its cell: its title and its state; the one that has the focus is marked.
pub proof fn law_each_workspace_has_its_cell(app: AppModel, i: int)
    requires
        0 <= i < app.workspaces.items.len(),
        app.workspaces.focused < app.workspaces.items.len(),
    ensures
        workspace_cells(app).len() == app.workspaces.items.len(),
        workspace_cells(app)[i].text == cell(app.workspaces.items[i].title),
        workspace_cells(app)[i].state == app.workspaces.items[i].state(),
        workspace_cells(app)[i].focused <==> app.workspaces.items[i].id
            == app.workspaces.items[app.workspaces.focused as int].id,
{
}

/// Each tab has its cell: its label and its state; the one that has the focus is marked.
pub proof fn law_each_tab_has_its_cell(w: WorkspaceModel, i: int)
    requires
        0 <= i < w.tabs.len(),
        w.focused < w.tabs.len(),
    ensures
        tab_cells(w).len() == w.tabs.len(),
        tab_cells(w)[i].text == cell(tab_label(w.tabs[i])),
        tab_cells(w)[i].state == w.tabs[i].state(),
        tab_cells(w)[i].focused <==> w.tabs[i].room_id == w.tabs[w.focused as int].room_id,
{
}

/// Each state of the connection has a sign of its own; where nothing comes any more, it is told in
/// words.
pub proof fn law_the_connection_has_its_sign(a: SyncState, b: SyncState)
    ensures
        sync_words(a).0 == sync_words(b).0 ==> a == b,
        sync_words(a).1 is Some <==> a is Offline || a is Terminated,
        sync_words(SyncState::Offline).1 == Some("offline"@),
        sync_words(SyncState::Terminated).1 == Some("stopped"@),
        sync_words(SyncState::Running).0 == "●"@,
        sync_words(SyncState::Initial).0 == "◐"@,
        sync_words(SyncState::Idle).0 == "○"@,
{
    reveal_strlit("●");
    reveal_strlit("◐");
    reveal_strlit("○");
    reveal_strlit("⚠");
    reveal_strlit("✖");
    assert("●"@[0] == '●' && "◐"@[0] == '◐' && "○"@[0] == '○' && "⚠"@[0] == '⚠' && "✖"@[0] == '✖');
}

/// The status line begins with the sign of the connection and ends with what there is to say.
pub proof fn law_the_status_is_on_show(sync: SyncState, status: Option<Seq<char>>)
    ensures
        status_left(sync, status).len() > 0,
        status_left(sync, status)[0].text == " "@ + sync_words(sync).0 + " "@,
        status is Some ==> status_left(sync, status).last().text == status->0,
        status is None && sync_words(sync).1 is Some ==> status_left(sync, status).last().text == sync_words(sync).1->0,
        status is None && sync_words(sync).1 is None ==> status_left(sync, status).len() == 1,
{
}

/// The widest of some widths is one of them, and none is wider.
pub proof fn law_the_widest_is_one_of_them(widths: Seq<usize>, i: int)
    ensures
        0 <= i < widths.len() ==> widths[i] <= most(widths),
        widths.len() > 0 ==> widths.contains(most(widths)),
    decreases widths.len(),
{
    if widths.len() > 0 {
        let rest = widths.drop_last();
        law_the_widest_is_one_of_them(rest, i);
        assert(widths[widths.len() - 1] == widths.last());
        if rest.len() > 0 {
            let k = rest.index_of(most(rest));
            assert(widths[k] == most(rest));
        } else {
            assert(most(rest) == 0);
        }
    }
}

// -------------------------------------------------------------------------- the composer

/// The caret's row is on show, and the first rows are where they all fit.
pub proof fn law_the_carets_row_is_on_show(caret_row: u16, height: u16)
    requires
        height > 0,
    ensures
        first_shown(caret_row, height) <= caret_row < first_shown(caret_row, height) + height,
        caret_row < height ==> first_shown(caret_row, height) == 0,
        first_shown(caret_row, height) > 0 ==> first_shown(caret_row, height) + height == caret_row + 1,
{
}

/// The caret is drawn at its row and column, and not at all where that is outside.
pub proof fn law_the_caret_is_drawn_inside(inner: Rect, caret: (u16, u16), first: int)
    requires
        inner.x + inner.width <= u16::MAX,
        inner.y + inner.height <= u16::MAX,
        0 <= first <= caret.0,
    ensures
        cursor_at(inner, caret, first) is Some <==> caret.1 < inner.width && caret.0 - first < inner.height,
        cursor_at(inner, caret, first) is Some ==> (cursor_at(inner, caret, first)->0).0 == inner.x + caret.1 && (
        cursor_at(inner, caret, first)->0).1 == inner.y + caret.0 - first,
{
}

/// An empty composer that is not being written in invites; one that is shows its text, and its
/// caret while it is being written in.
pub proof fn law_the_composer_shows_its_text(app: AppModel, view: ViewModel, inner: Rect)
    requires
        app.focused_view() == Some(view),
        app.composers.contains_key(view),
    ensures
        ({
            let shown = composer_view(app, inner);
            let c = app.composers[view];
            let rows = rows_at(c.text, inner.width);
            let caret = caret_in(rows, c.text, c.cursor);
            let first = first_shown(caret.0, inner.height);
            &&& shown.prompt <==> c.text.len() == 0 && !(app.mode is Insert)
            &&& !(app.mode is Insert) ==> shown.cursor is None
            &&& app.mode is Insert ==> shown.cursor == cursor_at(inner, caret, first)
            &&& !shown.prompt ==> shown.lines == row_texts(c.text, rows, first)
        }),
{
}

/// The rows on show are the text between their ends.
pub proof fn law_rows_show_the_text(text: Seq<char>, rows: Seq<Row>, first: int, i: int)
    requires
        0 <= first <= i < rows.len(),
    ensures
        row_texts(text, rows, first).len() == rows.len() - first,
        row_texts(text, rows, first)[i - first] == text.subrange(rows[i].start as int, rows[i].end as int),
{
}

/// A hint shows its keys and what they do, at the end of its cell.
pub proof fn law_a_hint_is_at_the_end_of_its_cell(hint: (Seq<char>, Seq<char>), cell: usize)
    requires
        display_width(hint.0) + 1 + display_width(hint.1) <= cell,
    ensures
        hint_spans(hint, cell).len() == 4,
        hint_spans(hint, cell)[1].text == hint.0,
        hint_spans(hint, cell)[2].text == " "@,
        hint_spans(hint, cell)[3].text == hint.1,
        hint_spans(hint, cell)[0].text.len() == cell - (display_width(hint.0) + 1 + display_width(hint.1)),
        forall|i: int| 0 <= i < hint_spans(hint, cell)[0].text.len() ==> #[trigger] hint_spans(hint, cell)[0].text[i] == ' ',
{
}

/// Hints stand one behind another, in their order.
pub proof fn law_hints_stand_in_order(hints: Seq<(Seq<char>, Seq<char>)>, hint: (Seq<char>, Seq<char>), cell: usize)
    ensures
        all_hints(Seq::empty(), cell).len() == 0,
        all_hints(hints.push(hint), cell) == all_hints(hints, cell) + hint_spans(hint, cell),
{
    assert(hints.push(hint).drop_last() =~= hints);
}

/// The status line has its left side, and as many of the hints as fit beside it, the first ones.
pub proof fn law_hints_fit_beside_the_status(
    sync: SyncState,
    status: Option<Seq<char>>,
    hints: Seq<(Seq<char>, Seq<char>)>,
    width: u16,
)
    ensures
        ({
            let line = status_line(sync, status, hints, width);
            let widths = hints.map_values(|h: (Seq<char>, Seq<char>)| hint_width(h));
            let n = hints_shown(widths, width, left_width(sync, status)) as int;
            &&& line.left == status_left(sync, status)
            &&& n == 0 ==> line.hints == all_hints(hints.take(0), 0) && line.width == 0
            &&& n > 0 && most(widths.take(n)) + 3 <= usize::MAX && (most(widths.take(n)) + 3) * n <= usize::MAX
                ==> line.width == (most(widths.take(n)) + 3) * n && line.hints == all_hints(
                hints.take(n),
                (most(widths.take(n)) + 3) as usize,
            )
        }),
{
}

/// The hints name the keys for writing, for the commands, for the help and for leaving.
pub proof fn law_the_hints_name_their_keys(prefix: Prefix)
    ensures
        hint_table(prefix).len() == 4,
        hint_table(prefix)[0] == ("i"@, "write"@),
        hint_table(prefix)[1] == (":"@, "commands"@),
        hint_table(prefix)[2] == (prefix.written() + " ?"@, "keys"@),
        hint_table(prefix)[3] == (prefix.written() + " q"@, "quit"@),
{
}

/// A line of the help shows the keys, lined up at their ends, and what they do.
pub proof fn law_a_line_of_the_help(row: (Seq<char>, Seq<char>), key_width: usize)
    requires
        display_width(row.0) <= key_width,
    ensures
        help_line(row, key_width).len() == 4,
        help_line(row, key_width)[0].text.len() == 1 + key_width - display_width(row.0),
        help_line(row, key_width)[1].text == row.0,
        help_line(row, key_width)[3].text == row.1,
{
}

/// Every row of the help has its line, in order.
pub proof fn law_every_row_of_the_help_has_its_line(rows: Seq<(Seq<char>, Seq<char>)>, i: int)
    requires
        0 <= i < rows.len(),
    ensures
        help_lines(rows).len() == rows.len(),
        help_lines(rows)[i].len() == 4,
        help_lines(rows)[i][1].text == rows[i].0,
        help_lines(rows)[i][3].text == rows[i].1,
{
}

/// The help is no larger than the screen, and is not shown where it would be too small to read.
pub proof fn law_the_help_fits_the_screen(rows: Seq<(Seq<char>, Seq<char>)>, area: Rect)
    ensures
        area.width < 8 || area.height < 4 ==> help_place(rows, area) is None,
        help_place(rows, area) is Some ==> 8 <= help_place(rows, area)->0.width <= area.width && 4 <= help_place(
            rows,
            area,
        )->0.height <= area.height,
        help_place(rows, area) is Some && rows.len() + 2 < area.height ==> help_place(rows, area)->0.height == rows.len()
            + 2,
{
}

/// The picker of threads takes three quarters of the width and a row for each thread, within what is
/// there.
pub proof fn law_the_thread_picker_fits_the_screen(area: Rect, threads: nat)
    requires
        area.width >= 27,
        area.height >= 20,
    ensures
        threads_place(area, threads).width == area.width as int * 3 / 4,
        2 <= threads <= 18 ==> threads_place(area, threads).height == threads + 2,
        threads < 2 ==> threads_place(area, threads).height == 4,
        threads > 18 ==> threads_place(area, threads).height == 20,
{
}

/// The rows of a text are those of its first line, and then those of the rest.
pub proof fn law_the_rows_of_a_text_go_by_its_lines(text: Seq<char>, base: int, width: nat)
    requires
        0 <= base <= text.len(),
    ensures
        ({
            let end = line_end(text, base);
            let line = text.subrange(base, end);
            let first = placed_rows(rows_of(graphemes(line), line, width, cells()), base);
            &&& end == text.len() ==> text_rows(text, base, width) == first
            &&& end < text.len() ==> text_rows(text, base, width) == first + text_rows(text, end + 1, width)
        }),
{
    crate::app::caret::law_a_line_ends_at_a_break(text, base);
}

// -------------------------------------------------------------------------- frames and titles

/// A frame takes a cell on every side.
pub proof fn law_a_frame_takes_a_cell_on_every_side(rect: Rect)
    requires
        rect.width >= 2,
        rect.height >= 2,
        rect.x + rect.width <= u16::MAX,
        rect.y + rect.height <= u16::MAX,
    ensures
        inside(rect).x == rect.x + 1,
        inside(rect).y == rect.y + 1,
        inside(rect).x + inside(rect).width + 1 == rect.x + rect.width,
        inside(rect).y + inside(rect).height + 1 == rect.y + rect.height,
{
}

/// The composer is as high as its rows, one at least and eight at most, and its frame.
pub proof fn law_the_composer_grows_with_its_text(text: Seq<char>, width: u16)
    requires
        width >= 2,
    ensures
        height_for(None, width) == 3,
        composer_rows(text, (width - 2) as u16) <= 1 ==> height_for(Some(text), width) == 3,
        1 <= composer_rows(text, (width - 2) as u16) <= 8 ==> height_for(Some(text), width) == composer_rows(
            text,
            (width - 2) as u16,
        ) + 2,
        composer_rows(text, (width - 2) as u16) > 8 ==> height_for(Some(text), width) == 10,
{
}

/// The bar tells how many wait or are done, and of no others.
pub proof fn law_the_bar_tells_who_waits(state: AgentState, count: usize)
    ensures
        badge_for(state, count) is Some <==> count > 0 && (state is Blocked || state is Done),
        badge_for(state, count) is Some ==> badge_for(state, count)->0 == " "@ + state.spec_glyph() + " "@ + decimal(
            count as nat,
        ) + " "@,
{
}

/// The composer's title says what is being written, or else in which mode the keys are.
pub proof fn law_the_composer_says_what_it_is_for(composing: Option<PendingModel>, mode: Mode)
    ensures
        composing is Some && composing->0 is Reply ==> title_for(composing, mode) == "reply"@,
        composing is Some && composing->0 is Edit ==> title_for(composing, mode) == "edit"@,
        composing is None && mode is Insert ==> title_for(composing, mode) == "insert"@,
        composing is None && mode is Normal ==> title_for(composing, mode) == "normal"@,
        composing is None && mode is Prefix ==> title_for(composing, mode) == "prefix"@,
{
}

/// The left side of the status line takes the cells of what it shows.
pub proof fn law_the_left_side_takes_what_it_shows(sync: SyncState, text: Seq<char>)
    ensures
        left_of_status(sync, Some(text)) == left_of_status(sync, None) + 2 + display_width(text),
        sync_words(sync).1 is None ==> left_of_status(sync, None) == 3,
        sync_words(sync).1 is Some ==> left_of_status(sync, None) == 3 + display_width(sync_words(sync).1->0),
{
}

} // verus!
