//! The bars, the composer and the lists: what stands in each of them.

use vstd::prelude::*;
use vstd::string::*;

use crate::agent::store::AgentState;
use crate::app::composer::{caret_in, text_rows, Composer, Row};
use crate::app::emoji;
use crate::app::emoji::{Emoji, EmojiModel};
use crate::app::glyphs::{SEARCH_CARET, SELECTED_MARK};
use crate::app::graphemes::{display_width, text_width};
use crate::app::keymap::{Mode, Prefix};

use crate::app::screen::{
    centre, centred, columns, emoji_rows, emoji_window, fit_hints, hints_shown, label_tab, left_of_status, most,
    set_in, status_width, strip_end, strip_hits, sync_mark, sync_words, tab_label, tab_strip, cell, Span, SpanModel,
    Tone, HINT_GAP, TAB_SEPARATOR,
};
use crate::app::state::{App, AppModel, BarHitsModel, Hit};
use crate::layout::model::{Tab, TabModel, Workspace, WorkspaceModel};
use crate::layout::tiling::{capped, Rect};
use crate::matrix::model::SyncState;
use crate::text::same;

verus! {

/// A cell of a bar.
#[derive(Debug, PartialEq, Eq)]
pub struct BarCell {
    pub text: String,
    pub state: AgentState,
    pub focused: bool,
}

/// The mathematical content of a [`BarCell`].
#[verifier::ext_equal]
pub struct BarCellModel {
    pub text: Seq<char>,
    pub state: AgentState,
    pub focused: bool,
}

impl View for BarCell {
    type V = BarCellModel;

    open spec fn view(&self) -> BarCellModel {
        BarCellModel {
            text: self.text@,
            state: self.state,
            focused: self.focused,
        }
    }
}

impl DeepView for BarCell {
    type V = BarCellModel;

    open spec fn deep_view(&self) -> BarCellModel {
        self@
    }
}

/// The status bar: what stands on the left, and the key hints flush right.
#[derive(Debug, PartialEq, Eq)]
pub struct StatusLine {
    pub left: Vec<Span>,
    pub hints: Vec<Span>,
    /// How wide the hints are.
    pub width: usize,
}

/// The mathematical content of a [`StatusLine`].
#[verifier::ext_equal]
pub struct StatusLineModel {
    pub left: Seq<SpanModel>,
    pub hints: Seq<SpanModel>,
    pub width: usize,
}

impl View for StatusLine {
    type V = StatusLineModel;

    open spec fn view(&self) -> StatusLineModel {
        StatusLineModel {
            left: self.left.deep_view(),
            hints: self.hints.deep_view(),
            width: self.width,
        }
    }
}

impl DeepView for StatusLine {
    type V = StatusLineModel;

    open spec fn deep_view(&self) -> StatusLineModel {
        self@
    }
}

/// What the composer shows.
#[derive(Debug, PartialEq, Eq)]
pub struct ComposerView {
    /// Whether an invitation to write is shown in place of a text.
    pub prompt: bool,
    pub lines: Vec<String>,
    /// Where the cursor stands, if it is on the screen.
    pub cursor: Option<(u16, u16)>,
}

/// The mathematical content of a [`ComposerView`].
#[verifier::ext_equal]
pub struct ComposerViewModel {
    pub prompt: bool,
    pub lines: Seq<Seq<char>>,
    pub cursor: Option<(u16, u16)>,
}

impl View for ComposerView {
    type V = ComposerViewModel;

    open spec fn view(&self) -> ComposerViewModel {
        ComposerViewModel {
            prompt: self.prompt,
            lines: self.lines.deep_view(),
            cursor: self.cursor,
        }
    }
}

impl DeepView for ComposerView {
    type V = ComposerViewModel;

    open spec fn deep_view(&self) -> ComposerViewModel {
        self@
    }
}

// ------------------------------------------------------------------------------- bars

/// The cells of the workspace bar.
pub open spec fn workspace_cells(app: AppModel) -> Seq<BarCellModel> {
    app.workspaces.items.map_values(
        |w: WorkspaceModel|
            BarCellModel {
                text: cell(w.title),
                state: w.state(),
                focused: match app.workspaces.focused() {
                    Some(f) => f.id == w.id,
                    None => false,
                },
            },
    )
}

/// The titles of the workspaces.
pub open spec fn workspace_titles(app: AppModel) -> Seq<Seq<char>> {
    app.workspaces.items.map_values(|w: WorkspaceModel| w.title)
}

/// The cells of the tab bar of a workspace.
pub open spec fn tab_cells(w: WorkspaceModel) -> Seq<BarCellModel> {
    w.tabs.map_values(
        |t: TabModel|
            BarCellModel {
                text: cell(tab_label(t)),
                state: t.state(),
                focused: match w.focused_tab() {
                    Some(f) => f.room_id == t.room_id,
                    None => false,
                },
            },
    )
}

/// The labels of the tabs of a workspace.
pub open spec fn tab_labels(w: WorkspaceModel) -> Seq<Seq<char>> {
    w.tabs.map_values(|t: TabModel| tab_label(t))
}

fn titles_of(items: &Vec<Workspace>) -> (r: Vec<String>)
    ensures
        r.deep_view() == items.deep_view().map_values(|w: WorkspaceModel| w.title),
{
    let ghost all = items.deep_view().map_values(|w: WorkspaceModel| w.title);
    let mut out: Vec<String> = Vec::new();
    let mut i: usize = 0;
    while i < items.len()
        invariant
            i <= items.len(),
            all == items.deep_view().map_values(|w: WorkspaceModel| w.title),
            out.deep_view() == all.take(i as int),
        decreases items.len() - i,
    {
        let ghost so_far = out.deep_view();
        out.push(items[i].title.clone());
        assert(out.deep_view() =~= so_far.push(all[i as int]));
        assert(all.take(i + 1) =~= so_far.push(all[i as int]));
        i += 1;
    }
    assert(all.take(all.len() as int) =~= all);
    out
}

fn labels_of(tabs: &Vec<Tab>) -> (r: Vec<String>)
    ensures
        r.deep_view() == tabs.deep_view().map_values(|t: TabModel| tab_label(t)),
{
    let ghost all = tabs.deep_view().map_values(|t: TabModel| tab_label(t));
    let mut out: Vec<String> = Vec::new();
    let mut i: usize = 0;
    while i < tabs.len()
        invariant
            i <= tabs.len(),
            all == tabs.deep_view().map_values(|t: TabModel| tab_label(t)),
            out.deep_view() == all.take(i as int),
        decreases tabs.len() - i,
    {
        let ghost so_far = out.deep_view();
        let label = label_tab(&tabs[i]);
        assert(label@ == all[i as int]);
        out.push(label);
        assert(out.deep_view() =~= so_far.push(all[i as int]));
        assert(all.take(i + 1) =~= so_far.push(all[i as int]));
        i += 1;
    }
    assert(all.take(all.len() as int) =~= all);
    out
}

impl App {
    /// The cells of the workspace bar, drawn from a column on in a row; where they stand is
    /// noted, so that clicks can be routed back.
    pub fn draw_workspace_bar(&mut self, x: u16, row: u16) -> (r: Vec<BarCell>)
        ensures
            r.deep_view() == workspace_cells(old(self)@),
            final(self)@ == (AppModel {
                bars: (BarHitsModel {
                    workspace_row: row,
                    workspaces: strip_hits(workspace_titles(old(self)@), x),
                    ..old(self)@.bars
                }),
                ..old(self)@
            }),
    {
        let titles = titles_of(&self.workspaces.items);
        let (texts, hits, _) = tab_strip(&titles, x);
        let ghost all = workspace_cells(self@);
        assert(texts.deep_view().len() == texts@.len());
        let mut out: Vec<BarCell> = Vec::new();
        let mut i: usize = 0;
        while i < self.workspaces.items.len()
            invariant
                i <= self.workspaces.items.len() == texts.len(),
                all == workspace_cells(self@),
                texts.deep_view() == workspace_titles(self@).map_values(|l: Seq<char>| cell(l)),
                out.deep_view() == all.take(i as int),
            decreases self.workspaces.items.len() - i,
        {
            let ghost so_far = out.deep_view();
            let w = &self.workspaces.items[i];
            let focused = match self.workspaces.focused() {
                Some(f) => same(f.id.as_str(), w.id.as_str()),
                None => false,
            };
            let made = BarCell { text: texts[i].clone(), state: w.state(), focused };
            proof {
                assert(texts.deep_view()[i as int] == texts@[i as int]@);
                assert(made@ == all[i as int]);
            }
            out.push(made);
            assert(out.deep_view() =~= so_far.push(all[i as int]));
            assert(all.take(i + 1) =~= so_far.push(all[i as int]));
            i += 1;
        }
        assert(all.take(all.len() as int) =~= all);
        assert(hits.deep_view() =~= hits@);
        self.bars.workspaces = hits;
        self.bars.workspace_row = row;
        out
    }

    /// The cells of the tab bar, drawn from a column on in a row; where they stand is noted,
    /// and where the cell for a new thread stands behind them. None where there is no
    /// workspace.
    pub fn draw_tab_bar(&mut self, x: u16, row: u16) -> (r: Option<Vec<BarCell>>)
        ensures
            match old(self)@.workspaces.focused() {
                Some(w) => {
                    let end = capped(strip_end(tab_labels(w), x), columns(TAB_SEPARATOR@));
                    &&& r.deep_view() == Some(tab_cells(w))
                    &&& final(self)@ == (AppModel {
                        bars: (BarHitsModel {
                            tab_row: row,
                            tabs: strip_hits(tab_labels(w), x),
                            new_tab: Some((end, capped(end, 3))),
                            ..old(self)@.bars
                        }),
                        ..old(self)@
                    })
                },
                None => {
                    &&& r is None
                    &&& final(self)@ == (AppModel {
                        bars: (BarHitsModel { tabs: Seq::empty(), new_tab: None, ..old(self)@.bars }),
                        ..old(self)@
                    })
                },
            },
    {
        let (out, hits, end) = match self.workspaces.focused() {
            Some(w) => {
                let labels = labels_of(&w.tabs);
                let (texts, hits, end) = tab_strip(&labels, x);
                let ghost all = tab_cells(w@);
                assert(texts.deep_view().len() == texts@.len());
                let mut out: Vec<BarCell> = Vec::new();
                let mut i: usize = 0;
                while i < w.tabs.len()
                    invariant
                        i <= w.tabs.len() == texts.len(),
                        all == tab_cells(w@),
                        texts.deep_view() == tab_labels(w@).map_values(|l: Seq<char>| cell(l)),
                        out.deep_view() == all.take(i as int),
                    decreases w.tabs.len() - i,
                {
                    let ghost so_far = out.deep_view();
                    let tab = &w.tabs[i];
                    let focused = match w.focused_tab() {
                        Some(f) => same(f.room_id.as_str(), tab.room_id.as_str()),
                        None => false,
                    };
                    let made = BarCell { text: texts[i].clone(), state: tab.state(), focused };
                    proof {
                        assert(texts.deep_view()[i as int] == texts@[i as int]@);
                        assert(made@ == all[i as int]);
                    }
                    out.push(made);
                    assert(out.deep_view() =~= so_far.push(all[i as int]));
                    assert(all.take(i + 1) =~= so_far.push(all[i as int]));
                    i += 1;
                }
                assert(all.take(all.len() as int) =~= all);
                (out, hits, end)
            },
            None => {
                let none: Vec<Hit> = Vec::new();
                assert(none.deep_view() =~= Seq::<Hit>::empty());
                self.bars.tabs = none;
                self.bars.new_tab = None;
                return None;
            },
        };
        assert(hits.deep_view() =~= hits@);
        self.bars.tab_row = row;
        self.bars.tabs = hits;
        // A `+`, so the strip is self-describing as tabs with a way to make another.
        self.bars.new_tab = Some((end, end.saturating_add(3)));
        Some(out)
    }
}

// ----------------------------------------------------------------------------- status

/// The left side of the status bar.
pub open spec fn status_left(sync: SyncState, status: Option<Seq<char>>) -> Seq<SpanModel> {
    seq![set_in(" "@ + sync_words(sync).0 + " "@, Tone::Accent)] + (match sync_words(sync).1 {
        Some(word) => seq![set_in(word, Tone::Accent)],
        None => Seq::empty(),
    }) + (match status {
        Some(text) => seq![set_in("  "@, Tone::Plain), set_in(text, Tone::Dim)],
        None => Seq::empty(),
    })
}

/// The key hints, the most useful first: keys, and what they do.
pub open spec fn hint_table(prefix: Prefix) -> Seq<(Seq<char>, Seq<char>)> {
    seq![
        ("i"@, "write"@),
        (":"@, "commands"@),
        (prefix.written() + " ?"@, "keys"@),
        (prefix.written() + " q"@, "quit"@),
    ]
}

/// How wide a hint is.
pub open spec fn hint_width(hint: (Seq<char>, Seq<char>)) -> usize {
    let sum = display_width(hint.0) + 1 + display_width(hint.1);
    if sum > usize::MAX {
        usize::MAX
    } else {
        sum as usize
    }
}

/// Blanks.
pub open spec fn blanks(n: int) -> Seq<char> {
    Seq::new((if n > 0 { n } else { 0 }) as nat, |i: int| ' ')
}

/// A hint in its cell, padded in front, so the last cell finishes flush against the right edge.
pub open spec fn hint_spans(hint: (Seq<char>, Seq<char>), cell: usize) -> Seq<SpanModel> {
    seq![
        set_in(blanks(cell - hint_width(hint)), Tone::Plain),
        set_in(hint.0, Tone::Accent),
        set_in(" "@, Tone::Plain),
        set_in(hint.1, Tone::Dim),
    ]
}

/// Hints in their cells.
pub open spec fn all_hints(hints: Seq<(Seq<char>, Seq<char>)>, cell: usize) -> Seq<SpanModel>
    decreases hints.len(),
{
    if hints.len() == 0 {
        Seq::empty()
    } else {
        all_hints(hints.drop_last(), cell) + hint_spans(hints.last(), cell)
    }
}

/// How wide the left side of the status bar is, stopping at the largest number.
pub open spec fn left_width(sync: SyncState, status: Option<Seq<char>>) -> usize {
    let wanted = left_of_status(sync, status);
    if wanted > usize::MAX {
        usize::MAX
    } else {
        wanted as usize
    }
}

/// The status bar of a width.
pub open spec fn status_line(
    sync: SyncState,
    status: Option<Seq<char>>,
    hints: Seq<(Seq<char>, Seq<char>)>,
    width: u16,
) -> StatusLineModel {
    let widths = hints.map_values(|h: (Seq<char>, Seq<char>)| hint_width(h));
    let n = hints_shown(widths, width, left_width(sync, status)) as int;
    let cell = if n > 0 {
        most(widths.take(n)) + HINT_GAP
    } else {
        0
    };
    StatusLineModel {
        left: status_left(sync, status),
        hints: all_hints(hints.take(n), cell as usize),
        width: (cell * n) as usize,
    }
}

fn blank_text(n: usize) -> (r: String)
    ensures
        r@ == blanks(n as int),
{
    let mut s = String::new();
    let mut i: usize = 0;
    assert(s@ =~= blanks(0));
    while i < n
        invariant
            i <= n,
            s@ == blanks(i as int),
        decreases n - i,
    {
        s.push(' ');
        i += 1;
        assert(s@ =~= blanks(i as int));
    }
    s
}

fn measure_hint(keys: &str, label: &str) -> (r: usize)
    ensures
        r == hint_width((keys@, label@)),
{
    text_width(keys).saturating_add(1).saturating_add(text_width(label))
}

fn add_hint(out: &mut Vec<Span>, keys: &str, label: &str, cell: usize)
    ensures
        final(out).deep_view() == old(out).deep_view() + hint_spans((keys@, label@), cell),
{
    let ghost before = out.deep_view();
    let used = measure_hint(keys, label);
    let gap = blank_text(cell.saturating_sub(used));
    assert(gap@ =~= blanks(cell - used));
    out.push(Span { text: gap, tone: Tone::Plain });
    out.push(Span { text: keys.to_owned(), tone: Tone::Accent });
    out.push(Span { text: " ".to_owned(), tone: Tone::Plain });
    out.push(Span { text: label.to_owned(), tone: Tone::Dim });
    assert(out.deep_view() =~= before + hint_spans((keys@, label@), cell));
}

/// The key hints, the most useful first.
pub fn hints(prefix: Prefix) -> (r: Vec<(String, String)>)
    ensures
        r.deep_view() == hint_table(prefix),
{
    let mut keys = prefix.label();
    keys.append(" ?");
    let mut quit = prefix.label();
    quit.append(" q");
    let mut out: Vec<(String, String)> = Vec::new();
    out.push(("i".to_owned(), "write".to_owned()));
    out.push((":".to_owned(), "commands".to_owned()));
    out.push((keys, "keys".to_owned()));
    out.push((quit, "quit".to_owned()));
    assert(out.deep_view() =~= hint_table(prefix));
    out
}

fn left_spans(sync: SyncState, status: Option<&str>) -> (r: Vec<Span>)
    ensures
        r.deep_view() == status_left(
            sync,
            match status {
                Some(text) => Some(text@),
                None => None,
            },
        ),
{
    let (glyph, word) = sync_mark(sync);
    let mut mark = " ".to_owned();
    mark.append(glyph);
    mark.append(" ");
    let mut left: Vec<Span> = Vec::new();
    left.push(Span { text: mark, tone: Tone::Accent });
    if let Some(word) = word {
        left.push(Span { text: word.to_owned(), tone: Tone::Accent });
    }
    if let Some(text) = status {
        left.push(Span { text: "  ".to_owned(), tone: Tone::Plain });
        left.push(Span { text: text.to_owned(), tone: Tone::Dim });
    }
    assert(left.deep_view() =~= status_left(
        sync,
        match status {
            Some(text) => Some(text@),
            None => None,
        },
    ));
    left
}

/// The status bar of a width: a mark for the connection, the status, and as many key hints as
/// fit. A mark rather than a word, because the healthy states are the common case.
pub fn draw_status(sync: SyncState, status: Option<&str>, hints: &Vec<(String, String)>, width: u16) -> (r: StatusLine)
    ensures
        r@ == status_line(
            sync,
            match status {
                Some(text) => Some(text@),
                None => None,
            },
            hints.deep_view(),
            width,
        ),
{
    let ghost all = hints.deep_view();
    let ghost ws = all.map_values(|h: (Seq<char>, Seq<char>)| hint_width(h));
    let left = left_spans(sync, status);
    let mut widths: Vec<usize> = Vec::new();
    let mut i: usize = 0;
    while i < hints.len()
        invariant
            i <= hints.len(),
            all == hints.deep_view(),
            ws == all.map_values(|h: (Seq<char>, Seq<char>)| hint_width(h)),
            widths@ == ws.take(i as int),
        decreases hints.len() - i,
    {
        let w = measure_hint(hints[i].0.as_str(), hints[i].1.as_str());
        assert(all[i as int] == (hints@[i as int].0@, hints@[i as int].1@));
        assert(w == ws[i as int]);
        widths.push(w);
        assert(widths@ =~= ws.take(i + 1));
        i += 1;
    }
    assert(ws.take(ws.len() as int) =~= ws);
    let taken = status_width(sync, status);
    let (n, cell) = fit_hints(&widths, width, taken);
    proof {
        crate::app::screen::law_as_many_hints_as_fit(ws, width, taken);
    }
    let mut out: Vec<Span> = Vec::new();
    let mut k: usize = 0;
    assert(out.deep_view() =~= all_hints(all.take(0), cell));
    while k < n
        invariant
            k <= n <= hints.len(),
            all == hints.deep_view(),
            out.deep_view() == all_hints(all.take(k as int), cell),
        decreases n - k,
    {
        proof {
            assert(all.take(k + 1).drop_last() =~= all.take(k as int));
            assert(all.take(k + 1).last() == (hints@[k as int].0@, hints@[k as int].1@));
        }
        add_hint(&mut out, hints[k].0.as_str(), hints[k].1.as_str(), cell);
        k += 1;
    }
    proof {
        assert(cell * n <= width);
    }
    StatusLine { left, hints: out, width: cell * n }
}

// ------------------------------------------------------------------------------ emoji

/// A row of the emoji picker.
pub open spec fn emoji_row(e: EmojiModel, chosen: bool) -> Seq<SpanModel> {
    seq![
        set_in(
            if chosen {
                SELECTED_MARK@
            } else {
                " "@
            },
            Tone::Accent,
        ),
        set_in(
            e.text + "  "@,
            if chosen {
                Tone::Accent
            } else {
                Tone::Dim
            },
        ),
        set_in(e.name, Tone::Dim),
    ]
}

/// The line that an emoji is searched for on, with a block for a caret, so an empty query still
/// shows where typing goes.
pub open spec fn search_line(query: Seq<char>) -> Seq<SpanModel> {
    seq![set_in("search "@, Tone::Dim), set_in(query, Tone::Accent), set_in(SEARCH_CARET@, Tone::Dim)]
}

/// Where the rows of the emoji picker that are shown begin and end.
pub open spec fn emoji_span(matches: nat, selected: usize) -> (int, int) {
    let rows = emoji_rows(matches);
    let from = if selected >= rows {
        selected - rows + 1
    } else {
        0
    };
    (
        from,
        if from + rows < matches {
            from + rows
        } else {
            matches as int
        },
    )
}

/// The lines of the emoji picker. A list rather than a grid: in a grid an emoji of a wrong
/// width displaces every column behind it.
pub open spec fn emoji_lines(picker: emoji::PickerModel) -> Seq<Seq<SpanModel>> {
    if picker.matches.len() == 0 {
        seq![search_line(picker.query), seq![set_in(" nothing matches"@, Tone::Dim)]]
    } else {
        let (from, to) = emoji_span(picker.matches.len(), picker.selected);
        seq![search_line(picker.query)] + Seq::new(
            (if from < to { to - from } else { 0 }) as nat,
            |i: int| emoji_row(picker.matches[from + i], from + i == picker.selected),
        )
    }
}

fn draw_emoji_row(e: &Emoji, chosen: bool) -> (r: Vec<Span>)
    ensures
        r.deep_view() == emoji_row(e@, chosen),
{
    let marker = if chosen {
        SELECTED_MARK
    } else {
        " "
    };
    let tone = if chosen {
        Tone::Accent
    } else {
        Tone::Dim
    };
    let mut text = e.text.clone();
    text.append("  ");
    let mut line: Vec<Span> = Vec::new();
    line.push(Span { text: marker.to_owned(), tone: Tone::Accent });
    line.push(Span { text, tone });
    line.push(Span { text: e.name.clone(), tone: Tone::Dim });
    assert(line.deep_view() =~= emoji_row(e@, chosen));
    line
}

/// The lines of the emoji picker.
pub fn draw_emoji(picker: &emoji::Picker) -> (r: Vec<Vec<Span>>)
    ensures
        r.deep_view() == emoji_lines(picker@),
{
    let mut search: Vec<Span> = Vec::new();
    search.push(Span { text: "search ".to_owned(), tone: Tone::Dim });
    search.push(Span { text: picker.query.clone(), tone: Tone::Accent });
    search.push(Span { text: SEARCH_CARET.to_owned(), tone: Tone::Dim });
    assert(search.deep_view() =~= search_line(picker@.query));
    let mut lines: Vec<Vec<Span>> = Vec::new();
    lines.push(search);
    let ghost first = seq![search_line(picker@.query)];
    assert(lines.deep_view() =~= first);
    let n = picker.matches.len();
    if n == 0 {
        let mut none: Vec<Span> = Vec::new();
        none.push(Span { text: " nothing matches".to_owned(), tone: Tone::Dim });
        assert(none.deep_view() =~= seq![set_in(" nothing matches"@, Tone::Dim)]);
        lines.push(none);
        assert(lines.deep_view() =~= emoji_lines(picker@));
        return lines;
    }
    let (from, rows) = emoji_window(n, picker.selected);
    let ghost span = emoji_span(n as nat, picker.selected);
    let mut i = from;
    let mut k: usize = 0;
    let ghost all = emoji_lines(picker@);
    assert(lines.deep_view() =~= all.take(1));
    while k < rows && i < n
        invariant
            k <= rows,
            from <= i,
            i == from + k,
            n == picker.matches.len(),
            n > 0,
            span == emoji_span(n as nat, picker.selected),
            span.0 == from,
            rows == emoji_rows(n as nat),
            all == emoji_lines(picker@),
            i <= n || k == 0,
            lines.deep_view() == all.take(k + 1),
            all.len() == 1 + (if span.0 < span.1 {
                span.1 - span.0
            } else {
                0
            }),
        decreases rows - k,
    {
        let ghost so_far = lines.deep_view();
        let line = draw_emoji_row(&picker.matches[i], i == picker.selected);
        assert(picker@.matches[i as int] == picker.matches@[i as int]@);
        assert(line.deep_view() == all[k + 1]);
        lines.push(line);
        assert(lines.deep_view() =~= so_far.push(all[k + 1]));
        assert(all.take(k + 2) =~= so_far.push(all[k + 1]));
        i += 1;
        k += 1;
    }
    assert(all.take(all.len() as int) =~= all);
    lines
}

// ------------------------------------------------------------------------------- keys

/// How wide the widest of these texts is.
pub open spec fn widest_text(texts: Seq<Seq<char>>) -> usize {
    most(texts.map_values(|t: Seq<char>| display_width(t)))
}

/// One column of a table of two.
pub open spec fn column(rows: Seq<(Seq<char>, Seq<char>)>, second: bool) -> Seq<Seq<char>> {
    rows.map_values(
        |r: (Seq<char>, Seq<char>)|
            if second {
                r.1
            } else {
                r.0
            },
    )
}

/// A row of the key overlay.
pub open spec fn help_line(row: (Seq<char>, Seq<char>), key_width: usize) -> Seq<SpanModel> {
    seq![
        set_in(
            blanks(
                1 + if display_width(row.0) < key_width {
                    key_width - display_width(row.0)
                } else {
                    0
                },
            ),
            Tone::Plain,
        ),
        set_in(row.0, Tone::Accent),
        set_in("  "@, Tone::Plain),
        set_in(row.1, Tone::Dim),
    ]
}

/// The lines of the key overlay.
pub open spec fn help_lines(rows: Seq<(Seq<char>, Seq<char>)>) -> Seq<Seq<SpanModel>> {
    let key_width = widest_text(column(rows, false));
    rows.map_values(|r: (Seq<char>, Seq<char>)| help_line(r, key_width))
}

/// Where the key overlay is drawn, with two blanks on either side, two between the columns, and
/// its border; nowhere, where there is no room for it.
pub open spec fn help_place(rows: Seq<(Seq<char>, Seq<char>)>, area: Rect) -> Option<Rect> {
    let wanted = widest_text(column(rows, false)) + widest_text(column(rows, true)) + 8;
    let width = if wanted < area.width {
        wanted as u16
    } else {
        area.width
    };
    let height = if rows.len() + 2 < area.height {
        (rows.len() + 2) as u16
    } else {
        area.height
    };
    if width < 8 || height < 4 {
        None
    } else {
        Some(centre(area, width, height))
    }
}

fn widest_column(rows: &Vec<(String, String)>, second: bool) -> (r: usize)
    ensures
        r == widest_text(column(rows.deep_view(), second)),
{
    let ghost all = column(rows.deep_view(), second);
    let ghost ws = all.map_values(|t: Seq<char>| display_width(t));
    let mut r: usize = 0;
    let mut i: usize = 0;
    while i < rows.len()
        invariant
            i <= rows.len() == ws.len(),
            all == column(rows.deep_view(), second),
            ws == all.map_values(|t: Seq<char>| display_width(t)),
            r == most(ws.take(i as int)),
        decreases rows.len() - i,
    {
        let w = if second {
            text_width(rows[i].1.as_str())
        } else {
            text_width(rows[i].0.as_str())
        };
        proof {
            assert(rows.deep_view()[i as int] == (rows@[i as int].0@, rows@[i as int].1@));
            assert(ws[i as int] == w);
            assert(ws.take(i + 1).drop_last() =~= ws.take(i as int));
        }
        if w > r {
            r = w;
        }
        i += 1;
    }
    assert(ws.take(ws.len() as int) =~= ws);
    r
}

/// The lines of the key overlay.
pub fn draw_help(rows: &Vec<(String, String)>) -> (r: Vec<Vec<Span>>)
    ensures
        r.deep_view() == help_lines(rows.deep_view()),
{
    let key_width = widest_column(rows, false);
    let ghost pairs = rows.deep_view();
    let ghost all = help_lines(pairs);
    let mut out: Vec<Vec<Span>> = Vec::new();
    let mut i: usize = 0;
    while i < rows.len()
        invariant
            i <= rows.len() == all.len(),
            pairs == rows.deep_view(),
            key_width == widest_text(column(pairs, false)),
            all == help_lines(pairs),
            out.deep_view() == all.take(i as int),
        decreases rows.len() - i,
    {
        let ghost so_far = out.deep_view();
        let width = text_width(rows[i].0.as_str());
        let mut gap = blank_text(key_width.saturating_sub(width));
        gap.push(' ');
        let mut line: Vec<Span> = Vec::new();
        proof {
            assert(pairs[i as int] == (rows@[i as int].0@, rows@[i as int].1@));
            assert(gap@ =~= blanks(
                1 + if width < key_width {
                    key_width - width
                } else {
                    0
                },
            ));
        }
        line.push(Span { text: gap, tone: Tone::Plain });
        line.push(Span { text: rows[i].0.clone(), tone: Tone::Accent });
        line.push(Span { text: "  ".to_owned(), tone: Tone::Plain });
        line.push(Span { text: rows[i].1.clone(), tone: Tone::Dim });
        assert(line.deep_view() =~= all[i as int]);
        out.push(line);
        assert(out.deep_view() =~= so_far.push(all[i as int]));
        assert(all.take(i + 1) =~= so_far.push(all[i as int]));
        i += 1;
    }
    assert(all.take(all.len() as int) =~= all);
    out
}

/// Where the key overlay is drawn.
pub fn place_help(rows: &Vec<(String, String)>, area: Rect) -> (r: Option<Rect>)
    ensures
        r == help_place(rows.deep_view(), area),
{
    let wanted: u128 = widest_column(rows, false) as u128 + widest_column(rows, true) as u128 + 8;
    let width: u16 = if wanted < area.width as u128 {
        wanted as u16
    } else {
        area.width
    };
    let tall: u128 = rows.len() as u128 + 2;
    let height: u16 = if tall < area.height as u128 {
        tall as u16
    } else {
        area.height
    };
    if width < 8 || height < 4 {
        None
    } else {
        Some(centred(area, width, height))
    }
}

// --------------------------------------------------------------------------- composer

/// The rows of a composer, at a width.
pub open spec fn rows_at(text: Seq<char>, width: u16) -> Seq<Row> {
    text_rows(
        text,
        0,
        if width == 0 {
            1
        } else {
            width as nat
        },
    )
}

/// The first row that is drawn, where the caret stays in view.
pub open spec fn first_shown(caret_row: u16, height: u16) -> int {
    if height <= 1 {
        caret_row as int
    } else if caret_row >= height {
        caret_row - height + 1
    } else {
        0
    }
}

/// The texts of some rows from one of them on.
pub open spec fn row_texts(text: Seq<char>, rows: Seq<Row>, first: int) -> Seq<Seq<char>> {
    Seq::new(
        (if first < rows.len() { rows.len() - first } else { 0 }) as nat,
        |i: int| text.subrange(rows[first + i].start as int, rows[first + i].end as int),
    )
}

/// Where the cursor stands, if it is inside the box.
pub open spec fn cursor_at(inner: Rect, caret: (u16, u16), first: int) -> Option<(u16, u16)> {
    let x = inner.x + caret.1;
    let y = inner.y + caret.0 - first;
    if x < inner.spec_right() && y < inner.spec_bottom() {
        Some((x as u16, y as u16))
    } else {
        None
    }
}

/// What the composer shows in a box.
pub open spec fn composer_view(app: AppModel, inner: Rect) -> ComposerViewModel {
    let text = match app.focused_view() {
        Some(view) => app.composer_of(view).text,
        None => Seq::empty(),
    };
    let known = app.focused_view() is Some && app.composers.contains_key(app.focused_view()->0);
    if text.len() == 0 && app.mode != Mode::Insert {
        ComposerViewModel { prompt: true, lines: Seq::empty(), cursor: None }
    } else if !known {
        ComposerViewModel { prompt: false, lines: Seq::empty(), cursor: None }
    } else {
        let composer = app.composers[app.focused_view()->0];
        let rows = rows_at(composer.text, inner.width);
        let caret = caret_in(rows, composer.text, composer.cursor);
        let first = first_shown(caret.0, inner.height);
        ComposerViewModel {
            prompt: false,
            lines: row_texts(composer.text, rows, first),
            cursor: if app.mode == Mode::Insert {
                cursor_at(inner, caret, first)
            } else {
                None
            },
        }
    }
}

fn show_composer(composer: &Composer, inner: Rect, typing: bool) -> (r: ComposerView)
    ensures
        r@ == ({
            let rows = rows_at(composer@.text, inner.width);
            let caret = caret_in(rows, composer@.text, composer@.cursor);
            let first = first_shown(caret.0, inner.height);
            ComposerViewModel {
                prompt: false,
                lines: row_texts(composer@.text, rows, first),
                cursor: if typing {
                    cursor_at(inner, caret, first)
                } else {
                    None
                },
            }
        }),
{
    let wrapped = composer.wrapped(inner.width);
    let ghost rows = rows_at(composer@.text, inner.width);
    let first = crate::app::screen::first_row(wrapped.caret.0, inner.height);
    let ghost all = row_texts(composer@.text, rows, first as int);
    let mut lines: Vec<String> = Vec::new();
    let mut i = first as usize;
    assert(lines.deep_view() =~= all.take(0));
    while i < wrapped.lines.len()
        invariant
            first <= i,
            wrapped.lines@.len() == rows.len(),
            i <= rows.len() || i == first,
            forall|i: int|
                0 <= i < rows.len() ==> (#[trigger] wrapped.lines@[i])@ == composer@.text.subrange(
                    rows[i].start as int,
                    rows[i].end as int,
                ),
            all == row_texts(composer@.text, rows, first as int),
            lines.deep_view() == all.take(i - first),
        decreases wrapped.lines.len() - i,
    {
        let ghost so_far = lines.deep_view();
        let line = wrapped.lines[i].to_owned();
        assert(line@ == all[i - first]);
        lines.push(line);
        assert(lines.deep_view() =~= so_far.push(all[i - first]));
        assert(all.take(i + 1 - first) =~= so_far.push(all[i - first]));
        i += 1;
    }
    assert(lines.deep_view() =~= all);
    let (row, column) = wrapped.caret;
    let x: u32 = inner.x as u32 + column as u32;
    let y: u32 = inner.y as u32 + (row - first) as u32;
    let inside = x < inner.right() as u32 && y < inner.bottom() as u32;
    let cursor = if typing && inside {
        Some((x as u16, y as u16))
    } else {
        None
    };
    ComposerView { prompt: false, lines, cursor }
}

/// What the composer shows in a box: an invitation to write, or the message, scrolled so that
/// the caret is in view.
pub fn draw_composer(app: &App, inner: Rect) -> (r: ComposerView)
    ensures
        r@ == composer_view(app@, inner),
{
    let composer = app.composer();
    let empty = match composer {
        Some(c) => c.text().is_empty(),
        None => true,
    };
    let typing = app.mode == Mode::Insert;
    let none: Vec<String> = Vec::new();
    assert(none.deep_view() =~= Seq::<Seq<char>>::empty());
    if empty && !typing {
        return ComposerView { prompt: true, lines: none, cursor: None };
    }
    match composer {
        Some(c) => show_composer(c, inner, typing),
        None => ComposerView { prompt: false, lines: none, cursor: None },
    }
}

} // verus!
