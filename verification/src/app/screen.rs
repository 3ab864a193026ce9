//! What is on the screen, and where: everything about a frame but the painting.

use vstd::prelude::*;
use vstd::string::*;

use crate::agent::store::AgentState;
use crate::app::composer::{text_rows, Composer};
use crate::app::emoji;
use crate::app::glyphs::{LOCK, SELECTED_MARK};
use crate::app::graphemes::{display_width, text_width};
use crate::app::keymap::{Mode, Prefix};
use crate::app::palette::{command_table, commands, keys_for, keys_written, COMMAND_COUNT};
use crate::app::state::{Anchor, AnchorModel, App, AppModel, Hit, Pending, PendingModel, ThreadPicker, ThreadPickerModel};
use crate::layout::model::{with_id, Pane, PaneModel, Tab, TabModel};
use crate::layout::tiling::{arranged, capped, placed, rect_of, tiled, Placement, Rect, Tiling, TilingModel};
use crate::matrix::model as matrix;
use crate::matrix::model::{SyncState, ThreadSummaryModel, Verification, VerificationModel, ViewModel};
use crate::seqs::{first_where, lemma_first, lemma_no_first};
use crate::table::lemma_deep;
use crate::text::{decimal, decimal_text};

verus! {

/// Composer height, including its border, when it holds a single line.
pub const COMPOSER_MIN_HEIGHT: u16 = 3;

/// Most lines the composer will grow to before it scrolls internally. Beyond this the
/// transcript is being squeezed for a message nobody reads while typing.
pub const COMPOSER_MAX_LINES: u16 = 8;

/// Floor width for a tab label, so short room names still occupy a tab-sized slot.
pub const MIN_TAB_WIDTH: usize = 10;

/// Drawn between tabs and at both ends of the bar.
pub const TAB_SEPARATOR: &'static str = "│";

/// Blank columns between key hints in the status bar.
pub const HINT_GAP: usize = 3;

/// Columns kept clear on the right of a transcript.
///
/// Absorbs the overflow when a glyph paints wider than it was measured, so the spill lands on
/// a blank cell instead of the pane border.
pub const TRANSCRIPT_GUTTER: u16 = 1;

/// The most rows of emoji shown at once.
pub const EMOJI_ROWS: usize = 12;

/// How a piece of text is set.
#[derive(Debug, Clone, Copy, PartialEq, Eq, Structural)]
pub enum Tone {
    Plain,
    /// Beside the point.
    Dim,
    /// What the eye should land on.
    Accent,
}

/// A piece of text.
#[derive(Debug, PartialEq, Eq)]
pub struct Span {
    pub text: String,
    pub tone: Tone,
}

/// The mathematical content of a [`Span`].
#[verifier::ext_equal]
pub struct SpanModel {
    pub text: Seq<char>,
    pub tone: Tone,
}

impl View for Span {
    type V = SpanModel;

    open spec fn view(&self) -> SpanModel {
        SpanModel {
            text: self.text@,
            tone: self.tone,
        }
    }
}

impl DeepView for Span {
    type V = SpanModel;

    open spec fn deep_view(&self) -> SpanModel {
        self@
    }
}

/// An overlay: a title, and lines of text.
#[derive(Debug, PartialEq, Eq)]
pub struct Panel {
    pub title: String,
    pub lines: Vec<Vec<Span>>,
}

/// The mathematical content of a [`Panel`].
#[verifier::ext_equal]
pub struct PanelModel {
    pub title: Seq<char>,
    pub lines: Seq<Seq<SpanModel>>,
}

impl View for Panel {
    type V = PanelModel;

    open spec fn view(&self) -> PanelModel {
        PanelModel {
            title: self.title@,
            lines: self.lines.deep_view(),
        }
    }
}

impl DeepView for Panel {
    type V = PanelModel;

    open spec fn deep_view(&self) -> PanelModel {
        self@
    }
}

/// What a pane shows.
#[derive(Debug, PartialEq, Eq)]
pub struct PaneFrame {
    pub placement: Placement,
    pub header: String,
    pub state: AgentState,
    pub view: Option<matrix::View>,
    /// Lines scrolled up from the bottom.
    pub scroll: u16,
    /// The selected message. The selection belongs to the focused pane.
    pub selected: Option<String>,
}

/// The mathematical content of a [`PaneFrame`].
#[verifier::ext_equal]
pub struct PaneFrameModel {
    pub placement: Placement,
    pub header: Seq<char>,
    pub state: AgentState,
    pub view: Option<matrix::ViewModel>,
    pub scroll: u16,
    pub selected: Option<Seq<char>>,
}

impl View for PaneFrame {
    type V = PaneFrameModel;

    open spec fn view(&self) -> PaneFrameModel {
        PaneFrameModel {
            placement: self.placement,
            header: self.header@,
            state: self.state,
            view: self.view.deep_view(),
            scroll: self.scroll,
            selected: self.selected.deep_view(),
        }
    }
}

impl DeepView for PaneFrame {
    type V = PaneFrameModel;

    open spec fn deep_view(&self) -> PaneFrameModel {
        self@
    }
}

// --------------------------------------------------------------------------- geometry

/// A number no larger than a limit, and no smaller than a floor where the limit allows it.
pub open spec fn within(n: int, floor: int, limit: int) -> int {
    if n > limit {
        limit
    } else if n >= floor {
        n
    } else if floor > limit {
        limit
    } else {
        floor
    }
}

fn bounded(n: usize, floor: u16, limit: u16) -> (r: u16)
    ensures
        r == within(n as int, floor as int, limit as int),
{
    if n > limit as usize {
        limit
    } else if n >= floor as usize {
        n as u16
    } else if floor > limit {
        limit
    } else {
        floor
    }
}

/// What is left of a length, halved.
pub open spec fn half_left(whole: u16, part: u16) -> u16 {
    if whole > part {
        ((whole - part) / 2) as u16
    } else {
        0
    }
}

/// A rectangle in the middle of an area.
pub open spec fn centre(area: Rect, width: u16, height: u16) -> Rect {
    Rect {
        x: capped(area.x, half_left(area.width, width)),
        y: capped(area.y, half_left(area.height, height)),
        width,
        height,
    }
}

/// A rectangle in the middle of an area.
pub fn centred(area: Rect, width: u16, height: u16) -> (r: Rect)
    ensures
        r == centre(area, width, height),
{
    Rect {
        x: area.x.saturating_add(area.width.saturating_sub(width) / 2),
        y: area.y.saturating_add(area.height.saturating_sub(height) / 2),
        width,
        height,
    }
}

/// An overlay in the middle of an area stays inside it, if it is no larger.
pub proof fn law_an_overlay_stays_on_the_screen(area: Rect, width: u16, height: u16)
    requires
        width <= area.width,
        height <= area.height,
        area.x + area.width <= u16::MAX,
        area.y + area.height <= u16::MAX,
    ensures
        centre(area, width, height).within(area),
{
}

/// What a frame leaves free inside a rectangle.
pub open spec fn inside(rect: Rect) -> Rect {
    Rect {
        x: capped(rect.x, 1),
        y: capped(rect.y, 1),
        width: (if rect.width >= 2 {
            rect.width - 2
        } else {
            0
        }) as u16,
        height: (if rect.height >= 2 {
            rect.height - 2
        } else {
            0
        }) as u16,
    }
}

/// The area inside a pane's border.
pub fn inner_of(rect: Rect) -> (r: Rect)
    ensures
        r == inside(rect),
{
    Rect {
        x: rect.x.saturating_add(1),
        y: rect.y.saturating_add(1),
        width: rect.width.saturating_sub(2),
        height: rect.height.saturating_sub(2),
    }
}

/// The first line of a transcript that is drawn, given how many there are, how many fit, and
/// how far it is scrolled up from the bottom.
pub open spec fn first_line(total: u16, height: u16, scroll: u16) -> int {
    if total <= height || scroll > total - height {
        0
    } else {
        total - height - scroll
    }
}

/// The first line of a transcript that is drawn.
pub fn scroll_offset(total: u16, height: u16, scroll: u16) -> (r: u16)
    ensures
        r == first_line(total, height, scroll),
{
    let max = total.saturating_sub(height);
    if scroll < max {
        max - scroll
    } else {
        0
    }
}

/// How many rows a composer takes, at a width.
pub open spec fn composer_rows(text: Seq<char>, width: u16) -> nat {
    text_rows(
        text,
        0,
        if width == 0 {
            1
        } else {
            width as nat
        },
    ).len()
}

/// How high the composer is for a text, or without one.
pub open spec fn height_for(text: Option<Seq<char>>, total_width: u16) -> int {
    match text {
        Some(text) => COMPOSER_MIN_HEIGHT - 1 + within(
            composer_rows(
                text,
                (if total_width >= 2 {
                    total_width - 2
                } else {
                    0
                }) as u16,
            ) as int,
            1,
            COMPOSER_MAX_LINES as int,
        ),
        None => COMPOSER_MIN_HEIGHT as int,
    }
}

/// How tall the composer needs to be, borders included.
///
/// Measured after wrapping, not by counting newlines: a single long paragraph occupies
/// several rows and should be visible while it is written.
pub fn composer_height(composer: Option<&Composer>, total_width: u16) -> (r: u16)
    ensures
        r == height_for(
            match composer {
                Some(c) => Some(c@.text),
                None => None,
            },
            total_width,
        ),
{
    match composer {
        Some(c) => {
            let rows = c.wrapped(total_width.saturating_sub(2)).lines.len();
            COMPOSER_MIN_HEIGHT - 1 + bounded(rows, 1, COMPOSER_MAX_LINES)
        },
        None => COMPOSER_MIN_HEIGHT,
    }
}

/// The first row of a composer that is drawn: the caret stays in view when the message is
/// taller than the box.
pub fn first_row(caret_row: u16, height: u16) -> (r: u16)
    ensures
        r == (if height <= 1 {
            caret_row as int
        } else if caret_row >= height {
            caret_row - height + 1
        } else {
            0
        }),
{
    let height: u16 = if height == 0 {
        1
    } else {
        height
    };
    caret_row.saturating_sub(height - 1)
}

// ------------------------------------------------------------------------------ spans

/// How wide a line is, stopping at the largest number.
pub open spec fn line_width(line: Seq<SpanModel>) -> int
    decreases line.len(),
{
    if line.len() == 0 {
        0
    } else {
        let sum = line_width(line.drop_last()) + display_width(line.last().text);
        if sum > usize::MAX {
            usize::MAX as int
        } else {
            sum
        }
    }
}

/// How wide the widest of some lines is.
pub open spec fn widest(lines: Seq<Seq<SpanModel>>) -> int
    decreases lines.len(),
{
    if lines.len() == 0 {
        0
    } else if line_width(lines.last()) > widest(lines.drop_last()) {
        line_width(lines.last())
    } else {
        widest(lines.drop_last())
    }
}

fn measure_line(line: &Vec<Span>) -> (r: usize)
    ensures
        r == line_width(line.deep_view()),
{
    let ghost all = line.deep_view();
    let mut sum: usize = 0;
    let mut i: usize = 0;
    while i < line.len()
        invariant
            i <= line.len(),
            all == line.deep_view(),
            sum == line_width(all.take(i as int)),
        decreases line.len() - i,
    {
        proof {
            assert(all.take(i + 1).drop_last() =~= all.take(i as int));
            assert(all.take(i + 1).last() == line@[i as int]@);
        }
        sum = sum.saturating_add(text_width(line[i].text.as_str()));
        i += 1;
    }
    assert(all.take(all.len() as int) =~= all);
    sum
}

fn measure_lines(lines: &Vec<Vec<Span>>) -> (r: usize)
    ensures
        r == widest(lines.deep_view()),
{
    let ghost all = lines.deep_view();
    let mut most: usize = 0;
    let mut i: usize = 0;
    while i < lines.len()
        invariant
            i <= lines.len(),
            all == lines.deep_view(),
            most == widest(all.take(i as int)),
        decreases lines.len() - i,
    {
        proof {
            assert(all.take(i + 1).drop_last() =~= all.take(i as int));
            assert(all.take(i + 1).last() == lines@[i as int].deep_view());
        }
        let width = measure_line(&lines[i]);
        if width > most {
            most = width;
        }
        i += 1;
    }
    assert(all.take(all.len() as int) =~= all);
    most
}

/// A piece of text in a tone.
pub open spec fn set_in(text: Seq<char>, tone: Tone) -> SpanModel {
    SpanModel { text, tone }
}

fn line_of(text: &str, tone: Tone) -> (r: Vec<Span>)
    ensures
        r.deep_view() == seq![set_in(text@, tone)],
{
    let mut r: Vec<Span> = Vec::new();
    r.push(Span { text: text.to_owned(), tone });
    assert(r.deep_view() =~= seq![set_in(text@, tone)]);
    r
}

fn add_line(lines: &mut Vec<Vec<Span>>, text: &str, tone: Tone)
    ensures
        final(lines).deep_view() == old(lines).deep_view().push(seq![set_in(text@, tone)]),
{
    let ghost before = lines.deep_view();
    let line = line_of(text, tone);
    lines.push(line);
    assert(lines.deep_view() =~= before.push(line.deep_view()));
}

fn add_blank(lines: &mut Vec<Vec<Span>>)
    ensures
        final(lines).deep_view() == old(lines).deep_view().push(Seq::<SpanModel>::empty()),
{
    let ghost before = lines.deep_view();
    let blank: Vec<Span> = Vec::new();
    assert(blank.deep_view() =~= Seq::<SpanModel>::empty());
    lines.push(blank);
    assert(lines.deep_view() =~= before.push(blank.deep_view()));
}

fn around(before: &str, middle: &str, after: &str) -> (r: String)
    ensures
        r@ == before@ + middle@ + after@,
{
    let mut s = before.to_owned();
    s.append(middle);
    s.append(after);
    s
}

// ----------------------------------------------------------------------- verification

/// A symbol to compare, with its name spelled out beside it.
pub open spec fn symbol_line(pair: (Seq<char>, Seq<char>)) -> Seq<SpanModel> {
    seq![
        set_in(" "@ + pair.0 + " "@, Tone::Accent),
        set_in("  "@, Tone::Plain),
        set_in(pair.1, Tone::Plain),
    ]
}

/// The panel of a verification in progress; none where it is over. The symbols stand one to
/// a line: a row of them that wraps wrongly is compared wrongly.
pub open spec fn verification_panel(state: VerificationModel) -> Option<PanelModel> {
    let blank = Seq::<SpanModel>::empty();
    match state {
        VerificationModel::Requested { other_device } => Some(
            PanelModel {
                title: " verification requested "@,
                lines: seq![
                    seq![set_in(""@ + other_device + " wants to verify this device."@, Tone::Plain)],
                    blank,
                    seq![
                        set_in("Accepting only starts the comparison; you confirm the keys next."@, Tone::Dim),
                    ],
                    blank,
                    seq![set_in("y accept   n reject"@, Tone::Dim)],
                ],
            },
        ),
        VerificationModel::Negotiating { other_device } => Some(
            PanelModel {
                title: " verifying "@,
                lines: seq![
                    seq![set_in("agreeing on a method with "@ + other_device + "…"@, Tone::Dim)],
                    blank,
                    seq![set_in("esc cancel"@, Tone::Dim)],
                ],
            },
        ),
        VerificationModel::Compare { other_device, emoji } => Some(
            PanelModel {
                title: " compare emoji "@,
                lines: seq![
                    seq![set_in("Do these match what "@ + other_device + " shows?"@, Tone::Plain)],
                    blank,
                ] + emoji.map_values(|p: (Seq<char>, Seq<char>)| symbol_line(p)) + seq![
                    blank,
                    seq![set_in("y they match   n they do NOT match"@, Tone::Dim)],
                ],
            },
        ),
        VerificationModel::WaitingForOther { other_device } => Some(
            PanelModel {
                title: " waiting "@,
                lines: seq![
                    seq![set_in("confirmed here; waiting for "@ + other_device + "…"@, Tone::Dim)],
                    blank,
                    seq![set_in("esc cancel"@, Tone::Dim)],
                ],
            },
        ),
        VerificationModel::Done | VerificationModel::Cancelled { .. } => None,
    }
}

fn add_symbols(lines: &mut Vec<Vec<Span>>, emoji: &Vec<(String, String)>)
    ensures
        final(lines).deep_view() == old(lines).deep_view() + emoji.deep_view().map_values(
            |p: (Seq<char>, Seq<char>)| symbol_line(p),
        ),
{
    let ghost before = lines.deep_view();
    let ghost all = emoji.deep_view().map_values(|p: (Seq<char>, Seq<char>)| symbol_line(p));
    let mut i: usize = 0;
    assert(before + all.take(0) =~= before);
    while i < emoji.len()
        invariant
            i <= emoji.len(),
            all == emoji.deep_view().map_values(|p: (Seq<char>, Seq<char>)| symbol_line(p)),
            lines.deep_view() == before + all.take(i as int),
        decreases emoji.len() - i,
    {
        let ghost so_far = lines.deep_view();
        let mut line: Vec<Span> = Vec::new();
        line.push(Span { text: around(" ", emoji[i].0.as_str(), " "), tone: Tone::Accent });
        line.push(Span { text: "  ".to_owned(), tone: Tone::Plain });
        line.push(Span { text: emoji[i].1.clone(), tone: Tone::Plain });
        proof {
            assert(emoji.deep_view()[i as int] == (emoji@[i as int].0@, emoji@[i as int].1@));
            assert(line.deep_view() =~= all[i as int]);
        }
        lines.push(line);
        assert(lines.deep_view() =~= so_far.push(line.deep_view()));
        assert(before + all.take(i + 1) =~= so_far.push(all[i as int]));
        i += 1;
    }
    assert(all.take(all.len() as int) =~= all);
}

/// The interactive verification panel.
pub fn draw_verification(state: &Verification) -> (r: Option<Panel>)
    ensures
        r.deep_view() == verification_panel(state@),
{
    let mut lines: Vec<Vec<Span>> = Vec::new();
    assert(lines.deep_view() =~= Seq::<Seq<SpanModel>>::empty());
    let title = match state {
        Verification::Requested { other_device } => {
            add_line(&mut lines, around("", other_device.as_str(), " wants to verify this device.").as_str(), Tone::Plain);
            add_blank(&mut lines);
            add_line(
                &mut lines,
                "Accepting only starts the comparison; you confirm the keys next.",
                Tone::Dim,
            );
            add_blank(&mut lines);
            add_line(&mut lines, "y accept   n reject", Tone::Dim);
            " verification requested "
        },
        Verification::Negotiating { other_device } => {
            add_line(&mut lines, around("agreeing on a method with ", other_device.as_str(), "…").as_str(), Tone::Dim);
            add_blank(&mut lines);
            add_line(&mut lines, "esc cancel", Tone::Dim);
            " verifying "
        },
        Verification::Compare { other_device, emoji } => {
            add_line(&mut lines, around("Do these match what ", other_device.as_str(), " shows?").as_str(), Tone::Plain);
            add_blank(&mut lines);
            add_symbols(&mut lines, emoji);
            add_blank(&mut lines);
            add_line(&mut lines, "y they match   n they do NOT match", Tone::Dim);
            " compare emoji "
        },
        Verification::WaitingForOther { other_device } => {
            add_line(&mut lines, around("confirmed here; waiting for ", other_device.as_str(), "…").as_str(), Tone::Dim);
            add_blank(&mut lines);
            add_line(&mut lines, "esc cancel", Tone::Dim);
            " waiting "
        },
        Verification::Done | Verification::Cancelled { .. } => {
            return None;
        },
    };
    assert(lines.deep_view() =~= verification_panel(state@)->0.lines);
    Some(Panel { title: title.to_owned(), lines })
}

impl PanelModel {
    /// How wide and how tall the panel is drawn, border included.
    pub open spec fn size(self, area: Rect) -> (u16, u16) {
        (
            within(widest(self.lines) + 4, 24, area.width as int) as u16,
            within(self.lines.len() as int + 2, 0, area.height as int) as u16,
        )
    }
}

impl Panel {
    /// Where the panel is drawn in an area: in the middle, as large as its text needs.
    pub fn placed(&self, area: Rect) -> (r: Rect)
        ensures
            r == centre(area, self@.size(area).0, self@.size(area).1),
    {
        let width = bounded(measure_lines(&self.lines).saturating_add(4), 24, area.width);
        let height = bounded(self.lines.len().saturating_add(2), 0, area.height);
        centred(area, width, height)
    }
}

// -------------------------------------------------------------------------- the pickers

/// A text with blanks behind it, up to a number of characters.
pub open spec fn padded(text: Seq<char>, to: nat) -> Seq<char> {
    text + Seq::new((if text.len() < to { to - text.len() } else { 0 }) as nat, |i: int| ' ')
}

/// A text with blanks behind it, up to a number of characters.
pub fn pad(text: &str, to: usize) -> (r: String)
    ensures
        r@ == padded(text@, to as nat),
{
    let n = text.unicode_len();
    let mut s = text.to_owned();
    let mut i = n;
    while i < to
        invariant
            n == text@.len(),
            n <= i,
            i <= to || i == n,
            s@ == text@ + Seq::new((i - n) as nat, |i: int| ' '),
        decreases to - i,
    {
        let ghost so_far = s@;
        s.push(' ');
        i += 1;
        assert(s@ =~= text@ + Seq::new((i - n) as nat, |i: int| ' '));
    }
    assert(s@ =~= padded(text@, to as nat));
    s
}

/// A row of the thread picker.
pub open spec fn thread_row(thread: ThreadSummaryModel, chosen: bool) -> Seq<SpanModel> {
    seq![
        set_in(
            if chosen {
                SELECTED_MARK@
            } else {
                " "@
            },
            Tone::Accent,
        ),
        set_in(
            padded(thread.sender_display, 12),
            if chosen {
                Tone::Accent
            } else {
                Tone::Dim
            },
        ),
        set_in(thread.preview, Tone::Dim),
    ]
}

/// The rows of the thread picker.
pub open spec fn thread_rows(picker: ThreadPickerModel) -> Seq<Seq<SpanModel>> {
    if picker.loading {
        seq![seq![set_in(" listing threads…"@, Tone::Dim)]]
    } else if picker.threads.len() == 0 {
        seq![seq![set_in(" no threads in this room"@, Tone::Dim)]]
    } else {
        Seq::new(picker.threads.len(), |i: int| thread_row(picker.threads[i], i == picker.selected))
    }
}

/// The rows of the thread picker.
pub fn draw_threads(picker: &ThreadPicker) -> (r: Vec<Vec<Span>>)
    ensures
        r.deep_view() == thread_rows(picker@),
{
    let mut lines: Vec<Vec<Span>> = Vec::new();
    assert(lines.deep_view() =~= Seq::<Seq<SpanModel>>::empty());
    if picker.loading {
        add_line(&mut lines, " listing threads…", Tone::Dim);
        assert(lines.deep_view() =~= thread_rows(picker@));
        return lines;
    }
    if picker.threads.len() == 0 {
        add_line(&mut lines, " no threads in this room", Tone::Dim);
        assert(lines.deep_view() =~= thread_rows(picker@));
        return lines;
    }
    let ghost all = thread_rows(picker@);
    let mut i: usize = 0;
    while i < picker.threads.len()
        invariant
            i <= picker.threads.len() == all.len(),
            all == Seq::new(
                picker@.threads.len(),
                |i: int| thread_row(picker@.threads[i], i == picker@.selected),
            ),
            lines.deep_view() == all.take(i as int),
        decreases picker.threads.len() - i,
    {
        let ghost so_far = lines.deep_view();
        let chosen = i == picker.selected;
        let mut line: Vec<Span> = Vec::new();
        let marker = if chosen {
            SELECTED_MARK
        } else {
            " "
        };
        let tone = if chosen {
            Tone::Accent
        } else {
            Tone::Dim
        };
        line.push(Span { text: marker.to_owned(), tone: Tone::Accent });
        line.push(Span { text: pad(picker.threads[i].sender_display.as_str(), 12), tone });
        line.push(Span { text: picker.threads[i].preview.clone(), tone: Tone::Dim });
        assert(line.deep_view() =~= all[i as int]);
        lines.push(line);
        assert(lines.deep_view() =~= so_far.push(all[i as int]));
        assert(all.take(i + 1) =~= so_far.push(all[i as int]));
        i += 1;
    }
    assert(all.take(all.len() as int) =~= all);
    lines
}

/// Where the thread picker is drawn: three quarters of the width, and as tall as its list, up
/// to a limit.
pub open spec fn threads_place(area: Rect, threads: nat) -> Rect {
    centre(
        area,
        within(area.width as int * 3 / 4, 20, area.width as int) as u16,
        within(threads as int + 2, 4, if area.height < 20 { area.height as int } else { 20 }) as u16,
    )
}

/// Where the thread picker is drawn.
pub fn place_threads(area: Rect, threads: usize) -> (r: Rect)
    ensures
        r == threads_place(area, threads as nat),
{
    let width = bounded((area.width as usize) * 3 / 4, 20, area.width);
    let limit: u16 = if area.height < 20 {
        area.height
    } else {
        20
    };
    let height = bounded(threads.saturating_add(2), 4, limit);
    centred(area, width, height)
}

/// How many rows of emoji are shown.
pub open spec fn emoji_rows(matches: nat) -> int {
    within(matches as int, 1, EMOJI_ROWS as int)
}

/// The rows of the emoji picker that are shown: from where, and how many. The highlight stays
/// on screen.
pub fn emoji_window(matches: usize, selected: usize) -> (r: (usize, usize))
    ensures
        r.1 == emoji_rows(matches as nat),
        r.0 == (if selected >= r.1 {
            selected - r.1 + 1
        } else {
            0
        }),
{
    let rows: usize = if matches > EMOJI_ROWS {
        EMOJI_ROWS
    } else if matches >= 1 {
        matches
    } else {
        1
    };
    (selected.saturating_sub(rows - 1), rows)
}

/// Where the emoji picker is drawn: half the width, and as tall as its rows, with the query
/// and the border.
pub fn place_emoji(area: Rect, matches: usize) -> (r: Rect)
    ensures
        r == centre(
            area,
            within(area.width as int / 2, 24, area.width as int) as u16,
            within(emoji_rows(matches as nat) + 3, 0, area.height as int) as u16,
        ),
{
    let (_, rows) = emoji_window(matches, 0);
    let width = bounded((area.width / 2) as usize, 24, area.width);
    let height = bounded(rows + 3, 0, area.height);
    centred(area, width, height)
}

/// The title of the emoji picker.
pub fn emoji_title(target: &emoji::Target) -> (r: &'static str)
    ensures
        r@ == (match target@ {
            emoji::TargetModel::Composer => " emoji "@,
            emoji::TargetModel::Reaction { .. } => " react "@,
        }),
{
    match target {
        emoji::Target::Composer => " emoji ",
        emoji::Target::Reaction { .. } => " react ",
    }
}

/// The rows of the key overlay: the keys of each command, and what it does.
pub fn help_rows(prefix: Prefix) -> (r: Vec<(String, String)>)
    ensures
        r.deep_view() == Seq::new(
            COMMAND_COUNT as nat,
            |i: int| (keys_written(command_table()[i], prefix), command_table()[i].name@),
        ),
{
    let table = commands();
    let ghost all = Seq::new(
        COMMAND_COUNT as nat,
        |i: int| (keys_written(command_table()[i], prefix), command_table()[i].name@),
    );
    let mut out: Vec<(String, String)> = Vec::new();
    let mut i: usize = 0;
    while i < table.len()
        invariant
            i <= table.len() == COMMAND_COUNT,
            table@ == command_table(),
            all == Seq::new(
                COMMAND_COUNT as nat,
                |i: int| (keys_written(command_table()[i], prefix), command_table()[i].name@),
            ),
            out.deep_view() == all.take(i as int),
        decreases table.len() - i,
    {
        let ghost so_far = out.deep_view();
        let keys = keys_for(&table[i], prefix);
        out.push((keys, table[i].name.to_owned()));
        assert(out.deep_view() =~= so_far.push(all[i as int]));
        assert(all.take(i + 1) =~= so_far.push(all[i as int]));
        i += 1;
    }
    assert(all.take(all.len() as int) =~= all);
    out
}

// ------------------------------------------------------------------------------- bars

/// The label of a tab: its title, a lock, and what is unread.
pub open spec fn tab_label(tab: TabModel) -> Seq<char> {
    tab.title + (if tab.is_encrypted {
        " "@ + LOCK@
    } else {
        ""@
    }) + (match tab.unread.badge() {
        Some(badge) => " "@ + badge,
        None => ""@,
    })
}

/// The label of a tab.
pub fn label_tab(tab: &Tab) -> (r: String)
    ensures
        r@ == tab_label(tab@),
{
    let mut label = tab.title.clone();
    if tab.is_encrypted {
        label.append(" ");
        label.append(LOCK);
        assert(label@ =~= tab@.title + (" "@ + LOCK@));
    } else {
        label.append("");
    }
    let badge = match tab.unread.label() {
        Some(badge) => {
            let mut s = " ".to_owned();
            s.append(badge.as_str());
            s
        },
        None => "".to_owned(),
    };
    label.append(badge.as_str());
    label
}

/// What the bar says of the panes in a state.
pub open spec fn badge_for(state: AgentState, count: usize) -> Option<Seq<char>> {
    if count > 0 && (state is Blocked || state is Done) {
        Some(" "@ + state.spec_glyph() + " "@ + decimal(count as nat) + " "@)
    } else {
        None
    }
}

/// The badge of the workspace bar: what needs attention, and how much of it.
pub fn bar_badge(state: AgentState, count: usize) -> (r: Option<String>)
    ensures
        r.deep_view() == badge_for(state, count),
{
    if count > 0 && state.is_notable() {
        let mut s = " ".to_owned();
        s.append(state.glyph());
        s.append(" ");
        s.append(decimal_text(count as u64).as_str());
        s.append(" ");
        Some(s)
    } else {
        None
    }
}

/// A cell of a bar: a label with a blank on either side, no narrower than a tab should be.
pub open spec fn cell(label: Seq<char>) -> Seq<char> {
    " "@ + padded(
        label,
        if display_width(label) < MIN_TAB_WIDTH {
            (label.len() + MIN_TAB_WIDTH - display_width(label)) as nat
        } else {
            0
        },
    ) + " "@
}

/// A width in cells, stopping at the largest number.
pub open spec fn columns(text: Seq<char>) -> u16 {
    if display_width(text) > u16::MAX {
        u16::MAX
    } else {
        display_width(text) as u16
    }
}

fn columns_of(text: &str) -> (r: u16)
    ensures
        r == columns(text@),
{
    let width = text_width(text);
    if width > u16::MAX as usize {
        u16::MAX
    } else {
        width as u16
    }
}

/// Where a bar of these labels ends, behind its last cell, if it begins at a column.
pub open spec fn strip_end(labels: Seq<Seq<char>>, origin: u16) -> u16
    decreases labels.len(),
{
    if labels.len() == 0 {
        origin
    } else {
        capped(
            capped(strip_end(labels.drop_last(), origin), columns(TAB_SEPARATOR@)),
            columns(cell(labels.last())),
        )
    }
}

/// Where the cells of a bar stand.
pub open spec fn strip_hits(labels: Seq<Seq<char>>, origin: u16) -> Seq<Hit> {
    Seq::new(
        labels.len(),
        |i: int|
            Hit {
                x0: capped(strip_end(labels.take(i), origin), columns(TAB_SEPARATOR@)),
                x1: strip_end(labels.take(i + 1), origin),
                index: i as usize,
            },
    )
}

fn make_cell(label: &str) -> (r: String)
    ensures
        r@ == cell(label@),
{
    let width = text_width(label);
    let more = if width < MIN_TAB_WIDTH {
        MIN_TAB_WIDTH - width
    } else {
        0
    };
    let mut s = " ".to_owned();
    s.append(pad_more(label, more).as_str());
    s.append(" ");
    s
}

fn pad_more(label: &str, more: usize) -> (r: String)
    requires
        more <= MIN_TAB_WIDTH,
    ensures
        r@ == padded(label@, (if more > 0 { label@.len() + more } else { 0 }) as nat),
{
    let mut s = label.to_owned();
    let mut i: usize = 0;
    while i < more
        invariant
            i <= more <= MIN_TAB_WIDTH,
            s@ == label@ + Seq::new(i as nat, |i: int| ' '),
        decreases more - i,
    {
        s.push(' ');
        i += 1;
        assert(s@ =~= label@ + Seq::new(i as nat, |i: int| ' '));
    }
    assert(s@ =~= padded(label@, (if more > 0 { label@.len() + more } else { 0 }) as nat));
    s
}

/// Build a strip of tab-like cells: their texts, where each stands, and the column just past
/// the trailing separator.
///
/// Both bars go through this, so a workspace and a room are visually the same kind of thing: a
/// separated, padded, selectable cell.
pub fn tab_strip(labels: &Vec<String>, origin: u16) -> (r: (Vec<String>, Vec<Hit>, u16))
    ensures
        r.0.deep_view() == labels.deep_view().map_values(|l: Seq<char>| cell(l)),
        r.1@ == strip_hits(labels.deep_view(), origin),
        r.2 == capped(strip_end(labels.deep_view(), origin), columns(TAB_SEPARATOR@)),
{
    let ghost all = labels.deep_view();
    let ghost cells = all.map_values(|l: Seq<char>| cell(l));
    let separator = columns_of(TAB_SEPARATOR);
    let mut texts: Vec<String> = Vec::new();
    let mut hits: Vec<Hit> = Vec::new();
    let mut x = origin;
    let mut i: usize = 0;
    assert(all.take(0) =~= Seq::<Seq<char>>::empty());
    while i < labels.len()
        invariant
            i <= labels.len(),
            all == labels.deep_view(),
            cells == all.map_values(|l: Seq<char>| cell(l)),
            separator == columns(TAB_SEPARATOR@),
            texts.deep_view() == cells.take(i as int),
            hits@ == strip_hits(all, origin).take(i as int),
            x == strip_end(all.take(i as int), origin),
        decreases labels.len() - i,
    {
        let ghost so_far = texts.deep_view();
        let ghost before = hits@;
        proof {
            assert(all.take(i + 1).drop_last() =~= all.take(i as int));
            assert(all.take(i + 1).last() == labels@[i as int]@);
        }
        let x0 = x.saturating_add(separator);
        let text = make_cell(labels[i].as_str());
        let x1 = x0.saturating_add(columns_of(text.as_str()));
        let hit = Hit { x0, x1, index: i };
        hits.push(hit);
        texts.push(text);
        x = x1;
        proof {
            assert(text@ == cells[i as int]);
            assert(texts.deep_view() =~= so_far.push(cells[i as int]));
            assert(cells.take(i + 1) =~= so_far.push(cells[i as int]));
            assert(hit == strip_hits(all, origin)[i as int]);
            assert(strip_hits(all, origin).take(i + 1) =~= before.push(hit));
        }
        i += 1;
    }
    proof {
        assert(all.take(all.len() as int) =~= all);
        assert(cells.take(cells.len() as int) =~= cells);
        assert(strip_hits(all, origin).take(all.len() as int) =~= strip_hits(all, origin));
    }
    (texts, hits, x.saturating_add(separator))
}

/// The cells of a bar do not overlap: each begins behind the one before it.
pub proof fn law_cells_do_not_overlap(labels: Seq<Seq<char>>, origin: u16, i: int, j: int)
    requires
        0 <= i < j < labels.len(),
    ensures
        strip_hits(labels, origin)[i].x1 <= strip_hits(labels, origin)[j].x0,
    decreases j,
{
    lemma_strip_grows(labels, origin, i + 1, j);
}

proof fn lemma_strip_grows(labels: Seq<Seq<char>>, origin: u16, a: int, b: int)
    requires
        0 <= a <= b <= labels.len(),
    ensures
        strip_end(labels.take(a), origin) <= strip_end(labels.take(b), origin),
    decreases b,
{
    if a < b {
        lemma_strip_grows(labels, origin, a, b - 1);
        assert(labels.take(b).drop_last() =~= labels.take(b - 1));
    }
}

// ----------------------------------------------------------------------------- status

/// The mark of the connection, and a word where a mark is not enough to explain why nothing
/// is arriving.
pub open spec fn sync_words(sync: SyncState) -> (Seq<char>, Option<Seq<char>>) {
    match sync {
        SyncState::Running => ("●"@, None),
        SyncState::Initial => ("◐"@, None),
        SyncState::Idle => ("○"@, None),
        SyncState::Offline => ("⚠"@, Some("offline"@)),
        SyncState::Terminated => ("✖"@, Some("stopped"@)),
    }
}

/// The mark of the connection, and a word where a mark is not enough.
pub fn sync_mark(sync: SyncState) -> (r: (&'static str, Option<&'static str>))
    ensures
        r.0@ == sync_words(sync).0,
        match r.1 {
            Some(word) => sync_words(sync).1 == Some(word@),
            None => sync_words(sync).1 is None,
        },
{
    match sync {
        SyncState::Running => ("●", None),
        SyncState::Initial => ("◐", None),
        SyncState::Idle => ("○", None),
        SyncState::Offline => ("⚠", Some("offline")),
        SyncState::Terminated => ("✖", Some("stopped")),
    }
}

/// How much of the status bar its left side takes: the mark, its word, and the status.
pub open spec fn left_of_status(sync: SyncState, status: Option<Seq<char>>) -> int {
    3 + (match sync_words(sync).1 {
        Some(word) => display_width(word) as int,
        None => 0,
    }) + (match status {
        Some(text) => 2 + display_width(text),
        None => 0,
    })
}

/// How much of the status bar its left side takes, stopping at the largest number.
pub fn status_width(sync: SyncState, status: Option<&str>) -> (r: usize)
    ensures
        r == ({
            let wanted = left_of_status(
                sync,
                match status {
                    Some(text) => Some(text@),
                    None => None,
                },
            );
            if wanted > usize::MAX {
                usize::MAX as int
            } else {
                wanted
            }
        }),
{
    let (_, word) = sync_mark(sync);
    let first: usize = match word {
        Some(word) => text_width(word),
        None => 0,
    };
    let second: usize = match status {
        Some(text) => text_width(text).saturating_add(2),
        None => 0,
    };
    first.saturating_add(3).saturating_add(second)
}

/// The largest of some numbers; zero for none.
pub open spec fn most(widths: Seq<usize>) -> usize
    decreases widths.len(),
{
    if widths.len() == 0 {
        0
    } else if widths.last() > most(widths.drop_last()) {
        widths.last()
    } else {
        most(widths.drop_last())
    }
}

/// Whether key hints of these widths fit into a row beside what stands left of them, each in
/// a cell as wide as the widest with a gap.
pub open spec fn hints_fit(widths: Seq<usize>, width: u16, left: usize) -> bool {
    (most(widths) + HINT_GAP) * widths.len() + left <= width
}

/// How many of these hints are shown: shed from the least useful end until the row fits.
pub open spec fn hints_shown(widths: Seq<usize>, width: u16, left: usize) -> nat
    decreases widths.len(),
{
    if widths.len() == 0 {
        0
    } else if hints_fit(widths, width, left) {
        widths.len()
    } else {
        hints_shown(widths.drop_last(), width, left)
    }
}

fn find_most(widths: &Vec<usize>, n: usize) -> (r: usize)
    requires
        n <= widths.len(),
    ensures
        r == most(widths@.take(n as int)),
{
    let mut r: usize = 0;
    let mut i: usize = 0;
    while i < n
        invariant
            i <= n <= widths.len(),
            r == most(widths@.take(i as int)),
        decreases n - i,
    {
        assert(widths@.take(i + 1).drop_last() =~= widths@.take(i as int));
        if widths[i] > r {
            r = widths[i];
        }
        i += 1;
    }
    r
}

/// How many key hints are shown, and how wide the cell of each is. A narrow row keeps the
/// most useful of them rather than dropping the lot.
pub fn fit_hints(widths: &Vec<usize>, width: u16, left: usize) -> (r: (usize, usize))
    ensures
        r.0 == hints_shown(widths@, width, left),
        r.0 > 0 ==> r.1 == most(widths@.take(r.0 as int)) + HINT_GAP,
        r.0 == 0 ==> r.1 == 0,
{
    let mut n = widths.len();
    assert(widths@.take(n as int) =~= widths@);
    while n > 0
        invariant
            n <= widths.len(),
            hints_shown(widths@.take(n as int), width, left) == hints_shown(widths@, width, left),
        decreases n,
    {
        let ghost some = widths@.take(n as int);
        let widest = find_most(widths, n);
        let cell: u128 = widest as u128 + HINT_GAP as u128;
        proof {
            assert(some.drop_last() =~= widths@.take(n - 1));
            assert(cell <= u64::MAX as u128 + 3);
            assert((most(some) + HINT_GAP) * some.len() >= most(some) + HINT_GAP) by (nonlinear_arith)
                requires
                    some.len() >= 1,
                    most(some) + HINT_GAP >= 0,
            ;
            assert((most(some) + HINT_GAP) * some.len() >= some.len()) by (nonlinear_arith)
                requires
                    some.len() >= 1,
                    most(some) + HINT_GAP >= 1,
            ;
        }
        if cell <= width as u128 && n <= width as usize {
            assert(cell * n <= 65535 * 65535) by (nonlinear_arith)
                requires
                    0 <= cell <= 65535,
                    0 <= n <= 65535,
            ;
            if cell * (n as u128) + left as u128 <= width as u128 {
                return (n, widest + HINT_GAP);
            }
        }
        n -= 1;
    }
    (0, 0)
}

/// The hints that are shown fit, and one more would not.
pub proof fn law_as_many_hints_as_fit(widths: Seq<usize>, width: u16, left: usize)
    ensures
        hints_shown(widths, width, left) <= widths.len(),
        hints_shown(widths, width, left) > 0 ==> hints_fit(
            widths.take(hints_shown(widths, width, left) as int),
            width,
            left,
        ),
        hints_shown(widths, width, left) < widths.len() ==> !hints_fit(
            widths.take(hints_shown(widths, width, left) as int + 1),
            width,
            left,
        ),
    decreases widths.len(),
{
    if widths.len() > 0 {
        assert(widths.take(widths.len() as int) =~= widths);
        if !hints_fit(widths, width, left) {
            let rest = widths.drop_last();
            law_as_many_hints_as_fit(rest, width, left);
            let n = hints_shown(rest, width, left) as int;
            assert(widths.take(n) =~= rest.take(n));
            if n < rest.len() {
                assert(widths.take(n + 1) =~= rest.take(n + 1));
            }
        }
    }
}

/// The title of the composer.
pub open spec fn title_for(composing: Option<PendingModel>, mode: Mode) -> Seq<char> {
    match composing {
        Some(PendingModel::Reply(_)) => "reply"@,
        Some(PendingModel::Edit(_)) => "edit"@,
        None => match mode {
            Mode::Insert => "insert"@,
            Mode::Prefix => "prefix"@,
            Mode::Normal => "normal"@,
        },
    }
}

/// What the composer says it will do. What it is about to do outranks the mode: sending an
/// edit when you meant to send a message cannot be undone.
pub fn composer_title(composing: Option<&Pending>, mode: Mode) -> (r: &'static str)
    ensures
        r@ == title_for(
            match composing {
                Some(pending) => Some(pending@),
                None => None,
            },
            mode,
        ),
{
    match composing {
        Some(Pending::Reply(_)) => "reply",
        Some(Pending::Edit(_)) => "edit",
        None => match mode {
            Mode::Insert => "insert",
            Mode::Prefix => "prefix",
            Mode::Normal => "normal",
        },
    }
}

// ------------------------------------------------------------------------------ panes

/// The pane of the focused tab with the id of a placement.
pub open spec fn pane_placed(app: AppModel, placement: Placement) -> Option<PaneModel> {
    match app.focused_tab() {
        Some(tab) => match first_where(tab.panes, with_id(placement.id)) {
            Some(i) => Some(tab.panes[i]),
            None => None,
        },
        None => None,
    }
}

/// What is drawn at a placement.
pub open spec fn frame_at(app: AppModel, placement: Placement) -> PaneFrameModel {
    let pane = pane_placed(app, placement);
    PaneFrameModel {
        placement,
        header: match pane {
            Some(p) => p.header(),
            None => Seq::empty(),
        },
        state: match pane {
            Some(p) => p.state,
            None => AgentState::Idle,
        },
        view: match pane {
            Some(p) => Some(ViewModel { room_id: p.kind.room_id(), thread_root: p.kind.thread_root() }),
            None => None,
        },
        scroll: match pane {
            Some(p) => app.scroll_of(
                ViewModel { room_id: p.kind.room_id(), thread_root: p.kind.thread_root() },
            ) as u16,
            None => 0,
        },
        selected: if placement.is_focused {
            app.selected_event()
        } else {
            None
        },
    }
}

fn find_pane(tab: &Tab, placement: Placement) -> (r: Option<&Pane>)
    ensures
        match r {
            Some(p) => {
                &&& first_where(tab@.panes, with_id(placement.id)) is Some
                &&& p@ == tab@.panes[first_where(tab@.panes, with_id(placement.id))->0]
            },
            None => first_where(tab@.panes, with_id(placement.id)) is None,
        },
{
    let mut i: usize = 0;
    while i < tab.panes.len()
        invariant
            i <= tab.panes.len(),
            forall|j: int| 0 <= j < i ==> !with_id(placement.id)(#[trigger] tab@.panes[j]),
        decreases tab.panes.len() - i,
    {
        assert(tab@.panes[i as int] == tab.panes@[i as int]@);
        if tab.panes[i].id == placement.id {
            proof {
                assert(with_id(placement.id)(tab@.panes[i as int]));
                lemma_first(tab@.panes, with_id(placement.id), i as int);
            }
            return Some(&tab.panes[i]);
        }
        i += 1;
    }
    proof {
        lemma_no_first(tab@.panes, with_id(placement.id));
    }
    None
}

fn frame_of(app: &App, placement: Placement) -> (r: PaneFrame)
    ensures
        r@ == frame_at(app@, placement),
{
    let pane = match app.focused_tab() {
        Some(tab) => find_pane(tab, placement),
        None => None,
    };
    let selected = if placement.is_focused {
        app.selected_id()
    } else {
        None
    };
    match pane {
        Some(pane) => {
            let view = match pane.kind.thread_root() {
                Some(root) => matrix::View::thread(pane.kind.room_id(), root),
                None => matrix::View::room(pane.kind.room_id()),
            };
            let scroll: u16 = match app.scroll.get(&view) {
                Some(n) => *n,
                None => 0,
            };
            PaneFrame { placement, header: pane.header(), state: pane.state, view: Some(view), scroll, selected }
        },
        None => {
            let header = String::new();
            assert(header@ =~= Seq::<char>::empty());
            PaneFrame { placement, header, state: AgentState::Idle, view: None, scroll: 0, selected }
        },
    }
}

/// What is drawn at each placement. Every pane is drawn, not just the focused one: a pane that
/// goes blank the moment it loses focus destroys the reason for having panes at all.
pub fn draw_panes(app: &App, placements: &Vec<Placement>) -> (r: Vec<PaneFrame>)
    ensures
        r.deep_view() == placements@.map_values(|p: Placement| frame_at(app@, p)),
{
    let ghost all = placements@.map_values(|p: Placement| frame_at(app@, p));
    let mut out: Vec<PaneFrame> = Vec::new();
    let mut i: usize = 0;
    while i < placements.len()
        invariant
            i <= placements.len(),
            all == placements@.map_values(|p: Placement| frame_at(app@, p)),
            out.deep_view() == all.take(i as int),
        decreases placements.len() - i,
    {
        let ghost so_far = out.deep_view();
        let frame = frame_of(app, placements[i]);
        out.push(frame);
        assert(out.deep_view() =~= so_far.push(frame@));
        assert(all.take(i + 1) =~= so_far.push(all[i as int]));
        i += 1;
    }
    assert(all.take(all.len() as int) =~= all);
    out
}

/// Whether these are the placements of a tiling that was just laid out.
pub open spec fn placements_of(t: TilingModel, area: Rect, r: Seq<Placement>) -> bool {
    &&& t.area == area
    &&& placed(t.rects, t.ids)
    &&& arranged(t.rects, t.paths, t.axes)
    &&& t.gap == 0 ==> tiled(t.rects, area)
    &&& t.gap == 0 && t.ids.len() == 1 ==> t.rects == seq![(t.focus, area)]
    &&& r == (match t.zoomed {
        Some(z) => if rect_of(t.rects, z.0) is Some {
            seq![(Placement { id: z, rect: area, is_focused: true })]
        } else {
            t.placements()
        },
        None => t.placements(),
    })
}

impl App {
    /// Lay the panes of the focused tab out in an area. A tab that has no tiling yet gets one.
    pub fn lay_out_panes(&mut self, area: Rect) -> (r: Vec<Placement>)
        ensures
            match old(self)@.focused_room() {
                Some(room) => {
                    let before = if old(self)@.tilings.contains_key(room) {
                        old(self)@.tilings[room]
                    } else {
                        TilingModel::fresh()
                    };
                    exists|t: TilingModel|
                        {
                            &&& #[trigger] placements_of(t, area, r@)
                            &&& t == (TilingModel { rects: t.rects, area, ..before })
                            &&& final(self)@ == (AppModel {
                                tilings: old(self)@.tilings.insert(room, t),
                                ..old(self)@
                            })
                        }
                },
                None => r@.len() == 0 && final(self)@ == old(self)@,
            },
    {
        let ghost before = self@;
        let room = match self.focused_room() {
            Some(room) => room,
            None => {
                return Vec::new();
            },
        };
        proof {
            lemma_deep(self.tilings@, room@);
        }
        let mut tiling = match self.tilings.remove(room.as_str()) {
            Some(tiling) => tiling,
            None => Tiling::new(),
        };
        let placements = tiling.layout(area);
        proof {
            lemma_deep(self.tilings@, room@);
            assert(self.tilings.deep_view().insert(room@, tiling@) =~= before.tilings.insert(room@, tiling@));
            assert(placements_of(tiling@, area, placements@));
        }
        self.tilings.insert(room, tiling);
        placements
    }

    /// Note what the renderer measured of the focused transcript.
    pub fn record_geometry(&mut self, rendered_lines: u16, viewport_height: u16, anchors: Vec<Anchor>)
        ensures
            final(self)@ == (AppModel {
                rendered_lines,
                viewport_height,
                anchors: anchors.deep_view(),
                ..old(self)@
            }),
    {
        self.rendered_lines = rendered_lines;
        self.viewport_height = viewport_height;
        self.anchors = anchors;
    }
}

// ---------------------------------------------------------------------------- anchors

/// The widest area in which a line of any length can be wrapped.
pub const WIDEST: u16 = 0x4000;

/// The most characters that a line can have to be wrapped in an area of any width.
pub const LONGEST: usize = 0x5555;

/// How many rows ratatui's word wrapping makes of a line.
pub uninterp spec fn wrapped_rows(text: Seq<char>, width: u16) -> usize;

/// `Paragraph::line_count`, of one line with its blanks kept: how many rows it wraps into. What
/// it answers depends on the text and the width alone, and is named rather than described.
///
/// The wrapping adds cells up in sixteen bits. Its sums stay below four times the width,
/// since no cluster is taken that is wider than that; and they never pass the cells of the
/// whole line, of which a character has three at most. Where neither bound keeps them in
/// sixteen bits it may panic.
#[verifier::external_body]
fn count_rows(text: &str, width: u16) -> (r: usize)
    requires
        width <= WIDEST || text@.len() <= LONGEST,
    ensures
        r == wrapped_rows(text@, width),
{
    ratatui::widgets::Paragraph::new(ratatui::text::Line::from(text))
        .wrap(ratatui::widgets::Wrap { trim: false })
        .line_count(width)
}

/// How many rows a line takes: at least one, stopping at the largest number.
pub open spec fn taken_by(rows: usize) -> u16 {
    if rows == 0 {
        1
    } else if rows > u16::MAX {
        u16::MAX
    } else {
        rows as u16
    }
}

/// The row at which what follows lines of these heights begins, stopping at the largest
/// number.
pub open spec fn row_behind(heights: Seq<usize>) -> u16
    decreases heights.len(),
{
    if heights.len() == 0 {
        0
    } else {
        capped(row_behind(heights.drop_last()), taken_by(heights.last()))
    }
}

/// An anchor in the rows of the wrapped transcript.
pub open spec fn moved_anchor(heights: Seq<usize>, anchor: AnchorModel) -> AnchorModel {
    AnchorModel {
        row: row_behind(
            heights.take(
                if anchor.row < heights.len() {
                    anchor.row as int
                } else {
                    heights.len() as int
                },
            ),
        ),
        ..anchor
    }
}

/// The width at which a line is wrapped to count its rows: the one asked for, unless the line
/// is too long for it.
pub open spec fn counted_width(line: Seq<char>, width: u16) -> u16 {
    if width <= WIDEST || line.len() <= LONGEST {
        width
    } else {
        WIDEST
    }
}

/// The heights of some lines, wrapped at a width.
pub open spec fn heights_of(lines: Seq<Seq<char>>, width: u16) -> Seq<usize> {
    lines.map_values(|l: Seq<char>| wrapped_rows(l, counted_width(l, width)))
}

/// Re-express anchors in wrapped rows, given how many rows each line takes.
///
/// Every line that wraps above an anchor pushes the real row further down than its recorded
/// one, so scrolling to the selection would undershoot by the accumulated difference.
pub fn move_anchors(heights: &Vec<usize>, anchors: &Vec<Anchor>) -> (r: Vec<Anchor>)
    ensures
        r.deep_view() == anchors.deep_view().map_values(|a: AnchorModel| moved_anchor(heights@, a)),
{
    let mut offsets: Vec<u16> = Vec::new();
    let mut total: u16 = 0;
    let mut i: usize = 0;
    assert(heights@.take(0) =~= Seq::<usize>::empty());
    while i < heights.len()
        invariant
            i <= heights.len(),
            total == row_behind(heights@.take(i as int)),
            offsets@.len() == i,
            forall|j: int| 0 <= j < i ==> offsets@[j] == row_behind(heights@.take(j)),
        decreases heights.len() - i,
    {
        offsets.push(total);
        assert(heights@.take(i + 1).drop_last() =~= heights@.take(i as int));
        let rows: u16 = if heights[i] == 0 {
            1
        } else if heights[i] > 0xffff {
            0xffff
        } else {
            heights[i] as u16
        };
        total = total.saturating_add(rows);
        i += 1;
    }
    assert(heights@.take(heights.len() as int) =~= heights@);
    let ghost all = anchors.deep_view().map_values(|a: AnchorModel| moved_anchor(heights@, a));
    let mut out: Vec<Anchor> = Vec::new();
    let mut k: usize = 0;
    while k < anchors.len()
        invariant
            k <= anchors.len(),
            total == row_behind(heights@),
            heights@.take(heights.len() as int) == heights@,
            offsets@.len() == heights.len(),
            forall|j: int| 0 <= j < heights.len() ==> offsets@[j] == row_behind(heights@.take(j)),
            all == anchors.deep_view().map_values(|a: AnchorModel| moved_anchor(heights@, a)),
            out.deep_view() == all.take(k as int),
        decreases anchors.len() - k,
    {
        let ghost so_far = out.deep_view();
        let row = anchors[k].row as usize;
        let moved = Anchor {
            event_id: anchors[k].event_id.clone(),
            row: if row < offsets.len() {
                offsets[row]
            } else {
                total
            },
        };
        assert(moved@ == all[k as int]);
        out.push(moved);
        assert(out.deep_view() =~= so_far.push(moved@));
        assert(all.take(k + 1) =~= so_far.push(all[k as int]));
        k += 1;
    }
    assert(all.take(all.len() as int) =~= all);
    out
}

/// Re-express anchors in the units the scroll offset counts: rows of the transcript wrapped at
/// a width. They are left alone while the width is not known. A line too long to be wrapped
/// at so large a width is counted at the largest that fits every line.
pub fn wrapped_anchors(lines: &Vec<String>, anchors: &Vec<Anchor>, width: u16) -> (r: Vec<Anchor>)
    ensures
        r.deep_view() == (if width == 0 {
            anchors.deep_view()
        } else {
            anchors.deep_view().map_values(
                |a: AnchorModel| moved_anchor(heights_of(lines.deep_view(), width), a),
            )
        }),
{
    if width == 0 {
        let mut same: Vec<Anchor> = Vec::new();
        let mut k: usize = 0;
        while k < anchors.len()
            invariant
                k <= anchors.len(),
                same.deep_view() == anchors.deep_view().take(k as int),
            decreases anchors.len() - k,
        {
            let ghost so_far = same.deep_view();
            let copy = Anchor { event_id: anchors[k].event_id.clone(), row: anchors[k].row };
            assert(copy@ == anchors.deep_view()[k as int]);
            same.push(copy);
            assert(same.deep_view() =~= so_far.push(copy@));
            assert(anchors.deep_view().take(k + 1) =~= so_far.push(copy@));
            k += 1;
        }
        assert(anchors.deep_view().take(anchors.len() as int) =~= anchors.deep_view());
        return same;
    }
    let ghost all = heights_of(lines.deep_view(), width);
    let mut heights: Vec<usize> = Vec::new();
    let mut i: usize = 0;
    while i < lines.len()
        invariant
            i <= lines.len(),
            all == heights_of(lines.deep_view(), width),
            heights@ == all.take(i as int),
        decreases lines.len() - i,
    {
        let line = lines[i].as_str();
        let at = if width <= WIDEST || line.unicode_len() <= LONGEST {
            width
        } else {
            WIDEST
        };
        let rows = count_rows(line, at);
        assert(rows == all[i as int]);
        heights.push(rows);
        assert(heights@ =~= all.take(i + 1));
        i += 1;
    }
    assert(all.take(all.len() as int) =~= all);
    move_anchors(&heights, anchors)
}

/// Wrapping only ever pushes an anchor down, never up.
pub proof fn law_anchors_only_move_down(heights: Seq<usize>, anchor: AnchorModel)
    requires
        heights.len() <= u16::MAX,
        anchor.row <= heights.len(),
    ensures
        moved_anchor(heights, anchor).row >= anchor.row,
{
    lemma_rows_behind(heights.take(anchor.row as int));
    assert(heights.take(heights.len() as int) =~= heights);
}

proof fn lemma_rows_behind(heights: Seq<usize>)
    requires
        heights.len() <= u16::MAX,
    ensures
        row_behind(heights) >= heights.len(),
    decreases heights.len(),
{
    if heights.len() > 0 {
        lemma_rows_behind(heights.drop_last());
    }
}

} // verus!
