//! The command palette.
//!
//! A searchable list of the same commands the prefix bindings run, showing the key beside
//! each one.
//!
//! A table rather than a reflection of the keymap: not every binding is one command, and
//! not every command needs a key.

use vstd::prelude::*;
use vstd::string::*;

use crate::app::keymap::{ascii_lowered, lowered, mapped, Action, KeyCode, KeyEvent, KeyModifiers, Mode, Prefix};
use crate::layout::tiling::Dir;
use crate::seqs::{sort, sorted};
use crate::text::{before, chars_of, lemma_before_is, lowercase, slice, string_of};

verus! {

/// One entry in the palette.
#[derive(Debug, Clone, Copy, PartialEq, Eq)]
pub struct Command {
    /// Shown, and searched.
    pub name: &'static str,
    /// The equivalent key, without the prefix. Empty when the command has no binding.
    pub keys: &'static str,
    /// Whether `keys` needs the prefix pressed first.
    pub prefixed: bool,
    pub action: Action,
}

/// How many commands there are.
pub const COMMAND_COUNT: usize = 30;

/// Everything the palette can run, ordered by how often it is wanted, which is also the
/// order shown before anything is typed. Without the composer's editing keys, which are
/// only meaningful while the palette is shut.
pub open spec fn command_table() -> Seq<Command> {
    seq![
        Command { name: "split right", keys: "|", prefixed: true, action: Action::Split(Dir::Right) },
        Command { name: "split down", keys: "-", prefixed: true, action: Action::Split(Dir::Down) },
        Command { name: "close pane", keys: "x", prefixed: true, action: Action::ClosePane },
        Command { name: "zoom pane", keys: "z", prefixed: true, action: Action::ZoomPane },
        Command { name: "focus pane left", keys: "h", prefixed: true, action: Action::FocusPane(Dir::Left) },
        Command { name: "focus pane down", keys: "j", prefixed: true, action: Action::FocusPane(Dir::Down) },
        Command { name: "focus pane up", keys: "k", prefixed: true, action: Action::FocusPane(Dir::Up) },
        Command { name: "focus pane right", keys: "l", prefixed: true, action: Action::FocusPane(Dir::Right) },
        Command { name: "resize pane left", keys: "H", prefixed: true, action: Action::ResizePane(Dir::Left) },
        Command { name: "resize pane down", keys: "J", prefixed: true, action: Action::ResizePane(Dir::Down) },
        Command { name: "resize pane up", keys: "K", prefixed: true, action: Action::ResizePane(Dir::Up) },
        Command { name: "resize pane right", keys: "L", prefixed: true, action: Action::ResizePane(Dir::Right) },
        Command { name: "new thread", keys: "c", prefixed: true, action: Action::NewThread },
        Command { name: "thread picker", keys: "t", prefixed: true, action: Action::OpenThreads },
        Command { name: "next room", keys: "n", prefixed: true, action: Action::NextTab },
        Command { name: "previous room", keys: "p", prefixed: true, action: Action::PrevTab },
        Command { name: "next workspace", keys: "w", prefixed: true, action: Action::NextWorkspace },
        Command { name: "previous workspace", keys: "W", prefixed: true, action: Action::PrevWorkspace },
        Command { name: "reply to selection", keys: "r", prefixed: false, action: Action::Reply },
        Command { name: "edit selection", keys: "e", prefixed: false, action: Action::EditMessage },
        Command { name: "delete selection", keys: "D", prefixed: false, action: Action::RedactMessage },
        Command { name: "react to selection", keys: "r", prefixed: true, action: Action::ReactToSelected },
        Command { name: "emoji into composer", keys: "e", prefixed: true, action: Action::EmojiIntoComposer },
        Command { name: "verify this device", keys: "v", prefixed: true, action: Action::StartVerification },
        Command { name: "recovery key", keys: "R", prefixed: true, action: Action::OpenRecovery },
        Command { name: "accept invitation", keys: "a", prefixed: true, action: Action::JoinRoom },
        Command { name: "leave room", keys: "X", prefixed: true, action: Action::LeaveRoom },
        Command { name: "keyboard help", keys: "?", prefixed: true, action: Action::ToggleHelp },
        Command { name: "redraw the screen", keys: "^l", prefixed: false, action: Action::Redraw },
        Command { name: "quit", keys: "q", prefixed: true, action: Action::Quit },
    ]
}

/// Everything the palette can run, in the order shown before anything is typed.
pub fn commands() -> (r: Vec<Command>)
    ensures
        r@ == command_table(),
        r@.len() == COMMAND_COUNT,
{
    let mut v: Vec<Command> = Vec::new();
    v.push(Command { name: "split right", keys: "|", prefixed: true, action: Action::Split(Dir::Right) });
    v.push(Command { name: "split down", keys: "-", prefixed: true, action: Action::Split(Dir::Down) });
    v.push(Command { name: "close pane", keys: "x", prefixed: true, action: Action::ClosePane });
    v.push(Command { name: "zoom pane", keys: "z", prefixed: true, action: Action::ZoomPane });
    v.push(Command { name: "focus pane left", keys: "h", prefixed: true, action: Action::FocusPane(Dir::Left) });
    v.push(Command { name: "focus pane down", keys: "j", prefixed: true, action: Action::FocusPane(Dir::Down) });
    v.push(Command { name: "focus pane up", keys: "k", prefixed: true, action: Action::FocusPane(Dir::Up) });
    v.push(Command { name: "focus pane right", keys: "l", prefixed: true, action: Action::FocusPane(Dir::Right) });
    v.push(Command { name: "resize pane left", keys: "H", prefixed: true, action: Action::ResizePane(Dir::Left) });
    v.push(Command { name: "resize pane down", keys: "J", prefixed: true, action: Action::ResizePane(Dir::Down) });
    v.push(Command { name: "resize pane up", keys: "K", prefixed: true, action: Action::ResizePane(Dir::Up) });
    v.push(Command { name: "resize pane right", keys: "L", prefixed: true, action: Action::ResizePane(Dir::Right) });
    v.push(Command { name: "new thread", keys: "c", prefixed: true, action: Action::NewThread });
    v.push(Command { name: "thread picker", keys: "t", prefixed: true, action: Action::OpenThreads });
    v.push(Command { name: "next room", keys: "n", prefixed: true, action: Action::NextTab });
    v.push(Command { name: "previous room", keys: "p", prefixed: true, action: Action::PrevTab });
    v.push(Command { name: "next workspace", keys: "w", prefixed: true, action: Action::NextWorkspace });
    v.push(Command { name: "previous workspace", keys: "W", prefixed: true, action: Action::PrevWorkspace });
    v.push(Command { name: "reply to selection", keys: "r", prefixed: false, action: Action::Reply });
    v.push(Command { name: "edit selection", keys: "e", prefixed: false, action: Action::EditMessage });
    v.push(Command { name: "delete selection", keys: "D", prefixed: false, action: Action::RedactMessage });
    v.push(Command { name: "react to selection", keys: "r", prefixed: true, action: Action::ReactToSelected });
    v.push(Command { name: "emoji into composer", keys: "e", prefixed: true, action: Action::EmojiIntoComposer });
    v.push(Command { name: "verify this device", keys: "v", prefixed: true, action: Action::StartVerification });
    v.push(Command { name: "recovery key", keys: "R", prefixed: true, action: Action::OpenRecovery });
    v.push(Command { name: "accept invitation", keys: "a", prefixed: true, action: Action::JoinRoom });
    v.push(Command { name: "leave room", keys: "X", prefixed: true, action: Action::LeaveRoom });
    v.push(Command { name: "keyboard help", keys: "?", prefixed: true, action: Action::ToggleHelp });
    v.push(Command { name: "redraw the screen", keys: "^l", prefixed: false, action: Action::Redraw });
    v.push(Command { name: "quit", keys: "q", prefixed: true, action: Action::Quit });
    assert(v@ =~= command_table());
    v
}

/// How many matches to show at once.
pub const MAX_ROWS: usize = 12;

// --------------------------------------------------------------------------- scoring

/// How far a query has been matched to a name: where to look on, where the match begins
/// and where it stands, and its penalties so far.
pub struct Matching {
    pub cursor: int,
    pub start: Option<int>,
    pub previous: Option<int>,
    pub strays: nat,
    pub gaps: nat,
}

/// Where a character next stands in a name from `from` on.
pub open spec fn next_at(name: Seq<char>, from: int, c: char) -> Option<int> {
    let n = before(name.skip(from), c);
    if from + n < name.len() {
        Some(from + n)
    } else {
        None
    }
}

/// Whether a word begins at a place.
pub open spec fn starts_word(name: Seq<char>, i: int) -> bool {
    i == 0 || name[i - 1] == ' ' || name[i - 1] == '-'
}

/// One more character of the query, at the next place where it stands. It is astray
/// where it neither starts a word nor goes on right behind the one before it.
pub open spec fn match_char(m: Matching, name: Seq<char>, c: char) -> Option<Matching> {
    match next_at(name, m.cursor, c) {
        Some(i) => {
            let goes_on = m.previous is Some && i == m.previous->0 + 1;
            Some(
                Matching {
                    cursor: i + 1,
                    start: if m.start is None {
                        Some(i)
                    } else {
                        m.start
                    },
                    previous: Some(i),
                    strays: if starts_word(name, i) || goes_on {
                        m.strays
                    } else {
                        m.strays + 1
                    },
                    gaps: if m.start is None || goes_on {
                        m.gaps
                    } else {
                        m.gaps + 1
                    },
                },
            )
        },
        None => None,
    }
}

/// A query matched to a name, character by character.
pub open spec fn match_all(name: Seq<char>, query: Seq<char>) -> Option<Matching>
    decreases query.len(),
{
    if query.len() == 0 {
        Some(Matching { cursor: 0, start: None, previous: None, strays: 0, gaps: 0 })
    } else {
        match match_all(name, query.drop_last()) {
            Some(m) => match_char(m, name, query.last()),
            None => None,
        }
    }
}

/// A count that stops at the largest that fits.
pub open spec fn counted(n: nat) -> u16 {
    if n > u16::MAX {
        u16::MAX
    } else {
        n as u16
    }
}

/// How well a query in lower case fits a name, as a penalty: characters astray, breaks
/// between runs, and where the match begins. Nothing where it does not fit.
pub open spec fn penalty(name: Seq<char>, query: Seq<char>) -> Option<(u16, u16, u16)> {
    match match_all(ascii_lowered(name), query) {
        Some(m) => Some(
            (
                counted(m.strays),
                counted(m.gaps),
                match m.start {
                    Some(i) => i as u16,
                    None => 0,
                },
            ),
        ),
        None => None,
    }
}

proof fn lemma_match_all(name: Seq<char>, query: Seq<char>)
    ensures
        match match_all(name, query) {
            Some(m) => 0 <= m.cursor <= name.len() && (m.previous is Some ==> 0 <= m.previous->0 < name.len()) && (
            m.start is Some ==> 0 <= m.start->0 < name.len()),
            None => true,
        },
    decreases query.len(),
{
    if query.len() > 0 {
        lemma_match_all(name, query.drop_last());
    }
}

/// A query that fits stays fitting when its end is taken off.
pub proof fn law_a_shorter_query_still_fits(name: Seq<char>, query: Seq<char>, n: int)
    requires
        0 <= n <= query.len(),
        penalty(name, query) is Some,
    ensures
        penalty(name, query.take(n)) is Some,
    decreases query.len(),
{
    if n < query.len() {
        law_a_shorter_query_still_fits(name, query.drop_last(), n);
        assert(query.drop_last().take(n) =~= query.take(n));
    } else {
        assert(query.take(n) =~= query);
    }
}

/// An empty query fits every name without penalty.
pub proof fn law_an_empty_query_fits_everything(name: Seq<char>)
    ensures
        penalty(name, Seq::empty()) == Some((0u16, 0u16, 0u16)),
{
}

/// Score a name against a query that is already in lower case, or `None` if it does not
/// match.
///
/// A subsequence match, so "nw" finds "next workspace" without typing the space, and
/// "split" finds "split right" the obvious way.
pub fn score(name: &str, query: &str) -> (r: Option<(u16, u16, u16)>)
    ensures
        r == penalty(name@, query@),
{
    let chars = lowered(&chars_of(name));
    let wanted = chars_of(query);
    let mut cursor: usize = 0;
    let mut start: Option<usize> = None;
    let mut previous: Option<usize> = None;
    let mut strays: u16 = 0;
    let mut gaps: u16 = 0;
    let mut k: usize = 0;
    assert(wanted@.take(0) =~= Seq::empty());
    while k < wanted.len()
        invariant
            k <= wanted.len(),
            wanted@ == query@,
            chars@ == ascii_lowered(name@),
            matches_so_far(
                match_all(chars@, wanted@.take(k as int)),
                cursor,
                start,
                previous,
                strays,
                gaps,
            ),
            cursor <= chars.len(),
        decreases wanted.len() - k,
    {
        let c = wanted[k];
        proof {
            lemma_match_all(chars@, wanted@.take(k as int));
            assert(wanted@.take(k + 1).drop_last() =~= wanted@.take(k as int));
            assert(wanted@.take(k + 1).last() == c);
        }
        let ghost rest = chars@.skip(cursor as int);
        let mut index: usize = cursor;
        while index < chars.len() && chars[index] != c
            invariant
                cursor <= index <= chars.len(),
                rest == chars@.skip(cursor as int),
                forall|j: int| cursor <= j < index ==> chars@[j] != c,
            decreases chars.len() - index,
        {
            index += 1;
        }
        proof {
            lemma_before_is(rest, c, index - cursor);
        }
        if index == chars.len() {
            proof {
                lemma_unmatched(chars@, wanted@, k + 1);
            }
            return None;
        }
        let starts_a_word = index == 0 || chars[index - 1] == ' ' || chars[index - 1] == '-';
        let continues = match previous {
            Some(p) => index == p + 1,
            None => false,
        };
        if !starts_a_word && !continues {
            strays = strays.saturating_add(1);
        }
        if start.is_none() {
            start = Some(index);
        } else if !continues {
            gaps = gaps.saturating_add(1);
        }
        previous = Some(index);
        cursor = index + 1;
        k += 1;
    }
    assert(wanted@.take(wanted.len() as int) =~= wanted@);
    let begin: u16 = match start {
        Some(i) => #[verifier::truncate] (i as u16),
        None => 0,
    };
    Some((strays, gaps, begin))
}

proof fn lemma_unmatched(name: Seq<char>, query: Seq<char>, n: int)
    requires
        0 <= n <= query.len(),
        match_all(name, query.take(n)) is None,
    ensures
        match_all(name, query) is None,
    decreases query.len() - n,
{
    if n < query.len() {
        assert(query.take(n + 1).drop_last() =~= query.take(n));
        lemma_unmatched(name, query, n + 1);
    } else {
        assert(query.take(n) =~= query);
    }
}

spec fn matches_so_far(
    m: Option<Matching>,
    cursor: usize,
    start: Option<usize>,
    previous: Option<usize>,
    strays: u16,
    gaps: u16,
) -> bool {
    &&& m is Some
    &&& cursor == m->0.cursor
    &&& match start {
        Some(i) => m->0.start == Some(i as int),
        None => m->0.start is None,
    }
    &&& match previous {
        Some(i) => m->0.previous == Some(i as int) && i < cursor,
        None => m->0.previous is None,
    }
    &&& strays == counted(m->0.strays)
    &&& gaps == counted(m->0.gaps)
}

/// How well a query fits a name, as a sortable penalty. Lower is better.
///
/// Shared with the mention picker, so the two rank names by the same rules.
pub fn rank(name: &str, query: &str) -> (r: Option<(u16, u16, u16)>)
    ensures
        r == penalty(name@, lowercase(query@)),
{
    score(name, query.to_lowercase().as_str())
}

/// The order of penalties: fewer astray, then fewer breaks, then the earlier.
pub open spec fn lighter(a: (u16, u16, u16), b: (u16, u16, u16)) -> bool {
    a.0 < b.0 || (a.0 == b.0 && (a.1 < b.1 || (a.1 == b.1 && a.2 < b.2)))
}

/// The order of scored entries, which leaves equals as they stand.
pub open spec fn by_penalty() -> spec_fn((u16, u16, u16, usize), (u16, u16, u16, usize)) -> bool {
    |a: (u16, u16, u16, usize), b: (u16, u16, u16, usize)| lighter((a.0, a.1, a.2), (b.0, b.1, b.2))
}

/// Whether one scored entry comes before another.
pub fn is_lighter(a: &(u16, u16, u16, usize), b: &(u16, u16, u16, usize)) -> (r: bool)
    ensures
        r == by_penalty()(*a, *b),
{
    a.0 < b.0 || (a.0 == b.0 && (a.1 < b.1 || (a.1 == b.1 && a.2 < b.2)))
}

// --------------------------------------------------------------------------- palette

/// The state of the palette.
#[derive(Debug)]
pub struct Palette {
    pub query: String,
    /// Places in the table of commands, best first.
    pub matches: Vec<usize>,
    pub selected: usize,
}

/// The mathematical content of a [`Palette`].
#[verifier::ext_equal]
pub struct PaletteModel {
    pub query: Seq<char>,
    pub matches: Seq<usize>,
    pub selected: usize,
}

impl View for Palette {
    type V = PaletteModel;

    open spec fn view(&self) -> PaletteModel {
        PaletteModel { query: self.query@, matches: self.matches@, selected: self.selected }
    }
}

impl Clone for Palette {
    fn clone(&self) -> (r: Self)
        ensures
            r@ == self@,
    {
        let matches = self.matches.clone();
        assert(matches@ =~= self.matches@);
        Palette { query: self.query.clone(), matches, selected: self.selected }
    }
}

/// The first `n` commands that fit a query, with their penalties.
pub open spec fn scored(query: Seq<char>, n: nat) -> Seq<(u16, u16, u16, usize)>
    decreases n,
{
    if n == 0 {
        Seq::empty()
    } else {
        let rest = scored(query, (n - 1) as nat);
        match penalty(command_table()[n - 1].name@, query) {
            Some(p) => rest.push((p.0, p.1, p.2, (n - 1) as usize)),
            None => rest,
        }
    }
}

/// The commands that fit a query in lower case, best first and equals in the order of
/// the table; all of them where nothing is asked for.
pub open spec fn best(query: Seq<char>) -> Seq<usize> {
    sorted(scored(query, COMMAND_COUNT as nat), by_penalty()).map_values(|s: (u16, u16, u16, usize)| s.3)
}

/// The commands to show for what has been typed.
pub open spec fn matches_for(typed: Seq<char>) -> Seq<usize> {
    if typed.len() == 0 {
        Seq::new(COMMAND_COUNT as nat, |i: int| i as usize)
    } else {
        best(lowercase(typed))
    }
}

/// One step up a list.
pub open spec fn stepped_up(selected: usize) -> usize {
    if selected == 0 {
        0
    } else {
        (selected - 1) as usize
    }
}

/// One step down a list of `len`.
pub open spec fn stepped_down(selected: usize, len: nat) -> usize {
    let last = if len == 0 {
        0
    } else {
        len - 1
    };
    if selected < last {
        (selected + 1) as usize
    } else {
        last as usize
    }
}

/// One step up a list.
pub fn step_up(selected: usize) -> (r: usize)
    ensures
        r == stepped_up(selected),
{
    selected.saturating_sub(1)
}

/// One step down a list of `len`.
pub fn step_down(selected: usize, len: usize) -> (r: usize)
    ensures
        r == stepped_down(selected, len as nat),
{
    let last: usize = if len == 0 {
        0
    } else {
        len - 1
    };
    if selected < last {
        selected + 1
    } else {
        last
    }
}

impl PaletteModel {
    /// A palette with nothing typed.
    pub open spec fn fresh() -> PaletteModel {
        PaletteModel { query: Seq::empty(), matches: matches_for(Seq::empty()), selected: 0 }
    }

    /// The palette for another query, the selection back at the top.
    pub open spec fn asked(self, query: Seq<char>) -> PaletteModel {
        PaletteModel { query, matches: matches_for(query), selected: 0 }
    }

    /// The palette without the last character of its query.
    pub open spec fn pop(self) -> PaletteModel {
        if self.query.len() == 0 {
            self.asked(self.query)
        } else {
            self.asked(self.query.drop_last())
        }
    }

    /// The highlighted command.
    pub open spec fn chosen(self) -> Option<Command> {
        if self.selected < self.matches.len() && self.matches[self.selected as int] < COMMAND_COUNT {
            Some(command_table()[self.matches[self.selected as int] as int])
        } else {
            None
        }
    }

    /// Where the window of `rows` that shows the selection begins.
    pub open spec fn first_row(self, rows: usize) -> int {
        let above = if rows == 0 {
            0
        } else {
            rows - 1
        };
        if self.selected > above {
            self.selected - above
        } else {
            0
        }
    }

    /// The commands from `from` up to `to`, and which of them is highlighted.
    pub open spec fn shown(self, from: int, to: int) -> Seq<(Command, bool)>
        decreases to - from,
    {
        if to <= from || to <= 0 {
            Seq::empty()
        } else {
            let rest = self.shown(from, to - 1);
            let i = self.matches[to - 1];
            if i < COMMAND_COUNT {
                rest.push((command_table()[i as int], to - 1 == self.selected))
            } else {
                rest
            }
        }
    }

    /// The commands to draw in `rows` rows.
    pub open spec fn visible(self, rows: usize) -> Seq<(Command, bool)> {
        let from = self.first_row(rows);
        let to = if from + rows < self.matches.len() {
            from + rows
        } else {
            self.matches.len() as int
        };
        self.shown(from, to)
    }
}

impl Default for Palette {
    fn default() -> (r: Self)
        ensures
            r@ == PaletteModel::fresh(),
    {
        Palette::new()
    }
}

/// The commands that fit a query in lower case, best first.
pub fn best_matches(query: &str) -> (r: Vec<usize>)
    ensures
        r@ == best(query@),
{
    let table = commands();
    let mut found: Vec<(u16, u16, u16, usize)> = Vec::new();
    let mut i: usize = 0;
    while i < table.len()
        invariant
            i <= table.len() == COMMAND_COUNT,
            table@ == command_table(),
            found@ == scored(query@, i as nat),
        decreases table.len() - i,
    {
        if let Some((strays, gaps, start)) = score(table[i].name, query) {
            found.push((strays, gaps, start, i));
        }
        i += 1;
    }
    assert(found.deep_view() =~= found@);
    let ordered = sort(found, is_lighter, Ghost(by_penalty()));
    assert(ordered.deep_view() =~= ordered@);
    let mut out: Vec<usize> = Vec::new();
    let mut k: usize = 0;
    while k < ordered.len()
        invariant
            k <= ordered.len(),
            ordered@ == sorted(scored(query@, COMMAND_COUNT as nat), by_penalty()),
            out@ == best(query@).take(k as int),
        decreases ordered.len() - k,
    {
        out.push(ordered[k].3);
        assert(out@ =~= best(query@).take(k + 1));
        k += 1;
    }
    assert(best(query@).take(ordered.len() as int) =~= best(query@));
    out
}

impl Palette {
    pub fn new() -> (r: Self)
        ensures
            r@ == PaletteModel::fresh(),
    {
        let mut palette = Palette { query: String::new(), matches: Vec::new(), selected: 0 };
        palette.refilter();
        palette
    }

    /// Recompute the matches for the current query.
    ///
    /// Contiguous matches first, then the earliest, then the table's own order: "sp" puts
    /// "split right" above "previous workspace".
    pub fn refilter(&mut self)
        ensures
            final(self)@ == old(self)@.asked(old(self)@.query),
    {
        self.selected = 0;
        if self.query.as_str().is_empty() {
            let mut all: Vec<usize> = Vec::new();
            let mut i: usize = 0;
            while i < COMMAND_COUNT
                invariant
                    i <= COMMAND_COUNT,
                    all@.len() == i,
                    forall|j: int| 0 <= j < i ==> all@[j] == j,
                decreases COMMAND_COUNT - i,
            {
                all.push(i);
                i += 1;
            }
            assert(all@ =~= matches_for(Seq::empty()));
            self.matches = all;
        } else {
            self.matches = best_matches(self.query.as_str().to_lowercase().as_str());
        }
        assert(self@ =~= old(self)@.asked(old(self)@.query));
    }

    pub fn push(&mut self, ch: char)
        ensures
            final(self)@ == old(self)@.asked(old(self)@.query.push(ch)),
    {
        self.query.push(ch);
        self.refilter();
    }

    pub fn pop(&mut self)
        ensures
            final(self)@ == old(self)@.pop(),
    {
        self.query = without_last(self.query.as_str());
        self.refilter();
    }

    pub fn up(&mut self)
        ensures
            final(self)@ == (PaletteModel { selected: stepped_up(old(self)@.selected), ..old(self)@ }),
    {
        self.selected = step_up(self.selected);
    }

    pub fn down(&mut self)
        ensures
            final(self)@ == (PaletteModel {
                selected: stepped_down(old(self)@.selected, old(self)@.matches.len()),
                ..old(self)@
            }),
    {
        self.selected = step_down(self.selected, self.matches.len());
    }

    /// The highlighted command, if the query matched anything.
    pub fn chosen(&self) -> (r: Option<Command>)
        ensures
            r == self@.chosen(),
    {
        let table = commands();
        if self.selected < self.matches.len() {
            let i = self.matches[self.selected];
            if i < table.len() {
                return Some(table[i]);
            }
        }
        None
    }

    /// The commands to draw, each with whether it is highlighted.
    ///
    /// Scrolled so the highlight stays on screen once the selection walks past the
    /// visible rows.
    pub fn visible(&self, rows: usize) -> (r: Vec<(Command, bool)>)
        ensures
            r@ == self@.visible(rows),
    {
        let table = commands();
        let first = self.selected.saturating_sub(rows.saturating_sub(1));
        let n = self.matches.len();
        let to: usize = if first < n && rows < n - first {
            first + rows
        } else {
            n
        };
        let mut out: Vec<(Command, bool)> = Vec::new();
        let mut i: usize = first;
        assert(self@.shown(first as int, first as int) =~= Seq::empty());
        while i < to
            invariant
                first <= i,
                first < to ==> i <= to,
                first >= to ==> i == first,
                to <= self.matches.len(),
                table@ == command_table(),
                table@.len() == COMMAND_COUNT,
                out@ == self@.shown(first as int, i as int),
            decreases to - i,
        {
            let at = self.matches[i];
            if at < table.len() {
                out.push((table[at], i == self.selected));
            }
            i += 1;
        }
        proof {
            assert(first == self@.first_row(rows));
            if first >= to {
                assert(self@.shown(first as int, to as int) =~= Seq::empty());
                assert(self@.shown(first as int, i as int) =~= Seq::empty());
            }
        }
        out
    }
}

/// The text without its last character.
pub fn without_last(s: &str) -> (r: String)
    ensures
        r@ == (if s@.len() == 0 {
            s@
        } else {
            s@.drop_last()
        }),
{
    let chars = chars_of(s);
    if chars.len() == 0 {
        return s.to_owned();
    }
    let head = slice(&chars, 0, chars.len() - 1);
    assert(head@ =~= s@.drop_last());
    string_of(&head)
}

/// The key that runs a command, written the way the user would press it.
pub open spec fn keys_written(command: Command, prefix: Prefix) -> Seq<char> {
    if command.keys@.len() == 0 {
        Seq::empty()
    } else if command.prefixed {
        prefix.written() + " "@ + command.keys@
    } else {
        command.keys@
    }
}

/// The key that runs `command`, written the way the user would press it.
pub fn keys_for(command: &Command, prefix: Prefix) -> (r: String)
    ensures
        r@ == keys_written(*command, prefix),
{
    if command.keys.is_empty() {
        String::new()
    } else if command.prefixed {
        let mut s = prefix.label();
        s.append(" ");
        s.append(command.keys);
        s
    } else {
        command.keys.to_owned()
    }
}

// ----------------------------------------------------------------------------- laws

/// The palette teaches keys, so a row must not advertise a key that does something else:
/// every command with a key of one character is what that key does.
pub proof fn law_every_key_does_what_its_row_says(i: int, prefix: Prefix, m: KeyModifiers)
    requires
        0 <= i < COMMAND_COUNT,
        command_table()[i].keys@.len() == 1,
        !m.control,
        !prefix.is_pressed(KeyEvent { code: KeyCode::Char(command_table()[i].keys@[0]), modifiers: m }),
    ensures
        mapped(
            KeyEvent { code: KeyCode::Char(command_table()[i].keys@[0]), modifiers: m },
            if command_table()[i].prefixed {
                Mode::Prefix
            } else {
                Mode::Normal
            },
            prefix,
        ).0 == command_table()[i].action,
{
    reveal_strlit("-");
    reveal_strlit("?");
    reveal_strlit("D");
    reveal_strlit("H");
    reveal_strlit("J");
    reveal_strlit("K");
    reveal_strlit("L");
    reveal_strlit("R");
    reveal_strlit("W");
    reveal_strlit("X");
    reveal_strlit("^l");
    reveal_strlit("a");
    reveal_strlit("c");
    reveal_strlit("e");
    reveal_strlit("h");
    reveal_strlit("j");
    reveal_strlit("k");
    reveal_strlit("l");
    reveal_strlit("n");
    reveal_strlit("p");
    reveal_strlit("q");
    reveal_strlit("r");
    reveal_strlit("t");
    reveal_strlit("v");
    reveal_strlit("w");
    reveal_strlit("x");
    reveal_strlit("z");
    reveal_strlit("|");
}

/// However the selection is moved, it stays on a row where there is one.
pub proof fn law_the_selection_stays_on_a_row(selected: usize, len: nat)
    requires
        0 < len <= usize::MAX,
        selected < len,
    ensures
        stepped_up(selected) < len,
        stepped_down(selected, len) < len,
        stepped_up(0) == 0,
        stepped_down((len - 1) as usize, len) == len - 1,
{
}

/// The window of rows holds the selection.
pub proof fn law_the_window_follows_the_selection(p: PaletteModel, rows: usize)
    requires
        rows > 0,
        p.selected < p.matches.len(),
    ensures
        p.first_row(rows) <= p.selected < p.first_row(rows) + rows,
{
}

/// Asking anew puts the selection back at the top, so that a narrowing query does not
/// leave it on a command nobody chose.
pub proof fn law_asking_returns_the_selection_to_the_top(p: PaletteModel, c: char)
    ensures
        p.asked(p.query.push(c)).selected == 0,
        p.pop().selected == 0,
{
}

} // verus!
