//! The glyphs that are printed.
//!
//! A terminal is free to paint a glyph at another width than it is laid out at, and then every
//! column to the right of it is wrong. What is printed stands in one table, so that a terminal
//! can be asked about all of it.

use vstd::prelude::*;

use crate::agent::store::AgentState;
use crate::app::screen::{sync_words, TAB_SEPARATOR};
use crate::matrix::model::SyncState;

verus! {

/// Before the selected row of a list.
pub const SELECTED_MARK: &'static str = "\u{258e}";

/// Where a search goes on.
pub const SEARCH_CARET: &'static str = "\u{2588}";

/// Behind the name of an encrypted room.
pub const LOCK: &'static str = "🔒";

/// Before a key that is pressed with alt.
pub const ALT_SIGN: &'static str = "⌥";

/// Before a key that is pressed with shift.
pub const SHIFT_SIGN: &'static str = "⇧";

/// Behind what is still going on.
pub const ELLIPSIS: &'static str = "…";

/// What a boundary in a transcript is drawn with.
pub const RULE: &'static str = "─";

/// A glyph, what it is printed for, and how many cells it is laid out at.
#[derive(Debug, Clone, Copy, PartialEq, Eq)]
pub struct Glyph {
    pub glyph: &'static str,
    pub what: &'static str,
    pub cells: usize,
}

/// The glyphs that are printed, and how many cells each is laid out at.
pub open spec fn glyph_table() -> Seq<(Seq<char>, usize)> {
    seq![
        ("·"@, 1usize),
        ("✓"@, 1usize),
        ("●"@, 1usize),
        ("▲"@, 1usize),
        ("◐"@, 1usize),
        ("○"@, 1usize),
        ("⚠"@, 1usize),
        ("✖"@, 1usize),
        (TAB_SEPARATOR@, 1usize),
        (SELECTED_MARK@, 1usize),
        (SEARCH_CARET@, 1usize),
        (LOCK@, 2usize),
        (ALT_SIGN@, 1usize),
        (SHIFT_SIGN@, 1usize),
        (ELLIPSIS@, 1usize),
        (RULE@, 1usize),
    ]
}

/// The glyphs that are printed.
pub fn printed() -> (r: Vec<Glyph>)
    ensures
        r@.map_values(|g: Glyph| (g.glyph@, g.cells)) == glyph_table(),
{
    let mut v: Vec<Glyph> = Vec::new();
    v.push(Glyph { glyph: "·", what: "an idle session, or an event that cannot be drawn", cells: 1 });
    v.push(Glyph { glyph: "✓", what: "a finished session", cells: 1 });
    v.push(Glyph { glyph: "●", what: "a working session, or sync is running", cells: 1 });
    v.push(Glyph { glyph: "▲", what: "a blocked session", cells: 1 });
    v.push(Glyph { glyph: "◐", what: "the first sync", cells: 1 });
    v.push(Glyph { glyph: "○", what: "sync is idle", cells: 1 });
    v.push(Glyph { glyph: "⚠", what: "sync is offline", cells: 1 });
    v.push(Glyph { glyph: "✖", what: "sync has stopped", cells: 1 });
    v.push(Glyph { glyph: TAB_SEPARATOR, what: "between tabs", cells: 1 });
    v.push(Glyph { glyph: SELECTED_MARK, what: "the selected row", cells: 1 });
    v.push(Glyph { glyph: SEARCH_CARET, what: "the search caret", cells: 1 });
    v.push(Glyph { glyph: LOCK, what: "an encrypted room", cells: 2 });
    v.push(Glyph { glyph: ALT_SIGN, what: "the alt key", cells: 1 });
    v.push(Glyph { glyph: SHIFT_SIGN, what: "the shift key", cells: 1 });
    v.push(Glyph { glyph: ELLIPSIS, what: "something is awaited", cells: 1 });
    v.push(Glyph { glyph: RULE, what: "a boundary in a transcript", cells: 1 });
    assert(v@.map_values(|g: Glyph| (g.glyph@, g.cells)) =~= glyph_table());
    v
}

/// Whether a text is one of the glyphs in the table.
pub open spec fn is_printed(glyph: Seq<char>) -> bool {
    exists|i: int| 0 <= i < glyph_table().len() && (#[trigger] glyph_table()[i]).0 == glyph
}

/// Every glyph that stands for a state, of a session or of the connection, is in the table, and
/// so is every mark and sign.
pub proof fn law_every_glyph_is_in_the_table(state: AgentState, sync: SyncState)
    ensures
        is_printed(state.spec_glyph()),
        is_printed(sync_words(sync).0),
        is_printed(TAB_SEPARATOR@),
        is_printed(SELECTED_MARK@),
        is_printed(SEARCH_CARET@),
        is_printed(LOCK@),
        is_printed(ALT_SIGN@),
        is_printed(SHIFT_SIGN@),
        is_printed(ELLIPSIS@),
        is_printed(RULE@),
{
    let t = glyph_table();
    assert(t[0].0 == "·"@);
    assert(t[1].0 == "✓"@);
    assert(t[2].0 == "●"@);
    assert(t[3].0 == "▲"@);
    assert(t[4].0 == "◐"@);
    assert(t[5].0 == "○"@);
    assert(t[6].0 == "⚠"@);
    assert(t[7].0 == "✖"@);
    assert(t[8].0 == TAB_SEPARATOR@);
    assert(t[9].0 == SELECTED_MARK@);
    assert(t[10].0 == SEARCH_CARET@);
    assert(t[11].0 == LOCK@);
    assert(t[12].0 == ALT_SIGN@);
    assert(t[13].0 == SHIFT_SIGN@);
    assert(t[14].0 == ELLIPSIS@);
    assert(t[15].0 == RULE@);
}

} // verus!
