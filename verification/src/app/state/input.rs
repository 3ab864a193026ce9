//! Keys and the pointer.

use vstd::prelude::*;

use crate::agent::store::{expire, SessionModel};
use crate::app::keymap::{mapped, Action, KeyEvent};
use crate::app::state::badges::lemma_refreshing_keeps_the_focus;
use crate::app::state::{App, AppModel, Held, HeldModel};
use crate::layout::model::PaneId;
use crate::layout::tiling::{pane_under, split_under, SplitHandle, GRAB_TOLERANCE};

verus! {

/// Shortest interval between writes of the layout. A terminal killed outright loses at most
/// this much rearranging.
pub const LAYOUT_FLUSH_MS: u64 = 2_000;

/// A change of share that a drag asks for: the split, how far along the area it divides its
/// border is to stand, and how long that area is.
#[derive(Debug, PartialEq, Eq)]
pub struct Drag {
    pub room_id: String,
    pub path: Vec<usize>,
    pub offset: u16,
    pub extent: u16,
}

/// Whether this is the pane of the tab in focus that is under a cell.
pub open spec fn points_at(app: AppModel, column: u16, row: u16, r: Option<PaneId>) -> bool {
    match app.focused_tiling() {
        Some(t) => match t.zoomed {
            Some(z) => r == (if t.area.holds(column, row) {
                Some(z)
            } else {
                None
            }),
            None => pane_under(
                t.rects,
                column,
                row,
                match r {
                    Some(id) => Some(id.0),
                    None => None,
                },
            ),
        },
        None => r is None,
    }
}

/// Whether this is the split border of the tab in focus that is under a cell.
pub open spec fn grabs(app: App, column: u16, row: u16, r: Option<HeldModel>) -> bool {
    match app@.focused_room() {
        Some(room_id) => if app.tilings@.contains_key(room_id) {
            let t = app.tilings@[room_id];
            &&& r is Some ==> r->0.room_id == room_id
            &&& if t@.zoomed is Some {
                r is None
            } else {
                split_under(
                    t.splits(),
                    column,
                    row,
                    GRAB_TOLERANCE,
                    match r {
                        Some(h) => Some((h.path, h.rect, h.along_x)),
                        None => None,
                    },
                )
            }
        } else {
            r is None
        },
        None => r is None,
    }
}

impl AppModel {
    /// A key pressed.
    pub open spec fn key(self, key: KeyEvent) -> AppModel {
        let (action, mode) = mapped(key, self.mode, self.prefix);
        AppModel { mode, ..self }.apply_action(action)
    }

    /// A border taken hold of.
    pub open spec fn holding(self, held: HeldModel) -> AppModel {
        AppModel { dragging: Some(held), ..self }
    }

    /// The wheel turned by a notch.
    pub open spec fn wheeled(self, up: bool) -> AppModel {
        if self.dragging is Some {
            self
        } else if up {
            self.apply_action(Action::ScrollUp(3))
        } else {
            self.apply_action(Action::ScrollDown(3))
        }
    }
}

impl App {
    /// Handle a key press.
    pub fn handle_key(&mut self, key: KeyEvent)
        ensures
            final(self)@ == old(self)@.key(key),
            old(self)@.wf() ==> final(self)@.wf(),
    {
        let (action, mode) = crate::app::keymap::map(key, self.mode, self.prefix);
        self.mode = mode;
        self.apply_action(action);
    }

    /// Handle a press of the left button.
    ///
    /// Bars own their rows, so a click there does not fall through; a press on the seam
    /// between panes takes hold of it; any other press focuses the pane under it.
    pub fn handle_press(&mut self, column: u16, row: u16)
        ensures
            old(self)@.wf() ==> final(self)@.wf(),
            if old(self)@.click_bar(column, row).1 {
                final(self)@ == old(self)@.click_bar(column, row).0
            } else {
                ||| exists|held: HeldModel| #[trigger]
                    grabs(*old(self), column, row, Some(held)) && final(self)@ == old(self)@.holding(held)
                ||| grabs(*old(self), column, row, None) && (exists|id: PaneId| #[trigger]
                    points_at(old(self)@, column, row, Some(id)) && final(self)@ == old(self)@.focus_pane_id(id))
                ||| grabs(*old(self), column, row, None) && points_at(old(self)@, column, row, None)
                    && final(self)@ == old(self)@
            },
    {
        if self.on_bar(row) {
            self.click_bar(column, row);
            return ;
        }
        let held = self.find_border(column, row);
        if let Some(held) = held {
            assert(grabs(*old(self), column, row, Some(held@)));
            self.dragging = Some(held);
            return ;
        }
        assert(grabs(*old(self), column, row, None));
        let under = match self.focused_room() {
            Some(room_id) => match self.tilings.get(room_id.as_str()) {
                Some(tiling) => tiling.pane_at(column, row),
                None => None,
            },
            None => None,
        };
        assert(points_at(old(self)@, column, row, under));
        if let Some(id) = under {
            self.focus_pane_id(id);
        }
    }

    fn on_bar(&self, row: u16) -> (r: bool)
        ensures
            forall|column: u16| r == (#[trigger] self@.click_bar(column, row)).1,
    {
        (row == self.bars.workspace_row && self.bars.workspaces.len() > 0) || row == self.bars.tab_row
    }

    fn find_border(&self, column: u16, row: u16) -> (r: Option<Held>)
        ensures
            grabs(*self, column, row, r.deep_view()),
    {
        let room_id = match self.focused_room() {
            Some(room_id) => room_id,
            None => {
                return None;
            },
        };
        match self.tilings.get(room_id.as_str()) {
            Some(tiling) => match tiling.split_at(column, row) {
                Some(handle) => Some(
                    Held { room_id, path: handle.path, rect: handle.rect, along_x: handle.along_x },
                ),
                None => None,
            },
            None => None,
        }
    }

    /// Take hold of the split border under the pointer, if there is one.
    ///
    /// Returns whether a drag began, so the caller knows not to treat the same press as a
    /// click into a pane. Grabbing a border does not move focus: the pane you are reading
    /// should not change because you widened the one beside it.
    pub fn begin_drag(&mut self, column: u16, row: u16) -> (r: bool)
        ensures
            if r {
                exists|held: HeldModel| #[trigger]
                    grabs(*old(self), column, row, Some(held)) && final(self)@ == old(self)@.holding(held)
            } else {
                grabs(*old(self), column, row, None) && final(self)@ == old(self)@
            },
    {
        match self.find_border(column, row) {
            Some(held) => {
                assert(grabs(*old(self), column, row, Some(held@)));
                self.dragging = Some(held);
                true
            },
            None => false,
        }
    }

    /// Where a held border is to go when the pointer is at a cell: none where nothing is
    /// held, or where the room it was grabbed in has no tiling any more.
    pub fn drag_to(&self, column: u16, row: u16) -> (r: Option<Drag>)
        ensures
            match self@.dragging {
                Some(held) => if self@.tilings.contains_key(held.room_id) {
                    &&& r is Some
                    &&& r->0.room_id@ == held.room_id
                    &&& r->0.path@ == held.path
                    &&& (r->0.offset, r->0.extent) == border_at(held, column, row)
                } else {
                    r is None
                },
                None => r is None,
            },
    {
        match &self.dragging {
            Some(held) => {
                if !self.tilings.contains_key(held.room_id.as_str()) {
                    return None;
                }
                let handle = SplitHandle { path: held.path.clone(), rect: held.rect, along_x: held.along_x };
                let (offset, extent) = handle.offset_at(column, row);
                assert(handle.path@ =~= held.path@);
                Some(Drag { room_id: held.room_id.clone(), path: handle.path, offset, extent })
            },
            None => None,
        }
    }

    /// A border moved: panes have moved under text that is believed to be right already.
    pub fn border_moved(&mut self)
        ensures
            final(self)@ == (AppModel { needs_redraw: true, layout_dirty: true, ..old(self)@ }),
    {
        self.needs_redraw = true;
        self.layout_dirty = true;
    }

    /// Let go of the border, if one was held.
    pub fn end_drag(&mut self)
        ensures
            final(self)@ == (AppModel { dragging: None, ..old(self)@ }),
    {
        self.dragging = None;
    }

    /// Whether a border is currently being dragged.
    pub fn is_dragging(&self) -> (r: bool)
        ensures
            r == self@.dragging is Some,
    {
        self.dragging.is_some()
    }

    /// Handle a turn of the wheel. Scrolling in the middle of a drag would fight the resize.
    pub fn handle_wheel(&mut self, up: bool)
        ensures
            final(self)@ == old(self)@.wheeled(up),
            old(self)@.wf() ==> final(self)@.wf(),
    {
        if self.is_dragging() {
            return ;
        }
        if up {
            self.apply_action(Action::ScrollUp(3));
        } else {
            self.apply_action(Action::ScrollDown(3));
        }
    }
}

impl AppModel {
    /// The clock moved on. Approvals are timed out by the agent, but the word of it can be
    /// lost and the pane would stay blocked; typing is told from here rather than from the
    /// keypress, which would be one request for each character.
    pub open spec fn tick(self, now_ms: u64) -> AppModel {
        AppModel {
            agents: self.agents.map_values(|s: SessionModel| expire(s, now_ms / 1000)),
            ..self
        }.refresh_pane_states().tick_typing(now_ms)
    }

    /// Whether the layout is to be written, so long after it last was.
    pub open spec fn layout_due(self, since_saved_ms: u64) -> bool {
        self.layout_dirty && since_saved_ms >= LAYOUT_FLUSH_MS
    }
}

impl App {
    /// Move the clock on. Returns whether the layout is to be written, which then counts as
    /// done: holding a resize key would otherwise be one write for each repeat.
    pub fn tick(&mut self, now_ms: u64, since_saved_ms: u64) -> (r: bool)
        ensures
            r == old(self)@.layout_due(since_saved_ms),
            final(self)@ == (AppModel {
                layout_dirty: old(self)@.layout_dirty && !r,
                ..old(self)@.tick(now_ms)
            }),
            old(self)@.wf() ==> final(self)@.wf(),
    {
        self.agents.expire_pending(now_ms / 1000);
        proof {
            lemma_refreshing_keeps_the_focus(self@);
        }
        self.refresh_pane_states();
        self.tick_typing(now_ms);
        let due = self.layout_dirty && since_saved_ms >= LAYOUT_FLUSH_MS;
        if due {
            self.layout_dirty = false;
        }
        due
    }
}

/// How far along the area that a held split divides a cell is, and how long that area is.
pub open spec fn border_at(held: HeldModel, column: u16, row: u16) -> (u16, u16) {
    if held.along_x {
        (
            if column > held.rect.x {
                (column - held.rect.x) as u16
            } else {
                0
            },
            held.rect.width,
        )
    } else {
        (
            if row > held.rect.y {
                (row - held.rect.y) as u16
            } else {
                0
            },
            held.rect.height,
        )
    }
}

} // verus!
