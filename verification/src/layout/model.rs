//! Workspace, tab and pane model.
//!
//! Matrix's existing hierarchy maps onto a terminal workspace manager:
//!
//! | here      | Matrix | agent                     |
//! |-----------|--------|---------------------------|
//! | Workspace | Space  | project                   |
//! | Tab       | Room   | room-scoped session lane  |
//! | Pane      | Thread | agent session             |
//!
//! Rooms belonging to no Space collect in an implicit workspace. Threadless room
//! timelines render as the tab's root pane.

use vstd::arithmetic::div_mod::lemma_add_mod_noop_right;
use vstd::prelude::*;
use vstd::string::*;

use crate::agent::store::{at_most, lemma_most_urgent, most_urgent, AgentState};
use crate::seqs::{
    first_where, in_order, is_first, lemma_deep_update, lemma_first, lemma_first_where, lemma_no_first, law_sorting_orders,
    orders, sort, sorted,
};
use crate::text::{
    comes_before, decimal, decimal_text, lemma_text_less_not, lemma_text_less_one_way, same, text_less,
};

verus! {

/// Identifier for the implicit workspace holding rooms with no parent Space.
pub const ORPHAN_WORKSPACE: &'static str = "~";

/// A pane's number, given by the tiling engine and never used twice in one tab.
#[derive(Debug, Clone, Copy, PartialEq, Eq, Structural, PartialOrd, Ord, Hash)]
pub struct PaneId(pub u64);

impl PaneId {
    pub fn new(id: u64) -> (r: Self)
        ensures
            r == PaneId(id),
    {
        PaneId(id)
    }

    pub fn get(self) -> (r: u64)
        ensures
            r == self.0,
    {
        self.0
    }
}

impl DeepView for PaneId {
    type V = PaneId;

    open spec fn deep_view(&self) -> PaneId {
        *self
    }
}

/// What a pane is showing.
#[derive(Debug, PartialEq, Eq)]
pub enum PaneKind {
    /// The room's main timeline, outside any thread.
    Room { room_id: String },
    /// One thread: a single agent session, keyed by the event ID of the thread root.
    Thread { room_id: String, root: String },
}

/// The mathematical content of a [`PaneKind`].
#[verifier::ext_equal]
pub enum PaneKindModel {
    Room { room_id: Seq<char> },
    Thread { room_id: Seq<char>, root: Seq<char> },
}

impl View for PaneKind {
    type V = PaneKindModel;

    open spec fn view(&self) -> PaneKindModel {
        match self {
            PaneKind::Room { room_id } => PaneKindModel::Room { room_id: room_id@ },
            PaneKind::Thread { room_id, root } => PaneKindModel::Thread { room_id: room_id@, root: root@ },
        }
    }
}

impl DeepView for PaneKind {
    type V = PaneKindModel;

    open spec fn deep_view(&self) -> PaneKindModel {
        self@
    }
}

impl Clone for PaneKind {
    fn clone(&self) -> (r: Self)
        ensures
            r@ == self@,
    {
        let r = match self {
            PaneKind::Room { room_id } => PaneKind::Room { room_id: room_id.clone() },
            PaneKind::Thread { room_id, root } => PaneKind::Thread { room_id: room_id.clone(), root: root.clone() },
        };
        assert(r@ =~~= self@);
        r
    }
}

/// Unread counts, as the homeserver reports them.
///
/// `highlights` are messages that named you; `notifications` is everything the push rules
/// think is worth a badge. Only the first justifies interrupting a focused pane.
#[derive(Debug, Clone, Copy, PartialEq, Eq, Structural)]
pub struct Unread {
    pub notifications: u64,
    pub highlights: u64,
}

/// A single tiled view.
#[derive(Debug, PartialEq, Eq)]
pub struct Pane {
    /// Assigned by the tiling engine.
    pub id: PaneId,
    pub kind: PaneKind,
    /// Shown in the pane header.
    pub title: String,
    /// Derived agent state; drives the pane badge and rolls up to the tab.
    pub state: AgentState,
    /// Set when this pane's agent events came from the fallback parser.
    pub degraded: bool,
    /// Set when this pane's session is missing events outright: worse than degraded, where
    /// the structure was recovered lossily from what did arrive.
    pub gaps: bool,
}

/// The mathematical content of a [`Pane`].
#[verifier::ext_equal]
pub struct PaneModel {
    pub id: PaneId,
    pub kind: PaneKindModel,
    pub title: Seq<char>,
    pub state: AgentState,
    pub degraded: bool,
    pub gaps: bool,
}

impl View for Pane {
    type V = PaneModel;

    open spec fn view(&self) -> PaneModel {
        PaneModel {
            id: self.id,
            kind: self.kind@,
            title: self.title@,
            state: self.state,
            degraded: self.degraded,
            gaps: self.gaps,
        }
    }
}

impl DeepView for Pane {
    type V = PaneModel;

    open spec fn deep_view(&self) -> PaneModel {
        self@
    }
}

impl Clone for Pane {
    fn clone(&self) -> (r: Self)
        ensures
            r@ == self@,
    {
        let r = Pane {
            id: self.id,
            kind: self.kind.clone(),
            title: self.title.clone(),
            state: self.state,
            degraded: self.degraded,
            gaps: self.gaps,
        };
        r
    }
}

/// A room, rendered as a tab containing tiled panes.
#[derive(Debug, PartialEq, Eq)]
pub struct Tab {
    pub room_id: String,
    pub title: String,
    pub panes: Vec<Pane>,
    /// Index into `panes`. Kept in range by every mutating method.
    pub focused: usize,
    pub is_encrypted: bool,
    pub unread: Unread,
}

/// The mathematical content of a [`Tab`].
#[verifier::ext_equal]
pub struct TabModel {
    pub room_id: Seq<char>,
    pub title: Seq<char>,
    pub panes: Seq<PaneModel>,
    pub focused: usize,
    pub is_encrypted: bool,
    pub unread: Unread,
}

impl View for Tab {
    type V = TabModel;

    open spec fn view(&self) -> TabModel {
        TabModel {
            room_id: self.room_id@,
            title: self.title@,
            panes: self.panes.deep_view(),
            focused: self.focused,
            is_encrypted: self.is_encrypted,
            unread: self.unread,
        }
    }
}

impl DeepView for Tab {
    type V = TabModel;

    open spec fn deep_view(&self) -> TabModel {
        self@
    }
}

impl Clone for Tab {
    fn clone(&self) -> (r: Self)
        ensures
            r@ == self@,
    {
        let r = Tab {
            room_id: self.room_id.clone(),
            title: self.title.clone(),
            panes: self.panes.clone(),
            focused: self.focused,
            is_encrypted: self.is_encrypted,
            unread: self.unread,
        };
        assert(r.panes.deep_view() =~= self.panes.deep_view());
        r
    }
}

/// A Space, or the implicit orphan workspace.
#[derive(Debug, PartialEq, Eq)]
pub struct Workspace {
    /// Space room ID, or [`ORPHAN_WORKSPACE`].
    pub id: String,
    pub title: String,
    pub tabs: Vec<Tab>,
    pub focused: usize,
}

/// The mathematical content of a [`Workspace`].
#[verifier::ext_equal]
pub struct WorkspaceModel {
    pub id: Seq<char>,
    pub title: Seq<char>,
    pub tabs: Seq<TabModel>,
    pub focused: usize,
}

impl View for Workspace {
    type V = WorkspaceModel;

    open spec fn view(&self) -> WorkspaceModel {
        WorkspaceModel {
            id: self.id@,
            title: self.title@,
            tabs: self.tabs.deep_view(),
            focused: self.focused,
        }
    }
}

impl DeepView for Workspace {
    type V = WorkspaceModel;

    open spec fn deep_view(&self) -> WorkspaceModel {
        self@
    }
}

impl Clone for Workspace {
    fn clone(&self) -> (r: Self)
        ensures
            r@ == self@,
    {
        let r = Workspace {
            id: self.id.clone(),
            title: self.title.clone(),
            tabs: self.tabs.clone(),
            focused: self.focused,
        };
        assert(r.tabs.deep_view() =~= self.tabs.deep_view());
        r
    }
}

/// The whole workspace bar.
#[derive(Debug, PartialEq, Eq)]
pub struct Workspaces {
    pub items: Vec<Workspace>,
    pub focused: usize,
}

/// The mathematical content of a [`Workspaces`].
#[verifier::ext_equal]
pub struct WorkspacesModel {
    pub items: Seq<WorkspaceModel>,
    pub focused: usize,
}

impl View for Workspaces {
    type V = WorkspacesModel;

    open spec fn view(&self) -> WorkspacesModel {
        WorkspacesModel {
            items: self.items.deep_view(),
            focused: self.focused,
        }
    }
}

impl DeepView for Workspaces {
    type V = WorkspacesModel;

    open spec fn deep_view(&self) -> WorkspacesModel {
        self@
    }
}

impl Clone for Workspaces {
    fn clone(&self) -> (r: Self)
        ensures
            r@ == self@,
    {
        let r = Workspaces {
            items: self.items.clone(),
            focused: self.focused,
        };
        assert(r.items.deep_view() =~= self.items.deep_view());
        r
    }
}

impl PaneKindModel {
    /// The room the pane belongs to.
    pub open spec fn room_id(self) -> Seq<char> {
        match self {
            PaneKindModel::Room { room_id } => room_id,
            PaneKindModel::Thread { room_id, .. } => room_id,
        }
    }

    /// The thread root, when the pane is a thread.
    pub open spec fn thread_root(self) -> Option<Seq<char>> {
        match self {
            PaneKindModel::Room { .. } => None,
            PaneKindModel::Thread { root, .. } => Some(root),
        }
    }
}

impl PaneKind {
    pub fn room_id(&self) -> (r: &str)
        ensures
            r@ == self@.room_id(),
    {
        match self {
            PaneKind::Room { room_id } => room_id.as_str(),
            PaneKind::Thread { room_id, .. } => room_id.as_str(),
        }
    }

    /// The thread root, when this pane is a thread.
    pub fn thread_root(&self) -> (r: Option<&str>)
        ensures
            match r {
                Some(root) => self@.thread_root() == Some(root@),
                None => self@.thread_root() is None,
            },
    {
        match self {
            PaneKind::Thread { root, .. } => Some(root.as_str()),
            PaneKind::Room { .. } => None,
        }
    }
}

// --------------------------------------------------------------------------- unread

impl Default for Unread {
    fn default() -> (r: Self)
        ensures
            r == (Unread { notifications: 0, highlights: 0 }),
    {
        Unread { notifications: 0, highlights: 0 }
    }
}

impl Unread {
    pub fn new(notifications: u64, highlights: u64) -> (r: Self)
        ensures
            r == (Unread { notifications, highlights }),
    {
        Unread { notifications, highlights }
    }

    pub fn any(self) -> (r: bool)
        ensures
            r == (self.notifications > 0 || self.highlights > 0),
    {
        self.notifications > 0 || self.highlights > 0
    }

    pub fn is_highlight(self) -> (r: bool)
        ensures
            r == (self.highlights > 0),
    {
        self.highlights > 0
    }

    /// The larger of the two counters.
    pub open spec fn larger(self) -> u64 {
        if self.highlights > self.notifications {
            self.highlights
        } else {
            self.notifications
        }
    }

    /// The number worth showing.
    ///
    /// The larger counter: `notifications` is usually the superset, but a push rule can
    /// raise a highlight without counting a notification.
    pub fn count(self) -> (r: u64)
        ensures
            r == self.larger(),
    {
        if self.highlights > self.notifications {
            self.highlights
        } else {
            self.notifications
        }
    }

    /// Badge text: `(3)` is three unread; `(@3)` is three of which at least one names you.
    pub open spec fn badge(self) -> Option<Seq<char>> {
        if self.highlights > 0 {
            Some("(@"@ + decimal(self.larger() as nat) + ")"@)
        } else if self.notifications > 0 {
            Some("("@ + decimal(self.larger() as nat) + ")"@)
        } else {
            None
        }
    }

    /// Badge text, or `None` when there is nothing unread.
    ///
    /// ASCII, because it sits in a tab cell whose width is measured.
    pub fn label(self) -> (r: Option<String>)
        ensures
            r.deep_view() == self.badge(),
    {
        if !self.any() {
            return None;
        }
        let mut s = if self.is_highlight() {
            "(@".to_owned()
        } else {
            "(".to_owned()
        };
        s.append(decimal_text(self.count()).as_str());
        s.append(")");
        Some(s)
    }

    /// Both counts together, stopping at the largest number.
    pub open spec fn spec_plus(self, other: Unread) -> Unread {
        Unread {
            notifications: at_most(self.notifications + other.notifications, u64::MAX as int) as u64,
            highlights: at_most(self.highlights + other.highlights, u64::MAX as int) as u64,
        }
    }

    /// Both counts together, stopping at the largest number.
    pub fn plus(self, other: Unread) -> (r: Unread)
        ensures
            r == self.spec_plus(other),
    {
        Unread {
            notifications: self.notifications.saturating_add(other.notifications),
            highlights: self.highlights.saturating_add(other.highlights),
        }
    }
}

/// All these counts together.
pub open spec fn total(counts: Seq<Unread>) -> Unread
    decreases counts.len(),
{
    if counts.len() == 0 {
        Unread { notifications: 0, highlights: 0 }
    } else {
        total(counts.drop_last()).spec_plus(counts.last())
    }
}

/// Something unread anywhere is something unread in the total.
pub proof fn law_unread_is_not_lost(counts: Seq<Unread>, i: int)
    requires
        0 <= i < counts.len(),
    ensures
        total(counts).notifications >= counts[i].notifications,
        total(counts).highlights >= counts[i].highlights,
    decreases counts.len(),
{
    if i < counts.len() - 1 {
        law_unread_is_not_lost(counts.drop_last(), i);
    }
}

// ----------------------------------------------------------------------------- panes

impl Pane {
    pub fn new(id: PaneId, kind: PaneKind, title: &str) -> (r: Self)
        ensures
            r@ == (PaneModel {
                id,
                kind: kind@,
                title: title@,
                state: AgentState::Idle,
                degraded: false,
                gaps: false,
            }),
    {
        Pane { id, kind, title: title.to_owned(), state: AgentState::Idle, degraded: false, gaps: false }
    }

    /// Header text including the badge and any lossiness markers.
    ///
    /// Markers run worst-first, so a pane that is both does not read as either alone.
    pub fn header(&self) -> (r: String)
        ensures
            r@ == self@.header(),
    {
        let mut s = self.state.glyph().to_owned();
        s.append(" ");
        s.append(if self.gaps {
            "!"
        } else {
            ""
        });
        s.append(if self.degraded {
            "~"
        } else {
            ""
        });
        s.append(self.title.as_str());
        s
    }
}

impl PaneModel {
    /// Header text: the badge, `!` for missing events, `~` for degraded ones, the title.
    pub open spec fn header(self) -> Seq<char> {
        self.state.spec_glyph() + " "@ + (if self.gaps {
            "!"@
        } else {
            ""@
        }) + (if self.degraded {
            "~"@
        } else {
            ""@
        }) + self.title
    }
}

// ------------------------------------------------------------------------------ tabs

/// Whether an index into a list is in range, or zero where the list is empty.
pub open spec fn in_range(index: usize, len: nat) -> bool {
    index < len || (len == 0 && index == 0)
}

/// The test for a pane's id.
pub open spec fn with_id(id: PaneId) -> spec_fn(PaneModel) -> bool {
    |p: PaneModel| p.id == id
}

/// The test for a pane's thread.
pub open spec fn on_thread(root: Seq<char>) -> spec_fn(PaneModel) -> bool {
    |p: PaneModel| p.kind.thread_root() == Some(root)
}

/// How many panes are in a state.
pub open spec fn panes_in(panes: Seq<PaneModel>, state: AgentState) -> int
    decreases panes.len(),
{
    if panes.len() == 0 {
        0
    } else {
        panes_in(panes.drop_last(), state) + if panes.last().state == state {
            1int
        } else {
            0
        }
    }
}

impl TabModel {
    /// The focus is in range.
    pub open spec fn wf(self) -> bool {
        in_range(self.focused, self.panes.len())
    }

    /// A tab with no panes yet.
    pub open spec fn fresh(room_id: Seq<char>, title: Seq<char>) -> TabModel {
        TabModel {
            room_id,
            title,
            panes: Seq::empty(),
            focused: 0,
            is_encrypted: false,
            unread: Unread { notifications: 0, highlights: 0 },
        }
    }

    /// The pane in focus.
    pub open spec fn focused_pane(self) -> Option<PaneModel> {
        if self.focused < self.panes.len() {
            Some(self.panes[self.focused as int])
        } else {
            None
        }
    }

    /// The focus on the pane with this id, where there is one.
    pub open spec fn focus(self, id: PaneId) -> TabModel {
        match first_where(self.panes, with_id(id)) {
            Some(i) => TabModel { focused: i as usize, ..self },
            None => self,
        }
    }

    /// One more pane, in focus.
    pub open spec fn push_pane(self, pane: PaneModel) -> TabModel {
        TabModel { panes: self.panes.push(pane), focused: self.panes.len() as usize, ..self }
    }

    /// The tab without the pane with this id. The focus stays on the pane it was on, and
    /// falls on the last one where its own is the one that goes.
    pub open spec fn remove_pane(self, id: PaneId) -> TabModel {
        match first_where(self.panes, with_id(id)) {
            Some(i) => {
                let shifted = if i < self.focused {
                    self.focused - 1
                } else {
                    self.focused as int
                };
                let last = if self.panes.len() >= 2 {
                    self.panes.len() - 2
                } else {
                    0
                };
                TabModel { panes: self.panes.remove(i), focused: at_most(shifted, last) as usize, ..self }
            },
            None => self,
        }
    }

    /// The first pane on a thread.
    pub open spec fn pane_for_thread(self, root: Seq<char>) -> Option<PaneModel> {
        match first_where(self.panes, on_thread(root)) {
            Some(i) => Some(self.panes[i]),
            None => None,
        }
    }

    /// The most urgent state among the panes.
    pub open spec fn state(self) -> AgentState {
        most_urgent(self.panes.map_values(|p: PaneModel| p.state))
    }
}

impl Tab {
    pub fn new(room_id: &str, title: &str) -> (r: Self)
        ensures
            r@ == TabModel::fresh(room_id@, title@),
    {
        let r = Tab {
            room_id: room_id.to_owned(),
            title: title.to_owned(),
            panes: Vec::new(),
            focused: 0,
            is_encrypted: false,
            unread: Unread { notifications: 0, highlights: 0 },
        };
        assert(r@ =~= TabModel::fresh(room_id@, title@));
        r
    }

    pub fn focused_pane(&self) -> (r: Option<&Pane>)
        ensures
            match r {
                Some(p) => self@.focused_pane() == Some(p@),
                None => self@.focused_pane() is None,
            },
    {
        if self.focused < self.panes.len() {
            Some(&self.panes[self.focused])
        } else {
            None
        }
    }

    pub fn focused_pane_mut(&mut self) -> (r: Option<&mut Pane>)
        ensures
            match r {
                Some(p) => {
                    &&& old(self)@.focused_pane() == Some(p@)
                    &&& final(self)@ == (TabModel {
                        panes: old(self)@.panes.update(old(self)@.focused as int, final(p)@),
                        ..old(self)@
                    })
                },
                None => old(self)@.focused_pane() is None && final(self)@ == old(self)@,
            },
    {
        if self.focused < self.panes.len() {
            proof {
                lemma_deep_update(self.panes, self.focused as int);
            }
            Some(&mut self.panes[self.focused])
        } else {
            None
        }
    }

    fn position(&self, id: PaneId) -> (r: Option<usize>)
        ensures
            match r {
                Some(i) => first_where(self@.panes, with_id(id)) == Some(i as int) && is_first(
                    self@.panes,
                    with_id(id),
                    i as int,
                ),
                None => first_where(self@.panes, with_id(id)) is None,
            },
    {
        let mut i: usize = 0;
        while i < self.panes.len()
            invariant
                i <= self.panes.len(),
                forall|j: int| 0 <= j < i ==> !with_id(id)(#[trigger] self@.panes[j]),
            decreases self.panes.len() - i,
        {
            if self.panes[i].id == id {
                proof {
                    assert(with_id(id)(self@.panes[i as int]));
                    lemma_first(self@.panes, with_id(id), i as int);
                }
                return Some(i);
            }
            i += 1;
        }
        proof {
            lemma_no_first(self@.panes, with_id(id));
        }
        None
    }

    /// Focus a pane by its tiling id. Returns `false` if it is not in this tab.
    pub fn focus(&mut self, id: PaneId) -> (r: bool)
        ensures
            final(self)@ == old(self)@.focus(id),
            r == first_where(old(self)@.panes, with_id(id)) is Some,
    {
        match self.position(id) {
            Some(i) => {
                self.focused = i;
                true
            },
            None => false,
        }
    }

    pub fn push_pane(&mut self, pane: Pane)
        ensures
            final(self)@ == old(self)@.push_pane(pane@),
            old(self)@.panes.len() < usize::MAX,
    {
        let ghost before = self@;
        self.panes.push(pane);
        self.focused = self.panes.len() - 1;
        assert(self@.panes =~= before.panes.push(pane@));
        assert(self@ =~= before.push_pane(pane@));
    }

    /// Remove a pane, keeping focus on the pane the user was actually looking at.
    pub fn remove_pane(&mut self, id: PaneId) -> (r: Option<Pane>)
        ensures
            final(self)@ == old(self)@.remove_pane(id),
            match r {
                Some(p) => first_where(old(self)@.panes, with_id(id)) is Some && p@
                    == old(self)@.panes[first_where(old(self)@.panes, with_id(id))->0],
                None => first_where(old(self)@.panes, with_id(id)) is None,
            },
    {
        let ghost before = self@;
        match self.position(id) {
            Some(i) => {
                let pane = self.panes.remove(i);
                // `focused` indexes a list that just got shorter, so removing anything
                // below it shifts the pane it names. Clamping alone does not catch that.
                if i < self.focused {
                    self.focused -= 1;
                }
                let last: usize = if self.panes.len() > 0 {
                    self.panes.len() - 1
                } else {
                    0
                };
                if self.focused > last {
                    self.focused = last;
                }
                assert(self@.panes =~= before.panes.remove(i as int));
                assert(self@ =~= before.remove_pane(id));
                Some(pane)
            },
            None => None,
        }
    }

    pub fn pane_for_thread(&self, root: &str) -> (r: Option<&Pane>)
        ensures
            match r {
                Some(p) => self@.pane_for_thread(root@) == Some(p@),
                None => self@.pane_for_thread(root@) is None,
            },
    {
        let mut i: usize = 0;
        while i < self.panes.len()
            invariant
                i <= self.panes.len(),
                forall|j: int| 0 <= j < i ==> !on_thread(root@)(#[trigger] self@.panes[j]),
            decreases self.panes.len() - i,
        {
            if let Some(r) = self.panes[i].kind.thread_root() {
                if same(r, root) {
                    proof {
                        assert(on_thread(root@)(self@.panes[i as int]));
                        lemma_first(self@.panes, on_thread(root@), i as int);
                    }
                    return Some(&self.panes[i]);
                }
            }
            i += 1;
        }
        proof {
            lemma_no_first(self@.panes, on_thread(root@));
        }
        None
    }

    /// The tab badge: the most urgent state among its panes.
    pub fn state(&self) -> (r: AgentState)
        ensures
            r == self@.state(),
    {
        let ghost all = self@.panes.map_values(|p: PaneModel| p.state);
        let mut r = AgentState::Idle;
        let mut i: usize = 0;
        while i < self.panes.len()
            invariant
                i <= self.panes.len(),
                all == self@.panes.map_values(|p: PaneModel| p.state),
                r == most_urgent(all.take(i as int)),
            decreases self.panes.len() - i,
        {
            r = r.urgent(self.panes[i].state);
            assert(all.take(i + 1).drop_last() =~= all.take(i as int));
            i += 1;
        }
        assert(all.take(all.len() as int) =~= all);
        r
    }

    /// How many panes are in the given state.
    pub fn count_in(&self, state: AgentState) -> (r: usize)
        ensures
            r == panes_in(self@.panes, state),
    {
        let mut r: usize = 0;
        let mut i: usize = 0;
        while i < self.panes.len()
            invariant
                i <= self.panes.len(),
                r <= i,
                r == panes_in(self@.panes.take(i as int), state),
            decreases self.panes.len() - i,
        {
            assert(self@.panes.take(i + 1).drop_last() =~= self@.panes.take(i as int));
            if self.panes[i].state == state {
                r += 1;
            }
            i += 1;
        }
        assert(self@.panes.take(self.panes.len() as int) =~= self@.panes);
        r
    }
}

// ------------------------------------------------------------------------ workspaces

/// The test for a tab's room.
pub open spec fn for_room(room_id: Seq<char>) -> spec_fn(TabModel) -> bool {
    |t: TabModel| t.room_id == room_id
}

/// How many panes of these tabs are in a state.
pub open spec fn tab_panes_in(tabs: Seq<TabModel>, state: AgentState) -> int
    decreases tabs.len(),
{
    if tabs.len() == 0 {
        0
    } else {
        tab_panes_in(tabs.drop_last(), state) + panes_in(tabs.last().panes, state)
    }
}

proof fn lemma_panes_in(panes: Seq<PaneModel>, state: AgentState)
    ensures
        panes_in(panes, state) >= 0,
    decreases panes.len(),
{
    if panes.len() > 0 {
        lemma_panes_in(panes.drop_last(), state);
    }
}

proof fn lemma_tab_panes_in(tabs: Seq<TabModel>, state: AgentState)
    ensures
        tab_panes_in(tabs, state) >= 0,
    decreases tabs.len(),
{
    if tabs.len() > 0 {
        lemma_tab_panes_in(tabs.drop_last(), state);
        lemma_panes_in(tabs.last().panes, state);
    }
}

proof fn lemma_all_panes_in(items: Seq<WorkspaceModel>, state: AgentState)
    ensures
        all_panes_in(items, state) >= 0,
    decreases items.len(),
{
    if items.len() > 0 {
        lemma_all_panes_in(items.drop_last(), state);
        lemma_tab_panes_in(items.last().tabs, state);
    }
}

/// The place after `index` in a list, round to the beginning behind the end.
pub open spec fn following(index: usize, len: nat) -> usize {
    if len == 0 {
        index
    } else {
        ((index + 1) % (len as int)) as usize
    }
}

/// The place before `index` in a list, round to the end before the beginning.
pub open spec fn preceding(index: usize, len: nat) -> usize {
    if len == 0 {
        index
    } else {
        ((index + len - 1) % (len as int)) as usize
    }
}

/// Going on and coming back, or coming back and going on, ends where it began.
pub proof fn law_cycling_is_reversible(index: usize, len: nat)
    requires
        in_range(index, len),
        len <= usize::MAX,
    ensures
        in_range(following(index, len), len),
        in_range(preceding(index, len), len),
        preceding(following(index, len), len) == index,
        following(preceding(index, len), len) == index,
{
    if len > 0 {
        let n = len as int;
        if index + 1 < n {
            assert((index + 1) % n == index + 1) by (nonlinear_arith)
                requires
                    0 <= index + 1 < n,
            ;
            assert((index + 1 + n - 1) % n == index) by (nonlinear_arith)
                requires
                    0 <= index < n,
            ;
        } else {
            assert((index + 1) % n == 0) by (nonlinear_arith)
                requires
                    index + 1 == n,
                    n > 0,
            ;
            assert((0 + n - 1) % n == n - 1) by (nonlinear_arith)
                requires
                    n > 0,
            ;
        }
        if index > 0 {
            assert((index + n - 1) % n == index - 1) by (nonlinear_arith)
                requires
                    0 < index < n,
            ;
            assert((index - 1 + 1) % n == index as int) by (nonlinear_arith)
                requires
                    0 <= index < n,
            ;
        } else {
            assert((0 + n - 1) % n == n - 1) by (nonlinear_arith)
                requires
                    n > 0,
            ;
            assert((n - 1 + 1) % n == 0) by (nonlinear_arith)
                requires
                    n > 0,
            ;
        }
    }
}

fn step_on(index: usize, len: usize) -> (r: usize)
    ensures
        r == following(index, len as nat),
{
    if len == 0 {
        return index;
    }
    let at = index % len;
    proof {
        lemma_add_mod_noop_right(1, index as int, len as int);
    }
    if at + 1 < len {
        assert((1 + at) % (len as int) == at + 1) by (nonlinear_arith)
            requires
                0 <= at + 1 < len,
        ;
        at + 1
    } else {
        assert((1 + at) % (len as int) == 0) by (nonlinear_arith)
            requires
                at + 1 == len,
        ;
        0
    }
}

fn step_back(index: usize, len: usize) -> (r: usize)
    ensures
        r == preceding(index, len as nat),
{
    if len == 0 {
        return index;
    }
    let at = index % len;
    proof {
        lemma_add_mod_noop_right(len - 1, index as int, len as int);
    }
    if at > 0 {
        assert((len - 1 + at) % (len as int) == at - 1) by (nonlinear_arith)
            requires
                0 < at < len,
        ;
        at - 1
    } else {
        assert((len - 1 + at) % (len as int) == len - 1) by (nonlinear_arith)
            requires
                at == 0,
                len > 0,
        ;
        len - 1
    }
}

impl WorkspaceModel {
    /// The focus is in range, here and in every tab.
    pub open spec fn wf(self) -> bool {
        &&& in_range(self.focused, self.tabs.len())
        &&& forall|i: int| 0 <= i < self.tabs.len() ==> (#[trigger] self.tabs[i]).wf()
    }

    /// A workspace with no tabs yet.
    pub open spec fn fresh(id: Seq<char>, title: Seq<char>) -> WorkspaceModel {
        WorkspaceModel { id, title, tabs: Seq::empty(), focused: 0 }
    }

    /// The tab in focus.
    pub open spec fn focused_tab(self) -> Option<TabModel> {
        if self.focused < self.tabs.len() {
            Some(self.tabs[self.focused as int])
        } else {
            None
        }
    }

    /// The focus on the tab at a place, where there is one.
    pub open spec fn focus_tab(self, index: usize) -> WorkspaceModel {
        if index < self.tabs.len() {
            WorkspaceModel { focused: index, ..self }
        } else {
            self
        }
    }

    /// The most urgent state among the tabs.
    pub open spec fn state(self) -> AgentState {
        most_urgent(self.tabs.map_values(|t: TabModel| t.state()))
    }

    /// Unread rolled up from every tab.
    pub open spec fn unread(self) -> Unread {
        total(self.tabs.map_values(|t: TabModel| t.unread))
    }
}

impl Workspace {
    pub fn new(id: &str, title: &str) -> (r: Self)
        ensures
            r@ == WorkspaceModel::fresh(id@, title@),
    {
        let r = Workspace { id: id.to_owned(), title: title.to_owned(), tabs: Vec::new(), focused: 0 };
        assert(r@ =~= WorkspaceModel::fresh(id@, title@));
        r
    }

    pub fn focused_tab(&self) -> (r: Option<&Tab>)
        ensures
            match r {
                Some(t) => self@.focused_tab() == Some(t@),
                None => self@.focused_tab() is None,
            },
    {
        if self.focused < self.tabs.len() {
            Some(&self.tabs[self.focused])
        } else {
            None
        }
    }

    pub fn focused_tab_mut(&mut self) -> (r: Option<&mut Tab>)
        ensures
            match r {
                Some(t) => {
                    &&& old(self)@.focused_tab() == Some(t@)
                    &&& final(self)@ == (WorkspaceModel {
                        tabs: old(self)@.tabs.update(old(self)@.focused as int, final(t)@),
                        ..old(self)@
                    })
                },
                None => old(self)@.focused_tab() is None && final(self)@ == old(self)@,
            },
    {
        if self.focused < self.tabs.len() {
            proof {
                lemma_deep_update(self.tabs, self.focused as int);
            }
            Some(&mut self.tabs[self.focused])
        } else {
            None
        }
    }

    pub fn focus_tab(&mut self, index: usize) -> (r: bool)
        ensures
            final(self)@ == old(self)@.focus_tab(index),
            r == (index < old(self)@.tabs.len()),
    {
        if index < self.tabs.len() {
            self.focused = index;
            true
        } else {
            false
        }
    }

    pub fn next_tab(&mut self)
        ensures
            final(self)@ == (WorkspaceModel {
                focused: following(old(self)@.focused, old(self)@.tabs.len()),
                ..old(self)@
            }),
    {
        self.focused = step_on(self.focused, self.tabs.len());
    }

    pub fn prev_tab(&mut self)
        ensures
            final(self)@ == (WorkspaceModel {
                focused: preceding(old(self)@.focused, old(self)@.tabs.len()),
                ..old(self)@
            }),
    {
        self.focused = step_back(self.focused, self.tabs.len());
    }

    /// Where the tab of a room stands.
    pub fn position(&self, room_id: &str) -> (r: Option<usize>)
        ensures
            match r {
                Some(i) => first_where(self@.tabs, for_room(room_id@)) == Some(i as int) && i < self@.tabs.len(),
                None => first_where(self@.tabs, for_room(room_id@)) is None,
            },
    {
        let mut i: usize = 0;
        while i < self.tabs.len()
            invariant
                i <= self.tabs.len(),
                forall|j: int| 0 <= j < i ==> !for_room(room_id@)(#[trigger] self@.tabs[j]),
            decreases self.tabs.len() - i,
        {
            if same(self.tabs[i].room_id.as_str(), room_id) {
                proof {
                    assert(for_room(room_id@)(self@.tabs[i as int]));
                    lemma_first(self@.tabs, for_room(room_id@), i as int);
                }
                return Some(i);
            }
            i += 1;
        }
        proof {
            lemma_no_first(self@.tabs, for_room(room_id@));
        }
        None
    }

    pub fn tab_for_room(&self, room_id: &str) -> (r: Option<&Tab>)
        ensures
            match r {
                Some(t) => first_where(self@.tabs, for_room(room_id@)) is Some && t@
                    == self@.tabs[first_where(self@.tabs, for_room(room_id@))->0],
                None => first_where(self@.tabs, for_room(room_id@)) is None,
            },
    {
        match self.position(room_id) {
            Some(i) => Some(&self.tabs[i]),
            None => None,
        }
    }

    pub fn tab_for_room_mut(&mut self, room_id: &str) -> (r: Option<&mut Tab>)
        ensures
            match r {
                Some(t) => {
                    let i = first_where(old(self)@.tabs, for_room(room_id@));
                    &&& i is Some
                    &&& t@ == old(self)@.tabs[i->0]
                    &&& final(self)@ == (WorkspaceModel { tabs: old(self)@.tabs.update(i->0, final(t)@), ..old(self)@ })
                },
                None => first_where(old(self)@.tabs, for_room(room_id@)) is None && final(self)@ == old(self)@,
            },
    {
        match self.position(room_id) {
            Some(i) => {
                proof {
                    lemma_deep_update(self.tabs, i as int);
                }
                Some(&mut self.tabs[i])
            },
            None => None,
        }
    }

    /// The workspace badge: the most urgent state among its tabs.
    pub fn state(&self) -> (r: AgentState)
        ensures
            r == self@.state(),
    {
        let ghost all = self@.tabs.map_values(|t: TabModel| t.state());
        let mut r = AgentState::Idle;
        let mut i: usize = 0;
        while i < self.tabs.len()
            invariant
                i <= self.tabs.len(),
                all == self@.tabs.map_values(|t: TabModel| t.state()),
                r == most_urgent(all.take(i as int)),
            decreases self.tabs.len() - i,
        {
            r = r.urgent(self.tabs[i].state());
            assert(all.take(i + 1).drop_last() =~= all.take(i as int));
            i += 1;
        }
        assert(all.take(all.len() as int) =~= all);
        r
    }

    /// How many panes are in the given state, stopping at the largest number.
    pub fn count_in(&self, state: AgentState) -> (r: usize)
        ensures
            r == at_most(tab_panes_in(self@.tabs, state), usize::MAX as int),
    {
        let mut r: usize = 0;
        let mut i: usize = 0;
        while i < self.tabs.len()
            invariant
                i <= self.tabs.len(),
                r == at_most(tab_panes_in(self@.tabs.take(i as int), state), usize::MAX as int),
            decreases self.tabs.len() - i,
        {
            proof {
                assert(self@.tabs.take(i + 1).drop_last() =~= self@.tabs.take(i as int));
                lemma_tab_panes_in(self@.tabs.take(i as int), state);
            }
            r = r.saturating_add(self.tabs[i].count_in(state));
            i += 1;
        }
        assert(self@.tabs.take(self.tabs.len() as int) =~= self@.tabs);
        r
    }

    /// Unread rolled up from every tab, so an unwatched workspace is distinguishable
    /// from an empty one.
    pub fn unread(&self) -> (r: Unread)
        ensures
            r == self@.unread(),
    {
        let ghost all = self@.tabs.map_values(|t: TabModel| t.unread);
        let mut r = Unread { notifications: 0, highlights: 0 };
        let mut i: usize = 0;
        while i < self.tabs.len()
            invariant
                i <= self.tabs.len(),
                all == self@.tabs.map_values(|t: TabModel| t.unread),
                r == total(all.take(i as int)),
            decreases self.tabs.len() - i,
        {
            r = r.plus(self.tabs[i].unread);
            assert(all.take(i + 1).drop_last() =~= all.take(i as int));
            i += 1;
        }
        assert(all.take(all.len() as int) =~= all);
        r
    }
}

// ---------------------------------------------------------------------- the whole bar

/// The test for a workspace's id.
pub open spec fn of_space(id: Seq<char>) -> spec_fn(WorkspaceModel) -> bool {
    |w: WorkspaceModel| w.id == id
}

/// The test for a workspace that holds a room.
pub open spec fn holds_room(room_id: Seq<char>) -> spec_fn(WorkspaceModel) -> bool {
    |w: WorkspaceModel| first_where(w.tabs, for_room(room_id)) is Some
}

/// How many panes of these workspaces are in a state.
pub open spec fn all_panes_in(items: Seq<WorkspaceModel>, state: AgentState) -> int
    decreases items.len(),
{
    if items.len() == 0 {
        0
    } else {
        all_panes_in(items.drop_last(), state) + tab_panes_in(items.last().tabs, state)
    }
}

/// The order of the bar: what needs attention first, then by title.
pub open spec fn by_urgency() -> spec_fn(WorkspaceModel, WorkspaceModel) -> bool {
    |a: WorkspaceModel, b: WorkspaceModel|
        a.state().rank() > b.state().rank() || (a.state().rank() == b.state().rank() && text_less(a.title, b.title))
}

impl WorkspacesModel {
    /// The focus is in range, here and in every workspace.
    pub open spec fn wf(self) -> bool {
        &&& in_range(self.focused, self.items.len())
        &&& forall|i: int| 0 <= i < self.items.len() ==> (#[trigger] self.items[i]).wf()
    }

    /// No workspaces.
    pub open spec fn empty() -> WorkspacesModel {
        WorkspacesModel { items: Seq::empty(), focused: 0 }
    }

    /// The workspace in focus.
    pub open spec fn focused(self) -> Option<WorkspaceModel> {
        if self.focused < self.items.len() {
            Some(self.items[self.focused as int])
        } else {
            None
        }
    }

    /// The focus on the workspace at a place, where there is one.
    pub open spec fn focus(self, index: usize) -> WorkspacesModel {
        if index < self.items.len() {
            WorkspacesModel { focused: index, ..self }
        } else {
            self
        }
    }

    /// The bar with a workspace of this id in it, added at the end where there is none.
    pub open spec fn with_entry(self, id: Seq<char>, title: Seq<char>) -> WorkspacesModel {
        if first_where(self.items, of_space(id)) is Some {
            self
        } else {
            WorkspacesModel { items: self.items.push(WorkspaceModel::fresh(id, title)), ..self }
        }
    }

    /// Where the workspace of this id stands once it is there.
    pub open spec fn entry_index(self, id: Seq<char>) -> int {
        match first_where(self.items, of_space(id)) {
            Some(i) => i,
            None => self.items.len() as int,
        }
    }

    /// The first workspace that holds a room, and the room's tab in it.
    pub open spec fn locate_room(self, room_id: Seq<char>) -> Option<(int, int)> {
        match first_where(self.items, holds_room(room_id)) {
            Some(w) => Some((w, first_where(self.items[w].tabs, for_room(room_id))->0)),
            None => None,
        }
    }

    /// The most urgent state of all.
    pub open spec fn state(self) -> AgentState {
        most_urgent(self.items.map_values(|w: WorkspaceModel| w.state()))
    }

    /// Unread rolled up across every workspace.
    pub open spec fn unread(self) -> Unread {
        total(self.items.map_values(|w: WorkspaceModel| w.unread()))
    }

    /// The bar in order of urgency, the focus on the workspace of the same id.
    pub open spec fn sort_by_urgency(self) -> WorkspacesModel {
        let items = sorted(self.items, by_urgency());
        match self.focused() {
            Some(w) => match first_where(items, of_space(w.id)) {
                Some(i) => WorkspacesModel { items, focused: i as usize },
                None => WorkspacesModel { items, ..self },
            },
            None => WorkspacesModel { items, ..self },
        }
    }
}

impl Default for Workspaces {
    fn default() -> (r: Self)
        ensures
            r@ == WorkspacesModel::empty(),
    {
        Workspaces::new()
    }
}

impl Workspaces {
    pub fn new() -> (r: Self)
        ensures
            r@ == WorkspacesModel::empty(),
    {
        let r = Workspaces { items: Vec::new(), focused: 0 };
        assert(r@ =~= WorkspacesModel::empty());
        r
    }

    pub fn focused(&self) -> (r: Option<&Workspace>)
        ensures
            match r {
                Some(w) => self@.focused() == Some(w@),
                None => self@.focused() is None,
            },
    {
        if self.focused < self.items.len() {
            Some(&self.items[self.focused])
        } else {
            None
        }
    }

    pub fn focused_mut(&mut self) -> (r: Option<&mut Workspace>)
        ensures
            match r {
                Some(w) => {
                    &&& old(self)@.focused() == Some(w@)
                    &&& final(self)@ == (WorkspacesModel {
                        items: old(self)@.items.update(old(self)@.focused as int, final(w)@),
                        ..old(self)@
                    })
                },
                None => old(self)@.focused() is None && final(self)@ == old(self)@,
            },
    {
        if self.focused < self.items.len() {
            proof {
                lemma_deep_update(self.items, self.focused as int);
            }
            Some(&mut self.items[self.focused])
        } else {
            None
        }
    }

    pub fn focus(&mut self, index: usize) -> (r: bool)
        ensures
            final(self)@ == old(self)@.focus(index),
            r == (index < old(self)@.items.len()),
    {
        if index < self.items.len() {
            self.focused = index;
            true
        } else {
            false
        }
    }

    /// Cycle to the next workspace, wrapping.
    pub fn next(&mut self)
        ensures
            final(self)@ == (WorkspacesModel {
                focused: following(old(self)@.focused, old(self)@.items.len()),
                ..old(self)@
            }),
    {
        self.focused = step_on(self.focused, self.items.len());
    }

    /// Cycle to the previous workspace, wrapping.
    pub fn prev(&mut self)
        ensures
            final(self)@ == (WorkspacesModel {
                focused: preceding(old(self)@.focused, old(self)@.items.len()),
                ..old(self)@
            }),
    {
        self.focused = step_back(self.focused, self.items.len());
    }

    /// Where the workspace with an id stands.
    pub fn position(&self, id: &str) -> (r: Option<usize>)
        ensures
            match r {
                Some(i) => first_where(self@.items, of_space(id@)) == Some(i as int) && i < self@.items.len(),
                None => first_where(self@.items, of_space(id@)) is None,
            },
    {
        let mut i: usize = 0;
        while i < self.items.len()
            invariant
                i <= self.items.len(),
                forall|j: int| 0 <= j < i ==> !of_space(id@)(#[trigger] self@.items[j]),
            decreases self.items.len() - i,
        {
            if same(self.items[i].id.as_str(), id) {
                proof {
                    assert(of_space(id@)(self@.items[i as int]));
                    lemma_first(self@.items, of_space(id@), i as int);
                }
                return Some(i);
            }
            i += 1;
        }
        proof {
            lemma_no_first(self@.items, of_space(id@));
        }
        None
    }

    /// The workspace with an id, made at the end of the bar where there is none.
    pub fn entry(&mut self, id: &str, title: &str) -> (r: &mut Workspace)
        ensures
            r@ == old(self)@.with_entry(id@, title@).items[old(self)@.entry_index(id@)],
            final(self)@ == (WorkspacesModel {
                items: old(self)@.with_entry(id@, title@).items.update(old(self)@.entry_index(id@), final(r)@),
                ..old(self)@
            }),
    {
        let found = self.position(id);
        let ghost before = self@;
        let i: usize = match found {
            Some(i) => i,
            None => {
                let n = self.items.len();
                self.items.push(Workspace::new(id, title));
                assert(self@.items =~= before.items.push(WorkspaceModel::fresh(id@, title@)));
                n
            },
        };
        proof {
            assert(self@.items == before.with_entry(id@, title@).items);
            lemma_deep_update(self.items, i as int);
        }
        &mut self.items[i]
    }

    /// The workspace and the tab of a room.
    pub fn locate_room(&self, room_id: &str) -> (r: Option<(usize, usize)>)
        ensures
            match r {
                Some((w, t)) => {
                    &&& self@.locate_room(room_id@) == Some((w as int, t as int))
                    &&& w < self@.items.len()
                    &&& t < self@.items[w as int].tabs.len()
                },
                None => self@.locate_room(room_id@) is None,
            },
    {
        let mut i: usize = 0;
        while i < self.items.len()
            invariant
                i <= self.items.len(),
                forall|j: int| 0 <= j < i ==> !holds_room(room_id@)(#[trigger] self@.items[j]),
            decreases self.items.len() - i,
        {
            if let Some(t) = self.items[i].position(room_id) {
                proof {
                    assert(holds_room(room_id@)(self@.items[i as int]));
                    lemma_first(self@.items, holds_room(room_id@), i as int);
                }
                return Some((i, t));
            }
            i += 1;
        }
        proof {
            lemma_no_first(self@.items, holds_room(room_id@));
        }
        None
    }

    /// Global badge.
    pub fn state(&self) -> (r: AgentState)
        ensures
            r == self@.state(),
    {
        let ghost all = self@.items.map_values(|w: WorkspaceModel| w.state());
        let mut r = AgentState::Idle;
        let mut i: usize = 0;
        while i < self.items.len()
            invariant
                i <= self.items.len(),
                all == self@.items.map_values(|w: WorkspaceModel| w.state()),
                r == most_urgent(all.take(i as int)),
            decreases self.items.len() - i,
        {
            r = r.urgent(self.items[i].state());
            assert(all.take(i + 1).drop_last() =~= all.take(i as int));
            i += 1;
        }
        assert(all.take(all.len() as int) =~= all);
        r
    }

    /// Total panes in a given state across everything, stopping at the largest number.
    pub fn count_in(&self, state: AgentState) -> (r: usize)
        ensures
            r == at_most(all_panes_in(self@.items, state), usize::MAX as int),
    {
        let mut r: usize = 0;
        let mut i: usize = 0;
        while i < self.items.len()
            invariant
                i <= self.items.len(),
                r == at_most(all_panes_in(self@.items.take(i as int), state), usize::MAX as int),
            decreases self.items.len() - i,
        {
            proof {
                assert(self@.items.take(i + 1).drop_last() =~= self@.items.take(i as int));
                lemma_all_panes_in(self@.items.take(i as int), state);
                lemma_tab_panes_in(self@.items[i as int].tabs, state);
            }
            r = r.saturating_add(self.items[i].count_in(state));
            i += 1;
        }
        assert(self@.items.take(self.items.len() as int) =~= self@.items);
        r
    }

    /// Unread rolled up across every workspace.
    pub fn unread(&self) -> (r: Unread)
        ensures
            r == self@.unread(),
    {
        let ghost all = self@.items.map_values(|w: WorkspaceModel| w.unread());
        let mut r = Unread { notifications: 0, highlights: 0 };
        let mut i: usize = 0;
        while i < self.items.len()
            invariant
                i <= self.items.len(),
                all == self@.items.map_values(|w: WorkspaceModel| w.unread()),
                r == total(all.take(i as int)),
            decreases self.items.len() - i,
        {
            r = r.plus(self.items[i].unread());
            assert(all.take(i + 1).drop_last() =~= all.take(i as int));
            i += 1;
        }
        assert(all.take(all.len() as int) =~= all);
        r
    }

    /// Order workspaces so the ones needing attention come first, then alphabetically.
    /// The focus stays on the workspace it was on.
    pub fn sort_by_urgency(&mut self)
        ensures
            final(self)@ == old(self)@.sort_by_urgency(),
    {
        let ghost before = self@;
        let focused_id = match self.focused() {
            Some(w) => Some(w.id.clone()),
            None => None,
        };
        let mut items: Vec<Workspace> = Vec::new();
        std::mem::swap(&mut self.items, &mut items);
        self.items = sort(items, more_urgent, Ghost(by_urgency()));
        if let Some(id) = focused_id {
            if let Some(i) = self.position(id.as_str()) {
                self.focused = i;
            }
        }
        assert(self@ =~= before.sort_by_urgency());
    }
}

fn more_urgent(a: &Workspace, b: &Workspace) -> (r: bool)
    ensures
        r == by_urgency()(a@, b@),
{
    let x = a.state();
    let y = b.state();
    if x == y {
        comes_before(a.title.as_str(), b.title.as_str())
    } else {
        x.urgent(y) == x
    }
}

// ----------------------------------------------------------------------------- laws

/// Removing a pane other than the one in focus leaves the same pane in focus.
pub proof fn law_removing_another_pane_keeps_the_focus(tab: TabModel, id: PaneId)
    requires
        tab.wf(),
        tab.panes.len() <= usize::MAX,
        tab.focused_pane() is Some,
        first_where(tab.panes, with_id(id)) != Some(tab.focused as int),
    ensures
        tab.remove_pane(id).focused_pane() == tab.focused_pane(),
{
    lemma_first_where(tab.panes, with_id(id));
}

/// Every change to a tab keeps its focus in range.
pub proof fn law_tab_focus_stays_in_range(tab: TabModel, id: PaneId, pane: PaneModel)
    requires
        tab.wf(),
        tab.panes.len() < usize::MAX,
    ensures
        tab.focus(id).wf(),
        tab.push_pane(pane).wf(),
        tab.remove_pane(id).wf(),
{
    lemma_first_where(tab.panes, with_id(id));
}

/// A pane that was added is the one in focus.
pub proof fn law_a_new_pane_has_the_focus(tab: TabModel, pane: PaneModel)
    requires
        tab.panes.len() < usize::MAX,
    ensures
        tab.push_pane(pane).focused_pane() == Some(pane),
{
}

/// Removing the pane that was added leaves the panes as they were, if its id is new.
pub proof fn law_removing_undoes_adding(tab: TabModel, pane: PaneModel)
    requires
        first_where(tab.panes, with_id(pane.id)) is None,
        tab.panes.len() < usize::MAX,
    ensures
        tab.push_pane(pane).remove_pane(pane.id).panes == tab.panes,
{
    let n = tab.panes.len() as int;
    let pushed = tab.panes.push(pane);
    lemma_first_where(tab.panes, with_id(pane.id));
    assert forall|j: int| 0 <= j < n implies !with_id(pane.id)(#[trigger] pushed[j]) by {
        assert(pushed[j] == tab.panes[j]);
    }
    assert(with_id(pane.id)(pushed[n]));
    assert(is_first(pushed, with_id(pane.id), n));
    lemma_first(pushed, with_id(pane.id), n);
    assert(pushed.remove(n) =~= tab.panes);
}

/// Every change to a workspace keeps its focus in range.
pub proof fn law_workspace_focus_stays_in_range(w: WorkspaceModel, index: usize)
    requires
        w.wf(),
        w.tabs.len() <= usize::MAX,
    ensures
        w.focus_tab(index).wf(),
        (WorkspaceModel { focused: following(w.focused, w.tabs.len()), ..w }).wf(),
        (WorkspaceModel { focused: preceding(w.focused, w.tabs.len()), ..w }).wf(),
{
    law_cycling_is_reversible(w.focused, w.tabs.len());
}

/// Every change to the bar keeps its focus in range.
pub proof fn law_bar_focus_stays_in_range(bar: WorkspacesModel, index: usize, id: Seq<char>, title: Seq<char>)
    requires
        bar.wf(),
        bar.items.len() <= usize::MAX,
    ensures
        bar.focus(index).wf(),
        (WorkspacesModel { focused: following(bar.focused, bar.items.len()), ..bar }).wf(),
        (WorkspacesModel { focused: preceding(bar.focused, bar.items.len()), ..bar }).wf(),
        bar.with_entry(id, title).wf(),
{
    law_cycling_is_reversible(bar.focused, bar.items.len());
}

/// Asking for a workspace twice makes it once.
pub proof fn law_entry_is_idempotent(bar: WorkspacesModel, id: Seq<char>, title: Seq<char>, again: Seq<char>)
    ensures
        bar.with_entry(id, title).with_entry(id, again) == bar.with_entry(id, title),
{
    lemma_first_where(bar.items, of_space(id));
    let made = bar.with_entry(id, title);
    lemma_first_where(made.items, of_space(id));
    if first_where(bar.items, of_space(id)) is None {
        assert(of_space(id)(made.items[bar.items.len() as int]));
    }
}

/// The order of urgency is one that sorting can go by.
pub proof fn lemma_urgency_orders()
    ensures
        orders(by_urgency()),
{
    let less = by_urgency();
    assert forall|a: WorkspaceModel, b: WorkspaceModel| #[trigger] less(a, b) implies !less(b, a) by {
        lemma_text_less_one_way(a.title, b.title);
    }
    assert forall|a: WorkspaceModel, b: WorkspaceModel, c: WorkspaceModel|
        !#[trigger] less(a, b) && !#[trigger] less(b, c) implies !less(a, c) by {
        if a.state().rank() == b.state().rank() && b.state().rank() == c.state().rank() {
            lemma_text_less_not(a.title, b.title, c.title);
        }
    }
}

/// Ordering the bar loses no workspace, puts the urgent first and equals by title, and
/// leaves the focus on a workspace of the same id.
pub proof fn law_ordering_keeps_the_focus(bar: WorkspacesModel)
    requires
        bar.wf(),
        bar.items.len() <= usize::MAX,
    ensures
        in_order(bar.sort_by_urgency().items, by_urgency()),
        bar.sort_by_urgency().items.to_multiset() == bar.items.to_multiset(),
        bar.focused() is Some ==> bar.sort_by_urgency().focused() is Some && bar.sort_by_urgency().focused()->0.id
            == bar.focused()->0.id,
{
    broadcast use vstd::seq_lib::to_multiset_contains;

    lemma_urgency_orders();
    law_sorting_orders(bar.items, by_urgency());
    let items = sorted(bar.items, by_urgency());
    if let Some(w) = bar.focused() {
        assert(bar.items[bar.focused as int] == w);
        assert(bar.items.contains(w));
        assert(bar.items.to_multiset().count(w) > 0);
        assert(items.contains(w));
        let k = items.index_of(w);
        assert(items[k] == w);
        lemma_first_where(items, of_space(w.id));
        assert(of_space(w.id)(items[k]));
    }
}

/// A badge rolls all the way up: no tab, workspace or bar is less urgent than a pane in
/// it.
pub proof fn law_badges_roll_up(bar: WorkspacesModel, w: int, t: int, p: int)
    requires
        0 <= w < bar.items.len(),
        0 <= t < bar.items[w].tabs.len(),
        0 <= p < bar.items[w].tabs[t].panes.len(),
    ensures
        bar.items[w].tabs[t].panes[p].state.rank() <= bar.items[w].tabs[t].state().rank(),
        bar.items[w].tabs[t].state().rank() <= bar.items[w].state().rank(),
        bar.items[w].state().rank() <= bar.state().rank(),
{
    let panes = bar.items[w].tabs[t].panes.map_values(|p: PaneModel| p.state);
    lemma_most_urgent(panes);
    assert(panes[p].rank() <= most_urgent(panes).rank());
    let tabs = bar.items[w].tabs.map_values(|t: TabModel| t.state());
    lemma_most_urgent(tabs);
    assert(tabs[t].rank() <= most_urgent(tabs).rank());
    let items = bar.items.map_values(|w: WorkspaceModel| w.state());
    lemma_most_urgent(items);
    assert(items[w].rank() <= most_urgent(items).rank());
}

} // verus!
