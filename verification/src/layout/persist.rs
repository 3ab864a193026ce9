//! Saving and restoring the pane arrangement.
//!
//! A layout is not data: every room, thread and message in it comes back from the
//! homeserver on the next sync. What cannot be recovered is the arrangement the user
//! built by hand: which threads they had side by side, how wide they made them, which one
//! they were looking at. That is what a layout holds, and nothing else.
//!
//! Cheap to rebuild, so cheap to throw away: every failure here degrades to one pane per
//! room rather than to an error blocking the user from their messages.

use vstd::prelude::*;

use crate::layout::model::{
    Pane, PaneId, PaneKind, PaneKindModel, PaneModel, Tab, TabModel, WorkspaceModel, Workspaces, WorkspacesModel,
};
use crate::agent::store::AgentState;
use crate::layout::tiling::{Tiling, TilingModel, TilingSnapshot, TilingSnapshotModel};
use crate::table::{lemma_deep, lemma_deep_empty, Table};

verus! {

/// Schema version of a saved layout.
///
/// A layout from a different version is discarded, not migrated: the cost of a wrong
/// migration is someone's arrangement silently rearranged, and the cost of discarding is
/// one relaunch spent splitting again.
pub const VERSION: u32 = 1;

/// One pane's content. The geometry lives in the tiling snapshot beside it.
#[derive(Debug, PartialEq, Eq)]
pub struct SavedPane {
    /// Pane id, matching a leaf of the tiling tree.
    pub id: u64,
    pub kind: PaneKind,
    /// Kept only so a restored pane has a header before its timeline arrives.
    pub title: String,
}

/// The mathematical content of a [`SavedPane`].
#[verifier::ext_equal]
pub struct SavedPaneModel {
    pub id: u64,
    pub kind: PaneKindModel,
    pub title: Seq<char>,
}

impl View for SavedPane {
    type V = SavedPaneModel;

    open spec fn view(&self) -> SavedPaneModel {
        SavedPaneModel {
            id: self.id,
            kind: self.kind@,
            title: self.title@,
        }
    }
}

impl DeepView for SavedPane {
    type V = SavedPaneModel;

    open spec fn deep_view(&self) -> SavedPaneModel {
        self@
    }
}

impl Clone for SavedPane {
    fn clone(&self) -> (r: Self)
        ensures
            r@ == self@,
    {
        let r = SavedPane {
            id: self.id,
            kind: self.kind.clone(),
            title: self.title.clone(),
        };
        r
    }
}

/// One room's pane arrangement.
#[derive(Debug)]
pub struct SavedTab {
    pub tiling: TilingSnapshot,
    /// In the order the tab held them, which is the order they were created in. It decides
    /// which pane a new thread splits off.
    pub panes: Vec<SavedPane>,
}

/// The mathematical content of a [`SavedTab`].
#[verifier::ext_equal]
pub struct SavedTabModel {
    pub tiling: TilingSnapshotModel,
    pub panes: Seq<SavedPaneModel>,
}

impl View for SavedTab {
    type V = SavedTabModel;

    open spec fn view(&self) -> SavedTabModel {
        SavedTabModel {
            tiling: self.tiling@,
            panes: self.panes.deep_view(),
        }
    }
}

impl DeepView for SavedTab {
    type V = SavedTabModel;

    open spec fn deep_view(&self) -> SavedTabModel {
        self@
    }
}

/// The whole saved layout for one profile.
#[derive(Debug)]
pub struct Layout {
    pub version: u32,
    /// Workspace the user was in.
    pub workspace: Option<String>,
    /// The focused tab of each workspace: workspace id to room id. Kept per workspace, so
    /// cycling back to a workspace returns to the room you left it on.
    pub tabs: Table<String, String>,
    /// Pane arrangement per room.
    pub rooms: Table<String, SavedTab>,
}

/// The mathematical content of a [`Layout`].
#[verifier::ext_equal]
pub struct LayoutModel {
    pub version: u32,
    pub workspace: Option<Seq<char>>,
    pub tabs: Map<Seq<char>, Seq<char>>,
    pub rooms: Map<Seq<char>, SavedTabModel>,
}

impl View for Layout {
    type V = LayoutModel;

    open spec fn view(&self) -> LayoutModel {
        LayoutModel {
            version: self.version,
            workspace: self.workspace.deep_view(),
            tabs: self.tabs.deep_view(),
            rooms: self.rooms.deep_view(),
        }
    }
}

impl LayoutModel {
    /// A layout in which nothing is saved.
    pub open spec fn empty() -> LayoutModel {
        LayoutModel { version: VERSION, workspace: None, tabs: Map::empty(), rooms: Map::empty() }
    }
}

impl Default for Layout {
    fn default() -> (r: Self)
        ensures
            r@ == LayoutModel::empty(),
    {
        Layout::new()
    }
}

/// What is saved of these panes.
pub open spec fn saved_panes(panes: Seq<PaneModel>) -> Seq<SavedPaneModel> {
    Seq::new(panes.len(), |i: int| SavedPaneModel { id: panes[i].id.0, kind: panes[i].kind, title: panes[i].title })
}

/// What is saved of a tab and its tiling.
pub open spec fn saved_tab(tab: TabModel, tiling: TilingModel) -> SavedTabModel {
    SavedTabModel { tiling: tiling.snapshot(), panes: saved_panes(tab.panes) }
}

/// The saved arrangement of these tabs; a tab without a tiling is passed over.
pub open spec fn captured_rooms_of(
    tabs: Seq<TabModel>,
    tilings: Map<Seq<char>, TilingModel>,
    saved: Map<Seq<char>, SavedTabModel>,
) -> Map<Seq<char>, SavedTabModel>
    decreases tabs.len(),
{
    if tabs.len() == 0 {
        saved
    } else {
        let rest = captured_rooms_of(tabs.drop_last(), tilings, saved);
        let tab = tabs.last();
        if tilings.contains_key(tab.room_id) {
            rest.insert(tab.room_id, saved_tab(tab, tilings[tab.room_id]))
        } else {
            rest
        }
    }
}

/// The saved arrangement of every room.
pub open spec fn captured_rooms(
    items: Seq<WorkspaceModel>,
    tilings: Map<Seq<char>, TilingModel>,
) -> Map<Seq<char>, SavedTabModel>
    decreases items.len(),
{
    if items.len() == 0 {
        Map::empty()
    } else {
        captured_rooms_of(items.last().tabs, tilings, captured_rooms(items.drop_last(), tilings))
    }
}

/// The room in focus in each workspace.
pub open spec fn captured_tabs(items: Seq<WorkspaceModel>) -> Map<Seq<char>, Seq<char>>
    decreases items.len(),
{
    if items.len() == 0 {
        Map::empty()
    } else {
        let rest = captured_tabs(items.drop_last());
        match items.last().focused_tab() {
            Some(tab) => rest.insert(items.last().id, tab.room_id),
            None => rest,
        }
    }
}

/// The layout of an arrangement.
pub open spec fn captured(bar: WorkspacesModel, tilings: Map<Seq<char>, TilingModel>) -> LayoutModel {
    LayoutModel {
        version: VERSION,
        workspace: match bar.focused() {
            Some(w) => Some(w.id),
            None => None,
        },
        tabs: captured_tabs(bar.items),
        rooms: captured_rooms(bar.items, tilings),
    }
}

/// Whether no two saved panes have one id.
pub open spec fn distinct_panes(panes: Seq<SavedPaneModel>) -> bool {
    forall|i: int, j: int| 0 <= i < j < panes.len() ==> (#[trigger] panes[i]).id != (#[trigger] panes[j]).id
}

/// Whether a saved arrangement can be rebuilt: there are panes, none stands twice, in the
/// tree or beside it, and panes and tree agree about which panes exist.
pub open spec fn restorable(saved: SavedTabModel) -> bool {
    &&& saved.panes.len() > 0
    &&& saved.tiling.ids.no_duplicates()
    &&& saved.tiling.ids.len() == saved.panes.len()
    &&& distinct_panes(saved.panes)
    &&& forall|i: int| 0 <= i < saved.panes.len() ==> saved.tiling.ids.contains((#[trigger] saved.panes[i]).id)
}

/// The pane that a saved one stands for.
pub open spec fn restored_pane(p: SavedPaneModel) -> PaneModel {
    PaneModel {
        id: PaneId(p.id),
        kind: p.kind,
        title: p.title,
        state: AgentState::Idle,
        degraded: false,
        gaps: false,
    }
}

/// The tab with these saved panes behind its own.
pub open spec fn with_saved(tab: TabModel, panes: Seq<SavedPaneModel>) -> TabModel
    decreases panes.len(),
{
    if panes.len() == 0 {
        tab
    } else {
        with_saved(tab, panes.drop_last()).push_pane(restored_pane(panes.last()))
    }
}

/// The tab with a saved arrangement behind its own panes, and the focus where the tiling
/// has it.
pub open spec fn restored_tab(tab: TabModel, saved: SavedTabModel) -> TabModel {
    with_saved(tab, saved.panes).focus(PaneId(saved.tiling.restored().focus))
}

impl Layout {
    /// A layout in which nothing is saved.
    pub fn new() -> (r: Self)
        ensures
            r@ == LayoutModel::empty(),
    {
        proof {
            lemma_deep_empty::<Seq<char>, String>();
            lemma_deep_empty::<Seq<char>, SavedTab>();
        }
        let r = Layout { version: VERSION, workspace: None, tabs: Table::new(), rooms: Table::new() };
        assert(r@ =~= LayoutModel::empty());
        r
    }

    /// This layout, or an empty one if it is of another version.
    pub fn of_this_version(self) -> (r: Self)
        ensures
            r@ == (if self@.version == VERSION {
                self@
            } else {
                LayoutModel::empty()
            }),
    {
        if self.version != VERSION {
            Layout::new()
        } else {
            self
        }
    }

    /// Capture the current arrangement.
    ///
    /// Single-pane rooms are recorded too, so "never opened" stays distinguishable from
    /// "deliberately left with one pane".
    pub fn capture(workspaces: &Workspaces, tilings: &Table<String, Tiling>) -> (r: Self)
        ensures
            r@ == captured(workspaces@, tilings.deep_view()),
    {
        let mut tabs: Table<String, String> = Table::new();
        let mut rooms: Table<String, SavedTab> = Table::new();
        let ghost items = workspaces@.items;
        proof {
            lemma_deep_empty::<Seq<char>, String>();
            lemma_deep_empty::<Seq<char>, SavedTab>();
        }
        let mut i: usize = 0;
        while i < workspaces.items.len()
            invariant
                i <= workspaces.items.len(),
                items == workspaces@.items,
                tabs.deep_view() == captured_tabs(items.take(i as int)),
                rooms.deep_view() == captured_rooms(items.take(i as int), tilings.deep_view()),
            decreases workspaces.items.len() - i,
        {
            let w = &workspaces.items[i];
            proof {
                assert(items.take(i + 1).drop_last() =~= items.take(i as int));
                assert(items.take(i + 1).last() == w@);
            }
            if let Some(tab) = w.focused_tab() {
                proof {
                    lemma_deep(tabs@, w@.id);
                }
                tabs.insert(w.id.clone(), tab.room_id.clone());
            }
            capture_tabs(&w.tabs, tilings, &mut rooms);
            i += 1;
        }
        assert(items.take(items.len() as int) =~= items);
        let workspace = match workspaces.focused() {
            Some(w) => Some(w.id.clone()),
            None => None,
        };
        Layout { version: VERSION, workspace, tabs, rooms }
    }

    /// Take a room's saved arrangement, rebuilding its tiling and panes.
    ///
    /// Consuming: sync sends summaries again and again, so a room appears in the room
    /// list more than once and must be restored only the first time.
    ///
    /// `None`, and the tab as it was, when nothing is saved, the tree will not load, or
    /// the panes and the tree disagree about which panes exist.
    pub fn take_room(&mut self, room_id: &str, tab: &mut Tab) -> (r: Option<Tiling>)
        ensures
            final(self)@ == (LayoutModel { rooms: old(self)@.rooms.remove(room_id@), ..old(self)@ }),
            old(self)@.rooms.contains_key(room_id@) && restorable(old(self)@.rooms[room_id@]) ==> {
                &&& r is Some
                &&& r->0@ == old(self)@.rooms[room_id@].tiling.restored()
                &&& final(tab)@ == restored_tab(old(tab)@, old(self)@.rooms[room_id@])
            },
            !(old(self)@.rooms.contains_key(room_id@) && restorable(old(self)@.rooms[room_id@])) ==> r is None
                && final(tab)@ == old(tab)@,
    {
        proof {
            lemma_deep(self.rooms@, room_id@);
        }
        let saved = match self.rooms.remove(room_id) {
            Some(saved) => saved,
            None => {
                return None;
            },
        };
        assert(saved@ == old(self)@.rooms[room_id@]);
        if saved.panes.len() == 0 {
            return None;
        }
        let tiling = match Tiling::restore(&saved.tiling) {
            Ok(tiling) => tiling,
            Err(_) => {
                return None;
            },
        };
        // A pane that is not a leaf would be drawn nowhere; a leaf with no pane would be
        // drawn empty for ever.
        let leaves = tiling.pane_ids();
        if leaves.len() != saved.panes.len() || !are_distinct(&saved.panes) || !all_leaves(
            &saved.panes,
            &leaves,
            Ghost(tiling@.ids),
        ) {
            return None;
        }
        push_saved(tab, &saved.panes);
        if let Some(focused) = tiling.focused() {
            tab.focus(focused);
        }
        Some(tiling)
    }
}

fn are_distinct(panes: &Vec<SavedPane>) -> (r: bool)
    ensures
        r == distinct_panes(panes.deep_view()),
{
    let ghost all = panes.deep_view();
    let mut j: usize = 0;
    while j < panes.len()
        invariant
            j <= panes.len(),
            all == panes.deep_view(),
            forall|a: int, b: int| 0 <= a < b < j ==> (#[trigger] all[a]).id != (#[trigger] all[b]).id,
        decreases panes.len() - j,
    {
        let mut i: usize = 0;
        while i < j
            invariant
                i <= j < panes.len(),
                all == panes.deep_view(),
                forall|a: int| 0 <= a < i ==> (#[trigger] all[a]).id != all[j as int].id,
            decreases j - i,
        {
            if panes[i].id == panes[j].id {
                assert(all[i as int].id == all[j as int].id);
                return false;
            }
            i += 1;
        }
        j += 1;
    }
    true
}

fn all_leaves(panes: &Vec<SavedPane>, leaves: &Vec<PaneId>, Ghost(ids): Ghost<Seq<u64>>) -> (r: bool)
    requires
        leaves@ == ids.map_values(|id: u64| PaneId(id)),
    ensures
        r == forall|i: int| 0 <= i < panes.deep_view().len() ==> ids.contains((#[trigger] panes.deep_view()[i]).id),
{
    let mut i: usize = 0;
    while i < panes.len()
        invariant
            i <= panes.len(),
            leaves@ == ids.map_values(|id: u64| PaneId(id)),
            forall|j: int| 0 <= j < i ==> ids.contains((#[trigger] panes.deep_view()[j]).id),
        decreases panes.len() - i,
    {
        let mut k: usize = 0;
        let mut found = false;
        while k < leaves.len() && !found
            invariant
                k <= leaves.len(),
                i < panes.len(),
                leaves@ == ids.map_values(|id: u64| PaneId(id)),
                found ==> ids.contains(panes.deep_view()[i as int].id),
                !found ==> forall|j: int| 0 <= j < k ==> ids[j] != panes.deep_view()[i as int].id,
            decreases leaves.len() - k,
        {
            if leaves[k].0 == panes[i].id {
                assert(ids[k as int] == panes.deep_view()[i as int].id);
                found = true;
            }
            k += 1;
        }
        if !found {
            assert(!ids.contains(panes.deep_view()[i as int].id));
            return false;
        }
        i += 1;
    }
    true
}

fn push_saved(tab: &mut Tab, panes: &Vec<SavedPane>)
    ensures
        final(tab)@ == with_saved(old(tab)@, panes.deep_view()),
{
    let ghost all = panes.deep_view();
    let mut i: usize = 0;
    while i < panes.len()
        invariant
            i <= panes.len(),
            all == panes.deep_view(),
            tab@ == with_saved(old(tab)@, all.take(i as int)),
        decreases panes.len() - i,
    {
        let p = &panes[i];
        proof {
            assert(all.take(i + 1).drop_last() =~= all.take(i as int));
            assert(all.take(i + 1).last() == p@);
        }
        tab.push_pane(Pane::new(PaneId(p.id), p.kind.clone(), p.title.as_str()));
        i += 1;
    }
    assert(all.take(all.len() as int) =~= all);
}

fn save_panes(panes: &Vec<Pane>) -> (r: Vec<SavedPane>)
    ensures
        r.deep_view() == saved_panes(panes.deep_view()),
{
    let mut out: Vec<SavedPane> = Vec::new();
    let mut i: usize = 0;
    while i < panes.len()
        invariant
            i <= panes.len(),
            out.deep_view() == saved_panes(panes.deep_view()).take(i as int),
        decreases panes.len() - i,
    {
        let p = &panes[i];
        let ghost before = out.deep_view();
        out.push(SavedPane { id: p.id.0, kind: p.kind.clone(), title: p.title.clone() });
        assert(out.deep_view() =~= before.push(saved_panes(panes.deep_view())[i as int]));
        i += 1;
    }
    assert(saved_panes(panes.deep_view()).take(panes.len() as int) =~= saved_panes(panes.deep_view()));
    out
}

fn capture_tabs(tabs: &Vec<Tab>, tilings: &Table<String, Tiling>, rooms: &mut Table<String, SavedTab>)
    ensures
        final(rooms).deep_view() == captured_rooms_of(tabs.deep_view(), tilings.deep_view(), old(rooms).deep_view()),
{
    let ghost all = tabs.deep_view();
    let mut i: usize = 0;
    while i < tabs.len()
        invariant
            i <= tabs.len(),
            all == tabs.deep_view(),
            rooms.deep_view() == captured_rooms_of(all.take(i as int), tilings.deep_view(), old(rooms).deep_view()),
        decreases tabs.len() - i,
    {
        let tab = &tabs[i];
        proof {
            assert(all.take(i + 1).drop_last() =~= all.take(i as int));
            assert(all.take(i + 1).last() == tab@);
            lemma_deep(tilings@, tab@.room_id);
        }
        if let Some(tiling) = tilings.get(tab.room_id.as_str()) {
            proof {
                lemma_deep(rooms@, tab@.room_id);
            }
            rooms.insert(
                tab.room_id.clone(),
                SavedTab { tiling: tiling.snapshot(), panes: save_panes(&tab.panes) },
            );
        }
        i += 1;
    }
    assert(all.take(all.len() as int) =~= all);
}

// ----------------------------------------------------------------------------- laws

/// What is taken is gone, so a room is restored only once.
pub proof fn law_a_room_is_restored_once(layout: LayoutModel, room_id: Seq<char>)
    ensures
        !(LayoutModel { rooms: layout.rooms.remove(room_id), ..layout }).rooms.contains_key(room_id),
{
}

/// A layout that was just captured can be restored: every room whose panes are those of
/// its tiling comes back with the same panes, in the same order, under the same titles, in
/// the same places of the tree, with the same shares of every split, and with the same
/// focus and zoom.
pub proof fn law_a_captured_tab_comes_back(tab: TabModel, tiling: TilingModel, fresh: TabModel)
    requires
        tiling.ok(),
        tab.panes.len() == tiling.ids.len(),
        forall|i: int| 0 <= i < tab.panes.len() ==> tiling.ids.contains((#[trigger] tab.panes[i]).id.0),
        forall|i: int, j: int|
            0 <= i < j < tab.panes.len() ==> (#[trigger] tab.panes[i]).id != (#[trigger] tab.panes[j]).id,
        fresh.panes.len() == 0,
    ensures
        restorable(saved_tab(tab, tiling)),
        saved_tab(tab, tiling).tiling.restored().ids == tiling.ids,
        saved_tab(tab, tiling).tiling.restored().paths == tiling.paths,
        saved_tab(tab, tiling).tiling.restored().axes == tiling.axes,
        saved_tab(tab, tiling).tiling.restored().shares == tiling.shares,
        saved_tab(tab, tiling).tiling.restored().focus == tiling.focus,
        tiling.zoomed is Some && tiling.ids.contains((tiling.zoomed->0).0)
            ==> saved_tab(tab, tiling).tiling.restored().zoomed == tiling.zoomed,
        restored_tab(fresh, saved_tab(tab, tiling)).panes.len() == tab.panes.len(),
        forall|i: int|
            0 <= i < tab.panes.len() ==> {
                let p = #[trigger] restored_tab(fresh, saved_tab(tab, tiling)).panes[i];
                p.id == tab.panes[i].id && p.kind == tab.panes[i].kind && p.title == tab.panes[i].title
            },
{
    let saved = saved_tab(tab, tiling);
    assert forall|i: int| 0 <= i < saved.panes.len() implies saved.tiling.ids.contains(
        (#[trigger] saved.panes[i]).id,
    ) by {
        assert(tiling.ids.contains(tab.panes[i].id.0));
    }
    assert forall|i: int, j: int| 0 <= i < j < saved.panes.len() implies (#[trigger] saved.panes[i]).id != (
    #[trigger] saved.panes[j]).id by {
        assert(tab.panes[i].id != tab.panes[j].id);
    }
    lemma_with_saved(fresh, saved.panes);
}

pub proof fn lemma_with_saved(tab: TabModel, panes: Seq<SavedPaneModel>)
    ensures
        with_saved(tab, panes).panes == tab.panes + panes.map_values(|p: SavedPaneModel| restored_pane(p)),
    decreases panes.len(),
{
    let all = panes.map_values(|p: SavedPaneModel| restored_pane(p));
    if panes.len() > 0 {
        lemma_with_saved(tab, panes.drop_last());
        assert(with_saved(tab, panes).panes =~= tab.panes + all);
    } else {
        assert(tab.panes + all =~= tab.panes);
    }
}

/// What is restored has a pane for every leaf of its tree, so that none is drawn empty for
/// ever.
pub proof fn law_every_leaf_has_a_pane(saved: SavedTabModel, id: u64)
    requires
        restorable(saved),
        saved.tiling.ids.contains(id),
    ensures
        exists|i: int| 0 <= i < saved.panes.len() && (#[trigger] saved.panes[i]).id == id,
{
    let ids = Seq::new(saved.panes.len(), |i: int| saved.panes[i].id);
    assert(ids.no_duplicates());
    assert forall|x: u64| ids.to_set().contains(x) implies saved.tiling.ids.to_set().contains(x) by {
        let i = ids.index_of(x);
        assert(saved.panes[i].id == x);
    }
    ids.unique_seq_to_set();
    saved.tiling.ids.unique_seq_to_set();
    vstd::set_lib::lemma_subset_equality(ids.to_set(), saved.tiling.ids.to_set());
    assert(ids.to_set().contains(id));
    let i = ids.index_of(id);
    assert(saved.panes[i].id == id);
}

/// What is captured of a room is its tab and its tiling as they stood, if it has one tab.
pub proof fn law_a_room_is_captured_as_it_stood(
    items: Seq<WorkspaceModel>,
    tilings: Map<Seq<char>, TilingModel>,
    w: int,
    t: int,
)
    requires
        0 <= w < items.len(),
        0 <= t < items[w].tabs.len(),
        tilings.contains_key(items[w].tabs[t].room_id),
        forall|v: int, u: int|
            0 <= v < items.len() && 0 <= u < items[v].tabs.len() && (#[trigger] items[v].tabs[u]).room_id
                == items[w].tabs[t].room_id ==> v == w && u == t,
    ensures
        captured_rooms(items, tilings).contains_key(items[w].tabs[t].room_id),
        captured_rooms(items, tilings)[items[w].tabs[t].room_id] == saved_tab(
            items[w].tabs[t],
            tilings[items[w].tabs[t].room_id],
        ),
    decreases items.len(),
{
    let room = items[w].tabs[t].room_id;
    let rest = items.drop_last();
    let n = items.len() - 1;
    let tabs = items.last().tabs;
    if w < n {
        assert(rest[w].tabs[t].room_id == room);
        assert forall|v: int, u: int|
            0 <= v < rest.len() && 0 <= u < rest[v].tabs.len() && (#[trigger] rest[v].tabs[u]).room_id
                == room implies v == w && u == t by {
            assert(items[v].tabs[u].room_id == room);
        }
        law_a_room_is_captured_as_it_stood(rest, tilings, w, t);
        assert forall|u: int| 0 <= u < tabs.len() implies (#[trigger] tabs[u]).room_id != room by {
            if tabs[u].room_id == room {
                assert(items[n].tabs[u].room_id == room);
            }
        }
        lemma_other_tabs_keep(tabs, tilings, captured_rooms(rest, tilings), room);
    } else {
        assert forall|u: int| 0 <= u < tabs.len() && u != t implies (#[trigger] tabs[u]).room_id != room by {
            if tabs[u].room_id == room {
                assert(items[n].tabs[u].room_id == room);
            }
        }
        lemma_own_tab_counts(tabs, tilings, captured_rooms(rest, tilings), t);
    }
}

proof fn lemma_other_tabs_keep(
    tabs: Seq<TabModel>,
    tilings: Map<Seq<char>, TilingModel>,
    saved: Map<Seq<char>, SavedTabModel>,
    room: Seq<char>,
)
    requires
        saved.contains_key(room),
        forall|u: int| 0 <= u < tabs.len() ==> (#[trigger] tabs[u]).room_id != room,
    ensures
        captured_rooms_of(tabs, tilings, saved).contains_key(room),
        captured_rooms_of(tabs, tilings, saved)[room] == saved[room],
    decreases tabs.len(),
{
    if tabs.len() > 0 {
        let rest = tabs.drop_last();
        assert(tabs[tabs.len() - 1].room_id != room);
        assert forall|u: int| 0 <= u < rest.len() implies (#[trigger] rest[u]).room_id != room by {
            assert(rest[u] == tabs[u]);
        }
        lemma_other_tabs_keep(rest, tilings, saved, room);
    }
}

proof fn lemma_own_tab_counts(
    tabs: Seq<TabModel>,
    tilings: Map<Seq<char>, TilingModel>,
    saved: Map<Seq<char>, SavedTabModel>,
    t: int,
)
    requires
        0 <= t < tabs.len(),
        tilings.contains_key(tabs[t].room_id),
        forall|u: int| 0 <= u < tabs.len() && u != t ==> (#[trigger] tabs[u]).room_id != tabs[t].room_id,
    ensures
        captured_rooms_of(tabs, tilings, saved).contains_key(tabs[t].room_id),
        captured_rooms_of(tabs, tilings, saved)[tabs[t].room_id] == saved_tab(tabs[t], tilings[tabs[t].room_id]),
    decreases tabs.len(),
{
    let rest = tabs.drop_last();
    if t < rest.len() {
        assert(tabs[tabs.len() - 1].room_id != tabs[t].room_id);
        assert forall|u: int| 0 <= u < rest.len() && u != t implies (#[trigger] rest[u]).room_id != rest[t].room_id by {
            assert(rest[u] == tabs[u]);
        }
        lemma_own_tab_counts(rest, tilings, saved, t);
    }
}

/// A captured layout holds a room's arrangement exactly if the room has a tab and a
/// tiling.
pub proof fn law_captured_rooms_are_tiled(items: Seq<WorkspaceModel>, tilings: Map<Seq<char>, TilingModel>, room: Seq<char>)
    ensures
        captured_rooms(items, tilings).contains_key(room) <==> tilings.contains_key(room) && exists|w: int, t: int|
            0 <= w < items.len() && 0 <= t < items[w].tabs.len() && (#[trigger] items[w].tabs[t]).room_id == room,
    decreases items.len(),
{
    if items.len() > 0 {
        let rest = items.drop_last();
        law_captured_rooms_are_tiled(rest, tilings, room);
        lemma_captured_rooms_of(items.last().tabs, tilings, captured_rooms(rest, tilings), room);
        let n = items.len() - 1;
        if tilings.contains_key(room) {
            if exists|t: int| 0 <= t < items.last().tabs.len() && (#[trigger] items.last().tabs[t]).room_id == room {
                let t = choose|t: int|
                    0 <= t < items.last().tabs.len() && (#[trigger] items.last().tabs[t]).room_id == room;
                assert(items[n].tabs[t].room_id == room);
            }
            if exists|w: int, t: int|
                0 <= w < rest.len() && 0 <= t < rest[w].tabs.len() && (#[trigger] rest[w].tabs[t]).room_id == room {
                let (w, t) = choose|w: int, t: int|
                    0 <= w < rest.len() && 0 <= t < rest[w].tabs.len() && (#[trigger] rest[w].tabs[t]).room_id == room;
                assert(items[w].tabs[t].room_id == room);
            }
            if exists|w: int, t: int|
                0 <= w < items.len() && 0 <= t < items[w].tabs.len() && (#[trigger] items[w].tabs[t]).room_id == room {
                let (w, t) = choose|w: int, t: int|
                    0 <= w < items.len() && 0 <= t < items[w].tabs.len() && (#[trigger] items[w].tabs[t]).room_id == room;
                if w < n {
                    assert(rest[w].tabs[t].room_id == room);
                } else {
                    assert(items.last().tabs[t].room_id == room);
                }
            }
        }
    }
}

proof fn lemma_captured_rooms_of(
    tabs: Seq<TabModel>,
    tilings: Map<Seq<char>, TilingModel>,
    saved: Map<Seq<char>, SavedTabModel>,
    room: Seq<char>,
)
    ensures
        captured_rooms_of(tabs, tilings, saved).contains_key(room) <==> saved.contains_key(room) || (
        tilings.contains_key(room) && exists|t: int| 0 <= t < tabs.len() && (#[trigger] tabs[t]).room_id == room),
    decreases tabs.len(),
{
    if tabs.len() > 0 {
        let rest = tabs.drop_last();
        lemma_captured_rooms_of(rest, tilings, saved, room);
        assert(tabs[tabs.len() - 1] == tabs.last());
        if exists|t: int| 0 <= t < rest.len() && (#[trigger] rest[t]).room_id == room {
            let t = choose|t: int| 0 <= t < rest.len() && (#[trigger] rest[t]).room_id == room;
            assert(tabs[t].room_id == room);
        }
        if exists|t: int| 0 <= t < tabs.len() && (#[trigger] tabs[t]).room_id == room {
            let t = choose|t: int| 0 <= t < tabs.len() && (#[trigger] tabs[t]).room_id == room;
            if t < rest.len() {
                assert(rest[t].room_id == room);
            }
        }
    }
}

} // verus!
