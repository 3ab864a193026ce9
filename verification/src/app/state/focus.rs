//! Where the user is looking: panes, tabs and workspaces, and what is streamed for them.

use vstd::prelude::*;

use crate::agent::store::{AgentState, SessionModel};
use crate::app::state::badges::lemma_refreshing_keeps_the_focus;
use crate::app::state::{lemma_with_tab_wf, App, AppModel, Reshare, ReshareModel};
use crate::layout::model::{
    following, law_bar_focus_stays_in_range, law_tab_focus_stays_in_range, law_workspace_focus_stays_in_range,
    preceding, with_id, Pane, PaneId, PaneKind, PaneKindModel, PaneModel, TabModel, WorkspaceModel, WorkspacesModel,
};
use crate::layout::tiling::{Dir, TilingModel};
use crate::matrix::model as matrix;
use crate::matrix::model::{Command, CommandModel, ViewModel};
use crate::seqs::{first_where, lemma_first, lemma_first_where, lemma_no_first};

use crate::text::{headline, title_of};

verus! {

/// The view that a pane shows.
pub open spec fn pane_view(pane: PaneModel) -> ViewModel {
    ViewModel { room_id: pane.kind.room_id(), thread_root: pane.kind.thread_root() }
}

/// The test for a pane that shows a room's main timeline.
pub open spec fn on_room() -> spec_fn(PaneModel) -> bool {
    |p: PaneModel| p.kind.thread_root() is None
}

/// The thread pane that was opened last.
pub open spec fn newest_thread(panes: Seq<PaneModel>) -> Option<PaneId>
    decreases panes.len(),
{
    if panes.len() == 0 {
        None
    } else if panes.last().kind.thread_root() is Some {
        Some(panes.last().id)
    } else {
        newest_thread(panes.drop_last())
    }
}

/// The pane showing the room's main timeline, where it is still open.
pub open spec fn room_pane(panes: Seq<PaneModel>) -> Option<PaneId> {
    match first_where(panes, on_room()) {
        Some(i) => Some(panes[i].id),
        None => None,
    }
}

/// What a new thread splits off, and in which direction. The first thread stands beside
/// the room's transcript; later ones stack under the newest thread, because splitting the
/// room pane again would squeeze the transcript towards nothing.
pub open spec fn thread_anchor(panes: Seq<PaneModel>) -> (Option<PaneId>, Dir) {
    match newest_thread(panes) {
        Some(id) => (Some(id), Dir::Down),
        None => (room_pane(panes), Dir::Right),
    }
}

/// A pane as it is made.
pub open spec fn new_pane(id: PaneId, kind: PaneKindModel, title: Seq<char>) -> PaneModel {
    PaneModel { id, kind, title, state: AgentState::Idle, degraded: false, gaps: false }
}

impl AppModel {
    /// The arrangement changed and should be saved.
    pub open spec fn touch_layout(self) -> AppModel {
        AppModel { layout_dirty: true, ..self }
    }

    // --------------------------------------------------------------- moving the focus

    /// A view streamed, unless it is already: opened, and its first page asked for.
    pub open spec fn open_view(self, view: ViewModel) -> AppModel {
        if self.timelines.contains_key(view) {
            self
        } else {
            let opened = self.queue(CommandModel::OpenView(view));
            AppModel { paginating: opened.paginating.insert(view), ..opened }.queue(
                CommandModel::Paginate { view, count: 0 },
            )
        }
    }

    /// These views streamed.
    pub open spec fn open_views(self, views: Seq<ViewModel>) -> AppModel
        decreases views.len(),
    {
        if views.len() == 0 {
            self
        } else {
            self.open_views(views.drop_last()).open_view(views.last())
        }
    }

    /// Who is in the focused room asked for, once.
    pub open spec fn ask_for_members(self) -> AppModel {
        match self.focused_room() {
            Some(room_id) => if self.members_asked.contains(room_id) {
                self
            } else {
                AppModel { members_asked: self.members_asked.insert(room_id), ..self }.queue(
                    CommandModel::ListMembers { room_id },
                )
            },
            None => self,
        }
    }

    /// Every view on show streamed, and the room's members asked for.
    pub open spec fn open_focused_view(self) -> AppModel {
        let views = match self.focused_tab() {
            Some(tab) => tab.panes.map_values(|p: PaneModel| pane_view(p)),
            None => Seq::empty(),
        };
        self.open_views(views).ask_for_members()
    }

    /// A session looked at.
    pub open spec fn session_seen(self, root: Seq<char>) -> AppModel {
        if self.agents.contains_key(root) {
            AppModel {
                agents: self.agents.insert(root, SessionModel { seen: true, ..self.agents[root] }),
                ..self
            }
        } else {
            self
        }
    }

    /// The focused pane looked at: a read receipt, and `Done` becomes `Idle`.
    pub open spec fn mark_focused_seen(self) -> AppModel {
        match self.focused_view() {
            Some(view) => {
                let read = if self.timelines.contains_key(view) {
                    self.queue(CommandModel::MarkRead { view })
                } else {
                    self
                };
                match view.thread_root {
                    Some(root) => read.session_seen(root).refresh_pane_states(),
                    None => read,
                }
            },
            None => self,
        }
    }

    /// The user moved the focus: the typing that belongs to the room being left ends, the
    /// mention picker closes, and a saved focus is no longer restored.
    #[verifier::opaque]
    pub open spec fn focus_moved(self) -> AppModel {
        AppModel {
            mentions: None,
            needs_redraw: true,
            restoring_focus: false,
            layout_dirty: true,
            ..self.stop_typing()
        }.mark_focused_seen().open_focused_view()
    }

    /// The focus on a pane, in the tiling and in the tab.
    pub open spec fn focus_both(self, id: PaneId) -> AppModel {
        let tiled = match self.focused_tiling() {
            Some(t) => self.with_tiling(t.focus(id)),
            None => self,
        };
        match tiled.focused_tab() {
            Some(tab) => tiled.with_tab(tab.focus(id)),
            None => tiled,
        }
    }

    /// The focus on a pane by its tiling id.
    pub open spec fn focus_pane_id(self, id: PaneId) -> AppModel {
        self.focus_both(id).focus_moved()
    }

    /// The focus moved to the pane that lies in a direction.
    pub open spec fn focus_pane(self, dir: Dir) -> AppModel {
        match self.focused_tiling() {
            Some(t) => match t.neighbour(dir) {
                Some(id) => {
                    let tiled = self.with_tiling(TilingModel { focus: id.0, ..t });
                    tiled.with_tab(tiled.focused_tab()->0.focus(id)).focus_moved()
                },
                None => self,
            },
            None => self,
        }
    }

    /// The client with another workspace in place of the one in focus.
    pub open spec fn with_workspace(self, w: WorkspaceModel) -> AppModel {
        AppModel {
            workspaces: WorkspacesModel {
                items: self.workspaces.items.update(self.workspaces.focused as int, w),
                ..self.workspaces
            },
            ..self
        }
    }

    /// The focus on the next tab, round to the first.
    pub open spec fn next_tab(self) -> AppModel {
        match self.workspaces.focused() {
            Some(w) => self.with_workspace(
                WorkspaceModel { focused: following(w.focused, w.tabs.len()), ..w },
            ).focus_moved(),
            None => self.focus_moved(),
        }
    }

    /// The focus on the previous tab, round to the last.
    pub open spec fn prev_tab(self) -> AppModel {
        match self.workspaces.focused() {
            Some(w) => self.with_workspace(
                WorkspaceModel { focused: preceding(w.focused, w.tabs.len()), ..w },
            ).focus_moved(),
            None => self.focus_moved(),
        }
    }

    /// The client with the bar's focus elsewhere.
    pub open spec fn at_workspace(self, index: usize) -> AppModel {
        AppModel { workspaces: WorkspacesModel { focused: index, ..self.workspaces }, ..self }
    }

    /// The focus on the workspace at a place, where there is one.
    pub open spec fn show_workspace(self, index: usize) -> AppModel {
        if index < self.workspaces.items.len() {
            self.at_workspace(index).focus_moved()
        } else {
            self
        }
    }

    /// The focus on the tab at a place, where there is one.
    pub open spec fn show_tab(self, index: usize) -> AppModel {
        match self.workspaces.focused() {
            Some(w) => if index < w.tabs.len() {
                self.with_workspace(w.focus_tab(index)).focus_moved()
            } else {
                self
            },
            None => self,
        }
    }

    /// The focus on the next workspace, round to the first.
    pub open spec fn next_workspace(self) -> AppModel {
        self.at_workspace(following(self.workspaces.focused, self.workspaces.items.len())).focus_moved()
    }

    /// The focus on the previous workspace, round to the last.
    pub open spec fn prev_workspace(self) -> AppModel {
        self.at_workspace(preceding(self.workspaces.focused, self.workspaces.items.len())).focus_moved()
    }

    // ------------------------------------------------------------------------- panes

    /// The pane in focus split. The new pane starts on the same view.
    pub open spec fn split(self, dir: Dir) -> AppModel {
        match (self.focused_view(), self.focused_tiling()) {
            (Some(view), Some(t)) => {
                let tiled = self.with_tiling(t.split(dir));
                match t.split_id() {
                    Some(id) => {
                        let pane = match view.thread_root {
                            Some(root) => new_pane(id, PaneKindModel::Thread { room_id: view.room_id, root }, root),
                            None => new_pane(id, PaneKindModel::Room { room_id: view.room_id }, "room"@),
                        };
                        tiled.with_tab(tiled.focused_tab()->0.push_pane(pane)).touch_layout()
                    },
                    None => tiled,
                }
            },
            _ => self,
        }
    }

    /// The pane in focus closed. The last one stays: a tab with no panes shows nothing and
    /// offers no way back.
    pub open spec fn close_pane(self) -> AppModel {
        if self.focused_tab() is None || self.focused_tab()->0.panes.len() <= 1 {
            self.says("the last pane stays open"@)
        } else {
            match self.focused_tiling() {
                Some(t) => {
                    let tiled = self.with_tiling(t.close());
                    match t.close_id() {
                        Some(id) => tiled.with_tab(
                            tiled.focused_tab()->0.remove_pane(id).focus(PaneId(t.close().focus)),
                        ).touch_layout().open_focused_view(),
                        None => tiled,
                    }
                },
                None => self,
            }
        }
    }

    /// A change of shares asked for, along a direction from the pane in focus.
    pub open spec fn resize_pane(self, dir: Dir) -> AppModel {
        let asked = match self.focused_tiling() {
            Some(t) => match t.resize(dir) {
                Some((path, grow_first)) => AppModel {
                    reshares: self.reshares.push(
                        ReshareModel { room_id: self.focused_room()->0, path, grow_first },
                    ),
                    ..self
                },
                None => self,
            },
            None => self,
        };
        asked.touch_layout()
    }

    /// The zoom put on the pane in focus, or taken off it.
    pub open spec fn zoom_pane(self) -> AppModel {
        match self.focused_tiling() {
            Some(t) => self.with_tiling(t.toggle_zoom()).touch_layout(),
            None => self.touch_layout(),
        }
    }

    /// A thread opened as a pane, or focused where it is already open.
    #[verifier::opaque]
    pub open spec fn open_thread_pane(self, root: Seq<char>, title: Seq<char>) -> AppModel {
        match self.focused_tab() {
            Some(tab) => match tab.pane_for_thread(root) {
                Some(existing) => self.focus_pane_id(existing.id),
                None => {
                    let (anchor, dir) = thread_anchor(tab.panes);
                    let anchored = match anchor {
                        Some(id) => self.focus_both(id),
                        None => self,
                    };
                    match anchored.focused_tiling() {
                        Some(t) => {
                            let tiled = anchored.with_tiling(t.split(dir));
                            match t.split_id() {
                                Some(id) => tiled.with_tab(
                                    tiled.focused_tab()->0.push_pane(
                                        new_pane(id, PaneKindModel::Thread { room_id: tab.room_id, root }, title),
                                    ),
                                ).focus_moved(),
                                None => tiled,
                            }
                        },
                        None => anchored,
                    }
                },
            },
            None => self,
        }
    }

    /// A thread started on the selected message: a pane rooted at it. Nothing is sent.
    pub open spec fn start_thread(self) -> AppModel {
        match self.focused_view() {
            Some(view) => if view.thread_root is Some {
                self.says("this pane is already a thread"@)
            } else {
                match self.selected_event() {
                    Some(root) => self.open_thread_pane(
                        root,
                        match self.selected_message() {
                            Some(message) => headline(message.body),
                            None => Seq::empty(),
                        },
                    ),
                    None => self.says("select a message to start a thread on"@),
                }
            },
            None => self,
        }
    }

    /// The thread on the selected message opened.
    pub open spec fn accept_selection(self) -> AppModel {
        match self.selected_thread() {
            Some((root, title)) => self.open_thread_pane(root, title),
            None => self.says("that message has no thread"@),
        }
    }
}

// --------------------------------------------------------------------- what is left alone

/// Streaming views asks the worker for things and changes nothing that is on show.
pub proof fn lemma_open_views_keeps(app: AppModel, views: Seq<ViewModel>)
    ensures
        app.open_views(views) == (AppModel {
            pending: app.open_views(views).pending,
            paginating: app.open_views(views).paginating,
            ..app
        }),
    decreases views.len(),
{
    if views.len() > 0 {
        lemma_open_views_keeps(app, views.drop_last());
    }
}

/// Streaming what is on show changes nothing that is on show.
pub proof fn lemma_open_focused_keeps(app: AppModel)
    ensures
        app.open_focused_view().workspaces == app.workspaces,
        app.open_focused_view().tilings == app.tilings,
        app.open_focused_view().modal == app.modal,
        app.open_focused_view().mode == app.mode,
        app.open_focused_view().composers == app.composers,
        app.open_focused_view().timelines == app.timelines,
        app.open_focused_view().unverified_rooms == app.unverified_rooms,
{
    let views = match app.focused_tab() {
        Some(tab) => tab.panes.map_values(|p: PaneModel| pane_view(p)),
        None => Seq::empty(),
    };
    lemma_open_views_keeps(app, views);
}

/// Telling the room that the user stopped changes nothing that is on show.
pub proof fn lemma_stop_typing_keeps(app: AppModel)
    ensures
        app.stop_typing().workspaces == app.workspaces,
        app.stop_typing().tilings == app.tilings,
        app.stop_typing().timelines == app.timelines,
        app.stop_typing().agents == app.agents,
        app.stop_typing().modal == app.modal,
        app.stop_typing().mode == app.mode,
        app.stop_typing().composers == app.composers,
{
}

/// Looking at a pane keeps every focus in range, and where it was.
pub proof fn lemma_seen_keeps(app: AppModel)
    ensures
        app.wf() ==> app.mark_focused_seen().wf(),
        app.mark_focused_seen().focused_view() == app.focused_view(),
        app.mark_focused_seen().tilings == app.tilings,
        app.mark_focused_seen().modal == app.modal,
        app.mark_focused_seen().mode == app.mode,
        app.mark_focused_seen().composers == app.composers,
{
    if let Some(view) = app.focused_view() {
        if let Some(root) = view.thread_root {
            let read = if app.timelines.contains_key(view) {
                app.queue(CommandModel::MarkRead { view })
            } else {
                app
            };
            lemma_refreshing_keeps_the_focus(read.session_seen(root));
        }
    }
}

/// Moving the focus keeps every focus in range, and where it was put.
pub proof fn lemma_focus_moved_keeps(app: AppModel)
    ensures
        app.wf() ==> app.focus_moved().wf(),
        app.focus_moved().focused_view() == app.focused_view(),
        app.focus_moved().tilings == app.tilings,
        app.focus_moved().modal == app.modal,
        app.focus_moved().mode == app.mode,
        app.focus_moved().composers == app.composers,
{
    reveal(AppModel::focus_moved);
    let moved = AppModel {
        mentions: None,
        needs_redraw: true,
        restoring_focus: false,
        layout_dirty: true,
        ..app.stop_typing()
    };
    lemma_stop_typing_keeps(app);
    lemma_seen_keeps(moved);
    lemma_open_focused_keeps(moved.mark_focused_seen());
}

proof fn lemma_same_tiling(app: AppModel)
    requires
        app.focused_tiling() is Some,
    ensures
        app.with_tiling(app.focused_tiling()->0) == app,
{
    assert(app.tilings.insert(app.focused_room()->0, app.focused_tiling()->0) =~= app.tilings);
}

/// The tab in focus is as sound as the rest.
pub proof fn lemma_focused_tab_wf(app: AppModel)
    requires
        app.wf(),
        app.focused_tab() is Some,
    ensures
        app.focused_tab()->0.wf(),
{
    let w = app.workspaces.focused()->0;
    assert(app.workspaces.items[app.workspaces.focused as int].wf());
    assert(w.tabs[w.focused as int].wf());
}

proof fn lemma_push_pane_wf(app: AppModel, pane: PaneModel)
    requires
        app.focused_tab() is Some,
        app.focused_tab()->0.panes.len() < usize::MAX,
    ensures
        app.wf() ==> app.with_tab(app.focused_tab()->0.push_pane(pane)).wf(),
{
    if app.wf() {
        let tab = app.focused_tab()->0;
        lemma_focused_tab_wf(app);
        law_tab_focus_stays_in_range(tab, pane.id, pane);
        lemma_with_tab_wf(app, tab.push_pane(pane));
    }
}

proof fn lemma_workspace_wf(app: AppModel, w: WorkspaceModel)
    requires
        w.wf(),
        app.workspaces.focused() is Some,
    ensures
        app.wf() ==> app.with_workspace(w).wf(),
{
    if app.wf() {
        let after = app.with_workspace(w);
        assert forall|i: int| 0 <= i < after.workspaces.items.len() implies (#[trigger] after.workspaces.items[i]).wf() by {
            if i != app.workspaces.focused {
                assert(app.workspaces.items[i].wf());
            }
        }
    }
}

// ---------------------------------------------------------------------- carrying it out

impl App {
    /// Ask the worker to stream every view on show, not just the focused one.
    ///
    /// Unfocused panes render their own transcript, so they need their own timeline. A live
    /// timeline starts with only what sync delivered, so the first page is asked for too.
    pub fn open_focused_view(&mut self)
        ensures
            final(self)@ == old(self)@.open_focused_view(),
    {
        let ghost before = self@;
        let mut views: Vec<matrix::View> = Vec::new();
        let ghost wanted = match before.focused_tab() {
            Some(tab) => tab.panes.map_values(|p: PaneModel| pane_view(p)),
            None => Seq::empty(),
        };
        if let Some(tab) = self.focused_tab() {
            let mut i: usize = 0;
            while i < tab.panes.len()
                invariant
                    i <= tab.panes.len(),
                    wanted == tab@.panes.map_values(|p: PaneModel| pane_view(p)),
                    views.deep_view() == wanted.take(i as int),
                decreases tab.panes.len() - i,
            {
                let ghost so_far = views.deep_view();
                let pane = &tab.panes[i];
                let view = match pane.kind.thread_root() {
                    Some(root) => matrix::View::thread(pane.kind.room_id(), root),
                    None => matrix::View::room(pane.kind.room_id()),
                };
                assert(view@ == wanted[i as int]);
                views.push(view);
                assert(views.deep_view() =~= so_far.push(view@));
                assert(wanted.take(i + 1) =~= so_far.push(view@));
                i += 1;
            }
            assert(wanted.take(wanted.len() as int) =~= wanted);
        }
        assert(views.deep_view() =~= wanted);
        let mut i: usize = 0;
        assert(wanted.take(0) =~= Seq::<ViewModel>::empty());
        while i < views.len()
            invariant
                i <= views.len(),
                wanted == views.deep_view(),
                self@ == before.open_views(wanted.take(i as int)),
            decreases views.len() - i,
        {
            proof {
                assert(wanted.take(i + 1).drop_last() =~= wanted.take(i as int));
                assert(wanted.take(i + 1).last() == views@[i as int]@);
            }
            self.open_view(&views[i]);
            i += 1;
        }
        assert(wanted.take(wanted.len() as int) =~= wanted);
        self.ask_for_members();
    }

    fn open_view(&mut self, view: &matrix::View)
        ensures
            final(self)@ == old(self)@.open_view(view@),
    {
        if self.timelines.contains_key(view) {
            return ;
        }
        self.queue(Command::OpenView(view.clone()));
        self.paginating.insert(view.clone(), ());
        self.queue(Command::Paginate { view: view.clone(), count: 0 });
    }

    /// Ask who is in the focused room, once.
    ///
    /// Asked on focus rather than when `@` is typed, so the picker has a list to show the
    /// moment it opens. A room can legitimately answer with nobody, and an empty answer must
    /// not look like an unasked question.
    pub fn ask_for_members(&mut self)
        ensures
            final(self)@ == old(self)@.ask_for_members(),
    {
        if let Some(room_id) = self.focused_room() {
            if !self.members_asked.contains_key(room_id.as_str()) {
                self.members_asked.insert(room_id.clone(), ());
                self.queue(Command::ListMembers { room_id });
            }
        }
    }

    fn session_seen(&mut self, root: &str)
        ensures
            final(self)@ == old(self)@.session_seen(root@),
    {
        if let Some(session) = self.agents.get_mut(root) {
            session.mark_seen();
        }
    }

    /// Looking at a pane collapses its `Done` badge to `Idle` and sends a read receipt.
    ///
    /// Only for views that are streamed: the worker needs an open timeline to place the
    /// receipt against.
    pub fn mark_focused_seen(&mut self)
        ensures
            final(self)@ == old(self)@.mark_focused_seen(),
    {
        let view = match self.focused_view() {
            Some(view) => view,
            None => {
                return ;
            },
        };
        if self.timelines.contains_key(&view) {
            self.queue(Command::MarkRead { view: view.clone() });
        }
        if let Some(root) = &view.thread_root {
            self.session_seen(root.as_str());
            self.refresh_pane_states();
        }
    }

    /// The user moved focus: repaint, mark the new view seen, and stream it.
    pub fn focus_moved(&mut self)
        ensures
            final(self)@ == old(self)@.focus_moved(),
            old(self)@.wf() ==> final(self)@.wf(),
    {
        proof {
            reveal(AppModel::focus_moved);
            lemma_focus_moved_keeps(self@);
        }
        // The notice belongs to the room being left.
        self.stop_typing();
        self.mentions = None;
        self.needs_redraw = true;
        self.restoring_focus = false;
        self.layout_dirty = true;
        self.mark_focused_seen();
        self.open_focused_view();
    }

    fn focus_both(&mut self, id: PaneId)
        ensures
            final(self)@ == old(self)@.focus_both(id),
            old(self)@.wf() ==> final(self)@.wf(),
    {
        if let Some(tiling) = self.focused_tiling_mut() {
            tiling.focus(id);
        }
        let ghost tiled = self@;
        if let Some(tab) = self.focused_tab_mut() {
            proof {
                if tiled.wf() {
                    lemma_focused_tab_wf(tiled);
                }
            }
            let n = tab.panes.len();
            tab.focus(id);
            proof {
                if tiled.wf() {
                    lemma_focus_wf(tiled.focused_tab()->0, id);
                    lemma_with_tab_wf(tiled, tiled.focused_tab()->0.focus(id));
                }
            }
        }
    }

    /// Focus a pane by its tiling id, for click-to-focus.
    pub fn focus_pane_id(&mut self, id: PaneId)
        ensures
            final(self)@ == old(self)@.focus_pane_id(id),
            old(self)@.wf() ==> final(self)@.wf(),
    {
        self.focus_both(id);
        self.focus_moved();
    }

    /// Move the focus to the pane that lies in a direction.
    pub fn focus_pane(&mut self, dir: Dir)
        ensures
            final(self)@ == old(self)@.focus_pane(dir),
            old(self)@.wf() ==> final(self)@.wf(),
    {
        let ghost before = self@;
        let id = match self.focused_tiling_mut() {
            Some(tiling) => tiling.focus_dir(dir),
            None => {
                return ;
            },
        };
        match id {
            Some(id) => {
                let ghost tiled = self@;
                if let Some(tab) = self.focused_tab_mut() {
                    tab.focus(id);
                }
                proof {
                    if tiled.wf() {
                        lemma_focused_tab_wf(tiled);
                        lemma_focus_wf(tiled.focused_tab()->0, id);
                        lemma_with_tab_wf(tiled, tiled.focused_tab()->0.focus(id));
                    }
                }
                self.focus_moved();
            },
            None => {
                proof {
                    lemma_same_tiling(before);
                }
            },
        }
    }

    /// Show the next room.
    pub fn next_tab(&mut self)
        ensures
            final(self)@ == old(self)@.next_tab(),
            old(self)@.wf() ==> final(self)@.wf(),
    {
        let ghost before = self@;
        if let Some(w) = self.workspaces.focused_mut() {
            let n = w.tabs.len();
            proof {
                if before.wf() {
                    assert(before.workspaces.items[before.workspaces.focused as int].wf());
                    law_workspace_focus_stays_in_range(w@, 0);
                    lemma_workspace_wf(before, WorkspaceModel { focused: following(w@.focused, w@.tabs.len()), ..w@ });
                }
            }
            w.next_tab();
        }
        self.focus_moved();
    }

    /// Show the previous room.
    pub fn prev_tab(&mut self)
        ensures
            final(self)@ == old(self)@.prev_tab(),
            old(self)@.wf() ==> final(self)@.wf(),
    {
        let ghost before = self@;
        if let Some(w) = self.workspaces.focused_mut() {
            let n = w.tabs.len();
            proof {
                if before.wf() {
                    assert(before.workspaces.items[before.workspaces.focused as int].wf());
                    law_workspace_focus_stays_in_range(w@, 0);
                    lemma_workspace_wf(before, WorkspaceModel { focused: preceding(w@.focused, w@.tabs.len()), ..w@ });
                }
            }
            w.prev_tab();
        }
        self.focus_moved();
    }

    /// Show the next workspace.
    pub fn next_workspace(&mut self)
        ensures
            final(self)@ == old(self)@.next_workspace(),
            old(self)@.wf() ==> final(self)@.wf(),
    {
        let n = self.workspaces.items.len();
        proof {
            if self@.wf() {
                law_bar_focus_stays_in_range(self@.workspaces, 0, Seq::empty(), Seq::empty());
            }
        }
        self.workspaces.next();
        self.focus_moved();
    }

    /// Show the previous workspace.
    pub fn prev_workspace(&mut self)
        ensures
            final(self)@ == old(self)@.prev_workspace(),
            old(self)@.wf() ==> final(self)@.wf(),
    {
        let n = self.workspaces.items.len();
        proof {
            if self@.wf() {
                law_bar_focus_stays_in_range(self@.workspaces, 0, Seq::empty(), Seq::empty());
            }
        }
        self.workspaces.prev();
        self.focus_moved();
    }

    /// Show the workspace at a place, where there is one.
    pub fn show_workspace(&mut self, index: usize)
        ensures
            final(self)@ == old(self)@.show_workspace(index),
            old(self)@.wf() ==> final(self)@.wf(),
    {
        let n = self.workspaces.items.len();
        proof {
            if self@.wf() {
                law_bar_focus_stays_in_range(self@.workspaces, index, Seq::empty(), Seq::empty());
            }
        }
        if self.workspaces.focus(index) {
            self.focus_moved();
        }
    }

    /// Show the tab at a place, where there is one.
    pub fn show_tab(&mut self, index: usize)
        ensures
            final(self)@ == old(self)@.show_tab(index),
            old(self)@.wf() ==> final(self)@.wf(),
    {
        let ghost before = self@;
        let mut moved = false;
        if let Some(w) = self.workspaces.focused_mut() {
            let n = w.tabs.len();
            proof {
                if before.wf() {
                    assert(before.workspaces.items[before.workspaces.focused as int].wf());
                    law_workspace_focus_stays_in_range(w@, index);
                    lemma_workspace_wf(before, w@.focus_tab(index));
                }
            }
            moved = w.focus_tab(index);
        }
        if moved {
            self.focus_moved();
        } else {
            proof {
                if before.workspaces.focused() is Some {
                    assert(before.workspaces.items.update(
                        before.workspaces.focused as int,
                        before.workspaces.focused()->0,
                    ) =~= before.workspaces.items);
                }
            }
        }
    }

    // ------------------------------------------------------------------------- panes

    /// Split the focused pane. A new pane starts on the same view as the one it was split
    /// from; splitting into an empty pane would be useless.
    pub fn split(&mut self, dir: Dir)
        ensures
            final(self)@ == old(self)@.split(dir),
            old(self)@.wf() ==> final(self)@.wf(),
    {
        let ghost before = self@;
        let view = match self.focused_view() {
            Some(view) => view,
            None => {
                return ;
            },
        };
        let id = match self.focused_tiling_mut() {
            Some(tiling) => match tiling.split(dir) {
                Some(id) => id,
                None => {
                    return ;
                },
            },
            None => {
                return ;
            },
        };
        let matrix::View { room_id, thread_root } = view;
        let pane = match thread_root {
            Some(root) => {
                let title = root.clone();
                Pane::new(id, PaneKind::Thread { room_id, root }, title.as_str())
            },
            None => Pane::new(id, PaneKind::Room { room_id }, "room"),
        };
        let ghost tiled = self@;
        if let Some(tab) = self.focused_tab_mut() {
            tab.push_pane(pane);
        }
        proof {
            lemma_push_pane_wf(tiled, pane@);
        }
        self.layout_dirty = true;
    }

    /// Close the focused pane.
    ///
    /// A tab with no panes shows nothing and offers no way back, so the last one stays.
    pub fn close_pane(&mut self)
        ensures
            final(self)@ == old(self)@.close_pane(),
            old(self)@.wf() ==> final(self)@.wf(),
    {
        let remaining: usize = match self.focused_tab() {
            Some(tab) => tab.panes.len(),
            None => 0,
        };
        if remaining <= 1 {
            self.say("the last pane stays open");
            return ;
        }
        let (closed, focused) = match self.focused_tiling_mut() {
            Some(tiling) => match tiling.close_focused() {
                Some(closed) => (closed, tiling.focused()),
                None => {
                    return ;
                },
            },
            None => {
                return ;
            },
        };
        let ghost tiled = self@;
        if let Some(tab) = self.focused_tab_mut() {
            tab.remove_pane(closed);
            if let Some(id) = focused {
                tab.focus(id);
            }
        }
        proof {
            if tiled.wf() {
                let tab = tiled.focused_tab()->0;
                let id = focused->0;
                lemma_focused_tab_wf(tiled);
                lemma_remove_wf(tab, closed);
                lemma_focus_wf(tab.remove_pane(closed), id);
                lemma_with_tab_wf(tiled, tab.remove_pane(closed).focus(id));
            }
        }
        self.layout_dirty = true;
        proof {
            lemma_open_focused_keeps(self@);
        }
        self.open_focused_view();
    }

    /// Ask for the focused pane to grow or shrink along a direction.
    pub fn resize_pane(&mut self, dir: Dir)
        ensures
            final(self)@ == old(self)@.resize_pane(dir),
    {
        let ghost before = self@;
        if let Some(room_id) = self.focused_room() {
            let change = match self.tilings.get(room_id.as_str()) {
                Some(tiling) => tiling.resize(dir),
                None => None,
            };
            if let Some(change) = change {
                let reshare = Reshare { room_id, path: change.path, grow_first: change.grow_first };
                self.reshares.push(reshare);
                assert(self@.reshares =~= before.reshares.push(reshare@));
            }
        }
        self.layout_dirty = true;
    }

    /// Toggle zoom on the focused pane.
    pub fn zoom_pane(&mut self)
        ensures
            final(self)@ == old(self)@.zoom_pane(),
    {
        if let Some(tiling) = self.focused_tiling_mut() {
            tiling.toggle_zoom();
        }
        self.layout_dirty = true;
    }

    /// Open a thread as a pane, or focus it if it is already open.
    pub fn open_thread_pane(&mut self, root: String, title: String)
        ensures
            final(self)@ == old(self)@.open_thread_pane(root@, title@),
            old(self)@.wf() ==> final(self)@.wf(),
    {
        proof {
            reveal(AppModel::open_thread_pane);
        }
        let ghost before = self@;
        let (room_id, existing, anchor, dir) = match self.focused_tab() {
            Some(tab) => {
                let existing = match tab.pane_for_thread(root.as_str()) {
                    Some(pane) => Some(pane.id),
                    None => None,
                };
                let (anchor, dir) = find_anchor(&tab.panes);
                (tab.room_id.clone(), existing, anchor, dir)
            },
            None => {
                return ;
            },
        };
        // Already open: focus it rather than growing a second pane onto the same thread.
        if let Some(id) = existing {
            self.focus_pane_id(id);
            return ;
        }
        if let Some(id) = anchor {
            self.focus_both(id);
        }
        let id = match self.focused_tiling_mut() {
            Some(tiling) => match tiling.split(dir) {
                Some(id) => id,
                None => {
                    return ;
                },
            },
            None => {
                return ;
            },
        };
        let pane = Pane::new(id, PaneKind::Thread { room_id, root }, title.as_str());
        let ghost tiled = self@;
        if let Some(tab) = self.focused_tab_mut() {
            tab.push_pane(pane);
        }
        proof {
            lemma_push_pane_wf(tiled, pane@);
        }
        self.focus_moved();
    }

    /// Start a thread on the selected message.
    ///
    /// A thread has no existence of its own: it is a root event plus whatever relates to it,
    /// so starting one is opening a pane rooted at a message that has no replies yet.
    /// Nothing is sent here, so an abandoned pane leaves nothing behind.
    pub fn start_thread(&mut self)
        ensures
            final(self)@ == old(self)@.start_thread(),
            old(self)@.wf() ==> final(self)@.wf(),
    {
        let view = match self.focused_view() {
            Some(view) => view,
            None => {
                return ;
            },
        };
        // There is no thread of a thread; a reply inside one stays in the same thread.
        if view.thread_root.is_some() {
            self.say("this pane is already a thread");
            return ;
        }
        let root = match self.selected_id() {
            Some(root) => root,
            None => {
                self.say("select a message to start a thread on");
                return ;
            },
        };
        let title = match self.selected_message() {
            Some(message) => title_of(message.body.as_str()),
            None => String::new(),
        };
        assert(self@.selected_message() is None ==> title@ =~= Seq::<char>::empty());
        self.open_thread_pane(root, title);
    }

    /// Open the thread on the selected message.
    pub fn accept_selection(&mut self)
        ensures
            final(self)@ == old(self)@.accept_selection(),
            old(self)@.wf() ==> final(self)@.wf(),
    {
        match self.selected_thread() {
            Some((root, title)) => self.open_thread_pane(root, title),
            None => self.say("that message has no thread"),
        }
    }
}

proof fn lemma_focus_wf(tab: TabModel, id: PaneId)
    requires
        tab.wf(),
    ensures
        tab.focus(id).wf(),
{
    lemma_first_where(tab.panes, with_id(id));
}

proof fn lemma_remove_wf(tab: TabModel, id: PaneId)
    requires
        tab.wf(),
    ensures
        tab.remove_pane(id).wf(),
{
    lemma_first_where(tab.panes, with_id(id));
}

fn find_anchor(panes: &Vec<Pane>) -> (r: (Option<PaneId>, Dir))
    ensures
        r == thread_anchor(panes.deep_view()),
{
    let ghost all = panes.deep_view();
    let mut n = panes.len();
    assert(all.take(n as int) =~= all);
    while n > 0
        invariant
            n <= panes.len(),
            all == panes.deep_view(),
            newest_thread(all.take(n as int)) == newest_thread(all),
        decreases n,
    {
        proof {
            assert(all.take(n as int).drop_last() =~= all.take(n - 1));
            assert(all.take(n as int).last() == panes@[n - 1]@);
        }
        n -= 1;
        if panes[n].kind.thread_root().is_some() {
            return (Some(panes[n].id), Dir::Down);
        }
    }
    let mut i: usize = 0;
    while i < panes.len()
        invariant
            i <= panes.len(),
            all == panes.deep_view(),
            newest_thread(all) is None,
            forall|j: int| 0 <= j < i ==> !on_room()(#[trigger] all[j]),
        decreases panes.len() - i,
    {
        assert(all[i as int] == panes@[i as int]@);
        if panes[i].kind.thread_root().is_none() {
            proof {
                assert(on_room()(all[i as int]));
                lemma_first(all, on_room(), i as int);
            }
            return (Some(panes[i].id), Dir::Right);
        }
        i += 1;
    }
    proof {
        lemma_no_first(all, on_room());
    }
    (None, Dir::Right)
}

} // verus!
