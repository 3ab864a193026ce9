//! Where the focus goes, and what becomes of tabs and panes.

use vstd::prelude::*;

use crate::app::keymap::Action;
use crate::app::state::AppModel;
use crate::app::state::actions::touching;
use crate::app::state::badges::refreshed_bar;
use crate::app::state::focus::{lemma_open_views_keeps, new_pane, newest_thread, pane_view, thread_anchor};
use crate::app::state::outcomes::at_large;
use crate::layout::laws::law_cycling_goes_one_on;
use crate::layout::model::{
    following, preceding, PaneId, PaneKindModel, PaneModel, TabModel, WorkspaceModel, WorkspacesModel,
};
use crate::layout::tiling::{Dir, TilingModel};
use crate::matrix::model::{CommandModel, ViewModel};
use crate::seqs::{first_where, lemma_first_where};
use crate::text::headline;

verus! {

// -------------------------------------------------------------------------- what stays

/// Whether a tab is as it was but for the signs on its panes.
pub open spec fn same_tab(a: TabModel, b: TabModel) -> bool {
    &&& a == (TabModel { panes: a.panes, ..b })
    &&& a.panes.len() == b.panes.len()
    &&& forall|i: int| #![trigger a.panes[i]] #![trigger b.panes[i]]
        0 <= i < a.panes.len() ==> a.panes[i].id == b.panes[i].id && a.panes[i].kind == b.panes[i].kind
            && a.panes[i].title == b.panes[i].title
}

/// Whether the bar is as it was but for the signs on the panes.
pub open spec fn same_bar(a: WorkspacesModel, b: WorkspacesModel) -> bool {
    &&& a.focused == b.focused
    &&& a.items.len() == b.items.len()
    &&& forall|w: int| #![trigger a.items[w]] #![trigger b.items[w]]
        0 <= w < a.items.len() ==> {
            &&& a.items[w] == (WorkspaceModel { tabs: a.items[w].tabs, ..b.items[w] })
            &&& a.items[w].tabs.len() == b.items[w].tabs.len()
            &&& forall|t: int| #![trigger a.items[w].tabs[t]] #![trigger b.items[w].tabs[t]]
                0 <= t < a.items[w].tabs.len() ==> same_tab(a.items[w].tabs[t], b.items[w].tabs[t])
        }
}

/// Refreshing the signs changes nothing else.
pub proof fn law_refreshing_changes_only_the_signs(app: AppModel)
    ensures
        same_bar(app.refresh_pane_states().workspaces, app.workspaces),
        app.refresh_pane_states() == (AppModel { workspaces: app.refresh_pane_states().workspaces, ..app }),
{
    reveal(refreshed_bar);
}

/// A pane of a thread shows the state of its session, and its warnings; any other pane keeps its
/// own.
pub proof fn law_a_pane_shows_its_session(app: AppModel, w: int, t: int, p: int)
    requires
        0 <= w < app.workspaces.items.len(),
        0 <= t < app.workspaces.items[w].tabs.len(),
        0 <= p < app.workspaces.items[w].tabs[t].panes.len(),
    ensures
        ({
            let before = app.workspaces.items[w].tabs[t].panes[p];
            let pane = app.refresh_pane_states().workspaces.items[w].tabs[t].panes[p];
            &&& before.kind is Room ==> pane == before
            &&& before.kind is Thread && !app.agents.contains_key(before.kind->Thread_root) ==> pane == before
            &&& before.kind is Thread && app.agents.contains_key(before.kind->Thread_root) ==> {
                let session = app.agents[before.kind->Thread_root];
                pane.state == session.state() && pane.degraded == session.degraded && pane.gaps == session.has_gaps()
                    && pane.title == before.title && pane.kind == before.kind && pane.id == before.id
            }
        }),
{
    reveal(refreshed_bar);
}

proof fn lemma_moved(app: AppModel)
    ensures
        same_bar(app.focus_moved().workspaces, app.workspaces),
        app.focus_moved().tilings == app.tilings,
        app.focus_moved().mentions is None,
        app.focus_moved().typing is None,
        !app.focus_moved().restoring_focus,
        app.focus_moved().layout_dirty,
        app.focus_moved().needs_redraw,
        app.focus_moved().composers == app.composers,
        app.focus_moved().timelines == app.timelines,
        app.focus_moved().modal == app.modal,
        app.focus_moved().mode == app.mode,
        app.focus_moved().selected == app.selected,
        app.focus_moved().should_quit == app.should_quit,
{
    reveal(AppModel::focus_moved);
    let moved = AppModel {
        mentions: None,
        needs_redraw: true,
        restoring_focus: false,
        layout_dirty: true,
        ..app.stop_typing()
    };
    let seen = moved.mark_focused_seen();
    assert(same_bar(seen.workspaces, app.workspaces)) by {
        if let Some(view) = moved.focused_view() {
            if let Some(root) = view.thread_root {
                let read = if moved.timelines.contains_key(view) {
                    moved.queue(CommandModel::MarkRead { view })
                } else {
                    moved
                };
                law_refreshing_changes_only_the_signs(read.session_seen(root));
            }
        }
    }
    let views = match seen.focused_tab() {
        Some(tab) => tab.panes.map_values(|p: PaneModel| pane_view(p)),
        None => Seq::empty(),
    };
    lemma_open_views_keeps(seen, views);
}

// -------------------------------------------------------------------------- looking at a pane

/// What is looked at is marked as read, once it has been loaded, and its session as seen.
pub proof fn law_what_is_looked_at_is_seen(app: AppModel, view: ViewModel)
    requires
        app.focused_view() == Some(view),
    ensures
        app.timelines.contains_key(view) ==> app.mark_focused_seen().pending == app.pending.push(
            CommandModel::MarkRead { view },
        ),
        !app.timelines.contains_key(view) ==> app.mark_focused_seen().pending == app.pending,
        view.thread_root is Some && app.agents.contains_key(view.thread_root->0)
            ==> app.mark_focused_seen().agents[view.thread_root->0].seen,
        view.thread_root is None ==> app.mark_focused_seen().agents == app.agents,
{
}

/// A view that was not loaded is opened, and its messages asked for; one that was is not.
pub proof fn law_unloaded_views_are_opened(app: AppModel, views: Seq<ViewModel>, i: int)
    requires
        0 <= i < views.len(),
    ensures
        !app.timelines.contains_key(views[i]) ==> app.open_views(views).pending.contains(
            CommandModel::OpenView(views[i]),
        ) && app.open_views(views).pending.contains(CommandModel::Paginate { view: views[i], count: 0 })
            && app.open_views(views).paginating.contains(views[i]),
        (forall|j: int| 0 <= j < views.len() ==> app.timelines.contains_key(#[trigger] views[j])) ==> app.open_views(
            views,
        ) == app,
    decreases views.len(),
{
    let rest = views.drop_last();
    let last = views.last();
    let before = app.open_views(rest);
    lemma_open_views_keeps(app, rest);
    if i < rest.len() {
        law_unloaded_views_are_opened(app, rest, i);
        if !app.timelines.contains_key(views[i]) {
            let after = before.open_view(last).pending;
            let a = before.pending.index_of(CommandModel::OpenView(views[i]));
            let b = before.pending.index_of(CommandModel::Paginate { view: views[i], count: 0 });
            assert(after[a] == CommandModel::OpenView(views[i]));
            assert(after[b] == CommandModel::Paginate { view: views[i], count: 0 });
        }
    } else {
        if !app.timelines.contains_key(last) {
            let after = before.open_view(last).pending;
            assert(after[before.pending.len() as int] == CommandModel::OpenView(last));
            assert(after[before.pending.len() as int + 1] == CommandModel::Paginate { view: last, count: 0 });
        }
        if rest.len() > 0 {
            law_unloaded_views_are_opened(app, rest, 0);
        }
    }
    if forall|j: int| 0 <= j < views.len() ==> app.timelines.contains_key(#[trigger] views[j]) {
        assert forall|j: int| 0 <= j < rest.len() implies app.timelines.contains_key(#[trigger] rest[j]) by {
            assert(app.timelines.contains_key(views[j]));
        }
        assert(app.timelines.contains_key(views[views.len() - 1]));
    }
}

/// The members of the focused room are asked for where they were not.
pub proof fn law_the_roster_of_the_room_is_asked_for(app: AppModel, room_id: Seq<char>)
    requires
        app.focused_room() == Some(room_id),
    ensures
        !app.members_asked.contains(room_id) ==> app.ask_for_members().pending == app.pending.push(
            CommandModel::ListMembers { room_id },
        ),
        app.members_asked.contains(room_id) ==> app.ask_for_members() == app,
        app.ask_for_members().members_asked.contains(room_id),
{
}

/// Every pane of the tab that is on show is opened: its room, or its thread in it.
pub proof fn law_every_pane_on_show_is_opened(app: AppModel, tab: TabModel, i: int)
    requires
        app.focused_tab() == Some(tab),
        0 <= i < tab.panes.len(),
        !app.timelines.contains_key(pane_view(tab.panes[i])),
    ensures
        app.open_focused_view().pending.contains(CommandModel::OpenView(pane_view(tab.panes[i]))),
        tab.panes[i].kind is Room ==> pane_view(tab.panes[i]) == (ViewModel {
            room_id: tab.panes[i].kind->Room_room_id,
            thread_root: None,
        }),
        tab.panes[i].kind is Thread ==> pane_view(tab.panes[i]) == (ViewModel {
            room_id: tab.panes[i].kind->Thread_room_id,
            thread_root: Some(tab.panes[i].kind->Thread_root),
        }),
{
    let views = tab.panes.map_values(|p: PaneModel| pane_view(p));
    law_unloaded_views_are_opened(app, views, i);
    let opened = app.open_views(views);
    let k = opened.pending.index_of(CommandModel::OpenView(views[i]));
    assert(app.open_focused_view().pending[k] == CommandModel::OpenView(views[i]));
}

// -------------------------------------------------------------------------- tabs and workspaces

/// Whether some workspace has the focus, and in it some tab.
pub open spec fn on_a_tab(app: AppModel) -> bool {
    &&& app.workspaces.focused < app.workspaces.items.len() <= usize::MAX
    &&& here(app).focused < here(app).tabs.len() <= usize::MAX
}

/// The workspace that has the focus.
pub open spec fn here(app: AppModel) -> WorkspaceModel {
    app.workspaces.items[app.workspaces.focused as int]
}

/// The next tab is the one behind, and behind the last the first.
pub proof fn law_the_next_tab_is_shown(app: AppModel)
    requires
        on_a_tab(app),
    ensures
        ({
            let after = app.next_tab();
            let (i, n) = (here(app).focused, here(app).tabs.len());
            &&& after.workspaces.focused == app.workspaces.focused
            &&& i + 1 < n ==> here(after).focused == i + 1
            &&& i + 1 == n ==> here(after).focused == 0
            &&& here(after).id == here(app).id
            &&& after.layout_dirty
            &&& !after.restoring_focus
            &&& after.typing is None
        }),
{
    law_cycling_goes_one_on(here(app).focused, here(app).tabs.len());
    let w = here(app);
    lemma_moved(app.with_workspace(WorkspaceModel { focused: following(w.focused, w.tabs.len()), ..w }));
}

/// The tab before is the one in front, and in front of the first the last.
pub proof fn law_the_tab_before_is_shown(app: AppModel)
    requires
        on_a_tab(app),
    ensures
        ({
            let after = app.prev_tab();
            let (i, n) = (here(app).focused, here(app).tabs.len());
            &&& after.workspaces.focused == app.workspaces.focused
            &&& i > 0 ==> here(after).focused == i - 1
            &&& i == 0 ==> here(after).focused == n - 1
            &&& here(after).id == here(app).id
        }),
{
    law_cycling_goes_one_on(here(app).focused, here(app).tabs.len());
    let w = here(app);
    lemma_moved(app.with_workspace(WorkspaceModel { focused: preceding(w.focused, w.tabs.len()), ..w }));
}

/// So with workspaces.
pub proof fn law_the_next_workspace_is_shown(app: AppModel)
    requires
        on_a_tab(app),
    ensures
        ({
            let after = app.next_workspace();
            let (i, n) = (app.workspaces.focused, app.workspaces.items.len());
            &&& i + 1 < n ==> after.workspaces.focused == i + 1
            &&& i + 1 == n ==> after.workspaces.focused == 0
            &&& same_bar(after.workspaces, WorkspacesModel { focused: after.workspaces.focused, ..app.workspaces })
        }),
{
    law_cycling_goes_one_on(app.workspaces.focused, app.workspaces.items.len());
    lemma_moved(app.at_workspace(following(app.workspaces.focused, app.workspaces.items.len())));
}

/// And with the workspace before.
pub proof fn law_the_workspace_before_is_shown(app: AppModel)
    requires
        on_a_tab(app),
    ensures
        ({
            let after = app.prev_workspace();
            let (i, n) = (app.workspaces.focused, app.workspaces.items.len());
            &&& i > 0 ==> after.workspaces.focused == i - 1
            &&& i == 0 ==> after.workspaces.focused == n - 1
            &&& same_bar(after.workspaces, WorkspacesModel { focused: after.workspaces.focused, ..app.workspaces })
        }),
{
    law_cycling_goes_one_on(app.workspaces.focused, app.workspaces.items.len());
    lemma_moved(app.at_workspace(preceding(app.workspaces.focused, app.workspaces.items.len())));
}

/// A workspace or a tab that is asked for by its place is shown, and nothing is that is not there.
pub proof fn law_what_is_asked_for_is_shown(app: AppModel, index: usize)
    requires
        on_a_tab(app),
    ensures
        index < app.workspaces.items.len() ==> app.show_workspace(index).workspaces.focused == index,
        index >= app.workspaces.items.len() ==> app.show_workspace(index) == app,
        index < here(app).tabs.len() ==> app.show_tab(index).workspaces.focused == app.workspaces.focused && here(
            app.show_tab(index),
        ).focused == index,
        index >= here(app).tabs.len() ==> app.show_tab(index) == app,
{
    lemma_moved(app.at_workspace(index));
    lemma_moved(app.with_workspace(here(app).focus_tab(index)));
}

// -------------------------------------------------------------------------- panes

/// The tab that has the focus.
pub open spec fn tab_here(app: AppModel) -> TabModel {
    here(app).tabs[here(app).focused as int]
}

/// Whether the tab that has the focus is tiled, and each of its panes has a name of its own.
pub open spec fn on_a_tiled_tab(app: AppModel) -> bool {
    &&& on_a_tab(app)
    &&& app.tilings.contains_key(tab_here(app).room_id)
    &&& tab_here(app).panes.len() < usize::MAX
    &&& forall|i: int, j: int|
        0 <= i < j < tab_here(app).panes.len() ==> (#[trigger] tab_here(app).panes[i]).id != (
        #[trigger] tab_here(app).panes[j]).id
}

/// Moving to a side gives the focus to the pane that lies there.
pub proof fn law_the_focus_moves_to_the_neighbour(app: AppModel, dir: Dir, i: int)
    requires
        on_a_tiled_tab(app),
        0 <= i < tab_here(app).panes.len(),
        app.tilings[tab_here(app).room_id].neighbour(dir) == Some(tab_here(app).panes[i].id),
    ensures
        ({
            let after = app.focus_pane(dir);
            let room = tab_here(app).room_id;
            &&& after.workspaces.focused == app.workspaces.focused
            &&& here(after).focused == here(app).focused
            &&& tab_here(after).focused == i
            &&& tab_here(after).panes[i].id == tab_here(app).panes[i].id
            &&& after.tilings[room].focus == tab_here(app).panes[i].id.0
            &&& after.tilings == app.tilings.insert(room, after.tilings[room])
        }),
{
    let tab = tab_here(app);
    let id = tab.panes[i].id;
    let test = crate::layout::model::with_id(id);
    lemma_first_where(tab.panes, test);
    assert(test(tab.panes[i]));
    let k = first_where(tab.panes, test)->0;
    if k != i {
        assert(test(tab.panes[k]));
        assert(tab.panes[k].id == tab.panes[i].id);
    }
    let t = app.tilings[tab.room_id];
    let tiled = app.with_tiling(TilingModel { focus: id.0, ..t });
    let focused = tiled.with_tab(tiled.focused_tab()->0.focus(id));
    assert(focused.workspaces.items[app.workspaces.focused as int].tabs[here(app).focused as int] == tab.focus(id));
    lemma_moved(focused);
}

/// Where nothing lies that way the focus stays.
pub proof fn law_the_focus_stays_without_a_neighbour(app: AppModel, dir: Dir)
    requires
        on_a_tiled_tab(app),
        app.tilings[tab_here(app).room_id].neighbour(dir) is None,
    ensures
        app.focus_pane(dir) == app,
{
}

/// A split shows the same view once more: in a new pane behind the others, which has the focus.
pub proof fn law_a_split_shows_the_view_again(app: AppModel, dir: Dir, view: ViewModel)
    requires
        on_a_tiled_tab(app),
        app.focused_view() == Some(view),
        app.tilings[tab_here(app).room_id].split_id() is Some,
    ensures
        ({
            let after = app.split(dir);
            let room = tab_here(app).room_id;
            let n = tab_here(app).panes.len();
            &&& after.focused_view() == Some(view)
            &&& tab_here(after).panes.len() == n + 1
            &&& tab_here(after).panes.take(n as int) == tab_here(app).panes
            &&& tab_here(after).focused == n
            &&& Some(tab_here(after).panes[n as int].id) == app.tilings[room].split_id()
            &&& after.tilings[room] == app.tilings[room].split(dir)
            &&& after.layout_dirty
            &&& after.pending == app.pending
        }),
{
    let tab = tab_here(app);
    let after = app.split(dir);
    assert(tab_here(after).panes.take(tab.panes.len() as int) =~= tab.panes);
}

/// The last pane stays.
pub proof fn law_the_last_pane_stays(app: AppModel)
    requires
        on_a_tab(app),
        tab_here(app).panes.len() <= 1,
    ensures
        app.close_pane().workspaces == app.workspaces,
        app.close_pane().tilings == app.tilings,
{
}

proof fn lemma_opening_keeps(app: AppModel)
    ensures
        app.open_focused_view().workspaces == app.workspaces,
        app.open_focused_view().tilings == app.tilings,
        app.open_focused_view().layout_dirty == app.layout_dirty,
{
    let views = match app.focused_tab() {
        Some(tab) => tab.panes.map_values(|p: PaneModel| pane_view(p)),
        None => Seq::empty(),
    };
    lemma_open_views_keeps(app, views);
}

/// Of several panes, the one that has the focus is closed.
#[verifier::rlimit(60)]
pub proof fn law_the_focused_pane_is_closed(app: AppModel, i: int)
    requires
        on_a_tiled_tab(app),
        0 <= i < tab_here(app).panes.len(),
        tab_here(app).panes.len() > 1,
        tab_here(app).panes[i].id.0 == app.tilings[tab_here(app).room_id].focus,
        app.tilings[tab_here(app).room_id].ids.len() != 1,
    ensures
        tab_here(app.close_pane()).panes == tab_here(app).panes.take(i) + tab_here(app).panes.skip(i + 1),
        app.close_pane().tilings == app.tilings.insert(
            tab_here(app).room_id,
            app.tilings[tab_here(app).room_id].close(),
        ),
        app.close_pane().layout_dirty,
{
    let tab = tab_here(app);
    let id = tab.panes[i].id;
    let t = app.tilings[tab.room_id];
    let gone = tab.remove_pane(id).focus(PaneId(t.close().focus));
    assert(gone.panes == tab.panes.take(i) + tab.panes.skip(i + 1)) by {
        let test = crate::layout::model::with_id(id);
        lemma_first_where(tab.panes, test);
        assert(test(tab.panes[i]));
        let k = first_where(tab.panes, test)->0;
        if k != i {
            assert(test(tab.panes[k]));
        }
        assert(tab.panes.remove(i) =~= tab.panes.take(i) + tab.panes.skip(i + 1));
    }
    assert(app.focused_tiling() == Some(t));
    let tiled = app.with_tiling(t.close());
    assert(tiled.focused_tab() == Some(tab));
    let closed = tiled.with_tab(gone).touch_layout();
    assert(t.close_id() == Some(id));
    assert(app.close_pane() == closed.open_focused_view());
    lemma_opening_keeps(closed);
    assert(tab_here(closed) == gone);
}

/// Zooming and resizing are for the tiling of the focused tab.
pub proof fn law_the_focused_tab_is_zoomed_and_resized(app: AppModel, dir: Dir)
    requires
        on_a_tiled_tab(app),
    ensures
        ({
            let room = tab_here(app).room_id;
            let zoomed = app.zoom_pane();
            let resized = app.resize_pane(dir);
            &&& zoomed.tilings == app.tilings.insert(room, app.tilings[room].toggle_zoom())
            &&& zoomed.layout_dirty
            &&& resized.tilings == app.tilings
            &&& app.tilings[room].resize(dir) is None ==> resized.reshares == app.reshares
            &&& app.tilings[room].resize(dir) is Some ==> {
                &&& resized.reshares.len() == app.reshares.len() + 1
                &&& resized.reshares.drop_last() =~= app.reshares
                &&& resized.reshares.last().room_id == room
                &&& resized.reshares.last().path == (app.tilings[room].resize(dir)->0).0
                &&& resized.reshares.last().grow_first == (app.tilings[room].resize(dir)->0).1
            }
        }),
{
}

proof fn lemma_pane_key(app: AppModel, action: Action)
    requires
        at_large(app),
        action is NextTab || action is PrevTab || action is NextWorkspace || action is PrevWorkspace || action is FocusPane
            || action is ResizePane || action is Split || action is ClosePane || action is ZoomPane || action is NewThread
            || action is Accept,
    ensures
        app.apply_action(action) == app.pane_action(action),
{
    reveal(touching);
}

/// The key for the next tab shows it.
pub proof fn law_the_key_for_the_next_tab(app: AppModel)
    requires
        at_large(app),
    ensures
        app.apply_action(Action::NextTab) == app.next_tab(),
{
    lemma_pane_key(app, Action::NextTab);
    assert(app.pane_action(Action::NextTab) == app.next_tab()) by {
        reveal(AppModel::pane_action);
    }
}

/// The key for the tab before shows it.
pub proof fn law_the_key_for_the_tab_before(app: AppModel)
    requires
        at_large(app),
    ensures
        app.apply_action(Action::PrevTab) == app.prev_tab(),
{
    lemma_pane_key(app, Action::PrevTab);
    assert(app.pane_action(Action::PrevTab) == app.prev_tab()) by {
        reveal(AppModel::pane_action);
    }
}

/// The key for the next workspace shows it.
pub proof fn law_the_key_for_the_next_workspace(app: AppModel)
    requires
        at_large(app),
    ensures
        app.apply_action(Action::NextWorkspace) == app.next_workspace(),
{
    lemma_pane_key(app, Action::NextWorkspace);
    assert(app.pane_action(Action::NextWorkspace) == app.next_workspace()) by {
        reveal(AppModel::pane_action);
    }
}

/// The key for the workspace before shows it.
pub proof fn law_the_key_for_the_workspace_before(app: AppModel)
    requires
        at_large(app),
    ensures
        app.apply_action(Action::PrevWorkspace) == app.prev_workspace(),
{
    lemma_pane_key(app, Action::PrevWorkspace);
    assert(app.pane_action(Action::PrevWorkspace) == app.prev_workspace()) by {
        reveal(AppModel::pane_action);
    }
}

/// The keys for a side go to that side.
pub proof fn law_the_keys_that_go_to_a_side(app: AppModel, dir: Dir)
    requires
        at_large(app),
    ensures
        app.apply_action(Action::FocusPane(dir)) == app.focus_pane(dir),
{
    lemma_pane_key(app, Action::FocusPane(dir));
    assert(app.pane_action(Action::FocusPane(dir)) == app.focus_pane(dir)) by {
        reveal(AppModel::pane_action);
    }
}

/// The keys for a side's border move it that way.
pub proof fn law_the_keys_that_move_a_border(app: AppModel, dir: Dir)
    requires
        at_large(app),
    ensures
        app.apply_action(Action::ResizePane(dir)) == app.resize_pane(dir),
{
    lemma_pane_key(app, Action::ResizePane(dir));
    assert(app.pane_action(Action::ResizePane(dir)) == app.resize_pane(dir)) by {
        reveal(AppModel::pane_action);
    }
}

/// The keys that split do so to their side.
pub proof fn law_the_keys_that_split(app: AppModel, dir: Dir)
    requires
        at_large(app),
    ensures
        app.apply_action(Action::Split(dir)) == app.split(dir),
{
    lemma_pane_key(app, Action::Split(dir));
    assert(app.pane_action(Action::Split(dir)) == app.split(dir)) by {
        reveal(AppModel::pane_action);
    }
}

/// The key that closes a pane closes it.
pub proof fn law_the_key_that_closes_a_pane(app: AppModel)
    requires
        at_large(app),
    ensures
        app.apply_action(Action::ClosePane) == app.close_pane(),
{
    lemma_pane_key(app, Action::ClosePane);
    assert(app.pane_action(Action::ClosePane) == app.close_pane()) by {
        reveal(AppModel::pane_action);
    }
}

/// The key that zooms a pane zooms it.
pub proof fn law_the_key_that_zooms_a_pane(app: AppModel)
    requires
        at_large(app),
    ensures
        app.apply_action(Action::ZoomPane) == app.zoom_pane(),
{
    lemma_pane_key(app, Action::ZoomPane);
    assert(app.pane_action(Action::ZoomPane) == app.zoom_pane()) by {
        reveal(AppModel::pane_action);
    }
}

/// The key that begins a thread begins it.
pub proof fn law_the_key_that_begins_a_thread(app: AppModel)
    requires
        at_large(app),
    ensures
        app.apply_action(Action::NewThread) == app.start_thread(),
{
    lemma_pane_key(app, Action::NewThread);
    assert(app.pane_action(Action::NewThread) == app.start_thread()) by {
        reveal(AppModel::pane_action);
    }
}

/// The key that accepts opens what is selected.
pub proof fn law_the_key_that_accepts(app: AppModel)
    requires
        at_large(app),
    ensures
        app.apply_action(Action::Accept) == app.accept_selection(),
{
    lemma_pane_key(app, Action::Accept);
    assert(app.pane_action(Action::Accept) == app.accept_selection()) by {
        reveal(AppModel::pane_action);
    }
}

// -------------------------------------------------------------------------- threads

/// A thread is opened below the newest thread pane, or, with none, to the right of the room.
pub proof fn law_a_thread_goes_below_the_threads(panes: Seq<PaneModel>, k: int)
    requires
        0 <= k < panes.len(),
    ensures
        panes[k].kind is Thread && (forall|j: int| k < j < panes.len() ==> (#[trigger] panes[j]).kind is Room)
            ==> thread_anchor(panes) == (Some(panes[k].id), Dir::Down),
        panes[k].kind is Room && (forall|j: int| 0 <= j < panes.len() ==> (#[trigger] panes[j]).kind is Room)
            ==> thread_anchor(panes) == (Some(panes[0].id), Dir::Right),
{
    lemma_newest_thread(panes, k);
    let test = crate::app::state::focus::on_room();
    lemma_first_where(panes, test);
    if panes[0].kind is Room {
        assert(test(panes[0]));
        let f = first_where(panes, test)->0;
        if f > 0 {
            assert(!test(panes[0]));
        }
    }
}

proof fn lemma_newest_thread(panes: Seq<PaneModel>, k: int)
    requires
        0 <= k < panes.len(),
    ensures
        panes[k].kind is Thread && (forall|j: int| k < j < panes.len() ==> (#[trigger] panes[j]).kind is Room)
            ==> newest_thread(panes) == Some(panes[k].id),
        (forall|j: int| 0 <= j < panes.len() ==> (#[trigger] panes[j]).kind is Room) ==> newest_thread(panes) is None,
    decreases panes.len(),
{
    let rest = panes.drop_last();
    let n = panes.len() - 1;
    assert forall|j: int| 0 <= j < n implies rest[j] == #[trigger] panes[j] by {}
    if n > 0 {
        lemma_newest_thread(rest, if k < n {
            k
        } else {
            0
        });
    }
    if panes[k].kind is Thread && (forall|j: int| k < j < panes.len() ==> (#[trigger] panes[j]).kind is Room) {
        if k < n {
            assert(panes[n].kind is Room);
            assert forall|j: int| k < j < rest.len() implies (#[trigger] rest[j]).kind is Room by {
                assert(panes[j].kind is Room);
            }
        }
    }
    if forall|j: int| 0 <= j < panes.len() ==> (#[trigger] panes[j]).kind is Room {
        assert(panes[n].kind is Room);
        assert forall|j: int| 0 <= j < rest.len() implies (#[trigger] rest[j]).kind is Room by {
            assert(panes[j].kind is Room);
        }
        assert(newest_thread(rest) is None);
    }
}

/// A thread that has a pane is shown in it.
pub proof fn law_an_open_thread_is_shown_where_it_is(app: AppModel, root: Seq<char>, title: Seq<char>)
    requires
        on_a_tiled_tab(app),
        tab_here(app).pane_for_thread(root) is Some,
    ensures
        ({
            let after = app.open_thread_pane(root, title);
            &&& after.focused_view() == Some(ViewModel { room_id: tab_here(app).room_id, thread_root: Some(root) })
            &&& tab_here(after).panes.len() == tab_here(app).panes.len()
        }),
{
    let tab = tab_here(app);
    let existing = tab.pane_for_thread(root)->0;
    let test = crate::layout::model::on_thread(root);
    lemma_first_where(tab.panes, test);
    let k = first_where(tab.panes, test)->0;
    let named = crate::layout::model::with_id(existing.id);
    lemma_first_where(tab.panes, named);
    assert(named(tab.panes[k]));
    let f = first_where(tab.panes, named)->0;
    if f != k {
        assert(tab.panes[f].id == tab.panes[k].id);
    }
    let both = app.focus_both(existing.id);
    assert(tab_here(both) == tab.focus(existing.id));
    let after = both.focus_moved();
    assert(app.open_thread_pane(root, title) == after) by {
        reveal(AppModel::open_thread_pane);
    }
    lemma_moved(both);
    lemma_shown(both.workspaces, after, k);
}

/// A thread that has none gets one, with the title that was given, and is shown there.
pub proof fn law_a_thread_without_a_pane_gets_one(app: AppModel, root: Seq<char>, title: Seq<char>)
    requires
        on_a_tiled_tab(app),
        tab_here(app).pane_for_thread(root) is None,
        app.tilings[tab_here(app).room_id].split_id() is Some,
    ensures
        ({
            let after = app.open_thread_pane(root, title);
            let n = tab_here(app).panes.len() as int;
            let room_id = tab_here(app).room_id;
            &&& after.focused_view() == Some(ViewModel { room_id, thread_root: Some(root) })
            &&& tab_here(after).panes.len() == n + 1
            &&& tab_here(after).panes[n].title == title
            &&& tab_here(after).panes[n].kind == (PaneKindModel::Thread { room_id, root })
        }),
{
    let tab = tab_here(app);
    let room = tab.room_id;
    let (anchor, dir) = thread_anchor(tab.panes);
    let anchored = match anchor {
        Some(id) => app.focus_both(id),
        None => app,
    };
    assert(tab_here(anchored).room_id == room && tab_here(anchored).panes == tab.panes);
    let t = anchored.tilings[room];
    assert(t.split_id() == app.tilings[room].split_id());
    let tiled = anchored.with_tiling(t.split(dir));
    let pane = new_pane(t.split_id()->0, PaneKindModel::Thread { room_id: room, root }, title);
    let pushed = tiled.with_tab(tiled.focused_tab()->0.push_pane(pane));
    assert(tab_here(pushed).panes == tab.panes.push(pane));
    let after = pushed.focus_moved();
    assert(app.open_thread_pane(root, title) == after) by {
        reveal(AppModel::open_thread_pane);
    }
    lemma_moved(pushed);
    lemma_shown(pushed.workspaces, after, tab.panes.len() as int);
}

proof fn lemma_shown(bar: WorkspacesModel, after: AppModel, k: int)
    requires
        same_bar(after.workspaces, bar),
        bar.focused < bar.items.len(),
        bar.items[bar.focused as int].focused < bar.items[bar.focused as int].tabs.len(),
        0 <= k < bar.items[bar.focused as int].focused_tab()->0.panes.len(),
        bar.items[bar.focused as int].focused_tab()->0.focused == k,
    ensures
        ({
            let tab = bar.items[bar.focused as int].focused_tab()->0;
            &&& after.focused_view() == Some(
                ViewModel { room_id: tab.room_id, thread_root: tab.panes[k].kind.thread_root() },
            )
            &&& tab_here(after).panes.len() == tab.panes.len()
            &&& tab_here(after).panes[k].kind == tab.panes[k].kind
            &&& tab_here(after).panes[k].title == tab.panes[k].title
        }),
{
    let tab = bar.items[bar.focused as int].focused_tab()->0;
    assert(same_tab(tab_here(after), tab));
}

/// A thread is begun on the selected message of a room, and titled by it; not in a thread, nor
/// with nothing selected.
pub proof fn law_a_thread_is_begun_on_the_selection(app: AppModel, view: ViewModel)
    requires
        app.focused_view() == Some(view),
    ensures
        view.thread_root is Some ==> app.start_thread().workspaces == app.workspaces,
        view.thread_root is None && !app.selected.contains_key(view) ==> app.start_thread().workspaces
            == app.workspaces,
        view.thread_root is None && app.selected.contains_key(view) && app.selected_message() is Some
            ==> app.start_thread() == app.open_thread_pane(
            app.selected[view],
            headline(app.selected_message()->0.body),
        ),
{
}

/// Accepting a selected message opens the thread it leads to, and nothing where it leads to none.
pub proof fn law_the_thread_of_the_selection_is_opened(app: AppModel)
    requires
    ensures
        app.selected_thread() is Some ==> app.accept_selection() == app.open_thread_pane(
            (app.selected_thread()->0).0,
            (app.selected_thread()->0).1,
        ),
        app.selected_thread() is None ==> app.accept_selection().workspaces == app.workspaces
            && app.accept_selection().pending == app.pending,
{
}

} // verus!
