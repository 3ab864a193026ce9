//! What becomes of what the worker says.

use vstd::prelude::*;

use crate::agent::store::{expire, SessionModel};
use crate::app::config::AgentModel;
use crate::app::state::events::{
    agent_among, described_tab, first_pane, ingest_entry, ingested, new_tab, restored_workspace, roots_in,
    roots_in_tabs, roots_of, space_title, with_spaces, with_typing, workspace_of, workspace_title,
};
use crate::app::state::input::{border_at, points_at};
use crate::app::state::{AppModel, HeldModel, ModalModel, RecoveryPanelModel};
use crate::layout::model::{
    for_room, of_space, PaneId, PaneModel, TabModel, WorkspaceModel, WorkspacesModel, ORPHAN_WORKSPACE,
};
use crate::matrix::model::{
    EntryModel, MemberSummaryModel, RecoveryState, RoomSummaryModel, SyncState, ThreadSummaryModel,
    VerificationModel, ViewModel, WorkerEventModel,
};
use crate::matrix::worker::Dispatch;
use crate::seqs::{first_where, lemma_first_where};

verus! {

// -------------------------------------------------------------------------- simple news

/// The state of the connection is noted, and nothing else changes.
pub proof fn law_the_connection_is_noted(app: AppModel, state: SyncState)
    ensures
        app.apply_worker_event(WorkerEventModel::SyncState(state)) == (AppModel { sync: state, ..app }),
{
}

/// A warning is shown; an error that ends the worker is shown and ends the client.
pub proof fn law_warnings_are_shown(app: AppModel, text: Seq<char>)
    ensures
        app.apply_worker_event(WorkerEventModel::Warning(text)) == (AppModel { status: Some(text), ..app }),
        app.apply_worker_event(WorkerEventModel::Fatal(text)) == (AppModel {
            status: Some("fatal: "@ + text),
            should_quit: true,
            ..app
        }),
{
}

/// A dropped command is told of, and a worker that stopped ends the client.
pub proof fn law_a_stopped_worker_ends_the_client(app: AppModel)
    ensures
        app.dispatched(Dispatch::Queued) == app,
        app.dispatched(Dispatch::Dropped).should_quit == app.should_quit,
        app.dispatched(Dispatch::Dropped).status is Some,
        app.dispatched(Dispatch::Stopped).should_quit,
        app.dispatched(Dispatch::Stopped).status is Some,
        app.dispatched(Dispatch::Dropped).pending == app.pending,
{
}

/// The threads of a room are shown where they are waited for: in a picker for that room.
pub proof fn law_threads_are_shown_where_they_are_waited_for(
    app: AppModel,
    room_id: Seq<char>,
    threads: Seq<ThreadSummaryModel>,
)
    ensures
        ({
            let after = app.apply_worker_event(WorkerEventModel::Threads { room_id, threads });
            let waited = app.modal is Some && app.modal->0 is Threads && app.modal->0->Threads_0.room_id == room_id;
            &&& !waited ==> after == app
            &&& waited ==> after.modal is Some && after.modal->0 is Threads
            &&& waited ==> after.modal->0->Threads_0.threads == threads
            &&& waited ==> after.modal->0->Threads_0.room_id == room_id
            &&& waited ==> after.modal->0->Threads_0.selected == 0
            &&& waited ==> !after.modal->0->Threads_0.loading
        }),
{
    reveal(AppModel::threads_arrived);
}

/// The members of a room are kept for that room.
pub proof fn law_members_are_kept_for_their_room(
    app: AppModel,
    room_id: Seq<char>,
    members: Seq<MemberSummaryModel>,
)
    ensures
        app.apply_worker_event(WorkerEventModel::Members { room_id, members }).members == app.members.insert(
            room_id,
            members,
        ),
        app.apply_worker_event(WorkerEventModel::Members { room_id, members }).composers == app.composers,
        app.apply_worker_event(WorkerEventModel::Members { room_id, members }).pending == app.pending,
{
    reveal(AppModel::members_arrived);
}

// -------------------------------------------------------------------------- trust

/// A finished verification verifies the device and is put away; a cancelled one is put away with
/// its reason, and verifies nothing; any other is shown.
pub proof fn law_a_verification_is_followed(app: AppModel, state: VerificationModel)
    ensures
        ({
            let after = app.apply_worker_event(WorkerEventModel::Verification(state));
            &&& state is Done ==> after.device_verified == Some(true) && after.modal is None
            &&& state is Cancelled ==> after.device_verified == app.device_verified && after.modal is None
                && after.status == Some("verification cancelled: "@ + state->Cancelled_reason)
            &&& !(state is Done) && !(state is Cancelled) ==> after.device_verified == app.device_verified && after.modal
                == Some(ModalModel::Verification(state))
            &&& after.pending == app.pending
        }),
{
    reveal(AppModel::account_event);
    reveal(AppModel::verification_arrived);
}

/// Whether the device is verified is noted where it is known.
pub proof fn law_a_known_device_is_noted(app: AppModel, verified: Option<bool>)
    ensures
        verified is Some ==> app.apply_worker_event(WorkerEventModel::DeviceVerified(verified)) == (AppModel {
            device_verified: verified,
            ..app
        }),
        verified is None ==> app.apply_worker_event(WorkerEventModel::DeviceVerified(verified)) == app,
{
    reveal(AppModel::account_event);
}

/// The state of recovery is noted. Where a key was sent and recovery is complete, its panel is put
/// away; otherwise what is on show stays.
pub proof fn law_recovery_is_followed(app: AppModel, state: RecoveryState)
    ensures
        ({
            let after = app.apply_worker_event(WorkerEventModel::Recovery(state));
            let sent = app.modal is Some && app.modal->0 is Recovery && app.modal->0->Recovery_0 is AskKey
                && app.modal->0->Recovery_0->AskKey_submitted;
            &&& after.recovery == state
            &&& state is Enabled && sent ==> after.modal is None
            &&& !(state is Enabled && sent) ==> after == (AppModel { recovery: state, ..app })
        }),
{
    reveal(AppModel::account_event);
    reveal(AppModel::recovery_arrived);
}

/// A key that did not fit is asked for again, with the reason; a new key is shown.
pub proof fn law_a_refused_key_is_asked_for_again(app: AppModel, text: Seq<char>)
    ensures
        app.apply_worker_event(WorkerEventModel::RecoveryFailed(text)).modal == Some(
            ModalModel::Recovery(
                RecoveryPanelModel::AskKey { key: Seq::empty(), submitted: false, error: Some(text) },
            ),
        ),
        app.apply_worker_event(WorkerEventModel::RecoveryKeyCreated(text)).modal == Some(
            ModalModel::Recovery(RecoveryPanelModel::ShowKey { key: text }),
        ),
        app.apply_worker_event(WorkerEventModel::RecoveryFailed(text)).pending == app.pending,
        app.apply_worker_event(WorkerEventModel::RecoveryKeyCreated(text)).pending == app.pending,
        app.apply_worker_event(WorkerEventModel::RecoveryKeyCreated(text)).status == app.status,
{
    reveal(AppModel::account_event);
    reveal(AppModel::recovery_failed);
}

// -------------------------------------------------------------------------- transcripts

/// A timeline that arrives is shown in its view, which waits no longer, and in no other; what
/// agents said in it is read.
pub proof fn law_a_timeline_is_shown_in_its_view(app: AppModel, view: ViewModel, entries: Seq<EntryModel>)
    ensures
        ({
            let after = app.apply_worker_event(WorkerEventModel::Timeline { view, entries });
            &&& after.timelines == app.timelines.insert(view, entries)
            &&& after.paginating == app.paginating.remove(view)
            &&& after.agents == ingested(app.agents, app.config.agent, view.thread_root, entries)
            &&& after.composers == app.composers
            &&& after.scroll == app.scroll
            &&& after.selected == app.selected
            &&& after.pending == app.pending
        }),
{
    reveal(AppModel::timeline_arrived);
}

/// Entries are read one by one, in their order.
pub proof fn law_entries_are_read_in_order(
    agents: Map<Seq<char>, SessionModel>,
    config: AgentModel,
    root: Option<Seq<char>>,
    entries: Seq<EntryModel>,
    entry: EntryModel,
)
    ensures
        ingested(agents, config, root, Seq::empty()) == agents,
        ingested(agents, config, root, entries.push(entry)) == ingest_entry(
            ingested(agents, config, root, entries),
            config,
            root,
            entry,
        ),
{
    assert(entries.push(entry).drop_last() =~= entries);
}

/// What an agent says goes to the session it names, and to no other. What is no message, or not
/// from an agent, or plain, goes to none. A message that lost its structure marks the session of
/// the thread it stands in.
pub proof fn law_an_agents_message_goes_to_its_session(
    agents: Map<Seq<char>, SessionModel>,
    config: AgentModel,
    root: Option<Seq<char>>,
    entry: EntryModel,
)
    ensures
        ({
            let after = ingest_entry(agents, config, root, entry);
            let message = entry.kind->Message_0;
            let heard = entry.kind is Message && (config.ids.len() == 0 || config.ids.contains(message.sender));
            &&& !heard ==> after == agents
            &&& heard && message.agent is Plain ==> after == agents
            &&& heard && message.agent is Degraded && root is None ==> after == agents
            &&& heard && message.agent is Degraded && root is Some ==> {
                &&& after == agents.insert(root->0, after[root->0])
                &&& after[root->0].degraded
                &&& agents.contains_key(root->0) ==> after[root->0] == (SessionModel {
                    degraded: true,
                    ..agents[root->0]
                })
            }
            &&& heard && message.agent is Structured ==> {
                let event = message.agent->Structured_event;
                &&& after == agents.insert(event.session_id, after[event.session_id])
                &&& agents.contains_key(event.session_id) ==> after[event.session_id]
                    == agents[event.session_id].fold(event)
                &&& !agents.contains_key(event.session_id) ==> after[event.session_id] == SessionModel::start(
                    event.session_id,
                ).fold(event)
            }
        }),
{
}

// -------------------------------------------------------------------------- typing

/// The threads of a room are those that its panes show.
pub proof fn law_the_threads_of_a_room(items: Seq<WorkspaceModel>, room_id: Seq<char>, root: Seq<char>)
    ensures
        roots_in(items, room_id).contains(root) <==> exists|w: int,
 t: int,
 p: int|
            #![trigger items[w].tabs[t].panes[p]]
            shows_thread(items, room_id, root, w, t, p),
    decreases items.len(),
{
    if items.len() > 0 {
        let rest = items.drop_last();
        let n = items.len() - 1;
        let tabs = items.last().tabs;
        let a = roots_in(rest, room_id);
        let b = roots_in_tabs(tabs, room_id);
        law_the_threads_of_a_room(rest, room_id, root);
        lemma_tab_roots(tabs, room_id, root);
        if (a + b).contains(root) {
            let i = (a + b).index_of(root);
            if i < a.len() {
                assert(a[i] == root);
                let (w, t, p) = choose|w: int, t: int, p: int| #![trigger rest[w].tabs[t].panes[p]]
                    shows_thread(rest, room_id, root, w, t, p);
                assert(items[w].tabs[t].panes[p] == rest[w].tabs[t].panes[p]);
                assert(shows_thread(items, room_id, root, w, t, p));
            } else {
                assert(b[i - a.len()] == root);
                let (t, p) = choose|t: int, p: int| #![trigger tabs[t].panes[p]] tab_shows(tabs, room_id, root, t, p);
                assert(items[n].tabs[t].panes[p] == tabs[t].panes[p]);
                assert(shows_thread(items, room_id, root, n, t, p));
            }
        }
        if exists|w: int, t: int, p: int| #![trigger items[w].tabs[t].panes[p]]
            shows_thread(items, room_id, root, w, t, p) {
            let (w, t, p) = choose|w: int, t: int, p: int| #![trigger items[w].tabs[t].panes[p]]
                shows_thread(items, room_id, root, w, t, p);
            if w < n {
                assert(rest[w].tabs[t].panes[p] == items[w].tabs[t].panes[p]);
                assert(shows_thread(rest, room_id, root, w, t, p));
                let i = a.index_of(root);
                assert((a + b)[i] == root);
            } else {
                assert(tabs[t].panes[p] == items[w].tabs[t].panes[p]);
                assert(tab_shows(tabs, room_id, root, t, p));
                let i = b.index_of(root);
                assert((a + b)[a.len() + i] == root);
            }
        }
    }
}

/// Whether a pane of a tab for a room shows a thread.
pub open spec fn tab_shows(tabs: Seq<TabModel>, room_id: Seq<char>, root: Seq<char>, t: int, p: int) -> bool {
    &&& 0 <= t < tabs.len()
    &&& tabs[t].room_id == room_id
    &&& 0 <= p < tabs[t].panes.len()
    &&& tabs[t].panes[p].kind is Thread
    &&& tabs[t].panes[p].kind->Thread_root == root
}

/// Whether a pane shows a thread of a room.
pub open spec fn shows_thread(
    items: Seq<WorkspaceModel>,
    room_id: Seq<char>,
    root: Seq<char>,
    w: int,
    t: int,
    p: int,
) -> bool {
    0 <= w < items.len() && tab_shows(items[w].tabs, room_id, root, t, p)
}

proof fn lemma_pane_roots(panes: Seq<PaneModel>, root: Seq<char>)
    ensures
        roots_of(panes).contains(root) <==> exists|p: int|
            0 <= p < panes.len() && (#[trigger] panes[p]).kind is Thread && panes[p].kind->Thread_root == root,
    decreases panes.len(),
{
    if panes.len() > 0 {
        let rest = panes.drop_last();
        let n = panes.len() - 1;
        let a = roots_of(rest);
        let all = roots_of(panes);
        lemma_pane_roots(rest, root);
        if all.contains(root) {
            let i = all.index_of(root);
            if i < a.len() {
                assert(a[i] == root);
                let p = choose|p: int|
                    0 <= p < rest.len() && (#[trigger] rest[p]).kind is Thread && rest[p].kind->Thread_root == root;
                assert(panes[p] == rest[p]);
            } else {
                assert(panes[n].kind is Thread && panes[n].kind->Thread_root == root);
            }
        }
        if exists|p: int|
            0 <= p < panes.len() && (#[trigger] panes[p]).kind is Thread && panes[p].kind->Thread_root == root {
            let p = choose|p: int|
                0 <= p < panes.len() && (#[trigger] panes[p]).kind is Thread && panes[p].kind->Thread_root == root;
            if p < n {
                assert(rest[p] == panes[p]);
                let i = a.index_of(root);
                assert(all[i] == root);
            } else {
                assert(all[all.len() - 1] == root);
            }
        }
    }
}

proof fn lemma_tab_roots(tabs: Seq<TabModel>, room_id: Seq<char>, root: Seq<char>)
    ensures
        roots_in_tabs(tabs, room_id).contains(root) <==> exists|t: int,
 p: int|
            #![trigger tabs[t].panes[p]]
            tab_shows(tabs, room_id, root, t, p),
    decreases tabs.len(),
{
    if tabs.len() > 0 {
        let rest = tabs.drop_last();
        let n = tabs.len() - 1;
        let panes = tabs.last().panes;
        let a = roots_in_tabs(rest, room_id);
        let all = roots_in_tabs(tabs, room_id);
        lemma_tab_roots(rest, room_id, root);
        lemma_pane_roots(panes, root);
        if all.contains(root) {
            let i = all.index_of(root);
            if i < a.len() {
                assert(a[i] == root);
                let (t, p) = choose|t: int, p: int| #![trigger rest[t].panes[p]] tab_shows(rest, room_id, root, t, p);
                assert(tabs[t].panes[p] == rest[t].panes[p]);
                assert(tab_shows(tabs, room_id, root, t, p));
            } else {
                assert(roots_of(panes)[i - a.len()] == root);
                let p = choose|p: int|
                    0 <= p < panes.len() && (#[trigger] panes[p]).kind is Thread && panes[p].kind->Thread_root == root;
                assert(tabs[n].panes[p] == panes[p]);
                assert(tab_shows(tabs, room_id, root, n, p));
            }
        }
        if exists|t: int, p: int| #![trigger tabs[t].panes[p]] tab_shows(tabs, room_id, root, t, p) {
            let (t, p) = choose|t: int, p: int| #![trigger tabs[t].panes[p]] tab_shows(tabs, room_id, root, t, p);
            if t < n {
                assert(rest[t].panes[p] == tabs[t].panes[p]);
                assert(tab_shows(rest, room_id, root, t, p));
                let i = a.index_of(root);
                assert(all[i] == root);
            } else {
                assert(panes[p] == tabs[t].panes[p]);
                let b = roots_of(panes);
                let i = b.index_of(root);
                assert(all[a.len() + i] == root);
            }
        }
    }
}

/// Typing is noted for the sessions that are named, and for no others; an end of typing begins no
/// session.
pub proof fn law_typing_is_noted_where_it_is(
    agents: Map<Seq<char>, SessionModel>,
    ids: Seq<Seq<char>>,
    typing: bool,
    id: Seq<char>,
)
    ensures
        ({
            let after = with_typing(agents, ids, typing);
            &&& ids.contains(id) && agents.contains_key(id) ==> after.contains_key(id) && after[id] == (SessionModel {
                typing,
                ..agents[id]
            })
            &&& ids.contains(id) && !agents.contains_key(id) ==> (after.contains_key(id) <==> typing)
            &&& !ids.contains(id) ==> (after.contains_key(id) <==> agents.contains_key(id))
            &&& !ids.contains(id) && agents.contains_key(id) ==> after[id] == agents[id]
        }),
    decreases ids.len(),
{
    if ids.len() > 0 {
        let rest = ids.drop_last();
        law_typing_is_noted_where_it_is(agents, rest, typing, id);
        assert(ids.contains(id) <==> rest.contains(id) || ids.last() == id) by {
            if ids.contains(id) {
                let i = ids.index_of(id);
                if i < rest.len() {
                    assert(rest[i] == id);
                }
            }
            if rest.contains(id) {
                let i = rest.index_of(id);
                assert(ids[i] == id);
            }
            if ids.last() == id {
                assert(ids[ids.len() - 1] == id);
            }
        }
    }
}

/// Whether someone is taken for an agent: one of those named, or anyone where nobody is.
pub open spec fn taken_for_agent(ids: Seq<Seq<char>>, user: Seq<char>) -> bool {
    ids.len() == 0 || ids.contains(user)
}

/// Sessions are noted to be typed in while an agent is among those who type in their room.
pub proof fn law_an_agent_types_in_its_room(app: AppModel, room_id: Seq<char>, users: Seq<Seq<char>>, i: int)
    requires
        0 <= i < users.len(),
        taken_for_agent(app.config.agent.ids, users[i]),
    ensures
        app.apply_worker_event(WorkerEventModel::Typing { room_id, users }).agents == with_typing(
            app.agents,
            roots_in(app.workspaces.items, room_id),
            true,
        ),
{
    reveal(AppModel::typing_arrived);
    assert(app.config.agent.is_agent(users[i]));
    assert(agent_among(app.config.agent, users));
}

/// They are noted not to be where no agent is.
pub proof fn law_others_typing_is_not_an_agents(app: AppModel, room_id: Seq<char>, users: Seq<Seq<char>>)
    requires
        forall|i: int| 0 <= i < users.len() ==> !taken_for_agent(app.config.agent.ids, #[trigger] users[i]),
    ensures
        app.apply_worker_event(WorkerEventModel::Typing { room_id, users }).agents == with_typing(
            app.agents,
            roots_in(app.workspaces.items, room_id),
            false,
        ),
{
    reveal(AppModel::typing_arrived);
    assert(!agent_among(app.config.agent, users));
}

// -------------------------------------------------------------------------- rooms

/// A room is in the workspace of its first space, or, having none, in the one for such rooms; the
/// workspace is titled by the space where it is known.
pub proof fn law_a_room_is_in_its_space(rooms: Seq<RoomSummaryModel>, room: RoomSummaryModel, k: int)
    requires
        0 <= k < rooms.len(),
        rooms[k].is_space,
        forall|j: int| k < j < rooms.len() ==> !((#[trigger] rooms[j]).is_space && rooms[j].room_id == rooms[k].room_id),
    ensures
        room.parents.len() > 0 ==> workspace_of(room) == room.parents[0],
        room.parents.len() == 0 ==> workspace_of(room) == ORPHAN_WORKSPACE@ && workspace_title(rooms, room)
            == ORPHAN_WORKSPACE@,
        room.parents.len() > 0 && room.parents[0] == rooms[k].room_id && rooms[k].room_id
            != ORPHAN_WORKSPACE@ ==> workspace_title(rooms, room) == rooms[k].display_name,
{
    lemma_space_title(rooms, k);
}

proof fn lemma_space_title(rooms: Seq<RoomSummaryModel>, k: int)
    requires
        0 <= k < rooms.len(),
        rooms[k].is_space,
        forall|j: int| k < j < rooms.len() ==> !((#[trigger] rooms[j]).is_space && rooms[j].room_id == rooms[k].room_id),
    ensures
        space_title(rooms, rooms[k].room_id) == Some(rooms[k].display_name),
    decreases rooms.len(),
{
    let n = rooms.len() - 1;
    if k < n {
        assert(!(rooms[n].is_space && rooms[n].room_id == rooms[k].room_id));
        let rest = rooms.drop_last();
        assert forall|j: int| k < j < rest.len() implies !((#[trigger] rest[j]).is_space && rest[j].room_id
            == rest[k].room_id) by {
            assert(rest[j] == rooms[j]);
        }
        lemma_space_title(rest, k);
    }
}

/// A tab tells what is known of its room: its name, whether it is encrypted, and what is unread.
pub proof fn law_a_tab_tells_of_its_room(tab: TabModel, room: RoomSummaryModel)
    ensures
        described_tab(tab, room).title == room.display_name,
        described_tab(tab, room).is_encrypted == room.is_encrypted,
        described_tab(tab, room).unread.notifications == room.notification_count,
        described_tab(tab, room).unread.highlights == room.highlight_count,
        described_tab(tab, room).panes == tab.panes,
        described_tab(tab, room).focused == tab.focused,
        described_tab(tab, room).room_id == tab.room_id,
        new_tab(room).room_id == room.room_id,
        new_tab(room).title == room.display_name,
        new_tab(room).unread.notifications == room.notification_count,
        new_tab(room).unread.highlights == room.highlight_count,
        new_tab(room).is_encrypted == room.is_encrypted,
        new_tab(room).panes.len() == 0,
        first_pane(room).kind is Room,
        first_pane(room).kind->Room_room_id == room.room_id,
        first_pane(room).title == room.display_name,
{
}

/// A room that has a tab keeps it, and what the tab tells is brought up to date; no other tab
/// changes.
pub proof fn law_a_known_room_is_brought_up_to_date(
    app: AppModel,
    id: Seq<char>,
    title: Seq<char>,
    room: RoomSummaryModel,
    w: int,
    t: int,
)
    requires
        0 <= w < app.workspaces.items.len(),
        app.workspaces.items[w].id == id,
        forall|v: int| 0 <= v < w ==> (#[trigger] app.workspaces.items[v]).id != id,
        0 <= t < app.workspaces.items[w].tabs.len(),
        app.workspaces.items[w].tabs[t].room_id == room.room_id,
        forall|u: int| 0 <= u < t ==> (#[trigger] app.workspaces.items[w].tabs[u]).room_id != room.room_id,
    ensures
        ({
            let after = app.room_arrived(id, title, room);
            let before = app.workspaces.items[w];
            &&& after.workspaces.focused == app.workspaces.focused
            &&& after.workspaces.items == app.workspaces.items.update(
                w,
                WorkspaceModel { tabs: before.tabs.update(t, described_tab(before.tabs[t], room)), ..before },
            )
            &&& after.tilings == app.tilings
            &&& after.saved_layout == app.saved_layout
        }),
{
    lemma_found(app.workspaces.items, id, w);
    lemma_found_tab(app.workspaces.items[w].tabs, room.room_id, t);
}

proof fn lemma_found(items: Seq<WorkspaceModel>, id: Seq<char>, w: int)
    requires
        0 <= w < items.len(),
        items[w].id == id,
        forall|v: int| 0 <= v < w ==> (#[trigger] items[v]).id != id,
    ensures
        first_where(items, of_space(id)) == Some(w),
{
    let test = of_space(id);
    lemma_first_where(items, test);
    assert(test(items[w]));
    let k = first_where(items, test)->0;
    if k < w {
        assert(test(items[k]));
    }
    if w < k {
        assert(!test(items[w]));
    }
}

proof fn lemma_found_tab(tabs: Seq<TabModel>, room_id: Seq<char>, t: int)
    requires
        0 <= t < tabs.len(),
        tabs[t].room_id == room_id,
        forall|u: int| 0 <= u < t ==> (#[trigger] tabs[u]).room_id != room_id,
    ensures
        first_where(tabs, for_room(room_id)) == Some(t),
{
    let test = for_room(room_id);
    lemma_first_where(tabs, test);
    assert(test(tabs[t]));
    let k = first_where(tabs, test)->0;
    if k < t {
        assert(test(tabs[k]));
    }
    if t < k {
        assert(!test(tabs[t]));
    }
}

/// A room that has no tab gets one, behind those of its workspace, and a tiling: as it was saved,
/// or else with one pane on the room. What was saved of it is used up.
pub proof fn law_a_new_room_gets_a_tab(
    app: AppModel,
    id: Seq<char>,
    title: Seq<char>,
    room: RoomSummaryModel,
    w: int,
)
    requires
        0 <= w < app.workspaces.items.len(),
        app.workspaces.items[w].id == id,
        forall|v: int| 0 <= v < w ==> (#[trigger] app.workspaces.items[v]).id != id,
        forall|u: int|
            0 <= u < app.workspaces.items[w].tabs.len() ==> (#[trigger] app.workspaces.items[w].tabs[u]).room_id
                != room.room_id,
    ensures
        ({
            let after = app.room_arrived(id, title, room);
            let tabs = app.workspaces.items[w].tabs;
            let n = tabs.len() as int;
            &&& after.workspaces.items.len() == app.workspaces.items.len()
            &&& forall|v: int|
                0 <= v < app.workspaces.items.len() && v != w ==> after.workspaces.items[v]
                    == #[trigger] app.workspaces.items[v]
            &&& after.workspaces.items[w].tabs.len() == n + 1
            &&& forall|u: int| 0 <= u < n ==> after.workspaces.items[w].tabs[u] == #[trigger] tabs[u]
            &&& after.tilings.contains_key(room.room_id)
            &&& !after.saved_layout.rooms.contains_key(room.room_id)
            &&& after.layout_dirty
            &&& !app.saved_layout.rooms.contains_key(room.room_id) ==> {
                let tab = after.workspaces.items[w].tabs[n];
                &&& tab.room_id == room.room_id
                &&& tab.title == room.display_name
                &&& tab.unread.notifications == room.notification_count
                &&& tab.unread.highlights == room.highlight_count
                &&& tab.panes.len() == 1
                &&& tab.panes[0].kind is Room
                &&& tab.panes[0].kind->Room_room_id == room.room_id
                &&& tab.focused == 0
            }
        }),
{
    lemma_found(app.workspaces.items, id, w);
    let tabs = app.workspaces.items[w].tabs;
    let test = for_room(room.room_id);
    lemma_first_where(tabs, test);
    if let Some(k) = first_where(tabs, test) {
        assert(test(tabs[k]));
    }
}

/// Rooms are taken one by one, in their order; a space is no room.
pub proof fn law_rooms_are_taken_in_order(app: AppModel, rooms: Seq<RoomSummaryModel>, n: nat)
    requires
        n < rooms.len(),
    ensures
        app.rooms_arrived(rooms, 0) == app,
        rooms[n as int].is_space ==> app.rooms_arrived(rooms, n + 1) == app.rooms_arrived(rooms, n),
        !rooms[n as int].is_space ==> app.rooms_arrived(rooms, n + 1) == app.rooms_arrived(rooms, n).room_arrived(
            workspace_of(rooms[n as int]),
            workspace_title(rooms, rooms[n as int]),
            rooms[n as int],
        ),
{
}

/// Every space has a workspace, and no other room gets one for itself.
pub proof fn law_spaces_have_workspaces(bar: WorkspacesModel, rooms: Seq<RoomSummaryModel>, room: RoomSummaryModel)
    ensures
        with_spaces(bar, Seq::empty()) == bar,
        room.is_space ==> with_spaces(bar, rooms.push(room)) == with_spaces(bar, rooms).with_entry(
            room.room_id,
            room.display_name,
        ),
        !room.is_space ==> with_spaces(bar, rooms.push(room)) == with_spaces(bar, rooms),
{
    assert(rooms.push(room).drop_last() =~= rooms);
}

// -------------------------------------------------------------------------- restoring

/// The workspace that had the focus gets it back once it is there, and then no more; until then it
/// is waited for.
pub proof fn law_the_focus_comes_back(app: AppModel, wanted: Seq<char>, w: int)
    requires
        app.restoring_focus,
        app.saved_layout.workspace == Some(wanted),
        app.workspaces.items.len() <= usize::MAX,
    ensures
        0 <= w < app.workspaces.items.len() && app.workspaces.items[w].id == wanted && (forall|v: int|
            0 <= v < w ==> (#[trigger] app.workspaces.items[v]).id != wanted) ==> app.restore_focus().workspaces.focused
            == w && !app.restore_focus().restoring_focus,
        (forall|v: int| 0 <= v < app.workspaces.items.len() ==> (#[trigger] app.workspaces.items[v]).id != wanted)
            ==> app.restore_focus().workspaces.focused == app.workspaces.focused && app.restore_focus().restoring_focus,
{
    let items = Seq::new(
        app.workspaces.items.len(),
        |i: int| restored_workspace(app.workspaces.items, app.saved_layout.tabs, i),
    );
    let test = of_space(wanted);
    lemma_first_where(items, test);
    assert forall|v: int| 0 <= v < items.len() implies (#[trigger] items[v]).id == app.workspaces.items[v].id by {}
    if 0 <= w < app.workspaces.items.len() && app.workspaces.items[w].id == wanted && (forall|v: int|
        0 <= v < w ==> (#[trigger] app.workspaces.items[v]).id != wanted) {
        assert(items[w].id == wanted);
        assert forall|v: int| 0 <= v < w implies (#[trigger] items[v]).id != wanted by {
            assert(app.workspaces.items[v].id != wanted);
        }
        lemma_found(items, wanted, w);
    }
    if forall|v: int| 0 <= v < app.workspaces.items.len() ==> (#[trigger] app.workspaces.items[v]).id != wanted {
        if let Some(k) = first_where(items, test) {
            assert(test(items[k]));
            assert(app.workspaces.items[k].id != wanted);
        }
    }
}

/// In each workspace the tab that had the focus gets it back where it is there.
pub proof fn law_the_tab_in_front_comes_back(
    items: Seq<WorkspaceModel>,
    tabs: Map<Seq<char>, Seq<char>>,
    w: int,
    t: int,
)
    requires
        0 <= w < items.len(),
        forall|v: int| 0 <= v < w ==> (#[trigger] items[v]).id != items[w].id,
        items[w].tabs.len() <= usize::MAX,
    ensures
        tabs.contains_key(items[w].id) && 0 <= t < items[w].tabs.len() && items[w].tabs[t].room_id
            == tabs[items[w].id] && (forall|u: int|
            0 <= u < t ==> (#[trigger] items[w].tabs[u]).room_id != tabs[items[w].id]) ==> restored_workspace(
            items,
            tabs,
            w,
        ) == (WorkspaceModel { focused: t as usize, ..items[w] }),
        !tabs.contains_key(items[w].id) ==> restored_workspace(items, tabs, w) == items[w],
{
    lemma_found(items, items[w].id, w);
    if tabs.contains_key(items[w].id) && 0 <= t < items[w].tabs.len() && items[w].tabs[t].room_id == tabs[items[w].id]
        && (forall|u: int| 0 <= u < t ==> (#[trigger] items[w].tabs[u]).room_id != tabs[items[w].id]) {
        lemma_found_tab(items[w].tabs, tabs[items[w].id], t);
    }
}

// -------------------------------------------------------------------------- time and borders

/// The arrangement is to be saved once it changed and enough time has passed, and not sooner.
pub proof fn law_a_changed_layout_is_saved_in_time(app: AppModel, early: u64, late: u64)
    requires
        early <= late,
    ensures
        !app.layout_dirty ==> !app.layout_due(late),
        app.layout_due(early) ==> app.layout_due(late),
        app.layout_dirty ==> app.layout_due(u64::MAX),
        !app.layout_due(0),
{
}

/// A border follows the pointer along its axis: as far in as the pointer is from where the split
/// begins, out of how long the split is there.
pub proof fn law_a_border_follows_the_pointer(held: HeldModel, column: u16, row: u16)
    ensures
        held.along_x && column >= held.rect.x ==> border_at(held, column, row) == (
        (column - held.rect.x) as u16, held.rect.width),
        held.along_x && column < held.rect.x ==> border_at(held, column, row) == (0u16, held.rect.width),
        !held.along_x && row >= held.rect.y ==> border_at(held, column, row) == (
        (row - held.rect.y) as u16, held.rect.height),
        !held.along_x && row < held.rect.y ==> border_at(held, column, row) == (0u16, held.rect.height),
{
}

/// Time passes for every session: each lets its prompts run out by the seconds, and none is lost.
pub proof fn law_time_passes_for_every_session(app: AppModel, now_ms: u64, id: Seq<char>)
    ensures
        app.tick(now_ms).agents.contains_key(id) <==> app.agents.contains_key(id),
        app.agents.contains_key(id) ==> app.tick(now_ms).agents[id] == expire(app.agents[id], now_ms / 1000),
        app.tick(now_ms).timelines == app.timelines,
        app.tick(now_ms).composers == app.composers,
        app.typing is None ==> app.tick(now_ms).pending == app.pending,
{
}

/// A click on a pane points at it; while a pane is zoomed, a click anywhere in the area points at
/// that one.
pub proof fn law_a_click_points_at_a_pane(app: AppModel, room: Seq<char>, column: u16, row: u16, r: Option<PaneId>)
    requires
        app.focused_room() == Some(room),
        app.tilings.contains_key(room),
        points_at(app, column, row, r),
    ensures
        app.tilings[room].zoomed is Some ==> (r is Some <==> app.tilings[room].area.holds(column, row)),
        app.tilings[room].zoomed is Some && r is Some ==> r == app.tilings[room].zoomed,
        app.tilings[room].zoomed is None && r is Some ==> exists|i: int|
            0 <= i < app.tilings[room].rects.len() && (#[trigger] app.tilings[room].rects[i]).0 == (r->0).0
                && app.tilings[room].rects[i].1.holds(column, row),
        app.tilings[room].zoomed is None && r is None ==> forall|i: int|
            0 <= i < app.tilings[room].rects.len() ==> !(#[trigger] app.tilings[room].rects[i]).1.holds(column, row),
{
}

/// The intervals: typing is told of again after three seconds and ends after three without a stroke;
/// the arrangement is saved no more often than every other second.
pub proof fn law_the_intervals()
    ensures
        crate::app::state::TYPING_REFRESH_MS == 3_000,
        crate::app::state::TYPING_IDLE_MS == 3_000,
        crate::app::state::input::LAYOUT_FLUSH_MS == 2_000,
{
}

} // verus!
