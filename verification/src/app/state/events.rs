//! What arrives from the worker, folded into the state.

use vstd::prelude::*;
use vstd::string::*;

use crate::agent::store::{fold_store, session_or_start, SessionModel};
use crate::app::config::AgentModel;
use crate::app::state::focus::{lemma_open_focused_keeps, new_pane};
use crate::app::state::badges::lemma_refreshing_keeps_the_focus;
use crate::app::state::{App, AppModel, Modal, ModalModel, RecoveryPanel, RecoveryPanelModel, ThreadPickerModel};
use crate::layout::model::{
    for_room, in_range, of_space, with_id, Pane, PaneId, PaneKind, PaneKindModel, PaneModel, Tab, TabModel, Unread,
    WorkspaceModel, Workspaces, WorkspacesModel, ORPHAN_WORKSPACE,
};
use crate::layout::persist::{lemma_with_saved, restorable, restored_tab, with_saved, LayoutModel, SavedPaneModel};
use crate::layout::tiling::{Rect, Tiling, TilingModel};
use crate::matrix::model as matrix;
use crate::matrix::model::{
    AgentPayload, AgentPayloadModel, Entry, EntryKind, EntryKindModel, EntryModel, MemberSummary, MemberSummaryModel,
    RecoveryState, RoomSummary, RoomSummaryModel, Shield, ThreadSummary, ThreadSummaryModel, Verification,
    VerificationModel, ViewModel, WorkerEvent, WorkerEventModel,
};
use crate::matrix::worker::Dispatch;
use crate::seqs::{first_where, lemma_deep_update, lemma_first, lemma_first_where, lemma_no_first};
use crate::table::lemma_deep;
use crate::text::same;

verus! {

// ------------------------------------------------------------------------------ rooms

/// The bar with a workspace for each space among these rooms.
pub open spec fn with_spaces(bar: WorkspacesModel, rooms: Seq<RoomSummaryModel>) -> WorkspacesModel
    decreases rooms.len(),
{
    if rooms.len() == 0 {
        bar
    } else {
        let rest = with_spaces(bar, rooms.drop_last());
        if rooms.last().is_space {
            rest.with_entry(rooms.last().room_id, rooms.last().display_name)
        } else {
            rest
        }
    }
}

/// The title of the space with an id, by the last of these rooms that is it.
pub open spec fn space_title(rooms: Seq<RoomSummaryModel>, id: Seq<char>) -> Option<Seq<char>>
    decreases rooms.len(),
{
    if rooms.len() == 0 {
        None
    } else if rooms.last().is_space && rooms.last().room_id == id {
        Some(rooms.last().display_name)
    } else {
        space_title(rooms.drop_last(), id)
    }
}

/// The workspace that a room belongs to: its first parent, or the implicit one.
pub open spec fn workspace_of(room: RoomSummaryModel) -> Seq<char> {
    if room.parents.len() > 0 {
        room.parents[0]
    } else {
        ORPHAN_WORKSPACE@
    }
}

/// The title of the workspace that a room belongs to: the space's name; the implicit one is
/// titled with its own marker.
pub open spec fn workspace_title(rooms: Seq<RoomSummaryModel>, room: RoomSummaryModel) -> Seq<char> {
    if workspace_of(room) == ORPHAN_WORKSPACE@ {
        ORPHAN_WORKSPACE@
    } else {
        match space_title(rooms, workspace_of(room)) {
            Some(title) => title,
            None => room.display_name,
        }
    }
}

/// A tab with what the homeserver says of its room.
pub open spec fn described_tab(tab: TabModel, room: RoomSummaryModel) -> TabModel {
    TabModel {
        title: room.display_name,
        is_encrypted: room.is_encrypted,
        unread: Unread { notifications: room.notification_count, highlights: room.highlight_count },
        ..tab
    }
}

/// A tab as it is made for a room.
pub open spec fn new_tab(room: RoomSummaryModel) -> TabModel {
    described_tab(TabModel::fresh(room.room_id, room.display_name), room)
}

/// The pane that a room starts with.
pub open spec fn first_pane(room: RoomSummaryModel) -> PaneModel {
    new_pane(PaneId(0), PaneKindModel::Room { room_id: room.room_id }, room.display_name)
}

/// The tiling that a room starts with: one pane.
pub open spec fn first_tiling() -> TilingModel {
    TilingModel { rects: seq![(0u64, Rect { x: 0, y: 0, width: 0, height: 0 })], ..TilingModel::fresh() }
}

/// The test for a workspace that a saved layout has a tab for, and the tab.
pub open spec fn saved_tab_of(tabs: Map<Seq<char>, Seq<char>>, w: WorkspaceModel) -> Option<int> {
    if tabs.contains_key(w.id) {
        first_where(w.tabs, for_room(tabs[w.id]))
    } else {
        None
    }
}

/// A workspace of the bar with the saved tab in focus. Of several workspaces with one id
/// the first is meant.
pub open spec fn restored_workspace(
    items: Seq<WorkspaceModel>,
    tabs: Map<Seq<char>, Seq<char>>,
    i: int,
) -> WorkspaceModel {
    let w = items[i];
    if first_where(items, of_space(w.id)) == Some(i) {
        match saved_tab_of(tabs, w) {
            Some(t) => WorkspaceModel { focused: t as usize, ..w },
            None => w,
        }
    } else {
        w
    }
}

// ----------------------------------------------------------------------------- agents

/// The agents after one entry of a view was folded in.
pub open spec fn ingest_entry(
    agents: Map<Seq<char>, SessionModel>,
    config: AgentModel,
    root: Option<Seq<char>>,
    entry: EntryModel,
) -> Map<Seq<char>, SessionModel> {
    match entry.kind {
        EntryKindModel::Message(message) => if config.is_agent(message.sender) {
            match message.agent {
                AgentPayloadModel::Structured { event, .. } => fold_store(agents, event),
                AgentPayloadModel::Degraded { .. } => match root {
                    Some(root) => agents.insert(
                        root,
                        SessionModel { degraded: true, ..session_or_start(agents, root) },
                    ),
                    None => agents,
                },
                AgentPayloadModel::Plain => agents,
            }
        } else {
            agents
        },
        _ => agents,
    }
}

/// The agents after these entries of a view were folded in, oldest first.
pub open spec fn ingested(
    agents: Map<Seq<char>, SessionModel>,
    config: AgentModel,
    root: Option<Seq<char>>,
    entries: Seq<EntryModel>,
) -> Map<Seq<char>, SessionModel>
    decreases entries.len(),
{
    if entries.len() == 0 {
        agents
    } else {
        ingest_entry(ingested(agents, config, root, entries.drop_last()), config, root, entries.last())
    }
}

/// The threads that these panes show.
pub open spec fn roots_of(panes: Seq<PaneModel>) -> Seq<Seq<char>>
    decreases panes.len(),
{
    if panes.len() == 0 {
        Seq::empty()
    } else {
        match panes.last().kind.thread_root() {
            Some(root) => roots_of(panes.drop_last()).push(root),
            None => roots_of(panes.drop_last()),
        }
    }
}

/// The threads on show in a room, in these tabs.
pub open spec fn roots_in_tabs(tabs: Seq<TabModel>, room_id: Seq<char>) -> Seq<Seq<char>>
    decreases tabs.len(),
{
    if tabs.len() == 0 {
        Seq::empty()
    } else {
        let rest = roots_in_tabs(tabs.drop_last(), room_id);
        if tabs.last().room_id == room_id {
            rest + roots_of(tabs.last().panes)
        } else {
            rest
        }
    }
}

/// The threads on show in a room, in these workspaces.
pub open spec fn roots_in(items: Seq<WorkspaceModel>, room_id: Seq<char>) -> Seq<Seq<char>>
    decreases items.len(),
{
    if items.len() == 0 {
        Seq::empty()
    } else {
        roots_in(items.drop_last(), room_id) + roots_in_tabs(items.last().tabs, room_id)
    }
}

/// The agents with the typing of these sessions set. Typing makes a session that is not
/// known yet: the point is the window before its first event arrives.
pub open spec fn with_typing(
    agents: Map<Seq<char>, SessionModel>,
    ids: Seq<Seq<char>>,
    typing: bool,
) -> Map<Seq<char>, SessionModel>
    decreases ids.len(),
{
    if ids.len() == 0 {
        agents
    } else {
        let rest = with_typing(agents, ids.drop_last(), typing);
        if typing || rest.contains_key(ids.last()) {
            rest.insert(ids.last(), SessionModel { typing, ..session_or_start(rest, ids.last()) })
        } else {
            rest
        }
    }
}

/// Whether a message among these entries cannot be vouched for.
pub open spec fn suspect(entries: Seq<EntryModel>) -> bool {
    exists|i: int| 0 <= i < entries.len() && warned(#[trigger] entries[i])
}

/// Whether an entry is a message that cannot be vouched for.
pub open spec fn warned(entry: EntryModel) -> bool {
    entry.kind is Message && entry.kind->Message_0.shield is Warning
}

/// Whether some loaded timeline of a room holds a message that cannot be vouched for.
pub open spec fn suspect_room(timelines: Map<ViewModel, Seq<EntryModel>>, room_id: Seq<char>) -> bool {
    exists|view: ViewModel| #[trigger] suspect_view(timelines, room_id, view)
}

/// Whether a view is a loaded timeline of a room that holds such a message.
pub open spec fn suspect_view(
    timelines: Map<ViewModel, Seq<EntryModel>>,
    room_id: Seq<char>,
    view: ViewModel,
) -> bool {
    timelines.contains_key(view) && view.room_id == room_id && suspect(timelines[view])
}

/// Whether one of these users is an agent.
pub open spec fn agent_among(config: AgentModel, users: Seq<Seq<char>>) -> bool {
    exists|i: int| 0 <= i < users.len() && config.is_agent(#[trigger] users[i])
}

impl AppModel {
    /// The client with a tab for a room that has one already described anew.
    pub open spec fn room_described(self, id: Seq<char>, title: Seq<char>, room: RoomSummaryModel) -> AppModel {
        let bar = self.workspaces.with_entry(id, title);
        let at = self.workspaces.entry_index(id);
        let w = bar.items[at];
        let t = first_where(w.tabs, for_room(room.room_id))->0;
        AppModel {
            workspaces: WorkspacesModel {
                items: bar.items.update(
                    at,
                    WorkspaceModel { tabs: w.tabs.update(t, described_tab(w.tabs[t], room)), ..w },
                ),
                ..self.workspaces
            },
            ..self
        }
    }

    /// The client with a tab more.
    pub open spec fn tab_added(
        self,
        id: Seq<char>,
        title: Seq<char>,
        room_id: Seq<char>,
        tab: TabModel,
        tiling: TilingModel,
    ) -> AppModel {
        let bar = self.workspaces.with_entry(id, title);
        let at = self.workspaces.entry_index(id);
        let w = bar.items[at];
        AppModel {
            workspaces: WorkspacesModel {
                items: bar.items.update(at, WorkspaceModel { tabs: w.tabs.push(tab), ..w }),
                ..self.workspaces
            },
            tilings: self.tilings.insert(room_id, tiling),
            layout_dirty: true,
            ..self
        }
    }

    /// The saved arrangement of a room, where it can be used.
    pub open spec fn saved_room(self, room_id: Seq<char>) -> bool {
        self.saved_layout.rooms.contains_key(room_id) && restorable(self.saved_layout.rooms[room_id])
    }

    /// The client with the saved arrangement of a room used up.
    pub open spec fn room_taken(self, room_id: Seq<char>) -> AppModel {
        AppModel {
            saved_layout: LayoutModel { rooms: self.saved_layout.rooms.remove(room_id), ..self.saved_layout },
            ..self
        }
    }

    /// The client with a tab for a room. A room the user had arranged comes back arranged;
    /// any other starts with one pane on its main timeline.
    pub open spec fn room_arrived(self, id: Seq<char>, title: Seq<char>, room: RoomSummaryModel) -> AppModel {
        let at = self.workspaces.entry_index(id);
        let w = self.workspaces.with_entry(id, title).items[at];
        if first_where(w.tabs, for_room(room.room_id)) is Some {
            self.room_described(id, title, room)
        } else if self.saved_room(room.room_id) {
            let saved = self.saved_layout.rooms[room.room_id];
            self.room_taken(room.room_id).tab_added(
                id,
                title,
                room.room_id,
                restored_tab(new_tab(room), saved),
                saved.tiling.restored(),
            )
        } else {
            self.room_taken(room.room_id).tab_added(
                id,
                title,
                room.room_id,
                new_tab(room).push_pane(first_pane(room)),
                first_tiling(),
            )
        }
    }

    /// The client with a tab for each of the first `n` of these rooms that is no space.
    pub open spec fn rooms_arrived(self, rooms: Seq<RoomSummaryModel>, n: nat) -> AppModel
        decreases n,
    {
        if n == 0 {
            self
        } else {
            let rest = self.rooms_arrived(rooms, (n - 1) as nat);
            let room = rooms[n - 1];
            if room.is_space {
                rest
            } else {
                rest.room_arrived(workspace_of(room), workspace_title(rooms, room), room)
            }
        }
    }

    /// The user put back where they left off, as far as the rooms to do it with exist. Done
    /// once the workspace they were in is there.
    pub open spec fn restore_focus(self) -> AppModel {
        if !self.restoring_focus {
            self
        } else {
            let bar = WorkspacesModel {
                items: Seq::new(
                    self.workspaces.items.len(),
                    |i: int| restored_workspace(self.workspaces.items, self.saved_layout.tabs, i),
                ),
                ..self.workspaces
            };
            let tabbed = AppModel { workspaces: bar, ..self };
            match self.saved_layout.workspace {
                Some(wanted) => match first_where(bar.items, of_space(wanted)) {
                    Some(i) => AppModel {
                        workspaces: WorkspacesModel { focused: i as usize, ..bar },
                        restoring_focus: false,
                        needs_redraw: true,
                        ..tabbed
                    },
                    None => tabbed,
                },
                None => tabbed,
            }
        }
    }

    /// The room list arrived: spaces are workspaces, and everything else is a tab.
    #[verifier::opaque]
    pub open spec fn apply_rooms(self, rooms: Seq<RoomSummaryModel>) -> AppModel {
        AppModel { workspaces: with_spaces(self.workspaces, rooms), ..self }.rooms_arrived(
            rooms,
            rooms.len(),
        ).restore_focus()
    }

    /// A view's agent events folded in.
    pub open spec fn ingest_agent_events(self, view: ViewModel, entries: Seq<EntryModel>) -> AppModel {
        AppModel {
            agents: ingested(self.agents, self.config.agent, view.thread_root, entries),
            ..self
        }.refresh_pane_states()
    }

    /// A view's timeline arrived. Whatever a request for more achieved, it is no longer in
    /// flight; and a room is as suspect as the messages that are loaded of it.
    #[verifier::opaque]
    pub open spec fn timeline_arrived(self, view: ViewModel, entries: Seq<EntryModel>) -> AppModel {
        let read = AppModel { paginating: self.paginating.remove(view), ..self }.ingest_agent_events(view, entries);
        let timelines = read.timelines.insert(view, entries);
        AppModel {
            unverified_rooms: if suspect_room(timelines, view.room_id) {
                read.unverified_rooms.insert(view.room_id)
            } else {
                read.unverified_rooms.remove(view.room_id)
            },
            timelines,
            ..read
        }
    }

    /// Some users are typing in a room. An agent typing means that its session is working,
    /// before its first word arrives too.
    #[verifier::opaque]
    pub open spec fn typing_arrived(self, room_id: Seq<char>, users: Seq<Seq<char>>) -> AppModel {
        AppModel {
            agents: with_typing(
                self.agents,
                roots_in(self.workspaces.items, room_id),
                agent_among(self.config.agent, users),
            ),
            ..self
        }.refresh_pane_states()
    }

    /// A verification changed. A finished one reports itself in the status line and gets out
    /// of the way; any other takes over whatever was on screen.
    #[verifier::opaque]
    pub open spec fn verification_arrived(self, state: VerificationModel) -> AppModel {
        match state {
            VerificationModel::Done => AppModel {
                status: Some("device verified"@),
                device_verified: Some(true),
                modal: None,
                needs_redraw: true,
                ..self
            },
            VerificationModel::Cancelled { reason } => AppModel {
                status: Some("verification cancelled: "@ + reason),
                modal: None,
                needs_redraw: true,
                ..self
            },
            _ => self.open_modal(ModalModel::Verification(state)),
        }
    }

    /// Whether the recovery panel is waiting for the key it sent to work.
    pub open spec fn unlocking(self) -> bool {
        match self.modal {
            Some(ModalModel::Recovery(RecoveryPanelModel::AskKey { submitted, .. })) => submitted,
            _ => false,
        }
    }

    /// The account's recovery changed. A panel that was waiting for it closes.
    #[verifier::opaque]
    pub open spec fn recovery_arrived(self, state: RecoveryState) -> AppModel {
        let known = AppModel { recovery: state, ..self };
        if state == RecoveryState::Enabled && self.unlocking() {
            AppModel {
                status: Some("recovery unlocked; older messages will decrypt"@),
                needs_redraw: true,
                ..known.close_overlay()
            }
        } else {
            known
        }
    }

    /// The threads of a room arrived. A late answer for a picker that was closed or reopened
    /// elsewhere is passed over.
    #[verifier::opaque]
    pub open spec fn threads_arrived(self, room_id: Seq<char>, threads: Seq<ThreadSummaryModel>) -> AppModel {
        match self.modal {
            Some(ModalModel::Threads(picker)) => if picker.room_id == room_id {
                self.open_modal(
                    ModalModel::Threads(ThreadPickerModel { threads, selected: 0, loading: false, ..picker }),
                )
            } else {
                self
            },
            _ => self,
        }
    }

    /// The members of a room arrived.
    #[verifier::opaque]
    pub open spec fn members_arrived(self, room_id: Seq<char>, members: Seq<MemberSummaryModel>) -> AppModel {
        AppModel { members: self.members.insert(room_id, members), ..self }.refilter_mentions()
    }

    /// A recovery key did not work: the panel asks again, and says why.
    #[verifier::opaque]
    pub open spec fn recovery_failed(self, reason: Seq<char>) -> AppModel {
        self.open_modal(
            ModalModel::Recovery(
                RecoveryPanelModel::AskKey { key: Seq::empty(), submitted: false, error: Some(reason) },
            ),
        ).says("recovery failed: "@ + reason)
    }

    /// A command was handed to the worker. One that was dropped is worth saying; a worker that
    /// stopped ends the client.
    pub open spec fn dispatched(self, outcome: Dispatch) -> AppModel {
        match outcome {
            Dispatch::Queued => self,
            Dispatch::Dropped => self.says("the worker is behind; a command was dropped"@),
            Dispatch::Stopped => AppModel { should_quit: true, ..self.says("worker stopped"@) },
        }
    }

    /// Something arrived from the worker about the account: its devices and its secrets.
    #[verifier::opaque]
    pub open spec fn account_event(self, event: WorkerEventModel) -> AppModel {
        match event {
            WorkerEventModel::Verification(state) => self.verification_arrived(state),
            WorkerEventModel::Recovery(state) => self.recovery_arrived(state),
            WorkerEventModel::RecoveryFailed(reason) => self.recovery_failed(reason),
            WorkerEventModel::RecoveryKeyCreated(key) => AppModel {
                needs_redraw: true,
                ..self.open_modal(ModalModel::Recovery(RecoveryPanelModel::ShowKey { key }))
            },
            WorkerEventModel::DeviceVerified(verified) => if verified is Some {
                AppModel { device_verified: verified, ..self }
            } else {
                self
            },
            _ => self,
        }
    }

    /// Something arrived from the worker.
    pub open spec fn apply_worker_event(self, event: WorkerEventModel) -> AppModel {
        match event {
            WorkerEventModel::SyncState(state) => AppModel { sync: state, ..self },
            WorkerEventModel::Rooms(rooms) => self.apply_rooms(rooms).open_focused_view(),
            WorkerEventModel::Timeline { view, entries } => self.timeline_arrived(view, entries),
            WorkerEventModel::Typing { room_id, users } => self.typing_arrived(room_id, users),
            WorkerEventModel::Threads { room_id, threads } => self.threads_arrived(room_id, threads),
            WorkerEventModel::Members { room_id, members } => self.members_arrived(room_id, members),
            WorkerEventModel::Warning(text) => self.says(text),
            WorkerEventModel::Fatal(text) => AppModel { should_quit: true, ..self.says("fatal: "@ + text) },
            _ => self.account_event(event),
        }
    }
}

// ------------------------------------------------------------------- what is kept

proof fn lemma_entry(bar: WorkspacesModel, id: Seq<char>, title: Seq<char>)
    ensures
        0 <= bar.entry_index(id) < bar.with_entry(id, title).items.len(),
        bar.with_entry(id, title).items.update(
            bar.entry_index(id),
            bar.with_entry(id, title).items[bar.entry_index(id)],
        ) == bar.with_entry(id, title).items,
        bar.wf() ==> bar.with_entry(id, title).wf(),
        bar.wf() ==> bar.with_entry(id, title).items[bar.entry_index(id)].wf(),
{
    lemma_first_where(bar.items, of_space(id));
    let made = bar.with_entry(id, title);
    let at = bar.entry_index(id);
    assert(made.items.update(at, made.items[at]) =~= made.items);
    if bar.wf() {
        assert forall|i: int| 0 <= i < made.items.len() implies (#[trigger] made.items[i]).wf() by {
            if i < bar.items.len() {
                assert(bar.items[i].wf());
            }
        }
        assert(made.items[at].wf());
    }
}

proof fn lemma_item_wf(bar: WorkspacesModel, focused: usize, at: int, w: WorkspaceModel)
    requires
        bar.wf(),
        in_range(focused, bar.items.len()),
        0 <= at < bar.items.len(),
        w.wf(),
    ensures
        (WorkspacesModel { items: bar.items.update(at, w), focused }).wf(),
{
    let items = bar.items.update(at, w);
    assert forall|i: int| 0 <= i < items.len() implies (#[trigger] items[i]).wf() by {
        if i != at {
            assert(bar.items[i].wf());
        }
    }
}

proof fn lemma_described_wf(app: AppModel, id: Seq<char>, title: Seq<char>, room: RoomSummaryModel)
    requires
        first_where(
            app.workspaces.with_entry(id, title).items[app.workspaces.entry_index(id)].tabs,
            for_room(room.room_id),
        ) is Some,
    ensures
        app.wf() ==> app.room_described(id, title, room).wf(),
{
    let bar = app.workspaces.with_entry(id, title);
    let at = app.workspaces.entry_index(id);
    lemma_entry(app.workspaces, id, title);
    let w = bar.items[at];
    lemma_first_where(w.tabs, for_room(room.room_id));
    let t = first_where(w.tabs, for_room(room.room_id))->0;
    if app.wf() {
        let tabs = w.tabs.update(t, described_tab(w.tabs[t], room));
        assert(w.tabs[t].wf());
        assert forall|j: int| 0 <= j < tabs.len() implies (#[trigger] tabs[j]).wf() by {
            if j != t {
                assert(w.tabs[j].wf());
            }
        }
        let described = WorkspaceModel { tabs, ..w };
        assert(described.wf());
        assert(in_range(app.workspaces.focused, bar.items.len()));
        lemma_item_wf(bar, app.workspaces.focused, at, described);
    }
}

proof fn lemma_added_wf(
    app: AppModel,
    id: Seq<char>,
    title: Seq<char>,
    room_id: Seq<char>,
    tab: TabModel,
    tiling: TilingModel,
)
    requires
        tab.wf(),
    ensures
        app.wf() ==> app.tab_added(id, title, room_id, tab, tiling).wf(),
{
    let bar = app.workspaces.with_entry(id, title);
    let at = app.workspaces.entry_index(id);
    lemma_entry(app.workspaces, id, title);
    let w = bar.items[at];
    if app.wf() {
        let tabs = w.tabs.push(tab);
        assert forall|j: int| 0 <= j < tabs.len() implies (#[trigger] tabs[j]).wf() by {
            if j < w.tabs.len() {
                assert(w.tabs[j].wf());
            }
        }
        let added = WorkspaceModel { tabs, ..w };
        assert(added.wf());
        assert(in_range(app.workspaces.focused, bar.items.len()));
        lemma_item_wf(bar, app.workspaces.focused, at, added);
    }
}

proof fn lemma_saved_wf(tab: TabModel, panes: Seq<SavedPaneModel>, id: PaneId)
    requires
        tab.wf(),
        tab.panes.len() + panes.len() <= usize::MAX,
    ensures
        with_saved(tab, panes).wf(),
        with_saved(tab, panes).focus(id).wf(),
    decreases panes.len(),
{
    if panes.len() > 0 {
        lemma_saved_wf(tab, panes.drop_last(), id);
        lemma_with_saved(tab, panes.drop_last());
    }
    lemma_first_where(with_saved(tab, panes).panes, with_id(id));
}

/// The rooms arriving keep every focus in range.
proof fn lemma_restore_wf(app: AppModel)
    requires
        app.workspaces.items.len() <= usize::MAX,
        forall|i: int| 0 <= i < app.workspaces.items.len() ==> (#[trigger] app.workspaces.items[i]).tabs.len() <= usize::MAX,
    ensures
        app.wf() ==> app.restore_focus().wf(),
{
    if app.wf() && app.restoring_focus {
        let items = app.workspaces.items;
        let tabs = app.saved_layout.tabs;
        let restored = Seq::new(items.len(), |i: int| restored_workspace(items, tabs, i));
        assert forall|i: int| 0 <= i < restored.len() implies (#[trigger] restored[i]).wf() by {
            assert(items[i].wf());
            assert(items[i].tabs.len() <= usize::MAX);
            if tabs.contains_key(items[i].id) {
                lemma_first_where(items[i].tabs, for_room(tabs[items[i].id]));
            }
            assert forall|j: int| 0 <= j < restored[i].tabs.len() implies (#[trigger] restored[i].tabs[j]).wf() by {
                assert(items[i].tabs[j].wf());
            }
        }
        if let Some(wanted) = app.saved_layout.workspace {
            lemma_first_where(restored, of_space(wanted));
        }
    }
}

// ---------------------------------------------------------------------- carrying it out

fn find_title<'a>(rooms: &'a Vec<RoomSummary>, id: &str) -> (r: Option<&'a str>)
    ensures
        match r {
            Some(title) => space_title(rooms.deep_view(), id@) == Some(title@),
            None => space_title(rooms.deep_view(), id@) is None,
        },
{
    let ghost all = rooms.deep_view();
    let mut n = rooms.len();
    assert(all.take(n as int) =~= all);
    while n > 0
        invariant
            n <= rooms.len(),
            all == rooms.deep_view(),
            space_title(all.take(n as int), id@) == space_title(all, id@),
        decreases n,
    {
        proof {
            assert(all.take(n as int).drop_last() =~= all.take(n - 1));
            assert(all.take(n as int).last() == rooms@[n - 1]@);
        }
        n -= 1;
        if rooms[n].is_space && same(rooms[n].room_id.as_str(), id) {
            return Some(rooms[n].display_name.as_str());
        }
    }
    None
}

fn home_of(room: &RoomSummary) -> (r: &str)
    ensures
        r@ == workspace_of(room@),
{
    if room.parents.len() > 0 {
        assert(room@.parents[0] == room.parents@[0]@);
        room.parents[0].as_str()
    } else {
        ORPHAN_WORKSPACE
    }
}

fn home_title<'a>(rooms: &'a Vec<RoomSummary>, room: &'a RoomSummary) -> (r: &'a str)
    ensures
        r@ == workspace_title(rooms.deep_view(), room@),
{
    let home = home_of(room);
    if same(home, ORPHAN_WORKSPACE) {
        ORPHAN_WORKSPACE
    } else {
        match find_title(rooms, home) {
            Some(title) => title,
            None => room.display_name.as_str(),
        }
    }
}

fn describe_tab(tab: &mut Tab, room: &RoomSummary)
    ensures
        final(tab)@ == described_tab(old(tab)@, room@),
{
    tab.title = room.display_name.clone();
    tab.is_encrypted = room.is_encrypted;
    tab.unread = Unread::new(room.notification_count, room.highlight_count);
}

fn has_warning(entries: &Vec<Entry>) -> (r: bool)
    ensures
        r == suspect(entries.deep_view()),
{
    let ghost all = entries.deep_view();
    let mut i: usize = 0;
    while i < entries.len()
        invariant
            i <= entries.len(),
            all == entries.deep_view(),
            forall|j: int| 0 <= j < i ==> !warned(#[trigger] all[j]),
        decreases entries.len() - i,
    {
        assert(all[i as int] == entries@[i as int]@);
        if let EntryKind::Message(message) = &entries[i].kind {
            if let Shield::Warning(_) = message.shield {
                assert(warned(all[i as int]));
                return true;
            }
        }
        i += 1;
    }
    false
}

fn push_roots(panes: &Vec<Pane>, out: &mut Vec<String>)
    ensures
        final(out).deep_view() == old(out).deep_view() + roots_of(panes.deep_view()),
{
    let ghost before = out.deep_view();
    let ghost all = panes.deep_view();
    let mut i: usize = 0;
    assert(before + roots_of(all.take(0)) =~= before);
    while i < panes.len()
        invariant
            i <= panes.len(),
            all == panes.deep_view(),
            out.deep_view() == before + roots_of(all.take(i as int)),
        decreases panes.len() - i,
    {
        let ghost so_far = out.deep_view();
        proof {
            assert(all.take(i + 1).drop_last() =~= all.take(i as int));
            assert(all.take(i + 1).last() == panes@[i as int]@);
        }
        if let Some(root) = panes[i].kind.thread_root() {
            out.push(root.to_owned());
            assert(out.deep_view() =~= so_far.push(root@));
            assert(out.deep_view() =~= before + roots_of(all.take(i + 1)));
        }
        i += 1;
    }
    assert(all.take(all.len() as int) =~= all);
}

fn push_tab_roots(tabs: &Vec<Tab>, room_id: &str, out: &mut Vec<String>)
    ensures
        final(out).deep_view() == old(out).deep_view() + roots_in_tabs(tabs.deep_view(), room_id@),
{
    let ghost before = out.deep_view();
    let ghost all = tabs.deep_view();
    let mut i: usize = 0;
    assert(before + roots_in_tabs(all.take(0), room_id@) =~= before);
    while i < tabs.len()
        invariant
            i <= tabs.len(),
            all == tabs.deep_view(),
            out.deep_view() == before + roots_in_tabs(all.take(i as int), room_id@),
        decreases tabs.len() - i,
    {
        proof {
            assert(all.take(i + 1).drop_last() =~= all.take(i as int));
            assert(all.take(i + 1).last() == tabs@[i as int]@);
        }
        if same(tabs[i].room_id.as_str(), room_id) {
            push_roots(&tabs[i].panes, out);
            assert(out.deep_view() =~= before + roots_in_tabs(all.take(i + 1), room_id@));
        }
        i += 1;
    }
    assert(all.take(all.len() as int) =~= all);
}

impl App {
    /// The sessions on show in a room.
    pub fn session_ids_for_room(&self, room_id: &str) -> (r: Vec<String>)
        ensures
            r.deep_view() == roots_in(self@.workspaces.items, room_id@),
    {
        let ghost all = self@.workspaces.items;
        let mut out: Vec<String> = Vec::new();
        let mut i: usize = 0;
        assert(out.deep_view() =~= roots_in(all.take(0), room_id@));
        while i < self.workspaces.items.len()
            invariant
                i <= self.workspaces.items.len(),
                all == self@.workspaces.items,
                out.deep_view() == roots_in(all.take(i as int), room_id@),
            decreases self.workspaces.items.len() - i,
        {
            proof {
                assert(all.take(i + 1).drop_last() =~= all.take(i as int));
                assert(all.take(i + 1).last() == self.workspaces.items@[i as int]@);
            }
            push_tab_roots(&self.workspaces.items[i].tabs, room_id, &mut out);
            i += 1;
        }
        assert(all.take(all.len() as int) =~= all);
        out
    }

    fn typing_arrived(&mut self, room_id: &str, users: &Vec<String>)
        ensures
            final(self)@ == old(self)@.typing_arrived(room_id@, users.deep_view()),
            old(self)@.wf() ==> final(self)@.wf(),
    {
        proof {
            reveal(AppModel::typing_arrived);
        }
        let ghost before = self@;
        let mut typing = false;
        let mut u: usize = 0;
        while u < users.len() && !typing
            invariant
                u <= users.len(),
                typing ==> agent_among(self@.config.agent, users.deep_view()),
                !typing ==> forall|j: int|
                    0 <= j < u ==> !self@.config.agent.is_agent(#[trigger] users.deep_view()[j]),
            decreases users.len() - u,
        {
            assert(users.deep_view()[u as int] == users@[u as int]@);
            typing = self.config.agent.is_agent(users[u].as_str());
            u += 1;
        }
        assert(typing == agent_among(before.config.agent, users.deep_view()));
        let sessions = self.session_ids_for_room(room_id);
        let ghost all = sessions.deep_view();
        let mut i: usize = 0;
        assert(all.take(0) =~= Seq::<Seq<char>>::empty());
        while i < sessions.len()
            invariant
                i <= sessions.len(),
                all == sessions.deep_view(),
                self@ == (AppModel { agents: with_typing(before.agents, all.take(i as int), typing), ..before }),
            decreases sessions.len() - i,
        {
            proof {
                assert(all.take(i + 1).drop_last() =~= all.take(i as int));
                assert(all.take(i + 1).last() == sessions@[i as int]@);
            }
            self.agents.set_typing(sessions[i].as_str(), typing);
            i += 1;
        }
        assert(all.take(all.len() as int) =~= all);
        proof {
            lemma_refreshing_keeps_the_focus(self@);
        }
        self.refresh_pane_states();
    }

    /// Fold a view's agent events into the store.
    pub fn ingest_agent_events(&mut self, view: &matrix::View, entries: &Vec<Entry>)
        ensures
            final(self)@ == old(self)@.ingest_agent_events(view@, entries.deep_view()),
            old(self)@.wf() ==> final(self)@.wf(),
    {
        let ghost before = self@;
        let ghost all = entries.deep_view();
        let mut i: usize = 0;
        while i < entries.len()
            invariant
                i <= entries.len(),
                all == entries.deep_view(),
                self@ == (AppModel {
                    agents: ingested(before.agents, before.config.agent, view@.thread_root, all.take(i as int)),
                    ..before
                }),
            decreases entries.len() - i,
        {
            proof {
                assert(all.take(i + 1).drop_last() =~= all.take(i as int));
                assert(all.take(i + 1).last() == entries@[i as int]@);
            }
            if let EntryKind::Message(message) = &entries[i].kind {
                if self.config.agent.is_agent(message.sender.as_str()) {
                    match &message.agent {
                        AgentPayload::Structured { event, .. } => self.agents.apply(event),
                        AgentPayload::Degraded { .. } => {
                            if let Some(root) = &view.thread_root {
                                self.agents.mark_degraded(root.as_str());
                            }
                        },
                        AgentPayload::Plain => {},
                    }
                }
            }
            i += 1;
        }
        assert(all.take(all.len() as int) =~= all);
        proof {
            lemma_refreshing_keeps_the_focus(self@);
        }
        self.refresh_pane_states();
    }

    fn timeline_arrived(&mut self, view: matrix::View, entries: Vec<Entry>)
        ensures
            final(self)@ == old(self)@.timeline_arrived(view@, entries.deep_view()),
            old(self)@.wf() ==> final(self)@.wf(),
    {
        proof {
            reveal(AppModel::timeline_arrived);
        }
        self.paginating.remove(&view);
        self.ingest_agent_events(&view, &entries);
        let room_id = view.room_id.clone();
        proof {
            lemma_deep(self.timelines@, view@);
        }
        self.timelines.insert(view, entries);
        // A room-level shield, drawn from evidence rather than from a roster: what the user
        // needs to know is that this room contains messages that cannot be vouched for.
        if self.is_suspect(room_id.as_str()) {
            self.unverified_rooms.insert(room_id, ());
        } else {
            self.unverified_rooms.remove(room_id.as_str());
        }
    }

    fn is_suspect(&self, room_id: &str) -> (r: bool)
        ensures
            r == suspect_room(self@.timelines, room_id@),
    {
        let n = self.timelines.len();
        let ghost order = self.timelines.order();
        let ghost all = self@.timelines;
        let mut i: usize = 0;
        while i < n
            invariant
                i <= n,
                order == self.timelines.order(),
                order.len() == n,
                order.to_set() == self.timelines@.dom(),
                all == self@.timelines,
                forall|j: int| 0 <= j < i ==> !suspect_view(all, room_id@, #[trigger] order[j]),
            decreases n - i,
        {
            let (view, entries) = self.timelines.at(i);
            proof {
                assert(order.to_set().contains(order[i as int]));
                lemma_deep(self.timelines@, order[i as int]);
                assert(all[order[i as int]] == entries.deep_view());
            }
            if same(view.room_id.as_str(), room_id) && has_warning(entries) {
                assert(suspect_view(all, room_id@, order[i as int]));
                return true;
            }
            i += 1;
        }
        proof {
            assert forall|view: ViewModel| !suspect_view(all, room_id@, view) by {
                if all.contains_key(view) {
                    lemma_deep(self.timelines@, view);
                    assert(order.to_set().contains(view));
                    let j = order.index_of(view);
                    assert(order[j] == view);
                }
            }
        }
        false
    }

    fn describe_room(&mut self, id: &str, title: &str, room: &RoomSummary)
        requires
            first_where(
                old(self)@.workspaces.with_entry(id@, title@).items[old(self)@.workspaces.entry_index(id@)].tabs,
                for_room(room@.room_id),
            ) is Some,
        ensures
            final(self)@ == old(self)@.room_described(id@, title@, room@),
            old(self)@.wf() ==> final(self)@.wf(),
    {
        proof {
            lemma_described_wf(self@, id@, title@, room@);
        }
        let w = self.workspaces.entry(id, title);
        if let Some(tab) = w.tab_for_room_mut(room.room_id.as_str()) {
            describe_tab(tab, room);
        }
    }

    /// The tab and the tiling that a room starts with, its saved arrangement used up.
    fn arrange(&mut self, room: &RoomSummary) -> (r: (Tab, Tiling))
        ensures
            final(self)@ == old(self)@.room_taken(room@.room_id),
            r.0@.wf(),
            if old(self)@.saved_room(room@.room_id) {
                let saved = old(self)@.saved_layout.rooms[room@.room_id];
                r.0@ == restored_tab(new_tab(room@), saved) && r.1@ == saved.tiling.restored()
            } else {
                r.0@ == new_tab(room@).push_pane(first_pane(room@)) && r.1@ == first_tiling()
            },
    {
        let ghost before = self@;
        let mut tab = Tab::new(room.room_id.as_str(), room.display_name.as_str());
        describe_tab(&mut tab, room);
        match self.saved_layout.take_room(room.room_id.as_str(), &mut tab) {
            Some(tiling) => {
                let n = tab.panes.len();
                proof {
                    let saved = before.saved_layout.rooms[room@.room_id];
                    let id = PaneId(saved.tiling.restored().focus);
                    lemma_with_saved(new_tab(room@), saved.panes);
                    lemma_focus_keeps_panes(with_saved(new_tab(room@), saved.panes), id);
                    lemma_saved_wf(new_tab(room@), saved.panes, id);
                }
                (tab, tiling)
            },
            None => {
                // No saved arrangement, or one that disagrees with itself.
                let mut tiling = Tiling::new();
                let root = tiling.layout(Rect::new(0, 0, 0, 0));
                assert(tiling@ =~= first_tiling());
                assert(root@ =~= tiling@.placements());
                if root.len() > 0 {
                    let kind = PaneKind::Room { room_id: room.room_id.clone() };
                    tab.push_pane(Pane::new(root[0].id, kind, room.display_name.as_str()));
                }
                (tab, tiling)
            },
        }
    }

    fn add_tab(&mut self, id: &str, title: &str, room_id: &str, tab: Tab, tiling: Tiling)
        requires
            tab@.wf(),
        ensures
            final(self)@ == old(self)@.tab_added(id@, title@, room_id@, tab@, tiling@),
            old(self)@.wf() ==> final(self)@.wf(),
    {
        proof {
            lemma_deep(self.tilings@, room_id@);
            lemma_added_wf(self@, id@, title@, room_id@, tab@, tiling@);
        }
        self.tilings.insert(room_id.to_owned(), tiling);
        push_tab(&mut self.workspaces, id, title, tab);
        self.layout_dirty = true;
    }

    fn knows(&self, id: &str, title: &str, room_id: &str) -> (r: bool)
        ensures
            r == first_where(
                self@.workspaces.with_entry(id@, title@).items[self@.workspaces.entry_index(id@)].tabs,
                for_room(room_id@),
            ) is Some,
    {
        proof {
            lemma_entry(self@.workspaces, id@, title@);
        }
        match self.workspaces.position(id) {
            Some(at) => {
                assert(self@.workspaces.items[at as int] == self.workspaces.items@[at as int]@);
                self.workspaces.items[at].position(room_id).is_some()
            },
            None => {
                proof {
                    lemma_no_first(Seq::<TabModel>::empty(), for_room(room_id@));
                }
                false
            },
        }
    }

    fn room_arrived(&mut self, id: &str, title: &str, room: &RoomSummary)
        ensures
            final(self)@ == old(self)@.room_arrived(id@, title@, room@),
            old(self)@.wf() ==> final(self)@.wf(),
    {
        if self.knows(id, title, room.room_id.as_str()) {
            self.describe_room(id, title, room);
        } else {
            let (tab, tiling) = self.arrange(room);
            self.add_tab(id, title, room.room_id.as_str(), tab, tiling);
        }
    }

    /// Put the user back where they left off, once the rooms to do it with exist.
    ///
    /// Attempted after every room batch, because sync delivers rooms over several responses
    /// and the workspace someone was last in is rarely in the first one. It stops at the
    /// first user-driven focus change: a client that yanks the view away half a second after
    /// launch is worse than one that simply starts where it starts.
    pub fn restore_focus(&mut self)
        ensures
            final(self)@ == old(self)@.restore_focus(),
            old(self)@.wf() ==> final(self)@.wf(),
    {
        let ghost before = self@;
        if !self.restoring_focus {
            return ;
        }
        let ghost items = before.workspaces.items;
        let ghost tabs = before.saved_layout.tabs;
        let ghost restored = Seq::new(items.len(), |i: int| restored_workspace(items, tabs, i));
        // Tabs first, so that focusing the saved workspace lands on the saved room in one
        // step.
        let mut i: usize = 0;
        while i < self.workspaces.items.len()
            invariant
                i <= self.workspaces.items.len() == items.len(),
                items == before.workspaces.items,
                tabs == before.saved_layout.tabs,
                restored == Seq::new(items.len(), |i: int| restored_workspace(items, tabs, i)),
                self@ == (AppModel {
                    workspaces: (WorkspacesModel { items: self@.workspaces.items, ..before.workspaces }),
                    ..before
                }),
                forall|j: int| 0 <= j < i ==> #[trigger] self@.workspaces.items[j] == restored[j],
                forall|j: int| i <= j < items.len() ==> #[trigger] self@.workspaces.items[j] == items[j],
                forall|j: int| 0 <= j < i ==> (#[trigger] items[j]).tabs.len() <= usize::MAX,
            decreases self.workspaces.items.len() - i,
        {
            let ghost now = self@.workspaces.items;
            let n = self.workspaces.items[i].tabs.len();
            assert(now[i as int] == items[i as int]);
            let first = match self.workspaces.position(self.workspaces.items[i].id.as_str()) {
                Some(k) => k == i,
                None => false,
            };
            proof {
                lemma_same_firsts(items, now, items[i as int].id);
                lemma_deep(self.saved_layout.tabs@, items[i as int].id);
            }
            if first {
                let found = match self.saved_layout.tabs.get(self.workspaces.items[i].id.as_str()) {
                    Some(room_id) => self.workspaces.items[i].position(room_id.as_str()),
                    None => None,
                };
                if let Some(t) = found {
                    proof {
                        lemma_deep_update(self.workspaces.items, i as int);
                    }
                    self.workspaces.items[i].focused = t;
                    assert(self@.workspaces.items == now.update(i as int, restored[i as int]));
                }
            }
            i += 1;
        }
        assert(self@.workspaces.items =~= restored);
        proof {
            lemma_restore_wf(before);
        }
        let index = match &self.saved_layout.workspace {
            Some(wanted) => self.workspaces.position(wanted.as_str()),
            None => None,
        };
        if let Some(index) = index {
            self.workspaces.focused = index;
            self.restoring_focus = false;
            self.needs_redraw = true;
        }
    }

    /// The room list: spaces become workspaces, everything else becomes a tab, and rooms with
    /// no parent space collect in the implicit workspace.
    pub fn apply_rooms(&mut self, rooms: Vec<RoomSummary>)
        ensures
            final(self)@ == old(self)@.apply_rooms(rooms.deep_view()),
            old(self)@.wf() ==> final(self)@.wf(),
    {
        proof {
            reveal(AppModel::apply_rooms);
        }
        let ghost before = self@;
        let ghost all = rooms.deep_view();
        let mut i: usize = 0;
        while i < rooms.len()
            invariant
                i <= rooms.len(),
                all == rooms.deep_view(),
                self@ == (AppModel { workspaces: with_spaces(before.workspaces, all.take(i as int)), ..before }),
                before.wf() ==> self@.wf(),
            decreases rooms.len() - i,
        {
            proof {
                assert(all.take(i + 1).drop_last() =~= all.take(i as int));
                assert(all.take(i + 1).last() == rooms@[i as int]@);
            }
            if rooms[i].is_space {
                proof {
                    lemma_entry(self@.workspaces, rooms@[i as int]@.room_id, rooms@[i as int]@.display_name);
                }
                add_entry(&mut self.workspaces, rooms[i].room_id.as_str(), rooms[i].display_name.as_str());
            }
            i += 1;
        }
        assert(all.take(all.len() as int) =~= all);
        let ghost spaced = self@;
        let mut k: usize = 0;
        while k < rooms.len()
            invariant
                k <= rooms.len(),
                all == rooms.deep_view(),
                self@ == spaced.rooms_arrived(all, k as nat),
                before.wf() ==> self@.wf(),
            decreases rooms.len() - k,
        {
            assert(all[k as int] == rooms@[k as int]@);
            if !rooms[k].is_space {
                self.room_arrived(home_of(&rooms[k]), home_title(&rooms, &rooms[k]), &rooms[k]);
            }
            k += 1;
        }
        self.restore_focus();
    }

    fn verification_arrived(&mut self, state: Verification)
        ensures
            final(self)@ == old(self)@.verification_arrived(state@),
            final(self)@.workspaces == old(self)@.workspaces,
    {
        proof {
            reveal(AppModel::verification_arrived);
        }
        match state {
            Verification::Done => {
                self.say("device verified");
                self.device_verified = Some(true);
                self.close_modal();
                self.needs_redraw = true;
            },
            Verification::Cancelled { reason } => {
                let mut text = "verification cancelled: ".to_owned();
                text.append(reason.as_str());
                self.status = Some(text);
                self.close_modal();
                self.needs_redraw = true;
            },
            _ => self.open_modal(Modal::Verification(state)),
        }
    }

    fn recovery_arrived(&mut self, state: RecoveryState)
        ensures
            final(self)@ == old(self)@.recovery_arrived(state),
            final(self)@.workspaces == old(self)@.workspaces,
    {
        proof {
            reveal(AppModel::recovery_arrived);
        }
        self.recovery = state;
        // The panel has no other way to learn that the key worked. Left to itself it would
        // wait for ever, over a screen full of messages that plainly did decrypt.
        let waiting = match &self.modal {
            Some(Modal::Recovery(RecoveryPanel::AskKey { submitted, .. })) => *submitted,
            _ => false,
        };
        if state == RecoveryState::Enabled && waiting {
            self.close_overlay();
            self.say("recovery unlocked; older messages will decrypt");
            self.needs_redraw = true;
        }
    }

    fn threads_arrived(&mut self, room_id: &str, threads: Vec<ThreadSummary>)
        ensures
            final(self)@ == old(self)@.threads_arrived(room_id@, threads.deep_view()),
            final(self)@.workspaces == old(self)@.workspaces,
    {
        proof {
            reveal(AppModel::threads_arrived);
        }
        if let Some(Modal::Threads(picker)) = &mut self.modal {
            if same(picker.room_id.as_str(), room_id) {
                picker.threads = threads;
                picker.selected = 0;
                picker.loading = false;
            }
        }
    }

    fn members_arrived(&mut self, room_id: String, members: Vec<MemberSummary>)
        ensures
            final(self)@ == old(self)@.members_arrived(room_id@, members.deep_view()),
            final(self)@.workspaces == old(self)@.workspaces,
    {
        proof {
            reveal(AppModel::members_arrived);
        }
        proof {
            lemma_deep(self.members@, room_id@);
        }
        // The roster belongs to the room, not to one moment of typing.
        self.members.insert(room_id, members);
        self.refilter_mentions();
    }

    fn recovery_failed(&mut self, reason: String)
        ensures
            final(self)@ == old(self)@.recovery_failed(reason@),
            final(self)@.workspaces == old(self)@.workspaces,
    {
        proof {
            reveal(AppModel::recovery_failed);
        }
        let mut text = "recovery failed: ".to_owned();
        text.append(reason.as_str());
        // Kept open, emptied, and told why: a mistyped key is worth a second try.
        self.open_modal(
            Modal::Recovery(RecoveryPanel::AskKey { key: String::new(), submitted: false, error: Some(reason) }),
        );
        self.status = Some(text);
    }

    fn account_event(&mut self, event: WorkerEvent)
        ensures
            final(self)@ == old(self)@.account_event(event@),
            final(self)@.workspaces == old(self)@.workspaces,
    {
        proof {
            reveal(AppModel::account_event);
        }
        match event {
            WorkerEvent::Verification(state) => self.verification_arrived(state),
            WorkerEvent::Recovery(state) => self.recovery_arrived(state),
            WorkerEvent::RecoveryFailed(reason) => self.recovery_failed(reason),
            WorkerEvent::RecoveryKeyCreated(key) => {
                // Straight to the panel, and nowhere else: the server keeps no copy, and it
                // must not end up somewhere it outlives the moment.
                self.open_modal(Modal::Recovery(RecoveryPanel::ShowKey { key }));
                self.needs_redraw = true;
            },
            WorkerEvent::DeviceVerified(verified) => {
                // Keeping the last known answer avoids flickering the shield during startup.
                if verified.is_some() {
                    self.device_verified = verified;
                }
            },
            _ => {},
        }
    }

    /// Note what became of a command. Returns whether there is any point in handing over more.
    pub fn dispatched(&mut self, outcome: Dispatch) -> (r: bool)
        ensures
            final(self)@ == old(self)@.dispatched(outcome),
            r == !(outcome is Stopped),
    {
        match outcome {
            Dispatch::Queued => true,
            Dispatch::Dropped => {
                self.say("the worker is behind; a command was dropped");
                true
            },
            Dispatch::Stopped => {
                self.say("worker stopped");
                self.should_quit = true;
                false
            },
        }
    }

    /// Fold an event of the worker into the state.
    pub fn apply_worker_event(&mut self, event: WorkerEvent)
        ensures
            final(self)@ == old(self)@.apply_worker_event(event@),
            old(self)@.wf() ==> final(self)@.wf(),
    {
        match event {
            WorkerEvent::SyncState(state) => {
                self.sync = state;
            },
            WorkerEvent::Rooms(rooms) => {
                self.apply_rooms(rooms);
                proof {
                    lemma_open_focused_keeps(self@);
                }
                // The focused view is opened once at startup, but the room list has not
                // arrived yet at that point and there is nothing to focus.
                self.open_focused_view();
            },
            WorkerEvent::Timeline { view, entries } => self.timeline_arrived(view, entries),
            WorkerEvent::Typing { room_id, users } => self.typing_arrived(room_id.as_str(), &users),
            WorkerEvent::Threads { room_id, threads } => self.threads_arrived(room_id.as_str(), threads),
            WorkerEvent::Members { room_id, members } => self.members_arrived(room_id, members),
            WorkerEvent::Warning(text) => {
                self.status = Some(text);
            },
            WorkerEvent::Fatal(text) => {
                let mut status = "fatal: ".to_owned();
                status.append(text.as_str());
                self.status = Some(status);
                self.should_quit = true;
            },
            _ => self.account_event(event),
        }
    }
}

fn add_entry(bar: &mut Workspaces, id: &str, title: &str)
    ensures
        final(bar)@ == old(bar)@.with_entry(id@, title@),
{
    proof {
        lemma_entry(bar@, id@, title@);
    }
    bar.entry(id, title);
}

fn push_tab(bar: &mut Workspaces, id: &str, title: &str, tab: Tab)
    ensures
        final(bar)@ == ({
            let made = old(bar)@.with_entry(id@, title@);
            let at = old(bar)@.entry_index(id@);
            WorkspacesModel {
                items: made.items.update(
                    at,
                    (WorkspaceModel { tabs: made.items[at].tabs.push(tab@), ..made.items[at] }),
                ),
                ..old(bar)@
            }
        }),
{
    let w = bar.entry(id, title);
    let ghost before = w@;
    w.tabs.push(tab);
    assert(w@.tabs =~= before.tabs.push(tab@));
}

proof fn lemma_focus_keeps_panes(tab: TabModel, id: PaneId)
    ensures
        tab.focus(id).panes == tab.panes,
{
}

/// Moving the focus inside workspaces leaves each id where it was.
proof fn lemma_same_firsts(items: Seq<WorkspaceModel>, now: Seq<WorkspaceModel>, id: Seq<char>)
    requires
        items.len() == now.len(),
        forall|j: int| 0 <= j < items.len() ==> (#[trigger] now[j]).id == items[j].id,
    ensures
        first_where(items, of_space(id)) == first_where(now, of_space(id)),
{
    let p = of_space(id);
    lemma_first_where(items, p);
    match first_where(items, p) {
        Some(i) => {
            assert forall|j: int| 0 <= j < i implies !p(#[trigger] now[j]) by {
                assert(!p(items[j]));
            }
            assert(p(now[i]));
            lemma_first(now, p, i);
        },
        None => {
            assert forall|j: int| 0 <= j < now.len() implies !p(#[trigger] now[j]) by {
                assert(!p(items[j]));
            }
            lemma_no_first(now, p);
        },
    }
}

} // verus!
