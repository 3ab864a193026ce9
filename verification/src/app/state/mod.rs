//! Application state and the update function.
//!
//! Kept apart from terminal I/O, so that the interesting transitions (focus movement,
//! composer editing, approval resolution) can be stated and checked without a terminal.

use vstd::prelude::*;

use crate::agent::store::{AgentState, AgentStore, SessionModel};
use crate::app::composer::{Composer, ComposerModel};
use crate::app::config::{AutoExpand, Config, ConfigModel};
use crate::app::emoji;
use crate::app::keymap::{ascii_lowered, binding, KeyCode, KeyModifiers, Mode, Prefix};
use crate::app::palette::{Palette, PaletteModel};
use crate::layout::model::{all_panes_in, TabModel, Tab, WorkspaceModel, Workspaces, WorkspacesModel};
use crate::layout::persist::{captured, Layout, LayoutModel};
use crate::layout::tiling::{Rect, Tiling, TilingModel};
use crate::matrix::model as matrix;
use crate::matrix::model::{
    Command, CommandModel, Entry, EntryModel, MemberSummary, MemberSummaryModel, RecoveryState, SyncState, ThreadSummary,
    ThreadSummaryModel, Verification, VerificationModel, ViewModel,
};
use crate::agent::store::at_most;
use crate::table::{lemma_deep, Key, Table};
use crate::text::{same, trim};

pub mod actions;
pub mod arrivals;
pub mod badges;
pub mod compose;
pub mod dialogs;
pub mod events;
pub mod focus;
pub mod input;
pub mod laws;
pub mod moves;
pub mod outcomes;
pub mod overlays;
pub mod transcript;
pub mod writing;

verus! {

/// What the composer is about to do, when it is not sending a new message.
#[derive(Debug, PartialEq, Eq)]
pub enum Pending {
    /// Submit will reply to this event.
    Reply(String),
    /// Submit will replace this event's content.
    Edit(String),
}

/// The mathematical content of a [`Pending`].
#[verifier::ext_equal]
pub enum PendingModel {
    Reply(Seq<char>),
    Edit(Seq<char>),
}

impl View for Pending {
    type V = PendingModel;

    open spec fn view(&self) -> PendingModel {
        match self {
            Pending::Reply(a) => PendingModel::Reply(a@),
            Pending::Edit(a) => PendingModel::Edit(a@),
        }
    }
}

impl DeepView for Pending {
    type V = PendingModel;

    open spec fn deep_view(&self) -> PendingModel {
        self@
    }
}

impl Clone for Pending {
    fn clone(&self) -> (r: Self)
        ensures
            r@ == self@,
    {
        let r = match self {
            Pending::Reply(a) => Pending::Reply(a.clone()),
            Pending::Edit(a) => Pending::Edit(a.clone()),
        };
        assert(r@ =~~= self@);
        r
    }
}

/// The local user's outbound typing state for one room.
#[derive(Debug, PartialEq, Eq)]
pub struct Typing {
    pub room_id: String,
    /// Set by the keypress, consumed by the tick, which has the clock.
    pub dirty: bool,
    /// Whether the room currently believes the user is typing.
    pub active: bool,
    pub last_input_ms: u64,
    pub last_sent_ms: u64,
}

/// The mathematical content of a [`Typing`].
#[verifier::ext_equal]
pub struct TypingModel {
    pub room_id: Seq<char>,
    pub dirty: bool,
    pub active: bool,
    pub last_input_ms: u64,
    pub last_sent_ms: u64,
}

impl View for Typing {
    type V = TypingModel;

    open spec fn view(&self) -> TypingModel {
        TypingModel {
            room_id: self.room_id@,
            dirty: self.dirty,
            active: self.active,
            last_input_ms: self.last_input_ms,
            last_sent_ms: self.last_sent_ms,
        }
    }
}

impl DeepView for Typing {
    type V = TypingModel;

    open spec fn deep_view(&self) -> TypingModel {
        self@
    }
}

/// The open thread picker.
#[derive(Debug, PartialEq, Eq)]
pub struct ThreadPicker {
    pub room_id: String,
    pub threads: Vec<ThreadSummary>,
    pub selected: usize,
    /// True until the worker answers, so the overlay can say so.
    pub loading: bool,
}

/// The mathematical content of a [`ThreadPicker`].
#[verifier::ext_equal]
pub struct ThreadPickerModel {
    pub room_id: Seq<char>,
    pub threads: Seq<ThreadSummaryModel>,
    pub selected: usize,
    pub loading: bool,
}

impl View for ThreadPicker {
    type V = ThreadPickerModel;

    open spec fn view(&self) -> ThreadPickerModel {
        ThreadPickerModel {
            room_id: self.room_id@,
            threads: self.threads.deep_view(),
            selected: self.selected,
            loading: self.loading,
        }
    }
}

impl DeepView for ThreadPicker {
    type V = ThreadPickerModel;

    open spec fn deep_view(&self) -> ThreadPickerModel {
        self@
    }
}

/// The open mention picker.
///
/// Unlike every other overlay this one is not modal: the composer keeps taking keys underneath
/// it, and the query is recomputed from the buffer after each edit. Only movement and
/// acceptance are intercepted.
#[derive(Debug, PartialEq, Eq)]
pub struct MentionPicker {
    /// Byte offset of the `@` in the composer, so a completion knows what to replace.
    pub start: usize,
    /// Indices into the room's member list, best match first.
    pub matches: Vec<usize>,
    pub selected: usize,
}

/// The mathematical content of a [`MentionPicker`].
#[verifier::ext_equal]
pub struct MentionPickerModel {
    pub start: usize,
    pub matches: Seq<usize>,
    pub selected: usize,
}

impl View for MentionPicker {
    type V = MentionPickerModel;

    open spec fn view(&self) -> MentionPickerModel {
        MentionPickerModel {
            start: self.start,
            matches: self.matches.deep_view(),
            selected: self.selected,
        }
    }
}

impl DeepView for MentionPicker {
    type V = MentionPickerModel;

    open spec fn deep_view(&self) -> MentionPickerModel {
        self@
    }
}

/// A clickable cell on one of the bars, in absolute terminal columns.
#[derive(Debug, Clone, Copy, PartialEq, Eq, Structural)]
pub struct Hit {
    /// First column, inclusive.
    pub x0: u16,
    /// Last column, exclusive.
    pub x1: u16,
    pub index: usize,
}

impl DeepView for Hit {
    type V = Hit;

    open spec fn deep_view(&self) -> Hit {
        *self
    }
}

/// Where the bars were drawn, recorded by the renderer so clicks can be routed back.
///
/// Only the renderer knows this: cell widths depend on labels, padding and emoji width.
#[derive(Debug, PartialEq, Eq)]
pub struct BarHits {
    pub workspace_row: u16,
    pub workspaces: Vec<Hit>,
    pub tab_row: u16,
    pub tabs: Vec<Hit>,
    /// Column span of the `+` affordance on the tab bar.
    pub new_tab: Option<(u16, u16)>,
}

/// The mathematical content of a [`BarHits`].
#[verifier::ext_equal]
pub struct BarHitsModel {
    pub workspace_row: u16,
    pub workspaces: Seq<Hit>,
    pub tab_row: u16,
    pub tabs: Seq<Hit>,
    pub new_tab: Option<(u16, u16)>,
}

impl View for BarHits {
    type V = BarHitsModel;

    open spec fn view(&self) -> BarHitsModel {
        BarHitsModel {
            workspace_row: self.workspace_row,
            workspaces: self.workspaces.deep_view(),
            tab_row: self.tab_row,
            tabs: self.tabs.deep_view(),
            new_tab: self.new_tab,
        }
    }
}

impl DeepView for BarHits {
    type V = BarHitsModel;

    open spec fn deep_view(&self) -> BarHitsModel {
        self@
    }
}

/// The recovery panel.
///
/// A state machine rather than one struct with optional fields, because the things it does
/// are different questions: type a secret in, decide whether to create one, decide whether to
/// destroy one, and write one down.
///
/// The key input is the panel's own, not the composer's: a recovery key typed into the
/// composer is one stray `enter` from being sent to a room.
#[derive(Debug, PartialEq, Eq)]
pub enum RecoveryPanel {
    /// Asking for the existing recovery key. Submitted once the key is with the worker; an
    /// error says why the last attempt failed.
    AskKey { key: String, submitted: bool, error: Option<String> },
    /// Offering to set recovery up for an account that has none.
    OfferEnable,
    /// Confirming the replacement of an existing recovery key.
    ConfirmReset,
    /// Waiting on the server.
    Busy(&'static str),
    /// Showing a newly created key. The one chance the user gets to keep it.
    ShowKey { key: String },
}

/// The mathematical content of a [`RecoveryPanel`].
#[verifier::ext_equal]
pub enum RecoveryPanelModel {
    AskKey { key: Seq<char>, submitted: bool, error: Option<Seq<char>> },
    OfferEnable,
    ConfirmReset,
    Busy(Seq<char>),
    ShowKey { key: Seq<char> },
}

impl View for RecoveryPanel {
    type V = RecoveryPanelModel;

    open spec fn view(&self) -> RecoveryPanelModel {
        match self {
            RecoveryPanel::AskKey { key, submitted, error } => RecoveryPanelModel::AskKey {
                key: key@,
                submitted: *submitted,
                error: error.deep_view(),
            },
            RecoveryPanel::OfferEnable => RecoveryPanelModel::OfferEnable,
            RecoveryPanel::ConfirmReset => RecoveryPanelModel::ConfirmReset,
            RecoveryPanel::Busy(a) => RecoveryPanelModel::Busy(a@),
            RecoveryPanel::ShowKey { key } => RecoveryPanelModel::ShowKey { key: key@ },
        }
    }
}

impl DeepView for RecoveryPanel {
    type V = RecoveryPanelModel;

    open spec fn deep_view(&self) -> RecoveryPanelModel {
        self@
    }
}

/// The overlay that is open, if any.
///
/// One value rather than a field for each, because only one can be open: there is no ordering
/// to get wrong and nothing to fall through. [`MentionPicker`] is not here: it is a filter on
/// the composer rather than a modal.
#[derive(Debug)]
pub enum Modal {
    /// Interactive device verification. The emoji on screen are a security decision with a
    /// human at the other end, so nothing may act underneath it.
    Verification(Verification),
    /// The recovery panel. Holds a secret mid-typing.
    Recovery(RecoveryPanel),
    /// The emoji picker. A search box, so it owns every key.
    Emoji(emoji::Picker),
    /// The command palette. A search box too.
    Palette(Palette),
    /// The thread picker.
    Threads(ThreadPicker),
    /// The key overlay.
    Help,
}

/// The mathematical content of a [`Modal`].
#[verifier::ext_equal]
pub enum ModalModel {
    Verification(VerificationModel),
    Recovery(RecoveryPanelModel),
    Emoji(emoji::PickerModel),
    Palette(PaletteModel),
    Threads(ThreadPickerModel),
    Help,
}

impl View for Modal {
    type V = ModalModel;

    open spec fn view(&self) -> ModalModel {
        match self {
            Modal::Verification(a) => ModalModel::Verification(a@),
            Modal::Recovery(a) => ModalModel::Recovery(a@),
            Modal::Emoji(a) => ModalModel::Emoji(a@),
            Modal::Palette(a) => ModalModel::Palette(a@),
            Modal::Threads(a) => ModalModel::Threads(a@),
            Modal::Help => ModalModel::Help,
        }
    }
}

impl DeepView for Modal {
    type V = ModalModel;

    open spec fn deep_view(&self) -> ModalModel {
        self@
    }
}

/// The row that an event was drawn on.
#[derive(Debug, PartialEq, Eq)]
pub struct Anchor {
    pub event_id: String,
    pub row: u16,
}

/// The mathematical content of a [`Anchor`].
#[verifier::ext_equal]
pub struct AnchorModel {
    pub event_id: Seq<char>,
    pub row: u16,
}

impl View for Anchor {
    type V = AnchorModel;

    open spec fn view(&self) -> AnchorModel {
        AnchorModel {
            event_id: self.event_id@,
            row: self.row,
        }
    }
}

impl DeepView for Anchor {
    type V = AnchorModel;

    open spec fn deep_view(&self) -> AnchorModel {
        self@
    }
}

/// How the transcript is rendered.
#[derive(Debug, Clone, Copy, PartialEq, Eq, Structural)]
pub struct Options {
    pub auto_expand: AutoExpand,
    pub show_commentary: bool,
    pub mark_degraded: bool,
}

impl Key for (String, u32) {
    type Ref = (String, u32);

    open spec fn ref_model(r: &(String, u32)) -> (Seq<char>, u32) {
        r.deep_view()
    }

    fn is_key(&self, r: &(String, u32)) -> (b: bool) {
        same(self.0.as_str(), r.0.as_str()) && self.1 == r.1
    }

    fn as_key(&self) -> (r: &(String, u32)) {
        self
    }
}

/// A split border the pointer has hold of, and the room it belongs to.
///
/// The room is part of it because a drag is only meaningful in the tab it started in, and a
/// tab can be switched from under it by an arriving keypress.
#[derive(Debug, PartialEq, Eq)]
pub struct Held {
    pub room_id: String,
    pub path: Vec<usize>,
    pub rect: Rect,
    pub along_x: bool,
}

/// The mathematical content of a [`Held`].
#[verifier::ext_equal]
pub struct HeldModel {
    pub room_id: Seq<char>,
    pub path: Seq<usize>,
    pub rect: Rect,
    pub along_x: bool,
}

impl View for Held {
    type V = HeldModel;

    open spec fn view(&self) -> HeldModel {
        HeldModel { room_id: self.room_id@, path: self.path@, rect: self.rect, along_x: self.along_x }
    }
}

impl DeepView for Held {
    type V = HeldModel;

    open spec fn deep_view(&self) -> HeldModel {
        self@
    }
}

/// A change of shares for the tiling engine to carry out: which split of which room, and
/// whether its first side grows.
#[derive(Debug, PartialEq, Eq)]
pub struct Reshare {
    pub room_id: String,
    pub path: Vec<usize>,
    pub grow_first: bool,
}

/// The mathematical content of a [`Reshare`].
#[verifier::ext_equal]
pub struct ReshareModel {
    pub room_id: Seq<char>,
    pub path: Seq<usize>,
    pub grow_first: bool,
}

impl View for Reshare {
    type V = ReshareModel;

    open spec fn view(&self) -> ReshareModel {
        ReshareModel { room_id: self.room_id@, path: self.path@, grow_first: self.grow_first }
    }
}

impl DeepView for Reshare {
    type V = ReshareModel;

    open spec fn deep_view(&self) -> ReshareModel {
        self@
    }
}

/// Maximum worker events folded into state per frame. Beyond this the rest wait for the
/// next frame, so a sync burst cannot stall input.
pub const EVENT_BUDGET: usize = 128;

/// How close to the top of the loaded transcript the user must scroll before older events
/// are requested. A margin rather than zero, so the page arrives before the scrollback runs
/// out rather than after it visibly stops.
pub const PAGINATE_MARGIN: u16 = 20;

/// How long after the last keystroke the user is declared to have stopped typing.
///
/// Under the four seconds the server keeps a notice alive, so the room sees an explicit stop
/// rather than watching it lapse.
pub const TYPING_IDLE_MS: u64 = 3_000;

/// How often an ongoing notice is asserted again while typing continues.
pub const TYPING_REFRESH_MS: u64 = 3_000;

/// Everything the UI draws from.
pub struct App {
    pub config: Config,
    pub render_options: Options,
    /// Tool cards the user has opened or closed by hand: by event and tool index.
    pub overrides: Table<(String, u32), bool>,
    pub workspaces: Workspaces,
    /// One tiling tree per room, keyed by room ID.
    pub tilings: Table<String, Tiling>,
    /// Timeline entries per view.
    pub timelines: Table<matrix::View, Vec<Entry>>,
    /// Agent sessions, keyed by thread root.
    pub agents: AgentStore,
    pub mode: Mode,
    pub prefix: Prefix,
    /// One composer per view, so a half-written message survives switching room and coming
    /// back. Created on demand.
    pub composers: Table<matrix::View, Composer>,
    /// Lines scrolled up from the bottom, per view.
    pub scroll: Table<matrix::View, u16>,
    pub sync: SyncState,
    pub status: Option<String>,
    /// Views with a pagination request in flight. Without this, holding a key at the top of
    /// a transcript would queue one request per keypress.
    pub paginating: Table<matrix::View, ()>,
    /// Rendered line count of the focused transcript, recorded by the renderer.
    pub rendered_lines: u16,
    /// Visible height of the focused pane, recorded by the renderer.
    pub viewport_height: u16,
    /// Clickable regions of the workspace and tab bars, recorded by the renderer.
    pub bars: BarHits,
    /// The overlay that is open, if any.
    pub modal: Option<Modal>,
    /// Selected message per view, by event id. Reply, edit and redact all act on it.
    pub selected: Table<matrix::View, String>,
    /// What the composer will do on submit, when it is not simply sending.
    pub composing: Option<Pending>,
    /// Joined members per room, for the mention picker.
    pub members: Table<String, Vec<MemberSummary>>,
    /// Rooms already asked about, so a room with no members is not asked about forever.
    pub members_asked: Table<String, ()>,
    /// The open mention picker, if any.
    pub mentions: Option<MentionPicker>,
    /// The split border the mouse currently has hold of.
    pub dragging: Option<Held>,
    /// Whether this account's secrets are recoverable on a new device.
    pub recovery: RecoveryState,
    /// Rooms whose loaded history contains a message that cannot be vouched for.
    pub unverified_rooms: Table<String, ()>,
    /// Whether this device has been verified by the account's cross-signing identity. `None`
    /// until the crypto store can answer.
    pub device_verified: Option<bool>,
    /// What the local user is currently telling the room about their typing.
    pub typing: Option<Typing>,
    /// Event armed for redaction, awaiting a confirming second keypress.
    pub confirm_redact: Option<String>,
    /// Row of each event in the focused transcript, recorded by the renderer.
    pub anchors: Vec<Anchor>,
    /// Set when the terminal must be fully repainted rather than diffed.
    ///
    /// Only cells believed to have changed are rewritten. A glyph that paints wider than it
    /// was measured puts that belief out of step with the screen, and the stale cells are
    /// never repainted.
    pub needs_redraw: bool,
    pub should_quit: bool,
    /// The saved layout, consumed room by room as rooms arrive. Not the layout to write
    /// back: that is captured fresh from the live state.
    pub saved_layout: Layout,
    /// Whether the saved focus is still waiting to be applied. Cleared the moment the user
    /// moves focus themselves.
    pub restoring_focus: bool,
    /// Set when the arrangement has changed and has not yet been written out.
    pub layout_dirty: bool,
    /// Commands produced by the last update, drained by the caller.
    pub pending: Vec<Command>,
    /// Changes of shares asked for by the last update, drained by the caller.
    pub reshares: Vec<Reshare>,
}

/// The mathematical content of an [`App`].
#[verifier::ext_equal]
pub struct AppModel {
    pub config: ConfigModel,
    pub render_options: Options,
    pub overrides: Map<(Seq<char>, u32), bool>,
    pub workspaces: WorkspacesModel,
    pub tilings: Map<Seq<char>, TilingModel>,
    pub timelines: Map<ViewModel, Seq<EntryModel>>,
    pub agents: Map<Seq<char>, SessionModel>,
    pub mode: Mode,
    pub prefix: Prefix,
    pub composers: Map<ViewModel, ComposerModel>,
    pub scroll: Map<ViewModel, u16>,
    pub sync: SyncState,
    pub status: Option<Seq<char>>,
    pub paginating: Set<ViewModel>,
    pub rendered_lines: u16,
    pub viewport_height: u16,
    pub bars: BarHitsModel,
    pub modal: Option<ModalModel>,
    pub selected: Map<ViewModel, Seq<char>>,
    pub composing: Option<PendingModel>,
    pub members: Map<Seq<char>, Seq<MemberSummaryModel>>,
    pub members_asked: Set<Seq<char>>,
    pub mentions: Option<MentionPickerModel>,
    pub dragging: Option<HeldModel>,
    pub recovery: RecoveryState,
    pub unverified_rooms: Set<Seq<char>>,
    pub device_verified: Option<bool>,
    pub typing: Option<TypingModel>,
    pub confirm_redact: Option<Seq<char>>,
    pub anchors: Seq<AnchorModel>,
    pub needs_redraw: bool,
    pub should_quit: bool,
    pub saved_layout: LayoutModel,
    pub restoring_focus: bool,
    pub layout_dirty: bool,
    pub pending: Seq<CommandModel>,
    pub reshares: Seq<ReshareModel>,
}

impl View for App {
    type V = AppModel;

    open spec fn view(&self) -> AppModel {
        AppModel {
            config: self.config@,
            render_options: self.render_options,
            overrides: self.overrides@,
            workspaces: self.workspaces@,
            tilings: self.tilings.deep_view(),
            timelines: self.timelines.deep_view(),
            agents: self.agents@,
            mode: self.mode,
            prefix: self.prefix,
            composers: self.composers.deep_view(),
            scroll: self.scroll@,
            sync: self.sync,
            status: self.status.deep_view(),
            paginating: self.paginating@.dom(),
            rendered_lines: self.rendered_lines,
            viewport_height: self.viewport_height,
            bars: self.bars@,
            modal: self.modal.deep_view(),
            selected: self.selected.deep_view(),
            composing: self.composing.deep_view(),
            members: self.members.deep_view(),
            members_asked: self.members_asked@.dom(),
            mentions: self.mentions.deep_view(),
            dragging: self.dragging.deep_view(),
            recovery: self.recovery,
            unverified_rooms: self.unverified_rooms@.dom(),
            device_verified: self.device_verified,
            typing: self.typing.deep_view(),
            confirm_redact: self.confirm_redact.deep_view(),
            anchors: self.anchors.deep_view(),
            needs_redraw: self.needs_redraw,
            should_quit: self.should_quit,
            saved_layout: self.saved_layout@,
            restoring_focus: self.restoring_focus,
            layout_dirty: self.layout_dirty,
            pending: self.pending.deep_view(),
            reshares: self.reshares.deep_view(),
        }
    }
}

impl AppModel {
    /// What every operation keeps: each focus is in range.
    pub open spec fn wf(self) -> bool {
        self.workspaces.wf()
    }

    /// The client before anything has arrived.
    pub open spec fn fresh(config: ConfigModel, saved_layout: LayoutModel, prefix: Prefix) -> AppModel {
        AppModel {
            config,
            render_options: Options {
                auto_expand: config.agent.auto_expand(),
                show_commentary: config.agent.show_commentary,
                mark_degraded: true,
            },
            overrides: Map::empty(),
            workspaces: WorkspacesModel::empty(),
            tilings: Map::empty(),
            timelines: Map::empty(),
            agents: Map::empty(),
            mode: Mode::Normal,
            prefix,
            composers: Map::empty(),
            scroll: Map::empty(),
            sync: SyncState::Idle,
            status: None,
            paginating: Set::empty(),
            rendered_lines: 0,
            viewport_height: 0,
            bars: BarHitsModel {
                workspace_row: 0,
                workspaces: Seq::empty(),
                tab_row: 0,
                tabs: Seq::empty(),
                new_tab: None,
            },
            modal: None,
            selected: Map::empty(),
            composing: None,
            members: Map::empty(),
            members_asked: Set::empty(),
            mentions: None,
            dragging: None,
            recovery: RecoveryState::Unknown,
            unverified_rooms: Set::empty(),
            device_verified: None,
            typing: None,
            confirm_redact: None,
            anchors: Seq::empty(),
            needs_redraw: false,
            should_quit: false,
            saved_layout,
            restoring_focus: saved_layout.workspace is Some || !saved_layout.tabs.dom().is_empty(),
            layout_dirty: false,
            pending: Seq::empty(),
            reshares: Seq::empty(),
        }
    }

    /// The client with a line in the status bar.
    pub open spec fn says(self, text: Seq<char>) -> AppModel {
        AppModel { status: Some(text), ..self }
    }

    /// The client with one more command for the worker.
    pub open spec fn queue(self, command: CommandModel) -> AppModel {
        AppModel { pending: self.pending.push(command), ..self }
    }

    /// The client with an overlay open, in place of whatever was open.
    pub open spec fn open_modal(self, modal: ModalModel) -> AppModel {
        AppModel { modal: Some(modal), ..self }
    }

    /// The client with no overlay open.
    pub open spec fn close_modal(self) -> AppModel {
        AppModel { modal: None, ..self }
    }

    /// The tab in focus.
    pub open spec fn focused_tab(self) -> Option<TabModel> {
        match self.workspaces.focused() {
            Some(w) => w.focused_tab(),
            None => None,
        }
    }

    /// The room in focus.
    pub open spec fn focused_room(self) -> Option<Seq<char>> {
        match self.focused_tab() {
            Some(tab) => Some(tab.room_id),
            None => None,
        }
    }

    /// The view that the pane in focus is showing.
    pub open spec fn focused_view(self) -> Option<ViewModel> {
        match self.focused_tab() {
            Some(tab) => match tab.focused_pane() {
                Some(pane) => Some(ViewModel { room_id: tab.room_id, thread_root: pane.kind.thread_root() }),
                None => None,
            },
            None => None,
        }
    }

    /// The client with another tab in place of the one in focus.
    pub open spec fn with_tab(self, tab: TabModel) -> AppModel {
        match self.workspaces.focused() {
            Some(w) => if w.focused_tab() is Some {
                AppModel {
                    workspaces: WorkspacesModel {
                        items: self.workspaces.items.update(
                            self.workspaces.focused as int,
                            WorkspaceModel { tabs: w.tabs.update(w.focused as int, tab), ..w },
                        ),
                        ..self.workspaces
                    },
                    ..self
                }
            } else {
                self
            },
            None => self,
        }
    }

    /// The tiling of the tab in focus.
    pub open spec fn focused_tiling(self) -> Option<TilingModel> {
        match self.focused_room() {
            Some(room) => if self.tilings.contains_key(room) {
                Some(self.tilings[room])
            } else {
                None
            },
            None => None,
        }
    }

    /// The client with another tiling in place of the one in focus.
    pub open spec fn with_tiling(self, tiling: TilingModel) -> AppModel {
        match self.focused_tiling() {
            Some(_) => AppModel { tilings: self.tilings.insert(self.focused_room()->0, tiling), ..self },
            None => self,
        }
    }
}

/// The prefix key that is configured, or `ctrl+a` where it cannot be read.
pub open spec fn prefix_of(spec: Seq<char>) -> Prefix {
    match binding(ascii_lowered(trim(spec)), KeyModifiers::none()) {
        Some(prefix) => prefix,
        None => Prefix { code: KeyCode::Char('a'), modifiers: KeyModifiers::control() },
    }
}

/// Another tab in focus leaves every focus in range, if it is sound itself.
pub proof fn lemma_with_tab_wf(app: AppModel, tab: TabModel)
    requires
        app.wf(),
        tab.wf(),
    ensures
        app.with_tab(tab).wf(),
{
    let after = app.with_tab(tab);
    if let Some(w) = app.workspaces.focused() {
        if w.focused_tab() is Some {
            let at = app.workspaces.focused as int;
            assert(app.workspaces.items[at].wf());
            assert forall|i: int| 0 <= i < after.workspaces.items.len() implies (
            #[trigger] after.workspaces.items[i]).wf() by {
                if i == at {
                    let tabs = after.workspaces.items[i].tabs;
                    assert forall|j: int| 0 <= j < tabs.len() implies (#[trigger] tabs[j]).wf() by {
                        if j != w.focused {
                            assert(tabs[j] == w.tabs[j]);
                        }
                    }
                } else {
                    assert(after.workspaces.items[i] == app.workspaces.items[i]);
                }
            }
        }
    }
}

impl ThreadPickerModel {
    /// The thread that is highlighted.
    pub open spec fn chosen(self) -> Option<ThreadSummaryModel> {
        if self.selected < self.threads.len() {
            Some(self.threads[self.selected as int])
        } else {
            None
        }
    }
}

impl ThreadPicker {
    /// The thread that is highlighted.
    pub fn selected(&self) -> (r: Option<&ThreadSummary>)
        ensures
            match r {
                Some(t) => self@.chosen() == Some(t@),
                None => self@.chosen() is None,
            },
    {
        if self.selected < self.threads.len() {
            Some(&self.threads[self.selected])
        } else {
            None
        }
    }
}

impl Hit {
    /// Whether a column is in the cell.
    pub open spec fn covers(self, column: u16) -> bool {
        self.x0 <= column < self.x1
    }

    /// Whether a column is in the cell.
    pub fn contains(&self, column: u16) -> (r: bool)
        ensures
            r == self.covers(column),
    {
        column >= self.x0 && column < self.x1
    }
}

impl App {
    /// `saved_layout` is drained as rooms arrive; pass an empty one to start with one pane
    /// per room. A prefix that cannot be read is `ctrl+a`.
    pub fn new(config: Config, saved_layout: Layout) -> (r: Self)
        ensures
            r@ == AppModel::fresh(config@, saved_layout@, prefix_of(config@.ui.prefix)),
            r@.wf(),
    {
        let prefix = match Prefix::parse(config.ui.prefix.as_str()) {
            Some(prefix) => prefix,
            None => Prefix::default(),
        };
        let render_options = Options {
            auto_expand: config.agent.auto_expand(),
            show_commentary: config.agent.show_commentary,
            mark_degraded: true,
        };
        let tabs = saved_layout.tabs.len();
        let restoring_focus = saved_layout.workspace.is_some() || tabs > 0;
        proof {
            assert(saved_layout@.tabs.dom() =~= saved_layout.tabs@.dom());
        }
        let r = App {
            config,
            render_options,
            overrides: Table::new(),
            workspaces: Workspaces::new(),
            tilings: Table::new(),
            timelines: Table::new(),
            agents: AgentStore::new(),
            mode: Mode::Normal,
            prefix,
            composers: Table::new(),
            scroll: Table::new(),
            sync: SyncState::Idle,
            status: None,
            paginating: Table::new(),
            rendered_lines: 0,
            viewport_height: 0,
            bars: BarHits {
                workspace_row: 0,
                workspaces: Vec::new(),
                tab_row: 0,
                tabs: Vec::new(),
                new_tab: None,
            },
            modal: None,
            selected: Table::new(),
            composing: None,
            members: Table::new(),
            members_asked: Table::new(),
            mentions: None,
            dragging: None,
            recovery: RecoveryState::Unknown,
            unverified_rooms: Table::new(),
            device_verified: None,
            typing: None,
            confirm_redact: None,
            anchors: Vec::new(),
            needs_redraw: false,
            should_quit: false,
            saved_layout,
            restoring_focus,
            layout_dirty: false,
            pending: Vec::new(),
            reshares: Vec::new(),
        };
        r
    }

    /// The current arrangement, ready to be written to disk.
    pub fn layout(&self) -> (r: Layout)
        ensures
            r@ == captured(self@.workspaces, self@.tilings),
    {
        Layout::capture(&self.workspaces, &self.tilings)
    }

    /// Open an overlay, replacing whatever was open.
    ///
    /// A keypress cannot reach this while something is already open, because the overlay
    /// swallows it; a verification request arriving from another device can, and takes over.
    pub fn open_modal(&mut self, modal: Modal)
        ensures
            final(self)@ == old(self)@.open_modal(modal@),
    {
        self.modal = Some(modal);
    }

    /// Close whatever overlay is open.
    pub fn close_modal(&mut self)
        ensures
            final(self)@ == old(self)@.close_modal(),
    {
        self.modal = None;
    }

    pub fn verification(&self) -> (r: Option<&Verification>)
        ensures
            match r {
                Some(v) => self@.modal == Some(ModalModel::Verification(v@)),
                None => !(self@.modal is Some && self@.modal->0 is Verification),
            },
    {
        match &self.modal {
            Some(Modal::Verification(v)) => Some(v),
            _ => None,
        }
    }

    pub fn recovery_prompt(&self) -> (r: Option<&RecoveryPanel>)
        ensures
            match r {
                Some(p) => self@.modal == Some(ModalModel::Recovery(p@)),
                None => !(self@.modal is Some && self@.modal->0 is Recovery),
            },
    {
        match &self.modal {
            Some(Modal::Recovery(p)) => Some(p),
            _ => None,
        }
    }

    pub fn emoji(&self) -> (r: Option<&emoji::Picker>)
        ensures
            match r {
                Some(e) => self@.modal == Some(ModalModel::Emoji(e@)),
                None => !(self@.modal is Some && self@.modal->0 is Emoji),
            },
    {
        match &self.modal {
            Some(Modal::Emoji(e)) => Some(e),
            _ => None,
        }
    }

    pub fn palette(&self) -> (r: Option<&Palette>)
        ensures
            match r {
                Some(p) => self@.modal == Some(ModalModel::Palette(p@)),
                None => !(self@.modal is Some && self@.modal->0 is Palette),
            },
    {
        match &self.modal {
            Some(Modal::Palette(p)) => Some(p),
            _ => None,
        }
    }

    pub fn threads(&self) -> (r: Option<&ThreadPicker>)
        ensures
            match r {
                Some(t) => self@.modal == Some(ModalModel::Threads(t@)),
                None => !(self@.modal is Some && self@.modal->0 is Threads),
            },
    {
        match &self.modal {
            Some(Modal::Threads(t)) => Some(t),
            _ => None,
        }
    }

    pub fn threads_mut(&mut self) -> (r: Option<&mut ThreadPicker>)
        ensures
            match r {
                Some(t) => {
                    &&& old(self)@.modal == Some(ModalModel::Threads(t@))
                    &&& final(self)@ == old(self)@.open_modal(ModalModel::Threads(final(t)@))
                },
                None => {
                    &&& !(old(self)@.modal is Some && old(self)@.modal->0 is Threads)
                    &&& final(self)@ == old(self)@
                },
            },
    {
        match &mut self.modal {
            Some(Modal::Threads(t)) => Some(t),
            _ => None,
        }
    }

    /// Take the commands produced since the last call.
    pub fn take_commands(&mut self) -> (r: Vec<Command>)
        ensures
            r.deep_view() == old(self)@.pending,
            final(self)@ == (AppModel { pending: Seq::empty(), ..old(self)@ }),
    {
        let mut taken: Vec<Command> = Vec::new();
        std::mem::swap(&mut self.pending, &mut taken);
        taken
    }

    /// Take the changes of shares asked for since the last call.
    pub fn take_reshares(&mut self) -> (r: Vec<Reshare>)
        ensures
            r.deep_view() == old(self)@.reshares,
            final(self)@ == (AppModel { reshares: Seq::empty(), ..old(self)@ }),
    {
        let mut taken: Vec<Reshare> = Vec::new();
        std::mem::swap(&mut self.reshares, &mut taken);
        taken
    }

    /// Hand the worker one more command.
    pub fn queue(&mut self, command: Command)
        ensures
            final(self)@ == old(self)@.queue(command@),
    {
        let ghost before = self@;
        self.pending.push(command);
        assert(self@.pending =~= before.pending.push(command@));
    }

    /// Put a line in the status bar.
    pub fn say(&mut self, text: &str)
        ensures
            final(self)@ == old(self)@.says(text@),
    {
        self.status = Some(text.to_owned());
    }

    /// The tab in focus.
    pub fn focused_tab(&self) -> (r: Option<&Tab>)
        ensures
            match r {
                Some(t) => self@.focused_tab() == Some(t@),
                None => self@.focused_tab() is None,
            },
    {
        match self.workspaces.focused() {
            Some(w) => w.focused_tab(),
            None => None,
        }
    }

    /// The room in focus.
    pub fn focused_room(&self) -> (r: Option<String>)
        ensures
            r.deep_view() == self@.focused_room(),
    {
        match self.focused_tab() {
            Some(tab) => Some(tab.room_id.clone()),
            None => None,
        }
    }

    /// The view the focused pane is showing.
    pub fn focused_view(&self) -> (r: Option<matrix::View>)
        ensures
            r.deep_view() == self@.focused_view(),
    {
        let tab = match self.focused_tab() {
            Some(tab) => tab,
            None => {
                return None;
            },
        };
        match tab.focused_pane() {
            Some(pane) => Some(
                match pane.kind.thread_root() {
                    Some(root) => matrix::View::thread(tab.room_id.as_str(), root),
                    None => matrix::View::room(tab.room_id.as_str()),
                },
            ),
            None => None,
        }
    }

    /// The tab in focus, to be changed in place.
    pub fn focused_tab_mut(&mut self) -> (r: Option<&mut Tab>)
        ensures
            match r {
                Some(t) => {
                    &&& old(self)@.focused_tab() == Some(t@)
                    &&& final(self)@ == old(self)@.with_tab(final(t)@)
                },
                None => old(self)@.focused_tab() is None && final(self)@ == old(self)@,
            },
    {
        match self.workspaces.focused_mut() {
            Some(w) => w.focused_tab_mut(),
            None => None,
        }
    }

    /// The tiling of the tab in focus, to be changed in place.
    pub fn focused_tiling_mut(&mut self) -> (r: Option<&mut Tiling>)
        ensures
            match r {
                Some(t) => {
                    &&& old(self)@.focused_tiling() == Some(t@)
                    &&& final(self)@ == old(self)@.with_tiling(final(t)@)
                },
                None => old(self)@.focused_tiling() is None && final(self)@ == old(self)@,
            },
    {
        let room_id = match self.focused_room() {
            Some(room_id) => room_id,
            None => {
                return None;
            },
        };
        proof {
            lemma_deep(self.tilings@, room_id@);
        }
        self.tilings.get_mut(room_id.as_str())
    }

    /// Global badge and count for the status bar, the count stopping at the largest number.
    pub fn badge(&self) -> (r: (AgentState, usize))
        ensures
            r.0 == self@.workspaces.state(),
            r.1 == at_most(all_panes_in(self@.workspaces.items, r.0), usize::MAX as int),
    {
        let state = self.workspaces.state();
        (state, self.workspaces.count_in(state))
    }
}

} // verus!
