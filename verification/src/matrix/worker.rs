//! The Matrix worker.
//!
//! Whoever runs the worker owns the connection and every open timeline. What it does next,
//! and what it tells the app, is decided here, from plain values: a command or an event comes
//! in, and a job comes out.

use vstd::prelude::*;
use vstd::string::*;

use crate::agent::adapter::{ingested, Adapters, Ingest};
use crate::agent::protocol::AgentEvent;
use crate::json::{content, lemma_member, parsed_json, read, Json, JsonModel};
use crate::matrix::model as matrix;
use crate::matrix::model::{
    AgentPayload, AgentPayloadModel, Command, CommandModel, Entry, EntryKind, EntryKindModel, EntryModel, MemberSummary,
    MemberSummaryModel, Message, MessageModel, RecoveryState, RoomSummary, RoomSummaryModel, Shield, SyncState,
    ThreadSummary, ThreadSummaryModel, Verification, VerificationModel, ViewModel, WorkerEvent, WorkerEventModel,
};
use crate::seqs::{sort, sorted};
use crate::table::{lemma_deep, lemma_deep_empty, Table};
use crate::text::{
    chars_of, comes_before, headline, lowercase, same, string_of, text_less, title_of, trim, trimmed,
};

verus! {

/// How many events to request per pagination step.
pub const PAGINATE_BATCH: u16 = 40;

/// How many times to ask for a page before giving a pane up as empty.
///
/// Enough to get past a long run of threaded events without walking a busy room back to its
/// creation on every startup.
pub const PAGINATE_ATTEMPTS: u8 = 5;

/// Bound on the channel to the worker. Commands are user-initiated, so this only needs to
/// absorb a burst of keypresses.
pub const COMMAND_BUFFER: usize = 64;

/// Bound on the channel to the app. Sized to absorb a sync burst without dropping updates;
/// the app drains it with a per-frame budget.
pub const EVENT_BUFFER: usize = 512;

/// How many rooms the sliding sync list holds.
pub const ROOM_LIST_PAGE: usize = 500;

/// What to do with a timeline snapshot, given what the pane is already showing.
#[derive(Debug, Clone, Copy, PartialEq, Eq, Structural)]
pub enum Snapshot {
    /// Send it: it is the truth about the view.
    Show,
    /// Drop it and load older events; the cache was unloaded, not the history deleted.
    Refill,
    /// Drop it; a refill is already in flight.
    Wait,
}

/// What is being shown of one view.
#[derive(Debug, Clone, Copy, PartialEq, Eq, Structural)]
pub struct Forwarding {
    /// How many entries the app was last sent.
    pub showing: usize,
    /// Whether older events were asked for in place of an empty snapshot.
    pub refilling: bool,
}

/// An event of a timeline, as far as a receipt needs to know it.
#[derive(Debug, PartialEq, Eq)]
pub struct ShownEvent {
    /// None for what is no event, or a local echo.
    pub event_id: Option<String>,
    pub thread_root: Option<String>,
}

/// The mathematical content of a [`ShownEvent`].
#[verifier::ext_equal]
pub struct ShownEventModel {
    pub event_id: Option<Seq<char>>,
    pub thread_root: Option<Seq<char>>,
}

impl View for ShownEvent {
    type V = ShownEventModel;

    open spec fn view(&self) -> ShownEventModel {
        ShownEventModel {
            event_id: self.event_id.deep_view(),
            thread_root: self.thread_root.deep_view(),
        }
    }
}

impl DeepView for ShownEvent {
    type V = ShownEventModel;

    open spec fn deep_view(&self) -> ShownEventModel {
        self@
    }
}

/// What became of a command that was handed to the worker.
#[derive(Debug, Clone, Copy, PartialEq, Eq, Structural)]
pub enum Dispatch {
    Queued,
    /// The worker is behind, and the command was dropped.
    Dropped,
    /// The worker has stopped.
    Stopped,
}

/// What the worker does next.
#[derive(Debug, PartialEq, Eq)]
pub enum Job {
    /// Nothing.
    Nothing,
    /// Close every view and stop.
    Stop,
    /// Begin streaming a view: one thread, or a room with its threads hidden.
    Open(matrix::View),
    /// Stop streaming a view.
    Close(matrix::View),
    /// Load older events of an open view.
    Paginate { view: matrix::View, count: u16 },
    /// Send a message into an open view.
    Send { view: matrix::View, body: String, mentions: Vec<String> },
    /// Send a message into an open view, as a reply.
    Reply { view: matrix::View, in_reply_to: String, body: String, mentions: Vec<String> },
    /// Replace an event in an open view.
    Edit { view: matrix::View, event_id: String, body: String, mentions: Vec<String> },
    /// Redact an event in an open view.
    Redact { view: matrix::View, event_id: String },
    /// React to an event in an open view, or take the reaction back.
    ToggleReaction { view: matrix::View, event_id: String, key: String },
    /// Send a read receipt for what an open view shows.
    MarkRead(matrix::View),
    /// List the threads of a room.
    ListThreads(String),
    /// List the members of a room.
    ListMembers(String),
    /// List the rooms.
    ListRooms,
    /// Tell a room whether the user is typing.
    SendTyping { room_id: String, typing: bool },
    /// Ask the account's other devices to verify this one.
    StartVerification,
    /// Accept the verification that was asked for.
    AcceptVerification,
    /// Confirm the comparison.
    ConfirmVerification,
    /// Report the comparison as a mismatch.
    MismatchVerification,
    /// Withdraw from the verification that is in progress, if one is.
    CancelVerification { in_progress: bool },
    /// Follow a verification that another device asked for, in place of any other.
    FollowVerification,
    /// Unlock the account's secrets with a key.
    Recover(String),
    /// Set recovery up.
    EnableRecovery,
    /// Replace the recovery key.
    ResetRecoveryKey,
    /// Tell the app.
    Tell(WorkerEvent),
}

/// The mathematical content of a [`Job`].
#[verifier::ext_equal]
pub enum JobModel {
    Nothing,
    Stop,
    Open(matrix::ViewModel),
    Close(matrix::ViewModel),
    Paginate { view: matrix::ViewModel, count: u16 },
    Send { view: matrix::ViewModel, body: Seq<char>, mentions: Seq<Seq<char>> },
    Reply { view: matrix::ViewModel, in_reply_to: Seq<char>, body: Seq<char>, mentions: Seq<Seq<char>> },
    Edit { view: matrix::ViewModel, event_id: Seq<char>, body: Seq<char>, mentions: Seq<Seq<char>> },
    Redact { view: matrix::ViewModel, event_id: Seq<char> },
    ToggleReaction { view: matrix::ViewModel, event_id: Seq<char>, key: Seq<char> },
    MarkRead(matrix::ViewModel),
    ListThreads(Seq<char>),
    ListMembers(Seq<char>),
    ListRooms,
    SendTyping { room_id: Seq<char>, typing: bool },
    StartVerification,
    AcceptVerification,
    ConfirmVerification,
    MismatchVerification,
    CancelVerification { in_progress: bool },
    FollowVerification,
    Recover(Seq<char>),
    EnableRecovery,
    ResetRecoveryKey,
    Tell(WorkerEventModel),
}

impl View for Job {
    type V = JobModel;

    open spec fn view(&self) -> JobModel {
        match self {
            Job::Nothing => JobModel::Nothing,
            Job::Stop => JobModel::Stop,
            Job::Open(a) => JobModel::Open(a@),
            Job::Close(a) => JobModel::Close(a@),
            Job::Paginate { view, count } => JobModel::Paginate { view: view@, count: *count },
            Job::Send { view, body, mentions } => JobModel::Send {
                view: view@,
                body: body@,
                mentions: mentions.deep_view(),
            },
            Job::Reply { view, in_reply_to, body, mentions } => JobModel::Reply {
                view: view@,
                in_reply_to: in_reply_to@,
                body: body@,
                mentions: mentions.deep_view(),
            },
            Job::Edit { view, event_id, body, mentions } => JobModel::Edit {
                view: view@,
                event_id: event_id@,
                body: body@,
                mentions: mentions.deep_view(),
            },
            Job::Redact { view, event_id } => JobModel::Redact { view: view@, event_id: event_id@ },
            Job::ToggleReaction { view, event_id, key } => JobModel::ToggleReaction {
                view: view@,
                event_id: event_id@,
                key: key@,
            },
            Job::MarkRead(a) => JobModel::MarkRead(a@),
            Job::ListThreads(a) => JobModel::ListThreads(a@),
            Job::ListMembers(a) => JobModel::ListMembers(a@),
            Job::ListRooms => JobModel::ListRooms,
            Job::SendTyping { room_id, typing } => JobModel::SendTyping { room_id: room_id@, typing: *typing },
            Job::StartVerification => JobModel::StartVerification,
            Job::AcceptVerification => JobModel::AcceptVerification,
            Job::ConfirmVerification => JobModel::ConfirmVerification,
            Job::MismatchVerification => JobModel::MismatchVerification,
            Job::CancelVerification { in_progress } => JobModel::CancelVerification { in_progress: *in_progress },
            Job::FollowVerification => JobModel::FollowVerification,
            Job::Recover(a) => JobModel::Recover(a@),
            Job::EnableRecovery => JobModel::EnableRecovery,
            Job::ResetRecoveryKey => JobModel::ResetRecoveryKey,
            Job::Tell(a) => JobModel::Tell(a@),
        }
    }
}

impl DeepView for Job {
    type V = JobModel;

    open spec fn deep_view(&self) -> JobModel {
        self@
    }
}

/// Why a command is not carried out.
#[derive(Debug, PartialEq, Eq)]
pub enum Refusal {
    /// It acts on a view that is not open.
    NotOpen(matrix::View),
    /// There is no verification to accept.
    NothingToAccept,
    /// There is no verification in progress.
    NothingInProgress,
    /// There is no recovery key to try.
    NoKeyGiven,
}

/// The mathematical content of a [`Refusal`].
#[verifier::ext_equal]
pub enum RefusalModel {
    NotOpen(matrix::ViewModel),
    NothingToAccept,
    NothingInProgress,
    NoKeyGiven,
}

impl View for Refusal {
    type V = RefusalModel;

    open spec fn view(&self) -> RefusalModel {
        match self {
            Refusal::NotOpen(a) => RefusalModel::NotOpen(a@),
            Refusal::NothingToAccept => RefusalModel::NothingToAccept,
            Refusal::NothingInProgress => RefusalModel::NothingInProgress,
            Refusal::NoKeyGiven => RefusalModel::NoKeyGiven,
        }
    }
}

impl DeepView for Refusal {
    type V = RefusalModel;

    open spec fn deep_view(&self) -> RefusalModel {
        self@
    }
}

/// What the worker hears.
#[derive(Debug, PartialEq, Eq)]
pub enum Incoming {
    /// The app asks for something.
    Command(Command),
    /// The app is gone.
    Closed,
    /// Another device asks to verify.
    VerificationRequested,
    /// Room keys arrived faster than they could be noted.
    KeysLost,
    /// The room list changed.
    RoomsChanged,
    /// The connection changed.
    Sync(SyncState),
}

/// The mathematical content of a [`Incoming`].
#[verifier::ext_equal]
pub enum IncomingModel {
    Command(CommandModel),
    Closed,
    VerificationRequested,
    KeysLost,
    RoomsChanged,
    Sync(SyncState),
}

impl View for Incoming {
    type V = IncomingModel;

    open spec fn view(&self) -> IncomingModel {
        match self {
            Incoming::Command(a) => IncomingModel::Command(a@),
            Incoming::Closed => IncomingModel::Closed,
            Incoming::VerificationRequested => IncomingModel::VerificationRequested,
            Incoming::KeysLost => IncomingModel::KeysLost,
            Incoming::RoomsChanged => IncomingModel::RoomsChanged,
            Incoming::Sync(a) => IncomingModel::Sync(*a),
        }
    }
}

impl DeepView for Incoming {
    type V = IncomingModel;

    open spec fn deep_view(&self) -> IncomingModel {
        self@
    }
}

/// How far a request to verify has got.
#[derive(Debug, PartialEq, Eq)]
pub enum RequestState {
    /// Made here, and not answered.
    Created,
    /// Made by another device, and not answered.
    Requested,
    /// Both sides agreed to verify.
    Ready,
    /// Both sides agreed on comparing emoji.
    Comparing,
    /// The sides agreed on something else.
    Unsupported,
    /// Verified.
    Done,
    /// Ended without verifying.
    Cancelled(String),
}

/// The mathematical content of a [`RequestState`].
#[verifier::ext_equal]
pub enum RequestStateModel {
    Created,
    Requested,
    Ready,
    Comparing,
    Unsupported,
    Done,
    Cancelled(Seq<char>),
}

impl View for RequestState {
    type V = RequestStateModel;

    open spec fn view(&self) -> RequestStateModel {
        match self {
            RequestState::Created => RequestStateModel::Created,
            RequestState::Requested => RequestStateModel::Requested,
            RequestState::Ready => RequestStateModel::Ready,
            RequestState::Comparing => RequestStateModel::Comparing,
            RequestState::Unsupported => RequestStateModel::Unsupported,
            RequestState::Done => RequestStateModel::Done,
            RequestState::Cancelled(a) => RequestStateModel::Cancelled(a@),
        }
    }
}

impl DeepView for RequestState {
    type V = RequestStateModel;

    open spec fn deep_view(&self) -> RequestStateModel {
        self@
    }
}

/// How far a comparison has got.
#[derive(Debug, PartialEq, Eq)]
pub enum SasState {
    /// Protocols are being negotiated.
    Negotiating,
    /// There is something to compare: the emoji, if the other device agreed to them.
    KeysExchanged(Option<Vec<(String, String)>>),
    /// We answered; the other side has not yet.
    Confirmed,
    /// Verified.
    Done,
    /// Ended without verifying.
    Cancelled(String),
}

/// The mathematical content of a [`SasState`].
#[verifier::ext_equal]
pub enum SasStateModel {
    Negotiating,
    KeysExchanged(Option<Seq<(Seq<char>, Seq<char>)>>),
    Confirmed,
    Done,
    Cancelled(Seq<char>),
}

impl View for SasState {
    type V = SasStateModel;

    open spec fn view(&self) -> SasStateModel {
        match self {
            SasState::Negotiating => SasStateModel::Negotiating,
            SasState::KeysExchanged(a) => SasStateModel::KeysExchanged(a.deep_view()),
            SasState::Confirmed => SasStateModel::Confirmed,
            SasState::Done => SasStateModel::Done,
            SasState::Cancelled(a) => SasStateModel::Cancelled(a@),
        }
    }
}

impl DeepView for SasState {
    type V = SasStateModel;

    open spec fn deep_view(&self) -> SasStateModel {
        self@
    }
}

/// What following a verification does next.
#[derive(Debug, Clone, Copy, PartialEq, Eq, Structural)]
pub enum Follow {
    /// Wait for it to change.
    Wait,
    /// Start the comparison, and wait.
    StartComparison,
    /// Follow the comparison from here.
    FollowComparison,
    /// Cancel it, and stop.
    Withdraw,
    /// Stop.
    End,
}

/// A room that a space lists.
#[derive(Debug, PartialEq, Eq)]
pub struct SpaceChild {
    pub space_id: String,
    pub room_id: String,
    /// Whether the space still lists it: a child is removed by emptying its entry.
    pub listed: bool,
}

/// The mathematical content of a [`SpaceChild`].
#[verifier::ext_equal]
pub struct SpaceChildModel {
    pub space_id: Seq<char>,
    pub room_id: Seq<char>,
    pub listed: bool,
}

impl View for SpaceChild {
    type V = SpaceChildModel;

    open spec fn view(&self) -> SpaceChildModel {
        SpaceChildModel {
            space_id: self.space_id@,
            room_id: self.room_id@,
            listed: self.listed,
        }
    }
}

impl DeepView for SpaceChild {
    type V = SpaceChildModel;

    open spec fn deep_view(&self) -> SpaceChildModel {
        self@
    }
}

/// A room as the connection knows it.
#[derive(Debug, PartialEq, Eq)]
pub struct RoomSource {
    pub room_id: String,
    pub display_name: Option<String>,
    pub is_space: bool,
    pub is_direct: bool,
    pub is_encrypted: bool,
    pub notification_count: u64,
    pub highlight_count: u64,
}

/// The mathematical content of a [`RoomSource`].
#[verifier::ext_equal]
pub struct RoomSourceModel {
    pub room_id: Seq<char>,
    pub display_name: Option<Seq<char>>,
    pub is_space: bool,
    pub is_direct: bool,
    pub is_encrypted: bool,
    pub notification_count: u64,
    pub highlight_count: u64,
}

impl View for RoomSource {
    type V = RoomSourceModel;

    open spec fn view(&self) -> RoomSourceModel {
        RoomSourceModel {
            room_id: self.room_id@,
            display_name: self.display_name.deep_view(),
            is_space: self.is_space,
            is_direct: self.is_direct,
            is_encrypted: self.is_encrypted,
            notification_count: self.notification_count,
            highlight_count: self.highlight_count,
        }
    }
}

impl DeepView for RoomSource {
    type V = RoomSourceModel;

    open spec fn deep_view(&self) -> RoomSourceModel {
        self@
    }
}

/// A message of a timeline.
#[derive(Debug, PartialEq, Eq)]
pub struct ItemMessage {
    pub body: String,
    pub is_edited: bool,
    pub thread_root: Option<String>,
    pub thread_replies: Option<u32>,
    pub reactions: Vec<(String, usize)>,
}

/// The mathematical content of a [`ItemMessage`].
#[verifier::ext_equal]
pub struct ItemMessageModel {
    pub body: Seq<char>,
    pub is_edited: bool,
    pub thread_root: Option<Seq<char>>,
    pub thread_replies: Option<u32>,
    pub reactions: Seq<(Seq<char>, usize)>,
}

impl View for ItemMessage {
    type V = ItemMessageModel;

    open spec fn view(&self) -> ItemMessageModel {
        ItemMessageModel {
            body: self.body@,
            is_edited: self.is_edited,
            thread_root: self.thread_root.deep_view(),
            thread_replies: self.thread_replies,
            reactions: self.reactions.deep_view(),
        }
    }
}

impl DeepView for ItemMessage {
    type V = ItemMessageModel;

    open spec fn deep_view(&self) -> ItemMessageModel {
        self@
    }
}

/// What an event of a timeline is.
#[derive(Debug, PartialEq, Eq)]
pub enum ItemContent {
    /// A message that can be shown.
    Message(ItemMessage),
    /// An event that cannot be read.
    Undecryptable,
    /// An event that was deleted.
    Redacted,
    /// Anything else.
    Other,
}

/// The mathematical content of a [`ItemContent`].
#[verifier::ext_equal]
pub enum ItemContentModel {
    Message(ItemMessageModel),
    Undecryptable,
    Redacted,
    Other,
}

impl View for ItemContent {
    type V = ItemContentModel;

    open spec fn view(&self) -> ItemContentModel {
        match self {
            ItemContent::Message(a) => ItemContentModel::Message(a@),
            ItemContent::Undecryptable => ItemContentModel::Undecryptable,
            ItemContent::Redacted => ItemContentModel::Redacted,
            ItemContent::Other => ItemContentModel::Other,
        }
    }
}

impl DeepView for ItemContent {
    type V = ItemContentModel;

    open spec fn deep_view(&self) -> ItemContentModel {
        self@
    }
}

/// An event of a timeline.
#[derive(Debug, PartialEq, Eq)]
pub struct EventItem {
    pub event_id: Option<String>,
    pub sender: String,
    pub localpart: String,
    /// None while the profile is not loaded.
    pub display_name: Option<String>,
    pub timestamp: u64,
    pub is_own: bool,
    pub shield: Shield,
    /// The newest edit, as it came.
    pub raw: Option<String>,
    pub content: ItemContent,
}

/// The mathematical content of a [`EventItem`].
#[verifier::ext_equal]
pub struct EventItemModel {
    pub event_id: Option<Seq<char>>,
    pub sender: Seq<char>,
    pub localpart: Seq<char>,
    pub display_name: Option<Seq<char>>,
    pub timestamp: u64,
    pub is_own: bool,
    pub shield: Shield,
    pub raw: Option<Seq<char>>,
    pub content: ItemContentModel,
}

impl View for EventItem {
    type V = EventItemModel;

    open spec fn view(&self) -> EventItemModel {
        EventItemModel {
            event_id: self.event_id.deep_view(),
            sender: self.sender@,
            localpart: self.localpart@,
            display_name: self.display_name.deep_view(),
            timestamp: self.timestamp,
            is_own: self.is_own,
            shield: self.shield,
            raw: self.raw.deep_view(),
            content: self.content@,
        }
    }
}

impl DeepView for EventItem {
    type V = EventItemModel;

    open spec fn deep_view(&self) -> EventItemModel {
        self@
    }
}

/// What a row of a timeline is.
#[derive(Debug, PartialEq, Eq)]
pub enum ItemKind {
    /// A day boundary.
    DateDivider(u64),
    /// The user's own read marker.
    ReadMarker,
    /// Start of the timeline.
    TimelineStart,
    /// Nothing that is known.
    Nothing,
    /// An event.
    Event(EventItem),
}

/// The mathematical content of a [`ItemKind`].
#[verifier::ext_equal]
pub enum ItemKindModel {
    DateDivider(u64),
    ReadMarker,
    TimelineStart,
    Nothing,
    Event(EventItemModel),
}

impl View for ItemKind {
    type V = ItemKindModel;

    open spec fn view(&self) -> ItemKindModel {
        match self {
            ItemKind::DateDivider(a) => ItemKindModel::DateDivider(*a),
            ItemKind::ReadMarker => ItemKindModel::ReadMarker,
            ItemKind::TimelineStart => ItemKindModel::TimelineStart,
            ItemKind::Nothing => ItemKindModel::Nothing,
            ItemKind::Event(a) => ItemKindModel::Event(a@),
        }
    }
}

impl DeepView for ItemKind {
    type V = ItemKindModel;

    open spec fn deep_view(&self) -> ItemKindModel {
        self@
    }
}

/// A row of a timeline, as the connection knows it.
#[derive(Debug, PartialEq, Eq)]
pub struct Item {
    pub id: String,
    pub kind: ItemKind,
}

/// The mathematical content of a [`Item`].
#[verifier::ext_equal]
pub struct ItemModel {
    pub id: Seq<char>,
    pub kind: ItemKindModel,
}

impl View for Item {
    type V = ItemModel;

    open spec fn view(&self) -> ItemModel {
        ItemModel {
            id: self.id@,
            kind: self.kind@,
        }
    }
}

impl DeepView for Item {
    type V = ItemModel;

    open spec fn deep_view(&self) -> ItemModel {
        self@
    }
}

/// The worker's own state: the views it streams, and whether a verification is in progress.
#[derive(Debug)]
pub struct Worker {
    pub views: Table<matrix::View, ()>,
    pub verifying: bool,
}

/// The mathematical content of a [`Worker`].
#[verifier::ext_equal]
pub struct WorkerModel {
    pub views: Set<ViewModel>,
    pub verifying: bool,
}

impl View for Worker {
    type V = WorkerModel;

    open spec fn view(&self) -> WorkerModel {
        WorkerModel { views: self.views@.dom(), verifying: self.verifying }
    }
}

/// The content of what came of a command.
pub open spec fn outcome(r: Result<Job, Refusal>) -> Result<JobModel, RefusalModel> {
    match r {
        Ok(job) => Ok(job@),
        Err(refusal) => Err(refusal@),
    }
}

impl RefusalModel {
    /// What the user is told, of all but a view that is not open.
    pub open spec fn message(self) -> Seq<char> {
        match self {
            RefusalModel::NotOpen(_) => "view is not open"@,
            RefusalModel::NothingToAccept => "no verification to accept"@,
            RefusalModel::NothingInProgress => "no verification in progress"@,
            RefusalModel::NoKeyGiven => "no recovery key given"@,
        }
    }
}

impl Refusal {
    /// What the user is told. A view that is not open is named by whoever shows it.
    pub fn message(&self) -> (r: &'static str)
        ensures
            r@ == self@.message(),
    {
        match self {
            Refusal::NotOpen(_) => "view is not open",
            Refusal::NothingToAccept => "no verification to accept",
            Refusal::NothingInProgress => "no verification in progress",
            Refusal::NoKeyGiven => "no recovery key given",
        }
    }
}

impl WorkerModel {
    /// A job on a view, which has to be open for it.
    pub open spec fn on(self, view: ViewModel, job: JobModel) -> Result<JobModel, RefusalModel> {
        if self.views.contains(view) {
            Ok(job)
        } else {
            Err(RefusalModel::NotOpen(view))
        }
    }

    /// A job on the verification in progress.
    pub open spec fn on_verification(self, job: JobModel) -> Result<JobModel, RefusalModel> {
        if self.verifying {
            Ok(job)
        } else {
            Err(RefusalModel::NothingInProgress)
        }
    }

    /// The job that a command comes to.
    pub open spec fn job_for(self, command: CommandModel) -> Result<JobModel, RefusalModel> {
        match command {
            CommandModel::Shutdown => Ok(JobModel::Nothing),
            CommandModel::OpenView(view) => Ok(
                if self.views.contains(view) {
                    JobModel::Nothing
                } else {
                    JobModel::Open(view)
                },
            ),
            CommandModel::CloseView(view) => Ok(JobModel::Close(view)),
            CommandModel::Paginate { view, count } => self.on(
                view,
                JobModel::Paginate {
                    view,
                    count: if count == 0 {
                        PAGINATE_BATCH
                    } else {
                        count
                    },
                },
            ),
            CommandModel::SendMessage { view, body, mentions } => self.on(view, JobModel::Send { view, body, mentions }),
            CommandModel::SendReply { view, in_reply_to, body, mentions } => self.on(
                view,
                JobModel::Reply { view, in_reply_to, body, mentions },
            ),
            CommandModel::Edit { view, event_id, body, mentions } => self.on(
                view,
                JobModel::Edit { view, event_id, body, mentions },
            ),
            CommandModel::Redact { view, event_id } => self.on(view, JobModel::Redact { view, event_id }),
            CommandModel::ListThreads { room_id } => Ok(JobModel::ListThreads(room_id)),
            CommandModel::ListMembers { room_id } => Ok(JobModel::ListMembers(room_id)),
            CommandModel::ToggleReaction { view, event_id, key } => self.on(
                view,
                JobModel::ToggleReaction { view, event_id, key },
            ),
            CommandModel::SendTyping { room_id, typing } => Ok(JobModel::SendTyping { room_id, typing }),
            CommandModel::MarkRead { view } => self.on(view, JobModel::MarkRead(view)),
            CommandModel::StartVerification => Ok(JobModel::StartVerification),
            CommandModel::AcceptVerification => if self.verifying {
                Ok(JobModel::AcceptVerification)
            } else {
                Err(RefusalModel::NothingToAccept)
            },
            CommandModel::ConfirmVerification => self.on_verification(JobModel::ConfirmVerification),
            CommandModel::MismatchVerification => self.on_verification(JobModel::MismatchVerification),
            CommandModel::CancelVerification => Ok(JobModel::CancelVerification { in_progress: self.verifying }),
            CommandModel::RecoverWithKey(key) => if trim(key).len() == 0 {
                Err(RefusalModel::NoKeyGiven)
            } else {
                Ok(JobModel::Recover(trim(key)))
            },
            CommandModel::EnableRecovery => Ok(JobModel::EnableRecovery),
            CommandModel::ResetRecoveryKey => Ok(JobModel::ResetRecoveryKey),
        }
    }

    /// The worker after a command.
    pub open spec fn after_command(self, command: CommandModel) -> WorkerModel {
        match command {
            CommandModel::CloseView(view) => WorkerModel { views: self.views.remove(view), ..self },
            CommandModel::CancelVerification => WorkerModel { verifying: false, ..self },
            _ => self,
        }
    }

    /// The job that something heard comes to.
    pub open spec fn job_on(self, incoming: IncomingModel) -> Result<JobModel, RefusalModel> {
        match incoming {
            IncomingModel::Closed | IncomingModel::Command(CommandModel::Shutdown) => Ok(JobModel::Stop),
            IncomingModel::Command(command) => self.job_for(command),
            IncomingModel::VerificationRequested => Ok(JobModel::FollowVerification),
            IncomingModel::KeysLost => Ok(
                JobModel::Tell(
                    WorkerEventModel::Warning(
                        "missed some key updates; reopen the room if a message still cannot be read"@,
                    ),
                ),
            ),
            IncomingModel::RoomsChanged => Ok(JobModel::ListRooms),
            IncomingModel::Sync(state) => Ok(JobModel::Tell(WorkerEventModel::SyncState(state))),
        }
    }

    /// The worker after it heard something. A verification that another device asks for takes
    /// the place of any other.
    pub open spec fn after_hearing(self, incoming: IncomingModel) -> WorkerModel {
        match incoming {
            IncomingModel::Command(command) => self.after_command(command),
            IncomingModel::VerificationRequested => WorkerModel { verifying: true, ..self },
            _ => self,
        }
    }
}

impl Worker {
    pub fn new() -> (r: Self)
        ensures
            r@ == (WorkerModel { views: Set::empty(), verifying: false }),
    {
        let r = Worker { views: Table::new(), verifying: false };
        assert(r@.views =~= Set::empty());
        r
    }

    fn on(&self, view: matrix::View, job: Job) -> (r: Result<Job, Refusal>)
        ensures
            outcome(r) == self@.on(view@, job@),
    {
        if self.views.contains_key(&view) {
            Ok(job)
        } else {
            Err(Refusal::NotOpen(view))
        }
    }

    fn on_verification(&self, job: Job) -> (r: Result<Job, Refusal>)
        ensures
            outcome(r) == self@.on_verification(job@),
    {
        if self.verifying {
            Ok(job)
        } else {
            Err(Refusal::NothingInProgress)
        }
    }

    /// Decide what a command comes to.
    pub fn handle(&mut self, command: Command) -> (r: Result<Job, Refusal>)
        ensures
            outcome(r) == old(self)@.job_for(command@),
            final(self)@ == old(self)@.after_command(command@),
    {
        match command {
            Command::Shutdown => Ok(Job::Nothing),
            Command::OpenView(view) => {
                if self.views.contains_key(&view) {
                    Ok(Job::Nothing)
                } else {
                    Ok(Job::Open(view))
                }
            },
            Command::CloseView(view) => {
                self.views.remove(&view);
                Ok(Job::Close(view))
            },
            Command::Paginate { view, count } => {
                let count = if count == 0 {
                    PAGINATE_BATCH
                } else {
                    count
                };
                let at = view.clone();
                self.on(at, Job::Paginate { view, count })
            },
            Command::SendMessage { view, body, mentions } => {
                let at = view.clone();
                self.on(at, Job::Send { view, body, mentions })
            },
            Command::SendReply { view, in_reply_to, body, mentions } => {
                let at = view.clone();
                self.on(at, Job::Reply { view, in_reply_to, body, mentions })
            },
            Command::Edit { view, event_id, body, mentions } => {
                let at = view.clone();
                self.on(at, Job::Edit { view, event_id, body, mentions })
            },
            Command::Redact { view, event_id } => {
                let at = view.clone();
                self.on(at, Job::Redact { view, event_id })
            },
            Command::ListThreads { room_id } => Ok(Job::ListThreads(room_id)),
            Command::ListMembers { room_id } => Ok(Job::ListMembers(room_id)),
            Command::ToggleReaction { view, event_id, key } => {
                let at = view.clone();
                self.on(at, Job::ToggleReaction { view, event_id, key })
            },
            Command::SendTyping { room_id, typing } => Ok(Job::SendTyping { room_id, typing }),
            Command::MarkRead { view } => {
                let at = view.clone();
                self.on(at, Job::MarkRead(view))
            },
            Command::StartVerification => Ok(Job::StartVerification),
            Command::AcceptVerification => {
                if self.verifying {
                    Ok(Job::AcceptVerification)
                } else {
                    Err(Refusal::NothingToAccept)
                }
            },
            Command::ConfirmVerification => self.on_verification(Job::ConfirmVerification),
            // Reported as a mismatch rather than a cancel: a cancel means someone changed
            // their mind, a mismatch means the keys did not agree.
            Command::MismatchVerification => self.on_verification(Job::MismatchVerification),
            Command::CancelVerification => {
                let in_progress = self.verifying;
                self.verifying = false;
                Ok(Job::CancelVerification { in_progress })
            },
            Command::RecoverWithKey(key) => {
                // Trimmed because a recovery key is copied out of a password manager or typed
                // from paper, and a trailing space is not a wrong key.
                let key = trimmed(&chars_of(key.as_str()));
                if key.len() == 0 {
                    Err(Refusal::NoKeyGiven)
                } else {
                    Ok(Job::Recover(string_of(&key)))
                }
            },
            Command::EnableRecovery => Ok(Job::EnableRecovery),
            Command::ResetRecoveryKey => Ok(Job::ResetRecoveryKey),
        }
    }

    /// Decide what something heard comes to.
    pub fn run(&mut self, incoming: Incoming) -> (r: Result<Job, Refusal>)
        ensures
            outcome(r) == old(self)@.job_on(incoming@),
            final(self)@ == old(self)@.after_hearing(incoming@),
    {
        match incoming {
            Incoming::Closed => Ok(Job::Stop),
            Incoming::Command(Command::Shutdown) => Ok(Job::Stop),
            Incoming::Command(command) => self.handle(command),
            Incoming::VerificationRequested => {
                self.verifying = true;
                Ok(Job::FollowVerification)
            },
            // There is no way to ask for everything again, so the gap is reported rather than
            // silently left.
            Incoming::KeysLost => Ok(
                Job::Tell(
                    WorkerEvent::Warning(
                        "missed some key updates; reopen the room if a message still cannot be read".to_owned(),
                    ),
                ),
            ),
            Incoming::RoomsChanged => Ok(Job::ListRooms),
            Incoming::Sync(state) => Ok(Job::Tell(WorkerEvent::SyncState(state))),
        }
    }

    /// A view began to be streamed.
    pub fn opened(&mut self, view: &matrix::View)
        ensures
            final(self)@ == (WorkerModel { views: old(self)@.views.insert(view@), ..old(self)@ }),
    {
        self.views.insert(view.clone(), ());
    }

    /// A verification that was started here is in progress.
    pub fn verification_started(&mut self)
        ensures
            final(self)@ == (WorkerModel { verifying: true, ..old(self)@ }),
    {
        self.verifying = true;
    }

    /// Which open views to decrypt again, and with which sessions, now that these room keys
    /// arrived: pairs of room and session.
    ///
    /// Only the views of the rooms those keys belong to, and only with the sessions that
    /// arrived. Trying every open view on every key would run decryption across the whole
    /// app each time a single message is sent to us in any room.
    pub fn retry_decryption(&self, keys: &Vec<(String, String)>) -> (r: Vec<(matrix::View, Vec<String>)>)
        ensures
            retries(self@.views, keys.deep_view(), r.deep_view()),
    {
        let n = self.views.len();
        let ghost order = self.views.order();
        let ghost all = keys.deep_view();
        let mut out: Vec<(matrix::View, Vec<String>)> = Vec::new();
        let mut i: usize = 0;
        while i < n
            invariant
                i <= n,
                order == self.views.order(),
                order.len() == n,
                order.no_duplicates(),
                order.to_set() == self@.views,
                all == keys.deep_view(),
                forall|k: int|
                    0 <= k < out@.len() ==> {
                        &&& order.take(i as int).contains((#[trigger] out.deep_view()[k]).0)
                        &&& out.deep_view()[k].1 == sessions_for(all, out.deep_view()[k].0.room_id)
                        &&& out.deep_view()[k].1.len() > 0
                    },
                forall|k: int, l: int|
                    0 <= k < l < out@.len() ==> (#[trigger] out.deep_view()[k]).0 != (#[trigger] out.deep_view()[l]).0,
                forall|j: int|
                    0 <= j < i && sessions_for(all, (#[trigger] order[j]).room_id).len() > 0 ==> exists|k: int|
                        0 <= k < out@.len() && (#[trigger] out.deep_view()[k]).0 == order[j],
            decreases n - i,
        {
            let (view, _) = self.views.at(i);
            let sessions = sessions_of(keys, view.room_id.as_str());
            let ghost so_far = out.deep_view();
            proof {
                assert(order.take(i + 1) =~= order.take(i as int).push(order[i as int]));
                assert forall|v: ViewModel| order.take(i as int).contains(v) implies order.take(i + 1).contains(v) by {
                    let k = order.take(i as int).index_of(v);
                    assert(order.take(i + 1)[k] == v);
                }
                assert(order.take(i + 1)[i as int] == order[i as int]);
                assert(!order.take(i as int).contains(order[i as int]));
            }
            if sessions.len() > 0 {
                out.push((view.clone(), sessions));
                assert(out.deep_view() =~= so_far.push((order[i as int], sessions.deep_view())));
                assert(out.deep_view()[so_far.len() as int].0 == order[i as int]);
                assert forall|j: int|
                    0 <= j <= i && sessions_for(all, (#[trigger] order[j]).room_id).len() > 0 implies exists|k: int|
                    0 <= k < out@.len() && (#[trigger] out.deep_view()[k]).0 == order[j] by {
                    if j < i {
                        let k = choose|k: int| 0 <= k < so_far.len() && (#[trigger] so_far[k]).0 == order[j];
                        assert(out.deep_view()[k].0 == order[j]);
                    }
                }
            }
            i += 1;
        }
        proof {
            let found = out.deep_view();
            assert(order.take(n as int) =~= order);
            assert forall|k: int| 0 <= k < found.len() implies self@.views.contains((#[trigger] found[k]).0) by {
                assert(order.contains(found[k].0));
                assert(order.to_set().contains(found[k].0));
            }
            assert forall|v: ViewModel| #[trigger]
                self@.views.contains(v) && sessions_for(all, v.room_id).len() > 0 implies exists|k: int|
                0 <= k < found.len() && (#[trigger] found[k]).0 == v by {
                assert(order.to_set().contains(v));
                let j = order.index_of(v);
                assert(order[j] == v);
            }
        }
        out
    }
}

/// The sessions of a room among these keys.
pub open spec fn sessions_for(keys: Seq<(Seq<char>, Seq<char>)>, room_id: Seq<char>) -> Seq<Seq<char>>
    decreases keys.len(),
{
    if keys.len() == 0 {
        Seq::empty()
    } else if keys.last().0 == room_id {
        sessions_for(keys.drop_last(), room_id).push(keys.last().1)
    } else {
        sessions_for(keys.drop_last(), room_id)
    }
}

/// Whether these are the views to decrypt again: each open view of a room that keys arrived
/// for, once, with the sessions of that room.
pub open spec fn retries(
    views: Set<ViewModel>,
    keys: Seq<(Seq<char>, Seq<char>)>,
    r: Seq<(ViewModel, Seq<Seq<char>>)>,
) -> bool {
    &&& forall|k: int|
        0 <= k < r.len() ==> {
            &&& views.contains((#[trigger] r[k]).0)
            &&& r[k].1 == sessions_for(keys, r[k].0.room_id)
            &&& r[k].1.len() > 0
        }
    &&& forall|k: int, l: int| 0 <= k < l < r.len() ==> (#[trigger] r[k]).0 != (#[trigger] r[l]).0
    &&& forall|v: ViewModel| #[trigger]
        views.contains(v) && sessions_for(keys, v.room_id).len() > 0 ==> exists|k: int|
            0 <= k < r.len() && (#[trigger] r[k]).0 == v
}

fn sessions_of(keys: &Vec<(String, String)>, room_id: &str) -> (r: Vec<String>)
    ensures
        r.deep_view() == sessions_for(keys.deep_view(), room_id@),
{
    let ghost all = keys.deep_view();
    let mut out: Vec<String> = Vec::new();
    let mut i: usize = 0;
    assert(out.deep_view() =~= sessions_for(all.take(0), room_id@));
    while i < keys.len()
        invariant
            i <= keys.len(),
            all == keys.deep_view(),
            out.deep_view() == sessions_for(all.take(i as int), room_id@),
        decreases keys.len() - i,
    {
        let ghost so_far = out.deep_view();
        proof {
            assert(all.take(i + 1).drop_last() =~= all.take(i as int));
            assert(all.take(i + 1).last() == (keys@[i as int].0@, keys@[i as int].1@));
        }
        if same(keys[i].0.as_str(), room_id) {
            out.push(keys[i].1.clone());
            assert(out.deep_view() =~= so_far.push(keys@[i as int].1@));
        }
        i += 1;
    }
    assert(all.take(all.len() as int) =~= all);
    out
}

// -------------------------------------------------------------------------- timelines

/// Whether a pane that still has nothing to show is worth another page.
///
/// One request is not reliably one page of history: it may be met from what is already
/// loaded, and a room pane hides threaded events, so a page that is entirely thread replies
/// adds nothing it can draw. A pane that already has content asks once.
pub fn keep_paginating(attempt: u8, shown: usize, reached_start: bool) -> (r: bool)
    ensures
        r == (shown == 0 && !reached_start && attempt < PAGINATE_ATTEMPTS),
{
    shown == 0 && !reached_start && attempt < PAGINATE_ATTEMPTS
}

/// What follows a request for older events.
#[derive(Debug, Clone, Copy, PartialEq, Eq, Structural)]
pub enum AfterPage {
    /// Ask again.
    Again,
    /// Send what the view shows, and be done.
    Tell,
    /// Send what the view shows, and report that the request failed.
    TellThenFail,
}

/// What follows the request with this number, its outcome, which says whether the start of the
/// room was reached, and so many events that the view then shows.
pub open spec fn after_page(attempt: u8, outcome: Result<bool, ()>, shown: usize) -> AfterPage {
    match outcome {
        Err(_) => AfterPage::TellThenFail,
        Ok(reached_start) => if !reached_start && shown == 0 && attempt < PAGINATE_ATTEMPTS {
            AfterPage::Again
        } else {
            AfterPage::Tell
        },
    }
}

/// Decide what follows a request for older events.
///
/// A page that adds nothing produces no update, and the app waits for a snapshot before it asks
/// for more; so one is sent whatever happened, a failure included.
pub fn paginated(attempt: u8, outcome: Result<bool, ()>, shown: usize) -> (r: AfterPage)
    ensures
        r == after_page(attempt, outcome, shown),
        r is TellThenFail <==> outcome is Err,
        r is Again <==> outcome == Ok::<bool, ()>(false) && shown == 0 && attempt < PAGINATE_ATTEMPTS,
{
    match outcome {
        Err(_) => AfterPage::TellThenFail,
        Ok(reached_start) => if keep_paginating(attempt, shown, reached_start) {
            AfterPage::Again
        } else {
            AfterPage::Tell
        },
    }
}

/// The last request of a run that has come to this one, and what follows it: requests are made
/// until one of them is not followed by another. `pages` is what each of them meets.
pub open spec fn last_page(pages: spec_fn(u8) -> (Result<bool, ()>, usize), attempt: u8) -> (u8, AfterPage)
    decreases PAGINATE_ATTEMPTS - attempt,
{
    let next = after_page(attempt, pages(attempt).0, pages(attempt).1);
    if next is Again && attempt < PAGINATE_ATTEMPTS {
        last_page(pages, (attempt + 1) as u8)
    } else {
        (attempt, next)
    }
}

/// A run asks a bounded number of times. It ends by sending what the view shows, once, and with
/// a failure exactly if the last request failed.
pub proof fn law_loading_older_events_ends(pages: spec_fn(u8) -> (Result<bool, ()>, usize))
    ensures
        1 <= last_page(pages, 1).0 <= PAGINATE_ATTEMPTS,
        !(last_page(pages, 1).1 is Again),
        last_page(pages, 1).1 is TellThenFail <==> pages(last_page(pages, 1).0).0 is Err,
{
    lemma_last_page(pages, 1);
}

proof fn lemma_last_page(pages: spec_fn(u8) -> (Result<bool, ()>, usize), attempt: u8)
    requires
        attempt <= PAGINATE_ATTEMPTS,
    ensures
        attempt <= last_page(pages, attempt).0 <= PAGINATE_ATTEMPTS,
        !(last_page(pages, attempt).1 is Again),
        last_page(pages, attempt).1 is TellThenFail <==> pages(last_page(pages, attempt).0).0 is Err,
    decreases PAGINATE_ATTEMPTS - attempt,
{
    let next = after_page(attempt, pages(attempt).0, pages(attempt).1);
    if next is Again {
        lemma_last_page(pages, (attempt + 1) as u8);
    }
}

/// What a snapshot of so many entries is, for a pane that shows so many.
pub open spec fn classified(snapshot: usize, showing: usize, refilling: bool) -> Snapshot {
    if snapshot > 0 || showing == 0 {
        Snapshot::Show
    } else if refilling {
        Snapshot::Wait
    } else {
        Snapshot::Refill
    }
}

/// Decide whether an empty snapshot is news or an artefact.
///
/// After a gap in the sync the cache of a room is unloaded, and every timeline of it then
/// publishes a snapshot of nothing. Forwarded as it is, that empties every pane at once. So
/// an empty snapshot for a view that was showing something is answered by loading older
/// events rather than passed on.
pub fn classify(snapshot: usize, showing: usize, refilling: bool) -> (r: Snapshot)
    ensures
        r == classified(snapshot, showing, refilling),
{
    if snapshot > 0 || showing == 0 {
        Snapshot::Show
    } else if refilling {
        Snapshot::Wait
    } else {
        Snapshot::Refill
    }
}

impl Forwarding {
    /// What is shown after a snapshot.
    pub open spec fn after(self, snapshot: usize) -> Forwarding {
        match classified(snapshot, self.showing, self.refilling) {
            Snapshot::Show => Forwarding { showing: snapshot, refilling: false },
            Snapshot::Refill => Forwarding { refilling: true, ..self },
            Snapshot::Wait => self,
        }
    }

    /// A view that was just opened, with this many entries.
    pub fn new(initial: usize) -> (r: Self)
        ensures
            r == (Forwarding { showing: initial, refilling: false }),
    {
        Forwarding { showing: initial, refilling: false }
    }

    /// What to do with the next snapshot of the view.
    pub fn next(&mut self, snapshot: usize) -> (r: Snapshot)
        ensures
            r == classified(snapshot, old(self).showing, old(self).refilling),
            *final(self) == old(self).after(snapshot),
    {
        let r = classify(snapshot, self.showing, self.refilling);
        match r {
            Snapshot::Show => {
                self.showing = snapshot;
                self.refilling = false;
            },
            Snapshot::Refill => {
                self.refilling = true;
            },
            Snapshot::Wait => {},
        }
        r
    }
}

/// A pane that shows something is never blanked by a snapshot, and asks for a refill once.
pub proof fn law_a_transcript_is_not_blanked(f: Forwarding)
    requires
        f.showing > 0,
    ensures
        f.after(0).showing == f.showing,
        classified(0, f.after(0).showing, f.after(0).refilling) == Snapshot::Wait,
        forall|n: usize| n > 0 ==> f.after(0).after(n) == (Forwarding { showing: n, refilling: false }),
{
}

/// Whether an event may carry the read receipt for a view.
pub open spec fn belongs(view_root: Option<Seq<char>>, event_id: Seq<char>, event_root: Option<Seq<char>>) -> bool {
    match view_root {
        None => event_root is None,
        Some(root) => event_root == Some(root) || event_id == root,
    }
}

/// A text that may be missing.
pub open spec fn text_of(s: Option<&str>) -> Option<Seq<char>> {
    match s {
        Some(s) => Some(s@),
        None => None,
    }
}

/// Whether an event may carry the read receipt for a view.
///
/// The same question the homeserver asks when it validates the receipt's thread. The room
/// pane hides threaded events, so its receipt goes against an event that is in no thread; a
/// thread pane's receipt names that thread, and the root qualifies.
pub fn belongs_to(view_root: Option<&str>, event_id: &str, event_root: Option<&str>) -> (r: bool)
    ensures
        r == belongs(text_of(view_root), event_id@, text_of(event_root)),
{
    match view_root {
        None => event_root.is_none(),
        Some(root) => same(event_id, root) || (match event_root {
            Some(other) => same(other, root),
            None => false,
        }),
    }
}

/// The event that a receipt may name, if an event of a timeline is one.
pub open spec fn nameable(view: ViewModel, item: ShownEventModel) -> Option<Seq<char>> {
    match item.event_id {
        Some(id) => if belongs(view.thread_root, id, item.thread_root) {
            Some(id)
        } else {
            None
        },
        None => None,
    }
}

/// The newest of these that a receipt for a view may name.
pub open spec fn newest_nameable(view: ViewModel, items: Seq<ShownEventModel>) -> Option<Seq<char>>
    decreases items.len(),
{
    if items.len() == 0 {
        None
    } else if nameable(view, items.last()) is Some {
        nameable(view, items.last())
    } else {
        newest_nameable(view, items.drop_last())
    }
}

/// The newest event that a receipt for a view is allowed to name.
///
/// Picked from what the view displays, so the receipt is consistent with the pane by
/// construction; reactions never appear here at all, being folded into the message they
/// annotate.
pub fn receipt_target(items: &Vec<ShownEvent>, view: &matrix::View) -> (r: Option<String>)
    ensures
        r.deep_view() == newest_nameable(view@, items.deep_view()),
{
    let ghost all = items.deep_view();
    let root = match &view.thread_root {
        Some(root) => Some(root.as_str()),
        None => None,
    };
    let mut n = items.len();
    assert(all.take(n as int) =~= all);
    while n > 0
        invariant
            n <= items.len(),
            all == items.deep_view(),
            text_of(root) == view@.thread_root,
            newest_nameable(view@, all.take(n as int)) == newest_nameable(view@, all),
        decreases n,
    {
        proof {
            assert(all.take(n as int).drop_last() =~= all.take(n - 1));
            assert(all.take(n as int).last() == items@[n - 1]@);
        }
        n -= 1;
        if let Some(id) = &items[n].event_id {
            let event_root = match &items[n].thread_root {
                Some(root) => Some(root.as_str()),
                None => None,
            };
            if belongs_to(root, id.as_str(), event_root) {
                return Some(id.clone());
            }
        }
    }
    None
}

/// A receipt for a room never names an event of a thread, and one for a thread never names an
/// event outside it.
pub proof fn law_a_receipt_names_what_the_view_shows(view: ViewModel, items: Seq<ShownEventModel>)
    ensures
        match newest_nameable(view, items) {
            Some(id) => exists|i: int|
                0 <= i < items.len() && (#[trigger] items[i]).event_id == Some(id) && belongs(
                    view.thread_root,
                    id,
                    items[i].thread_root,
                ),
            None => true,
        },
    decreases items.len(),
{
    if items.len() > 0 {
        let n = items.len() - 1;
        if nameable(view, items.last()) is Some {
            assert(items[n].event_id == nameable(view, items.last()));
        } else {
            law_a_receipt_names_what_the_view_shows(view, items.drop_last());
            if let Some(id) = newest_nameable(view, items) {
                let i = choose|i: int|
                    0 <= i < items.drop_last().len() && (#[trigger] items.drop_last()[i]).event_id == Some(id) && belongs(
                        view.thread_root,
                        id,
                        items.drop_last()[i].thread_root,
                    );
                assert(items[i] == items.drop_last()[i]);
            }
        }
    }
}

// -------------------------------------------------------------------------- room lists

/// A thread for the picker. One line of it: the picker is a list, not a transcript.
pub fn thread_summary(root_event_id: &str, localpart: &str, body: &str, timestamp: u64) -> (r: ThreadSummary)
    ensures
        r@ == (ThreadSummaryModel {
            root_event_id: root_event_id@,
            sender_display: localpart@,
            preview: headline(body@),
            timestamp,
        }),
{
    ThreadSummary {
        root_event_id: root_event_id.to_owned(),
        sender_display: localpart.to_owned(),
        preview: title_of(body),
        timestamp,
    }
}

/// The order of the members of a room: by name, and then by user ID.
pub open spec fn by_name() -> spec_fn(MemberSummaryModel, MemberSummaryModel) -> bool {
    |a: MemberSummaryModel, b: MemberSummaryModel|
        text_less(lowercase(a.display_name), lowercase(b.display_name)) || (lowercase(a.display_name) == lowercase(
            b.display_name,
        ) && text_less(a.user_id, b.user_id))
}

fn named_before(a: &MemberSummary, b: &MemberSummary) -> (r: bool)
    ensures
        r == by_name()(a@, b@),
{
    let x = a.display_name.as_str().to_lowercase();
    let y = b.display_name.as_str().to_lowercase();
    if same(x.as_str(), y.as_str()) {
        proof {
            crate::text::lemma_text_less_one_way(x@, y@);
        }
        comes_before(a.user_id.as_str(), b.user_id.as_str())
    } else {
        comes_before(x.as_str(), y.as_str())
    }
}

/// The members of a room in order: by name, so the picker's unfiltered order is predictable,
/// and then by user ID, so two members sharing a name do not swap places.
pub fn collect_members(members: Vec<MemberSummary>) -> (r: Vec<MemberSummary>)
    ensures
        r.deep_view() == sorted(members.deep_view(), by_name()),
{
    sort(members, named_before, Ghost(by_name()))
}

/// The spaces that list each room, in the order in which they were read.
pub open spec fn parents_of(children: Seq<SpaceChildModel>) -> Map<Seq<char>, Seq<Seq<char>>>
    decreases children.len(),
{
    if children.len() == 0 {
        Map::empty()
    } else {
        let rest = parents_of(children.drop_last());
        let child = children.last();
        if child.listed {
            rest.insert(child.room_id, spaces_of(rest, child.room_id).push(child.space_id))
        } else {
            rest
        }
    }
}

/// The spaces that list a room.
pub open spec fn spaces_of(parents: Map<Seq<char>, Seq<Seq<char>>>, room_id: Seq<char>) -> Seq<Seq<char>> {
    if parents.contains_key(room_id) {
        parents[room_id]
    } else {
        Seq::empty()
    }
}

/// Map each room to the spaces that list it as a child.
///
/// Read from the space rather than from the room: any room may assert a parent it was never
/// added to, while only the space decides what it contains.
pub fn space_parents(children: &Vec<SpaceChild>) -> (r: Table<String, Vec<String>>)
    ensures
        r.deep_view() == parents_of(children.deep_view()),
{
    let ghost all = children.deep_view();
    let mut out: Table<String, Vec<String>> = Table::new();
    let mut i: usize = 0;
    proof {
        lemma_deep_empty::<Seq<char>, Vec<String>>();
        assert(all.take(0) =~= Seq::<SpaceChildModel>::empty());
    }
    while i < children.len()
        invariant
            i <= children.len(),
            all == children.deep_view(),
            out.deep_view() == parents_of(all.take(i as int)),
        decreases children.len() - i,
    {
        proof {
            assert(all.take(i + 1).drop_last() =~= all.take(i as int));
            assert(all.take(i + 1).last() == children@[i as int]@);
        }
        if children[i].listed {
            let room_id = children[i].room_id.as_str();
            let ghost before = out.deep_view();
            proof {
                lemma_deep(out@, room_id@);
            }
            let mut spaces: Vec<String> = match out.remove(room_id) {
                Some(spaces) => spaces,
                None => Vec::new(),
            };
            let ghost so_far = spaces.deep_view();
            assert(so_far =~= spaces_of(before, room_id@));
            spaces.push(children[i].space_id.clone());
            proof {
                assert(spaces.deep_view() =~= so_far.push(children@[i as int]@.space_id));
                lemma_deep(out@, room_id@);
                assert(out.deep_view().insert(room_id@, spaces.deep_view()) =~= before.insert(
                    room_id@,
                    spaces.deep_view(),
                ));
            }
            out.insert(room_id.to_owned(), spaces);
        }
        i += 1;
    }
    assert(all.take(all.len() as int) =~= all);
    out
}

/// A room as the app lists it. One without a name is called by its ID.
pub open spec fn summary_of(
    room: RoomSourceModel,
    parents: Map<Seq<char>, Seq<Seq<char>>>,
) -> RoomSummaryModel {
    RoomSummaryModel {
        room_id: room.room_id,
        display_name: match room.display_name {
            Some(name) => name,
            None => room.room_id,
        },
        is_space: room.is_space,
        parents: spaces_of(parents, room.room_id),
        is_direct: room.is_direct,
        is_encrypted: room.is_encrypted,
        notification_count: room.notification_count,
        highlight_count: room.highlight_count,
    }
}

/// The order of the room list.
pub open spec fn by_display_name() -> spec_fn(RoomSummaryModel, RoomSummaryModel) -> bool {
    |a: RoomSummaryModel, b: RoomSummaryModel| text_less(a.display_name, b.display_name)
}

fn listed_before(a: &RoomSummary, b: &RoomSummary) -> (r: bool)
    ensures
        r == by_display_name()(a@, b@),
{
    comes_before(a.display_name.as_str(), b.display_name.as_str())
}

fn summarise(room: &RoomSource, parents: &Table<String, Vec<String>>) -> (r: RoomSummary)
    ensures
        r@ == summary_of(room@, parents.deep_view()),
{
    proof {
        lemma_deep(parents@, room@.room_id);
    }
    let spaces: Vec<String> = match parents.get(room.room_id.as_str()) {
        Some(spaces) => {
            let copy = spaces.clone();
            assert(copy.deep_view() =~= spaces.deep_view());
            copy
        },
        None => Vec::new(),
    };
    assert(spaces.deep_view() =~= spaces_of(parents.deep_view(), room@.room_id));
    RoomSummary {
        room_id: room.room_id.clone(),
        display_name: match &room.display_name {
            Some(name) => name.clone(),
            None => room.room_id.clone(),
        },
        is_space: room.is_space,
        parents: spaces,
        is_direct: room.is_direct,
        is_encrypted: room.is_encrypted,
        notification_count: room.notification_count,
        highlight_count: room.highlight_count,
    }
}

/// Build the room list the app renders, in order of the names.
pub fn collect_rooms(rooms: &Vec<RoomSource>, children: &Vec<SpaceChild>) -> (r: Vec<RoomSummary>)
    ensures
        r.deep_view() == sorted(
            rooms.deep_view().map_values(|m: RoomSourceModel| summary_of(m, parents_of(children.deep_view()))),
            by_display_name(),
        ),
{
    // Gathered once for the whole list: every room needs to know its spaces.
    let parents = space_parents(children);
    let ghost all = rooms.deep_view().map_values(
        |m: RoomSourceModel| summary_of(m, parents_of(children.deep_view())),
    );
    let mut out: Vec<RoomSummary> = Vec::new();
    let mut i: usize = 0;
    while i < rooms.len()
        invariant
            i <= rooms.len(),
            parents.deep_view() == parents_of(children.deep_view()),
            all == rooms.deep_view().map_values(
                |m: RoomSourceModel| summary_of(m, parents_of(children.deep_view())),
            ),
            out.deep_view() == all.take(i as int),
        decreases rooms.len() - i,
    {
        let ghost so_far = out.deep_view();
        let room = summarise(&rooms[i], &parents);
        assert(room@ == all[i as int]);
        out.push(room);
        assert(out.deep_view() =~= so_far.push(room@));
        assert(all.take(i + 1) =~= so_far.push(all[i as int]));
        i += 1;
    }
    assert(all.take(all.len() as int) =~= all);
    sort(out, listed_before, Ghost(by_display_name()))
}

// ------------------------------------------------------------------------ verification

/// What the other side of a verification is called.
pub open spec fn label_of(
    display_name: Option<Seq<char>>,
    device_id: Option<Seq<char>>,
    user_id: Seq<char>,
) -> Seq<char> {
    match device_id {
        Some(id) => match display_name {
            Some(name) => name,
            None => id,
        },
        None => user_id,
    }
}

/// How to name the device at the other end: by its display name, which is what the user set
/// and will recognise; else by its ID, which is at least checkable against the other screen;
/// else by the user.
pub fn device_label(display_name: Option<&str>, device_id: Option<&str>, user_id: &str) -> (r: String)
    ensures
        r@ == label_of(text_of(display_name), text_of(device_id), user_id@),
{
    match device_id {
        Some(id) => match display_name {
            Some(name) => name.to_owned(),
            None => id.to_owned(),
        },
        None => user_id.to_owned(),
    }
}

/// What following a request to verify reports, and what it does next.
pub open spec fn driven(state: RequestStateModel, other: Seq<char>) -> (Option<VerificationModel>, Follow) {
    match state {
        RequestStateModel::Created => (Some(VerificationModel::Negotiating { other_device: other }), Follow::Wait),
        RequestStateModel::Requested => (Some(VerificationModel::Requested { other_device: other }), Follow::Wait),
        RequestStateModel::Ready => (
            Some(VerificationModel::Negotiating { other_device: other }),
            Follow::StartComparison,
        ),
        RequestStateModel::Comparing => (None, Follow::FollowComparison),
        RequestStateModel::Unsupported => (
            Some(VerificationModel::Cancelled { reason: "unsupported verification method"@ }),
            Follow::Withdraw,
        ),
        RequestStateModel::Done => (Some(VerificationModel::Done), Follow::End),
        RequestStateModel::Cancelled(reason) => (Some(VerificationModel::Cancelled { reason }), Follow::End),
    }
}

/// What is reported, as its content.
pub open spec fn reported(r: Option<Verification>) -> Option<VerificationModel> {
    match r {
        Some(v) => Some(v@),
        None => None,
    }
}

/// Follow a request to verify one step.
///
/// When the request becomes ready, someone has to start the comparison. Both sides are
/// allowed to, so it is started rather than waited for: a client that waits politely hangs
/// when the other side is doing the same.
pub fn drive(state: RequestState, other: &str) -> (r: (Option<Verification>, Follow))
    ensures
        (reported(r.0), r.1) == driven(state@, other@),
{
    match state {
        RequestState::Created => (
            Some(Verification::Negotiating { other_device: other.to_owned() }),
            Follow::Wait,
        ),
        RequestState::Requested => (
            Some(Verification::Requested { other_device: other.to_owned() }),
            Follow::Wait,
        ),
        RequestState::Ready => (
            Some(Verification::Negotiating { other_device: other.to_owned() }),
            Follow::StartComparison,
        ),
        RequestState::Comparing => (None, Follow::FollowComparison),
        RequestState::Unsupported => (
            Some(Verification::Cancelled { reason: "unsupported verification method".to_owned() }),
            Follow::Withdraw,
        ),
        RequestState::Done => (Some(Verification::Done), Follow::End),
        RequestState::Cancelled(reason) => (Some(Verification::Cancelled { reason }), Follow::End),
    }
}

/// What following a comparison reports, and what it does next.
pub open spec fn compared(state: SasStateModel, other: Seq<char>) -> (VerificationModel, Follow) {
    match state {
        SasStateModel::Negotiating => (VerificationModel::Negotiating { other_device: other }, Follow::Wait),
        SasStateModel::KeysExchanged(Some(emoji)) => (
            VerificationModel::Compare { other_device: other, emoji },
            Follow::Wait,
        ),
        SasStateModel::KeysExchanged(None) => (
            VerificationModel::Cancelled { reason: "the other device refused emoji comparison"@ },
            Follow::Withdraw,
        ),
        SasStateModel::Confirmed => (VerificationModel::WaitingForOther { other_device: other }, Follow::Wait),
        SasStateModel::Done => (VerificationModel::Done, Follow::End),
        SasStateModel::Cancelled(reason) => (VerificationModel::Cancelled { reason }, Follow::End),
    }
}

/// Follow a comparison one step.
///
/// Emoji, not decimals: comparing a few pictures across a room is something people do
/// reliably, and comparing long numbers is not.
pub fn drive_sas(state: SasState, other: &str) -> (r: (Verification, Follow))
    ensures
        (r.0@, r.1) == compared(state@, other@),
{
    match state {
        SasState::Negotiating => (Verification::Negotiating { other_device: other.to_owned() }, Follow::Wait),
        SasState::KeysExchanged(Some(emoji)) => (
            Verification::Compare { other_device: other.to_owned(), emoji },
            Follow::Wait,
        ),
        SasState::KeysExchanged(None) => (
            Verification::Cancelled { reason: "the other device refused emoji comparison".to_owned() },
            Follow::Withdraw,
        ),
        SasState::Confirmed => (Verification::WaitingForOther { other_device: other.to_owned() }, Follow::Wait),
        SasState::Done => (Verification::Done, Follow::End),
        SasState::Cancelled(reason) => (Verification::Cancelled { reason }, Follow::End),
    }
}

/// Following ends exactly when the end was reported, and nothing is left hanging.
pub proof fn law_following_ends_with_the_verification(request: RequestStateModel, sas: SasStateModel, other: Seq<char>)
    ensures
        match driven(request, other) {
            (Some(v), next) => (v is Done || v is Cancelled) <==> (next is End || next is Withdraw),
            (None, next) => next is FollowComparison,
        },
        (compared(sas, other).0 is Done || compared(sas, other).0 is Cancelled) <==> (compared(sas, other).1 is End
            || compared(sas, other).1 is Withdraw),
{
}

/// The user is asked to compare only what both sides derived.
pub proof fn law_only_derived_emoji_are_compared(sas: SasStateModel, other: Seq<char>)
    requires
        compared(sas, other).0 is Compare,
    ensures
        sas is KeysExchanged,
        sas->KeysExchanged_0 == Some(compared(sas, other).0->emoji),
{
}

/// Why an event cannot be acted on, if it cannot: it is not among those the view shows, or it is
/// to be edited and is not editable. `editable` is `None` for an event that is not shown.
pub open spec fn target_problem(event_id: Seq<char>, editable: Option<bool>, editing: bool) -> Option<Seq<char>> {
    match editable {
        None => Some("event "@ + event_id + " not in timeline"@),
        Some(editable) => if editing && !editable {
            Some("that message cannot be edited"@)
        } else {
            None
        },
    }
}

/// Check that an event can be acted on.
///
/// The homeserver refuses an edit of an event that is not editable too, but failing here keeps
/// the message in the composer rather than losing it to a round trip.
pub fn check_target(event_id: &str, editable: Option<bool>, editing: bool) -> (r: Result<(), String>)
    ensures
        match r {
            Ok(_) => target_problem(event_id@, editable, editing) is None,
            Err(e) => target_problem(event_id@, editable, editing) == Some(e@),
        },
{
    match editable {
        None => {
            let mut s = "event ".to_owned();
            s.append(event_id);
            s.append(" not in timeline");
            Err(s)
        },
        Some(editable) => if editing && !editable {
            Err("that message cannot be edited".to_owned())
        } else {
            Ok(())
        },
    }
}

/// What the app is told once a verification was withdrawn from.
pub fn cancelled_reply() -> (r: WorkerEvent)
    ensures
        r@ == WorkerEventModel::Verification(VerificationModel::Cancelled { reason: "cancelled here"@ }),
{
    WorkerEvent::Verification(Verification::Cancelled { reason: "cancelled here".to_owned() })
}

/// What the app is told of an attempt to unlock the account's secrets. A wrong key is an
/// ordinary answer to a question that was asked.
pub fn recovery_reply(outcome: Result<RecoveryState, String>) -> (r: WorkerEvent)
    ensures
        r@ == (match outcome {
            Ok(state) => WorkerEventModel::Recovery(state),
            Err(reason) => WorkerEventModel::RecoveryFailed(reason@),
        }),
{
    match outcome {
        Ok(state) => WorkerEvent::Recovery(state),
        Err(reason) => WorkerEvent::RecoveryFailed(reason),
    }
}

/// What the app is told of an attempt to create a recovery key.
pub fn key_reply(outcome: Result<String, String>) -> (r: WorkerEvent)
    ensures
        r@ == (match outcome {
            Ok(key) => WorkerEventModel::RecoveryKeyCreated(key@),
            Err(reason) => WorkerEventModel::RecoveryFailed(reason@),
        }),
{
    match outcome {
        Ok(key) => WorkerEvent::RecoveryKeyCreated(key),
        Err(reason) => WorkerEvent::RecoveryFailed(reason),
    }
}

// -------------------------------------------------------------------------- conversion

/// The type of an event, by its JSON.
pub open spec fn type_in(raw: Option<Seq<char>>) -> Seq<char> {
    match raw {
        Some(text) => match parsed_json(text) {
            Ok(value) => match value.member("type"@) {
                Some(kind) => match kind.as_text() {
                    Some(kind) => kind,
                    None => "unknown event"@,
                },
                None => "unknown event"@,
            },
            Err(_) => "unknown event"@,
        },
        None => "unknown event"@,
    }
}

/// The type of an event, by its JSON.
pub fn event_type(raw: Option<&str>) -> (r: String)
    ensures
        r@ == type_in(text_of(raw)),
{
    if let Some(text) = raw {
        if let Ok(value) = read(text) {
            proof {
                lemma_member(value, "type"@);
            }
            if let Some(Json::Text(kind)) = value.get("type") {
                return kind.clone();
            }
        }
    }
    "unknown event".to_owned()
}

/// The placeholder for an event that cannot be drawn.
///
/// Showing nothing is the worst option: the event is on the wire, the user can see that the
/// room has moved on, and there is a gap. A dim line naming the type makes an unsupported
/// event diagnosable instead of invisible.
pub fn unrendered(raw: Option<&str>) -> (r: EntryKind)
    ensures
        r@ == EntryKindModel::Notice("· "@ + type_in(text_of(raw))),
{
    let mut text = "· ".to_owned();
    text.append(event_type(raw).as_str());
    EntryKind::Notice(text)
}

/// The payload that an ingested message has.
pub open spec fn payload_of(found: Ingest) -> AgentPayloadModel {
    match found {
        Ingest::Structured { adapter, event } => AgentPayloadModel::Structured { adapter: adapter@, event: event@ },
        Ingest::Degraded { adapter, parsed } => AgentPayloadModel::Degraded { adapter: adapter@, parsed: parsed@ },
        Ingest::Plain => AgentPayloadModel::Plain,
    }
}

/// Whether this is what the integrations make of a content and a body.
pub open spec fn made_of<F: Fn(&Json) -> Option<AgentEvent>>(
    agents: Adapters,
    body: Seq<char>,
    parse: F,
    value: JsonModel,
    r: AgentPayloadModel,
) -> bool {
    exists|j: Json, found: Ingest|
        content(j) == value && #[trigger] ingested(agents, j, body, parse, found) && r == payload_of(found)
}

/// Whether this is the agent structure of an event, by its JSON: what the integrations make
/// of its content. An event without JSON, or without content, has none.
pub open spec fn agent_in<F: Fn(&Json) -> Option<AgentEvent>>(
    agents: Adapters,
    raw: Option<Seq<char>>,
    body: Seq<char>,
    parse: F,
    r: AgentPayloadModel,
) -> bool {
    match raw {
        Some(text) => match parsed_json(text) {
            Ok(value) => match value.member("content"@) {
                Some(inner) => made_of(agents, body, parse, inner, r),
                None => r is Plain,
            },
            Err(_) => r is Plain,
        },
        None => r is Plain,
    }
}

/// Pull agent structure out of an event's JSON, which is that of the newest edit: an agent
/// streams by progressively editing one event.
pub fn decode_agent<F: Fn(&Json) -> Option<AgentEvent>>(
    raw: Option<&str>,
    body: &str,
    agents: &Adapters,
    parse: F,
) -> (r: AgentPayload)
    requires
        forall|payload: &Json| #[trigger] parse.requires((payload,)),
    ensures
        agent_in(*agents, text_of(raw), body@, parse, r@),
{
    let text = match raw {
        Some(text) => text,
        None => {
            return AgentPayload::Plain;
        },
    };
    let value = match read(text) {
        Ok(value) => value,
        Err(_) => {
            return AgentPayload::Plain;
        },
    };
    proof {
        lemma_member(value, "content"@);
    }
    match value.get("content") {
        Some(inner) => {
            let ghost g = parse;
            let found = agents.ingest(inner, body, parse);
            assert(content(*inner) == parsed_json(text@)->Ok_0.member("content"@)->0);
            assert(ingested(*agents, *inner, body@, g, found));
            match found {
                Ingest::Structured { adapter, event } => AgentPayload::Structured { adapter, event },
                Ingest::Degraded { adapter, parsed } => AgentPayload::Degraded { adapter, parsed: Box::new(parsed) },
                Ingest::Plain => AgentPayload::Plain,
            }
        },
        None => AgentPayload::Plain,
    }
}

/// The row that an event of a timeline becomes, with this agent structure.
pub open spec fn row_of(event: EventItemModel, agent: AgentPayloadModel) -> EntryKindModel {
    match event.content {
        ItemContentModel::Message(message) => EntryKindModel::Message(
            MessageModel {
                sender: event.sender,
                sender_display: match event.display_name {
                    Some(name) => name,
                    None => event.localpart,
                },
                body: message.body,
                timestamp: event.timestamp,
                is_own: event.is_own,
                is_edited: message.is_edited,
                thread_root: message.thread_root,
                thread_replies: message.thread_replies,
                reactions: message.reactions,
                shield: event.shield,
                agent,
            },
        ),
        ItemContentModel::Undecryptable => EntryKindModel::UnableToDecrypt,
        ItemContentModel::Redacted => EntryKindModel::Notice("message deleted"@),
        ItemContentModel::Other => EntryKindModel::Notice("· "@ + type_in(event.raw)),
    }
}

/// Whether this is the entry that a row of a timeline becomes.
pub open spec fn converts<F: Fn(&Json) -> Option<AgentEvent>>(
    item: ItemModel,
    agents: Adapters,
    parse: F,
    r: EntryModel,
) -> bool {
    &&& r.id == item.id
    &&& match item.kind {
        ItemKindModel::DateDivider(ts) => r.event_id is None && r.kind == EntryKindModel::DateDivider(ts),
        ItemKindModel::ReadMarker => r.event_id is None && r.kind == EntryKindModel::ReadMarker,
        ItemKindModel::TimelineStart => r.event_id is None && r.kind == EntryKindModel::TimelineStart,
        ItemKindModel::Nothing => r.event_id is None && r.kind == EntryKindModel::Notice(Seq::empty()),
        ItemKindModel::Event(event) => r.event_id == event.event_id && (match event.content {
            ItemContentModel::Message(message) => exists|agent: AgentPayloadModel| #[trigger]
                agent_in(agents, event.raw, message.body, parse, agent) && r.kind == row_of(event, agent),
            _ => r.kind == row_of(event, AgentPayloadModel::Plain),
        }),
    }
}

fn convert_event<F: Fn(&Json) -> Option<AgentEvent>>(event: EventItem, agents: &Adapters, parse: F) -> (r: EntryKind)
    requires
        forall|payload: &Json| #[trigger] parse.requires((payload,)),
    ensures
        match event@.content {
            ItemContentModel::Message(message) => exists|agent: AgentPayloadModel| #[trigger]
                agent_in(*agents, event@.raw, message.body, parse, agent) && r@ == row_of(event@, agent),
            _ => r@ == row_of(event@, AgentPayloadModel::Plain),
        },
{
    let EventItem { event_id, sender, localpart, display_name, timestamp, is_own, shield, raw, content } = event;
    let text = match &raw {
        Some(raw) => Some(raw.as_str()),
        None => None,
    };
    match content {
        ItemContent::Message(message) => {
            let ItemMessage { body, is_edited, thread_root, thread_replies, reactions } = message;
            let agent = decode_agent(text, body.as_str(), agents, parse);
            let sender_display = match display_name {
                Some(name) => name,
                None => localpart,
            };
            EntryKind::Message(
                Message {
                    sender,
                    sender_display,
                    body,
                    timestamp,
                    is_own,
                    is_edited,
                    thread_root,
                    thread_replies,
                    reactions,
                    shield,
                    agent,
                },
            )
        },
        ItemContent::Undecryptable => EntryKind::UnableToDecrypt,
        ItemContent::Redacted => EntryKind::Notice("message deleted".to_owned()),
        ItemContent::Other => unrendered(text),
    }
}

/// Turn a row of a timeline into an entry.
pub fn convert_item<F: Fn(&Json) -> Option<AgentEvent>>(item: Item, agents: &Adapters, parse: F) -> (r: Entry)
    requires
        forall|payload: &Json| #[trigger] parse.requires((payload,)),
    ensures
        converts(item@, *agents, parse, r@),
{
    let Item { id, kind } = item;
    match kind {
        ItemKind::DateDivider(ts) => Entry { id, event_id: None, kind: EntryKind::DateDivider(ts) },
        ItemKind::ReadMarker => Entry { id, event_id: None, kind: EntryKind::ReadMarker },
        ItemKind::TimelineStart => Entry { id, event_id: None, kind: EntryKind::TimelineStart },
        ItemKind::Nothing => {
            let blank = String::new();
            assert(blank@ =~= Seq::<char>::empty());
            Entry { id, event_id: None, kind: EntryKind::Notice(blank) }
        },
        ItemKind::Event(event) => {
            let event_id = match &event.event_id {
                Some(id) => Some(id.clone()),
                None => None,
            };
            let kind = convert_event(event, agents, parse);
            Entry { id, event_id, kind }
        },
    }
}

} // verus!
