//! Plain data crossing the worker boundary.
//!
//! These types hold no handles of any kind, so whoever draws a frame cannot accidentally
//! perform network or crypto work.

use vstd::prelude::*;
use vstd::view::View as Modelled;

use crate::agent::fallback::{Parsed, ParsedModel};
use crate::agent::protocol::{AgentEvent, AgentEventModel};
use crate::table::Key;
use crate::text::{clone_pairs, same};

verus! {

/// Where the sync loop is.
#[derive(Debug, Clone, Copy, PartialEq, Eq, Structural)]
pub enum SyncState {
    Idle,
    /// First sync in progress; the room list is not yet meaningful.
    Initial,
    Running,
    /// Sync stopped and will be retried.
    Offline,
    Terminated,
}

impl Default for SyncState {
    fn default() -> (r: Self)
        ensures
            r is Idle,
    {
        SyncState::Idle
    }
}

/// A room as shown in the tab bar and switcher.
#[derive(Debug, PartialEq, Eq)]
pub struct RoomSummary {
    pub room_id: String,
    pub display_name: String,
    /// `true` when this is a Space, which is a workspace rather than a tab.
    pub is_space: bool,
    /// Space room IDs this room is a child of. Empty means the implicit workspace.
    pub parents: Vec<String>,
    pub is_direct: bool,
    pub is_encrypted: bool,
    pub notification_count: u64,
    pub highlight_count: u64,
}

/// The mathematical content of a [`RoomSummary`].
#[verifier::ext_equal]
pub struct RoomSummaryModel {
    pub room_id: Seq<char>,
    pub display_name: Seq<char>,
    pub is_space: bool,
    pub parents: Seq<Seq<char>>,
    pub is_direct: bool,
    pub is_encrypted: bool,
    pub notification_count: u64,
    pub highlight_count: u64,
}

impl Modelled for RoomSummary {
    type V = RoomSummaryModel;

    open spec fn view(&self) -> RoomSummaryModel {
        RoomSummaryModel {
            room_id: self.room_id@,
            display_name: self.display_name@,
            is_space: self.is_space,
            parents: self.parents.deep_view(),
            is_direct: self.is_direct,
            is_encrypted: self.is_encrypted,
            notification_count: self.notification_count,
            highlight_count: self.highlight_count,
        }
    }
}

impl DeepView for RoomSummary {
    type V = RoomSummaryModel;

    open spec fn deep_view(&self) -> RoomSummaryModel {
        self@
    }
}

impl Clone for RoomSummary {
    fn clone(&self) -> (r: Self)
        ensures
            r@ == self@,
    {
        let r = RoomSummary {
            room_id: self.room_id.clone(),
            display_name: self.display_name.clone(),
            is_space: self.is_space,
            parents: self.parents.clone(),
            is_direct: self.is_direct,
            is_encrypted: self.is_encrypted,
            notification_count: self.notification_count,
            highlight_count: self.highlight_count,
        };
        assert(r.parents.deep_view() =~= self.parents.deep_view());
        r
    }
}

/// Whether an entry carried agent structure, and at what fidelity.
#[derive(Debug, PartialEq, Eq)]
pub enum AgentPayload {
    /// Full fidelity, from the structured extension.
    Structured { adapter: &'static str, event: Box<AgentEvent> },
    /// Recovered from human-readable chrome. Lossy; surfaced with a `~` marker.
    Degraded { adapter: &'static str, parsed: Box<Parsed> },
    /// An ordinary message.
    Plain,
}

/// The mathematical content of a [`AgentPayload`].
#[verifier::ext_equal]
pub enum AgentPayloadModel {
    Structured { adapter: Seq<char>, event: AgentEventModel },
    Degraded { adapter: Seq<char>, parsed: ParsedModel },
    Plain,
}

impl Modelled for AgentPayload {
    type V = AgentPayloadModel;

    open spec fn view(&self) -> AgentPayloadModel {
        match self {
            AgentPayload::Structured { adapter, event } => AgentPayloadModel::Structured {
                adapter: adapter@,
                event: (**event)@,
            },
            AgentPayload::Degraded { adapter, parsed } => AgentPayloadModel::Degraded {
                adapter: adapter@,
                parsed: (**parsed)@,
            },
            AgentPayload::Plain => AgentPayloadModel::Plain,
        }
    }
}

impl DeepView for AgentPayload {
    type V = AgentPayloadModel;

    open spec fn deep_view(&self) -> AgentPayloadModel {
        self@
    }
}

impl Clone for AgentPayload {
    fn clone(&self) -> (r: Self)
        ensures
            r@ == self@,
    {
        let r = match self {
            AgentPayload::Structured { adapter, event } => AgentPayload::Structured {
                adapter: *adapter,
                event: Box::new((**event).clone()),
            },
            AgentPayload::Degraded { adapter, parsed } => AgentPayload::Degraded {
                adapter: *adapter,
                parsed: Box::new((**parsed).clone()),
            },
            AgentPayload::Plain => AgentPayload::Plain,
        };
        assert(r@ =~~= self@);
        r
    }
}

/// Why a shield is being shown.
#[derive(Debug, Clone, Copy, PartialEq, Eq, Structural)]
pub enum ShieldReason {
    /// Not enough information to check authenticity.
    Unknown,
    /// The sending device is not known to us at all.
    UnknownDevice,
    /// The sending device was never signed by its owner.
    UnsignedDevice,
    /// The sender's identity has not been verified by us.
    UnverifiedIdentity,
    /// The sender was verified before and their identity has since changed.
    IdentityChanged,
    /// The sender does not own the session the message came in on.
    MismatchedSender,
    /// Sent unencrypted into a room that is supposed to be encrypted.
    SentInClear,
}

/// How much the authenticity of a message can be trusted.
#[derive(Debug, Clone, Copy, PartialEq, Eq, Structural)]
pub enum Shield {
    /// Nothing to say.
    Clear,
    /// Worth noting but not alarming: authenticity cannot be fully established.
    Caution(ShieldReason),
    /// Actively suspicious.
    Warning(ShieldReason),
}

/// One message of a timeline.
#[derive(Debug, PartialEq, Eq)]
pub struct Message {
    pub sender: String,
    pub sender_display: String,
    pub body: String,
    /// Milliseconds since the Unix epoch.
    pub timestamp: u64,
    pub is_own: bool,
    pub is_edited: bool,
    /// Event ID of the thread root, when this message is in a thread.
    pub thread_root: Option<String>,
    /// Replies to this message, when it is itself a thread root. A thread whose replies
    /// have all been redacted still exists and can still be opened.
    pub thread_replies: Option<u32>,
    /// Reaction key to the number of senders who used it.
    pub reactions: Vec<(String, usize)>,
    /// Authenticity warning for this message, if any.
    pub shield: Shield,
    pub agent: AgentPayload,
}

/// The mathematical content of a [`Message`].
#[verifier::ext_equal]
pub struct MessageModel {
    pub sender: Seq<char>,
    pub sender_display: Seq<char>,
    pub body: Seq<char>,
    pub timestamp: u64,
    pub is_own: bool,
    pub is_edited: bool,
    pub thread_root: Option<Seq<char>>,
    pub thread_replies: Option<u32>,
    pub reactions: Seq<(Seq<char>, usize)>,
    pub shield: Shield,
    pub agent: AgentPayloadModel,
}

impl Modelled for Message {
    type V = MessageModel;

    open spec fn view(&self) -> MessageModel {
        MessageModel {
            sender: self.sender@,
            sender_display: self.sender_display@,
            body: self.body@,
            timestamp: self.timestamp,
            is_own: self.is_own,
            is_edited: self.is_edited,
            thread_root: self.thread_root.deep_view(),
            thread_replies: self.thread_replies,
            reactions: self.reactions.deep_view(),
            shield: self.shield,
            agent: self.agent@,
        }
    }
}

impl DeepView for Message {
    type V = MessageModel;

    open spec fn deep_view(&self) -> MessageModel {
        self@
    }
}

/// What a row of a timeline is.
#[derive(Debug, PartialEq, Eq)]
pub enum EntryKind {
    Message(Message),
    /// A day boundary.
    DateDivider(u64),
    /// The user's own read marker.
    ReadMarker,
    /// Start of the timeline; nothing older exists.
    TimelineStart,
    /// An encrypted event that could not be decrypted.
    UnableToDecrypt,
    /// State changes, membership, redactions and anything else not worth a full row.
    Notice(String),
}

/// The mathematical content of a [`EntryKind`].
#[verifier::ext_equal]
pub enum EntryKindModel {
    Message(MessageModel),
    DateDivider(u64),
    ReadMarker,
    TimelineStart,
    UnableToDecrypt,
    Notice(Seq<char>),
}

impl Modelled for EntryKind {
    type V = EntryKindModel;

    open spec fn view(&self) -> EntryKindModel {
        match self {
            EntryKind::Message(a) => EntryKindModel::Message(a@),
            EntryKind::DateDivider(a) => EntryKindModel::DateDivider(*a),
            EntryKind::ReadMarker => EntryKindModel::ReadMarker,
            EntryKind::TimelineStart => EntryKindModel::TimelineStart,
            EntryKind::UnableToDecrypt => EntryKindModel::UnableToDecrypt,
            EntryKind::Notice(a) => EntryKindModel::Notice(a@),
        }
    }
}

impl DeepView for EntryKind {
    type V = EntryKindModel;

    open spec fn deep_view(&self) -> EntryKindModel {
        self@
    }
}

/// One rendered row of a timeline.
#[derive(Debug, PartialEq, Eq)]
pub struct Entry {
    /// Stable across edits, so a streaming message keeps its position.
    pub id: String,
    pub event_id: Option<String>,
    pub kind: EntryKind,
}

/// The mathematical content of a [`Entry`].
#[verifier::ext_equal]
pub struct EntryModel {
    pub id: Seq<char>,
    pub event_id: Option<Seq<char>>,
    pub kind: EntryKindModel,
}

impl Modelled for Entry {
    type V = EntryModel;

    open spec fn view(&self) -> EntryModel {
        EntryModel {
            id: self.id@,
            event_id: self.event_id.deep_view(),
            kind: self.kind@,
        }
    }
}

impl DeepView for Entry {
    type V = EntryModel;

    open spec fn deep_view(&self) -> EntryModel {
        self@
    }
}

/// Which timeline a pane is showing.
///
/// This is the key that ties a pane to a Matrix timeline and, for threads, to an agent
/// session.
#[derive(Debug, PartialEq, Eq)]
pub struct View {
    pub room_id: String,
    /// Event ID of the thread root. `None` means the room's main timeline.
    pub thread_root: Option<String>,
}

/// The mathematical content of a [`View`].
#[verifier::ext_equal]
pub struct ViewModel {
    pub room_id: Seq<char>,
    pub thread_root: Option<Seq<char>>,
}

impl Modelled for View {
    type V = ViewModel;

    open spec fn view(&self) -> ViewModel {
        ViewModel {
            room_id: self.room_id@,
            thread_root: self.thread_root.deep_view(),
        }
    }
}

impl DeepView for View {
    type V = ViewModel;

    open spec fn deep_view(&self) -> ViewModel {
        self@
    }
}

impl Clone for View {
    fn clone(&self) -> (r: Self)
        ensures
            r@ == self@,
    {
        let r = View {
            room_id: self.room_id.clone(),
            thread_root: match &self.thread_root { Some(x) => Some(x.clone()), None => None },
        };
        assert(r.thread_root.deep_view() =~= self.thread_root.deep_view());
        r
    }
}

/// One thread root, as listed in the thread picker.
#[derive(Debug, PartialEq, Eq)]
pub struct ThreadSummary {
    /// Event ID of the root. This is the agent session key.
    pub root_event_id: String,
    pub sender_display: String,
    /// First line of the root message.
    pub preview: String,
    pub timestamp: u64,
}

/// The mathematical content of a [`ThreadSummary`].
#[verifier::ext_equal]
pub struct ThreadSummaryModel {
    pub root_event_id: Seq<char>,
    pub sender_display: Seq<char>,
    pub preview: Seq<char>,
    pub timestamp: u64,
}

impl Modelled for ThreadSummary {
    type V = ThreadSummaryModel;

    open spec fn view(&self) -> ThreadSummaryModel {
        ThreadSummaryModel {
            root_event_id: self.root_event_id@,
            sender_display: self.sender_display@,
            preview: self.preview@,
            timestamp: self.timestamp,
        }
    }
}

impl DeepView for ThreadSummary {
    type V = ThreadSummaryModel;

    open spec fn deep_view(&self) -> ThreadSummaryModel {
        self@
    }
}

impl Clone for ThreadSummary {
    fn clone(&self) -> (r: Self)
        ensures
            r@ == self@,
    {
        let r = ThreadSummary {
            root_event_id: self.root_event_id.clone(),
            sender_display: self.sender_display.clone(),
            preview: self.preview.clone(),
            timestamp: self.timestamp,
        };
        r
    }
}

/// One joined member of a room, as offered by the mention picker.
#[derive(Debug, PartialEq, Eq)]
pub struct MemberSummary {
    pub user_id: String,
    /// The member's chosen name, or the localpart when they have not set one.
    pub display_name: String,
    /// Whether another joined member shows the same display name.
    pub ambiguous: bool,
}

/// The mathematical content of a [`MemberSummary`].
#[verifier::ext_equal]
pub struct MemberSummaryModel {
    pub user_id: Seq<char>,
    pub display_name: Seq<char>,
    pub ambiguous: bool,
}

impl Modelled for MemberSummary {
    type V = MemberSummaryModel;

    open spec fn view(&self) -> MemberSummaryModel {
        MemberSummaryModel {
            user_id: self.user_id@,
            display_name: self.display_name@,
            ambiguous: self.ambiguous,
        }
    }
}

impl DeepView for MemberSummary {
    type V = MemberSummaryModel;

    open spec fn deep_view(&self) -> MemberSummaryModel {
        self@
    }
}

impl Clone for MemberSummary {
    fn clone(&self) -> (r: Self)
        ensures
            r@ == self@,
    {
        let r = MemberSummary {
            user_id: self.user_id.clone(),
            display_name: self.display_name.clone(),
            ambiguous: self.ambiguous,
        };
        r
    }
}

/// How far an interactive device verification has got.
///
/// Only one runs at a time: two sets of emoji at once would invite the user to confirm
/// the wrong one.
#[derive(Debug, PartialEq, Eq)]
pub enum Verification {
    /// Another of our devices asked to verify. Nothing has been agreed yet.
    Requested { other_device: String },
    /// Protocols are being negotiated. Nothing for the user to do.
    Negotiating { other_device: String },
    /// Both sides derived a short auth string: symbols and their descriptions, in the
    /// order both sides must show them. The user compares and answers.
    Compare { other_device: String, emoji: Vec<(String, String)> },
    /// We answered; the other side has not yet.
    WaitingForOther { other_device: String },
    /// Verified.
    Done,
    /// Ended without verifying, for a reason.
    Cancelled { reason: String },
}

/// The mathematical content of a [`Verification`].
#[verifier::ext_equal]
pub enum VerificationModel {
    Requested { other_device: Seq<char> },
    Negotiating { other_device: Seq<char> },
    Compare { other_device: Seq<char>, emoji: Seq<(Seq<char>, Seq<char>)> },
    WaitingForOther { other_device: Seq<char> },
    Done,
    Cancelled { reason: Seq<char> },
}

impl Modelled for Verification {
    type V = VerificationModel;

    open spec fn view(&self) -> VerificationModel {
        match self {
            Verification::Requested { other_device } => VerificationModel::Requested { other_device: other_device@ },
            Verification::Negotiating { other_device } => VerificationModel::Negotiating {
                other_device: other_device@,
            },
            Verification::Compare { other_device, emoji } => VerificationModel::Compare {
                other_device: other_device@,
                emoji: emoji.deep_view(),
            },
            Verification::WaitingForOther { other_device } => VerificationModel::WaitingForOther {
                other_device: other_device@,
            },
            Verification::Done => VerificationModel::Done,
            Verification::Cancelled { reason } => VerificationModel::Cancelled { reason: reason@ },
        }
    }
}

impl DeepView for Verification {
    type V = VerificationModel;

    open spec fn deep_view(&self) -> VerificationModel {
        self@
    }
}

impl Clone for Verification {
    fn clone(&self) -> (r: Self)
        ensures
            r@ == self@,
    {
        let r = match self {
            Verification::Requested { other_device } => Verification::Requested { other_device: other_device.clone() },
            Verification::Negotiating { other_device } => Verification::Negotiating {
                other_device: other_device.clone(),
            },
            Verification::Compare { other_device, emoji } => Verification::Compare {
                other_device: other_device.clone(),
                emoji: clone_pairs(emoji),
            },
            Verification::WaitingForOther { other_device } => Verification::WaitingForOther {
                other_device: other_device.clone(),
            },
            Verification::Done => Verification::Done,
            Verification::Cancelled { reason } => Verification::Cancelled { reason: reason.clone() },
        };
        assert(r@ =~~= self@);
        r
    }
}

/// Whether this account's secrets can be recovered on a new device.
#[derive(Debug, Clone, Copy, PartialEq, Eq, Structural)]
pub enum RecoveryState {
    /// Not asked yet.
    Unknown,
    /// Set up, and this device holds every secret.
    Enabled,
    /// Nothing is set up. History will not survive losing every device.
    Disabled,
    /// Set up, but this device is missing secrets: it needs the recovery key.
    Incomplete,
}

/// Sent from the app to the worker.
#[derive(Debug, PartialEq, Eq)]
pub enum Command {
    /// Begin streaming a view's timeline.
    OpenView(View),
    /// Stop streaming it and drop the subscription.
    CloseView(View),
    /// Load older events.
    Paginate { view: View, count: u16 },
    /// Send a message, mentioning these users. Thread views thread it automatically.
    SendMessage { view: View, body: String, mentions: Vec<String> },
    /// Send a message as a reply to an event.
    SendReply { view: View, in_reply_to: String, body: String, mentions: Vec<String> },
    /// Replace an event's content. Only own, editable events.
    Edit { view: View, event_id: String, body: String, mentions: Vec<String> },
    /// Redact an event.
    Redact { view: View, event_id: String },
    /// Ask for the room's thread roots.
    ListThreads { room_id: String },
    /// Ask who is in the room, for the mention picker.
    ListMembers { room_id: String },
    /// React to an event. Used for approvals and the model picker as well as ordinary
    /// reactions.
    ToggleReaction { view: View, event_id: String, key: String },
    SendTyping { room_id: String, typing: bool },
    MarkRead { view: View },
    /// Ask this account's other devices to verify this one.
    StartVerification,
    /// Accept a verification another device asked for.
    AcceptVerification,
    /// The emoji match.
    ConfirmVerification,
    /// The emoji do not match. Reported as a mismatch rather than a plain cancel, because
    /// the two mean very different things.
    MismatchVerification,
    /// Withdraw from a verification without judging it.
    CancelVerification,
    /// Unlock this account's secret storage with a recovery key.
    RecoverWithKey(String),
    /// Set up secret storage and a key backup for an account that has neither.
    EnableRecovery,
    /// Replace the recovery key, leaving the old one useless.
    ResetRecoveryKey,
    Shutdown,
}

/// The mathematical content of a [`Command`].
#[verifier::ext_equal]
pub enum CommandModel {
    OpenView(ViewModel),
    CloseView(ViewModel),
    Paginate { view: ViewModel, count: u16 },
    SendMessage { view: ViewModel, body: Seq<char>, mentions: Seq<Seq<char>> },
    SendReply { view: ViewModel, in_reply_to: Seq<char>, body: Seq<char>, mentions: Seq<Seq<char>> },
    Edit { view: ViewModel, event_id: Seq<char>, body: Seq<char>, mentions: Seq<Seq<char>> },
    Redact { view: ViewModel, event_id: Seq<char> },
    ListThreads { room_id: Seq<char> },
    ListMembers { room_id: Seq<char> },
    ToggleReaction { view: ViewModel, event_id: Seq<char>, key: Seq<char> },
    SendTyping { room_id: Seq<char>, typing: bool },
    MarkRead { view: ViewModel },
    StartVerification,
    AcceptVerification,
    ConfirmVerification,
    MismatchVerification,
    CancelVerification,
    RecoverWithKey(Seq<char>),
    EnableRecovery,
    ResetRecoveryKey,
    Shutdown,
}

impl Modelled for Command {
    type V = CommandModel;

    open spec fn view(&self) -> CommandModel {
        match self {
            Command::OpenView(a) => CommandModel::OpenView(a@),
            Command::CloseView(a) => CommandModel::CloseView(a@),
            Command::Paginate { view, count } => CommandModel::Paginate { view: view@, count: *count },
            Command::SendMessage { view, body, mentions } => CommandModel::SendMessage {
                view: view@,
                body: body@,
                mentions: mentions.deep_view(),
            },
            Command::SendReply { view, in_reply_to, body, mentions } => CommandModel::SendReply {
                view: view@,
                in_reply_to: in_reply_to@,
                body: body@,
                mentions: mentions.deep_view(),
            },
            Command::Edit { view, event_id, body, mentions } => CommandModel::Edit {
                view: view@,
                event_id: event_id@,
                body: body@,
                mentions: mentions.deep_view(),
            },
            Command::Redact { view, event_id } => CommandModel::Redact { view: view@, event_id: event_id@ },
            Command::ListThreads { room_id } => CommandModel::ListThreads { room_id: room_id@ },
            Command::ListMembers { room_id } => CommandModel::ListMembers { room_id: room_id@ },
            Command::ToggleReaction { view, event_id, key } => CommandModel::ToggleReaction {
                view: view@,
                event_id: event_id@,
                key: key@,
            },
            Command::SendTyping { room_id, typing } => CommandModel::SendTyping { room_id: room_id@, typing: *typing },
            Command::MarkRead { view } => CommandModel::MarkRead { view: view@ },
            Command::StartVerification => CommandModel::StartVerification,
            Command::AcceptVerification => CommandModel::AcceptVerification,
            Command::ConfirmVerification => CommandModel::ConfirmVerification,
            Command::MismatchVerification => CommandModel::MismatchVerification,
            Command::CancelVerification => CommandModel::CancelVerification,
            Command::RecoverWithKey(a) => CommandModel::RecoverWithKey(a@),
            Command::EnableRecovery => CommandModel::EnableRecovery,
            Command::ResetRecoveryKey => CommandModel::ResetRecoveryKey,
            Command::Shutdown => CommandModel::Shutdown,
        }
    }
}

impl DeepView for Command {
    type V = CommandModel;

    open spec fn deep_view(&self) -> CommandModel {
        self@
    }
}

/// Sent from the worker to the app.
#[derive(Debug, PartialEq, Eq)]
pub enum WorkerEvent {
    SyncState(SyncState),
    /// The full room list, sent again whenever it changes.
    Rooms(Vec<RoomSummary>),
    /// A view's timeline, sent again as a snapshot whenever it changes.
    Timeline { view: View, entries: Vec<Entry> },
    /// Users typing in a room. An agent typing means that it is working.
    Typing { room_id: String, users: Vec<String> },
    /// A room's thread roots, newest first.
    Threads { room_id: String, threads: Vec<ThreadSummary> },
    /// A room's joined members, for the mention picker.
    Members { room_id: String, members: Vec<MemberSummary> },
    /// Non-fatal; shown in the status line.
    Warning(String),
    /// Fatal; the worker has stopped.
    Fatal(String),
    /// An interactive verification changed state.
    Verification(Verification),
    /// Whether this device has been signed by the account's own identity. `None` means that
    /// the crypto layer cannot answer yet, which is not the same as "no".
    DeviceVerified(Option<bool>),
    /// Whether this account's secrets can be recovered.
    Recovery(RecoveryState),
    /// A recovery attempt failed, with the reason.
    RecoveryFailed(String),
    /// A new recovery key. It cannot be shown again.
    RecoveryKeyCreated(String),
}

/// The mathematical content of a [`WorkerEvent`].
#[verifier::ext_equal]
pub enum WorkerEventModel {
    SyncState(SyncState),
    Rooms(Seq<RoomSummaryModel>),
    Timeline { view: ViewModel, entries: Seq<EntryModel> },
    Typing { room_id: Seq<char>, users: Seq<Seq<char>> },
    Threads { room_id: Seq<char>, threads: Seq<ThreadSummaryModel> },
    Members { room_id: Seq<char>, members: Seq<MemberSummaryModel> },
    Warning(Seq<char>),
    Fatal(Seq<char>),
    Verification(VerificationModel),
    DeviceVerified(Option<bool>),
    Recovery(RecoveryState),
    RecoveryFailed(Seq<char>),
    RecoveryKeyCreated(Seq<char>),
}

impl Modelled for WorkerEvent {
    type V = WorkerEventModel;

    open spec fn view(&self) -> WorkerEventModel {
        match self {
            WorkerEvent::SyncState(a) => WorkerEventModel::SyncState(*a),
            WorkerEvent::Rooms(a) => WorkerEventModel::Rooms(a.deep_view()),
            WorkerEvent::Timeline { view, entries } => WorkerEventModel::Timeline {
                view: view@,
                entries: entries.deep_view(),
            },
            WorkerEvent::Typing { room_id, users } => WorkerEventModel::Typing {
                room_id: room_id@,
                users: users.deep_view(),
            },
            WorkerEvent::Threads { room_id, threads } => WorkerEventModel::Threads {
                room_id: room_id@,
                threads: threads.deep_view(),
            },
            WorkerEvent::Members { room_id, members } => WorkerEventModel::Members {
                room_id: room_id@,
                members: members.deep_view(),
            },
            WorkerEvent::Warning(a) => WorkerEventModel::Warning(a@),
            WorkerEvent::Fatal(a) => WorkerEventModel::Fatal(a@),
            WorkerEvent::Verification(a) => WorkerEventModel::Verification(a@),
            WorkerEvent::DeviceVerified(a) => WorkerEventModel::DeviceVerified(*a),
            WorkerEvent::Recovery(a) => WorkerEventModel::Recovery(*a),
            WorkerEvent::RecoveryFailed(a) => WorkerEventModel::RecoveryFailed(a@),
            WorkerEvent::RecoveryKeyCreated(a) => WorkerEventModel::RecoveryKeyCreated(a@),
        }
    }
}

impl DeepView for WorkerEvent {
    type V = WorkerEventModel;

    open spec fn deep_view(&self) -> WorkerEventModel {
        self@
    }
}

impl AgentPayload {
    pub fn is_agent(&self) -> (r: bool)
        ensures
            r == !(self@ is Plain),
    {
        !matches!(self, AgentPayload::Plain)
    }

    pub fn is_degraded(&self) -> (r: bool)
        ensures
            r == self@ is Degraded,
    {
        matches!(self, AgentPayload::Degraded { .. })
    }

    /// Which agent integration claimed this message, if any did.
    pub fn adapter(&self) -> (r: Option<&'static str>)
        ensures
            match r {
                Some(name) => match self@ {
                    AgentPayloadModel::Structured { adapter, .. } => name@ == adapter,
                    AgentPayloadModel::Degraded { adapter, .. } => name@ == adapter,
                    AgentPayloadModel::Plain => false,
                },
                None => self@ is Plain,
            },
    {
        match self {
            AgentPayload::Structured { adapter, .. } => Some(*adapter),
            AgentPayload::Degraded { adapter, .. } => Some(*adapter),
            AgentPayload::Plain => None,
        }
    }
}

impl ShieldReason {
    /// A short phrase for the transcript.
    pub open spec fn phrase(self) -> Seq<char> {
        match self {
            ShieldReason::Unknown => "authenticity unknown"@,
            ShieldReason::UnknownDevice => "sent from a device we do not know"@,
            ShieldReason::UnsignedDevice => "sent from an unverified device"@,
            ShieldReason::UnverifiedIdentity => "sender is not verified"@,
            ShieldReason::IdentityChanged => "sender's identity changed since you verified them"@,
            ShieldReason::MismatchedSender => "sender does not match the encrypting device"@,
            ShieldReason::SentInClear => "sent unencrypted in an encrypted room"@,
        }
    }

    /// A short phrase for the transcript. "Unverified" means something specific here and
    /// the user is owed the specific meaning.
    pub fn describe(self) -> (r: &'static str)
        ensures
            r@ == self.phrase(),
    {
        match self {
            ShieldReason::Unknown => "authenticity unknown",
            ShieldReason::UnknownDevice => "sent from a device we do not know",
            ShieldReason::UnsignedDevice => "sent from an unverified device",
            ShieldReason::UnverifiedIdentity => "sender is not verified",
            ShieldReason::IdentityChanged => "sender's identity changed since you verified them",
            ShieldReason::MismatchedSender => "sender does not match the encrypting device",
            ShieldReason::SentInClear => "sent unencrypted in an encrypted room",
        }
    }
}

impl ViewModel {
    /// The room's main timeline.
    pub open spec fn room(room_id: Seq<char>) -> ViewModel {
        ViewModel { room_id, thread_root: None }
    }

    /// One thread.
    pub open spec fn thread(room_id: Seq<char>, root: Seq<char>) -> ViewModel {
        ViewModel { room_id, thread_root: Some(root) }
    }
}

impl View {
    /// The room's main timeline, with threaded events hidden.
    pub fn room(room_id: &str) -> (r: Self)
        ensures
            r@ == ViewModel::room(room_id@),
    {
        View { room_id: room_id.to_owned(), thread_root: None }
    }

    /// One thread: a single agent session.
    pub fn thread(room_id: &str, root: &str) -> (r: Self)
        ensures
            r@ == ViewModel::thread(room_id@, root@),
    {
        View { room_id: room_id.to_owned(), thread_root: Some(root.to_owned()) }
    }

    pub fn is_thread(&self) -> (r: bool)
        ensures
            r == self@.thread_root is Some,
    {
        self.thread_root.is_some()
    }

    /// Whether two views show the same timeline.
    pub fn same_as(&self, other: &View) -> (r: bool)
        ensures
            r == (self@ == other@),
    {
        if !same(self.room_id.as_str(), other.room_id.as_str()) {
            return false;
        }
        match (&self.thread_root, &other.thread_root) {
            (Some(a), Some(b)) => same(a.as_str(), b.as_str()),
            (None, None) => true,
            _ => false,
        }
    }
}

impl Key for View {
    type Ref = View;

    open spec fn ref_model(r: &View) -> ViewModel {
        r@
    }

    fn is_key(&self, r: &View) -> (b: bool) {
        self.same_as(r)
    }

    fn as_key(&self) -> (r: &View) {
        self
    }
}

impl Verification {
    /// Whether this state is the end of the flow.
    pub fn is_finished(&self) -> (r: bool)
        ensures
            r == (self@ is Done || self@ is Cancelled),
    {
        matches!(self, Verification::Done | Verification::Cancelled { .. })
    }
}

impl CommandModel {
    /// The name of the variant.
    pub open spec fn kind(self) -> Seq<char> {
        match self {
            CommandModel::OpenView(_) => "OpenView"@,
            CommandModel::CloseView(_) => "CloseView"@,
            CommandModel::Paginate { .. } => "Paginate"@,
            CommandModel::SendMessage { .. } => "SendMessage"@,
            CommandModel::SendReply { .. } => "SendReply"@,
            CommandModel::Edit { .. } => "Edit"@,
            CommandModel::Redact { .. } => "Redact"@,
            CommandModel::ListThreads { .. } => "ListThreads"@,
            CommandModel::ListMembers { .. } => "ListMembers"@,
            CommandModel::ToggleReaction { .. } => "ToggleReaction"@,
            CommandModel::SendTyping { .. } => "SendTyping"@,
            CommandModel::MarkRead { .. } => "MarkRead"@,
            CommandModel::StartVerification => "StartVerification"@,
            CommandModel::AcceptVerification => "AcceptVerification"@,
            CommandModel::ConfirmVerification => "ConfirmVerification"@,
            CommandModel::MismatchVerification => "MismatchVerification"@,
            CommandModel::CancelVerification => "CancelVerification"@,
            CommandModel::RecoverWithKey(_) => "RecoverWithKey"@,
            CommandModel::EnableRecovery => "EnableRecovery"@,
            CommandModel::ResetRecoveryKey => "ResetRecoveryKey"@,
            CommandModel::Shutdown => "Shutdown"@,
        }
    }
}

impl Command {
    /// The variant name, with nothing else attached.
    ///
    /// For logging: several variants carry a decrypted message body, and a client that
    /// writes those into a log file has undone the point of encrypting them.
    pub fn kind(&self) -> (r: &'static str)
        ensures
            r@ == self@.kind(),
    {
        match self {
            Command::OpenView(_) => "OpenView",
            Command::CloseView(_) => "CloseView",
            Command::Paginate { .. } => "Paginate",
            Command::SendMessage { .. } => "SendMessage",
            Command::SendReply { .. } => "SendReply",
            Command::Edit { .. } => "Edit",
            Command::Redact { .. } => "Redact",
            Command::ListThreads { .. } => "ListThreads",
            Command::ListMembers { .. } => "ListMembers",
            Command::ToggleReaction { .. } => "ToggleReaction",
            Command::SendTyping { .. } => "SendTyping",
            Command::MarkRead { .. } => "MarkRead",
            Command::StartVerification => "StartVerification",
            Command::AcceptVerification => "AcceptVerification",
            Command::ConfirmVerification => "ConfirmVerification",
            Command::MismatchVerification => "MismatchVerification",
            Command::CancelVerification => "CancelVerification",
            Command::RecoverWithKey(_) => "RecoverWithKey",
            Command::EnableRecovery => "EnableRecovery",
            Command::ResetRecoveryKey => "ResetRecoveryKey",
            Command::Shutdown => "Shutdown",
        }
    }
}

} // verus!
