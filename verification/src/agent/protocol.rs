//! The `dev.heddle.agent.v1` wire format.
//!
//! Agents carry a rich stream of events but flatten it to a human string at the Matrix
//! boundary, which discards tool results, exit codes, durations and token usage. These
//! types hold the structure that travels beside the human-readable body, under a
//! namespaced content key, so that other clients are unaffected.

use vstd::prelude::*;
use vstd::string::*;

use crate::json::Json;
use crate::text::{clone_pairs, decimal, decimal_text, same};

verus! {

/// The reverse-DNS content key an agent event is attached under.
pub const CONTENT_KEY: &'static str = "dev.heddle.agent.v1";

/// The key of an agent that came first, accepted for compatibility.
///
/// Both keys are read; [`CONTENT_KEY`] is what new agents should write.
pub const LEGACY_CONTENT_KEY: &'static str = "dev.hermes.agent.v1";

/// The schema major that is understood. Envelopes with a higher `v` are rejected rather
/// than misread.
pub const SCHEMA_VERSION: u32 = 1;

/// Discriminant of an [`AgentEvent`].
///
/// A kind that is not known is [`Kind::Unknown`] rather than an error, so a newer agent
/// degrades to "ignored" instead of breaking the timeline.
#[derive(Debug, Clone, Copy, PartialEq, Eq, Structural)]
pub enum Kind {
    MessageDelta,
    MessageStop,
    Commentary,
    ToolCall,
    ToolResult,
    Notice,
    ApprovalRequest,
    ApprovalResolved,
    ModelPicker,
    Usage,
    Unknown,
}

impl Kind {
    /// The kind that goes by this word on the wire. A word that is not known is
    /// [`Kind::Unknown`].
    pub open spec fn of_word(word: Seq<char>) -> Kind {
        if word == "message.delta"@ {
            Kind::MessageDelta
        } else if word == "message.stop"@ {
            Kind::MessageStop
        } else if word == "commentary"@ {
            Kind::Commentary
        } else if word == "tool.call"@ {
            Kind::ToolCall
        } else if word == "tool.result"@ {
            Kind::ToolResult
        } else if word == "notice"@ {
            Kind::Notice
        } else if word == "approval.request"@ {
            Kind::ApprovalRequest
        } else if word == "approval.resolved"@ {
            Kind::ApprovalResolved
        } else if word == "model.picker"@ {
            Kind::ModelPicker
        } else if word == "usage"@ {
            Kind::Usage
        } else {
            Kind::Unknown
        }
    }

    /// The kind that goes by this word on the wire.
    pub fn named(word: &str) -> (r: Kind)
        ensures
            r == Kind::of_word(word@),
    {
        if same(word, "message.delta") {
            Kind::MessageDelta
        } else if same(word, "message.stop") {
            Kind::MessageStop
        } else if same(word, "commentary") {
            Kind::Commentary
        } else if same(word, "tool.call") {
            Kind::ToolCall
        } else if same(word, "tool.result") {
            Kind::ToolResult
        } else if same(word, "notice") {
            Kind::Notice
        } else if same(word, "approval.request") {
            Kind::ApprovalRequest
        } else if same(word, "approval.resolved") {
            Kind::ApprovalResolved
        } else if same(word, "model.picker") {
            Kind::ModelPicker
        } else if same(word, "usage") {
            Kind::Usage
        } else {
            Kind::Unknown
        }
    }
}

/// How far a tool call has come.
#[derive(Debug, Clone, Copy, PartialEq, Eq, Structural)]
pub enum ToolStatus {
    Running,
    Success,
    Error,
}

/// How an approval prompt was answered.
#[derive(Debug, Clone, Copy, PartialEq, Eq, Structural)]
pub enum ApprovalChoice {
    Approve,
    Deny,
    Timeout,
}

/// How a [`Tool`] result body should be rendered, resolved from its MIME type.
#[derive(Debug, Clone, Copy, PartialEq, Eq, Structural)]
pub enum ResultKind {
    /// Unified diff, with an add and delete gutter.
    Diff,
    /// Pretty-printed and folded past a threshold.
    Json,
    /// Markdown, shown as a monospace block.
    Markdown,
    /// Monospace block, folded past a threshold.
    Plain,
}

/// Token accounting for a turn. Costs are in millionths of a dollar.
#[derive(Debug, Clone, Copy, PartialEq, Eq, Structural)]
pub struct Usage {
    pub input_tokens: u64,
    pub output_tokens: u64,
    pub cost_micro_usd: Option<u64>,
}

/// Identity of the responding agent. Sent once per turn.
#[derive(Debug, PartialEq, Eq)]
pub struct AgentInfo {
    pub name: String,
    pub model: Option<String>,
    pub version: Option<String>,
}

/// The mathematical content of a [`AgentInfo`].
#[verifier::ext_equal]
pub struct AgentInfoModel {
    pub name: Seq<char>,
    pub model: Option<Seq<char>>,
    pub version: Option<Seq<char>>,
}

impl View for AgentInfo {
    type V = AgentInfoModel;

    open spec fn view(&self) -> AgentInfoModel {
        AgentInfoModel {
            name: self.name@,
            model: self.model.deep_view(),
            version: self.version.deep_view(),
        }
    }
}

impl DeepView for AgentInfo {
    type V = AgentInfoModel;

    open spec fn deep_view(&self) -> AgentInfoModel {
        self@
    }
}

impl Clone for AgentInfo {
    fn clone(&self) -> (r: Self)
        ensures
            r@ == self@,
    {
        let r = AgentInfo {
            name: self.name.clone(),
            model: match &self.model { Some(x) => Some(x.clone()), None => None },
            version: match &self.version { Some(x) => Some(x.clone()), None => None },
        };
        assert(r.model.deep_view() =~= self.model.deep_view());
        assert(r.version.deep_view() =~= self.version.deep_view());
        r
    }
}

/// One argument of a tool call.
#[derive(Debug, PartialEq, Eq)]
pub enum Arg {
    /// A string.
    Text(String),
    /// A number, as it is written.
    Number(String),
    /// Anything else, as it is written.
    Other(String),
}

/// The mathematical content of a [`Arg`].
#[verifier::ext_equal]
pub enum ArgModel {
    Text(Seq<char>),
    Number(Seq<char>),
    Other(Seq<char>),
}

impl View for Arg {
    type V = ArgModel;

    open spec fn view(&self) -> ArgModel {
        match self {
            Arg::Text(a) => ArgModel::Text(a@),
            Arg::Number(a) => ArgModel::Number(a@),
            Arg::Other(a) => ArgModel::Other(a@),
        }
    }
}

impl DeepView for Arg {
    type V = ArgModel;

    open spec fn deep_view(&self) -> ArgModel {
        self@
    }
}

impl Clone for Arg {
    fn clone(&self) -> (r: Self)
        ensures
            r@ == self@,
    {
        let r = match self {
            Arg::Text(a) => Arg::Text(a.clone()),
            Arg::Number(a) => Arg::Number(a.clone()),
            Arg::Other(a) => Arg::Other(a.clone()),
        };
        assert(r@ =~~= self@);
        r
    }
}

/// The arguments of a tool call.
#[derive(Debug, PartialEq, Eq)]
pub enum Args {
    /// Named arguments, in order of their names.
    Object(Vec<(String, Arg)>),
    /// Anything but an object, as it is written.
    Other(String),
}

/// The mathematical content of a [`Args`].
#[verifier::ext_equal]
pub enum ArgsModel {
    Object(Seq<(Seq<char>, ArgModel)>),
    Other(Seq<char>),
}

impl View for Args {
    type V = ArgsModel;

    open spec fn view(&self) -> ArgsModel {
        match self {
            Args::Object(a) => ArgsModel::Object(a.deep_view()),
            Args::Other(a) => ArgsModel::Other(a@),
        }
    }
}

impl DeepView for Args {
    type V = ArgsModel;

    open spec fn deep_view(&self) -> ArgsModel {
        self@
    }
}

impl Clone for Args {
    fn clone(&self) -> (r: Self)
        ensures
            r@ == self@,
    {
        let r = match self {
            Args::Object(a) => Args::Object(clone_args(a)),
            Args::Other(a) => Args::Other(a.clone()),
        };
        assert(r@ =~~= self@);
        r
    }
}

/// A tool invocation or its result.
#[derive(Debug, PartialEq, Eq)]
pub struct Tool {
    pub name: String,
    /// Index of this call within the turn. Pairs a result to its call.
    pub index: u32,
    pub args: Option<Args>,
    pub preview: Option<String>,
    pub status: ToolStatus,
    pub duration_ms: Option<u64>,
    /// MIME type of `body`. Decides how it is rendered; see [`ResultKind`].
    pub mime: Option<String>,
    pub body: Option<String>,
    pub truncated: bool,
}

/// The mathematical content of a [`Tool`].
#[verifier::ext_equal]
pub struct ToolModel {
    pub name: Seq<char>,
    pub index: u32,
    pub args: Option<ArgsModel>,
    pub preview: Option<Seq<char>>,
    pub status: ToolStatus,
    pub duration_ms: Option<u64>,
    pub mime: Option<Seq<char>>,
    pub body: Option<Seq<char>>,
    pub truncated: bool,
}

impl View for Tool {
    type V = ToolModel;

    open spec fn view(&self) -> ToolModel {
        ToolModel {
            name: self.name@,
            index: self.index,
            args: self.args.deep_view(),
            preview: self.preview.deep_view(),
            status: self.status,
            duration_ms: self.duration_ms,
            mime: self.mime.deep_view(),
            body: self.body.deep_view(),
            truncated: self.truncated,
        }
    }
}

impl DeepView for Tool {
    type V = ToolModel;

    open spec fn deep_view(&self) -> ToolModel {
        self@
    }
}

impl Clone for Tool {
    fn clone(&self) -> (r: Self)
        ensures
            r@ == self@,
    {
        let r = Tool {
            name: self.name.clone(),
            index: self.index,
            args: match &self.args { Some(x) => Some(x.clone()), None => None },
            preview: match &self.preview { Some(x) => Some(x.clone()), None => None },
            status: self.status,
            duration_ms: self.duration_ms,
            mime: match &self.mime { Some(x) => Some(x.clone()), None => None },
            body: match &self.body { Some(x) => Some(x.clone()), None => None },
            truncated: self.truncated,
        };
        assert(r.args.deep_view() =~= self.args.deep_view());
        assert(r.preview.deep_view() =~= self.preview.deep_view());
        assert(r.mime.deep_view() =~= self.mime.deep_view());
        assert(r.body.deep_view() =~= self.body.deep_view());
        r
    }
}

/// A notice passed through from the agent.
#[derive(Debug, PartialEq, Eq)]
pub struct Notice {
    pub kind: String,
    pub text: String,
    pub extra: Vec<(String, String)>,
}

/// The mathematical content of a [`Notice`].
#[verifier::ext_equal]
pub struct NoticeModel {
    pub kind: Seq<char>,
    pub text: Seq<char>,
    pub extra: Seq<(Seq<char>, Seq<char>)>,
}

impl View for Notice {
    type V = NoticeModel;

    open spec fn view(&self) -> NoticeModel {
        NoticeModel {
            kind: self.kind@,
            text: self.text@,
            extra: self.extra.deep_view(),
        }
    }
}

impl DeepView for Notice {
    type V = NoticeModel;

    open spec fn deep_view(&self) -> NoticeModel {
        self@
    }
}

impl Clone for Notice {
    fn clone(&self) -> (r: Self)
        ensures
            r@ == self@,
    {
        let r = Notice {
            kind: self.kind.clone(),
            text: self.text.clone(),
            extra: clone_pairs(&self.extra),
        };
        assert(r.extra.deep_view() =~= self.extra.deep_view());
        r
    }
}

/// A human-in-the-loop approval prompt.
#[derive(Debug, PartialEq, Eq)]
pub struct Approval {
    pub id: String,
    pub kind: String,
    pub command: Option<String>,
    pub cwd: Option<String>,
    /// Unix seconds. Absent means no timeout.
    pub expires_at: Option<u64>,
    /// Emoji the agent accepts, each with the choice it stands for, in order of the emoji.
    pub reactions: Vec<(String, String)>,
    /// Set once the prompt is resolved.
    pub choice: Option<ApprovalChoice>,
    /// Who resolved it.
    pub by: Option<String>,
}

/// The mathematical content of a [`Approval`].
#[verifier::ext_equal]
pub struct ApprovalModel {
    pub id: Seq<char>,
    pub kind: Seq<char>,
    pub command: Option<Seq<char>>,
    pub cwd: Option<Seq<char>>,
    pub expires_at: Option<u64>,
    pub reactions: Seq<(Seq<char>, Seq<char>)>,
    pub choice: Option<ApprovalChoice>,
    pub by: Option<Seq<char>>,
}

impl View for Approval {
    type V = ApprovalModel;

    open spec fn view(&self) -> ApprovalModel {
        ApprovalModel {
            id: self.id@,
            kind: self.kind@,
            command: self.command.deep_view(),
            cwd: self.cwd.deep_view(),
            expires_at: self.expires_at,
            reactions: self.reactions.deep_view(),
            choice: self.choice,
            by: self.by.deep_view(),
        }
    }
}

impl DeepView for Approval {
    type V = ApprovalModel;

    open spec fn deep_view(&self) -> ApprovalModel {
        self@
    }
}

impl Clone for Approval {
    fn clone(&self) -> (r: Self)
        ensures
            r@ == self@,
    {
        let r = Approval {
            id: self.id.clone(),
            kind: self.kind.clone(),
            command: match &self.command { Some(x) => Some(x.clone()), None => None },
            cwd: match &self.cwd { Some(x) => Some(x.clone()), None => None },
            expires_at: self.expires_at,
            reactions: clone_pairs(&self.reactions),
            choice: self.choice,
            by: match &self.by { Some(x) => Some(x.clone()), None => None },
        };
        assert(r.command.deep_view() =~= self.command.deep_view());
        assert(r.cwd.deep_view() =~= self.cwd.deep_view());
        assert(r.reactions.deep_view() =~= self.reactions.deep_view());
        assert(r.by.deep_view() =~= self.by.deep_view());
        r
    }
}

/// One choice of a [`Picker`].
#[derive(Debug, PartialEq, Eq)]
pub struct PickerOption {
    /// The reaction emoji that selects this option.
    pub key: String,
    pub label: String,
}

/// The mathematical content of a [`PickerOption`].
#[verifier::ext_equal]
pub struct PickerOptionModel {
    pub key: Seq<char>,
    pub label: Seq<char>,
}

impl View for PickerOption {
    type V = PickerOptionModel;

    open spec fn view(&self) -> PickerOptionModel {
        PickerOptionModel {
            key: self.key@,
            label: self.label@,
        }
    }
}

impl DeepView for PickerOption {
    type V = PickerOptionModel;

    open spec fn deep_view(&self) -> PickerOptionModel {
        self@
    }
}

impl Clone for PickerOption {
    fn clone(&self) -> (r: Self)
        ensures
            r@ == self@,
    {
        let r = PickerOption {
            key: self.key.clone(),
            label: self.label.clone(),
        };
        r
    }
}

/// A model selection prompt.
#[derive(Debug, PartialEq, Eq)]
pub struct Picker {
    pub id: String,
    pub options: Vec<PickerOption>,
    pub expires_at: Option<u64>,
}

/// The mathematical content of a [`Picker`].
#[verifier::ext_equal]
pub struct PickerModel {
    pub id: Seq<char>,
    pub options: Seq<PickerOptionModel>,
    pub expires_at: Option<u64>,
}

impl View for Picker {
    type V = PickerModel;

    open spec fn view(&self) -> PickerModel {
        PickerModel {
            id: self.id@,
            options: self.options.deep_view(),
            expires_at: self.expires_at,
        }
    }
}

impl DeepView for Picker {
    type V = PickerModel;

    open spec fn deep_view(&self) -> PickerModel {
        self@
    }
}

impl Clone for Picker {
    fn clone(&self) -> (r: Self)
        ensures
            r@ == self@,
    {
        let r = Picker {
            id: self.id.clone(),
            options: self.options.clone(),
            expires_at: self.expires_at,
        };
        assert(r.options.deep_view() =~= self.options.deep_view());
        r
    }
}

/// A single structured agent event.
#[derive(Debug, PartialEq, Eq)]
pub struct AgentEvent {
    /// Schema version. See [`SCHEMA_VERSION`].
    pub v: u32,
    /// Session key. Stable for the lifetime of a pane.
    pub session_id: String,
    /// Identifies one user-turn. Groups every event of a single response.
    pub turn_id: String,
    /// Monotonic within a turn. Used for ordering and gap detection.
    pub seq: u64,
    pub kind: Kind,
    /// Sent on the first event of a turn.
    pub agent: Option<AgentInfo>,
    /// Assistant text. Present for [`Kind::MessageDelta`] and [`Kind::Commentary`].
    pub text: Option<String>,
    /// Whether a [`Kind::MessageStop`] ends the turn or is only a segment break.
    pub final_: Option<bool>,
    pub tool: Option<Tool>,
    pub notice: Option<Notice>,
    pub approval: Option<Approval>,
    pub picker: Option<Picker>,
    pub usage: Option<Usage>,
}

/// The mathematical content of a [`AgentEvent`].
#[verifier::ext_equal]
pub struct AgentEventModel {
    pub v: u32,
    pub session_id: Seq<char>,
    pub turn_id: Seq<char>,
    pub seq: u64,
    pub kind: Kind,
    pub agent: Option<AgentInfoModel>,
    pub text: Option<Seq<char>>,
    pub final_: Option<bool>,
    pub tool: Option<ToolModel>,
    pub notice: Option<NoticeModel>,
    pub approval: Option<ApprovalModel>,
    pub picker: Option<PickerModel>,
    pub usage: Option<Usage>,
}

impl View for AgentEvent {
    type V = AgentEventModel;

    open spec fn view(&self) -> AgentEventModel {
        AgentEventModel {
            v: self.v,
            session_id: self.session_id@,
            turn_id: self.turn_id@,
            seq: self.seq,
            kind: self.kind,
            agent: self.agent.deep_view(),
            text: self.text.deep_view(),
            final_: self.final_,
            tool: self.tool.deep_view(),
            notice: self.notice.deep_view(),
            approval: self.approval.deep_view(),
            picker: self.picker.deep_view(),
            usage: self.usage,
        }
    }
}

impl DeepView for AgentEvent {
    type V = AgentEventModel;

    open spec fn deep_view(&self) -> AgentEventModel {
        self@
    }
}

impl Clone for AgentEvent {
    fn clone(&self) -> (r: Self)
        ensures
            r@ == self@,
    {
        let r = AgentEvent {
            v: self.v,
            session_id: self.session_id.clone(),
            turn_id: self.turn_id.clone(),
            seq: self.seq,
            kind: self.kind,
            agent: match &self.agent { Some(x) => Some(x.clone()), None => None },
            text: match &self.text { Some(x) => Some(x.clone()), None => None },
            final_: self.final_,
            tool: match &self.tool { Some(x) => Some(x.clone()), None => None },
            notice: match &self.notice { Some(x) => Some(x.clone()), None => None },
            approval: match &self.approval { Some(x) => Some(x.clone()), None => None },
            picker: match &self.picker { Some(x) => Some(x.clone()), None => None },
            usage: self.usage,
        };
        assert(r.agent.deep_view() =~= self.agent.deep_view());
        assert(r.text.deep_view() =~= self.text.deep_view());
        assert(r.tool.deep_view() =~= self.tool.deep_view());
        assert(r.notice.deep_view() =~= self.notice.deep_view());
        assert(r.approval.deep_view() =~= self.approval.deep_view());
        assert(r.picker.deep_view() =~= self.picker.deep_view());
        r
    }
}

/// A copy of named arguments.
fn clone_args(args: &Vec<(String, Arg)>) -> (r: Vec<(String, Arg)>)
    ensures
        r.deep_view() == args.deep_view(),
{
    let mut out: Vec<(String, Arg)> = Vec::new();
    let mut i: usize = 0;
    while i < args.len()
        invariant
            i <= args.len(),
            out.deep_view() == args.deep_view().take(i as int),
        decreases args.len() - i,
    {
        let ghost before = out.deep_view();
        out.push((args[i].0.clone(), args[i].1.clone()));
        assert(out.deep_view() =~= before.push(args.deep_view()[i as int]));
        i += 1;
    }
    assert(args.deep_view().take(args.len() as int) =~= args.deep_view());
    out
}

impl Default for ToolStatus {
    fn default() -> (r: Self)
        ensures
            r is Running,
    {
        ToolStatus::Running
    }
}

impl Default for Usage {
    fn default() -> (r: Self)
        ensures
            r == (Usage { input_tokens: 0, output_tokens: 0, cost_micro_usd: None }),
    {
        Usage { input_tokens: 0, output_tokens: 0, cost_micro_usd: None }
    }
}

impl ToolStatus {
    /// Whether the call has finished, successfully or otherwise.
    pub fn is_terminal(self) -> (r: bool)
        ensures
            r == !(self is Running),
    {
        matches!(self, ToolStatus::Success | ToolStatus::Error)
    }
}

/// How a result with this MIME type is rendered.
pub open spec fn kind_of_mime(mime: Option<Seq<char>>) -> ResultKind {
    match mime {
        Some(m) => if m == "text/x-diff"@ || m == "text/x-patch"@ || m == "application/x-patch"@ {
            ResultKind::Diff
        } else if m == "application/json"@ || m == "text/json"@ {
            ResultKind::Json
        } else if m == "text/markdown"@ || m == "text/x-markdown"@ {
            ResultKind::Markdown
        } else {
            ResultKind::Plain
        },
        None => ResultKind::Plain,
    }
}

impl ArgModel {
    /// The text of an argument that can head a card: a string that is not empty, or a
    /// number.
    pub open spec fn scalar(self) -> Option<Seq<char>> {
        match self {
            ArgModel::Text(s) => if s.len() > 0 {
                Some(s)
            } else {
                None
            },
            ArgModel::Number(n) => Some(n),
            ArgModel::Other(_) => None,
        }
    }
}

/// The first scalar among these arguments, or nothing.
pub open spec fn first_scalar(args: Seq<(Seq<char>, ArgModel)>) -> Seq<char>
    decreases args.len(),
{
    if args.len() == 0 {
        Seq::empty()
    } else {
        match args[0].1.scalar() {
            Some(s) => s,
            None => first_scalar(args.skip(1)),
        }
    }
}

impl ToolModel {
    /// The one-line summary of a card: the preview where it says something, else the
    /// first scalar argument.
    pub open spec fn summary(self) -> Seq<char> {
        if self.preview is Some && self.preview->0.len() > 0 {
            self.preview->0
        } else {
            match self.args {
                Some(ArgsModel::Object(args)) => first_scalar(args),
                _ => Seq::empty(),
            }
        }
    }
}

impl Tool {
    /// How the body should be rendered.
    pub fn result_kind(&self) -> (r: ResultKind)
        ensures
            r == kind_of_mime(self@.mime),
    {
        match &self.mime {
            Some(mime) => {
                let m = mime.as_str();
                if same(m, "text/x-diff") || same(m, "text/x-patch") || same(m, "application/x-patch") {
                    ResultKind::Diff
                } else if same(m, "application/json") || same(m, "text/json") {
                    ResultKind::Json
                } else if same(m, "text/markdown") || same(m, "text/x-markdown") {
                    ResultKind::Markdown
                } else {
                    ResultKind::Plain
                }
            },
            None => ResultKind::Plain,
        }
    }

    /// A one-line summary for the collapsed card header.
    ///
    /// Prefers the explicit `preview`, falling back to the first scalar argument so a
    /// card is rarely headerless.
    pub fn summary(&self) -> (r: String)
        ensures
            r@ == self@.summary(),
    {
        if let Some(preview) = &self.preview {
            if !preview.as_str().is_empty() {
                return preview.clone();
            }
        }
        match &self.args {
            Some(Args::Object(args)) => {
                let ghost all = args.deep_view();
                let mut i: usize = 0;
                assert(all.skip(0) =~= all);
                while i < args.len()
                    invariant
                        i <= args.len(),
                        all == args.deep_view(),
                        first_scalar(all.skip(i as int)) == self@.summary(),
                    decreases args.len() - i,
                {
                    assert(all.skip(i as int).skip(1) =~= all.skip(i + 1));
                    assert(all.skip(i as int)[0] == all[i as int]);
                    match &args[i].1 {
                        Arg::Text(s) => {
                            if !s.as_str().is_empty() {
                                return s.clone();
                            }
                        },
                        Arg::Number(n) => {
                            return n.clone();
                        },
                        Arg::Other(_) => {},
                    }
                    i += 1;
                }
                String::new()
            },
            _ => String::new(),
        }
    }
}

// --------------------------------------------------------------------------- decoding

/// Why an event could not be decoded.
#[derive(Debug, PartialEq, Eq)]
pub enum DecodeError {
    /// The content had no agent event. Expected for ordinary messages.
    Absent,
    /// The envelope declares a schema major that is not understood. The event is
    /// skipped; the human-readable body still renders.
    UnsupportedVersion { found: u32 },
    /// The key was present but malformed.
    Malformed(String),
}

/// The mathematical content of a [`DecodeError`].
#[verifier::ext_equal]
pub enum DecodeErrorModel {
    Absent,
    UnsupportedVersion { found: u32 },
    Malformed(Seq<char>),
}

impl View for DecodeError {
    type V = DecodeErrorModel;

    open spec fn view(&self) -> DecodeErrorModel {
        match self {
            DecodeError::Absent => DecodeErrorModel::Absent,
            DecodeError::UnsupportedVersion { found } => DecodeErrorModel::UnsupportedVersion { found: *found },
            DecodeError::Malformed(a) => DecodeErrorModel::Malformed(a@),
        }
    }
}

impl DeepView for DecodeError {
    type V = DecodeErrorModel;

    open spec fn deep_view(&self) -> DecodeErrorModel {
        self@
    }
}

impl Clone for DecodeError {
    fn clone(&self) -> (r: Self)
        ensures
            r@ == self@,
    {
        let r = match self {
            DecodeError::Absent => DecodeError::Absent,
            DecodeError::UnsupportedVersion { found } => DecodeError::UnsupportedVersion { found: *found },
            DecodeError::Malformed(a) => DecodeError::Malformed(a.clone()),
        };
        assert(r@ =~~= self@);
        r
    }
}

impl DecodeError {
    /// The error in words.
    pub fn message(&self) -> (r: String)
        ensures
            r@ == self@.message(),
    {
        match self {
            DecodeError::Absent => "no agent event present".to_owned(),
            DecodeError::UnsupportedVersion { found } => {
                let mut s = "unsupported schema version ".to_owned();
                s.append(decimal_text(*found as u64).as_str());
                s.append(" (this build understands ");
                s.append(decimal_text(SCHEMA_VERSION as u64).as_str());
                s.append(")");
                s
            },
            DecodeError::Malformed(why) => {
                let mut s = "malformed agent event: ".to_owned();
                s.append(why.as_str());
                s
            },
        }
    }
}

impl DecodeErrorModel {
    /// The error in words.
    pub open spec fn message(self) -> Seq<char> {
        match self {
            DecodeErrorModel::Absent => "no agent event present"@,
            DecodeErrorModel::UnsupportedVersion { found } => "unsupported schema version "@ + decimal(found as nat)
                + " (this build understands "@ + decimal(SCHEMA_VERSION as nat) + ")"@,
            DecodeErrorModel::Malformed(why) => "malformed agent event: "@ + why,
        }
    }
}

/// Where the payload under a key stands: an edit carries it in `m.new_content`, which is
/// the one that counts when both are there.
pub open spec fn payload_under(content: Json, key: Seq<char>) -> Option<Json> {
    match content.member("m.new_content"@) {
        Some(new) => match new.member(key) {
            Some(payload) => Some(payload),
            None => content.member(key),
        },
        None => content.member(key),
    }
}

/// What is said of a version that is too large for the schema's 32 bits.
pub open spec fn too_large(v: u64) -> Seq<char> {
    "invalid value: integer `"@ + decimal(v as nat) + "`, expected u32"@
}

/// What decoding the payload under a key gives: nothing there, no version, a version
/// that is not understood, or the payload. A version is read into 32 bits, as the schema
/// has it; one that only seems to be understood for that is malformed.
pub open spec fn decoded_under(content: Json, key: Seq<char>) -> Result<Json, DecodeErrorModel> {
    match payload_under(content, key) {
        None => Err(DecodeErrorModel::Absent),
        Some(payload) => match payload.member("v"@) {
            Some(Json::Unsigned(v)) => if (v as u32) > SCHEMA_VERSION {
                Err(DecodeErrorModel::UnsupportedVersion { found: v as u32 })
            } else if v > SCHEMA_VERSION {
                Err(DecodeErrorModel::Malformed(too_large(v)))
            } else {
                Ok(payload)
            },
            _ => Err(DecodeErrorModel::Malformed("missing `v`"@)),
        },
    }
}

/// The payload of an agent event, checked for its version, from one named key of a
/// content object.
pub fn decode_under<'a>(content: &'a Json, key: &str) -> (r: Result<&'a Json, DecodeError>)
    ensures
        match r {
            Ok(payload) => decoded_under(*content, key@) == Ok::<Json, DecodeErrorModel>(*payload),
            Err(e) => decoded_under(*content, key@) == Err::<Json, DecodeErrorModel>(e@),
        },
{
    let edited = match content.get("m.new_content") {
        Some(new) => new.get(key),
        None => None,
    };
    let found = match edited {
        Some(payload) => Some(payload),
        None => content.get(key),
    };
    match found {
        None => Err(DecodeError::Absent),
        Some(payload) => {
            // The version is checked first, so a future schema gives a precise error
            // rather than a confusing one about a field.
            match payload.get("v") {
                Some(Json::Unsigned(v)) => {
                    let version: u32 = #[verifier::truncate] (*v as u32);
                    if version > SCHEMA_VERSION {
                        Err(DecodeError::UnsupportedVersion { found: version })
                    } else if *v > SCHEMA_VERSION as u64 {
                        let mut message = "invalid value: integer `".to_owned();
                        message.append(decimal_text(*v).as_str());
                        message.append("`, expected u32");
                        assert(message@ =~= too_large(*v));
                        Err(DecodeError::Malformed(message))
                    } else {
                        Ok(payload)
                    }
                },
                _ => Err(DecodeError::Malformed("missing `v`".to_owned())),
            }
        },
    }
}

/// What decoding gives, reading [`CONTENT_KEY`] and, where it is absent,
/// [`LEGACY_CONTENT_KEY`].
pub open spec fn decoded(content: Json) -> Result<Json, DecodeErrorModel> {
    if decoded_under(content, CONTENT_KEY@) == Err::<Json, DecodeErrorModel>(DecodeErrorModel::Absent) {
        decoded_under(content, LEGACY_CONTENT_KEY@)
    } else {
        decoded_under(content, CONTENT_KEY@)
    }
}

/// The payload of an agent event from a message content object.
///
/// An adapter written for one specific agent should call [`decode_under`] with the key of
/// that agent instead, so that two agents sharing a room are never confused.
pub fn decode(content: &Json) -> (r: Result<&Json, DecodeError>)
    ensures
        match r {
            Ok(payload) => decoded(*content) == Ok::<Json, DecodeErrorModel>(*payload),
            Err(e) => decoded(*content) == Err::<Json, DecodeErrorModel>(e@),
        },
{
    match decode_under(content, CONTENT_KEY) {
        Err(DecodeError::Absent) => decode_under(content, LEGACY_CONTENT_KEY),
        other => other,
    }
}

/// Whether a content object carries an agent event at all.
///
/// Cheaper than [`decode`] when all that is needed is a routing decision.
pub fn is_agent_event(content: &Json) -> (r: bool)
    ensures
        r == (payload_under(*content, CONTENT_KEY@) is Some || payload_under(*content, LEGACY_CONTENT_KEY@) is Some),
{
    carries(content, CONTENT_KEY) || carries(content, LEGACY_CONTENT_KEY)
}

fn carries(content: &Json, key: &str) -> (r: bool)
    ensures
        r == payload_under(*content, key@) is Some,
{
    if content.get(key).is_some() {
        return true;
    }
    match content.get("m.new_content") {
        Some(new) => new.get(key).is_some(),
        None => false,
    }
}

/// A payload of a schema newer than the one understood is never taken for one of it.
pub proof fn law_a_newer_schema_is_refused(content: Json, key: Seq<char>, v: u64)
    requires
        payload_under(content, key) is Some,
        payload_under(content, key)->0.member("v"@) == Some(Json::Unsigned(v)),
    ensures
        decoded_under(content, key) is Ok <==> v <= SCHEMA_VERSION,
{
}

/// An event is decoded from content that [`is_agent_event`] recognises, and only then is
/// anything but absence reported.
pub proof fn law_absent_iff_no_agent_event(content: Json)
    ensures
        decoded(content) == Err::<Json, DecodeErrorModel>(DecodeErrorModel::Absent) <==> !(payload_under(
            content,
            CONTENT_KEY@,
        ) is Some || payload_under(content, LEGACY_CONTENT_KEY@) is Some),
{
}

/// A payload in the new content of an edit is the one that is read, whatever stands
/// outside it.
pub proof fn law_an_edit_wins(content: Json, new: Json, payload: Json, key: Seq<char>)
    requires
        content.member("m.new_content"@) == Some(new),
        new.member(key) == Some(payload),
    ensures
        payload_under(content, key) == Some(payload),
{
}

} // verus!
