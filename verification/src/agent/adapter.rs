//! Pluggable agent integrations.
//!
//! An agent speaks in one of two registers:
//!
//! * **Structured**: an event envelope under a content key. Lossless, and requires the
//!   agent to have been taught to emit it.
//! * **Textual**: the human-readable tool chrome the agent already prints. Lossy, and
//!   requires nothing of the agent at all.
//!
//! An [`Adapter`] is one agent's answer to those two questions. [`Adapters`] holds an
//! ordered set of them and asks each in turn. Adding an agent is a table and a name (see
//! [`Chrome`]); one whose messages fit no table brings a parser of its own.

use vstd::prelude::*;

use crate::agent::fallback::{parse_with, parsed, Chrome, Parsed, ParsedModel};
use crate::agent::protocol::{
    decode_under, decoded_under, AgentEvent, AgentEventModel, DecodeError, DecodeErrorModel, CONTENT_KEY,
    LEGACY_CONTENT_KEY,
};
use crate::json::Json;
use crate::text::same;

verus! {

/// What is to be known of an agent to understand it.
#[derive(Debug, Clone, Copy)]
pub struct Integration {
    /// Short, stable identifier, used in configuration and in diagnostics.
    pub id: &'static str,
    /// The content key of its structured events, where it has any.
    pub key: Option<&'static str>,
    /// The chrome it prints.
    pub chrome: Chrome,
}

/// What an agent finds of its own in the content of a message.
#[derive(Debug)]
pub enum Claim<'a> {
    /// The payload of the published envelope, still to be read.
    Payload(&'a Json),
    /// An event, read by a parser of the agent's own.
    Event(AgentEvent),
}

/// The mathematical content of a [`Claim`].
pub enum ClaimModel {
    Payload(Json),
    Event(AgentEventModel),
}

impl<'a> View for Claim<'a> {
    type V = ClaimModel;

    open spec fn view(&self) -> ClaimModel {
        match *self {
            Claim::Payload(payload) => ClaimModel::Payload(*payload),
            Claim::Event(event) => ClaimModel::Event(event@),
        }
    }
}

/// An agent's answer about the structured side of a message.
pub type Answer = Result<Option<ClaimModel>, DecodeErrorModel>;

/// The content of an answer.
pub open spec fn claimed(r: Result<Option<Claim>, DecodeError>) -> Answer {
    match r {
        Ok(Some(claim)) => Ok(Some(claim@)),
        Ok(None) => Ok(None),
        Err(e) => Err(e@),
    }
}

/// What a content key gives: its absence is no error.
pub open spec fn under_key(content: Json, key: Seq<char>) -> Answer {
    match decoded_under(content, key) {
        Ok(payload) => Ok(Some(ClaimModel::Payload(payload))),
        Err(DecodeErrorModel::Absent) => Ok(None),
        Err(e) => Err(e),
    }
}

/// The claim of an agent that has this content key, where it has one.
pub open spec fn claim_under(content: Json, key: Option<&'static str>) -> Answer {
    match key {
        Some(key) => under_key(content, key@),
        None => Ok(None),
    }
}

fn absent_is_none<'a>(result: Result<&'a Json, DecodeError>) -> (r: Result<Option<Claim<'a>>, DecodeError>)
    ensures
        match result {
            Ok(payload) => r == Ok::<Option<Claim<'a>>, DecodeError>(Some(Claim::Payload(payload))),
            Err(e) => if e@ is Absent {
                r == Ok::<Option<Claim<'a>>, DecodeError>(None)
            } else {
                r == Err::<Option<Claim<'a>>, DecodeError>(e)
            },
        },
{
    match result {
        Ok(payload) => Ok(Some(Claim::Payload(payload))),
        Err(DecodeError::Absent) => Ok(None),
        Err(other) => Err(other),
    }
}

/// One agent integration.
///
/// Implementors are expected to be cheap and stateless: one is consulted per message.
pub trait Adapter: Send + Sync {
    /// What the agent may answer to the content of a message; anything at all, where the
    /// implementor does not say.
    open spec fn claims(&self, content: Json, answer: Answer) -> bool {
        true
    }

    /// What may be recovered from the text of a message; anything at all, where the
    /// implementor does not say.
    open spec fn recovers(&self, body: Seq<char>, found: ParsedModel) -> bool {
        true
    }

    /// Short, stable identifier, used in configuration and in diagnostics.
    fn id(&self) -> &'static str;

    /// What the agent claims of the content of a message.
    ///
    /// `Ok(None)` means "not mine, try someone else". An error means "mine, but it cannot be
    /// read"; the human-readable body is still on the wire either way.
    fn structured<'a>(&self, content: &'a Json) -> (r: Result<Option<Claim<'a>>, DecodeError>)
        ensures
            self.claims(*content, claimed(r)),
    ;

    /// What can be recovered from the human-readable body.
    ///
    /// An agent in whose text no tool calls are found has no claim on the message:
    /// declining and recovering nothing are the same thing.
    fn textual(&self, body: &str) -> (r: Parsed)
        ensures
            self.recovers(body@, r@),
    ;

    /// The table that says all there is to know of the agent, where one does. An agent with
    /// a parser of its own has none.
    fn integration(&self) -> (r: Option<Integration>)
        ensures
            match r {
                Some(a) => {
                    &&& forall|content: Json, answer: Answer|
                        #[trigger] self.claims(content, answer) ==> answer == claim_under(content, a.key)
                    &&& forall|body: Seq<char>, found: ParsedModel|
                        #[trigger] self.recovers(body, found) ==> found == parsed(body, a.chrome)
                },
                None => true,
            },
    {
        None
    }
}

impl Adapter for Integration {
    open spec fn claims(&self, content: Json, answer: Answer) -> bool {
        answer == claim_under(content, self.key)
    }

    open spec fn recovers(&self, body: Seq<char>, found: ParsedModel) -> bool {
        found == parsed(body, self.chrome)
    }

    fn id(&self) -> (r: &'static str)
        ensures
            r == self.id,
    {
        self.id
    }

    fn structured<'a>(&self, content: &'a Json) -> (r: Result<Option<Claim<'a>>, DecodeError>) {
        match self.key {
            Some(key) => absent_is_none(decode_under(content, key)),
            None => Ok(None),
        }
    }

    fn textual(&self, body: &str) -> (r: Parsed) {
        parse_with(body, self.chrome)
    }

    fn integration(&self) -> (r: Option<Integration>)
        ensures
            r == Some(*self),
    {
        Some(*self)
    }
}

/// The integration of the published schema.
pub open spec fn heddle() -> Integration {
    Integration { id: "heddle", key: Some(CONTENT_KEY), chrome: Chrome::none() }
}

/// The integration of Hermes.
pub open spec fn hermes() -> Integration {
    Integration { id: "hermes", key: Some(LEGACY_CONTENT_KEY), chrome: Chrome::hermes() }
}

/// The agent whose schema this is.
///
/// Structured only. Any agent that adopts the published envelope is understood without
/// anything else being known of it.
#[derive(Debug, Clone, Copy)]
pub struct Heddle;

impl Heddle {
    fn table(&self) -> (r: Integration)
        ensures
            r == heddle(),
    {
        Integration { id: "heddle", key: Some(CONTENT_KEY), chrome: Chrome::none() }
    }
}

impl Adapter for Heddle {
    open spec fn claims(&self, content: Json, answer: Answer) -> bool {
        answer == claim_under(content, heddle().key)
    }

    open spec fn recovers(&self, body: Seq<char>, found: ParsedModel) -> bool {
        found == parsed(body, heddle().chrome)
    }

    fn id(&self) -> (r: &'static str)
        ensures
            r == "heddle",
    {
        self.table().id()
    }

    fn structured<'a>(&self, content: &'a Json) -> (r: Result<Option<Claim<'a>>, DecodeError>) {
        self.table().structured(content)
    }

    fn textual(&self, body: &str) -> (r: Parsed) {
        self.table().textual(body)
    }

    fn integration(&self) -> (r: Option<Integration>)
        ensures
            r == Some(heddle()),
    {
        Some(self.table())
    }
}

/// Hermes.
///
/// Reads the legacy content key, and recovers tool chrome from the text where the key is
/// absent.
#[derive(Debug, Clone, Copy)]
pub struct Hermes;

impl Hermes {
    fn table(&self) -> (r: Integration)
        ensures
            r == hermes(),
    {
        Integration { id: "hermes", key: Some(LEGACY_CONTENT_KEY), chrome: Chrome::hermes() }
    }
}

impl Adapter for Hermes {
    open spec fn claims(&self, content: Json, answer: Answer) -> bool {
        answer == claim_under(content, hermes().key)
    }

    open spec fn recovers(&self, body: Seq<char>, found: ParsedModel) -> bool {
        found == parsed(body, hermes().chrome)
    }

    fn id(&self) -> (r: &'static str)
        ensures
            r == "hermes",
    {
        self.table().id()
    }

    fn structured<'a>(&self, content: &'a Json) -> (r: Result<Option<Claim<'a>>, DecodeError>) {
        self.table().structured(content)
    }

    fn textual(&self, body: &str) -> (r: Parsed) {
        self.table().textual(body)
    }

    fn integration(&self) -> (r: Option<Integration>)
        ensures
            r == Some(hermes()),
    {
        Some(self.table())
    }
}

/// An adapter assembled from a name and a chrome table.
///
/// For an agent whose output fits the shapes already known but which has no adapter of
/// its own: configured rather than compiled.
#[derive(Debug, Clone, Copy)]
pub struct Textual {
    pub id: &'static str,
    pub chrome: Chrome,
}

impl Textual {
    pub fn new(id: &'static str, chrome: Chrome) -> (r: Self)
        ensures
            r.id == id,
            r.chrome == chrome,
    {
        Textual { id, chrome }
    }
}

impl Adapter for Textual {
    open spec fn claims(&self, content: Json, answer: Answer) -> bool {
        answer == Ok::<Option<ClaimModel>, DecodeErrorModel>(None)
    }

    open spec fn recovers(&self, body: Seq<char>, found: ParsedModel) -> bool {
        found == parsed(body, self.chrome)
    }

    fn id(&self) -> (r: &'static str)
        ensures
            r == self.id,
    {
        self.id
    }

    fn structured<'a>(&self, content: &'a Json) -> (r: Result<Option<Claim<'a>>, DecodeError>) {
        Ok(None)
    }

    fn textual(&self, body: &str) -> (r: Parsed) {
        parse_with(body, self.chrome)
    }

    fn integration(&self) -> (r: Option<Integration>)
        ensures
            r == Some(Integration { id: self.id, key: None, chrome: self.chrome }),
    {
        Some(Integration { id: self.id, key: None, chrome: self.chrome })
    }
}

/// An agent that messages are offered to.
pub enum Registered {
    /// An agent of which a table says everything.
    Known(Integration),
    /// An agent with a parser of its own, and its name.
    Own { agent: Box<dyn Adapter>, id: &'static str },
}

impl Registered {
    /// The agent's name.
    pub open spec fn name(self) -> &'static str {
        match self {
            Registered::Known(a) => a.id,
            Registered::Own { id, .. } => id,
        }
    }

    /// What the agent may answer to the content of a message.
    pub open spec fn claims(self, content: Json, answer: Answer) -> bool {
        match self {
            Registered::Known(a) => answer == claim_under(content, a.key),
            Registered::Own { agent, .. } => (*agent).claims(content, answer),
        }
    }

    /// What may be recovered from the text of a message.
    pub open spec fn recovers(self, body: Seq<char>, found: ParsedModel) -> bool {
        match self {
            Registered::Known(a) => found == parsed(body, a.chrome),
            Registered::Own { agent, .. } => (*agent).recovers(body, found),
        }
    }

    fn id(&self) -> (r: &'static str)
        ensures
            r == self.name(),
    {
        match self {
            Registered::Known(a) => a.id,
            Registered::Own { id, .. } => *id,
        }
    }

    fn structured<'a>(&self, content: &'a Json) -> (r: Result<Option<Claim<'a>>, DecodeError>)
        ensures
            self.claims(*content, claimed(r)),
    {
        match self {
            Registered::Known(a) => a.structured(content),
            Registered::Own { agent, .. } => agent.structured(content),
        }
    }

    fn textual(&self, body: &str) -> (r: Parsed)
        ensures
            self.recovers(body@, r@),
    {
        match self {
            Registered::Known(a) => a.textual(body),
            Registered::Own { agent, .. } => agent.textual(body),
        }
    }
}

proof fn lemma_registered(all: Seq<Registered>, a: Registered)
    ensures
        all.push(a).len() == all.len() + 1,
        all.push(a).last() == a,
        all.push(a).drop_last() == all,
{
    assert(all.push(a).drop_last() =~= all);
}

/// Outcome of feeding one message through the registered adapters.
#[derive(Debug)]
pub enum Ingest {
    /// A structured event was present. Full fidelity.
    Structured {
        /// Which adapter understood it.
        adapter: &'static str,
        event: Box<AgentEvent>,
    },
    /// No extension, but agent-shaped chrome was recovered from the text.
    Degraded { adapter: &'static str, parsed: Parsed },
    /// An ordinary message. Render as chat.
    Plain,
}

impl Ingest {
    /// The adapter that claimed this message, if any did.
    pub fn adapter(&self) -> (r: Option<&'static str>)
        ensures
            r == (match *self {
                Ingest::Structured { adapter, .. } => Some(adapter),
                Ingest::Degraded { adapter, .. } => Some(adapter),
                Ingest::Plain => None,
            }),
    {
        match self {
            Ingest::Structured { adapter, .. } => Some(*adapter),
            Ingest::Degraded { adapter, .. } => Some(*adapter),
            Ingest::Plain => None,
        }
    }
}

/// The registered agent integrations, in the order they are consulted.
pub struct Adapters {
    pub adapters: Vec<Registered>,
    /// Whether the lossy text path may be used at all.
    pub textual_enabled: bool,
}

/// Whether this event is what an answer reads as.
pub open spec fn read_from<F: Fn(&Json) -> Option<AgentEvent>>(answer: Answer, parse: F, event: AgentEvent) -> bool {
    match answer {
        Ok(Some(ClaimModel::Payload(payload))) => parse.ensures((&payload,), Some(event)),
        Ok(Some(ClaimModel::Event(read))) => event@ == read,
        _ => false,
    }
}

/// Whether an answer holds no event: no claim, or a payload that cannot be read.
pub open spec fn without_event<F: Fn(&Json) -> Option<AgentEvent>>(answer: Answer, parse: F) -> bool {
    match answer {
        Ok(Some(ClaimModel::Payload(payload))) => parse.ensures((&payload,), None),
        Ok(Some(ClaimModel::Event(_))) => false,
        _ => true,
    }
}

/// Whether this event is what an agent's answer reads as.
pub open spec fn reads<F: Fn(&Json) -> Option<AgentEvent>>(
    a: Registered,
    content: Json,
    parse: F,
    event: AgentEvent,
) -> bool {
    exists|answer: Answer| #[trigger] a.claims(content, answer) && read_from(answer, parse, event)
}

/// Whether an agent has no event here.
pub open spec fn declines<F: Fn(&Json) -> Option<AgentEvent>>(a: Registered, content: Json, parse: F) -> bool {
    exists|answer: Answer| #[trigger] a.claims(content, answer) && without_event(answer, parse)
}

/// Whether nothing of an agent's is found in the text.
pub open spec fn silent(a: Registered, body: Seq<char>) -> bool {
    exists|found: ParsedModel| #[trigger] a.recovers(body, found) && found.tools.len() == 0
}

/// Whether this is what a message gives.
///
/// The first agent whose claim can be read has the event. Only where none can is the
/// text asked, and only where that is allowed; then the first agent of whom calls
/// are found has them.
pub open spec fn ingested<F: Fn(&Json) -> Option<AgentEvent>>(
    set: Adapters,
    content: Json,
    body: Seq<char>,
    parse: F,
    r: Ingest,
) -> bool {
    let all = set.adapters@;
    match r {
        Ingest::Structured { adapter, event } => exists|i: int|
            {
                &&& 0 <= i < all.len()
                &&& adapter == (#[trigger] all[i]).name()
                &&& reads(all[i], content, parse, *event)
                &&& forall|j: int| 0 <= j < i ==> declines(#[trigger] all[j], content, parse)
            },
        Ingest::Degraded { adapter, parsed: found } => {
            &&& forall|j: int| 0 <= j < all.len() ==> declines(#[trigger] all[j], content, parse)
            &&& set.textual_enabled
            &&& exists|i: int|
                {
                    &&& 0 <= i < all.len()
                    &&& adapter == (#[trigger] all[i]).name()
                    &&& all[i].recovers(body, found@)
                    &&& found@.tools.len() > 0
                    &&& forall|j: int| 0 <= j < i ==> silent(#[trigger] all[j], body)
                }
        },
        Ingest::Plain => {
            &&& forall|j: int| 0 <= j < all.len() ==> declines(#[trigger] all[j], content, parse)
            &&& set.textual_enabled ==> forall|j: int| 0 <= j < all.len() ==> silent(#[trigger] all[j], body)
        },
    }
}

/// The built-in integration with this name.
pub open spec fn built_in(id: Seq<char>) -> Option<Integration> {
    if id == "heddle"@ {
        Some(heddle())
    } else if id == "hermes"@ {
        Some(hermes())
    } else {
        None
    }
}

/// The built-in integrations with these names, in the order given; a name that is not
/// known is skipped.
pub open spec fn selected(ids: Seq<Seq<char>>) -> Seq<Registered>
    decreases ids.len(),
{
    if ids.len() == 0 {
        Seq::empty()
    } else {
        match built_in(ids.last()) {
            Some(a) => selected(ids.drop_last()).push(Registered::Known(a)),
            None => selected(ids.drop_last()),
        }
    }
}

impl Default for Adapters {
    fn default() -> (r: Self)
        ensures
            r.adapters@ == seq![Registered::Known(heddle()), Registered::Known(hermes())],
            r.textual_enabled,
    {
        Adapters::new()
    }
}

impl Adapters {
    /// The built-in set: the published schema first, then Hermes.
    pub fn new() -> (r: Self)
        ensures
            r.adapters@ == seq![Registered::Known(heddle()), Registered::Known(hermes())],
            r.textual_enabled,
    {
        let mut adapters: Vec<Registered> = Vec::new();
        adapters.push(Registered::Known(Heddle.table()));
        adapters.push(Registered::Known(Hermes.table()));
        assert(adapters@ =~= seq![Registered::Known(heddle()), Registered::Known(hermes())]);
        Adapters { adapters, textual_enabled: true }
    }

    /// An empty set. Every message is [`Ingest::Plain`].
    pub fn none() -> (r: Self)
        ensures
            r.adapters@ == Seq::<Registered>::empty(),
            r.textual_enabled,
    {
        Adapters { adapters: Vec::new(), textual_enabled: true }
    }

    /// Select built-in adapters by id, keeping the order given.
    ///
    /// An id that is not known is skipped rather than failing: a typo in a configuration
    /// file should cost one integration, not the whole client.
    pub fn by_id(ids: &Vec<String>) -> (r: Self)
        ensures
            r.adapters@ == selected(ids.deep_view()),
            r.textual_enabled,
    {
        let mut set = Adapters::none();
        let ghost all = ids.deep_view();
        let mut i: usize = 0;
        while i < ids.len()
            invariant
                i <= ids.len(),
                all == ids.deep_view(),
                set.adapters@ == selected(all.take(i as int)),
                set.textual_enabled,
            decreases ids.len() - i,
        {
            proof {
                assert(all.take(i + 1).drop_last() =~= all.take(i as int));
                assert(all.take(i + 1).last() == ids@[i as int]@);
            }
            if same(ids[i].as_str(), "heddle") {
                set.adapters.push(Registered::Known(Heddle.table()));
            } else if same(ids[i].as_str(), "hermes") {
                set.adapters.push(Registered::Known(Hermes.table()));
            }
            i += 1;
        }
        assert(all.take(all.len() as int) =~= all);
        set
    }

    /// Register another adapter at the end of the order: by its table where it has one, and
    /// else as the agent that it is. Of the latter only the name is told here: what it answers
    /// is for its own parser to say.
    pub fn with<A: Adapter + 'static>(self, adapter: A) -> (r: Self)
        ensures
            r.adapters@.len() == self.adapters@.len() + 1,
            r.adapters@.drop_last() == self.adapters@,
            exists|table: Option<Integration>|
                #[trigger] A::integration.ensures((&adapter,), table) && match table {
                    Some(a) => r.adapters@.last() == Registered::Known(a),
                    None => r.adapters@.last() is Own && A::id.ensures((&adapter,), r.adapters@.last().name()),
                },
            r.textual_enabled == self.textual_enabled,
    {
        let ghost before = self.adapters@;
        let mut adapters = self.adapters;
        let table = adapter.integration();
        let id = adapter.id();
        let registered = match table {
            Some(a) => Registered::Known(a),
            None => Registered::Own { agent: Box::new(adapter), id },
        };
        adapters.push(registered);
        proof {
            lemma_registered(before, registered);
        }
        Adapters { adapters, textual_enabled: self.textual_enabled }
    }

    /// Turn the lossy text path on or off for every adapter at once.
    pub fn textual(self, enabled: bool) -> (r: Self)
        ensures
            r == (Adapters { textual_enabled: enabled, ..self }),
    {
        Adapters { adapters: self.adapters, textual_enabled: enabled }
    }

    /// The ids of the registered adapters, in order.
    pub fn ids(&self) -> (r: Vec<&'static str>)
        ensures
            r@ == self.adapters@.map_values(|a: Registered| a.name()),
    {
        let mut out: Vec<&'static str> = Vec::new();
        let mut i: usize = 0;
        while i < self.adapters.len()
            invariant
                i <= self.adapters.len(),
                out@.len() == i,
                forall|j: int| 0 <= j < i ==> out@[j] == self.adapters@[j].name(),
            decreases self.adapters.len() - i,
        {
            out.push(self.adapters[i].id());
            i += 1;
        }
        out
    }

    pub fn is_empty(&self) -> (r: bool)
        ensures
            r == (self.adapters@.len() == 0),
    {
        self.adapters.len() == 0
    }

    /// Decode one message, structured path first. `parse` reads a payload of the published
    /// envelope as an event, or finds that it cannot.
    ///
    /// Every adapter gets a chance at the structured path before any of them is asked
    /// about text, because a lossless read by the second adapter beats a lossy one by
    /// the first. A payload that cannot be read is not fatal: the human-readable body is
    /// still there.
    pub fn ingest<F: Fn(&Json) -> Option<AgentEvent>>(&self, content: &Json, body: &str, parse: F) -> (r: Ingest)
        requires
            forall|payload: &Json| #[trigger] parse.requires((payload,)),
        ensures
            ingested(*self, *content, body@, parse, r),
    {
        let mut i: usize = 0;
        while i < self.adapters.len()
            invariant
                i <= self.adapters.len(),
                forall|payload: &Json| #[trigger] parse.requires((payload,)),
                forall|j: int| 0 <= j < i ==> declines(#[trigger] self.adapters@[j], *content, parse),
            decreases self.adapters.len() - i,
        {
            let a = &self.adapters[i];
            let answer = a.structured(content);
            let ghost said = claimed(answer);
            assert(a.claims(*content, said));
            match answer {
                Ok(Some(Claim::Payload(payload))) => {
                    if let Some(event) = parse(payload) {
                        assert(reads(self.adapters@[i as int], *content, parse, event));
                        return Ingest::Structured { adapter: a.id(), event: Box::new(event) };
                    }
                },
                Ok(Some(Claim::Event(event))) => {
                    assert(reads(self.adapters@[i as int], *content, parse, event));
                    return Ingest::Structured { adapter: a.id(), event: Box::new(event) };
                },
                _ => {},
            }
            i += 1;
        }
        if !self.textual_enabled {
            return Ingest::Plain;
        }
        let mut k: usize = 0;
        while k < self.adapters.len()
            invariant
                k <= self.adapters.len(),
                self.textual_enabled,
                forall|j: int| 0 <= j < self.adapters.len() ==> declines(#[trigger] self.adapters@[j], *content, parse),
                forall|j: int| 0 <= j < k ==> silent(#[trigger] self.adapters@[j], body@),
            decreases self.adapters.len() - k,
        {
            let a = &self.adapters[k];
            let found = a.textual(body);
            if !found.is_empty() {
                return Ingest::Degraded { adapter: a.id(), parsed: found };
            }
            k += 1;
        }
        Ingest::Plain
    }
}

// ----------------------------------------------------------------------------- laws

/// With the text path off, no message is read lossily.
pub proof fn law_text_off_is_never_degraded<F: Fn(&Json) -> Option<AgentEvent>>(
    set: Adapters,
    content: Json,
    body: Seq<char>,
    parse: F,
    r: Ingest,
)
    requires
        ingested(set, content, body, parse, r),
        !set.textual_enabled,
    ensures
        !(r is Degraded),
{
}

/// A lossless read beats a lossy one, whoever offers it: a message is read from its text
/// only if no agent's payload could be read.
pub proof fn law_lossless_beats_lossy<F: Fn(&Json) -> Option<AgentEvent>>(
    set: Adapters,
    content: Json,
    body: Seq<char>,
    parse: F,
    r: Ingest,
    i: int,
)
    requires
        ingested(set, content, body, parse, r),
        0 <= i < set.adapters@.len(),
        !declines(set.adapters@[i], content, parse),
    ensures
        r is Structured,
{
}

/// An empty set leaves every message plain.
pub proof fn law_an_empty_set_claims_nothing<F: Fn(&Json) -> Option<AgentEvent>>(
    set: Adapters,
    content: Json,
    body: Seq<char>,
    parse: F,
    r: Ingest,
)
    requires
        ingested(set, content, body, parse, r),
        set.adapters@.len() == 0,
    ensures
        r is Plain,
{
}

} // verus!
