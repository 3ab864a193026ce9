//! Capturing real agent output, so that fixtures are recordings rather than guesses.
//!
//! A capture records one message a line: what arrived, and what was made of it. It is off
//! unless it is asked for, because it writes decrypted content to a plain file.

use vstd::prelude::*;

use crate::agent::protocol::{Tool, ToolModel};
use crate::json::Json;
use crate::matrix::model::{AgentPayload, AgentPayloadModel};
use crate::table::Table;

verus! {

/// Environment variable naming the capture file.
pub const CAPTURE_ENV: &'static str = "HEDDLE_CAPTURE";

/// One recorded message.
#[derive(Debug)]
pub struct Record<'a> {
    /// The event this came from, or `None` while it is still a local echo.
    pub event_id: Option<&'a str>,
    pub sender: &'a str,
    /// The human-readable body, in full and unmodified.
    pub body: &'a str,
    /// What was made of it: `structured`, `degraded` or `plain`.
    pub verdict: &'static str,
    /// Which adapter claimed it, if any.
    pub adapter: Option<&'static str>,
    /// Tool names recovered, so a bad match is obvious without running the parser again.
    pub tools: Vec<String>,
    /// The whole content, which is what a fixture needs.
    pub content: &'a Json,
}

/// What was made of a message, in a word.
pub open spec fn verdict_of(payload: AgentPayloadModel) -> Seq<char> {
    match payload {
        AgentPayloadModel::Structured { .. } => "structured"@,
        AgentPayloadModel::Degraded { .. } => "degraded"@,
        AgentPayloadModel::Plain => "plain"@,
    }
}

/// The names of the tools in a message.
pub open spec fn tools_of(payload: AgentPayloadModel) -> Seq<Seq<char>> {
    match payload {
        AgentPayloadModel::Structured { event, .. } => match event.tool {
            Some(tool) => seq![tool.name],
            None => Seq::empty(),
        },
        AgentPayloadModel::Degraded { parsed, .. } => parsed.tools.map_values(|t: ToolModel| t.name),
        AgentPayloadModel::Plain => Seq::empty(),
    }
}

fn tool_names(tools: &Vec<Tool>) -> (r: Vec<String>)
    ensures
        r.deep_view() == tools.deep_view().map_values(|t: ToolModel| t.name),
{
    let ghost all = tools.deep_view().map_values(|t: ToolModel| t.name);
    let mut out: Vec<String> = Vec::new();
    let mut i: usize = 0;
    while i < tools.len()
        invariant
            i <= tools.len(),
            all == tools.deep_view().map_values(|t: ToolModel| t.name),
            out.deep_view() == all.take(i as int),
        decreases tools.len() - i,
    {
        let ghost so_far = out.deep_view();
        out.push(tools[i].name.clone());
        assert(out.deep_view() =~= so_far.push(tools@[i as int]@.name));
        assert(all.take(i + 1) =~= so_far.push(all[i as int]));
        i += 1;
    }
    assert(all.take(all.len() as int) =~= all);
    out
}

impl<'a> Record<'a> {
    /// The record of a message and what was made of it.
    pub fn of(
        event_id: Option<&'a str>,
        sender: &'a str,
        body: &'a str,
        payload: &AgentPayload,
        content: &'a Json,
    ) -> (r: Self)
        ensures
            r.event_id == event_id,
            r.sender == sender,
            r.body == body,
            r.content == content,
            r.verdict@ == verdict_of(payload@),
            r.tools.deep_view() == tools_of(payload@),
            match r.adapter {
                Some(name) => match payload@ {
                    AgentPayloadModel::Structured { adapter, .. } => name@ == adapter,
                    AgentPayloadModel::Degraded { adapter, .. } => name@ == adapter,
                    AgentPayloadModel::Plain => false,
                },
                None => payload@ is Plain,
            },
    {
        let (verdict, tools) = match payload {
            AgentPayload::Structured { event, .. } => {
                let mut tools: Vec<String> = Vec::new();
                if let Some(tool) = &event.tool {
                    tools.push(tool.name.clone());
                }
                ("structured", tools)
            },
            AgentPayload::Degraded { parsed, .. } => ("degraded", tool_names(&parsed.tools)),
            AgentPayload::Plain => ("plain", Vec::new()),
        };
        assert(tools.deep_view() =~= tools_of(payload@));
        Record { event_id, sender, body, verdict, adapter: payload.adapter(), tools, content }
    }
}

/// Whether this event has not been recorded before; if it has not, it has now.
///
/// A whole timeline is converted on every snapshot, and an agent streams by editing one event
/// repeatedly, so without this most lines would be one message at different lengths. A local
/// echo has no id yet and is always new.
pub fn is_new(seen: &mut Table<String, ()>, event_id: Option<&str>) -> (r: bool)
    ensures
        match event_id {
            Some(id) => {
                &&& r == !old(seen)@.dom().contains(id@)
                &&& final(seen)@.dom() == old(seen)@.dom().insert(id@)
            },
            None => r && final(seen)@ == old(seen)@,
        },
{
    match event_id {
        Some(id) => {
            if seen.contains_key(id) {
                assert(seen@.dom().insert(id@) =~= seen@.dom());
                false
            } else {
                seen.insert(id.to_owned(), ());
                true
            }
        },
        None => true,
    }
}

} // verus!
