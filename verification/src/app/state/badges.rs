//! Badges: what the agents are doing, copied onto the panes that show them.

use vstd::prelude::*;

use crate::agent::store::{AgentStore, SessionModel};
use crate::app::state::{App, AppModel};
use crate::layout::model::{Pane, PaneModel, Tab, TabModel, Workspace, WorkspaceModel, WorkspacesModel};
use crate::seqs::lemma_deep_update;

verus! {

/// A pane with the state of the session it shows. A pane whose session is not known is left
/// as it is.
pub open spec fn refreshed_pane(pane: PaneModel, agents: Map<Seq<char>, SessionModel>) -> PaneModel {
    match pane.kind.thread_root() {
        Some(root) => if agents.contains_key(root) {
            PaneModel {
                state: agents[root].state(),
                degraded: agents[root].degraded,
                gaps: agents[root].has_gaps(),
                ..pane
            }
        } else {
            pane
        },
        None => pane,
    }
}

/// A tab with its panes refreshed.
pub open spec fn refreshed_tab(tab: TabModel, agents: Map<Seq<char>, SessionModel>) -> TabModel {
    TabModel { panes: tab.panes.map_values(|p: PaneModel| refreshed_pane(p, agents)), ..tab }
}

/// A workspace with its panes refreshed.
pub open spec fn refreshed_workspace(w: WorkspaceModel, agents: Map<Seq<char>, SessionModel>) -> WorkspaceModel {
    WorkspaceModel { tabs: w.tabs.map_values(|t: TabModel| refreshed_tab(t, agents)), ..w }
}

/// The bar with its panes refreshed.
#[verifier::opaque]
pub open spec fn refreshed_bar(bar: WorkspacesModel, agents: Map<Seq<char>, SessionModel>) -> WorkspacesModel {
    WorkspacesModel { items: bar.items.map_values(|w: WorkspaceModel| refreshed_workspace(w, agents)), ..bar }
}

fn refresh_pane(pane: &mut Pane, agents: &AgentStore)
    ensures
        final(pane)@ == refreshed_pane(old(pane)@, agents@),
{
    let session = match pane.kind.thread_root() {
        Some(root) => agents.get(root),
        None => None,
    };
    if let Some(session) = session {
        pane.state = session.state();
        pane.degraded = session.degraded;
        pane.gaps = session.has_gaps();
    }
}

fn refresh_tab(tab: &mut Tab, agents: &AgentStore)
    ensures
        final(tab)@ == refreshed_tab(old(tab)@, agents@),
{
    let ghost before = tab@;
    let mut i: usize = 0;
    while i < tab.panes.len()
        invariant
            i <= tab.panes.len() == before.panes.len(),
            tab@ == (TabModel { panes: tab@.panes, ..before }),
            forall|j: int| 0 <= j < i ==> #[trigger] tab@.panes[j] == refreshed_pane(before.panes[j], agents@),
            forall|j: int| i <= j < before.panes.len() ==> #[trigger] tab@.panes[j] == before.panes[j],
        decreases tab.panes.len() - i,
    {
        let ghost prior = tab@;
        proof {
            lemma_deep_update(tab.panes, i as int);
            assert(tab@.panes[i as int] == before.panes[i as int]);
        }
        refresh_pane(&mut tab.panes[i], agents);
        assert(tab@.panes == prior.panes.update(i as int, refreshed_pane(before.panes[i as int], agents@)));
        i += 1;
    }
    assert(tab@.panes =~= refreshed_tab(before, agents@).panes);
}

fn refresh_workspace(w: &mut Workspace, agents: &AgentStore)
    ensures
        final(w)@ == refreshed_workspace(old(w)@, agents@),
{
    let ghost before = w@;
    let mut i: usize = 0;
    while i < w.tabs.len()
        invariant
            i <= w.tabs.len() == before.tabs.len(),
            w@ == (WorkspaceModel { tabs: w@.tabs, ..before }),
            forall|j: int| 0 <= j < i ==> #[trigger] w@.tabs[j] == refreshed_tab(before.tabs[j], agents@),
            forall|j: int| i <= j < before.tabs.len() ==> #[trigger] w@.tabs[j] == before.tabs[j],
        decreases w.tabs.len() - i,
    {
        let ghost prior = w@;
        proof {
            lemma_deep_update(w.tabs, i as int);
            assert(w@.tabs[i as int] == before.tabs[i as int]);
        }
        refresh_tab(&mut w.tabs[i], agents);
        assert(w@.tabs == prior.tabs.update(i as int, refreshed_tab(before.tabs[i as int], agents@)));
        i += 1;
    }
    assert(w@.tabs =~= refreshed_workspace(before, agents@).tabs);
}

impl AppModel {
    /// The derived agent state copied onto the panes.
    pub open spec fn refresh_pane_states(self) -> AppModel {
        AppModel { workspaces: refreshed_bar(self.workspaces, self.agents), ..self }
    }
}

impl App {
    /// Copy derived agent state onto panes so badges roll up.
    pub fn refresh_pane_states(&mut self)
        ensures
            final(self)@ == old(self)@.refresh_pane_states(),
    {
        let ghost before = self@;
        let mut i: usize = 0;
        while i < self.workspaces.items.len()
            invariant
                i <= self.workspaces.items.len() == before.workspaces.items.len(),
                self@ == (AppModel {
                    workspaces: (WorkspacesModel { items: self@.workspaces.items, ..before.workspaces }),
                    ..before
                }),
                forall|j: int|
                    0 <= j < i ==> #[trigger] self@.workspaces.items[j] == refreshed_workspace(
                        before.workspaces.items[j],
                        before.agents,
                    ),
                forall|j: int|
                    i <= j < before.workspaces.items.len() ==> #[trigger] self@.workspaces.items[j]
                        == before.workspaces.items[j],
            decreases self.workspaces.items.len() - i,
        {
            let ghost prior = self@.workspaces.items;
            proof {
                lemma_deep_update(self.workspaces.items, i as int);
                assert(self@.workspaces.items[i as int] == before.workspaces.items[i as int]);
            }
            refresh_workspace(&mut self.workspaces.items[i], &self.agents);
            assert(self@.workspaces.items == prior.update(
                i as int,
                refreshed_workspace(before.workspaces.items[i as int], before.agents),
            ));
            i += 1;
        }
        proof {
            reveal(refreshed_bar);
        }
        assert(self@.workspaces.items =~= before.refresh_pane_states().workspaces.items);
    }
}

/// Refreshing changes no focus, and no pane's place or content.
pub proof fn lemma_refreshing_keeps_the_focus(app: AppModel)
    ensures
        app.refresh_pane_states().focused_view() == app.focused_view(),
        app.refresh_pane_states().focused_room() == app.focused_room(),
        app.wf() ==> app.refresh_pane_states().wf(),
{
    reveal(refreshed_bar);
    let after = app.refresh_pane_states();
    if app.wf() {
        assert forall|i: int| 0 <= i < after.workspaces.items.len() implies (#[trigger] after.workspaces.items[i]).wf() by {
            let w = app.workspaces.items[i];
            assert(w.wf());
            assert forall|j: int| 0 <= j < w.tabs.len() implies (#[trigger] after.workspaces.items[i].tabs[j]).wf() by {
                assert(w.tabs[j].wf());
            }
        }
    }
}

} // verus!
