//! How the agents of a remote session are presented.

use vstd::prelude::*;

use crate::detect::{Agent, AgentState};
use crate::ordered_map::{same_texts, MetadataMap};

verus! {

/// An agent of a remote session, ready to be shown.
#[derive(Debug, PartialEq, Eq)]
pub struct RemoteAgentPresentation {
    pub workspace_id: String,
    pub tab_id: String,
    pub pane_id: String,
    pub workspace_label: String,
    pub tab_label: Option<String>,
    pub pane_label: Option<String>,
    pub terminal_title: Option<String>,
    pub terminal_title_stripped: Option<String>,
    pub agent_label: String,
    pub agent_kind_label: Option<String>,
    pub agent: Option<Agent>,
    pub state: AgentState,
    pub seen: bool,
    pub state_labels: MetadataMap,
    pub tokens: MetadataMap,
    /// Display order from the positions in the remote snapshot.
    pub display_order: (usize, usize, usize),
    /// Public order fields exposed to custom sorting.
    pub order: (usize, usize, usize),
}

/// What a presented agent shows, as mathematical values.
#[verifier::ext_equal]
pub struct PresentationModel {
    pub workspace_id: Seq<char>,
    pub tab_id: Seq<char>,
    pub pane_id: Seq<char>,
    pub workspace_label: Seq<char>,
    pub tab_label: Option<Seq<char>>,
    pub pane_label: Option<Seq<char>>,
    pub terminal_title: Option<Seq<char>>,
    pub terminal_title_stripped: Option<Seq<char>>,
    pub agent_label: Seq<char>,
    pub agent_kind_label: Option<Seq<char>>,
    pub agent: Option<Agent>,
    pub state: AgentState,
    pub seen: bool,
    pub state_labels: Map<Seq<char>, Seq<char>>,
    pub tokens: Map<Seq<char>, Seq<char>>,
    pub display_order: (usize, usize, usize),
    pub order: (usize, usize, usize),
}

/// The characters of a text that may be absent.
pub open spec fn option_text(text: Option<String>) -> Option<Seq<char>> {
    match text {
        Some(text) => Some(text@),
        None => None,
    }
}

/// Whether two texts that may be absent are the same.
pub fn same_option_text(a: &Option<String>, b: &Option<String>) -> (r: bool)
    ensures
        r == (option_text(*a) == option_text(*b)),
{
    match (a, b) {
        (Some(a), Some(b)) => *a == *b,
        (None, None) => true,
        _ => false,
    }
}

impl View for RemoteAgentPresentation {
    type V = PresentationModel;

    open spec fn view(&self) -> PresentationModel {
        PresentationModel {
            workspace_id: self.workspace_id@,
            tab_id: self.tab_id@,
            pane_id: self.pane_id@,
            workspace_label: self.workspace_label@,
            tab_label: option_text(self.tab_label),
            pane_label: option_text(self.pane_label),
            terminal_title: option_text(self.terminal_title),
            terminal_title_stripped: option_text(self.terminal_title_stripped),
            agent_label: self.agent_label@,
            agent_kind_label: option_text(self.agent_kind_label),
            agent: self.agent,
            state: self.state,
            seen: self.seen,
            state_labels: self.state_labels@,
            tokens: self.tokens@,
            display_order: self.display_order,
            order: self.order,
        }
    }
}

impl Clone for RemoteAgentPresentation {
    fn clone(&self) -> (copy: Self)
        ensures
            copy@ == self@,
    {
        RemoteAgentPresentation {
            workspace_id: self.workspace_id.clone(),
            tab_id: self.tab_id.clone(),
            pane_id: self.pane_id.clone(),
            workspace_label: self.workspace_label.clone(),
            tab_label: self.tab_label.clone(),
            pane_label: self.pane_label.clone(),
            terminal_title: self.terminal_title.clone(),
            terminal_title_stripped: self.terminal_title_stripped.clone(),
            agent_label: self.agent_label.clone(),
            agent_kind_label: self.agent_kind_label.clone(),
            agent: self.agent,
            state: self.state,
            seen: self.seen,
            state_labels: self.state_labels.clone(),
            tokens: self.tokens.clone(),
            display_order: self.display_order,
            order: self.order,
        }
    }
}

fn same_agent(a: Option<Agent>, b: Option<Agent>) -> (r: bool)
    ensures
        r == (a == b),
{
    match (a, b) {
        (Some(a), Some(b)) => a == b,
        (None, None) => true,
        _ => false,
    }
}

fn same_triple(a: (usize, usize, usize), b: (usize, usize, usize)) -> (r: bool)
    ensures
        r == (a == b),
{
    a.0 == b.0 && a.1 == b.1 && a.2 == b.2
}

/// Whether two agents are presented alike.
pub fn same_presentation(a: &RemoteAgentPresentation, b: &RemoteAgentPresentation) -> (r: bool)
    ensures
        r == (a@ == b@),
{
    a.workspace_id == b.workspace_id && a.tab_id == b.tab_id && a.pane_id == b.pane_id
        && a.workspace_label == b.workspace_label && same_option_text(&a.tab_label, &b.tab_label)
        && same_option_text(&a.pane_label, &b.pane_label) && same_option_text(
        &a.terminal_title,
        &b.terminal_title,
    ) && same_option_text(&a.terminal_title_stripped, &b.terminal_title_stripped) && a.agent_label
        == b.agent_label && same_option_text(&a.agent_kind_label, &b.agent_kind_label)
        && same_agent(a.agent, b.agent) && a.state == b.state && a.seen == b.seen && same_texts(
        &a.state_labels,
        &b.state_labels,
    ) && same_texts(&a.tokens, &b.tokens) && same_triple(a.display_order, b.display_order)
        && same_triple(a.order, b.order)
}

/// What a remote session reported last.
#[derive(Debug, PartialEq, Eq)]
pub struct RemoteAgentSnapshot {
    pub version: String,
    pub protocol: u32,
    pub agents: Vec<RemoteAgentPresentation>,
}

/// A reported session, as mathematical values.
#[verifier::ext_equal]
pub struct SnapshotModel {
    pub version: Seq<char>,
    pub protocol: u32,
    pub agents: Seq<PresentationModel>,
}

impl View for RemoteAgentSnapshot {
    type V = SnapshotModel;

    open spec fn view(&self) -> SnapshotModel {
        SnapshotModel {
            version: self.version@,
            protocol: self.protocol,
            agents: Seq::new(self.agents@.len(), |i: int| self.agents@[i]@),
        }
    }
}

} // verus!
