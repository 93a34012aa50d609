//! Agent views: how a client filters and sorts the agents of the panel.

use vstd::prelude::*;

verus! {

/// A property that every agent can be filtered by.
#[derive(Debug, Clone, Copy, PartialEq, Eq, Structural)]
pub enum AgentViewBuiltinField {
    Status,
    WorkspaceId,
    TabId,
    PaneId,
    Agent,
    Seen,
    StateChangeSeq,
}

/// A property that every agent can be sorted by.
#[derive(Debug, Clone, Copy, PartialEq, Eq, Structural)]
pub enum AgentViewBuiltinSortField {
    WorkspaceOrder,
    TabOrder,
    PaneOrder,
    Attention,
    Status,
    Agent,
    Seen,
    StateChangeSeq,
}

/// A value that depends on what the app presents.
#[derive(Debug, Clone, Copy, PartialEq, Eq, Structural)]
pub enum AgentViewContext {
    CurrentWorkspaceId,
    CurrentTabId,
}

/// What a filter looks at: a property, or a metadata token.
#[derive(Debug, PartialEq, Eq)]
pub enum AgentViewField {
    Builtin(AgentViewBuiltinField),
    Token { token: String },
}

/// What a filter compares with.
#[derive(Debug, PartialEq, Eq)]
pub enum AgentViewValue {
    String(String),
    Bool(bool),
    Number(u64),
    Context { context: AgentViewContext },
}

#[derive(Debug, PartialEq, Eq)]
pub enum AgentViewFilter {
    All { filters: Vec<AgentViewFilter> },
    Any { filters: Vec<AgentViewFilter> },
    Not { filter: Box<AgentViewFilter> },
    Eq { field: AgentViewField, value: AgentViewValue },
    In { field: AgentViewField, values: Vec<AgentViewValue> },
    Exists { field: AgentViewField },
}

/// What a sort goes by: a property, or a metadata token.
#[derive(Debug, PartialEq, Eq)]
pub enum AgentViewSortField {
    Builtin(AgentViewBuiltinSortField),
    Token { token: String },
}

#[derive(Debug, Clone, Copy, PartialEq, Eq, Structural)]
pub enum AgentViewSortOrder {
    Asc,
    Desc,
}

#[derive(Debug, PartialEq, Eq)]
pub struct AgentViewSort {
    pub field: AgentViewSortField,
    pub order: AgentViewSortOrder,
}

/// A view that a client has set.
#[derive(Debug, PartialEq, Eq)]
pub struct AgentViewSetParams {
    /// Which client has set it.
    pub source: String,
    pub label: Option<String>,
    pub filter: Option<AgentViewFilter>,
    pub sort: Vec<AgentViewSort>,
}

} // verus!
