//! What filters let through.

use vstd::prelude::*;
use vstd::string::*;

use crate::agent_view::entry::AgentPanelEntry;
use crate::agent_view::value::{filter_matches, value_of_field, value_of_operand};
use crate::detect::AgentState;
use crate::schema::view::{
    AgentViewBuiltinField, AgentViewContext, AgentViewField, AgentViewFilter, AgentViewValue,
};
use crate::state::{AppState, Mode};
use crate::text::decimal;

verus! {

/// A filter of several filters lets an agent through if all of them do, or if any of them does; a
/// negated filter lets through exactly what the filter itself does not.
pub proof fn combined_filters_go_by_their_parts(
    app: AppState,
    entry: AgentPanelEntry,
    filters: Vec<AgentViewFilter>,
    filter: Box<AgentViewFilter>,
)
    ensures
        filter_matches(app, entry@, AgentViewFilter::All { filters }) <==> forall|i: int|
            0 <= i < filters@.len() ==> filter_matches(app, entry@, #[trigger] filters@[i]),
        filter_matches(app, entry@, AgentViewFilter::Any { filters }) <==> exists|i: int|
            0 <= i < filters@.len() && filter_matches(app, entry@, #[trigger] filters@[i]),
        filter_matches(app, entry@, AgentViewFilter::Not { filter }) <==> !filter_matches(
            app,
            entry@,
            *filter,
        ),
{
    let all = AgentViewFilter::All { filters };
    let any = AgentViewFilter::Any { filters };
    assert forall|i: int|
        0 <= i < filters@.len() && filter_matches(app, entry@, all) implies filter_matches(
        app,
        entry@,
        #[trigger] filters@[i],
    ) by {
        if !filter_matches(app, entry@, filters@[i]) {
            assert(!filter_matches(app, entry@, all->All_filters@[i]));
            assert(!filter_matches(app, entry@, all));
        }
    }
    assert forall|i: int|
        0 <= i < filters@.len() && filter_matches(app, entry@, #[trigger] filters@[i]) implies
        filter_matches(app, entry@, any) by {
        assert(filter_matches(app, entry@, any->Any_filters@[i]));
    }
}

/// A filter by several values lets an agent through if and only if the filter by one of them does:
/// whichever value it is, and in whatever order the values stand.
pub proof fn in_filters_take_any_of_their_values(
    app: AppState,
    entry: AgentPanelEntry,
    field: AgentViewField,
    values: Vec<AgentViewValue>,
)
    ensures
        filter_matches(app, entry@, AgentViewFilter::In { field, values }) <==> exists|i: int|
            0 <= i < values@.len() && filter_matches(
                app,
                entry@,
                AgentViewFilter::Eq { field, value: #[trigger] values@[i] },
            ),
{
    if filter_matches(app, entry@, AgentViewFilter::In { field, values }) {
        let i = choose|i: int|
            0 <= i < values@.len() && value_of_field(entry@, field)
                == value_of_operand(app, #[trigger] values@[i]);
        assert(filter_matches(
            app,
            entry@,
            AgentViewFilter::Eq { field, value: values@[i] },
        ));
    }
}

/// Two filters by the same values, in different order or repeated, let the same agents through.
pub proof fn order_of_values_does_not_matter(
    app: AppState,
    entry: AgentPanelEntry,
    field: AgentViewField,
    values: Vec<AgentViewValue>,
    others: Vec<AgentViewValue>,
)
    requires
        forall|i: int| 0 <= i < values@.len() ==> others@.contains(#[trigger] values@[i]),
        forall|i: int| 0 <= i < others@.len() ==> values@.contains(#[trigger] others@[i]),
    ensures
        filter_matches(app, entry@, AgentViewFilter::In { field, values }) == filter_matches(
            app,
            entry@,
            AgentViewFilter::In { field, values: others },
        ),
{
    in_filters_take_any_of_their_values(app, entry, field, values);
    in_filters_take_any_of_their_values(app, entry, field, others);
    if filter_matches(app, entry@, AgentViewFilter::In { field, values }) {
        let i = choose|i: int|
            0 <= i < values@.len() && filter_matches(
                app,
                entry@,
                AgentViewFilter::Eq { field, value: #[trigger] values@[i] },
            );
        assert(others@.contains(values@[i]));
        let k = choose|k: int| 0 <= k < others@.len() && others@[k] == values@[i];
        assert(filter_matches(app, entry@, AgentViewFilter::Eq { field, value: others@[k] }));
    }
    if filter_matches(app, entry@, AgentViewFilter::In { field, values: others }) {
        let i = choose|i: int|
            0 <= i < others@.len() && filter_matches(
                app,
                entry@,
                AgentViewFilter::Eq { field, value: #[trigger] others@[i] },
            );
        assert(values@.contains(others@[i]));
        let k = choose|k: int| 0 <= k < values@.len() && values@[k] == others@[i];
        assert(filter_matches(app, entry@, AgentViewFilter::Eq { field, value: values@[k] }));
    }
}

/// A filter by the text of a property or a token lets through exactly the agents that have this
/// text there. The status goes by its name, and an agent that is idle and not yet seen is done.
pub proof fn text_filters_compare_the_text(
    app: AppState,
    entry: AgentPanelEntry,
    text: String,
    token: String,
)
    ensures
        filter_matches(
            app,
            entry@,
            AgentViewFilter::Eq {
                field: AgentViewField::Builtin(AgentViewBuiltinField::Status),
                value: AgentViewValue::String(text),
            },
        ) <==> text@ == (match entry.state {
            AgentState::Blocked => "blocked"@,
            AgentState::Working => "working"@,
            AgentState::Idle => if entry.seen {
                "idle"@
            } else {
                "done"@
            },
            AgentState::Unknown => "unknown"@,
        }),
        filter_matches(
            app,
            entry@,
            AgentViewFilter::Eq {
                field: AgentViewField::Builtin(AgentViewBuiltinField::WorkspaceId),
                value: AgentViewValue::String(text),
            },
        ) <==> entry.view_workspace_id@ == text@,
        filter_matches(
            app,
            entry@,
            AgentViewFilter::Eq {
                field: AgentViewField::Builtin(AgentViewBuiltinField::TabId),
                value: AgentViewValue::String(text),
            },
        ) <==> entry.view_tab_id@ == text@,
        filter_matches(
            app,
            entry@,
            AgentViewFilter::Eq {
                field: AgentViewField::Builtin(AgentViewBuiltinField::PaneId),
                value: AgentViewValue::String(text),
            },
        ) <==> entry.view_pane_id@ == text@,
        filter_matches(
            app,
            entry@,
            AgentViewFilter::Eq {
                field: AgentViewField::Builtin(AgentViewBuiltinField::Agent),
                value: AgentViewValue::String(text),
            },
        ) <==> (entry.agent_kind_label matches Some(label) && label@ == text@),
        filter_matches(
            app,
            entry@,
            AgentViewFilter::Eq {
                field: AgentViewField::Token { token },
                value: AgentViewValue::String(text),
            },
        ) <==> entry.tokens@.contains_key(token@) && entry.tokens@[token@] == text@,
        !filter_matches(
            app,
            entry@,
            AgentViewFilter::Eq {
                field: AgentViewField::Builtin(AgentViewBuiltinField::Seen),
                value: AgentViewValue::String(text),
            },
        ),
        !filter_matches(
            app,
            entry@,
            AgentViewFilter::Eq {
                field: AgentViewField::Builtin(AgentViewBuiltinField::StateChangeSeq),
                value: AgentViewValue::String(text),
            },
        ),
{
}

/// A filter by whether an agent was seen, or by the number of its last status change, lets through
/// exactly the agents of which this is so; no other property is a flag or a number.
pub proof fn flag_and_number_filters_compare_the_value(
    app: AppState,
    entry: AgentPanelEntry,
    field: AgentViewField,
    flag: bool,
    number: u64,
)
    ensures
        filter_matches(
            app,
            entry@,
            AgentViewFilter::Eq { field, value: AgentViewValue::Bool(flag) },
        ) <==> field == AgentViewField::Builtin(AgentViewBuiltinField::Seen) && entry.seen == flag,
        filter_matches(
            app,
            entry@,
            AgentViewFilter::Eq { field, value: AgentViewValue::Number(number) },
        ) <==> field == AgentViewField::Builtin(AgentViewBuiltinField::StateChangeSeq)
            && entry.last_agent_state_change_seq == Some(number),
{
}

/// A filter by the presence of a property or a token lets through exactly the agents that have it.
/// Every agent has a status, identifiers, and was seen or not.
pub proof fn existence_filters_ask_for_the_value(
    app: AppState,
    entry: AgentPanelEntry,
    field: AgentViewBuiltinField,
    token: String,
)
    ensures
        filter_matches(
            app,
            entry@,
            AgentViewFilter::Exists { field: AgentViewField::Builtin(field) },
        ) <==> (match field {
            AgentViewBuiltinField::Agent => entry.agent_kind_label is Some,
            AgentViewBuiltinField::StateChangeSeq => entry.last_agent_state_change_seq is Some,
            _ => true,
        }),
        filter_matches(
            app,
            entry@,
            AgentViewFilter::Exists { field: AgentViewField::Token { token } },
        ) <==> entry.tokens@.contains_key(token@),
{
}

/// Whatever an agent is compared with by text, flag or number, it has the property that it is
/// compared by.
pub proof fn matching_agents_have_the_value(
    app: AppState,
    entry: AgentPanelEntry,
    field: AgentViewField,
    value: AgentViewValue,
)
    requires
        !(value is Context),
        filter_matches(app, entry@, AgentViewFilter::Eq { field, value }),
    ensures
        filter_matches(app, entry@, AgentViewFilter::Exists { field }),
{
}

/// A filter by the current workspace or tab lets through exactly the agents of the workspace that
/// the app presents, and of the tab that is shown there: the selected workspace while navigating,
/// and otherwise the shown one.
pub proof fn context_filters_follow_what_is_presented(
    app: AppState,
    entry: AgentPanelEntry,
    idx: usize,
)
    requires
        idx < app.workspaces@.len(),
        app.mode == Mode::Navigate ==> app.selected == idx,
        app.mode != Mode::Navigate ==> app.active == Some(idx),
    ensures
        ({
            let workspace = app.workspaces@[idx as int];
            &&& filter_matches(
                app,
                entry@,
                AgentViewFilter::Eq {
                    field: AgentViewField::Builtin(AgentViewBuiltinField::WorkspaceId),
                    value: AgentViewValue::Context {
                        context: AgentViewContext::CurrentWorkspaceId,
                    },
                },
            ) <==> entry.view_workspace_id@ == workspace.id@
            &&& filter_matches(
                app,
                entry@,
                AgentViewFilter::Eq {
                    field: AgentViewField::Builtin(AgentViewBuiltinField::TabId),
                    value: AgentViewValue::Context { context: AgentViewContext::CurrentTabId },
                },
            ) <==> workspace.active_tab < workspace.tabs@.len() && entry.view_tab_id@
                == workspace.id@ + ":t"@ + decimal(
                workspace.tabs@[workspace.active_tab as int].number as nat,
            )
        }),
{
}

/// Where the app presents no workspace, a filter by the current workspace or tab lets nothing
/// through.
pub proof fn context_filters_need_a_presented_workspace(
    app: AppState,
    entry: AgentPanelEntry,
    context: AgentViewContext,
)
    requires
        app.mode == Mode::Navigate ==> app.selected >= app.workspaces@.len(),
        app.mode != Mode::Navigate ==> (app.active matches Some(idx) ==> idx
            >= app.workspaces@.len()),
    ensures
        !filter_matches(
            app,
            entry@,
            AgentViewFilter::Eq {
                field: AgentViewField::Builtin(AgentViewBuiltinField::WorkspaceId),
                value: AgentViewValue::Context { context },
            },
        ),
        !filter_matches(
            app,
            entry@,
            AgentViewFilter::Eq {
                field: AgentViewField::Builtin(AgentViewBuiltinField::TabId),
                value: AgentViewValue::Context { context },
            },
        ),
{
}

} // verus!
