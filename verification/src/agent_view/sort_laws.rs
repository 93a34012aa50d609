//! What views show, and in which order.

use vstd::prelude::*;
use vstd::string::*;

use crate::agent_view::apply::{
    filtered, passing_agents_are_shown, shown_agents_pass, view_applied, view_filter, view_sorts,
};
use crate::agent_view::entry::{AgentPanelEntry, EntryModel};
use crate::agent_view::order::{
    entry_less, list_less, optional_less, priority_order, priority_order_is_total, sort_order,
    sort_order_is_total, value_less, values_are_ordered,
};
use crate::agent_view::value::{attention, filter_matches, value_to_sort, EvalModel};
use crate::detect::AgentState;
use crate::schema::view::{
    AgentViewBuiltinSortField, AgentViewSetParams, AgentViewSort, AgentViewSortField,
    AgentViewSortOrder,
};
use crate::schema::{status_for_state, status_text};
use crate::sorting::{stable_sort_of, total_preorder};
use crate::sorting_laws::{
    filters_keep_the_order, kept_items_stood_in_order, sorting_keeps_every_item,
    ties_stay_in_their_order,
};
use crate::state::{AgentPanelSort, AppState};
use crate::text::text_less;

verus! {

/// A view with a filter shows an agent if and only if the filter lets it through; without a filter
/// every agent is shown.
pub proof fn views_show_what_passes(
    app: AppState,
    before: Seq<AgentPanelEntry>,
    after: Seq<AgentPanelEntry>,
    entry: AgentPanelEntry,
)
    requires
        view_applied(app, before, after),
    ensures
        app.agent_view_override is None ==> (after.contains(entry) <==> before.contains(entry)),
        app.agent_view_override matches Some(view) ==> match view.filter {
            Some(filter) => after.contains(entry) <==> before.contains(entry) && filter_matches(
                app,
                entry@,
                filter,
            ),
            None => after.contains(entry) <==> before.contains(entry),
        },
{
    if after.contains(entry) {
        let i = choose|i: int| 0 <= i < after.len() && after[i] == entry;
        shown_agents_pass(app, before, after, i);
    }
    if before.contains(entry) {
        let i = choose|i: int| 0 <= i < before.len() && before[i] == entry;
        let passing = match view_filter(app) {
            Some(filter) => filter_matches(app, entry@, filter),
            None => true,
        };
        if passing {
            passing_agents_are_shown(app, before, after, i);
        }
    }
}

/// Without a filter a view shows every agent as often as it was there, and in any case no agent
/// more often than that.
pub proof fn views_add_nothing(
    app: AppState,
    before: Seq<AgentPanelEntry>,
    after: Seq<AgentPanelEntry>,
)
    requires
        view_applied(app, before, after),
    ensures
        after.len() <= before.len(),
        app.agent_view_override is None ==> after.to_multiset() == before.to_multiset(),
        app.agent_view_override matches Some(view) && view.filter is None ==> after.to_multiset()
            == before.to_multiset(),
{
    let shown = filtered(app, before, view_filter(app));
    if let Some(filter) = view_filter(app) {
        before.lemma_filter_len(|entry: AgentPanelEntry| filter_matches(app, entry@, filter));
    }
    if view_sorts(app).len() > 0 {
        sort_order_is_total(view_sorts(app));
        sorting_keeps_every_item(after, shown, sort_order(view_sorts(app)));
    } else if app.agent_panel_sort == AgentPanelSort::Priority {
        priority_order_is_total();
        sorting_keeps_every_item(after, shown, priority_order());
    }
}

/// Where a view has no sort fields and the panel goes by spaces, the agents stay in their order;
/// without a filter nothing changes at all.
pub proof fn unsorted_views_keep_the_order(
    app: AppState,
    before: Seq<AgentPanelEntry>,
    after: Seq<AgentPanelEntry>,
    u: int,
    v: int,
)
    requires
        view_applied(app, before, after),
        app.agent_view_override matches Some(view) ==> view.sort@.len() == 0,
        app.agent_panel_sort == AgentPanelSort::Spaces,
    ensures
        (app.agent_view_override matches Some(view) ==> view.filter is None) ==> after == before,
        0 <= u < v < after.len() ==> exists|i: int, j: int|
            0 <= i < j < before.len() && #[trigger] before[i] == after[u] && #[trigger] before[j]
                == after[v],
{
    if 0 <= u < v < after.len() {
        match view_filter(app) {
            Some(filter) => {
                let test = |entry: AgentPanelEntry| filter_matches(app, entry@, filter);
                assert(after == before.filter(test));
                kept_items_stood_in_order(before, test, u, v);
            },
            None => {
                assert(before[u] == after[u] && before[v] == after[v]);
            },
        }
    }
}

/// Agents that the sort fields of a view do not tell apart stay in their order.
pub proof fn sorted_views_keep_ties_in_order(
    app: AppState,
    before: Seq<AgentPanelEntry>,
    after: Seq<AgentPanelEntry>,
    view: AgentViewSetParams,
    i: int,
    j: int,
)
    requires
        view_applied(app, before, after),
        app.agent_view_override == Some(view),
        view.sort@.len() > 0,
        0 <= i < j < before.len(),
        after.contains(before[i]),
        after.contains(before[j]),
        !entry_less(before[i]@, before[j]@, view.sort@),
        !entry_less(before[j]@, before[i]@, view.sort@),
    ensures
        exists|p: int, q: int|
            0 <= p < q < after.len() && #[trigger] after[p] == before[i] && #[trigger] after[q]
                == before[j],
{
    let le = sort_order(view.sort@);
    sort_order_is_total(view.sort@);
    lemma_ties_shown(app, before, after, le, i, j);
}

proof fn lemma_ties_shown(
    app: AppState,
    before: Seq<AgentPanelEntry>,
    after: Seq<AgentPanelEntry>,
    le: spec_fn(AgentPanelEntry, AgentPanelEntry) -> bool,
    i: int,
    j: int,
)
    requires
        view_applied(app, before, after),
        stable_sort_of(after, filtered(app, before, view_filter(app)), le),
        total_preorder(le),
        0 <= i < j < before.len(),
        after.contains(before[i]),
        after.contains(before[j]),
        le(before[i], before[j]),
        le(before[j], before[i]),
    ensures
        exists|p: int, q: int|
            0 <= p < q < after.len() && #[trigger] after[p] == before[i] && #[trigger] after[q]
                == before[j],
{
    let shown = filtered(app, before, view_filter(app));
    let (x, y) = match view_filter(app) {
        Some(filter) => {
            let test = |entry: AgentPanelEntry| filter_matches(app, entry@, filter);
            let a = choose|a: int| 0 <= a < after.len() && after[a] == before[i];
            let b = choose|b: int| 0 <= b < after.len() && after[b] == before[j];
            shown_agents_pass(app, before, after, a);
            shown_agents_pass(app, before, after, b);
            filters_keep_the_order(before, test, i, j);
            choose|u: int, v: int|
                0 <= u < v < before.filter(test).len() && #[trigger] before.filter(test)[u]
                    == before[i] && #[trigger] before.filter(test)[v] == before[j]
        },
        None => (i, j),
    };
    assert(shown[x] == before[i] && shown[y] == before[j]);
    ties_stay_in_their_order(after, shown, le, x, y);
}

/// By priority agents that are blocked come first, then those that are done and not yet seen, then
/// those that work, then those that are idle, and last those of which nothing is known. Of agents
/// that need the same attention the one whose status changed last comes first, and those of which
/// no change is known come last.
pub proof fn priority_goes_by_attention_and_change(
    app: AppState,
    before: Seq<AgentPanelEntry>,
    after: Seq<AgentPanelEntry>,
    i: int,
    j: int,
)
    requires
        view_applied(app, before, after),
        app.agent_view_override matches Some(view) ==> view.sort@.len() == 0,
        app.agent_panel_sort == AgentPanelSort::Priority,
        0 <= i < j < after.len(),
    ensures
        ({
            let a = after[i];
            let b = after[j];
            let same = a.state == b.state && (a.state == AgentState::Idle ==> a.seen == b.seen);
            &&& b.state == AgentState::Blocked ==> a.state == AgentState::Blocked
            &&& b.state == AgentState::Idle && !b.seen ==> a.state == AgentState::Blocked || (
            a.state == AgentState::Idle && !a.seen)
            &&& b.state == AgentState::Working ==> a.state == AgentState::Blocked || (a.state
                == AgentState::Idle && !a.seen) || a.state == AgentState::Working
            &&& b.state == AgentState::Idle ==> a.state != AgentState::Unknown
            &&& same && b.last_agent_state_change_seq is Some
                ==> a.last_agent_state_change_seq is Some && a.last_agent_state_change_seq->0
                >= b.last_agent_state_change_seq->0
        }),
{
    assert(priority_order()(after[i], after[j]));
}

/// By priority agents that need the same attention, and whose status changed at the same time or of
/// which no change is known, stay in their order.
pub proof fn priority_keeps_ties_in_order(
    app: AppState,
    before: Seq<AgentPanelEntry>,
    after: Seq<AgentPanelEntry>,
    i: int,
    j: int,
)
    requires
        view_applied(app, before, after),
        app.agent_view_override matches Some(view) ==> view.sort@.len() == 0,
        app.agent_panel_sort == AgentPanelSort::Priority,
        0 <= i < j < before.len(),
        after.contains(before[i]),
        after.contains(before[j]),
        before[i].state == before[j].state,
        before[i].seen == before[j].seen,
        before[i].last_agent_state_change_seq == before[j].last_agent_state_change_seq,
    ensures
        exists|p: int, q: int|
            0 <= p < q < after.len() && #[trigger] after[p] == before[i] && #[trigger] after[q]
                == before[j],
{
    let le = priority_order();
    priority_order_is_total();
    assert(le(before[i], before[j]) && le(before[j], before[i]));
    lemma_ties_shown(app, before, after, le, i, j);
}

/// An agent that is blocked needs more attention than one that is done and not yet seen, that one
/// more than one that works, that one more than one that is idle, and that one more than one of
/// which nothing is known; for the others it does not matter whether they were seen.
pub proof fn attention_is_ranked(seen: bool, other: bool)
    ensures
        attention(AgentState::Blocked, seen) > attention(AgentState::Idle, false),
        attention(AgentState::Idle, false) > attention(AgentState::Working, seen),
        attention(AgentState::Working, seen) > attention(AgentState::Idle, true),
        attention(AgentState::Idle, true) > attention(AgentState::Unknown, seen),
        attention(AgentState::Blocked, seen) == attention(AgentState::Blocked, other),
        attention(AgentState::Working, seen) == attention(AgentState::Working, other),
        attention(AgentState::Unknown, seen) == attention(AgentState::Unknown, other),
        attention(AgentState::Blocked, seen) == 4,
        attention(AgentState::Unknown, seen) == 0,
{
}

/// The first sort field in which two agents differ decides between them, and the others come in
/// only where it does not.
pub proof fn later_fields_decide_among_equals(
    left: EntryModel,
    right: EntryModel,
    sorts: Seq<AgentViewSort>,
)
    requires
        sorts.len() > 0,
    ensures
        ({
            let first = sorts.take(1);
            &&& entry_less(left, right, first) ==> entry_less(left, right, sorts) && !entry_less(
                right,
                left,
                sorts,
            )
            &&& !entry_less(left, right, first) && !entry_less(right, left, first) ==> (entry_less(
                left,
                right,
                sorts,
            ) <==> entry_less(left, right, sorts.drop_first()))
        }),
        !entry_less(left, right, Seq::empty()),
{
    let first = sorts.take(1);
    assert(first[0] == sorts[0]);
    assert(first.drop_first() =~= Seq::<AgentViewSort>::empty());
    let a = value_to_sort(left, sorts[0].field);
    let b = value_to_sort(right, sorts[0].field);
    if let (Some(x), Some(y)) = (a, b) {
        values_are_ordered(x, y);
    }
    reveal_with_fuel(entry_less, 2);
}

/// Two agents are alike in what a sort field goes by.
pub open spec fn alike(a: AgentPanelEntry, b: AgentPanelEntry, field: AgentViewSortField) -> bool {
    match field {
        AgentViewSortField::Token { token } => {
            &&& a.tokens@.dom().contains(token@) <==> b.tokens@.dom().contains(token@)
            &&& a.tokens@.dom().contains(token@) ==> a.tokens@[token@] == b.tokens@[token@]
        },
        AgentViewSortField::Builtin(field) => match field {
            AgentViewBuiltinSortField::WorkspaceOrder => a.order.0 == b.order.0 && a.order.1
                == b.order.1,
            AgentViewBuiltinSortField::TabOrder => a.order.2 == b.order.2,
            AgentViewBuiltinSortField::PaneOrder => a.order.3 == b.order.3,
            AgentViewBuiltinSortField::Attention | AgentViewBuiltinSortField::Status => a.state
                == b.state && (a.state == AgentState::Idle ==> a.seen == b.seen),
            AgentViewBuiltinSortField::Agent => match (a.agent_kind_label, b.agent_kind_label) {
                (Some(x), Some(y)) => x@ == y@,
                (None, None) => true,
                _ => false,
            },
            AgentViewBuiltinSortField::Seen => a.seen == b.seen,
            AgentViewBuiltinSortField::StateChangeSeq => a.last_agent_state_change_seq
                == b.last_agent_state_change_seq,
        },
    }
}

proof fn lemma_alike(a: AgentPanelEntry, b: AgentPanelEntry, sorts: Seq<AgentViewSort>)
    requires
        forall|k: int| 0 <= k < sorts.len() ==> alike(a, b, (#[trigger] sorts[k]).field),
    ensures
        !entry_less(a@, b@, sorts),
        !entry_less(b@, a@, sorts),
    decreases sorts.len(),
{
    if sorts.len() > 0 {
        let rest = sorts.drop_first();
        assert forall|k: int| 0 <= k < rest.len() implies alike(
            a,
            b,
            (#[trigger] rest[k]).field,
        ) by {
            assert(rest[k] == sorts[k + 1]);
        }
        lemma_alike(a, b, rest);
        assert(alike(a, b, sorts[0].field));
        assert(value_to_sort(a@, sorts[0].field) == value_to_sort(b@, sorts[0].field));
        if let Some(x) = value_to_sort(a@, sorts[0].field) {
            values_are_ordered(x, x);
        }
    }
}

/// Agents that are alike in every sort field of a view stay in their order, however they differ
/// otherwise.
pub proof fn alike_agents_stay_in_their_order(
    app: AppState,
    before: Seq<AgentPanelEntry>,
    after: Seq<AgentPanelEntry>,
    view: AgentViewSetParams,
    i: int,
    j: int,
)
    requires
        view_applied(app, before, after),
        app.agent_view_override == Some(view),
        view.sort@.len() > 0,
        0 <= i < j < before.len(),
        after.contains(before[i]),
        after.contains(before[j]),
        forall|k: int|
            0 <= k < view.sort@.len() ==> alike(
                before[i],
                before[j],
                (#[trigger] view.sort@[k]).field,
            ),
    ensures
        exists|p: int, q: int|
            0 <= p < q < after.len() && #[trigger] after[p] == before[i] && #[trigger] after[q]
                == before[j],
{
    lemma_alike(before[i], before[j], view.sort@);
    sorted_views_keep_ties_in_order(app, before, after, view, i, j);
}

/// In a view with sort fields no agent stands after one that the sort fields put behind it.
pub proof fn sorted_views_are_in_order(
    app: AppState,
    before: Seq<AgentPanelEntry>,
    after: Seq<AgentPanelEntry>,
    view: AgentViewSetParams,
    i: int,
    j: int,
)
    requires
        view_applied(app, before, after),
        app.agent_view_override == Some(view),
        view.sort@.len() > 0,
        0 <= i < j < after.len(),
    ensures
        !entry_less(after[j]@, after[i]@, view.sort@),
        !optional_less(
            value_to_sort(after[j]@, view.sort@[0].field),
            value_to_sort(after[i]@, view.sort@[0].field),
            view.sort@[0].order,
        ),
{
    assert(sort_order(view.sort@)(after[i], after[j]));
}

/// Values are ordered by their kind, then texts by their characters, flags with those not set
/// first, numbers by size, and lists by their first difference. A value that is absent comes last,
/// whatever the direction.
pub proof fn values_are_ordered_by_kind_and_size(
    text: Seq<char>,
    other: Seq<char>,
    flag: bool,
    number: u64,
    larger: u64,
    list: Seq<usize>,
    value: EvalModel,
    order: AgentViewSortOrder,
)
    ensures
        value_less(EvalModel::Text(text), EvalModel::Text(other)) <==> text_less(text, other),
        value_less(EvalModel::Bool(false), EvalModel::Bool(true)),
        !value_less(EvalModel::Bool(true), EvalModel::Bool(flag)),
        !value_less(EvalModel::Bool(flag), EvalModel::Bool(false)),
        value_less(EvalModel::Number(number), EvalModel::Number(larger)) <==> number < larger,
        value_less(EvalModel::Text(text), EvalModel::Bool(flag)),
        value_less(EvalModel::Text(text), EvalModel::Number(number)),
        value_less(EvalModel::Text(text), EvalModel::Order(list)),
        value_less(EvalModel::Bool(flag), EvalModel::Number(number)),
        value_less(EvalModel::Bool(flag), EvalModel::Order(list)),
        value_less(EvalModel::Number(number), EvalModel::Order(list)),
        optional_less(Some(value), None, order),
        !optional_less(None, Some(value), order),
        !optional_less(None, None, order),
        optional_less(
            Some(EvalModel::Number(number)),
            Some(EvalModel::Number(larger)),
            AgentViewSortOrder::Asc,
        ) <==> number < larger,
        optional_less(
            Some(EvalModel::Number(number)),
            Some(EvalModel::Number(larger)),
            AgentViewSortOrder::Desc,
        ) <==> larger < number,
{
}

/// The direction of a sort turns the order of the agents that have a value.
pub proof fn directions_turn_the_order(a: EvalModel, b: EvalModel)
    ensures
        optional_less(Some(a), Some(b), AgentViewSortOrder::Asc) == optional_less(
            Some(b),
            Some(a),
            AgentViewSortOrder::Desc,
        ),
        optional_less(Some(a), Some(b), AgentViewSortOrder::Asc) == value_less(a, b),
{
}

/// Lists of numbers are ordered by the first number in which they differ.
pub proof fn lists_go_by_their_first_difference(a: Seq<usize>, b: Seq<usize>, k: int)
    requires
        0 <= k < a.len(),
        k < b.len(),
        forall|i: int| 0 <= i < k ==> #[trigger] a[i] == b[i],
        a[k] != b[k],
    ensures
        list_less(a, b) <==> a[k] < b[k],
    decreases k,
{
    if k > 0 {
        assert(a[0] == b[0]);
        let x = a.drop_first();
        let y = b.drop_first();
        assert forall|i: int| 0 <= i < k - 1 implies #[trigger] x[i] == y[i] by {
            assert(a[i + 1] == b[i + 1]);
        }
        lists_go_by_their_first_difference(x, y, k - 1);
    }
}

/// A view that sorts by agent puts the agents in the order of the labels of their kinds, or in the
/// reverse order, and those without such a label last in either case.
pub proof fn views_sort_by_agent(
    app: AppState,
    before: Seq<AgentPanelEntry>,
    after: Seq<AgentPanelEntry>,
    view: AgentViewSetParams,
    i: int,
    j: int,
)
    requires
        view_applied(app, before, after),
        app.agent_view_override == Some(view),
        view.sort@.len() > 0,
        view.sort@[0].field == AgentViewSortField::Builtin(
            AgentViewBuiltinSortField::Agent,
        ),
        0 <= i < j < after.len(),
    ensures
        ({
            let a = after[i];
            let b = after[j];
            let ascending = view.sort@[0].order == AgentViewSortOrder::Asc;
            &&& b.agent_kind_label is Some ==> a.agent_kind_label is Some
            &&& a.agent_kind_label is Some && b.agent_kind_label is Some ==> if ascending {
                !text_less(b.agent_kind_label->0@, a.agent_kind_label->0@)
            } else {
                !text_less(a.agent_kind_label->0@, b.agent_kind_label->0@)
            }
        }),
{
    sorted_views_are_in_order(app, before, after, view, i, j);
}

/// A view that sorts by a metadata token puts the agents in the order of its values, or in the
/// reverse order, and those without the token last in either case.
pub proof fn views_sort_by_token(
    app: AppState,
    before: Seq<AgentPanelEntry>,
    after: Seq<AgentPanelEntry>,
    view: AgentViewSetParams,
    i: int,
    j: int,
    token: String,
)
    requires
        view_applied(app, before, after),
        app.agent_view_override == Some(view),
        view.sort@.len() > 0,
        view.sort@[0].field == (AgentViewSortField::Token { token }),
        0 <= i < j < after.len(),
    ensures
        ({
            let a = after[i];
            let b = after[j];
            let ascending = view.sort@[0].order == AgentViewSortOrder::Asc;
            &&& b.tokens@.contains_key(token@) ==> a.tokens@.contains_key(token@)
            &&& a.tokens@.contains_key(token@) && b.tokens@.contains_key(token@) ==> if ascending {
                !text_less(b.tokens@[token@], a.tokens@[token@])
            } else {
                !text_less(a.tokens@[token@], b.tokens@[token@])
            }
        }),
{
    sorted_views_are_in_order(app, before, after, view, i, j);
}

/// A view that sorts by status change puts the agents in the order of the numbers of their last
/// changes, or in the reverse order, and those without one last in either case.
pub proof fn views_sort_by_change(
    app: AppState,
    before: Seq<AgentPanelEntry>,
    after: Seq<AgentPanelEntry>,
    view: AgentViewSetParams,
    i: int,
    j: int,
)
    requires
        view_applied(app, before, after),
        app.agent_view_override == Some(view),
        view.sort@.len() > 0,
        view.sort@[0].field == AgentViewSortField::Builtin(
            AgentViewBuiltinSortField::StateChangeSeq,
        ),
        0 <= i < j < after.len(),
    ensures
        ({
            let a = after[i];
            let b = after[j];
            let ascending = view.sort@[0].order == AgentViewSortOrder::Asc;
            &&& b.last_agent_state_change_seq is Some ==> a.last_agent_state_change_seq is Some
            &&& a.last_agent_state_change_seq is Some && b.last_agent_state_change_seq is Some
                ==> if ascending {
                a.last_agent_state_change_seq->0 <= b.last_agent_state_change_seq->0
            } else {
                a.last_agent_state_change_seq->0 >= b.last_agent_state_change_seq->0
            }
        }),
{
    sorted_views_are_in_order(app, before, after, view, i, j);
}

/// A view that sorts by whether agents were seen puts those first that were not, or those that were
/// where the order is reversed.
pub proof fn views_sort_by_seen(
    app: AppState,
    before: Seq<AgentPanelEntry>,
    after: Seq<AgentPanelEntry>,
    view: AgentViewSetParams,
    i: int,
    j: int,
)
    requires
        view_applied(app, before, after),
        app.agent_view_override == Some(view),
        view.sort@.len() > 0,
        view.sort@[0].field == AgentViewSortField::Builtin(
            AgentViewBuiltinSortField::Seen,
        ),
        0 <= i < j < after.len(),
    ensures
        ({
            let a = after[i];
            let b = after[j];
            let ascending = view.sort@[0].order == AgentViewSortOrder::Asc;
            &&& ascending && a.seen ==> b.seen
            &&& !ascending && b.seen ==> a.seen
        }),
{
    sorted_views_are_in_order(app, before, after, view, i, j);
}

/// A view that sorts by tab puts the agents in the order of the numbers of their tabs, or in the
/// reverse order.
pub proof fn views_sort_by_tab(
    app: AppState,
    before: Seq<AgentPanelEntry>,
    after: Seq<AgentPanelEntry>,
    view: AgentViewSetParams,
    i: int,
    j: int,
)
    requires
        view_applied(app, before, after),
        app.agent_view_override == Some(view),
        view.sort@.len() > 0,
        view.sort@[0].field == AgentViewSortField::Builtin(
            AgentViewBuiltinSortField::TabOrder,
        ),
        0 <= i < j < after.len(),
    ensures
        ({
            let a = after[i];
            let b = after[j];
            let ascending = view.sort@[0].order == AgentViewSortOrder::Asc;
            if ascending {
                a.order.2 <= b.order.2
            } else {
                a.order.2 >= b.order.2
            }
        }),
{
    sorted_views_are_in_order(app, before, after, view, i, j);
}

/// A view that sorts by pane puts the agents in the order of the numbers of their panes, or in the
/// reverse order.
pub proof fn views_sort_by_pane(
    app: AppState,
    before: Seq<AgentPanelEntry>,
    after: Seq<AgentPanelEntry>,
    view: AgentViewSetParams,
    i: int,
    j: int,
)
    requires
        view_applied(app, before, after),
        app.agent_view_override == Some(view),
        view.sort@.len() > 0,
        view.sort@[0].field == AgentViewSortField::Builtin(
            AgentViewBuiltinSortField::PaneOrder,
        ),
        0 <= i < j < after.len(),
    ensures
        ({
            let a = after[i];
            let b = after[j];
            let ascending = view.sort@[0].order == AgentViewSortOrder::Asc;
            if ascending {
                a.order.3 <= b.order.3
            } else {
                a.order.3 >= b.order.3
            }
        }),
{
    sorted_views_are_in_order(app, before, after, view, i, j);
}

/// A view that sorts by workspace puts the agents in the order of their sources, and of one source
/// in the order of its workspaces, whatever their tabs and panes; or in the reverse order.
pub proof fn views_sort_by_workspace(
    app: AppState,
    before: Seq<AgentPanelEntry>,
    after: Seq<AgentPanelEntry>,
    view: AgentViewSetParams,
    i: int,
    j: int,
)
    requires
        view_applied(app, before, after),
        app.agent_view_override == Some(view),
        view.sort@.len() > 0,
        view.sort@[0].field == AgentViewSortField::Builtin(
            AgentViewBuiltinSortField::WorkspaceOrder,
        ),
        0 <= i < j < after.len(),
    ensures
        ({
            let a = after[i];
            let b = after[j];
            let ascending = view.sort@[0].order == AgentViewSortOrder::Asc;
            if ascending {
                a.order.0 < b.order.0 || (a.order.0 == b.order.0 && a.order.1 <= b.order.1)
            } else {
                a.order.0 > b.order.0 || (a.order.0 == b.order.0 && a.order.1 >= b.order.1)
            }
        }),
{
    sorted_views_are_in_order(app, before, after, view, i, j);
    let x = seq![after[i].order.0, after[i].order.1, 0, 0];
    let y = seq![after[j].order.0, after[j].order.1, 0, 0];
    if after[i].order.0 != after[j].order.0 {
        lists_go_by_their_first_difference(x, y, 0);
        lists_go_by_their_first_difference(y, x, 0);
    } else if after[i].order.1 != after[j].order.1 {
        lists_go_by_their_first_difference(x, y, 1);
        lists_go_by_their_first_difference(y, x, 1);
    }
}

/// A view that sorts by attention puts the agents first that need the least: those of which nothing
/// is known, then those that are idle, those that work, those that are done and not yet seen, and
/// those that are blocked; or in the reverse order.
pub proof fn views_sort_by_attention(
    app: AppState,
    before: Seq<AgentPanelEntry>,
    after: Seq<AgentPanelEntry>,
    view: AgentViewSetParams,
    i: int,
    j: int,
)
    requires
        view_applied(app, before, after),
        app.agent_view_override == Some(view),
        view.sort@.len() > 0,
        view.sort@[0].field == AgentViewSortField::Builtin(
            AgentViewBuiltinSortField::Attention,
        ),
        0 <= i < j < after.len(),
    ensures
        ({
            let a = after[i];
            let b = after[j];
            let ascending = view.sort@[0].order == AgentViewSortOrder::Asc;
            let first = if ascending {
                a
            } else {
                b
            };
            let second = if ascending {
                b
            } else {
                a
            };
            &&& first.state == AgentState::Blocked ==> second.state == AgentState::Blocked
            &&& first.state == AgentState::Idle && !first.seen ==> second.state
                == AgentState::Blocked || (second.state == AgentState::Idle && !second.seen)
            &&& first.state == AgentState::Working ==> second.state == AgentState::Blocked || (
            second.state == AgentState::Idle && !second.seen) || second.state
                == AgentState::Working
            &&& first.state == AgentState::Idle ==> second.state != AgentState::Unknown
        }),
{
    sorted_views_are_in_order(app, before, after, view, i, j);
}

/// A view that sorts by status puts the agents in the order of the names of their statuses: blocked,
/// done, idle, unknown, working; or in the reverse order.
pub proof fn views_sort_by_status(
    app: AppState,
    before: Seq<AgentPanelEntry>,
    after: Seq<AgentPanelEntry>,
    view: AgentViewSetParams,
    i: int,
    j: int,
)
    requires
        view_applied(app, before, after),
        app.agent_view_override == Some(view),
        view.sort@.len() > 0,
        view.sort@[0].field == AgentViewSortField::Builtin(
            AgentViewBuiltinSortField::Status,
        ),
        0 <= i < j < after.len(),
    ensures
        ({
            let a = after[i];
            let b = after[j];
            let ascending = view.sort@[0].order == AgentViewSortOrder::Asc;
            let first = if ascending {
                a
            } else {
                b
            };
            let second = if ascending {
                b
            } else {
                a
            };
            &&& first.state == AgentState::Working ==> second.state == AgentState::Working
            &&& first.state == AgentState::Unknown ==> second.state == AgentState::Working
                || second.state == AgentState::Unknown
            &&& first.state == AgentState::Idle && first.seen ==> second.state
                == AgentState::Working || second.state == AgentState::Unknown || (second.state
                == AgentState::Idle && second.seen)
            &&& first.state == AgentState::Idle ==> second.state != AgentState::Blocked
        }),
{
    sorted_views_are_in_order(app, before, after, view, i, j);
    let x = status_text(status_for_state(after[i].state, after[i].seen));
    let y = status_text(status_for_state(after[j].state, after[j].seen));
    reveal_strlit("idle");
    reveal_strlit("working");
    reveal_strlit("blocked");
    reveal_strlit("done");
    reveal_strlit("unknown");
    assert("idle"@[0] == 'i' && "working"@[0] == 'w' && "blocked"@[0] == 'b' && "done"@[0] == 'd'
        && "unknown"@[0] == 'u');
}

} // verus!
