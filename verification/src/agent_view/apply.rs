//! Applies the current view to the agents of the panel.

use vstd::prelude::*;

use crate::agent_view::entry::AgentPanelEntry;
use crate::agent_view::order::{
    entry_less, may_precede, may_precede_by_priority, priority_less, priority_order,
    priority_order_is_total, sort_order, sort_order_is_total,
};
use crate::agent_view::value::{filter_matches, matches_filter};
use crate::schema::view::{AgentViewFilter, AgentViewSort};
use crate::sorting::{
    lemma_item_sorted, lemma_sorted_item, stable_sort, stable_sort_is_unique, stable_sort_of,
};
use crate::state::{AgentPanelSort, AppState};

verus! {

/// The filter of the current view.
pub open spec fn view_filter(app: AppState) -> Option<AgentViewFilter> {
    match app.agent_view_override {
        Some(view) => view.filter,
        None => None,
    }
}

/// The sort fields of the current view.
pub open spec fn view_sorts(app: AppState) -> Seq<AgentViewSort> {
    match app.agent_view_override {
        Some(view) => view.sort@,
        None => Seq::empty(),
    }
}

/// The agents that pass a filter, in their order.
pub open spec fn filtered(
    app: AppState,
    entries: Seq<AgentPanelEntry>,
    filter: Option<AgentViewFilter>,
) -> Seq<AgentPanelEntry> {
    match filter {
        Some(filter) => entries.filter(|entry: AgentPanelEntry| filter_matches(app, entry@, filter)),
        None => entries,
    }
}

/// A view was applied: what passes its filter was sorted by its sort fields, or where it has none
/// as the panel is set. Agents that a sort does not tell apart stay in their order.
pub open spec fn view_applied(
    app: AppState,
    before: Seq<AgentPanelEntry>,
    after: Seq<AgentPanelEntry>,
) -> bool {
    let shown = filtered(app, before, view_filter(app));
    if view_sorts(app).len() > 0 {
        stable_sort_of(after, shown, sort_order(view_sorts(app)))
    } else if app.agent_panel_sort == AgentPanelSort::Priority {
        stable_sort_of(after, shown, priority_order())
    } else {
        after == shown
    }
}

fn retain_matching(app: &AppState, entries: Vec<AgentPanelEntry>, filter: &AgentViewFilter) -> (kept:
    Vec<AgentPanelEntry>)
    ensures
        kept@ == filtered(*app, entries@, Some(*filter)),
{
    let ghost given = entries@;
    let ghost test = |entry: AgentPanelEntry| filter_matches(*app, entry@, *filter);
    let mut kept: Vec<AgentPanelEntry> = Vec::new();
    proof {
        assert(given.take(0).filter(test) =~= Seq::<AgentPanelEntry>::empty()) by {
            reveal(Seq::filter);
        }
    }
    for entry in it: entries
        invariant
            it.seq() == given,
            test == (|entry: AgentPanelEntry| filter_matches(*app, entry@, *filter)),
            kept@ == given.take(it.index()).filter(test),
    {
        proof {
            reveal(Seq::filter);
            assert(given.take(it.index() + 1).drop_last() =~= given.take(it.index()));
            assert(given.take(it.index() + 1).last() == entry);
        }
        if matches_filter(app, &entry, filter) {
            kept.push(entry);
        }
    }
    proof {
        assert(given.take(given.len() as int) =~= given);
    }
    kept
}

fn sort_entries(
    app: &AppState,
    entries: Vec<AgentPanelEntry>,
    sorts: &Vec<AgentViewSort>,
) -> (sorted: Vec<AgentPanelEntry>)
    ensures
        stable_sort_of(sorted@, entries@, sort_order(sorts@)),
{
    let before = |a: &AgentPanelEntry, b: &AgentPanelEntry| -> (r: bool)
        ensures
            r == !entry_less(b@, a@, sorts@),
        { may_precede(app, a, b, sorts.as_slice()) };
    proof {
        sort_order_is_total(sorts@);
    }
    stable_sort(entries, &before, Ghost(sort_order(sorts@)))
}

fn sort_by_priority(entries: Vec<AgentPanelEntry>) -> (sorted: Vec<AgentPanelEntry>)
    ensures
        stable_sort_of(sorted@, entries@, priority_order()),
{
    let before = |a: &AgentPanelEntry, b: &AgentPanelEntry| -> (r: bool)
        ensures
            r == !priority_less(b@, a@),
        { may_precede_by_priority(a, b) };
    proof {
        priority_order_is_total();
    }
    stable_sort(entries, &before, Ghost(priority_order()))
}

/// Filters and sorts the agents of the panel.
pub fn apply_agent_view(app: &AppState, entries: &mut Vec<AgentPanelEntry>)
    ensures
        view_applied(*app, old(entries)@, final(entries)@),
{
    let mut shown: Vec<AgentPanelEntry> = Vec::new();
    std::mem::swap(&mut shown, entries);
    if let Some(view) = &app.agent_view_override {
        if let Some(filter) = &view.filter {
            shown = retain_matching(app, shown, filter);
        }
        if view.sort.len() > 0 {
            *entries = sort_entries(app, shown, &view.sort);
            return;
        }
    }
    match app.agent_panel_sort {
        AgentPanelSort::Priority => {
            *entries = sort_by_priority(shown);
        },
        AgentPanelSort::Spaces => {
            *entries = shown;
        },
    }
}

/// Whether an agent passes the filter of the current view.
pub open spec fn passes(app: AppState, entry: AgentPanelEntry) -> bool {
    match view_filter(app) {
        Some(filter) => filter_matches(app, entry@, filter),
        None => true,
    }
}

/// Every agent that is shown was there before and passes the filter.
pub proof fn shown_agents_pass(
    app: AppState,
    before: Seq<AgentPanelEntry>,
    after: Seq<AgentPanelEntry>,
    i: int,
)
    requires
        view_applied(app, before, after),
        0 <= i < after.len(),
    ensures
        before.contains(after[i]),
        passes(app, after[i]),
{
    let shown = filtered(app, before, view_filter(app));
    if view_sorts(app).len() > 0 {
        sort_order_is_total(view_sorts(app));
        lemma_sorted_item(after, shown, sort_order(view_sorts(app)), i);
    } else if app.agent_panel_sort == AgentPanelSort::Priority {
        priority_order_is_total();
        lemma_sorted_item(after, shown, priority_order(), i);
    } else {
        assert(shown[i] == after[i]);
    }
    let k = choose|k: int| 0 <= k < shown.len() && shown[k] == after[i];
    match view_filter(app) {
        Some(filter) => {
            let test = |entry: AgentPanelEntry| filter_matches(app, entry@, filter);
            before.lemma_filter_pred(test, k);
            assert(before.filter(test).contains(shown[k]));
            before.lemma_filter_contains_rev(test, shown[k]);
        },
        None => {},
    }
}

/// Every agent that passes the filter is shown.
pub proof fn passing_agents_are_shown(
    app: AppState,
    before: Seq<AgentPanelEntry>,
    after: Seq<AgentPanelEntry>,
    i: int,
)
    requires
        view_applied(app, before, after),
        0 <= i < before.len(),
        passes(app, before[i]),
    ensures
        after.contains(before[i]),
{
    let shown = filtered(app, before, view_filter(app));
    match view_filter(app) {
        Some(filter) => {
            let test = |entry: AgentPanelEntry| filter_matches(app, entry@, filter);
            before.lemma_filter_contains(test, i);
        },
        None => {
            assert(shown.contains(shown[i]));
        },
    }
    let k = choose|k: int| 0 <= k < shown.len() && shown[k] == before[i];
    if view_sorts(app).len() > 0 {
        sort_order_is_total(view_sorts(app));
        lemma_item_sorted(after, shown, sort_order(view_sorts(app)), k);
    } else if app.agent_panel_sort == AgentPanelSort::Priority {
        priority_order_is_total();
        lemma_item_sorted(after, shown, priority_order(), k);
    } else {
        assert(after.contains(after[k]));
    }
}

/// A filter that everything passes leaves everything.
proof fn lemma_filter_all(entries: Seq<AgentPanelEntry>, test: spec_fn(AgentPanelEntry) -> bool)
    requires
        forall|i: int| 0 <= i < entries.len() ==> test(#[trigger] entries[i]),
    ensures
        entries.filter(test) == entries,
    decreases entries.len(),
{
    reveal(Seq::filter);
    if entries.len() > 0 {
        let rest = entries.drop_last();
        assert forall|i: int| 0 <= i < rest.len() implies test(#[trigger] rest[i]) by {
            assert(rest[i] == entries[i]);
        }
        lemma_filter_all(rest, test);
        assert(entries =~= rest.push(entries.last()));
    }
}

/// A view that was applied is settled: applying it again leaves everything as it is.
pub proof fn applied_view_is_settled(
    app: AppState,
    before: Seq<AgentPanelEntry>,
    once: Seq<AgentPanelEntry>,
    twice: Seq<AgentPanelEntry>,
)
    requires
        view_applied(app, before, once),
        view_applied(app, once, twice),
    ensures
        twice == once,
{
    assert forall|i: int| 0 <= i < once.len() implies passes(app, #[trigger] once[i]) by {
        shown_agents_pass(app, before, once, i);
    }
    match view_filter(app) {
        Some(filter) => {
            lemma_filter_all(
                once,
                |entry: AgentPanelEntry| filter_matches(app, entry@, filter),
            );
        },
        None => {},
    }
    if view_sorts(app).len() > 0 {
        let le = sort_order(view_sorts(app));
        sort_order_is_total(view_sorts(app));
        assert(stable_sort_of(once, once, le));
        stable_sort_is_unique(twice, once, once, le);
    } else if app.agent_panel_sort == AgentPanelSort::Priority {
        let le = priority_order();
        priority_order_is_total();
        assert(stable_sort_of(once, once, le));
        stable_sort_is_unique(twice, once, once, le);
    }
}

} // verus!
