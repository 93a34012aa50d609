//! The order in which a view shows the agents of the panel.

use std::cmp::Ordering;

use vstd::prelude::*;

use crate::agent_view::entry::{AgentPanelEntry, EntryModel};
use crate::agent_view::value::{
    attention, option_value, sort_value, tab_attention_priority, value_to_sort, EvalModel,
    EvalValue,
};
use crate::schema::view::{AgentViewSort, AgentViewSortOrder};
use crate::sorting::total_preorder;
use crate::state::AppState;
use crate::text::{
    text_before, text_less, text_less_asymmetric, text_less_total, text_less_transitive,
};

verus! {

/// Lexicographic order of lists of numbers.
pub open spec fn list_less(a: Seq<usize>, b: Seq<usize>) -> bool
    decreases a.len(),
{
    if b.len() == 0 {
        false
    } else if a.len() == 0 {
        true
    } else {
        a[0] < b[0] || (a[0] == b[0] && list_less(a.drop_first(), b.drop_first()))
    }
}

proof fn lemma_list_less(a: Seq<usize>, b: Seq<usize>)
    ensures
        !(list_less(a, b) && list_less(b, a)),
        a == b || list_less(a, b) || list_less(b, a),
        a == b ==> !list_less(a, b),
    decreases a.len(),
{
    if a.len() > 0 && b.len() > 0 {
        lemma_list_less(a.drop_first(), b.drop_first());
        if a[0] == b[0] && a.drop_first() == b.drop_first() {
            assert(a =~= seq![a[0]] + a.drop_first());
            assert(b =~= seq![b[0]] + b.drop_first());
        }
    } else if a.len() == 0 && b.len() == 0 {
        assert(a =~= b);
    }
}

proof fn lemma_list_less_transitive(a: Seq<usize>, b: Seq<usize>, c: Seq<usize>)
    requires
        list_less(a, b),
        list_less(b, c),
    ensures
        list_less(a, c),
    decreases a.len(),
{
    if a.len() > 0 && a[0] == b[0] && b[0] == c[0] {
        lemma_list_less_transitive(a.drop_first(), b.drop_first(), c.drop_first());
    }
}

/// Values of different kinds are ordered by their kinds.
pub open spec fn kind_rank(value: EvalModel) -> int {
    match value {
        EvalModel::Text(_) => 0,
        EvalModel::Bool(_) => 1,
        EvalModel::Number(_) => 2,
        EvalModel::Order(_) => 3,
    }
}

/// Whether a value comes before another.
pub open spec fn value_less(a: EvalModel, b: EvalModel) -> bool {
    match (a, b) {
        (EvalModel::Text(a), EvalModel::Text(b)) => text_less(a, b),
        (EvalModel::Bool(a), EvalModel::Bool(b)) => !a && b,
        (EvalModel::Number(a), EvalModel::Number(b)) => a < b,
        (EvalModel::Order(a), EvalModel::Order(b)) => list_less(a, b),
        _ => kind_rank(a) < kind_rank(b),
    }
}

/// No two values come before each other, and of two different values one comes before the other.
pub proof fn values_are_ordered(a: EvalModel, b: EvalModel)
    ensures
        !(value_less(a, b) && value_less(b, a)),
        a == b || value_less(a, b) || value_less(b, a),
        a == b ==> !value_less(a, b),
{
    match (a, b) {
        (EvalModel::Text(x), EvalModel::Text(y)) => {
            text_less_asymmetric(x, y);
            text_less_total(x, y);
        },
        (EvalModel::Order(x), EvalModel::Order(y)) => {
            lemma_list_less(x, y);
        },
        _ => {},
    }
}

/// The order of values carries over.
pub proof fn value_order_is_transitive(a: EvalModel, b: EvalModel, c: EvalModel)
    requires
        value_less(a, b),
        value_less(b, c),
    ensures
        value_less(a, c),
{
    match (a, b, c) {
        (EvalModel::Text(x), EvalModel::Text(y), EvalModel::Text(z)) => {
            text_less_transitive(x, y, z);
        },
        (EvalModel::Order(x), EvalModel::Order(y), EvalModel::Order(z)) => {
            lemma_list_less_transitive(x, y, z);
        },
        _ => {},
    }
}

/// Whether a value that may be absent comes before another. Whatever the direction of the sort, a
/// value that is absent comes last.
pub open spec fn optional_less(
    left: Option<EvalModel>,
    right: Option<EvalModel>,
    order: AgentViewSortOrder,
) -> bool {
    match (left, right) {
        (Some(a), Some(b)) => match order {
            AgentViewSortOrder::Asc => value_less(a, b),
            AgentViewSortOrder::Desc => value_less(b, a),
        },
        (Some(_), None) => true,
        _ => false,
    }
}

/// Agents without a value come after all agents that have one, in both directions of a sort.
pub proof fn absent_values_come_last(value: EvalModel, order: AgentViewSortOrder)
    ensures
        optional_less(Some(value), None, order),
        !optional_less(None, Some(value), order),
{
}

proof fn lemma_optional_order(
    a: Option<EvalModel>,
    b: Option<EvalModel>,
    order: AgentViewSortOrder,
)
    ensures
        !(optional_less(a, b, order) && optional_less(b, a, order)),
        a == b || optional_less(a, b, order) || optional_less(b, a, order),
        a == b ==> !optional_less(a, b, order),
{
    if let (Some(x), Some(y)) = (a, b) {
        values_are_ordered(x, y);
    }
}

proof fn lemma_optional_transitive(
    a: Option<EvalModel>,
    b: Option<EvalModel>,
    c: Option<EvalModel>,
    order: AgentViewSortOrder,
)
    requires
        optional_less(a, b, order),
        optional_less(b, c, order),
    ensures
        optional_less(a, c, order),
{
    if let (Some(x), Some(y), Some(z)) = (a, b, c) {
        match order {
            AgentViewSortOrder::Asc => {
                value_order_is_transitive(x, y, z);
            },
            AgentViewSortOrder::Desc => {
                value_order_is_transitive(z, y, x);
            },
        }
    }
}

/// Whether an agent comes before another: the first sort field in which they differ decides.
pub open spec fn entry_less(left: EntryModel, right: EntryModel, sorts: Seq<AgentViewSort>) -> bool
    decreases sorts.len(),
{
    if sorts.len() == 0 {
        false
    } else {
        let a = value_to_sort(left, sorts[0].field);
        let b = value_to_sort(right, sorts[0].field);
        optional_less(a, b, sorts[0].order) || (a == b && entry_less(
            left,
            right,
            sorts.drop_first(),
        ))
    }
}

/// No two agents come before each other.
pub proof fn entries_do_not_precede_each_other(
    a: EntryModel,
    b: EntryModel,
    sorts: Seq<AgentViewSort>,
)
    ensures
        !(entry_less(a, b, sorts) && entry_less(b, a, sorts)),
    decreases sorts.len(),
{
    if sorts.len() > 0 {
        let x = value_to_sort(a, sorts[0].field);
        let y = value_to_sort(b, sorts[0].field);
        lemma_optional_order(x, y, sorts[0].order);
        entries_do_not_precede_each_other(a, b, sorts.drop_first());
    }
}

/// An agent that does not come before a second one, which does not come before a third one, does
/// not come before the third one.
pub proof fn entry_order_carries_over(
    a: EntryModel,
    b: EntryModel,
    c: EntryModel,
    sorts: Seq<AgentViewSort>,
)
    requires
        !entry_less(b, a, sorts),
        !entry_less(c, b, sorts),
    ensures
        !entry_less(c, a, sorts),
    decreases sorts.len(),
{
    if sorts.len() > 0 {
        let order = sorts[0].order;
        let x = value_to_sort(a, sorts[0].field);
        let y = value_to_sort(b, sorts[0].field);
        let z = value_to_sort(c, sorts[0].field);
        lemma_optional_order(x, y, order);
        lemma_optional_order(y, z, order);
        lemma_optional_order(x, z, order);
        if x == y && y == z {
            entry_order_carries_over(a, b, c, sorts.drop_first());
        } else if x != y && y != z {
            lemma_optional_transitive(x, y, z, order);
        }
    }
}

/// The order of a sort: the first agent does not have to come after the second one.
pub open spec fn sort_order(sorts: Seq<AgentViewSort>) -> spec_fn(
    AgentPanelEntry,
    AgentPanelEntry,
) -> bool {
    |a: AgentPanelEntry, b: AgentPanelEntry| !entry_less(b@, a@, sorts)
}

/// The order of every sort is one that agents can be sorted by.
pub proof fn sort_order_is_total(sorts: Seq<AgentViewSort>)
    ensures
        total_preorder(sort_order(sorts)),
{
    let le = sort_order(sorts);
    assert forall|a: AgentPanelEntry, b: AgentPanelEntry| #[trigger] le(a, b) || le(b, a) by {
        entries_do_not_precede_each_other(a@, b@, sorts);
    }
    assert forall|a: AgentPanelEntry, b: AgentPanelEntry, c: AgentPanelEntry| #[trigger]
        le(a, b) && #[trigger] le(b, c) implies le(a, c) by {
        entry_order_carries_over(a@, b@, c@, sorts);
    }
}

/// Whether a number that may be absent is the larger one.
pub open spec fn number_greater(a: Option<u64>, b: Option<u64>) -> bool {
    match (a, b) {
        (Some(a), Some(b)) => a > b,
        (Some(_), None) => true,
        _ => false,
    }
}

/// Whether an agent comes before another by priority: it needs more attention, or as much and its
/// status changed later.
pub open spec fn priority_less(a: EntryModel, b: EntryModel) -> bool {
    let x = attention(a.state, a.seen);
    let y = attention(b.state, b.seen);
    x > y || (x == y && number_greater(
        a.last_agent_state_change_seq,
        b.last_agent_state_change_seq,
    ))
}

/// The order by priority: the first agent does not have to come after the second one.
pub open spec fn priority_order() -> spec_fn(AgentPanelEntry, AgentPanelEntry) -> bool {
    |a: AgentPanelEntry, b: AgentPanelEntry| !priority_less(b@, a@)
}

/// The order by priority is one that agents can be sorted by.
pub proof fn priority_order_is_total()
    ensures
        total_preorder(priority_order()),
{
}

fn list_before(a: &[usize; 4], b: &[usize; 4]) -> (before: bool)
    ensures
        before == list_less(a@, b@),
{
    proof {
        reveal_with_fuel(list_less, 5);
    }
    if a[0] != b[0] {
        a[0] < b[0]
    } else if a[1] != b[1] {
        a[1] < b[1]
    } else if a[2] != b[2] {
        a[2] < b[2]
    } else {
        a[3] < b[3]
    }
}

fn kind_number(value: &EvalValue) -> (rank: u8)
    ensures
        rank == kind_rank(value@),
{
    match value {
        EvalValue::String(_) => 0,
        EvalValue::Bool(_) => 1,
        EvalValue::Number(_) => 2,
        EvalValue::Order(_) => 3,
    }
}

fn value_before(a: &EvalValue, b: &EvalValue) -> (before: bool)
    ensures
        before == value_less(a@, b@),
{
    match (a, b) {
        (EvalValue::String(a), EvalValue::String(b)) => text_before(a.as_str(), b.as_str()),
        (EvalValue::Bool(a), EvalValue::Bool(b)) => !*a && *b,
        (EvalValue::Number(a), EvalValue::Number(b)) => *a < *b,
        (EvalValue::Order(a), EvalValue::Order(b)) => list_before(a, b),
        _ => kind_number(a) < kind_number(b),
    }
}

/// Compares two values that may be absent.
pub fn compare_optional_values(
    left: Option<EvalValue>,
    right: Option<EvalValue>,
    order: AgentViewSortOrder,
) -> (ordering: Ordering)
    ensures
        match ordering {
            Ordering::Less => optional_less(option_value(left), option_value(right), order),
            Ordering::Greater => optional_less(option_value(right), option_value(left), order),
            Ordering::Equal => option_value(left) == option_value(right),
        },
{
    proof {
        lemma_optional_order(option_value(left), option_value(right), order);
    }
    match (left, right) {
        (Some(left), Some(right)) => {
            let descending = match order {
                AgentViewSortOrder::Asc => false,
                AgentViewSortOrder::Desc => true,
            };
            if value_before(&left, &right) {
                if descending {
                    Ordering::Greater
                } else {
                    Ordering::Less
                }
            } else if value_before(&right, &left) {
                if descending {
                    Ordering::Less
                } else {
                    Ordering::Greater
                }
            } else {
                Ordering::Equal
            }
        },
        (Some(_), None) => Ordering::Less,
        (None, Some(_)) => Ordering::Greater,
        (None, None) => Ordering::Equal,
    }
}

/// Compares two agents by the fields of a sort.
pub fn compare_entries(
    app: &AppState,
    left: &AgentPanelEntry,
    right: &AgentPanelEntry,
    sorts: &[AgentViewSort],
) -> (ordering: Ordering)
    ensures
        match ordering {
            Ordering::Less => entry_less(left@, right@, sorts@),
            Ordering::Greater => entry_less(right@, left@, sorts@),
            Ordering::Equal => !entry_less(left@, right@, sorts@) && !entry_less(
                right@,
                left@,
                sorts@,
            ),
        },
{
    let mut i: usize = 0;
    proof {
        assert(sorts@.skip(0) =~= sorts@);
    }
    while i < sorts.len()
        invariant
            i <= sorts.len(),
            entry_less(left@, right@, sorts@) == entry_less(
                left@,
                right@,
                sorts@.skip(position(i)),
            ),
            entry_less(right@, left@, sorts@) == entry_less(
                right@,
                left@,
                sorts@.skip(position(i)),
            ),
        decreases sorts.len() - i,
    {
        proof {
            assert(sorts@.skip(position(i)).drop_first() =~= sorts@.skip(position(i) + 1));
            assert(sorts@.skip(position(i))[0] == sorts@[position(i)]);
        }
        let left_value = sort_value(app, left, &sorts[i].field);
        let right_value = sort_value(app, right, &sorts[i].field);
        let ordering = compare_optional_values(left_value, right_value, sorts[i].order);
        match ordering {
            Ordering::Less => {
                return Ordering::Less;
            },
            Ordering::Greater => {
                return Ordering::Greater;
            },
            Ordering::Equal => {},
        }
        proof {
            lemma_optional_order(
                option_value(left_value),
                option_value(right_value),
                sorts@[position(i)].order,
            );
        }
        i = i + 1;
    }
    Ordering::Equal
}

/// A position as a mathematical integer.
spec fn position(i: usize) -> int {
    i as int
}

/// Whether the first agent may stay before the second one.
pub(crate) fn may_precede(
    app: &AppState,
    left: &AgentPanelEntry,
    right: &AgentPanelEntry,
    sorts: &[AgentViewSort],
) -> (r: bool)
    ensures
        r == !entry_less(right@, left@, sorts@),
{
    let ordering = compare_entries(app, left, right, sorts);
    proof {
        entries_do_not_precede_each_other(left@, right@, sorts@);
    }
    match ordering {
        Ordering::Less => true,
        Ordering::Equal => true,
        Ordering::Greater => false,
    }
}

/// Whether the first agent may stay before the second one, by priority.
pub(crate) fn may_precede_by_priority(left: &AgentPanelEntry, right: &AgentPanelEntry) -> (r: bool)
    ensures
        r == !priority_less(right@, left@),
{
    let x = tab_attention_priority(left.state, left.seen);
    let y = tab_attention_priority(right.state, right.seen);
    if x != y {
        return x > y;
    }
    match (left.last_agent_state_change_seq, right.last_agent_state_change_seq) {
        (Some(a), Some(b)) => a >= b,
        (None, Some(_)) => false,
        _ => true,
    }
}

} // verus!
