//! Which views are accepted, and what is made of their names.

use vstd::prelude::*;
use vstd::string::*;

use crate::agent_view::validation::{
    accepted_filters, field_fault, field_value_fault, filter_fault, label_chars, names_normalized,
    node_fault, nodes_counted, nodes_fault, nodes_of, nodes_of_parts, normal_label, normal_source,
    own_fault, parts, sort_field_fault, sorts_fault, source_char, text_result, token_char,
    token_fault, valid_source, valid_token, values_fault, verdict, view_fault,
};
use crate::flatten::flattened;
use crate::schema::view::{
    AgentViewBuiltinField, AgentViewContext, AgentViewField, AgentViewFilter, AgentViewSetParams,
    AgentViewSort, AgentViewSortField, AgentViewValue,
};
use crate::text::{control_char, decimal, trimmed, white_space};

verus! {

/// The source of a view is accepted if, without the white space around it, it has 1 to 120
/// characters, all of them ASCII letters, digits, colons, dots, underscores or hyphens; it is then
/// stored without that white space, and otherwise refused.
pub proof fn sources_are_trimmed_and_checked(source: Seq<char>)
    ensures
        ({
            let inner = trimmed(source);
            let valid = 1 <= inner.len() <= 120 && forall|i: int|
                0 <= i < inner.len() ==> (48 <= (#[trigger] inner[i] as int) <= 58 || 65 <= (
                inner[i] as int) <= 90 || 97 <= (inner[i] as int) <= 122 || (inner[i] as int) == 45
                    || (inner[i] as int) == 46 || (inner[i] as int) == 95);
            &&& valid ==> normal_source(source) == Ok::<Seq<char>, Seq<char>>(inner)
            &&& !valid ==> normal_source(source) == Err::<Seq<char>, Seq<char>>(
                "agent view source must be non-empty, at most "@ + decimal(120)
                    + " characters, and contain only ASCII letters, digits, colon, dot, underscore, or hyphen"@,
            )
        }),
{
    let inner = trimmed(source);
    if valid_source(inner) {
        assert forall|i: int| 0 <= i < inner.len() implies (48 <= (#[trigger] inner[i] as int) <= 58
            || 65 <= (inner[i] as int) <= 90 || 97 <= (inner[i] as int) <= 122 || (
        inner[i] as int) == 45 || (inner[i] as int) == 46 || (inner[i] as int) == 95) by {
            assert(source_char(inner[i]));
        }
    }
}

/// A metadata token is accepted if it has 1 to 32 characters, all of them ASCII letters, digits,
/// underscores or hyphens; as it is, with nothing taken off.
pub proof fn tokens_are_checked(token: Seq<char>)
    ensures
        ({
            let valid = 1 <= token.len() <= 32 && forall|i: int|
                0 <= i < token.len() ==> (48 <= (#[trigger] token[i] as int) <= 57 || 65 <= (
                token[i] as int) <= 90 || 97 <= (token[i] as int) <= 122 || (token[i] as int) == 45
                    || (token[i] as int) == 95);
            &&& valid ==> token_fault(token) is None
            &&& !valid ==> token_fault(token) == Some(
                "invalid agent view token `"@ + token + "`"@,
            )
        }),
{
    if valid_token(token) {
        assert forall|i: int| 0 <= i < token.len() implies (48 <= (#[trigger] token[i] as int) <= 57
            || 65 <= (token[i] as int) <= 90 || 97 <= (token[i] as int) <= 122 || (
        token[i] as int) == 45 || (token[i] as int) == 95) by {
            assert(token_char(token[i]));
        }
    }
}

/// A label is accepted if 1 to 32 characters of it are left, and is stored as what is left of it:
/// without the white space around it and without control characters, which are none of its
/// characters.
pub proof fn labels_are_cleaned_and_checked(label: Seq<char>)
    ensures
        ({
            let left = label_chars(label);
            &&& 1 <= left.len() <= 32 ==> normal_label(label) == Ok::<Seq<char>, Seq<char>>(left)
            &&& !(1 <= left.len() <= 32) ==> normal_label(label) == Err::<Seq<char>, Seq<char>>(
                "agent view label must be non-empty and at most "@ + decimal(32) + " characters"@,
            )
            &&& left.len() <= trimmed(label).len()
            &&& forall|i: int|
                0 <= i < left.len() ==> !((#[trigger] left[i] as int) < 32 || 127 <= (
                left[i] as int) < 160)
        }),
{
    let inner = trimmed(label);
    let visible = |c: char| !control_char(c);
    inner.lemma_filter_len(visible);
    let left = label_chars(label);
    assert forall|i: int| 0 <= i < left.len() implies !((#[trigger] left[i] as int) < 32 || 127 <= (
    left[i] as int) < 160) by {
        inner.lemma_filter_pred(visible, i);
        assert(visible(left[i]));
    }
}

proof fn lemma_nothing_to_trim(text: Seq<char>)
    requires
        text.len() > 0,
        !white_space(text[0]),
        !white_space(text.last()),
    ensures
        trimmed(text) == text,
{
}

/// Inside a label a control character makes no difference, and every other character is kept.
pub proof fn labels_lose_only_control_characters(a: Seq<char>, c: char, b: Seq<char>)
    requires
        a.len() > 0,
        b.len() > 0,
        !white_space(a[0]),
        !white_space(b.last()),
    ensures
        (c as int) < 32 || 127 <= (c as int) < 160 ==> label_chars(a + seq![c] + b) == label_chars(
            a + b,
        ),
        !((c as int) < 32 || 127 <= (c as int) < 160) ==> label_chars(a + seq![c] + b).len()
            == label_chars(a + b).len() + 1 && label_chars(a + seq![c] + b).contains(c),
{
    let visible = |c: char| !control_char(c);
    let with = a + seq![c] + b;
    assert(with[0] == a[0] && with.last() == b.last());
    assert((a + b)[0] == a[0] && (a + b).last() == b.last());
    lemma_nothing_to_trim(with);
    lemma_nothing_to_trim(a + b);
    Seq::filter_distributes_over_add(a + seq![c], b, visible);
    Seq::filter_distributes_over_add(a, b, visible);
    a.lemma_filter_push(c, visible);
    assert(a.push(c) =~= a + seq![c]);
    if !control_char(c) {
        let kept = a.filter(visible);
        assert(label_chars(with) == kept.push(c) + b.filter(visible));
        assert(label_chars(with)[kept.len() as int] == c);
    }
}

/// A label without control characters and without white space around it is kept as it is.
pub proof fn clean_labels_are_kept(label: Seq<char>)
    requires
        1 <= label.len() <= 32,
        !white_space(label[0]),
        !white_space(label.last()),
        forall|i: int| 0 <= i < label.len() ==> !control_char(#[trigger] label[i]),
    ensures
        normal_label(label) == Ok::<Seq<char>, Seq<char>>(label),
{
    lemma_nothing_to_trim(label);
    lemma_all_visible(label);
}

proof fn lemma_all_visible(text: Seq<char>)
    requires
        forall|i: int| 0 <= i < text.len() ==> !control_char(#[trigger] text[i]),
    ensures
        text.filter(|c: char| !control_char(c)) == text,
    decreases text.len(),
{
    reveal(Seq::filter);
    if text.len() > 0 {
        let rest = text.drop_last();
        assert forall|i: int| 0 <= i < rest.len() implies !control_char(#[trigger] rest[i]) by {
            assert(rest[i] == text[i]);
        }
        lemma_all_visible(rest);
        assert(text =~= rest.push(text.last()));
    }
}

/// A property can be compared with values of its own type only: whether an agent was seen with a
/// flag, its last status change with a number, its status with the name of one, workspaces and tabs
/// also with the current ones, and all else with texts.
pub proof fn values_fit_their_fields(field: AgentViewBuiltinField, value: AgentViewValue)
    ensures
        ({
            let fault = field_value_fault(AgentViewField::Builtin(field), value);
            let mismatch = Some("agent view value type does not match the selected field"@);
            match value {
                AgentViewValue::Bool(_) => if field == AgentViewBuiltinField::Seen {
                    fault is None
                } else {
                    fault == mismatch
                },
                AgentViewValue::Number(_) => if field == AgentViewBuiltinField::StateChangeSeq {
                    fault is None
                } else {
                    fault == mismatch
                },
                AgentViewValue::Context { context } => if (field
                    == AgentViewBuiltinField::WorkspaceId && context
                    == AgentViewContext::CurrentWorkspaceId) || (field
                    == AgentViewBuiltinField::TabId && context == AgentViewContext::CurrentTabId) {
                    fault is None
                } else {
                    fault == Some("agent view context type does not match the selected field"@)
                },
                AgentViewValue::String(text) => if field == AgentViewBuiltinField::Seen || field
                    == AgentViewBuiltinField::StateChangeSeq {
                    fault == mismatch
                } else if field == AgentViewBuiltinField::Status && text@ != "idle"@ && text@
                    != "working"@ && text@ != "blocked"@ && text@ != "done"@ && text@
                    != "unknown"@ {
                    fault == Some("unknown agent status `"@ + text@ + "`"@)
                } else {
                    fault is None
                },
            }
        }),
{
}

/// A token can be compared with texts only, and has to be a valid one.
pub proof fn values_fit_their_tokens(token: String, value: AgentViewValue)
    ensures
        ({
            let fault = field_value_fault(AgentViewField::Token { token }, value);
            &&& token_fault(token@) is Some ==> fault == token_fault(token@)
            &&& token_fault(token@) is None ==> match value {
                AgentViewValue::String(_) => fault is None,
                AgentViewValue::Context { .. } => fault == Some(
                    "agent view context type does not match the selected field"@,
                ),
                _ => fault == Some("agent view value type does not match the selected field"@),
            }
        }),
{
}

/// A filter or a sort may name every property, and the tokens that are valid.
pub proof fn fields_are_checked(
    field: AgentViewBuiltinField,
    token: String,
    sort: AgentViewSortField,
)
    ensures
        field_fault(AgentViewField::Builtin(field)) is None,
        field_fault(AgentViewField::Token { token }) == token_fault(token@),
        sort matches AgentViewSortField::Builtin(_) ==> sort_field_fault(sort) is None,
        sort matches AgentViewSortField::Token { token } ==> sort_field_fault(sort) == token_fault(
            token@,
        ),
{
}

/// A filter by itself is at fault where it has no parts, where it has no values or more than 32, or
/// where its field or a value is at fault; a negation never is.
pub proof fn filters_are_checked_by_themselves(
    filters: Vec<AgentViewFilter>,
    filter: Box<AgentViewFilter>,
    field: AgentViewField,
    value: AgentViewValue,
    values: Vec<AgentViewValue>,
)
    ensures
        own_fault(AgentViewFilter::All { filters }) == if filters@.len() == 0 {
            Some("agent view all/any filters must not be empty"@)
        } else {
            None
        },
        own_fault(AgentViewFilter::Any { filters }) == if filters@.len() == 0 {
            Some("agent view all/any filters must not be empty"@)
        } else {
            None
        },
        own_fault(AgentViewFilter::Not { filter }) is None,
        own_fault(AgentViewFilter::Eq { field, value }) == field_value_fault(field, value),
        own_fault(AgentViewFilter::Exists { field }) == field_fault(field),
        values@.len() == 0 || values@.len() > 32 ==> own_fault(
            AgentViewFilter::In { field, values },
        ) == Some("agent view in filters require 1 to "@ + decimal(32) + " values"@),
        1 <= values@.len() <= 32 ==> (own_fault(AgentViewFilter::In { field, values }) is None
            <==> forall|i: int|
            0 <= i < values@.len() ==> field_value_fault(field, #[trigger] values@[i]) is None),
        1 <= values@.len() <= 32 ==> forall|i: int|
            0 <= i < values@.len() && field_value_fault(field, #[trigger] values@[i]) is Some && (
            forall|k: int|
                0 <= k < i ==> field_value_fault(field, #[trigger] values@[k]) is None)
                ==> own_fault(AgentViewFilter::In { field, values }) == field_value_fault(
                field,
                values@[i],
            ),
{
    if 1 <= values@.len() <= 32 {
        lemma_values_checked(field, values@);
    }
}

proof fn lemma_values_checked(field: AgentViewField, values: Seq<AgentViewValue>)
    ensures
        values_fault(field, values) is None <==> forall|i: int|
            0 <= i < values.len() ==> field_value_fault(field, #[trigger] values[i]) is None,
        forall|i: int|
            0 <= i < values.len() && field_value_fault(field, #[trigger] values[i]) is Some && (
            forall|k: int|
                0 <= k < i ==> field_value_fault(field, #[trigger] values[k]) is None)
                ==> values_fault(field, values) == field_value_fault(field, values[i]),
    decreases values.len(),
{
    if values.len() > 0 {
        let rest = values.drop_last();
        lemma_values_checked(field, rest);
        let last = values.len() - 1;
        if values_fault(field, values) is None {
            assert forall|i: int| 0 <= i < values.len() implies field_value_fault(
                field,
                #[trigger] values[i],
            ) is None by {
                if i < last {
                    assert(rest[i] == values[i]);
                }
            }
        }
        if forall|i: int|
            0 <= i < values.len() ==> field_value_fault(field, #[trigger] values[i]) is None {
            assert forall|i: int| 0 <= i < rest.len() implies field_value_fault(
                field,
                #[trigger] rest[i],
            ) is None by {
                assert(rest[i] == values[i]);
            }
            assert(field_value_fault(field, values[last]) is None);
        }
        assert forall|i: int|
            0 <= i < values.len() && field_value_fault(field, #[trigger] values[i]) is Some && (
            forall|k: int| 0 <= k < i ==> field_value_fault(field, #[trigger] values[k]) is None)
            implies values_fault(field, values) == field_value_fault(field, values[i]) by {
            assert forall|k: int| 0 <= k < i && k < rest.len() implies field_value_fault(
                field,
                #[trigger] rest[k],
            ) is None by {
                assert(rest[k] == values[k]);
            }
            if i < last {
                assert(rest[i] == values[i]);
            }
        }
    }
}

proof fn lemma_parts_listed(filter: AgentViewFilter, n: nat, depth: nat)
    requires
        n <= parts(filter).len(),
    ensures
        nodes_of_parts(filter, n, depth) == flattened(
            n,
            |i: int| nodes_of(parts(filter)[i], depth),
        ),
    decreases n,
{
    if n > 0 {
        lemma_parts_listed(filter, (n - 1) as nat, depth);
    }
}

/// The filters inside a filter are the filter itself, one level below it those of its parts, one
/// part after the other, and nothing else.
pub proof fn filters_hold_themselves_and_their_parts(
    filters: Vec<AgentViewFilter>,
    filter: Box<AgentViewFilter>,
    field: AgentViewField,
    value: AgentViewValue,
    values: Vec<AgentViewValue>,
    depth: nat,
)
    ensures
        ({
            let all = AgentViewFilter::All { filters };
            let any = AgentViewFilter::Any { filters };
            let not = AgentViewFilter::Not { filter };
            let inside = flattened(filters@.len(), |i: int| nodes_of(filters@[i], depth + 1));
            &&& nodes_of(all, depth) == seq![(all, depth)] + inside
            &&& nodes_of(any, depth) == seq![(any, depth)] + inside
            &&& nodes_of(not, depth) == seq![(not, depth)] + nodes_of(*filter, depth + 1)
            &&& nodes_of(AgentViewFilter::Eq { field, value }, depth).len() == 1
            &&& nodes_of(AgentViewFilter::In { field, values }, depth).len() == 1
            &&& nodes_of(AgentViewFilter::Exists { field }, depth).len() == 1
        }),
{
    let all = AgentViewFilter::All { filters };
    let any = AgentViewFilter::Any { filters };
    let not = AgentViewFilter::Not { filter };
    let inside = |i: int| nodes_of(filters@[i], depth + 1);
    lemma_parts_listed(all, filters@.len(), depth + 1);
    lemma_parts_listed(any, filters@.len(), depth + 1);
    lemma_same_nodes(
        filters@.len(),
        |i: int| nodes_of(parts(all)[i], depth + 1),
        inside,
    );
    lemma_same_nodes(
        filters@.len(),
        |i: int| nodes_of(parts(any)[i], depth + 1),
        inside,
    );
    lemma_parts_listed(not, 1, depth + 1);
    let one = |i: int| nodes_of(parts(not)[i], depth + 1);
    assert(flattened(1, one) =~= flattened(0, one) + one(0)) by {
        assert((1 - 1) as nat == 0);
    }
    assert(flattened(1, one) =~= nodes_of(*filter, depth + 1));
    assert(parts(not).len() == 1);
}

proof fn lemma_same_nodes(
    n: nat,
    a: spec_fn(int) -> Seq<(AgentViewFilter, nat)>,
    b: spec_fn(int) -> Seq<(AgentViewFilter, nat)>,
)
    requires
        forall|i: int| 0 <= i < n ==> #[trigger] a(i) == b(i),
    ensures
        flattened(n, a) == flattened(n, b),
    decreases n,
{
    if n > 0 {
        lemma_same_nodes((n - 1) as nat, a, b);
        assert(a(n - 1) == b(n - 1));
    }
}

/// The filter of a view is accepted if and only if there are no more than 64 filters in it, none of
/// them lies deeper than 8 levels, and none is at fault by itself.
pub proof fn filters_are_limited(filter: AgentViewFilter)
    ensures
        filter_fault(None) is None,
        filter_fault(Some(filter)) is None <==> nodes_of(filter, 1).len() <= 64 && forall|i: int|
            0 <= i < nodes_of(filter, 1).len() ==> (#[trigger] nodes_of(filter, 1)[i]).1 <= 8
                && own_fault(nodes_of(filter, 1)[i].0) is None,
{
    accepted_filters(filter);
}

/// The complaint about a filter is about the first of the filters in it that gives reason to one:
/// because it lies too deep, or else because there are too many before it, or else for itself. On
/// the way every filter is counted that does not lie too deep.
pub proof fn filters_are_checked_from_the_front(
    nodes: Seq<(AgentViewFilter, nat)>,
    before: nat,
    i: int,
)
    requires
        0 <= i < nodes.len(),
        forall|k: int| 0 <= k < i ==> node_fault(#[trigger] nodes[k], (before + k) as nat) is None,
    ensures
        node_fault(nodes[i], (before + i) as nat) is Some ==> nodes_fault(nodes, before)
            == node_fault(nodes[i], (before + i) as nat),
        node_fault(nodes[i], (before + i) as nat) is Some ==> nodes_counted(nodes, before) == (
        if nodes[i].1 > 8 {
            i
        } else {
            i + 1
        }),
        nodes[i].1 > 8 ==> node_fault(nodes[i], (before + i) as nat) == Some(
            "agent view filter may be nested at most "@ + decimal(8) + " levels"@,
        ),
        nodes[i].1 <= 8 && before + i >= 64 ==> node_fault(nodes[i], (before + i) as nat) == Some(
            "agent view filter may contain at most "@ + decimal(64) + " nodes"@,
        ),
        nodes[i].1 <= 8 && before + i < 64 ==> node_fault(nodes[i], (before + i) as nat)
            == own_fault(nodes[i].0),
        i == nodes.len() - 1 && node_fault(nodes[i], (before + i) as nat) is None ==> nodes_fault(
            nodes,
            before,
        ) is None && nodes_counted(nodes, before) == nodes.len(),
    decreases nodes.len(),
{
    let rest = nodes.drop_first();
    if i > 0 {
        assert(node_fault(nodes[0], (before + 0) as nat) is None);
        assert forall|k: int| 0 <= k < i - 1 implies node_fault(
            #[trigger] rest[k],
            (before + 1 + k) as nat,
        ) is None by {
            assert(rest[k] == nodes[k + 1]);
            assert(node_fault(nodes[k + 1], (before + (k + 1)) as nat) is None);
        }
        filters_are_checked_from_the_front(rest, before + 1, i - 1);
        assert(rest[i - 1] == nodes[i]);
    } else {
        assert((before + i) as nat == before);
        if nodes.len() == 1 {
            assert(nodes_fault(rest, before + 1) is None);
            assert(nodes_counted(rest, before + 1) == 0);
        }
    }
}

proof fn lemma_sorts_checked(sorts: Seq<AgentViewSort>)
    ensures
        sorts_fault(sorts) is None <==> forall|i: int|
            0 <= i < sorts.len() ==> sort_field_fault((#[trigger] sorts[i]).field) is None,
    decreases sorts.len(),
{
    if sorts.len() > 0 {
        let rest = sorts.drop_last();
        lemma_sorts_checked(rest);
        let last = sorts.len() - 1;
        if sorts_fault(sorts) is None {
            assert forall|i: int| 0 <= i < sorts.len() implies sort_field_fault(
                (#[trigger] sorts[i]).field,
            ) is None by {
                if i < last {
                    assert(rest[i] == sorts[i]);
                }
            }
        } else if sorts_fault(rest) is Some {
            let i = choose|i: int|
                0 <= i < rest.len() && sort_field_fault((#[trigger] rest[i]).field) is Some;
            assert(sort_field_fault(sorts[i].field) is Some);
        } else {
            assert(sort_field_fault(sorts[last].field) is Some);
        }
    }
}

proof fn lemma_first_sort_refused(sorts: Seq<AgentViewSort>, i: int)
    requires
        0 <= i < sorts.len(),
        sort_field_fault(sorts[i].field) is Some,
        forall|k: int| 0 <= k < i ==> sort_field_fault((#[trigger] sorts[k]).field) is None,
    ensures
        sorts_fault(sorts) == sort_field_fault(sorts[i].field),
    decreases sorts.len(),
{
    let rest = sorts.drop_last();
    if i < rest.len() {
        assert forall|k: int| 0 <= k < i implies sort_field_fault((#[trigger] rest[k]).field)
            is None by {
            assert(rest[k] == sorts[k]);
        }
        lemma_first_sort_refused(rest, i);
    } else {
        assert forall|k: int| 0 <= k < rest.len() implies sort_field_fault(
            (#[trigger] rest[k]).field,
        ) is None by {
            assert(rest[k] == sorts[k]);
        }
        lemma_sorts_checked(rest);
    }
}

/// A view is accepted if and only if its source is, its label and its filter are where it has them,
/// and it has no more than 8 sort fields, each of them valid.
pub proof fn accepted_views(view: AgentViewSetParams)
    ensures
        view_fault(view) is None <==> {
            &&& normal_source(view.source@) is Ok
            &&& (view.label matches Some(label) ==> normal_label(label@) is Ok)
            &&& filter_fault(view.filter) is None
            &&& view.sort@.len() <= 8
            &&& forall|i: int|
                0 <= i < view.sort@.len() ==> sort_field_fault((#[trigger] view.sort@[i]).field)
                    is None
        },
{
    lemma_sorts_checked(view.sort@);
}

/// A view that is refused is refused for its source first, then for its label, its filter, the
/// number of its sort fields, and the first sort field that is at fault.
pub proof fn refused_views_say_why(view: AgentViewSetParams, i: int)
    ensures
        ({
            let source = normal_source(view.source@);
            let label_refused = view.label matches Some(label) && normal_label(label@) is Err;
            let filter = filter_fault(view.filter);
            &&& source matches Err(error) ==> view_fault(view) == Some(error)
            &&& source is Ok && label_refused ==> view_fault(view) == Some(
                normal_label(view.label->0@)->Err_0,
            )
            &&& source is Ok && !label_refused && filter is Some ==> view_fault(view) == filter
            &&& source is Ok && !label_refused && filter is None && view.sort@.len() > 8
                ==> view_fault(view) == Some(
                "agent view sort may contain at most "@ + decimal(8) + " fields"@,
            )
            &&& source is Ok && !label_refused && filter is None && view.sort@.len() <= 8 && 0 <= i
                < view.sort@.len() && sort_field_fault(view.sort@[i].field) is Some && (forall|
                k: int,
            |
                0 <= k < i ==> sort_field_fault((#[trigger] view.sort@[k]).field) is None)
                ==> view_fault(view) == sort_field_fault(view.sort@[i].field)
        }),
{
    if 0 <= i < view.sort@.len() && sort_field_fault(view.sort@[i].field) is Some && (forall|
        k: int,
    |
        0 <= k < i ==> sort_field_fault((#[trigger] view.sort@[k]).field) is None) {
        lemma_first_sort_refused(view.sort@, i);
    }
}

/// A view that is accepted is stored under its source without the white space around it, and under
/// what is left of its label where it has one; a view whose source is refused keeps its names.
pub proof fn accepted_names_are_stored_clean(
    before: AgentViewSetParams,
    after: AgentViewSetParams,
)
    requires
        names_normalized(before, after),
    ensures
        view_fault(before) is None ==> after.source@ == trimmed(before.source@) && (after.label
            is Some <==> before.label is Some) && (before.label matches Some(label)
            ==> after.label->0@ == label_chars(label@)),
        normal_source(before.source@) is Err ==> after.source == before.source && after.label
            == before.label,
{
}

/// A check succeeds if and only if there is no complaint, and fails with the complaint otherwise; a
/// text is given back as it is owed, or the error is.
pub proof fn checks_say_what_is_wrong(
    result: Result<(), String>,
    fault: Option<Seq<char>>,
    given: Result<String, String>,
    owed: Result<Seq<char>, Seq<char>>,
)
    ensures
        verdict(result, fault) ==> (result is Ok <==> fault is None),
        verdict(result, fault) ==> (result matches Err(error) ==> fault == Some(error@)),
        text_result(given, owed) ==> (given is Ok <==> owed is Ok),
        text_result(given, owed) ==> (given matches Ok(text) ==> owed == Ok::<
            Seq<char>,
            Seq<char>,
        >(text@)),
        text_result(given, owed) ==> (given matches Err(error) ==> owed == Err::<
            Seq<char>,
            Seq<char>,
        >(error@)),
{
}

} // verus!
