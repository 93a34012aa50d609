//! Checks an agent view before it is set.

use vstd::prelude::*;
use vstd::string::*;

use crate::schema::view::{
    AgentViewBuiltinField, AgentViewContext, AgentViewField, AgentViewFilter, AgentViewSetParams,
    AgentViewSort, AgentViewSortField, AgentViewValue,
};
use crate::text::{
    ascii_alphanumeric, chars_of, control_char, is_ascii_alphanumeric, is_control_char, numbered,
    numbered_text, same_text, trim_end, trim_start, trim_text, trimmed, white_space,
};

verus! {

pub const MAX_FILTER_DEPTH: usize = 8;

pub const MAX_FILTER_NODES: usize = 64;

pub const MAX_FILTER_VALUES: usize = 32;

pub const MAX_SORT_FIELDS: usize = 8;

pub const MAX_SOURCE_CHARS: usize = 120;

pub const MAX_LABEL_CHARS: usize = 32;

pub const MAX_TOKEN_CHARS: usize = 32;

/// What a check says: nothing, or the same complaint as the model.
pub open spec fn verdict(result: Result<(), String>, fault: Option<Seq<char>>) -> bool {
    match result {
        Ok(_) => fault is None,
        Err(error) => fault == Some(error@),
    }
}

/// The characters of which the name of a view's source is made.
pub open spec fn source_char(c: char) -> bool {
    ascii_alphanumeric(c) || c == ':' || c == '.' || c == '_' || c == '-'
}

pub open spec fn valid_source(source: Seq<char>) -> bool {
    &&& 0 < source.len() <= MAX_SOURCE_CHARS
    &&& forall|i: int| 0 <= i < source.len() ==> source_char(#[trigger] source[i])
}

pub open spec fn source_error() -> Seq<char> {
    numbered(
        "agent view source must be non-empty, at most "@,
        MAX_SOURCE_CHARS as nat,
        " characters, and contain only ASCII letters, digits, colon, dot, underscore, or hyphen"@,
    )
}

/// The name of a source as it is stored: without the white space around it, if it is valid.
pub open spec fn normal_source(source: Seq<char>) -> Result<Seq<char>, Seq<char>> {
    if valid_source(trimmed(source)) {
        Ok(trimmed(source))
    } else {
        Err(source_error())
    }
}

/// Whether a text with an error stands for a value with an error.
pub open spec fn text_result(
    result: Result<String, String>,
    model: Result<Seq<char>, Seq<char>>,
) -> bool {
    match (result, model) {
        (Ok(text), Ok(expected)) => text@ == expected,
        (Err(error), Err(expected)) => error@ == expected,
        _ => false,
    }
}

pub fn normalize_source(source: &str) -> (result: Result<String, String>)
    ensures
        text_result(result, normal_source(source@)),
{
    let source = trim_text(source);
    let chars = chars_of(source.as_str());
    let mut valid = chars.len() > 0 && chars.len() <= MAX_SOURCE_CHARS;
    let mut i: usize = 0;
    while i < chars.len()
        invariant
            i <= chars.len(),
            chars@ == source@,
            valid <==> 0 < chars.len() <= MAX_SOURCE_CHARS && forall|k: int|
                0 <= k < i ==> source_char(#[trigger] chars@[k]),
        decreases chars.len() - i,
    {
        let c = chars[i];
        valid = valid && (is_ascii_alphanumeric(c) || c == ':' || c == '.' || c == '_' || c == '-');
        i = i + 1;
    }
    if !valid {
        return Err(
            numbered_text(
                "agent view source must be non-empty, at most ",
                MAX_SOURCE_CHARS,
                " characters, and contain only ASCII letters, digits, colon, dot, underscore, or hyphen",
            ),
        );
    }
    Ok(source)
}

/// Checks the name of the source of a view.
pub fn validate_agent_view_source(source: &str) -> (result: Result<String, String>)
    ensures
        text_result(result, normal_source(source@)),
{
    normalize_source(source)
}

/// A label as it is stored: without the white space around it and without control characters.
pub open spec fn label_chars(label: Seq<char>) -> Seq<char> {
    trimmed(label).filter(|c: char| !control_char(c))
}

pub open spec fn label_error() -> Seq<char> {
    numbered(
        "agent view label must be non-empty and at most "@,
        MAX_LABEL_CHARS as nat,
        " characters"@,
    )
}

pub open spec fn normal_label(label: Seq<char>) -> Result<Seq<char>, Seq<char>> {
    if 0 < label_chars(label).len() <= MAX_LABEL_CHARS {
        Ok(label_chars(label))
    } else {
        Err(label_error())
    }
}

pub fn normalize_label(label: &str) -> (result: Result<String, String>)
    ensures
        text_result(result, normal_label(label@)),
{
    let inner = trim_text(label);
    let chars = chars_of(inner.as_str());
    let ghost visible = |c: char| !control_char(c);
    let mut shown = String::new();
    let mut count: usize = 0;
    let mut i: usize = 0;
    proof {
        assert(chars@.take(0).filter(visible) =~= Seq::<char>::empty()) by {
            reveal(Seq::filter);
        }
    }
    while i < chars.len()
        invariant
            i <= chars.len(),
            count <= i,
            count == shown@.len(),
            visible == (|c: char| !control_char(c)),
            shown@ == chars@.take(i as int).filter(visible),
        decreases chars.len() - i,
    {
        let c = chars[i];
        proof {
            reveal(Seq::filter);
            assert(chars@.take(i + 1).drop_last() =~= chars@.take(i as int));
            assert(chars@.take(i + 1).last() == c);
        }
        if !is_control_char(c) {
            shown.push(c);
            count = count + 1;
        }
        i = i + 1;
    }
    proof {
        assert(chars@.take(chars@.len() as int) =~= chars@);
    }
    if count == 0 || count > MAX_LABEL_CHARS {
        return Err(
            numbered_text(
                "agent view label must be non-empty and at most ",
                MAX_LABEL_CHARS,
                " characters",
            ),
        );
    }
    Ok(shown)
}

/// The characters of which a metadata token is made.
pub open spec fn token_char(c: char) -> bool {
    ascii_alphanumeric(c) || c == '_' || c == '-'
}

pub open spec fn valid_token(token: Seq<char>) -> bool {
    &&& 0 < token.len() <= MAX_TOKEN_CHARS
    &&& forall|i: int| 0 <= i < token.len() ==> token_char(#[trigger] token[i])
}

pub open spec fn token_fault(token: Seq<char>) -> Option<Seq<char>> {
    if valid_token(token) {
        None
    } else {
        Some("invalid agent view token `"@ + token + "`"@)
    }
}

pub fn validate_token(token: &str) -> (result: Result<(), String>)
    ensures
        verdict(result, token_fault(token@)),
{
    let chars = chars_of(token);
    let mut valid = chars.len() > 0 && chars.len() <= MAX_TOKEN_CHARS;
    let mut i: usize = 0;
    while i < chars.len()
        invariant
            i <= chars.len(),
            chars@ == token@,
            valid <==> 0 < chars.len() <= MAX_TOKEN_CHARS && forall|k: int|
                0 <= k < i ==> token_char(#[trigger] chars@[k]),
        decreases chars.len() - i,
    {
        let c = chars[i];
        valid = valid && (is_ascii_alphanumeric(c) || c == '_' || c == '-');
        i = i + 1;
    }
    if !valid {
        let mut error = "invalid agent view token `".to_owned();
        error.append(token);
        error.append("`");
        return Err(error);
    }
    Ok(())
}

pub open spec fn field_fault(field: AgentViewField) -> Option<Seq<char>> {
    match field {
        AgentViewField::Token { token } => token_fault(token@),
        AgentViewField::Builtin(_) => None,
    }
}

pub fn validate_field(field: &AgentViewField) -> (result: Result<(), String>)
    ensures
        verdict(result, field_fault(*field)),
{
    match field {
        AgentViewField::Token { token } => validate_token(token.as_str()),
        AgentViewField::Builtin(_) => Ok(()),
    }
}

pub open spec fn sort_field_fault(field: AgentViewSortField) -> Option<Seq<char>> {
    match field {
        AgentViewSortField::Token { token } => token_fault(token@),
        AgentViewSortField::Builtin(_) => None,
    }
}

pub fn validate_sort_field(field: &AgentViewSortField) -> (result: Result<(), String>)
    ensures
        verdict(result, sort_field_fault(*field)),
{
    match field {
        AgentViewSortField::Token { token } => validate_token(token.as_str()),
        AgentViewSortField::Builtin(_) => Ok(()),
    }
}

/// The names that a status can have.
pub open spec fn known_status(name: Seq<char>) -> bool {
    name == "idle"@ || name == "working"@ || name == "blocked"@ || name == "done"@ || name
        == "unknown"@
}

/// Whether a value is of the type that a field has. The identifiers of the current workspace and
/// tab can only be compared with those of a workspace and a tab.
pub open spec fn type_fault(field: AgentViewField, value: AgentViewValue) -> Option<Seq<char>> {
    match value {
        AgentViewValue::Context { context } => {
            let wanted = match context {
                AgentViewContext::CurrentWorkspaceId => AgentViewBuiltinField::WorkspaceId,
                AgentViewContext::CurrentTabId => AgentViewBuiltinField::TabId,
            };
            if field == AgentViewField::Builtin(wanted) {
                None
            } else {
                Some("agent view context type does not match the selected field"@)
            }
        },
        AgentViewValue::Bool(_) => if field == AgentViewField::Builtin(
            AgentViewBuiltinField::Seen,
        ) {
            None
        } else {
            Some("agent view value type does not match the selected field"@)
        },
        AgentViewValue::Number(_) => if field == AgentViewField::Builtin(
            AgentViewBuiltinField::StateChangeSeq,
        ) {
            None
        } else {
            Some("agent view value type does not match the selected field"@)
        },
        AgentViewValue::String(text) => match field {
            AgentViewField::Builtin(AgentViewBuiltinField::Seen)
            | AgentViewField::Builtin(AgentViewBuiltinField::StateChangeSeq) => Some(
                "agent view value type does not match the selected field"@,
            ),
            AgentViewField::Builtin(AgentViewBuiltinField::Status) => if known_status(text@) {
                None
            } else {
                Some("unknown agent status `"@ + text@ + "`"@)
            },
            _ => None,
        },
    }
}

pub open spec fn field_value_fault(field: AgentViewField, value: AgentViewValue) -> Option<
    Seq<char>,
> {
    match field_fault(field) {
        Some(fault) => Some(fault),
        None => type_fault(field, value),
    }
}

fn is_known_status(name: &str) -> (known: bool)
    ensures
        known == known_status(name@),
{
    same_text(name, "idle") || same_text(name, "working") || same_text(name, "blocked")
        || same_text(name, "done") || same_text(name, "unknown")
}

pub fn validate_field_value(field: &AgentViewField, value: &AgentViewValue) -> (result: Result<
    (),
    String,
>)
    ensures
        verdict(result, field_value_fault(*field, *value)),
{
    match validate_field(field) {
        Ok(()) => {},
        Err(error) => {
            return Err(error);
        },
    }
    match (field, value) {
        (
            AgentViewField::Builtin(AgentViewBuiltinField::WorkspaceId),
            AgentViewValue::Context { context: AgentViewContext::CurrentWorkspaceId },
        ) => Ok(()),
        (
            AgentViewField::Builtin(AgentViewBuiltinField::TabId),
            AgentViewValue::Context { context: AgentViewContext::CurrentTabId },
        ) => Ok(()),
        (_, AgentViewValue::Context { .. }) => Err(
            "agent view context type does not match the selected field".to_owned(),
        ),
        (AgentViewField::Builtin(AgentViewBuiltinField::Seen), AgentViewValue::Bool(_)) => Ok(()),
        (
            AgentViewField::Builtin(AgentViewBuiltinField::StateChangeSeq),
            AgentViewValue::Number(_),
        ) => Ok(()),
        (
            AgentViewField::Builtin(AgentViewBuiltinField::Status),
            AgentViewValue::String(text),
        ) => {
            if is_known_status(text.as_str()) {
                Ok(())
            } else {
                let mut error = "unknown agent status `".to_owned();
                error.append(text.as_str());
                error.append("`");
                Err(error)
            }
        },
        (
            AgentViewField::Builtin(AgentViewBuiltinField::WorkspaceId),
            AgentViewValue::String(_),
        ) => Ok(()),
        (AgentViewField::Builtin(AgentViewBuiltinField::TabId), AgentViewValue::String(_)) => Ok(
            (),
        ),
        (AgentViewField::Builtin(AgentViewBuiltinField::PaneId), AgentViewValue::String(_)) => Ok(
            (),
        ),
        (AgentViewField::Builtin(AgentViewBuiltinField::Agent), AgentViewValue::String(_)) => Ok(
            (),
        ),
        (AgentViewField::Token { .. }, AgentViewValue::String(_)) => Ok(()),
        _ => Err("agent view value type does not match the selected field".to_owned()),
    }
}

/// The filters of which a filter is made up directly.
pub open spec fn parts(filter: AgentViewFilter) -> Seq<AgentViewFilter> {
    match filter {
        AgentViewFilter::All { filters } | AgentViewFilter::Any { filters } => filters@,
        AgentViewFilter::Not { filter } => seq![*filter],
        _ => Seq::empty(),
    }
}

/// A filter and all filters inside it, each with its depth: first the filter itself, then what is
/// inside its first part, and so on.
pub open spec fn nodes_of(filter: AgentViewFilter, depth: nat) -> Seq<(AgentViewFilter, nat)>
    decreases filter, parts(filter).len() + 1,
{
    seq![(filter, depth)] + nodes_of_parts(filter, parts(filter).len(), depth + 1)
}

/// The nodes of the first parts of a filter.
pub open spec fn nodes_of_parts(filter: AgentViewFilter, n: nat, depth: nat) -> Seq<
    (AgentViewFilter, nat),
>
    decreases filter, n,
{
    if n == 0 || n > parts(filter).len() {
        Seq::empty()
    } else {
        let before = nodes_of_parts(filter, (n - 1) as nat, depth);
        match filter {
            AgentViewFilter::All { filters } => before + nodes_of(filters@[n - 1], depth),
            AgentViewFilter::Any { filters } => before + nodes_of(filters@[n - 1], depth),
            AgentViewFilter::Not { filter } => before + nodes_of(*filter, depth),
            _ => before,
        }
    }
}

/// The first complaint about the first values of a filter.
pub open spec fn values_fault(field: AgentViewField, values: Seq<AgentViewValue>) -> Option<
    Seq<char>,
>
    decreases values.len(),
{
    if values.len() == 0 {
        None
    } else {
        match values_fault(field, values.drop_last()) {
            Some(fault) => Some(fault),
            None => field_value_fault(field, values.last()),
        }
    }
}

/// The complaint about a filter by itself, whatever is inside its parts.
pub open spec fn own_fault(filter: AgentViewFilter) -> Option<Seq<char>> {
    match filter {
        AgentViewFilter::All { filters } | AgentViewFilter::Any { filters } => if filters@.len()
            == 0 {
            Some("agent view all/any filters must not be empty"@)
        } else {
            None
        },
        AgentViewFilter::Not { .. } => None,
        AgentViewFilter::Eq { field, value } => field_value_fault(field, value),
        AgentViewFilter::In { field, values } => if 0 < values@.len() <= MAX_FILTER_VALUES {
            values_fault(field, values@)
        } else {
            Some(
                numbered(
                    "agent view in filters require 1 to "@,
                    MAX_FILTER_VALUES as nat,
                    " values"@,
                ),
            )
        },
        AgentViewFilter::Exists { field } => field_fault(field),
    }
}

/// The complaint about a node that comes after a number of others.
pub open spec fn node_fault(node: (AgentViewFilter, nat), before: nat) -> Option<Seq<char>> {
    if node.1 > MAX_FILTER_DEPTH {
        Some(
            numbered(
                "agent view filter may be nested at most "@,
                MAX_FILTER_DEPTH as nat,
                " levels"@,
            ),
        )
    } else if before >= MAX_FILTER_NODES {
        Some(
            numbered(
                "agent view filter may contain at most "@,
                MAX_FILTER_NODES as nat,
                " nodes"@,
            ),
        )
    } else {
        own_fault(node.0)
    }
}

/// The complaint about the first of several nodes that has one, where the first of them comes
/// after a number of others.
pub open spec fn nodes_fault(nodes: Seq<(AgentViewFilter, nat)>, before: nat) -> Option<Seq<char>>
    decreases nodes.len(),
{
    if nodes.len() == 0 {
        None
    } else {
        match node_fault(nodes[0], before) {
            Some(fault) => Some(fault),
            None => nodes_fault(nodes.drop_first(), before + 1),
        }
    }
}

/// How many of several nodes are counted before the check ends. A node that is too deep is not.
pub open spec fn nodes_counted(nodes: Seq<(AgentViewFilter, nat)>, before: nat) -> nat
    decreases nodes.len(),
{
    if nodes.len() == 0 || nodes[0].1 > MAX_FILTER_DEPTH {
        0
    } else if node_fault(nodes[0], before) is Some {
        1
    } else {
        1 + nodes_counted(nodes.drop_first(), before + 1)
    }
}

proof fn lemma_nodes_joined(
    a: Seq<(AgentViewFilter, nat)>,
    b: Seq<(AgentViewFilter, nat)>,
    before: nat,
)
    ensures
        nodes_fault(a, before) is Some ==> nodes_fault(a + b, before) == nodes_fault(a, before)
            && nodes_counted(a + b, before) == nodes_counted(a, before),
        nodes_fault(a, before) is None ==> nodes_fault(a + b, before) == nodes_fault(
            b,
            before + a.len(),
        ) && nodes_counted(a + b, before) == a.len() + nodes_counted(b, before + a.len())
            && nodes_counted(a, before) == a.len(),
    decreases a.len(),
{
    if a.len() == 0 {
        assert(a + b =~= b);
    } else {
        assert((a + b).drop_first() =~= a.drop_first() + b);
        assert((a + b)[0] == a[0]);
        lemma_nodes_joined(a.drop_first(), b, before + 1);
    }
}

/// Nodes of which none is complained about fit in the limit.
proof fn lemma_faultless_nodes_fit(nodes: Seq<(AgentViewFilter, nat)>, before: nat)
    requires
        nodes_fault(nodes, before) is None,
    ensures
        nodes.len() > 0 ==> before + nodes.len() <= MAX_FILTER_NODES,
    decreases nodes.len(),
{
    if nodes.len() > 0 {
        lemma_faultless_nodes_fit(nodes.drop_first(), before + 1);
    }
}

fn validate_values(field: &AgentViewField, values: &Vec<AgentViewValue>) -> (result: Result<
    (),
    String,
>)
    ensures
        verdict(result, values_fault(*field, values@)),
{
    let mut i: usize = 0;
    while i < values.len()
        invariant
            i <= values.len(),
            values_fault(*field, values@.take(i as int)) is None,
        decreases values.len() - i,
    {
        proof {
            assert(values@.take(i + 1).drop_last() =~= values@.take(i as int));
        }
        match validate_field_value(field, &values[i]) {
            Ok(()) => {},
            Err(error) => {
                proof {
                    lemma_values_fault_stays(*field, values@, i + 1);
                }
                return Err(error);
            },
        }
        i = i + 1;
    }
    proof {
        assert(values@.take(values@.len() as int) =~= values@);
    }
    Ok(())
}

proof fn lemma_values_fault_stays(field: AgentViewField, values: Seq<AgentViewValue>, n: int)
    requires
        0 <= n <= values.len(),
        values_fault(field, values.take(n)) is Some,
    ensures
        values_fault(field, values) == values_fault(field, values.take(n)),
    decreases values.len(),
{
    if n == values.len() {
        assert(values.take(n) =~= values);
    } else {
        assert(values.drop_last().take(n) =~= values.take(n));
        lemma_values_fault_stays(field, values.drop_last(), n);
    }
}

/// The complaint about a filter without a fault of its own is that about its parts.
proof fn lemma_inside(filter: AgentViewFilter, depth: nat, before: nat)
    requires
        node_fault((filter, depth), before) is None,
    ensures
        ({
            let inside = nodes_of_parts(filter, parts(filter).len(), depth + 1);
            &&& nodes_fault(nodes_of(filter, depth), before) == nodes_fault(inside, before + 1)
            &&& nodes_counted(nodes_of(filter, depth), before) == 1 + nodes_counted(
                inside,
                before + 1,
            )
        }),
{
    let all = nodes_of(filter, depth);
    assert(all[0] == (filter, depth));
    assert(all.drop_first() =~= nodes_of_parts(filter, parts(filter).len(), depth + 1));
}

/// Checks the parts of an `All` or an `Any` filter.
fn validate_parts(
    filter: &AgentViewFilter,
    filters: &Vec<AgentViewFilter>,
    depth: usize,
    nodes: &mut usize,
) -> (result: Result<(), String>)
    requires
        *filter == (AgentViewFilter::All { filters: *filters }) || *filter == (
        AgentViewFilter::Any { filters: *filters }),
        depth <= MAX_FILTER_DEPTH,
        *old(nodes) <= MAX_FILTER_NODES,
    ensures
        verdict(
            result,
            nodes_fault(
                nodes_of_parts(*filter, parts(*filter).len(), depth as nat + 1),
                *old(nodes) as nat,
            ),
        ),
        *final(nodes) == *old(nodes) + nodes_counted(
            nodes_of_parts(*filter, parts(*filter).len(), depth as nat + 1),
            *old(nodes) as nat,
        ),
    decreases *filter, 0nat,
{
    let ghost whole = *filter;
    let ghost before = *nodes as nat;
    let ghost inner = depth as nat + 1;
    let mut i: usize = 0;
    while i < filters.len()
        invariant
            i <= filters.len(),
            whole == *filter,
            whole == (AgentViewFilter::All { filters: *filters }) || whole == (
            AgentViewFilter::Any { filters: *filters }),
            parts(whole) == filters@,
            depth <= MAX_FILTER_DEPTH,
            inner == depth as nat + 1,
            before == *old(nodes),
            nodes_fault(nodes_of_parts(whole, i as nat, inner), before) is None,
            *nodes == before + nodes_of_parts(whole, i as nat, inner).len(),
            *nodes <= MAX_FILTER_NODES,
        decreases filters.len() - i,
    {
        let ghost done = nodes_of_parts(whole, i as nat, inner);
        let ghost more = nodes_of(filters@[i as int], inner);
        proof {
            if whole is All {
                assert(decreases_to!(whole => whole->All_filters));
            } else {
                assert(decreases_to!(whole => whole->Any_filters));
            }
            lemma_nodes_joined(done, more, before);
            assert(nodes_of_parts(whole, (i + 1) as nat, inner) == done + more);
        }
        match validate_filter(&filters[i], depth + 1, nodes) {
            Ok(()) => {},
            Err(error) => {
                proof {
                    lemma_parts_fault_stays(
                        whole,
                        (i + 1) as nat,
                        parts(whole).len(),
                        inner,
                        before,
                    );
                }
                return Err(error);
            },
        }
        proof {
            lemma_nodes_joined(more, Seq::empty(), before + done.len());
            lemma_faultless_nodes_fit(done + more, before);
            assert(more.len() > 0);
        }
        i = i + 1;
    }
    proof {
        lemma_nodes_joined(nodes_of_parts(whole, i as nat, inner), Seq::empty(), before);
    }
    Ok(())
}

/// Checks a filter at a depth, after a number of nodes that were counted before it.
pub fn validate_filter(filter: &AgentViewFilter, depth: usize, nodes: &mut usize) -> (result:
    Result<(), String>)
    requires
        *old(nodes) < usize::MAX,
    ensures
        verdict(result, nodes_fault(nodes_of(*filter, depth as nat), *old(nodes) as nat)),
        *final(nodes) == *old(nodes) + nodes_counted(
            nodes_of(*filter, depth as nat),
            *old(nodes) as nat,
        ),
    decreases *filter, 1nat,
{
    proof {
        let node = (*filter, depth as nat);
        assert(nodes_of(*filter, depth as nat)[0] == node);
        if node_fault(node, *nodes as nat) is None {
            lemma_inside(*filter, depth as nat, *nodes as nat);
        }
        assert(nodes_of_parts(*filter, 0, depth as nat + 1) =~= Seq::empty());
    }
    if depth > MAX_FILTER_DEPTH {
        return Err(
            numbered_text("agent view filter may be nested at most ", MAX_FILTER_DEPTH, " levels"),
        );
    }
    *nodes = *nodes + 1;
    if *nodes > MAX_FILTER_NODES {
        return Err(
            numbered_text("agent view filter may contain at most ", MAX_FILTER_NODES, " nodes"),
        );
    }
    match filter {
        AgentViewFilter::All { filters } => {
            if filters.len() == 0 {
                return Err("agent view all/any filters must not be empty".to_owned());
            }
            validate_parts(filter, filters, depth, nodes)
        },
        AgentViewFilter::Any { filters } => {
            if filters.len() == 0 {
                return Err("agent view all/any filters must not be empty".to_owned());
            }
            validate_parts(filter, filters, depth, nodes)
        },
        AgentViewFilter::Not { filter: inner } => {
            proof {
                assert(nodes_of_parts(*filter, 1, depth as nat + 1) =~= nodes_of(
                    **inner,
                    depth as nat + 1,
                ));
            }
            validate_filter(inner, depth + 1, nodes)
        },
        AgentViewFilter::Eq { field, value } => validate_field_value(field, value),
        AgentViewFilter::In { field, values } => {
            if values.len() == 0 || values.len() > MAX_FILTER_VALUES {
                return Err(
                    numbered_text(
                        "agent view in filters require 1 to ",
                        MAX_FILTER_VALUES,
                        " values",
                    ),
                );
            }
            validate_values(field, values)
        },
        AgentViewFilter::Exists { field } => validate_field(field),
    }
}

/// A complaint about the first parts of a filter is the complaint about all of them.
proof fn lemma_parts_fault_stays(
    filter: AgentViewFilter,
    n: nat,
    m: nat,
    depth: nat,
    before: nat,
)
    requires
        n <= m <= parts(filter).len(),
        nodes_fault(nodes_of_parts(filter, n, depth), before) is Some,
    ensures
        nodes_fault(nodes_of_parts(filter, m, depth), before) == nodes_fault(
            nodes_of_parts(filter, n, depth),
            before,
        ),
        nodes_counted(nodes_of_parts(filter, m, depth), before) == nodes_counted(
            nodes_of_parts(filter, n, depth),
            before,
        ),
    decreases m,
{
    if n < m {
        let fewer = (m - 1) as nat;
        lemma_parts_fault_stays(filter, n, fewer, depth, before);
        lemma_nodes_joined(
            nodes_of_parts(filter, fewer, depth),
            nodes_of(parts(filter)[fewer as int], depth),
            before,
        );
    }
}

proof fn lemma_faultless_nodes(nodes: Seq<(AgentViewFilter, nat)>, before: nat)
    requires
        before <= MAX_FILTER_NODES,
    ensures
        nodes_fault(nodes, before) is None <==> before + nodes.len() <= MAX_FILTER_NODES && forall|
            i: int,
        |
            0 <= i < nodes.len() ==> (#[trigger] nodes[i]).1 <= MAX_FILTER_DEPTH && own_fault(
                nodes[i].0,
            ) is None,
    decreases nodes.len(),
{
    if nodes.len() > 0 {
        let rest = nodes.drop_first();
        if before < MAX_FILTER_NODES {
            lemma_faultless_nodes(rest, before + 1);
        }
        if nodes_fault(nodes, before) is None {
            assert forall|i: int| 0 <= i < nodes.len() implies (#[trigger] nodes[i]).1
                <= MAX_FILTER_DEPTH && own_fault(nodes[i].0) is None by {
                if i > 0 {
                    assert(rest[i - 1] == nodes[i]);
                }
            }
        }
        if forall|i: int|
            0 <= i < nodes.len() ==> (#[trigger] nodes[i]).1 <= MAX_FILTER_DEPTH && own_fault(
                nodes[i].0,
            ) is None {
            assert forall|i: int| 0 <= i < rest.len() implies (#[trigger] rest[i]).1
                <= MAX_FILTER_DEPTH && own_fault(rest[i].0) is None by {
                assert(rest[i] == nodes[i + 1]);
            }
            assert(nodes[0].1 <= MAX_FILTER_DEPTH);
        }
    }
}

/// The first complaint about the fields of a sort.
pub open spec fn sorts_fault(sorts: Seq<AgentViewSort>) -> Option<Seq<char>>
    decreases sorts.len(),
{
    if sorts.len() == 0 {
        None
    } else {
        match sorts_fault(sorts.drop_last()) {
            Some(fault) => Some(fault),
            None => sort_field_fault(sorts.last().field),
        }
    }
}

proof fn lemma_sorts_fault_stays(sorts: Seq<AgentViewSort>, n: int)
    requires
        0 <= n <= sorts.len(),
        sorts_fault(sorts.take(n)) is Some,
    ensures
        sorts_fault(sorts) == sorts_fault(sorts.take(n)),
    decreases sorts.len(),
{
    if n == sorts.len() {
        assert(sorts.take(n) =~= sorts);
    } else {
        assert(sorts.drop_last().take(n) =~= sorts.take(n));
        lemma_sorts_fault_stays(sorts.drop_last(), n);
    }
}

/// The complaint about the label of a view.
pub open spec fn label_fault(label: Option<String>) -> Option<Seq<char>> {
    match label {
        Some(label) => match normal_label(label@) {
            Ok(_) => None,
            Err(error) => Some(error),
        },
        None => None,
    }
}

/// The complaint about the filter of a view.
pub open spec fn filter_fault(filter: Option<AgentViewFilter>) -> Option<Seq<char>> {
    match filter {
        Some(filter) => nodes_fault(nodes_of(filter, 1), 0),
        None => None,
    }
}

/// The first complaint about a view.
pub open spec fn view_fault(view: AgentViewSetParams) -> Option<Seq<char>> {
    if let Err(error) = normal_source(view.source@) {
        Some(error)
    } else if label_fault(view.label) is Some {
        label_fault(view.label)
    } else if filter_fault(view.filter) is Some {
        filter_fault(view.filter)
    } else if view.sort@.len() > MAX_SORT_FIELDS {
        Some(
            numbered(
                "agent view sort may contain at most "@,
                MAX_SORT_FIELDS as nat,
                " fields"@,
            ),
        )
    } else {
        sorts_fault(view.sort@)
    }
}

/// A filter is accepted if and only if it has no more nodes than the limit, none of them lies too
/// deep, and none is at fault by itself.
pub proof fn accepted_filters(filter: AgentViewFilter)
    ensures
        filter_fault(Some(filter)) is None <==> nodes_of(filter, 1).len() <= MAX_FILTER_NODES
            && forall|i: int|
            0 <= i < nodes_of(filter, 1).len() ==> (#[trigger] nodes_of(filter, 1)[i]).1
                <= MAX_FILTER_DEPTH && own_fault(nodes_of(filter, 1)[i].0) is None,
{
    lemma_faultless_nodes(nodes_of(filter, 1), 0);
}

/// What a check does to the names of a view: the source is normalized if it is valid, and then
/// the label too. A label that is not valid is taken away.
pub open spec fn names_normalized(before: AgentViewSetParams, after: AgentViewSetParams) -> bool {
    match normal_source(before.source@) {
        Ok(source) => {
            &&& after.source@ == source
            &&& match before.label {
                Some(label) => match normal_label(label@) {
                    Ok(text) => after.label matches Some(normal) && normal@ == text,
                    Err(_) => after.label is None,
                },
                None => after.label is None,
            }
        },
        Err(_) => after.source == before.source && after.label == before.label,
    }
}

/// Checks a view and normalizes its names.
pub fn validate_agent_view(spec: &mut AgentViewSetParams) -> (result: Result<(), String>)
    ensures
        verdict(result, view_fault(*old(spec))),
        names_normalized(*old(spec), *final(spec)),
        final(spec).filter == old(spec).filter,
        final(spec).sort == old(spec).sort,
{
    match normalize_source(spec.source.as_str()) {
        Ok(source) => {
            spec.source = source;
        },
        Err(error) => {
            return Err(error);
        },
    }
    let label = spec.label.take();
    if let Some(label) = label {
        match normalize_label(label.as_str()) {
            Ok(label) => {
                spec.label = Some(label);
            },
            Err(error) => {
                return Err(error);
            },
        }
    }
    if let Some(filter) = &spec.filter {
        let mut nodes: usize = 0;
        match validate_filter(filter, 1, &mut nodes) {
            Ok(()) => {},
            Err(error) => {
                return Err(error);
            },
        }
    }
    if spec.sort.len() > MAX_SORT_FIELDS {
        return Err(
            numbered_text("agent view sort may contain at most ", MAX_SORT_FIELDS, " fields"),
        );
    }
    let mut i: usize = 0;
    while i < spec.sort.len()
        invariant
            i <= spec.sort.len(),
            sorts_fault(spec.sort@.take(i as int)) is None,
            spec.sort == old(spec).sort,
            spec.filter == old(spec).filter,
            names_normalized(*old(spec), *spec),
            view_fault(*old(spec)) == sorts_fault(spec.sort@),
        decreases spec.sort.len() - i,
    {
        proof {
            assert(spec.sort@.take(i + 1).drop_last() =~= spec.sort@.take(i as int));
        }
        match validate_sort_field(&spec.sort[i].field) {
            Ok(()) => {},
            Err(error) => {
                proof {
                    lemma_sorts_fault_stays(spec.sort@, i + 1);
                }
                return Err(error);
            },
        }
        i = i + 1;
    }
    proof {
        assert(spec.sort@.take(spec.sort@.len() as int) =~= spec.sort@);
    }
    Ok(())
}

proof fn lemma_source_char_is_no_space(c: char)
    requires
        source_char(c),
    ensures
        !white_space(c),
{
}

/// A source that was accepted once is accepted again as it is.
pub proof fn normal_source_stays(source: Seq<char>)
    requires
        normal_source(source) is Ok,
    ensures
        normal_source(normal_source(source)->Ok_0) == normal_source(source),
{
    let normal = trimmed(source);
    lemma_source_char_is_no_space(normal[0]);
    lemma_source_char_is_no_space(normal.last());
    assert(trim_start(normal) == normal);
    assert(trim_end(normal) == normal);
}

} // verus!
