//! Agent kinds and the states they are observed in.

use vstd::prelude::*;

use crate::text::same_text;

verus! {

/// What an agent is doing.
#[derive(Debug, Clone, Copy, PartialEq, Eq, Structural)]
pub enum AgentState {
    Idle,
    Working,
    Blocked,
    Unknown,
}

/// The agent kinds that are recognized by their label.
#[derive(Debug, Clone, Copy, PartialEq, Eq, Structural)]
pub enum Agent {
    Claude,
}

/// A label by which an agent kind is reported.
#[derive(Debug, PartialEq, Eq)]
pub struct AgentLabel {
    pub label: String,
    pub agent: Agent,
}

/// The agent kind that a label names: that of the first known label that is the same.
pub open spec fn agent_for_label(known: Seq<AgentLabel>, label: Seq<char>) -> Option<Agent>
    decreases known.len(),
{
    if known.len() == 0 {
        None
    } else if known[0].label@ == label {
        Some(known[0].agent)
    } else {
        agent_for_label(known.drop_first(), label)
    }
}

/// The agent kind that a label names, among the known labels.
pub fn parse_agent_label(known: &Vec<AgentLabel>, label: &str) -> (agent: Option<Agent>)
    ensures
        agent == agent_for_label(known@, label@),
{
    let mut i: usize = 0;
    proof {
        assert(known@.skip(0) =~= known@);
    }
    while i < known.len()
        invariant
            i <= known.len(),
            agent_for_label(known@, label@) == agent_for_label(known@.skip(i as int), label@),
        decreases known.len() - i,
    {
        proof {
            assert(known@.skip(i as int)[0] == known@[i as int]);
            assert(known@.skip(i as int).drop_first() =~= known@.skip(i + 1));
        }
        if same_text(known[i].label.as_str(), label) {
            return Some(known[i].agent);
        }
        i = i + 1;
    }
    None
}

/// A label that is not known names no kind.
pub proof fn unknown_labels_name_no_kind(known: Seq<AgentLabel>, label: Seq<char>)
    requires
        forall|k: int| 0 <= k < known.len() ==> (#[trigger] known[k]).label@ != label,
    ensures
        agent_for_label(known, label) is None,
    decreases known.len(),
{
    if known.len() > 0 {
        assert(known[0].label@ != label);
        let rest = known.drop_first();
        assert forall|k: int| 0 <= k < rest.len() implies (#[trigger] rest[k]).label@ != label by {
            assert(rest[k] == known[k + 1]);
        }
        unknown_labels_name_no_kind(rest, label);
    }
}

/// A known label names the kind that it first stands for.
pub proof fn first_known_label_names_the_kind(known: Seq<AgentLabel>, label: Seq<char>, k: int)
    requires
        0 <= k < known.len(),
        known[k].label@ == label,
        forall|e: int| 0 <= e < k ==> (#[trigger] known[e]).label@ != label,
    ensures
        agent_for_label(known, label) == Some(known[k].agent),
    decreases known.len(),
{
    if k > 0 {
        assert(known[0].label@ != label);
        let rest = known.drop_first();
        assert forall|e: int| 0 <= e < k - 1 implies (#[trigger] rest[e]).label@ != label by {
            assert(rest[e] == known[e + 1]);
        }
        first_known_label_names_the_kind(rest, label, k - 1);
    }
}

} // verus!
