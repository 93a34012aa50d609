//! The statuses that sessions report for their agents.

pub mod session;
pub mod view;

use vstd::prelude::*;

use crate::detect::AgentState;
use crate::text::same_text;

verus! {

/// The status of an agent as sessions report it.
#[derive(Debug, Clone, Copy, PartialEq, Eq, Structural)]
pub enum AgentStatus {
    Idle,
    Working,
    Blocked,
    Done,
    Unknown,
}

/// The name of a status on the wire.
pub open spec fn status_text(status: AgentStatus) -> Seq<char> {
    match status {
        AgentStatus::Idle => "idle"@,
        AgentStatus::Working => "working"@,
        AgentStatus::Blocked => "blocked"@,
        AgentStatus::Done => "done"@,
        AgentStatus::Unknown => "unknown"@,
    }
}

/// The status with a given name; names that are not known stand for `Unknown`.
pub open spec fn status_for_text(name: Seq<char>) -> AgentStatus {
    if name == "idle"@ {
        AgentStatus::Idle
    } else if name == "working"@ {
        AgentStatus::Working
    } else if name == "blocked"@ {
        AgentStatus::Blocked
    } else if name == "done"@ {
        AgentStatus::Done
    } else {
        AgentStatus::Unknown
    }
}

/// Reads the name of a status. A newer remote may report names that this build does not know
/// without an incompatible wire change; they degrade to `Unknown`.
pub fn agent_status_or_unknown(name: &str) -> (status: AgentStatus)
    ensures
        status == status_for_text(name@),
{
    if same_text(name, "idle") {
        AgentStatus::Idle
    } else if same_text(name, "working") {
        AgentStatus::Working
    } else if same_text(name, "blocked") {
        AgentStatus::Blocked
    } else if same_text(name, "done") {
        AgentStatus::Done
    } else {
        AgentStatus::Unknown
    }
}

/// The name of a status reads back as that status.
pub proof fn status_name_reads_back(status: AgentStatus)
    ensures
        status_for_text(status_text(status)) == status,
{
    reveal_strlit("idle");
    reveal_strlit("working");
    reveal_strlit("blocked");
    reveal_strlit("done");
    reveal_strlit("unknown");
    assert("idle"@[0] != "working"@[0]);
    assert("idle"@[0] != "blocked"@[0]);
    assert("idle"@[0] != "done"@[0]);
    assert("idle"@[0] != "unknown"@[0]);
    assert("working"@[0] != "blocked"@[0]);
    assert("working"@[0] != "done"@[0]);
    assert("working"@[0] != "unknown"@[0]);
    assert("blocked"@[0] != "done"@[0]);
    assert("blocked"@[0] != "unknown"@[0]);
    assert("done"@[0] != "unknown"@[0]);
}

/// The state of an agent, and whether its result has been seen, for a reported status.
pub open spec fn state_for_status(status: AgentStatus) -> (AgentState, bool) {
    match status {
        AgentStatus::Idle => (AgentState::Idle, true),
        AgentStatus::Working => (AgentState::Working, true),
        AgentStatus::Blocked => (AgentState::Blocked, true),
        AgentStatus::Done => (AgentState::Idle, false),
        AgentStatus::Unknown => (AgentState::Unknown, true),
    }
}

/// The state in which an agent with a reported status is presented.
pub fn presentation_state(status: AgentStatus) -> (state: (AgentState, bool))
    ensures
        state == state_for_status(status),
{
    match status {
        AgentStatus::Idle => (AgentState::Idle, true),
        AgentStatus::Working => (AgentState::Working, true),
        AgentStatus::Blocked => (AgentState::Blocked, true),
        AgentStatus::Done => (AgentState::Idle, false),
        AgentStatus::Unknown => (AgentState::Unknown, true),
    }
}

/// The status to report for a presented state.
pub open spec fn status_for_state(state: AgentState, seen: bool) -> AgentStatus {
    match state {
        AgentState::Idle => if seen {
            AgentStatus::Idle
        } else {
            AgentStatus::Done
        },
        AgentState::Working => AgentStatus::Working,
        AgentState::Blocked => AgentStatus::Blocked,
        AgentState::Unknown => AgentStatus::Unknown,
    }
}

/// The status to report for an agent in a presented state.
pub fn agent_status_for_presentation(state: AgentState, seen: bool) -> (status: AgentStatus)
    ensures
        status == status_for_state(state, seen),
{
    match state {
        AgentState::Idle => if seen {
            AgentStatus::Idle
        } else {
            AgentStatus::Done
        },
        AgentState::Working => AgentStatus::Working,
        AgentState::Blocked => AgentStatus::Blocked,
        AgentState::Unknown => AgentStatus::Unknown,
    }
}

/// A status that was taken in is reported again as the same status.
pub proof fn status_survives_presentation(status: AgentStatus)
    ensures
        status_for_state(state_for_status(status).0, state_for_status(status).1) == status,
{
}

/// Statuses are named in lower case, each by its own name, and every other name stands for an
/// unknown status.
pub proof fn statuses_have_their_names(name: Seq<char>)
    ensures
        status_text(AgentStatus::Idle) == "idle"@,
        status_text(AgentStatus::Working) == "working"@,
        status_text(AgentStatus::Blocked) == "blocked"@,
        status_text(AgentStatus::Done) == "done"@,
        status_text(AgentStatus::Unknown) == "unknown"@,
        status_for_text(name) is Idle <==> name == "idle"@,
        status_for_text(name) is Working <==> name == "working"@,
        status_for_text(name) is Blocked <==> name == "blocked"@,
        status_for_text(name) is Done <==> name == "done"@,
{
    status_name_reads_back(AgentStatus::Idle);
    status_name_reads_back(AgentStatus::Working);
    status_name_reads_back(AgentStatus::Blocked);
    status_name_reads_back(AgentStatus::Done);
}

/// An agent that is done is idle and has not been seen; with every other status it has been seen,
/// and is in the state of that name.
pub proof fn done_agents_are_idle_and_unseen(status: AgentStatus)
    ensures
        state_for_status(status).1 <==> !(status is Done),
        state_for_status(status).0 is Idle <==> status is Idle || status is Done,
        state_for_status(status).0 is Working <==> status is Working,
        state_for_status(status).0 is Blocked <==> status is Blocked,
        state_for_status(status).0 is Unknown <==> status is Unknown,
{
}

/// An idle agent that has not been seen is reported as done; every other agent is reported by its
/// state, seen or not.
pub proof fn unseen_idle_agents_are_done(state: AgentState, seen: bool)
    ensures
        status_for_state(state, seen) is Done <==> state is Idle && !seen,
        status_for_state(state, seen) is Idle <==> state is Idle && seen,
        status_for_state(state, seen) is Working <==> state is Working,
        status_for_state(state, seen) is Blocked <==> state is Blocked,
        status_for_state(state, seen) is Unknown <==> state is Unknown,
{
}

} // verus!
