//! Configured remote agent sources.

use vstd::prelude::*;
use vstd::string::*;

use crate::text::same_text;

verus! {

/// A remote session whose agents are shown in the panel.
#[derive(Debug, PartialEq, Eq)]
pub struct RemoteAgentSourceConfig {
    /// Where the session is reached.
    pub target: String,
    /// The name to show for the source.
    pub label: Option<String>,
    /// The name of the session at the target.
    pub session: String,
}

/// The label of a source: its name or its target, and its session unless that is the default one.
pub open spec fn source_label(source: RemoteAgentSourceConfig) -> Seq<char> {
    let name = match source.label {
        Some(label) => label@,
        None => source.target@,
    };
    if source.session@ == "default"@ {
        name
    } else {
        name + "/"@ + source.session@
    }
}

impl Clone for RemoteAgentSourceConfig {
    fn clone(&self) -> (copy: Self)
        ensures
            copy == *self,
    {
        RemoteAgentSourceConfig {
            target: self.target.clone(),
            label: self.label.clone(),
            session: self.session.clone(),
        }
    }
}

impl RemoteAgentSourceConfig {
    /// The label under which the source stands in the panel.
    pub fn fleet_label(&self) -> (label: String)
        ensures
            label@ == source_label(*self),
    {
        let mut label = match &self.label {
            Some(label) => label.clone(),
            None => self.target.clone(),
        };
        if !same_text(self.session.as_str(), "default") {
            label.append("/");
            label.append(self.session.as_str());
        }
        label
    }
}

} // verus!
