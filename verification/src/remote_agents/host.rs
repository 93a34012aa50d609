//! Remote hosts, their registrations, and the updates that watchers send for them.

use std::sync::atomic::AtomicBool;
use std::sync::Arc;

use vstd::prelude::*;
use vstd::string::*;

use crate::config::RemoteAgentSourceConfig;
use crate::remote_agents::presentation::{RemoteAgentSnapshot, SnapshotModel};
use crate::text::chars_of;

verus! {

/// Stands between the target and the session in the key of a host.
pub const KEY_SEPARATOR: char = '\u{1f}';

/// Identifies a remote host: a session at a target.
#[derive(Debug, PartialEq, Eq, Hash, PartialOrd, Ord)]
pub struct RemoteHostKey(pub String);

impl View for RemoteHostKey {
    type V = Seq<char>;

    open spec fn view(&self) -> Seq<char> {
        self.0@
    }
}

impl Clone for RemoteHostKey {
    fn clone(&self) -> (copy: Self)
        ensures
            copy == *self,
    {
        RemoteHostKey(self.0.clone())
    }
}

/// The key of a session at a target.
pub open spec fn host_key(target: Seq<char>, session: Seq<char>) -> Seq<char> {
    target.push(KEY_SEPARATOR) + session
}

/// Where the separator first stands in a key, or its length where there is none.
pub open spec fn separator_position(key: Seq<char>) -> int
    decreases key.len(),
{
    if key.len() == 0 || key[0] == KEY_SEPARATOR {
        0
    } else {
        1 + separator_position(key.drop_first())
    }
}

/// The target that a key names: what stands before the separator.
pub open spec fn key_target(key: Seq<char>) -> Seq<char> {
    key.take(separator_position(key))
}

/// The session that a key names: what stands behind the separator.
pub open spec fn key_session(key: Seq<char>) -> Seq<char> {
    if separator_position(key) < key.len() {
        key.skip(separator_position(key) + 1)
    } else {
        Seq::empty()
    }
}

proof fn lemma_separator_position(key: Seq<char>, at: int)
    requires
        0 <= at <= key.len(),
        forall|i: int| 0 <= i < at ==> #[trigger] key[i] != KEY_SEPARATOR,
        at < key.len() ==> key[at] == KEY_SEPARATOR,
    ensures
        separator_position(key) == at,
    decreases at,
{
    if at > 0 {
        assert forall|i: int| 0 <= i < at - 1 implies #[trigger] key.drop_first()[i]
            != KEY_SEPARATOR by {
            assert(key[i + 1] != KEY_SEPARATOR);
        }
        lemma_separator_position(key.drop_first(), at - 1);
    }
}

/// A key gives back the target and the session that it was made of, for targets without the
/// separator.
pub proof fn key_parts_read_back(target: Seq<char>, session: Seq<char>)
    requires
        !target.contains(KEY_SEPARATOR),
    ensures
        key_target(host_key(target, session)) == target,
        key_session(host_key(target, session)) == session,
{
    let key = host_key(target, session);
    assert forall|i: int| 0 <= i < target.len() implies #[trigger] key[i] != KEY_SEPARATOR by {
        assert(key[i] == target[i]);
        assert(target.contains(target[i]));
    }
    lemma_separator_position(key, target.len() as int);
    assert(key.take(target.len() as int) =~= target);
    assert(key.skip(target.len() as int + 1) =~= session);
}

/// Different sessions or targets have different keys, for targets without the separator.
pub proof fn keys_tell_hosts_apart(
    target_a: Seq<char>,
    session_a: Seq<char>,
    target_b: Seq<char>,
    session_b: Seq<char>,
)
    requires
        !target_a.contains(KEY_SEPARATOR),
        !target_b.contains(KEY_SEPARATOR),
        host_key(target_a, session_a) == host_key(target_b, session_b),
    ensures
        target_a == target_b,
        session_a == session_b,
{
    key_parts_read_back(target_a, session_a);
    key_parts_read_back(target_b, session_b);
}

impl RemoteHostKey {
    /// The key of a configured source.
    pub fn for_source(source: &RemoteAgentSourceConfig) -> (key: Self)
        ensures
            key@ == host_key(source.target@, source.session@),
    {
        let mut key = source.target.clone();
        key.push(KEY_SEPARATOR);
        key.append(source.session.as_str());
        RemoteHostKey(key)
    }

    /// The target and the session that a key names.
    pub fn split_key(key: &str) -> (parts: (&str, &str))
        ensures
            parts.0@ == key_target(key@),
            parts.1@ == key_session(key@),
    {
        let chars = chars_of(key);
        let mut at: usize = 0;
        while at < chars.len() && chars[at] != KEY_SEPARATOR
            invariant
                at <= chars.len(),
                forall|i: int| 0 <= i < at ==> #[trigger] chars@[i] != KEY_SEPARATOR,
            decreases chars.len() - at,
        {
            at = at + 1;
        }
        proof {
            lemma_separator_position(chars@, at as int);
        }
        let target = key.substring_char(0, at);
        if at < chars.len() {
            let session = key.substring_char(at + 1, chars.len());
            proof {
                assert(session@ =~= key@.skip(at + 1));
            }
            (target, session)
        } else {
            proof {
                reveal_strlit("");
                assert(""@ =~= Seq::<char>::empty());
            }
            (target, "")
        }
    }
}

/// A host that is being watched, as the registry is told of it.
#[derive(Debug, PartialEq, Eq)]
pub struct RemoteHostRegistration {
    pub key: RemoteHostKey,
    pub label: String,
    pub generation: u64,
    pub order: usize,
}

/// What a watcher has to say about its host.
#[derive(Debug)]
pub enum RemoteAgentUpdateKind {
    Snapshot(RemoteAgentSnapshot),
    Offline { error: String },
}

/// What a watcher has to say, as mathematical values.
pub enum UpdateModel {
    Snapshot(SnapshotModel),
    Offline { error: Seq<char> },
}

impl View for RemoteAgentUpdateKind {
    type V = UpdateModel;

    open spec fn view(&self) -> UpdateModel {
        match self {
            RemoteAgentUpdateKind::Snapshot(snapshot) => UpdateModel::Snapshot(snapshot@),
            RemoteAgentUpdateKind::Offline { error } => UpdateModel::Offline { error: error@ },
        }
    }
}

/// An update for one host. A claimed update holds the pending mark of its host until it is dropped.
#[derive(Debug)]
pub struct RemoteAgentUpdate {
    pub host: RemoteHostKey,
    pub generation: u64,
    pub kind: RemoteAgentUpdateKind,
    /// The pending mark that is cleared when the update is dropped.
    pub completion: Option<Arc<AtomicBool>>,
}

/// Clears a pending mark with `AtomicBool::store`. The mark is shared with other threads, so
/// nothing is claimed of what it holds afterwards; a store with release ordering does not panic.
#[verifier::external_body]
fn clear_pending(mark: &AtomicBool)
    opens_invariants none
    no_unwind
{
    mark.store(false, std::sync::atomic::Ordering::Release);
}

/// A pending mark was cleared.
pub closed spec fn cleared(mark: Arc<AtomicBool>) -> bool {
    call_ensures(clear_pending, (&*mark,), ())
}

impl Drop for RemoteAgentUpdate {
    /// Clears the pending mark that the update holds, if it holds one.
    fn drop(&mut self)
        ensures
            old(self).completion matches Some(mark) ==> cleared(mark),
            *final(self) == *old(self),
        opens_invariants none
        no_unwind
    {
        if let Some(completion) = &self.completion {
            clear_pending(completion);
        }
    }
}

/// What can come back of an attempt to take a pending mark: of the exchange of `false` for `true`
/// with `AtomicBool::compare_exchange`.
pub open spec fn attempt_to_take(pending: Arc<AtomicBool>, outcome: Result<bool, bool>) -> bool {
    call_ensures(
        AtomicBool::compare_exchange,
        (
            &*pending,
            false,
            true,
            std::sync::atomic::Ordering::AcqRel,
            std::sync::atomic::Ordering::Acquire,
        ),
        outcome,
    )
}

impl RemoteAgentUpdate {
    /// An update that holds the pending mark of its host, unless another update holds it. Whether
    /// one does depends on the other threads that share the mark.
    pub fn claim(
        host: RemoteHostKey,
        generation: u64,
        kind: RemoteAgentUpdateKind,
        pending: &Arc<AtomicBool>,
    ) -> (update: Option<Self>)
        ensures
            exists|outcome: Result<bool, bool>| #[trigger]
                attempt_to_take(*pending, outcome) && (update is Some <==> outcome is Ok),
            update matches Some(u) ==> u.host == host && u.generation == generation && u.kind
                == kind && u.completion == Some(*pending),
    {
        let claimed = pending.compare_exchange(
            false,
            true,
            std::sync::atomic::Ordering::AcqRel,
            std::sync::atomic::Ordering::Acquire,
        );
        assert(attempt_to_take(*pending, claimed));
        Self::claim_if(claimed.is_ok(), host, generation, kind, pending)
    }

    /// An update that holds a pending mark, where the mark was free to take.
    pub fn claim_if(
        claimed: bool,
        host: RemoteHostKey,
        generation: u64,
        kind: RemoteAgentUpdateKind,
        pending: &Arc<AtomicBool>,
    ) -> (update: Option<Self>)
        ensures
            update is Some <==> claimed,
            update matches Some(u) ==> u.host == host && u.generation == generation && u.kind
                == kind && u.completion == Some(*pending),
    {
        if !claimed {
            return None;
        }
        Some(RemoteAgentUpdate { host, generation, kind, completion: Some(pending.clone()) })
    }

    /// An update that holds no pending mark.
    pub fn immediate(host: RemoteHostKey, generation: u64, kind: RemoteAgentUpdateKind) -> (update:
        Self)
        ensures
            update.host == host,
            update.generation == generation,
            update.kind == kind,
            update.completion is None,
    {
        RemoteAgentUpdate { host, generation, kind, completion: None }
    }
}

} // verus!
